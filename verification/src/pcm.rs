use vstd::prelude::*;

verus! {

/// Encoding of the incoming PCM byte stream.
#[derive(Debug, Clone, Copy, PartialEq, Eq, Structural)]
pub enum PcmFormat {
    /// Signed 16-bit little-endian samples.
    I16LE,
    /// IEEE 754 single-precision little-endian samples.
    F32LE,
}

impl Default for PcmFormat {
    fn default() -> (r: Self)
        ensures
            r == PcmFormat::I16LE,
    {
        PcmFormat::I16LE
    }
}

/// Number of bytes that make up one sample.
pub open spec fn sample_width(format: PcmFormat) -> nat {
    match format {
        PcmFormat::I16LE => 2,
        PcmFormat::F32LE => 4,
    }
}

/// The little-endian word held by the `w` bytes of `s` that start at `i`
/// (`w` is 2 or 4).
pub open spec fn le_word(s: Seq<u8>, i: int, w: nat) -> u32 {
    if w == 2 {
        (s[i] + 256 * s[i + 1]) as u32
    } else {
        (s[i] + 256 * s[i + 1] + 65536 * s[i + 2] + 16777216 * s[i + 3]) as u32
    }
}

/// `word` is the little-endian reading of the two or four bytes `b`: byte
/// `j` of `b` is bits `8 * j .. 8 * j + 8` of `word`, and no bit above the
/// last byte is set.
pub open spec fn is_le_reading(word: u32, b: Seq<u8>) -> bool {
    if b.len() == 2 {
        &&& word & 0xff == b[0] as u32
        &&& word >> 8u32 == b[1] as u32
    } else {
        &&& b.len() == 4
        &&& word & 0xff == b[0] as u32
        &&& (word >> 8u32) & 0xff == b[1] as u32
        &&& (word >> 16u32) & 0xff == b[2] as u32
        &&& word >> 24u32 == b[3] as u32
    }
}

proof fn lemma_bytes2(a: u8, b: u8, v: u32)
    by (bit_vector)
    requires
        v == a as u32 + b as u32 * 256,
    ensures
        v & 0xff == a as u32,
        v >> 8u32 == b as u32,
{
}

proof fn lemma_bytes4(a: u8, b: u8, c: u8, d: u8, v: u32)
    by (bit_vector)
    requires
        v == a as u32 + b as u32 * 256 + c as u32 * 65536 + d as u32 * 16777216,
    ensures
        v & 0xff == a as u32,
        (v >> 8u32) & 0xff == b as u32,
        (v >> 16u32) & 0xff == c as u32,
        v >> 24u32 == d as u32,
{
}

/// The word read at `i` is the little-endian reading of the `w` bytes there.
proof fn lemma_le_word_reads_bytes(s: Seq<u8>, i: int, w: nat)
    requires
        w == 2 || w == 4,
        0 <= i,
        i + w <= s.len(),
    ensures
        is_le_reading(le_word(s, i, w), s.subrange(i, i + w)),
{
    let b = s.subrange(i, i + w);
    let v = le_word(s, i, w);
    if w == 2 {
        assert(v == s[i] as u32 + s[i + 1] as u32 * 256);
        lemma_bytes2(s[i], s[i + 1], v);
    } else {
        assert(v == s[i] as u32 + s[i + 1] as u32 * 256 + s[i + 2] as u32 * 65536 + s[i + 3] as u32
            * 16777216);
        lemma_bytes4(s[i], s[i + 1], s[i + 2], s[i + 3], v);
    }
    assert(b[0] == s[i] && b[1] == s[i + 1]);
    if w == 4 {
        assert(b[2] == s[i + 2] && b[3] == s[i + 3]);
    }
}

/// Sample `k` of `s` is the little-endian reading of bytes
/// `k * w .. k * w + w` of `s`.
pub proof fn lemma_words_are_little_endian(s: Seq<u8>, w: nat)
    requires
        w == 2 || w == 4,
    ensures
        forall|k: int|
            0 <= k < words(s, w).len() ==> is_le_reading(
                #[trigger] words(s, w)[k],
                s.subrange(k * w, k * w + w),
            ),
{
    assert forall|k: int| 0 <= k < words(s, w).len() implies is_le_reading(
        #[trigger] words(s, w)[k],
        s.subrange(k * w, k * w + w),
    ) by {
        assert(k * w + w <= s.len()) by (nonlinear_arith)
            requires
                0 <= k < (s.len() as int) / (w as int),
                w > 0,
        ;
        assert(0 <= k * w) by (nonlinear_arith)
            requires
                0 <= k,
                w > 0,
        ;
        lemma_le_word_reads_bytes(s, k * w, w);
    }
}

/// The complete samples of `s`, read `w` bytes at a time from the front.
pub open spec fn words(s: Seq<u8>, w: nat) -> Seq<u32> {
    Seq::new(s.len() / w, |k: int| le_word(s, k * w, w))
}

/// The trailing bytes of `s` that do not fill a whole sample.
pub open spec fn remainder(s: Seq<u8>, w: nat) -> Seq<u8> {
    s.skip((s.len() / w * w) as int)
}

/// What one parsing call appends to the output and what it leaves as the
/// carried-over bytes, given the chunk `bytes` and the bytes `leftover`
/// carried over from the previous call.
pub open spec fn parse_step(format: PcmFormat, bytes: Seq<u8>, leftover: Seq<u8>) -> (Seq<u32>, Seq<u8>) {
    let w = sample_width(format);
    if leftover.len() == 0 {
        (words(bytes, w), remainder(bytes, w))
    } else {
        match format {
            PcmFormat::I16LE => if bytes.len() == 0 {
                (Seq::empty(), leftover)
            } else {
                (
                    seq![le_word(seq![leftover[0], bytes[0]], 0, 2)] + words(bytes.skip(1), 2),
                    remainder(bytes.skip(1), 2),
                )
            },
            PcmFormat::F32LE => {
                let need = 4 - leftover.len();
                if bytes.len() < need {
                    (Seq::empty(), leftover + bytes)
                } else {
                    (
                        seq![le_word(leftover + bytes.take(need), 0, 4)] + words(bytes.skip(need), 4),
                        remainder(bytes.skip(need), 4),
                    )
                }
            },
        }
    }
}

fn read_word(s: &[u8], i: usize, w: usize) -> (r: u32)
    requires
        w == 2 || w == 4,
        i + w <= s@.len(),
    ensures
        r == le_word(s@, i as int, w as nat),
        is_le_reading(r, s@.subrange(i as int, i + w)),
{
    proof {
        lemma_le_word_reads_bytes(s@, i as int, w as nat);
    }
    if w == 2 {
        s[i] as u32 + (s[i + 1] as u32) * 256
    } else {
        s[i] as u32 + (s[i + 1] as u32) * 256 + (s[i + 2] as u32) * 65536 + (s[i + 3] as u32)
            * 16777216
    }
}

proof fn lemma_words_push(s: Seq<u8>, start: int, i: int, w: nat)
    requires
        w == 2 || w == 4,
        0 <= start <= i,
        i + w <= s.len(),
        (i - start) % (w as int) == 0,
    ensures
        words(s.subrange(start, i + w), w) == words(s.subrange(start, i), w).push(
            le_word(s, i, w),
        ),
        (i + w - start) % (w as int) == 0,
{
    let a = s.subrange(start, i + w);
    let b = s.subrange(start, i);
    if w == 2 {
        assert(a.len() / 2 == b.len() / 2 + 1);
        assert forall|k: int| 0 <= k < b.len() / 2 implies #[trigger] words(a, 2)[k] == words(b, 2)[k] by {
            assert(k * 2 + 1 < b.len());
        }
        assert(le_word(a, ((b.len() / 2) * 2) as int, 2) == le_word(s, i, 2)) by {
            assert((b.len() / 2) * 2 == i - start);
        }
    } else {
        assert(a.len() / 4 == b.len() / 4 + 1);
        assert forall|k: int| 0 <= k < b.len() / 4 implies #[trigger] words(a, 4)[k] == words(b, 4)[k] by {
            assert(k * 4 + 3 < b.len());
        }
        assert(le_word(a, ((b.len() / 4) * 4) as int, 4) == le_word(s, i, 4)) by {
            assert((b.len() / 4) * 4 == i - start);
        }
    }
    assert(words(a, w) =~= words(b, w).push(le_word(s, i, w)));
}

proof fn lemma_words_tail(s: Seq<u8>, m: int, w: nat)
    requires
        w == 2 || w == 4,
        0 <= m <= s.len(),
        m % (w as int) == 0,
        s.len() - m < w,
    ensures
        words(s, w) == words(s.take(m), w),
        s.len() / w * w == m,
{
    let t = s.take(m);
    if w == 2 {
        assert(s.len() / 2 == m / 2);
        assert forall|k: int| 0 <= k < m / 2 implies #[trigger] words(s, 2)[k] == words(t, 2)[k] by {
            assert(k * 2 + 1 < m);
        }
    } else {
        assert(s.len() / 4 == m / 4);
        assert forall|k: int| 0 <= k < m / 4 implies #[trigger] words(s, 4)[k] == words(t, 4)[k] by {
            assert(k * 4 + 3 < m);
        }
    }
    assert(words(s, w) =~= words(t, w));
}

/// Appends the complete samples of `bytes[start..]` to `out`; returns the
/// position just after the last complete sample.
fn append_words(bytes: &[u8], start: usize, w: usize, out: &mut Vec<u32>) -> (end: usize)
    requires
        w == 2 || w == 4,
        start <= bytes@.len(),
    ensures
        end as int == start + (bytes@.len() - start) / (w as int) * (w as int),
        final(out)@ == old(out)@ + words(bytes@.skip(start as int), w as nat),
        bytes@.skip(end as int) == remainder(bytes@.skip(start as int), w as nat),
{
    let n = bytes.len();
    let mut i = start;
    proof {
        assert(bytes@.subrange(start as int, start as int) =~= Seq::<u8>::empty());
        assert(words(Seq::<u8>::empty(), w as nat) =~= Seq::<u32>::empty());
        assert(old(out)@ + Seq::<u32>::empty() =~= old(out)@);
    }
    while n - i >= w
        invariant
            w == 2 || w == 4,
            n == bytes@.len(),
            start <= i <= n,
            (i - start) % (w as int) == 0,
            out@ == old(out)@ + words(bytes@.subrange(start as int, i as int), w as nat),
        decreases n - i,
    {
        let x = read_word(bytes, i, w);
        proof {
            lemma_words_push(bytes@, start as int, i as int, w as nat);
        }
        out.push(x);
        proof {
            assert(out@ =~= old(out)@ + words(bytes@.subrange(start as int, (i + w) as int), w as nat));
        }
        i = i + w;
    }
    proof {
        let s = bytes@.skip(start as int);
        lemma_words_tail(s, i - start, w as nat);
        assert(s.take(i - start) =~= bytes@.subrange(start as int, i as int));
        assert(bytes@.skip(i as int) =~= s.skip(i - start));
    }
    i
}

/// Pushes `bytes[from..]` onto `dst`.
fn append_tail(bytes: &[u8], from: usize, dst: &mut Vec<u8>)
    requires
        from <= bytes@.len(),
    ensures
        final(dst)@ == old(dst)@ + bytes@.skip(from as int),
{
    let n = bytes.len();
    let mut i = from;
    while i < n
        invariant
            n == bytes@.len(),
            from <= i <= n,
            dst@ == old(dst)@ + bytes@.subrange(from as int, i as int),
        decreases n - i,
    {
        dst.push(bytes[i]);
        proof {
            assert(dst@ =~= old(dst)@ + bytes@.subrange(from as int, i + 1));
        }
        i = i + 1;
    }
    proof {
        assert(bytes@.subrange(from as int, n as int) =~= bytes@.skip(from as int));
    }
}

fn parse_i16le_into(bytes: &[u8], leftover: &mut Vec<u8>, out: &mut Vec<u32>)
    ensures
        final(out)@ == old(out)@ + parse_step(PcmFormat::I16LE, bytes@, old(leftover)@).0,
        final(leftover)@ == parse_step(PcmFormat::I16LE, bytes@, old(leftover)@).1,
{
    let mut idx: usize = 0;
    if leftover.len() > 0 {
        if bytes.len() > 0 {
            let x = leftover[0] as u32 + (bytes[0] as u32) * 256;
            out.push(x);
            leftover.clear();
            idx = 1;
        } else {
            return;
        }
    }
    let end = append_words(bytes, idx, 2, out);
    leftover.clear();
    append_tail(bytes, end, leftover);
    proof {
        if idx == 1 {
            assert(out@ =~= old(out)@ + parse_step(PcmFormat::I16LE, bytes@, old(leftover)@).0);
        } else {
            assert(bytes@.skip(0) =~= bytes@);
            assert(out@ =~= old(out)@ + parse_step(PcmFormat::I16LE, bytes@, old(leftover)@).0);
        }
        assert(leftover@ =~= parse_step(PcmFormat::I16LE, bytes@, old(leftover)@).1);
    }
}

fn parse_f32le_into(bytes: &[u8], leftover: &mut Vec<u8>, out: &mut Vec<u32>)
    requires
        old(leftover)@.len() <= 4,
    ensures
        final(out)@ == old(out)@ + parse_step(PcmFormat::F32LE, bytes@, old(leftover)@).0,
        final(leftover)@ == parse_step(PcmFormat::F32LE, bytes@, old(leftover)@).1,
{
    let mut idx: usize = 0;
    if leftover.len() > 0 {
        let needed = 4 - leftover.len();
        if bytes.len() < needed {
            append_tail(bytes, 0, leftover);
            proof {
                assert(bytes@.skip(0) =~= bytes@);
            }
            return;
        }
        let mut joined: Vec<u8> = Vec::new();
        let mut j: usize = 0;
        while j < leftover.len()
            invariant
                0 <= j <= leftover@.len(),
                joined@ == leftover@.take(j as int),
            decreases leftover@.len() - j,
        {
            joined.push(leftover[j]);
            proof {
                assert(joined@ =~= leftover@.take(j + 1));
            }
            j = j + 1;
        }
        let mut k: usize = 0;
        while k < needed
            invariant
                needed <= bytes@.len(),
                0 <= k <= needed,
                joined@ == leftover@ + bytes@.take(k as int),
            decreases needed - k,
        {
            joined.push(bytes[k]);
            proof {
                assert(joined@ =~= leftover@ + bytes@.take(k + 1));
            }
            k = k + 1;
        }
        let x = read_word(joined.as_slice(), 0, 4);
        out.push(x);
        leftover.clear();
        idx = needed;
    }
    let end = append_words(bytes, idx, 4, out);
    leftover.clear();
    append_tail(bytes, end, leftover);
    proof {
        if old(leftover)@.len() == 0 {
            assert(bytes@.skip(0) =~= bytes@);
        }
        assert(out@ =~= old(out)@ + parse_step(PcmFormat::F32LE, bytes@, old(leftover)@).0);
        assert(leftover@ =~= parse_step(PcmFormat::F32LE, bytes@, old(leftover)@).1);
    }
}

/// Decodes PCM bytes into raw little-endian sample words, appending them to
/// `out`. Bytes that do not yet complete a sample are carried over in
/// `leftover` for the next call.
pub fn parse_pcm_bytes_into(
    bytes: &[u8],
    format: PcmFormat,
    leftover: &mut Vec<u8>,
    out: &mut Vec<u32>,
)
    requires
        format == PcmFormat::F32LE ==> old(leftover)@.len() <= 4,
    ensures
        final(out)@ == old(out)@ + parse_step(format, bytes@, old(leftover)@).0,
        final(leftover)@ == parse_step(format, bytes@, old(leftover)@).1,
        old(leftover)@.len() < sample_width(format) ==> {
            &&& final(out)@ == old(out)@ + words(old(leftover)@ + bytes@, sample_width(format))
            &&& final(leftover)@ == remainder(old(leftover)@ + bytes@, sample_width(format))
            &&& final(leftover)@.len() < sample_width(format)
        },
        old(leftover)@.len() < sample_width(format) ==> forall|k: int|
            0 <= k < final(out)@.len() - old(out)@.len() ==> is_le_reading(
                #[trigger] final(out)@[old(out)@.len() + k],
                (old(leftover)@ + bytes@).subrange(
                    k * sample_width(format),
                    k * sample_width(format) + sample_width(format),
                ),
            ),
{
    proof {
        if old(leftover)@.len() < sample_width(format) {
            lemma_parse_step_decodes_stream(format, bytes@, old(leftover)@);
            lemma_parsed_words_are_little_endian(format, bytes@, old(leftover)@);
        }
    }
    match format {
        PcmFormat::I16LE => parse_i16le_into(bytes, leftover, out),
        PcmFormat::F32LE => parse_f32le_into(bytes, leftover, out),
    }
}

/// Like `parse_pcm_bytes_into`, into a fresh vector.
pub fn parse_pcm_bytes(bytes: &[u8], format: PcmFormat, leftover: &mut Vec<u8>) -> (out: Vec<u32>)
    requires
        format == PcmFormat::F32LE ==> old(leftover)@.len() <= 4,
    ensures
        out@ == parse_step(format, bytes@, old(leftover)@).0,
        final(leftover)@ == parse_step(format, bytes@, old(leftover)@).1,
        old(leftover)@.len() < sample_width(format) ==> {
            &&& out@ == words(old(leftover)@ + bytes@, sample_width(format))
            &&& final(leftover)@ == remainder(old(leftover)@ + bytes@, sample_width(format))
        },
        old(leftover)@.len() < sample_width(format) ==> forall|k: int|
            0 <= k < out@.len() ==> is_le_reading(
                #[trigger] out@[k],
                (old(leftover)@ + bytes@).subrange(
                    k * sample_width(format),
                    k * sample_width(format) + sample_width(format),
                ),
            ),
{
    let mut out = Vec::new();
    parse_pcm_bytes_into(bytes, format, leftover, &mut out);
    proof {
        assert(out@ =~= parse_step(format, bytes@, old(leftover)@).0);
        if old(leftover)@.len() < sample_width(format) {
            lemma_parsed_words_are_little_endian(format, bytes@, old(leftover)@);
        }
    }
    out
}

/// The signed value of a 16-bit two's-complement sample word.
pub fn i16_from_word(word: u32) -> (r: i16)
    requires
        word < 65536,
    ensures
        r as int == if word < 32768 { word as int } else { word - 65536 },
{
    if word < 32768 {
        word as i16
    } else {
        (word as i32 - 65536) as i16
    }
}

proof fn lemma_words_split(s: Seq<u8>, m: int, w: nat)
    requires
        w == 2 || w == 4,
        0 <= m <= s.len(),
        m % (w as int) == 0,
    ensures
        words(s, w) == words(s.take(m), w) + words(s.skip(m), w),
        remainder(s, w) == remainder(s.skip(m), w),
{
    let a = s.take(m);
    let b = s.skip(m);
    if w == 2 {
        assert(s.len() / 2 == m / 2 + b.len() / 2);
        assert(a.len() / 2 == m / 2);
        assert forall|k: int| 0 <= k < s.len() / 2 implies #[trigger] words(s, 2)[k] == (words(a, 2) + words(b, 2))[k] by {
            if k < m / 2 {
                assert(k * 2 + 1 < m);
            } else {
                assert((k - m / 2) * 2 == k * 2 - m);
            }
        }
        assert(s.len() / 2 * 2 == m + b.len() / 2 * 2);
    } else {
        assert(s.len() / 4 == m / 4 + b.len() / 4);
        assert(a.len() / 4 == m / 4);
        assert forall|k: int| 0 <= k < s.len() / 4 implies #[trigger] words(s, 4)[k] == (words(a, 4) + words(b, 4))[k] by {
            if k < m / 4 {
                assert(k * 4 + 3 < m);
            } else {
                assert((k - m / 4) * 4 == k * 4 - m);
            }
        }
        assert(s.len() / 4 * 4 == m + b.len() / 4 * 4);
    }
    assert(words(s, w) =~= words(a, w) + words(b, w));
    assert(remainder(s, w) =~= remainder(b, w));
}

proof fn lemma_words_short(s: Seq<u8>, w: nat)
    requires
        w == 2 || w == 4,
        s.len() < w,
    ensures
        words(s, w) == Seq::<u32>::empty(),
        remainder(s, w) == s,
{
    if w == 2 { assert(s.len() / 2 == 0); } else { assert(s.len() / 4 == 0); }
    assert(words(s, w) =~= Seq::<u32>::empty());
    assert(remainder(s, w) =~= s);
}

proof fn lemma_words_single(s: Seq<u8>, w: nat)
    requires
        w == 2 || w == 4,
        s.len() == w,
    ensures
        words(s, w) == seq![le_word(s, 0, w)],
        remainder(s, w) == Seq::<u8>::empty(),
{
    if w == 2 { assert(s.len() / 2 == 1); } else { assert(s.len() / 4 == 1); }
    assert(words(s, w) =~= seq![le_word(s, 0, w)]);
    assert(remainder(s, w) =~= Seq::<u8>::empty());
}

/// Each sample that one parsing call emits is the little-endian reading of
/// its bytes in the carried bytes followed by the chunk: for 32-bit floats,
/// sample `k` holds the IEEE bits whose bytes, lowest first, are bytes
/// `4k .. 4k + 4`; for 16-bit samples, bytes `2k .. 2k + 2`.
pub proof fn lemma_parsed_words_are_little_endian(format: PcmFormat, bytes: Seq<u8>, leftover: Seq<u8>)
    requires
        leftover.len() < sample_width(format),
    ensures
        forall|k: int|
            0 <= k < parse_step(format, bytes, leftover).0.len() ==> is_le_reading(
                #[trigger] parse_step(format, bytes, leftover).0[k],
                (leftover + bytes).subrange(
                    k * sample_width(format),
                    k * sample_width(format) + sample_width(format),
                ),
            ),
{
    lemma_parse_step_decodes_stream(format, bytes, leftover);
    lemma_words_are_little_endian(leftover + bytes, sample_width(format));
}

/// When fewer bytes are carried over than one sample needs (as every call
/// leaves them), a parsing call decodes exactly the stream made of the
/// carried-over bytes followed by the new chunk: it emits all complete
/// samples of that stream and carries over its incomplete tail.
pub proof fn lemma_parse_step_decodes_stream(format: PcmFormat, bytes: Seq<u8>, leftover: Seq<u8>)
    requires
        leftover.len() < sample_width(format),
    ensures
        parse_step(format, bytes, leftover).0 == words(leftover + bytes, sample_width(format)),
        parse_step(format, bytes, leftover).1 == remainder(leftover + bytes, sample_width(format)),
        parse_step(format, bytes, leftover).1.len() < sample_width(format),
{
    let w = sample_width(format);
    let s = leftover + bytes;
    if leftover.len() == 0 {
        assert(s =~= bytes);
    } else {
        match format {
            PcmFormat::I16LE => {
                if bytes.len() == 0 {
                    assert(s =~= leftover);
                    lemma_words_short(s, 2);
                } else {
                    lemma_words_split(s, 2, 2);
                    assert(s.take(2) =~= seq![leftover[0], bytes[0]]);
                    lemma_words_single(s.take(2), 2);
                    assert(s.skip(2) =~= bytes.skip(1));
                }
            },
            PcmFormat::F32LE => {
                let need = 4 - leftover.len();
                if bytes.len() < need {
                    lemma_words_short(s, 4);
                } else {
                    lemma_words_split(s, 4, 4);
                    assert(s.take(4) =~= leftover + bytes.take(need));
                    lemma_words_single(s.take(4), 4);
                    assert(s.skip(4) =~= bytes.skip(need));
                }
            },
        }
    }
    let r = remainder(s, w);
    assert(r.len() == s.len() - s.len() / w * w);
}

/// An empty chunk emits nothing and keeps the carried-over bytes (for a
/// float stream, while they do not already fill a sample).
pub proof fn lemma_parse_empty_chunk(format: PcmFormat, leftover: Seq<u8>)
    requires
        format == PcmFormat::F32LE ==> leftover.len() < 4,
    ensures
        parse_step(format, Seq::<u8>::empty(), leftover) == (Seq::<u32>::empty(), leftover),
{
    let e = Seq::<u8>::empty();
    if leftover.len() == 0 {
        lemma_words_short(e, sample_width(format));
        assert(leftover =~= e);
    } else if format == PcmFormat::F32LE {
        assert(leftover + e =~= leftover);
    }
}

/// Parsing a whole byte stream from nothing carried over yields one sample
/// per complete group of `sample_width` bytes.
pub proof fn lemma_parsed_sample_count(format: PcmFormat, bytes: Seq<u8>)
    ensures
        parse_step(format, bytes, Seq::<u8>::empty()).0.len() == bytes.len() / sample_width(format),
{
}

proof fn lemma_words_concat(s1: Seq<u8>, b: Seq<u8>, w: nat)
    requires
        w == 2 || w == 4,
    ensures
        words(s1, w) + words(remainder(s1, w) + b, w) == words(s1 + b, w),
        remainder(remainder(s1, w) + b, w) == remainder(s1 + b, w),
{
    let s = s1 + b;
    let m: int = (s1.len() / w * w) as int;
    if w == 2 {
        assert(m % 2 == 0 && 0 <= m <= s1.len() && s1.len() - m < 2);
    } else {
        assert(m % 4 == 0 && 0 <= m <= s1.len() && s1.len() - m < 4);
    }
    lemma_words_split(s1, m, w);
    lemma_words_split(s, m, w);
    lemma_words_short(s1.skip(m), w);
    assert(s.take(m) =~= s1.take(m));
    assert(s.skip(m) =~= remainder(s1, w) + b);
    assert(words(s1, w) =~= words(s1.take(m), w));
}

/// Feeding a byte stream in two chunks produces the same samples, and
/// leaves the same carried-over bytes, as feeding it in one piece.
pub proof fn lemma_parse_chunking_invariant(format: PcmFormat, a: Seq<u8>, b: Seq<u8>, leftover: Seq<u8>)
    requires
        format == PcmFormat::F32LE ==> leftover.len() <= 4,
    ensures
        parse_step(format, a, leftover).0 + parse_step(format, b, parse_step(format, a, leftover).1).0
            == parse_step(format, a + b, leftover).0,
        parse_step(format, b, parse_step(format, a, leftover).1).1 == parse_step(format, a + b, leftover).1,
{
    let w = sample_width(format);
    let first = parse_step(format, a, leftover);
    if leftover.len() < w {
        lemma_parse_step_decodes_stream(format, a, leftover);
        lemma_parse_step_decodes_stream(format, b, first.1);
        lemma_parse_step_decodes_stream(format, a + b, leftover);
        lemma_words_concat(leftover + a, b, w);
        assert(leftover + a + b =~= leftover + (a + b));
    } else {
        match format {
            PcmFormat::I16LE => {
                if a.len() == 0 {
                    assert(a + b =~= b);
                    assert(first.0 + parse_step(format, b, first.1).0 =~= parse_step(format, b, first.1).0);
                } else {
                    let t = a.skip(1);
                    lemma_parse_step_decodes_stream(format, b, first.1);
                    lemma_words_concat(t, b, 2);
                    assert((a + b).skip(1) =~= t + b);
                    assert((a + b)[0] == a[0]);
                    assert(first.0 + parse_step(format, b, first.1).0 =~= parse_step(format, a + b, leftover).0);
                }
            },
            PcmFormat::F32LE => {
                assert(leftover.len() == 4);
                lemma_parse_step_decodes_stream(format, b, first.1);
                lemma_words_concat(a, b, 4);
                assert(a.skip(0) =~= a);
                assert((a + b).skip(0) =~= a + b);
                assert(a.take(0) =~= Seq::<u8>::empty());
                assert((a + b).take(0) =~= Seq::<u8>::empty());
                assert(leftover + a.take(0) =~= leftover);
                assert(first.0 + parse_step(format, b, first.1).0 =~= parse_step(format, a + b, leftover).0);
            },
        }
    }
}

/// The chunks of a byte stream joined in order.
pub open spec fn joined(chunks: Seq<Seq<u8>>) -> Seq<u8>
    decreases chunks.len(),
{
    if chunks.len() == 0 {
        Seq::empty()
    } else {
        joined(chunks.drop_last()) + chunks.last()
    }
}

/// The samples emitted, and the bytes left carried over, when the chunks
/// are parsed one after the other starting with nothing carried over.
pub open spec fn parse_chunks(format: PcmFormat, chunks: Seq<Seq<u8>>) -> (Seq<u32>, Seq<u8>)
    decreases chunks.len(),
{
    if chunks.len() == 0 {
        (Seq::empty(), Seq::empty())
    } else {
        let prev = parse_chunks(format, chunks.drop_last());
        let step = parse_step(format, chunks.last(), prev.1);
        (prev.0 + step.0, step.1)
    }
}

/// However a byte stream is cut into chunks, parsing the chunks in turn
/// emits the same samples and carries over the same bytes as parsing the
/// whole stream at once; in particular it emits one sample per complete
/// group of `sample_width` bytes.
pub proof fn lemma_parse_any_chunking(format: PcmFormat, chunks: Seq<Seq<u8>>)
    ensures
        parse_chunks(format, chunks) == parse_step(format, joined(chunks), Seq::<u8>::empty()),
        parse_chunks(format, chunks).0.len() == joined(chunks).len() / sample_width(format),
    decreases chunks.len(),
{
    let e = Seq::<u8>::empty();
    if chunks.len() == 0 {
        lemma_words_short(e, sample_width(format));
        assert(parse_step(format, e, e).1 =~= e);
    } else {
        let init = chunks.drop_last();
        lemma_parse_any_chunking(format, init);
        lemma_parse_chunking_invariant(format, joined(init), chunks.last(), e);
    }
    lemma_parsed_sample_count(format, joined(chunks));
}

proof fn lemma_joined_concat(x: Seq<Seq<u8>>, y: Seq<Seq<u8>>)
    ensures
        joined(x + y) == joined(x) + joined(y),
    decreases y.len(),
{
    if y.len() == 0 {
        assert(x + y =~= x);
        assert(joined(x) + joined(y) =~= joined(x));
    } else {
        lemma_joined_concat(x, y.drop_last());
        assert((x + y).drop_last() =~= x + y.drop_last());
        assert(joined(x) + joined(y) =~= joined(x) + joined(y.drop_last()) + y.last());
    }
}

/// Pushing an empty chunk changes nothing: the chunks that follow it emit
/// the same samples and leave the same carried-over bytes as they would
/// have without it.
pub proof fn lemma_empty_chunk_changes_nothing(format: PcmFormat, chunks: Seq<Seq<u8>>, rest: Seq<Seq<u8>>)
    ensures
        parse_chunks(format, chunks.push(Seq::<u8>::empty()) + rest) == parse_chunks(format, chunks + rest),
{
    let e = Seq::<u8>::empty();
    lemma_parse_any_chunking(format, chunks.push(e) + rest);
    lemma_parse_any_chunking(format, chunks + rest);
    lemma_joined_concat(chunks.push(e), rest);
    lemma_joined_concat(chunks, rest);
    assert(chunks.push(e).drop_last() =~= chunks);
    assert(joined(chunks.push(e)) =~= joined(chunks));
}

} // verus!
