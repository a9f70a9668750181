use vstd::prelude::*;

use crate::PyinError;
use crate::pcm::{PcmFormat, joined, parse_chunks, sample_width, lemma_parse_any_chunking, lemma_empty_chunk_changes_nothing};

verus! {

/// Smallest start offset above which the sample buffer is compacted:
/// four frames, but never less than 8192 samples.
pub open spec fn compaction_threshold(frame_size: nat) -> nat {
    let four = if 4 * frame_size <= usize::MAX { 4 * frame_size } else { usize::MAX as nat };
    if four >= 8192 { four } else { 8192 }
}

/// Number of complete frames in a stream of `n` samples: frames start
/// every `hop` samples and need `frame` samples each.
pub open spec fn complete_frames(n: nat, frame: nat, hop: nat) -> nat {
    if n < frame { 0 } else { ((n - frame) as int / hop as int + 1) as nat }
}

proof fn lemma_count_frames(t: nat, n: nat, frame: nat, hop: nat)
    requires
        hop > 0,
        t == 0 || (t - 1) * hop + frame <= n,
        n < t * hop + frame,
    ensures
        t == complete_frames(n, frame, hop),
{
    if n >= frame {
        let d = (n - frame) as int;
        let q = d / hop as int;
        vstd::arithmetic::div_mod::lemma_fundamental_div_mod(d, hop as int);
        let r = d % hop as int;
        assert(0 <= r < hop);
        assert(t >= 1) by {
            if t == 0 {
                assert(t * hop == 0) by (nonlinear_arith) requires t == 0;
            }
        }
        assert(q <= t - 1) by (nonlinear_arith)
            requires
                d == hop * q + r,
                0 <= r < hop,
                d < t * hop,
                hop > 0,
                t >= 1,
        {
        }
        assert(q >= t - 1) by (nonlinear_arith)
            requires
                d == hop * q + r,
                0 <= r < hop,
                (t - 1) * hop <= d,
                hop > 0,
                t >= 1,
        {
        }
    } else {
        if t > 0 {
            assert((t - 1) * hop >= 0) by (nonlinear_arith) requires t >= 1, hop > 0;
        }
    }
}

/// The number of complete frames never shrinks as the stream grows, and an
/// empty stream has none.
pub proof fn lemma_complete_frames_monotone(n1: nat, n2: nat, frame: nat, hop: nat)
    requires
        n1 <= n2,
        hop > 0,
    ensures
        complete_frames(n1, frame, hop) <= complete_frames(n2, frame, hop),
        frame > 0 ==> complete_frames(0, frame, hop) == 0,
{
    if n1 >= frame {
        vstd::arithmetic::div_mod::lemma_div_is_ordered((n1 - frame) as int, (n2 - frame) as int, hop as int);
    }
}

/// A growing stream of samples cut into overlapping analysis frames:
/// frame `k` is made of the samples `k * hop_size .. k * hop_size + frame_size`
/// of the stream, and is handed out as soon as all of them have arrived.
pub struct FrameStream<T> {
    frame_size: usize,
    hop_size: usize,
    samples: Vec<T>,
    sample_start: usize,
    frames: usize,
    last_emitted: usize,
    received: Ghost<Seq<T>>,
    dropped: Ghost<nat>,
}

impl<T: Copy> FrameStream<T> {
    /// Every sample received since creation or the last reset.
    pub closed spec fn stream(&self) -> Seq<T> {
        self.received@
    }

    /// The samples held in the buffer.
    pub closed spec fn buffered(&self) -> Seq<T> {
        self.samples@
    }

    /// Buffer position at which the next frame starts.
    pub closed spec fn start(&self) -> nat {
        self.sample_start as nat
    }

    /// Number of frames handed out.
    pub closed spec fn taken(&self) -> nat {
        self.frames as nat
    }

    /// Number of frames already reported as emitted.
    pub closed spec fn emitted(&self) -> nat {
        self.last_emitted as nat
    }

    pub closed spec fn spec_frame_size(&self) -> nat {
        self.frame_size as nat
    }

    pub closed spec fn spec_hop_size(&self) -> nat {
        self.hop_size as nat
    }

    /// The buffer holds the stream minus a dropped prefix, and the next
    /// frame starts `taken * hop_size` samples into the stream.
    pub closed spec fn well_formed(&self) -> bool {
        &&& self.frame_size > 0
        &&& self.hop_size > 0
        &&& self.dropped@ <= self.received@.len()
        &&& self.samples@ == self.received@.skip(self.dropped@ as int)
        &&& self.dropped@ + self.sample_start == self.frames * self.hop_size
        &&& self.last_emitted <= self.frames
        &&& self.frames == 0 || (self.frames - 1) * self.hop_size + self.frame_size <= self.received@.len()
    }

    /// No complete frame is left to hand out, the buffer needs no
    /// compaction, and every frame handed out has been emitted: the state
    /// a push leaves behind.
    pub open spec fn settled(&self) -> bool {
        &&& self.well_formed()
        &&& self.buffered().len() < self.start() + self.spec_frame_size()
        &&& self.start() <= compaction_threshold(self.spec_frame_size())
        &&& self.emitted() == self.taken()
    }

    /// A settled stream is idle: it has handed out and emitted exactly its
    /// complete frames, so pushing nothing into it hands out no frame
    /// (`take_frames` finds none ready), compacts nothing (`compact` is below
    /// its threshold) and emits the empty range (`take_unemitted` returns
    /// `(taken, taken)`), leaving every part of the state as it was.
    pub proof fn lemma_settled_is_idle(&self)
        requires
            self.settled(),
        ensures
            self.emitted() == self.taken(),
            self.taken() == complete_frames(self.stream().len(), self.spec_frame_size(), self.spec_hop_size()),
            self.buffered().len() < self.start() + self.spec_frame_size(),
            self.start() <= compaction_threshold(self.spec_frame_size()),
    {
        self.lemma_drained_took_every_complete_frame();
    }

    /// The sizes of a well-formed stream are positive.
    pub proof fn lemma_sizes_positive(&self)
        requires
            self.well_formed(),
        ensures
            self.spec_frame_size() > 0,
            self.spec_hop_size() > 0,
    {
    }

    /// Once no frame is left to hand out, every complete frame of the stream
    /// has been handed out, and no more; the emitted frames are among them.
    pub proof fn lemma_drained_took_every_complete_frame(&self)
        requires
            self.well_formed(),
            self.buffered().len() < self.start() + self.spec_frame_size(),
        ensures
            self.taken() == complete_frames(self.stream().len(), self.spec_frame_size(), self.spec_hop_size()),
            self.emitted() <= self.taken(),
    {
        lemma_count_frames(self.frames as nat, self.received@.len(), self.frame_size as nat, self.hop_size as nat);
    }

    /// Creates an empty stream; both sizes must be positive.
    pub fn new(frame_size: usize, hop_size: usize) -> (r: Result<Self, PyinError>)
        ensures
            (frame_size == 0 || hop_size == 0) <==> r is Err,
            r matches Err(PyinError::InvalidConfig(msg)) ==> msg@ == "frame_size and hop_size must be > 0"@,
            r matches Ok(s) ==> {
                &&& s.well_formed()
                &&& s.settled()
                &&& s.stream() == Seq::<T>::empty()
                &&& s.buffered() == Seq::<T>::empty()
                &&& s.start() == 0
                &&& s.taken() == 0
                &&& s.emitted() == 0
                &&& s.spec_frame_size() == frame_size
                &&& s.spec_hop_size() == hop_size
            },
    {
        if frame_size == 0 || hop_size == 0 {
            return Err(PyinError::InvalidConfig("frame_size and hop_size must be > 0".to_owned()));
        }
        let s = FrameStream {
            frame_size,
            hop_size,
            samples: Vec::new(),
            sample_start: 0,
            frames: 0,
            last_emitted: 0,
            received: Ghost(Seq::empty()),
            dropped: Ghost(0),
        };
        assert(s.samples@ =~= s.received@.skip(0));
        assert(0 * hop_size == 0);
        assert(s.well_formed());
        Ok(s)
    }

    /// Forgets every sample and frame; the sizes stay.
    pub fn reset(&mut self)
        requires
            old(self).well_formed(),
        ensures
            final(self).well_formed(),
            final(self).settled(),
            final(self).stream() == Seq::<T>::empty(),
            final(self).buffered() == Seq::<T>::empty(),
            final(self).start() == 0,
            final(self).taken() == 0,
            final(self).emitted() == 0,
            final(self).spec_frame_size() == old(self).spec_frame_size(),
            final(self).spec_hop_size() == old(self).spec_hop_size(),
    {
        self.samples.clear();
        self.sample_start = 0;
        self.frames = 0;
        self.last_emitted = 0;
        self.received = Ghost(Seq::empty());
        self.dropped = Ghost(0);
        assert(self.samples@ =~= self.received@.skip(0));
    }

    /// Appends newly arrived samples to the stream.
    pub fn append(&mut self, more: Vec<T>)
        requires
            old(self).well_formed(),
        ensures
            final(self).well_formed(),
            final(self).stream() == old(self).stream() + more@,
            final(self).buffered() == old(self).buffered() + more@,
            more@.len() == 0 ==> final(self).stream() == old(self).stream() && final(self).buffered()
                == old(self).buffered(),
            final(self).start() == old(self).start(),
            final(self).taken() == old(self).taken(),
            final(self).emitted() == old(self).emitted(),
            final(self).spec_frame_size() == old(self).spec_frame_size(),
            final(self).spec_hop_size() == old(self).spec_hop_size(),
    {
        let mut more = more;
        let ghost added = more@;
        self.samples.append(&mut more);
        self.received = Ghost(self.received@ + added);
        assert(self.samples@ =~= self.received@.skip(self.dropped@ as int));
        proof {
            if added.len() == 0 {
                assert(self.received@ =~= old(self).received@);
                assert(self.samples@ =~= old(self).samples@);
            }
        }
    }

    /// Hands out the buffer position of the next frame when all of its
    /// samples have arrived, and moves on by one hop; `None` otherwise.
    pub fn next_frame(&mut self) -> (r: Option<usize>)
        requires
            old(self).well_formed(),
            old(self).buffered().len() >= old(self).start() + old(self).spec_frame_size() ==> {
                &&& old(self).start() + old(self).spec_hop_size() <= usize::MAX
                &&& old(self).taken() < usize::MAX
            },
        ensures
            final(self).well_formed(),
            final(self).stream() == old(self).stream(),
            final(self).buffered() == old(self).buffered(),
            final(self).emitted() == old(self).emitted(),
            final(self).spec_frame_size() == old(self).spec_frame_size(),
            final(self).spec_hop_size() == old(self).spec_hop_size(),
            (old(self).stream().len() >= old(self).taken() * old(self).spec_hop_size()
                + old(self).spec_frame_size()) <==> r is Some,
            (old(self).buffered().len() >= old(self).start() + old(self).spec_frame_size()) <==> r is Some,
            r matches Some(s) ==> {
                &&& s == old(self).start()
                &&& final(self).start() == old(self).start() + old(self).spec_hop_size()
                &&& final(self).taken() == old(self).taken() + 1
                &&& s + old(self).spec_frame_size() <= old(self).buffered().len()
                &&& old(self).buffered().subrange(s as int, s + old(self).spec_frame_size())
                    == old(self).stream().subrange(
                        (old(self).taken() * old(self).spec_hop_size()) as int,
                        (old(self).taken() * old(self).spec_hop_size() + old(self).spec_frame_size()) as int,
                    )
            },
            r is None ==> final(self).start() == old(self).start() && final(self).taken()
                == old(self).taken(),
    {
        let len = self.samples.len();
        let available = if len >= self.sample_start { len - self.sample_start } else { 0 };
        if available >= self.frame_size {
            let s = self.sample_start;
            proof {
                let k = self.frames * self.hop_size;
                assert(self.samples@.subrange(s as int, s + self.frame_size) =~= self.received@.subrange(
                    k as int,
                    k + self.frame_size,
                ));
                assert((self.frames + 1) * self.hop_size == self.frames * self.hop_size + self.hop_size)
                    by (nonlinear_arith);
            }
            self.sample_start = self.sample_start + self.hop_size;
            self.frames = self.frames + 1;
            Some(s)
        } else {
            None
        }
    }

    /// Hands out, in order, the buffer positions of every frame whose
    /// samples have all arrived and that was not handed out yet.
    pub fn take_frames(&mut self) -> (starts: Vec<usize>)
        requires
            old(self).well_formed(),
            old(self).buffered().len() + old(self).spec_hop_size() <= usize::MAX,
            old(self).taken() + old(self).buffered().len() <= usize::MAX,
        ensures
            final(self).well_formed(),
            final(self).stream() == old(self).stream(),
            final(self).buffered() == old(self).buffered(),
            final(self).emitted() == old(self).emitted(),
            final(self).spec_frame_size() == old(self).spec_frame_size(),
            final(self).spec_hop_size() == old(self).spec_hop_size(),
            final(self).taken() == complete_frames(
                old(self).stream().len(),
                old(self).spec_frame_size(),
                old(self).spec_hop_size(),
            ),
            final(self).buffered().len() < final(self).start() + final(self).spec_frame_size(),
            final(self).taken() == old(self).taken() + starts@.len(),
            final(self).start() == old(self).start() + starts@.len() * old(self).spec_hop_size(),
            forall|i: int|
                0 <= i < starts@.len() ==> {
                    &&& #[trigger] starts@[i] == old(self).start() + i * old(self).spec_hop_size()
                    &&& starts@[i] + old(self).spec_frame_size() <= old(self).buffered().len()
                    &&& old(self).buffered().subrange(starts@[i] as int, starts@[i] + old(self).spec_frame_size())
                        == old(self).stream().subrange(
                            ((old(self).taken() + i) * old(self).spec_hop_size()) as int,
                            ((old(self).taken() + i) * old(self).spec_hop_size() + old(self).spec_frame_size()) as int,
                        )
                },
            old(self).buffered().len() < old(self).start() + old(self).spec_frame_size() ==> {
                &&& starts@.len() == 0
                &&& final(self).start() == old(self).start()
                &&& final(self).taken() == old(self).taken()
            },
    {
        let mut starts: Vec<usize> = Vec::new();
        let ghost s0 = self.start();
        let ghost t0 = self.taken();
        let ghost len = self.buffered().len();
        let ghost hop = self.spec_hop_size();
        let ghost frame = self.spec_frame_size();
        proof {
            assert(0 * hop == 0);
        }
        loop
            invariant
                self.well_formed(),
                self.stream() == old(self).stream(),
                self.buffered() == old(self).buffered(),
                self.emitted() == old(self).emitted(),
                self.spec_frame_size() == frame,
                self.spec_hop_size() == hop,
                frame == old(self).spec_frame_size(),
                hop == old(self).spec_hop_size(),
                len == old(self).buffered().len(),
                s0 == old(self).start(),
                t0 == old(self).taken(),
                len + hop <= usize::MAX,
                t0 + len <= usize::MAX,
                self.taken() == t0 + starts@.len(),
                self.start() == s0 + starts@.len() * hop,
                starts@.len() <= len,
                starts@.len() > 0 ==> starts@[starts@.len() - 1] + frame <= len,
                starts@.len() > 0 ==> starts@.len() - 1 <= starts@[starts@.len() - 1],
                forall|i: int|
                    0 <= i < starts@.len() ==> {
                        &&& #[trigger] starts@[i] == s0 + i * hop
                        &&& starts@[i] + frame <= len
                        &&& old(self).buffered().subrange(starts@[i] as int, starts@[i] + frame)
                            == old(self).stream().subrange(
                                ((t0 + i) * hop) as int,
                                ((t0 + i) * hop + frame) as int,
                            )
                    },
            ensures
                self.well_formed(),
                self.stream() == old(self).stream(),
                self.buffered() == old(self).buffered(),
                self.emitted() == old(self).emitted(),
                self.spec_frame_size() == frame,
                self.spec_hop_size() == hop,
                self.taken() == t0 + starts@.len(),
                self.start() == s0 + starts@.len() * hop,
                self.buffered().len() < self.start() + frame,
                forall|i: int|
                    0 <= i < starts@.len() ==> {
                        &&& #[trigger] starts@[i] == s0 + i * hop
                        &&& starts@[i] + frame <= len
                        &&& old(self).buffered().subrange(starts@[i] as int, starts@[i] + frame)
                            == old(self).stream().subrange(
                                ((t0 + i) * hop) as int,
                                ((t0 + i) * hop + frame) as int,
                            )
                    },
            decreases len + hop - self.start(),
        {
            let ghost k = starts@.len();
            proof {
                if self.buffered().len() >= self.start() + frame {
                    assert(k * hop >= k) by (nonlinear_arith) requires hop >= 1;
                    assert(k < len);
                }
            }
            match self.next_frame() {
                Some(st) => {
                    proof {
                        assert((k + 1) * hop == k * hop + hop) by (nonlinear_arith);
                        assert((k + 1) * hop >= k + 1) by (nonlinear_arith) requires hop >= 1;
                    }
                    starts.push(st);
                    proof {
                        assert(starts@[k as int] == s0 + k * hop);
                    }
                },
                None => {
                    break;
                },
            }
        }
        proof {
            self.lemma_drained_took_every_complete_frame();
            if len < s0 + frame {
                old(self).lemma_drained_took_every_complete_frame();
            }
        }
        starts
    }

    /// Whether the next frame starts beyond the compaction threshold.
    pub fn needs_compaction(&self) -> (r: bool)
        ensures
            r == (self.start() > compaction_threshold(self.spec_frame_size())),
    {
        let four = if self.frame_size <= usize::MAX / 4 { self.frame_size * 4 } else { usize::MAX };
        let threshold = if four >= 8192 { four } else { 8192 };
        self.sample_start > threshold
    }

    /// Drops the samples before the next frame once the next frame starts
    /// beyond the compaction threshold; the samples still ahead are kept.
    pub fn compact(&mut self)
        requires
            old(self).well_formed(),
            old(self).start() > compaction_threshold(old(self).spec_frame_size()) ==> old(self).start()
                <= old(self).buffered().len(),
        ensures
            final(self).well_formed(),
            final(self).stream() == old(self).stream(),
            final(self).taken() == old(self).taken(),
            final(self).emitted() == old(self).emitted(),
            final(self).spec_frame_size() == old(self).spec_frame_size(),
            final(self).spec_hop_size() == old(self).spec_hop_size(),
            final(self).buffered().skip(final(self).start() as int) == old(self).buffered().skip(
                old(self).start() as int,
            ),
            old(self).start() <= compaction_threshold(old(self).spec_frame_size()) ==> final(self).buffered()
                == old(self).buffered() && final(self).start() == old(self).start(),
            old(self).start() > compaction_threshold(old(self).spec_frame_size()) ==> final(self).start()
                == 0,
            final(self).start() <= compaction_threshold(final(self).spec_frame_size()),
    {
        if !self.needs_compaction() {
            return;
        }
        let start = self.sample_start;
        let len = self.samples.len();
        let keep = len - start;
        let ghost orig = self.samples@;
        let ghost d = self.dropped@;
        let mut i: usize = 0;
        while i < keep
            invariant
                self.received@ == old(self).received@,
                self.dropped@ == d,
                orig == self.received@.skip(d as int),
                self.frames == old(self).frames,
                self.hop_size == old(self).hop_size,
                self.frame_size == old(self).frame_size,
                self.last_emitted == old(self).last_emitted,
                self.sample_start == start,
                d <= self.received@.len(),
                len == orig.len(),
                keep == len - start,
                start <= len,
                0 <= i <= keep,
                self.samples@.len() == len,
                forall|j: int| 0 <= j < i ==> #[trigger] self.samples@[j] == orig[start + j],
                forall|j: int| i <= j < len ==> #[trigger] self.samples@[j] == orig[j],
            decreases keep - i,
        {
            let x = self.samples[start + i];
            self.samples.set(i, x);
            i = i + 1;
        }
        self.samples.truncate(keep);
        self.sample_start = 0;
        self.dropped = Ghost((self.dropped@ + start) as nat);
        assert(self.samples@ =~= orig.skip(start as int));
        assert(orig.skip(start as int) =~= self.received@.skip(d + start));
        assert(self.samples@ =~= self.received@.skip(self.dropped@ as int));
        assert(self.samples@.skip(0) =~= orig.skip(start as int));
    }

    /// Reports the frames not yet emitted, `from .. to`, and marks them
    /// emitted.
    pub fn take_unemitted(&mut self) -> (r: (usize, usize))
        requires
            old(self).well_formed(),
        ensures
            final(self).well_formed(),
            r.0 == old(self).emitted(),
            r.1 == old(self).taken(),
            final(self).emitted() == old(self).taken(),
            old(self).buffered().len() < old(self).start() + old(self).spec_frame_size() ==> r.1
                == complete_frames(old(self).stream().len(), old(self).spec_frame_size(), old(self).spec_hop_size()),
            old(self).buffered().len() < old(self).start() + old(self).spec_frame_size()
                && old(self).start() <= compaction_threshold(old(self).spec_frame_size())
                ==> final(self).settled(),
            final(self).stream() == old(self).stream(),
            final(self).buffered() == old(self).buffered(),
            final(self).start() == old(self).start(),
            final(self).taken() == old(self).taken(),
            final(self).spec_frame_size() == old(self).spec_frame_size(),
            final(self).spec_hop_size() == old(self).spec_hop_size(),
    {
        proof {
            if self.buffered().len() < self.start() + self.spec_frame_size() {
                self.lemma_drained_took_every_complete_frame();
            }
        }
        let from = self.last_emitted;
        self.last_emitted = self.frames;
        (from, self.frames)
    }

    /// The buffered samples.
    pub fn samples(&self) -> (s: &Vec<T>)
        ensures
            s@ == self.buffered(),
    {
        &self.samples
    }

    pub fn frame_size(&self) -> (n: usize)
        ensures
            n == self.spec_frame_size(),
            self.well_formed() ==> n > 0,
    {
        self.frame_size
    }

    pub fn hop_size(&self) -> (n: usize)
        ensures
            n == self.spec_hop_size(),
            self.well_formed() ==> n > 0,
    {
        self.hop_size
    }

    /// Buffer position at which the next frame starts.
    pub fn sample_start(&self) -> (n: usize)
        ensures
            n == self.start(),
    {
        self.sample_start
    }

    /// Number of frames handed out.
    pub fn frames_taken(&self) -> (n: usize)
        ensures
            n == self.taken(),
    {
        self.frames
    }
}

/// The frame indices `a .. b`.
pub open spec fn index_range(a: nat, b: nat) -> Seq<nat> {
    Seq::new((b - a) as nat, |i: int| (a + i) as nat)
}

/// The frame indices emitted by a stream of PCM bytes pushed chunk by
/// chunk: after each chunk, the frames that became complete since the
/// previous chunk.
pub open spec fn emitted_indices(format: PcmFormat, chunks: Seq<Seq<u8>>, frame: nat, hop: nat) -> Seq<nat>
    decreases chunks.len(),
{
    if chunks.len() == 0 {
        Seq::empty()
    } else {
        let init = chunks.drop_last();
        emitted_indices(format, init, frame, hop) + index_range(
            complete_frames(parse_chunks(format, init).0.len(), frame, hop),
            complete_frames(parse_chunks(format, chunks).0.len(), frame, hop),
        )
    }
}

/// Pushing PCM bytes chunk by chunk emits every complete frame exactly
/// once and in order, `0 .. F` with `F` the number of complete frames of
/// the `len / sample_width` samples, whatever the chunk boundaries.
pub proof fn lemma_every_complete_frame_emitted_once(
    format: PcmFormat,
    chunks: Seq<Seq<u8>>,
    frame: nat,
    hop: nat,
)
    requires
        frame > 0,
        hop > 0,
    ensures
        emitted_indices(format, chunks, frame, hop) == index_range(
            0,
            complete_frames(joined(chunks).len() / sample_width(format), frame, hop),
        ),
    decreases chunks.len(),
{
    lemma_parse_any_chunking(format, chunks);
    if chunks.len() == 0 {
        assert(emitted_indices(format, chunks, frame, hop) =~= index_range(0, 0));
    } else {
        let init = chunks.drop_last();
        lemma_every_complete_frame_emitted_once(format, init, frame, hop);
        lemma_parse_any_chunking(format, init);
        let a = complete_frames(parse_chunks(format, init).0.len(), frame, hop);
        let b = complete_frames(parse_chunks(format, chunks).0.len(), frame, hop);
        assert(parse_chunks(format, chunks).0.len() >= parse_chunks(format, init).0.len());
        lemma_complete_frames_monotone(
            parse_chunks(format, init).0.len(),
            parse_chunks(format, chunks).0.len(),
            frame,
            hop,
        );
        assert(index_range(0, a) + index_range(a, b) =~= index_range(0, b));
    }
}

/// Pushing an empty chunk emits no frame, and every later chunk emits the
/// same frames as it would have without the empty push.
pub proof fn lemma_empty_push_emits_nothing(
    format: PcmFormat,
    chunks: Seq<Seq<u8>>,
    rest: Seq<Seq<u8>>,
    frame: nat,
    hop: nat,
)
    ensures
        emitted_indices(format, chunks.push(Seq::<u8>::empty()), frame, hop) == emitted_indices(
            format,
            chunks,
            frame,
            hop,
        ),
        parse_chunks(format, chunks.push(Seq::<u8>::empty()) + rest) == parse_chunks(format, chunks + rest),
{
    let e = Seq::<u8>::empty();
    lemma_empty_chunk_changes_nothing(format, chunks, Seq::empty());
    lemma_empty_chunk_changes_nothing(format, chunks, rest);
    assert(chunks.push(e) + Seq::<Seq<u8>>::empty() =~= chunks.push(e));
    assert(chunks + Seq::<Seq<u8>>::empty() =~= chunks);
    assert(chunks.push(e).drop_last() =~= chunks);
    let n = complete_frames(parse_chunks(format, chunks).0.len(), frame, hop);
    assert(index_range(n, n) =~= Seq::<nat>::empty());
    assert(emitted_indices(format, chunks, frame, hop) + index_range(n, n) =~= emitted_indices(format, chunks, frame, hop));
}

} // verus!
