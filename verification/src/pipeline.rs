use vstd::prelude::*;

use crate::pcm::{
    PcmFormat, joined, parse_chunks, parse_pcm_bytes_into, parse_step, sample_width, words,
    lemma_parse_step_decodes_stream,
};
use crate::stream::{
    FrameStream, complete_frames, compaction_threshold, emitted_indices, index_range,
    lemma_every_complete_frame_emitted_once,
};
use crate::PyinError;

verus! {

proof fn lemma_word_count_bound(l: Seq<u8>, c: Seq<u8>, w: nat)
    requires
        w == 2 || w == 4,
        l.len() < w,
    ensures
        words(l + c, w).len() <= c.len(),
{
    if w == 2 {
        assert((l.len() + c.len()) / 2 <= c.len());
    } else {
        assert((l.len() + c.len()) / 4 <= c.len());
    }
}

/// The integer half of the streaming pitch tracker: PCM byte chunks are
/// parsed, turned into samples, cut into frames, and the frames that became
/// complete are reported for emission, one push at a time.
pub struct PcmFrameStream<T> {
    format: PcmFormat,
    leftover: Vec<u8>,
    frames: FrameStream<T>,
    chunks: Ghost<Seq<Seq<u8>>>,
    log: Ghost<Seq<nat>>,
}

impl<T: Copy> PcmFrameStream<T> {
    /// Every chunk pushed since creation or the last reset, in order.
    pub closed spec fn chunks(&self) -> Seq<Seq<u8>> {
        self.chunks@
    }

    /// Every frame index reported for emission, in order.
    pub closed spec fn emitted_log(&self) -> Seq<nat> {
        self.log@
    }

    /// The frame stream of samples.
    pub closed spec fn frame_stream(&self) -> FrameStream<T> {
        self.frames
    }

    pub closed spec fn spec_format(&self) -> PcmFormat {
        self.format
    }

    /// Every parsed sample is in the stream, every complete frame has been
    /// handed out and reported, and the report is the emission model of the
    /// chunks pushed.
    pub closed spec fn well_formed(&self) -> bool {
        let parsed = parse_chunks(self.format, self.chunks@);
        let f = self.frames;
        &&& f.well_formed()
        &&& self.leftover@ == parsed.1
        &&& self.leftover@.len() < sample_width(self.format)
        &&& f.stream().len() == parsed.0.len()
        &&& f.buffered().len() < f.start() + f.spec_frame_size()
        &&& f.emitted() == f.taken()
        &&& self.log@ == emitted_indices(self.format, self.chunks@, f.spec_frame_size(), f.spec_hop_size())
    }

    /// Creates an empty stream; both sizes must be positive.
    pub fn new(frame_size: usize, hop_size: usize, format: PcmFormat) -> (r: Result<Self, PyinError>)
        ensures
            (frame_size == 0 || hop_size == 0) <==> r is Err,
            r matches Err(PyinError::InvalidConfig(msg)) ==> msg@ == "frame_size and hop_size must be > 0"@,
            r matches Ok(s) ==> {
                &&& s.well_formed()
                &&& s.chunks() == Seq::<Seq<u8>>::empty()
                &&& s.emitted_log() == Seq::<nat>::empty()
                &&& s.spec_format() == format
                &&& s.frame_stream().stream() == Seq::<T>::empty()
                &&& s.frame_stream().spec_frame_size() == frame_size
                &&& s.frame_stream().spec_hop_size() == hop_size
            },
    {
        let frames = FrameStream::new(frame_size, hop_size)?;
        let s = PcmFrameStream {
            format,
            leftover: Vec::new(),
            frames,
            chunks: Ghost(Seq::empty()),
            log: Ghost(Seq::empty()),
        };
        assert(s.leftover@ =~= parse_chunks(format, Seq::<Seq<u8>>::empty()).1);
        Ok(s)
    }

    /// Forgets every chunk, sample and frame; sizes and format stay.
    pub fn reset(&mut self)
        requires
            old(self).well_formed(),
        ensures
            final(self).well_formed(),
            final(self).chunks() == Seq::<Seq<u8>>::empty(),
            final(self).emitted_log() == Seq::<nat>::empty(),
            final(self).spec_format() == old(self).spec_format(),
            final(self).frame_stream().stream() == Seq::<T>::empty(),
            final(self).frame_stream().spec_frame_size() == old(self).frame_stream().spec_frame_size(),
            final(self).frame_stream().spec_hop_size() == old(self).frame_stream().spec_hop_size(),
    {
        self.leftover.clear();
        self.frames.reset();
        self.chunks = Ghost(Seq::empty());
        self.log = Ghost(Seq::empty());
        assert(self.leftover@ =~= parse_chunks(self.format, Seq::<Seq<u8>>::empty()).1);
    }

    /// Pushes one chunk of PCM bytes: its complete samples, turned into
    /// stream samples by `convert`, join the stream; the positions of the
    /// frames that became complete are handed out, and the range of frame
    /// indices to emit, `from .. to`, is returned with them.
    pub fn push_bytes<F: Fn(u32) -> T>(&mut self, chunk: &[u8], convert: &F) -> (r: (
        Vec<usize>,
        usize,
        usize,
    ))
        requires
            old(self).well_formed(),
            forall|w: u32| convert.requires((w,)),
            old(self).frame_stream().buffered().len() + chunk@.len() + old(self).frame_stream().spec_hop_size()
                <= usize::MAX,
            old(self).frame_stream().taken() + old(self).frame_stream().buffered().len() + chunk@.len()
                <= usize::MAX,
        ensures
            final(self).well_formed(),
            final(self).chunks() == old(self).chunks().push(chunk@),
            final(self).spec_format() == old(self).spec_format(),
            final(self).frame_stream().spec_frame_size() == old(self).frame_stream().spec_frame_size(),
            final(self).frame_stream().spec_hop_size() == old(self).frame_stream().spec_hop_size(),
            final(self).emitted_log() == emitted_indices(
                final(self).spec_format(),
                final(self).chunks(),
                final(self).frame_stream().spec_frame_size(),
                final(self).frame_stream().spec_hop_size(),
            ),
            final(self).emitted_log() == old(self).emitted_log() + index_range(r.1 as nat, r.2 as nat),
            r.1 == complete_frames(
                parse_chunks(old(self).spec_format(), old(self).chunks()).0.len(),
                old(self).frame_stream().spec_frame_size(),
                old(self).frame_stream().spec_hop_size(),
            ),
            r.2 == complete_frames(
                parse_chunks(final(self).spec_format(), final(self).chunks()).0.len(),
                old(self).frame_stream().spec_frame_size(),
                old(self).frame_stream().spec_hop_size(),
            ),
            r.1 == old(self).frame_stream().taken(),
            r.2 == final(self).frame_stream().taken(),
            r.0@.len() == r.2 - r.1,
            final(self).frame_stream().stream().len() == parse_chunks(
                final(self).spec_format(),
                final(self).chunks(),
            ).0.len(),
            final(self).frame_stream().stream().take(old(self).frame_stream().stream().len() as int)
                == old(self).frame_stream().stream(),
            forall|i: int|
                old(self).frame_stream().stream().len() <= i < final(self).frame_stream().stream().len()
                    ==> convert.ensures(
                    (parse_chunks(final(self).spec_format(), final(self).chunks()).0[i],),
                    #[trigger] final(self).frame_stream().stream()[i],
                ),
            final(self).frame_stream().start() == old(self).frame_stream().start() + r.0@.len()
                * old(self).frame_stream().spec_hop_size(),
            forall|i: int|
                0 <= i < r.0@.len() ==> {
                    let f = final(self).frame_stream();
                    let k = (r.1 + i) * f.spec_hop_size();
                    &&& #[trigger] r.0@[i] == old(self).frame_stream().start() + i * f.spec_hop_size()
                    &&& r.0@[i] + f.spec_frame_size() <= f.buffered().len()
                    &&& f.buffered().subrange(r.0@[i] as int, r.0@[i] + f.spec_frame_size())
                        == f.stream().subrange(k as int, k + f.spec_frame_size())
                },
            chunk@.len() == 0 ==> {
                &&& r.1 == r.2
                &&& final(self).frame_stream().stream() == old(self).frame_stream().stream()
                &&& final(self).frame_stream().buffered() == old(self).frame_stream().buffered()
                &&& final(self).frame_stream().start() == old(self).frame_stream().start()
            },
    {
        let ghost old_chunks = self.chunks@;
        let ghost old_left = self.leftover@;
        let ghost fmt = self.format;
        let ghost w = sample_width(fmt);
        let ghost old_len = self.frames.stream().len();
        let mut parsed: Vec<u32> = Vec::new();
        parse_pcm_bytes_into(chunk, self.format, &mut self.leftover, &mut parsed);
        proof {
            lemma_parse_step_decodes_stream(fmt, chunk@, old_left);
            lemma_word_count_bound(old_left, chunk@, w);
            let new_chunks = old_chunks.push(chunk@);
            assert(new_chunks.drop_last() =~= old_chunks);
            assert(new_chunks.last() == chunk@);
            assert(parsed@ =~= parse_step(fmt, chunk@, old_left).0);
        }
        let mut added: Vec<T> = Vec::new();
        let mut i: usize = 0;
        while i < parsed.len()
            invariant
                i <= parsed@.len(),
                added@.len() == i,
                forall|w: u32| convert.requires((w,)),
                forall|j: int| 0 <= j < i ==> convert.ensures((parsed@[j],), #[trigger] added@[j]),
            decreases parsed@.len() - i,
        {
            let x = convert(parsed[i]);
            added.push(x);
            i = i + 1;
        }
        let ghost added_view = added@;
        let ghost f0 = self.frames;
        self.frames.append(added);
        let ghost f1 = self.frames;
        let starts = self.frames.take_frames();
        let ghost f2 = self.frames;
        let (from, to) = self.frames.take_unemitted();
        proof {
            f0.lemma_drained_took_every_complete_frame();
            let new_chunks = old_chunks.push(chunk@);
            self.chunks = Ghost(new_chunks);
            let a = complete_frames(parse_chunks(fmt, old_chunks).0.len(), f0.spec_frame_size(), f0.spec_hop_size());
            let b = complete_frames(parse_chunks(fmt, new_chunks).0.len(), f0.spec_frame_size(), f0.spec_hop_size());
            self.log = Ghost(self.log@ + index_range(from as nat, to as nat));
            assert(f1.stream().take(old_len as int) =~= f0.stream());
            assert forall|i: int| old_len <= i < f1.stream().len() implies convert.ensures(
                (parse_chunks(fmt, new_chunks).0[i],),
                #[trigger] self.frames.stream()[i],
            ) by {
                assert(f1.stream()[i] == added_view[i - old_len]);
                assert(parse_chunks(fmt, new_chunks).0[i] == parsed@[i - old_len]);
            }
            if chunk@.len() == 0 {
                assert(parsed@.len() == 0);
                assert(f1.stream() =~= f0.stream());
                assert(f1.buffered() =~= f0.buffered());
            }
        }
        (starts, from, to)
    }

    /// Drops the samples before the next frame once it starts beyond the
    /// compaction threshold; nothing still ahead changes.
    pub fn compact(&mut self)
        requires
            old(self).well_formed(),
            old(self).frame_stream().start() > compaction_threshold(old(self).frame_stream().spec_frame_size())
                ==> old(self).frame_stream().start() <= old(self).frame_stream().buffered().len(),
        ensures
            final(self).well_formed(),
            final(self).chunks() == old(self).chunks(),
            final(self).emitted_log() == old(self).emitted_log(),
            final(self).spec_format() == old(self).spec_format(),
            final(self).frame_stream().stream() == old(self).frame_stream().stream(),
            final(self).frame_stream().taken() == old(self).frame_stream().taken(),
            final(self).frame_stream().spec_frame_size() == old(self).frame_stream().spec_frame_size(),
            final(self).frame_stream().spec_hop_size() == old(self).frame_stream().spec_hop_size(),
            final(self).frame_stream().buffered().skip(final(self).frame_stream().start() as int)
                == old(self).frame_stream().buffered().skip(old(self).frame_stream().start() as int),
            final(self).frame_stream().start() <= compaction_threshold(
                final(self).frame_stream().spec_frame_size(),
            ),
            final(self).frame_stream().settled(),
    {
        let ghost f0 = self.frames;
        self.frames.compact();
        proof {
            let f = self.frames;
            if f0.start() > compaction_threshold(f0.spec_frame_size()) {
                assert(f.buffered().skip(0).len() == f0.buffered().skip(f0.start() as int).len());
            }
        }
    }

    /// Every frame index reported so far is exactly the complete frames of
    /// the samples parsed from the chunks pushed, in order, each once.
    pub proof fn lemma_log_is_every_complete_frame(&self)
        requires
            self.well_formed(),
        ensures
            self.emitted_log() == index_range(
                0,
                complete_frames(
                    joined(self.chunks()).len() / sample_width(self.spec_format()),
                    self.frame_stream().spec_frame_size(),
                    self.frame_stream().spec_hop_size(),
                ),
            ),
    {
        self.frames.lemma_sizes_positive();
        lemma_every_complete_frame_emitted_once(
            self.format,
            self.chunks@,
            self.frames.spec_frame_size(),
            self.frames.spec_hop_size(),
        );
    }

    /// The buffered samples.
    pub fn samples(&self) -> (s: &Vec<T>)
        ensures
            s@ == self.frame_stream().buffered(),
    {
        self.frames.samples()
    }

    pub fn frame_size(&self) -> (n: usize)
        ensures
            n == self.frame_stream().spec_frame_size(),
            self.well_formed() ==> n > 0,
    {
        self.frames.frame_size()
    }

    pub fn hop_size(&self) -> (n: usize)
        ensures
            n == self.frame_stream().spec_hop_size(),
            self.well_formed() ==> n > 0,
    {
        self.frames.hop_size()
    }

    /// Buffer position at which the next frame starts.
    pub fn sample_start(&self) -> (n: usize)
        ensures
            n == self.frame_stream().start(),
    {
        self.frames.sample_start()
    }

    /// Number of frames handed out.
    pub fn frames_taken(&self) -> (n: usize)
        ensures
            n == self.frame_stream().taken(),
    {
        self.frames.frames_taken()
    }

    /// Whether the next frame starts beyond the compaction threshold.
    pub fn needs_compaction(&self) -> (r: bool)
        ensures
            r == (self.frame_stream().start() > compaction_threshold(self.frame_stream().spec_frame_size())),
    {
        self.frames.needs_compaction()
    }

    pub fn format(&self) -> (f: PcmFormat)
        ensures
            f == self.spec_format(),
    {
        self.format
    }
}

} // verus!
