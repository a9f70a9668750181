# pyin_rs

Verified core of a streaming pYIN pitch tracker, written in Verus.

- `src/pcm.rs` — splits a PCM byte stream (16-bit or 32-bit float, little
  endian) into sample words, carrying incomplete samples between chunks.
  Proved: each call decodes exactly the carried bytes followed by the chunk,
  and chunking never changes the decoded samples.
- `src/stream.rs` — the sample buffer cut into frames of `frame_size`
  samples every `hop_size` samples, with compaction of consumed samples.
  Proved: frame `k` is stream samples `k*hop .. k*hop + frame_size`, handed
  out as soon as they have all arrived; compaction keeps every future frame;
  pushing PCM bytes chunk by chunk emits every complete frame exactly once,
  in order, whatever the chunking, and an empty push changes nothing.
- `src/pipeline.rs` — PCM parsing and framing composed into one push step
  whose emitted frame ranges are proved to be exactly the complete frames
  not handed out before.
- `src/viterbi.rs` — HMM state indexing and the backpointer trellis of the
  Viterbi decoder. Proved: indexing round-trips; the decoded path follows
  the backpointers; suffixes and pruning keep the tail of the path; every
  step of a decoded path moves at most `MAX_TRANSITION` bins, or comes from
  state 0, the predecessor kept when none in the window scored.
- `src/midi.rs` — nearest MIDI note of a frequency given as `f32` bits,
  exactly `round(69 + 12 log2(f / 440))`, clamped to `0..=127`.
- `src/yin.rs` — FFT length selection.

`app/` holds what floats or I/O keep out of the verified library: sample
normalization, the YIN difference function on rustfft, Viterbi scoring, the
streaming driver, and the fixture generator that decodes audio with
symphonia.
