//! Verified core of a streaming pYIN pitch tracker: PCM byte framing,
//! frame scheduling over a growing sample stream, and the integer
//! bookkeeping of the Viterbi decoder (state indexing and backtracking).
use vstd::prelude::*;

pub mod midi;
pub mod pcm;
pub mod pipeline;
pub mod stream;
pub mod viterbi;
pub mod yin;

pub use viterbi::{HmmState, ViterbiTracker, NUM_BINS, state_index, state_from_index};

pub use pcm::{PcmFormat, parse_pcm_bytes, parse_pcm_bytes_into, i16_from_word};
pub use stream::FrameStream;
pub use midi::midi_from_hz;

verus! {

/// Errors reported by the pitch tracker.
#[derive(Debug, Clone)]
pub enum PyinError {
    /// The configuration cannot be used; the text says why.
    InvalidConfig(String),
}

} // verus!
