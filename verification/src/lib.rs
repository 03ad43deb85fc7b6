//! Verified decoding controller for a Whisper-style speech-to-text model.
//!
//! The crate turns a mel spectrogram (seen only through its frame count) into
//! an ordered list of timestamped text segments. The acoustic model and the
//! tokenizer are collaborators behind capability traits; every controller
//! decision — priming, sampling, suppression, quality fallback, the timeline
//! walk and the timestamp parse — is verified.

use vstd::prelude::*;

pub mod catalog;
pub mod decoder;
pub mod errors;
pub mod fallback;
pub mod fixed;
pub mod sampler;
pub mod timeline;
pub mod timestamps;
pub mod vocab;

verus! {

/// Number of audio samples per second that the acoustic model expects.
pub const SAMPLE_RATE: u32 = 16000;

/// Returns whether the given sample rate matches the rate the model was
/// trained on; audio at any other rate must be rejected before decoding.
pub fn check_sample_rate(rate: u32) -> (r: bool)
    ensures
        r <==> rate == SAMPLE_RATE,
{
    rate == SAMPLE_RATE
}

} // verus!
