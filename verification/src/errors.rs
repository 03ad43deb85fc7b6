//! Error taxonomy of the decoding controller.

use vstd::prelude::*;

verus! {

/// Errors raised by the decoding controller.
///
/// `MissingToken` and `NoSpeechTokenUnavailable` are fatal session-construction
/// failures. `ModelForward` covers any failure inside encode / decode-step /
/// projection (including a logits vector of the wrong length) and any
/// tokenizer decode failure; it is recoverable at the fallback controller.
/// `InvalidDistribution` is a sampling failure from degenerate weights, with
/// the same recoverability. `SampleRateMismatch` is raised before any decoding
/// work begins when the audio was produced at the wrong sample rate.
#[derive(Clone, Copy, Debug, PartialEq, Eq, Structural)]
pub enum DecodeError {
    MissingToken,
    NoSpeechTokenUnavailable,
    ModelForward,
    InvalidDistribution,
    SampleRateMismatch,
}

impl DecodeError {
    /// A short human-readable description of the error.
    pub fn describe(&self) -> (r: &'static str)
        ensures
            r@ == spec_describe(*self),
    {
        match self {
            DecodeError::MissingToken => "no token-id for a required special token",
            DecodeError::NoSpeechTokenUnavailable => "unable to find any non-speech token",
            DecodeError::ModelForward => "model forward pass failed",
            DecodeError::InvalidDistribution => "sampling weights are degenerate",
            DecodeError::SampleRateMismatch => "input audio has the wrong sample rate",
        }
    }
}

/// The description each error variant carries.
pub open spec fn spec_describe(e: DecodeError) -> Seq<char> {
    match e {
        DecodeError::MissingToken => "no token-id for a required special token"@,
        DecodeError::NoSpeechTokenUnavailable => "unable to find any non-speech token"@,
        DecodeError::ModelForward => "model forward pass failed"@,
        DecodeError::InvalidDistribution => "sampling weights are degenerate"@,
        DecodeError::SampleRateMismatch => "input audio has the wrong sample rate"@,
    }
}

} // verus!
