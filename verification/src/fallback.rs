//! Fallback controller: retries a window at a ladder of temperatures until
//! a result passes the quality heuristics, returning the last attempt
//! unconditionally.

use vstd::prelude::*;

use crate::decoder::{AcousticModel, Decoder, DecodingResult};
use crate::errors::DecodeError;
use crate::fixed::FP_SCALE;
use crate::vocab::Tokenizer;

verus! {

/// Compression-ratio threshold (2.4) above which a result looks degenerate.
pub const COMPRESSION_RATIO_THRESHOLD_FP: i64 = 157286;

/// Log-probability threshold (-1.0) below which a result looks degenerate.
pub const LOGPROB_THRESHOLD_FP: i64 = -65536;

/// No-speech threshold (0.6) above which a window counts as confidently
/// silent.
pub const NO_SPEECH_THRESHOLD_FP: i64 = 39322;

/// The reference temperature ladder 0.0, 0.2, 0.4, 0.6, 0.8, 1.0 in fixed
/// point.
pub open spec fn spec_default_temperatures() -> Seq<i64> {
    seq![0i64, 13107i64, 26214i64, 39322i64, 52429i64, 65536i64]
}

/// Builds the reference temperature ladder.
pub fn default_temperatures() -> (r: Vec<i64>)
    ensures
        r@ == spec_default_temperatures(),
{
    let mut v: Vec<i64> = Vec::new();
    v.push(0);
    v.push(13107);
    v.push(26214);
    v.push(39322);
    v.push(52429);
    v.push(65536);
    proof {
        assert(v@ =~= spec_default_temperatures());
    }
    v
}

/// A result looks degenerate when its compression ratio exceeds the
/// compression threshold or its average log-probability falls below the
/// log-probability threshold. The compression ratio is never computed, so
/// only the log-probability term can fire, mirroring the reference.
pub open spec fn spec_needs_fallback(dr: DecodingResult) -> bool {
    ||| (dr.compression_ratio matches Some(c) && c > COMPRESSION_RATIO_THRESHOLD_FP)
    ||| dr.avg_logprob < LOGPROB_THRESHOLD_FP
}

/// A result is accepted without further fallback when it does not look
/// degenerate, or when its no-speech probability is high enough to count
/// the window as confidently silent.
pub open spec fn spec_accepts(dr: DecodingResult) -> bool {
    !spec_needs_fallback(dr) || (dr.no_speech_prob matches Some(p) && p
        > NO_SPEECH_THRESHOLD_FP)
}

/// Exact decision of the fallback trigger for one attempt's result.
pub fn accepts(dr: &DecodingResult) -> (r: bool)
    ensures
        r == spec_accepts(*dr),
{
    let needs_fallback = (match dr.compression_ratio {
        Some(c) => c > COMPRESSION_RATIO_THRESHOLD_FP,
        None => false,
    }) || dr.avg_logprob < LOGPROB_THRESHOLD_FP;
    let silent = match dr.no_speech_prob {
        Some(p) => p > NO_SPEECH_THRESHOLD_FP,
        None => false,
    };
    !needs_fallback || silent
}

impl Decoder {
    /// Runs one attempt per ladder temperature, in order. A successful
    /// attempt is returned as soon as it is accepted; a failed attempt is
    /// dropped and the ladder continues; the last temperature's outcome —
    /// success or error — is returned unconditionally.
    pub fn decode_with_fallback<M: AcousticModel, T: Tokenizer>(
        &mut self,
        model: &mut M,
        tokenizer: &T,
        seek: usize,
        frames: usize,
        temperatures: &Vec<i64>,
    ) -> (r: Result<DecodingResult, DecodeError>)
        requires
            old(self).wf(),
            temperatures@.len() >= 1,
        ensures
            old(self).same_session(*final(self)),
            final(self).wf(),
            (forall|i: int| 0 <= i < temperatures@.len() ==> temperatures@[i] <= 0) ==> final(self).rng == old(self).rng,
            r matches Ok(dr) ==> {
                &&& old(self).spec_result_ok(dr)
                &&& (dr.no_speech_prob matches Some(p) ==> 0 <= p <= FP_SCALE)
                &&& (dr.no_speech_prob is Some <==> old(self).max_target_positions >= 2)
                &&& temperatures@.contains(dr.temperature)
                &&& (spec_accepts(dr) || dr.temperature == temperatures@.last())
            },
            r matches Err(e) ==> (e == DecodeError::ModelForward || e
                == DecodeError::InvalidDistribution),
    {
        let ghost self0 = *self;
        let n = temperatures.len();
        let mut i: usize = 0;
        loop
            invariant
                self0 == *old(self),
                self0.same_session(*self),
                self.wf(),
                i < n,
                n == temperatures@.len(),
                (forall|j: int| 0 <= j < temperatures@.len() ==> temperatures@[j] <= 0)
                    ==> self.rng == self0.rng,
            decreases n - i,
        {
            let t = temperatures[i];
            let dr = self.decode(model, tokenizer, seek, frames, t);
            if i + 1 == n {
                return dr;
            }
            match dr {
                Ok(dr) => {
                    if accepts(&dr) {
                        return Ok(dr);
                    }
                },
                Err(_) => {},
            }
            i = i + 1;
        }
    }
}

} // verus!
