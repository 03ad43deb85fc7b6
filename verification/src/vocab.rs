//! Token vocabulary adapter: resolves special-purpose token names to ids via
//! the tokenizer collaborator and builds the per-session suppression mask.

use vstd::prelude::*;

use crate::errors::DecodeError;

verus! {

/// Largest vocabulary size the controller accepts; keeps every weight sum
/// representable in the machine integers used by the sampler.
pub const VOCAB_LIMIT: usize = 0x10_0000;

/// Capability interface of the tokenizer collaborator, assumed deterministic
/// and side-effect-free. `token_to_id` resolves a token name; `decode` turns
/// a token-id sequence into text (`None` on a tokenizer failure), skipping
/// special tokens when asked to.
pub trait Tokenizer {
    fn token_to_id(&self, name: &str) -> Option<u32>;

    fn decode(&self, ids: &Vec<u32>, skip_special: bool) -> Option<String>;
}

/// Exact decision on a lookup result: a found id is returned, a missing one
/// is the fatal `MissingToken` error.
pub fn resolve_token(found: Option<u32>) -> (r: Result<u32, DecodeError>)
    ensures
        r == match found {
            Some(id) => Ok::<u32, DecodeError>(id),
            None => Err::<u32, DecodeError>(DecodeError::MissingToken),
        },
{
    match found {
        Some(id) => Ok(id),
        None => Err(DecodeError::MissingToken),
    }
}

/// Looks a token name up in the tokenizer and fails with `MissingToken` —
/// the only error it can raise — exactly when the tokenizer collaborator
/// reports no id for the name (`resolve_token` carries that decision).
pub fn token_id<T: Tokenizer>(tokenizer: &T, token: &str) -> (r: Result<u32, DecodeError>)
    ensures
        r matches Err(e) ==> e == DecodeError::MissingToken,
{
    resolve_token(tokenizer.token_to_id(token))
}

/// The first resolved candidate at or after position `i`, if any.
pub open spec fn spec_first_resolved(c: Seq<Option<u32>>, i: int) -> Option<u32>
    decreases c.len() - i,
{
    if i < 0 || i >= c.len() {
        None
    } else if c[i] is Some {
        c[i]
    } else {
        spec_first_resolved(c, i + 1)
    }
}

/// Exact decision on a list of candidate lookups: the first one that
/// resolved wins; if none did, the session fails with
/// `NoSpeechTokenUnavailable`.
pub fn first_resolved(candidates: &Vec<Option<u32>>) -> (r: Result<u32, DecodeError>)
    ensures
        r == match spec_first_resolved(candidates@, 0) {
            Some(id) => Ok::<u32, DecodeError>(id),
            None => Err::<u32, DecodeError>(DecodeError::NoSpeechTokenUnavailable),
        },
{
    let n = candidates.len();
    let mut i: usize = 0;
    while i < n
        invariant
            i <= n,
            n == candidates@.len(),
            spec_first_resolved(candidates@, 0) == spec_first_resolved(candidates@, i as int),
        decreases n - i,
    {
        if let Some(id) = candidates[i] {
            return Ok(id);
        }
        i = i + 1;
    }
    Err(DecodeError::NoSpeechTokenUnavailable)
}

/// Whether the sequence of configured suppressed ids contains `x`.
pub fn contains_id(ids: &Vec<u32>, x: u32) -> (r: bool)
    ensures
        r == ids@.contains(x),
{
    let n = ids.len();
    let mut i: usize = 0;
    while i < n
        invariant
            i <= n,
            n == ids@.len(),
            forall|j: int| 0 <= j < i ==> ids@[j] != x,
        decreases n - i,
    {
        if ids[i] == x {
            return true;
        }
        i = i + 1;
    }
    false
}

/// Whether vocabulary id `id` must never be emitted: it is either one of the
/// configured suppressed ids, or the no-timestamps id while timestamp mode is
/// active.
pub open spec fn spec_suppressed(
    suppressed: Seq<u32>,
    timestamps: bool,
    no_timestamps_token: u32,
    id: u32,
) -> bool {
    suppressed.contains(id) || (timestamps && id == no_timestamps_token)
}

/// Builds the fixed suppression mask over the vocabulary: one entry per id,
/// true exactly for the ids that must never be emitted. Built once per decode
/// session and read-only afterwards.
pub fn build_suppress_mask(
    vocab_size: usize,
    suppressed: &Vec<u32>,
    timestamps: bool,
    no_timestamps_token: u32,
) -> (r: Vec<bool>)
    requires
        vocab_size <= VOCAB_LIMIT,
    ensures
        r@.len() == vocab_size,
        forall|i: int|
            0 <= i < vocab_size ==> r@[i] == spec_suppressed(
                suppressed@,
                timestamps,
                no_timestamps_token,
                i as u32,
            ),
{
    let mut mask: Vec<bool> = Vec::new();
    let mut id: usize = 0;
    while id < vocab_size
        invariant
            id <= vocab_size,
            vocab_size <= VOCAB_LIMIT,
            mask@.len() == id,
            forall|i: int|
                0 <= i < id ==> mask@[i] == spec_suppressed(
                    suppressed@,
                    timestamps,
                    no_timestamps_token,
                    i as u32,
                ),
        decreases vocab_size - id,
    {
        let s = contains_id(suppressed, id as u32) || (timestamps && id as u32
            == no_timestamps_token);
        mask.push(s);
        id = id + 1;
    }
    mask
}

} // verus!
