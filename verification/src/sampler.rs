//! Sampler: picks the next token id from a masked score vector, by argmax at
//! temperature zero and by a weighted random draw otherwise, and computes
//! the probability and log-probability of a token under the unscaled
//! distribution.

use vstd::prelude::*;

use crate::errors::DecodeError;
use crate::fixed::{
    exp2_fp, log2_fp, spec_exp2_fp, spec_log2_fp, FP_SCALE, LN2_FP, MASKED_SCORE, SCORE_MAX,
    SCORE_MIN,
};
use crate::vocab::VOCAB_LIMIT;

verus! {

#[verifier::external_type_specification]
#[verifier::external_body]
pub struct ExStdRng(rand::rngs::StdRng);

/// A categorical distribution over `u64` weights; holds rand's
/// `WeightedIndex`, whose generic bounds Verus cannot declare directly.
#[verifier::external_body]
pub struct WeightedDraw {
    inner: rand::distr::weighted::WeightedIndex<u64>,
}

/// The weights a `WeightedDraw` distribution was built over.
pub uninterp spec fn wi_weights(d: WeightedDraw) -> Seq<u64>;

/// Relies on rand's `SeedableRng::seed_from_u64` for `StdRng`: constructs the
/// pseudo-random generator owned by one decode session from a fixed seed.
#[verifier::external_body]
pub fn rng_from_seed(seed: u64) -> rand::rngs::StdRng {
    rand::SeedableRng::seed_from_u64(seed)
}

/// Sum of a weight vector.
pub open spec fn spec_sum(s: Seq<u64>) -> int
    decreases s.len(),
{
    if s.len() == 0 {
        0
    } else {
        spec_sum(s.drop_last()) + s.last()
    }
}

/// Relies on rand's `WeightedIndex::new` over `u64` weights: it returns `Ok`
/// exactly when the weight total is positive and fits in `u64` (its errors
/// are empty input, a zero total, and overflow of the total; a `u64` weight
/// is never negative), and the distribution then holds the given weights.
#[verifier::external_body]
fn weighted_index_new(weights: &Vec<u64>) -> (r: Result<WeightedDraw, DecodeError>)
    ensures
        (r matches Ok(d) ==> wi_weights(d) == weights@),
        r is Ok <==> 0 < spec_sum(weights@) <= u64::MAX,
{
    match rand::distr::weighted::WeightedIndex::new(weights) {
        Ok(d) => Ok(WeightedDraw { inner: d }),
        Err(_) => Err(DecodeError::InvalidDistribution),
    }
}

/// Relies on rand's `Distribution::sample` for `WeightedIndex`: the drawn
/// index is in range and an index of zero weight is never drawn. Nothing is
/// assumed about which index comes back beyond that.
#[verifier::external_body]
fn weighted_index_sample(d: &WeightedDraw, rng: &mut rand::rngs::StdRng) -> (r: usize)
    ensures
        r < wi_weights(*d).len(),
        wi_weights(*d)[r as int] > 0,
{
    rand::distr::Distribution::sample(&d.inner, rng)
}

/// Index of the first maximum of a non-empty score sequence.
pub open spec fn spec_argmax(s: Seq<i64>) -> int
    decreases s.len(),
{
    if s.len() <= 1 {
        0
    } else {
        let t = spec_argmax(s.drop_last());
        if s.last() > s[t] {
            s.len() - 1
        } else {
            t
        }
    }
}

/// Deterministic argmax: returns the lowest index among maximal scores,
/// independent of any random state.
pub fn sample_argmax(scores: &Vec<i64>) -> (r: usize)
    requires
        scores@.len() >= 1,
    ensures
        r == spec_argmax(scores@),
        r < scores@.len(),
        forall|j: int| 0 <= j < scores@.len() ==> scores@[j] <= scores@[r as int],
        forall|j: int| 0 <= j < r ==> scores@[j] < scores@[r as int],
{
    let n = scores.len();
    let mut best: usize = 0;
    let mut i: usize = 1;
    proof {
        assert(scores@.take(1).len() == 1);
    }
    while i < n
        invariant
            1 <= i <= n,
            n == scores@.len(),
            best < i,
            best == spec_argmax(scores@.take(i as int)),
            forall|j: int| 0 <= j < i ==> scores@[j] <= scores@[best as int],
            forall|j: int| 0 <= j < best ==> scores@[j] < scores@[best as int],
        decreases n - i,
    {
        proof {
            assert(scores@.take(i + 1).drop_last() =~= scores@.take(i as int));
            assert(scores@.take(i + 1).last() == scores@[i as int]);
        }
        if scores[i] > scores[best] {
            best = i;
        }
        i = i + 1;
    }
    proof {
        assert(scores@.take(n as int) =~= scores@);
    }
    best
}

/// A score is admissible when it is either the masked sentinel or clamped
/// into the admissible range.
pub open spec fn spec_score_ok(s: i64) -> bool {
    s == MASKED_SCORE || SCORE_MIN <= s <= SCORE_MAX
}

/// Sampling weight of a score under the unscaled distribution: zero for a
/// masked id, the fixed-point exponential otherwise.
pub open spec fn spec_weight_unscaled(s: i64) -> int {
    if s == MASKED_SCORE {
        0
    } else {
        spec_exp2_fp(s - SCORE_MIN)
    }
}

/// Exponent of a score after temperature scaling, clamped so that every
/// weight total fits the machine integers.
pub open spec fn spec_scaled_exponent(s: i64, t: i64) -> int
    recommends
        SCORE_MIN <= s <= SCORE_MAX,
        t > 0,
{
    let u = ((s - SCORE_MIN) * 65536) / (t as int);
    if u > 24 * 65536 {
        24 * 65536int
    } else {
        u
    }
}

/// Sampling weight of a score at temperature `t > 0`.
pub open spec fn spec_weight_scaled(s: i64, t: i64) -> int {
    if s == MASKED_SCORE {
        0
    } else {
        spec_exp2_fp(spec_scaled_exponent(s, t))
    }
}

/// Weight vector of the temperature-scaled distribution.
fn weights_scaled(scores: &Vec<i64>, t: i64) -> (w: Vec<u64>)
    requires
        t > 0,
        forall|i: int| 0 <= i < scores@.len() ==> spec_score_ok(scores@[i]),
    ensures
        w@.len() == scores@.len(),
        forall|i: int| 0 <= i < w@.len() ==> w@[i] == spec_weight_scaled(scores@[i], t),
        forall|i: int| 0 <= i < w@.len() ==> w@[i] < 0x200_0000_0000u64,
        forall|i: int| 0 <= i < w@.len() ==> (scores@[i] != MASKED_SCORE ==> w@[i] >= 1),
{
    let n = scores.len();
    let mut w: Vec<u64> = Vec::new();
    let mut i: usize = 0;
    while i < n
        invariant
            i <= n,
            n == scores@.len(),
            t > 0,
            forall|j: int| 0 <= j < n ==> spec_score_ok(scores@[j]),
            w@.len() == i,
            forall|j: int| 0 <= j < i ==> w@[j] == spec_weight_scaled(scores@[j], t),
            forall|j: int| 0 <= j < i ==> w@[j] < 0x200_0000_0000u64,
            forall|j: int| 0 <= j < i ==> (scores@[j] != MASKED_SCORE ==> w@[j] >= 1),
        decreases n - i,
    {
        let s = scores[i];
        if s == MASKED_SCORE {
            w.push(0);
        } else {
            let diff: u64 = (s - SCORE_MIN) as u64;
            let mut e: u64 = (diff * 65536) / (t as u64);
            if e > 24 * 65536 {
                e = 24 * 65536;
            }
            w.push(exp2_fp(e as i64));
        }
        i = i + 1;
    }
    w
}

/// Every element of `s` is at most `b`, so the sum is at most `len * b`.
proof fn lemma_sum_bound(s: Seq<u64>, b: int)
    requires
        forall|i: int| 0 <= i < s.len() ==> s[i] <= b,
        0 <= b,
    ensures
        spec_sum(s) <= s.len() * b,
        0 <= spec_sum(s),
    decreases s.len(),
{
    if s.len() > 0 {
        lemma_sum_bound(s.drop_last(), b);
        assert((s.len() - 1) * b + b == s.len() * b) by (nonlinear_arith);
    }
}

/// The sum dominates each single element.
proof fn lemma_sum_lower(s: Seq<u64>, i: int)
    requires
        0 <= i < s.len(),
    ensures
        spec_sum(s) >= s[i],
    decreases s.len(),
{
    lemma_sum_bound(s.drop_last(), u64::MAX as int);
    if i < s.len() - 1 {
        lemma_sum_lower(s.drop_last(), i);
    }
}

/// Produces the next token id from the masked scores.
///
/// At temperature zero or below the result is the deterministic argmax and
/// the random state is untouched.
/// At positive temperature one index is drawn from the categorical
/// distribution of the temperature-scaled weights; a masked id has weight
/// zero and is never drawn, and the draw fails with `InvalidDistribution`
/// exactly when every id is masked.
pub fn sample(scores: &Vec<i64>, t: i64, rng: &mut rand::rngs::StdRng) -> (r: Result<
    u32,
    DecodeError,
>)
    requires
        1 <= scores@.len() <= VOCAB_LIMIT,
        forall|i: int| 0 <= i < scores@.len() ==> spec_score_ok(scores@[i]),
    ensures
        t <= 0 ==> *final(rng) == *old(rng) && r == Ok::<u32, DecodeError>(
            spec_argmax(scores@) as u32,
        ),
        r matches Ok(tok) ==> (tok as int) < scores@.len(),
        (r matches Ok(tok) && (exists|i: int|
            0 <= i < scores@.len() && scores@[i] != MASKED_SCORE)) ==> scores@[r.unwrap() as int]
            != MASKED_SCORE,
        t > 0 ==> ((r is Err) <==> (forall|i: int|
            0 <= i < scores@.len() ==> scores@[i] == MASKED_SCORE)),
        r is Err ==> r == Err::<u32, DecodeError>(DecodeError::InvalidDistribution),
{
    if t > 0 {
        let w = weights_scaled(scores, t);
        proof {
            lemma_sum_bound(w@, 0x200_0000_0000int - 1);
            assert(w@.len() * (0x200_0000_0000int - 1) <= 0x10_0000 * (0x200_0000_0000int - 1))
                by (nonlinear_arith)
                requires w@.len() <= 0x10_0000;
            if exists|i: int| 0 <= i < scores@.len() && scores@[i] != MASKED_SCORE {
                let i = choose|i: int| 0 <= i < scores@.len() && scores@[i] != MASKED_SCORE;
                lemma_sum_lower(w@, i);
            }
        }
        match weighted_index_new(&w) {
            Ok(d) => {
                let idx = weighted_index_sample(&d, rng);
                proof {
                    if forall|i: int| 0 <= i < scores@.len() ==> scores@[i] == MASKED_SCORE {
                        lemma_sum_bound(w@, 0);
                        assert(false);
                    }
                }
                Ok(idx as u32)
            },
            Err(_) => {
                proof {
                    if exists|i: int| 0 <= i < scores@.len() && scores@[i] != MASKED_SCORE {
                        assert(false);
                    }
                }
                Err(DecodeError::InvalidDistribution)
            },
        }
    } else {
        let best = sample_argmax(scores);
        proof {
            if exists|i: int| 0 <= i < scores@.len() && scores@[i] != MASKED_SCORE {
                let i = choose|i: int| 0 <= i < scores@.len() && scores@[i] != MASKED_SCORE;
                assert(scores@[best as int] >= scores@[i]);
            }
        }
        Ok(best as u32)
    }
}

/// Weight total of the unscaled distribution over a score sequence.
pub open spec fn spec_wsum(s: Seq<i64>) -> int
    decreases s.len(),
{
    if s.len() == 0 {
        0
    } else {
        spec_wsum(s.drop_last()) + spec_weight_unscaled(s.last())
    }
}

/// Fixed-point probability of index `i` under the unscaled distribution.
pub open spec fn spec_prob_of(s: Seq<i64>, i: int) -> int {
    (spec_weight_unscaled(s[i]) * 65536) / spec_wsum(s)
}

/// Fixed-point magnitude of the natural log-probability of index `i` under
/// the unscaled distribution.
pub open spec fn spec_neg_logprob_of(s: Seq<i64>, i: int) -> int {
    let l2w = spec_log2_fp(spec_weight_unscaled(s[i]));
    let l2t = spec_log2_fp(spec_wsum(s));
    if l2w >= l2t {
        0
    } else {
        ((l2t - l2w) * 45426) / 65536
    }
}

/// The weight total over scores, together with the facts callers need.
fn weight_total(scores: &Vec<i64>) -> (total: u128)
    requires
        scores@.len() <= VOCAB_LIMIT,
        forall|i: int| 0 <= i < scores@.len() ==> spec_score_ok(scores@[i]),
    ensures
        total == spec_wsum(scores@),
        total <= scores@.len() * 0x1_0000_0000_0000int,
{
    let n = scores.len();
    let mut total: u128 = 0;
    let mut i: usize = 0;
    while i < n
        invariant
            i <= n,
            n == scores@.len() <= VOCAB_LIMIT,
            forall|j: int| 0 <= j < n ==> spec_score_ok(scores@[j]),
            total == spec_wsum(scores@.take(i as int)),
            total <= i * 0x1_0000_0000_0000int,
        decreases n - i,
    {
        proof {
            assert(scores@.take(i + 1).drop_last() =~= scores@.take(i as int));
            assert(scores@.take(i + 1).last() == scores@[i as int]);
        }
        let s = scores[i];
        if s != MASKED_SCORE {
            let wv = exp2_fp(s - SCORE_MIN);
            total = total + (wv as u128);
        }
        i = i + 1;
    }
    proof {
        assert(scores@.take(n as int) =~= scores@);
    }
    total
}

/// Fixed-point probability (in [0, FP_SCALE]) of token `idx` under the
/// pseudo-softmax of the unscaled scores; used once per segment to read the
/// no-speech probability.
pub fn prob_of(scores: &Vec<i64>, idx: usize) -> (r: i64)
    requires
        1 <= scores@.len() <= VOCAB_LIMIT,
        forall|i: int| 0 <= i < scores@.len() ==> spec_score_ok(scores@[i]),
        (idx as int) < scores@.len(),
        scores@[idx as int] != MASKED_SCORE,
    ensures
        r == spec_prob_of(scores@, idx as int),
        0 <= r <= FP_SCALE,
{
    let total = weight_total(scores);
    let wv = exp2_fp(scores[idx] - SCORE_MIN);
    proof {
        lemma_wsum_lower(scores@, idx as int);
        assert((wv as int) * 65536 <= total as int * 65536) by (nonlinear_arith)
            requires wv as int <= total as int;
        vstd::arithmetic::div_mod::lemma_div_is_ordered(
            wv as int * 65536,
            total as int * 65536,
            total as int,
        );
        vstd::arithmetic::div_mod::lemma_div_multiples_vanish(65536, total as int);
        assert(total as int * 65536 == 65536 * total as int) by (nonlinear_arith);
    }
    let p: u128 = ((wv as u128) * 65536) / total;
    p as i64
}

/// The unscaled weight total dominates the weight of each index.
proof fn lemma_wsum_lower(s: Seq<i64>, i: int)
    requires
        0 <= i < s.len(),
        forall|j: int| 0 <= j < s.len() ==> spec_score_ok(s[j]),
    ensures
        spec_wsum(s) >= spec_weight_unscaled(s[i]),
        spec_wsum(s) >= 0,
    decreases s.len(),
{
    if s.len() == 1 {
    } else if i < s.len() - 1 {
        lemma_wsum_lower(s.drop_last(), i);
    } else {
        lemma_wsum_lower(s.drop_last(), 0);
    }
}

/// Fixed-point magnitude of ln(probability of token `idx`) under the
/// pseudo-softmax of the unscaled masked scores; accumulated per sampled
/// token into the running log-probability sum.
pub fn neg_logprob_of(scores: &Vec<i64>, idx: usize) -> (r: u64)
    requires
        1 <= scores@.len() <= VOCAB_LIMIT,
        forall|i: int| 0 <= i < scores@.len() ==> spec_score_ok(scores@[i]),
        (idx as int) < scores@.len(),
        scores@[idx as int] != MASKED_SCORE,
    ensures
        r == spec_neg_logprob_of(scores@, idx as int),
        r <= 0x80_0000_0000u64,
{
    let total = weight_total(scores);
    let wv = exp2_fp(scores[idx] - SCORE_MIN);
    proof {
        lemma_wsum_lower(scores@, idx as int);
        assert(scores@.len() * 0x1_0000_0000_0000int <= 0x10_0000 * 0x1_0000_0000_0000int)
            by (nonlinear_arith)
            requires scores@.len() <= 0x10_0000;
    }
    let l2w = log2_fp(wv as u128);
    let l2t = log2_fp(total);
    if l2w >= l2t {
        0
    } else {
        ((l2t - l2w) * LN2_FP) / 65536
    }
}

} // verus!
