//! Deterministic fixed-point arithmetic for scores, weights and
//! log-probabilities.
//!
//! All real-valued quantities of the controller (logits, probabilities,
//! log-probabilities, temperatures, thresholds) are carried as fixed-point
//! integers with `FP_SCALE` units per 1.0. The weight function is a
//! base-2 exponential with linear interpolation between powers of two, and
//! the logarithm is its inverse with the same interpolation; both are exact
//! integer computations, so every decode run is reproducible bit for bit.

use vstd::prelude::*;
use vstd::arithmetic::power2::pow2;

verus! {

/// Fixed-point unit: values carry 16 fractional bits.
pub const FP_SCALE: i64 = 65536;

/// ln(2) in fixed-point units, rounded to nearest.
pub const LN2_FP: u64 = 45426;

/// Sentinel score of a suppressed vocabulary id; compares below every
/// admissible score.
pub const MASKED_SCORE: i64 = i64::MIN;

/// Lowest admissible (clamped) score: -16.0.
pub const SCORE_MIN: i64 = -16 * FP_SCALE;

/// Highest admissible (clamped) score: +15.0.
pub const SCORE_MAX: i64 = 15 * FP_SCALE;

/// Largest argument accepted by `exp2_fp`: 31.0.
pub const EXP2_ARG_MAX: i64 = 31 * FP_SCALE;

/// 2^(e / FP_SCALE) in fixed point, with linear interpolation between
/// consecutive powers of two.
pub open spec fn spec_exp2_fp(e: int) -> int
    recommends
        0 <= e <= 31 * 65536,
{
    (65536 + e % 65536) * pow2((e / 65536) as nat)
}

/// log2(w) in fixed point, with linear interpolation between consecutive
/// powers of two; the exact inverse scale of `spec_exp2_fp`.
pub open spec fn spec_log2_fp(w: int) -> int
    recommends
        1 <= w,
{
    let k = spec_ilog2(w);
    k * 65536 + ((w - pow2(k as nat)) * 65536) / (pow2(k as nat) as int)
}

/// Floor of the base-2 logarithm.
pub open spec fn spec_ilog2(w: int) -> int
    decreases w,
{
    if w < 2 {
        0
    } else {
        1 + spec_ilog2(w / 2)
    }
}

/// `spec_ilog2` brackets its argument between consecutive powers of two.
pub proof fn lemma_ilog2_bounds(w: int)
    requires
        1 <= w,
    ensures
        0 <= spec_ilog2(w),
        pow2(spec_ilog2(w) as nat) <= w < pow2((spec_ilog2(w) + 1) as nat),
    decreases w,
{
    vstd::arithmetic::power2::lemma2_to64();
    if w < 2 {
        assert(pow2(0) == 1 && pow2(1) == 2);
    } else {
        lemma_ilog2_bounds(w / 2);
        let i = spec_ilog2(w / 2);
        vstd::arithmetic::power2::lemma_pow2_adds(i as nat, 1);
        vstd::arithmetic::power2::lemma_pow2_adds((i + 1) as nat, 1);
        assert(pow2((i + 1) as nat) == 2 * pow2(i as nat));
        assert(pow2((i + 2) as nat) == 2 * pow2((i + 1) as nat));
        assert(w == 2 * (w / 2) + w % 2) by {
            vstd::arithmetic::div_mod::lemma_fundamental_div_mod(w, 2);
        }
    }
}

/// Exact base-2 exponential in fixed point.
pub fn exp2_fp(e: i64) -> (r: u64)
    requires
        0 <= e <= EXP2_ARG_MAX,
    ensures
        r == spec_exp2_fp(e as int),
        65536 <= r < 0x1_0000_0000_0000u64,
        e <= 24 * 65536 ==> r < 0x200_0000_0000u64,
{
    let eu: u64 = e as u64;
    let k: u64 = eu / 65536;
    let f: u64 = eu % 65536;
    let base: u64 = 65536 + f;
    proof {
        vstd::arithmetic::power2::lemma2_to64();
        if k < 31 {
            vstd::arithmetic::power2::lemma_pow2_strictly_increases(k as nat, 31);
        }
        vstd::arithmetic::power2::lemma_pow2_pos(k as nat);
        vstd::arithmetic::mul::lemma_mul_upper_bound(
            base as int,
            131071,
            pow2(k as nat) as int,
            pow2(31) as int,
        );
        vstd::arithmetic::mul::lemma_mul_inequality(1, pow2(k as nat) as int, base as int);
        assert(base as int * pow2(k as nat) >= 65536) by (nonlinear_arith)
            requires base >= 65536, pow2(k as nat) >= 1;
        assert(base as int * pow2(k as nat) <= 131071 * 2147483648int);
        if e <= 24 * 65536 {
            if k < 24 {
                vstd::arithmetic::power2::lemma_pow2_strictly_increases(k as nat, 24);
            }
            vstd::arithmetic::mul::lemma_mul_upper_bound(
                base as int,
                131071,
                pow2(k as nat) as int,
                pow2(24) as int,
            );
            assert(base as int * pow2(k as nat) <= 131071 * 16777216int);
        }
        vstd::bits::lemma_u64_shl_is_mul(base, k);
    }
    base << k
}

/// Exact base-2 logarithm in fixed point.
pub fn log2_fp(w: u128) -> (r: u64)
    requires
        1 <= w < 0x10_0000_0000_0000_0000_0000_0000u128,
    ensures
        r == spec_log2_fp(w as int),
        r <= 100 * 65536 + 65535,
{
    let mut k: u64 = 0;
    let mut v: u128 = w;
    let mut p: u128 = 1;
    proof {
        vstd::arithmetic::power2::lemma2_to64_rest();
        vstd::arithmetic::power2::lemma2_to64();
    }
    while v >= 2
        invariant
            1 <= w < 0x10_0000_0000_0000_0000_0000_0000u128,
            1 <= v,
            k <= 100,
            p == pow2(k as nat),
            v == w as int / p as int,
            spec_ilog2(w as int) == k + spec_ilog2(v as int),
        decreases v,
    {
        proof {
            vstd::arithmetic::power2::lemma_pow2_pos(k as nat);
            vstd::arithmetic::div_mod::lemma_fundamental_div_mod(w as int, p as int);
            vstd::arithmetic::mul::lemma_mul_inequality(2, v as int, p as int);
            assert(p as int * v as int == v as int * p as int) by (nonlinear_arith);
            assert(w as int >= 2 * p as int);
            vstd::arithmetic::power2::lemma_pow2_adds(k as nat, 1);
            vstd::arithmetic::power2::lemma2_to64();
            if k + 1 > 100 {
                vstd::arithmetic::power2::lemma_pow2_strictly_increases(100, (k + 1) as nat);
                vstd::arithmetic::power2::lemma_pow2_adds(64, 36);
                vstd::arithmetic::power2::lemma2_to64_rest();
                assert(pow2(100) == pow2(64) * pow2(36));
                assert(false);
            }
            vstd::arithmetic::div_mod::lemma_div_denominator(w as int, p as int, 2);
            assert(spec_ilog2(v as int) == 1 + spec_ilog2(v as int / 2));
        }
        v = v / 2;
        p = p * 2;
        k = k + 1;
    }
    proof {
        assert(v == 1);
        vstd::arithmetic::power2::lemma_pow2_pos(k as nat);
        vstd::arithmetic::div_mod::lemma_fundamental_div_mod(w as int, p as int);
        assert(p as int * 1 == p as int) by (nonlinear_arith);
        assert(p <= w);
        assert(w as int == p as int + w as int % p as int);
        assert(w < 2 * p);
        assert(spec_ilog2(1int) == 0);
        assert(k == spec_ilog2(w as int));
    }
    let rem: u128 = w - p;
    let frac: u128 = (rem * 65536) / p;
    proof {
        assert(rem < p);
        assert(rem as int * 65536 < p as int * 65536) by (nonlinear_arith)
            requires rem < p, 0 < p;
        assert((rem as int * 65536) / (p as int) < 65536) by {
            vstd::arithmetic::div_mod::lemma_multiply_divide_lt(
                rem as int * 65536,
                p as int,
                65536,
            );
        }
    }
    k * 65536 + (frac as u64)
}

} // verus!
