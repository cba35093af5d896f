//! Fallback score for a guess whose record omits one. The upstream curve is
//! `5000 * e^(-10 * distance / max_distance)`; this module computes the
//! monotone fixed-point approximation `5000 * (1 - x/2^16)^(2^16)` of that
//! curve, with `x = 10 * distance / max_distance`, by sixteen truncating
//! squarings at scale `2^40`. Zero distance maps to exactly 5000, and the
//! result never leaves `[0, 5000]` and never increases with distance.

use vstd::prelude::*;
use vstd::arithmetic::div_mod::{lemma_div_is_ordered, lemma_div_multiples_vanish, lemma_div_pos_is_pos};
use vstd::arithmetic::mul::lemma_mul_inequality;

verus! {

/// The fixed-point scale of the computation.
pub const SCORE_SCALE: u64 = 0x100_0000_0000;

/// One truncating fixed-point squaring at the scale.
pub open spec fn sq_step(p: int) -> int {
    (p * p) / (SCORE_SCALE as int)
}

/// `k` truncating squarings applied to `p`.
pub open spec fn pow_squares(p: int, k: nat) -> int
    decreases k,
{
    if k == 0 {
        p
    } else {
        sq_step(pow_squares(p, (k - 1) as nat))
    }
}

/// The fixed-point base `1 - 10*d/(2^16*m)`, clamped at zero.
pub open spec fn score_base(distance: int, max_distance: int) -> int {
    let x = (10 * distance * (SCORE_SCALE as int)) / (65536 * max_distance);
    if x >= SCORE_SCALE as int {
        0
    } else {
        SCORE_SCALE as int - x
    }
}

/// The fallback score as a mathematical function of the distance and the
/// map's maximum distance, both in the same unit.
pub open spec fn spec_score(distance: int, max_distance: int) -> int {
    (5000 * pow_squares(score_base(distance, max_distance), 16)) / (SCORE_SCALE as int)
}

proof fn lemma_sq_step_bounds(p: int)
    requires
        0 <= p <= SCORE_SCALE as int,
    ensures
        0 <= sq_step(p) <= SCORE_SCALE as int,
{
    let s = SCORE_SCALE as int;
    lemma_mul_inequality(p, s, p);
    assert(p * p <= s * p);
    lemma_mul_inequality(p, s, s);
    assert(p * s <= s * s);
    assert(p * p <= s * s);
    lemma_div_is_ordered(p * p, s * s, s);
    lemma_div_multiples_vanish(s, s);
    assert((s * s) / s == s);
    lemma_mul_inequality(0, p, p);
    lemma_div_pos_is_pos(p * p, s);
}

proof fn lemma_sq_step_monotone(p1: int, p2: int)
    requires
        0 <= p1 <= p2,
    ensures
        sq_step(p1) <= sq_step(p2),
{
    let s = SCORE_SCALE as int;
    lemma_mul_inequality(p1, p2, p1);
    assert(p1 * p1 <= p2 * p1);
    lemma_mul_inequality(p1, p2, p2);
    assert(p1 * p2 <= p2 * p2);
    assert(p2 * p1 == p1 * p2) by {
        vstd::arithmetic::mul::lemma_mul_is_commutative(p2, p1);
    }
    lemma_div_is_ordered(p1 * p1, p2 * p2, s);
}

proof fn lemma_pow_squares_bounds(p: int, k: nat)
    requires
        0 <= p <= SCORE_SCALE as int,
    ensures
        0 <= pow_squares(p, k) <= SCORE_SCALE as int,
    decreases k,
{
    if k > 0 {
        lemma_pow_squares_bounds(p, (k - 1) as nat);
        lemma_sq_step_bounds(pow_squares(p, (k - 1) as nat));
    }
}

proof fn lemma_pow_squares_monotone(p1: int, p2: int, k: nat)
    requires
        0 <= p1 <= p2,
    ensures
        pow_squares(p1, k) <= pow_squares(p2, k),
        0 <= pow_squares(p1, k),
    decreases k,
{
    if k > 0 {
        lemma_pow_squares_monotone(p1, p2, (k - 1) as nat);
        lemma_sq_step_monotone(pow_squares(p1, (k - 1) as nat), pow_squares(p2, (k - 1) as nat));
        lemma_div_pos_is_pos(
            pow_squares(p1, (k - 1) as nat) * pow_squares(p1, (k - 1) as nat),
            SCORE_SCALE as int,
        );
        lemma_mul_inequality(
            0,
            pow_squares(p1, (k - 1) as nat),
            pow_squares(p1, (k - 1) as nat),
        );
    }
}

proof fn lemma_base_bounds(distance: int, max_distance: int)
    requires
        distance >= 0,
        max_distance >= 1,
    ensures
        0 <= score_base(distance, max_distance) <= SCORE_SCALE as int,
{
    let s = SCORE_SCALE as int;
    lemma_mul_inequality(0, 10 * distance, s);
    lemma_div_pos_is_pos(10 * distance * s, 65536 * max_distance);
}

proof fn lemma_base_antitone(d1: int, d2: int, max_distance: int)
    requires
        0 <= d1 <= d2,
        max_distance >= 1,
    ensures
        score_base(d2, max_distance) <= score_base(d1, max_distance),
{
    let s = SCORE_SCALE as int;
    lemma_mul_inequality(10 * d1, 10 * d2, s);
    lemma_div_is_ordered(10 * d1 * s, 10 * d2 * s, 65536 * max_distance);
    lemma_base_bounds(d1, max_distance);
    lemma_base_bounds(d2, max_distance);
}

/// The score stays within `[0, 5000]`.
pub proof fn lemma_score_range(distance: int, max_distance: int)
    requires
        distance >= 0,
        max_distance >= 1,
    ensures
        0 <= spec_score(distance, max_distance) <= 5000,
{
    let s = SCORE_SCALE as int;
    lemma_base_bounds(distance, max_distance);
    let b = score_base(distance, max_distance);
    lemma_pow_squares_bounds(b, 16);
    let p = pow_squares(b, 16);
    lemma_mul_inequality(0, 5000, p);
    lemma_div_pos_is_pos(5000 * p, s);
    vstd::arithmetic::mul::lemma_mul_is_commutative(5000, p);
    lemma_mul_inequality(p, s, 5000);
    assert(5000 * p <= 5000 * s) by {
        vstd::arithmetic::mul::lemma_mul_is_commutative(5000, s);
    }
    lemma_div_is_ordered(5000 * p, 5000 * s, s);
    lemma_div_multiples_vanish(5000, s);
    assert((s * 5000) / s == 5000);
    vstd::arithmetic::mul::lemma_mul_is_commutative(5000, s);
}

/// The score never increases with distance: a farther guess never earns more.
pub proof fn lemma_score_antitone(d1: int, d2: int, max_distance: int)
    requires
        0 <= d1 <= d2,
        max_distance >= 1,
    ensures
        spec_score(d2, max_distance) <= spec_score(d1, max_distance),
{
    let s = SCORE_SCALE as int;
    lemma_base_antitone(d1, d2, max_distance);
    lemma_base_bounds(d2, max_distance);
    lemma_pow_squares_monotone(score_base(d2, max_distance), score_base(d1, max_distance), 16);
    let p1 = pow_squares(score_base(d1, max_distance), 16);
    let p2 = pow_squares(score_base(d2, max_distance), 16);
    lemma_mul_inequality(p2, p1, 5000);
    vstd::arithmetic::mul::lemma_mul_is_commutative(p2, 5000);
    vstd::arithmetic::mul::lemma_mul_is_commutative(p1, 5000);
    lemma_div_is_ordered(5000 * p2, 5000 * p1, s);
}

/// A zero-distance guess earns the full score.
pub proof fn lemma_score_at_zero(max_distance: int)
    requires
        max_distance >= 1,
    ensures
        spec_score(0, max_distance) == 5000,
{
    let s = SCORE_SCALE as int;
    assert(10 * 0 * s == 0);
    assert(0int / (65536 * max_distance) == 0) by {
        vstd::arithmetic::div_mod::lemma_div_of0(65536 * max_distance);
    }
    assert(score_base(0, max_distance) == s);
    assert forall|k: nat| pow_squares(s, k) == s by {
        lemma_pow_squares_fixed(s, k);
    }
    assert(pow_squares(s, 16) == s);
    lemma_div_multiples_vanish(5000, s);
    vstd::arithmetic::mul::lemma_mul_is_commutative(5000, s);
}

proof fn lemma_pow_squares_fixed(s: int, k: nat)
    requires
        s == SCORE_SCALE as int,
    ensures
        pow_squares(s, k) == s,
    decreases k,
{
    if k > 0 {
        lemma_pow_squares_fixed(s, (k - 1) as nat);
        lemma_div_multiples_vanish(s, s);
        assert(sq_step(s) == (s * s) / s == s);
    }
}

/// Computes the fallback score for a guess at the given distance on a map
/// whose corners are `max_distance` apart (same unit for both). The result
/// is `spec_score`, which stays in `[0, 5000]`, never increases with the
/// distance, and is 5000 at distance zero.
pub fn calculate_score(distance: u64, max_distance: u64) -> (r: i32)
    requires
        max_distance >= 1,
    ensures
        r as int == spec_score(distance as int, max_distance as int),
        0 <= r <= 5000,
{
    proof {
        lemma_score_range(distance as int, max_distance as int);
    }
    let s_wide: u128 = SCORE_SCALE as u128;
    let num: u128 = 10 * (distance as u128) * s_wide;
    let den: u128 = 65536 * (max_distance as u128);
    let x: u128 = num / den;
    let base: u64 = if x >= s_wide {
        0
    } else {
        (s_wide - x) as u64
    };
    proof {
        assert(base as int == score_base(distance as int, max_distance as int));
        lemma_base_bounds(distance as int, max_distance as int);
    }
    let mut p: u64 = base;
    let mut k: usize = 0;
    while k < 16
        invariant
            k <= 16,
            p as int == pow_squares(base as int, k as nat),
            0 <= p as int <= SCORE_SCALE as int,
        decreases 16 - k,
    {
        proof {
            lemma_sq_step_bounds(p as int);
        }
        p = (((p as u128) * (p as u128)) / (SCORE_SCALE as u128)) as u64;
        k = k + 1;
    }
    (((5000u128 * (p as u128)) / (SCORE_SCALE as u128)) as i32)
}

} // verus!
