//! The brush opacity falloff curve.
//!
//! Given a radial distance from the stamp center, normalized so that the stamp
//! edge sits at 1, the curve yields an 8-bit opacity: fully solid inside a
//! hardness-derived core radius, fully transparent outside an outer radius,
//! and in between a rational-quadratic blend with zero slope at both ends.
//! Distances are rationals `num / den`; with `xi` the position inside the
//! blend zone rescaled to `[0, 1]`, the blend is
//! `(1 - xi)^2 / (xi^2 + (1 - xi)^2)`, scaled to `0..=255`.
//!
//! The core ends at `hardness / 200` of the radius and the transparent rim
//! begins at `1 - hardness / 200`, so hardness 100 gives a hard edge at half
//! the radius and hardness 0 blends across the whole stamp.

use vstd::prelude::*;
use vstd::arithmetic::div_mod::{
    lemma_div_is_ordered, lemma_div_multiples_vanish, lemma_div_of0, lemma_div_pos_is_pos,
    lemma_fundamental_div_mod, lemma_mod_bound,
};

verus! {

/// Numerator of the core boundary `hardness / 200`, over denominator `200 * den`.
pub open spec fn lower_edge(den: int, hardness: int) -> int {
    hardness * den
}

/// Numerator of the rim boundary `1 - hardness / 200`, over denominator `200 * den`.
pub open spec fn upper_edge(den: int, hardness: int) -> int {
    (200 - hardness) * den
}

/// The opacity of the falloff curve at radial distance `num / den`, as a value
/// in `0..=255`, for a hardness in `0..=100`.
///
/// At exactly the midpoint of a zero-width blend zone (hardness 100, distance
/// exactly one half) the curve is taken to be transparent.
pub open spec fn falloff_alpha(num: int, den: int, hardness: int) -> int {
    if 200 * num < lower_edge(den, hardness) {
        255
    } else if 200 * num > upper_edge(den, hardness) {
        0
    } else {
        let p = 200 * num - lower_edge(den, hardness);
        let q = upper_edge(den, hardness) - lower_edge(den, hardness);
        if q == 0 {
            0
        } else {
            (255 * (q - p) * (q - p)) / (p * p + (q - p) * (q - p))
        }
    }
}

/// Evaluate the falloff curve: opacity at radial distance `num / den`.
pub fn falloff_alpha_exec(num: u64, den: u64, hardness: u32) -> (r: u8)
    requires
        0 < den <= 0x1_0000_0000,
        hardness <= 100,
    ensures
        r == falloff_alpha(num as int, den as int, hardness as int),
{
    proof {
        assert((hardness as int) * (den as int) <= 100 * 0x1_0000_0000 && (200 - hardness as int)
            * (den as int) <= 200 * 0x1_0000_0000) by (nonlinear_arith)
            requires
                hardness <= 100,
                0 < den <= 0x1_0000_0000,
        ;
    }
    let n200: u128 = 200u128 * (num as u128);
    let lo: u128 = (hardness as u128) * (den as u128);
    let hi: u128 = (200u128 - (hardness as u128)) * (den as u128);
    if n200 < lo {
        255
    } else if n200 > hi {
        0
    } else {
        let p: u128 = n200 - lo;
        let q: u128 = hi - lo;
        if q == 0 {
            0
        } else {
            let rest: u128 = q - p;
            proof {
                assert(q < 0x1_0000_0000_0000) by (nonlinear_arith)
                    requires
                        q == (200 - hardness) * (den as int) - (hardness as int) * (den as int),
                        hardness <= 100,
                        0 < den <= 0x1_0000_0000,
                ;
                lemma_falloff_fraction_bounds(p as int, q as int);
            }
            let numer: u128 = 255u128 * rest * rest;
            let denom: u128 = p * p + rest * rest;
            (numer / denom) as u8
        }
    }
}

/// In the blend zone the scaled fraction stays within `0..=255`, and its
/// ingredients stay small enough for 128-bit arithmetic.
proof fn lemma_falloff_fraction_bounds(p: int, q: int)
    requires
        0 <= p <= q,
        0 < q < 0x1_0000_0000_0000,
    ensures
        0 < p * p + (q - p) * (q - p) <= 2 * q * q,
        255 * (q - p) * (q - p) <= 255 * (p * p + (q - p) * (q - p)),
        0 <= (255 * (q - p) * (q - p)) / (p * p + (q - p) * (q - p)) <= 255,
        255 * (q - p) * (q - p) < 0x1_0000_0000_0000_0000_0000_0000_0000,
        p * p + (q - p) * (q - p) < 0x1_0000_0000_0000_0000_0000_0000_0000,
{
    let rest = q - p;
    assert(p * p + rest * rest > 0) by (nonlinear_arith)
        requires
            0 <= p <= q,
            0 < q,
            rest == q - p,
    ;
    assert(p * p + rest * rest <= 2 * q * q) by (nonlinear_arith)
        requires
            0 <= p <= q,
            rest == q - p,
    ;
    assert(255 * rest * rest <= 255 * (p * p + rest * rest)) by (nonlinear_arith)
        requires
            0 <= p <= q,
            rest == q - p,
    ;
    assert(255 * rest * rest < 0x1_0000_0000_0000_0000_0000_0000_0000 && p * p + rest * rest
        < 0x1_0000_0000_0000_0000_0000_0000_0000) by (nonlinear_arith)
        requires
            0 <= p <= q,
            0 < q < 0x1_0000_0000_0000,
            rest == q - p,
    ;
    let d = p * p + rest * rest;
    lemma_div_pos_is_pos(255 * rest * rest, d);
    lemma_div_is_ordered(255 * rest * rest, 255 * d, d);
    lemma_div_multiples_vanish(255, d);
}

/// Cross-multiplied comparison of two fractions with a common ordering:
/// if `a1 * b2 >= a2 * b1` then `a1 / b1 >= a2 / b2`.
proof fn lemma_div_cross(a1: int, b1: int, a2: int, b2: int)
    requires
        a1 >= 0,
        a2 >= 0,
        b1 > 0,
        b2 > 0,
        a1 * b2 >= a2 * b1,
    ensures
        a1 / b1 >= a2 / b2,
{
    let k = a2 / b2;
    lemma_div_pos_is_pos(a2, b2);
    lemma_fundamental_div_mod(a2, b2);
    lemma_mod_bound(a2, b2);
    assert(a2 >= b2 * k);
    assert(a1 * b2 >= (b2 * k) * b1) by (nonlinear_arith)
        requires
            a1 * b2 >= a2 * b1,
            a2 >= b2 * k,
            b1 > 0,
    ;
    assert(a1 >= k * b1) by (nonlinear_arith)
        requires
            a1 * b2 >= (b2 * k) * b1,
            b2 > 0,
    ;
    lemma_div_is_ordered(k * b1, a1, b1);
    lemma_div_multiples_vanish(k, b1);
    vstd::arithmetic::mul::lemma_mul_is_commutative(k, b1);
}

/// The curve starts fully solid and ends fully transparent: at distance 0 the
/// opacity is 255 and at distance 1 (the stamp edge) it is 0, whenever the
/// blend zone has positive width (hardness below 100).
pub proof fn lemma_falloff_endpoints(den: int, hardness: int)
    requires
        den > 0,
        0 <= hardness < 100,
    ensures
        falloff_alpha(0, den, hardness) == 255,
        falloff_alpha(den, den, hardness) == 0,
{
    if hardness == 0 {
        let q = upper_edge(den, 0) - lower_edge(den, 0);
        assert(q == 200 * den);
        // Distance 0 falls at the very start of the blend zone.
        assert(falloff_alpha(0, den, 0) == (255 * q * q) / (q * q)) by {
            assert(200 * 0 - lower_edge(den, 0) == 0);
        }
        assert(q * q > 0) by (nonlinear_arith)
            requires
                q > 0,
        ;
        lemma_div_multiples_vanish(255, q * q);
        assert(255 * (q * q) == 255 * q * q) by (nonlinear_arith);
        // Distance 1 falls at the very end of the blend zone.
        let p = 200 * den - lower_edge(den, 0);
        assert(p == q);
        assert(p * p > 0) by (nonlinear_arith)
            requires
                p > 0,
        ;
        assert(255 * (q - p) * (q - p) == 0 && p * p + (q - p) * (q - p) == p * p)
            by (nonlinear_arith)
            requires
                p == q,
        ;
        assert(falloff_alpha(den, den, 0) == 0int / (p * p));
        lemma_div_of0(p * p);
    } else {
        assert(0 < hardness * den) by (nonlinear_arith)
            requires
                den > 0,
                hardness > 0,
        ;
        assert(hardness * den <= 200 * den) by (nonlinear_arith)
            requires
                den > 0,
                hardness <= 100,
        ;
        assert(200 * den > (200 - hardness) * den) by (nonlinear_arith)
            requires
                den > 0,
                hardness > 0,
        ;
    }
}

/// Hardness 100 yields a step function: fully solid strictly inside half the
/// radius, fully transparent from half the radius outward.
pub proof fn lemma_falloff_hard_edge(num: int, den: int)
    requires
        den > 0,
    ensures
        2 * num < den ==> falloff_alpha(num, den, 100) == 255,
        2 * num >= den ==> falloff_alpha(num, den, 100) == 0,
{
    assert(lower_edge(den, 100) == 100 * den);
    assert(upper_edge(den, 100) == 100 * den);
    if 2 * num < den {
        assert(200 * num < 100 * den);
    } else {
        assert(200 * num >= 100 * den);
    }
}

/// The falloff curve is non-increasing in the radial distance: at a common
/// denominator, a point at least as far from the center is at most as opaque.
pub proof fn lemma_falloff_monotone(num1: int, num2: int, den: int, hardness: int)
    requires
        den > 0,
        0 <= hardness <= 100,
        0 <= num1 <= num2,
    ensures
        falloff_alpha(num1, den, hardness) >= falloff_alpha(num2, den, hardness),
{
    let lo = lower_edge(den, hardness);
    let hi = upper_edge(den, hardness);
    let q = hi - lo;
    if 200 * num2 < lo {
        // both solid
    } else if 200 * num1 > hi {
        // both transparent
    } else if 200 * num1 < lo {
        // num1 solid at the maximum; num2 somewhere at or below it
        lemma_falloff_le_255(num2, den, hardness);
    } else if 200 * num2 > hi {
        // num2 transparent at the minimum; num1 somewhere at or above it
        lemma_falloff_nonneg(num1, den, hardness);
    } else {
        // both inside the blend zone
        let p1 = 200 * num1 - lo;
        let p2 = 200 * num2 - lo;
        if q == 0 {
        } else {
            assert(q >= 0) by (nonlinear_arith)
                requires
                    den > 0,
                    0 <= hardness <= 100,
                    q == (200 - hardness) * den - hardness * den,
            ;
            let a1 = 255 * (q - p1) * (q - p1);
            let b1 = p1 * p1 + (q - p1) * (q - p1);
            let a2 = 255 * (q - p2) * (q - p2);
            let b2 = p2 * p2 + (q - p2) * (q - p2);
            assert(a1 >= 0 && a2 >= 0 && b1 > 0 && b2 > 0 && a1 * b2 >= a2 * b1)
                by (nonlinear_arith)
                requires
                    0 <= p1 <= p2 <= q,
                    q > 0,
                    a1 == 255 * (q - p1) * (q - p1),
                    b1 == p1 * p1 + (q - p1) * (q - p1),
                    a2 == 255 * (q - p2) * (q - p2),
                    b2 == p2 * p2 + (q - p2) * (q - p2),
            ;
            lemma_div_cross(a1, b1, a2, b2);
        }
    }
}

/// The curve never exceeds full opacity.
pub proof fn lemma_falloff_le_255(num: int, den: int, hardness: int)
    requires
        den > 0,
        0 <= hardness <= 100,
        num >= 0,
    ensures
        falloff_alpha(num, den, hardness) <= 255,
{
    let lo = lower_edge(den, hardness);
    let hi = upper_edge(den, hardness);
    if 200 * num < lo {
    } else if 200 * num > hi {
    } else {
        let p = 200 * num - lo;
        let q = hi - lo;
        if q != 0 {
            assert(q >= 0) by (nonlinear_arith)
                requires
                    den > 0,
                    0 <= hardness <= 100,
                    q == (200 - hardness) * den - hardness * den,
            ;
            lemma_falloff_fraction_bounds_wide(p, q);
        }
    }
}

/// The curve is never negative.
pub proof fn lemma_falloff_nonneg(num: int, den: int, hardness: int)
    requires
        den > 0,
        0 <= hardness <= 100,
        num >= 0,
    ensures
        falloff_alpha(num, den, hardness) >= 0,
{
    let lo = lower_edge(den, hardness);
    let hi = upper_edge(den, hardness);
    if lo <= 200 * num <= hi {
        let p = 200 * num - lo;
        let q = hi - lo;
        if q != 0 {
            assert(q >= 0) by (nonlinear_arith)
                requires
                    den > 0,
                    0 <= hardness <= 100,
                    q == (200 - hardness) * den - hardness * den,
            ;
            assert(p * p + (q - p) * (q - p) > 0 && 255 * (q - p) * (q - p) >= 0)
                by (nonlinear_arith)
                requires
                    0 <= p <= q,
                    q > 0,
            ;
            lemma_div_pos_is_pos(255 * (q - p) * (q - p), p * p + (q - p) * (q - p));
        }
    }
}

/// As `lemma_falloff_fraction_bounds`, without the 128-bit size claims.
proof fn lemma_falloff_fraction_bounds_wide(p: int, q: int)
    requires
        0 <= p <= q,
        0 < q,
    ensures
        0 <= (255 * (q - p) * (q - p)) / (p * p + (q - p) * (q - p)) <= 255,
{
    let rest = q - p;
    assert(p * p + rest * rest > 0 && 255 * rest * rest <= 255 * (p * p + rest * rest))
        by (nonlinear_arith)
        requires
            0 <= p <= q,
            0 < q,
            rest == q - p,
    ;
    let d = p * p + rest * rest;
    lemma_div_pos_is_pos(255 * rest * rest, d);
    lemma_div_is_ordered(255 * rest * rest, 255 * d, d);
    lemma_div_multiples_vanish(255, d);
}

} // verus!
