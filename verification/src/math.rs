//! Small integer helpers shared by the geometry code: an exact integer square
//! root and a floor division for signed fixed-point coordinates.

use vstd::prelude::*;
use vstd::arithmetic::div_mod::{
    lemma_fundamental_div_mod, lemma_fundamental_div_mod_converse, lemma_mod_bound,
    lemma_div_nonincreasing,
};

verus! {

/// `r` is the integer square root of `n`: the largest integer whose square
/// does not exceed `n`.
pub open spec fn is_sqrt_floor(n: int, r: int) -> bool {
    &&& 0 <= r
    &&& r * r <= n
    &&& n < (r + 1) * (r + 1)
}

/// The integer square root of `n` as a spec-level value.
pub open spec fn sqrt_floor(n: int) -> int {
    choose|r: int| is_sqrt_floor(n, r)
}

/// Two integer square roots of the same number are equal.
pub proof fn lemma_sqrt_floor_unique(n: int, r1: int, r2: int)
    requires
        is_sqrt_floor(n, r1),
        is_sqrt_floor(n, r2),
    ensures
        r1 == r2,
{
    if r1 < r2 {
        assert((r1 + 1) * (r1 + 1) <= r2 * r2) by (nonlinear_arith)
            requires
                0 <= r1 + 1 <= r2,
        ;
    }
    if r2 < r1 {
        assert((r2 + 1) * (r2 + 1) <= r1 * r1) by (nonlinear_arith)
            requires
                0 <= r2 + 1 <= r1,
        ;
    }
}

/// Every non-negative integer has an integer square root, so `sqrt_floor` is
/// well defined on them.
pub proof fn lemma_sqrt_floor_exists(n: int)
    requires
        n >= 0,
    ensures
        is_sqrt_floor(n, sqrt_floor(n)),
        0 <= sqrt_floor(n) <= n,
    decreases n,
{
    if n == 0 {
        assert(is_sqrt_floor(0, 0));
    } else {
        lemma_sqrt_floor_exists(n - 1);
        let r = sqrt_floor(n - 1);
        if (r + 1) * (r + 1) <= n {
            assert(is_sqrt_floor(n, r + 1)) by (nonlinear_arith)
                requires
                    r >= 0,
                    (r + 1) * (r + 1) <= n,
                    n - 1 < (r + 1) * (r + 1),
            ;
        } else {
            assert(is_sqrt_floor(n, r));
        }
    }
    let w = sqrt_floor(n);
    if w > n {
        assert(w * w > n) by (nonlinear_arith)
            requires
                w > n >= 0,
        ;
    }
}

/// Compute the integer square root of `n` by bisection.
pub fn isqrt(n: u64) -> (r: u64)
    ensures
        is_sqrt_floor(n as int, r as int),
        r == sqrt_floor(n as int),
        r <= 0xFFFF_FFFF,
{
    let mut lo: u64 = 0;
    let mut hi: u64 = 0x1_0000_0000;
    while hi - lo > 1
        invariant
            lo < hi <= 0x1_0000_0000,
            lo * lo <= n,
            n < hi * hi,
        decreases hi - lo,
    {
        let mid: u64 = lo + (hi - lo) / 2;
        proof {
            assert(lo < mid < hi);
            assert(mid * mid < 0x1_0000_0000_0000_0000) by (nonlinear_arith)
                requires
                    0 <= mid <= 0xFFFF_FFFF,
            ;
        }
        if mid * mid <= n {
            lo = mid;
        } else {
            hi = mid;
        }
    }
    proof {
        assert(is_sqrt_floor(n as int, lo as int));
        lemma_sqrt_floor_unique(n as int, lo as int, sqrt_floor(n as int));
    }
    lo
}

/// Division rounding toward negative infinity, matching the spec-level `/`
/// on `int` for a positive divisor.
pub fn floor_div_i128(a: i128, b: i128) -> (r: i128)
    requires
        0 < b <= 0x4000_0000_0000_0000_0000_0000_0000_0000,
        -0x4000_0000_0000_0000_0000_0000_0000_0000 <= a,
    ensures
        r == a as int / b as int,
{
    if a >= 0 {
        proof {
            lemma_div_nonincreasing(a as int, b as int);
        }
        ((a as u128) / (b as u128)) as i128
    } else {
        // floor(a / b) == -ceil(-a / b) == -((-a + b - 1) / b)
        let na: u128 = (-a) as u128;
        let q: u128 = (na + (b as u128) - 1) / (b as u128);
        proof {
            lemma_div_nonincreasing(na + b - 1, b as int);
            lemma_floor_div_negative(a as int, b as int, na as int, q as int);
        }
        -(q as i128)
    }
}

/// Floor division by a positive divisor keeps a value inside a symmetric
/// bound.
pub proof fn lemma_div_bounded_magnitude(a: int, b: int, m: int)
    requires
        b > 0,
        0 <= m,
        -m <= a <= m,
    ensures
        -m <= a / b <= m,
{
    lemma_fundamental_div_mod(a, b);
    lemma_mod_bound(a, b);
    let q = a / b;
    let r = a % b;
    if q > m {
        assert(b * q >= q) by (nonlinear_arith)
            requires
                b >= 1,
                q > 0,
        ;
    }
    if q < -m {
        assert(b * q <= -m - b) by (nonlinear_arith)
            requires
                b >= 1,
                q <= -m - 1,
                m >= 0,
        ;
    }
}

/// For a negative dividend, floor division is the negated rounded-up
/// division of the magnitude.
proof fn lemma_floor_div_negative(a: int, b: int, na: int, q: int)
    requires
        a < 0,
        b > 0,
        na == -a,
        q == (na + b - 1) / b,
    ensures
        -q == a / b,
{
    lemma_fundamental_div_mod(na + b - 1, b);
    lemma_mod_bound(na + b - 1, b);
    let r1 = (na + b - 1) % b;
    // na + b - 1 == b * q + r1, so a == (-q) * b + (b - 1 - r1) with the
    // remainder in [0, b).
    assert(a == (-q) * b + (b - 1 - r1)) by (nonlinear_arith)
        requires
            na + b - 1 == b * q + r1,
            na == -a,
    ;
    lemma_fundamental_div_mod_converse(a, b, -q, b - 1 - r1);
}

} // verus!
