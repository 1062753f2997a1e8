//! Scalar arithmetic for the fixed-point (milli-unit) representation:
//! division rounded to the nearest integer, integer square root, and
//! clamping. Every executable function is pinned to a spec-level definition.

use vstd::prelude::*;

verus! {

use vstd::arithmetic::div_mod::{
    lemma_div_is_ordered, lemma_div_multiples_vanish, lemma_div_multiples_vanish_fancy,
    lemma_div_pos_is_pos,
};
use vstd::arithmetic::mul::lemma_mul_unary_negation;

/// The fixed-point scale: every `i64` quantity holds this many parts per
/// working unit (thousandths).
pub const SCALE: i64 = 1000;

/// Absolute value of a mathematical integer.
pub open spec fn iabs(x: int) -> int {
    if x < 0 {
        -x
    } else {
        x
    }
}

/// `n / d` rounded to the nearest integer, ties away from zero.
/// Meaningful only for `d != 0`.
pub open spec fn rdiv(n: int, d: int) -> int {
    let nn = if d < 0 {
        -n
    } else {
        n
    };
    let dd = if d < 0 {
        -d
    } else {
        d
    };
    if nn >= 0 {
        (nn + dd / 2) / dd
    } else {
        -((-nn + dd / 2) / dd)
    }
}

/// `v` clamped into `[lo, hi]`.
pub open spec fn clamp_s(v: int, lo: int, hi: int) -> int {
    if v < lo {
        lo
    } else if v > hi {
        hi
    } else {
        v
    }
}

/// The magnitude of a rounded quotient never exceeds the magnitude of the
/// dividend.
pub proof fn lemma_rdiv_abs_le(n: int, d: int)
    by (nonlinear_arith)
    requires
        d != 0,
    ensures
        iabs(rdiv(n, d)) <= iabs(n),
{
}

/// A bound on the dividend gives the same bound, scaled down, on the
/// rounded quotient: `|n| <= d * m` implies `|rdiv(n, d)| <= m`.
pub proof fn lemma_rdiv_bound(n: int, d: int, m: int)
    by (nonlinear_arith)
    requires
        d > 0,
        m >= 0,
        iabs(n) <= d * m,
    ensures
        iabs(rdiv(n, d)) <= m,
{
}

/// A rounded quotient lies between any bounds the dividend respects:
/// `d * lo <= n <= d * hi` implies `lo <= rdiv(n, d) <= hi`.
pub proof fn lemma_rdiv_between(n: int, d: int, lo: int, hi: int)
    requires
        d > 0,
        d * lo <= n,
        n <= d * hi,
    ensures
        lo <= rdiv(n, d) <= hi,
{
    if n >= 0 {
        lemma_div_is_ordered(d * lo, n + d / 2, d);
        lemma_div_multiples_vanish(lo, d);
        lemma_div_is_ordered(n + d / 2, d * hi + d / 2, d);
        lemma_div_multiples_vanish_fancy(hi, d / 2, d);
    } else {
        let m = (-n + d / 2) / d;
        lemma_mul_unary_negation(d, lo);
        lemma_div_is_ordered(-n + d / 2, d * (-lo) + d / 2, d);
        lemma_div_multiples_vanish_fancy(-lo, d / 2, d);
        assert(m <= -lo);
        if hi >= 0 {
            lemma_div_pos_is_pos(-n + d / 2, d);
            assert(-m <= hi);
        } else {
            lemma_mul_unary_negation(d, hi);
            lemma_div_is_ordered(d * (-hi), -n + d / 2, d);
            lemma_div_multiples_vanish(-hi, d);
            assert(-m <= hi);
        }
    }
}

/// A rounded quotient of a nonnegative dividend by a positive divisor is
/// nonnegative and at most the dividend.
pub proof fn lemma_rdiv_nonneg(n: int, d: int)
    by (nonlinear_arith)
    requires
        d > 0,
        n >= 0,
    ensures
        0 <= rdiv(n, d) <= n,
{
}

/// Bounds on two factors bound their product.
pub proof fn lemma_mul_abs_bound(x: int, y: int, mx: int, my: int)
    by (nonlinear_arith)
    requires
        iabs(x) <= mx,
        iabs(y) <= my,
    ensures
        iabs(x * y) <= mx * my,
        -(mx * my) <= x * y <= mx * my,
{
}

/// A nonnegative integer whose square is at most `m * m` is at most `m`.
pub proof fn lemma_sqrt_le(r: int, n: int, m: int)
    by (nonlinear_arith)
    requires
        0 <= r,
        0 <= m,
        r * r <= n,
        n <= m * m,
    ensures
        r <= m,
{
}

/// Division rounded to nearest, ties away from zero, over `i128`.
pub fn rdiv_i128(n: i128, d: i128) -> (q: i128)
    requires
        d != 0,
        n > i128::MIN,
        d > i128::MIN,
    ensures
        q == rdiv(n as int, d as int),
        iabs(q as int) <= iabs(n as int),
{
    let neg_n: bool = n < 0;
    let neg_d: bool = d < 0;
    let nn: u128 = if neg_n {
        (-n) as u128
    } else {
        n as u128
    };
    let dd: u128 = if neg_d {
        (-d) as u128
    } else {
        d as u128
    };
    let q_mag: u128 = (nn + dd / 2) / dd;
    proof {
        assert(nn == iabs(n as int));
        assert(dd == iabs(d as int));
        assert(q_mag <= nn) by (nonlinear_arith)
            requires
                dd >= 1,
                q_mag == (nn + dd / 2) as int / dd as int,
        ;
        lemma_rdiv_abs_le(n as int, d as int);
    }
    if neg_n == neg_d {
        q_mag as i128
    } else {
        -(q_mag as i128)
    }
}

/// `v` clamped into `[lo, hi]`.
pub fn clamp_i128(v: i128, lo: i128, hi: i128) -> (r: i128)
    requires
        lo <= hi,
    ensures
        r == clamp_s(v as int, lo as int, hi as int),
{
    if v < lo {
        lo
    } else if v > hi {
        hi
    } else {
        v
    }
}

/// The (unique) nonnegative integer whose square brackets `n`:
/// `sqrt_floor(n) * sqrt_floor(n) <= n < (sqrt_floor(n) + 1)^2`.
/// Meaningful only for `n >= 0`; see `lemma_sqrt_floor_exists`.
pub open spec fn sqrt_floor(n: int) -> int {
    choose|r: int| 0 <= r && #[trigger] (r * r) <= n && n < (r + 1) * (r + 1)
}

/// At most one integer satisfies the floor-square-root bracket.
pub proof fn lemma_sqrt_floor_unique(n: int, r1: int, r2: int)
    by (nonlinear_arith)
    requires
        0 <= r1,
        r1 * r1 <= n,
        n < (r1 + 1) * (r1 + 1),
        0 <= r2,
        r2 * r2 <= n,
        n < (r2 + 1) * (r2 + 1),
    ensures
        r1 == r2,
{
}

/// Every nonnegative integer has a floor square root, and `sqrt_floor`
/// denotes it.
pub proof fn lemma_sqrt_floor_exists(n: int)
    requires
        n >= 0,
    ensures
        0 <= sqrt_floor(n),
        sqrt_floor(n) * sqrt_floor(n) <= n,
        n < (sqrt_floor(n) + 1) * (sqrt_floor(n) + 1),
    decreases n,
{
    if n == 0 {
        assert(0 <= 0int && 0int * 0int <= n && n < (0int + 1) * (0int + 1));
    } else {
        lemma_sqrt_floor_exists(n - 1);
        let r = sqrt_floor(n - 1);
        if (r + 1) * (r + 1) <= n {
            assert(n < (r + 1 + 1) * (r + 1 + 1)) by (nonlinear_arith)
                requires
                    r >= 0,
                    n - 1 < (r + 1) * (r + 1),
                    (r + 1) * (r + 1) <= n,
            ;
            assert(0 <= r + 1 && (r + 1) * (r + 1) <= n && n < (r + 1 + 1) * (r + 1 + 1));
        } else {
            assert(0 <= r && r * r <= n && n < (r + 1) * (r + 1));
        }
    }
}

/// Floor of the square root of `n`, by binary search.
pub fn isqrt(n: u128) -> (r: u128)
    ensures
        r * r <= n,
        n < (r + 1) * (r + 1),
        r == sqrt_floor(n as int),
{
    let mut lo: u128 = 0;
    let mut hi: u128 = 0x1_0000_0000_0000_0000;
    proof {
        assert((hi as int) * (hi as int) > n as int);
    }
    while lo + 1 < hi
        invariant
            lo < hi,
            hi <= 0x1_0000_0000_0000_0000u128,
            (lo as int) * (lo as int) <= n as int,
            (n as int) < (hi as int) * (hi as int),
        decreases hi - lo,
    {
        let mid: u128 = lo + (hi - lo) / 2;
        proof {
            assert((mid as int) * (mid as int) <= (0xffff_ffff_ffff_ffffu128 as int) * (
            0xffff_ffff_ffff_ffffu128 as int)) by (nonlinear_arith)
                requires
                    mid <= 0xffff_ffff_ffff_ffffu128,
            ;
        }
        let sq: u128 = mid * mid;
        if sq <= n {
            lo = mid;
        } else {
            hi = mid;
        }
    }
    proof {
        lemma_sqrt_floor_exists(n as int);
        lemma_sqrt_floor_unique(n as int, lo as int, sqrt_floor(n as int));
    }
    lo
}

} // verus!
