//! Scalar arithmetic: truncating division, integer square root, and the
//! magnitude lemmas the geometry modules use to rule out overflow.

use vstd::prelude::*;
use vstd::arithmetic::div_mod::{lemma_div_nonincreasing, lemma_div_pos_is_pos, lemma_div_is_ordered};
use vstd::arithmetic::mul::lemma_mul_basics;

verus! {

/// Absolute value over mathematical integers.
pub open spec fn abs_i(a: int) -> int {
    if a >= 0 {
        a
    } else {
        -a
    }
}

/// Truncating (round-toward-zero) division by a positive divisor, the
/// semantics of Rust's `/` on signed integers.
pub open spec fn tdiv(a: int, b: int) -> int {
    if a >= 0 {
        a / b
    } else {
        -((-a) / b)
    }
}

/// `r` is the floor of the square root of `n`.
pub open spec fn is_isqrt(n: int, r: int) -> bool {
    0 <= r && r * r <= n && n < (r + 1) * (r + 1)
}

/// The floor of the square root of `n` (meaningful for `n >= 0`).
pub open spec fn isqrt(n: int) -> int {
    choose|r: int| is_isqrt(n, r)
}

/// Products of values bounded in magnitude are bounded in magnitude.
pub proof fn lemma_mul_bound(x: int, y: int, a: int, b: int)
    by (nonlinear_arith)
    requires
        0 <= a,
        0 <= b,
        -a <= x <= a,
        -b <= y <= b,
    ensures
        -(a * b) <= x * y <= a * b,
{
}

/// A square never falls below a square of anything smaller in magnitude.
pub proof fn lemma_square_ordered(x: int, y: int)
    by (nonlinear_arith)
    requires
        x * x <= y * y,
        0 <= y,
    ensures
        -y <= x <= y,
{
}

/// The floor square root is unique.
pub proof fn lemma_isqrt_unique(n: int, r1: int, r2: int)
    by (nonlinear_arith)
    requires
        is_isqrt(n, r1),
        is_isqrt(n, r2),
    ensures
        r1 == r2,
{
}

/// Every nonnegative integer has a floor square root.
pub proof fn lemma_isqrt_exists(n: int)
    requires
        0 <= n,
    ensures
        exists|r: int| #[trigger] is_isqrt(n, r),
    decreases n,
{
    if n == 0 {
        assert(is_isqrt(0, 0)) by (nonlinear_arith);
    } else {
        lemma_isqrt_exists(n - 1);
        let r = choose|r: int| #[trigger] is_isqrt(n - 1, r);
        if n < (r + 1) * (r + 1) {
            assert(is_isqrt(n, r));
        } else {
            assert(is_isqrt(n, r + 1)) by (nonlinear_arith)
                requires
                    is_isqrt(n - 1, r),
                    n >= (r + 1) * (r + 1),
            ;
        }
    }
}

/// Identifies `isqrt(n)` from any witness of `is_isqrt`.
pub proof fn lemma_isqrt_is(n: int, r: int)
    requires
        is_isqrt(n, r),
    ensures
        isqrt(n) == r,
        is_isqrt(n, isqrt(n)),
{
    assert(exists|x: int| #[trigger] is_isqrt(n, x));
    let c = choose|x: int| #[trigger] is_isqrt(n, x);
    lemma_isqrt_unique(n, c, r);
}

/// Basic consequences of `is_isqrt` that callers need: the root's own bound.
pub proof fn lemma_isqrt_le(n: int, m: int)
    requires
        0 <= n <= m * m,
        0 <= m,
        is_isqrt(n, isqrt(n)),
    ensures
        0 <= isqrt(n) <= m,
{
    let r = isqrt(n);
    assert(r * r <= m * m);
    lemma_square_ordered(r, m);
}

/// Floor square root, by binary search.
pub fn int_sqrt(n: u128) -> (r: u128)
    requires
        n < 0x4000_0000_0000_0000_0000_0000_0000_0000u128,
    ensures
        r as int == isqrt(n as int),
        is_isqrt(n as int, r as int),
        r < 0x8000_0000_0000_0000u128,
{
    let mut lo: u128 = 0;
    let mut hi: u128 = 0x8000_0000_0000_0000u128;
    assert(0x8000_0000_0000_0000int * 0x8000_0000_0000_0000int == 0x4000_0000_0000_0000_0000_0000_0000_0000int) by (nonlinear_arith);
    while lo + 1 < hi
        invariant
            lo < hi,
            hi <= 0x8000_0000_0000_0000u128,
            (lo as int) * (lo as int) <= n as int,
            (n as int) < (hi as int) * (hi as int),
        decreases hi - lo,
    {
        let mid = lo + (hi - lo) / 2;
        proof {
            lemma_mul_bound(mid as int, mid as int, 0x8000_0000_0000_0000int, 0x8000_0000_0000_0000int);
            assert(0x8000_0000_0000_0000int * 0x8000_0000_0000_0000int == 0x4000_0000_0000_0000_0000_0000_0000_0000int) by (nonlinear_arith);
        }
        if mid * mid <= n {
            lo = mid;
        } else {
            hi = mid;
        }
    }
    proof {
        lemma_isqrt_is(n as int, lo as int);
    }
    lo
}

/// Truncating division by a positive divisor.
pub fn div_t(a: i128, b: i128) -> (r: i128)
    requires
        1 <= b,
        -0x7fff_ffff_ffff_ffff_ffff_ffff_ffff_ffffi128 <= a,
    ensures
        r as int == tdiv(a as int, b as int),
        abs_i(r as int) <= abs_i(a as int),
{
    if a >= 0 {
        let q: u128 = (a as u128) / (b as u128);
        proof {
            lemma_div_nonincreasing(a as int, b as int);
            lemma_div_pos_is_pos(a as int, b as int);
        }
        q as i128
    } else {
        let neg: u128 = (-a) as u128;
        let q: u128 = neg / (b as u128);
        proof {
            lemma_div_nonincreasing(neg as int, b as int);
            lemma_div_pos_is_pos(neg as int, b as int);
        }
        -(q as i128)
    }
}

/// Truncating division keeps the magnitude under any multiple-based cap:
/// if `|a| <= c * b` then `|tdiv(a, b)| <= c`.
pub proof fn lemma_tdiv_bound(a: int, b: int, c: int)
    requires
        1 <= b,
        0 <= c,
        abs_i(a) <= c * b,
    ensures
        -c <= tdiv(a, b) <= c,
{
    lemma_mul_basics(b);
    if a >= 0 {
        lemma_div_is_ordered(a, c * b, b);
        assert((c * b) / b == c) by (nonlinear_arith)
            requires
                1 <= b,
        ;
        lemma_div_pos_is_pos(a, b);
    } else {
        lemma_div_is_ordered(-a, c * b, b);
        assert((c * b) / b == c) by (nonlinear_arith)
            requires
                1 <= b,
        ;
        lemma_div_pos_is_pos(-a, b);
    }
}

/// Truncating division is symmetric about zero.
pub proof fn lemma_tdiv_neg(a: int, b: int)
    requires
        1 <= b,
    ensures
        tdiv(-a, b) == -tdiv(a, b),
{
    broadcast use vstd::arithmetic::div_mod::group_div_basics;

    if a == 0 {
        assert(0int / b == 0);
    }
}

/// The magnitude of a truncated half is half the magnitude.
pub proof fn lemma_tdiv_half(a: int)
    ensures
        abs_i(tdiv(a, 2)) == abs_i(a) / 2,
{
    lemma_tdiv_neg(a, 2);
    if a >= 0 {
    } else {
        lemma_div_pos_is_pos(-a, 2);
    }
}

/// A strict square ordering gives a strict magnitude ordering.
pub proof fn lemma_square_lt(x: int, y: int)
    by (nonlinear_arith)
    requires
        x * x < y * y,
        0 <= y,
    ensures
        -y < x < y,
{
}

/// Dividing something at least as large as the divisor gives at least one.
pub proof fn lemma_div_ge_one(x: int, b: int)
    requires
        1 <= b <= x,
    ensures
        1 <= x / b,
{
    vstd::arithmetic::div_mod::lemma_div_by_self(b);
    lemma_div_is_ordered(b, x, b);
}

/// Truncating division respects a strict multiple-based cap:
/// if `0 <= x < c * b` then `tdiv(x, b) < c`.
pub proof fn lemma_tdiv_strict(x: int, b: int, c: int)
    requires
        0 <= x,
        1 <= b,
        1 <= c,
        x < c * b,
    ensures
        0 <= tdiv(x, b) < c,
{
    lemma_div_pos_is_pos(x, b);
    lemma_div_is_ordered(x, c * b - 1, b);
    assert(c * b - 1 == b * (c - 1) + (b - 1)) by (nonlinear_arith);
    vstd::arithmetic::div_mod::lemma_fundamental_div_mod_converse(c * b - 1, b, c - 1, b - 1);
}

} // verus!
