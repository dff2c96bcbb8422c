//! Fixed-point conventions shared by the whole crate.
//!
//! A real quantity is stored as a signed integer counted in millionths
//! ([`MICRO`] parts make one unit).  Products of two such numbers live on
//! the `MICRO * MICRO` scale and are brought back by a rounded division;
//! [`round_div`] / [`round_div_i128`] perform that division, rounding to
//! the nearest integer with halves going away from zero.

use vstd::prelude::*;

verus! {

/// Number of fixed-point steps in one unit.
pub const MICRO: i64 = 1_000_000;

/// The square of [`MICRO`]: the scale a product of two fixed-point
/// numbers lives on.
pub const MICRO_SQ: i64 = 1_000_000_000_000;

/// Quotient `n / d` rounded to the nearest integer, halves away from
/// zero; the rounding rule used everywhere in this crate.
pub open spec fn round_div(n: int, d: int) -> int
    recommends
        d > 0,
{
    if n >= 0 {
        (2 * n + d) / (2 * d)
    } else {
        -((2 * (-n) + d) / (2 * d))
    }
}

/// [`round_div`] extended to a denominator of either sign.
pub open spec fn round_div_signed(n: int, d: int) -> int
    recommends
        d != 0,
{
    if d > 0 {
        round_div(n, d)
    } else {
        round_div(-n, -d)
    }
}

/// Magnitude of a spec integer.
pub open spec fn abs(n: int) -> int {
    if n >= 0 {
        n
    } else {
        -n
    }
}

proof fn lemma_div_pos_is_euclid(a: int, b: int)
    requires
        a >= 0,
        b > 0,
    ensures
        0 <= a / b <= a,
        b * (a / b) <= a < b * (a / b) + b,
{
    vstd::arithmetic::div_mod::lemma_fundamental_div_mod(a, b);
    vstd::arithmetic::div_mod::lemma_div_pos_is_pos(a, b);
    vstd::arithmetic::div_mod::lemma_div_nonincreasing(a, b);
    vstd::arithmetic::div_mod::lemma_mod_bound(a, b);
}

/// The rounded quotient differs from the exact one by at most a half:
/// `2 * d * round_div(n, d)` is within `d` of `2 * n`.
pub proof fn lemma_round_div_close(n: int, d: int)
    requires
        d > 0,
    ensures
        -d <= 2 * n - 2 * d * round_div(n, d) <= d,
    decreases 0int,
{
    if n >= 0 {
        let q = (2 * n + d) / (2 * d);
        lemma_div_pos_is_euclid(2 * n + d, 2 * d);
        assert(2 * d * q <= 2 * n + d < 2 * d * q + 2 * d);
        assert(2 * d * round_div(n, d) == 2 * d * q);
    } else {
        let m = -n;
        let q = (2 * m + d) / (2 * d);
        lemma_div_pos_is_euclid(2 * m + d, 2 * d);
        assert(2 * d * q <= 2 * m + d < 2 * d * q + 2 * d);
        assert(round_div(n, d) == -q);
        assert(2 * d * -q == -(2 * d * q)) by (nonlinear_arith);
    }
}

/// A bound on the numerator bounds the rounded quotient: if
/// `|n| <= k * d` then `|round_div(n, d)| <= k`.
pub proof fn lemma_round_div_bound(n: int, d: int, k: int)
    requires
        d > 0,
        k >= 0,
        abs(n) <= k * d,
    ensures
        abs(round_div(n, d)) <= k,
{
    let r = round_div(n, d);
    let m = k * d;
    lemma_round_div_close(n, d);
    assert(-m <= n <= m);
    if r > k {
        assert(2 * d * r >= 2 * m + 2 * d) by (nonlinear_arith)
            requires
                d > 0,
                r >= k + 1,
                m == k * d,
        ;
        assert(2 * n - 2 * d * r <= -2 * d);
        assert(false);
    }
    if r < -k {
        assert(2 * d * r <= -2 * m - 2 * d) by (nonlinear_arith)
            requires
                d > 0,
                r <= -k - 1,
                m == k * d,
        ;
        assert(2 * n - 2 * d * r >= 2 * d);
        assert(false);
    }
}


/// A magnitude bound on a product from bounds on its factors.
pub proof fn lemma_abs_mul(a: int, b: int, ba: int, bb: int)
    requires
        abs(a) <= ba,
        abs(b) <= bb,
    ensures
        abs(a * b) <= ba * bb,
{
    assert(abs(a * b) <= ba * bb) by (nonlinear_arith)
        requires
            -ba <= a <= ba,
            -bb <= b <= bb,
    ;
}

/// Executable form of [`round_div`] on 128-bit integers.
pub fn round_div_i128(n: i128, d: i128) -> (r: i128)
    requires
        d > 0,
        2 * d <= i128::MAX,
        2 * abs(n as int) + d <= i128::MAX,
    ensures
        r == round_div(n as int, d as int),
{
    if n >= 0 {
        (2 * n + d) / (2 * d)
    } else {
        -((2 * (-n) + d) / (2 * d))
    }
}

} // verus!
