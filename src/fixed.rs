//! Fixed-point arithmetic helpers: floor and ceiling division, clamping and an
//! integer square root.

use vstd::prelude::*;
use vstd::arithmetic::div_mod::{lemma_fundamental_div_mod, lemma_fundamental_div_mod_converse_div};

verus! {

/// Number of fixed-point steps in one physics unit.
pub const FIXED: i64 = 1000;

/// Largest magnitude of a physics coordinate (2^53 fixed-point steps).
pub const COORD_LIMIT: i64 = 9_007_199_254_740_992;

/// Largest magnitude of a velocity component, in fixed-point steps per second.
pub const VEL_LIMIT: i64 = 9_007_199_254_740_992;

/// `v` limited to the closed range `[lo, hi]`.
pub open spec fn clamp_spec(v: int, lo: int, hi: int) -> int {
    if v < lo {
        lo
    } else if v > hi {
        hi
    } else {
        v
    }
}

/// `v` limited to `[lo, hi]`, as an `i64`.
pub fn clamp_to(v: i128, lo: i64, hi: i64) -> (r: i64)
    requires
        lo <= hi,
    ensures
        r == clamp_spec(v as int, lo as int, hi as int),
{
    if v < lo as i128 {
        lo
    } else if v > hi as i128 {
        hi
    } else {
        v as i64
    }
}

/// The floor of `a / b` for a positive divisor (in specs `/` is floor division
/// when the divisor is positive).
pub fn div_floor(a: i128, b: i128) -> (r: i128)
    requires
        b > 0,
    ensures
        r == a as int / b as int,
{
    if a >= 0 {
        let q = (a as u128) / (b as u128);
        q as i128
    } else {
        let m: u128 = (-(a + 1)) as u128;
        let q: u128 = m / (b as u128);
        let rem: u128 = m % (b as u128);
        proof {
            lemma_fundamental_div_mod(m as int, b as int);
            assert(m as int == q as int * b as int + rem as int) by (nonlinear_arith)
                requires
                    m as int == b as int * (m as int / b as int) + m as int % b as int,
                    q as int == m as int / b as int,
                    rem as int == m as int % b as int,
            ;
            assert(a as int == (-1 - q as int) * b as int + (b as int - rem as int - 1)) by (nonlinear_arith)
                requires
                    m as int == q as int * b as int + rem as int,
                    m as int == -(a as int + 1),
            ;
            lemma_fundamental_div_mod_converse_div(a as int, b as int, -1 - q as int, b as int - rem as int - 1);
            assert(q as int * b as int <= m as int) by (nonlinear_arith)
                requires
                    m as int == q as int * b as int + rem as int,
                    rem >= 0,
            ;
            assert(q as int <= m as int) by (nonlinear_arith)
                requires
                    q as int * b as int <= m as int,
                    b >= 1,
                    q >= 0,
            ;
        }
        -1 - (q as i128)
    }
}

/// The ceiling of `a / b` for a positive divisor.
pub fn div_ceil(a: i128, b: i128) -> (r: i128)
    requires
        b > 0,
        a > i128::MIN,
    ensures
        r == -((-(a as int)) / b as int),
{
    let f = div_floor(-a, b);
    proof {
        if a >= 0 {
            assert(f as int <= 0 && f as int >= -(a as int)) by (nonlinear_arith)
                requires
                    f as int == (-(a as int)) / b as int,
                    a >= 0,
                    b > 0,
            ;
        } else {
            assert(f as int >= 0) by (nonlinear_arith)
                requires
                    f as int == (-(a as int)) / b as int,
                    a < 0,
                    b > 0,
            ;
        }
    }
    -f
}

/// True when `r` is the integer square root of `n`.
pub open spec fn is_isqrt(n: int, r: int) -> bool {
    r >= 0 && r * r <= n && n < (r + 1) * (r + 1)
}

/// The integer square root of `n`.
pub open spec fn int_sqrt(n: int) -> int {
    choose|r: int| is_isqrt(n, r)
}

/// A number has at most one integer square root.
pub proof fn lemma_isqrt_unique(n: int, r1: int, r2: int)
    requires
        is_isqrt(n, r1),
        is_isqrt(n, r2),
    ensures
        r1 == r2,
{
    if r1 < r2 {
        assert((r1 + 1) * (r1 + 1) <= r2 * r2) by (nonlinear_arith)
            requires
                0 <= r1 + 1 <= r2,
        ;
    } else if r2 < r1 {
        assert((r2 + 1) * (r2 + 1) <= r1 * r1) by (nonlinear_arith)
            requires
                0 <= r2 + 1 <= r1,
        ;
    }
}

/// Whatever `isqrt` returns is the integer square root.
pub proof fn lemma_isqrt_is_int_sqrt(n: int, r: int)
    requires
        is_isqrt(n, r),
    ensures
        int_sqrt(n) == r,
{
    lemma_isqrt_unique(n, r, int_sqrt(n));
}

/// `n / d` rounded towards zero, for a positive divisor.
pub open spec fn tdiv(n: int, d: int) -> int {
    if n >= 0 {
        n / d
    } else {
        -((-n) / d)
    }
}

/// `n / d` rounded towards zero.
pub fn tdiv_exec(n: i128, d: i128) -> (r: i128)
    requires
        d > 0,
        n > i128::MIN,
    ensures
        r == tdiv(n as int, d as int),
        n >= 0 ==> 0 <= r <= n,
        n < 0 ==> n <= r <= 0,
{
    if n >= 0 {
        let q = ((n as u128) / (d as u128)) as i128;
        proof {
            assert(q as int <= n as int) by (nonlinear_arith)
                requires
                    q as int == n as int / d as int,
                    n >= 0,
                    d >= 1,
            ;
        }
        q
    } else {
        let q = (((-n) as u128) / (d as u128)) as i128;
        proof {
            assert(q as int <= -(n as int)) by (nonlinear_arith)
                requires
                    q as int == (-(n as int)) / d as int,
                    n < 0,
                    d >= 1,
            ;
        }
        -q
    }
}

/// The integer square root: the largest `r` with `r * r <= n`.
pub fn isqrt(n: u128) -> (r: u128)
    ensures
        is_isqrt(n as int, r as int),
{
    let mut lo: u128 = 0;
    let mut hi: u128 = 0x1_0000_0000_0000_0000;
    proof {
        assert(0x1_0000_0000_0000_0000int * 0x1_0000_0000_0000_0000int > u128::MAX) by (nonlinear_arith);
    }
    while hi - lo > 1
        invariant
            lo < hi <= 0x1_0000_0000_0000_0000u128,
            lo as int * lo as int <= n as int,
            (n as int) < hi as int * hi as int,
        decreases hi - lo,
    {
        let mid: u128 = lo + (hi - lo) / 2;
        assert(mid < 0x1_0000_0000_0000_0000u128);
        assert(mid as int * mid as int <= u128::MAX) by (nonlinear_arith)
            requires
                mid < 0x1_0000_0000_0000_0000u128,
        ;
        if mid * mid <= n {
            lo = mid;
        } else {
            hi = mid;
        }
    }
    assert(hi == lo + 1);
    lo
}

} // verus!
