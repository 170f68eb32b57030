//! Fixed-point arithmetic in micro-units: the value `v` stands for the real
//! number `v / 1_000_000`. Quotients round toward negative infinity, which is
//! exactly the Euclidean `/` of specifications when the divisor is positive.

use vstd::prelude::*;
use vstd::arithmetic::div_mod::{
    lemma_fundamental_div_mod, lemma_fundamental_div_mod_converse,
};

verus! {

/// One whole unit: the fixed-point scale.
pub const FX_ONE: i64 = 1_000_000;

/// Half a unit.
pub const FX_HALF: i64 = 500_000;

/// Magnitude bound under which a product of two fixed-point values fits in `i64`.
pub const FX_PROD_LIM: i64 = 0x4000_0000_0000_0000;

/// The product of two values in micro-units, in whole units (micro-units again).
pub open spec fn fx_mul_v(a: int, b: int) -> int {
    (a * b) / (FX_ONE as int)
}

/// The quotient of two values in micro-units, in micro-units.
pub open spec fn fx_div_v(a: int, b: int) -> int {
    (a * FX_ONE) / b
}

/// A product of values within known magnitudes stays within the product of
/// the magnitudes.
pub proof fn lemma_mul_range(a: int, a_lim: int, b: int, b_lim: int)
    requires
        -a_lim <= a <= a_lim,
        0 <= b <= b_lim,
    ensures
        -(a_lim * b_lim) <= a * b <= a_lim * b_lim,
        b == 0 ==> a * b == 0,
        a >= 0 ==> a * b >= 0,
        a <= 0 ==> a * b <= 0,
{
    assert(-(a_lim * b_lim) <= a * b <= a_lim * b_lim && (b == 0 ==> a * b == 0) && (a >= 0
        ==> a * b >= 0) && (a <= 0 ==> a * b <= 0)) by (nonlinear_arith)
        requires
            -a_lim <= a <= a_lim,
            0 <= b <= b_lim,
    ;
}

/// A square of a value within a known magnitude is nonnegative and at most
/// the square of the magnitude.
pub proof fn lemma_square_range(a: int, lim: int)
    requires
        -lim <= a <= lim,
    ensures
        0 <= a * a <= lim * lim,
{
    assert(0 <= a * a <= lim * lim) by (nonlinear_arith)
        requires
            -lim <= a <= lim,
    ;
}

/// Floor division of `a` by a positive `b`.
pub fn div_floor(a: i64, b: i64) -> (r: i64)
    requires
        b > 0,
        -FX_PROD_LIM < a < FX_PROD_LIM,
    ensures
        r == a as int / b as int,
{
    if a >= 0 {
        let q = (a as u64) / (b as u64);
        q as i64
    } else {
        let n = (-a) as u64;
        let bu = b as u64;
        let q = (n - 1) / bu + 1;
        proof {
            let ni = n as int;
            let bi = b as int;
            let q0 = (ni - 1) / bi;
            let r0 = (ni - 1) % bi;
            lemma_fundamental_div_mod(ni - 1, bi);
            assert(ni - 1 == bi * q0 + r0);
            // a == -n == b * (-(q0 + 1)) + (b - 1 - r0), with the remainder in [0, b)
            assert(a as int == bi * (-(q0 + 1)) + (bi - 1 - r0)) by {
                assert(bi * (-(q0 + 1)) == -(bi * q0) - bi) by (nonlinear_arith);
            }
            lemma_fundamental_div_mod_converse(a as int, bi, -(q0 + 1), bi - 1 - r0);
        }
        -(q as i64)
    }
}

/// Euclidean remainder of `a` modulo a positive `m`: the result lies in `[0, m)`.
pub fn rem_floor(a: i64, m: i64) -> (r: i64)
    requires
        0 < m < FX_PROD_LIM / 2,
        -FX_PROD_LIM / 2 < a < FX_PROD_LIM / 2,
    ensures
        r == a as int % m as int,
        0 <= r < m,
{
    let q = div_floor(a, m);
    proof {
        lemma_fundamental_div_mod(a as int, m as int);
    }
    a - q * m
}

/// Fixed-point multiplication: `(a * b) / FX_ONE`, rounded toward negative infinity.
pub fn fx_mul(a: i64, b: i64) -> (r: i64)
    requires
        -FX_PROD_LIM < a * b < FX_PROD_LIM,
    ensures
        r == fx_mul_v(a as int, b as int),
        -FX_PROD_LIM < r < FX_PROD_LIM,
{
    let p = a * b;
    let r = div_floor(p, FX_ONE);
    proof {
        lemma_fundamental_div_mod(p as int, FX_ONE as int);
    }
    r
}

/// Fixed-point division: `(a * FX_ONE) / b`, rounded toward negative infinity.
/// The divisor must be positive.
pub fn fx_div(a: i64, b: i64) -> (r: i64)
    requires
        b > 0,
        -FX_PROD_LIM < a * FX_ONE < FX_PROD_LIM,
    ensures
        r == fx_div_v(a as int, b as int),
{
    let p = a * FX_ONE;
    div_floor(p, b)
}

/// Absolute value.
pub fn fx_abs(a: i64) -> (r: i64)
    requires
        a != i64::MIN,
    ensures
        r == if a >= 0 { a as int } else { -a as int },
        r >= 0,
{
    if a >= 0 {
        a
    } else {
        -a
    }
}

/// The greatest `r` with `r * r <= n`, and `0` for negative `n`.
pub open spec fn sqrt_floor(n: int) -> int
    decreases n,
{
    if n <= 0 {
        0
    } else {
        let r: int = sqrt_floor(n - 1);
        if (r + 1) * (r + 1) <= n {
            r + 1
        } else {
            r
        }
    }
}

/// [`sqrt_floor`] is the floor square root.
pub proof fn lemma_sqrt_floor_bounds(n: int)
    requires
        n >= 0,
    ensures
        sqrt_floor(n) >= 0,
        sqrt_floor(n) * sqrt_floor(n) <= n,
        n < (sqrt_floor(n) + 1) * (sqrt_floor(n) + 1),
    decreases n,
{
    if n == 0 {
    } else {
        lemma_sqrt_floor_bounds(n - 1);
        let r: int = sqrt_floor(n - 1);
        if (r + 1) * (r + 1) <= n {
            assert((r + 1 + 1) * (r + 1 + 1) > (r + 1) * (r + 1) + 1) by (nonlinear_arith)
                requires
                    r >= 0,
            ;
        }
    }
}

/// The two floor-square-root inequalities pin the root down.
pub proof fn lemma_sqrt_floor_unique(n: int, r: int)
    requires
        n >= 0,
        r >= 0,
        r * r <= n,
        n < (r + 1) * (r + 1),
    ensures
        r == sqrt_floor(n),
{
    lemma_sqrt_floor_bounds(n);
    let s: int = sqrt_floor(n);
    if r < s {
        assert((r + 1) * (r + 1) <= s * s) by (nonlinear_arith)
            requires
                0 <= r,
                r < s,
        ;
    }
    if s < r {
        assert((s + 1) * (s + 1) <= r * r) by (nonlinear_arith)
            requires
                0 <= s,
                s < r,
        ;
    }
}

/// Anything whose square is at most `n` is at most the floor square root.
pub proof fn lemma_sqrt_floor_at_least(k: int, n: int)
    requires
        n >= 0,
        k >= 0,
        k * k <= n,
    ensures
        k <= sqrt_floor(n),
{
    lemma_sqrt_floor_bounds(n);
    let s: int = sqrt_floor(n);
    if s < k {
        assert((s + 1) * (s + 1) <= k * k) by (nonlinear_arith)
            requires
                0 <= s,
                s < k,
        ;
    }
}

/// Dividing by a positive integer never grows the magnitude.
pub proof fn lemma_div_shrinks(x: int, h: int)
    requires
        h >= 1,
    ensures
        x >= 0 ==> 0 <= x / h <= x,
        x <= 0 ==> x <= x / h <= 0,
{
    lemma_fundamental_div_mod(x, h);
    let q: int = x / h;
    let r: int = x % h;
    if x >= 0 {
        if q < 0 {
            assert(h * q <= q) by (nonlinear_arith)
                requires
                    h >= 1,
                    q < 0,
            ;
        }
        if q > x {
            assert(h * q >= q) by (nonlinear_arith)
                requires
                    h >= 1,
                    q > 0,
            ;
        }
    } else {
        if q > 0 {
            assert(h * q >= q) by (nonlinear_arith)
                requires
                    h >= 1,
                    q > 0,
            ;
        }
        if q < x {
            assert(h * q <= x - h) by (nonlinear_arith)
                requires
                    h >= 1,
                    q <= x - 1,
                    x <= 0,
            ;
        }
    }
}

/// Integer square root: the greatest `r` with `r * r <= n`.
pub fn isqrt(n: i64) -> (r: i64)
    requires
        0 <= n < 0x4000_0000_0000_0000,
    ensures
        0 <= r,
        r * r <= n,
        n < (r + 1) * (r + 1),
        r == sqrt_floor(n as int),
{
    let nu = n as u64;
    let mut lo: u64 = 0;
    let mut hi: u64 = 0x8000_0000;
    while lo + 1 < hi
        invariant
            lo < hi <= 0x8000_0000,
            lo * lo <= nu,
            nu < hi * hi,
        decreases hi - lo,
    {
        proof {
            lemma_fundamental_div_mod((hi - lo) as int, 2);
        }
        let mid = lo + (hi - lo) / 2;
        proof {
            vstd::arithmetic::mul::lemma_mul_upper_bound(
                mid as int, 0x8000_0000, mid as int, 0x8000_0000,
            );
        }
        if mid * mid <= nu {
            lo = mid;
        } else {
            hi = mid;
        }
    }
    proof {
        lemma_sqrt_floor_unique(n as int, lo as int);
    }
    lo as i64
}

} // verus!
