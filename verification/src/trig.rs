//! Fixed-point sine and cosine on half-turn arguments: `t` in micro-units
//! stands for the angle `π · t / FX_ONE`. The sine uses a rational
//! approximation that is exact at quarter-turn multiples — in particular it
//! is exactly `0` at `t = 0` and `t = FX_ONE`, and exactly `FX_ONE` at
//! `t = FX_ONE / 2` — which is what makes the walk cycle seamless at the
//! swing/stance boundary.

use vstd::prelude::*;
use vstd::arithmetic::div_mod::{
    lemma_div_is_ordered, lemma_div_multiples_vanish, lemma_div_pos_is_pos,
    lemma_fundamental_div_mod_converse,
};
use vstd::arithmetic::mul::lemma_mul_inequality;
use crate::fx::{div_floor, fx_div, fx_div_v, fx_mul, fx_mul_v, lemma_mul_range, rem_floor, FX_ONE, FX_HALF};

verus! {

/// Arguments to [`sin_phase`] are kept within this many micro-half-turns.
pub const PHASE_LIM: i64 = 0x1000_0000_0000_0000;

/// Sine of `π · t / FX_ONE` for `t` in `[0, FX_ONE]`, in micro-units:
/// `16 u / (5 - 4 u)` with `u = (t / FX_ONE) · (1 - t / FX_ONE)`.
pub open spec fn sin_half_v(t: int) -> int {
    let u: int = fx_mul_v(t, FX_ONE - t);
    fx_div_v(16 * u, 5 * FX_ONE - 4 * u)
}

/// Cosine of `π · t / FX_ONE` for `t` in `[0, FX_ONE]`, in micro-units:
/// `1 - 2 · sin²` of the half angle.
pub open spec fn cos_half_v(t: int) -> int {
    let s: int = sin_half_v(t / 2);
    FX_ONE - 2 * fx_mul_v(s, s)
}

/// Sine of `π · t / FX_ONE` for any `t`: periodic with period `2 · FX_ONE`,
/// negated on the second half-turn.
pub open spec fn sin_phase_v(t: int) -> int {
    let m: int = t % (2 * FX_ONE);
    if m < FX_ONE {
        sin_half_v(m)
    } else {
        -sin_half_v(m - FX_ONE)
    }
}

/// Sine over one half turn, `t` in `[0, FX_ONE]`.
pub fn sin_half_turn(t: i64) -> (r: i64)
    requires
        0 <= t <= FX_ONE,
    ensures
        r == sin_half_v(t as int),
        0 <= r <= FX_ONE,
{
    proof {
        lemma_mul_range(t as int, FX_ONE as int, FX_ONE as int - t as int, FX_ONE as int);
        assert(t as int * (1_000_000 - t as int) <= 250_000_000_000) by (nonlinear_arith)
            requires
                0 <= t as int <= 1_000_000,
        ;
        lemma_div_is_ordered(
            t as int * (FX_ONE as int - t as int),
            250_000_000_000,
            FX_ONE as int,
        );
        lemma_div_pos_is_pos(t as int * (FX_ONE as int - t as int), FX_ONE as int);
    }
    let u = fx_mul(t, FX_ONE - t);
    let num = 16 * u;
    let den = 5 * FX_ONE - 4 * u;
    proof {
        lemma_mul_inequality(num as int, den as int, FX_ONE as int);
        lemma_div_is_ordered(num as int * FX_ONE as int, den as int * FX_ONE as int, den as int);
        lemma_div_multiples_vanish(FX_ONE as int, den as int);
        lemma_div_pos_is_pos(num as int * FX_ONE as int, den as int);
    }
    fx_div(num, den)
}

/// Cosine over one half turn, `t` in `[0, FX_ONE]`.
pub fn cos_half_turn(t: i64) -> (r: i64)
    requires
        0 <= t <= FX_ONE,
    ensures
        r == cos_half_v(t as int),
        -FX_ONE <= r <= FX_ONE,
{
    let h = div_floor(t, 2);
    let s = sin_half_turn(h);
    proof {
        lemma_mul_range(s as int, FX_ONE as int, s as int, FX_ONE as int);
        lemma_div_is_ordered(s as int * s as int, FX_ONE as int * FX_ONE as int, FX_ONE as int);
        lemma_div_multiples_vanish(FX_ONE as int, FX_ONE as int);
        lemma_div_pos_is_pos(s as int * s as int, FX_ONE as int);
    }
    let q = fx_mul(s, s);
    FX_ONE - 2 * q
}

/// Sine of any phase, in micro-half-turns.
pub fn sin_phase(t: i64) -> (r: i64)
    requires
        -PHASE_LIM <= t <= PHASE_LIM,
    ensures
        r == sin_phase_v(t as int),
        -FX_ONE <= r <= FX_ONE,
{
    let m = rem_floor(t, 2 * FX_ONE);
    if m < FX_ONE {
        sin_half_turn(m)
    } else {
        let s = sin_half_turn(m - FX_ONE);
        -s
    }
}

/// Cosine of any phase: the sine a quarter turn ahead.
pub fn cos_phase(t: i64) -> (r: i64)
    requires
        -PHASE_LIM <= t <= PHASE_LIM - FX_ONE,
    ensures
        r == sin_phase_v(t as int + FX_HALF),
        -FX_ONE <= r <= FX_ONE,
{
    sin_phase(t + FX_HALF)
}

/// The sine is exactly zero at both ends of the half turn and exactly one at
/// the quarter turn.
pub proof fn lemma_sin_exact_points()
    ensures
        sin_half_v(0) == 0,
        sin_half_v(FX_ONE as int) == 0,
        sin_half_v(FX_HALF as int) == FX_ONE,
        cos_half_v(0) == FX_ONE,
        cos_half_v(FX_ONE as int) == -FX_ONE,
{
    lemma_fundamental_div_mod_converse(250_000_000_000, 1_000_000, 250_000, 0);
    lemma_fundamental_div_mod_converse(4_000_000_000_000, 4_000_000, 1_000_000, 0);
    lemma_fundamental_div_mod_converse(1_000_000, 2, 500_000, 0);
    lemma_fundamental_div_mod_converse(1_000_000_000_000, 1_000_000, 1_000_000, 0);
    assert(sin_half_v(FX_HALF as int) == FX_ONE);
}

/// The sine of the half turn is symmetric about the quarter turn.
pub proof fn lemma_sin_symmetry(t: int)
    requires
        0 <= t <= FX_ONE,
    ensures
        sin_half_v(t) == sin_half_v(FX_ONE - t),
{
    assert(t * (1_000_000 - t) == (1_000_000 - t) * (1_000_000 - (1_000_000 - t)))
        by (nonlinear_arith);
}

} // verus!
