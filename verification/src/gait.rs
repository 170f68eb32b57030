//! The gait phase clock: a continuous locomotion phase derived from elapsed
//! time and scroll speed. The phase is stateless — re-evaluating at the same
//! time and speed always yields the same value, so speed changes take effect
//! immediately and nothing drifts.

use vstd::prelude::*;
use vstd::arithmetic::div_mod::{
    lemma_div_is_ordered, lemma_div_is_ordered_by_denominator, lemma_div_multiples_vanish,
    lemma_div_pos_is_pos, lemma_fundamental_div_mod, lemma_fundamental_div_mod_converse,
};
use crate::fx::{fx_div, fx_div_v, fx_mul, fx_mul_v, lemma_mul_range, rem_floor, FX_ONE};

verus! {

/// Half the stride length, in micro-units (one over the square root of two).
pub const PITCH_CONSTANT: i64 = 707_107;

/// Largest elapsed time the clock accepts, in micro-seconds.
pub const ELAPSED_LIM: i64 = 40_000_000_000;

/// Largest scroll speed the clock accepts, in micro-units per second.
pub const SPEED_LIM: i64 = 100_000_000;

/// Largest phase the clock can produce.
pub const PHASE_MAX: i64 = 4_000_000_000_000;

/// The locomotion phase: elapsed time times speed over a full stride.
pub open spec fn gait_phase_v(elapsed: int, speed: int) -> int {
    fx_mul_v(elapsed, fx_div_v(speed, 2 * PITCH_CONSTANT))
}

/// Evaluates the gait phase at the given elapsed time and scroll speed.
pub fn gait_phase(elapsed: i64, speed: i64) -> (t: i64)
    requires
        0 <= elapsed <= ELAPSED_LIM,
        0 <= speed <= SPEED_LIM,
    ensures
        t == gait_phase_v(elapsed as int, speed as int),
        0 <= t <= PHASE_MAX,
{
    proof {
        lemma_mul_range(speed as int, SPEED_LIM as int, FX_ONE as int, FX_ONE as int);
    }
    let rate = fx_div(speed, 2 * PITCH_CONSTANT);
    proof {
        lemma_div_pos_is_pos(speed as int * FX_ONE as int, 2 * PITCH_CONSTANT as int);
        lemma_div_is_ordered_by_denominator(
            speed as int * FX_ONE as int,
            FX_ONE as int,
            2 * PITCH_CONSTANT as int,
        );
        lemma_div_multiples_vanish(speed as int, FX_ONE as int);
        lemma_mul_range(elapsed as int, ELAPSED_LIM as int, rate as int, SPEED_LIM as int);
        lemma_div_pos_is_pos(elapsed as int * rate as int, FX_ONE as int);
        lemma_div_is_ordered(
            elapsed as int * rate as int,
            ELAPSED_LIM as int * SPEED_LIM as int,
            FX_ONE as int,
        );
    }
    fx_mul(elapsed, rate)
}

/// The two leg sub-phases: the phase and the phase a half cycle later, each
/// reduced modulo one full cycle of two units.
pub fn sub_phases(t: i64) -> (p: (i64, i64))
    requires
        -PHASE_MAX <= t <= PHASE_MAX,
    ensures
        p.0 == t as int % (2 * FX_ONE as int),
        p.1 == (t as int + FX_ONE) % (2 * FX_ONE as int),
        0 <= p.0 < 2 * FX_ONE,
        0 <= p.1 < 2 * FX_ONE,
{
    let t1 = rem_floor(t, 2 * FX_ONE);
    let t2 = rem_floor(t + FX_ONE, 2 * FX_ONE);
    (t1, t2)
}

/// Law: the two leg sub-phases are always exactly one unit apart modulo a
/// full cycle of two units, whatever the phase — the right leg runs exactly
/// half a cycle behind the left.
pub proof fn lemma_gait_phase_periodicity(t: int)
    ensures
        ({
            let t1: int = t % (2 * FX_ONE as int);
            let t2: int = (t + FX_ONE) % (2 * FX_ONE as int);
            t2 == if t1 < FX_ONE {
                t1 + FX_ONE
            } else {
                t1 - FX_ONE
            }
        }),
{
    let m: int = 2 * FX_ONE as int;
    lemma_fundamental_div_mod(t, m);
    let q: int = t / m;
    let t1: int = t % m;
    if t1 < FX_ONE {
        lemma_fundamental_div_mod_converse(t + FX_ONE, m, q, t1 + FX_ONE);
    } else {
        assert((q + 1) * m == m * q + m) by (nonlinear_arith);
        lemma_fundamental_div_mod_converse(t + FX_ONE, m, q + 1, t1 - FX_ONE);
    }
}

/// Law: at every elapsed time and every scroll speed, the two legs run
/// exactly half a cycle apart.
pub proof fn lemma_legs_half_cycle_apart(elapsed: int, speed: int)
    ensures
        ({
            let t: int = gait_phase_v(elapsed, speed);
            let t1: int = t % (2 * FX_ONE as int);
            let t2: int = (t + FX_ONE) % (2 * FX_ONE as int);
            t2 == if t1 < FX_ONE {
                t1 + FX_ONE
            } else {
                t1 - FX_ONE
            }
        }),
{
    lemma_gait_phase_periodicity(gait_phase_v(elapsed, speed));
}

} // verus!
