//! Secondary-motion animator: the tail, a phase-lagged sinusoidal chain
//! riding the same gait phase clock as the legs, with a separate whip-like
//! vertical deflection while airborne. Both modes are pure functions of the
//! shared state — no per-segment memory.

use vstd::prelude::*;
use vstd::arithmetic::div_mod::{lemma_div_is_ordered, lemma_div_multiples_vanish};
use vstd::arithmetic::mul::lemma_mul_inequality;
use crate::fx::{
    div_floor, fx_div, fx_div_v, fx_mul, fx_mul_v, lemma_div_shrinks, lemma_mul_range, FX_HALF,
    FX_ONE,
};
use crate::gait::{gait_phase, gait_phase_v, ELAPSED_LIM, SPEED_LIM};
use crate::characters::ANIM_V_LIM;
use crate::physics::JUMP_V;
use crate::trig::{sin_phase, sin_phase_v};

verus! {

/// Number of tail segments.
pub const TAIL_LENGTH: i64 = 8;

/// Resting height of every tail segment.
pub const TAIL_Z: i64 = 150_000;

/// Amplitude of the airborne whip.
pub const TAIL_WAG: i64 = 500_000;

/// Per-segment growth of the lateral sway amplitude.
pub const TAIL_AMP_STEP: i64 = 50_000;

/// Phase lag between successive segments, in micro-half-turns: a quarter of
/// a half turn, one eighth of the full circle.
pub const TAIL_PHASE_STEP: i64 = 250_000;

/// A tail segment's index among [`TAIL_LENGTH`] of them.
#[derive(Clone, Copy, PartialEq, Eq, Structural, Debug)]
pub struct TailSegment {
    pub i: u8,
}

/// Airborne pose of segment `i`: `(lateral, height)`. The whip angle is
/// proportional to the normalized vertical speed, split evenly over the
/// segments, and straightens as the upward speed shrinks.
pub open spec fn tail_jump_v(velocity: int, i: int) -> (int, int) {
    let a: int = fx_mul_v(fx_div_v(velocity, JUMP_V as int), FX_HALF as int);
    let a_step: int = a / (TAIL_LENGTH as int);
    (0, TAIL_Z - fx_mul_v(sin_phase_v(a_step * (i + 1)), TAIL_WAG as int))
}

/// Walking pose of segment `i`: `(lateral, height)`. Each segment sways
/// sinusoidally at the gait phase, lagged by an eighth of a circle per
/// segment, with amplitude growing along the chain; height stays fixed.
pub open spec fn tail_walk_v(t: int, i: int) -> (int, int) {
    let amp: int = i * (TAIL_AMP_STEP as int);
    let y: int = fx_mul_v(sin_phase_v(t + i * (TAIL_PHASE_STEP as int)), amp);
    (fx_mul_v(y, FX_ONE + i * (TAIL_AMP_STEP as int)), TAIL_Z as int)
}

/// The `(lateral, height)` translation of tail segment `i` this frame.
pub fn animate_tail(jumping: bool, velocity: i64, elapsed: i64, speed: i64, i: u8) -> (r: (
    i64,
    i64,
))
    requires
        i < TAIL_LENGTH,
        -ANIM_V_LIM <= velocity <= ANIM_V_LIM,
        0 <= elapsed <= ELAPSED_LIM,
        0 <= speed <= SPEED_LIM,
    ensures
        jumping ==> (r.0 as int, r.1 as int) == tail_jump_v(velocity as int, i as int),
        !jumping ==> (r.0 as int, r.1 as int) == tail_walk_v(
            gait_phase_v(elapsed as int, speed as int),
            i as int,
        ),
{
    if jumping {
        proof {
            lemma_mul_range(velocity as int, ANIM_V_LIM as int, FX_ONE as int, FX_ONE as int);
            lemma_div_is_ordered(
                velocity as int * FX_ONE as int,
                1_000_000_000_000_000,
                JUMP_V as int,
            );
            lemma_div_is_ordered(
                -1_000_000_000_000_000,
                velocity as int * FX_ONE as int,
                JUMP_V as int,
            );
        }
        let q = fx_div(velocity, JUMP_V);
        proof {
            lemma_mul_range(q as int, 100_000_000, FX_HALF as int, FX_HALF as int);
            lemma_div_is_ordered(
                q as int * FX_HALF as int,
                100_000_000int * 500_000,
                FX_ONE as int,
            );
            lemma_div_is_ordered(
                -(100_000_000int * 500_000),
                q as int * FX_HALF as int,
                FX_ONE as int,
            );
        }
        let a = fx_mul(q, FX_HALF);
        proof {
            lemma_div_shrinks(a as int, TAIL_LENGTH as int);
        }
        let a_step = div_floor(a, TAIL_LENGTH);
        proof {
            lemma_mul_range(a_step as int, 50_000_000, i as int + 1, TAIL_LENGTH as int);
        }
        let arg = a_step * (i as i64 + 1);
        let s = sin_phase(arg);
        proof {
            lemma_mul_range(s as int, FX_ONE as int, TAIL_WAG as int, TAIL_WAG as int);
        }
        let z = TAIL_Z - fx_mul(s, TAIL_WAG);
        (0, z)
    } else {
        let t = gait_phase(elapsed, speed);
        let amp = (i as i64) * TAIL_AMP_STEP;
        let s = sin_phase(t + (i as i64) * TAIL_PHASE_STEP);
        proof {
            lemma_mul_range(s as int, FX_ONE as int, amp as int, 350_000);
            lemma_mul_inequality(s as int, FX_ONE as int, amp as int);
            lemma_mul_inequality(-(FX_ONE as int), s as int, amp as int);
            assert((-(FX_ONE as int)) * (amp as int) == -(FX_ONE as int * amp as int))
                by (nonlinear_arith);
            assert(FX_ONE as int * (-(amp as int)) == -(FX_ONE as int * amp as int))
                by (nonlinear_arith);
            lemma_div_multiples_vanish(amp as int, FX_ONE as int);
            lemma_div_multiples_vanish(-(amp as int), FX_ONE as int);
            lemma_div_is_ordered(
                s as int * amp as int,
                FX_ONE as int * amp as int,
                FX_ONE as int,
            );
            lemma_div_is_ordered(
                FX_ONE as int * (-(amp as int)),
                s as int * amp as int,
                FX_ONE as int,
            );
        }
        let y = fx_mul(s, amp);
        proof {
            lemma_mul_range(y as int, 350_000, FX_ONE as int + i as int * TAIL_AMP_STEP as int, 1_350_000);
        }
        let y2 = fx_mul(y, FX_ONE + (i as i64) * TAIL_AMP_STEP);
        (y2, TAIL_Z)
    }
}

} // verus!
