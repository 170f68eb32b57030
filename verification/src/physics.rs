//! Vertical motion of the player: semi-implicit Euler integration with
//! asymmetric gravity (half gravity while the jump key is held during
//! ascent), a launch that triggers only near the ground, and a landing clamp
//! that returns the player to exactly `z = 0` with zero velocity.

use vstd::prelude::*;
use vstd::arithmetic::mul::lemma_mul_inequality;
use vstd::arithmetic::div_mod::{
    lemma_div_is_ordered, lemma_div_nonincreasing, lemma_div_pos_is_pos, lemma_fundamental_div_mod,
};
use crate::fx::{div_floor, fx_mul, fx_mul_v, lemma_mul_range, FX_ONE};

verus! {

/// Launch speed of a jump, in micro-units per second.
pub const JUMP_V: i64 = 10 * FX_ONE;

/// Gravity, in micro-units per second per second.
pub const GRAVITY: i64 = 40 * FX_ONE;

/// A jump press is honoured only while the player is below this height.
pub const LAUNCH_WINDOW: i64 = 250_000;

/// Largest tick delta the integrator accepts, in micro-seconds.
pub const TICK_MAX: i64 = 16 * FX_ONE;

/// Magnitude bound on heights and velocities accepted by the integrator.
pub const MOTION_LIM: i64 = 0x20_0000_0000;

/// The player's vertical state; its height rides in the owning transform.
pub struct Player {
    pub velocity: i64,
}

/// Whether the walk cycle is suspended in favour of the jump pose.
pub struct AnimationState {
    pub jumping: bool,
}

/// The shared scroll speed of the level, in micro-units per second.
pub struct LevelSpeed {
    pub value: i64,
}

/// One integration tick: (height, velocity, airborne flag) after the update.
///
/// The order is the tick's contract: launch, then gravity (half while the
/// jump key is held and the player still rises), then integration, then the
/// landing clamp.
pub open spec fn jump_tick(
    z: int,
    v: int,
    jumping: bool,
    jumped: bool,
    held: bool,
    dt: int,
) -> (int, int, bool) {
    let g: int = fx_mul_v(GRAVITY as int, dt);
    let f: int = g / 2;
    let launch: bool = z < LAUNCH_WINDOW && v <= 0 && jumped;
    let v1: int = if launch {
        JUMP_V as int
    } else {
        v
    };
    let jumping1: bool = if launch {
        true
    } else {
        jumping
    };
    let v2: int = if z > 0 {
        if held && v1 > 0 {
            v1 - f
        } else {
            v1 - g
        }
    } else {
        v1
    };
    let z1: int = if v2 != 0 {
        z + fx_mul_v(v2, dt)
    } else {
        z
    };
    if v2 < 0 && z1 <= 0 {
        (0, 0, false)
    } else {
        (z1, v2, jumping1)
    }
}

/// The vertical state `(z, velocity)` after `n` further ticks at a fixed
/// tick delta, with no new jump press and the jump key uniformly held or not.
pub open spec fn trajectory(z: int, v: int, held: bool, dt: int, n: nat) -> (int, int)
    decreases n,
{
    if n == 0 {
        (z, v)
    } else {
        let p = trajectory(z, v, held, dt, (n - 1) as nat);
        let s = jump_tick(p.0, p.1, true, false, held, dt);
        (s.0, s.1)
    }
}

/// How a jump that holds the key relates to one that does not: either the
/// two states are still identical, or both are airborne and the holding one
/// is at least as high and at least as fast upward, or the non-holding one
/// has landed at exactly zero height and zero velocity.
pub open spec fn hold_dominates(zh: int, vh: int, zu: int, vu: int) -> bool {
    ||| (zh == zu && vh == vu && zh >= 0)
    ||| (zh >= zu > 0 && vh >= vu)
    ||| (zu == 0 && vu == 0 && zh >= 0)
}

/// A tick never takes the height below zero.
pub proof fn lemma_tick_nonneg(z: int, v: int, jumping: bool, jumped: bool, held: bool, dt: int)
    requires
        z >= 0,
        dt >= 0,
    ensures
        jump_tick(z, v, jumping, jumped, held, dt).0 >= 0,
{
    let g: int = fx_mul_v(GRAVITY as int, dt);
    let launch: bool = z < LAUNCH_WINDOW && v <= 0 && jumped;
    let v1: int = if launch {
        JUMP_V as int
    } else {
        v
    };
    let v2: int = if z > 0 {
        if held && v1 > 0 {
            v1 - g / 2
        } else {
            v1 - g
        }
    } else {
        v1
    };
    if v2 > 0 {
        lemma_mul_range(v2, v2, dt, dt);
        lemma_div_pos_is_pos(v2 * dt, FX_ONE as int);
    }
}

/// A landing is exact: if the player was airborne and the tick brings the
/// height to zero, then the new state is exactly zero height, zero velocity,
/// not airborne.
pub proof fn lemma_landing_exact(z: int, v: int, jumping: bool, held: bool, dt: int)
    requires
        z > 0,
        dt >= 0,
        jump_tick(z, v, jumping, false, held, dt).0 == 0,
    ensures
        jump_tick(z, v, jumping, false, held, dt) == (0int, 0int, false),
{
    let g: int = fx_mul_v(GRAVITY as int, dt);
    let v2: int = if held && v > 0 {
        v - g / 2
    } else {
        v - g
    };
    if v2 > 0 {
        lemma_mul_range(v2, v2, dt, dt);
        lemma_div_pos_is_pos(v2 * dt, FX_ONE as int);
    }
}

/// One tick preserves [`hold_dominates`]: the holding player steps with the
/// key down, the other without, and the relation survives.
pub proof fn lemma_tick_dominates(zh: int, vh: int, zu: int, vu: int, dt: int)
    requires
        dt >= 0,
        hold_dominates(zh, vh, zu, vu),
    ensures
        hold_dominates(
            jump_tick(zh, vh, true, false, true, dt).0,
            jump_tick(zh, vh, true, false, true, dt).1,
            jump_tick(zu, vu, true, false, false, dt).0,
            jump_tick(zu, vu, true, false, false, dt).1,
        ),
{
    let g: int = fx_mul_v(GRAVITY as int, dt);
    let f: int = g / 2;
    lemma_mul_range(GRAVITY as int, GRAVITY as int, dt, dt);
    lemma_div_pos_is_pos(GRAVITY as int * dt, FX_ONE as int);
    lemma_div_pos_is_pos(g, 2);
    lemma_div_nonincreasing(g, 2);
    lemma_tick_nonneg(zh, vh, true, false, true, dt);
    lemma_tick_nonneg(zu, vu, true, false, false, dt);
    let vh2: int = if zh > 0 {
        if vh > 0 {
            vh - f
        } else {
            vh - g
        }
    } else {
        vh
    };
    let vu2: int = if zu > 0 {
        vu - g
    } else {
        vu
    };
    if zu == 0 && vu == 0 {
        // The non-holding player has landed and stays put.
    } else {
        lemma_mul_inequality(vu2, vh2, dt);
        lemma_div_is_ordered(vu2 * dt, vh2 * dt, FX_ONE as int);
        if vu2 > 0 {
            lemma_mul_range(vu2, vu2, dt, dt);
            lemma_div_pos_is_pos(vu2 * dt, FX_ONE as int);
        }
        if vu2 < 0 {
            lemma_mul_range(vu2, -vu2, dt, dt);
            lemma_div_is_ordered(vu2 * dt, 0, FX_ONE as int);
        }
        if vh2 < 0 {
            lemma_mul_range(vh2, -vh2, dt, dt);
            lemma_div_is_ordered(vh2 * dt, 0, FX_ONE as int);
        }
    }
}

/// Law: while airborne and rising under real gravity, holding the jump key
/// keeps strictly more upward speed than not holding it — the mechanism
/// that makes a held jump strictly longer whenever a tick of ascent
/// happens above ground.
pub proof fn lemma_hold_strictly_floatier(z: int, v: int, dt: int)
    requires
        z > 0,
        v > 0,
        dt >= 0,
        fx_mul_v(GRAVITY as int, dt) >= 1,
        z + fx_mul_v(v - fx_mul_v(GRAVITY as int, dt), dt) > 0,
    ensures
        jump_tick(z, v, true, false, true, dt).1 > jump_tick(z, v, true, false, false, dt).1,
        jump_tick(z, v, true, false, true, dt).0 >= jump_tick(z, v, true, false, false, dt).0
            > 0,
{
    let g: int = fx_mul_v(GRAVITY as int, dt);
    let f: int = g / 2;
    lemma_div_pos_is_pos(g, 2);
    lemma_fundamental_div_mod(g, 2);
    lemma_mul_inequality(v - g, v - f, dt);
    lemma_div_is_ordered((v - g) * dt, (v - f) * dt, FX_ONE as int);
    vstd::arithmetic::div_mod::lemma_fundamental_div_mod_converse(0, FX_ONE as int, 0, 0);
    if v - g < 0 {
        lemma_mul_range(v - g, g - v, dt, dt);
        lemma_div_is_ordered((v - g) * dt, 0, FX_ONE as int);
    }
    if v - f < 0 {
        lemma_mul_range(v - f, f - v, dt, dt);
        lemma_div_is_ordered((v - f) * dt, 0, FX_ONE as int);
    }
}

/// Law: holding the jump key never shortens a jump. From any common takeoff
/// state, after any number of ticks at a fixed delta, the holding trajectory
/// is at least as high as the non-holding one; in particular, whenever the
/// non-holding trajectory is still airborne, so is the holding one. Together
/// with [`lemma_landing_exact`], the player always comes back to exactly
/// zero height and zero velocity when a tick ends the flight.
pub proof fn lemma_jump_symmetry(z: int, v: int, dt: int, n: nat)
    requires
        z >= 0,
        dt >= 0,
    ensures
        trajectory(z, v, true, dt, n).0 >= trajectory(z, v, false, dt, n).0,
        trajectory(z, v, false, dt, n).0 > 0 ==> trajectory(z, v, true, dt, n).0 > 0,
    decreases n,
{
    if n == 0 {
    } else {
        lemma_jump_symmetry(z, v, dt, (n - 1) as nat);
        lemma_trajectory_dominates(z, v, dt, (n - 1) as nat);
        let ph = trajectory(z, v, true, dt, (n - 1) as nat);
        let pu = trajectory(z, v, false, dt, (n - 1) as nat);
        lemma_tick_dominates(ph.0, ph.1, pu.0, pu.1, dt);
    }
}

/// [`hold_dominates`] holds between the held and unheld trajectories after
/// any number of ticks.
pub proof fn lemma_trajectory_dominates(z: int, v: int, dt: int, n: nat)
    requires
        z >= 0,
        dt >= 0,
    ensures
        hold_dominates(
            trajectory(z, v, true, dt, n).0,
            trajectory(z, v, true, dt, n).1,
            trajectory(z, v, false, dt, n).0,
            trajectory(z, v, false, dt, n).1,
        ),
    decreases n,
{
    if n == 0 {
    } else {
        lemma_trajectory_dominates(z, v, dt, (n - 1) as nat);
        let ph = trajectory(z, v, true, dt, (n - 1) as nat);
        let pu = trajectory(z, v, false, dt, (n - 1) as nat);
        lemma_tick_dominates(ph.0, ph.1, pu.0, pu.1, dt);
    }
}

/// Advances the player's vertical state by one tick.
///
/// Given the height `z`, the jump edge and hold inputs and the tick delta,
/// updates the velocity and the airborne flag in place and returns the new
/// height, exactly as [`jump_tick`] states. The returned height is never
/// negative, and a landing leaves height and velocity at exactly zero.
pub fn player_jump_system(
    z: i64,
    player: &mut Player,
    anim: &mut AnimationState,
    jumped: bool,
    held: bool,
    dt: i64,
) -> (z_new: i64)
    requires
        0 <= dt <= TICK_MAX,
        0 <= z <= MOTION_LIM,
        -MOTION_LIM <= old(player).velocity <= MOTION_LIM,
    ensures
        (z_new as int, final(player).velocity as int, final(anim).jumping) == jump_tick(
            z as int,
            old(player).velocity as int,
            old(anim).jumping,
            jumped,
            held,
            dt as int,
        ),
        z_new >= 0,
{
    proof {
        lemma_mul_range(GRAVITY as int, GRAVITY as int, dt as int, TICK_MAX as int);
        lemma_div_pos_is_pos(GRAVITY as int * dt as int, FX_ONE as int);
        lemma_div_is_ordered(
            GRAVITY as int * dt as int,
            GRAVITY as int * TICK_MAX as int,
            FX_ONE as int,
        );
    }
    let g = fx_mul(GRAVITY, dt);
    proof {
        lemma_div_pos_is_pos(g as int, 2);
        lemma_div_nonincreasing(g as int, 2);
    }
    let f = div_floor(g, 2);
    if z < LAUNCH_WINDOW && player.velocity <= 0 && jumped {
        player.velocity = JUMP_V;
        anim.jumping = true;
    }
    if z > 0 {
        if held && player.velocity > 0 {
            player.velocity = player.velocity - f;
        } else {
            player.velocity = player.velocity - g;
        }
    }
    let mut z_new = z;
    if player.velocity != 0 {
        let v = player.velocity;
        proof {
            let vb: int = MOTION_LIM as int + GRAVITY as int * TICK_MAX as int / FX_ONE as int;
            lemma_mul_range(v as int, vb, dt as int, TICK_MAX as int);
            lemma_div_is_ordered(v as int * dt as int, vb * TICK_MAX as int, FX_ONE as int);
            lemma_div_is_ordered(-(vb * TICK_MAX as int), v as int * dt as int, FX_ONE as int);
            if v > 0 {
                lemma_div_pos_is_pos(v as int * dt as int, FX_ONE as int);
            }
            if v < 0 {
                lemma_div_is_ordered(v as int * dt as int, 0, FX_ONE as int);
            }
        }
        z_new = z + fx_mul(v, dt);
    }
    if player.velocity < 0 && z_new <= 0 {
        z_new = 0;
        player.velocity = 0;
        anim.jumping = false;
    }
    z_new
}

} // verus!
