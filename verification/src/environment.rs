//! Ambient decoration: procedurally placed glowing crystals along the cave
//! wall, scrolling with the level and despawned once well past the camera.
//! The geometry of each crystal comes from a single uniform sample; the
//! placement logic is exact for every value the stream can return.

use vstd::prelude::*;
use vstd::arithmetic::div_mod::{lemma_div_is_ordered, lemma_div_pos_is_pos};
use crate::fx::{div_floor, fx_mul, fx_mul_v, lemma_mul_range, FX_HALF, FX_ONE};
use crate::gait::SPEED_LIM;
use crate::obstacles::{DESPAWN_X, SCROLL_LIM};
use crate::physics::TICK_MAX;
use crate::rng::{draw_unit, rng_new};
use crate::trig::{cos_phase, sin_phase, sin_phase_v};

verus! {

/// Radius of the cave tunnel.
pub const CAVE_RADIUS: i64 = 3_000_000;

/// Height of the tunnel's axis over the floor.
pub const CAVE_CENTER: i64 = 2_121_321;

/// Span of the arc on which crystals grow, in micro-half-turns.
pub const CRYSTAL_A_RANGE: i64 = 1_500_000;

/// Crystals are laid out until the chain reaches this forward position.
pub const CRYSTAL_EDGE: i64 = 15_000_000;

/// Magnitude bound on chain positions the spawner accepts.
pub const CRYSTAL_X_LIM: i64 = 4_000_000_000;

/// The crystal chain state: the random stream and the forward position of
/// the last crystal placed.
pub struct CrystalTimer {
    pub rng: fastrand::Rng,
    pub last_x: i64,
}

impl CrystalTimer {
    /// A fresh chain: entropy-seeded stream, chain anchored at the player.
    pub fn new() -> (t: CrystalTimer)
        ensures
            t.last_x == 0,
    {
        CrystalTimer { rng: rng_new(), last_x: 0 }
    }
}

/// Everything a renderer needs to build one crystal.
#[derive(Clone, Copy, PartialEq, Eq, Structural, Debug)]
pub struct CrystalSpawn {
    pub x: i64,
    pub y: i64,
    pub z: i64,
    pub angle: i64,
    pub length: i64,
    pub radius: i64,
    pub color_index: u32,
}

/// The chain position after one crystal and the crystal itself, all from
/// one uniform sample `r`: the chain advances by `1.5 + r/2`, the crystal's
/// size jitters around its base, it sits on the cave wall at an angle drawn
/// from the growth arc, and its palette index is the rounded `31 r`.
pub open spec fn crystal_step_v(last_x: int, r: int) -> (int, CrystalSpawn) {
    let x: int = last_x + fx_mul_v(r, FX_HALF as int) + 1_500_000;
    let length: int = 500_000 + fx_mul_v(r - FX_HALF, 200_000);
    let radius: int = 200_000 + fx_mul_v(r - FX_HALF, 100_000);
    let angle: int = -250_000 + fx_mul_v(r, CRYSTAL_A_RANGE as int);
    let rim: int = CAVE_RADIUS - length;
    let y: int = fx_mul_v(sin_phase_v(angle + FX_HALF), rim);
    let z: int = fx_mul_v(sin_phase_v(angle), rim) + CAVE_CENTER - 250_000;
    let color_index: int = (fx_mul_v(r, 31_000_000) + FX_HALF) / (FX_ONE as int);
    (
        x,
        CrystalSpawn {
            x: x as i64,
            y: y as i64,
            z: z as i64,
            angle: angle as i64,
            length: length as i64,
            radius: radius as i64,
            color_index: color_index as u32,
        },
    )
}

/// Places one crystal after chain position `last_x` using the sample `r`.
pub fn crystal_step(last_x: i64, r: i64) -> (res: (i64, CrystalSpawn))
    requires
        0 <= r < FX_ONE,
        -CRYSTAL_X_LIM <= last_x <= CRYSTAL_EDGE,
    ensures
        (res.0 as int, res.1) == crystal_step_v(last_x as int, r as int),
        last_x + 1_500_000 <= res.0 <= last_x + 2_000_000,
        400_000 <= res.1.length <= 600_000,
        150_000 <= res.1.radius <= 250_000,
        -250_000 <= res.1.angle < 1_250_000,
        res.1.color_index <= 31,
{
    proof {
        lemma_mul_range(r as int, FX_ONE as int, FX_HALF as int, FX_HALF as int);
        lemma_div_pos_is_pos(r as int * FX_HALF as int, FX_ONE as int);
        lemma_div_is_ordered(r as int * FX_HALF as int, 999_999int * 500_000, FX_ONE as int);
        lemma_mul_range(r as int - FX_HALF, FX_HALF as int, 200_000, 200_000);
        lemma_div_is_ordered(-(500_000int * 200_000), (r as int - FX_HALF) * 200_000, FX_ONE as int);
        lemma_div_is_ordered((r as int - FX_HALF) * 200_000, 499_999int * 200_000, FX_ONE as int);
        lemma_mul_range(r as int - FX_HALF, FX_HALF as int, 100_000, 100_000);
        lemma_div_is_ordered(-(500_000int * 100_000), (r as int - FX_HALF) * 100_000, FX_ONE as int);
        lemma_div_is_ordered((r as int - FX_HALF) * 100_000, 499_999int * 100_000, FX_ONE as int);
        lemma_mul_range(r as int, FX_ONE as int, CRYSTAL_A_RANGE as int, CRYSTAL_A_RANGE as int);
        lemma_div_pos_is_pos(r as int * CRYSTAL_A_RANGE as int, FX_ONE as int);
        lemma_div_is_ordered(
            r as int * CRYSTAL_A_RANGE as int,
            999_999int * 1_500_000,
            FX_ONE as int,
        );
        lemma_mul_range(r as int, FX_ONE as int, 31_000_000, 31_000_000);
        lemma_div_pos_is_pos(r as int * 31_000_000, FX_ONE as int);
        lemma_div_is_ordered(r as int * 31_000_000, 999_999int * 31_000_000, FX_ONE as int);
    }
    let x = last_x + fx_mul(r, FX_HALF) + 1_500_000;
    let length = 500_000 + fx_mul(r - FX_HALF, 200_000);
    let radius = 200_000 + fx_mul(r - FX_HALF, 100_000);
    let angle = -250_000 + fx_mul(r, CRYSTAL_A_RANGE);
    let rim = CAVE_RADIUS - length;
    let sy = cos_phase(angle);
    let sz = sin_phase(angle);
    proof {
        lemma_mul_range(sy as int, FX_ONE as int, rim as int, 2_600_000);
        lemma_mul_range(sz as int, FX_ONE as int, rim as int, 2_600_000);
        lemma_div_pos_is_pos(fx_mul_v(r as int, 31_000_000) + FX_HALF, FX_ONE as int);
        lemma_div_is_ordered(
            fx_mul_v(r as int, 31_000_000) + FX_HALF,
            31_499_999,
            FX_ONE as int,
        );
    }
    let y = fx_mul(sy, rim);
    let z = fx_mul(sz, rim) + CAVE_CENTER - 250_000;
    let color_index = div_floor(fx_mul(r, 31_000_000) + FX_HALF, FX_ONE) as u32;
    (
        x,
        CrystalSpawn { x, y, z, angle, length, radius, color_index },
    )
}

/// One frame of crystal upkeep: the chain scrolls back with the level, and
/// crystals are laid out one by one until it again reaches past the edge of
/// view. Whatever the stream returns, the chain lands in the band just past
/// the edge and every crystal satisfies the bounds of [`crystal_step`].
pub fn spawn_crystals(timer: &mut CrystalTimer, dt: i64, speed: i64) -> (spawns: Vec<
    CrystalSpawn,
>)
    requires
        0 <= dt <= TICK_MAX,
        0 <= speed <= SPEED_LIM,
        -1_000_000_000 <= old(timer).last_x <= CRYSTAL_EDGE + 2_000_000,
    ensures
        CRYSTAL_EDGE < final(timer).last_x <= CRYSTAL_EDGE + 2_000_000,
        forall|i: int|
            0 <= i < spawns@.len() ==> {
                let s = #[trigger] spawns@[i];
                &&& 400_000 <= s.length <= 600_000
                &&& 150_000 <= s.radius <= 250_000
                &&& -250_000 <= s.angle < 1_250_000
                &&& s.color_index <= 31
                &&& s.x <= CRYSTAL_EDGE + 2_000_000
            },
{
    proof {
        lemma_mul_range(speed as int, SPEED_LIM as int, dt as int, TICK_MAX as int);
        lemma_div_pos_is_pos(speed as int * dt as int, FX_ONE as int);
        lemma_div_is_ordered(
            speed as int * dt as int,
            SPEED_LIM as int * TICK_MAX as int,
            FX_ONE as int,
        );
    }
    let motion = fx_mul(speed, dt);
    timer.last_x = timer.last_x - motion;
    let mut spawns: Vec<CrystalSpawn> = Vec::new();
    while timer.last_x <= CRYSTAL_EDGE
        invariant
            -CRYSTAL_X_LIM <= timer.last_x <= CRYSTAL_EDGE + 2_000_000,
            forall|i: int|
                0 <= i < spawns@.len() ==> {
                    let s = #[trigger] spawns@[i];
                    &&& 400_000 <= s.length <= 600_000
                    &&& 150_000 <= s.radius <= 250_000
                    &&& -250_000 <= s.angle < 1_250_000
                    &&& s.color_index <= 31
                    &&& s.x <= CRYSTAL_EDGE + 2_000_000
                },
        decreases CRYSTAL_EDGE + 2_000_000 - timer.last_x,
    {
        let r = draw_unit(&mut timer.rng);
        let (x, spawn) = crystal_step(timer.last_x, r);
        timer.last_x = x;
        spawns.push(spawn);
    }
    spawns
}

/// One frame of decoration upkeep: every light position scrolls back by
/// `motion`, and the ones past the despawn threshold are dropped, in order.
pub fn update_lights(lights: &mut Vec<i64>, motion: i64)
    requires
        0 <= motion <= SCROLL_LIM,
        forall|i: int|
            0 <= i < old(lights)@.len() ==> -SCROLL_LIM <= #[trigger] old(lights)@[i]
                <= SCROLL_LIM,
    ensures
        final(lights)@ == old(lights)@.map_values(|x: i64| (x - motion) as i64).filter(
            |x: i64| x >= DESPAWN_X,
        ),
{
    let ghost orig = lights@;
    let ghost moved = orig.map_values(|x: i64| (x - motion) as i64);
    let mut kept: Vec<i64> = Vec::new();
    let mut idx: usize = 0;
    while idx < lights.len()
        invariant
            0 <= idx <= orig.len(),
            lights@ == orig,
            0 <= motion <= SCROLL_LIM,
            forall|i: int| 0 <= i < orig.len() ==> -SCROLL_LIM <= #[trigger] orig[i] <= SCROLL_LIM,
            moved == orig.map_values(|x: i64| (x - motion) as i64),
            kept@ == moved.take(idx as int).filter(|x: i64| x >= DESPAWN_X),
        decreases orig.len() - idx,
    {
        let x = lights[idx] - motion;
        proof {
            reveal(Seq::filter);
            assert(moved.take(idx as int + 1).drop_last() =~= moved.take(idx as int));
            assert(moved.take(idx as int + 1).last() == moved[idx as int]);
            assert(moved[idx as int] == x);
        }
        if x >= DESPAWN_X {
            kept.push(x);
        }
        idx = idx + 1;
    }
    proof {
        assert(moved.take(orig.len() as int) =~= moved);
    }
    *lights = kept;
}

} // verus!
