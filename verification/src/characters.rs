//! The locomotion animator: walk-cycle foot, hip and knee synthesis from the
//! gait phase, an approximate two-bone inverse-kinematics knee, and a tucked
//! jump pose while airborne.

use vstd::prelude::*;
use vstd::arithmetic::mul::lemma_mul_inequality;
use vstd::arithmetic::div_mod::{
    lemma_div_is_ordered, lemma_div_multiples_vanish, lemma_div_pos_is_pos,
    lemma_fundamental_div_mod_converse,
};
use crate::fx::{
    div_floor, fx_abs, fx_div, fx_div_v, fx_mul, fx_mul_v, isqrt, lemma_mul_range,
    lemma_square_range, rem_floor, sqrt_floor, FX_ONE,
};
use crate::gait::{gait_phase, gait_phase_v, sub_phases, PHASE_MAX, PITCH_CONSTANT};
use crate::physics::JUMP_V;
use crate::trig::{cos_half_turn, cos_half_v, sin_half_turn, sin_half_v};
use crate::vec3::{dist, dist_v, in_geom, midpoint_v, view3, Vec3Fx, GEOM_LIM};

verus! {

/// Total leg length, hip to foot, in micro-units.
pub const LEG_LENGTH: i64 = 1_200_000;

/// Length of one leg bone: half the leg.
pub const BONE_LENGTH: i64 = 600_000;

/// Peak height of the foot during the swing phase.
pub const STEP_HEIGHT: i64 = 500_000;

/// Lateral distance of each hip from the body's centre line.
pub const HIP_SPLAY: i64 = 250_000;

/// Small forward offset of the hip group.
pub const FORWARD_OFFSET: i64 = 200_000;

/// Velocity magnitude bound accepted by the animators.
pub const ANIM_V_LIM: i64 = 1_000_000_000;

/// The fixed set of leg joints the animator drives.
#[derive(Clone, Copy, PartialEq, Eq, Structural, Debug)]
pub enum LegPart {
    Hip,
    LeftThigh,
    RightThigh,
    LeftShin,
    RightShin,
}

/// The joint positions of one animation frame.
pub struct LegPose {
    pub left_foot: Vec3Fx,
    pub right_foot: Vec3Fx,
    pub left_knee: Vec3Fx,
    pub right_knee: Vec3Fx,
    pub hip: Vec3Fx,
    pub left_hip: Vec3Fx,
    pub right_hip: Vec3Fx,
}

/// Feet and hips within the base range, knees within twice of it.
pub open spec fn pose_in_geom(pose: LegPose) -> bool {
    &&& in_geom(pose.left_foot, GEOM_LIM as int)
    &&& in_geom(pose.right_foot, GEOM_LIM as int)
    &&& in_geom(pose.left_knee, 2 * GEOM_LIM as int)
    &&& in_geom(pose.right_knee, 2 * GEOM_LIM as int)
    &&& in_geom(pose.hip, GEOM_LIM as int)
    &&& in_geom(pose.left_hip, GEOM_LIM as int)
    &&& in_geom(pose.right_hip, GEOM_LIM as int)
}

/// Foot position over one stride: a forward arc of height `h` during the
/// swing half (`t < 1`), a linear backward slide on the ground during the
/// stance half (`t >= 1`).
pub open spec fn foot_pos_v(t: int, d: int, h: int, y: int) -> (int, int, int) {
    if t < FX_ONE {
        (fx_mul_v(cos_half_v(t), -d), y, fx_mul_v(sin_half_v(t), h))
    } else {
        (d - fx_mul_v(t - FX_ONE, 2 * d), y, 0)
    }
}

/// Hip position: a base height plus a bob that peaks twice per stride.
pub open spec fn hip_pos_v(t: int, limb: int, d: int) -> (int, int, int) {
    let bob: int = fx_mul_v(d, 200_000);
    let base: int = fx_mul_v(limb, 900_000) - fx_mul_v(bob, 1_200_000);
    (0, 0, base + fx_mul_v(sin_half_v(t % (FX_ONE as int)), bob))
}

/// Approximate two-bone knee. Inside reach (`dist < limb`) the knee sits at
/// the foot/hip midpoint pushed out along the world-frame angle
/// `atan2(hip.z, foot.x) + 90°` by the chord height, with the lateral
/// coordinate snapped to the foot's; at or beyond full extension it
/// collapses to the exact midpoint.
pub open spec fn knee_pos_v(foot: Vec3Fx, hip: Vec3Fx, bone: int, limb: int) -> (int, int, int) {
    let m = midpoint_v(foot, hip);
    let d: int = dist_v(foot, hip);
    if d < limb {
        let half_d: int = d / 2;
        let proj: int = sqrt_floor(bone * bone - half_d * half_d);
        let h: int = sqrt_floor(hip.z * hip.z + foot.x * foot.x);
        if h == 0 {
            (m.0, foot.y as int, m.2 - proj)
        } else {
            (m.0 + (-proj * hip.z) / h, foot.y as int, m.2 - (proj * foot.x) / h)
        }
    } else {
        m
    }
}

/// The foot position at sub-phase `t` of the stride.
pub fn calculate_foot_pos(t: i64, step_displacement: i64, step_height: i64, y: i64) -> (p: Vec3Fx)
    requires
        0 <= t < 2 * FX_ONE,
        0 <= step_displacement <= GEOM_LIM,
        0 <= step_height <= GEOM_LIM,
        -GEOM_LIM <= y <= GEOM_LIM,
    ensures
        view3(p) == foot_pos_v(t as int, step_displacement as int, step_height as int, y as int),
        in_geom(p, GEOM_LIM as int),
{
    let d = step_displacement;
    if t < FX_ONE {
        let c = cos_half_turn(t);
        let s = sin_half_turn(t);
        proof {
            lemma_mul_range(c as int, FX_ONE as int, d as int, GEOM_LIM as int);
            lemma_mul_range(s as int, FX_ONE as int, step_height as int, GEOM_LIM as int);
            lemma_mul_inequality(-(FX_ONE as int), c as int, d as int);
            lemma_mul_inequality(c as int, FX_ONE as int, d as int);
            lemma_mul_inequality(s as int, FX_ONE as int, step_height as int);
            assert(c as int * (-(d as int)) == -(c as int * d as int)) by (nonlinear_arith);
            assert(FX_ONE as int * (-(d as int)) == -(FX_ONE as int * d as int))
                by (nonlinear_arith);
            assert((-(FX_ONE as int)) * (d as int) == -(FX_ONE as int * d as int))
                by (nonlinear_arith);
            lemma_div_multiples_vanish(d as int, FX_ONE as int);
            lemma_div_multiples_vanish(-(d as int), FX_ONE as int);
            lemma_div_is_ordered(
                c as int * (-(d as int)),
                FX_ONE as int * d as int,
                FX_ONE as int,
            );
            lemma_div_is_ordered(
                FX_ONE as int * (-(d as int)),
                c as int * (-(d as int)),
                FX_ONE as int,
            );
            lemma_div_is_ordered(
                s as int * step_height as int,
                FX_ONE as int * step_height as int,
                FX_ONE as int,
            );
            lemma_div_multiples_vanish(step_height as int, FX_ONE as int);
            lemma_div_pos_is_pos(s as int * step_height as int, FX_ONE as int);
        }
        let x = fx_mul(c, -d);
        let z = fx_mul(s, step_height);
        Vec3Fx { x, y, z }
    } else {
        let u = t - FX_ONE;
        proof {
            lemma_mul_range(u as int, FX_ONE as int, 2 * d as int, 2 * GEOM_LIM as int);
            lemma_mul_inequality(u as int, FX_ONE as int, 2 * d as int);
            lemma_div_pos_is_pos(u as int * (2 * d as int), FX_ONE as int);
            lemma_div_is_ordered(
                u as int * (2 * d as int),
                FX_ONE as int * (2 * d as int),
                FX_ONE as int,
            );
            lemma_div_multiples_vanish(2 * d as int, FX_ONE as int);
        }
        let x = d - fx_mul(u, 2 * d);
        Vec3Fx { x, y, z: 0 }
    }
}

/// The hip position at phase `t` for the given leg length and half stride.
pub fn calculate_hip_pos(t: i64, limb_length: i64, step_displacement: i64) -> (p: Vec3Fx)
    requires
        0 <= t <= PHASE_MAX,
        0 <= limb_length <= 250_000_000,
        0 <= step_displacement <= limb_length,
    ensures
        view3(p) == hip_pos_v(t as int, limb_length as int, step_displacement as int),
        in_geom(p, GEOM_LIM as int),
{
    let limb = limb_length;
    let d = step_displacement;
    proof {
        lemma_mul_range(d as int, 250_000_000, 200_000, 200_000);
        lemma_div_pos_is_pos(d as int * 200_000, FX_ONE as int);
        lemma_div_is_ordered(d as int * 200_000, 250_000_000int * 200_000, FX_ONE as int);
    }
    let bob = fx_mul(d, 200_000);
    proof {
        lemma_mul_range(limb as int, 250_000_000, 900_000, 900_000);
        lemma_div_pos_is_pos(limb as int * 900_000, FX_ONE as int);
        lemma_div_is_ordered(limb as int * 900_000, 250_000_000int * 900_000, FX_ONE as int);
        lemma_mul_range(bob as int, 50_000_000, 1_200_000, 1_200_000);
        lemma_div_pos_is_pos(bob as int * 1_200_000, FX_ONE as int);
        lemma_div_is_ordered(bob as int * 1_200_000, 50_000_000int * 1_200_000, FX_ONE as int);
    }
    let base = fx_mul(limb, 900_000) - fx_mul(bob, 1_200_000);
    let m = rem_floor(t, FX_ONE);
    let s = sin_half_turn(m);
    proof {
        lemma_mul_range(s as int, FX_ONE as int, bob as int, 50_000_000);
        lemma_mul_inequality(s as int, FX_ONE as int, bob as int);
        lemma_div_pos_is_pos(s as int * bob as int, FX_ONE as int);
        lemma_div_is_ordered(s as int * bob as int, FX_ONE as int * bob as int, FX_ONE as int);
        lemma_div_multiples_vanish(bob as int, FX_ONE as int);
    }
    let z = base + fx_mul(s, bob);
    Vec3Fx { x: 0, y: 0, z }
}

/// The knee position for a fixed hip and a target foot. For an overextended
/// leg (`dist >= limb_length`) the knee is exactly the midpoint of foot and
/// hip: the deliberate degenerate fallback, never a fault.
pub fn calculate_knee_pos(foot_pos: Vec3Fx, hip_pos: Vec3Fx, bone_length: i64, limb_length: i64)
    -> (knee: Vec3Fx)
    requires
        in_geom(foot_pos, GEOM_LIM as int),
        in_geom(hip_pos, GEOM_LIM as int),
        0 <= bone_length <= GEOM_LIM,
        0 <= limb_length <= 2 * bone_length,
    ensures
        view3(knee) == knee_pos_v(foot_pos, hip_pos, bone_length as int, limb_length as int),
        dist_v(foot_pos, hip_pos) >= limb_length ==> view3(knee) == midpoint_v(
            foot_pos,
            hip_pos,
        ),
        in_geom(knee, 2 * GEOM_LIM as int),
{
    let mx = div_floor(foot_pos.x + hip_pos.x, 2);
    let my = div_floor(foot_pos.y + hip_pos.y, 2);
    let mz = div_floor(foot_pos.z + hip_pos.z, 2);
    proof {
        lemma_fundamental_div_mod_converse(1_000_000_000, 2, 500_000_000, 0);
        lemma_fundamental_div_mod_converse(-1_000_000_000, 2, -500_000_000, 0);
        lemma_div_is_ordered(foot_pos.x as int + hip_pos.x as int, 1_000_000_000, 2);
        lemma_div_is_ordered(-1_000_000_000, foot_pos.x as int + hip_pos.x as int, 2);
        lemma_div_is_ordered(foot_pos.y as int + hip_pos.y as int, 1_000_000_000, 2);
        lemma_div_is_ordered(-1_000_000_000, foot_pos.y as int + hip_pos.y as int, 2);
        lemma_div_is_ordered(foot_pos.z as int + hip_pos.z as int, 1_000_000_000, 2);
        lemma_div_is_ordered(-1_000_000_000, foot_pos.z as int + hip_pos.z as int, 2);
    }
    let displacement = dist(foot_pos, hip_pos);
    if displacement < limb_length {
        let half_d = div_floor(displacement, 2);
        proof {
            lemma_square_range(bone_length as int, GEOM_LIM as int);
            lemma_square_range(half_d as int, GEOM_LIM as int);
            assert((half_d as int * half_d as int) < (bone_length as int * bone_length as int))
                by (nonlinear_arith)
                requires
                    0 <= half_d < bone_length,
            ;
        }
        let proj = isqrt(bone_length * bone_length - half_d * half_d);
        proof {
            assert(proj <= bone_length) by (nonlinear_arith)
                requires
                    0 <= proj,
                    0 <= bone_length,
                    proj as int * proj as int <= bone_length as int * bone_length as int,
            ;
            lemma_square_range(hip_pos.z as int, GEOM_LIM as int);
            lemma_square_range(foot_pos.x as int, GEOM_LIM as int);
        }
        let h = isqrt(hip_pos.z * hip_pos.z + foot_pos.x * foot_pos.x);
        if h == 0 {
            Vec3Fx { x: mx, y: foot_pos.y, z: mz - proj }
        } else {
            proof {
                assert((-(hip_pos.z as int)) * (-(hip_pos.z as int)) == hip_pos.z as int
                    * hip_pos.z as int) by (nonlinear_arith);
                assert((-(foot_pos.x as int)) * (-(foot_pos.x as int)) == foot_pos.x as int
                    * foot_pos.x as int) by (nonlinear_arith);
                crate::fx::lemma_sqrt_floor_at_least(
                    if hip_pos.z >= 0 {
                        hip_pos.z as int
                    } else {
                        -hip_pos.z as int
                    },
                    hip_pos.z as int * hip_pos.z as int + foot_pos.x as int * foot_pos.x as int,
                );
                crate::fx::lemma_sqrt_floor_at_least(
                    if foot_pos.x >= 0 {
                        foot_pos.x as int
                    } else {
                        -foot_pos.x as int
                    },
                    hip_pos.z as int * hip_pos.z as int + foot_pos.x as int * foot_pos.x as int,
                );
                lemma_square_range(hip_pos.z as int, h as int);
                lemma_square_range(foot_pos.x as int, h as int);
                lemma_mul_range(hip_pos.z as int, h as int, proj as int, proj as int);
                lemma_mul_range(foot_pos.x as int, h as int, proj as int, proj as int);
                lemma_mul_range(hip_pos.z as int, GEOM_LIM as int, proj as int, GEOM_LIM as int);
                lemma_mul_range(foot_pos.x as int, GEOM_LIM as int, proj as int, GEOM_LIM as int);
                assert(-(proj as int) * (hip_pos.z as int) == -(hip_pos.z as int
                    * proj as int)) by (nonlinear_arith);
                assert(proj as int * foot_pos.x as int == foot_pos.x as int
                    * proj as int) by (nonlinear_arith);
                assert(h as int * (-(proj as int)) == -(h as int * proj as int))
                    by (nonlinear_arith);
                lemma_div_is_ordered(
                    -proj as int * hip_pos.z as int,
                    h as int * proj as int,
                    h as int,
                );
                lemma_div_is_ordered(
                    -(h as int * proj as int),
                    -proj as int * hip_pos.z as int,
                    h as int,
                );
                lemma_div_is_ordered(
                    proj as int * foot_pos.x as int,
                    h as int * proj as int,
                    h as int,
                );
                lemma_div_is_ordered(
                    -(h as int * proj as int),
                    proj as int * foot_pos.x as int,
                    h as int,
                );
                lemma_div_multiples_vanish(proj as int, h as int);
                lemma_div_multiples_vanish(-proj as int, h as int);
            }
            let ox = div_floor(-proj * hip_pos.z, h);
            let oz = div_floor(proj * foot_pos.x, h);
            Vec3Fx { x: mx + ox, y: foot_pos.y, z: mz - oz }
        }
    } else {
        Vec3Fx { x: mx, y: my, z: mz }
    }
}

/// One frame of leg animation: all seven joint positions, from the airborne
/// flag, the vertical velocity, the elapsed time and the scroll speed.
///
/// Walking, the feet follow [`foot_pos_v`] at the two half-cycle-offset
/// sub-phases and the hip bobs per [`hip_pos_v`] with a small forward
/// offset; airborne, the pose is a fixed tuck whose foot height interpolates
/// with the normalized vertical speed. Either way each knee is the
/// two-bone-IK knee of its own foot and hip.
pub fn animate_legs(jumping: bool, velocity: i64, elapsed: i64, speed: i64) -> (pose: LegPose)
    requires
        -ANIM_V_LIM <= velocity <= ANIM_V_LIM,
        0 <= elapsed <= crate::gait::ELAPSED_LIM,
        0 <= speed <= crate::gait::SPEED_LIM,
    ensures
        pose_in_geom(pose),
        view3(pose.left_hip) == (pose.hip.x as int, pose.hip.y - HIP_SPLAY, pose.hip.z as int),
        view3(pose.right_hip) == (pose.hip.x as int, pose.hip.y + HIP_SPLAY, pose.hip.z as int),
        view3(pose.left_knee) == knee_pos_v(
            pose.left_foot,
            pose.left_hip,
            BONE_LENGTH as int,
            LEG_LENGTH as int,
        ),
        view3(pose.right_knee) == knee_pos_v(
            pose.right_foot,
            pose.right_hip,
            BONE_LENGTH as int,
            LEG_LENGTH as int,
        ),
        jumping ==> ({
            let q: int = fx_div_v(velocity as int, JUMP_V as int);
            let jn: int = if q >= 0 {
                q
            } else {
                -q
            };
            let fh: int = STEP_HEIGHT - fx_mul_v(jn, STEP_HEIGHT as int);
            &&& view3(pose.hip) == (FORWARD_OFFSET as int, 0int, LEG_LENGTH as int)
            &&& view3(pose.left_foot) == (FORWARD_OFFSET as int, -(HIP_SPLAY as int), fh)
            &&& view3(pose.right_foot) == (FORWARD_OFFSET as int, HIP_SPLAY as int, fh)
        }),
        !jumping ==> ({
            let t: int = gait_phase_v(elapsed as int, speed as int);
            let t1: int = t % (2 * FX_ONE as int);
            let t2: int = (t + FX_ONE) % (2 * FX_ONE as int);
            let hp = hip_pos_v(t, LEG_LENGTH as int, PITCH_CONSTANT as int);
            &&& view3(pose.left_foot) == foot_pos_v(
                t1,
                PITCH_CONSTANT as int,
                STEP_HEIGHT as int,
                -(HIP_SPLAY as int),
            )
            &&& view3(pose.right_foot) == foot_pos_v(
                t2,
                PITCH_CONSTANT as int,
                STEP_HEIGHT as int,
                HIP_SPLAY as int,
            )
            &&& view3(pose.hip) == (hp.0 + FORWARD_OFFSET, hp.1, hp.2)
        }),
{
    if jumping {
        proof {
            lemma_mul_range(velocity as int, ANIM_V_LIM as int, FX_ONE as int, FX_ONE as int);
            lemma_div_is_ordered(
                velocity as int * FX_ONE as int,
                1_000_000_000_000_000,
                JUMP_V as int,
            );
            lemma_div_is_ordered(
                -1_000_000_000_000_000,
                velocity as int * FX_ONE as int,
                JUMP_V as int,
            );
        }
        let q = fx_div(velocity, JUMP_V);
        let jn = fx_abs(q);
        proof {
            lemma_mul_range(jn as int, 100_000_000, STEP_HEIGHT as int, STEP_HEIGHT as int);
            lemma_div_pos_is_pos(jn as int * STEP_HEIGHT as int, FX_ONE as int);
            lemma_div_is_ordered(
                jn as int * STEP_HEIGHT as int,
                100_000_000int * 500_000,
                FX_ONE as int,
            );
        }
        let fh = STEP_HEIGHT - fx_mul(jn, STEP_HEIGHT);
        let hip = Vec3Fx { x: FORWARD_OFFSET, y: 0, z: LEG_LENGTH };
        let left_hip = Vec3Fx { x: hip.x, y: hip.y - HIP_SPLAY, z: hip.z };
        let right_hip = Vec3Fx { x: hip.x, y: hip.y + HIP_SPLAY, z: hip.z };
        let left_foot = Vec3Fx { x: FORWARD_OFFSET, y: -HIP_SPLAY, z: fh };
        let right_foot = Vec3Fx { x: FORWARD_OFFSET, y: HIP_SPLAY, z: fh };
        let left_knee = calculate_knee_pos(left_foot, left_hip, BONE_LENGTH, LEG_LENGTH);
        let right_knee = calculate_knee_pos(right_foot, right_hip, BONE_LENGTH, LEG_LENGTH);
        LegPose { left_foot, right_foot, left_knee, right_knee, hip, left_hip, right_hip }
    } else {
        let t = gait_phase(elapsed, speed);
        let phases = sub_phases(t);
        let left_foot = calculate_foot_pos(phases.0, PITCH_CONSTANT, STEP_HEIGHT, -HIP_SPLAY);
        let right_foot = calculate_foot_pos(phases.1, PITCH_CONSTANT, STEP_HEIGHT, HIP_SPLAY);
        let hip0 = calculate_hip_pos(t, LEG_LENGTH, PITCH_CONSTANT);
        let hip = Vec3Fx { x: hip0.x + FORWARD_OFFSET, y: hip0.y, z: hip0.z };
        let left_hip = Vec3Fx { x: hip.x, y: hip.y - HIP_SPLAY, z: hip.z };
        let right_hip = Vec3Fx { x: hip.x, y: hip.y + HIP_SPLAY, z: hip.z };
        let left_knee = calculate_knee_pos(left_foot, left_hip, BONE_LENGTH, LEG_LENGTH);
        let right_knee = calculate_knee_pos(right_foot, right_hip, BONE_LENGTH, LEG_LENGTH);
        LegPose { left_foot, right_foot, left_knee, right_knee, hip, left_hip, right_hip }
    }
}

/// Where each leg joint's segment sits for a given pose: the translation,
/// and the point the segment faces, if any. A thigh spans hip to knee and a
/// shin knee to foot; each sits at the midpoint of its two endpoints and
/// faces the distal one.
pub fn joint_placement(part: LegPart, pose: &LegPose) -> (r: (Vec3Fx, Option<Vec3Fx>))
    requires
        pose_in_geom(*pose),
    ensures
        match part {
            LegPart::Hip => r.0 == pose.hip && r.1 is None,
            LegPart::LeftThigh => view3(r.0) == midpoint_v(pose.left_hip, pose.left_knee) && r.1
                == Some(pose.left_knee),
            LegPart::RightThigh => view3(r.0) == midpoint_v(pose.right_hip, pose.right_knee)
                && r.1 == Some(pose.right_knee),
            LegPart::LeftShin => view3(r.0) == midpoint_v(pose.left_knee, pose.left_foot) && r.1
                == Some(pose.left_foot),
            LegPart::RightShin => view3(r.0) == midpoint_v(pose.right_knee, pose.right_foot)
                && r.1 == Some(pose.right_foot),
        },
{
    match part {
        LegPart::Hip => (pose.hip, None),
        LegPart::LeftThigh => (
            crate::vec3::midpoint(pose.left_hip, pose.left_knee),
            Some(pose.left_knee),
        ),
        LegPart::RightThigh => (
            crate::vec3::midpoint(pose.right_hip, pose.right_knee),
            Some(pose.right_knee),
        ),
        LegPart::LeftShin => (
            crate::vec3::midpoint(pose.left_knee, pose.left_foot),
            Some(pose.left_foot),
        ),
        LegPart::RightShin => (
            crate::vec3::midpoint(pose.right_knee, pose.right_foot),
            Some(pose.right_foot),
        ),
    }
}

/// Law: the walk cycle is seamless at the swing/stance boundary. At the
/// boundary phase the swing formula puts the foot at height exactly zero and
/// forward position exactly `d`, which is exactly where the stance formula
/// starts.
pub proof fn lemma_foot_continuity(d: int, h: int, y: int)
    requires
        0 <= d <= GEOM_LIM,
        0 <= h <= GEOM_LIM,
    ensures
        fx_mul_v(sin_half_v(FX_ONE as int), h) == 0,
        fx_mul_v(cos_half_v(FX_ONE as int), -d) == d,
        foot_pos_v(FX_ONE as int, d, h, y) == (d, y, 0int),
{
    crate::trig::lemma_sin_exact_points();
    lemma_fundamental_div_mod_converse(0, FX_ONE as int, 0, 0);
    lemma_div_multiples_vanish(d, FX_ONE as int);
    assert(-(FX_ONE as int) * -d == FX_ONE as int * d) by (nonlinear_arith);
}

} // verus!
