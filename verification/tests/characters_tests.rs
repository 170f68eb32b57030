use dino_run::characters::{
    animate_legs, calculate_foot_pos, calculate_hip_pos, calculate_knee_pos, joint_placement,
    LegPart, BONE_LENGTH, HIP_SPLAY, LEG_LENGTH, STEP_HEIGHT,
};
use dino_run::fx::FX_ONE;
use dino_run::gait::PITCH_CONSTANT;
use dino_run::vec3::Vec3Fx;

#[test]
fn foot_continuity_at_swing_stance_boundary() {
    // Swing end and stance start: same forward position, both on the ground.
    let end_of_swing = calculate_foot_pos(FX_ONE - 1, PITCH_CONSTANT, STEP_HEIGHT, 0);
    let start_of_stance = calculate_foot_pos(FX_ONE, PITCH_CONSTANT, STEP_HEIGHT, 0);
    assert_eq!(end_of_swing.z, 0, "no vertical pop entering stance");
    assert_eq!(start_of_stance.z, 0);
    assert_eq!(start_of_stance.x, PITCH_CONSTANT);
}

#[test]
fn foot_swing_arc() {
    // Mid-swing the foot is at its peak height, directly under the body.
    let mid = calculate_foot_pos(FX_ONE / 2, PITCH_CONSTANT, STEP_HEIGHT, -HIP_SPLAY);
    assert_eq!(mid.z, STEP_HEIGHT);
    assert_eq!(mid.y, -HIP_SPLAY);
    // Swing start: the foot is a full half stride behind.
    let start = calculate_foot_pos(0, PITCH_CONSTANT, STEP_HEIGHT, 0);
    assert_eq!(start.x, -PITCH_CONSTANT);
    assert_eq!(start.z, 0);
}

#[test]
fn foot_stance_slides_backward() {
    // Stance midpoint: the foot has slid back to the centre.
    let mid = calculate_foot_pos(FX_ONE + FX_ONE / 2, PITCH_CONSTANT, STEP_HEIGHT, 0);
    assert_eq!(mid.x, PITCH_CONSTANT - PITCH_CONSTANT);
    assert_eq!(mid.z, 0);
    // End of stance: back to the swing start position.
    let end = calculate_foot_pos(2 * FX_ONE - 1, PITCH_CONSTANT, STEP_HEIGHT, 0);
    assert!(end.x < -PITCH_CONSTANT + 10 && end.x >= -PITCH_CONSTANT);
    assert_eq!(end.z, 0);
}

#[test]
fn knee_fallback_is_exact_midpoint() {
    // Any overextended leg collapses the knee to the midpoint, y included.
    let cases = [
        (Vec3Fx { x: 0, y: -HIP_SPLAY, z: 0 }, Vec3Fx { x: 0, y: 0, z: LEG_LENGTH }),
        (Vec3Fx { x: 2_000_000, y: 0, z: 0 }, Vec3Fx { x: 0, y: 0, z: 1_000_000 }),
        (Vec3Fx { x: -900_000, y: 100_000, z: 0 }, Vec3Fx { x: 900_000, y: 100_000, z: 900_000 }),
    ];
    for (foot, hip) in cases {
        let knee = calculate_knee_pos(foot, hip, BONE_LENGTH, LEG_LENGTH);
        let dx = (foot.x - hip.x) as i128;
        let dy = (foot.y - hip.y) as i128;
        let dz = (foot.z - hip.z) as i128;
        assert!(dx * dx + dy * dy + dz * dz >= (LEG_LENGTH as i128) * (LEG_LENGTH as i128));
        assert_eq!(knee.x, (foot.x + hip.x).div_euclid(2));
        assert_eq!(knee.y, (foot.y + hip.y).div_euclid(2));
        assert_eq!(knee.z, (foot.z + hip.z).div_euclid(2));
    }
}

#[test]
fn knee_in_reach_bends_forward() {
    // Hip straight above the foot, one unit apart: the chord height is
    // sqrt(0.6^2 - 0.5^2) and the knee pushes straight out along -x.
    let foot = Vec3Fx { x: 0, y: 0, z: 0 };
    let hip = Vec3Fx { x: 0, y: 0, z: 1_000_000 };
    let knee = calculate_knee_pos(foot, hip, BONE_LENGTH, LEG_LENGTH);
    // isqrt(600000^2 - 500000^2) = isqrt(110000000000) = 331662
    assert_eq!(knee.x, -331_662);
    assert_eq!(knee.y, 0);
    assert_eq!(knee.z, 500_000);
}

#[test]
fn knee_degenerate_column_pushes_straight_down() {
    // Hip at the origin and the foot straight above it: the world-frame
    // angle degenerates and the chord height is applied straight down.
    let foot = Vec3Fx { x: 0, y: 0, z: 500_000 };
    let hip = Vec3Fx { x: 0, y: 0, z: 0 };
    let knee = calculate_knee_pos(foot, hip, BONE_LENGTH, LEG_LENGTH);
    // proj = isqrt(600000^2 - 250000^2) = isqrt(297500000000) = 545435
    assert_eq!(knee.x, 0);
    assert_eq!(knee.y, 0);
    assert_eq!(knee.z, 250_000 - 545_435);
}

#[test]
fn hip_bobs_twice_per_stride() {
    let low0 = calculate_hip_pos(0, LEG_LENGTH, PITCH_CONSTANT);
    let high = calculate_hip_pos(FX_ONE / 2, LEG_LENGTH, PITCH_CONSTANT);
    let low1 = calculate_hip_pos(FX_ONE, LEG_LENGTH, PITCH_CONSTANT);
    let bob = (PITCH_CONSTANT * 200_000) / FX_ONE;
    let base = (LEG_LENGTH * 900_000) / FX_ONE - (bob * 1_200_000) / FX_ONE;
    assert_eq!(low0.z, base);
    assert_eq!(high.z, base + bob);
    assert_eq!(low1.z, base, "the bob repeats every half stride");
    assert_eq!(low0.x, 0);
    assert_eq!(low0.y, 0);
}

#[test]
fn jump_pose_tucks_with_velocity() {
    // At full launch speed the feet pull all the way up to the hips' line.
    let pose = animate_legs(true, 10 * FX_ONE, 0, 0);
    assert_eq!(pose.left_foot.z, 0, "normalized speed 1 cancels the whole step height");
    assert_eq!(pose.hip.z, LEG_LENGTH);
    assert_eq!(pose.left_foot.y, -HIP_SPLAY);
    assert_eq!(pose.right_foot.y, HIP_SPLAY);
    // At zero vertical speed the feet hang at the full step height.
    let hang = animate_legs(true, 0, 0, 0);
    assert_eq!(hang.left_foot.z, STEP_HEIGHT);
}

#[test]
fn walk_pose_mirrors_left_and_right() {
    let pose = animate_legs(false, 0, 3 * FX_ONE, 5 * FX_ONE);
    assert_eq!(pose.left_hip.y, pose.hip.y - HIP_SPLAY);
    assert_eq!(pose.right_hip.y, pose.hip.y + HIP_SPLAY);
    assert_eq!(pose.left_foot.y, -HIP_SPLAY);
    assert_eq!(pose.right_foot.y, HIP_SPLAY);
    assert_eq!(pose.left_knee.y, pose.left_foot.y);
    assert_eq!(pose.right_knee.y, pose.right_foot.y);
}

#[test]
fn joint_placement_midpoints() {
    let pose = animate_legs(false, 0, FX_ONE, 5 * FX_ONE);
    let (hip_t, hip_look) = joint_placement(LegPart::Hip, &pose);
    assert_eq!(hip_t, pose.hip);
    assert!(hip_look.is_none());
    let (thigh_t, thigh_look) = joint_placement(LegPart::LeftThigh, &pose);
    assert_eq!(thigh_t.x, (pose.left_hip.x + pose.left_knee.x).div_euclid(2));
    assert_eq!(thigh_t.z, (pose.left_hip.z + pose.left_knee.z).div_euclid(2));
    assert_eq!(thigh_look, Some(pose.left_knee));
    let (shin_t, shin_look) = joint_placement(LegPart::RightShin, &pose);
    assert_eq!(shin_t.x, (pose.right_knee.x + pose.right_foot.x).div_euclid(2));
    assert_eq!(shin_look, Some(pose.right_foot));
}
