use dino_run::fx::FX_ONE;
use dino_run::physics::JUMP_V;
use dino_run::tail::{animate_tail, TAIL_Z};

#[test]
fn walk_base_segment_never_sways() {
    // Segment zero has zero amplitude, so it pins the chain to the body.
    for elapsed in [0, FX_ONE, 3 * FX_ONE, 17 * FX_ONE] {
        let (y, z) = animate_tail(false, 0, elapsed, 5 * FX_ONE, 0);
        assert_eq!(y, 0);
        assert_eq!(z, TAIL_Z);
    }
}

#[test]
fn walk_height_is_fixed() {
    for i in 0..8u8 {
        let (_, z) = animate_tail(false, 0, 7 * FX_ONE, 5 * FX_ONE, i);
        assert_eq!(z, TAIL_Z);
    }
}

#[test]
fn jump_tip_whips_at_full_launch_speed() {
    // At full launch speed the whip angle is a quarter turn; the last
    // segment takes all of it, so its sine is exactly one.
    let (y, z) = animate_tail(true, JUMP_V, 0, 0, 7);
    assert_eq!(y, 0);
    assert_eq!(z, TAIL_Z - 500_000);
}

#[test]
fn jump_tail_straightens_at_zero_speed() {
    for i in 0..8u8 {
        let (y, z) = animate_tail(true, 0, 0, 0, i);
        assert_eq!(y, 0);
        assert_eq!(z, TAIL_Z, "no vertical deflection without vertical speed");
    }
}

#[test]
fn jump_downward_speed_deflects_upward() {
    let (_, z_up) = animate_tail(true, JUMP_V, 0, 0, 7);
    let (_, z_down) = animate_tail(true, -JUMP_V, 0, 0, 7);
    assert!(z_up < TAIL_Z && z_down > TAIL_Z, "the whip mirrors with the speed's sign");
    assert_eq!(z_down - TAIL_Z, TAIL_Z - z_up);
}
