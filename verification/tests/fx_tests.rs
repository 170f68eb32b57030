use dino_run::fx::{div_floor, fx_abs, fx_div, fx_mul, isqrt, rem_floor, FX_ONE};
use dino_run::trig::{cos_half_turn, sin_half_turn, sin_phase};
use dino_run::vec3::{dist, midpoint, Vec3Fx};

#[test]
fn division_rounds_toward_negative_infinity() {
    assert_eq!(div_floor(7, 2), 3);
    assert_eq!(div_floor(-7, 2), -4);
    assert_eq!(div_floor(-8, 2), -4);
    assert_eq!(div_floor(0, 5), 0);
    assert_eq!(rem_floor(-7, 2), 1);
    assert_eq!(rem_floor(7, 2), 1);
    assert_eq!(rem_floor(-1, 2_000_000), 1_999_999);
}

#[test]
fn fixed_point_products_and_quotients() {
    assert_eq!(fx_mul(FX_ONE, FX_ONE), FX_ONE);
    assert_eq!(fx_mul(500_000, 500_000), 250_000);
    assert_eq!(fx_mul(-500_000, 500_000), -250_000);
    assert_eq!(fx_mul(1, 1), 0, "a product below one micro-unit rounds down");
    assert_eq!(fx_div(FX_ONE, 2 * FX_ONE), 500_000);
    assert_eq!(fx_div(-FX_ONE, 3 * FX_ONE), -333_334);
    assert_eq!(fx_abs(-42), 42);
    assert_eq!(fx_abs(42), 42);
}

#[test]
fn integer_square_roots_are_floors() {
    assert_eq!(isqrt(0), 0);
    assert_eq!(isqrt(1), 1);
    assert_eq!(isqrt(2), 1);
    assert_eq!(isqrt(4), 2);
    assert_eq!(isqrt(110_000_000_000), 331_662);
    assert_eq!(isqrt(1_000_000_000_000), 1_000_000);
    assert_eq!(isqrt(999_999_999_999), 999_999);
}

#[test]
fn sine_hits_the_quarter_turns_exactly() {
    assert_eq!(sin_half_turn(0), 0);
    assert_eq!(sin_half_turn(FX_ONE), 0);
    assert_eq!(sin_half_turn(FX_ONE / 2), FX_ONE);
    assert_eq!(cos_half_turn(0), FX_ONE);
    assert_eq!(cos_half_turn(FX_ONE), -FX_ONE);
    assert_eq!(sin_phase(3 * FX_ONE / 2), -FX_ONE, "three quarter turns point down");
    assert_eq!(sin_phase(2 * FX_ONE), 0, "full turns repeat");
    assert_eq!(sin_phase(-FX_ONE / 2), -FX_ONE);
}

#[test]
fn sine_is_symmetric_about_the_quarter_turn() {
    for t in [1, 100_000, 333_333, 499_999] {
        assert_eq!(sin_half_turn(t), sin_half_turn(FX_ONE - t));
    }
}

#[test]
fn distances_and_midpoints() {
    let a = Vec3Fx { x: 3 * FX_ONE, y: 0, z: 0 };
    let b = Vec3Fx { x: 0, y: 4 * FX_ONE, z: 0 };
    assert_eq!(dist(a, b), 5 * FX_ONE);
    let m = midpoint(a, b);
    assert_eq!(m.x, 3 * FX_ONE / 2);
    assert_eq!(m.y, 2 * FX_ONE);
    assert_eq!(m.z, 0);
    let n = midpoint(Vec3Fx { x: -1, y: 0, z: 0 }, Vec3Fx { x: 0, y: 0, z: 0 });
    assert_eq!(n.x, -1, "midpoints round toward negative infinity");
}
