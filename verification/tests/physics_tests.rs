use dino_run::fx::FX_ONE;
use dino_run::physics::{player_jump_system, AnimationState, Player, JUMP_V};

fn tick(z: i64, p: &mut Player, a: &mut AnimationState, jumped: bool, held: bool, dt: i64) -> i64 {
    player_jump_system(z, p, a, jumped, held, dt)
}

/// Runs one full jump from the ground and returns (airtime in ticks, peak z).
fn fly(held: bool, dt: i64) -> (u32, i64) {
    let mut p = Player { velocity: 0 };
    let mut a = AnimationState { jumping: false };
    let mut z: i64 = 0;
    z = tick(z, &mut p, &mut a, true, held, dt);
    assert_eq!(p.velocity, JUMP_V);
    let mut airtime: u32 = 1;
    let mut peak = z;
    while a.jumping {
        z = tick(z, &mut p, &mut a, false, held, dt);
        airtime += 1;
        if z > peak {
            peak = z;
        }
        assert!(airtime < 10_000, "the jump must land");
    }
    assert_eq!(z, 0, "landing leaves height exactly zero");
    assert_eq!(p.velocity, 0, "landing leaves velocity exactly zero");
    (airtime, peak)
}

#[test]
fn jump_symmetry_held_is_longer() {
    let dt = 100_000; // 0.1 s
    let (air_held, peak_held) = fly(true, dt);
    let (air_unheld, peak_unheld) = fly(false, dt);
    assert!(air_held > air_unheld);
    assert!(peak_held > peak_unheld);
}

#[test]
fn jump_symmetry_many_deltas() {
    for dt in [20_000, 50_000, 100_000, 250_000] {
        let (air_held, _) = fly(true, dt);
        let (air_unheld, _) = fly(false, dt);
        assert!(air_held >= air_unheld);
    }
}

#[test]
fn launch_tick_scenario() {
    // From z = 0 with a fresh press: the launch happens, and because the
    // gravity branch only fires above the ground, the first tick integrates
    // the full launch speed.
    let mut p = Player { velocity: 0 };
    let mut a = AnimationState { jumping: false };
    let z = tick(0, &mut p, &mut a, true, false, 100_000);
    assert_eq!(p.velocity, 10 * FX_ONE);
    assert_eq!(z, FX_ONE); // 10 * 0.1
    assert!(a.jumping);
}

#[test]
fn gravity_tick_scenario() {
    // Just off the ground, a fresh press still launches (below the launch
    // window); gravity then takes 40 * 0.1 = 4 off the launch speed of 10,
    // and the tick integrates 6 * 0.1 = 0.6.
    let mut p = Player { velocity: 0 };
    let mut a = AnimationState { jumping: false };
    let z0 = 200_000; // 0.2, inside the launch window of 0.25
    let z = tick(z0, &mut p, &mut a, true, false, 100_000);
    assert_eq!(p.velocity, 6 * FX_ONE);
    assert_eq!(z, z0 + 600_000);
}

#[test]
fn floaty_ascent_halves_gravity() {
    let mut p = Player { velocity: 10 * FX_ONE };
    let mut a = AnimationState { jumping: true };
    let z = tick(FX_ONE, &mut p, &mut a, false, true, 100_000);
    assert_eq!(p.velocity, 8 * FX_ONE); // only half of 4 is taken
    assert_eq!(z, FX_ONE + 800_000);
}

#[test]
fn no_launch_above_window() {
    let mut p = Player { velocity: 0 };
    let mut a = AnimationState { jumping: false };
    tick(250_000, &mut p, &mut a, true, false, 100_000);
    assert_ne!(p.velocity, JUMP_V, "a press at the window edge must not launch");
}

#[test]
fn no_launch_while_rising() {
    let mut p = Player { velocity: 1 };
    let mut a = AnimationState { jumping: true };
    tick(100_000, &mut p, &mut a, true, false, 0);
    assert_ne!(p.velocity, JUMP_V, "a press while rising must not relaunch");
}

#[test]
fn grounded_stays_put() {
    let mut p = Player { velocity: 0 };
    let mut a = AnimationState { jumping: false };
    let z = tick(0, &mut p, &mut a, false, false, 100_000);
    assert_eq!(z, 0);
    assert_eq!(p.velocity, 0);
    assert!(!a.jumping);
}
