use dino_run::flicker::{hurt_manager, HurtCounters, FLASH_DUR, FLICK_DUR};

#[test]
fn initial_state_is_visible_and_quiet() {
    let h = HurtCounters::new();
    assert_eq!(h.total_remaining, 0);
    assert_eq!(h.flick, 0);
    assert!(h.should_show);
}

#[test]
fn flicker_total_duration_and_toggle_count() {
    // A single hit at tick 0 and no further hits: exactly ten visibility
    // inversions, five ticks apart, and the player shows from the last
    // inversion onward.
    let mut h = HurtCounters::new();
    let mut rendered = true;
    let mut toggles: u32 = 0;
    let mut toggle_ticks = Vec::new();
    for tick in 0..80u32 {
        let hit = tick == 0;
        let toggle = hurt_manager(&mut h, hit, rendered);
        if toggle {
            rendered = !rendered;
            toggles += 1;
            toggle_ticks.push(tick);
        }
        if tick >= 45 {
            assert!(rendered, "visible from the tenth inversion onward, tick {}", tick);
        }
    }
    assert_eq!(toggles, 10, "exactly ten visibility toggles");
    assert_eq!(toggle_ticks, vec![0, 5, 10, 15, 20, 25, 30, 35, 40, 45]);
    assert!(h.should_show);
    assert_eq!(h.total_remaining, 0);
    assert_eq!(h.flick, 0);
}

#[test]
fn a_second_hit_reloads_the_countdown() {
    let mut h = HurtCounters::new();
    hurt_manager(&mut h, true, true);
    for _ in 0..7 {
        hurt_manager(&mut h, false, true);
    }
    assert!(h.total_remaining < FLASH_DUR);
    hurt_manager(&mut h, true, true);
    // The reload happens before the countdown step, so the counter sits at
    // most one below the full duration again.
    assert!(h.total_remaining >= FLASH_DUR - 1);
}

#[test]
fn toggle_is_edge_triggered() {
    let mut h = HurtCounters::new();
    // Rendered state already matches the desired one: no toggle.
    assert!(!hurt_manager(&mut h, false, true));
    // Rendered state disagrees (as after an external change): one toggle.
    assert!(hurt_manager(&mut h, false, false));
}

#[test]
fn flick_counter_reloads_to_its_duration() {
    let mut h = HurtCounters::new();
    hurt_manager(&mut h, true, true);
    assert_eq!(h.flick, FLICK_DUR);
    assert_eq!(h.total_remaining, FLASH_DUR);
    assert!(!h.should_show, "the first inversion hides the player");
}
