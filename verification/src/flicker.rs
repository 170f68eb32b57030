//! Hit-reaction flicker: a tick-driven visibility state machine. A hit
//! reloads a countdown; while it runs, visibility inverts every few ticks;
//! when it ends, visibility is forced back on. The host applies the
//! visibility only when it differs from what is rendered, so the toggle is
//! edge-triggered.

use vstd::prelude::*;

verus! {

/// Total flicker countdown loaded by a hit, in fixed ticks.
pub const FLASH_DUR: u8 = 40;

/// Ticks between visibility inversions.
pub const FLICK_DUR: u8 = 4;

/// The flicker state: remaining countdown, the sub-counter to the next
/// inversion, and the visibility the player should have.
#[derive(Clone, Copy, PartialEq, Eq, Structural, Debug)]
pub struct HurtCounters {
    pub total_remaining: u8,
    pub flick: u8,
    pub should_show: bool,
}

impl HurtCounters {
    /// The state at session start: nothing to flicker, player visible.
    pub fn new() -> (h: HurtCounters)
        ensures
            h == (HurtCounters { total_remaining: 0, flick: 0, should_show: true }),
    {
        HurtCounters { total_remaining: 0, flick: 0, should_show: true }
    }
}

/// One fixed tick of the flicker machine. A hit reloads the countdown
/// first; then, while the countdown runs, a spent sub-counter reloads and
/// inverts visibility, otherwise both counters step down; a finished
/// countdown forces visibility on.
pub open spec fn hurt_step(h: HurtCounters, hit: bool) -> HurtCounters {
    let rem: u8 = if hit {
        FLASH_DUR
    } else {
        h.total_remaining
    };
    if rem > 0 {
        if h.flick == 0 {
            HurtCounters { total_remaining: rem, flick: FLICK_DUR, should_show: !h.should_show }
        } else {
            HurtCounters {
                total_remaining: (rem - 1) as u8,
                flick: (h.flick - 1) as u8,
                should_show: h.should_show,
            }
        }
    } else {
        HurtCounters { total_remaining: 0, flick: 0, should_show: true }
    }
}

/// One fixed tick: drain the pending hits (`hit` says whether any arrived),
/// advance the counters, and report whether the rendered visibility, given
/// as `is_visible`, must be toggled to match.
pub fn hurt_manager(h: &mut HurtCounters, hit: bool, is_visible: bool) -> (toggle: bool)
    ensures
        *final(h) == hurt_step(*old(h), hit),
        toggle == (is_visible != final(h).should_show),
{
    if hit {
        h.total_remaining = FLASH_DUR;
    }
    if h.total_remaining > 0 {
        if h.flick == 0 {
            h.flick = FLICK_DUR;
            h.should_show = !h.should_show;
        } else {
            h.flick = h.flick - 1;
            h.total_remaining = h.total_remaining - 1;
        }
    } else {
        h.should_show = true;
        h.flick = 0;
    }
    is_visible != h.should_show
}

/// Law: the machine is quiescent exactly when the countdown is spent. With
/// no new hit, a spent countdown leaves the state visible and unchanged
/// forever after one tick, and the counters never exceed their reload
/// values.
pub proof fn lemma_flicker_quiescent(h: HurtCounters)
    requires
        h.total_remaining == 0,
    ensures
        hurt_step(h, false) == (HurtCounters { total_remaining: 0, flick: 0, should_show: true }),
        hurt_step(hurt_step(h, false), false) == hurt_step(h, false),
{
}

/// Law: the counters stay within their reload values.
pub proof fn lemma_flicker_bounded(h: HurtCounters, hit: bool)
    requires
        h.total_remaining <= FLASH_DUR,
        h.flick <= FLICK_DUR,
    ensures
        hurt_step(h, hit).total_remaining <= FLASH_DUR,
        hurt_step(h, hit).flick <= FLICK_DUR,
{
}

} // verus!
