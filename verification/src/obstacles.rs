//! The encounter engine: a jittered spawn timer with a monotonically
//! increasing sequence count, scrolling obstacles, hit/pass scoring with
//! one-shot events, and despawning of obstacles well past the camera.

use vstd::prelude::*;
use vstd::arithmetic::div_mod::{
    lemma_div_is_ordered, lemma_fundamental_div_mod_converse,
};
use vstd::arithmetic::mul::lemma_mul_inequality;
use crate::fx::{fx_mul, fx_mul_v, lemma_mul_range, FX_HALF, FX_ONE};
use crate::gait::ELAPSED_LIM;
use crate::rng::draw_unit;

verus! {

/// Average spacing between spawns, in micro-seconds.
pub const OBSTACLE_DELAY: i64 = 2 * FX_ONE;

/// Forward position at which an obstacle spawns.
pub const SPAWN_X: i64 = 15 * FX_ONE;

/// Collision radius of a spawned obstacle.
pub const OBSTACLE_RADIUS: i64 = 750_000;

/// Height the player must clear over a spawned obstacle.
pub const OBSTACLE_HEIGHT: i64 = 1_250_000;

/// Obstacles that scroll past this position are removed.
pub const DESPAWN_X: i64 = -7 * FX_ONE;

/// Number of palette entries the sequence count is folded onto.
pub const COLOR_COUNT: u32 = 16;

/// Magnitude bound on obstacle positions and scroll steps.
pub const SCROLL_LIM: i64 = 4_000_000_000_000;

/// The spawn timer: when the next obstacle is due and how many came before.
pub struct ObstacleTimer {
    pub next: i64,
    pub count: u32,
}

/// A request to create one obstacle, carrying its sequence count.
pub struct SpawnObstacle {
    pub count: u32,
}

/// What a scoring tick reports for one obstacle.
#[derive(Clone, Copy, PartialEq, Eq, Structural, Debug)]
pub enum ObstacleEvent {
    /// The player ran into the obstacle.
    Hit,
    /// The obstacle passed the player's plane untouched.
    Score,
}

/// A scrolling obstacle: forward position, collision extent, clearance
/// height, and the one-shot `scored` flag.
#[derive(Clone, Copy, PartialEq, Eq, Structural, Debug)]
pub struct Obstacle {
    pub x: i64,
    pub radius: i64,
    pub height: i64,
    pub scored: bool,
}

impl ObstacleTimer {
    /// The timer at session start: the first spawn is due one second after
    /// the given elapsed time, and the sequence starts at zero.
    pub fn new(elapsed: i64) -> (t: ObstacleTimer)
        requires
            0 <= elapsed <= ELAPSED_LIM,
        ensures
            t.next == elapsed + FX_ONE,
            t.count == 0,
    {
        ObstacleTimer { next: elapsed + FX_ONE, count: 0 }
    }
}

/// One fixed tick of the spawn timer with the random sample `r` injected.
///
/// If the elapsed time has reached `next`, a spawn event carrying the
/// current sequence count is emitted, the count increments by exactly one,
/// and the next due time moves ahead by `OBSTACLE_DELAY · (1 + (r - ½))` —
/// so every emitted interval lies in `[½·DELAY, 1½·DELAY]`. Otherwise
/// nothing changes.
pub fn schedule_spawn(timer: &mut ObstacleTimer, t: i64, r: i64) -> (ev: Option<SpawnObstacle>)
    requires
        0 <= t <= ELAPSED_LIM,
        0 <= r < FX_ONE,
        old(timer).count < u32::MAX,
    ensures
        t < old(timer).next ==> ev is None && *final(timer) == *old(timer),
        t >= old(timer).next ==> {
            &&& ev == Some(SpawnObstacle { count: old(timer).count })
            &&& final(timer).count == old(timer).count + 1
            &&& final(timer).next == t + OBSTACLE_DELAY + fx_mul_v(
                r - FX_HALF,
                OBSTACLE_DELAY as int,
            )
            &&& t + 1_000_000 <= final(timer).next <= t + 3_000_000
        },
{
    if t >= timer.next {
        let ev = SpawnObstacle { count: timer.count };
        proof {
            lemma_mul_range(
                r as int - FX_HALF,
                FX_HALF as int,
                OBSTACLE_DELAY as int,
                OBSTACLE_DELAY as int,
            );
            lemma_mul_inequality(r as int - FX_HALF, 499_999, OBSTACLE_DELAY as int);
            lemma_fundamental_div_mod_converse(-1_000_000_000_000, 1_000_000, -1_000_000, 0);
            lemma_fundamental_div_mod_converse(999_998_000_000, 1_000_000, 999_998, 0);
            lemma_div_is_ordered(
                -1_000_000_000_000,
                (r as int - FX_HALF) * OBSTACLE_DELAY as int,
                FX_ONE as int,
            );
            lemma_div_is_ordered(
                (r as int - FX_HALF) * OBSTACLE_DELAY as int,
                999_998_000_000,
                FX_ONE as int,
            );
        }
        let jitter = fx_mul(r - FX_HALF, OBSTACLE_DELAY);
        timer.next = t + OBSTACLE_DELAY + jitter;
        timer.count = timer.count + 1;
        Some(ev)
    } else {
        None
    }
}

/// One fixed tick of the spawn timer, drawing its jitter sample from the
/// given random stream. The interval bounds and the sequence count behave
/// as in [`schedule_spawn`], whatever the stream returns.
pub fn obstacle_spawn_timing(timer: &mut ObstacleTimer, t: i64, rng: &mut fastrand::Rng) -> (ev:
    Option<SpawnObstacle>)
    requires
        0 <= t <= ELAPSED_LIM,
        old(timer).count < u32::MAX,
    ensures
        t < old(timer).next ==> ev is None && *final(timer) == *old(timer),
        t >= old(timer).next ==> {
            &&& ev == Some(SpawnObstacle { count: old(timer).count })
            &&& final(timer).count == old(timer).count + 1
            &&& t + 1_000_000 <= final(timer).next <= t + 3_000_000
        },
{
    if t >= timer.next {
        let r = draw_unit(rng);
        schedule_spawn(timer, t, r)
    } else {
        None
    }
}

/// The obstacle created for a spawn event, and the palette index its
/// sequence count picks.
pub fn obstacle_spawner(event: &SpawnObstacle) -> (r: (Obstacle, u32))
    ensures
        r.0 == (Obstacle {
            x: SPAWN_X,
            radius: OBSTACLE_RADIUS,
            height: OBSTACLE_HEIGHT,
            scored: false,
        }),
        r.1 == event.count as int % (COLOR_COUNT as int),
        r.1 < COLOR_COUNT,
{
    let obstacle = Obstacle {
        x: SPAWN_X,
        radius: OBSTACLE_RADIUS,
        height: OBSTACLE_HEIGHT,
        scored: false,
    };
    (obstacle, event.count % COLOR_COUNT)
}

/// The event one scoring tick emits for an obstacle whose position has just
/// moved to `x`: a hit if the player overlaps it below its height, else a
/// score the moment it is past the player's plane — and nothing, ever, once
/// it has been scored.
pub open spec fn step_event(o: Obstacle, player_z: int, motion: int) -> Option<ObstacleEvent> {
    let x: int = o.x - motion;
    if o.scored {
        None
    } else if (if x >= 0 {
        x
    } else {
        -x
    }) < o.radius && player_z < o.height {
        Some(ObstacleEvent::Hit)
    } else if x < 0 {
        Some(ObstacleEvent::Score)
    } else {
        None
    }
}

/// One fixed scoring tick for one obstacle: scroll it left by `motion`,
/// then test hit and pass. The position update precedes the test, the
/// radius and height never change, `scored` is one-shot, and an unscored
/// obstacle is never behind the player's plane.
pub fn update_obstacle(o: &mut Obstacle, player_z: i64, motion: i64) -> (ev: Option<
    ObstacleEvent,
>)
    requires
        -SCROLL_LIM <= old(o).x <= SCROLL_LIM,
        0 <= motion <= SCROLL_LIM,
        0 <= old(o).radius,
    ensures
        final(o).x == old(o).x - motion,
        final(o).radius == old(o).radius,
        final(o).height == old(o).height,
        ev == step_event(*old(o), player_z as int, motion as int),
        final(o).scored == (old(o).scored || ev is Some),
        old(o).scored ==> ev is None,
        !final(o).scored ==> final(o).x >= 0,
{
    o.x = o.x - motion;
    if o.scored {
        None
    } else if (if o.x >= 0 {
        o.x
    } else {
        -o.x
    }) < o.radius && player_z < o.height {
        o.scored = true;
        Some(ObstacleEvent::Hit)
    } else if o.x < 0 {
        o.scored = true;
        Some(ObstacleEvent::Score)
    } else {
        None
    }
}

/// An obstacle's whole life under a sequence of scoring ticks, each a
/// `(player_z, motion)` pair: final position, final `scored` flag, and how
/// many events were emitted in total.
pub open spec fn obstacle_run(
    x: int,
    scored: bool,
    radius: int,
    height: int,
    inputs: Seq<(int, int)>,
) -> (int, bool, int)
    decreases inputs.len(),
{
    if inputs.len() == 0 {
        (x, scored, 0)
    } else {
        let prev = obstacle_run(x, scored, radius, height, inputs.drop_last());
        let pz: int = inputs.last().0;
        let m: int = inputs.last().1;
        let x1: int = prev.0 - m;
        if prev.1 {
            (x1, true, prev.2)
        } else if (if x1 >= 0 {
            x1
        } else {
            -x1
        }) < radius && pz < height {
            (x1, true, prev.2 + 1)
        } else if x1 < 0 {
            (x1, true, prev.2 + 1)
        } else {
            (x1, false, prev.2)
        }
    }
}

/// Law: scoring is at-most-once, and exactly-once by the time the obstacle
/// is behind the player. Over any sequence of scoring ticks, an obstacle
/// spawned unscored at a nonnegative position emits at most one event in
/// its whole life; it emits exactly one if and only if its `scored` flag is
/// set; and once its position is negative, the event has been emitted.
pub proof fn lemma_at_most_once_scoring(
    x: int,
    radius: int,
    height: int,
    inputs: Seq<(int, int)>,
)
    requires
        x >= 0,
    ensures
        ({
            let r = obstacle_run(x, false, radius, height, inputs);
            &&& 0 <= r.2 <= 1
            &&& (r.1 <==> r.2 == 1)
            &&& (r.0 < 0 ==> r.2 == 1)
        }),
    decreases inputs.len(),
{
    if inputs.len() == 0 {
    } else {
        lemma_at_most_once_scoring(x, radius, height, inputs.drop_last());
    }
}

/// One tick of [`obstacle_run`] is exactly one [`update_obstacle`] step:
/// the position scrolls, the flag absorbs the event, and the run counts an
/// emission exactly when the step emits one.
pub proof fn lemma_run_matches_step(o: Obstacle, pz: int, m: int)
    ensures
        ({
            let r = obstacle_run(
                o.x as int,
                o.scored,
                o.radius as int,
                o.height as int,
                seq![(pz, m)],
            );
            &&& r.0 == o.x - m
            &&& r.1 == (o.scored || step_event(o, pz, m) is Some)
            &&& r.2 == if step_event(o, pz, m) is Some {
                1int
            } else {
                0int
            }
        }),
{
    let s = seq![(pz, m)];
    assert(s.drop_last() =~= Seq::<(int, int)>::empty());
    assert(s.last() == (pz, m));
    assert(obstacle_run(o.x as int, o.scored, o.radius as int, o.height as int, s.drop_last())
        == (o.x as int, o.scored, 0int));
    assert(obstacle_run(o.x as int, o.scored, o.radius as int, o.height as int, s)
        == obstacle_run(o.x as int, o.scored, o.radius as int, o.height as int, seq![(pz, m)]));
}

/// All scoring ticks for one frame: every live obstacle scrolls left by
/// `motion` and is then tested, in order; the events come back in obstacle
/// order.
pub open spec fn events_of(s: Seq<Obstacle>, player_z: int, motion: int) -> Seq<ObstacleEvent>
    decreases s.len(),
{
    if s.len() == 0 {
        Seq::empty()
    } else {
        events_of(s.drop_last(), player_z, motion) + (match step_event(
            s.last(),
            player_z,
            motion,
        ) {
            Some(e) => seq![e],
            None => Seq::empty(),
        })
    }
}

/// One fixed scoring tick over all live obstacles.
pub fn update_obstacles(obstacles: &mut Vec<Obstacle>, player_z: i64, motion: i64) -> (events:
    Vec<ObstacleEvent>)
    requires
        0 <= motion <= SCROLL_LIM,
        forall|i: int|
            0 <= i < old(obstacles)@.len() ==> -SCROLL_LIM <= (#[trigger] old(
                obstacles,
            )@[i]).x <= SCROLL_LIM && 0 <= old(obstacles)@[i].radius,
    ensures
        final(obstacles)@.len() == old(obstacles)@.len(),
        forall|i: int|
            0 <= i < old(obstacles)@.len() ==> (#[trigger] final(obstacles)@[i]) == (Obstacle {
                x: (old(obstacles)@[i].x - motion) as i64,
                radius: old(obstacles)@[i].radius,
                height: old(obstacles)@[i].height,
                scored: old(obstacles)@[i].scored || step_event(
                    old(obstacles)@[i],
                    player_z as int,
                    motion as int,
                ) is Some,
            }),
        events@ == events_of(old(obstacles)@, player_z as int, motion as int),
{
    let ghost orig = obstacles@;
    let mut events: Vec<ObstacleEvent> = Vec::new();
    let mut idx: usize = 0;
    while idx < obstacles.len()
        invariant
            0 <= idx <= orig.len(),
            obstacles@.len() == orig.len(),
            0 <= motion <= SCROLL_LIM,
            forall|i: int|
                idx <= i < orig.len() ==> (#[trigger] obstacles@[i]) == orig[i],
            forall|i: int|
                0 <= i < orig.len() ==> -SCROLL_LIM <= (#[trigger] orig[i]).x <= SCROLL_LIM && 0
                    <= orig[i].radius,
            forall|i: int|
                0 <= i < idx ==> (#[trigger] obstacles@[i]) == (Obstacle {
                    x: (orig[i].x - motion) as i64,
                    radius: orig[i].radius,
                    height: orig[i].height,
                    scored: orig[i].scored || step_event(
                        orig[i],
                        player_z as int,
                        motion as int,
                    ) is Some,
                }),
            events@ == events_of(orig.take(idx as int), player_z as int, motion as int),
        decreases orig.len() - idx,
    {
        let mut o = obstacles[idx];
        let ev = update_obstacle(&mut o, player_z, motion);
        obstacles.set(idx, o);
        if let Some(e) = ev {
            events.push(e);
        }
        proof {
            assert(orig.take(idx as int + 1).drop_last() =~= orig.take(idx as int));
            assert(orig.take(idx as int + 1).last() == orig[idx as int]);
            if step_event(orig[idx as int], player_z as int, motion as int) is Some {
                assert(events@ =~= events_of(
                    orig.take(idx as int + 1),
                    player_z as int,
                    motion as int,
                ));
            } else {
                assert(events@ =~= events_of(
                    orig.take(idx as int + 1),
                    player_z as int,
                    motion as int,
                ));
            }
        }
        idx = idx + 1;
    }
    proof {
        assert(orig.take(orig.len() as int) =~= orig);
    }
    events
}

/// Whether an obstacle has scrolled far enough past the camera to be
/// removed, scored or not.
pub fn should_despawn(o: &Obstacle) -> (r: bool)
    ensures
        r == (o.x < DESPAWN_X),
{
    o.x < DESPAWN_X
}

/// Removes every obstacle past the despawn threshold, keeping the rest in
/// order.
pub fn despawn_passed(obstacles: &mut Vec<Obstacle>)
    ensures
        final(obstacles)@ == old(obstacles)@.filter(|o: Obstacle| o.x >= DESPAWN_X),
{
    let ghost orig = obstacles@;
    let mut kept: Vec<Obstacle> = Vec::new();
    let mut idx: usize = 0;
    while idx < obstacles.len()
        invariant
            0 <= idx <= orig.len(),
            obstacles@ == orig,
            kept@ == orig.take(idx as int).filter(|o: Obstacle| o.x >= DESPAWN_X),
        decreases orig.len() - idx,
    {
        let o = obstacles[idx];
        proof {
            reveal(Seq::filter);
            assert(orig.take(idx as int + 1).drop_last() =~= orig.take(idx as int));
            assert(orig.take(idx as int + 1).last() == orig[idx as int]);
        }
        if o.x >= DESPAWN_X {
            kept.push(o);
        }
        idx = idx + 1;
    }
    proof {
        assert(orig.take(orig.len() as int) =~= orig);
    }
    *obstacles = kept;
}

} // verus!
