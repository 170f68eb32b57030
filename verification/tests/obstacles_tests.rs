use dino_run::fx::FX_ONE;
use dino_run::obstacles::{
    despawn_passed, obstacle_spawner, should_despawn, update_obstacle, update_obstacles,
    Obstacle, ObstacleEvent, SpawnObstacle, DESPAWN_X, OBSTACLE_HEIGHT, OBSTACLE_RADIUS, SPAWN_X,
};

#[test]
fn spawner_builds_the_obstacle_and_palette_index() {
    let (o, idx) = obstacle_spawner(&SpawnObstacle { count: 35 });
    assert_eq!(o.x, SPAWN_X);
    assert_eq!(o.radius, OBSTACLE_RADIUS);
    assert_eq!(o.height, OBSTACLE_HEIGHT);
    assert!(!o.scored);
    assert_eq!(idx, 35 % 16);
}

#[test]
fn low_player_is_hit_exactly_once() {
    let (mut o, _) = obstacle_spawner(&SpawnObstacle { count: 0 });
    let motion = FX_ONE / 2; // 0.5 units per tick
    let player_z = 0;
    let mut events = Vec::new();
    for _ in 0..100 {
        if let Some(e) = update_obstacle(&mut o, player_z, motion) {
            events.push(e);
        }
    }
    assert_eq!(events, vec![ObstacleEvent::Hit], "exactly one event, a hit, ever");
    assert!(o.scored);
}

#[test]
fn airborne_player_scores_exactly_once() {
    let (mut o, _) = obstacle_spawner(&SpawnObstacle { count: 0 });
    let motion = FX_ONE / 2;
    let player_z = 2 * FX_ONE; // well above the obstacle's height
    let mut events = Vec::new();
    for _ in 0..100 {
        if let Some(e) = update_obstacle(&mut o, player_z, motion) {
            events.push(e);
        }
    }
    assert_eq!(events, vec![ObstacleEvent::Score], "exactly one event, a score, ever");
    assert!(o.scored);
    assert!(o.x < DESPAWN_X, "long gone past the camera by now");
}

#[test]
fn hit_fires_the_tick_the_threshold_is_crossed() {
    let mut o = Obstacle { x: OBSTACLE_RADIUS, radius: OBSTACLE_RADIUS, height: OBSTACLE_HEIGHT, scored: false };
    // Position updates before the test: one tick of motion 1 brings |x|
    // strictly under the radius and the low player is hit immediately.
    let ev = update_obstacle(&mut o, 0, 1);
    assert_eq!(ev, Some(ObstacleEvent::Hit));
    assert_eq!(o.x, OBSTACLE_RADIUS - 1);
}

#[test]
fn score_fires_the_tick_the_plane_is_crossed() {
    let mut o = Obstacle { x: 0, radius: 750_000, height: 1_250_000, scored: false };
    let ev = update_obstacle(&mut o, 2 * FX_ONE, 1);
    assert_eq!(ev, Some(ObstacleEvent::Score));
    assert_eq!(o.x, -1);
}

#[test]
fn update_obstacles_reports_in_order() {
    let mut v = vec![
        Obstacle { x: 500_000, radius: 750_000, height: 1_250_000, scored: false },
        Obstacle { x: 10 * FX_ONE, radius: 750_000, height: 1_250_000, scored: false },
        Obstacle { x: 0, radius: 750_000, height: 1_250_000, scored: true },
        Obstacle { x: 1_000_000, radius: 750_000, height: 1_250_000, scored: false },
    ];
    // Low player: the first obstacle hits; the far one just scrolls; the
    // scored one stays quiet; the last crosses the plane and scores... but a
    // low player inside its radius is a hit first.
    let events = update_obstacles(&mut v, 0, 1_000_000);
    assert_eq!(events, vec![ObstacleEvent::Hit, ObstacleEvent::Hit]);
    assert_eq!(v[0].x, 500_000 - 1_000_000);
    assert!(v[0].scored);
    assert_eq!(v[1].x, 9 * FX_ONE);
    assert!(!v[1].scored);
    assert!(v[2].scored);
    assert_eq!(v[3].x, 0);
    assert!(v[3].scored);
}

#[test]
fn no_obstacles_no_events() {
    let mut v: Vec<Obstacle> = Vec::new();
    let events = update_obstacles(&mut v, 0, FX_ONE);
    assert!(events.is_empty());
    assert!(v.is_empty());
}

#[test]
fn despawn_keeps_order_and_threshold() {
    let near = Obstacle { x: 0, radius: 1, height: 1, scored: true };
    let far = Obstacle { x: DESPAWN_X - 1, radius: 1, height: 1, scored: false };
    let edge = Obstacle { x: DESPAWN_X, radius: 1, height: 1, scored: true };
    assert!(!should_despawn(&near));
    assert!(should_despawn(&far));
    assert!(!should_despawn(&edge), "exactly at the threshold stays");
    let mut v = vec![near, far, edge];
    despawn_passed(&mut v);
    assert_eq!(v.len(), 2);
    assert_eq!(v[0].x, near.x);
    assert_eq!(v[1].x, edge.x);
}
