use poke_engine::{
    camera_follow, facing_delta, facing_pressed, lerp_coord, overworld_controller_system,
    snap_entity_to_grid, sync_transform_to_grid, tick_overworld_input_lock, update_held_dirs,
    update_movement_state, Actor, Countdown, DirectionKeys, Facing, GridPos, HeldDirs, KeyState,
    MovementState, OverworldGridSettings, OverworldInputLock, OverworldMap,
    OverworldMovementSettings, Point2, Point3, StepFinished, ALPHA_ONE,
};

const UP: u8 = 1;
const DOWN: u8 = 2;
const LEFT: u8 = 4;
const RIGHT: u8 = 8;

fn key(pressed: bool, just: bool) -> KeyState {
    KeyState { pressed, just_pressed: just }
}

/// Keys down this tick (`held`) and those among them that just went down.
fn keys(held: u8, just: u8) -> DirectionKeys {
    DirectionKeys {
        up: key(held & UP != 0, just & UP != 0),
        down: key(held & DOWN != 0, just & DOWN != 0),
        left: key(held & LEFT != 0, just & LEFT != 0),
        right: key(held & RIGHT != 0, just & RIGHT != 0),
    }
}

fn bordered_map(width: i32, height: i32) -> OverworldMap {
    let mut map = OverworldMap::new(width, height);
    for x in 0..width {
        map.set_tile(x, 0, true, false);
        map.set_tile(x, height - 1, true, false);
    }
    for y in 0..height {
        map.set_tile(0, y, true, false);
        map.set_tile(width - 1, y, true, false);
    }
    map
}

const MS: u64 = 1_000_000;

fn movement() -> OverworldMovementSettings {
    OverworldMovementSettings { step_time: 160 * MS, turn_grace: 80 * MS }
}

fn grid() -> OverworldGridSettings {
    OverworldGridSettings { tile_size: 16 }
}

fn resting(x: i32, y: i32, facing: Facing) -> Actor {
    Actor::new(GridPos { x, y }, facing, Point2 { x: x as i64 * 16, y: y as i64 * 16 })
}

#[test]
fn new_map_is_open_inside_and_blocked_outside() {
    let map = OverworldMap::new(3, 2);
    assert!(!map.is_blocked(0, 0));
    assert!(!map.is_blocked(2, 1));
    assert!(map.is_blocked(3, 0));
    assert!(map.is_blocked(-1, 0));
    assert!(map.is_blocked(0, 2));
    assert!(!map.is_encounter(1, 1));
    assert!(map.in_bounds(2, 1));
    assert!(!map.in_bounds(2, 2));
}

#[test]
fn set_tile_changes_one_cell_only() {
    let mut map = OverworldMap::new(4, 4);
    map.set_tile(1, 2, true, true);
    assert!(map.is_blocked(1, 2));
    assert!(map.is_encounter(1, 2));
    assert!(!map.is_blocked(2, 1));
    assert!(!map.is_encounter(2, 1));
    map.set_tile(9, 9, true, true);
    assert!(!map.is_encounter(9, 9));
    map.set_tile(1, 2, false, false);
    assert!(!map.is_blocked(1, 2));
}

#[test]
fn deltas_of_each_direction() {
    assert_eq!(facing_delta(Facing::North), (0, 1));
    assert_eq!(facing_delta(Facing::South), (0, -1));
    assert_eq!(facing_delta(Facing::East), (1, 0));
    assert_eq!(facing_delta(Facing::West), (-1, 0));
}

#[test]
fn facing_pressed_reads_the_matching_arrow() {
    let k = keys(LEFT, 0);
    assert!(facing_pressed(&k, Facing::West));
    assert!(!facing_pressed(&k, Facing::East));
}

#[test]
fn most_recent_press_wins_and_release_falls_back() {
    let mut held = HeldDirs::new();
    assert_eq!(held.active(), None);
    update_held_dirs(&keys(UP, UP), &mut held);
    assert_eq!(held.active(), Some(Facing::North));
    update_held_dirs(&keys(UP | RIGHT, RIGHT), &mut held);
    assert_eq!(held.active(), Some(Facing::East));
    update_held_dirs(&keys(UP, 0), &mut held);
    assert_eq!(held.active(), Some(Facing::North));
    update_held_dirs(&keys(0, 0), &mut held);
    assert_eq!(held.active(), None);
}

#[test]
fn released_direction_leaves_from_any_position() {
    let mut held = HeldDirs::new();
    update_held_dirs(&keys(UP, UP), &mut held);
    update_held_dirs(&keys(UP | LEFT, LEFT), &mut held);
    update_held_dirs(&keys(UP | LEFT | DOWN, DOWN), &mut held);
    update_held_dirs(&keys(UP | DOWN, 0), &mut held);
    assert_eq!(held.active(), Some(Facing::South));
    update_held_dirs(&keys(UP, 0), &mut held);
    assert_eq!(held.active(), Some(Facing::North));
}

#[test]
fn countdown_stops_at_its_duration() {
    let mut t = Countdown::new(100);
    t.tick(40);
    assert_eq!(t.elapsed, 40);
    assert!(!t.finished && !t.just_finished);
    t.tick(80);
    assert_eq!(t.elapsed, 100);
    assert!(t.finished && t.just_finished);
    t.tick(10);
    assert!(t.finished && !t.just_finished);
}

#[test]
fn zero_length_countdown_finishes_on_first_tick() {
    let mut t = Countdown::new(0);
    assert!(!t.finished);
    t.tick(0);
    assert!(t.just_finished);
}

#[test]
fn interpolation_values() {
    assert_eq!(lerp_coord(0, 100, 0, 4), 0);
    assert_eq!(lerp_coord(0, 100, 1, 4), 25);
    assert_eq!(lerp_coord(0, 100, 4, 4), 100);
    assert_eq!(lerp_coord(100, 0, 1, 3), 67);
    assert_eq!(lerp_coord(-10, 10, 1, 2), 0);
    assert_eq!(lerp_coord(5, 9, 0, 0), 9);
    assert_eq!(lerp_coord(i64::MIN, i64::MAX, u64::MAX, u64::MAX), i64::MAX);
}

#[test]
fn interpolation_is_monotonic_and_on_the_segment() {
    let mut last = lerp_coord(32, 48, 0, 160);
    for e in 1..=160u64 {
        let p = lerp_coord(32, 48, e, 160);
        assert!(p >= last && p >= 32 && p <= 48);
        last = p;
    }
    assert_eq!(last, 48);
}

fn tick(
    map: &OverworldMap,
    lock: &mut Option<OverworldInputLock>,
    held: &mut HeldDirs,
    actors: &mut Vec<Actor>,
    k: &DirectionKeys,
    dt: u64,
) -> Vec<StepFinished> {
    tick_overworld_input_lock(lock, dt);
    let events = update_movement_state(lock, actors, dt);
    let mut player = actors[0];
    overworld_controller_system(dt, k, map, lock, &grid(), &movement(), held, &mut player);
    actors[0] = player;
    events
}

#[test]
fn turning_does_not_move() {
    let map = bordered_map(10, 8);
    for (mask, dir) in [(UP, Facing::North), (LEFT, Facing::West), (RIGHT, Facing::East)] {
        let mut held = HeldDirs::new();
        let mut actor = resting(2, 2, Facing::South);
        overworld_controller_system(
            20 * MS,
            &keys(mask, mask),
            &map,
            &None,
            &grid(),
            &movement(),
            &mut held,
            &mut actor,
        );
        assert_eq!(actor.facing, dir);
        assert!(matches!(actor.state, MovementState::TurnGrace(g) if g.dir == dir));
        assert_eq!(actor.pos, GridPos { x: 2, y: 2 });
    }
}

#[test]
fn facing_direction_steps_at_once() {
    let map = bordered_map(10, 8);
    let mut held = HeldDirs::new();
    let mut actor = resting(2, 2, Facing::East);
    overworld_controller_system(
        20 * MS,
        &keys(RIGHT, RIGHT),
        &map,
        &None,
        &grid(),
        &movement(),
        &mut held,
        &mut actor,
    );
    assert_eq!(actor.pos, GridPos { x: 3, y: 2 });
    match actor.state {
        MovementState::Tweening(t) => {
            assert_eq!(t.from, Point2 { x: 32, y: 32 });
            assert_eq!(t.to, Point2 { x: 48, y: 32 });
        }
        _ => panic!("expected a tween"),
    }
    assert_eq!(actor.translation, Point2 { x: 32, y: 32 });
}

#[test]
fn bumping_into_a_wall_changes_nothing() {
    let map = bordered_map(10, 8);
    let mut held = HeldDirs::new();
    let mut actor = resting(1, 1, Facing::West);
    let before = actor;
    overworld_controller_system(
        20 * MS,
        &keys(LEFT, LEFT),
        &map,
        &None,
        &grid(),
        &movement(),
        &mut held,
        &mut actor,
    );
    assert_eq!(actor, before);
}

#[test]
fn releasing_during_grace_cancels_the_turn() {
    let map = bordered_map(10, 8);
    let mut lock = None;
    let mut held = HeldDirs::new();
    let mut actors = vec![resting(2, 2, Facing::South)];
    tick(&map, &mut lock, &mut held, &mut actors, &keys(UP, UP), 20 * MS);
    tick(&map, &mut lock, &mut held, &mut actors, &keys(UP, 0), 20 * MS);
    tick(&map, &mut lock, &mut held, &mut actors, &keys(0, 0), 20 * MS);
    assert_eq!(actors[0].state, MovementState::Idle);
    assert_eq!(actors[0].pos, GridPos { x: 2, y: 2 });
    assert_eq!(actors[0].facing, Facing::North);
}

#[test]
fn grace_survives_another_direction_being_pressed() {
    let map = bordered_map(10, 8);
    let mut lock = None;
    let mut held = HeldDirs::new();
    let mut actors = vec![resting(2, 2, Facing::South)];
    tick(&map, &mut lock, &mut held, &mut actors, &keys(UP, UP), 20 * MS);
    tick(&map, &mut lock, &mut held, &mut actors, &keys(UP | RIGHT, RIGHT), 20 * MS);
    assert!(matches!(actors[0].state, MovementState::TurnGrace(g) if g.dir == Facing::North));
    tick(&map, &mut lock, &mut held, &mut actors, &keys(UP | RIGHT, 0), 60 * MS);
    assert_eq!(actors[0].pos, GridPos { x: 2, y: 3 });
    assert_eq!(actors[0].facing, Facing::North);
}

#[test]
fn step_to_north_end_to_end() {
    let map = bordered_map(10, 8);
    let mut lock = None;
    let mut held = HeldDirs::new();
    let mut actors = vec![resting(2, 2, Facing::South)];
    let mut events = Vec::new();
    events.extend(tick(&map, &mut lock, &mut held, &mut actors, &keys(UP, UP), 20 * MS));
    assert!(matches!(actors[0].state, MovementState::TurnGrace(_)));
    for _ in 0..4 {
        events.extend(tick(&map, &mut lock, &mut held, &mut actors, &keys(UP, 0), 20 * MS));
    }
    assert_eq!(actors[0].pos, GridPos { x: 2, y: 3 });
    assert!(matches!(actors[0].state, MovementState::Tweening(_)));
    assert_eq!(actors[0].translation, Point2 { x: 32, y: 32 });
    for i in 0..8 {
        events.extend(update_movement_state(&lock, &mut actors, 20 * MS));
        if i < 7 {
            assert!(actors[0].translation.y < 48);
        }
    }
    assert_eq!(actors[0].facing, Facing::North);
    assert_eq!(actors[0].pos, GridPos { x: 2, y: 3 });
    assert_eq!(actors[0].state, MovementState::Idle);
    assert_eq!(actors[0].translation, Point2 { x: 2 * 16, y: 3 * 16 });
    assert_eq!(events, vec![StepFinished { entity: 0 }]);
}

#[test]
fn tween_position_halfway() {
    let mut actors = vec![resting(2, 2, Facing::East)];
    actors[0].pos = GridPos { x: 3, y: 2 };
    actors[0].state = MovementState::Tweening(poke_engine::MoveTween {
        from: Point2 { x: 32, y: 32 },
        to: Point2 { x: 48, y: 32 },
        timer: Countdown::new(160 * MS),
    });
    let events = update_movement_state(&None, &mut actors, 80 * MS);
    assert!(events.is_empty());
    assert_eq!(actors[0].translation, Point2 { x: 40, y: 32 });
    let events = update_movement_state(&None, &mut actors, 200 * MS);
    assert_eq!(events, vec![StepFinished { entity: 0 }]);
    assert_eq!(actors[0].translation, Point2 { x: 48, y: 32 });
}

#[test]
fn one_notification_per_completed_tween() {
    let tween = |from: i64, to: i64, d: u64| {
        let mut a = resting(0, 0, Facing::East);
        a.state = MovementState::Tweening(poke_engine::MoveTween {
            from: Point2 { x: from, y: 0 },
            to: Point2 { x: to, y: 0 },
            timer: Countdown::new(d),
        });
        a
    };
    let mut actors = vec![tween(0, 16, 10), resting(5, 5, Facing::North), tween(0, 16, 100), tween(16, 0, 5)];
    let events = update_movement_state(&None, &mut actors, 10);
    assert_eq!(events, vec![StepFinished { entity: 0 }, StepFinished { entity: 3 }]);
    assert_eq!(actors[3].translation, Point2 { x: 0, y: 0 });
    assert!(matches!(actors[2].state, MovementState::Tweening(_)));
    let events = update_movement_state(&None, &mut actors, 10);
    assert!(events.is_empty());
}

#[test]
fn input_lock_freezes_movement_until_it_expires() {
    let map = bordered_map(10, 8);
    let mut lock = Some(OverworldInputLock::new(50 * MS));
    let mut held = HeldDirs::new();
    let mut actors = vec![resting(2, 2, Facing::North)];
    let start = actors[0];
    tick(&map, &mut lock, &mut held, &mut actors, &keys(UP, UP), 20 * MS);
    tick(&map, &mut lock, &mut held, &mut actors, &keys(UP, 0), 20 * MS);
    assert!(lock.is_some());
    assert_eq!(actors[0], start);
    assert_eq!(held.active(), None);
    tick(&map, &mut lock, &mut held, &mut actors, &keys(UP, 0), 20 * MS);
    assert!(lock.is_none());
}

#[test]
fn lock_tick_counts_down_and_removes() {
    let mut lock = Some(OverworldInputLock::new(30));
    tick_overworld_input_lock(&mut lock, 10);
    assert_eq!(lock.unwrap().timer.elapsed, 10);
    tick_overworld_input_lock(&mut lock, 20);
    assert!(lock.is_none());
    tick_overworld_input_lock(&mut lock, 20);
    assert!(lock.is_none());
}

#[test]
fn locked_tween_does_not_advance() {
    let mut actors = vec![resting(2, 2, Facing::East)];
    actors[0].state = MovementState::Tweening(poke_engine::MoveTween {
        from: Point2 { x: 32, y: 32 },
        to: Point2 { x: 48, y: 32 },
        timer: Countdown::new(10),
    });
    let before = actors.clone();
    let events = update_movement_state(&Some(OverworldInputLock::new(100)), &mut actors, 50);
    assert!(events.is_empty());
    assert_eq!(actors, before);
}

#[test]
fn snapping_is_idempotent() {
    let mut actor = resting(4, 5, Facing::West);
    actor.translation = Point2 { x: 3, y: -7 };
    actor.state = MovementState::Tweening(poke_engine::MoveTween {
        from: Point2 { x: 3, y: -7 },
        to: Point2 { x: 64, y: 80 },
        timer: Countdown::new(10),
    });
    snap_entity_to_grid(&grid(), &mut actor);
    let once = actor;
    snap_entity_to_grid(&grid(), &mut actor);
    assert_eq!(actor, once);
    assert_eq!(actor.translation, Point2 { x: 64, y: 80 });
    assert_eq!(actor.state, MovementState::Idle);
}

#[test]
fn sync_snaps_every_actor_and_needs_settings() {
    let mut a = resting(1, 1, Facing::North);
    a.state = MovementState::TurnGrace(poke_engine::TurnGrace {
        dir: Facing::North,
        timer: Countdown::new(5),
    });
    a.translation = Point2 { x: 0, y: 0 };
    let mut actors = vec![a, resting(-3, 2, Facing::South)];
    actors[1].translation = Point2 { x: 1, y: 1 };
    let before = actors.clone();
    sync_transform_to_grid(None, &mut actors);
    assert_eq!(actors, before);
    sync_transform_to_grid(Some(&grid()), &mut actors);
    assert_eq!(actors[0].translation, Point2 { x: 16, y: 16 });
    assert_eq!(actors[0].state, MovementState::Idle);
    assert_eq!(actors[1].translation, Point2 { x: -48, y: 32 });
    let once = actors.clone();
    sync_transform_to_grid(Some(&grid()), &mut actors);
    assert_eq!(actors, once);
}

#[test]
fn camera_snaps_without_smoothing_and_keeps_depth() {
    let mut cam = Point3 { x: 0, y: 0, z: 999 };
    camera_follow(&mut cam, Some(Point3 { x: 40, y: -8, z: 10 }), None);
    assert_eq!(cam, Point3 { x: 40, y: -8, z: 999 });
}

#[test]
fn camera_without_target_stays() {
    let mut cam = Point3 { x: 1, y: 2, z: 3 };
    camera_follow(&mut cam, None, Some(ALPHA_ONE / 2));
    assert_eq!(cam, Point3 { x: 1, y: 2, z: 3 });
}

#[test]
fn camera_error_shrinks_geometrically() {
    let mut cam = Point3 { x: 0, y: 1024, z: 7 };
    let target = Point3 { x: 1024, y: 0, z: 0 };
    let mut gaps = Vec::new();
    for _ in 0..4 {
        camera_follow(&mut cam, Some(target), Some(ALPHA_ONE / 2));
        gaps.push(1024 - cam.x);
        assert_eq!(cam.y, 1024 - cam.x);
    }
    assert_eq!(gaps, vec![512, 256, 128, 64]);
    assert_eq!(cam.z, 7);
    let mut c = Point3 { x: 0, y: 0, z: 0 };
    camera_follow(&mut c, Some(target), Some(ALPHA_ONE));
    assert_eq!(c.x, 1024);
    camera_follow(&mut c, Some(Point3 { x: 5000, y: 0, z: 0 }), Some(0));
    assert_eq!(c.x, 1024);
}
