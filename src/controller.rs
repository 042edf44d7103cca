use vstd::prelude::*;

use crate::components::{
    Actor, Facing, GridPos, MoveTween, MovementState, OverworldGridSettings, OverworldInputLock,
    OverworldMovementSettings, TurnGrace,
};
use crate::geometry::Point2;
use crate::input::{
    facing_delta, facing_delta_spec, facing_pressed, front, held_after, key_for, update_held_dirs,
    DirectionKeys, HeldDirs,
};
use crate::map::OverworldMap;
use crate::timer::Countdown;

verus! {

/// The visual position of the origin corner of cell `pos`.
pub open spec fn grid_to_units(pos: GridPos, tile_size: u32) -> Point2 {
    Point2 { x: (pos.x * tile_size) as i64, y: (pos.y * tile_size) as i64 }
}

/// `grid_to_units`, computed.
pub fn grid_translation(pos: GridPos, grid: &OverworldGridSettings) -> (r: Point2)
    ensures
        r == grid_to_units(pos, grid.tile_size),
        r.x == pos.x * grid.tile_size,
        r.y == pos.y * grid.tile_size,
{
    let t = grid.tile_size as i64;
    proof {
        assert(-0x8000_0000 * 0xffff_ffff <= pos.x * t <= 0x7fff_ffff * 0xffff_ffff) by (
        nonlinear_arith)
            requires
                -0x8000_0000 <= pos.x <= 0x7fff_ffff,
                0 <= t <= 0xffff_ffff,
        ;
        assert(-0x8000_0000 * 0xffff_ffff <= pos.y * t <= 0x7fff_ffff * 0xffff_ffff) by (
        nonlinear_arith)
            requires
                -0x8000_0000 <= pos.y <= 0x7fff_ffff,
                0 <= t <= 0xffff_ffff,
        ;
    }
    Point2 { x: pos.x as i64 * t, y: pos.y as i64 * t }
}

/// The cell one step from `pos` in `dir`.
pub open spec fn step_target(pos: GridPos, dir: Facing) -> (int, int) {
    (pos.x + facing_delta_spec(dir).0, pos.y + facing_delta_spec(dir).1)
}

/// A move attempt by a resting actor in the direction it faces: into a
/// blocked cell nothing happens; otherwise the cell changes at once and a
/// tween from the current visual position to the new cell starts.
pub open spec fn attempt_move(
    actor: Actor,
    map: OverworldMap,
    grid: OverworldGridSettings,
    movement: OverworldMovementSettings,
) -> Actor {
    let (nx, ny) = step_target(actor.pos, actor.facing);
    if map.blocked_at(nx, ny) {
        actor
    } else {
        let dest = GridPos { x: nx as i32, y: ny as i32 };
        Actor {
            pos: dest,
            state: MovementState::Tweening(
                MoveTween {
                    from: actor.translation,
                    to: grid_to_units(dest, grid.tile_size),
                    timer: Countdown::fresh(movement.step_time),
                },
            ),
            ..actor
        }
    }
}

/// One tick of the movement state machine for an actor, given the active
/// direction of the buffer and the raw keys.
pub open spec fn controller_next(
    actor: Actor,
    active: Option<Facing>,
    keys: DirectionKeys,
    delta: int,
    map: OverworldMap,
    grid: OverworldGridSettings,
    movement: OverworldMovementSettings,
) -> Actor {
    match actor.state {
        MovementState::Tweening(_) => actor,
        MovementState::Idle => match active {
            None => actor,
            Some(d) => if actor.facing != d {
                Actor {
                    facing: d,
                    state: MovementState::TurnGrace(
                        TurnGrace { dir: d, timer: Countdown::fresh(movement.turn_grace) },
                    ),
                    ..actor
                }
            } else {
                attempt_move(actor, map, grid, movement)
            },
        },
        MovementState::TurnGrace(g) => if !key_for(keys, g.dir).pressed {
            Actor { state: MovementState::Idle, ..actor }
        } else if !g.timer.ticked(delta).finished {
            Actor {
                state: MovementState::TurnGrace(TurnGrace { timer: g.timer.ticked(delta), ..g }),
                ..actor
            }
        } else {
            attempt_move(Actor { state: MovementState::Idle, ..actor }, map, grid, movement)
        },
    }
}

fn try_move(
    actor: &mut Actor,
    map: &OverworldMap,
    grid: &OverworldGridSettings,
    movement: &OverworldMovementSettings,
)
    requires
        map.wf(),
        old(actor).state == MovementState::Idle,
    ensures
        *final(actor) == attempt_move(*old(actor), *map, *grid, *movement),
{
    let (dx, dy) = facing_delta(actor.facing);
    let nx = actor.pos.x as i64 + dx as i64;
    let ny = actor.pos.y as i64 + dy as i64;
    if nx < i32::MIN as i64 || nx > i32::MAX as i64 || ny < i32::MIN as i64 || ny > i32::MAX as i64 {
        // beyond the coordinate range, hence outside the map
        return;
    }
    if map.is_blocked(nx as i32, ny as i32) {
        return;
    }
    let dest = GridPos { x: nx as i32, y: ny as i32 };
    let to = grid_translation(dest, grid);
    actor.pos = dest;
    actor.state = MovementState::Tweening(
        MoveTween { from: actor.translation, to, timer: Countdown::new(movement.step_time) },
    );
}

/// One tick of input handling for the player's actor. Under an input lock
/// nothing is read or written. Otherwise the held-direction buffer is
/// updated from `keys`, and the actor turns, waits out its turn grace,
/// or steps, as `controller_next` says; a tweening actor is left alone.
pub fn overworld_controller_system(
    delta: u64,
    keys: &DirectionKeys,
    map: &OverworldMap,
    lock: &Option<OverworldInputLock>,
    grid: &OverworldGridSettings,
    movement: &OverworldMovementSettings,
    held: &mut HeldDirs,
    actor: &mut Actor,
)
    requires
        map.wf(),
        old(held).wf(),
        old(actor).wf(),
    ensures
        final(held).wf(),
        final(actor).wf(),
        lock.is_some() ==> final(held)@ == old(held)@ && *final(actor) == *old(actor),
        lock.is_none() ==> final(held)@ == held_after(old(held)@, *keys),
        lock.is_none() ==> *final(actor) == controller_next(
            *old(actor),
            front(final(held)@),
            *keys,
            delta as int,
            *map,
            *grid,
            *movement,
        ),
{
    if lock.is_some() {
        return;
    }
    update_held_dirs(keys, held);
    match actor.state {
        MovementState::Tweening(_) => {},
        MovementState::Idle => {
            if let Some(dir) = held.active() {
                if actor.facing != dir {
                    actor.facing = dir;
                    actor.state = MovementState::TurnGrace(
                        TurnGrace { dir, timer: Countdown::new(movement.turn_grace) },
                    );
                } else {
                    try_move(actor, map, grid, movement);
                }
            }
        },
        MovementState::TurnGrace(grace) => {
            if !facing_pressed(keys, grace.dir) {
                actor.state = MovementState::Idle;
            } else {
                let mut timer = grace.timer;
                timer.tick(delta);
                if !timer.just_finished {
                    actor.state = MovementState::TurnGrace(TurnGrace { dir: grace.dir, timer });
                } else {
                    actor.state = MovementState::Idle;
                    try_move(actor, map, grid, movement);
                }
            }
        },
    }
}

/// Facing a new direction is a turn, never a step: one tick with `d`
/// active turns a resting actor that faces elsewhere to `d` and starts its
/// turn grace, without changing its cell.
pub proof fn lemma_turn_before_move(
    actor: Actor,
    d: Facing,
    keys: DirectionKeys,
    delta: int,
    map: OverworldMap,
    grid: OverworldGridSettings,
    movement: OverworldMovementSettings,
)
    requires
        actor.state == MovementState::Idle,
        actor.facing != d,
    ensures
        ({
            let r = controller_next(actor, Some(d), keys, delta, map, grid, movement);
            &&& r.facing == d
            &&& r.state matches MovementState::TurnGrace(g) && g.dir == d
            &&& r.pos == actor.pos
            &&& r.translation == actor.translation
        }),
{
}

/// Walking into a blocked cell changes nothing: the cell stays, and no
/// tween starts.
pub proof fn lemma_blocked_move_is_noop(
    actor: Actor,
    map: OverworldMap,
    grid: OverworldGridSettings,
    movement: OverworldMovementSettings,
)
    requires
        map.blocked_at(step_target(actor.pos, actor.facing).0, step_target(actor.pos, actor.facing).1),
    ensures
        attempt_move(actor, map, grid, movement) == actor,
{
}

/// A step into a free cell is committed at once: the actor's cell is the
/// target, and it tweens from where it is drawn to the target's position.
pub proof fn lemma_move_commits_cell(
    actor: Actor,
    map: OverworldMap,
    grid: OverworldGridSettings,
    movement: OverworldMovementSettings,
)
    requires
        !map.blocked_at(step_target(actor.pos, actor.facing).0, step_target(actor.pos, actor.facing).1),
    ensures
        ({
            let r = attempt_move(actor, map, grid, movement);
            let (nx, ny) = step_target(actor.pos, actor.facing);
            &&& r.pos.x == nx && r.pos.y == ny
            &&& r.facing == actor.facing
            &&& r.state matches MovementState::Tweening(t) && t.from == actor.translation && t.to
                == grid_to_units(r.pos, grid.tile_size) && t.timer == Countdown::fresh(
                movement.step_time,
            )
        }),
{
}

/// One tick of input: the active direction, the raw keys and the elapsed
/// nanoseconds.
pub type TickInput = (Option<Facing>, DirectionKeys, int);

/// The actor after the ticks of `ticks`, in order, with no input lock.
pub open spec fn run_controller(
    actor: Actor,
    ticks: Seq<TickInput>,
    map: OverworldMap,
    grid: OverworldGridSettings,
    movement: OverworldMovementSettings,
) -> Actor
    decreases ticks.len(),
{
    if ticks.len() == 0 {
        actor
    } else {
        let t = ticks.last();
        controller_next(
            run_controller(actor, ticks.drop_last(), map, grid, movement),
            t.0,
            t.1,
            t.2,
            map,
            grid,
            movement,
        )
    }
}

/// Nanoseconds elapsed over the first `n` ticks.
pub open spec fn elapsed_over(ticks: Seq<TickInput>, n: int) -> int
    decreases n,
{
    if n <= 0 {
        0
    } else {
        elapsed_over(ticks, n - 1) + ticks[n - 1].2
    }
}

/// The actor still in its turn grace towards `g.dir`, `elapsed`
/// nanoseconds into it.
pub open spec fn grace_pending(actor: Actor, g: TurnGrace, elapsed: int) -> Actor {
    Actor {
        state: MovementState::TurnGrace(
            TurnGrace { dir: g.dir, timer: Countdown { elapsed: elapsed as u64, ..g.timer } },
        ),
        ..actor
    }
}

proof fn lemma_grace_prefix(
    actor: Actor,
    g: TurnGrace,
    ticks: Seq<TickInput>,
    j: int,
    map: OverworldMap,
    grid: OverworldGridSettings,
    movement: OverworldMovementSettings,
)
    requires
        actor.wf(),
        actor.state == MovementState::TurnGrace(g),
        0 <= j <= ticks.len(),
        forall|i: int| 0 <= i < ticks.len() ==> 0 <= #[trigger] ticks[i].2,
        forall|i: int| 0 <= i < j ==> #[trigger] key_for(ticks[i].1, g.dir).pressed,
        j == 0 || elapsed_over(ticks, j) < g.timer.duration - g.timer.elapsed,
    ensures
        run_controller(actor, ticks.subrange(0, j), map, grid, movement) == grace_pending(
            actor,
            g,
            g.timer.elapsed + elapsed_over(ticks, j),
        ),
    decreases j,
{
    if j == 0 {
        assert(ticks.subrange(0, 0).len() == 0);
        assert(Countdown { elapsed: g.timer.elapsed, ..g.timer } == g.timer);
    } else {
        assert(0 <= ticks[j - 1].2);
        lemma_elapsed_nonneg(ticks, j - 1);
        lemma_grace_prefix(actor, g, ticks, j - 1, map, grid, movement);
        assert(ticks.subrange(0, j).drop_last() == ticks.subrange(0, j - 1));
        assert(ticks.subrange(0, j).last() == ticks[j - 1]);
    }
}

proof fn lemma_elapsed_nonneg(ticks: Seq<TickInput>, n: int)
    requires
        n <= ticks.len(),
        forall|i: int| 0 <= i < ticks.len() ==> 0 <= #[trigger] ticks[i].2,
    ensures
        0 <= elapsed_over(ticks, n),
    decreases n,
{
    if n > 0 {
        lemma_elapsed_nonneg(ticks, n - 1);
        assert(0 <= ticks[n - 1].2);
    }
}

/// A turn grace whose direction stays pressed on every tick until its
/// timer runs out ends, on that tick, in a move attempt in that direction.
pub proof fn lemma_grace_held_commits(
    actor: Actor,
    g: TurnGrace,
    ticks: Seq<TickInput>,
    map: OverworldMap,
    grid: OverworldGridSettings,
    movement: OverworldMovementSettings,
)
    requires
        actor.wf(),
        actor.state == MovementState::TurnGrace(g),
        ticks.len() >= 1,
        forall|i: int| 0 <= i < ticks.len() ==> 0 <= #[trigger] ticks[i].2,
        forall|i: int| 0 <= i < ticks.len() ==> #[trigger] key_for(ticks[i].1, g.dir).pressed,
        ticks.len() == 1 || elapsed_over(ticks, ticks.len() - 1) < g.timer.duration
            - g.timer.elapsed,
        elapsed_over(ticks, ticks.len() as int) >= g.timer.duration - g.timer.elapsed,
    ensures
        run_controller(actor, ticks, map, grid, movement) == attempt_move(
            Actor { state: MovementState::Idle, ..actor },
            map,
            grid,
            movement,
        ),
        actor.facing == g.dir,
{
    let n = ticks.len() as int;
    lemma_grace_prefix(actor, g, ticks, n - 1, map, grid, movement);
    assert(ticks.drop_last() == ticks.subrange(0, n - 1));
}

/// Releasing the grace direction before the grace runs out cancels the
/// turn: the actor rests on the same cell, having not moved.
pub proof fn lemma_grace_release_cancels(
    actor: Actor,
    g: TurnGrace,
    ticks: Seq<TickInput>,
    map: OverworldMap,
    grid: OverworldGridSettings,
    movement: OverworldMovementSettings,
)
    requires
        actor.wf(),
        actor.state == MovementState::TurnGrace(g),
        ticks.len() >= 1,
        forall|i: int| 0 <= i < ticks.len() ==> 0 <= #[trigger] ticks[i].2,
        forall|i: int| 0 <= i < ticks.len() - 1 ==> #[trigger] key_for(ticks[i].1, g.dir).pressed,
        ticks.len() == 1 || elapsed_over(ticks, ticks.len() - 1) < g.timer.duration
            - g.timer.elapsed,
        !key_for(ticks.last().1, g.dir).pressed,
    ensures
        run_controller(actor, ticks, map, grid, movement) == (Actor {
            state: MovementState::Idle,
            ..actor
        }),
{
    let n = ticks.len() as int;
    lemma_grace_prefix(actor, g, ticks, n - 1, map, grid, movement);
    assert(ticks.drop_last() == ticks.subrange(0, n - 1));
}

} // verus!
