use vstd::prelude::*;

use crate::components::{Actor, MoveTween, MovementState, OverworldInputLock, StepFinished};
use crate::geometry::{lemma_lerp_between, lerp_coord, lerp_spec, Point2};

verus! {

/// The point a fraction `num / den` of the way from `from` to `to`.
pub open spec fn lerp_point(from: Point2, to: Point2, num: int, den: int) -> Point2 {
    Point2 {
        x: lerp_spec(from.x as int, to.x as int, num, den) as i64,
        y: lerp_spec(from.y as int, to.y as int, num, den) as i64,
    }
}

/// Whether the actor's tween runs out within the next `delta` nanoseconds.
pub open spec fn tween_completes(actor: Actor, delta: int) -> bool {
    match actor.state {
        MovementState::Tweening(t) => t.timer.ticked(delta).just_finished,
        _ => false,
    }
}

/// The actor after its tween advanced by `delta` nanoseconds: on completion
/// it stands exactly on `to` and rests; before that it is drawn on the
/// segment, as far along as the timer is. Other states are untouched.
pub open spec fn tween_next(actor: Actor, delta: int) -> Actor {
    match actor.state {
        MovementState::Tweening(t) => {
            let timer = t.timer.ticked(delta);
            if timer.just_finished {
                Actor { translation: t.to, state: MovementState::Idle, ..actor }
            } else {
                Actor {
                    translation: lerp_point(t.from, t.to, timer.elapsed as int, timer.duration as int),
                    state: MovementState::Tweening(MoveTween { timer, ..t }),
                    ..actor
                }
            }
        },
        _ => actor,
    }
}

fn advance_tween(actor: &mut Actor, delta: u64) -> (done: bool)
    requires
        old(actor).wf(),
    ensures
        final(actor).wf(),
        *final(actor) == tween_next(*old(actor), delta as int),
        done == tween_completes(*old(actor), delta as int),
{
    match actor.state {
        MovementState::Tweening(tween) => {
            let mut timer = tween.timer;
            timer.tick(delta);
            if timer.just_finished {
                actor.translation = tween.to;
                actor.state = MovementState::Idle;
                true
            } else {
                let x = lerp_coord(tween.from.x, tween.to.x, timer.elapsed, timer.duration);
                let y = lerp_coord(tween.from.y, tween.to.y, timer.elapsed, timer.duration);
                actor.translation = Point2 { x, y };
                actor.state = MovementState::Tweening(
                    MoveTween { from: tween.from, to: tween.to, timer },
                );
                false
            }
        },
        _ => false,
    }
}

/// Advances every tween in the actor table by `delta` nanoseconds. Returns
/// one notification for each tween that completed, in table order. Under an
/// input lock nothing moves and nothing is returned.
pub fn update_movement_state(
    lock: &Option<OverworldInputLock>,
    actors: &mut Vec<Actor>,
    delta: u64,
) -> (events: Vec<StepFinished>)
    requires
        forall|i: int| 0 <= i < old(actors)@.len() ==> (#[trigger] old(actors)@[i]).wf(),
    ensures
        lock.is_some() ==> final(actors)@ == old(actors)@ && events@.len() == 0,
        final(actors)@.len() == old(actors)@.len(),
        forall|i: int|
            0 <= i < final(actors)@.len() && lock.is_none() ==> #[trigger] final(actors)@[i] == tween_next(
                old(actors)@[i],
                delta as int,
            ),
        forall|i: int| 0 <= i < final(actors)@.len() ==> (#[trigger] final(actors)@[i]).wf(),
        forall|j: int|
            0 <= j < events@.len() ==> (#[trigger] events@[j]).entity < old(actors)@.len()
                && tween_completes(old(actors)@[events@[j].entity as int], delta as int),
        forall|j: int, k: int|
            0 <= j < k < events@.len() ==> (#[trigger] events@[j]).entity
                < (#[trigger] events@[k]).entity,
        forall|i: int|
            0 <= i < old(actors)@.len() && lock.is_none() && #[trigger] tween_completes(
                old(actors)@[i],
                delta as int,
            ) ==> exists|j: int| 0 <= j < events@.len() && (#[trigger] events@[j]).entity == i,
{
    let mut events: Vec<StepFinished> = Vec::new();
    if lock.is_some() {
        return events;
    }
    let ghost before = actors@;
    let mut i: usize = 0;
    while i < actors.len()
        invariant
            i <= actors@.len(),
            actors@.len() == before.len(),
            forall|m: int| 0 <= m < before.len() ==> (#[trigger] before[m]).wf(),
            forall|m: int|
                0 <= m < i ==> #[trigger] actors@[m] == tween_next(before[m], delta as int)
                    && actors@[m].wf(),
            forall|m: int| i <= m < before.len() ==> #[trigger] actors@[m] == before[m],
            forall|j: int|
                0 <= j < events@.len() ==> (#[trigger] events@[j]).entity < i && tween_completes(
                    before[events@[j].entity as int],
                    delta as int,
                ),
            forall|j: int, k: int|
                0 <= j < k < events@.len() ==> (#[trigger] events@[j]).entity
                    < (#[trigger] events@[k]).entity,
            forall|m: int|
                0 <= m < i && #[trigger] tween_completes(before[m], delta as int) ==> exists|j: int|
                    0 <= j < events@.len() && (#[trigger] events@[j]).entity == m,
        decreases actors@.len() - i,
    {
        let mut actor = actors[i];
        let done = advance_tween(&mut actor, delta);
        actors.set(i, actor);
        if done {
            let ghost prev = events@;
            events.push(StepFinished { entity: i });
            proof {
                assert forall|m: int|
                    0 <= m < i && #[trigger] tween_completes(before[m], delta as int) implies exists|
                    j: int,
                | 0 <= j < events@.len() && (#[trigger] events@[j]).entity == m by {
                    let j = choose|j: int| 0 <= j < prev.len() && (#[trigger] prev[j]).entity == m;
                    assert(events@[j] == prev[j]);
                }
                assert(events@[events@.len() - 1].entity == i);
            }
        }
        i = i + 1;
    }
    events
}

/// The lock after `delta` more nanoseconds: gone once its timer runs out.
pub open spec fn lock_after(lock: Option<OverworldInputLock>, delta: int) -> Option<
    OverworldInputLock,
> {
    match lock {
        None => None,
        Some(l) => if l.timer.ticked(delta).just_finished {
            None
        } else {
            Some(OverworldInputLock { timer: l.timer.ticked(delta) })
        },
    }
}

/// Counts the input lock down by `delta` nanoseconds, removing it when it
/// runs out.
pub fn tick_overworld_input_lock(lock: &mut Option<OverworldInputLock>, delta: u64)
    requires
        *old(lock) matches Some(l) ==> l.wf(),
    ensures
        *final(lock) == lock_after(*old(lock), delta as int),
        *final(lock) matches Some(l) ==> l.wf(),
{
    match lock {
        None => {},
        Some(l) => {
            let mut timer = l.timer;
            timer.tick(delta);
            if timer.just_finished {
                *lock = None;
            } else {
                *lock = Some(OverworldInputLock { timer });
            }
        },
    }
}

/// A tween's visual position reaches its destination exactly on the tick
/// its timer runs out, not before (for a tween that goes anywhere).
pub proof fn lemma_tween_arrives_on_completion(actor: Actor, delta: int)
    requires
        actor.wf(),
        0 <= delta,
        actor.state matches MovementState::Tweening(t) && t.from != t.to,
    ensures
        ({
            let t = actor.state->Tweening_0;
            tween_next(actor, delta).translation == t.to <==> tween_completes(actor, delta)
        }),
{
    let t = actor.state->Tweening_0;
    let timer = t.timer.ticked(delta);
    if !timer.just_finished {
        let e = timer.elapsed as int;
        let d = timer.duration as int;
        assert(e < d);
        lemma_lerp_between(t.from.x as int, t.to.x as int, e, d);
        lemma_lerp_between(t.from.y as int, t.to.y as int, e, d);
        lemma_lerp_short(t.from.x as int, t.to.x as int, e, d);
        lemma_lerp_short(t.from.y as int, t.to.y as int, e, d);
    }
}

/// Tween progress is bounded and monotonic: at no time the start, at full
/// time the destination, and in between on the segment, never going back.
pub proof fn lemma_tween_progress(a: int, b: int, e1: int, e2: int, d: int)
    requires
        0 <= e1 <= e2 <= d,
        0 < d,
    ensures
        lerp_spec(a, b, 0, d) == a,
        lerp_spec(a, b, d, d) == b,
        a <= b ==> a <= lerp_spec(a, b, e1, d) <= lerp_spec(a, b, e2, d) <= b,
        b < a ==> b <= lerp_spec(a, b, e2, d) <= lerp_spec(a, b, e1, d) <= a,
{
    lemma_lerp_between(a, b, e1, d);
    lemma_lerp_between(a, b, e2, d);
    let span = if a <= b {
        b - a
    } else {
        a - b
    };
    assert(span * 0 == 0);
    vstd::arithmetic::div_mod::lemma_div_multiples_vanish(span, d);
    assert(span * d == d * span) by (nonlinear_arith);
    vstd::arithmetic::mul::lemma_mul_inequality(e1, e2, span);
    assert(e1 * span == span * e1 && e2 * span == span * e2) by (nonlinear_arith);
    vstd::arithmetic::div_mod::lemma_div_is_ordered(span * e1, span * e2, d);
}

/// The locks after each of `deltas`, in order, starting from `lock`.
pub open spec fn lock_run(lock: Option<OverworldInputLock>, deltas: Seq<int>) -> Option<
    OverworldInputLock,
>
    decreases deltas.len(),
{
    if deltas.len() == 0 {
        lock
    } else {
        lock_after(lock_run(lock, deltas.drop_last()), deltas.last())
    }
}

/// Sum of `deltas`.
pub open spec fn total(deltas: Seq<int>) -> int
    decreases deltas.len(),
{
    if deltas.len() == 0 {
        0
    } else {
        total(deltas.drop_last()) + deltas.last()
    }
}

/// A lock stays present for its whole remaining duration: after ticks adding
/// up to less than that it is still there, and has counted exactly that
/// much. While it is present, `overworld_controller_system` and
/// `update_movement_state` leave every actor as it is.
pub proof fn lemma_lock_persists(l: OverworldInputLock, deltas: Seq<int>)
    requires
        l.wf(),
        forall|i: int| 0 <= i < deltas.len() ==> 0 <= #[trigger] deltas[i],
        total(deltas) < l.timer.duration - l.timer.elapsed,
    ensures
        lock_run(Some(l), deltas) matches Some(m) && m.wf() && m.timer.elapsed == l.timer.elapsed
            + total(deltas) && m.timer.duration == l.timer.duration,
    decreases deltas.len(),
{
    if deltas.len() > 0 {
        let p = deltas.drop_last();
        assert forall|i: int| 0 <= i < p.len() implies 0 <= #[trigger] p[i] by {
            assert(p[i] == deltas[i]);
        }
        assert(0 <= deltas[deltas.len() - 1]);
        lemma_lock_persists(l, p);
    }
}

/// Short of full time, a move that goes anywhere has not arrived.
proof fn lemma_lerp_short(a: int, b: int, e: int, d: int)
    requires
        0 <= e < d,
    ensures
        a != b ==> lerp_spec(a, b, e, d) != b,
{
    if a != b {
        let span = if a <= b {
            b - a
        } else {
            a - b
        };
        let x = span * e;
        vstd::arithmetic::div_mod::lemma_fundamental_div_mod(x, d);
        let q = x / d;
        assert(q < span) by (nonlinear_arith)
            requires
                x == d * q + x % d,
                0 <= x % d,
                x == span * e,
                0 <= e < d,
                0 < span,
        ;
    }
}

} // verus!
