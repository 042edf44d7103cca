use vstd::prelude::*;

use crate::geometry::Point2;
use crate::timer::Countdown;

verus! {

/// One of the four cardinal directions an actor can face and move in.
#[derive(Clone, Copy, Debug, PartialEq, Eq, Structural)]
pub enum Facing {
    North,
    East,
    South,
    West,
}

/// A cell coordinate on the overworld grid.
#[derive(Clone, Copy, Debug, PartialEq, Eq, Structural)]
pub struct GridPos {
    pub x: i32,
    pub y: i32,
}

/// A declared turn towards `dir` that has not yet been committed to a step.
#[derive(Clone, Copy, Debug, PartialEq, Eq, Structural)]
pub struct TurnGrace {
    pub dir: Facing,
    pub timer: Countdown,
}

/// A step in flight: the visual position goes from `from` to `to`.
#[derive(Clone, Copy, Debug, PartialEq, Eq, Structural)]
pub struct MoveTween {
    pub from: Point2,
    pub to: Point2,
    pub timer: Countdown,
}

/// What an actor is doing; exactly one of these holds.
#[derive(Clone, Copy, Debug, PartialEq, Eq, Structural)]
pub enum MovementState {
    Idle,
    TurnGrace(TurnGrace),
    Tweening(MoveTween),
}

/// One grid-bound actor: its cell, facing, movement state and visual
/// position.
#[derive(Clone, Copy, Debug, PartialEq, Eq, Structural)]
pub struct Actor {
    pub pos: GridPos,
    pub facing: Facing,
    pub state: MovementState,
    pub translation: Point2,
}

impl Actor {
    /// A pending turn faces its own direction, and no timer that a state
    /// holds has run out yet.
    pub open spec fn wf(&self) -> bool {
        match self.state {
            MovementState::Idle => true,
            MovementState::TurnGrace(g) => {
                &&& g.timer.wf()
                &&& !g.timer.finished
                &&& self.facing == g.dir
            },
            MovementState::Tweening(t) => {
                &&& t.timer.wf()
                &&& !t.timer.finished
            },
        }
    }

    /// Whether `wf` holds.
    pub fn is_well_formed(&self) -> (r: bool)
        ensures
            r == self.wf(),
    {
        match self.state {
            MovementState::Idle => true,
            MovementState::TurnGrace(g) => g.timer.is_well_formed() && !g.timer.finished
                && self.facing == g.dir,
            MovementState::Tweening(t) => t.timer.is_well_formed() && !t.timer.finished,
        }
    }

    /// A resting actor at `pos`, facing `facing`, drawn at `translation`.
    pub fn new(pos: GridPos, facing: Facing, translation: Point2) -> (r: Self)
        ensures
            r.wf(),
            r == (Actor { pos, facing, state: MovementState::Idle, translation }),
    {
        Actor { pos, facing, state: MovementState::Idle, translation }
    }
}

/// While present, the movement state machine is suspended.
#[derive(Clone, Copy, Debug, PartialEq, Eq, Structural)]
pub struct OverworldInputLock {
    pub timer: Countdown,
}

impl OverworldInputLock {
    /// A present lock has not yet run out.
    pub open spec fn wf(&self) -> bool {
        self.timer.wf() && !self.timer.finished
    }

    /// Whether `wf` holds.
    pub fn is_well_formed(&self) -> (r: bool)
        ensures
            r == self.wf(),
    {
        self.timer.is_well_formed() && !self.timer.finished
    }

    /// A lock lasting `duration` nanoseconds from now.
    pub fn new(duration: u64) -> (r: Self)
        ensures
            r.wf(),
            r.timer == Countdown::fresh(duration),
    {
        OverworldInputLock { timer: Countdown::new(duration) }
    }
}

/// Length of one grid cell in position units.
#[derive(Clone, Copy, Debug, PartialEq, Eq, Structural)]
pub struct OverworldGridSettings {
    pub tile_size: u32,
}

/// Durations, in nanoseconds, of one step and of the turn grace window.
#[derive(Clone, Copy, Debug, PartialEq, Eq, Structural)]
pub struct OverworldMovementSettings {
    pub step_time: u64,
    pub turn_grace: u64,
}

/// Duration, in nanoseconds, of the input lock taken on entering the
/// overworld.
#[derive(Clone, Copy, Debug, PartialEq, Eq, Structural)]
pub struct OverworldInputSettings {
    pub input_cooldown: u64,
}

/// The actor at index `entity` of the actor table finished a grid step.
#[derive(Clone, Copy, Debug, PartialEq, Eq, Structural)]
pub struct StepFinished {
    pub entity: usize,
}

} // verus!
