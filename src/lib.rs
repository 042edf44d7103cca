//! Movement and camera-follow core of a tile-based overworld: a grid map,
//! a held-direction buffer, the per-actor movement state machine, grid
//! snapping, a global input lock and exponential camera smoothing.
//!
//! Positions are fixed-point integers ("units"); durations are nanoseconds.

mod camera;
mod components;
mod controller;
mod geometry;
mod grid_sync;
mod input;
mod map;
mod systems;
mod timer;

pub use components::{
    Actor, Facing, GridPos, MoveTween, MovementState, OverworldGridSettings, OverworldInputLock,
    OverworldInputSettings, OverworldMovementSettings, StepFinished, TurnGrace,
};
pub use controller::{
    attempt_move, controller_next, elapsed_over, grace_pending, grid_to_units, grid_translation,
    lemma_blocked_move_is_noop, lemma_grace_held_commits, lemma_grace_release_cancels,
    lemma_move_commits_cell, lemma_turn_before_move, overworld_controller_system, run_controller,
    step_target, TickInput,
};
pub use input::{
    facing_delta, facing_delta_spec, facing_pressed, front, held_after, key_for, lemma_without_contains,
    lemma_without_no_duplicates, press_step, pressed_first, release_step, update_held_dirs, without,
    DirectionKeys, HeldDirs, KeyState,
};
pub use map::{cell_index, OverworldMap};
pub use geometry::{lemma_lerp_between, lerp_coord, lerp_spec, Point2, Point3};
pub use timer::{lemma_ticked_progress, Countdown};
pub use systems::{
    lemma_lock_persists, lemma_tween_arrives_on_completion, lemma_tween_progress, lerp_point,
    lock_after, lock_run, tick_overworld_input_lock, total, tween_completes, tween_next,
    update_movement_state,
};
pub use camera::{
    camera_follow, desired_position, follow_iter, follow_spec, gap, lemma_follow_converges,
    lemma_follow_repeated, power, ALPHA_ONE,
};
pub use grid_sync::{lemma_snap_idempotent, snap_entity_to_grid, snapped, sync_transform_to_grid};
