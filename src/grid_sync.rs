use vstd::prelude::*;

use crate::components::{Actor, MovementState, OverworldGridSettings};
use crate::controller::{grid_to_units, grid_translation};

verus! {

/// The actor drawn exactly on its cell, at rest, with any pending turn or
/// step dropped.
pub open spec fn snapped(actor: Actor, tile_size: u32) -> Actor {
    Actor {
        translation: grid_to_units(actor.pos, tile_size),
        state: MovementState::Idle,
        ..actor
    }
}

/// Makes the actor's cell authoritative over any animation in flight.
pub fn snap_entity_to_grid(grid: &OverworldGridSettings, actor: &mut Actor)
    ensures
        *final(actor) == snapped(*old(actor), grid.tile_size),
        final(actor).wf(),
{
    actor.translation = grid_translation(actor.pos, grid);
    actor.state = MovementState::Idle;
}

/// Snaps every actor of the table to its cell; without grid settings
/// nothing happens.
pub fn sync_transform_to_grid(grid: Option<&OverworldGridSettings>, actors: &mut Vec<Actor>)
    ensures
        final(actors)@.len() == old(actors)@.len(),
        grid.is_none() ==> final(actors)@ == old(actors)@,
        grid matches Some(g) ==> forall|i: int|
            0 <= i < final(actors)@.len() ==> #[trigger] final(actors)@[i] == snapped(
                old(actors)@[i],
                g.tile_size,
            ),
{
    let settings = match grid {
        None => {
            return;
        },
        Some(g) => g,
    };
    let ghost before = actors@;
    let mut i: usize = 0;
    while i < actors.len()
        invariant
            i <= actors@.len(),
            actors@.len() == before.len(),
            forall|m: int|
                0 <= m < i ==> #[trigger] actors@[m] == snapped(before[m], settings.tile_size),
            forall|m: int| i <= m < before.len() ==> #[trigger] actors@[m] == before[m],
        decreases actors@.len() - i,
    {
        let mut actor = actors[i];
        snap_entity_to_grid(settings, &mut actor);
        actors.set(i, actor);
        i = i + 1;
    }
}

/// Snapping is idempotent, and always leaves the actor at rest.
pub proof fn lemma_snap_idempotent(actor: Actor, tile_size: u32)
    ensures
        snapped(snapped(actor, tile_size), tile_size) == snapped(actor, tile_size),
        snapped(actor, tile_size).state == MovementState::Idle,
{
}

} // verus!
