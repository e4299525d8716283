//! Reload and change propagation.
//!
//! A two-state machine coalesces change notifications: a definition reload
//! or a tile edit moves it to pending, and the next scheduler tick with
//! definitions available runs one full regeneration and returns it to idle.
//! While definitions are not yet loaded the request is deferred, never
//! dropped, so multiple notifications before a tick fold into one rebuild.

use vstd::prelude::*;
use crate::ground::{build_ground_mesh, spec_ground_mesh, MAX_TILES};
use crate::mesh::DynamicMesh;
use crate::tile::Tile;
use crate::tile_definitions::TileDefinitions;
use crate::walls::{build_wall_mesh, spec_wall_mesh};

verus! {

/// The inputs a regeneration pass accepts: well-formed definitions, every
/// tile within the grid range, and a tile count one pass can take.
pub open spec fn spec_regen_inputs_ok(tiles: Seq<Tile>, defs: TileDefinitions) -> bool {
    &&& defs.spec_valid()
    &&& forall|i: int| 0 <= i < tiles.len() ==> tiles[i].spec_valid()
    &&& tiles.len() <= MAX_TILES
}

/// One full regeneration pass: rebuilds the ground and wall meshes from the
/// current tiles and definitions. Returns false — leaving both meshes
/// untouched — exactly when the inputs are out of range, and never panics.
pub fn regenerate(
    tiles: &Vec<Tile>,
    defs: &TileDefinitions,
    ground: &mut DynamicMesh,
    walls: &mut DynamicMesh,
) -> (ok: bool)
    ensures
        ok == spec_regen_inputs_ok(tiles@, *defs),
        ok ==> final(ground)@ == spec_ground_mesh(tiles@, defs.0@) && final(walls)@
            == spec_wall_mesh(tiles@, defs.0@),
        !ok ==> final(ground)@ == old(ground)@ && final(walls)@ == old(walls)@,
{
    if !defs.valid() {
        return false;
    }
    if tiles.len() > MAX_TILES {
        return false;
    }
    let n = tiles.len();
    let mut i: usize = 0;
    while i < n
        invariant
            i <= n,
            n == tiles@.len(),
            forall|j: int| 0 <= j < i ==> tiles@[j].spec_valid(),
        decreases n - i,
    {
        if !tiles[i].valid() {
            return false;
        }
        i += 1;
    }
    build_ground_mesh(tiles, defs, ground);
    build_wall_mesh(tiles, defs, walls);
    true
}

/// Whether a regeneration pass is owed.
#[derive(Clone, Copy, Debug, PartialEq, Eq, Structural)]
pub enum RegenState {
    Idle,
    RegenerationPending,
}

/// A change notification: the tile-definition asset was reloaded, or a tile
/// instance was added, removed or changed.
#[derive(Clone, Copy, Debug, PartialEq, Eq, Structural)]
pub enum RegenEvent {
    DefinitionsChanged,
    TilesChanged,
}

impl RegenState {
    pub fn new() -> (r: RegenState)
        ensures
            r == RegenState::Idle,
    {
        RegenState::Idle
    }

    /// Notes a change: any event moves the machine to pending, and repeated
    /// notifications coalesce (noting an event twice equals noting it once).
    pub fn note_event(&mut self, event: RegenEvent)
        ensures
            *final(self) == RegenState::RegenerationPending,
    {
        let _ = event;
        *self = RegenState::RegenerationPending;
    }

    /// One scheduler tick: returns true exactly when a regeneration pass
    /// must run now, which is when one is pending and the definitions are
    /// available. A pending request without definitions is deferred, not
    /// dropped.
    pub fn tick(&mut self, defs_available: bool) -> (run: bool)
        ensures
            run == (*old(self) == RegenState::RegenerationPending && defs_available),
            run ==> *final(self) == RegenState::Idle,
            !run ==> *final(self) == *old(self),
    {
        match *self {
            RegenState::Idle => false,
            RegenState::RegenerationPending => {
                if defs_available {
                    *self = RegenState::Idle;
                    true
                } else {
                    false
                }
            },
        }
    }
}

} // verus!
