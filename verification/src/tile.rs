//! Tile geometry: the fixed cube-corner table, four-way rotation of corner
//! indices, placed tile instances, and world-space edges.

use vstd::prelude::*;
use crate::math::{Vec3i, spec_approx_eq, abs_int};

verus! {

/// Per-axis tile bounds in fixed-point units: a tile is one world unit wide
/// and deep and half a world unit tall.
pub const BOUNDS_X: i64 = 1000;

pub const BOUNDS_Y: i64 = 500;

pub const BOUNDS_Z: i64 = 1000;

/// Largest grid coordinate magnitude a tile may be placed at; keeps every
/// world-space coordinate, wall offsets included, within
/// [`crate::math::MAX_COORD`].
pub const MAX_GRID: i64 = 99_000;

/// Largest coordinate magnitude of a world-space tile corner.
pub const WORLD_MAX: i64 = 99_000_500;

/// Four-way rotation of a tile about the vertical axis.
#[derive(Clone, Copy, Debug, PartialEq, Eq, Structural)]
pub enum Orientation {
    North,
    East,
    South,
    West,
}

impl Orientation {
    /// The number of quarter turns this orientation stands for.
    pub open spec fn spec_rotations(self) -> int {
        match self {
            Orientation::North => 0,
            Orientation::East => 1,
            Orientation::South => 2,
            Orientation::West => 3,
        }
    }

    pub fn rotations(self) -> (r: u8)
        ensures
            r == self.spec_rotations(),
    {
        match self {
            Orientation::North => 0,
            Orientation::East => 1,
            Orientation::South => 2,
            Orientation::West => 3,
        }
    }
}

/// Rotation of a cube-corner index by a number of quarter turns: the bottom
/// corners (0..4) and the top corners (4..8) each rotate within their own
/// group; the groups never mix.
pub open spec fn spec_rotate_index(index: int, rotations: int) -> int
    recommends
        0 <= index < 8,
        0 <= rotations,
{
    if index >= 4 {
        4 + (rotations + index) % 4
    } else {
        (rotations + index) % 4
    }
}

/// Rotates a cube-corner index by the given orientation.
pub fn rotate_index(index: u8, orientation: &Orientation) -> (r: u8)
    requires
        index < 8,
    ensures
        r == spec_rotate_index(index as int, orientation.spec_rotations()),
        r < 8,
        index < 4 ==> r < 4,
        index >= 4 ==> r >= 4,
{
    let rotations = orientation.rotations();
    if index >= 4 {
        4 + (rotations + index) % 4
    } else {
        (rotations + index) % 4
    }
}

/// Rotating by zero quarter turns leaves every index unchanged.
pub proof fn lemma_rotate_zero(index: int)
    requires
        0 <= index < 8,
    ensures
        spec_rotate_index(index, 0) == index,
{
}

/// Rotation preserves the bottom and top corner groups, and always yields a
/// valid index.
pub proof fn lemma_rotate_group(index: int, rotations: int)
    requires
        0 <= index < 8,
        0 <= rotations,
    ensures
        0 <= spec_rotate_index(index, rotations) < 8,
        index < 4 <==> spec_rotate_index(index, rotations) < 4,
{
}

/// The rotation count only matters modulo four.
pub proof fn lemma_rotate_mod(index: int, rotations: int)
    requires
        0 <= index < 8,
        0 <= rotations,
    ensures
        spec_rotate_index(index, rotations) == spec_rotate_index(index, rotations % 4),
{
    assert((rotations + index) % 4 == (rotations % 4 + index) % 4) by {
        vstd::arithmetic::div_mod::lemma_add_mod_noop(rotations, index, 4);
        vstd::arithmetic::div_mod::lemma_mod_twice(rotations, 4);
        vstd::arithmetic::div_mod::lemma_add_mod_noop(rotations % 4, index, 4);
    }
}

/// One quarter turn at a time, iterated `k` times.
pub open spec fn spec_rotate_iter(index: int, k: nat) -> int
    decreases k,
{
    if k == 0 {
        index
    } else {
        spec_rotate_index(spec_rotate_iter(index, (k - 1) as nat), 1)
    }
}

/// Applying single quarter turns `k` times equals one rotation by `k mod 4`:
/// iterated rotation wraps around after four turns.
pub proof fn lemma_rotate_iter_eq_mod(index: int, k: nat)
    requires
        0 <= index < 8,
    ensures
        spec_rotate_iter(index, k) == spec_rotate_index(index, (k as int) % 4),
    decreases k,
{
    if k == 0 {
        lemma_rotate_zero(index);
    } else {
        lemma_rotate_iter_eq_mod(index, (k - 1) as nat);
        let prev = spec_rotate_index(index, ((k - 1) as int) % 4);
        assert(spec_rotate_iter(index, k) == spec_rotate_index(prev, 1));
    }
}

/// The fixed cube-corner table, already scaled by the per-axis bounds:
/// corners 0..4 are the bottom face, 4..8 the top face.
pub open spec fn spec_vertex_at(index: int) -> Vec3i {
    if index == 0 {
        Vec3i { x: 500i64, y: -500i64, z: -500i64 }
    } else if index == 1 {
        Vec3i { x: 500i64, y: -500i64, z: 500i64 }
    } else if index == 2 {
        Vec3i { x: -500i64, y: -500i64, z: 500i64 }
    } else if index == 3 {
        Vec3i { x: -500i64, y: -500i64, z: -500i64 }
    } else if index == 4 {
        Vec3i { x: 500i64, y: 0i64, z: -500i64 }
    } else if index == 5 {
        Vec3i { x: 500i64, y: 0i64, z: 500i64 }
    } else if index == 6 {
        Vec3i { x: -500i64, y: 0i64, z: 500i64 }
    } else {
        Vec3i { x: -500i64, y: 0i64, z: -500i64 }
    }
}

/// Returns cube corner `index`, scaled by the tile bounds.
pub fn vertex_at(index: u8) -> (r: Vec3i)
    requires
        index < 8,
    ensures
        r == spec_vertex_at(index as int),
{
    match index {
        0 => Vec3i { x: 500, y: -500, z: -500 },
        1 => Vec3i { x: 500, y: -500, z: 500 },
        2 => Vec3i { x: -500, y: -500, z: 500 },
        3 => Vec3i { x: -500, y: -500, z: -500 },
        4 => Vec3i { x: 500, y: 0, z: -500 },
        5 => Vec3i { x: 500, y: 0, z: 500 },
        6 => Vec3i { x: -500, y: 0, z: 500 },
        _ => Vec3i { x: -500, y: 0, z: -500 },
    }
}

/// A placed tile: integer grid position, orientation and tile type.
#[derive(Clone, Copy, Debug)]
pub struct Tile {
    pub position: Vec3i,
    pub rotation: Orientation,
    pub tile_type: u8,
}

impl Tile {
    /// The grid position is small enough that all world-space geometry of
    /// this tile stays within the coordinate range of the mesh engine.
    pub open spec fn spec_valid(self) -> bool {
        &&& abs_int(self.position.x as int) <= MAX_GRID
        &&& abs_int(self.position.y as int) <= MAX_GRID
        &&& abs_int(self.position.z as int) <= MAX_GRID
    }

    pub fn new(position: Vec3i, rotation: Orientation, tile_type: u8) -> (r: Tile)
        ensures
            r == (Tile { position, rotation, tile_type }),
    {
        Tile { position, rotation, tile_type }
    }

    /// Checks that the grid position is within the supported range.
    pub fn valid(&self) -> (r: bool)
        ensures
            r == self.spec_valid(),
    {
        let p = self.position;
        -MAX_GRID <= p.x && p.x <= MAX_GRID && -MAX_GRID <= p.y && p.y <= MAX_GRID && -MAX_GRID
            <= p.z && p.z <= MAX_GRID
    }

    /// The world-space position of this tile's cube corner `index`: the
    /// corner is rotated by the tile's orientation, then offset by the grid
    /// position scaled per-axis by the tile bounds.
    pub fn world_vertex(&self, index: u8) -> (r: Vec3i)
        requires
            index < 8,
            self.spec_valid(),
        ensures
            r == spec_world_vertex(*self, index as int),
            r.spec_in_bounds(),
            spec_world_bounded(r),
    {
        let rotated = rotate_index(index, &self.rotation);
        let v = vertex_at(rotated);
        Vec3i {
            x: v.x + self.position.x * BOUNDS_X,
            y: v.y + self.position.y * BOUNDS_Y,
            z: v.z + self.position.z * BOUNDS_Z,
        }
    }
}

/// The world-space position of tile `t`'s cube corner `index`.
pub open spec fn spec_world_vertex(t: Tile, index: int) -> Vec3i {
    let v = spec_vertex_at(spec_rotate_index(index, t.rotation.spec_rotations()));
    Vec3i {
        x: (v.x + t.position.x * BOUNDS_X) as i64,
        y: (v.y + t.position.y * BOUNDS_Y) as i64,
        z: (v.z + t.position.z * BOUNDS_Z) as i64,
    }
}

/// Whether a vector lies within the world-space corner range; such vectors
/// leave room for the wall extrusion offsets below
/// [`crate::math::MAX_COORD`].
pub open spec fn spec_world_bounded(v: Vec3i) -> bool {
    &&& abs_int(v.x as int) <= WORLD_MAX
    &&& abs_int(v.y as int) <= WORLD_MAX
    &&& abs_int(v.z as int) <= WORLD_MAX
}

/// An unordered pair of world-space edge endpoints.
#[derive(Clone, Copy, Debug)]
pub struct Edge(pub Vec3i, pub Vec3i);

/// Edge equality: tolerance-approximate on both endpoints and symmetric in
/// their order.
pub open spec fn spec_edge_eq(a: Edge, b: Edge) -> bool {
    ||| (spec_approx_eq(a.0, b.0) && spec_approx_eq(a.1, b.1))
    ||| (spec_approx_eq(a.0, b.1) && spec_approx_eq(a.1, b.0))
}

impl Edge {
    /// Tolerance-based, order-insensitive comparison of two edges.
    pub fn approx_eq(&self, other: &Edge) -> (r: bool)
        ensures
            r == spec_edge_eq(*self, *other),
    {
        (self.0.approx_eq(other.0) && self.1.approx_eq(other.1)) || (self.0.approx_eq(other.1)
            && self.1.approx_eq(other.0))
    }
}

} // verus!
