//! Tile-based procedural mesh generation.
//!
//! A sparse set of placed grid tiles (integer position, 4-way orientation,
//! tile type) is turned into an indexed triangle mesh for rendering and a
//! triangle soup for collision, plus extruded wall geometry along exposed
//! tile edges. All geometry is carried in fixed-point coordinates with 1000
//! units per world unit, so every computation here is exact integer
//! arithmetic.

pub mod ground;
pub mod loader;
pub mod math;
pub mod mesh;
pub mod regen;
pub mod tile;
pub mod tile_definitions;
pub mod walls;

pub use math::{Vec2i, Vec3i};
pub use mesh::{CompareRule, DynamicMesh, MeshMaker, Vertex};
pub use regen::{RegenEvent, RegenState};
pub use tile::{Edge, Orientation, Tile};
pub use tile_definitions::{TileDefinition, TileDefinitions};
pub use loader::TileDefinitionsLoader;
