//! Ground and wall regeneration over placed tiles, and change propagation.

use tile_mesh::ground::build_ground_mesh;
use tile_mesh::math::Vec3i;
use tile_mesh::mesh::DynamicMesh;
use tile_mesh::regen::{RegenEvent, RegenState};
use tile_mesh::tile::{vertex_at, Edge, Orientation, Tile};
use tile_mesh::tile_definitions::{TileDefinition, TileDefinitions};
use tile_mesh::walls::{build_wall_mesh, collect_edges};

fn v(x: i64, y: i64, z: i64) -> Vec3i {
    Vec3i { x, y, z }
}

fn def(id: u8, perimeter: Vec<u8>) -> TileDefinition {
    TileDefinition { id, perimeter, name: b"tile".to_vec() }
}

fn tile(x: i64, y: i64, z: i64, rotation: Orientation, tile_type: u8) -> Tile {
    Tile::new(v(x, y, z), rotation, tile_type)
}

#[test]
fn single_triangle_tile_end_to_end() {
    // Tile set: one tile at the origin facing north, of a type whose
    // perimeter is the three top-face corners 4, 6, 5.
    let tiles = vec![tile(0, 0, 0, Orientation::North, 1)];
    let defs = TileDefinitions(vec![def(1, vec![4, 6, 5])]);
    let mut mesh = DynamicMesh::new();
    build_ground_mesh(&tiles, &defs, &mut mesh);
    assert_eq!(mesh.tri_count(), 1);
    let r = mesh.render_buffers();
    assert_eq!(r.positions.len(), 3);
    assert_eq!(r.indices, vec![0, 1, 2]);
    // Positions match the fixed corner table (grid offset zero).
    assert_eq!(r.positions[0], vertex_at(4));
    assert_eq!(r.positions[1], vertex_at(6));
    assert_eq!(r.positions[2], vertex_at(5));
    // The face normal points up.
    for n in &r.normals {
        assert_eq!(*n, v(0, 1000, 0));
    }
}

#[test]
fn rotation_is_applied_before_translation() {
    let tiles = vec![tile(0, 0, 0, Orientation::East, 1)];
    let defs = TileDefinitions(vec![def(1, vec![4, 6, 5])]);
    let mut mesh = DynamicMesh::new();
    build_ground_mesh(&tiles, &defs, &mut mesh);
    let r = mesh.render_buffers();
    // One quarter turn maps corners 4, 6, 5 to 5, 7, 6.
    assert_eq!(r.positions[0], vertex_at(5));
    assert_eq!(r.positions[1], vertex_at(7));
    assert_eq!(r.positions[2], vertex_at(6));
}

#[test]
fn missing_definition_is_skipped_silently() {
    let defs = TileDefinitions(vec![def(1, vec![4, 6, 5])]);
    let with_unknown = vec![
        tile(0, 0, 0, Orientation::North, 1),
        tile(3, 0, 0, Orientation::North, 9),
    ];
    let only_known = vec![tile(0, 0, 0, Orientation::North, 1)];
    let mut m1 = DynamicMesh::new();
    let mut m2 = DynamicMesh::new();
    build_ground_mesh(&with_unknown, &defs, &mut m1);
    build_ground_mesh(&only_known, &defs, &mut m2);
    assert_eq!(m1.tri_count(), 1);
    let r1 = m1.render_buffers();
    let r2 = m2.render_buffers();
    assert_eq!(r1.positions, r2.positions);
    assert_eq!(r1.indices, r2.indices);
}

#[test]
fn regeneration_twice_is_byte_for_byte_identical() {
    let tiles = vec![
        tile(0, 0, 0, Orientation::North, 1),
        tile(1, 0, 0, Orientation::East, 1),
        tile(0, 1, -1, Orientation::West, 2),
    ];
    let defs = TileDefinitions(vec![def(1, vec![4, 5, 6, 7]), def(2, vec![4, 6, 5])]);
    let mut mesh = DynamicMesh::new();
    build_ground_mesh(&tiles, &defs, &mut mesh);
    let first = mesh.render_buffers();
    let first_collision = mesh.collision_buffers();
    build_ground_mesh(&tiles, &defs, &mut mesh);
    let second = mesh.render_buffers();
    let second_collision = mesh.collision_buffers();
    assert_eq!(first.positions, second.positions);
    assert_eq!(first.normals, second.normals);
    assert_eq!(first.uvs, second.uvs);
    assert_eq!(first.indices, second.indices);
    assert_eq!(first_collision.positions, second_collision.positions);
    assert_eq!(first_collision.triangles, second_collision.triangles);

    let mut walls = DynamicMesh::new();
    build_wall_mesh(&tiles, &defs, &mut walls);
    let w1 = walls.render_buffers();
    build_wall_mesh(&tiles, &defs, &mut walls);
    let w2 = walls.render_buffers();
    assert_eq!(w1.positions, w2.positions);
    assert_eq!(w1.indices, w2.indices);
}

#[test]
fn adjacent_tiles_share_one_edge() {
    // Two unit tiles side by side along x, both with the full top-face
    // perimeter.
    let tiles = vec![
        tile(0, 0, 0, Orientation::North, 1),
        tile(1, 0, 0, Orientation::North, 1),
    ];
    let defs = TileDefinitions(vec![def(1, vec![4, 5, 6, 7])]);
    let (edges, counts) = collect_edges(&tiles, &defs);
    // Eight observations fold into seven distinct edges: the shared seam is
    // seen twice, the six boundary edges once each.
    assert_eq!(edges.len(), 7);
    let shared = Edge(v(500, 0, -500), v(500, 0, 500));
    let mut shared_count = 0;
    let mut boundary = 0;
    for (i, e) in edges.iter().enumerate() {
        if e.approx_eq(&shared) {
            shared_count = counts[i];
        } else {
            assert_eq!(counts[i], 1);
            boundary += 1;
        }
    }
    assert_eq!(shared_count, 2);
    assert_eq!(boundary, 6);
}

#[test]
fn two_tile_strip_walls_are_six_triangles_per_boundary_edge() {
    let tiles = vec![
        tile(0, 0, 0, Orientation::North, 1),
        tile(1, 0, 0, Orientation::North, 1),
    ];
    let defs = TileDefinitions(vec![def(1, vec![4, 5, 6, 7])]);
    let mut walls = DynamicMesh::new();
    build_wall_mesh(&tiles, &defs, &mut walls);
    // Six boundary edges, three faces of two triangles each.
    assert_eq!(walls.tri_count(), 36);
    let r = walls.render_buffers();
    assert_eq!(r.indices.len() % 3, 0);
    assert_eq!((r.indices.len() / 3) % 6, 0);
    let c = walls.collision_buffers();
    assert_eq!(c.triangles.len() % 6, 0);
}

#[test]
fn shared_edges_get_no_wall() {
    // A single tile has four boundary edges: four walls of six triangles.
    let tiles = vec![tile(0, 0, 0, Orientation::North, 1)];
    let defs = TileDefinitions(vec![def(1, vec![4, 5, 6, 7])]);
    let mut walls = DynamicMesh::new();
    build_wall_mesh(&tiles, &defs, &mut walls);
    assert_eq!(walls.tri_count(), 24);
}

#[test]
fn change_notifications_coalesce_into_one_rebuild() {
    let mut state = RegenState::new();
    assert!(!state.tick(true));
    state.note_event(RegenEvent::DefinitionsChanged);
    state.note_event(RegenEvent::TilesChanged);
    state.note_event(RegenEvent::DefinitionsChanged);
    // Definitions not loaded yet: the request is deferred, not dropped.
    assert!(!state.tick(false));
    assert!(!state.tick(false));
    // Once definitions are available, exactly one rebuild runs.
    assert!(state.tick(true));
    assert!(!state.tick(true));
}

#[test]
fn regenerate_rebuilds_both_meshes_or_neither() {
    let tiles = vec![tile(0, 0, 0, Orientation::North, 1)];
    let defs = TileDefinitions(vec![def(1, vec![4, 5, 6, 7])]);
    let mut ground = DynamicMesh::new();
    let mut walls = DynamicMesh::new();
    assert!(tile_mesh::regen::regenerate(&tiles, &defs, &mut ground, &mut walls));
    assert_eq!(ground.tri_count(), 2);
    assert_eq!(walls.tri_count(), 24);

    // A definition with an out-of-range corner index is rejected and the
    // meshes stay as they were.
    let bad_defs = TileDefinitions(vec![def(1, vec![4, 5, 6, 9])]);
    assert!(!tile_mesh::regen::regenerate(&tiles, &bad_defs, &mut ground, &mut walls));
    assert_eq!(ground.tri_count(), 2);
    assert_eq!(walls.tri_count(), 24);
}
