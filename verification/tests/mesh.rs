//! The mesh accumulation engine: deduplication, comparison rules and
//! degenerate-triangle handling.

use tile_mesh::math::Vec3i;
use tile_mesh::mesh::{CompareRule, DynamicMesh, MeshMaker};

fn v(x: i64, y: i64, z: i64) -> Vec3i {
    Vec3i { x, y, z }
}

#[test]
fn mesh_maker_dedups_a_repeated_triangle() {
    let mut mm = MeshMaker::new();
    let tri = [v(0, 0, 0), v(1000, 0, 0), v(0, 0, 1000)];
    mm.insert_tri(tri);
    mm.insert_tri(tri);
    let r = mm.render_buffers();
    // Three unique vertices and two triangles (six indices), not six
    // vertices.
    assert_eq!(r.positions.len(), 3);
    assert_eq!(r.indices, vec![0, 1, 2, 0, 1, 2]);
}

#[test]
fn dynamic_mesh_dedups_a_repeated_triangle() {
    let mut dm = DynamicMesh::new();
    let tri = [v(0, 0, 0), v(1000, 0, 0), v(0, 0, 1000)];
    dm.insert_tri(tri);
    dm.insert_tri(tri);
    assert_eq!(dm.tri_count(), 2);
    let (tris, verts) = dm.distil(&CompareRule::Mesh);
    assert_eq!(verts.len(), 3);
    assert_eq!(tris.len(), 2);
    assert_eq!(tris[0], tris[1]);
}

#[test]
fn vertices_apart_by_exactly_the_tolerance_stay_distinct() {
    let mut dm = DynamicMesh::new();
    dm.insert_tri([v(0, 0, 0), v(1000, 0, 0), v(0, 0, 1000)]);
    // The same triangle shifted by exactly the tolerance (10 units = 0.01)
    // along x: no corner merges with the first triangle's corners.
    dm.insert_tri([v(10, 0, 0), v(1010, 0, 0), v(10, 0, 1000)]);
    let (_tris, verts) = dm.distil(&CompareRule::Collider);
    assert_eq!(verts.len(), 6);
}

#[test]
fn vertices_apart_by_less_than_the_tolerance_merge() {
    let mut dm = DynamicMesh::new();
    dm.insert_tri([v(0, 0, 0), v(1000, 0, 0), v(0, 0, 1000)]);
    // Shifted by less than the tolerance along x: every corner merges.
    dm.insert_tri([v(9, 0, 0), v(1009, 0, 0), v(9, 0, 1000)]);
    let (tris, verts) = dm.distil(&CompareRule::Collider);
    assert_eq!(verts.len(), 3);
    assert_eq!(tris.len(), 2);
}

#[test]
fn comparison_rules_merge_differently() {
    let mut dm = DynamicMesh::new();
    // Two triangles sharing the edge (1000,0,0)-(0,0,1000) but with opposite
    // facing normals (the second is wound the other way around, below).
    dm.insert_tri([v(0, 0, 0), v(1000, 0, 0), v(0, 0, 1000)]);
    dm.insert_tri([v(1000, 0, 1000), v(1000, 0, 0), v(0, 0, 1000)]);
    let (_, by_position) = dm.distil(&CompareRule::Collider);
    let (_, by_normal) = dm.distil(&CompareRule::MeshNoUV);
    // Position-only comparison shares the two seam vertices; the normals of
    // the two faces differ, so the render rule keeps them apart.
    assert_eq!(by_position.len(), 4);
    assert_eq!(by_normal.len(), 6);
}

#[test]
fn degenerate_triangles_are_skipped() {
    let mut dm = DynamicMesh::new();
    // Collinear corners: the cross product is the zero vector.
    dm.insert_tri([v(0, 0, 0), v(1000, 0, 0), v(2000, 0, 0)]);
    // Coincident corners.
    dm.insert_tri([v(5, 5, 5), v(5, 5, 5), v(1000, 0, 0)]);
    assert_eq!(dm.tri_count(), 0);
    let mut mm = MeshMaker::new();
    mm.insert_tri([v(0, 0, 0), v(1000, 0, 0), v(2000, 0, 0)]);
    assert_eq!(mm.render_buffers().indices.len(), 0);
}

#[test]
fn clear_empties_the_accumulators() {
    let mut dm = DynamicMesh::new();
    dm.insert_tri([v(0, 0, 0), v(1000, 0, 0), v(0, 0, 1000)]);
    dm.clear();
    assert_eq!(dm.tri_count(), 0);
    let mut mm = MeshMaker::new();
    mm.insert_tri([v(0, 0, 0), v(1000, 0, 0), v(0, 0, 1000)]);
    mm.clear();
    assert_eq!(mm.render_buffers().positions.len(), 0);
}

#[test]
fn flat_shading_gives_every_corner_the_face_normal() {
    let mut dm = DynamicMesh::new();
    dm.insert_tri([v(0, 0, 0), v(1000, 0, 0), v(0, 0, 1000)]);
    let r = dm.render_buffers();
    // cross((1000,0,0), (0,0,1000)) points down; all three corners share it.
    assert_eq!(r.normals.len(), 3);
    for n in &r.normals {
        assert_eq!(*n, v(0, -1000, 0));
    }
}

#[test]
fn mesh_maker_insert_returns_shared_indices() {
    let mut mm = MeshMaker::new();
    mm.insert_tri([v(0, 0, 0), v(1000, 0, 0), v(0, 0, 1000)]);
    let r = mm.render_buffers();
    assert_eq!(r.indices, vec![0, 1, 2]);
    assert_eq!(r.positions[0], v(0, 0, 0));
    // MeshMaker derives texture coordinates from the horizontal plane.
    assert_eq!(r.uvs[1], tile_mesh::math::Vec2i { x: 1000, y: 0 });
}

#[test]
fn collision_buffers_carry_positions_and_triples() {
    let mut dm = DynamicMesh::new();
    dm.insert_tri([v(0, 0, 0), v(1000, 0, 0), v(0, 0, 1000)]);
    let c = dm.collision_buffers();
    assert_eq!(c.positions.len(), 3);
    assert_eq!(c.triangles.len(), 1);
    let mut mm = MeshMaker::new();
    mm.insert_tri([v(0, 0, 0), v(1000, 0, 0), v(0, 0, 1000)]);
    let t = mm.trimesh();
    assert_eq!(t.positions.len(), 3);
    assert_eq!(t.triangles.len(), 1);
}
