//! Rotation, cube corners and tolerance-based equality.

use tile_mesh::math::Vec3i;
use tile_mesh::tile::{rotate_index, vertex_at, Edge, Orientation, Tile};

fn orientations() -> [Orientation; 4] {
    [Orientation::North, Orientation::East, Orientation::South, Orientation::West]
}

/// Applies single quarter turns `k` times.
fn rotate_k_times(index: u8, k: u32) -> u8 {
    let mut r = index;
    let mut n: u32 = 0;
    while n < k {
        r = rotate_index(r, &Orientation::East);
        n += 1;
    }
    r
}

#[test]
fn rotation_by_north_is_identity() {
    for i in 0..8u8 {
        assert_eq!(rotate_index(i, &Orientation::North), i);
    }
}

#[test]
fn rotation_iterated_equals_rotation_mod_four() {
    let os = orientations();
    for i in 0..8u8 {
        for k in 0..13u32 {
            let by_steps = rotate_k_times(i, k);
            let direct = rotate_index(i, &os[(k % 4) as usize]);
            assert_eq!(by_steps, direct);
        }
    }
}

#[test]
fn rotation_never_mixes_bottom_and_top_groups() {
    for i in 0..8u8 {
        for o in orientations() {
            let r = rotate_index(i, &o);
            assert!(r < 8);
            assert_eq!(i < 4, r < 4);
        }
    }
}

#[test]
fn rotation_concrete_values() {
    assert_eq!(rotate_index(0, &Orientation::East), 1);
    assert_eq!(rotate_index(3, &Orientation::East), 0);
    assert_eq!(rotate_index(4, &Orientation::East), 5);
    assert_eq!(rotate_index(7, &Orientation::East), 4);
    assert_eq!(rotate_index(1, &Orientation::South), 3);
    assert_eq!(rotate_index(6, &Orientation::West), 5);
}

#[test]
fn cube_corners_are_scaled_by_bounds() {
    assert_eq!(vertex_at(0), Vec3i { x: 500, y: -500, z: -500 });
    assert_eq!(vertex_at(1), Vec3i { x: 500, y: -500, z: 500 });
    assert_eq!(vertex_at(2), Vec3i { x: -500, y: -500, z: 500 });
    assert_eq!(vertex_at(3), Vec3i { x: -500, y: -500, z: -500 });
    assert_eq!(vertex_at(4), Vec3i { x: 500, y: 0, z: -500 });
    assert_eq!(vertex_at(5), Vec3i { x: 500, y: 0, z: 500 });
    assert_eq!(vertex_at(6), Vec3i { x: -500, y: 0, z: 500 });
    assert_eq!(vertex_at(7), Vec3i { x: -500, y: 0, z: -500 });
}

#[test]
fn world_vertex_offsets_by_grid_position() {
    let t = Tile::new(Vec3i { x: 2, y: 1, z: -1 }, Orientation::North, 1);
    // Corner 4 is (500, 0, -500); the grid position scales per-axis by
    // (1000, 500, 1000).
    assert_eq!(t.world_vertex(4), Vec3i { x: 2500, y: 500, z: -1500 });
}

#[test]
fn tolerance_boundary_exact_difference_is_distinct() {
    let a = Vec3i { x: 0, y: 0, z: 0 };
    // Differing by exactly the tolerance (10 units = 0.01) in one component.
    assert!(!a.approx_eq(Vec3i { x: 10, y: 0, z: 0 }));
    assert!(!a.approx_eq(Vec3i { x: 0, y: -10, z: 0 }));
    assert!(!a.approx_eq(Vec3i { x: 0, y: 0, z: 10 }));
}

#[test]
fn tolerance_boundary_smaller_difference_is_equal() {
    let a = Vec3i { x: 0, y: 0, z: 0 };
    assert!(a.approx_eq(Vec3i { x: 9, y: -9, z: 9 }));
    assert!(a.approx_eq(Vec3i { x: 0, y: 0, z: 0 }));
}

#[test]
fn edge_equality_is_symmetric_in_endpoint_order() {
    let a = Vec3i { x: 500, y: 0, z: -500 };
    let b = Vec3i { x: 500, y: 0, z: 500 };
    let c = Vec3i { x: -500, y: 0, z: 500 };
    assert!(Edge(a, b).approx_eq(&Edge(b, a)));
    assert!(Edge(a, b).approx_eq(&Edge(a, b)));
    assert!(!Edge(a, b).approx_eq(&Edge(a, c)));
}
