//! Deriving triangles and edges from perimeters, and definition lookup.

use tile_mesh::tile_definitions::{CornerEdge, CornerTri, TileDefinition, TileDefinitions};

fn def(id: u8, perimeter: Vec<u8>) -> TileDefinition {
    TileDefinition { id, perimeter, name: b"tile".to_vec() }
}

#[test]
fn three_point_perimeter_yields_one_triangle() {
    let d = def(1, vec![0, 1, 2]);
    let tris = d.triangles().unwrap();
    assert_eq!(tris.len(), 1);
    assert_eq!(tris[0], CornerTri { a: 0, b: 1, c: 2 });
}

#[test]
fn four_point_perimeter_yields_two_fan_triangles() {
    let d = def(1, vec![0, 1, 2, 3]);
    let tris = d.triangles().unwrap();
    assert_eq!(tris.len(), 2);
    assert_eq!(tris[0], CornerTri { a: 0, b: 1, c: 2 });
    assert_eq!(tris[1], CornerTri { a: 0, b: 2, c: 3 });
}

#[test]
fn short_perimeter_yields_no_triangles() {
    assert!(def(1, vec![]).triangles().is_none());
    assert!(def(1, vec![4]).triangles().is_none());
    assert!(def(1, vec![4, 5]).triangles().is_none());
}

#[test]
fn edges_are_consecutive_pairs_plus_wraparound() {
    let d = def(1, vec![4, 5, 6, 7]);
    let edges = d.edges().unwrap();
    assert_eq!(edges.len(), 4);
    assert_eq!(edges[0], CornerEdge { a: 4, b: 5 });
    assert_eq!(edges[1], CornerEdge { a: 5, b: 6 });
    assert_eq!(edges[2], CornerEdge { a: 6, b: 7 });
    assert_eq!(edges[3], CornerEdge { a: 7, b: 4 });
}

#[test]
fn empty_perimeter_yields_no_edges() {
    assert!(def(1, vec![]).edges().is_none());
}

#[test]
fn single_point_perimeter_yields_its_self_edge() {
    let edges = def(1, vec![5]).edges().unwrap();
    assert_eq!(edges.len(), 1);
    assert_eq!(edges[0], CornerEdge { a: 5, b: 5 });
}

#[test]
fn find_returns_first_match() {
    let defs = TileDefinitions(vec![def(1, vec![0, 1, 2]), def(2, vec![4, 5, 6]), def(
        2,
        vec![0, 1, 2, 3],
    )]);
    let found = defs.find(2).unwrap();
    assert_eq!(found.perimeter, vec![4, 5, 6]);
    assert!(defs.find(9).is_none());
}

#[test]
fn validity_checks_corner_range_and_length() {
    assert!(def(1, vec![0, 7]).valid());
    assert!(!def(1, vec![0, 8]).valid());
    assert!(!def(1, vec![0, 1, 2, 3, 0]).valid());
    let good = TileDefinitions(vec![def(1, vec![4, 5, 6, 7])]);
    assert!(good.valid());
    let bad = TileDefinitions(vec![def(1, vec![4, 5, 6, 7]), def(2, vec![9])]);
    assert!(!bad.valid());
}

#[test]
fn default_definition_is_the_unknown_placeholder() {
    let d = TileDefinition::default();
    assert_eq!(d.id, 0);
    assert!(d.perimeter.is_empty());
    assert_eq!(d.name, b"Error: Unknown".to_vec());
}
