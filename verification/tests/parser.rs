//! Loading tile definitions from their text asset format.

use tile_mesh::loader::TileDefinitionsLoader;

fn load(text: &str) -> Result<tile_mesh::tile_definitions::TileDefinitions, tile_mesh::loader::ParseError> {
    TileDefinitionsLoader.load(text.as_bytes())
}

#[test]
fn loads_a_single_record() {
    let defs = load("[(id: 1, perimeter: [4, 6, 5], name: \"top\")]").unwrap();
    assert_eq!(defs.0.len(), 1);
    assert_eq!(defs.0[0].id, 1);
    assert_eq!(defs.0[0].perimeter, vec![4, 6, 5]);
    assert_eq!(defs.0[0].name, b"top".to_vec());
}

#[test]
fn loads_several_records_with_whitespace_and_trailing_commas() {
    let text = "\n[\n    (id: 1, perimeter: [4, 5, 6, 7,], name: \"floor\",),\n    (id: 2, perimeter: [], name: \"\"),\n]\n";
    let defs = load(text).unwrap();
    assert_eq!(defs.0.len(), 2);
    assert_eq!(defs.0[0].id, 1);
    assert_eq!(defs.0[0].perimeter, vec![4, 5, 6, 7]);
    assert_eq!(defs.0[0].name, b"floor".to_vec());
    assert_eq!(defs.0[1].id, 2);
    assert_eq!(defs.0[1].perimeter, Vec::<u8>::new());
    assert_eq!(defs.0[1].name, Vec::<u8>::new());
}

#[test]
fn loads_an_empty_list() {
    let defs = load("[]").unwrap();
    assert_eq!(defs.0.len(), 0);
    let defs = load("  [\n]  ").unwrap();
    assert_eq!(defs.0.len(), 0);
}

#[test]
fn rejects_missing_brackets() {
    assert!(load("").is_err());
    assert!(load("(id: 1, perimeter: [], name: \"x\")").is_err());
    assert!(load("[(id: 1, perimeter: [], name: \"x\")").is_err());
}

#[test]
fn rejects_wrong_field_names_and_order() {
    assert!(load("[(ident: 1, perimeter: [], name: \"x\")]").is_err());
    assert!(load("[(perimeter: [], id: 1, name: \"x\")]").is_err());
    assert!(load("[(id: 1, name: \"x\", perimeter: [])]").is_err());
}

#[test]
fn rejects_values_out_of_byte_range() {
    assert!(load("[(id: 256, perimeter: [], name: \"x\")]").is_err());
    assert!(load("[(id: 1, perimeter: [999], name: \"x\")]").is_err());
    let ok = load("[(id: 255, perimeter: [255], name: \"x\")]").unwrap();
    assert_eq!(ok.0[0].id, 255);
    assert_eq!(ok.0[0].perimeter, vec![255]);
}

#[test]
fn rejects_missing_number_and_unclosed_name() {
    assert!(load("[(id: , perimeter: [], name: \"x\")]").is_err());
    assert!(load("[(id: 1, perimeter: [], name: \"x)]").is_err());
}

#[test]
fn rejects_trailing_garbage() {
    assert!(load("[] extra").is_err());
    assert!(load("[(id: 1, perimeter: [], name: \"x\")] [").is_err());
}

#[test]
fn loaded_definitions_feed_the_derivations() {
    let defs = load("[(id: 7, perimeter: [4, 5, 6, 7], name: \"floor\")]").unwrap();
    assert!(defs.valid());
    let d = defs.find(7).unwrap();
    let tris = d.triangles().unwrap();
    assert_eq!(tris.len(), 2);
    let edges = d.edges().unwrap();
    assert_eq!(edges.len(), 4);
}
