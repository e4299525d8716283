//! Ground mesh generation: every placed tile whose type has a definition
//! contributes its rotated, translated triangles to one accumulated mesh.
//! Tiles whose type has no definition are skipped silently — partial maps
//! are a normal authoring state.

use vstd::prelude::*;
use crate::mesh::{DynamicMesh, MeshTriangle, spec_insert_tri, MAX_TRIS};
use crate::tile::{Tile, spec_world_vertex};
use crate::tile_definitions::{
    TileDefinition,
    TileDefinitions,
    CornerTri,
    spec_triangles,
    spec_find_def,
    spec_find_from,
};

verus! {

/// Most tiles one regeneration pass accepts; keeps the accumulated triangle
/// count well below [`MAX_TRIS`].
pub const MAX_TILES: usize = 1_000_000;

/// The triangles (as corner-index triples) contributed by one tile: those
/// derived from its definition's perimeter, or none when the tile type has
/// no definition or the perimeter is too short.
pub open spec fn spec_tile_tris(t: Tile, defs: Seq<TileDefinition>) -> Seq<CornerTri> {
    match spec_find_def(defs, t.tile_type) {
        Option::None => Seq::<CornerTri>::empty(),
        Option::Some(d) => if d.perimeter@.len() >= 3 {
            spec_triangles(d.perimeter@)
        } else {
            Seq::<CornerTri>::empty()
        },
    }
}

/// The mesh stream after inserting one corner triangle of tile `t`,
/// placed in world space.
pub open spec fn spec_insert_corner_tri(s: Seq<MeshTriangle>, t: Tile, ct: CornerTri) -> Seq<
    MeshTriangle,
> {
    spec_insert_tri(
        s,
        spec_world_vertex(t, ct.a as int),
        spec_world_vertex(t, ct.b as int),
        spec_world_vertex(t, ct.c as int),
    )
}

/// The mesh stream after inserting the given corner triangles of tile `t`,
/// in order.
pub open spec fn spec_insert_corner_tris(
    s: Seq<MeshTriangle>,
    t: Tile,
    cts: Seq<CornerTri>,
) -> Seq<MeshTriangle>
    decreases cts.len(),
{
    if cts.len() == 0 {
        s
    } else {
        spec_insert_corner_tri(spec_insert_corner_tris(s, t, cts.drop_last()), t, cts.last())
    }
}

/// The ground mesh stream of a whole tile set: each tile's triangles in
/// tile order.
pub open spec fn spec_ground_mesh(tiles: Seq<Tile>, defs: Seq<TileDefinition>) -> Seq<
    MeshTriangle,
>
    decreases tiles.len(),
{
    if tiles.len() == 0 {
        Seq::<MeshTriangle>::empty()
    } else {
        spec_insert_corner_tris(
            spec_ground_mesh(tiles.drop_last(), defs),
            tiles.last(),
            spec_tile_tris(tiles.last(), defs),
        )
    }
}

/// A found definition inherits well-formedness from its collection.
pub proof fn lemma_find_valid(defs: Seq<TileDefinition>, id: u8, i: int)
    requires
        forall|j: int| 0 <= j < defs.len() ==> defs[j].spec_valid(),
    ensures
        spec_find_from(defs, id, i) matches Some(d) ==> d.spec_valid(),
    decreases defs.len() - i,
{
    if 0 <= i < defs.len() && defs[i].id != id {
        lemma_find_valid(defs, id, i + 1);
    }
}

/// Inserting corner triangles grows the stream by at most one triangle
/// each.
proof fn lemma_insert_corner_tris_len(s: Seq<MeshTriangle>, t: Tile, cts: Seq<CornerTri>)
    ensures
        s.len() <= spec_insert_corner_tris(s, t, cts).len() <= s.len() + cts.len(),
    decreases cts.len(),
{
    if cts.len() > 0 {
        lemma_insert_corner_tris_len(s, t, cts.drop_last());
    }
}

/// The ground stream holds at most two triangles per tile.
pub proof fn lemma_ground_mesh_len(tiles: Seq<Tile>, defs: Seq<TileDefinition>)
    ensures
        spec_ground_mesh(tiles, defs).len() <= 2 * tiles.len(),
    decreases tiles.len(),
{
    if tiles.len() > 0 {
        lemma_ground_mesh_len(tiles.drop_last(), defs);
        lemma_insert_corner_tris_len(
            spec_ground_mesh(tiles.drop_last(), defs),
            tiles.last(),
            spec_tile_tris(tiles.last(), defs),
        );
    }
}

/// A tile whose type has no definition contributes nothing: the ground mesh
/// of a tile set extended by such a tile is unchanged, and regeneration
/// carries on for all other tiles.
pub proof fn lemma_missing_definition_skipped(
    tiles: Seq<Tile>,
    t: Tile,
    defs: Seq<TileDefinition>,
)
    requires
        spec_find_def(defs, t.tile_type) is None,
    ensures
        spec_ground_mesh(tiles.push(t), defs) == spec_ground_mesh(tiles, defs),
{
    assert(tiles.push(t).drop_last() =~= tiles);
    assert(tiles.push(t).last() == t);
}

/// Regeneration idempotence: the ground mesh stream is a function of the
/// tiles and definitions alone, so two rebuilds from an unchanged tile set
/// hold identical triangle streams, and every buffer distilled from them
/// under any rule is identical too.
pub proof fn lemma_ground_regen_idempotent(
    tiles: Seq<Tile>,
    defs: Seq<TileDefinition>,
    m1: Seq<MeshTriangle>,
    m2: Seq<MeshTriangle>,
    rule: crate::mesh::CompareRule,
)
    requires
        m1 == spec_ground_mesh(tiles, defs),
        m2 == spec_ground_mesh(tiles, defs),
    ensures
        m1 == m2,
        crate::mesh::spec_distil(m1, rule) == crate::mesh::spec_distil(m2, rule),
{
}

/// Rebuilds the ground mesh from scratch: the accumulator is cleared and
/// every tile's definition triangles are rotated, translated and inserted.
pub fn build_ground_mesh(tiles: &Vec<Tile>, defs: &TileDefinitions, mesh: &mut DynamicMesh)
    requires
        defs.spec_valid(),
        forall|i: int| 0 <= i < tiles@.len() ==> tiles@[i].spec_valid(),
        tiles@.len() <= MAX_TILES,
    ensures
        final(mesh)@ == spec_ground_mesh(tiles@, defs.0@),
{
    mesh.clear();
    let n = tiles.len();
    let mut k: usize = 0;
    while k < n
        invariant
            k <= n,
            n == tiles@.len(),
            n <= MAX_TILES,
            defs.spec_valid(),
            forall|i: int| 0 <= i < tiles@.len() ==> tiles@[i].spec_valid(),
            mesh@ == spec_ground_mesh(tiles@.take(k as int), defs.0@),
        decreases n - k,
    {
        let tile = tiles[k];
        proof {
            lemma_ground_mesh_len(tiles@.take(k as int), defs.0@);
        }
        let ghost prefix = spec_ground_mesh(tiles@.take(k as int), defs.0@);
        if let Some(def) = defs.find(tile.tile_type) {
            proof {
                lemma_find_valid(defs.0@, tile.tile_type, 0);
            }
            if let Some(ts) = def.triangles() {
                let m = ts.len();
                let mut j: usize = 0;
                while j < m
                    invariant
                        j <= m,
                        m == ts@.len(),
                        m <= 2,
                        ts@ == spec_tile_tris(tile, defs.0@),
                        tile.spec_valid(),
                        forall|i: int| 0 <= i < ts@.len() ==> ts@[i].a < 8 && ts@[i].b < 8
                            && ts@[i].c < 8,
                        mesh@ == spec_insert_corner_tris(prefix, tile, ts@.take(j as int)),
                        mesh@.len() <= prefix.len() + j,
                        prefix.len() <= 2 * k,
                        k < n <= MAX_TILES,
                    decreases m - j,
                {
                    let ct = ts[j];
                    let w0 = tile.world_vertex(ct.a);
                    let w1 = tile.world_vertex(ct.b);
                    let w2 = tile.world_vertex(ct.c);
                    mesh.insert_tri([w0, w1, w2]);
                    j += 1;
                    proof {
                        assert(ts@.take(j as int).drop_last() =~= ts@.take(j as int - 1));
                        assert(ts@.take(j as int).last() == ts@[j as int - 1]);
                    }
                }
                proof {
                    assert(ts@.take(m as int) =~= ts@);
                }
            } else {
                proof {
                    assert(spec_tile_tris(tile, defs.0@) =~= Seq::<CornerTri>::empty());
                }
            }
        }
        k += 1;
        proof {
            assert(tiles@.take(k as int).drop_last() =~= tiles@.take(k as int - 1));
            assert(tiles@.take(k as int).last() == tiles@[k as int - 1]);
        }
    }
    proof {
        assert(tiles@.take(n as int) =~= tiles@);
    }
}

} // verus!
