//! Wall generation along exposed tile edges.
//!
//! Every tile contributes the world-space edges of its definition. An edge
//! occurring exactly once across the whole tile set is a boundary edge: no
//! neighbouring tile shares it, so a wall is extruded there. Edges occurring
//! two or more times are internal and produce no wall.

use vstd::prelude::*;
use crate::math::{Vec3i, spec_plus, spec_minus, spec_normalize, spec_scale_frac, scale_frac,
    SCALE, abs_int};
use crate::mesh::{DynamicMesh, MeshTriangle, spec_insert_tri, MAX_TRIS};
use crate::tile::{Tile, Edge, spec_edge_eq, spec_world_vertex, spec_world_bounded, BOUNDS_Y};
use crate::tile_definitions::{
    TileDefinition,
    TileDefinitions,
    CornerEdge,
    spec_edges,
    spec_find_def,
};
use crate::ground::{MAX_TILES, lemma_find_valid};

verus! {

/// Wall thickness, and wall height above the tile top, in fixed-point
/// units.
pub const WALL_SIZE: i64 = 80;

/// The world-space edge of tile `t` for the corner pair `ce`.
pub open spec fn spec_world_edge(t: Tile, ce: CornerEdge) -> Edge {
    Edge(spec_world_vertex(t, ce.a as int), spec_world_vertex(t, ce.b as int))
}

/// Both endpoints of the edge lie within the world-space corner range.
pub open spec fn spec_edge_bounded(e: Edge) -> bool {
    spec_world_bounded(e.0) && spec_world_bounded(e.1)
}

/// The world-space edges contributed by one tile: its definition's derived
/// edges placed in world space, or none when the tile type has no
/// definition or the perimeter is empty.
pub open spec fn spec_tile_edges(t: Tile, defs: Seq<TileDefinition>) -> Seq<Edge> {
    match spec_find_def(defs, t.tile_type) {
        Option::None => Seq::<Edge>::empty(),
        Option::Some(d) => if d.perimeter@.len() >= 1 {
            Seq::new(
                spec_edges(d.perimeter@).len(),
                |i: int| spec_world_edge(t, spec_edges(d.perimeter@)[i]),
            )
        } else {
            Seq::<Edge>::empty()
        },
    }
}

/// The edge stream of a whole tile set, in tile order.
pub open spec fn spec_all_edges(tiles: Seq<Tile>, defs: Seq<TileDefinition>) -> Seq<Edge>
    decreases tiles.len(),
{
    if tiles.len() == 0 {
        Seq::<Edge>::empty()
    } else {
        spec_all_edges(tiles.drop_last(), defs) + spec_tile_edges(tiles.last(), defs)
    }
}

/// First index at or after `i` of a distinct edge approximately equal to
/// `e`; `edges.len()` when there is none.
pub open spec fn spec_edge_scan(edges: Seq<Edge>, e: Edge, i: int) -> int
    decreases edges.len() - i,
{
    if i < 0 || i >= edges.len() {
        edges.len() as int
    } else if spec_edge_eq(e, edges[i]) {
        i
    } else {
        spec_edge_scan(edges, e, i + 1)
    }
}

pub open spec fn spec_edge_find(edges: Seq<Edge>, e: Edge) -> int {
    spec_edge_scan(edges, e, 0)
}

/// One observation of an edge: the count of the first approximately equal
/// distinct edge is incremented, or a new distinct edge is registered with
/// count one.
pub open spec fn spec_note_edge(state: (Seq<Edge>, Seq<int>), e: Edge) -> (Seq<Edge>, Seq<int>) {
    let i = spec_edge_find(state.0, e);
    if i < state.0.len() {
        (state.0, state.1.update(i, state.1[i] + 1))
    } else {
        (state.0.push(e), state.1.push(1))
    }
}

/// The distinct edges of a stream with their occurrence counts, in
/// first-seen order.
pub open spec fn spec_count_edges(es: Seq<Edge>) -> (Seq<Edge>, Seq<int>)
    decreases es.len(),
{
    if es.len() == 0 {
        (Seq::<Edge>::empty(), Seq::<int>::empty())
    } else {
        spec_note_edge(spec_count_edges(es.drop_last()), es.last())
    }
}

/// Counting keeps the edge and count lists aligned; every count is at least
/// one and at most the stream length, and there are no more distinct edges
/// than observations.
pub proof fn lemma_count_edges_bounds(es: Seq<Edge>)
    ensures
        spec_count_edges(es).0.len() == spec_count_edges(es).1.len(),
        spec_count_edges(es).0.len() <= es.len(),
        forall|i: int|
            0 <= i < spec_count_edges(es).1.len() ==> 1 <= #[trigger] spec_count_edges(es).1[i]
                <= es.len(),
    decreases es.len(),
{
    if es.len() > 0 {
        lemma_count_edges_bounds(es.drop_last());
        let prev = spec_count_edges(es.drop_last());
        let e = es.last();
        let i = spec_edge_find(prev.0, e);
        lemma_edge_scan_bounds(prev.0, e, 0);
        if i < prev.0.len() {
            let cur = prev.1.update(i, prev.1[i] + 1);
            assert(spec_count_edges(es).1 == cur);
            assert forall|j: int| 0 <= j < cur.len() implies 1 <= #[trigger] cur[j]
                <= es.len() by {
                assert(1 <= prev.1[j] <= es.drop_last().len());
            }
        } else {
            let cur = prev.1.push(1);
            assert(spec_count_edges(es).1 == cur);
            assert forall|j: int| 0 <= j < cur.len() implies 1 <= #[trigger] cur[j]
                <= es.len() by {
                if j < prev.1.len() {
                    assert(1 <= prev.1[j] <= es.drop_last().len());
                }
            }
        }
    }
}

/// No later distinct edge compares equal to an earlier one: the counter
/// registers each edge once and increments it thereafter.
pub open spec fn spec_edges_distinct(edges: Seq<Edge>) -> bool {
    forall|i: int, j: int|
        0 <= i < j < edges.len() ==> !spec_edge_eq(#[trigger] edges[j], #[trigger] edges[i])
}

/// A scan that passes an edge found no match there.
proof fn lemma_edge_scan_no_match(edges: Seq<Edge>, e: Edge, i: int)
    requires
        0 <= i <= edges.len(),
    ensures
        i <= spec_edge_scan(edges, e, i) <= edges.len(),
        forall|m: int|
            i <= m < spec_edge_scan(edges, e, i) ==> !spec_edge_eq(e, #[trigger] edges[m]),
    decreases edges.len() - i,
{
    if i < edges.len() && !spec_edge_eq(e, edges[i]) {
        lemma_edge_scan_no_match(edges, e, i + 1);
    }
}

/// Counting leaves the distinct-edge list free of approximate duplicates.
pub proof fn lemma_count_edges_distinct(es: Seq<Edge>)
    ensures
        spec_edges_distinct(spec_count_edges(es).0),
    decreases es.len(),
{
    if es.len() > 0 {
        lemma_count_edges_distinct(es.drop_last());
        let prev = spec_count_edges(es.drop_last());
        let e = es.last();
        lemma_edge_scan_no_match(prev.0, e, 0);
    }
}

/// The total of a count list.
pub open spec fn spec_sum(counts: Seq<int>) -> int
    decreases counts.len(),
{
    if counts.len() == 0 {
        0
    } else {
        spec_sum(counts.drop_last()) + counts.last()
    }
}

/// Incrementing one entry increments the total.
proof fn lemma_sum_update(counts: Seq<int>, i: int)
    requires
        0 <= i < counts.len(),
    ensures
        spec_sum(counts.update(i, counts[i] + 1)) == spec_sum(counts) + 1,
    decreases counts.len(),
{
    let cur = counts.update(i, counts[i] + 1);
    if i == counts.len() - 1 {
        assert(cur.drop_last() =~= counts.drop_last());
    } else {
        lemma_sum_update(counts.drop_last(), i);
        assert(cur.drop_last() =~= counts.drop_last().update(i, counts[i] + 1));
    }
}

/// The occurrence counts partition the stream: they sum to the number of
/// observations, so no edge observation is lost or double-counted.
pub proof fn lemma_count_edges_sum(es: Seq<Edge>)
    ensures
        spec_sum(spec_count_edges(es).1) == es.len(),
    decreases es.len(),
{
    if es.len() > 0 {
        lemma_count_edges_sum(es.drop_last());
        lemma_count_edges_bounds(es.drop_last());
        let prev = spec_count_edges(es.drop_last());
        let e = es.last();
        let i = spec_edge_find(prev.0, e);
        lemma_edge_scan_bounds(prev.0, e, 0);
        if i < prev.0.len() {
            lemma_sum_update(prev.1, i);
        } else {
            assert(prev.1.push(1).drop_last() =~= prev.1);
        }
    }
}

/// The scan stays within the list: it returns an index between its starting
/// point and the list length.
pub proof fn lemma_edge_scan_bounds(edges: Seq<Edge>, e: Edge, i: int)
    requires
        0 <= i <= edges.len(),
    ensures
        i <= spec_edge_scan(edges, e, i) <= edges.len(),
    decreases edges.len() - i,
{
    if i < edges.len() && !spec_edge_eq(e, edges[i]) {
        lemma_edge_scan_bounds(edges, e, i + 1);
    }
}

/// With well-formed definitions, a tile set yields at most four edges per
/// tile.
pub proof fn lemma_all_edges_len(tiles: Seq<Tile>, defs: Seq<TileDefinition>)
    requires
        forall|j: int| 0 <= j < defs.len() ==> defs[j].spec_valid(),
    ensures
        spec_all_edges(tiles, defs).len() <= 4 * tiles.len(),
    decreases tiles.len(),
{
    if tiles.len() > 0 {
        lemma_all_edges_len(tiles.drop_last(), defs);
        lemma_find_valid(defs, tiles.last().tile_type, 0);
    }
}

/// First-match scan over the distinct edges seen so far.
fn edge_find(edges: &Vec<Edge>, e: &Edge) -> (idx: usize)
    ensures
        idx as int == spec_edge_find(edges@, *e),
        idx <= edges@.len(),
{
    let n = edges.len();
    let mut i: usize = 0;
    while i < n
        invariant
            i <= n,
            n == edges@.len(),
            spec_edge_find(edges@, *e) == spec_edge_scan(edges@, *e, i as int),
        decreases n - i,
    {
        if e.approx_eq(&edges[i]) {
            return i;
        }
        i += 1;
    }
    n
}

/// Collects the distinct world-space edges of the tile set with their
/// occurrence counts, in first-seen order.
pub fn collect_edges(tiles: &Vec<Tile>, defs: &TileDefinitions) -> (r: (Vec<Edge>, Vec<u64>))
    requires
        defs.spec_valid(),
        forall|i: int| 0 <= i < tiles@.len() ==> tiles@[i].spec_valid(),
        tiles@.len() <= MAX_TILES,
    ensures
        r.0@ == spec_count_edges(spec_all_edges(tiles@, defs.0@)).0,
        r.1@.len() == r.0@.len(),
        forall|i: int|
            0 <= i < r.1@.len() ==> r.1@[i] as int == spec_count_edges(
                spec_all_edges(tiles@, defs.0@),
            ).1[i],
        forall|i: int| 0 <= i < r.0@.len() ==> spec_edge_bounded(#[trigger] r.0@[i]),
{
    let mut edges: Vec<Edge> = Vec::new();
    let mut counts: Vec<u64> = Vec::new();
    let n = tiles.len();
    let mut k: usize = 0;
    while k < n
        invariant
            k <= n,
            n == tiles@.len(),
            n <= MAX_TILES,
            defs.spec_valid(),
            forall|i: int| 0 <= i < tiles@.len() ==> tiles@[i].spec_valid(),
            edges@ == spec_count_edges(spec_all_edges(tiles@.take(k as int), defs.0@)).0,
            counts@.len() == edges@.len(),
            forall|i: int|
                0 <= i < counts@.len() ==> counts@[i] as int == spec_count_edges(
                    spec_all_edges(tiles@.take(k as int), defs.0@),
                ).1[i],
            forall|i: int| 0 <= i < edges@.len() ==> spec_edge_bounded(#[trigger] edges@[i]),
        decreases n - k,
    {
        let tile = tiles[k];
        let ghost prefix = spec_all_edges(tiles@.take(k as int), defs.0@);
        proof {
            lemma_all_edges_len(tiles@.take(k as int), defs.0@);
        }
        if let Some(def) = defs.find(tile.tile_type) {
            proof {
                lemma_find_valid(defs.0@, tile.tile_type, 0);
            }
            if let Some(es) = def.edges() {
                let ghost tedges = spec_tile_edges(tile, defs.0@);
                proof {
                    assert(tedges.len() == es@.len());
                    assert forall|i: int| 0 <= i < es@.len() implies tedges[i] == spec_world_edge(
                        tile,
                        es@[i],
                    ) by {}
                    assert forall|i: int| 0 <= i < es@.len() implies es@[i].a < 8 && es@[i].b
                        < 8 by {
                        assert(def.spec_valid());
                    }
                }
                let m = es.len();
                let mut j: usize = 0;
                while j < m
                    invariant
                        j <= m,
                        m == es@.len(),
                        m <= 4,
                        k < n <= MAX_TILES,
                        tile.spec_valid(),
                        tedges.len() == m,
                        forall|i: int|
                            0 <= i < m ==> tedges[i] == spec_world_edge(tile, #[trigger] es@[i]),
                        forall|i: int| 0 <= i < m ==> (#[trigger] es@[i].a) < 8 && es@[i].b < 8,
                        prefix.len() <= 4 * k,
                        edges@ == spec_count_edges(prefix + tedges.take(j as int)).0,
                        counts@.len() == edges@.len(),
                        forall|i: int|
                            0 <= i < counts@.len() ==> counts@[i] as int == spec_count_edges(
                                prefix + tedges.take(j as int),
                            ).1[i],
                        forall|i: int| 0 <= i < edges@.len() ==> spec_edge_bounded(
                            #[trigger] edges@[i],
                        ),
                    decreases m - j,
                {
                    let ce = es[j];
                    let w0 = tile.world_vertex(ce.a);
                    let w1 = tile.world_vertex(ce.b);
                    let new_edge = Edge(w0, w1);
                    proof {
                        assert(new_edge == tedges[j as int]);
                        assert((prefix + tedges.take(j as int + 1)).drop_last() =~= prefix
                            + tedges.take(j as int));
                        assert((prefix + tedges.take(j as int + 1)).last() == tedges[j as int]);
                        lemma_count_edges_bounds(prefix + tedges.take(j as int));
                    }
                    let idx = edge_find(&edges, &new_edge);
                    if idx < edges.len() {
                        let c = counts[idx];
                        counts[idx] = c + 1;
                    } else {
                        edges.push(new_edge);
                        counts.push(1);
                    }
                    j += 1;
                }
                proof {
                    assert(tedges.take(m as int) =~= tedges);
                }
            } else {
                proof {
                    assert(spec_tile_edges(tile, defs.0@) =~= Seq::<Edge>::empty());
                    assert(prefix + spec_tile_edges(tile, defs.0@) =~= prefix);
                }
            }
        } else {
            proof {
                assert(spec_tile_edges(tile, defs.0@) =~= Seq::<Edge>::empty());
                assert(prefix + spec_tile_edges(tile, defs.0@) =~= prefix);
            }
        }
        k += 1;
        proof {
            assert(tiles@.take(k as int).drop_last() =~= tiles@.take(k as int - 1));
            assert(tiles@.take(k as int).last() == tiles@[k as int - 1]);
            assert(spec_all_edges(tiles@.take(k as int), defs.0@) == prefix + spec_tile_edges(
                tiles@[k as int - 1],
                defs.0@,
            ));
        }
    }
    proof {
        assert(tiles@.take(n as int) =~= tiles@);
    }
    (edges, counts)
}

/// The inward offset of a wall along the edge `(a, b)`: the horizontal
/// normal of the edge direction, scaled to the wall thickness.
pub open spec fn spec_wall_inside(a: Vec3i, b: Vec3i) -> Vec3i {
    let n = spec_normalize(spec_minus(a, b));
    Vec3i {
        x: spec_scale_frac(-(n.z as int), WALL_SIZE as int, SCALE as int) as i64,
        y: 0i64,
        z: spec_scale_frac(n.x as int, WALL_SIZE as int, SCALE as int) as i64,
    }
}

/// The wall geometry for one boundary edge: an outward face, a top cap and
/// an inward face, two triangles each, wound to face outward. An edge with
/// coincident endpoints has no direction and is skipped, as is any
/// individual degenerate triangle.
pub open spec fn spec_wall_tris(s: Seq<MeshTriangle>, a: Vec3i, b: Vec3i) -> Seq<MeshTriangle> {
    if a == b {
        s
    } else {
        let up = Vec3i { x: 0i64, y: WALL_SIZE, z: 0i64 };
        let btm = Vec3i { x: 0i64, y: (-BOUNDS_Y) as i64, z: 0i64 };
        let inside = spec_wall_inside(a, b);
        let s1 = spec_insert_tri(s, spec_plus(b, up), spec_plus(a, up), spec_plus(a, btm));
        let s2 = spec_insert_tri(s1, spec_plus(a, btm), spec_plus(b, btm), spec_plus(b, up));
        let s3 = spec_insert_tri(
            s2,
            spec_plus(spec_plus(b, up), inside),
            spec_plus(a, up),
            spec_plus(b, up),
        );
        let s4 = spec_insert_tri(
            s3,
            spec_plus(spec_plus(b, up), inside),
            spec_plus(spec_plus(a, up), inside),
            spec_plus(a, up),
        );
        let s5 = spec_insert_tri(
            s4,
            spec_plus(spec_plus(b, up), inside),
            spec_plus(spec_plus(b, btm), inside),
            spec_plus(spec_plus(a, btm), inside),
        );
        spec_insert_tri(
            s5,
            spec_plus(spec_plus(b, up), inside),
            spec_plus(spec_plus(a, btm), inside),
            spec_plus(spec_plus(a, up), inside),
        )
    }
}

/// The wall stream over the first `n` distinct edges: exactly the edges
/// with occurrence count one get walls.
pub open spec fn spec_build_walls(edges: Seq<Edge>, counts: Seq<int>, n: int) -> Seq<MeshTriangle>
    decreases n,
{
    if n <= 0 {
        Seq::<MeshTriangle>::empty()
    } else {
        let s = spec_build_walls(edges, counts, n - 1);
        if counts[n - 1] == 1 {
            spec_wall_tris(s, edges[n - 1].0, edges[n - 1].1)
        } else {
            s
        }
    }
}

/// The wall mesh stream of a whole tile set.
pub open spec fn spec_wall_mesh(tiles: Seq<Tile>, defs: Seq<TileDefinition>) -> Seq<MeshTriangle> {
    let ec = spec_count_edges(spec_all_edges(tiles, defs));
    spec_build_walls(ec.0, ec.1, ec.0.len() as int)
}

/// A wall adds at most six triangles per boundary edge.
proof fn lemma_wall_tris_len(s: Seq<MeshTriangle>, a: Vec3i, b: Vec3i)
    ensures
        s.len() <= spec_wall_tris(s, a, b).len() <= s.len() + 6,
{
}

/// A cross product of in-range vectors is nonzero when one of its component
/// polynomials is.
proof fn lemma_cross_component_nonzero(e1: Vec3i, e2: Vec3i)
    requires
        abs_int(e1.x as int) <= 400_000_000,
        abs_int(e1.y as int) <= 400_000_000,
        abs_int(e1.z as int) <= 400_000_000,
        abs_int(e2.x as int) <= 400_000_000,
        abs_int(e2.y as int) <= 400_000_000,
        abs_int(e2.z as int) <= 400_000_000,
        (e1.y * e2.z - e1.z * e2.y != 0) || (e1.z * e2.x - e1.x * e2.z != 0) || (e1.x * e2.y - e1.y
            * e2.x != 0),
    ensures
        !crate::math::spec_cross(e1, e2).spec_is_zero(),
{
    crate::math::lemma_mul_bound(e1.x as int, e2.y as int, 400_000_000, 400_000_000);
    crate::math::lemma_mul_bound(e1.x as int, e2.z as int, 400_000_000, 400_000_000);
    crate::math::lemma_mul_bound(e1.y as int, e2.x as int, 400_000_000, 400_000_000);
    crate::math::lemma_mul_bound(e1.y as int, e2.z as int, 400_000_000, 400_000_000);
    crate::math::lemma_mul_bound(e1.z as int, e2.x as int, 400_000_000, 400_000_000);
    crate::math::lemma_mul_bound(e1.z as int, e2.y as int, 400_000_000, 400_000_000);
}

/// Scaling a nonzero integer by a nonzero constant keeps it nonzero.
proof fn lemma_scaled_nonzero(c: int, x: int)
    by (nonlinear_arith)
    requires
        c != 0,
        x != 0,
    ensures
        c * x != 0,
{
}

/// An axis-aligned vector normalizes to the exact fixed-point unit vector
/// of its axis.
proof fn lemma_normalize_axis(v: Vec3i)
    requires
        v.y == 0,
        (v.x == 0) != (v.z == 0),
    ensures
        spec_normalize(v) == (Vec3i {
            x: if v.x > 0 {
                1000i64
            } else if v.x < 0 {
                -1000i64
            } else {
                0i64
            },
            y: 0i64,
            z: if v.z > 0 {
                1000i64
            } else if v.z < 0 {
                -1000i64
            } else {
                0i64
            },
        }),
{
    let m2 = crate::math::spec_mag_sq(v);
    let md: int = if v.x == 0 {
        abs_int(v.z as int)
    } else {
        abs_int(v.x as int)
    };
    assert(m2 == md * md) by (nonlinear_arith)
        requires
            m2 == v.x * v.x + v.y * v.y + v.z * v.z,
            v.y == 0,
            (v.z == 0 && (md == v.x || md == -v.x)) || (v.x == 0 && (md == v.z || md == -v.z)),
    ;
    assert(md >= 1);
    assert(md * md < (md + 1) * (md + 1)) by (nonlinear_arith)
        requires
            md >= 0,
    ;
    crate::math::lemma_isqrt_unique(m2 as nat, md as nat);
    assert(crate::math::spec_mag(v) == md);
    vstd::arithmetic::div_mod::lemma_div_multiples_vanish(1000, md);
    assert((md * 1000) / md == 1000);
    vstd::arithmetic::div_mod::lemma_div_multiples_vanish(0, md);
    assert((md * 0) / md == 0);
    if v.x != 0 {
        if v.x > 0 {
            assert(v.x as int * 1000 == md * 1000);
            assert(crate::math::spec_norm_comp(v.x as int, md) == 1000);
        } else {
            assert((-(v.x as int)) * 1000 == md * 1000);
            assert(crate::math::spec_norm_comp(v.x as int, md) == -1000);
        }
        assert(crate::math::spec_norm_comp(v.z as int, md) == 0);
    } else {
        if v.z > 0 {
            assert(v.z as int * 1000 == md * 1000);
            assert(crate::math::spec_norm_comp(v.z as int, md) == 1000);
        } else {
            assert((-(v.z as int)) * 1000 == md * 1000);
            assert(crate::math::spec_norm_comp(v.z as int, md) == -1000);
        }
        assert(crate::math::spec_norm_comp(v.x as int, md) == 0);
    }
    assert(crate::math::spec_norm_comp(v.y as int, md) == 0);
}

/// Wall-count exactness for grid-aligned edges: a horizontal edge along a
/// single axis (as every edge of an axis-aligned tile footprint is)
/// degenerates in none of its six wall triangles, so a boundary edge
/// produces exactly six.
#[verifier::rlimit(80)]
pub proof fn lemma_axis_aligned_wall_count(s: Seq<MeshTriangle>, a: Vec3i, b: Vec3i)
    requires
        spec_world_bounded(a),
        spec_world_bounded(b),
        a.y == b.y,
        (a.x == b.x) != (a.z == b.z),
    ensures
        spec_wall_tris(s, a, b).len() == s.len() + 6,
{
    let dx = a.x - b.x;
    let dz = a.z - b.z;
    assert(a != b);
    let d = spec_minus(a, b);
    assert(d.x == dx && d.y == 0 && d.z == dz);
    lemma_normalize_axis(d);
    let n = spec_normalize(d);
    let inside = spec_wall_inside(a, b);
    let ix = inside.x as int;
    let iz = inside.z as int;
    assert(inside.y == 0);
    assert(dx != 0 ==> ix == 0 && (iz == 80 || iz == -80));
    assert(dz != 0 ==> iz == 0 && (ix == 80 || ix == -80));
    assert(dx > 0 ==> iz == 80);
    assert(dx < 0 ==> iz == -80);
    assert(dz > 0 ==> ix == -80);
    assert(dz < 0 ==> ix == 80);
    let horiz: int = dx * iz - dz * ix;
    assert(horiz != 0) by (nonlinear_arith)
        requires
            horiz == dx * iz - dz * ix,
            (dx == 0) != (dz == 0),
            dx > 0 ==> iz == 80,
            dx < 0 ==> iz == -80,
            dx == 0 ==> iz == 0,
            dz > 0 ==> ix == -80,
            dz < 0 ==> ix == 80,
            dz == 0 ==> ix == 0,
    ;

    let up = Vec3i { x: 0i64, y: WALL_SIZE, z: 0i64 };
    let btm = Vec3i { x: 0i64, y: (-BOUNDS_Y) as i64, z: 0i64 };

    // Outward face.
    let o1 = spec_plus(b, up);
    let o2 = spec_plus(a, up);
    let o3 = spec_plus(a, btm);
    let e1 = spec_minus(o2, o1);
    let e2 = spec_minus(o3, o1);
    assert(e1.x == dx && e1.y == 0 && e1.z == dz);
    assert(e2.x == dx && e2.y == -580 && e2.z == dz);
    assert(e1.x * e2.y - e1.y * e2.x == -580 * dx && e1.y * e2.z - e1.z * e2.y == 580 * dz)
        by (nonlinear_arith)
        requires
            e1.x == dx,
            e1.y == 0,
            e1.z == dz,
            e2.x == dx,
            e2.y == -580,
            e2.z == dz,
    ;
    assert(dx != 0 || dz != 0);
    if dx != 0 {
        lemma_scaled_nonzero(-580, dx);
        lemma_scaled_nonzero(580, dx);
    } else {
        lemma_scaled_nonzero(-580, dz);
        lemma_scaled_nonzero(580, dz);
    }
    assert(e1.x * e2.y - e1.y * e2.x != 0 || e1.y * e2.z - e1.z * e2.y != 0);
    lemma_cross_component_nonzero(e1, e2);
    assert(!crate::mesh::spec_degenerate(o1, o2, o3));

    let t1 = spec_plus(a, btm);
    let t2 = spec_plus(b, btm);
    let t3 = spec_plus(b, up);
    let f1 = spec_minus(t2, t1);
    let f2 = spec_minus(t3, t1);
    assert(f1.x == -dx && f1.y == 0 && f1.z == -dz);
    assert(f2.x == -dx && f2.y == 580 && f2.z == -dz);
    assert(f1.x * f2.y - f1.y * f2.x == -580 * dx && f1.y * f2.z - f1.z * f2.y == 580 * dz)
        by (nonlinear_arith)
        requires
            f1.x == -dx,
            f1.y == 0,
            f1.z == -dz,
            f2.x == -dx,
            f2.y == 580,
            f2.z == -dz,
    ;
    if dx != 0 {
        lemma_scaled_nonzero(-580, dx);
        lemma_scaled_nonzero(580, dx);
    } else {
        lemma_scaled_nonzero(-580, dz);
        lemma_scaled_nonzero(580, dz);
    }
    assert(f1.x * f2.y - f1.y * f2.x != 0 || f1.y * f2.z - f1.z * f2.y != 0);
    lemma_cross_component_nonzero(f1, f2);
    assert(!crate::mesh::spec_degenerate(t1, t2, t3));

    // Top cap.
    let c1 = spec_plus(spec_plus(b, up), inside);
    let c2 = spec_plus(a, up);
    let c3 = spec_plus(b, up);
    let g1 = spec_minus(c2, c1);
    let g2 = spec_minus(c3, c1);
    assert(g1.x == dx - ix && g1.y == 0 && g1.z == dz - iz);
    assert(g2.x == -ix && g2.y == 0 && g2.z == -iz);
    assert(g1.z * g2.x - g1.x * g2.z == horiz) by (nonlinear_arith)
        requires
            g1.x == dx - ix,
            g1.z == dz - iz,
            g2.x == -ix,
            g2.z == -iz,
            horiz == dx * iz - dz * ix,
    ;
    assert(g1.z * g2.x - g1.x * g2.z != 0);
    lemma_cross_component_nonzero(g1, g2);
    assert(!crate::mesh::spec_degenerate(c1, c2, c3));

    let d1 = spec_plus(spec_plus(b, up), inside);
    let d2 = spec_plus(spec_plus(a, up), inside);
    let d3 = spec_plus(a, up);
    let h1 = spec_minus(d2, d1);
    let h2 = spec_minus(d3, d1);
    assert(h1.x == dx && h1.y == 0 && h1.z == dz);
    assert(h2.x == dx - ix && h2.y == 0 && h2.z == dz - iz);
    assert(h1.z * h2.x - h1.x * h2.z == horiz) by (nonlinear_arith)
        requires
            h1.x == dx,
            h1.z == dz,
            h2.x == dx - ix,
            h2.z == dz - iz,
            horiz == dx * iz - dz * ix,
    ;
    assert(h1.z * h2.x - h1.x * h2.z != 0);
    lemma_cross_component_nonzero(h1, h2);
    assert(!crate::mesh::spec_degenerate(d1, d2, d3));

    // Inward face.
    let w1 = spec_plus(spec_plus(b, up), inside);
    let w2 = spec_plus(spec_plus(b, btm), inside);
    let w3 = spec_plus(spec_plus(a, btm), inside);
    let k1 = spec_minus(w2, w1);
    let k2 = spec_minus(w3, w1);
    assert(k1.x == 0 && k1.y == -580 && k1.z == 0);
    assert(k2.x == dx && k2.y == -580 && k2.z == dz);
    assert(k1.y * k2.z - k1.z * k2.y == -580 * dz && k1.x * k2.y - k1.y * k2.x == 580 * dx)
        by (nonlinear_arith)
        requires
            k1.x == 0,
            k1.y == -580,
            k1.z == 0,
            k2.x == dx,
            k2.y == -580,
            k2.z == dz,
    ;
    if dx != 0 {
        lemma_scaled_nonzero(-580, dx);
        lemma_scaled_nonzero(580, dx);
    } else {
        lemma_scaled_nonzero(-580, dz);
        lemma_scaled_nonzero(580, dz);
    }
    assert(k1.x * k2.y - k1.y * k2.x != 0 || k1.y * k2.z - k1.z * k2.y != 0);
    lemma_cross_component_nonzero(k1, k2);
    assert(!crate::mesh::spec_degenerate(w1, w2, w3));

    let u1 = spec_plus(spec_plus(b, up), inside);
    let u2 = spec_plus(spec_plus(a, btm), inside);
    let u3 = spec_plus(spec_plus(a, up), inside);
    let l1 = spec_minus(u2, u1);
    let l2 = spec_minus(u3, u1);
    assert(l1.x == dx && l1.y == -580 && l1.z == dz);
    assert(l2.x == dx && l2.y == 0 && l2.z == dz);
    assert(l1.y * l2.z - l1.z * l2.y == -580 * dz && l1.x * l2.y - l1.y * l2.x == 580 * dx)
        by (nonlinear_arith)
        requires
            l1.x == dx,
            l1.y == -580,
            l1.z == dz,
            l2.x == dx,
            l2.y == 0,
            l2.z == dz,
    ;
    if dx != 0 {
        lemma_scaled_nonzero(-580, dx);
        lemma_scaled_nonzero(580, dx);
    } else {
        lemma_scaled_nonzero(-580, dz);
        lemma_scaled_nonzero(580, dz);
    }
    assert(l1.x * l2.y - l1.y * l2.x != 0 || l1.y * l2.z - l1.z * l2.y != 0);
    lemma_cross_component_nonzero(l1, l2);
    assert(!crate::mesh::spec_degenerate(u1, u2, u3));
}

/// The wall stream holds at most six triangles per distinct edge.
proof fn lemma_build_walls_len(edges: Seq<Edge>, counts: Seq<int>, n: int)
    ensures
        spec_build_walls(edges, counts, n).len() <= 6 * (if n <= 0 {
            0int
        } else {
            n
        }),
    decreases n,
{
    if n > 0 {
        lemma_build_walls_len(edges, counts, n - 1);
        if counts[n - 1] == 1 {
            lemma_wall_tris_len(
                spec_build_walls(edges, counts, n - 1),
                edges[n - 1].0,
                edges[n - 1].1,
            );
        }
    }
}

/// The number of boundary edges (occurrence count exactly one) among the
/// first `n` distinct edges.
pub open spec fn spec_boundary_count(counts: Seq<int>, n: int) -> int
    decreases n,
{
    if n <= 0 {
        0
    } else {
        spec_boundary_count(counts, n - 1) + if counts[n - 1] == 1 {
            1int
        } else {
            0int
        }
    }
}

/// An edge is horizontal and axis-aligned: its endpoints share their height
/// and differ in exactly one horizontal axis. Every edge of an axis-aligned
/// tile footprint is of this shape.
pub open spec fn spec_axis_aligned(e: Edge) -> bool {
    e.0.y == e.1.y && ((e.0.x == e.1.x) != (e.0.z == e.1.z))
}

/// Edge exposure, exactly: when every boundary edge is axis-aligned and in
/// range, the wall mesh holds exactly six triangles per boundary edge — so
/// its triangle count is divisible by six.
pub proof fn lemma_build_walls_exact(edges: Seq<Edge>, counts: Seq<int>, n: int)
    requires
        n <= edges.len(),
        forall|i: int|
            0 <= i < n && counts[i] == 1 ==> spec_axis_aligned(#[trigger] edges[i])
                && spec_edge_bounded(edges[i]),
    ensures
        spec_build_walls(edges, counts, n).len() == 6 * spec_boundary_count(counts, n),
    decreases n,
{
    if n > 0 {
        lemma_build_walls_exact(edges, counts, n - 1);
        if counts[n - 1] == 1 {
            lemma_axis_aligned_wall_count(
                spec_build_walls(edges, counts, n - 1),
                edges[n - 1].0,
                edges[n - 1].1,
            );
        }
    }
}

/// Regeneration idempotence for walls: the wall mesh stream is a function
/// of the tiles and definitions alone, so two rebuilds from an unchanged
/// tile set hold identical triangle streams and identical distilled
/// buffers.
pub proof fn lemma_wall_regen_idempotent(
    tiles: Seq<Tile>,
    defs: Seq<TileDefinition>,
    m1: Seq<MeshTriangle>,
    m2: Seq<MeshTriangle>,
    rule: crate::mesh::CompareRule,
)
    requires
        m1 == spec_wall_mesh(tiles, defs),
        m2 == spec_wall_mesh(tiles, defs),
    ensures
        m1 == m2,
        crate::mesh::spec_distil(m1, rule) == crate::mesh::spec_distil(m2, rule),
{
}

/// Extrudes the wall for one boundary edge into the mesh: outward face,
/// top cap and inward face, two triangles each.
#[verifier::rlimit(60)]
fn insert_wall(mesh: &mut DynamicMesh, a: Vec3i, b: Vec3i)
    requires
        spec_world_bounded(a),
        spec_world_bounded(b),
        a != b,
        old(mesh)@.len() + 6 <= MAX_TRIS,
    ensures
        final(mesh)@ == spec_wall_tris(old(mesh)@, a, b),
{
    let d = a.minus(b);
    let nrm = d.normalize();
    let ix = scale_frac(-nrm.z, WALL_SIZE as u64, SCALE as u64);
    let iz = scale_frac(nrm.x, WALL_SIZE as u64, SCALE as u64);
    let inside = Vec3i { x: ix, y: 0, z: iz };
    proof {
        assert(inside == spec_wall_inside(a, b));
    }
    let up = Vec3i { x: 0, y: WALL_SIZE, z: 0 };
    let btm = Vec3i { x: 0, y: -BOUNDS_Y, z: 0 };
    let ghost s0 = mesh@;
    // Outward face.
    mesh.insert_tri([b.plus(up), a.plus(up), a.plus(btm)]);
    let ghost s1 = mesh@;
    proof {
        assert(s1 == spec_insert_tri(s0, spec_plus(b, up), spec_plus(a, up), spec_plus(a, btm)));
    }
    mesh.insert_tri([a.plus(btm), b.plus(btm), b.plus(up)]);
    let ghost s2 = mesh@;
    proof {
        assert(s2 == spec_insert_tri(s1, spec_plus(a, btm), spec_plus(b, btm), spec_plus(b, up)));
    }
    // Top cap.
    mesh.insert_tri([b.plus(up).plus(inside), a.plus(up), b.plus(up)]);
    let ghost s3 = mesh@;
    proof {
        assert(s3 == spec_insert_tri(
            s2,
            spec_plus(spec_plus(b, up), inside),
            spec_plus(a, up),
            spec_plus(b, up),
        ));
    }
    mesh.insert_tri([b.plus(up).plus(inside), a.plus(up).plus(inside), a.plus(up)]);
    let ghost s4 = mesh@;
    proof {
        assert(s4 == spec_insert_tri(
            s3,
            spec_plus(spec_plus(b, up), inside),
            spec_plus(spec_plus(a, up), inside),
            spec_plus(a, up),
        ));
    }
    // Inward face.
    mesh.insert_tri([b.plus(up).plus(inside), b.plus(btm).plus(inside), a.plus(btm).plus(inside)]);
    let ghost s5 = mesh@;
    proof {
        assert(s5 == spec_insert_tri(
            s4,
            spec_plus(spec_plus(b, up), inside),
            spec_plus(spec_plus(b, btm), inside),
            spec_plus(spec_plus(a, btm), inside),
        ));
    }
    mesh.insert_tri([b.plus(up).plus(inside), a.plus(btm).plus(inside), a.plus(up).plus(inside)]);
    proof {
        assert(mesh@ == spec_insert_tri(
            s5,
            spec_plus(spec_plus(b, up), inside),
            spec_plus(spec_plus(a, btm), inside),
            spec_plus(spec_plus(a, up), inside),
        ));
    }
}

/// Rebuilds the wall mesh from scratch: the distinct edges of the tile set
/// are counted, and every boundary edge (count exactly one) gets an
/// extruded wall.
pub fn build_wall_mesh(tiles: &Vec<Tile>, defs: &TileDefinitions, mesh: &mut DynamicMesh)
    requires
        defs.spec_valid(),
        forall|i: int| 0 <= i < tiles@.len() ==> tiles@[i].spec_valid(),
        tiles@.len() <= MAX_TILES,
    ensures
        final(mesh)@ == spec_wall_mesh(tiles@, defs.0@),
{
    let (edges, counts) = collect_edges(tiles, defs);
    let ghost stream = spec_all_edges(tiles@, defs.0@);
    let ghost spec_counts = spec_count_edges(stream).1;
    proof {
        lemma_all_edges_len(tiles@, defs.0@);
        lemma_count_edges_bounds(stream);
    }
    mesh.clear();
    let n = edges.len();
    let mut i: usize = 0;
    while i < n
        invariant
            i <= n,
            n == edges@.len(),
            n <= 4 * MAX_TILES,
            edges@ == spec_count_edges(stream).0,
            counts@.len() == n,
            forall|j: int| 0 <= j < n ==> counts@[j] as int == spec_counts[j],
            spec_counts == spec_count_edges(stream).1,
            forall|j: int| 0 <= j < n ==> spec_edge_bounded(#[trigger] edges@[j]),
            mesh@ == spec_build_walls(edges@, spec_counts, i as int),
            mesh@.len() <= 6 * i,
        decreases n - i,
    {
        proof {
            lemma_build_walls_len(edges@, spec_counts, i as int);
        }
        if counts[i] == 1 {
            let a = edges[i].0;
            let b = edges[i].1;
            if a == b {
                // A zero-length edge has no direction: no wall.
            } else {
                insert_wall(mesh, a, b);
            }
        }
        i += 1;
    }
}

} // verus!
