//! Tile definitions: the per-tile-type shape templates, and the derivation
//! of triangles and edges from a perimeter.
//!
//! A perimeter is an ordered list of cube-corner indices. Three points yield
//! one triangle; four points yield two triangles fanned from the first
//! point. Every consecutive pair of perimeter points, plus the pair closing
//! the loop, is an edge.

use vstd::prelude::*;

verus! {

/// Index triple into the cube-corner table, one derived triangle.
#[derive(Clone, Copy, Debug, PartialEq, Eq, Structural)]
pub struct CornerTri {
    pub a: u8,
    pub b: u8,
    pub c: u8,
}

/// Index pair into the cube-corner table, one derived perimeter edge.
#[derive(Clone, Copy, Debug, PartialEq, Eq, Structural)]
pub struct CornerEdge {
    pub a: u8,
    pub b: u8,
}

/// The shape template for one tile type.
#[derive(Debug)]
pub struct TileDefinition {
    pub id: u8,
    pub perimeter: Vec<u8>,
    pub name: Vec<u8>,
}

/// The triangles derived from a perimeter of at least three points: the
/// first three points, and for a four-point perimeter also the fan triangle
/// from the first point.
pub open spec fn spec_triangles(p: Seq<u8>) -> Seq<CornerTri>
    recommends
        p.len() >= 3,
{
    let first = seq![CornerTri { a: p[0], b: p[1], c: p[2] }];
    if p.len() == 4 {
        first.push(CornerTri { a: p[0], b: p[2], c: p[3] })
    } else {
        first
    }
}

/// The edges derived from a non-empty perimeter: each consecutive pair, then
/// the pair that closes the loop.
pub open spec fn spec_edges(p: Seq<u8>) -> Seq<CornerEdge>
    recommends
        p.len() >= 1,
{
    Seq::new(
        p.len(),
        |i: int|
            if i < p.len() - 1 {
                CornerEdge { a: p[i], b: p[i + 1] }
            } else {
                CornerEdge { a: p[p.len() - 1], b: p[0] }
            },
    )
}

impl TileDefinition {
    /// A well-formed definition: the perimeter has at most four points and
    /// every entry is a valid cube-corner index.
    pub open spec fn spec_valid(self) -> bool {
        &&& self.perimeter@.len() <= 4
        &&& forall|i: int| 0 <= i < self.perimeter@.len() ==> self.perimeter@[i] < 8
    }

    /// Checks that this definition is well-formed.
    pub fn valid(&self) -> (r: bool)
        ensures
            r == self.spec_valid(),
    {
        let n = self.perimeter.len();
        if n > 4 {
            return false;
        }
        let mut i: usize = 0;
        while i < n
            invariant
                i <= n,
                n == self.perimeter@.len(),
                forall|j: int| 0 <= j < i ==> self.perimeter@[j] < 8,
            decreases n - i,
        {
            if self.perimeter[i] >= 8 {
                return false;
            }
            i += 1;
        }
        true
    }

    /// The derived triangle list; `None` when the perimeter has too few
    /// points to form a triangle (the tile type has no renderable geometry).
    pub fn triangles(&self) -> (r: Option<Vec<CornerTri>>)
        ensures
            (r is Some) <==> self.perimeter@.len() >= 3,
            r matches Some(v) ==> v@ == spec_triangles(self.perimeter@),
    {
        if self.perimeter.len() < 3 {
            return None;
        }

        let mut triangles: Vec<CornerTri> = Vec::new();
        triangles.push(
            CornerTri { a: self.perimeter[0], b: self.perimeter[1], c: self.perimeter[2] },
        );

        // A four-point perimeter fans a second triangle from the first point.
        if self.perimeter.len() == 4 {
            triangles.push(
                CornerTri { a: self.perimeter[0], b: self.perimeter[2], c: self.perimeter[3] },
            );
        }

        proof {
            assert(triangles@ =~= spec_triangles(self.perimeter@));
        }
        Some(triangles)
    }

    /// The derived edge list; `None` when the perimeter is empty.
    pub fn edges(&self) -> (r: Option<Vec<CornerEdge>>)
        ensures
            (r is Some) <==> self.perimeter@.len() >= 1,
            r matches Some(v) ==> v@ == spec_edges(self.perimeter@),
    {
        let n = self.perimeter.len();
        if n == 0 {
            return None;
        }

        let mut edges: Vec<CornerEdge> = Vec::new();

        // Each consecutive pair.
        let mut i: usize = 1;
        while i < n
            invariant
                1 <= i <= n,
                n == self.perimeter@.len(),
                edges@.len() == i - 1,
                forall|j: int| 0 <= j < i - 1 ==> edges@[j] == spec_edges(self.perimeter@)[j],
            decreases n - i,
        {
            edges.push(CornerEdge { a: self.perimeter[i - 1], b: self.perimeter[i] });
            i += 1;
        }

        // The edge that closes the loop.
        edges.push(CornerEdge { a: self.perimeter[n - 1], b: self.perimeter[0] });

        proof {
            assert(edges@ =~= spec_edges(self.perimeter@));
        }
        Some(edges)
    }
}

impl Default for TileDefinition {
    /// The placeholder definition: id zero, no geometry, a name that marks
    /// it as unknown.
    fn default() -> (r: Self)
        ensures
            r.id == 0,
            r.perimeter@ == Seq::<u8>::empty(),
            r.name@ == seq![
                69u8,
                114u8,
                114u8,
                111u8,
                114u8,
                58u8,
                32u8,
                85u8,
                110u8,
                107u8,
                110u8,
                111u8,
                119u8,
                110u8,
            ],
    {
        TileDefinition {
            id: 0,
            perimeter: Vec::new(),
            // "Error: Unknown"
            name: vec![69, 114, 114, 111, 114, 58, 32, 85, 110, 107, 110, 111, 119, 110],
        }
    }
}

/// An ordered collection of tile definitions, looked up by id with a linear
/// scan; the first definition with a matching id wins.
#[derive(Debug)]
pub struct TileDefinitions(pub Vec<TileDefinition>);

/// First-match lookup starting at position `i`.
pub open spec fn spec_find_from(defs: Seq<TileDefinition>, id: u8, i: int) -> Option<
    TileDefinition,
>
    decreases defs.len() - i,
{
    if i < 0 || i >= defs.len() {
        None
    } else if defs[i].id == id {
        Some(defs[i])
    } else {
        spec_find_from(defs, id, i + 1)
    }
}

/// The first definition whose id matches, if any.
pub open spec fn spec_find_def(defs: Seq<TileDefinition>, id: u8) -> Option<TileDefinition> {
    spec_find_from(defs, id, 0)
}

impl TileDefinitions {
    /// Every definition is well-formed.
    pub open spec fn spec_valid(self) -> bool {
        forall|i: int| 0 <= i < self.0@.len() ==> self.0@[i].spec_valid()
    }

    /// Checks that every definition is well-formed.
    pub fn valid(&self) -> (r: bool)
        ensures
            r == self.spec_valid(),
    {
        let n = self.0.len();
        let mut i: usize = 0;
        while i < n
            invariant
                i <= n,
                n == self.0@.len(),
                forall|j: int| 0 <= j < i ==> self.0@[j].spec_valid(),
            decreases n - i,
        {
            if !self.0[i].valid() {
                return false;
            }
            i += 1;
        }
        true
    }

    /// Finds the first definition with the given id.
    pub fn find(&self, id: u8) -> (r: Option<&TileDefinition>)
        ensures
            r matches Some(d) ==> spec_find_def(self.0@, id) == Some(*d),
            r is None ==> spec_find_def(self.0@, id) is None,
    {
        let n = self.0.len();
        let mut i: usize = 0;
        while i < n
            invariant
                i <= n,
                n == self.0@.len(),
                spec_find_def(self.0@, id) == spec_find_from(self.0@, id, i as int),
            decreases n - i,
        {
            if self.0[i].id == id {
                return Some(&self.0[i]);
            }
            i += 1;
        }
        None
    }
}

} // verus!
