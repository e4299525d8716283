//! The mesh accumulation engine.
//!
//! World-space triangles are accumulated and deduplicated into indexed
//! vertex/triangle buffers: [`DynamicMesh`] stores the raw triangle stream
//! and deduplicates on demand with a configurable comparison rule, while
//! [`MeshMaker`] deduplicates eagerly on insertion. Deduplication scans the
//! accumulated vertices for the first one approximately equal to the
//! candidate (under the tolerance rule) and reuses its index.

use vstd::prelude::*;
use crate::math::{
    Vec3i,
    Vec2i,
    spec_approx_eq,
    spec_approx_eq2,
    spec_cross,
    spec_minus,
    spec_normalize,
    approx_eq2,
};

verus! {

/// Most triangles a [`DynamicMesh`] accepts; keeps all derived vertex
/// indices well below the `u32` range.
pub const MAX_TRIS: usize = 100_000_000;

/// Most vertices a [`MeshMaker`] holds, so indices fit in `u32`.
pub const MAX_VERTS: usize = 0xffff_ffff;

/// A mesh vertex: position, flat face normal, texture coordinates.
#[derive(Clone, Copy, Debug, PartialEq, Eq, Structural)]
pub struct Vertex {
    pub position: Vec3i,
    pub normal: Vec3i,
    pub uv: Vec2i,
}

/// Which vertex components a deduplicating comparison looks at: everything
/// for a render mesh, position and normal only, or position only (for
/// collision geometry, which merges most aggressively).
#[derive(Clone, Copy, Debug, PartialEq, Eq, Structural)]
pub enum CompareRule {
    Mesh,
    MeshNoUV,
    Collider,
}

/// Approximate vertex equality under the given comparison rule.
pub open spec fn spec_rule_eq(a: Vertex, b: Vertex, rule: CompareRule) -> bool {
    match rule {
        CompareRule::Mesh => spec_approx_eq(a.position, b.position) && spec_approx_eq(
            a.normal,
            b.normal,
        ) && spec_approx_eq2(a.uv, b.uv),
        CompareRule::MeshNoUV => spec_approx_eq(a.position, b.position) && spec_approx_eq(
            a.normal,
            b.normal,
        ),
        CompareRule::Collider => spec_approx_eq(a.position, b.position),
    }
}

impl Vertex {
    /// Compares two vertices under the given rule.
    pub fn compare(&self, other: &Vertex, rule: &CompareRule) -> (r: bool)
        ensures
            r == spec_rule_eq(*self, *other, *rule),
    {
        match rule {
            CompareRule::Mesh => self.position.approx_eq(other.position) && self.normal.approx_eq(
                other.normal,
            ) && approx_eq2(self.uv, other.uv),
            CompareRule::MeshNoUV => self.position.approx_eq(other.position)
                && self.normal.approx_eq(other.normal),
            CompareRule::Collider => self.position.approx_eq(other.position),
        }
    }
}

/// First index at or after `i` whose vertex compares equal to `v` under
/// `rule`; `verts.len()` when there is none.
pub open spec fn spec_scan(verts: Seq<Vertex>, v: Vertex, rule: CompareRule, i: int) -> int
    decreases verts.len() - i,
{
    if i < 0 || i >= verts.len() {
        verts.len() as int
    } else if spec_rule_eq(verts[i], v, rule) {
        i
    } else {
        spec_scan(verts, v, rule, i + 1)
    }
}

/// The index a deduplicating insert of `v` resolves to: the first
/// approximately equal vertex, or `verts.len()` when `v` is new.
pub open spec fn spec_find_similar(verts: Seq<Vertex>, v: Vertex, rule: CompareRule) -> int {
    spec_scan(verts, v, rule, 0)
}

/// The vertex list after a deduplicating insert of `v`: unchanged when a
/// similar vertex exists, extended by `v` otherwise.
pub open spec fn spec_dedup_verts(verts: Seq<Vertex>, v: Vertex, rule: CompareRule) -> Seq<
    Vertex,
> {
    if spec_find_similar(verts, v, rule) < verts.len() {
        verts
    } else {
        verts.push(v)
    }
}

/// Deduplicating insert: linear-scans for a vertex approximately equal to
/// `v` and returns its index, appending `v` only when none exists.
fn dedup_insert(verts: &mut Vec<Vertex>, v: Vertex, rule: &CompareRule) -> (idx: usize)
    ensures
        final(verts)@ == spec_dedup_verts(old(verts)@, v, *rule),
        idx as int == spec_find_similar(old(verts)@, v, *rule),
        idx <= old(verts)@.len(),
        final(verts)@.len() <= old(verts)@.len() + 1,
{
    let n = verts.len();
    let mut i: usize = 0;
    while i < n
        invariant
            i <= n,
            n == verts@.len(),
            spec_scan(verts@, v, *rule, 0) == spec_scan(verts@, v, *rule, i as int),
        decreases n - i,
    {
        if verts[i].compare(&v, rule) {
            return i;
        }
        i += 1;
    }
    verts.push(v);
    n
}

/// An index triple into a deduplicated vertex list, one output triangle.
#[derive(Clone, Copy, Debug, PartialEq, Eq, Structural)]
pub struct IndexTriangle {
    pub a: u32,
    pub b: u32,
    pub c: u32,
}

/// One accumulated triangle: three full vertices sharing a face normal.
#[derive(Clone, Copy, Debug, PartialEq, Eq, Structural)]
pub struct MeshTriangle {
    pub v0: Vertex,
    pub v1: Vertex,
    pub v2: Vertex,
}

/// A triangle is degenerate when its points are collinear (or coincident):
/// the cross product of its edge vectors is the zero vector.
pub open spec fn spec_degenerate(p0: Vec3i, p1: Vec3i, p2: Vec3i) -> bool {
    spec_cross(spec_minus(p1, p0), spec_minus(p2, p0)).spec_is_zero()
}

/// The flat face normal shared by all three vertices of a triangle.
pub open spec fn spec_face_normal(p0: Vec3i, p1: Vec3i, p2: Vec3i) -> Vec3i {
    spec_normalize(spec_cross(spec_minus(p1, p0), spec_minus(p2, p0)))
}

/// A [`DynamicMesh`] vertex: flat face normal, zero texture coordinates.
pub open spec fn spec_mesh_vertex(p: Vec3i, n: Vec3i) -> Vertex {
    Vertex { position: p, normal: n, uv: Vec2i { x: 0i64, y: 0i64 } }
}

/// The accumulated triangle for three world-space corners.
pub open spec fn spec_make_triangle(p0: Vec3i, p1: Vec3i, p2: Vec3i) -> MeshTriangle {
    let n = spec_face_normal(p0, p1, p2);
    MeshTriangle {
        v0: spec_mesh_vertex(p0, n),
        v1: spec_mesh_vertex(p1, n),
        v2: spec_mesh_vertex(p2, n),
    }
}

/// The triangle stream after inserting a triangle: degenerate triangles are
/// skipped rather than contributing an undefined normal.
pub open spec fn spec_insert_tri(
    tris: Seq<MeshTriangle>,
    p0: Vec3i,
    p1: Vec3i,
    p2: Vec3i,
) -> Seq<MeshTriangle> {
    if spec_degenerate(p0, p1, p2) {
        tris
    } else {
        tris.push(spec_make_triangle(p0, p1, p2))
    }
}

/// One deduplication step: the three vertices of `t` are inserted in order,
/// and the resulting index triple is appended.
pub open spec fn spec_distil_step(
    state: (Seq<IndexTriangle>, Seq<Vertex>),
    t: MeshTriangle,
    rule: CompareRule,
) -> (Seq<IndexTriangle>, Seq<Vertex>) {
    let verts0 = state.1;
    let i0 = spec_find_similar(verts0, t.v0, rule);
    let verts1 = spec_dedup_verts(verts0, t.v0, rule);
    let i1 = spec_find_similar(verts1, t.v1, rule);
    let verts2 = spec_dedup_verts(verts1, t.v1, rule);
    let i2 = spec_find_similar(verts2, t.v2, rule);
    let verts3 = spec_dedup_verts(verts2, t.v2, rule);
    (state.0.push(IndexTriangle { a: i0 as u32, b: i1 as u32, c: i2 as u32 }), verts3)
}

/// Deduplication of a whole triangle stream, in insertion order.
pub open spec fn spec_distil(tris: Seq<MeshTriangle>, rule: CompareRule) -> (
    Seq<IndexTriangle>,
    Seq<Vertex>,
)
    decreases tris.len(),
{
    if tris.len() == 0 {
        (Seq::<IndexTriangle>::empty(), Seq::<Vertex>::empty())
    } else {
        spec_distil_step(spec_distil(tris.drop_last(), rule), tris.last(), rule)
    }
}

/// The index buffer flattened to one `u32` per vertex slot, three per
/// triangle.
pub open spec fn spec_flat_indices(tris: Seq<IndexTriangle>) -> Seq<u32>
    decreases tris.len(),
{
    if tris.len() == 0 {
        Seq::<u32>::empty()
    } else {
        spec_flat_indices(tris.drop_last()) + seq![
            tris.last().a,
            tris.last().b,
            tris.last().c,
        ]
    }
}

/// The positions of a vertex list, in order.
pub open spec fn spec_positions_of(verts: Seq<Vertex>) -> Seq<Vec3i> {
    Seq::new(verts.len(), |i: int| verts[i].position)
}

/// The normals of a vertex list, in order.
pub open spec fn spec_normals_of(verts: Seq<Vertex>) -> Seq<Vec3i> {
    Seq::new(verts.len(), |i: int| verts[i].normal)
}

/// The texture coordinates of a vertex list, in order.
pub open spec fn spec_uvs_of(verts: Seq<Vertex>) -> Seq<Vec2i> {
    Seq::new(verts.len(), |i: int| verts[i].uv)
}

/// Render-ready arrays: parallel per-vertex attributes plus a flattened
/// index buffer whose length is a multiple of three.
pub struct RenderBuffers {
    pub positions: Vec<Vec3i>,
    pub normals: Vec<Vec3i>,
    pub uvs: Vec<Vec2i>,
    pub indices: Vec<u32>,
}

/// Collision-ready arrays: vertex positions plus index triples.
pub struct CollisionBuffers {
    pub positions: Vec<Vec3i>,
    pub triangles: Vec<IndexTriangle>,
}

/// Accumulates world-space triangles and deduplicates on demand, so one
/// triangle stream can serve both a render mesh and a collision mesh under
/// different comparison rules.
pub struct DynamicMesh {
    triangles: Vec<MeshTriangle>,
}

impl View for DynamicMesh {
    type V = Seq<MeshTriangle>;

    closed spec fn view(&self) -> Seq<MeshTriangle> {
        self.triangles@
    }
}

impl DynamicMesh {
    #[verifier::type_invariant]
    spec fn wf(self) -> bool {
        self.triangles@.len() <= MAX_TRIS
    }

    pub fn new() -> (r: DynamicMesh)
        ensures
            r@ == Seq::<MeshTriangle>::empty(),
    {
        DynamicMesh { triangles: Vec::new() }
    }

    /// Empties the accumulator; every rebuild starts from a cleared mesh.
    pub fn clear(&mut self)
        ensures
            final(self)@ == Seq::<MeshTriangle>::empty(),
    {
        self.triangles = Vec::new();
    }

    /// The number of accumulated triangles.
    pub fn tri_count(&self) -> (r: usize)
        ensures
            r == self@.len(),
    {
        self.triangles.len()
    }

    /// Inserts a world-space triangle. The flat face normal is derived from
    /// the three corners; a degenerate triangle is skipped.
    pub fn insert_tri(&mut self, positions: [Vec3i; 3])
        requires
            old(self)@.len() < MAX_TRIS,
            positions@[0].spec_in_bounds(),
            positions@[1].spec_in_bounds(),
            positions@[2].spec_in_bounds(),
        ensures
            final(self)@ == spec_insert_tri(
                old(self)@,
                positions@[0],
                positions@[1],
                positions@[2],
            ),
    {
        proof {
            use_type_invariant(&*self);
        }
        let p0 = positions[0];
        let p1 = positions[1];
        let p2 = positions[2];
        let d1 = p1.minus(p0);
        let d2 = p2.minus(p0);
        let c = d1.cross(d2);
        if c.x == 0 && c.y == 0 && c.z == 0 {
            // Collinear or coincident corners: no meaningful normal exists.
            return ;
        }
        let n = c.normalize();
        let uv = Vec2i { x: 0, y: 0 };
        let mut tris: Vec<MeshTriangle> = Vec::new();
        std::mem::swap(&mut tris, &mut self.triangles);
        tris.push(
            MeshTriangle {
                v0: Vertex { position: p0, normal: n, uv },
                v1: Vertex { position: p1, normal: n, uv },
                v2: Vertex { position: p2, normal: n, uv },
            },
        );
        self.triangles = tris;
    }

    /// Deduplicates the accumulated triangle stream under `rule`, returning
    /// index triples and the distilled vertex list.
    pub fn distil(&self, rule: &CompareRule) -> (r: (Vec<IndexTriangle>, Vec<Vertex>))
        ensures
            r.0@ == spec_distil(self@, *rule).0,
            r.1@ == spec_distil(self@, *rule).1,
    {
        proof {
            use_type_invariant(&*self);
        }
        let mut triangles: Vec<IndexTriangle> = Vec::new();
        let mut vertices: Vec<Vertex> = Vec::new();
        let n = self.triangles.len();
        let mut k: usize = 0;
        while k < n
            invariant
                k <= n,
                n == self@.len(),
                n <= MAX_TRIS,
                triangles@ == spec_distil(self@.take(k as int), *rule).0,
                vertices@ == spec_distil(self@.take(k as int), *rule).1,
                triangles@.len() == k,
                vertices@.len() <= 3 * k,
            decreases n - k,
        {
            let t = self.triangles[k];
            let i0 = dedup_insert(&mut vertices, t.v0, rule);
            let i1 = dedup_insert(&mut vertices, t.v1, rule);
            let i2 = dedup_insert(&mut vertices, t.v2, rule);
            triangles.push(IndexTriangle { a: i0 as u32, b: i1 as u32, c: i2 as u32 });
            k += 1;
            proof {
                assert(self@.take(k as int).drop_last() =~= self@.take(k as int - 1));
                assert(self@.take(k as int).last() == self@[k as int - 1]);
            }
        }
        proof {
            assert(self@.take(n as int) =~= self@);
        }
        (triangles, vertices)
    }

    /// Render-ready arrays under the full comparison rule.
    pub fn render_buffers(&self) -> (r: RenderBuffers)
        ensures
            r.indices@ == spec_flat_indices(spec_distil(self@, CompareRule::Mesh).0),
            r.positions@ == spec_positions_of(spec_distil(self@, CompareRule::Mesh).1),
            r.normals@ == spec_normals_of(spec_distil(self@, CompareRule::Mesh).1),
            r.uvs@ == spec_uvs_of(spec_distil(self@, CompareRule::Mesh).1),
            r.indices@.len() == 3 * spec_distil(self@, CompareRule::Mesh).0.len(),
    {
        let (tris, verts) = self.distil(&CompareRule::Mesh);
        let indices = flatten_indices(&tris);
        let (positions, normals, uvs) = split_attributes(&verts);
        RenderBuffers { positions, normals, uvs, indices }
    }

    /// Collision-ready arrays under the position-only comparison rule.
    pub fn collision_buffers(&self) -> (r: CollisionBuffers)
        ensures
            r.triangles@ == spec_distil(self@, CompareRule::Collider).0,
            r.positions@ == spec_positions_of(spec_distil(self@, CompareRule::Collider).1),
    {
        let (tris, verts) = self.distil(&CompareRule::Collider);
        let (positions, _normals, _uvs) = split_attributes(&verts);
        CollisionBuffers { positions, triangles: tris }
    }
}

/// A [`MeshMaker`] vertex: flat face normal, texture coordinates derived
/// from the position's horizontal plane.
pub open spec fn spec_mm_vertex(p: Vec3i, n: Vec3i) -> Vertex {
    Vertex { position: p, normal: n, uv: Vec2i { x: p.x, y: p.z } }
}

/// The accumulator state after an eager insert of one triangle: each vertex
/// is deduplicated under the position+normal rule in order, and the
/// resulting index triple is appended. Degenerate triangles are skipped.
pub open spec fn spec_mm_insert_tri(
    verts: Seq<Vertex>,
    tris: Seq<IndexTriangle>,
    p0: Vec3i,
    p1: Vec3i,
    p2: Vec3i,
) -> (Seq<Vertex>, Seq<IndexTriangle>) {
    if spec_degenerate(p0, p1, p2) {
        (verts, tris)
    } else {
        let n = spec_face_normal(p0, p1, p2);
        let va = spec_mm_vertex(p0, n);
        let vb = spec_mm_vertex(p1, n);
        let vc = spec_mm_vertex(p2, n);
        let i0 = spec_find_similar(verts, va, CompareRule::MeshNoUV);
        let verts1 = spec_dedup_verts(verts, va, CompareRule::MeshNoUV);
        let i1 = spec_find_similar(verts1, vb, CompareRule::MeshNoUV);
        let verts2 = spec_dedup_verts(verts1, vb, CompareRule::MeshNoUV);
        let i2 = spec_find_similar(verts2, vc, CompareRule::MeshNoUV);
        let verts3 = spec_dedup_verts(verts2, vc, CompareRule::MeshNoUV);
        (verts3, tris.push(IndexTriangle { a: i0 as u32, b: i1 as u32, c: i2 as u32 }))
    }
}

/// Accumulates world-space triangles into vertex and index buffers,
/// deduplicating eagerly on every insert under the position+normal rule.
pub struct MeshMaker {
    verts: Vec<Vertex>,
    triangles: Vec<IndexTriangle>,
}

impl MeshMaker {
    #[verifier::type_invariant]
    spec fn wf(self) -> bool {
        self.verts@.len() <= MAX_VERTS
    }

    /// The accumulated, deduplicated vertices.
    pub closed spec fn spec_verts(&self) -> Seq<Vertex> {
        self.verts@
    }

    /// The accumulated index triples.
    pub closed spec fn spec_triangles(&self) -> Seq<IndexTriangle> {
        self.triangles@
    }

    pub fn new() -> (r: MeshMaker)
        ensures
            r.spec_verts() == Seq::<Vertex>::empty(),
            r.spec_triangles() == Seq::<IndexTriangle>::empty(),
    {
        MeshMaker { verts: Vec::new(), triangles: Vec::new() }
    }

    /// Empties the accumulator.
    pub fn clear(&mut self)
        ensures
            final(self).spec_verts() == Seq::<Vertex>::empty(),
            final(self).spec_triangles() == Seq::<IndexTriangle>::empty(),
    {
        self.verts = Vec::new();
        self.triangles = Vec::new();
    }

    /// Deduplicating vertex insert: returns the index of the first vertex
    /// approximately equal to `vertex` under the position+normal rule,
    /// appending `vertex` only when none exists.
    pub fn insert(&mut self, vertex: Vertex) -> (r: u32)
        requires
            old(self).spec_verts().len() < MAX_VERTS,
        ensures
            final(self).spec_verts() == spec_dedup_verts(
                old(self).spec_verts(),
                vertex,
                CompareRule::MeshNoUV,
            ),
            r as int == spec_find_similar(old(self).spec_verts(), vertex, CompareRule::MeshNoUV),
            final(self).spec_triangles() == old(self).spec_triangles(),
    {
        proof {
            use_type_invariant(&*self);
        }
        let mut verts: Vec<Vertex> = Vec::new();
        std::mem::swap(&mut verts, &mut self.verts);
        let idx = dedup_insert(&mut verts, vertex, &CompareRule::MeshNoUV);
        self.verts = verts;
        idx as u32
    }

    /// Inserts a world-space triangle: derives the flat face normal,
    /// deduplicates the three vertices and appends their index triple.
    /// A degenerate triangle is skipped.
    pub fn insert_tri(&mut self, positions: [Vec3i; 3])
        requires
            old(self).spec_verts().len() + 3 <= MAX_VERTS,
            positions@[0].spec_in_bounds(),
            positions@[1].spec_in_bounds(),
            positions@[2].spec_in_bounds(),
        ensures
            final(self).spec_verts() == spec_mm_insert_tri(
                old(self).spec_verts(),
                old(self).spec_triangles(),
                positions@[0],
                positions@[1],
                positions@[2],
            ).0,
            final(self).spec_triangles() == spec_mm_insert_tri(
                old(self).spec_verts(),
                old(self).spec_triangles(),
                positions@[0],
                positions@[1],
                positions@[2],
            ).1,
    {
        proof {
            use_type_invariant(&*self);
        }
        let p0 = positions[0];
        let p1 = positions[1];
        let p2 = positions[2];
        let d1 = p1.minus(p0);
        let d2 = p2.minus(p0);
        let c = d1.cross(d2);
        if c.x == 0 && c.y == 0 && c.z == 0 {
            // Collinear or coincident corners: no meaningful normal exists.
            return ;
        }
        let n = c.normalize();
        let mut verts: Vec<Vertex> = Vec::new();
        std::mem::swap(&mut verts, &mut self.verts);
        let i0 = dedup_insert(
            &mut verts,
            Vertex { position: p0, normal: n, uv: Vec2i { x: p0.x, y: p0.z } },
            &CompareRule::MeshNoUV,
        );
        let i1 = dedup_insert(
            &mut verts,
            Vertex { position: p1, normal: n, uv: Vec2i { x: p1.x, y: p1.z } },
            &CompareRule::MeshNoUV,
        );
        let i2 = dedup_insert(
            &mut verts,
            Vertex { position: p2, normal: n, uv: Vec2i { x: p2.x, y: p2.z } },
            &CompareRule::MeshNoUV,
        );
        self.verts = verts;
        let mut tris: Vec<IndexTriangle> = Vec::new();
        std::mem::swap(&mut tris, &mut self.triangles);
        tris.push(IndexTriangle { a: i0 as u32, b: i1 as u32, c: i2 as u32 });
        self.triangles = tris;
    }

    /// Render-ready arrays for the accumulated mesh.
    pub fn render_buffers(&self) -> (r: RenderBuffers)
        ensures
            r.indices@ == spec_flat_indices(self.spec_triangles()),
            r.positions@ == spec_positions_of(self.spec_verts()),
            r.normals@ == spec_normals_of(self.spec_verts()),
            r.uvs@ == spec_uvs_of(self.spec_verts()),
            r.indices@.len() == 3 * self.spec_triangles().len(),
    {
        let indices = flatten_indices(&self.triangles);
        let (positions, normals, uvs) = split_attributes(&self.verts);
        RenderBuffers { positions, normals, uvs, indices }
    }

    /// Collision-ready arrays for the accumulated mesh.
    pub fn trimesh(&self) -> (r: CollisionBuffers)
        ensures
            r.triangles@ == self.spec_triangles(),
            r.positions@ == spec_positions_of(self.spec_verts()),
    {
        let (positions, _normals, _uvs) = split_attributes(&self.verts);
        let mut triangles: Vec<IndexTriangle> = Vec::new();
        let n = self.triangles.len();
        let mut k: usize = 0;
        while k < n
            invariant
                k <= n,
                n == self.spec_triangles().len(),
                triangles@ == self.spec_triangles().take(k as int),
            decreases n - k,
        {
            triangles.push(self.triangles[k]);
            k += 1;
            proof {
                assert(triangles@ =~= self.spec_triangles().take(k as int));
            }
        }
        proof {
            assert(self.spec_triangles().take(n as int) =~= self.spec_triangles());
        }
        CollisionBuffers { positions, triangles }
    }
}

/// No earlier vertex of the list compares equal (under the rule) to a later
/// one: the list is fully deduplicated.
pub open spec fn spec_verts_unique(verts: Seq<Vertex>, rule: CompareRule) -> bool {
    forall|i: int, j: int|
        0 <= i < j < verts.len() ==> !spec_rule_eq(#[trigger] verts[i], #[trigger] verts[j], rule)
}

/// A scan that passes a vertex found no match there.
proof fn lemma_scan_no_match(verts: Seq<Vertex>, v: Vertex, rule: CompareRule, i: int)
    requires
        0 <= i <= verts.len(),
    ensures
        i <= spec_scan(verts, v, rule, i) <= verts.len(),
        forall|m: int|
            i <= m < spec_scan(verts, v, rule, i) ==> !spec_rule_eq(#[trigger] verts[m], v, rule),
    decreases verts.len() - i,
{
    if i < verts.len() && !spec_rule_eq(verts[i], v, rule) {
        lemma_scan_no_match(verts, v, rule, i + 1);
    }
}

/// A deduplicating insert keeps the vertex list fully deduplicated.
proof fn lemma_dedup_keeps_unique(verts: Seq<Vertex>, v: Vertex, rule: CompareRule)
    requires
        spec_verts_unique(verts, rule),
    ensures
        spec_verts_unique(spec_dedup_verts(verts, v, rule), rule),
{
    lemma_scan_no_match(verts, v, rule, 0);
}

/// Dedup completeness: however many triangles are distilled, the resulting
/// vertex list never holds two vertices that compare equal under the rule.
pub proof fn lemma_distil_vertices_unique(tris: Seq<MeshTriangle>, rule: CompareRule)
    ensures
        spec_verts_unique(spec_distil(tris, rule).1, rule),
    decreases tris.len(),
{
    if tris.len() > 0 {
        lemma_distil_vertices_unique(tris.drop_last(), rule);
        let state = spec_distil(tris.drop_last(), rule);
        let t = tris.last();
        let verts1 = spec_dedup_verts(state.1, t.v0, rule);
        let verts2 = spec_dedup_verts(verts1, t.v1, rule);
        lemma_dedup_keeps_unique(state.1, t.v0, rule);
        lemma_dedup_keeps_unique(verts1, t.v1, rule);
        lemma_dedup_keeps_unique(verts2, t.v2, rule);
    }
}

/// Dedup completeness for the eager accumulator: an insert never leaves two
/// vertices that compare equal under the position+normal rule.
pub proof fn lemma_mm_insert_tri_unique(
    verts: Seq<Vertex>,
    tris: Seq<IndexTriangle>,
    p0: Vec3i,
    p1: Vec3i,
    p2: Vec3i,
)
    requires
        spec_verts_unique(verts, CompareRule::MeshNoUV),
    ensures
        spec_verts_unique(spec_mm_insert_tri(verts, tris, p0, p1, p2).0, CompareRule::MeshNoUV),
{
    let rule = CompareRule::MeshNoUV;
    if !spec_degenerate(p0, p1, p2) {
        let n = spec_face_normal(p0, p1, p2);
        let va = spec_mm_vertex(p0, n);
        let vb = spec_mm_vertex(p1, n);
        let vc = spec_mm_vertex(p2, n);
        let verts1 = spec_dedup_verts(verts, va, rule);
        let verts2 = spec_dedup_verts(verts1, vb, rule);
        lemma_dedup_keeps_unique(verts, va, rule);
        lemma_dedup_keeps_unique(verts1, vb, rule);
        lemma_dedup_keeps_unique(verts2, vc, rule);
    }
}

/// Dedup correctness: inserting the same triangle (same three corners,
/// hence the same face normal) twice into a fresh accumulator yields three
/// unique vertices and two index triangles sharing them — not six vertices.
/// The corners must be pairwise distinct under the tolerance (else they
/// merge with each other) and not collinear (else the triangle is skipped).
pub proof fn lemma_dedup_same_triangle_twice(p0: Vec3i, p1: Vec3i, p2: Vec3i)
    requires
        !spec_degenerate(p0, p1, p2),
        !spec_approx_eq(p0, p1),
        !spec_approx_eq(p0, p2),
        !spec_approx_eq(p1, p2),
    ensures
        ({
            let s1 = spec_mm_insert_tri(
                Seq::<Vertex>::empty(),
                Seq::<IndexTriangle>::empty(),
                p0,
                p1,
                p2,
            );
            let s2 = spec_mm_insert_tri(s1.0, s1.1, p0, p1, p2);
            &&& s2.0.len() == 3
            &&& s2.1.len() == 2
            &&& s2.1[0] == s2.1[1]
        }),
{
    let n = spec_face_normal(p0, p1, p2);
    let va = spec_mm_vertex(p0, n);
    let vb = spec_mm_vertex(p1, n);
    let vc = spec_mm_vertex(p2, n);
    let rule = CompareRule::MeshNoUV;
    let e = Seq::<Vertex>::empty();
    assert(spec_scan(e, va, rule, 0) == 0);
    let v1 = e.push(va);
    assert(!spec_rule_eq(va, vb, rule));
    assert(spec_scan(v1, vb, rule, 1) == 1);
    assert(spec_scan(v1, vb, rule, 0) == 1);
    let v2 = v1.push(vb);
    assert(!spec_rule_eq(va, vc, rule) && !spec_rule_eq(vb, vc, rule));
    assert(spec_scan(v2, vc, rule, 2) == 2);
    assert(spec_scan(v2, vc, rule, 1) == 2);
    assert(spec_scan(v2, vc, rule, 0) == 2);
    let v3 = v2.push(vc);
    assert(spec_rule_eq(va, va, rule) && spec_rule_eq(vb, vb, rule) && spec_rule_eq(
        vc,
        vc,
        rule,
    ));
    assert(spec_scan(v3, va, rule, 0) == 0);
    assert(spec_scan(v3, vb, rule, 1) == 1);
    assert(spec_scan(v3, vb, rule, 0) == 1);
    assert(spec_scan(v3, vc, rule, 2) == 2);
    assert(spec_scan(v3, vc, rule, 1) == 2);
    assert(spec_scan(v3, vc, rule, 0) == 2);
    let s1 = spec_mm_insert_tri(Seq::<Vertex>::empty(), Seq::<IndexTriangle>::empty(), p0, p1, p2);
    assert(s1.0 == v3);
    assert(s1.1.len() == 1);
    let s2 = spec_mm_insert_tri(s1.0, s1.1, p0, p1, p2);
    assert(s2.0 == v3);
    assert(s2.1.len() == 2);
    assert(s2.1[0] == s2.1[1]);
}

/// Flattens index triples into a single index buffer, three entries per
/// triangle.
fn flatten_indices(tris: &Vec<IndexTriangle>) -> (r: Vec<u32>)
    ensures
        r@ == spec_flat_indices(tris@),
        r@.len() == 3 * tris@.len(),
{
    let mut indices: Vec<u32> = Vec::new();
    let n = tris.len();
    let mut k: usize = 0;
    while k < n
        invariant
            k <= n,
            n == tris@.len(),
            indices@ == spec_flat_indices(tris@.take(k as int)),
            indices@.len() == 3 * k,
        decreases n - k,
    {
        let t = tris[k];
        indices.push(t.a);
        indices.push(t.b);
        indices.push(t.c);
        k += 1;
        proof {
            assert(tris@.take(k as int).drop_last() =~= tris@.take(k as int - 1));
            assert(tris@.take(k as int).last() == tris@[k as int - 1]);
            assert(indices@ =~= spec_flat_indices(tris@.take(k as int)));
        }
    }
    proof {
        assert(tris@.take(n as int) =~= tris@);
    }
    indices
}

/// Splits a vertex list into parallel position, normal and uv arrays.
fn split_attributes(verts: &Vec<Vertex>) -> (r: (Vec<Vec3i>, Vec<Vec3i>, Vec<Vec2i>))
    ensures
        r.0@ == spec_positions_of(verts@),
        r.1@ == spec_normals_of(verts@),
        r.2@ == spec_uvs_of(verts@),
{
    let mut positions: Vec<Vec3i> = Vec::new();
    let mut normals: Vec<Vec3i> = Vec::new();
    let mut uvs: Vec<Vec2i> = Vec::new();
    let n = verts.len();
    let mut i: usize = 0;
    while i < n
        invariant
            i <= n,
            n == verts@.len(),
            positions@ == spec_positions_of(verts@.take(i as int)),
            normals@ == spec_normals_of(verts@.take(i as int)),
            uvs@ == spec_uvs_of(verts@.take(i as int)),
        decreases n - i,
    {
        let v = verts[i];
        positions.push(v.position);
        normals.push(v.normal);
        uvs.push(v.uv);
        i += 1;
        proof {
            assert(positions@ =~= spec_positions_of(verts@.take(i as int)));
            assert(normals@ =~= spec_normals_of(verts@.take(i as int)));
            assert(uvs@ =~= spec_uvs_of(verts@.take(i as int)));
        }
    }
    proof {
        assert(verts@.take(n as int) =~= verts@);
    }
    (positions, normals, uvs)
}

} // verus!
