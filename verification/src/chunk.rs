//! Terrain chunks: per-patch render tessellation, a coarser scaled collision
//! mesh, and a loosened axis-aligned bounding box.

use vstd::prelude::*;
use crate::fixed::{SCALE, fx_mul_spec, fx_mul, lemma_tdiv_bound};
use crate::vec3::{Vec3Fx, vec3_spec, bounded};
use crate::bezier::Frac;
use crate::patch::{BicubicPatch, VertexPNT, raster_vertex_spec, patch_controls_spec, CTRL_MAX};
use crate::surface::ControlSurface;

verus! {

/// Bound on every collision-mesh coordinate (control range times the largest
/// terrain scale).
pub const MESH_MAX: i64 = 0x40000000;

/// A collision-mesh vertex: a scaled surface position and the surface
/// parameters it was sampled at.
#[derive(Clone, Copy, PartialEq, Eq, Structural, Debug)]
pub struct CollisionVertex {
    pub position: Vec3Fx,
    pub u: Frac,
    pub v: Frac,
}

/// A triangle mesh for collision: every three consecutive vertices are one
/// triangle, in tessellation order; no index buffer is kept.
pub struct TriMeshFx {
    pub verts: Vec<CollisionVertex>,
}

impl TriMeshFx {
    /// Vertices come in whole triangles, with coordinates and surface
    /// parameters inside the ranges the collision arithmetic is proved for.
    pub open spec fn wf(self) -> bool {
        &&& self.verts@.len() % 3 == 0
        &&& forall|k: int|
            0 <= k < self.verts@.len() ==> {
                let cv = #[trigger] self.verts@[k];
                &&& bounded(cv.position, MESH_MAX as int)
                &&& cv.u.wf()
                &&& cv.v.wf()
                &&& cv.u.den <= 64
                &&& cv.v.den <= 64
            }
    }
}

/// The collision vertex that tessellation at `res`, scaled by `scale`,
/// emits at index `k`: the render vertex's position with every coordinate
/// multiplied by the fixed-point scale, keeping its surface parameters.
pub open spec fn collision_vertex_spec(
    c: Seq<Vec3Fx>,
    res: int,
    scale: int,
    k: int,
) -> CollisionVertex {
    let rv = raster_vertex_spec(c, res, k);
    CollisionVertex {
        position: vec3_spec(
            fx_mul_spec(rv.position.x as int, scale),
            fx_mul_spec(rv.position.y as int, scale),
            fx_mul_spec(rv.position.z as int, scale),
        ),
        u: rv.u,
        v: rv.v,
    }
}

impl BicubicPatch {
    /// Tessellate the patch at a (typically coarser) resolution into a
    /// collision triangle mesh, positions scaled by the fixed-point factor
    /// `scale`, keeping per-vertex surface parameters for normal lookup
    /// after a hit.
    pub fn collision_mesh(&self, res: i32, scale: i64) -> (r: TriMeshFx)
        requires
            self.wf(),
            1 <= res <= 64,
            0 <= scale <= 8 * SCALE,
        ensures
            r.verts@.len() == res * res * 6,
            forall|k: int| 0 <= k < res * res * 6 ==> r.verts@[k] == collision_vertex_spec(
                self.controls@,
                res as int,
                scale as int,
                k,
            ),
            r.wf(),
    {
        let base = self.rasterize(res);
        let mut verts: Vec<CollisionVertex> = Vec::new();
        let mut k: usize = 0;
        proof {
            assert((res as int) * res * 6 <= 64 * 64 * 6) by (nonlinear_arith)
                requires
                    1 <= res <= 64,
            ;
        }
        while k < base.len()
            invariant
                self.wf(),
                1 <= res <= 64,
                0 <= scale <= 8 * SCALE,
                base@.len() == res * res * 6,
                base@.len() <= 64 * 64 * 6,
                forall|t: int| 0 <= t < base@.len() ==> base@[t] == raster_vertex_spec(
                    self.controls@,
                    res as int,
                    t,
                ),
                forall|t: int|
                    0 <= t < base@.len() ==> {
                        let vx = #[trigger] base@[t];
                        &&& bounded(vx.position, CTRL_MAX as int)
                        &&& vx.u.wf()
                        &&& vx.v.wf()
                        &&& vx.u.den == res
                        &&& vx.v.den == res
                    },
                0 <= k <= base@.len(),
                verts@.len() == k,
                forall|t: int| 0 <= t < k ==> verts@[t] == collision_vertex_spec(
                    self.controls@,
                    res as int,
                    scale as int,
                    t,
                ),
                forall|t: int|
                    0 <= t < k ==> {
                        let cv = #[trigger] verts@[t];
                        &&& bounded(cv.position, MESH_MAX as int)
                        &&& cv.u.wf()
                        &&& cv.v.wf()
                        &&& cv.u.den <= 64
                        &&& cv.v.den <= 64
                    },
            decreases base@.len() - k,
        {
            let rv = base[k];
            proof {
                lemma_scaled_bound(rv.position.x as int, scale as int);
                lemma_scaled_bound(rv.position.y as int, scale as int);
                lemma_scaled_bound(rv.position.z as int, scale as int);
            }
            let p = Vec3Fx {
                x: fx_mul(rv.position.x, scale),
                y: fx_mul(rv.position.y, scale),
                z: fx_mul(rv.position.z, scale),
            };
            verts.push(CollisionVertex { position: p, u: rv.u, v: rv.v });
            k = k + 1;
        }
        proof {
            assert((res as int) * res * 6 % 3 == 0) by (nonlinear_arith);
        }
        TriMeshFx { verts }
    }
}

/// A control-range coordinate scaled by at most eight stays within the mesh
/// coordinate range.
proof fn lemma_scaled_bound(x: int, scale: int)
    requires
        -CTRL_MAX <= x <= CTRL_MAX,
        0 <= scale <= 8 * SCALE,
    ensures
        -(MESH_MAX as int) <= crate::fixed::tdiv(x * scale, SCALE as int) <= MESH_MAX as int,
{
    assert(-((MESH_MAX as int) * SCALE) <= x * scale <= (MESH_MAX as int) * SCALE)
        by (nonlinear_arith)
        requires
            -CTRL_MAX <= x <= CTRL_MAX,
            0 <= scale <= 8 * SCALE,
    ;
    lemma_tdiv_bound(x * scale, SCALE as int, MESH_MAX as int);
}

/// An axis-aligned bounding box.
#[derive(Clone, Copy, PartialEq, Eq, Structural, Debug)]
pub struct Aabb {
    pub mins: Vec3Fx,
    pub maxs: Vec3Fx,
}

impl Aabb {
    /// The box's corners stay inside the fixed-point range of the collision
    /// arithmetic.
    pub open spec fn wf(self) -> bool {
        bounded(self.mins, 0x200000000) && bounded(self.maxs, 0x200000000)
    }

    /// `p` lies inside the box, boundary included.
    pub open spec fn contains_spec(self, p: Vec3Fx) -> bool {
        &&& self.mins.x <= p.x <= self.maxs.x
        &&& self.mins.y <= p.y <= self.maxs.y
        &&& self.mins.z <= p.z <= self.maxs.z
    }

    /// Test whether a point lies inside the box, boundary included.
    pub fn contains_point(&self, p: &Vec3Fx) -> (r: bool)
        ensures
            r == self.contains_spec(*p),
    {
        self.mins.x <= p.x && p.x <= self.maxs.x && self.mins.y <= p.y && p.y <= self.maxs.y
            && self.mins.z <= p.z && p.z <= self.maxs.z
    }

    /// Enlarge the box by `margin` on every side.
    pub fn loosen(&mut self, margin: i64)
        requires
            bounded(old(self).mins, 0x100000000),
            bounded(old(self).maxs, 0x100000000),
            0 <= margin <= 16 * SCALE,
        ensures
            final(self).mins.x == old(self).mins.x - margin,
            final(self).mins.y == old(self).mins.y - margin,
            final(self).mins.z == old(self).mins.z - margin,
            final(self).maxs.x == old(self).maxs.x + margin,
            final(self).maxs.y == old(self).maxs.y + margin,
            final(self).maxs.z == old(self).maxs.z + margin,
            final(self).wf(),
    {
        self.mins.x = self.mins.x - margin;
        self.mins.y = self.mins.y - margin;
        self.mins.z = self.mins.z - margin;
        self.maxs.x = self.maxs.x + margin;
        self.maxs.y = self.maxs.y + margin;
        self.maxs.z = self.maxs.z + margin;
    }
}

/// The tight axis-aligned bounding box of a non-empty mesh: it contains
/// every vertex and attains every face.
pub open spec fn is_tight_box_of(bb: Aabb, verts: Seq<CollisionVertex>) -> bool {
    &&& forall|k: int| 0 <= k < verts.len() ==> bb.contains_spec((#[trigger] verts[k]).position)
    &&& exists|k: int| 0 <= k < verts.len() && (#[trigger] verts[k]).position.x == bb.mins.x
    &&& exists|k: int| 0 <= k < verts.len() && (#[trigger] verts[k]).position.y == bb.mins.y
    &&& exists|k: int| 0 <= k < verts.len() && (#[trigger] verts[k]).position.z == bb.mins.z
    &&& exists|k: int| 0 <= k < verts.len() && (#[trigger] verts[k]).position.x == bb.maxs.x
    &&& exists|k: int| 0 <= k < verts.len() && (#[trigger] verts[k]).position.y == bb.maxs.y
    &&& exists|k: int| 0 <= k < verts.len() && (#[trigger] verts[k]).position.z == bb.maxs.z
}

/// Compute the tight axis-aligned bounding box of a non-empty collision
/// mesh.
pub fn bounding_box(mesh: &TriMeshFx) -> (r: Aabb)
    requires
        mesh.wf(),
        mesh.verts@.len() > 0,
    ensures
        is_tight_box_of(r, mesh.verts@),
        bounded(r.mins, MESH_MAX as int),
        bounded(r.maxs, MESH_MAX as int),
        r.wf(),
{
    let first = mesh.verts[0].position;
    let mut bb = Aabb { mins: first, maxs: first };
    let mut k: usize = 1;
    proof {
        let pre = mesh.verts@.take(1int);
        assert(pre[0] == mesh.verts@[0]);
        assert(pre[0].position.x == bb.mins.x && pre[0].position.y == bb.mins.y && pre[0].position.z
            == bb.mins.z && pre[0].position.x == bb.maxs.x && pre[0].position.y == bb.maxs.y
            && pre[0].position.z == bb.maxs.z);
    }
    while k < mesh.verts.len()
        invariant
            mesh.wf(),
            1 <= k <= mesh.verts@.len(),
            is_tight_box_of(bb, mesh.verts@.take(k as int)),
            bounded(bb.mins, MESH_MAX as int),
            bounded(bb.maxs, MESH_MAX as int),
        decreases mesh.verts@.len() - k,
    {
        let p = mesh.verts[k].position;
        let ghost prefix = mesh.verts@.take(k as int);
        let ghost old_bb = bb;
        if p.x < bb.mins.x {
            bb.mins.x = p.x;
        }
        if p.y < bb.mins.y {
            bb.mins.y = p.y;
        }
        if p.z < bb.mins.z {
            bb.mins.z = p.z;
        }
        if p.x > bb.maxs.x {
            bb.maxs.x = p.x;
        }
        if p.y > bb.maxs.y {
            bb.maxs.y = p.y;
        }
        if p.z > bb.maxs.z {
            bb.maxs.z = p.z;
        }
        k = k + 1;
        proof {
            let next = mesh.verts@.take(k as int);
            assert(next == prefix.push(mesh.verts@[k - 1]));
            assert(next[k - 1] == mesh.verts@[k - 1]);
            assert forall|t: int| 0 <= t < next.len() implies bb.contains_spec(
                (#[trigger] next[t]).position,
            ) by {
                if t < prefix.len() {
                    assert(prefix[t] == next[t]);
                }
            }
            if p.x < old_bb.mins.x {
                assert(next[k - 1].position.x == bb.mins.x);
            } else {
                let w = choose|t: int|
                    0 <= t < prefix.len() && (#[trigger] prefix[t]).position.x == old_bb.mins.x;
                assert(next[w].position.x == bb.mins.x);
            }
            if p.y < old_bb.mins.y {
                assert(next[k - 1].position.y == bb.mins.y);
            } else {
                let w = choose|t: int|
                    0 <= t < prefix.len() && (#[trigger] prefix[t]).position.y == old_bb.mins.y;
                assert(next[w].position.y == bb.mins.y);
            }
            if p.z < old_bb.mins.z {
                assert(next[k - 1].position.z == bb.mins.z);
            } else {
                let w = choose|t: int|
                    0 <= t < prefix.len() && (#[trigger] prefix[t]).position.z == old_bb.mins.z;
                assert(next[w].position.z == bb.mins.z);
            }
            if p.x > old_bb.maxs.x {
                assert(next[k - 1].position.x == bb.maxs.x);
            } else {
                let w = choose|t: int|
                    0 <= t < prefix.len() && (#[trigger] prefix[t]).position.x == old_bb.maxs.x;
                assert(next[w].position.x == bb.maxs.x);
            }
            if p.y > old_bb.maxs.y {
                assert(next[k - 1].position.y == bb.maxs.y);
            } else {
                let w = choose|t: int|
                    0 <= t < prefix.len() && (#[trigger] prefix[t]).position.y == old_bb.maxs.y;
                assert(next[w].position.y == bb.maxs.y);
            }
            if p.z > old_bb.maxs.z {
                assert(next[k - 1].position.z == bb.maxs.z);
            } else {
                let w = choose|t: int|
                    0 <= t < prefix.len() && (#[trigger] prefix[t]).position.z == old_bb.maxs.z;
                assert(next[w].position.z == bb.maxs.z);
            }
            assert(is_tight_box_of(bb, next));
        }
    }
    proof {
        assert(mesh.verts@.take(mesh.verts@.len() as int) == mesh.verts@);
    }
    bb
}

/// One terrain chunk: the bicubic patch, its collision mesh and the
/// loosened bounding box that the broad phase tests.
pub struct Chunk {
    pub collision_mesh: TriMeshFx,
    pub patch: BicubicPatch,
    pub bounding_box: Aabb,
}

impl Chunk {
    /// The chunk's parts are well formed; the box is the collision mesh's
    /// tight box loosened by exactly `margin`.
    pub open spec fn wf_with_margin(self, margin: int) -> bool {
        &&& self.patch.wf()
        &&& self.collision_mesh.wf()
        &&& self.collision_mesh.verts@.len() > 0
        &&& self.bounding_box.wf()
        &&& exists|bb: Aabb|
            is_tight_box_of(bb, self.collision_mesh.verts@) && #[trigger] loosened(
                bb,
                margin,
            ) == self.bounding_box
    }

    /// The chunk's parts are well formed and its box covers its mesh.
    pub open spec fn wf(self) -> bool {
        &&& self.patch.wf()
        &&& self.collision_mesh.wf()
        &&& self.bounding_box.wf()
    }
}

/// `bb` enlarged by `margin` on every side.
pub open spec fn loosened(bb: Aabb, margin: int) -> Aabb {
    Aabb {
        mins: vec3_spec(bb.mins.x - margin, bb.mins.y - margin, bb.mins.z - margin),
        maxs: vec3_spec(bb.maxs.x + margin, bb.maxs.y + margin, bb.maxs.z + margin),
    }
}

/// Build one chunk over a 2x2 block of the surface's planes: the patch, its
/// scaled collision mesh, and the mesh's tight bounding box loosened by
/// `margin`.
pub fn build_chunk(
    surface: &ControlSurface,
    i: usize,
    j: usize,
    coll_res: i32,
    scale: i64,
    margin: i64,
) -> (r: Chunk)
    requires
        surface.wf(),
        i + 1 < surface.size,
        j + 1 < surface.size,
        1 <= coll_res <= 64,
        0 <= scale <= 8 * SCALE,
        0 <= margin <= 16 * SCALE,
    ensures
        r.patch.controls@ == patch_controls_spec(
            surface.controls@[i as int]@[j as int],
            surface.controls@[i as int]@[j as int + 1],
            surface.controls@[i as int + 1]@[j as int + 1],
            surface.controls@[i as int + 1]@[j as int],
        ),
        r.collision_mesh.verts@.len() == coll_res * coll_res * 6,
        forall|k: int| 0 <= k < coll_res * coll_res * 6 ==> r.collision_mesh.verts@[k]
            == collision_vertex_spec(r.patch.controls@, coll_res as int, scale as int, k),
        r.wf_with_margin(margin as int),
        r.wf(),
{
    let patch = surface.patch_at(i, j);
    let collision_mesh = patch.collision_mesh(coll_res, scale);
    proof {
        assert((coll_res as int) * coll_res * 6 > 0) by (nonlinear_arith)
            requires
                1 <= coll_res,
        ;
    }
    let mut bounding_box = bounding_box(&collision_mesh);
    let ghost tight = bounding_box;
    bounding_box.loosen(margin);
    proof {
        assert(loosened(tight, margin as int) == bounding_box);
    }
    Chunk { collision_mesh, patch, bounding_box }
}

/// `ch` is the chunk of the surface's 2x2 block at `(a, b)`: its patch is
/// carved from the block's four planes, its collision mesh is that patch's
/// tessellation at `res` scaled by `scale`, and its box is the mesh's tight
/// box loosened by `margin`.
pub open spec fn chunk_at_spec(
    s: ControlSurface,
    ch: Chunk,
    a: int,
    b: int,
    res: int,
    scale: int,
    margin: int,
) -> bool {
    &&& ch.patch.controls@ == patch_controls_spec(
        s.controls@[a]@[b],
        s.controls@[a]@[b + 1],
        s.controls@[a + 1]@[b + 1],
        s.controls@[a + 1]@[b],
    )
    &&& ch.collision_mesh.verts@.len() == res * res * 6
    &&& forall|k: int| 0 <= k < res * res * 6 ==> ch.collision_mesh.verts@[k]
        == collision_vertex_spec(ch.patch.controls@, res, scale, k)
    &&& ch.wf_with_margin(margin)
    &&& ch.wf()
}

/// Build the chunk set of a whole surface, one chunk per 2x2 block of
/// planes, stored in row-major block order — the order the broad phase
/// scans.
#[verifier::rlimit(60)]
pub fn build_chunks(surface: &ControlSurface, coll_res: i32, scale: i64, margin: i64) -> (r: Vec<
    Chunk,
>)
    requires
        surface.wf(),
        1 <= coll_res <= 64,
        0 <= scale <= 8 * SCALE,
        0 <= margin <= 16 * SCALE,
    ensures
        r@.len() == (surface.size - 1) * (surface.size - 1),
        forall|i: int, j: int|
            0 <= i < surface.size - 1 && 0 <= j < surface.size - 1 ==> chunk_at_spec(
                *surface,
                #[trigger] r@[i * (surface.size - 1) + j],
                i,
                j,
                coll_res as int,
                scale as int,
                margin as int,
            ),
{
    let n = surface.size - 1;
    let mut chunks: Vec<Chunk> = Vec::new();
    let mut i: usize = 0;
    while i < n
        invariant
            surface.wf(),
            n == surface.size - 1,
            1 <= coll_res <= 64,
            0 <= scale <= 8 * SCALE,
            0 <= margin <= 16 * SCALE,
            0 <= i <= n,
            chunks@.len() == i * n,
            forall|a: int, b: int|
                0 <= a < i && 0 <= b < n ==> chunk_at_spec(
                    *surface,
                    #[trigger] chunks@[a * n + b],
                    a,
                    b,
                    coll_res as int,
                    scale as int,
                    margin as int,
                ),
        decreases n - i,
    {
        let mut j: usize = 0;
        while j < n
            invariant
                surface.wf(),
                n == surface.size - 1,
                1 <= coll_res <= 64,
                0 <= scale <= 8 * SCALE,
                0 <= margin <= 16 * SCALE,
                0 <= i < n,
                0 <= j <= n,
                chunks@.len() == i * n + j,
                forall|a: int, b: int|
                    0 <= a < i && 0 <= b < n ==> chunk_at_spec(
                        *surface,
                        #[trigger] chunks@[a * n + b],
                        a,
                        b,
                        coll_res as int,
                        scale as int,
                        margin as int,
                    ),
                forall|b: int|
                    0 <= b < j ==> chunk_at_spec(
                        *surface,
                        #[trigger] chunks@[i * n + b],
                        i as int,
                        b,
                        coll_res as int,
                        scale as int,
                        margin as int,
                    ),
            decreases n - j,
        {
            let ch = build_chunk(surface, i, j, coll_res, scale, margin);
            chunks.push(ch);
            proof {
                assert(chunk_at_spec(
                    *surface,
                    ch,
                    i as int,
                    j as int,
                    coll_res as int,
                    scale as int,
                    margin as int,
                ));
                assert forall|a: int, b: int| 0 <= a < i && 0 <= b < n implies chunk_at_spec(
                    *surface,
                    #[trigger] chunks@[a * (n as int) + b],
                    a,
                    b,
                    coll_res as int,
                    scale as int,
                    margin as int,
                ) by {
                    assert(0 <= a * (n as int) + b < i * (n as int)) by (nonlinear_arith)
                        requires
                            0 <= a < i,
                            0 <= b < n,
                    ;
                }
                assert forall|b: int| 0 <= b < j + 1 implies chunk_at_spec(
                    *surface,
                    #[trigger] chunks@[i * (n as int) + b],
                    i as int,
                    b,
                    coll_res as int,
                    scale as int,
                    margin as int,
                ) by {
                    if b == j {
                        assert(chunks@[i * (n as int) + b] == ch);
                    }
                }
            }
            j = j + 1;
        }
        proof {
            assert forall|a: int, b: int|
                0 <= a < i + 1 && 0 <= b < n implies chunk_at_spec(
                    *surface,
                    #[trigger] chunks@[a * (n as int) + b],
                    a,
                    b,
                    coll_res as int,
                    scale as int,
                    margin as int,
                ) by {
                if a == i {
                    assert(a * (n as int) + b == i * (n as int) + b);
                    assert(chunk_at_spec(
                        *surface,
                        chunks@[i * (n as int) + b],
                        i as int,
                        b,
                        coll_res as int,
                        scale as int,
                        margin as int,
                    ));
                }
            }
            assert((i + 1) * (n as int) == i * (n as int) + n) by (nonlinear_arith);
        }
        i = i + 1;
    }
    proof {
        assert forall|a: int, b: int| 0 <= a < n && 0 <= b < n implies 0 <= #[trigger] (a * (
        n as int) + b) < (n as int) * n by {
            assert(0 <= a * (n as int) + b < (n as int) * n) by (nonlinear_arith)
                requires
                    0 <= a < n,
                    0 <= b < n,
            ;
        }
    }
    chunks
}

} // verus!
