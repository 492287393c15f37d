//! Vertical ray casting against a collision triangle mesh.
//!
//! The narrow phase only ever casts rays along the vertical axis, so the
//! intersection test reduces to an exact 2D point-in-triangle test on the
//! horizontal projection followed by a plane solve for the hit height.  The
//! surface parameters of the hit are recovered barycentrically and quantized
//! to a fixed denominator.

use vstd::prelude::*;
use crate::fixed::{tdiv, lemma_tdiv_bound, div_trunc};
use crate::vec3::{Vec3Fx, vec3_spec, bounded};
use crate::bezier::Frac;
use crate::chunk::{TriMeshFx, CollisionVertex, MESH_MAX};

verus! {

/// Bound on the coordinates of a ray origin.
pub const ORIGIN_MAX: i64 = 0x100000000;

/// The denominator that recovered surface parameters are quantized to.
pub const UV_DEN: u32 = 64;

/// A narrow-phase hit: the time of impact along the ray, the hit point, and
/// the quantized surface parameters of the hit.
#[derive(Clone, Copy, PartialEq, Eq, Structural, Debug)]
pub struct RayHit {
    pub toi: i64,
    pub point: Vec3Fx,
    pub u: Frac,
    pub v: Frac,
}

/// Vertex `k` (0, 1 or 2) of triangle `t`.
pub open spec fn tri_vert(m: Seq<CollisionVertex>, t: int, k: int) -> CollisionVertex {
    m[3 * t + k]
}

/// The 2D edge function of edge `e` of triangle `t` against the origin's
/// horizontal projection: positive when the projection lies to one side of
/// the directed edge.
pub open spec fn edge_s(m: Seq<CollisionVertex>, t: int, o: Vec3Fx, e: int) -> int {
    let a = tri_vert(m, t, e).position;
    let b = tri_vert(m, t, if e == 2 { 0int } else { e + 1 }).position;
    (b.x - a.x) * (o.z - a.z) - (b.z - a.z) * (o.x - a.x)
}

/// The origin's horizontal projection lies inside (or on the boundary of)
/// the projected triangle.
pub open spec fn inside_xz(m: Seq<CollisionVertex>, t: int, o: Vec3Fx) -> bool {
    let s0 = edge_s(m, t, o, 0);
    let s1 = edge_s(m, t, o, 1);
    let s2 = edge_s(m, t, o, 2);
    (s0 >= 0 && s1 >= 0 && s2 >= 0) || (s0 <= 0 && s1 <= 0 && s2 <= 0)
}

/// The x component of the triangle's (unnormalized) plane normal.
pub open spec fn plane_nx(m: Seq<CollisionVertex>, t: int) -> int {
    let p0 = tri_vert(m, t, 0).position;
    let p1 = tri_vert(m, t, 1).position;
    let p2 = tri_vert(m, t, 2).position;
    (p1.y - p0.y) * (p2.z - p0.z) - (p1.z - p0.z) * (p2.y - p0.y)
}

/// The y component of the triangle's plane normal.
pub open spec fn plane_ny(m: Seq<CollisionVertex>, t: int) -> int {
    let p0 = tri_vert(m, t, 0).position;
    let p1 = tri_vert(m, t, 1).position;
    let p2 = tri_vert(m, t, 2).position;
    (p1.z - p0.z) * (p2.x - p0.x) - (p1.x - p0.x) * (p2.z - p0.z)
}

/// The z component of the triangle's plane normal.
pub open spec fn plane_nz(m: Seq<CollisionVertex>, t: int) -> int {
    let p0 = tri_vert(m, t, 0).position;
    let p1 = tri_vert(m, t, 1).position;
    let p2 = tri_vert(m, t, 2).position;
    (p1.x - p0.x) * (p2.y - p0.y) - (p1.y - p0.y) * (p2.x - p0.x)
}

/// The plane offset `n . p0`.
pub open spec fn plane_d(m: Seq<CollisionVertex>, t: int) -> int {
    let p0 = tri_vert(m, t, 0).position;
    plane_nx(m, t) * p0.x + plane_ny(m, t) * p0.y + plane_nz(m, t) * p0.z
}

/// Numerator of the hit height, normalized so the denominator is positive.
pub open spec fn y_num(m: Seq<CollisionVertex>, t: int, o: Vec3Fx) -> int {
    let raw = plane_d(m, t) - plane_nx(m, t) * o.x - plane_nz(m, t) * o.z;
    if plane_ny(m, t) < 0 {
        -raw
    } else {
        raw
    }
}

/// Denominator of the hit height (the absolute vertical normal component).
pub open spec fn y_den(m: Seq<CollisionVertex>, t: int) -> int {
    if plane_ny(m, t) < 0 {
        -plane_ny(m, t)
    } else {
        plane_ny(m, t)
    }
}

/// The height at which the vertical line through the origin meets the
/// triangle's plane, truncated to fixed point.
pub open spec fn hit_y(m: Seq<CollisionVertex>, t: int, o: Vec3Fx) -> int {
    tdiv(y_num(m, t, o), y_den(m, t))
}

/// Twice the signed area of the projected triangle (the edge-function sum).
pub open spec fn area_sum(m: Seq<CollisionVertex>, t: int, o: Vec3Fx) -> int {
    edge_s(m, t, o, 0) + edge_s(m, t, o, 1) + edge_s(m, t, o, 2)
}

/// The barycentric denominator, normalized to be positive: the area sum
/// times the product of the three vertex parameter denominators.
pub open spec fn uv_den(m: Seq<CollisionVertex>, t: int, o: Vec3Fx) -> int {
    let dd = (tri_vert(m, t, 0).u.den as int) * (tri_vert(m, t, 1).u.den as int) * (tri_vert(
        m,
        t,
        2,
    ).u.den as int);
    if area_sum(m, t, o) < 0 {
        -(area_sum(m, t, o) * dd)
    } else {
        area_sum(m, t, o) * dd
    }
}

/// The barycentric numerator of the interpolated `u` parameter, over the
/// denominator `uv_den`; each vertex weight is the edge function opposite
/// it.
pub open spec fn u_num(m: Seq<CollisionVertex>, t: int, o: Vec3Fx) -> int {
    let v0 = tri_vert(m, t, 0);
    let v1 = tri_vert(m, t, 1);
    let v2 = tri_vert(m, t, 2);
    let raw = edge_s(m, t, o, 1) * ((v0.u.num as int) * ((v1.u.den as int) * (v2.u.den as int)))
        + edge_s(m, t, o, 2) * ((v1.u.num as int) * ((v0.u.den as int) * (v2.u.den as int)))
        + edge_s(m, t, o, 0) * ((v2.u.num as int) * ((v0.u.den as int) * (v1.u.den as int)));
    if area_sum(m, t, o) < 0 {
        -raw
    } else {
        raw
    }
}

/// The barycentric numerator of the interpolated `v` parameter; the `v`
/// parameters carry their own denominators, independent of the `u` ones.
pub open spec fn v_num(m: Seq<CollisionVertex>, t: int, o: Vec3Fx) -> int {
    let v0 = tri_vert(m, t, 0);
    let v1 = tri_vert(m, t, 1);
    let v2 = tri_vert(m, t, 2);
    let raw = edge_s(m, t, o, 1) * ((v0.v.num as int) * ((v1.v.den as int) * (v2.v.den as int)))
        + edge_s(m, t, o, 2) * ((v1.v.num as int) * ((v0.v.den as int) * (v2.v.den as int)))
        + edge_s(m, t, o, 0) * ((v2.v.num as int) * ((v0.v.den as int) * (v1.v.den as int)));
    if area_sum(m, t, o) < 0 {
        -raw
    } else {
        raw
    }
}

/// The denominator of the interpolated `v` parameter.
pub open spec fn vv_den(m: Seq<CollisionVertex>, t: int, o: Vec3Fx) -> int {
    let dd = (tri_vert(m, t, 0).v.den as int) * (tri_vert(m, t, 1).v.den as int) * (tri_vert(
        m,
        t,
        2,
    ).v.den as int);
    if area_sum(m, t, o) < 0 {
        -(area_sum(m, t, o) * dd)
    } else {
        area_sum(m, t, o) * dd
    }
}

/// Clamp a quantized parameter into `[0, UV_DEN]`.
pub open spec fn clamp_uv_spec(q: int) -> int {
    if q < 0 {
        0
    } else if q > UV_DEN {
        UV_DEN as int
    } else {
        q
    }
}

/// The interpolated `u` parameter, quantized to the fixed denominator.
pub open spec fn quant_u(m: Seq<CollisionVertex>, t: int, o: Vec3Fx) -> int {
    clamp_uv_spec(tdiv(64 * u_num(m, t, o), uv_den(m, t, o)))
}

/// The interpolated `v` parameter, quantized to the fixed denominator.
pub open spec fn quant_v(m: Seq<CollisionVertex>, t: int, o: Vec3Fx) -> int {
    clamp_uv_spec(tdiv(64 * v_num(m, t, o), vv_den(m, t, o)))
}

/// Triangle `t` intersects the vertical ray from `o`: the origin projects
/// into the triangle, the triangle is not vertical or degenerate, the hit
/// height stays in fixed-point range, and the hit lies on the ray's side of
/// the origin (`down` rays go to or below the origin, upward rays to or
/// above it).
pub open spec fn tri_hit(m: Seq<CollisionVertex>, t: int, o: Vec3Fx, down: bool) -> bool {
    &&& inside_xz(m, t, o)
    &&& plane_ny(m, t) != 0
    &&& area_sum(m, t, o) != 0
    &&& -(0x80000000 * y_den(m, t)) <= y_num(m, t, o) <= 0x80000000 * y_den(m, t)
    &&& (if down {
        hit_y(m, t, o) <= o.y
    } else {
        hit_y(m, t, o) >= o.y
    })
}

/// The time of impact: the vertical distance from the origin to the hit.
pub open spec fn hit_toi(m: Seq<CollisionVertex>, t: int, o: Vec3Fx, down: bool) -> int {
    if down {
        o.y - hit_y(m, t, o)
    } else {
        hit_y(m, t, o) - o.y
    }
}

/// The hit record of triangle `t`.
pub open spec fn hit_spec(m: Seq<CollisionVertex>, t: int, o: Vec3Fx, down: bool) -> RayHit {
    RayHit {
        toi: hit_toi(m, t, o, down) as i64,
        point: vec3_spec(o.x as int, hit_y(m, t, o), o.z as int),
        u: Frac { num: quant_u(m, t, o) as u32, den: UV_DEN },
        v: Frac { num: quant_v(m, t, o) as u32, den: UV_DEN },
    }
}

/// The triangle with the smallest time of impact among the first `t`
/// triangles that the ray hits; earlier triangles win ties.
pub open spec fn best_tri(m: Seq<CollisionVertex>, o: Vec3Fx, down: bool, t: int) -> Option<int>
    decreases t,
{
    if t <= 0 {
        None
    } else {
        let prev = best_tri(m, o, down, t - 1);
        if !tri_hit(m, t - 1, o, down) {
            prev
        } else {
            match prev {
                None => Some(t - 1),
                Some(b) => if hit_toi(m, t - 1, o, down) < hit_toi(m, b, o, down) {
                    Some(t - 1)
                } else {
                    Some(b)
                },
            }
        }
    }
}

/// The best triangle, if any, is one of the first `t` and the ray hits it.
pub proof fn lemma_best_tri_hit(m: Seq<CollisionVertex>, o: Vec3Fx, down: bool, t: int)
    ensures
        best_tri(m, o, down, t) is Some ==> {
            let b = best_tri(m, o, down, t)->Some_0;
            0 <= b < t && tri_hit(m, b, o, down)
        },
    decreases t,
{
    if t > 0 {
        lemma_best_tri_hit(m, o, down, t - 1);
    }
}

/// A product of two machine integers, with range facts for the magnitudes
/// the ray caster works at.
fn muli(a: i128, b: i128) -> (r: i128)
    requires
        -0x400000000000000000 <= a <= 0x400000000000000000,
        -0x800000000 <= b <= 0x800000000,
    ensures
        r == a * b,
        -0x200000000000000000000000000 <= r <= 0x200000000000000000000000000,
        (-0x200000000 <= a <= 0x200000000 && -0x80000000 <= b <= 0x80000000)
            ==> -0x10000000000000000 <= r <= 0x10000000000000000,
{
    proof {
        assert(-0x200000000000000000000000000 <= a * b <= 0x200000000000000000000000000)
            by (nonlinear_arith)
            requires
                -0x400000000000000000 <= a <= 0x400000000000000000,
                -0x800000000 <= b <= 0x800000000,
        ;
        if -0x200000000 <= a <= 0x200000000 && -0x80000000 <= b <= 0x80000000 {
            assert(-0x10000000000000000 <= a * b <= 0x10000000000000000) by (nonlinear_arith)
                requires
                    -0x200000000 <= a <= 0x200000000,
                    -0x80000000 <= b <= 0x80000000,
            ;
        }
    }
    a * b
}

/// Clamp a quantized parameter into the fixed range.
fn clamp_uv(q: i128) -> (r: u32)
    ensures
        r == clamp_uv_spec(q as int),
{
    if q < 0 {
        0
    } else if q > 64 {
        64
    } else {
        q as u32
    }
}

/// Test one triangle of the mesh against the vertical ray from `origin`.
#[verifier::rlimit(60)]
fn eval_tri(mesh: &TriMeshFx, t: usize, origin: Vec3Fx, down: bool) -> (r: Option<RayHit>)
    requires
        mesh.wf(),
        3 * t + 3 <= mesh.verts@.len(),
        bounded(origin, ORIGIN_MAX as int),
    ensures
        (r is Some) <==> tri_hit(mesh.verts@, t as int, origin, down),
        r is Some ==> r->Some_0 == hit_spec(mesh.verts@, t as int, origin, down),
{
    let ghost m = mesh.verts@;
    let nlen = mesh.verts.len();
    proof {
        assert(3 * t + 3 <= nlen);
    }
    let v0 = mesh.verts[3 * t];
    let v1 = mesh.verts[3 * t + 1];
    let v2 = mesh.verts[3 * t + 2];
    let p0 = v0.position;
    let p1 = v1.position;
    let p2 = v2.position;
    let ox = origin.x;
    let oy = origin.y;
    let oz = origin.z;

    let s0: i128 = muli((oz - p0.z) as i128, (p1.x - p0.x) as i128) - muli(
        (ox - p0.x) as i128,
        (p1.z - p0.z) as i128,
    );
    let s1: i128 = muli((oz - p1.z) as i128, (p2.x - p1.x) as i128) - muli(
        (ox - p1.x) as i128,
        (p2.z - p1.z) as i128,
    );
    let s2: i128 = muli((oz - p2.z) as i128, (p0.x - p2.x) as i128) - muli(
        (ox - p2.x) as i128,
        (p0.z - p2.z) as i128,
    );
    proof {
        assert(s0 == edge_s(m, t as int, origin, 0)) by (nonlinear_arith)
            requires
                s0 == (oz - p0.z) * (p1.x - p0.x) - (ox - p0.x) * (p1.z - p0.z),
                edge_s(m, t as int, origin, 0) == (p1.x - p0.x) * (oz - p0.z) - (p1.z - p0.z) * (
                ox - p0.x),
        ;
        assert(s1 == edge_s(m, t as int, origin, 1)) by (nonlinear_arith)
            requires
                s1 == (oz - p1.z) * (p2.x - p1.x) - (ox - p1.x) * (p2.z - p1.z),
                edge_s(m, t as int, origin, 1) == (p2.x - p1.x) * (oz - p1.z) - (p2.z - p1.z) * (
                ox - p1.x),
        ;
        assert(s2 == edge_s(m, t as int, origin, 2)) by (nonlinear_arith)
            requires
                s2 == (oz - p2.z) * (p0.x - p2.x) - (ox - p2.x) * (p0.z - p2.z),
                edge_s(m, t as int, origin, 2) == (p0.x - p2.x) * (oz - p2.z) - (p0.z - p2.z) * (
                ox - p2.x),
        ;
    }
    let inside = (s0 >= 0 && s1 >= 0 && s2 >= 0) || (s0 <= 0 && s1 <= 0 && s2 <= 0);
    if !inside {
        return None;
    }
    let area: i128 = s0 + s1 + s2;
    if area == 0 {
        return None;
    }

    let ny: i128 = muli((p1.z - p0.z) as i128, (p2.x - p0.x) as i128) - muli(
        (p1.x - p0.x) as i128,
        (p2.z - p0.z) as i128,
    );
    if ny == 0 {
        return None;
    }
    let nx: i128 = muli((p1.y - p0.y) as i128, (p2.z - p0.z) as i128) - muli(
        (p1.z - p0.z) as i128,
        (p2.y - p0.y) as i128,
    );
    let nz: i128 = muli((p1.x - p0.x) as i128, (p2.y - p0.y) as i128) - muli(
        (p1.y - p0.y) as i128,
        (p2.x - p0.x) as i128,
    );
    let d: i128 = muli(nx, p0.x as i128) + muli(ny, p0.y as i128) + muli(nz, p0.z as i128);
    let raw: i128 = d - muli(nx, ox as i128) - muli(nz, oz as i128);
    let (yn, yd): (i128, i128) = if ny < 0 {
        (-raw, -ny)
    } else {
        (raw, ny)
    };
    proof {
        assert(yn == y_num(m, t as int, origin) && yd == y_den(m, t as int));
    }
    let bound: i128 = muli(yd, 0x80000000);
    if yn > bound || yn < -bound {
        return None;
    }
    proof {
        lemma_tdiv_bound(yn as int, yd as int, 0x80000000);
    }
    let yv: i128 = div_trunc(yn, yd);
    if down {
        if yv > oy as i128 {
            return None;
        }
    } else {
        if yv < oy as i128 {
            return None;
        }
    }

    let du0: i128 = v0.u.den as i128;
    let du1: i128 = v1.u.den as i128;
    let du2: i128 = v2.u.den as i128;
    let nu0: i128 = v0.u.num as i128;
    let nu1: i128 = v1.u.num as i128;
    let nu2: i128 = v2.u.num as i128;
    proof {
        assert(0 <= nu0 * (du1 * du2) <= 0x800000000 && 0 <= nu1 * (du0 * du2) <= 0x800000000 && 0
            <= nu2 * (du0 * du1) <= 0x800000000 && 0 <= du0 * (du1 * du2) <= 0x800000000 && 0 <= du1
            * du2 <= 0x800000000 && 0 <= du0 * du2 <= 0x800000000 && 0 <= du0 * du1
            <= 0x800000000) by (nonlinear_arith)
            requires
                0 <= nu0 <= 64 && 0 <= nu1 <= 64 && 0 <= nu2 <= 64,
                1 <= du0 <= 64 && 1 <= du1 <= 64 && 1 <= du2 <= 64,
        ;
    }
    let u_raw: i128 = muli(s1, nu0 * (du1 * du2)) + muli(s2, nu1 * (du0 * du2)) + muli(
        s0,
        nu2 * (du0 * du1),
    );
    let u_dd: i128 = muli(area, du0 * (du1 * du2));
    let (un, ud): (i128, i128) = if area < 0 {
        (-u_raw, -u_dd)
    } else {
        (u_raw, u_dd)
    };
    proof {
        assert(du0 * (du1 * du2) == (tri_vert(m, t as int, 0).u.den as int) * (tri_vert(
            m,
            t as int,
            1,
        ).u.den as int) * (tri_vert(m, t as int, 2).u.den as int)) by (nonlinear_arith)
            requires
                du0 == tri_vert(m, t as int, 0).u.den,
                du1 == tri_vert(m, t as int, 1).u.den,
                du2 == tri_vert(m, t as int, 2).u.den,
        ;
        assert(un == u_num(m, t as int, origin) && ud == uv_den(m, t as int, origin));
        assert(ud > 0) by (nonlinear_arith)
            requires
                ud == uv_den(m, t as int, origin),
                area_sum(m, t as int, origin) != 0,
                uv_den(m, t as int, origin) == (if area_sum(m, t as int, origin) < 0 {
                    -(area_sum(m, t as int, origin) * ((tri_vert(m, t as int, 0).u.den as int) * (
                    tri_vert(m, t as int, 1).u.den as int) * (tri_vert(m, t as int, 2).u.den as int)))
                } else {
                    area_sum(m, t as int, origin) * ((tri_vert(m, t as int, 0).u.den as int) * (
                    tri_vert(m, t as int, 1).u.den as int) * (tri_vert(m, t as int, 2).u.den as int))
                }),
                1 <= tri_vert(m, t as int, 0).u.den,
                1 <= tri_vert(m, t as int, 1).u.den,
                1 <= tri_vert(m, t as int, 2).u.den,
    ;
    }
    let uq = clamp_uv(div_trunc(64 * un, ud));

    let dv0: i128 = v0.v.den as i128;
    let dv1: i128 = v1.v.den as i128;
    let dv2: i128 = v2.v.den as i128;
    let nv0: i128 = v0.v.num as i128;
    let nv1: i128 = v1.v.num as i128;
    let nv2: i128 = v2.v.num as i128;
    proof {
        assert(0 <= nv0 * (dv1 * dv2) <= 0x800000000 && 0 <= nv1 * (dv0 * dv2) <= 0x800000000 && 0
            <= nv2 * (dv0 * dv1) <= 0x800000000 && 0 <= dv0 * (dv1 * dv2) <= 0x800000000 && 0 <= dv1
            * dv2 <= 0x800000000 && 0 <= dv0 * dv2 <= 0x800000000 && 0 <= dv0 * dv1
            <= 0x800000000) by (nonlinear_arith)
            requires
                0 <= nv0 <= 64 && 0 <= nv1 <= 64 && 0 <= nv2 <= 64,
                1 <= dv0 <= 64 && 1 <= dv1 <= 64 && 1 <= dv2 <= 64,
        ;
    }
    let v_raw: i128 = muli(s1, nv0 * (dv1 * dv2)) + muli(s2, nv1 * (dv0 * dv2)) + muli(
        s0,
        nv2 * (dv0 * dv1),
    );
    let v_dd: i128 = muli(area, dv0 * (dv1 * dv2));
    let (vn, vd): (i128, i128) = if area < 0 {
        (-v_raw, -v_dd)
    } else {
        (v_raw, v_dd)
    };
    proof {
        assert(dv0 * (dv1 * dv2) == (tri_vert(m, t as int, 0).v.den as int) * (tri_vert(
            m,
            t as int,
            1,
        ).v.den as int) * (tri_vert(m, t as int, 2).v.den as int)) by (nonlinear_arith)
            requires
                dv0 == tri_vert(m, t as int, 0).v.den,
                dv1 == tri_vert(m, t as int, 1).v.den,
                dv2 == tri_vert(m, t as int, 2).v.den,
        ;
        assert(vn == v_num(m, t as int, origin) && vd == vv_den(m, t as int, origin));
        assert(vd > 0) by (nonlinear_arith)
            requires
                vd == vv_den(m, t as int, origin),
                area_sum(m, t as int, origin) != 0,
                vv_den(m, t as int, origin) == (if area_sum(m, t as int, origin) < 0 {
                    -(area_sum(m, t as int, origin) * ((tri_vert(m, t as int, 0).v.den as int) * (
                    tri_vert(m, t as int, 1).v.den as int) * (tri_vert(m, t as int, 2).v.den as int)))
                } else {
                    area_sum(m, t as int, origin) * ((tri_vert(m, t as int, 0).v.den as int) * (
                    tri_vert(m, t as int, 1).v.den as int) * (tri_vert(m, t as int, 2).v.den as int))
                }),
                1 <= tri_vert(m, t as int, 0).v.den,
                1 <= tri_vert(m, t as int, 1).v.den,
                1 <= tri_vert(m, t as int, 2).v.den,
    ;
    }
    let vq = clamp_uv(div_trunc(64 * vn, vd));

    let toi: i64 = if down {
        (oy as i128 - yv) as i64
    } else {
        (yv - oy as i128) as i64
    };
    Some(
        RayHit {
            toi,
            point: Vec3Fx { x: ox, y: yv as i64, z: oz },
            u: Frac { num: uq, den: UV_DEN },
            v: Frac { num: vq, den: UV_DEN },
        },
    )
}

/// Cast a vertical ray from `origin` against the whole mesh, downward or
/// upward, and return the closest hit; on equal times of impact the earlier
/// triangle in mesh order wins.
pub fn cast_vertical(mesh: &TriMeshFx, origin: Vec3Fx, down: bool) -> (r: Option<RayHit>)
    requires
        mesh.wf(),
        bounded(origin, ORIGIN_MAX as int),
    ensures
        (r is Some) <==> best_tri(mesh.verts@, origin, down, mesh.verts@.len() as int / 3) is Some,
        r is Some ==> r->Some_0 == hit_spec(
            mesh.verts@,
            best_tri(mesh.verts@, origin, down, mesh.verts@.len() as int / 3)->Some_0,
            origin,
            down,
        ),
{
    let ghost m = mesh.verts@;
    let ntris = mesh.verts.len() / 3;
    proof {
        assert(3 * (m.len() as int / 3) <= m.len()) by (nonlinear_arith)
            requires
                m.len() % 3 == 0,
        ;
    }
    let mut best: Option<RayHit> = None;
    let mut t: usize = 0;
    while t < ntris
        invariant
            mesh.wf(),
            bounded(origin, ORIGIN_MAX as int),
            m == mesh.verts@,
            ntris == m.len() as int / 3,
            3 * ntris <= m.len(),
            0 <= t <= ntris,
            (best is Some) <==> best_tri(m, origin, down, t as int) is Some,
            best is Some ==> best->Some_0 == hit_spec(
                m,
                best_tri(m, origin, down, t as int)->Some_0,
                origin,
                down,
            ),
        decreases ntris - t,
    {
        let r = eval_tri(mesh, t, origin, down);
        proof {
            lemma_best_tri_hit(m, origin, down, t as int);
            if tri_hit(m, t as int, origin, down) {
                lemma_hit_toi_fits(m, t as int, origin, down);
            }
            if best_tri(m, origin, down, t as int) is Some {
                let b = best_tri(m, origin, down, t as int)->Some_0;
                lemma_hit_toi_fits(m, b, origin, down);
            }
        }
        match r {
            Some(h) => {
                match best {
                    None => {
                        best = Some(h);
                    },
                    Some(bh) => {
                        if h.toi < bh.toi {
                            best = Some(h);
                        }
                    },
                }
            },
            None => {},
        }
        t = t + 1;
    }
    best
}

/// A hitting triangle's time of impact fits the fixed-point range, so the
/// stored time compares faithfully.
pub proof fn lemma_hit_toi_fits(m: Seq<CollisionVertex>, t: int, o: Vec3Fx, down: bool)
    requires
        tri_hit(m, t, o, down),
        bounded(o, ORIGIN_MAX as int),
    ensures
        -0x200000000 <= hit_y(m, t, o) <= 0x200000000,
        0 <= hit_toi(m, t, o, down) <= 0x400000000,
        hit_toi(m, t, o, down) as i64 == hit_toi(m, t, o, down),
{
    lemma_tdiv_bound(y_num(m, t, o), y_den(m, t), 0x80000000);
}

} // verus!
