//! Oriented control planes and bicubic Bezier patches.

use vstd::prelude::*;
use crate::fixed::{SCALE, tdiv, lemma_tdiv_bound, lemma_tdiv_exact, lemma_tdiv_remainder, div_trunc};
use crate::vec3::{Vec3Fx, vec3_spec, bounded, QuatFx, quat_bounded, quat_rotate, quat_rotate_spec,
    cross_spec, norm_sq_spec, unitize_spec, cross, norm_sq, try_unitize};
use crate::bezier::{Frac, bw, bernstein3, lemma_bernstein_partition, lemma_bw_range, lemma_bw_ends,
    lemma_bw_lipschitz};

verus! {

/// Bound on every patch control coordinate.
pub const CTRL_MAX: i64 = 0x8000000;

/// The eight compass directions of a control plane's sample points.
#[derive(Clone, Copy, PartialEq, Eq, Structural, Debug)]
pub enum Dir8 {
    North,
    NorthEast,
    East,
    SouthEast,
    South,
    SouthWest,
    West,
    NorthWest,
}

/// An oriented local frame: a position, a rotation and four planar extents
/// from which the eight directional sample points are derived.
#[derive(Clone, Copy, PartialEq, Eq, Structural, Debug)]
pub struct ControlPlane {
    pub pos: Vec3Fx,
    pub rotation: QuatFx,
    pub north: i64,
    pub east: i64,
    pub south: i64,
    pub west: i64,
}

/// A vertex of a tessellated surface: position, outward normal and the
/// surface parameters it was sampled at.
#[derive(Clone, Copy, PartialEq, Eq, Structural, Debug)]
pub struct VertexPNT {
    pub position: Vec3Fx,
    pub normal: Vec3Fx,
    pub u: Frac,
    pub v: Frac,
}

impl ControlPlane {
    /// The plane's data stays inside the fixed-point ranges the surface
    /// arithmetic is proved for.
    pub open spec fn wf(self) -> bool {
        &&& bounded(self.pos, 0x800000)
        &&& quat_bounded(self.rotation, SCALE as int)
        &&& -(2 * SCALE as int) <= self.north <= 2 * SCALE as int
        &&& -(2 * SCALE as int) <= self.east <= 2 * SCALE as int
        &&& -(2 * SCALE as int) <= self.south <= 2 * SCALE as int
        &&& -(2 * SCALE as int) <= self.west <= 2 * SCALE as int
    }

    /// The planar offset of a directional sample point, before rotation.
    pub open spec fn offset_spec(self, dir: Dir8) -> Vec3Fx {
        match dir {
            Dir8::North => vec3_spec(0, 0, self.north as int),
            Dir8::NorthEast => vec3_spec(self.east as int, 0, self.north as int),
            Dir8::East => vec3_spec(self.east as int, 0, 0),
            Dir8::SouthEast => vec3_spec(self.east as int, 0, self.south as int),
            Dir8::South => vec3_spec(0, 0, self.south as int),
            Dir8::SouthWest => vec3_spec(self.west as int, 0, self.south as int),
            Dir8::West => vec3_spec(self.west as int, 0, 0),
            Dir8::NorthWest => vec3_spec(self.west as int, 0, self.north as int),
        }
    }

    /// A directional sample point: the rotated planar offset, translated to
    /// the plane's position.
    pub open spec fn point_spec(self, dir: Dir8) -> Vec3Fx {
        let o = quat_rotate_spec(self.rotation, self.offset_spec(dir));
        vec3_spec(self.pos.x + o.x, self.pos.y + o.y, self.pos.z + o.z)
    }

    /// A default plane: at the origin, unrotated, with the standard extents.
    pub fn new() -> (r: ControlPlane)
        ensures
            r.pos == (Vec3Fx { x: 0i64, y: 0i64, z: 0i64 }),
            r.rotation == (QuatFx { w: SCALE, x: 0i64, y: 0i64, z: 0i64 }),
            r.north == SCALE,
            r.east == 26214i64,
            r.south == -19661i64,
            r.west == -26214i64,
            r.wf(),
    {
        ControlPlane {
            pos: Vec3Fx::zero(),
            rotation: QuatFx::identity(),
            north: SCALE,
            east: 26214,
            south: -19661,
            west: -26214,
        }
    }

    /// The directional sample point `rotation * offset(dir) + pos`.
    pub fn point(&self, dir: Dir8) -> (r: Vec3Fx)
        requires
            self.wf(),
        ensures
            r == self.point_spec(dir),
            bounded(r, CTRL_MAX as int),
    {
        let (x, z): (i64, i64) = match dir {
            Dir8::North => (0, self.north),
            Dir8::NorthEast => (self.east, self.north),
            Dir8::East => (self.east, 0),
            Dir8::SouthEast => (self.east, self.south),
            Dir8::South => (0, self.south),
            Dir8::SouthWest => (self.west, self.south),
            Dir8::West => (self.west, 0),
            Dir8::NorthWest => (self.west, self.north),
        };
        let o = quat_rotate(self.rotation, Vec3Fx { x, y: 0, z });
        Vec3Fx { x: self.pos.x + o.x, y: self.pos.y + o.y, z: self.pos.z + o.z }
    }

    /// The plane's center, which the rotation leaves in place exactly.
    pub fn center(&self) -> (r: Vec3Fx)
        requires
            self.wf(),
        ensures
            r == self.pos,
            bounded(r, CTRL_MAX as int),
    {
        let o = quat_rotate(self.rotation, Vec3Fx::zero());
        proof {
            assert((SCALE as int) * (SCALE as int) == 0x100000000) by (nonlinear_arith);
            vstd::arithmetic::div_mod::lemma_div_of0(0x100000000);
            assert(o.x == 0 && o.y == 0 && o.z == 0);
        }
        Vec3Fx { x: self.pos.x + o.x, y: self.pos.y + o.y, z: self.pos.z + o.z }
    }

    /// The vertex `t` (of six) of the plane's flat quad: the four diagonal
    /// sample points in the fixed two-triangle order, an upward normal, and
    /// zero surface parameters.
    pub open spec fn quad_vertex_spec(self, t: int) -> VertexPNT {
        let p = if t == 0 || t == 5 {
            self.point_spec(Dir8::SouthWest)
        } else if t == 1 {
            self.point_spec(Dir8::SouthEast)
        } else if t == 2 || t == 3 {
            self.point_spec(Dir8::NorthEast)
        } else {
            self.point_spec(Dir8::NorthWest)
        };
        VertexPNT {
            position: p,
            normal: vec3_spec(0, SCALE as int, 0),
            u: Frac { num: 0u32, den: 1u32 },
            v: Frac { num: 0u32, den: 1u32 },
        }
    }

    /// The flat debug quad over the plane's four diagonal sample points, in
    /// the fixed two-triangle order, with an upward normal.
    pub fn rasterize(&self) -> (r: Vec<VertexPNT>)
        requires
            self.wf(),
        ensures
            r@.len() == 6,
            forall|t: int| 0 <= t < 6 ==> r@[t] == self.quad_vertex_spec(t),
    {
        let a = self.point(Dir8::NorthEast);
        let b = self.point(Dir8::SouthEast);
        let c = self.point(Dir8::SouthWest);
        let d = self.point(Dir8::NorthWest);
        let up = Vec3Fx { x: 0, y: SCALE, z: 0 };
        let uv = Frac::zero();
        let mut vec: Vec<VertexPNT> = Vec::new();
        vec.push(VertexPNT { position: c, normal: up, u: uv, v: uv });
        vec.push(VertexPNT { position: b, normal: up, u: uv, v: uv });
        vec.push(VertexPNT { position: a, normal: up, u: uv, v: uv });
        vec.push(VertexPNT { position: a, normal: up, u: uv, v: uv });
        vec.push(VertexPNT { position: d, normal: up, u: uv, v: uv });
        vec.push(VertexPNT { position: c, normal: up, u: uv, v: uv });
        vec
    }
}

/// A bicubic Bezier patch: 16 control points in row-major order, row `i`
/// weighted along the `u` axis and column `j` along the `v` axis.
pub struct BicubicPatch {
    pub controls: [Vec3Fx; 16],
}

/// The control sequence a patch takes from its four corner planes, laid out
/// in the fixed corner-to-control mapping.
pub open spec fn patch_controls_spec(
    sw: ControlPlane,
    nw: ControlPlane,
    ne: ControlPlane,
    se: ControlPlane,
) -> Seq<Vec3Fx> {
    seq![
        sw.pos,
        sw.point_spec(Dir8::North),
        nw.point_spec(Dir8::South),
        nw.pos,
        sw.point_spec(Dir8::East),
        sw.point_spec(Dir8::NorthEast),
        nw.point_spec(Dir8::SouthEast),
        nw.point_spec(Dir8::East),
        se.point_spec(Dir8::West),
        se.point_spec(Dir8::NorthWest),
        ne.point_spec(Dir8::SouthWest),
        ne.point_spec(Dir8::West),
        se.pos,
        se.point_spec(Dir8::North),
        ne.point_spec(Dir8::South),
        ne.pos,
    ]
}

/// Which axis of a vector a blend reads.
pub open spec fn axis_val(p: Vec3Fx, a: int) -> int {
    if a == 0 {
        p.x as int
    } else if a == 1 {
        p.y as int
    } else {
        p.z as int
    }
}

/// One row of the blend: the four column weights applied to row `i` of the
/// control grid, over the common denominator `v.den^3`.
pub open spec fn row_num(c: Seq<Vec3Fx>, i: int, v: Frac, a: int) -> int {
    let vn = v.num as int;
    let vd = v.den as int;
    bw(0, vn, vd) * axis_val(c[4 * i + 0], a) + bw(1, vn, vd) * axis_val(c[4 * i + 1], a) + bw(
        2,
        vn,
        vd,
    ) * axis_val(c[4 * i + 2], a) + bw(3, vn, vd) * axis_val(c[4 * i + 3], a)
}

/// The full bicubic blend numerator over the common denominator
/// `u.den^3 * v.den^3`.
pub open spec fn pos_num(c: Seq<Vec3Fx>, u: Frac, v: Frac, a: int) -> int {
    let un = u.num as int;
    let ud = u.den as int;
    bw(0, un, ud) * row_num(c, 0, v, a) + bw(1, un, ud) * row_num(c, 1, v, a) + bw(2, un, ud)
        * row_num(c, 2, v, a) + bw(3, un, ud) * row_num(c, 3, v, a)
}

/// The common denominator of the blend, `u.den^3 * v.den^3`.
pub open spec fn den6(u: Frac, v: Frac) -> int {
    ((u.den as int) * (u.den as int) * (u.den as int)) * ((v.den as int) * (v.den as int) * (
    v.den as int))
}

/// The surface point at `(u, v)`: each coordinate is the exact blend
/// numerator divided (truncating) by the common denominator.
pub open spec fn pos_spec(c: Seq<Vec3Fx>, u: Frac, v: Frac) -> Vec3Fx {
    vec3_spec(
        tdiv(pos_num(c, u, v, 0), den6(u, v)),
        tdiv(pos_num(c, u, v, 1), den6(u, v)),
        tdiv(pos_num(c, u, v, 2), den6(u, v)),
    )
}

impl BicubicPatch {
    /// All control coordinates stay inside the proved fixed-point range.
    pub open spec fn wf(self) -> bool {
        forall|k: int| 0 <= k < 16 ==> bounded(#[trigger] self.controls@[k], CTRL_MAX as int)
    }

    /// Create a bicubic patch from four control planes, one for each corner.
    pub fn new(
        sw: &ControlPlane,
        nw: &ControlPlane,
        ne: &ControlPlane,
        se: &ControlPlane,
    ) -> (r: BicubicPatch)
        requires
            sw.wf(),
            nw.wf(),
            ne.wf(),
            se.wf(),
        ensures
            r.controls@ == patch_controls_spec(*sw, *nw, *ne, *se),
            r.wf(),
    {
        let v0 = sw.center();
        let v1 = sw.point(Dir8::North);
        let v2 = nw.point(Dir8::South);
        let v3 = nw.center();
        let v4 = sw.point(Dir8::East);
        let v5 = sw.point(Dir8::NorthEast);
        let v6 = nw.point(Dir8::SouthEast);
        let v7 = nw.point(Dir8::East);
        let v8 = se.point(Dir8::West);
        let v9 = se.point(Dir8::NorthWest);
        let v10 = ne.point(Dir8::SouthWest);
        let v11 = ne.point(Dir8::West);
        let v12 = se.center();
        let v13 = se.point(Dir8::North);
        let v14 = ne.point(Dir8::South);
        let v15 = ne.center();
        let r = BicubicPatch {
            controls: [v0, v1, v2, v3, v4, v5, v6, v7, v8, v9, v10, v11, v12, v13, v14, v15],
        };
        proof {
            assert(r.controls@ =~= patch_controls_spec(*sw, *nw, *ne, *se));
        }
        r
    }

    /// The control point in row `i` (the `u` axis) and column `j` (the `v`
    /// axis).
    pub fn control(&self, i: i32, j: i32) -> (r: Vec3Fx)
        requires
            0 <= i < 4,
            0 <= j < 4,
        ensures
            r == self.controls@[4 * i + j],
    {
        self.controls[(i * 4 + j) as usize]
    }

    /// Evaluate the surface at `(u, v)`; both parameters range over the unit
    /// square.
    pub fn pos(&self, u: Frac, v: Frac) -> (r: Vec3Fx)
        requires
            self.wf(),
            u.wf(),
            v.wf(),
        ensures
            r == pos_spec(self.controls@, u, v),
            bounded(r, CTRL_MAX as int),
    {
        let wu0 = bernstein3(0, u);
        let wu1 = bernstein3(1, u);
        let wu2 = bernstein3(2, u);
        let wu3 = bernstein3(3, u);
        let wv0 = bernstein3(0, v);
        let wv1 = bernstein3(1, v);
        let wv2 = bernstein3(2, v);
        let wv3 = bernstein3(3, v);
        let x = blend_axis(
            &self.controls,
            0,
            u,
            v,
            wu0,
            wu1,
            wu2,
            wu3,
            wv0,
            wv1,
            wv2,
            wv3,
        );
        let y = blend_axis(
            &self.controls,
            1,
            u,
            v,
            wu0,
            wu1,
            wu2,
            wu3,
            wv0,
            wv1,
            wv2,
            wv3,
        );
        let z = blend_axis(
            &self.controls,
            2,
            u,
            v,
            wu0,
            wu1,
            wu2,
            wu3,
            wv0,
            wv1,
            wv2,
            wv3,
        );
        Vec3Fx { x, y, z }
    }
}

/// At a corner of the unit square the surface interpolates the matching
/// corner control point exactly: `(0,0)`, `(0,1)`, `(1,0)` and `(1,1)` give
/// controls 0, 3, 12 and 15.
pub proof fn lemma_pos_corner(c: Seq<Vec3Fx>, u: Frac, v: Frac)
    requires
        c.len() == 16,
        forall|k: int| 0 <= k < 16 ==> bounded(#[trigger] c[k], CTRL_MAX as int),
        u.wf(),
        v.wf(),
        u.num == 0 || u.num == u.den,
        v.num == 0 || v.num == v.den,
    ensures
        pos_spec(c, u, v) == c[(if u.num == 0 { 0int } else { 12int }) + (if v.num == 0 {
            0int
        } else {
            3int
        })],
{
    let un = u.num as int;
    let ud = u.den as int;
    let vn = v.num as int;
    let vd = v.den as int;
    let d3u = ud * ud * ud;
    let d3v = vd * vd * vd;
    lemma_bw_ends(1, ud);
    lemma_bw_ends(2, ud);
    lemma_bw_ends(1, vd);
    lemma_bw_ends(2, vd);
    let k = (if u.num == 0 { 0int } else { 12int }) + (if v.num == 0 { 0int } else { 3int });
    assert(1 <= ud * ud * ud && 1 <= vd * vd * vd && 1 <= (ud * ud * ud) * (vd * vd * vd))
        by (nonlinear_arith)
        requires
            1 <= ud,
            1 <= vd,
    ;
    assert forall|a: int| 0 <= a <= 2 implies tdiv(pos_num(c, u, v, a), den6(u, v)) == axis_val(
        c[k],
        a,
    ) by {
        let val = axis_val(c[k], a);
        assert(pos_num(c, u, v, a) == d3u * (d3v * val));
        assert(d3u * (d3v * val) == val * (d3u * d3v)) by (nonlinear_arith);
        lemma_tdiv_exact(val, d3u * d3v);
    }
    assert(tdiv(pos_num(c, u, v, 0), den6(u, v)) == axis_val(c[k], 0));
    assert(tdiv(pos_num(c, u, v, 1), den6(u, v)) == axis_val(c[k], 1));
    assert(tdiv(pos_num(c, u, v, 2), den6(u, v)) == axis_val(c[k], 2));
}

/// One blend row stays within the common denominator times the control
/// bound.
proof fn lemma_row_abs_bound(c: Seq<Vec3Fx>, i: int, v: Frac, a: int)
    requires
        c.len() == 16,
        forall|k: int| 0 <= k < 16 ==> bounded(#[trigger] c[k], CTRL_MAX as int),
        v.wf(),
        0 <= i < 4,
        0 <= a <= 2,
    ensures
        -(((v.den as int) * (v.den as int) * (v.den as int)) * CTRL_MAX) <= row_num(c, i, v, a)
            <= ((v.den as int) * (v.den as int) * (v.den as int)) * CTRL_MAX,
{
    let vn = v.num as int;
    let vd = v.den as int;
    lemma_bw_range(0, vn, vd);
    lemma_bw_range(1, vn, vd);
    lemma_bw_range(2, vn, vd);
    lemma_bw_range(3, vn, vd);
    lemma_bernstein_partition(vn, vd);
    assert(1 <= vd * vd * vd <= 0x200000000000) by (nonlinear_arith)
        requires
            1 <= vd <= 32768,
    ;
    lemma_weighted4_bound(
        bw(0, vn, vd),
        bw(1, vn, vd),
        bw(2, vn, vd),
        bw(3, vn, vd),
        axis_val(c[4 * i + 0], a),
        axis_val(c[4 * i + 1], a),
        axis_val(c[4 * i + 2], a),
        axis_val(c[4 * i + 3], a),
        vd * vd * vd,
    );
}

/// The difference of two four-term blends with the same rows is the blend
/// of the weight differences, and it is bounded when each weight difference
/// and each row is.
proof fn lemma_blend_diff(
    a: int,
    b: int,
    w10: int,
    w11: int,
    w12: int,
    w13: int,
    w20: int,
    w21: int,
    w22: int,
    w23: int,
    r0: int,
    r1: int,
    r2: int,
    r3: int,
    wcap: int,
    rcap: int,
)
    requires
        a == w10 * r0 + w11 * r1 + w12 * r2 + w13 * r3,
        b == w20 * r0 + w21 * r1 + w22 * r2 + w23 * r3,
        -wcap <= w10 - w20 <= wcap,
        -wcap <= w11 - w21 <= wcap,
        -wcap <= w12 - w22 <= wcap,
        -wcap <= w13 - w23 <= wcap,
        -rcap <= r0 <= rcap,
        -rcap <= r1 <= rcap,
        -rcap <= r2 <= rcap,
        -rcap <= r3 <= rcap,
        wcap >= 0,
        rcap >= 0,
    ensures
        -(4 * (wcap * rcap)) <= a - b <= 4 * (wcap * rcap),
{
    assert(a - b == (w10 - w20) * r0 + (w11 - w21) * r1 + (w12 - w22) * r2 + (w13 - w23) * r3)
        by (nonlinear_arith)
        requires
            a == w10 * r0 + w11 * r1 + w12 * r2 + w13 * r3,
            b == w20 * r0 + w21 * r1 + w22 * r2 + w23 * r3,
    ;
    assert(-(wcap * rcap) <= (w10 - w20) * r0 <= wcap * rcap) by (nonlinear_arith)
        requires
            -wcap <= w10 - w20 <= wcap,
            -rcap <= r0 <= rcap,
            wcap >= 0,
            rcap >= 0,
    ;
    assert(-(wcap * rcap) <= (w11 - w21) * r1 <= wcap * rcap) by (nonlinear_arith)
        requires
            -wcap <= w11 - w21 <= wcap,
            -rcap <= r1 <= rcap,
            wcap >= 0,
            rcap >= 0,
    ;
    assert(-(wcap * rcap) <= (w12 - w22) * r2 <= wcap * rcap) by (nonlinear_arith)
        requires
            -wcap <= w12 - w22 <= wcap,
            -rcap <= r2 <= rcap,
            wcap >= 0,
            rcap >= 0,
    ;
    assert(-(wcap * rcap) <= (w13 - w23) * r3 <= wcap * rcap) by (nonlinear_arith)
        requires
            -wcap <= w13 - w23 <= wcap,
            -rcap <= r3 <= rcap,
            wcap >= 0,
            rcap >= 0,
    ;
}

/// Continuity of the surface: moving the first parameter by `e / d` moves
/// every coordinate of the surface point by at most
/// `(36 * CTRL_MAX * e) / d` plus two fixed-point units of truncation — the
/// difference vanishes as the parameter step does.
pub proof fn lemma_pos_continuity(c: Seq<Vec3Fx>, u1: Frac, u2: Frac, v: Frac, a: int)
    requires
        c.len() == 16,
        forall|k: int| 0 <= k < 16 ==> bounded(#[trigger] c[k], CTRL_MAX as int),
        u1.wf(),
        u2.wf(),
        v.wf(),
        u1.den == u2.den,
        u2.num <= u1.num,
        0 <= a <= 2,
    ensures
        ({
            let d = u1.den as int;
            let e = u1.num - u2.num;
            let diff = axis_val(pos_spec(c, u1, v), a) - axis_val(pos_spec(c, u2, v), a);
            -(36 * CTRL_MAX * e + 2 * d) <= diff * d <= 36 * CTRL_MAX * e + 2 * d
        }),
{
    let d = u1.den as int;
    let n1 = u1.num as int;
    let n2 = u2.num as int;
    let e = n1 - n2;
    let vd = v.den as int;
    let vn = v.num as int;
    let d3u = d * d * d;
    let d3v = vd * vd * vd;
    let m = CTRL_MAX as int;
    lemma_row_abs_bound(c, 0, v, a);
    lemma_row_abs_bound(c, 1, v, a);
    lemma_row_abs_bound(c, 2, v, a);
    lemma_row_abs_bound(c, 3, v, a);
    let r0 = row_num(c, 0, v, a);
    let r1 = row_num(c, 1, v, a);
    let r2 = row_num(c, 2, v, a);
    let r3 = row_num(c, 3, v, a);
    lemma_bw_lipschitz(0, n1, n2, d);
    lemma_bw_lipschitz(1, n1, n2, d);
    lemma_bw_lipschitz(2, n1, n2, d);
    lemma_bw_lipschitz(3, n1, n2, d);
    assert(0 <= 9 * (d * d) * e && 1 <= d3v * m) by (nonlinear_arith)
        requires
            e >= 0,
            d >= 1,
            d3v == vd * vd * vd,
            1 <= vd,
            m >= 1,
    ;
    let big = (9 * (d * d) * e) * (d3v * m);
    let au = pos_num(c, u1, v, a);
    let bu = pos_num(c, u2, v, a);
    lemma_blend_diff(
        au,
        bu,
        bw(0, n1, d),
        bw(1, n1, d),
        bw(2, n1, d),
        bw(3, n1, d),
        bw(0, n2, d),
        bw(1, n2, d),
        bw(2, n2, d),
        bw(3, n2, d),
        r0,
        r1,
        r2,
        r3,
        9 * (d * d) * e,
        d3v * m,
    );
    assert(-(4 * big) <= au - bu <= 4 * big);
    // both blends fit the division bound, so the truncated coordinates are
    // the exact quotients of the numerators
    lemma_bw_range(0, n1, d);
    lemma_bw_range(1, n1, d);
    lemma_bw_range(2, n1, d);
    lemma_bw_range(3, n1, d);
    lemma_bw_range(0, n2, d);
    lemma_bw_range(1, n2, d);
    lemma_bw_range(2, n2, d);
    lemma_bw_range(3, n2, d);
    lemma_bernstein_partition(n1, d);
    lemma_bernstein_partition(n2, d);
    assert(1 <= d3u <= 0x200000000000 && 1 <= d3v <= 0x200000000000) by (nonlinear_arith)
        requires
            1 <= d <= 32768,
            1 <= vd <= 32768,
            d3u == d * d * d,
            d3v == vd * vd * vd,
    ;
    lemma_outer4_bound(
        bw(0, n1, d),
        bw(1, n1, d),
        bw(2, n1, d),
        bw(3, n1, d),
        r0,
        r1,
        r2,
        r3,
        d3u,
        d3v,
    );
    lemma_outer4_bound(
        bw(0, n2, d),
        bw(1, n2, d),
        bw(2, n2, d),
        bw(3, n2, d),
        r0,
        r1,
        r2,
        r3,
        d3u,
        d3v,
    );
    let dd = den6(u1, v);
    assert(dd == d3u * d3v);
    assert(den6(u2, v) == dd);
    assert(dd >= 1) by (nonlinear_arith)
        requires
            d3u >= 1,
            d3v >= 1,
            dd == d3u * d3v,
    ;
    let p1 = tdiv(au, dd);
    let p2 = tdiv(bu, dd);
    assert((d3u * d3v) * m == d3u * d3v * m) by (nonlinear_arith);
    lemma_tdiv_bound(au, dd, m);
    lemma_tdiv_bound(bu, dd, m);
    lemma_tdiv_remainder(au, dd);
    lemma_tdiv_remainder(bu, dd);
    assert(p1 * dd - p2 * dd == (p1 - p2) * dd) by (nonlinear_arith);
    assert(-(4 * big + 2 * dd) <= (p1 - p2) * dd <= 4 * big + 2 * dd);
    // peel the common factor d^2 * d3v from both sides
    assert(4 * big + 2 * dd == (36 * m * e + 2 * d) * ((d * d) * d3v)) by (nonlinear_arith)
        requires
            big == (9 * (d * d) * e) * (d3v * m),
            dd == d3u * d3v,
            d3u == d * d * d,
    ;
    assert((p1 - p2) * dd == ((p1 - p2) * d) * ((d * d) * d3v)) by (nonlinear_arith)
        requires
            dd == d3u * d3v,
            d3u == d * d * d,
    ;
    assert(-(36 * m * e + 2 * d) <= (p1 - p2) * d <= 36 * m * e + 2 * d) by (nonlinear_arith)
        requires
            -((36 * m * e + 2 * d) * ((d * d) * d3v)) <= ((p1 - p2) * d) * ((d * d) * d3v) <= (36
                * m * e + 2 * d) * ((d * d) * d3v),
            (d * d) * d3v >= 1,
    ;
    assert(axis_val(pos_spec(c, u1, v), a) == p1);
    assert(axis_val(pos_spec(c, u2, v), a) == p2);
}

/// The finite-difference sample parameter: `t` shifted by `delta = 1/(2 res)`
/// toward zero, or away from zero when the downward shift would leave the
/// unit interval.
pub open spec fn shifted_spec(t: Frac, res: int) -> Frac {
    let nd = 2 * res * t.den;
    if 2 * res * t.num < t.den {
        Frac { num: (2 * res * t.num + t.den) as u32, den: nd as u32 }
    } else {
        Frac { num: (2 * res * t.num - t.den) as u32, den: nd as u32 }
    }
}

/// Shift a parameter by `1/(2 res)`, reporting whether the downward shift
/// would have been negative.
fn shift_param(t: Frac, res: i32) -> (r: (Frac, bool))
    requires
        t.wf(),
        1 <= res,
        2 * res * t.den <= 32768,
    ensures
        r.0 == shifted_spec(t, res as int),
        r.0.wf(),
        r.1 == (2 * res * t.num < t.den),
{
    proof {
        assert(2 * (res as int) * (t.den as int) >= 2 * (t.den as int) && 2 * (res as int) * (
        t.num as int) <= 2 * (res as int) * (t.den as int) && 0 <= 2 * (res as int) * (t.num as int)
            && (2 * (res as int)) * (t.den as int) == 2 * (res as int) * (t.den as int) && (2 * (
        res as int)) * (t.num as int) == 2 * (res as int) * (t.num as int)) by (nonlinear_arith)
            requires
                1 <= res,
                1 <= t.den,
                0 <= t.num <= t.den,
        ;
    }
    let two_r: u32 = 2 * (res as u32);
    let nd: u32 = two_r * t.den;
    let tn: u32 = two_r * t.num;
    if tn < t.den {
        (Frac::new(tn + t.den, nd), true)
    } else {
        (Frac::new(tn - t.den, nd), false)
    }
}

/// The cross product of the two one-sided finite differences at spacing
/// `1/(2 res)` from which the surface normal at `(u, v)` is estimated.
pub open spec fn normal_cross_spec(c: Seq<Vec3Fx>, res: int, u: Frac, v: Frac) -> Vec3Fx {
    let su = shifted_spec(u, res);
    let sv = shifted_spec(v, res);
    let p = pos_spec(c, u, v);
    let pu = pos_spec(c, su, v);
    let pv = pos_spec(c, u, sv);
    let d1 = vec3_spec(p.x - pu.x, p.y - pu.y, p.z - pu.z);
    let d2 = vec3_spec(p.x - pv.x, p.y - pv.y, p.z - pv.z);
    vec3_spec(
        cross_spec(d1, d2).0,
        cross_spec(d1, d2).1,
        cross_spec(d1, d2).2,
    )
}

/// The estimated outward surface normal at `(u, v)`: the normalized cross
/// product of the two one-sided finite differences, with a default upward
/// normal where the cross product vanishes.
///
/// Sign convention: both differences point from the sample toward points
/// at *smaller* parameters when neither shift left the unit square, and
/// their cross product then points inward (downward on an upward-facing
/// surface), so the normalized vector is negated in that case — and
/// likewise when both shifts were taken upward.  Only where exactly one
/// difference was taken upward does the raw cross product already point
/// outward and the sign is kept.  This is what keeps the normals
/// consistently outward despite the one-sided sampling near the patch
/// edges.
pub open spec fn normal_spec(c: Seq<Vec3Fx>, res: int, u: Frac, v: Frac) -> Vec3Fx {
    let cr = normal_cross_spec(c, res, u, v);
    let flip = ((2 * res * u.num < u.den) != (2 * res * v.num < v.den));
    if norm_sq_spec(cr) == 0 {
        vec3_spec(0, SCALE as int, 0)
    } else {
        let n = unitize_spec(cr);
        if flip {
            n
        } else {
            vec3_spec(-n.x, -n.y, -n.z)
        }
    }
}

/// The estimated normal is unit length up to quantization: wherever the
/// finite differences are not degenerate (their cross product is either
/// zero, handled by the default upward normal, or at least two units
/// long), the returned vector's squared length lies in a narrow band
/// around `SCALE^2`.
pub proof fn lemma_normal_unit(c: Seq<Vec3Fx>, res: int, u: Frac, v: Frac)
    requires
        ({
            let cr = normal_cross_spec(c, res, u, v);
            norm_sq_spec(cr) == 0 || norm_sq_spec(cr) >= (2 * SCALE) * (2 * SCALE)
        }),
    ensures
        (SCALE as int) * SCALE - 7 * SCALE <= norm_sq_spec(normal_spec(c, res, u, v)) <= (
        SCALE as int) * SCALE + 8 * SCALE,
{
    let cr = normal_cross_spec(c, res, u, v);
    if norm_sq_spec(cr) == 0 {
        let up = vec3_spec(0, SCALE as int, 0);
        assert(norm_sq_spec(up) == (SCALE as int) * SCALE) by (nonlinear_arith)
            requires
                up.x == 0 && up.y == SCALE && up.z == 0,
                norm_sq_spec(up) == up.x * up.x + up.y * up.y + up.z * up.z,
        ;
        assert(7 * (SCALE as int) >= 0);
    } else {
        crate::vec3::lemma_unitize_unit(cr);
        let n = unitize_spec(cr);
        let flip = ((2 * res * u.num < u.den) != (2 * res * v.num < v.den));
        if !flip {
            let ng = vec3_spec(-n.x as int, -n.y as int, -n.z as int);
            assert(norm_sq_spec(ng) == norm_sq_spec(n)) by (nonlinear_arith)
                requires
                    ng.x == -n.x && ng.y == -n.y && ng.z == -n.z,
                    norm_sq_spec(ng) == ng.x * ng.x + ng.y * ng.y + ng.z * ng.z,
                    norm_sq_spec(n) == n.x * n.x + n.y * n.y + n.z * n.z,
                    crate::vec3::bounded(n, 2 * SCALE as int),
            ;
        }
    }
}

impl BicubicPatch {
    /// Estimate the outward surface normal at `(u, v)` from two one-sided
    /// finite differences at spacing `1/(2 res)`.
    pub fn normal(&self, res: i32, u: Frac, v: Frac) -> (r: Vec3Fx)
        requires
            self.wf(),
            u.wf(),
            v.wf(),
            1 <= res,
            2 * res * u.den <= 32768,
            2 * res * v.den <= 32768,
        ensures
            r == normal_spec(self.controls@, res as int, u, v),
            bounded(r, 2 * SCALE as int),
    {
        let (su, u_neg) = shift_param(u, res);
        let (sv, v_neg) = shift_param(v, res);
        let p = self.pos(u, v);
        let p_u = self.pos(su, v);
        let p_v = self.pos(u, sv);
        let d1 = p.minus(p_u);
        let d2 = p.minus(p_v);
        let cr = cross(d1, d2);
        let nsq = norm_sq(cr);
        if nsq == 0 {
            Vec3Fx { x: 0, y: SCALE, z: 0 }
        } else {
            let n = match try_unitize(cr) {
                Some(n) => n,
                None => Vec3Fx { x: 0, y: SCALE, z: 0 },
            };
            if (u_neg && !v_neg) || (!u_neg && v_neg) {
                n
            } else {
                n.neg()
            }
        }
    }
}

/// Over a patch whose control points all sit at one height, the surface is
/// level: its height at any parameters is exactly that height.
proof fn lemma_level_pos_y(c: Seq<Vec3Fx>, uu: Frac, vv: Frac, h: int)
    requires
        c.len() == 16,
        forall|k: int| 0 <= k < 16 ==> (#[trigger] c[k]).y == h,
        1 <= uu.den <= 32768,
        1 <= vv.den <= 32768,
    ensures
        pos_spec(c, uu, vv).y == h,
{
    let un = uu.num as int;
    let ud = uu.den as int;
    let vn = vv.num as int;
    let vd = vv.den as int;
    lemma_bernstein_partition(un, ud);
    lemma_bernstein_partition(vn, vd);
    assert(c[0].y == h);
    assert forall|i: int| 0 <= i < 4 implies #[trigger] row_num(c, i, vv, 1) == (vd * vd * vd)
        * h by {
        assert(bw(0, vn, vd) * h + bw(1, vn, vd) * h + bw(2, vn, vd) * h + bw(3, vn, vd) * h == (vd
            * vd * vd) * h) by (nonlinear_arith)
            requires
                bw(0, vn, vd) + bw(1, vn, vd) + bw(2, vn, vd) + bw(3, vn, vd) == vd * vd * vd,
        ;
    }
    let d3v = vd * vd * vd;
    assert(pos_num(c, uu, vv, 1) == bw(0, un, ud) * (d3v * h) + bw(1, un, ud) * (d3v * h) + bw(
        2,
        un,
        ud,
    ) * (d3v * h) + bw(3, un, ud) * (d3v * h));
    lemma_const_blend(
        pos_num(c, uu, vv, 1),
        bw(0, un, ud),
        bw(1, un, ud),
        bw(2, un, ud),
        bw(3, un, ud),
        d3v * h,
        ud * ud * ud,
    );
    assert((ud * ud * ud) * (d3v * h) == h * ((ud * ud * ud) * d3v)) by (nonlinear_arith);
    assert(den6(uu, vv) >= 1) by (nonlinear_arith)
        requires
            1 <= ud,
            1 <= vd,
            den6(uu, vv) == (ud * ud * ud) * (vd * vd * vd),
    ;
    lemma_tdiv_exact(h, den6(uu, vv));
}

/// A four-term blend of one repeated value is the weight sum times it.
proof fn lemma_const_blend(s: int, w0: int, w1: int, w2: int, w3: int, t: int, dsum: int)
    requires
        s == w0 * t + w1 * t + w2 * t + w3 * t,
        w0 + w1 + w2 + w3 == dsum,
    ensures
        s == dsum * t,
{
    assert(w0 * t + w1 * t + w2 * t + w3 * t == (w0 + w1 + w2 + w3) * t) by (nonlinear_arith);
}

/// Over a level patch the estimated normal is exactly vertical: its
/// horizontal components vanish at every parameter, whichever way the sign
/// rule resolves.
pub proof fn lemma_level_patch_normal_vertical(c: Seq<Vec3Fx>, res: int, u: Frac, v: Frac, h: int)
    requires
        c.len() == 16,
        forall|k: int| 0 <= k < 16 ==> (#[trigger] c[k]).y == h,
        u.wf(),
        v.wf(),
        1 <= res,
        2 * res * u.den <= 32768,
        2 * res * v.den <= 32768,
    ensures
        normal_spec(c, res, u, v).x == 0,
        normal_spec(c, res, u, v).z == 0,
{
    let su = shifted_spec(u, res);
    let sv = shifted_spec(v, res);
    assert(1 <= 2 * res * u.den && 1 <= 2 * res * v.den) by (nonlinear_arith)
        requires
            1 <= res,
            1 <= u.den,
            1 <= v.den,
    ;
    assert(su.den == 2 * res * u.den && sv.den == 2 * res * v.den);
    lemma_level_pos_y(c, u, v, h);
    lemma_level_pos_y(c, su, v, h);
    lemma_level_pos_y(c, u, sv, h);
    let p = pos_spec(c, u, v);
    let pu = pos_spec(c, su, v);
    let pv = pos_spec(c, u, sv);
    let d1 = vec3_spec(p.x - pu.x, p.y - pu.y, p.z - pu.z);
    let d2 = vec3_spec(p.x - pv.x, p.y - pv.y, p.z - pv.z);
    assert(d1.y == 0 && d2.y == 0);
    assert(cross_spec(d1, d2).0 == 0 && cross_spec(d1, d2).2 == 0) by (nonlinear_arith)
        requires
            d1.y == 0,
            d2.y == 0,
            cross_spec(d1, d2).0 == d1.y * d2.z - d1.z * d2.y,
            cross_spec(d1, d2).2 == d1.x * d2.y - d1.y * d2.x,
    ;
    let cr = normal_cross_spec(c, res, u, v);
    assert(cr.x == 0 && cr.z == 0);
    if norm_sq_spec(cr) != 0 {
        assert(norm_sq_spec(cr) >= 0) by (nonlinear_arith)
            requires
                norm_sq_spec(cr) == cr.x * cr.x + cr.y * cr.y + cr.z * cr.z,
        ;
        crate::fixed::lemma_sqrt_floor(norm_sq_spec(cr));
        let m = crate::fixed::sqrt_floor(norm_sq_spec(cr));
        assert(m >= 1) by (nonlinear_arith)
            requires
                crate::fixed::is_sqrt_floor(m, norm_sq_spec(cr)),
                norm_sq_spec(cr) > 0,
        ;
        vstd::arithmetic::div_mod::lemma_div_of0(m);
        assert(tdiv(cr.x * SCALE, m) == 0 && tdiv(cr.z * SCALE, m) == 0);
    }
}

/// The row offset of the six cell corners emitted per grid cell, in emission
/// order.
pub open spec fn corner_rt(i: int) -> int {
    if i == 2 || i == 4 || i == 5 {
        1
    } else {
        0
    }
}

/// The column offset of the six cell corners emitted per grid cell.
pub open spec fn corner_ct(i: int) -> int {
    if i == 1 || i == 2 || i == 4 {
        1
    } else {
        0
    }
}

/// The vertex that tessellation at resolution `res` emits at output index
/// `k`: cell `k / 6` in row-major order, corner `k % 6`, sampled at the
/// exact grid fractions, with the normal estimated at the same resolution.
pub open spec fn raster_vertex_spec(c: Seq<Vec3Fx>, res: int, k: int) -> VertexPNT {
    let cell = k / 6;
    let corner = k % 6;
    let row = cell / res;
    let col = cell % res;
    let u = Frac { num: (row + corner_rt(corner)) as u32, den: res as u32 };
    let v = Frac { num: (col + corner_ct(corner)) as u32, den: res as u32 };
    VertexPNT {
        position: pos_spec(c, u, v),
        normal: normal_spec(c, res, u, v),
        u,
        v,
    }
}

impl BicubicPatch {
    /// Tessellate the patch into a `res * res` grid of cells, two triangles
    /// (six vertices) per cell; vertex `k` is exactly
    /// `raster_vertex_spec(controls, res, k)`, so the surface parameters tile
    /// the unit square.
    pub fn rasterize(&self, res: i32) -> (r: Vec<VertexPNT>)
        requires
            self.wf(),
            1 <= res <= 128,
        ensures
            r@.len() == res * res * 6,
            forall|k: int| 0 <= k < res * res * 6 ==> r@[k] == raster_vertex_spec(
                self.controls@,
                res as int,
                k,
            ),
            forall|k: int|
                0 <= k < res * res * 6 ==> {
                    let vx = #[trigger] r@[k];
                    &&& bounded(vx.position, CTRL_MAX as int)
                    &&& bounded(vx.normal, 2 * SCALE as int)
                    &&& vx.u.wf()
                    &&& vx.v.wf()
                    &&& vx.u.den == res
                    &&& vx.v.den == res
                },
    {
        let mut vec: Vec<VertexPNT> = Vec::new();
        let mut row: i32 = 0;
        proof {
            assert(0 * (res as int) * 6 == 0) by (nonlinear_arith);
        }
        while row < res
            invariant
                self.wf(),
                1 <= res <= 128,
                0 <= row <= res,
                vec@.len() == row * res * 6,
                vec@.len() <= res * res * 6,
                forall|k: int| 0 <= k < vec@.len() ==> vec@[k] == raster_vertex_spec(
                    self.controls@,
                    res as int,
                    k,
                ),
                forall|k: int|
                    0 <= k < vec@.len() ==> {
                        let vx = #[trigger] vec@[k];
                        &&& bounded(vx.position, CTRL_MAX as int)
                        &&& bounded(vx.normal, 2 * SCALE as int)
                        &&& vx.u.wf()
                        &&& vx.v.wf()
                        &&& vx.u.den == res
                        &&& vx.v.den == res
                    },
            decreases res - row,
        {
            let mut col: i32 = 0;
            while col < res
                invariant
                    self.wf(),
                    1 <= res <= 128,
                    0 <= row < res,
                    0 <= col <= res,
                    vec@.len() == (row * res + col) * 6,
                    forall|k: int| 0 <= k < vec@.len() ==> vec@[k] == raster_vertex_spec(
                        self.controls@,
                        res as int,
                        k,
                    ),
                    forall|k: int|
                        0 <= k < vec@.len() ==> {
                            let vx = #[trigger] vec@[k];
                            &&& bounded(vx.position, CTRL_MAX as int)
                            &&& bounded(vx.normal, 2 * SCALE as int)
                            &&& vx.u.wf()
                            &&& vx.v.wf()
                            &&& vx.u.den == res
                            &&& vx.v.den == res
                        },
                decreases res - col,
            {
                proof {
                    lemma_cell_bounds(row as int, col as int, res as int);
                }
                let cell_base: usize = vec.len();
                self.push_cell_corner(&mut vec, res, row, col, 0, 0, 0);
                self.push_cell_corner(&mut vec, res, row, col, 1, 0, 1);
                self.push_cell_corner(&mut vec, res, row, col, 2, 1, 1);
                self.push_cell_corner(&mut vec, res, row, col, 3, 0, 0);
                self.push_cell_corner(&mut vec, res, row, col, 4, 1, 1);
                self.push_cell_corner(&mut vec, res, row, col, 5, 1, 0);
                col = col + 1;
                proof {
                    assert((row * res + col) * 6 == (row * res + (col - 1)) * 6 + 6)
                        by (nonlinear_arith);
                }
            }
            row = row + 1;
            proof {
                assert((row * res) * 6 == ((row - 1) * res + res) * 6) by (nonlinear_arith);
                assert(row * res * 6 == (row * res) * 6) by (nonlinear_arith);
                assert(row * res * 6 <= res * res * 6) by (nonlinear_arith)
                    requires
                        0 <= row <= res,
                ;
            }
        }
        vec
    }

    /// Map a vertex function over the `res * res` tessellation: the
    /// function sees each vertex's position, normal and surface parameters
    /// in tessellation order, and its results are collected.
    pub fn rasterize_with<A, F: Fn(Vec3Fx, Vec3Fx, Frac, Frac) -> A>(&self, res: i32, f: F) -> (r:
        Vec<A>)
        requires
            self.wf(),
            1 <= res <= 128,
            forall|p: Vec3Fx, n: Vec3Fx, uu: Frac, vv: Frac| #[trigger] f.requires(
                (p, n, uu, vv),
            ),
        ensures
            r@.len() == res * res * 6,
            forall|k: int|
                0 <= k < res * res * 6 ==> {
                    let vx = raster_vertex_spec(self.controls@, res as int, k);
                    call_ensures(f, (vx.position, vx.normal, vx.u, vx.v), #[trigger] r@[k])
                },
    {
        let base = self.rasterize(res);
        let mut out: Vec<A> = Vec::new();
        let mut k: usize = 0;
        let n = base.len();
        while k < n
            invariant
                n == base@.len(),
                base@.len() == res * res * 6,
                forall|t: int| 0 <= t < base@.len() ==> base@[t] == raster_vertex_spec(
                    self.controls@,
                    res as int,
                    t,
                ),
                forall|p: Vec3Fx, nn: Vec3Fx, uu: Frac, vv: Frac| #[trigger] f.requires(
                    (p, nn, uu, vv),
                ),
                0 <= k <= n,
                out@.len() == k,
                forall|t: int|
                    0 <= t < k ==> {
                        let vx = raster_vertex_spec(self.controls@, res as int, t);
                        call_ensures(f, (vx.position, vx.normal, vx.u, vx.v), #[trigger] out@[t])
                    },
            decreases n - k,
        {
            let vx = &base[k];
            let a = f(vx.position, vx.normal, vx.u, vx.v);
            out.push(a);
            k = k + 1;
        }
        out
    }

    /// Emit one of the six corners of grid cell `(row, col)`.
    fn push_cell_corner(
        &self,
        vec: &mut Vec<VertexPNT>,
        res: i32,
        row: i32,
        col: i32,
        corner: i32,
        rt: i32,
        ct: i32,
    )
        requires
            self.wf(),
            1 <= res <= 128,
            0 <= row < res,
            0 <= col < res,
            0 <= corner < 6,
            rt == corner_rt(corner as int),
            ct == corner_ct(corner as int),
            old(vec)@.len() == (row * res + col) * 6 + corner,
            (row * res + col) * 6 + corner < 0x40000000,
        ensures
            final(vec)@.len() == old(vec)@.len() + 1,
            final(vec)@ == old(vec)@.push(
                raster_vertex_spec(self.controls@, res as int, old(vec)@.len() as int),
            ),
            ({
                let vx = final(vec)@[old(vec)@.len() as int];
                &&& bounded(vx.position, CTRL_MAX as int)
                &&& bounded(vx.normal, 2 * SCALE as int)
                &&& vx.u.wf()
                &&& vx.v.wf()
                &&& vx.u.den == res
                &&& vx.v.den == res
            }),
    {
        let u = Frac::new((row + rt) as u32, res as u32);
        let v = Frac::new((col + ct) as u32, res as u32);
        proof {
            let k = (row * res + col) * 6 + corner;
            vstd::arithmetic::div_mod::lemma_fundamental_div_mod_converse(
                k,
                6,
                (row * res + col) as int,
                corner as int,
            );
            vstd::arithmetic::div_mod::lemma_fundamental_div_mod_converse(
                (row * res + col) as int,
                res as int,
                row as int,
                col as int,
            );
        }
        proof {
            assert(2 * (res as int) * (res as int) <= 32768) by (nonlinear_arith)
                requires
                    1 <= res <= 128,
            ;
        }
        let p = self.pos(u, v);
        let n = self.normal(res, u, v);
        vec.push(VertexPNT { position: p, normal: n, u, v });
    }
}

/// Index arithmetic for one grid cell.
proof fn lemma_cell_bounds(row: int, col: int, res: int)
    requires
        0 <= row < res,
        0 <= col < res,
        1 <= res <= 128,
    ensures
        0 <= row * res + col,
        (row * res + col) * 6 + 6 <= res * res * 6,
        (row * res + col) * 6 + 5 < 0x40000000,
{
    assert(0 <= row * res + col && (row * res + col) * 6 + 6 <= res * res * 6 && (row * res + col)
        * 6 + 5 < 0x40000000) by (nonlinear_arith)
        requires
            0 <= row < res,
            0 <= col < res,
            1 <= res <= 128,
    ;
}

/// One coordinate of the bicubic blend.
#[verifier::rlimit(30)]
fn blend_axis(
    c: &[Vec3Fx; 16],
    a: i32,
    u: Frac,
    v: Frac,
    wu0: i64,
    wu1: i64,
    wu2: i64,
    wu3: i64,
    wv0: i64,
    wv1: i64,
    wv2: i64,
    wv3: i64,
) -> (r: i64)
    requires
        0 <= a <= 2,
        u.wf(),
        v.wf(),
        forall|k: int| 0 <= k < 16 ==> bounded(#[trigger] c@[k], CTRL_MAX as int),
        wu0 == bw(0, u.num as int, u.den as int),
        wu1 == bw(1, u.num as int, u.den as int),
        wu2 == bw(2, u.num as int, u.den as int),
        wu3 == bw(3, u.num as int, u.den as int),
        wv0 == bw(0, v.num as int, v.den as int),
        wv1 == bw(1, v.num as int, v.den as int),
        wv2 == bw(2, v.num as int, v.den as int),
        wv3 == bw(3, v.num as int, v.den as int),
    ensures
        r == tdiv(pos_num(c@, u, v, a as int), den6(u, v)),
        -CTRL_MAX <= r <= CTRL_MAX,
{
    let ghost un = u.num as int;
    let ghost ud = u.den as int;
    let ghost vn = v.num as int;
    let ghost vd = v.den as int;
    proof {
        assert(1 <= ud * ud <= 0x40000000 && 1 <= vd * vd <= 0x40000000 && 1 <= (ud * ud) * ud
            <= 0x200000000000 && 1 <= (vd * vd) * vd <= 0x200000000000) by (nonlinear_arith)
            requires
                1 <= ud <= 32768,
                1 <= vd <= 32768,
        ;
    }
    let d3u: i64 = (u.den as i64) * (u.den as i64) * (u.den as i64);
    let d3v: i64 = (v.den as i64) * (v.den as i64) * (v.den as i64);
    proof {
        lemma_bernstein_partition(un, ud);
        lemma_bernstein_partition(vn, vd);
        lemma_bw_range(0, un, ud);
        lemma_bw_range(1, un, ud);
        lemma_bw_range(2, un, ud);
        lemma_bw_range(3, un, ud);
        lemma_bw_range(0, vn, vd);
        lemma_bw_range(1, vn, vd);
        lemma_bw_range(2, vn, vd);
        lemma_bw_range(3, vn, vd);
    }
    let x0 = pick_axis(&c[0], a);
    let x1 = pick_axis(&c[1], a);
    let x2 = pick_axis(&c[2], a);
    let x3 = pick_axis(&c[3], a);
    let x4 = pick_axis(&c[4], a);
    let x5 = pick_axis(&c[5], a);
    let x6 = pick_axis(&c[6], a);
    let x7 = pick_axis(&c[7], a);
    let x8 = pick_axis(&c[8], a);
    let x9 = pick_axis(&c[9], a);
    let x10 = pick_axis(&c[10], a);
    let x11 = pick_axis(&c[11], a);
    let x12 = pick_axis(&c[12], a);
    let x13 = pick_axis(&c[13], a);
    let x14 = pick_axis(&c[14], a);
    let x15 = pick_axis(&c[15], a);
    proof {
        lemma_weighted4_bound(wv0 as int, wv1 as int, wv2 as int, wv3 as int, x0 as int, x1 as int, x2 as int, x3 as int, d3v as int);
        lemma_weighted4_bound(wv0 as int, wv1 as int, wv2 as int, wv3 as int, x4 as int, x5 as int, x6 as int, x7 as int, d3v as int);
        lemma_weighted4_bound(wv0 as int, wv1 as int, wv2 as int, wv3 as int, x8 as int, x9 as int, x10 as int, x11 as int, d3v as int);
        lemma_weighted4_bound(wv0 as int, wv1 as int, wv2 as int, wv3 as int, x12 as int, x13 as int, x14 as int, x15 as int, d3v as int);
    }
    let r0: i128 = (wv0 as i128) * (x0 as i128) + (wv1 as i128) * (x1 as i128)
        + (wv2 as i128) * (x2 as i128) + (wv3 as i128) * (x3 as i128);
    let r1: i128 = (wv0 as i128) * (x4 as i128) + (wv1 as i128) * (x5 as i128)
        + (wv2 as i128) * (x6 as i128) + (wv3 as i128) * (x7 as i128);
    let r2: i128 = (wv0 as i128) * (x8 as i128) + (wv1 as i128) * (x9 as i128)
        + (wv2 as i128) * (x10 as i128) + (wv3 as i128) * (x11 as i128);
    let r3: i128 = (wv0 as i128) * (x12 as i128) + (wv1 as i128) * (x13 as i128)
        + (wv2 as i128) * (x14 as i128) + (wv3 as i128) * (x15 as i128);
    proof {
        lemma_outer4_bound(wu0 as int, wu1 as int, wu2 as int, wu3 as int, r0 as int, r1 as int, r2 as int, r3 as int, d3u as int, d3v as int);
    }
    let num: i128 = (wu0 as i128) * r0 + (wu1 as i128) * r1 + (wu2 as i128) * r2
        + (wu3 as i128) * r3;
    let dd: i128 = (d3u as i128) * (d3v as i128);
    proof {
        assert(1 <= (d3u as int) * (d3v as int) <= 0x40000000000000000000000) by (nonlinear_arith)
            requires
                1 <= d3u <= 0x200000000000,
                1 <= d3v <= 0x200000000000,
        ;
        assert(dd == den6(u, v));
        lemma_tdiv_bound(num as int, dd as int, CTRL_MAX as int);
        assert(num == pos_num(c@, u, v, a as int));
    }
    let q = div_trunc(num, dd);
    q as i64
}

/// Read one coordinate of a control point.
fn pick_axis(p: &Vec3Fx, a: i32) -> (r: i64)
    requires
        0 <= a <= 2,
    ensures
        r == axis_val(*p, a as int),
{
    if a == 0 {
        p.x
    } else if a == 1 {
        p.y
    } else {
        p.z
    }
}

/// A row blend of four bounded values with non-negative weights summing to
/// `d3` is bounded by `d3 * CTRL_MAX`.
proof fn lemma_weighted4_bound(
    w0: int,
    w1: int,
    w2: int,
    w3: int,
    x0: int,
    x1: int,
    x2: int,
    x3: int,
    d3: int,
)
    requires
        0 <= w0,
        0 <= w1,
        0 <= w2,
        0 <= w3,
        w0 + w1 + w2 + w3 == d3,
        1 <= d3 <= 0x200000000000,
        -CTRL_MAX <= x0 <= CTRL_MAX,
        -CTRL_MAX <= x1 <= CTRL_MAX,
        -CTRL_MAX <= x2 <= CTRL_MAX,
        -CTRL_MAX <= x3 <= CTRL_MAX,
    ensures
        -(d3 * CTRL_MAX) <= w0 * x0 + w1 * x1 + w2 * x2 + w3 * x3 <= d3 * CTRL_MAX,
        -(0x200000000000 * (CTRL_MAX as int)) <= w0 * x0 <= 0x200000000000 * (CTRL_MAX as int),
        -(0x200000000000 * (CTRL_MAX as int)) <= w1 * x1 <= 0x200000000000 * (CTRL_MAX as int),
        -(0x200000000000 * (CTRL_MAX as int)) <= w2 * x2 <= 0x200000000000 * (CTRL_MAX as int),
        -(0x200000000000 * (CTRL_MAX as int)) <= w3 * x3 <= 0x200000000000 * (CTRL_MAX as int),
{
    assert(-(w0 * CTRL_MAX) <= w0 * x0 <= w0 * CTRL_MAX) by (nonlinear_arith)
        requires
            0 <= w0,
            -CTRL_MAX <= x0 <= CTRL_MAX,
    ;
    assert(-(w1 * CTRL_MAX) <= w1 * x1 <= w1 * CTRL_MAX) by (nonlinear_arith)
        requires
            0 <= w1,
            -CTRL_MAX <= x1 <= CTRL_MAX,
    ;
    assert(-(w2 * CTRL_MAX) <= w2 * x2 <= w2 * CTRL_MAX) by (nonlinear_arith)
        requires
            0 <= w2,
            -CTRL_MAX <= x2 <= CTRL_MAX,
    ;
    assert(-(w3 * CTRL_MAX) <= w3 * x3 <= w3 * CTRL_MAX) by (nonlinear_arith)
        requires
            0 <= w3,
            -CTRL_MAX <= x3 <= CTRL_MAX,
    ;
    assert(w0 * CTRL_MAX + w1 * CTRL_MAX + w2 * CTRL_MAX + w3 * CTRL_MAX == d3 * CTRL_MAX)
        by (nonlinear_arith)
        requires
            w0 + w1 + w2 + w3 == d3,
    ;
    assert(w0 * CTRL_MAX <= 0x200000000000 * (CTRL_MAX as int)) by (nonlinear_arith)
        requires
            0 <= w0 <= 0x200000000000,
    ;
    assert(w1 * CTRL_MAX <= 0x200000000000 * (CTRL_MAX as int)) by (nonlinear_arith)
        requires
            0 <= w1 <= 0x200000000000,
    ;
    assert(w2 * CTRL_MAX <= 0x200000000000 * (CTRL_MAX as int)) by (nonlinear_arith)
        requires
            0 <= w2 <= 0x200000000000,
    ;
    assert(w3 * CTRL_MAX <= 0x200000000000 * (CTRL_MAX as int)) by (nonlinear_arith)
        requires
            0 <= w3 <= 0x200000000000,
    ;
}

/// The outer blend of the four row values is bounded by the full common
/// denominator times `CTRL_MAX`.
proof fn lemma_outer4_bound(
    w0: int,
    w1: int,
    w2: int,
    w3: int,
    r0: int,
    r1: int,
    r2: int,
    r3: int,
    d3u: int,
    d3v: int,
)
    requires
        0 <= w0,
        0 <= w1,
        0 <= w2,
        0 <= w3,
        w0 + w1 + w2 + w3 == d3u,
        1 <= d3u <= 0x200000000000,
        1 <= d3v <= 0x200000000000,
        -(d3v * CTRL_MAX) <= r0 <= d3v * CTRL_MAX,
        -(d3v * CTRL_MAX) <= r1 <= d3v * CTRL_MAX,
        -(d3v * CTRL_MAX) <= r2 <= d3v * CTRL_MAX,
        -(d3v * CTRL_MAX) <= r3 <= d3v * CTRL_MAX,
    ensures
        -(d3u * d3v * CTRL_MAX) <= w0 * r0 + w1 * r1 + w2 * r2 + w3 * r3 <= d3u * d3v * CTRL_MAX,
        -((d3u * d3v) * CTRL_MAX) <= w0 * r0 + w1 * r1 + w2 * r2 + w3 * r3 <= (d3u * d3v)
            * CTRL_MAX,
        w0 * r0 + w1 * r1 + w2 * r2 + w3 * r3 < 0x40000000000000000000000000000000,
        -0x40000000000000000000000000000000 < w0 * r0 + w1 * r1 + w2 * r2 + w3 * r3,
        forall|w: int, rr: int|
            0 <= w <= 0x200000000000 && -(d3v * CTRL_MAX) <= rr <= d3v * CTRL_MAX ==> -0x8000000000000000000000000000000 <= #[trigger] (w * rr) <= 0x8000000000000000000000000000000,
{
    assert forall|w: int, rr: int|
        0 <= w <= 0x200000000000 && -(d3v * CTRL_MAX) <= rr <= d3v * CTRL_MAX implies
        -0x8000000000000000000000000000000 <= #[trigger] (w * rr)
            <= 0x8000000000000000000000000000000 by {
        assert(-(0x200000000000 * (0x200000000000 * (CTRL_MAX as int))) <= w * rr <= 0x200000000000
            * (0x200000000000 * (CTRL_MAX as int))) by (nonlinear_arith)
            requires
                0 <= w <= 0x200000000000,
                -(d3v * CTRL_MAX) <= rr <= d3v * CTRL_MAX,
                1 <= d3v <= 0x200000000000,
        ;
    }
    let k = d3v * CTRL_MAX;
    assert(-(w0 * k) <= w0 * r0 <= w0 * k) by (nonlinear_arith)
        requires
            0 <= w0,
            -k <= r0 <= k,
    ;
    assert(-(w1 * k) <= w1 * r1 <= w1 * k) by (nonlinear_arith)
        requires
            0 <= w1,
            -k <= r1 <= k,
    ;
    assert(-(w2 * k) <= w2 * r2 <= w2 * k) by (nonlinear_arith)
        requires
            0 <= w2,
            -k <= r2 <= k,
    ;
    assert(-(w3 * k) <= w3 * r3 <= w3 * k) by (nonlinear_arith)
        requires
            0 <= w3,
            -k <= r3 <= k,
    ;
    assert(w0 * k + w1 * k + w2 * k + w3 * k == d3u * k) by (nonlinear_arith)
        requires
            w0 + w1 + w2 + w3 == d3u,
    ;
    assert(d3u * (d3v * CTRL_MAX) == d3u * d3v * CTRL_MAX && d3u * d3v * CTRL_MAX == (d3u * d3v)
        * CTRL_MAX) by (nonlinear_arith);
    assert(d3u * d3v * CTRL_MAX < 0x40000000000000000000000000000000) by (nonlinear_arith)
        requires
            1 <= d3u <= 0x200000000000,
            1 <= d3v <= 0x200000000000,
    ;
}

} // verus!
