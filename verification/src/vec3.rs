//! Fixed-point 3-vectors, 2-vectors and quaternions.

use vstd::prelude::*;
use crate::fixed::{SCALE, tdiv, sqrt_floor, is_sqrt_floor, lemma_sqrt_floor, lemma_tdiv_bound, lemma_tdiv_remainder, div_trunc, isqrt};

verus! {

/// A 3-vector of 16.16 fixed-point coordinates.
#[derive(Clone, Copy, PartialEq, Eq, Structural, Debug)]
pub struct Vec3Fx {
    pub x: i64,
    pub y: i64,
    pub z: i64,
}

/// A 2-vector of 16.16 fixed-point coordinates (stick state).
#[derive(Clone, Copy, PartialEq, Eq, Structural, Debug)]
pub struct Vec2Fx {
    pub x: i64,
    pub y: i64,
}

/// Every component of `v` is at most `m` in magnitude.
pub open spec fn bounded(v: Vec3Fx, m: int) -> bool {
    -m <= v.x <= m && -m <= v.y <= m && -m <= v.z <= m
}

pub open spec fn vec3_spec(x: int, y: int, z: int) -> Vec3Fx {
    Vec3Fx { x: x as i64, y: y as i64, z: z as i64 }
}

impl Vec3Fx {
    /// The zero vector.
    pub fn zero() -> (r: Vec3Fx)
        ensures
            r == (Vec3Fx { x: 0i64, y: 0i64, z: 0i64 }),
    {
        Vec3Fx { x: 0, y: 0, z: 0 }
    }

    /// Componentwise sum.
    pub fn plus(self, o: Vec3Fx) -> (r: Vec3Fx)
        requires
            bounded(self, 0x2000000000000000),
            bounded(o, 0x2000000000000000),
        ensures
            r.x == self.x + o.x,
            r.y == self.y + o.y,
            r.z == self.z + o.z,
    {
        Vec3Fx { x: self.x + o.x, y: self.y + o.y, z: self.z + o.z }
    }

    /// Componentwise difference.
    pub fn minus(self, o: Vec3Fx) -> (r: Vec3Fx)
        requires
            bounded(self, 0x2000000000000000),
            bounded(o, 0x2000000000000000),
        ensures
            r.x == self.x - o.x,
            r.y == self.y - o.y,
            r.z == self.z - o.z,
    {
        Vec3Fx { x: self.x - o.x, y: self.y - o.y, z: self.z - o.z }
    }

    /// Componentwise negation.
    pub fn neg(self) -> (r: Vec3Fx)
        requires
            bounded(self, 0x2000000000000000),
        ensures
            r.x == -self.x,
            r.y == -self.y,
            r.z == -self.z,
    {
        Vec3Fx { x: -self.x, y: -self.y, z: -self.z }
    }

    /// Scale by a fixed-point factor: each component becomes
    /// `component * s / SCALE`, truncated.
    pub fn scale_fx(self, s: i64) -> (r: Vec3Fx)
        requires
            bounded(self, 0x8000000000),
            -0x8000000000 <= s <= 0x8000000000,
        ensures
            r.x == crate::fixed::fx_mul_spec(self.x as int, s as int),
            r.y == crate::fixed::fx_mul_spec(self.y as int, s as int),
            r.z == crate::fixed::fx_mul_spec(self.z as int, s as int),
            bounded(r, 0x4000000000000000),
    {
        Vec3Fx {
            x: crate::fixed::fx_mul(self.x, s),
            y: crate::fixed::fx_mul(self.y, s),
            z: crate::fixed::fx_mul(self.z, s),
        }
    }
}

/// The cross product, in raw integer units (no rescaling).
pub open spec fn cross_spec(a: Vec3Fx, b: Vec3Fx) -> (int, int, int) {
    (
        a.y * b.z - a.z * b.y,
        a.z * b.x - a.x * b.z,
        a.x * b.y - a.y * b.x,
    )
}

/// The dot product, in raw integer units.
pub open spec fn dot_spec(a: Vec3Fx, b: Vec3Fx) -> int {
    a.x * b.x + a.y * b.y + a.z * b.z
}

/// Cross product of two component-bounded vectors.
pub fn cross(a: Vec3Fx, b: Vec3Fx) -> (r: Vec3Fx)
    requires
        bounded(a, 0x40000000),
        bounded(b, 0x40000000),
    ensures
        (r.x as int, r.y as int, r.z as int) == cross_spec(a, b),
        bounded(r, 0x4000000000000000),
{
    proof {
        lemma_prod_bound(a.y as int, b.z as int, 0x40000000);
        lemma_prod_bound(a.z as int, b.y as int, 0x40000000);
        lemma_prod_bound(a.z as int, b.x as int, 0x40000000);
        lemma_prod_bound(a.x as int, b.z as int, 0x40000000);
        lemma_prod_bound(a.x as int, b.y as int, 0x40000000);
        lemma_prod_bound(a.y as int, b.x as int, 0x40000000);
    }
    let x: i64 = ((a.y as i128) * (b.z as i128) - (a.z as i128) * (b.y as i128)) as i64;
    let y: i64 = ((a.z as i128) * (b.x as i128) - (a.x as i128) * (b.z as i128)) as i64;
    let z: i64 = ((a.x as i128) * (b.y as i128) - (a.y as i128) * (b.x as i128)) as i64;
    Vec3Fx { x, y, z }
}

/// Dot product of two component-bounded vectors.
pub fn dot(a: Vec3Fx, b: Vec3Fx) -> (r: i64)
    requires
        bounded(a, 0x40000000),
        bounded(b, 0x40000000),
    ensures
        r == dot_spec(a, b),
{
    proof {
        lemma_prod_bound(a.x as int, b.x as int, 0x40000000);
        lemma_prod_bound(a.y as int, b.y as int, 0x40000000);
        lemma_prod_bound(a.z as int, b.z as int, 0x40000000);
    }
    ((a.x as i128) * (b.x as i128) + (a.y as i128) * (b.y as i128)
        + (a.z as i128) * (b.z as i128)) as i64
}

/// `|a|, |b| <= m` bounds the product by `m * m`.
proof fn lemma_prod_bound(a: int, b: int, m: int)
    requires
        -m <= a <= m,
        -m <= b <= m,
        m >= 0,
    ensures
        -(m * m) <= a * b <= m * m,
{
    assert(-(m * m) <= a * b <= m * m) by (nonlinear_arith)
        requires
            -m <= a <= m,
            -m <= b <= m,
            m >= 0,
    ;
}

/// The squared Euclidean length, in raw integer units.
pub open spec fn norm_sq_spec(v: Vec3Fx) -> int {
    v.x * v.x + v.y * v.y + v.z * v.z
}

/// Squared length of a component-bounded vector.
pub fn norm_sq(v: Vec3Fx) -> (r: u128)
    requires
        bounded(v, 0x4000000000000000),
    ensures
        r == norm_sq_spec(v),
{
    proof {
        lemma_prod_bound(v.x as int, v.x as int, 0x4000000000000000);
        lemma_prod_bound(v.y as int, v.y as int, 0x4000000000000000);
        lemma_prod_bound(v.z as int, v.z as int, 0x4000000000000000);
        assert((v.x as int) * (v.x as int) >= 0) by (nonlinear_arith);
        assert((v.y as int) * (v.y as int) >= 0) by (nonlinear_arith);
        assert((v.z as int) * (v.z as int) >= 0) by (nonlinear_arith);
    }
    ((v.x as i128) * (v.x as i128) + (v.y as i128) * (v.y as i128)
        + (v.z as i128) * (v.z as i128)) as u128
}

/// The fixed-point unit vector along `v`: each component is
/// `component * SCALE / sqrt_floor(|v|^2)`, truncated.  Meaningful only when
/// the squared length is positive.
pub open spec fn unitize_spec(v: Vec3Fx) -> Vec3Fx {
    let m = sqrt_floor(norm_sq_spec(v));
    vec3_spec(
        tdiv(v.x * SCALE, m),
        tdiv(v.y * SCALE, m),
        tdiv(v.z * SCALE, m),
    )
}

/// Normalize `v` to fixed-point unit length; `None` exactly when `v` is zero.
pub fn try_unitize(v: Vec3Fx) -> (r: Option<Vec3Fx>)
    requires
        bounded(v, 0x4000000000000000),
    ensures
        (r is None) <==> norm_sq_spec(v) == 0,
        r is Some ==> r->Some_0 == unitize_spec(v) && bounded(r->Some_0, 2 * SCALE as int),
{
    let nsq = norm_sq(v);
    if nsq == 0 {
        None
    } else {
        let m = isqrt(nsq);
        proof {
            lemma_unitize_bounds(v, m as int);
        }
        let x = div_trunc((v.x as i128) * (SCALE as i128), m as i128) as i64;
        let y = div_trunc((v.y as i128) * (SCALE as i128), m as i128) as i64;
        let z = div_trunc((v.z as i128) * (SCALE as i128), m as i128) as i64;
        Some(Vec3Fx { x, y, z })
    }
}

/// Each normalized component is at most `2 * SCALE` in magnitude.
proof fn lemma_unitize_bounds(v: Vec3Fx, m: int)
    requires
        is_sqrt_floor(m, norm_sq_spec(v)),
        norm_sq_spec(v) > 0,
    ensures
        m >= 1,
        -(2 * SCALE) <= tdiv(v.x * SCALE, m) <= 2 * SCALE,
        -(2 * SCALE) <= tdiv(v.y * SCALE, m) <= 2 * SCALE,
        -(2 * SCALE) <= tdiv(v.z * SCALE, m) <= 2 * SCALE,
{
    assert(m >= 1) by (nonlinear_arith)
        requires
            0 <= m && m * m <= norm_sq_spec(v) && norm_sq_spec(v) < (m + 1) * (m + 1),
            norm_sq_spec(v) > 0,
    ;
    lemma_component_le(v.x as int, v, m);
    lemma_component_le(v.y as int, v, m);
    lemma_component_le(v.z as int, v, m);
    assert(-(2 * m) * SCALE == -(2 * SCALE * m) && (2 * m) * SCALE == 2 * SCALE * m)
        by (nonlinear_arith);
    lemma_tdiv_bound(v.x * SCALE, m, 2 * SCALE as int);
    lemma_tdiv_bound(v.y * SCALE, m, 2 * SCALE as int);
    lemma_tdiv_bound(v.z * SCALE, m, 2 * SCALE as int);
}

/// A component is at most twice the rounded-down length.
proof fn lemma_component_le(c: int, v: Vec3Fx, m: int)
    requires
        is_sqrt_floor(m, norm_sq_spec(v)),
        m >= 1,
        c == v.x || c == v.y || c == v.z,
    ensures
        -(2 * SCALE * m) <= c * SCALE <= 2 * SCALE * m,
{
    assert(c * c <= norm_sq_spec(v)) by (nonlinear_arith)
        requires
            c == v.x || c == v.y || c == v.z,
            norm_sq_spec(v) == v.x * v.x + v.y * v.y + v.z * v.z,
    ;
    assert(-(2 * m) <= c <= 2 * m) by (nonlinear_arith)
        requires
            c * c <= norm_sq_spec(v),
            norm_sq_spec(v) < (m + 1) * (m + 1),
            m >= 1,
    ;
    assert(-(2 * SCALE * m) <= c * SCALE <= 2 * SCALE * m) by (nonlinear_arith)
        requires
            -(2 * m) <= c <= 2 * m,
    ;
}

/// The fixed-point unit vector of any vector at least two units long has
/// squared length within a small band around `SCALE^2`: normalization
/// yields unit length up to quantization.
pub proof fn lemma_unitize_unit(v: Vec3Fx)
    requires
        norm_sq_spec(v) >= (2 * SCALE) * (2 * SCALE),
    ensures
        ({
            let n = unitize_spec(v);
            &&& (SCALE as int) * SCALE - 7 * SCALE <= norm_sq_spec(n) <= (SCALE as int) * SCALE
                + 8 * SCALE
            &&& bounded(n, 2 * SCALE as int)
        }),
{
    let nsq = norm_sq_spec(v);
    assert(nsq >= 0) by (nonlinear_arith)
        requires
            nsq == v.x * v.x + v.y * v.y + v.z * v.z,
    ;
    lemma_sqrt_floor(nsq);
    let m = sqrt_floor(nsq);
    assert(m >= 2 * SCALE) by (nonlinear_arith)
        requires
            is_sqrt_floor(m, nsq),
            nsq >= (2 * SCALE) * (2 * SCALE),
    ;
    assert((2 * (SCALE as int)) * (2 * (SCALE as int)) == 0x400000000) by (nonlinear_arith);
    assert(nsq > 0);
    lemma_unitize_bounds(v, m);
    let ax = v.x * SCALE;
    let ay = v.y * SCALE;
    let az = v.z * SCALE;
    let qx = tdiv(ax, m);
    let qy = tdiv(ay, m);
    let qz = tdiv(az, m);
    lemma_tdiv_remainder(ax, m);
    lemma_tdiv_remainder(ay, m);
    lemma_tdiv_remainder(az, m);
    // each coordinate is at most the length, so each scaled coordinate is
    // at most m * SCALE
    assert(-m <= v.x && v.x <= m && -m <= v.y && v.y <= m && -m <= v.z && v.z <= m)
        by (nonlinear_arith)
        requires
            is_sqrt_floor(m, nsq),
            nsq == v.x * v.x + v.y * v.y + v.z * v.z,
            m >= 1,
    ;
    assert(-(m * SCALE) <= ax <= m * SCALE && -(m * SCALE) <= ay <= m * SCALE && -(m * SCALE)
        <= az <= m * SCALE) by (nonlinear_arith)
        requires
            -m <= v.x <= m && -m <= v.y <= m && -m <= v.z <= m,
            ax == v.x * SCALE && ay == v.y * SCALE && az == v.z * SCALE,
    ;
    // each squared normalized component sits near the exact square
    assert(ax * ax - 2 * (m * m) * SCALE <= (qx * m) * (qx * m) <= ax * ax + 2 * (m * m) * SCALE
        + m * m) by (nonlinear_arith)
        requires
            m >= 1,
            -m < ax - qx * m < m,
            -(m * SCALE) <= ax <= m * SCALE,
    ;
    assert(ay * ay - 2 * (m * m) * SCALE <= (qy * m) * (qy * m) <= ay * ay + 2 * (m * m) * SCALE
        + m * m) by (nonlinear_arith)
        requires
            m >= 1,
            -m < ay - qy * m < m,
            -(m * SCALE) <= ay <= m * SCALE,
    ;
    assert(az * az - 2 * (m * m) * SCALE <= (qz * m) * (qz * m) <= az * az + 2 * (m * m) * SCALE
        + m * m) by (nonlinear_arith)
        requires
            m >= 1,
            -m < az - qz * m < m,
            -(m * SCALE) <= az <= m * SCALE,
    ;
    // assemble: m^2 (qx^2+qy^2+qz^2) is within the band around SCALE^2 nsq
    let ssum = qx * qx + qy * qy + qz * qz;
    assert((qx * m) * (qx * m) + (qy * m) * (qy * m) + (qz * m) * (qz * m) == m * m * ssum)
        by (nonlinear_arith)
        requires
            ssum == qx * qx + qy * qy + qz * qz,
    ;
    assert(ax * ax + ay * ay + az * az == ((SCALE as int) * SCALE) * nsq) by (nonlinear_arith)
        requires
            ax == v.x * SCALE && ay == v.y * SCALE && az == v.z * SCALE,
            nsq == v.x * v.x + v.y * v.y + v.z * v.z,
    ;
    // translate the band on m^2 ssum into a band on ssum itself
    assert((SCALE as int) * SCALE - 7 * SCALE <= ssum <= (SCALE as int) * SCALE + 8 * SCALE)
        by (nonlinear_arith)
        requires
            m * m * ssum >= ((SCALE as int) * SCALE) * nsq - 6 * (m * m) * SCALE,
            m * m * ssum <= ((SCALE as int) * SCALE) * nsq + 6 * (m * m) * SCALE + 3 * (m * m),
            m * m <= nsq,
            nsq < (m + 1) * (m + 1),
            m >= 2 * SCALE,
            SCALE == 65536,
    ;
    let n = unitize_spec(v);
    assert(n.x == qx && n.y == qy && n.z == qz);
    assert(norm_sq_spec(n) == ssum);
}

/// A quaternion of 16.16 fixed-point components; rotations keep every
/// component within `[-SCALE, SCALE]`.
#[derive(Clone, Copy, PartialEq, Eq, Structural, Debug)]
pub struct QuatFx {
    pub w: i64,
    pub x: i64,
    pub y: i64,
    pub z: i64,
}

/// Every component of `q` is at most `m` in magnitude.
pub open spec fn quat_bounded(q: QuatFx, m: int) -> bool {
    -m <= q.w <= m && -m <= q.x <= m && -m <= q.y <= m && -m <= q.z <= m
}

/// The Hamilton product, each component rescaled by `SCALE`.
pub open spec fn quat_mul_spec(a: QuatFx, b: QuatFx) -> QuatFx {
    QuatFx {
        w: tdiv(a.w * b.w - a.x * b.x - a.y * b.y - a.z * b.z, SCALE as int) as i64,
        x: tdiv(a.w * b.x + a.x * b.w + a.y * b.z - a.z * b.y, SCALE as int) as i64,
        y: tdiv(a.w * b.y - a.x * b.z + a.y * b.w + a.z * b.x, SCALE as int) as i64,
        z: tdiv(a.w * b.z + a.x * b.y - a.y * b.x + a.z * b.w, SCALE as int) as i64,
    }
}

/// Clamping every component into `[-SCALE, SCALE]`, the fixed-point range of
/// a unit quaternion's components.
pub open spec fn quat_clamp_spec(q: QuatFx) -> QuatFx {
    QuatFx {
        w: clamp_unit_spec(q.w as int) as i64,
        x: clamp_unit_spec(q.x as int) as i64,
        y: clamp_unit_spec(q.y as int) as i64,
        z: clamp_unit_spec(q.z as int) as i64,
    }
}

pub open spec fn clamp_unit_spec(c: int) -> int {
    if c < -SCALE {
        -SCALE as int
    } else if c > SCALE {
        SCALE as int
    } else {
        c
    }
}

fn clamp_unit(c: i64) -> (r: i64)
    requires
        -0x4000000000000000 <= c <= 0x4000000000000000,
    ensures
        r == clamp_unit_spec(c as int),
{
    if c < -SCALE {
        -SCALE
    } else if c > SCALE {
        SCALE
    } else {
        c
    }
}

impl QuatFx {
    /// The identity rotation.
    pub fn identity() -> (r: QuatFx)
        ensures
            r == (QuatFx { w: SCALE, x: 0i64, y: 0i64, z: 0i64 }),
            quat_bounded(r, SCALE as int),
    {
        QuatFx { w: SCALE, x: 0, y: 0, z: 0 }
    }
}

/// Hamilton product of two component-bounded quaternions, with each
/// component clamped back into the fixed-point unit range afterwards.
pub fn quat_mul_clamped(a: QuatFx, b: QuatFx) -> (r: QuatFx)
    requires
        quat_bounded(a, 0x40000000),
        quat_bounded(b, 0x40000000),
    ensures
        r == quat_clamp_spec(quat_mul_spec(a, b)),
        quat_bounded(r, SCALE as int),
{
    proof {
        lemma_prod_bound(a.w as int, b.w as int, 0x40000000);
        lemma_prod_bound(a.w as int, b.x as int, 0x40000000);
        lemma_prod_bound(a.w as int, b.y as int, 0x40000000);
        lemma_prod_bound(a.w as int, b.z as int, 0x40000000);
        lemma_prod_bound(a.x as int, b.w as int, 0x40000000);
        lemma_prod_bound(a.x as int, b.x as int, 0x40000000);
        lemma_prod_bound(a.x as int, b.y as int, 0x40000000);
        lemma_prod_bound(a.x as int, b.z as int, 0x40000000);
        lemma_prod_bound(a.y as int, b.w as int, 0x40000000);
        lemma_prod_bound(a.y as int, b.x as int, 0x40000000);
        lemma_prod_bound(a.y as int, b.y as int, 0x40000000);
        lemma_prod_bound(a.y as int, b.z as int, 0x40000000);
        lemma_prod_bound(a.z as int, b.w as int, 0x40000000);
        lemma_prod_bound(a.z as int, b.x as int, 0x40000000);
        lemma_prod_bound(a.z as int, b.y as int, 0x40000000);
        lemma_prod_bound(a.z as int, b.z as int, 0x40000000);
        assert(0x4000000000000000 * (SCALE as int) >= 0x4000000000000000);
    }
    let nw: i128 = (a.w as i128) * (b.w as i128) - (a.x as i128) * (b.x as i128)
        - (a.y as i128) * (b.y as i128) - (a.z as i128) * (b.z as i128);
    let nx: i128 = (a.w as i128) * (b.x as i128) + (a.x as i128) * (b.w as i128)
        + (a.y as i128) * (b.z as i128) - (a.z as i128) * (b.y as i128);
    let ny: i128 = (a.w as i128) * (b.y as i128) - (a.x as i128) * (b.z as i128)
        + (a.y as i128) * (b.w as i128) + (a.z as i128) * (b.x as i128);
    let nz: i128 = (a.w as i128) * (b.z as i128) + (a.x as i128) * (b.y as i128)
        - (a.y as i128) * (b.x as i128) + (a.z as i128) * (b.w as i128);
    proof {
        assert(0x4000000000000000 * (SCALE as int) == 0x40000000000000000000);
        lemma_tdiv_bound(nw as int, SCALE as int, 0x4000000000000000);
        lemma_tdiv_bound(nx as int, SCALE as int, 0x4000000000000000);
        lemma_tdiv_bound(ny as int, SCALE as int, 0x4000000000000000);
        lemma_tdiv_bound(nz as int, SCALE as int, 0x4000000000000000);
    }
    let w = clamp_unit(div_trunc(nw, SCALE as i128) as i64);
    let x = clamp_unit(div_trunc(nx, SCALE as i128) as i64);
    let y = clamp_unit(div_trunc(ny, SCALE as i128) as i64);
    let z = clamp_unit(div_trunc(nz, SCALE as i128) as i64);
    QuatFx { w, x, y, z }
}

/// Rotating `v` by the unit quaternion `q`:
/// `v + 2 w (qv x v) + 2 qv x (qv x v)`, carried out in fixed point with a
/// single truncation per component.
pub open spec fn quat_rotate_spec(q: QuatFx, v: Vec3Fx) -> Vec3Fx {
    let c1x = q.y * v.z - q.z * v.y;
    let c1y = q.z * v.x - q.x * v.z;
    let c1z = q.x * v.y - q.y * v.x;
    let c2x = q.y * c1z - q.z * c1y;
    let c2y = q.z * c1x - q.x * c1z;
    let c2z = q.x * c1y - q.y * c1x;
    vec3_spec(
        v.x + tdiv(2 * (q.w * c1x + c2x), SCALE * SCALE),
        v.y + tdiv(2 * (q.w * c1y + c2y), SCALE * SCALE),
        v.z + tdiv(2 * (q.w * c1z + c2z), SCALE * SCALE),
    )
}

/// Rotate a vector by a unit quaternion.
pub fn quat_rotate(q: QuatFx, v: Vec3Fx) -> (r: Vec3Fx)
    requires
        quat_bounded(q, SCALE as int),
        bounded(v, 0x100000),
    ensures
        r == quat_rotate_spec(q, v),
        bounded(r, 0x2000000),
{
    proof {
        lemma_prod_bound2(q.y as int, v.z as int, 65536, 0x100000);
        lemma_prod_bound2(q.z as int, v.y as int, 65536, 0x100000);
        lemma_prod_bound2(q.z as int, v.x as int, 65536, 0x100000);
        lemma_prod_bound2(q.x as int, v.z as int, 65536, 0x100000);
        lemma_prod_bound2(q.x as int, v.y as int, 65536, 0x100000);
        lemma_prod_bound2(q.y as int, v.x as int, 65536, 0x100000);
    }
    let c1x: i128 = (q.y as i128) * (v.z as i128) - (q.z as i128) * (v.y as i128);
    let c1y: i128 = (q.z as i128) * (v.x as i128) - (q.x as i128) * (v.z as i128);
    let c1z: i128 = (q.x as i128) * (v.y as i128) - (q.y as i128) * (v.x as i128);
    proof {
        lemma_quat_rot_mid(q.y as int, c1z as int);
        lemma_quat_rot_mid(q.z as int, c1y as int);
        lemma_quat_rot_mid(q.z as int, c1x as int);
        lemma_quat_rot_mid(q.x as int, c1z as int);
        lemma_quat_rot_mid(q.x as int, c1y as int);
        lemma_quat_rot_mid(q.y as int, c1x as int);
        lemma_quat_rot_mid(q.w as int, c1x as int);
        lemma_quat_rot_mid(q.w as int, c1y as int);
        lemma_quat_rot_mid(q.w as int, c1z as int);
    }
    let c2x: i128 = (q.y as i128) * c1z - (q.z as i128) * c1y;
    let c2y: i128 = (q.z as i128) * c1x - (q.x as i128) * c1z;
    let c2z: i128 = (q.x as i128) * c1y - (q.y as i128) * c1x;
    let nx: i128 = 2 * ((q.w as i128) * c1x + c2x);
    let ny: i128 = 2 * ((q.w as i128) * c1y + c2y);
    let nz: i128 = 2 * ((q.w as i128) * c1z + c2z);
    let d: i128 = (SCALE as i128) * (SCALE as i128);
    proof {
        assert(0x1000000 * ((SCALE as int) * (SCALE as int)) == 0x100000000000000);
        lemma_tdiv_bound(nx as int, (SCALE as int) * (SCALE as int), 0x1000000);
        lemma_tdiv_bound(ny as int, (SCALE as int) * (SCALE as int), 0x1000000);
        lemma_tdiv_bound(nz as int, (SCALE as int) * (SCALE as int), 0x1000000);
    }
    let rx = v.x + div_trunc(nx, d) as i64;
    let ry = v.y + div_trunc(ny, d) as i64;
    let rz = v.z + div_trunc(nz, d) as i64;
    Vec3Fx { x: rx, y: ry, z: rz }
}

/// A unit-quaternion component times an intermediate cross component stays
/// within the accumulator range.
proof fn lemma_quat_rot_mid(a: int, c: int)
    requires
        -65536 <= a <= 65536,
        -0x2000000000 <= c <= 0x2000000000,
    ensures
        -0x20000000000000 <= a * c <= 0x20000000000000,
{
    assert(-0x20000000000000 <= a * c <= 0x20000000000000) by (nonlinear_arith)
        requires
            -65536 <= a <= 65536,
            -0x2000000000 <= c <= 0x2000000000,
    ;
}

/// `|a| <= ma` and `|b| <= mb` bound the product by `ma * mb`.
proof fn lemma_prod_bound2(a: int, b: int, ma: int, mb: int)
    requires
        -ma <= a <= ma,
        -mb <= b <= mb,
        ma >= 0,
        mb >= 0,
    ensures
        -(ma * mb) <= a * b <= ma * mb,
{
    assert(-(ma * mb) <= a * b <= ma * mb) by (nonlinear_arith)
        requires
            -ma <= a <= ma,
            -mb <= b <= mb,
            ma >= 0,
            mb >= 0,
    ;
}

/// The quaternion of a rotation by `angle` about the unit axis:
/// `(cos(angle/2), axis * sin(angle/2))` in fixed point, each vector
/// component clamped back into the fixed-point unit range.
pub open spec fn angle_axis_spec(angle: int, axis: Vec3Fx) -> QuatFx {
    let h = tdiv(angle, 2);
    let s = crate::fixed::sin_turn_spec(h);
    let c = crate::fixed::cos_turn_spec(h);
    QuatFx {
        w: c as i64,
        x: clamp_unit_spec(crate::fixed::fx_mul_spec(axis.x as int, s)) as i64,
        y: clamp_unit_spec(crate::fixed::fx_mul_spec(axis.y as int, s)) as i64,
        z: clamp_unit_spec(crate::fixed::fx_mul_spec(axis.z as int, s)) as i64,
    }
}

/// Build the rotation quaternion of `angle` (in `[0, 2 pi)`) about a unit
/// axis whose components lie within the fixed-point unit range.
pub fn quat_angle_axis(angle: i64, axis: Vec3Fx) -> (r: QuatFx)
    requires
        0 <= angle < crate::fixed::TAU_FX,
        bounded(axis, 2 * SCALE as int),
    ensures
        r == angle_axis_spec(angle as int, axis),
        quat_bounded(r, SCALE as int),
{
    let h = angle / 2;
    let s = crate::fixed::fx_sin(h);
    let c = crate::fixed::fx_cos(h);
    QuatFx {
        w: c,
        x: clamp_unit(crate::fixed::fx_mul(axis.x, s)),
        y: clamp_unit(crate::fixed::fx_mul(axis.y, s)),
        z: clamp_unit(crate::fixed::fx_mul(axis.z, s)),
    }
}

} // verus!
