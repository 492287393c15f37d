//! The control surface: a lattice of randomized control planes from which
//! every terrain patch is carved.  Neighboring patches are built from the
//! same plane objects, which welds their shared boundary control points by
//! construction.

use vstd::prelude::*;
use crate::fixed::{SCALE, TAU_FX};
use crate::vec3::{Vec3Fx, QuatFx, vec3_spec, quat_bounded, quat_mul_clamped, quat_mul_spec,
    quat_clamp_spec, quat_angle_axis, angle_axis_spec, bounded};
use crate::patch::{ControlPlane, BicubicPatch, VertexPNT, patch_controls_spec};
use crate::rng::{seed_rng, rand_range};

verus! {

/// Half-range of the rotation jitter about the upright and forward axes
/// (about 0.7 radians in fixed point).
pub const TILT_RANGE: i64 = 45875;

/// Half-range of the rotation jitter about the vertical axis (about 1.2
/// radians in fixed point).
pub const YAW_RANGE: i64 = 78643;

/// Half-range of the vertical position jitter (about 0.8 units in fixed
/// point).
pub const JITTER_RANGE: i64 = 52428;

/// An angle drawn from a symmetric range, wrapped into `[0, 2 pi)` before
/// the half-angle construction.
pub open spec fn wrap_angle_spec(a: int) -> int {
    if a < 0 {
        a + TAU_FX
    } else {
        a
    }
}

/// Composing `q` with the rotation by the drawn angle `a` about `axis`.
pub open spec fn axis_turn_spec(q: QuatFx, a: int, axis: Vec3Fx) -> QuatFx {
    quat_clamp_spec(quat_mul_spec(q, angle_axis_spec(wrap_angle_spec(a), axis)))
}

/// The rotation of a generated lattice plane: the identity turned by `rz`
/// about the depth axis, then `ry` about the vertical axis, then `rx`
/// about the first axis.
pub open spec fn composed_rotation_spec(rz: int, ry: int, rx: int) -> QuatFx {
    let id = QuatFx { w: SCALE, x: 0i64, y: 0i64, z: 0i64 };
    axis_turn_spec(
        axis_turn_spec(axis_turn_spec(id, rz, vec3_spec(0, 0, SCALE as int)), ry, vec3_spec(0, SCALE as int, 0)),
        rx,
        vec3_spec(SCALE as int, 0, 0),
    )
}

/// One cell of the generated lattice: the default plane moved to lattice
/// cell `(i, j)` with a bounded random vertical jitter, the four planar
/// extents kept at their defaults, and the rotation composed of three
/// bounded random turns about the principal axes.
pub open spec fn lattice_plane_spec(p: ControlPlane, i: int, j: int) -> bool {
    &&& p.wf()
    &&& p.pos.x == i * SCALE
    &&& p.pos.z == j * SCALE
    &&& -JITTER_RANGE <= p.pos.y < JITTER_RANGE
    &&& p.north == SCALE
    &&& p.east == 26214
    &&& p.south == -19661
    &&& p.west == -26214
    &&& exists|rz: int, ry: int, rx: int|
        {
            &&& -TILT_RANGE <= rz < TILT_RANGE
            &&& -YAW_RANGE <= ry < YAW_RANGE
            &&& -TILT_RANGE <= rx < TILT_RANGE
            &&& p.rotation == #[trigger] composed_rotation_spec(rz, ry, rx)
        }
}

/// A `size x size` lattice of control planes.
pub struct ControlSurface {
    pub controls: Vec<Vec<ControlPlane>>,
    pub size: usize,
}

impl ControlSurface {
    /// The lattice is square and every plane is well formed and stands on
    /// its integer lattice cell: `controls[i][j]` at `x == i`, `z == j`,
    /// with a vertical jitter of less than one unit.
    pub open spec fn wf(self) -> bool {
        &&& 2 <= self.size <= 64
        &&& self.controls@.len() == self.size
        &&& forall|i: int|
            0 <= i < self.size ==> (#[trigger] self.controls@[i])@.len() == self.size
        &&& forall|i: int, j: int|
            0 <= i < self.size && 0 <= j < self.size ==> {
                let p = (#[trigger] self.controls@[i]@[j]);
                &&& p.wf()
                &&& p.pos.x == i * SCALE
                &&& p.pos.z == j * SCALE
                &&& -JITTER_RANGE <= p.pos.y < JITTER_RANGE
            }
    }

    /// Build a `size x size` lattice of planes on the integer grid, each
    /// cell a default plane with a bounded random rotation composed about
    /// the three principal axes and a bounded random vertical jitter, all
    /// drawn from the seeded generator.
    pub fn new(size: usize, rng: &mut rand::rngs::StdRng) -> (r: ControlSurface)
        requires
            2 <= size <= 64,
        ensures
            r.wf(),
            r.size == size,
            forall|i: int, j: int|
                0 <= i < size && 0 <= j < size ==> lattice_plane_spec(
                    #[trigger] r.controls@[i]@[j],
                    i,
                    j,
                ),
    {
        let mut rows: Vec<Vec<ControlPlane>> = Vec::new();
        let mut i: usize = 0;
        while i < size
            invariant
                2 <= size <= 64,
                0 <= i <= size,
                rows@.len() == i,
                forall|a: int| 0 <= a < i ==> (#[trigger] rows@[a])@.len() == size,
                forall|a: int, b: int|
                    0 <= a < i && 0 <= b < size ==> lattice_plane_spec(
                        #[trigger] rows@[a]@[b],
                        a,
                        b,
                    ),
            decreases size - i,
        {
            let mut row: Vec<ControlPlane> = Vec::new();
            let mut j: usize = 0;
            while j < size
                invariant
                    2 <= size <= 64,
                    0 <= i < size,
                    0 <= j <= size,
                    row@.len() == j,
                    forall|b: int|
                        0 <= b < j ==> lattice_plane_spec(#[trigger] row@[b], i as int, b),
                decreases size - j,
            {
                let plane = random_plane(i, j, rng);
                row.push(plane);
                j = j + 1;
            }
            rows.push(row);
            i = i + 1;
        }
        ControlSurface { controls: rows, size }
    }

    /// The terrain patch over the 2x2 block of planes at `(i, j)`: its
    /// corners are the planes `(i,j)`, `(i,j+1)`, `(i+1,j+1)` and `(i+1,j)`.
    pub fn patch_at(&self, i: usize, j: usize) -> (r: BicubicPatch)
        requires
            self.wf(),
            i + 1 < self.size,
            j + 1 < self.size,
        ensures
            r.controls@ == patch_controls_spec(
                self.controls@[i as int]@[j as int],
                self.controls@[i as int]@[j as int + 1],
                self.controls@[i as int + 1]@[j as int + 1],
                self.controls@[i as int + 1]@[j as int],
            ),
            r.wf(),
    {
        let sw = &self.controls[i][j];
        let nw = &self.controls[i][j + 1];
        let ne = &self.controls[i + 1][j + 1];
        let se = &self.controls[i + 1][j];
        BicubicPatch::new(sw, nw, ne, se)
    }

    /// The flat debug quads of all planes, in row-major lattice order.
    pub fn rasterize(&self) -> (r: Vec<VertexPNT>)
        requires
            self.wf(),
        ensures
            r@.len() == self.size * self.size * 6,
            forall|i: int, j: int, t: int|
                0 <= i < self.size && 0 <= j < self.size && 0 <= t < 6 ==> r@[(i * self.size + j)
                    * 6 + t] == #[trigger] self.controls@[i]@[j].quad_vertex_spec(t),
    {
        let size = self.size;
        let mut vec: Vec<VertexPNT> = Vec::new();
        let mut i: usize = 0;
        proof {
            assert(0 * (size as int) * 6 == 0) by (nonlinear_arith);
        }
        while i < size
            invariant
                self.wf(),
                size == self.size,
                0 <= i <= size,
                vec@.len() == i * size * 6,
                forall|a: int, b: int, t: int|
                    0 <= a < i && 0 <= b < size && 0 <= t < 6 ==> vec@[(a * size + b) * 6 + t] == #[trigger] self.controls@[a]@[b].quad_vertex_spec(t),
            decreases size - i,
        {
            let mut j: usize = 0;
            proof {
                assert((i * size + 0) * 6 == i * size * 6) by (nonlinear_arith);
            }
            while j < size
                invariant
                    self.wf(),
                    size == self.size,
                    0 <= i < size,
                    0 <= j <= size,
                    vec@.len() == (i * size + j) * 6,
                    forall|a: int, b: int, t: int|
                        0 <= a < i && 0 <= b < size && 0 <= t < 6 ==> vec@[(a * size + b) * 6 + t]
                            == #[trigger] self.controls@[a]@[b].quad_vertex_spec(t),
                    forall|b: int, t: int|
                        0 <= b < j && 0 <= t < 6 ==> vec@[(i * size + b) * 6 + t] == #[trigger] self.controls@[i as int]@[b].quad_vertex_spec(t),
                decreases size - j,
            {
                proof {
                    assert((i * size + j) * 6 + 6 == (i * size + (j + 1)) * 6 && (i * size + j) * 6
                        < 64 * 64 * 6 && 0 <= (i * size + j) * 6) by (nonlinear_arith)
                        requires
                            0 <= i < size,
                            0 <= j < size,
                            size <= 64,
                    ;
                }
                let mut quad = self.controls[i][j].rasterize();
                vec.append(&mut quad);
                proof {
                    assert forall|a: int, b: int, t: int|
                        0 <= a < i && 0 <= b < size && 0 <= t < 6 implies vec@[(a * size + b) * 6
                        + t] == self.controls@[a]@[b].quad_vertex_spec(t) by {
                        lemma_block_lt(a, b, t, i as int, j as int, size as int);
                    }
                    assert forall|b: int, t: int|
                        0 <= b < j + 1 && 0 <= t < 6 implies vec@[(i * size + b) * 6 + t]
                        == self.controls@[i as int]@[b].quad_vertex_spec(t) by {
                        if b < j {
                            lemma_block_lt(i as int, b, t, i as int, j as int, size as int);
                        } else {
                            assert((i * size + b) * 6 + t == (i * size + j) * 6 + t);
                        }
                    }
                }
                j = j + 1;
            }
            proof {
                assert((i * size + size) * 6 == (i + 1) * size * 6) by (nonlinear_arith);
            }
            i = i + 1;
        }
        vec
    }
}

/// An earlier block's vertex index lies before the block at `(c, d)`.
proof fn lemma_block_lt(a: int, b: int, t: int, c: int, d: int, size: int)
    requires
        0 <= t < 6,
        0 <= b < size,
        0 <= a,
        0 <= d < size,
        a < c || (a == c && b < d),
        1 <= size <= 64,
        c < size,
    ensures
        0 <= (a * size + b) * 6 + t,
        (a * size + b) * 6 + t < (c * size + d) * 6,
{
    assert(0 <= (a * size + b) * 6 + t && (a * size + b) * 6 + t < (c * size + d) * 6)
        by (nonlinear_arith)
        requires
            0 <= t < 6,
            0 <= b < size,
            0 <= a,
            0 <= d < size,
            a < c || (a == c && b < d),
            1 <= size <= 64,
            c < size,
    ;
}

/// One randomized lattice plane: the default plane moved to lattice cell
/// `(i, j)`, with random vertical jitter and a rotation composed of bounded
/// random turns about the three principal axes.
fn random_plane(i: usize, j: usize, rng: &mut rand::rngs::StdRng) -> (r: ControlPlane)
    requires
        i < 64,
        j < 64,
    ensures
        lattice_plane_spec(r, i as int, j as int),
{
    let mut plane = ControlPlane::new();
    let ghost id = plane.rotation;
    let zaxis = Vec3Fx { x: 0, y: 0, z: SCALE };
    let yaxis = Vec3Fx { x: 0, y: SCALE, z: 0 };
    let xaxis = Vec3Fx { x: SCALE, y: 0, z: 0 };
    let q1 = rotate_axis(plane.rotation, rng, TILT_RANGE, zaxis);
    let q2 = rotate_axis(q1, rng, YAW_RANGE, yaxis);
    let q3 = rotate_axis(q2, rng, TILT_RANGE, xaxis);
    plane.rotation = q3;
    let jitter = rand_range(rng, -JITTER_RANGE, JITTER_RANGE);
    plane.pos = Vec3Fx { x: (i as i64) * SCALE, y: jitter, z: (j as i64) * SCALE };
    proof {
        assert((i as int) * SCALE <= 63 * SCALE && (j as int) * SCALE <= 63 * SCALE && 0 <= (
        i as int) * SCALE && 0 <= (j as int) * SCALE) by (nonlinear_arith)
            requires
                0 <= i < 64,
                0 <= j < 64,
        ;
        assert(zaxis == vec3_spec(0, 0, SCALE as int));
        assert(yaxis == vec3_spec(0, SCALE as int, 0));
        assert(xaxis == vec3_spec(SCALE as int, 0, 0));
        let rz = choose|a: int|
            -TILT_RANGE <= a < TILT_RANGE && q1 == #[trigger] axis_turn_spec(id, a, zaxis);
        let ry = choose|a: int|
            -YAW_RANGE <= a < YAW_RANGE && q2 == #[trigger] axis_turn_spec(q1, a, yaxis);
        let rx = choose|a: int|
            -TILT_RANGE <= a < TILT_RANGE && q3 == #[trigger] axis_turn_spec(q2, a, xaxis);
        assert(plane.rotation == composed_rotation_spec(rz, ry, rx));
    }
    plane
}

/// Compose `q` with a rotation about the given unit axis by an angle drawn
/// uniformly from `[-range, range)`.
fn rotate_axis(q: QuatFx, rng: &mut rand::rngs::StdRng, range: i64, axis: Vec3Fx) -> (r: QuatFx)
    requires
        quat_bounded(q, SCALE as int),
        0 < range <= 102943,
        bounded(axis, SCALE as int),
    ensures
        quat_bounded(r, SCALE as int),
        exists|a: int| -range <= a < range && r == #[trigger] axis_turn_spec(q, a, axis),
{
    let drawn = rand_range(rng, -range, range);
    let angle = if drawn < 0 {
        drawn + TAU_FX
    } else {
        drawn
    };
    let aa = quat_angle_axis(angle, axis);
    let r = quat_mul_clamped(q, aa);
    proof {
        assert(angle == wrap_angle_spec(drawn as int));
        assert(r == axis_turn_spec(q, drawn as int, axis));
    }
    r
}

/// Build a fully randomized control surface from a seed.
pub fn generate_surface(size: usize, seed: u64) -> (r: ControlSurface)
    requires
        2 <= size <= 64,
    ensures
        r.wf(),
        r.size == size,
        forall|i: int, j: int|
            0 <= i < size && 0 <= j < size ==> lattice_plane_spec(
                #[trigger] r.controls@[i]@[j],
                i,
                j,
            ),
{
    let mut rng = seed_rng(seed);
    ControlSurface::new(size, &mut rng)
}

/// Shared seam: the fourth control column of the patch at `(i, j)` is, point
/// for point, the first control column of the patch at `(i, j+1)`, and the
/// fourth control row of the patch at `(i, j)` is the first control row of
/// the patch at `(i+1, j)` — the neighboring patches read the same planes,
/// so the shared boundary control points are identical.
pub proof fn lemma_seam(s: ControlSurface, i: int, j: int)
    requires
        s.wf(),
        0 <= i,
        0 <= j,
        i + 2 < s.size,
        j + 2 < s.size,
    ensures
        ({
            let a = patch_controls_spec(
                s.controls@[i]@[j],
                s.controls@[i]@[j + 1],
                s.controls@[i + 1]@[j + 1],
                s.controls@[i + 1]@[j],
            );
            let right = patch_controls_spec(
                s.controls@[i]@[j + 1],
                s.controls@[i]@[j + 2],
                s.controls@[i + 1]@[j + 2],
                s.controls@[i + 1]@[j + 1],
            );
            let below = patch_controls_spec(
                s.controls@[i + 1]@[j],
                s.controls@[i + 1]@[j + 1],
                s.controls@[i + 2]@[j + 1],
                s.controls@[i + 2]@[j],
            );
            &&& a[3] == right[0]
            &&& a[7] == right[4]
            &&& a[11] == right[8]
            &&& a[15] == right[12]
            &&& a[12] == below[0]
            &&& a[13] == below[1]
            &&& a[14] == below[2]
            &&& a[15] == below[3]
        }),
{
}

} // verus!
