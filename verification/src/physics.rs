//! Terrain-follow physics: the per-frame step of the controlled body.
//!
//! Each frame drains the pending input events, finds the first chunk whose
//! loosened bounding box contains the body and whose collision mesh a
//! vertical ray hits, integrates gravity and drag (softened by the squish
//! easing while in contact), clamps the body to the surface, and orients it
//! along the local drive direction.

use vstd::prelude::*;
use crate::fixed::{SCALE, TAU_FX, PI_FX, HALF_PI_FX, tdiv, fx_mul_spec, fx_mul, sqrt_floor,
    is_sqrt_floor, sin_turn_spec, cos_turn_spec, fx_sin, fx_cos, lemma_tdiv_bound, div_trunc};
use crate::vec3::{Vec3Fx, Vec2Fx, vec3_spec, bounded, QuatFx, quat_bounded, quat_rotate,
    quat_rotate_spec, quat_angle_axis, angle_axis_spec, cross_spec, dot_spec, norm_sq_spec,
    unitize_spec, cross, dot, norm_sq, try_unitize};
use crate::chunk::Chunk;
use crate::raycast::{RayHit, cast_vertical, best_tri, hit_spec, ORIGIN_MAX};
use crate::patch::normal_spec;

verus! {

/// Largest velocity component the integrator keeps (a fixed-point range
/// guard, far beyond any reachable speed).
pub const VEL_MAX: i64 = 0x4000000;

/// Largest position component the integrator keeps (a fixed-point range
/// guard, beyond the whole terrain).
pub const POS_MAX: i64 = 0x80000000;

/// Bound on a stick axis value (axes report the unit interval).
pub const STICK_MAX: i64 = 131072;

/// Fixed-point top speed of the free horizontal drive (20 units/s).
pub const TOP_SPEED: i64 = 1310720;

/// Fixed-point gravity acceleration magnitude per second (0.0098 units/s^2).
pub const GRAVITY_Y: i64 = -642;

/// The body's mass; drag is divided by it to give an acceleration.
pub const MASS: i64 = 80;

/// Minimum fixed-point speed below which drag is zero (about 0.001).
pub const SPEED_EPS: i64 = 66;

/// Fixed-point softness of the surface: the height over which contact
/// acceleration ramps up (1 unit).
pub const SQUISHYNESS: i64 = 65536;

/// Fixed-point factor of the downhill drive nudge (0.2).
pub const DRIVE_SCALE: i64 = 13107;

/// The internal tessellation resolution at which the analytic normal is
/// re-evaluated at a hit.
pub const BEZIER_SMOOTHNESS: i32 = 256;

/// A controller button, as the input queue reports it.
#[derive(Clone, Copy, PartialEq, Eq, Structural, Debug)]
pub enum PadButton {
    South,
    East,
    North,
    West,
    Other,
}

/// A controller stick axis, as the input queue reports it.
#[derive(Clone, Copy, PartialEq, Eq, Structural, Debug)]
pub enum PadAxis {
    LeftStickX,
    LeftStickY,
    RightStickX,
    RightStickY,
    Other,
}

/// One discrete input event, with fixed-point axis values.
#[derive(Clone, Copy, PartialEq, Eq, Structural, Debug)]
pub enum InputEvent {
    ButtonPressed(PadButton),
    AxisChanged(PadAxis, i64),
}

/// The controlled body's transform: a position and an orientation frame
/// (forward and up directions).
#[derive(Clone, Copy, PartialEq, Eq, Structural, Debug)]
pub struct BodyTransform {
    pub position: Vec3Fx,
    pub forward: Vec3Fx,
    pub up: Vec3Fx,
}

impl BodyTransform {
    /// The transform stays inside the fixed-point ranges the step is proved
    /// for.
    pub open spec fn wf(self) -> bool {
        &&& bounded(self.position, POS_MAX as int)
        &&& bounded(self.forward, 2 * SCALE as int)
        &&& bounded(self.up, 2 * SCALE as int)
    }

    /// A transform at the given position, facing along the depth axis.
    pub fn at_position(p: Vec3Fx) -> (r: BodyTransform)
        requires
            bounded(p, POS_MAX as int),
        ensures
            r.position == p,
            r.forward == vec3_spec(0, 0, SCALE as int),
            r.up == vec3_spec(0, SCALE as int, 0),
            r.wf(),
    {
        BodyTransform {
            position: p,
            forward: Vec3Fx { x: 0, y: 0, z: SCALE },
            up: Vec3Fx { x: 0, y: SCALE, z: 0 },
        }
    }
}

/// The terrain-follow integrator: persistent velocity, accumulated spin
/// angle, and the last known stick values.
#[derive(Clone, Copy, PartialEq, Eq, Structural, Debug)]
pub struct BallSystem {
    pub velocity: Vec3Fx,
    pub rotation: i64,
    pub left_stick: Vec2Fx,
    pub right_stick: Vec2Fx,
}

impl BallSystem {
    /// The integrator state stays inside the fixed-point ranges the step is
    /// proved for.
    pub open spec fn wf(self) -> bool {
        &&& bounded(self.velocity, VEL_MAX as int)
        &&& 0 <= self.rotation < TAU_FX
        &&& -STICK_MAX <= self.left_stick.x <= STICK_MAX
        &&& -STICK_MAX <= self.left_stick.y <= STICK_MAX
        &&& -STICK_MAX <= self.right_stick.x <= STICK_MAX
        &&& -STICK_MAX <= self.right_stick.y <= STICK_MAX
    }

    /// A fresh integrator: at rest, unspun, sticks centered.
    pub fn new() -> (r: BallSystem)
        ensures
            r.velocity == (Vec3Fx { x: 0i64, y: 0i64, z: 0i64 }),
            r.rotation == 0,
            r.left_stick == (Vec2Fx { x: 0i64, y: 0i64 }),
            r.right_stick == (Vec2Fx { x: 0i64, y: 0i64 }),
            r.wf(),
    {
        BallSystem {
            velocity: Vec3Fx { x: 0, y: 0, z: 0 },
            rotation: 0,
            left_stick: Vec2Fx { x: 0, y: 0 },
            right_stick: Vec2Fx { x: 0, y: 0 },
        }
    }
}

/// Clamp a stick axis value into its unit range.
pub open spec fn clamp_stick_spec(v: int) -> int {
    if v < -STICK_MAX {
        -STICK_MAX as int
    } else if v > STICK_MAX {
        STICK_MAX as int
    } else {
        v
    }
}

/// Clamp a position coordinate into the integrator's range.
pub open spec fn clamp_pos_spec(v: int) -> int {
    if v < -POS_MAX {
        -POS_MAX as int
    } else if v > POS_MAX {
        POS_MAX as int
    } else {
        v
    }
}

/// Clamp a velocity coordinate into the integrator's range.
pub open spec fn clamp_vel_spec(v: int) -> int {
    if v < -VEL_MAX {
        -VEL_MAX as int
    } else if v > VEL_MAX {
        VEL_MAX as int
    } else {
        v
    }
}

/// The effect of one input event on the integrator state and the body's
/// position: a south-button press nudges the body one unit along the first
/// horizontal axis, an axis change updates the persisted stick value, and
/// anything else is ignored.
pub open spec fn apply_event_spec(sys: BallSystem, pos: Vec3Fx, e: InputEvent) -> (
    BallSystem,
    Vec3Fx,
) {
    match e {
        InputEvent::ButtonPressed(PadButton::South) => (
            sys,
            vec3_spec(clamp_pos_spec(pos.x - SCALE), pos.y as int, pos.z as int),
        ),
        InputEvent::AxisChanged(PadAxis::LeftStickX, v) => (
            BallSystem {
                left_stick: Vec2Fx { x: clamp_stick_spec(v as int) as i64, y: sys.left_stick.y },
                ..sys
            },
            pos,
        ),
        InputEvent::AxisChanged(PadAxis::LeftStickY, v) => (
            BallSystem {
                left_stick: Vec2Fx { x: sys.left_stick.x, y: clamp_stick_spec(v as int) as i64 },
                ..sys
            },
            pos,
        ),
        InputEvent::AxisChanged(PadAxis::RightStickX, v) => (
            BallSystem {
                right_stick: Vec2Fx { x: clamp_stick_spec(v as int) as i64, y: sys.right_stick.y },
                ..sys
            },
            pos,
        ),
        InputEvent::AxisChanged(PadAxis::RightStickY, v) => (
            BallSystem {
                right_stick: Vec2Fx { x: sys.right_stick.x, y: clamp_stick_spec(v as int) as i64 },
                ..sys
            },
            pos,
        ),
        _ => (sys, pos),
    }
}

/// The effect of draining a whole event queue in arrival order.
pub open spec fn drain_spec(sys: BallSystem, pos: Vec3Fx, events: Seq<InputEvent>) -> (
    BallSystem,
    Vec3Fx,
)
    decreases events.len(),
{
    if events.len() == 0 {
        (sys, pos)
    } else {
        let st = apply_event_spec(sys, pos, events[0]);
        drain_spec(st.0, st.1, events.skip(1))
    }
}

/// Draining one more event applies it after the prefix.
proof fn lemma_drain_snoc(sys: BallSystem, pos: Vec3Fx, events: Seq<InputEvent>, e: InputEvent)
    ensures
        drain_spec(sys, pos, events.push(e)) == apply_event_spec(
            drain_spec(sys, pos, events).0,
            drain_spec(sys, pos, events).1,
            e,
        ),
    decreases events.len(),
{
    if events.len() == 0 {
        let st = apply_event_spec(sys, pos, e);
        assert(events.push(e)[0] == e);
        assert(events.push(e).skip(1) =~= Seq::<InputEvent>::empty());
        assert(drain_spec(sys, pos, events.push(e)) == drain_spec(
            st.0,
            st.1,
            Seq::<InputEvent>::empty(),
        ));
        assert(drain_spec(st.0, st.1, Seq::<InputEvent>::empty()) == (st.0, st.1));
        assert(drain_spec(sys, pos, events) == (sys, pos));
    } else {
        let st = apply_event_spec(sys, pos, events[0]);
        assert(events.push(e)[0] == events[0]);
        assert(events.push(e).skip(1) =~= events.skip(1).push(e));
        assert(drain_spec(sys, pos, events.push(e)) == drain_spec(
            st.0,
            st.1,
            events.skip(1).push(e),
        ));
        assert(drain_spec(sys, pos, events) == drain_spec(st.0, st.1, events.skip(1)));
        lemma_drain_snoc(st.0, st.1, events.skip(1), e);
    }
}

/// Clamp a stick axis value into its unit range.
fn clamp_stick(v: i64) -> (r: i64)
    ensures
        r == clamp_stick_spec(v as int),
{
    if v < -STICK_MAX {
        -STICK_MAX
    } else if v > STICK_MAX {
        STICK_MAX
    } else {
        v
    }
}

/// Clamp a position coordinate into the integrator's range.
fn clamp_pos(v: i64) -> (r: i64)
    requires
        -0x4000000000000000 <= v <= 0x4000000000000000,
    ensures
        r == clamp_pos_spec(v as int),
{
    if v < -POS_MAX {
        -POS_MAX
    } else if v > POS_MAX {
        POS_MAX
    } else {
        v
    }
}

/// Clamp a velocity coordinate into the integrator's range.
fn clamp_vel(v: i64) -> (r: i64)
    requires
        -0x4000000000000000 <= v <= 0x4000000000000000,
    ensures
        r == clamp_vel_spec(v as int),
{
    if v < -VEL_MAX {
        -VEL_MAX
    } else if v > VEL_MAX {
        VEL_MAX
    } else {
        v
    }
}

impl BallSystem {
    /// Drain the whole event queue in arrival order, updating the stick
    /// state and position exactly once per event.
    fn drain_events(&mut self, pos: &mut Vec3Fx, events: &mut Vec<InputEvent>)
        requires
            old(self).wf(),
            bounded(*old(pos), POS_MAX as int),
        ensures
            (*final(self), *final(pos)) == drain_spec(*old(self), *old(pos), old(events)@),
            final(events)@.len() == 0,
            final(self).wf(),
            bounded(*final(pos), POS_MAX as int),
            final(self).velocity == old(self).velocity,
            final(self).rotation == old(self).rotation,
            final(pos).y == old(pos).y,
            final(pos).z == old(pos).z,
    {
        let ghost sys0 = *self;
        let ghost pos0 = *pos;
        let ghost evs = events@;
        let n = events.len();
        let mut i: usize = 0;
        while i < n
            invariant
                n == evs.len(),
                events@ == evs,
                0 <= i <= n,
                (*self, *pos) == drain_spec(sys0, pos0, evs.take(i as int)),
                sys0.wf(),
                bounded(pos0, POS_MAX as int),
                self.wf(),
                bounded(*pos, POS_MAX as int),
                self.velocity == sys0.velocity,
                self.rotation == sys0.rotation,
                pos.y == pos0.y,
                pos.z == pos0.z,
            decreases n - i,
        {
            proof {
                assert(evs.take(i as int).push(evs[i as int]) =~= evs.take(i as int + 1));
                lemma_drain_snoc(sys0, pos0, evs.take(i as int), evs[i as int]);
            }
            let e = events[i];
            match e {
                InputEvent::ButtonPressed(PadButton::South) => {
                    pos.x = clamp_pos(pos.x - SCALE);
                },
                InputEvent::AxisChanged(PadAxis::LeftStickX, v) => {
                    self.left_stick.x = clamp_stick(v);
                },
                InputEvent::AxisChanged(PadAxis::LeftStickY, v) => {
                    self.left_stick.y = clamp_stick(v);
                },
                InputEvent::AxisChanged(PadAxis::RightStickX, v) => {
                    self.right_stick.x = clamp_stick(v);
                },
                InputEvent::AxisChanged(PadAxis::RightStickY, v) => {
                    self.right_stick.y = clamp_stick(v);
                },
                _ => {},
            }
            i = i + 1;
        }
        proof {
            assert(evs.take(n as int) =~= evs);
        }
        events.clear();
    }
}

/// The accumulated spin after one frame: the left stick's first axis,
/// divided by thirty, wrapped into one turn.
pub open spec fn spin_spec(rotation: int, left_x: int) -> int {
    let r = rotation + tdiv(left_x, 30);
    let r2 = if r >= TAU_FX {
        r - TAU_FX
    } else {
        r
    };
    if r2 < 0 {
        r2 + TAU_FX
    } else {
        r2
    }
}

/// Advance the spin angle by the stick input, wrapped into `[0, 2 pi)`.
fn advance_spin(rotation: i64, left_x: i64) -> (r: i64)
    requires
        0 <= rotation < TAU_FX,
        -STICK_MAX <= left_x <= STICK_MAX,
    ensures
        r == spin_spec(rotation as int, left_x as int),
        0 <= r < TAU_FX,
{
    let step = div_trunc(left_x as i128, 30) as i64;
    proof {
        lemma_tdiv_bound(left_x as int, 30, STICK_MAX as int);
    }
    let r = rotation + step;
    let r2 = if r >= TAU_FX {
        r - TAU_FX
    } else {
        r
    };
    if r2 < 0 {
        r2 + TAU_FX
    } else {
        r2
    }
}

/// The narrow-phase result for one chunk: the box must contain the body and
/// a vertical ray from it must hit the chunk's collision mesh, trying the
/// downward direction first and the upward direction second.
pub open spec fn chunk_hit_spec(ch: Chunk, pos: Vec3Fx) -> Option<RayHit> {
    if !ch.bounding_box.contains_spec(pos) {
        None
    } else {
        let m = ch.collision_mesh.verts@;
        let nt = m.len() as int / 3;
        if best_tri(m, pos, true, nt) is Some {
            Some(hit_spec(m, best_tri(m, pos, true, nt)->Some_0, pos, true))
        } else if best_tri(m, pos, false, nt) is Some {
            Some(hit_spec(m, best_tri(m, pos, false, nt)->Some_0, pos, false))
        } else {
            None
        }
    }
}

/// The broad phase: the first chunk, in stored order from index `k` on,
/// whose loosened box contains the body and whose mesh the vertical ray
/// hits; loosened boxes may overlap, so this order dependence is part of
/// the design.
pub open spec fn first_hit_spec(chunks: Seq<Chunk>, pos: Vec3Fx, k: int) -> Option<(int, RayHit)>
    decreases chunks.len() - k,
{
    if k < 0 || k >= chunks.len() {
        None
    } else {
        match chunk_hit_spec(chunks[k], pos) {
            Some(h) => Some((k, h)),
            None => first_hit_spec(chunks, pos, k + 1),
        }
    }
}

/// Scan the chunks in stored order for the first box-containing,
/// ray-hitting chunk.
fn find_hit(chunks: &Vec<Chunk>, pos: Vec3Fx) -> (r: Option<(usize, RayHit)>)
    requires
        forall|k: int| 0 <= k < chunks@.len() ==> (#[trigger] chunks@[k]).wf(),
        bounded(pos, ORIGIN_MAX as int),
    ensures
        r is None ==> first_hit_spec(chunks@, pos, 0) is None,
        r is Some ==> first_hit_spec(chunks@, pos, 0) == Some(
            (r->Some_0.0 as int, r->Some_0.1),
        ),
{
    let n = chunks.len();
    let mut k: usize = 0;
    while k < n
        invariant
            n == chunks@.len(),
            0 <= k <= n,
            forall|t: int| 0 <= t < chunks@.len() ==> (#[trigger] chunks@[t]).wf(),
            bounded(pos, ORIGIN_MAX as int),
            first_hit_spec(chunks@, pos, 0) == first_hit_spec(chunks@, pos, k as int),
        decreases n - k,
    {
        let ch = &chunks[k];
        if ch.bounding_box.contains_point(&pos) {
            match cast_vertical(&ch.collision_mesh, pos, true) {
                Some(h) => {
                    return Some((k, h));
                },
                None => {
                    match cast_vertical(&ch.collision_mesh, pos, false) {
                        Some(h) => {
                            return Some((k, h));
                        },
                        None => {},
                    }
                },
            }
        }
        k = k + 1;
    }
    None
}

/// The aerodynamic drag force: `-normalize(v) * |v|^2 / 2`, zero below the
/// epsilon speed so a zero vector is never normalized.
pub open spec fn drag_spec(v: Vec3Fx) -> Vec3Fx {
    let m = sqrt_floor(norm_sq_spec(v));
    if m < SPEED_EPS {
        vec3_spec(0, 0, 0)
    } else {
        let ds = tdiv(tdiv(m * m, SCALE as int), 2);
        let u = unitize_spec(v);
        vec3_spec(
            fx_mul_spec(u.x as int, -ds),
            fx_mul_spec(u.y as int, -ds),
            fx_mul_spec(u.z as int, -ds),
        )
    }
}

/// The acceleration `(mass * gravity + drag) / mass`: gravity plus drag
/// divided by the mass.
pub open spec fn accel_spec(v: Vec3Fx) -> Vec3Fx {
    let d = drag_spec(v);
    vec3_spec(
        tdiv(d.x as int, MASS as int),
        GRAVITY_Y + tdiv(d.y as int, MASS as int),
        tdiv(d.z as int, MASS as int),
    )
}

/// Compute the drag force of the current velocity.
fn compute_drag(v: Vec3Fx) -> (r: Vec3Fx)
    requires
        bounded(v, VEL_MAX as int),
    ensures
        r == drag_spec(v),
        bounded(r, 0x10000000000),
{
    let nsq = norm_sq(v);
    let m = crate::fixed::isqrt(nsq);
    proof {
        assert(norm_sq_spec(v) <= 3 * ((VEL_MAX as int) * (VEL_MAX as int)) && norm_sq_spec(v)
            >= 0) by (nonlinear_arith)
            requires
                bounded(v, VEL_MAX as int),
                norm_sq_spec(v) == v.x * v.x + v.y * v.y + v.z * v.z,
        ;
        assert((m as int) <= 0x10000000) by (nonlinear_arith)
            requires
                is_sqrt_floor(m as int, norm_sq_spec(v)),
                norm_sq_spec(v) <= 3 * ((VEL_MAX as int) * (VEL_MAX as int)),
        ;
    }
    if m < SPEED_EPS as u64 {
        Vec3Fx { x: 0, y: 0, z: 0 }
    } else {
        let mm: i64 = m as i64;
        proof {
            assert(0 <= (mm as int) * (mm as int) <= 0x100000000000000) by (nonlinear_arith)
                requires
                    0 <= mm <= 0x10000000,
            ;
            assert(0x10000000000 * (SCALE as int) == 0x100000000000000);
            lemma_tdiv_bound((mm as int) * (mm as int), SCALE as int, 0x10000000000);
            vstd::arithmetic::div_mod::lemma_div_pos_is_pos(
                (mm as int) * (mm as int),
                SCALE as int,
            );
        }
        let sq: i64 = div_trunc((mm as i128) * (mm as i128), SCALE as i128) as i64;
        let ds: i64 = div_trunc(sq as i128, 2) as i64;
        proof {
            assert(ds == tdiv(tdiv((mm as int) * (mm as int), SCALE as int), 2));
            vstd::arithmetic::div_mod::lemma_div_pos_is_pos(sq as int, 2);
            assert(0 <= ds <= 0x8000000000);
        }
        match try_unitize(v) {
            Some(u) => {
                proof {
                    lemma_drag_comp_bound(u.x as int, ds as int);
                    lemma_drag_comp_bound(u.y as int, ds as int);
                    lemma_drag_comp_bound(u.z as int, ds as int);
                }
                Vec3Fx { x: fx_mul(u.x, -ds), y: fx_mul(u.y, -ds), z: fx_mul(u.z, -ds) }
            },
            None => {
                proof {
                    assert((m as int) * (m as int) <= norm_sq_spec(v));
                    assert(m == 0) by (nonlinear_arith)
                        requires
                            (m as int) * (m as int) <= 0,
                            m >= 0,
                    ;
                }
                Vec3Fx { x: 0, y: 0, z: 0 }
            },
        }
    }
}

/// A unit component times the drag scalar stays inside the drag range.
proof fn lemma_drag_comp_bound(u: int, ds: int)
    requires
        -131072 <= u <= 131072,
        0 <= ds <= 0x8000000000,
    ensures
        -(0x10000000000 * (SCALE as int)) <= u * (-ds) <= 0x10000000000 * (SCALE as int),
        -0x10000000000 <= tdiv(u * (-ds), SCALE as int) <= 0x10000000000,
{
    assert(-(0x10000000000 * 65536) <= u * (-ds) <= 0x10000000000 * 65536) by (nonlinear_arith)
        requires
            -131072 <= u <= 131072,
            0 <= ds <= 0x8000000000,
    ;
    lemma_tdiv_bound(u * (-ds), SCALE as int, 0x10000000000);
}

/// Compute the acceleration of the current velocity.
fn compute_accel(v: Vec3Fx) -> (r: Vec3Fx)
    requires
        bounded(v, VEL_MAX as int),
    ensures
        r == accel_spec(v),
        bounded(r, 0x500000000),
{
    let d = compute_drag(v);
    proof {
        assert(0x400000000 * (MASS as int) >= 0x10000000000);
        lemma_tdiv_bound(d.x as int, MASS as int, 0x400000000);
        lemma_tdiv_bound(d.y as int, MASS as int, 0x400000000);
        lemma_tdiv_bound(d.z as int, MASS as int, 0x400000000);
    }
    Vec3Fx {
        x: div_trunc(d.x as i128, MASS as i128) as i64,
        y: GRAVITY_Y + div_trunc(d.y as i128, MASS as i128) as i64,
        z: div_trunc(d.z as i128, MASS as i128) as i64,
    }
}

/// The velocity after one free-fall frame: `v + accel * dt`, kept inside
/// the integrator's range.
pub open spec fn vel_free_spec(v: Vec3Fx, dt: int) -> Vec3Fx {
    let a = accel_spec(v);
    vec3_spec(
        clamp_vel_spec(v.x + fx_mul_spec(a.x as int, dt)),
        clamp_vel_spec(v.y + fx_mul_spec(a.y as int, dt)),
        clamp_vel_spec(v.z + fx_mul_spec(a.z as int, dt)),
    )
}

/// Integrate one free-fall frame.
fn vel_free(v: Vec3Fx, dt: i64) -> (r: Vec3Fx)
    requires
        bounded(v, VEL_MAX as int),
        0 <= dt <= SCALE,
    ensures
        r == vel_free_spec(v, dt as int),
        bounded(r, VEL_MAX as int),
{
    let a = compute_accel(v);
    proof {
        lemma_step_term_bound(a.x as int, dt as int);
        lemma_step_term_bound(a.y as int, dt as int);
        lemma_step_term_bound(a.z as int, dt as int);
    }
    Vec3Fx {
        x: clamp_vel(v.x + fx_mul(a.x, dt)),
        y: clamp_vel(v.y + fx_mul(a.y, dt)),
        z: clamp_vel(v.z + fx_mul(a.z, dt)),
    }
}

/// An acceleration-range value times a frame-length factor keeps its range
/// after the fixed-point rescale.
proof fn lemma_step_term_bound(a: int, f: int)
    requires
        -0x500000000 <= a <= 0x500000000,
        -SCALE <= f <= SCALE,
    ensures
        -(0x500000000 * (SCALE as int)) <= a * f <= 0x500000000 * (SCALE as int),
        -0x500000000 <= tdiv(a * f, SCALE as int) <= 0x500000000,
{
    assert(-(0x500000000 * 65536) <= a * f <= 0x500000000 * 65536) by (nonlinear_arith)
        requires
            -0x500000000 <= a <= 0x500000000,
            -65536 <= f <= 65536,
    ;
    lemma_tdiv_bound(a * f, SCALE as int, 0x500000000);
}

/// The soft-contact easing: `sin(height * pi / 2)` while the body is within
/// the squishy layer, and full strength beyond it.
pub open spec fn squish_spec(height: int) -> int {
    if height <= SQUISHYNESS {
        sin_turn_spec(fx_mul_spec(height, HALF_PI_FX as int))
    } else {
        SCALE as int
    }
}

/// Compute the squish easing of a non-negative height.
fn compute_squish(height: i64) -> (r: i64)
    requires
        0 <= height,
    ensures
        r == squish_spec(height as int),
        -SCALE <= r <= SCALE,
{
    if height <= SQUISHYNESS {
        proof {
            assert(0 <= height * HALF_PI_FX <= 65536 * 102944) by (nonlinear_arith)
                requires
                    0 <= height <= 65536,
            ;
            lemma_tdiv_bound(height * HALF_PI_FX, SCALE as int, 102944);
            assert(tdiv((height as int) * (HALF_PI_FX as int), SCALE as int) >= 0) by {
                vstd::arithmetic::div_mod::lemma_div_pos_is_pos(
                    (height as int) * (HALF_PI_FX as int),
                    SCALE as int,
                );
            }
        }
        let angle = fx_mul(height, HALF_PI_FX);
        fx_sin(angle)
    } else {
        SCALE
    }
}

/// The velocity after one contact frame: the acceleration contribution is
/// scaled by the squish easing.
pub open spec fn vel_contact_spec(v: Vec3Fx, dt: int, height: int) -> Vec3Fx {
    let a = accel_spec(v);
    let sf = squish_spec(height);
    vec3_spec(
        clamp_vel_spec(v.x + fx_mul_spec(fx_mul_spec(a.x as int, sf), dt)),
        clamp_vel_spec(v.y + fx_mul_spec(fx_mul_spec(a.y as int, sf), dt)),
        clamp_vel_spec(v.z + fx_mul_spec(fx_mul_spec(a.z as int, sf), dt)),
    )
}

/// Integrate one contact frame at the given height above the hit point.
fn vel_contact(v: Vec3Fx, dt: i64, height: i64) -> (r: Vec3Fx)
    requires
        bounded(v, VEL_MAX as int),
        0 <= dt <= SCALE,
        0 <= height,
    ensures
        r == vel_contact_spec(v, dt as int, height as int),
        bounded(r, VEL_MAX as int),
{
    let a = compute_accel(v);
    let sf = compute_squish(height);
    proof {
        lemma_step_term_bound(a.x as int, sf as int);
        lemma_step_term_bound(a.y as int, sf as int);
        lemma_step_term_bound(a.z as int, sf as int);
    }
    let ax = fx_mul(a.x, sf);
    let ay = fx_mul(a.y, sf);
    let az = fx_mul(a.z, sf);
    proof {
        lemma_step_term_bound(ax as int, dt as int);
        lemma_step_term_bound(ay as int, dt as int);
        lemma_step_term_bound(az as int, dt as int);
    }
    Vec3Fx {
        x: clamp_vel(v.x + fx_mul(ax, dt)),
        y: clamp_vel(v.y + fx_mul(ay, dt)),
        z: clamp_vel(v.z + fx_mul(az, dt)),
    }
}

/// Rotation of `v` about the unit axis `k` by the angle whose cosine and
/// sine (in fixed point) are `c` and `s`:
/// `v cos + (k x v) sin + k (k . v) (1 - cos)`, with one truncation per
/// component.
pub open spec fn rot_axis_spec(v: Vec3Fx, k: Vec3Fx, c: int, s: int) -> Vec3Fx {
    let cr = cross_spec(k, v);
    let d = dot_spec(k, v);
    let s3 = (SCALE as int) * (SCALE as int) * (SCALE as int);
    vec3_spec(
        tdiv(v.x * c * ((SCALE as int) * (SCALE as int)) + cr.0 * s * SCALE + k.x * d * (SCALE - c), s3),
        tdiv(v.y * c * ((SCALE as int) * (SCALE as int)) + cr.1 * s * SCALE + k.y * d * (SCALE - c), s3),
        tdiv(v.z * c * ((SCALE as int) * (SCALE as int)) + cr.2 * s * SCALE + k.z * d * (SCALE - c), s3),
    )
}

/// Rotate `v` about the unit axis `k` with precomputed fixed-point cosine
/// and sine.
#[verifier::rlimit(30)]
fn rotate_about_axis(v: Vec3Fx, k: Vec3Fx, c: i64, s: i64) -> (r: Vec3Fx)
    requires
        bounded(v, 0x100000),
        bounded(k, 2 * SCALE as int),
        -SCALE <= c <= SCALE,
        -SCALE <= s <= SCALE,
    ensures
        r == rot_axis_spec(v, k, c as int, s as int),
        bounded(r, 0x8000000),
{
    let cr = cross(k, v);
    let d = dot(k, v);
    proof {
        assert(-0x4000000000 <= k.y * v.z - k.z * v.y <= 0x4000000000 && -0x4000000000 <= k.z * v.x
            - k.x * v.z <= 0x4000000000 && -0x4000000000 <= k.x * v.y - k.y * v.x <= 0x4000000000
            && -0x8000000000 <= k.x * v.x + k.y * v.y + k.z * v.z <= 0x8000000000)
            by (nonlinear_arith)
            requires
                -131072 <= k.x <= 131072 && -131072 <= k.y <= 131072 && -131072 <= k.z <= 131072,
                -0x100000 <= v.x <= 0x100000 && -0x100000 <= v.y <= 0x100000 && -0x100000 <= v.z
                    <= 0x100000,
        ;
        lemma_rot_term_bounds(v.x as int, cr.x as int, k.x as int, d as int, c as int, s as int);
        lemma_rot_term_bounds(v.y as int, cr.y as int, k.y as int, d as int, c as int, s as int);
        lemma_rot_term_bounds(v.z as int, cr.z as int, k.z as int, d as int, c as int, s as int);
        assert((SCALE as int) * (SCALE as int) == 0x100000000 && (SCALE as int) * (SCALE as int)
            * (SCALE as int) == 0x1000000000000 && ((SCALE as int) * (SCALE as int)) * (
        SCALE as int) == 0x1000000000000) by (nonlinear_arith);
    }
    let s2: i128 = 0x100000000;
    let s3: i128 = 0x1000000000000;
    let nx: i128 = (v.x as i128) * (c as i128) * s2 + (cr.x as i128) * (s as i128) * (
    SCALE as i128) + (k.x as i128) * (d as i128) * ((SCALE - c) as i128);
    let ny: i128 = (v.y as i128) * (c as i128) * s2 + (cr.y as i128) * (s as i128) * (
    SCALE as i128) + (k.y as i128) * (d as i128) * ((SCALE - c) as i128);
    let nz: i128 = (v.z as i128) * (c as i128) * s2 + (cr.z as i128) * (s as i128) * (
    SCALE as i128) + (k.z as i128) * (d as i128) * ((SCALE - c) as i128);
    let rx = div_trunc(nx, s3) as i64;
    let ry = div_trunc(ny, s3) as i64;
    let rz = div_trunc(nz, s3) as i64;
    Vec3Fx { x: rx, y: ry, z: rz }
}

/// Bounds for the three addends of one rotated component.
proof fn lemma_rot_term_bounds(v: int, cr: int, k: int, d: int, c: int, s: int)
    requires
        -0x100000 <= v <= 0x100000,
        -0x4000000000 <= cr <= 0x4000000000,
        -131072 <= k <= 131072,
        -0x8000000000 <= d <= 0x8000000000,
        -65536 <= c <= 65536,
        -65536 <= s <= 65536,
    ensures
        -0x10000000000 <= v * c <= 0x10000000000,
        -0x40000000000000 <= cr * s <= 0x40000000000000,
        -0x100000000000000 <= k * d <= 0x100000000000000,
        -0x100000000000000000 <= v * c * 0x100000000 <= 0x100000000000000000,
        -0x400000000000000000 <= cr * s * 65536 <= 0x400000000000000000,
        -0x2000000000000000000 <= k * d * (65536 - c) <= 0x2000000000000000000,
        -0x4000000 * 0x1000000000000 <= v * c * 0x100000000 + cr * s * 65536 + k * d * (65536 - c)
            <= 0x4000000 * 0x1000000000000,
        -0x8000000 <= tdiv(v * c * 0x100000000 + cr * s * 65536 + k * d * (65536 - c), 0x1000000000000)
            <= 0x8000000,
{
    assert(-0x10000000000 <= v * c <= 0x10000000000 && -0x100000000000000000 <= v * c
        * 0x100000000 <= 0x100000000000000000) by (nonlinear_arith)
        requires
            -0x100000 <= v <= 0x100000,
            -65536 <= c <= 65536,
    ;
    assert(-0x40000000000000 <= cr * s <= 0x40000000000000 && -0x400000000000000000 <= cr * s
        * 65536 <= 0x400000000000000000) by (nonlinear_arith)
        requires
            -0x4000000000 <= cr <= 0x4000000000,
            -65536 <= s <= 65536,
    ;
    assert(-0x100000000000000 <= k * d <= 0x100000000000000 && -0x2000000000000000000 <= k * d * (
    65536 - c) <= 0x2000000000000000000) by (nonlinear_arith)
        requires
            -131072 <= k <= 131072,
            -0x8000000000 <= d <= 0x8000000000,
            -65536 <= c <= 65536,
    ;
    assert(0x4000000 * 0x1000000000000 == 0x4000000000000000000);
    assert(0x8000000 * 0x1000000000000 == 0x8000000000000000000);
    lemma_tdiv_bound(
        v * c * 0x100000000 + cr * s * 65536 + k * d * (65536 - c),
        0x1000000000000,
        0x8000000,
    );
}

/// Clamp a tangent vector into the small range the drive rotation is proved
/// for (a fixed-point range guard; real tangents are far smaller).
pub open spec fn clamp_tangent_spec(v: Vec3Fx) -> Vec3Fx {
    vec3_spec(clamp_tan_c(v.x as int), clamp_tan_c(v.y as int), clamp_tan_c(v.z as int))
}

pub open spec fn clamp_tan_c(c: int) -> int {
    if c < -0x40000 {
        -0x40000
    } else if c > 0x40000 {
        0x40000
    } else {
        c
    }
}

fn clamp_tangent(v: Vec3Fx) -> (r: Vec3Fx)
    requires
        bounded(v, 0x4000000000000000),
    ensures
        r == clamp_tangent_spec(v),
        bounded(r, 0x40000),
{
    let cx = if v.x < -0x40000 {
        -0x40000
    } else if v.x > 0x40000 {
        0x40000
    } else {
        v.x
    };
    let cy = if v.y < -0x40000 {
        -0x40000
    } else if v.y > 0x40000 {
        0x40000
    } else {
        v.y
    };
    let cz = if v.z < -0x40000 {
        -0x40000
    } else if v.z > 0x40000 {
        0x40000
    } else {
        v.z
    };
    Vec3Fx { x: cx, y: cy, z: cz }
}

/// The global up direction.
pub open spec fn up_spec() -> Vec3Fx {
    vec3_spec(0, SCALE as int, 0)
}

/// The drive direction in contact: the reference tangent `up x normal`
/// rotated by a quarter turn backward about the normal, then by the
/// accumulated spin angle about the normal.
pub open spec fn drive_dir_spec(spin: int, normal: Vec3Fx) -> Vec3Fx {
    let t0 = cross_spec(up_spec(), normal);
    let tangent = vec3_spec(
        tdiv(t0.0, SCALE as int),
        tdiv(t0.1, SCALE as int),
        tdiv(t0.2, SCALE as int),
    );
    let c = cos_turn_spec(PI_FX + HALF_PI_FX);
    let s = sin_turn_spec(PI_FX + HALF_PI_FX);
    let swung = clamp_tangent_spec(rot_axis_spec(tangent, normal, c, s));
    quat_rotate_spec(angle_axis_spec(spin, normal), swung)
}

/// Compute the drive direction from the spin angle and the surface normal.
fn drive_dir(spin: i64, normal: Vec3Fx) -> (r: Vec3Fx)
    requires
        0 <= spin < TAU_FX,
        bounded(normal, 2 * SCALE as int),
    ensures
        r == drive_dir_spec(spin as int, normal),
        bounded(r, 0x2000000),
{
    let up = Vec3Fx { x: 0, y: SCALE, z: 0 };
    let t0 = cross(up, normal);
    proof {
        assert(-0x400000000 <= 65536 * normal.z - 0 * normal.y <= 0x400000000 && -0x400000000 <= 0
            * normal.x - 0 * normal.z <= 0x400000000 && -0x400000000 <= 0 * normal.y - 65536
            * normal.x <= 0x400000000) by (nonlinear_arith)
            requires
                bounded(normal, 2 * SCALE as int),
        ;
    }
    let tangent = Vec3Fx {
        x: div_trunc(t0.x as i128, SCALE as i128) as i64,
        y: div_trunc(t0.y as i128, SCALE as i128) as i64,
        z: div_trunc(t0.z as i128, SCALE as i128) as i64,
    };
    proof {
        lemma_tangent_small(t0.x as int, tangent.x as int);
        lemma_tangent_small(t0.y as int, tangent.y as int);
        lemma_tangent_small(t0.z as int, tangent.z as int);
    }
    let c = fx_cos(PI_FX + HALF_PI_FX);
    let s = fx_sin(PI_FX + HALF_PI_FX);
    let swung = clamp_tangent(rotate_about_axis(tangent, normal, c, s));
    let q = quat_angle_axis(spin, normal);
    quat_rotate(q, swung)
}

/// The reference tangent fits the rotation range: the cross of the up
/// vector with a bounded normal, divided by `SCALE`, is small.
proof fn lemma_tangent_small(t0: int, t: int)
    requires
        -0x400000000 <= t0 <= 0x400000000,
        t == tdiv(t0, SCALE as int),
    ensures
        -0x100000 <= t <= 0x100000,
{
    assert(0x100000 * (SCALE as int) >= 0x400000000);
    lemma_tdiv_bound(t0, SCALE as int, 0x100000);
}

/// Bound on a hit point's coordinates.
pub const HIT_MAX: i64 = 0x200000000;

/// A hit of `chunk_hit_spec` is a genuine ray hit: its point shares the
/// origin's horizontal coordinates and is bounded, and its surface
/// parameters are quantized fractions of the unit interval.
pub open spec fn hit_props(h: RayHit, pos: Vec3Fx) -> bool {
    &&& h.point.x == pos.x
    &&& h.point.z == pos.z
    &&& bounded(h.point, HIT_MAX as int)
    &&& h.u.wf()
    &&& h.v.wf()
    &&& h.u.den == 64
    &&& h.v.den == 64
}

/// What a chunk's narrow phase returns is a well-formed hit.
proof fn lemma_chunk_hit_props(ch: Chunk, pos: Vec3Fx)
    requires
        ch.wf(),
        bounded(pos, POS_MAX as int),
    ensures
        chunk_hit_spec(ch, pos) is Some ==> hit_props(chunk_hit_spec(ch, pos)->Some_0, pos),
{
    let m = ch.collision_mesh.verts@;
    let nt = m.len() as int / 3;
    if ch.bounding_box.contains_spec(pos) {
        crate::raycast::lemma_best_tri_hit(m, pos, true, nt);
        crate::raycast::lemma_best_tri_hit(m, pos, false, nt);
        if best_tri(m, pos, true, nt) is Some {
            let b = best_tri(m, pos, true, nt)->Some_0;
            crate::raycast::lemma_hit_toi_fits(m, b, pos, true);
        } else if best_tri(m, pos, false, nt) is Some {
            let b = best_tri(m, pos, false, nt)->Some_0;
            crate::raycast::lemma_hit_toi_fits(m, b, pos, false);
        }
    }
}

/// What the broad phase returns is a well-formed hit of an in-range chunk.
proof fn lemma_first_hit_props(chunks: Seq<Chunk>, pos: Vec3Fx, k: int)
    requires
        forall|t: int| 0 <= t < chunks.len() ==> (#[trigger] chunks[t]).wf(),
        bounded(pos, POS_MAX as int),
    ensures
        first_hit_spec(chunks, pos, k) is Some ==> {
            let ch = first_hit_spec(chunks, pos, k)->Some_0;
            &&& k <= ch.0 < chunks.len()
            &&& hit_props(ch.1, pos)
            &&& chunk_hit_spec(chunks[ch.0], pos) == Some(ch.1)
        },
    decreases chunks.len() - k,
{
    if 0 <= k < chunks.len() {
        lemma_chunk_hit_props(chunks[k], pos);
        if chunk_hit_spec(chunks[k], pos) is None {
            lemma_first_hit_props(chunks, pos, k + 1);
        }
    }
}

/// The body's state after a frame in contact with a chunk at the given
/// hit: velocity integration softened by the squish easing (only while the
/// body is at or above the hit), the unconditional floor clamp, the
/// downhill drive nudge, and the orientation looking along the drive
/// direction with the global up.
pub open spec fn contact_spec(
    sys: BallSystem,
    tr: BodyTransform,
    ch: Chunk,
    h: RayHit,
    dt: int,
) -> (BallSystem, BodyTransform) {
    let n = normal_spec(ch.patch.controls@, BEZIER_SMOOTHNESS as int, h.u, h.v);
    let height = tr.position.y - h.point.y;
    let v2 = if height >= 0 {
        vel_contact_spec(sys.velocity, dt, height)
    } else {
        sys.velocity
    };
    let pos2 = if height >= 0 {
        vec3_spec(tr.position.x + v2.x, tr.position.y + v2.y, tr.position.z + v2.z)
    } else {
        tr.position
    };
    let pos3 = if pos2.y <= h.point.y {
        vec3_spec(pos2.x as int, h.point.y as int, pos2.z as int)
    } else {
        pos2
    };
    let dir = drive_dir_spec(sys.rotation as int, n);
    let s1 = vec3_spec(
        fx_mul_spec(dir.x as int, DRIVE_SCALE as int),
        fx_mul_spec(dir.y as int, DRIVE_SCALE as int),
        fx_mul_spec(dir.z as int, DRIVE_SCALE as int),
    );
    let s2 = vec3_spec(
        fx_mul_spec(s1.x as int, -dir.y as int),
        fx_mul_spec(s1.y as int, -dir.y as int),
        fx_mul_spec(s1.z as int, -dir.y as int),
    );
    let pos4 = vec3_spec(pos3.x + s2.x, pos3.y + s2.y, pos3.z + s2.z);
    let target = vec3_spec(h.point.x + dir.x, h.point.y + dir.y, h.point.z + dir.z);
    let dvec = vec3_spec(target.x - pos4.x, target.y - pos4.y, target.z - pos4.z);
    let fwd = if norm_sq_spec(dvec) == 0 {
        tr.forward
    } else {
        unitize_spec(dvec)
    };
    (
        BallSystem { velocity: v2, ..sys },
        BodyTransform { position: pos4, forward: fwd, up: up_spec() },
    )
}

/// Apply one contact frame.
#[verifier::rlimit(60)]
fn contact_apply(
    sys: &BallSystem,
    tr: &BodyTransform,
    ch: &Chunk,
    h: &RayHit,
    dt: i64,
) -> (r: (BallSystem, BodyTransform))
    requires
        sys.wf(),
        tr.wf(),
        ch.wf(),
        hit_props(*h, tr.position),
        0 <= dt <= SCALE,
    ensures
        r == contact_spec(*sys, *tr, *ch, *h, dt as int),
        r.0.wf(),
        bounded(r.1.position, 0x800000000),
        bounded(r.1.forward, 2 * SCALE as int),
        r.1.up == up_spec(),
        r.0.rotation == sys.rotation,
        r.0.left_stick == sys.left_stick,
        r.0.right_stick == sys.right_stick,
{
    let n = ch.patch.normal(BEZIER_SMOOTHNESS, h.u, h.v);
    let height = tr.position.y - h.point.y;
    let (v2, pos2) = if height >= 0 {
        let v2 = vel_contact(sys.velocity, dt, height);
        (
            v2,
            Vec3Fx {
                x: tr.position.x + v2.x,
                y: tr.position.y + v2.y,
                z: tr.position.z + v2.z,
            },
        )
    } else {
        (sys.velocity, tr.position)
    };
    let pos3 = if pos2.y <= h.point.y {
        Vec3Fx { x: pos2.x, y: h.point.y, z: pos2.z }
    } else {
        pos2
    };
    let dir = drive_dir(sys.rotation, n);
    proof {
        lemma_nudge_bounds(dir.x as int, dir.y as int);
        lemma_nudge_bounds(dir.y as int, dir.y as int);
        lemma_nudge_bounds(dir.z as int, dir.y as int);
    }
    let s1x = fx_mul(dir.x, DRIVE_SCALE);
    let s1y = fx_mul(dir.y, DRIVE_SCALE);
    let s1z = fx_mul(dir.z, DRIVE_SCALE);
    let s2x = fx_mul(s1x, -dir.y);
    let s2y = fx_mul(s1y, -dir.y);
    let s2z = fx_mul(s1z, -dir.y);
    let pos4 = Vec3Fx { x: pos3.x + s2x, y: pos3.y + s2y, z: pos3.z + s2z };
    let target = Vec3Fx { x: h.point.x + dir.x, y: h.point.y + dir.y, z: h.point.z + dir.z };
    let dvec = Vec3Fx { x: target.x - pos4.x, y: target.y - pos4.y, z: target.z - pos4.z };
    let fwd = match try_unitize(dvec) {
        Some(u) => u,
        None => tr.forward,
    };
    let up = Vec3Fx { x: 0, y: SCALE, z: 0 };
    (
        BallSystem { velocity: v2, ..*sys },
        BodyTransform { position: pos4, forward: fwd, up },
    )
}

/// Bounds of the downhill nudge factors.
proof fn lemma_nudge_bounds(dc: int, dy: int)
    requires
        -0x2000000 <= dc <= 0x2000000,
        -0x2000000 <= dy <= 0x2000000,
    ensures
        -(0x800000 * (SCALE as int)) <= dc * DRIVE_SCALE <= 0x800000 * (SCALE as int),
        -0x800000 <= fx_mul_spec(dc, DRIVE_SCALE as int) <= 0x800000,
        -(0x100000000 * (SCALE as int)) <= fx_mul_spec(dc, DRIVE_SCALE as int) * (-dy)
            <= 0x100000000 * (SCALE as int),
        -0x100000000 <= fx_mul_spec(fx_mul_spec(dc, DRIVE_SCALE as int), -dy) <= 0x100000000,
{
    assert(-(0x800000 * 65536) <= dc * DRIVE_SCALE <= 0x800000 * 65536) by (nonlinear_arith)
        requires
            -0x2000000 <= dc <= 0x2000000,
    ;
    lemma_tdiv_bound(dc * DRIVE_SCALE, SCALE as int, 0x800000);
    let s1 = fx_mul_spec(dc, DRIVE_SCALE as int);
    assert(-(0x100000000 * 65536) <= s1 * (-dy) <= 0x100000000 * 65536) by (nonlinear_arith)
        requires
            -0x800000 <= s1 <= 0x800000,
            -0x2000000 <= dy <= 0x2000000,
    ;
    lemma_tdiv_bound(s1 * (-dy), SCALE as int, 0x100000000);
}

/// The whole frame step: drain the input queue, advance the spin angle,
/// find the first box-containing ray-hitting chunk, integrate (in contact
/// with the squish easing and floor clamp and orientation, in free fall
/// plainly), apply the unconditional horizontal drive, and keep the
/// position in range.
pub open spec fn step_spec(
    sys: BallSystem,
    tr: BodyTransform,
    chunks: Seq<Chunk>,
    events: Seq<InputEvent>,
    dt: int,
) -> (BallSystem, BodyTransform) {
    let d = drain_spec(sys, tr.position, events);
    let sys1 = d.0;
    let pos1 = d.1;
    let sys2 = BallSystem {
        rotation: spin_spec(sys1.rotation as int, sys1.left_stick.x as int) as i64,
        ..sys1
    };
    let tr1 = BodyTransform { position: pos1, forward: tr.forward, up: tr.up };
    let st = match first_hit_spec(chunks, pos1, 0) {
        None => {
            let v2 = vel_free_spec(sys2.velocity, dt);
            (
                BallSystem { velocity: v2, ..sys2 },
                BodyTransform {
                    position: vec3_spec(pos1.x + v2.x, pos1.y + v2.y, pos1.z + v2.z),
                    forward: tr.forward,
                    up: tr.up,
                },
            )
        },
        Some(ci) => contact_spec(sys2, tr1, chunks[ci.0], ci.1, dt),
    };
    let sys3 = st.0;
    let tr3 = st.1;
    let dx = fx_mul_spec(fx_mul_spec(sys3.right_stick.x as int, TOP_SPEED as int), dt);
    let dz = -fx_mul_spec(fx_mul_spec(sys3.right_stick.y as int, TOP_SPEED as int), dt);
    let posf = vec3_spec(
        clamp_pos_spec(tr3.position.x + dx),
        clamp_pos_spec(tr3.position.y as int),
        clamp_pos_spec(tr3.position.z + dz),
    );
    (sys3, BodyTransform { position: posf, forward: tr3.forward, up: tr3.up })
}

impl BallSystem {
    /// Step the controlled body by one frame: drain the event queue, scan
    /// the chunks, integrate, clamp and orient.  The whole outcome is the
    /// pure function `step_spec` of the inputs.
    #[verifier::rlimit(100)]
    pub fn run(
        &mut self,
        transform: &mut BodyTransform,
        chunks: &Vec<Chunk>,
        events: &mut Vec<InputEvent>,
        dt: i64,
    )
        requires
            old(self).wf(),
            old(transform).wf(),
            forall|k: int| 0 <= k < chunks@.len() ==> (#[trigger] chunks@[k]).wf(),
            0 <= dt <= SCALE,
        ensures
            final(events)@.len() == 0,
            (*final(self), *final(transform)) == step_spec(
                *old(self),
                *old(transform),
                chunks@,
                old(events)@,
                dt as int,
            ),
            final(self).wf(),
            final(transform).wf(),
    {
        let ghost sys0 = *self;
        let ghost tr0 = *transform;
        let ghost evs = events@;
        let mut pos = transform.position;
        self.drain_events(&mut pos, events);
        let ghost pos1 = pos;
        self.rotation = advance_spin(self.rotation, self.left_stick.x);
        let ghost sys2 = *self;
        let hit = find_hit(chunks, pos);
        proof {
            lemma_first_hit_props(chunks@, pos, 0);
        }
        let (sys3, tr3): (BallSystem, BodyTransform) = match hit {
            None => {
                let v2 = vel_free(self.velocity, dt);
                (
                    BallSystem { velocity: v2, ..*self },
                    BodyTransform {
                        position: Vec3Fx { x: pos.x + v2.x, y: pos.y + v2.y, z: pos.z + v2.z },
                        forward: transform.forward,
                        up: transform.up,
                    },
                )
            },
            Some((ci, h)) => {
                let tr1 = BodyTransform {
                    position: pos,
                    forward: transform.forward,
                    up: transform.up,
                };
                contact_apply(self, &tr1, &chunks[ci], &h, dt)
            },
        };
        let dx = fx_mul(fx_mul(sys3.right_stick.x, TOP_SPEED), dt);
        let dz = -fx_mul(fx_mul(sys3.right_stick.y, TOP_SPEED), dt);
        proof {
            lemma_drive_bounds(sys3.right_stick.x as int, dt as int);
            lemma_drive_bounds(sys3.right_stick.y as int, dt as int);
        }
        let posf = Vec3Fx {
            x: clamp_pos(tr3.position.x + dx),
            y: clamp_pos(tr3.position.y),
            z: clamp_pos(tr3.position.z + dz),
        };
        *self = sys3;
        *transform = BodyTransform { position: posf, forward: tr3.forward, up: tr3.up };
    }
}

/// Over a chunk whose surface normal at the hit is vertical (as a flat
/// horizontal chunk yields), the drive direction vanishes: the reference
/// tangent `up x normal` is zero, so no downhill nudge is applied.
proof fn lemma_vertical_normal_no_drive(spin: int, n: Vec3Fx)
    requires
        n.x == 0,
        n.z == 0,
    ensures
        drive_dir_spec(spin, n) == vec3_spec(0, 0, 0),
{
    let t0 = cross_spec(up_spec(), n);
    assert(t0.0 == 0 && t0.1 == 0 && t0.2 == 0) by (nonlinear_arith)
        requires
            t0 == cross_spec(up_spec(), n),
            t0.0 == (up_spec().y as int) * n.z - (up_spec().z as int) * n.y,
            t0.1 == (up_spec().z as int) * n.x - (up_spec().x as int) * n.z,
            t0.2 == (up_spec().x as int) * n.y - (up_spec().y as int) * n.x,
            up_spec().x == 0 && up_spec().z == 0,
            n.x == 0 && n.z == 0,
    ;
    assert(tdiv(0, SCALE as int) == 0);
    let tangent = vec3_spec(0, 0, 0);
    let c = cos_turn_spec(PI_FX + HALF_PI_FX);
    let s = sin_turn_spec(PI_FX + HALF_PI_FX);
    lemma_rot_axis_zero(n, c, s);
    let swung = rot_axis_spec(tangent, n, c, s);
    assert(clamp_tangent_spec(swung) == vec3_spec(0, 0, 0));
    let q = angle_axis_spec(spin, n);
    lemma_quat_rotate_zero(q);
}

/// Rotating the zero vector about any axis gives the zero vector.
proof fn lemma_rot_axis_zero(k: Vec3Fx, c: int, s: int)
    ensures
        rot_axis_spec(vec3_spec(0, 0, 0), k, c, s) == vec3_spec(0, 0, 0),
{
    let z = vec3_spec(0, 0, 0);
    let cr = cross_spec(k, z);
    let d = dot_spec(k, z);
    assert(cr.0 == 0 && cr.1 == 0 && cr.2 == 0 && d == 0) by (nonlinear_arith)
        requires
            cr.0 == k.y * z.z - k.z * z.y,
            cr.1 == k.z * z.x - k.x * z.z,
            cr.2 == k.x * z.y - k.y * z.x,
            d == k.x * z.x + k.y * z.y + k.z * z.z,
            z.x == 0 && z.y == 0 && z.z == 0,
    ;
    let s3 = (SCALE as int) * (SCALE as int) * (SCALE as int);
    assert(z.x * c * ((SCALE as int) * (SCALE as int)) + cr.0 * s * SCALE + k.x * d * (SCALE - c)
        == 0 && z.y * c * ((SCALE as int) * (SCALE as int)) + cr.1 * s * SCALE + k.y * d * (SCALE
        - c) == 0 && z.z * c * ((SCALE as int) * (SCALE as int)) + cr.2 * s * SCALE + k.z * d * (
    SCALE - c) == 0) by (nonlinear_arith)
        requires
            cr.0 == 0 && cr.1 == 0 && cr.2 == 0 && d == 0,
            z.x == 0 && z.y == 0 && z.z == 0,
    ;
    assert((SCALE as int) * (SCALE as int) * (SCALE as int) == 0x1000000000000)
        by (nonlinear_arith);
    assert(tdiv(0, s3) == 0);
}

/// Rotating the zero vector by any quaternion gives the zero vector.
proof fn lemma_quat_rotate_zero(q: QuatFx)
    ensures
        quat_rotate_spec(q, vec3_spec(0, 0, 0)) == vec3_spec(0, 0, 0),
{
    let z = vec3_spec(0, 0, 0);
    let c1x = q.y * z.z - q.z * z.y;
    let c1y = q.z * z.x - q.x * z.z;
    let c1z = q.x * z.y - q.y * z.x;
    assert(c1x == 0 && c1y == 0 && c1z == 0) by (nonlinear_arith)
        requires
            c1x == q.y * z.z - q.z * z.y,
            c1y == q.z * z.x - q.x * z.z,
            c1z == q.x * z.y - q.y * z.x,
            z.x == 0 && z.y == 0 && z.z == 0,
    ;
    let c2x = q.y * c1z - q.z * c1y;
    let c2y = q.z * c1x - q.x * c1z;
    let c2z = q.x * c1y - q.y * c1x;
    assert(c2x == 0 && c2y == 0 && c2z == 0 && 2 * (q.w * c1x + c2x) == 0 && 2 * (q.w * c1y + c2y)
        == 0 && 2 * (q.w * c1z + c2z) == 0) by (nonlinear_arith)
        requires
            c1x == 0 && c1y == 0 && c1z == 0,
            c2x == q.y * c1z - q.z * c1y,
            c2y == q.z * c1x - q.x * c1z,
            c2z == q.x * c1y - q.y * c1x,
    ;
    assert(tdiv(0, SCALE * SCALE) == 0) by {
        assert((SCALE as int) * (SCALE as int) == 0x100000000) by (nonlinear_arith);
    }
}

/// The hard floor clamp: whenever the frame is in contact and the surface
/// normal at the hit is vertical (which `lemma_level_patch_normal_vertical`
/// gives for every flat chunk), the body ends the frame at or above the
/// hit point along the contact axis — the squish easing never lets the
/// floor give way.
pub proof fn lemma_contact_floor(sys: BallSystem, tr: BodyTransform, ch: Chunk, h: RayHit, dt: int)
    requires
        ({
            let n = normal_spec(ch.patch.controls@, BEZIER_SMOOTHNESS as int, h.u, h.v);
            n.x == 0 && n.z == 0
        }),
    ensures
        contact_spec(sys, tr, ch, h, dt).1.position.y >= h.point.y,
{
    let n = normal_spec(ch.patch.controls@, BEZIER_SMOOTHNESS as int, h.u, h.v);
    lemma_vertical_normal_no_drive(sys.rotation as int, n);
    assert(tdiv(0, SCALE as int) == 0);
    assert(fx_mul_spec(0, -(drive_dir_spec(sys.rotation as int, n).y as int)) == 0);
}

/// Rest convergence, the resting half: a body standing exactly on a flat
/// chunk's surface with zero velocity and centered sticks stays exactly at
/// the surface height with zero velocity, frame after frame.
pub proof fn lemma_rest_stays(
    sys: BallSystem,
    tr: BodyTransform,
    chunks: Seq<Chunk>,
    ci: int,
    h: RayHit,
    dt: int,
)
    requires
        sys.wf(),
        tr.wf(),
        0 <= ci < chunks.len(),
        first_hit_spec(chunks, tr.position, 0) == Some((ci, h)),
        ({
            let n = normal_spec(chunks[ci].patch.controls@, BEZIER_SMOOTHNESS as int, h.u, h.v);
            n.x == 0 && n.z == 0
        }),
        sys.velocity == vec3_spec(0, 0, 0),
        sys.right_stick.x == 0,
        sys.right_stick.y == 0,
        tr.position.y == h.point.y,
        -POS_MAX < h.point.y < POS_MAX,
    ensures
        step_spec(sys, tr, chunks, Seq::<InputEvent>::empty(), dt).1.position.y == h.point.y,
        step_spec(sys, tr, chunks, Seq::<InputEvent>::empty(), dt).0.velocity == vec3_spec(
            0,
            0,
            0,
        ),
{
    assert(drain_spec(sys, tr.position, Seq::<InputEvent>::empty()) == (sys, tr.position));
    let sys2 = BallSystem {
        rotation: spin_spec(sys.rotation as int, sys.left_stick.x as int) as i64,
        ..sys
    };
    let tr1 = BodyTransform { position: tr.position, forward: tr.forward, up: tr.up };
    let n = normal_spec(chunks[ci].patch.controls@, BEZIER_SMOOTHNESS as int, h.u, h.v);
    // zero velocity: no drag, and the squish easing starts at zero
    let v = sys.velocity;
    assert(norm_sq_spec(v) == 0);
    crate::fixed::lemma_sqrt_floor(0);
    let m = sqrt_floor(0);
    assert(m == 0) by (nonlinear_arith)
        requires
            is_sqrt_floor(m, 0),
    ;
    assert(drag_spec(v) == vec3_spec(0, 0, 0));
    assert(tdiv(0, MASS as int) == 0);
    assert(accel_spec(v) == vec3_spec(0, GRAVITY_Y as int, 0));
    // height is zero, so squish is sin(0) == 0 and the easing factor is zero
    let height = tr.position.y - h.point.y;
    assert(height == 0);
    assert(fx_mul_spec(0, HALF_PI_FX as int) == 0) by {
        assert(tdiv(0, SCALE as int) == 0);
    }
    assert(crate::fixed::sin_core_spec(0) == 0) by {
        assert(0 * (PI_FX - 0) == 0) by (nonlinear_arith);
        assert(16 * 0 * SCALE == 0) by (nonlinear_arith);
        assert(5 * PI_FX * PI_FX - 4 * 0 > 0) by (nonlinear_arith);
        crate::fixed::lemma_tdiv_bound(0, 5 * (PI_FX as int) * (PI_FX as int) - 4 * 0, 0);
    }
    assert(squish_spec(0) == 0);
    let a = accel_spec(v);
    assert(fx_mul_spec(a.x as int, 0) == 0 && fx_mul_spec(a.y as int, 0) == 0 && fx_mul_spec(
        a.z as int,
        0,
    ) == 0) by {
        assert(a.x * 0 == 0 && a.y * 0 == 0 && a.z * 0 == 0) by (nonlinear_arith);
        assert(tdiv(0, SCALE as int) == 0);
    }
    assert(fx_mul_spec(0, dt) == 0) by {
        assert(0 * dt == 0) by (nonlinear_arith);
        assert(tdiv(0, SCALE as int) == 0);
    }
    assert(vel_contact_spec(v, dt, 0) == vec3_spec(0, 0, 0));
    lemma_vertical_normal_no_drive(sys2.rotation as int, n);
    assert(fx_mul_spec(0, DRIVE_SCALE as int) == 0) by {
        assert(tdiv(0, SCALE as int) == 0);
    }
    assert(fx_mul_spec(0, -(drive_dir_spec(sys2.rotation as int, n).y as int)) == 0) by {
        assert(tdiv(0, SCALE as int) == 0);
    }
    let st = contact_spec(sys2, tr1, chunks[ci], h, dt);
    assert(st.1.position.y == h.point.y);
    assert(st.0.velocity == vec3_spec(0, 0, 0));
    // centered right stick: the horizontal drive is zero and the clamp is idle
    assert(fx_mul_spec(0, TOP_SPEED as int) == 0) by {
        assert(tdiv(0, SCALE as int) == 0);
    }
    assert(clamp_pos_spec(h.point.y as int) == h.point.y);
}

/// Rest convergence, the descending half: a slowly sinking body over a
/// flat chunk keeps sinking by at least its vertical speed every frame
/// until the floor clamp snaps it to the surface — together with the floor
/// clamp this bounds the number of frames to rest by the initial height.
pub proof fn lemma_contact_descends(
    sys: BallSystem,
    tr: BodyTransform,
    chunks: Seq<Chunk>,
    ci: int,
    h: RayHit,
    dt: int,
)
    requires
        sys.wf(),
        tr.wf(),
        0 <= ci < chunks.len(),
        first_hit_spec(chunks, tr.position, 0) == Some((ci, h)),
        ({
            let n = normal_spec(chunks[ci].patch.controls@, BEZIER_SMOOTHNESS as int, h.u, h.v);
            n.x == 0 && n.z == 0
        }),
        norm_sq_spec(sys.velocity) < SPEED_EPS * SPEED_EPS,
        sys.velocity.y <= -1,
        sys.right_stick.x == 0,
        sys.right_stick.y == 0,
        -POS_MAX < h.point.y < POS_MAX,
        0 <= dt <= SCALE,
    ensures
        ({
            let ny = step_spec(sys, tr, chunks, Seq::<InputEvent>::empty(), dt).1.position.y;
            ny == h.point.y || ny <= tr.position.y - 1
        }),
{
    assert(drain_spec(sys, tr.position, Seq::<InputEvent>::empty()) == (sys, tr.position));
    let sys2 = BallSystem {
        rotation: spin_spec(sys.rotation as int, sys.left_stick.x as int) as i64,
        ..sys
    };
    let tr1 = BodyTransform { position: tr.position, forward: tr.forward, up: tr.up };
    let n = normal_spec(chunks[ci].patch.controls@, BEZIER_SMOOTHNESS as int, h.u, h.v);
    let v = sys.velocity;
    let nsq = norm_sq_spec(v);
    assert(nsq >= 0) by (nonlinear_arith)
        requires
            nsq == v.x * v.x + v.y * v.y + v.z * v.z,
    ;
    crate::fixed::lemma_sqrt_floor(nsq);
    let m = sqrt_floor(nsq);
    assert(m < SPEED_EPS) by (nonlinear_arith)
        requires
            is_sqrt_floor(m, nsq),
            nsq < SPEED_EPS * SPEED_EPS,
    ;
    assert(drag_spec(v) == vec3_spec(0, 0, 0));
    assert(tdiv(0, MASS as int) == 0);
    assert(accel_spec(v) == vec3_spec(0, GRAVITY_Y as int, 0));
    // the easing factor lies in the unit range, so the vertical update is a
    // non-positive nudge of at most one gravity increment
    let height = tr.position.y - h.point.y;
    if height >= 0 {
        let sq = squish_spec(height as int);
        assert(0 <= sq <= SCALE) by {
            if height <= SQUISHYNESS {
                assert(0 <= (height as int) * HALF_PI_FX <= 65536 * 102944) by (nonlinear_arith)
                    requires
                        0 <= height <= 65536,
                ;
                lemma_tdiv_bound((height as int) * HALF_PI_FX, SCALE as int, 102944);
                vstd::arithmetic::div_mod::lemma_div_pos_is_pos(
                    (height as int) * (HALF_PI_FX as int),
                    SCALE as int,
                );
                crate::fixed::lemma_sin_core_range(
                    fx_mul_spec(height as int, HALF_PI_FX as int),
                );
            }
        }
        let sf = sq;
        let gy = fx_mul_spec(GRAVITY_Y as int, sf);
        assert(-642 <= gy <= 0) by {
            assert(-642 * (SCALE as int) <= GRAVITY_Y * sf <= 0) by (nonlinear_arith)
                requires
                    0 <= sf <= SCALE,
            ;
            lemma_tdiv_bound(GRAVITY_Y * sf, SCALE as int, 642);
            assert(tdiv(GRAVITY_Y * sf, SCALE as int) <= 0) by {
                if GRAVITY_Y * sf < 0 {
                    vstd::arithmetic::div_mod::lemma_div_pos_is_pos(
                        -(GRAVITY_Y * sf),
                        SCALE as int,
                    );
                } else {
                    assert(GRAVITY_Y * sf == 0);
                    assert(tdiv(0, SCALE as int) == 0);
                }
            }
        }
        let dy = fx_mul_spec(gy, dt);
        assert(-642 <= dy <= 0) by {
            assert(-642 * (SCALE as int) <= gy * dt <= 0) by (nonlinear_arith)
                requires
                    -642 <= gy <= 0,
                    0 <= dt <= 65536,
            ;
            lemma_tdiv_bound(gy * dt, SCALE as int, 642);
            assert(tdiv(gy * dt, SCALE as int) <= 0) by {
                if gy * dt < 0 {
                    vstd::arithmetic::div_mod::lemma_div_pos_is_pos(-(gy * dt), SCALE as int);
                } else {
                    assert(gy * dt == 0);
                    assert(tdiv(0, SCALE as int) == 0);
                }
            }
        }
        // the x and z accelerations vanish entirely
        assert(fx_mul_spec(fx_mul_spec(0, sf), dt) == 0) by {
            assert(0 * sf == 0 && 0 * dt == 0) by (nonlinear_arith);
            assert(tdiv(0, SCALE as int) == 0);
        }
        // the velocity stays small, so the range clamp is idle
        assert(-66 < v.y) by (nonlinear_arith)
            requires
                nsq == v.x * v.x + v.y * v.y + v.z * v.z,
                nsq < SPEED_EPS * SPEED_EPS,
                SPEED_EPS == 66,
        ;
        let v2 = vel_contact_spec(v, dt, height as int);
        assert(v2.y == v.y + dy && v2.y <= -1);
    }
    lemma_vertical_normal_no_drive(sys2.rotation as int, n);
    assert(tdiv(0, SCALE as int) == 0);
    assert(fx_mul_spec(0, DRIVE_SCALE as int) == 0);
    assert(fx_mul_spec(0, -(drive_dir_spec(sys2.rotation as int, n).y as int)) == 0);
    assert(fx_mul_spec(0, TOP_SPEED as int) == 0) by {
        assert(0 * TOP_SPEED == 0) by (nonlinear_arith);
    }
    let st = contact_spec(sys2, tr1, chunks[ci], h, dt);
    assert(st.1.position.y == h.point.y || st.1.position.y <= tr.position.y - 1);
    assert(st.1.position.y >= h.point.y);
    assert(clamp_pos_spec(st.1.position.y as int) == st.1.position.y);
}

/// Free-fall monotonicity: with no containing chunk, an empty input queue
/// and a speed still well below the drag equilibrium (under a quarter unit
/// per frame, where gravity dominates the drag term), the vertical
/// velocity strictly decreases over the frame, for any frame long enough
/// that the net vertical increment does not truncate to zero.
pub proof fn lemma_free_fall_monotonic(
    sys: BallSystem,
    tr: BodyTransform,
    chunks: Seq<Chunk>,
    dt: int,
)
    requires
        sys.wf(),
        first_hit_spec(chunks, tr.position, 0) is None,
        norm_sq_spec(sys.velocity) < 0x10000000,
        107 <= dt <= SCALE,
        sys.velocity.y - 668 >= -VEL_MAX,
    ensures
        step_spec(sys, tr, chunks, Seq::<InputEvent>::empty(), dt).0.velocity.y
            < sys.velocity.y,
{
    assert(drain_spec(sys, tr.position, Seq::<InputEvent>::empty()) == (sys, tr.position));
    let v = sys.velocity;
    let nsq = norm_sq_spec(v);
    assert(nsq >= 0) by (nonlinear_arith)
        requires
            nsq == v.x * v.x + v.y * v.y + v.z * v.z,
    ;
    crate::fixed::lemma_sqrt_floor(nsq);
    let m = sqrt_floor(nsq);
    assert(0 <= m < 16384) by (nonlinear_arith)
        requires
            is_sqrt_floor(m, nsq),
            nsq < 0x10000000,
    ;
    let a = accel_spec(v);
    // gravity dominates: the vertical acceleration stays in [-668, -616]
    if m < SPEED_EPS {
        assert(drag_spec(v) == vec3_spec(0, 0, 0));
        assert(tdiv(0, MASS as int) == 0);
        assert(a == vec3_spec(0, GRAVITY_Y as int, 0));
    } else {
        // the drag scalar is at most 2048
        let q1 = tdiv(m * m, SCALE as int);
        assert(0 <= m * m <= 4096 * (SCALE as int)) by (nonlinear_arith)
            requires
                0 <= m < 16384,
        ;
        lemma_tdiv_bound(m * m, SCALE as int, 4096);
        vstd::arithmetic::div_mod::lemma_div_pos_is_pos(m * m, SCALE as int);
        let ds = tdiv(q1, 2);
        assert(4096 == 2048 * 2);
        lemma_tdiv_bound(q1, 2, 2048);
        vstd::arithmetic::div_mod::lemma_div_pos_is_pos(q1, 2);
        assert(0 <= ds <= 2048);
        // each unit component is at most one fixed-point unit
        assert(-m <= v.y <= m) by (nonlinear_arith)
            requires
                is_sqrt_floor(m, nsq),
                nsq == v.x * v.x + v.y * v.y + v.z * v.z,
                m >= 1,
        ;
        let uy = tdiv(v.y * SCALE, m);
        assert(-((SCALE as int) * m) <= v.y * SCALE <= (SCALE as int) * m) by (nonlinear_arith)
            requires
                -m <= v.y <= m,
        ;
        lemma_tdiv_bound(v.y * SCALE, m, SCALE as int);
        assert(unitize_spec(v).y == uy);
        // so the vertical drag force is at most 2048, and its mass share 26
        let dragy = fx_mul_spec(uy as int, -ds);
        assert(-(2048 * (SCALE as int)) <= uy * (-ds) <= 2048 * (SCALE as int))
            by (nonlinear_arith)
            requires
                -SCALE <= uy <= SCALE,
                0 <= ds <= 2048,
        ;
        lemma_tdiv_bound(uy * (-ds), SCALE as int, 2048);
        assert(drag_spec(v).y == dragy);
        assert(26 * (MASS as int) == 2080);
        lemma_tdiv_bound(dragy, MASS as int, 26);
        assert(-668 <= a.y <= -616);
    }
    assert(-668 <= a.y <= -616);
    // the vertical increment is at least one unit downward
    let dy = fx_mul_spec(a.y as int, dt);
    assert(dy <= -1) by {
        assert(a.y * dt <= -65912) by (nonlinear_arith)
            requires
                a.y <= -616,
                dt >= 107,
        ;
        vstd::arithmetic::div_mod::lemma_div_is_ordered(65536, -(a.y * dt), 65536);
        assert(65536int / 65536int == 1);
    }
    assert(dy >= -668) by {
        assert(-(668 * (SCALE as int)) <= a.y * dt <= 668 * (SCALE as int)) by (nonlinear_arith)
            requires
                -668 <= a.y <= 0,
                0 <= dt <= 65536,
        ;
        lemma_tdiv_bound(a.y * dt, SCALE as int, 668);
    }
    assert(clamp_vel_spec(v.y + dy) == v.y + dy);
    assert(vel_free_spec(v, dt).y == v.y + dy);
}

/// Bounds of the horizontal drive displacement.
proof fn lemma_drive_bounds(stick: int, dt: int)
    requires
        -STICK_MAX <= stick <= STICK_MAX,
        0 <= dt <= SCALE,
    ensures
        -(0x2800000 * (SCALE as int)) <= stick * TOP_SPEED <= 0x2800000 * (SCALE as int),
        -0x2800000 <= fx_mul_spec(stick, TOP_SPEED as int) <= 0x2800000,
        -(0x2800000 * (SCALE as int)) <= fx_mul_spec(stick, TOP_SPEED as int) * dt <= 0x2800000 * (
        SCALE as int),
        -0x2800000 <= fx_mul_spec(fx_mul_spec(stick, TOP_SPEED as int), dt) <= 0x2800000,
{
    assert(-(0x2800000 * 65536) <= stick * TOP_SPEED <= 0x2800000 * 65536) by (nonlinear_arith)
        requires
            -131072 <= stick <= 131072,
    ;
    lemma_tdiv_bound(stick * TOP_SPEED, SCALE as int, 0x2800000);
    let s1 = fx_mul_spec(stick, TOP_SPEED as int);
    assert(-(0x2800000 * 65536) <= s1 * dt <= 0x2800000 * 65536) by (nonlinear_arith)
        requires
            -0x2800000 <= s1 <= 0x2800000,
            0 <= dt <= 65536,
    ;
    lemma_tdiv_bound(s1 * dt, SCALE as int, 0x2800000);
}

} // verus!
