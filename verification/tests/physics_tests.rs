use hybrid::{BallSystem, BodyTransform, InputEvent, PadAxis, PadButton, ControlPlane,
    ControlSurface, Chunk, SCALE};
use hybrid::vec3::Vec3Fx;
use hybrid::chunk::build_chunks;

fn flat_chunks() -> Vec<Chunk> {
    let mut rows = Vec::new();
    for i in 0..2usize {
        let mut row = Vec::new();
        for j in 0..2usize {
            let mut p = ControlPlane::new();
            p.pos = Vec3Fx { x: (i as i64) * SCALE, y: 0, z: (j as i64) * SCALE };
            row.push(p);
        }
        rows.push(row);
    }
    let surface = ControlSurface { controls: rows, size: 2 };
    build_chunks(&surface, 2, SCALE, 3 * SCALE)
}

fn body_at(x: i64, y: i64, z: i64) -> BodyTransform {
    BodyTransform::at_position(Vec3Fx { x, y, z })
}

#[test]
fn fresh_integrator_is_at_rest() {
    let sys = BallSystem::new();
    assert_eq!(sys.velocity, Vec3Fx { x: 0, y: 0, z: 0 });
    assert_eq!(sys.rotation, 0);
    assert_eq!(sys.left_stick.x, 0);
    assert_eq!(sys.right_stick.y, 0);
}

#[test]
fn free_fall_accelerates_downward() {
    // with no chunk anywhere the body free-falls: one gravity increment per
    // second of frame time, position moved by the updated velocity
    let mut sys = BallSystem::new();
    let mut body = body_at(0, 100 * SCALE, 0);
    let chunks: Vec<Chunk> = Vec::new();
    let mut events: Vec<InputEvent> = Vec::new();
    sys.run(&mut body, &chunks, &mut events, SCALE);
    assert_eq!(sys.velocity.y, -642);
    assert_eq!(body.position.y, 100 * SCALE - 642);
    sys.run(&mut body, &chunks, &mut events, SCALE);
    assert_eq!(sys.velocity.y, -1284);
    assert_eq!(body.position.y, 100 * SCALE - 642 - 1284);
}

#[test]
fn free_fall_velocity_strictly_decreases() {
    let mut sys = BallSystem::new();
    let mut body = body_at(0, 1000 * SCALE, 0);
    let chunks: Vec<Chunk> = Vec::new();
    let mut events: Vec<InputEvent> = Vec::new();
    let mut last = sys.velocity.y;
    for _ in 0..50 {
        sys.run(&mut body, &chunks, &mut events, SCALE);
        assert!(sys.velocity.y < last);
        last = sys.velocity.y;
    }
}

#[test]
fn events_are_drained_in_order() {
    let mut sys = BallSystem::new();
    let mut body = body_at(0, 100 * SCALE, 0);
    let chunks: Vec<Chunk> = Vec::new();
    let mut events = vec![
        InputEvent::AxisChanged(PadAxis::LeftStickX, 1000),
        InputEvent::AxisChanged(PadAxis::LeftStickX, 2000),
        InputEvent::AxisChanged(PadAxis::LeftStickY, -3000),
        InputEvent::AxisChanged(PadAxis::RightStickX, 4000),
        InputEvent::AxisChanged(PadAxis::RightStickY, 5000),
        InputEvent::ButtonPressed(PadButton::East),
    ];
    sys.run(&mut body, &chunks, &mut events, SCALE);
    assert!(events.is_empty());
    // the later left-stick event wins; an unrecognized button is ignored
    assert_eq!(sys.left_stick.x, 2000);
    assert_eq!(sys.left_stick.y, -3000);
    assert_eq!(sys.right_stick.x, 4000);
    assert_eq!(sys.right_stick.y, 5000);
}

#[test]
fn south_button_nudges_the_body() {
    let mut sys = BallSystem::new();
    let mut body = body_at(5 * SCALE, 100 * SCALE, 0);
    let chunks: Vec<Chunk> = Vec::new();
    let mut events = vec![InputEvent::ButtonPressed(PadButton::South)];
    sys.run(&mut body, &chunks, &mut events, SCALE);
    assert_eq!(body.position.x, 4 * SCALE);
}

#[test]
fn right_stick_drives_horizontally() {
    let mut sys = BallSystem::new();
    let mut body = body_at(0, 100 * SCALE, 0);
    let chunks: Vec<Chunk> = Vec::new();
    let mut events = vec![
        InputEvent::AxisChanged(PadAxis::RightStickX, SCALE),
        InputEvent::AxisChanged(PadAxis::RightStickY, SCALE),
    ];
    sys.run(&mut body, &chunks, &mut events, SCALE);
    // full deflection for one second moves 20 units along x and -20 along z
    assert_eq!(body.position.x, 20 * SCALE);
    assert_eq!(body.position.z, -20 * SCALE);
}

#[test]
fn spin_accumulates_from_left_stick() {
    let mut sys = BallSystem::new();
    let mut body = body_at(0, 100 * SCALE, 0);
    let chunks: Vec<Chunk> = Vec::new();
    let mut events = vec![InputEvent::AxisChanged(PadAxis::LeftStickX, SCALE)];
    sys.run(&mut body, &chunks, &mut events, SCALE);
    assert_eq!(sys.rotation, 2184);
    let mut events: Vec<InputEvent> = Vec::new();
    sys.run(&mut body, &chunks, &mut events, SCALE);
    assert_eq!(sys.rotation, 4368);
}

#[test]
fn body_rests_exactly_on_a_flat_chunk() {
    // rest convergence: at the surface with zero velocity and no input the
    // body stays exactly at the surface height, frame after frame
    let chunks = flat_chunks();
    let mut sys = BallSystem::new();
    let mut body = body_at(SCALE / 2, 0, SCALE / 2);
    for _ in 0..20 {
        let mut events: Vec<InputEvent> = Vec::new();
        sys.run(&mut body, &chunks, &mut events, 1092);
        assert_eq!(body.position.y, 0);
        assert_eq!(sys.velocity, Vec3Fx { x: 0, y: 0, z: 0 });
    }
}

#[test]
fn floor_clamp_holds_every_frame() {
    // a body pushed down through the surface is snapped back to the hit
    // point every frame: the floor never gives way
    let chunks = flat_chunks();
    let mut sys = BallSystem::new();
    sys.velocity = Vec3Fx { x: 0, y: -1000, z: 0 };
    let mut body = body_at(SCALE / 2, 300, SCALE / 2);
    for _ in 0..20 {
        let mut events: Vec<InputEvent> = Vec::new();
        sys.run(&mut body, &chunks, &mut events, 1092);
        assert!(body.position.y >= 0);
    }
    assert_eq!(body.position.y, 0);
}

#[test]
fn contact_keeps_orientation_upright_on_flat_ground() {
    let chunks = flat_chunks();
    let mut sys = BallSystem::new();
    let mut body = body_at(SCALE / 2, 0, SCALE / 2);
    let fwd = body.forward;
    let mut events: Vec<InputEvent> = Vec::new();
    sys.run(&mut body, &chunks, &mut events, 1092);
    // flat ground: the drive direction vanishes, so the forward direction
    // is kept and up stays the global vertical
    assert_eq!(body.forward, fwd);
    assert_eq!(body.up, Vec3Fx { x: 0, y: SCALE, z: 0 });
}

#[test]
fn body_settles_over_random_terrain() {
    // over a fully randomized terrain the step keeps running, drains its
    // queue every frame, and keeps the body's state in range
    let surface = hybrid::surface::generate_surface(3, 5);
    let chunks = build_chunks(&surface, 4, SCALE, 3 * SCALE);
    let mut sys = BallSystem::new();
    let mut body = body_at(SCALE, 10 * SCALE, SCALE);
    let mut events = vec![InputEvent::AxisChanged(PadAxis::LeftStickX, SCALE / 2)];
    for _ in 0..120 {
        sys.run(&mut body, &chunks, &mut events, 1092);
        assert!(events.is_empty());
        assert!(body.position.x.abs() <= 0x80000000);
        assert!(body.position.y.abs() <= 0x80000000);
        assert!(body.position.z.abs() <= 0x80000000);
        assert!(sys.rotation >= 0 && sys.rotation < hybrid::fixed::TAU_FX);
    }
}

#[test]
fn contact_acceleration_is_scaled_by_squish_alone() {
    // just above the surface the squish easing is sin(height * pi / 2);
    // at height 300/65536 that is exactly 479, and one one-second contact
    // frame changes the vertical velocity by floor(-642 * 479 / 65536) = -4
    let chunks = flat_chunks();
    let mut sys = BallSystem::new();
    let mut body = body_at(SCALE / 2, 300, SCALE / 2);
    let mut events: Vec<InputEvent> = Vec::new();
    sys.run(&mut body, &chunks, &mut events, SCALE);
    assert_eq!(sys.velocity.y, -4);
    assert_eq!(body.position.y, 296);
}
