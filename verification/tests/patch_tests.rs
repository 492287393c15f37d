use hybrid::{BicubicPatch, ControlPlane, Frac, SCALE};
use hybrid::vec3::Vec3Fx;

fn flat_plane(x: i64, z: i64) -> ControlPlane {
    let mut p = ControlPlane::new();
    p.pos = Vec3Fx { x, y: 0, z };
    p
}

fn flat_patch() -> BicubicPatch {
    let sw = flat_plane(0, 0);
    let nw = flat_plane(0, SCALE);
    let ne = flat_plane(SCALE, SCALE);
    let se = flat_plane(SCALE, 0);
    BicubicPatch::new(&sw, &nw, &ne, &se)
}

#[test]
fn corners_interpolate_control_points() {
    let patch = flat_patch();
    let zero = Frac::new(0, 1);
    let one = Frac::new(1, 1);
    // (0,0), (0,1), (1,0) and (1,1) hit the four corner plane centers
    assert_eq!(patch.pos(zero, zero), Vec3Fx { x: 0, y: 0, z: 0 });
    assert_eq!(patch.pos(zero, one), Vec3Fx { x: 0, y: 0, z: SCALE });
    assert_eq!(patch.pos(one, zero), Vec3Fx { x: SCALE, y: 0, z: 0 });
    assert_eq!(patch.pos(one, one), Vec3Fx { x: SCALE, y: 0, z: SCALE });
    // and they equal the corner control points bit for bit
    assert_eq!(patch.pos(zero, zero), patch.control(0, 0));
    assert_eq!(patch.pos(zero, one), patch.control(0, 3));
    assert_eq!(patch.pos(one, zero), patch.control(3, 0));
    assert_eq!(patch.pos(one, one), patch.control(3, 3));
}

#[test]
fn surface_center_blend_is_exact() {
    // the x extents are symmetric (east = -west), so x blends to the exact
    // midpoint; the z extents are not (north overlaps the lattice), so z
    // blends to the exact weighted value 399769/8 truncated
    let patch = flat_patch();
    let half = Frac::new(1, 2);
    assert_eq!(patch.pos(half, half), Vec3Fx { x: SCALE / 2, y: 0, z: 49971 });
}

#[test]
fn rasterize_emits_six_vertices_per_cell() {
    let patch = flat_patch();
    for res in [1i32, 2, 3, 5] {
        let verts = patch.rasterize(res);
        assert_eq!(verts.len(), (res * res * 6) as usize);
    }
}

#[test]
fn rasterize_uvs_tile_the_unit_square() {
    let patch = flat_patch();
    let res = 3i32;
    let verts = patch.rasterize(res);
    let rt = [0u32, 0, 1, 0, 1, 1];
    let ct = [0u32, 1, 1, 0, 1, 0];
    for (k, v) in verts.iter().enumerate() {
        let cell = (k / 6) as u32;
        let corner = k % 6;
        let row = cell / res as u32;
        let col = cell % res as u32;
        assert_eq!(v.u.num, row + rt[corner]);
        assert_eq!(v.u.den, res as u32);
        assert_eq!(v.v.num, col + ct[corner]);
        assert_eq!(v.v.den, res as u32);
    }
}

#[test]
fn flat_quad_spans_unit_square() {
    // a single flat patch rasterized at resolution 1 gives exactly six
    // vertices forming two triangles over the unit square, all with the
    // same exactly-unit upward normal
    let patch = flat_patch();
    let verts = patch.rasterize(1);
    assert_eq!(verts.len(), 6);
    let up = Vec3Fx { x: 0, y: SCALE, z: 0 };
    for v in verts.iter() {
        assert_eq!(v.normal, up);
        assert_eq!(v.position.y, 0);
    }
    assert_eq!(verts[0].position, Vec3Fx { x: 0, y: 0, z: 0 });
    assert_eq!(verts[1].position, Vec3Fx { x: 0, y: 0, z: SCALE });
    assert_eq!(verts[2].position, Vec3Fx { x: SCALE, y: 0, z: SCALE });
    assert_eq!(verts[3].position, Vec3Fx { x: 0, y: 0, z: 0 });
    assert_eq!(verts[4].position, Vec3Fx { x: SCALE, y: 0, z: SCALE });
    assert_eq!(verts[5].position, Vec3Fx { x: SCALE, y: 0, z: 0 });
}

#[test]
fn normal_is_unit_length_on_a_slope() {
    // tilt one corner: the estimated normal keeps unit length up to
    // quantization
    let sw = flat_plane(0, 0);
    let nw = flat_plane(0, SCALE);
    let ne = flat_plane(SCALE, SCALE);
    let mut se = flat_plane(SCALE, 0);
    se.pos.y = 30000;
    let patch = BicubicPatch::new(&sw, &nw, &ne, &se);
    for (nu, nv) in [(1u32, 1u32), (3, 2), (2, 3), (0, 0), (4, 4)] {
        let n = patch.normal(32, Frac::new(nu, 4), Frac::new(nv, 4));
        let nsq = n.x * n.x + n.y * n.y + n.z * n.z;
        assert!(nsq >= SCALE * SCALE - 7 * SCALE);
        assert!(nsq <= SCALE * SCALE + 8 * SCALE);
    }
}

#[test]
fn plane_quad_winding() {
    let p = flat_plane(0, 0);
    let quad = p.rasterize();
    assert_eq!(quad.len(), 6);
    // corners are the diagonal sample points: c, b, a, a, d, c
    assert_eq!(quad[0].position, quad[5].position);
    assert_eq!(quad[2].position, quad[3].position);
    // identity rotation leaves the offsets planar
    assert_eq!(quad[2].position, Vec3Fx { x: 26214, y: 0, z: SCALE });
    assert_eq!(quad[0].position, Vec3Fx { x: -26214, y: 0, z: -19661 });
}

#[test]
fn plane_points_follow_offsets() {
    let p = flat_plane(2 * SCALE, 3 * SCALE);
    assert_eq!(p.center(), Vec3Fx { x: 2 * SCALE, y: 0, z: 3 * SCALE });
    assert_eq!(
        p.point(hybrid::Dir8::North),
        Vec3Fx { x: 2 * SCALE, y: 0, z: 3 * SCALE + SCALE },
    );
    assert_eq!(
        p.point(hybrid::Dir8::SouthWest),
        Vec3Fx { x: 2 * SCALE - 26214, y: 0, z: 3 * SCALE - 19661 },
    );
}

#[test]
fn surface_is_continuous_in_small_steps() {
    // neighboring parameter samples one 1/512 step apart move the surface
    // point by only a few hundred fixed-point units (well under one unit)
    let patch = flat_patch();
    let v = Frac::new(1, 2);
    for k in [0u32, 1, 17, 255, 256, 400, 511] {
        let p1 = patch.pos(Frac::new(k, 512), v);
        let p2 = patch.pos(Frac::new(k + 1, 512), v);
        assert!((p1.x - p2.x).abs() <= 300);
        assert!((p1.y - p2.y).abs() <= 300);
        assert!((p1.z - p2.z).abs() <= 300);
    }
}

#[test]
fn rasterize_with_maps_each_vertex() {
    let patch = flat_patch();
    let plain = patch.rasterize(2);
    let mapped = patch.rasterize_with(2, |p: Vec3Fx, _n: Vec3Fx, u: Frac, v: Frac| {
        (p.x, u.num, v.num)
    });
    assert_eq!(mapped.len(), plain.len());
    for (m, v) in mapped.iter().zip(plain.iter()) {
        assert_eq!(*m, (v.position.x, v.u.num, v.v.num));
    }
}
