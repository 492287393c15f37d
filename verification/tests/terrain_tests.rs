use hybrid::{ControlSurface, ControlPlane, SCALE};
use hybrid::vec3::Vec3Fx;
use hybrid::surface::{generate_surface, JITTER_RANGE};
use hybrid::chunk::{build_chunk, build_chunks};
use hybrid::raycast::cast_vertical;

fn flat_surface(size: usize) -> ControlSurface {
    let mut rows = Vec::new();
    for i in 0..size {
        let mut row = Vec::new();
        for j in 0..size {
            let mut p = ControlPlane::new();
            p.pos = Vec3Fx { x: (i as i64) * SCALE, y: 0, z: (j as i64) * SCALE };
            row.push(p);
        }
        rows.push(row);
    }
    ControlSurface { controls: rows, size }
}

#[test]
fn generated_surface_sits_on_the_lattice() {
    let s = generate_surface(4, 42);
    assert_eq!(s.size, 4);
    assert_eq!(s.controls.len(), 4);
    for i in 0..4 {
        assert_eq!(s.controls[i].len(), 4);
        for j in 0..4 {
            let p = &s.controls[i][j];
            assert_eq!(p.pos.x, (i as i64) * SCALE);
            assert_eq!(p.pos.z, (j as i64) * SCALE);
            assert!(p.pos.y >= -JITTER_RANGE && p.pos.y < JITTER_RANGE);
        }
    }
}

#[test]
fn generation_is_reproducible_from_the_seed() {
    let a = generate_surface(4, 7);
    let b = generate_surface(4, 7);
    let c = generate_surface(4, 8);
    let mut all_equal_to_c = true;
    for i in 0..4 {
        for j in 0..4 {
            assert_eq!(a.controls[i][j], b.controls[i][j]);
            if a.controls[i][j] != c.controls[i][j] {
                all_equal_to_c = false;
            }
        }
    }
    assert!(!all_equal_to_c);
}

#[test]
fn seams_share_control_points() {
    // neighboring patches are carved from the same planes, so the shared
    // boundary control points are identical bit for bit, even on a fully
    // randomized surface
    let s = generate_surface(5, 1234);
    for i in 0..3 {
        for j in 0..3 {
            let a = s.patch_at(i, j);
            let right = s.patch_at(i, j + 1);
            let below = s.patch_at(i + 1, j);
            for row in 0..4usize {
                assert_eq!(a.controls[4 * row + 3], right.controls[4 * row]);
            }
            for col in 0..4usize {
                assert_eq!(a.controls[12 + col], below.controls[col]);
            }
        }
    }
}

#[test]
fn surface_rasterize_covers_every_plane() {
    let s = flat_surface(3);
    let verts = s.rasterize();
    assert_eq!(verts.len(), 3 * 3 * 6);
}

#[test]
fn chunk_counts_and_boxes() {
    let s = flat_surface(3);
    let chunks = build_chunks(&s, 2, SCALE, 3 * SCALE);
    assert_eq!(chunks.len(), 4);
    for ch in chunks.iter() {
        assert_eq!(ch.collision_mesh.verts.len(), 2 * 2 * 6);
        // every collision vertex sits inside the loosened box
        for v in ch.collision_mesh.verts.iter() {
            assert!(ch.bounding_box.contains_point(&v.position));
        }
        // a flat chunk's loosened box spans exactly the margin vertically
        assert_eq!(ch.bounding_box.mins.y, -3 * SCALE);
        assert_eq!(ch.bounding_box.maxs.y, 3 * SCALE);
    }
}

#[test]
fn collision_mesh_is_scaled() {
    let s = flat_surface(2);
    let plain = build_chunk(&s, 0, 0, 2, SCALE, 0);
    let scaled = build_chunk(&s, 0, 0, 2, 8 * SCALE, 0);
    for (a, b) in plain.collision_mesh.verts.iter().zip(scaled.collision_mesh.verts.iter()) {
        assert_eq!(b.position.x, a.position.x * 8);
        assert_eq!(b.position.y, a.position.y * 8);
        assert_eq!(b.position.z, a.position.z * 8);
        assert_eq!(a.u, b.u);
        assert_eq!(a.v, b.v);
    }
}

#[test]
fn downward_ray_hits_a_flat_chunk() {
    let s = flat_surface(2);
    let ch = build_chunk(&s, 0, 0, 2, SCALE, 3 * SCALE);
    let origin = Vec3Fx { x: SCALE / 2, y: 10 * SCALE, z: SCALE / 2 };
    let hit = cast_vertical(&ch.collision_mesh, origin, true).expect("must hit the flat mesh");
    assert_eq!(hit.point, Vec3Fx { x: SCALE / 2, y: 0, z: SCALE / 2 });
    assert_eq!(hit.toi, 10 * SCALE);
    // the ray lands on the mesh edge at u = 1/2 exactly; the v parameter
    // interpolates inside the first cell, whose far edge sits at the
    // blended coordinate 49971, giving floor(64 * 32768 / 49971 / 2) = 20
    assert_eq!(hit.u.num, 32);
    assert_eq!(hit.u.den, 64);
    assert_eq!(hit.v.num, 20);
    assert_eq!(hit.v.den, 64);
}

#[test]
fn upward_ray_hits_from_below() {
    let s = flat_surface(2);
    let ch = build_chunk(&s, 0, 0, 2, SCALE, 3 * SCALE);
    let origin = Vec3Fx { x: SCALE / 2, y: -2 * SCALE, z: SCALE / 2 };
    assert!(cast_vertical(&ch.collision_mesh, origin, true).is_none());
    let hit = cast_vertical(&ch.collision_mesh, origin, false).expect("must hit upward");
    assert_eq!(hit.point.y, 0);
    assert_eq!(hit.toi, 2 * SCALE);
}

#[test]
fn ray_misses_outside_the_tile() {
    let s = flat_surface(2);
    let ch = build_chunk(&s, 0, 0, 2, SCALE, 3 * SCALE);
    let origin = Vec3Fx { x: 40 * SCALE, y: 10 * SCALE, z: 40 * SCALE };
    assert!(cast_vertical(&ch.collision_mesh, origin, true).is_none());
    assert!(cast_vertical(&ch.collision_mesh, origin, false).is_none());
}

#[test]
fn generation_actually_draws_randomness() {
    // the vertical jitters of a generated lattice are not all the same
    // value, and at least one plane is rotated off the identity
    let s = generate_surface(6, 99);
    let first = s.controls[0][0].pos.y;
    let mut jitters_vary = false;
    let mut some_rotation = false;
    let identity = ControlPlane::new().rotation;
    for i in 0..6 {
        for j in 0..6 {
            if s.controls[i][j].pos.y != first {
                jitters_vary = true;
            }
            if s.controls[i][j].rotation != identity {
                some_rotation = true;
            }
        }
    }
    assert!(jitters_vary);
    assert!(some_rotation);
}

#[test]
fn generated_planes_keep_the_default_extents() {
    let s = generate_surface(4, 21);
    let default = ControlPlane::new();
    for i in 0..4 {
        for j in 0..4 {
            let p = &s.controls[i][j];
            assert_eq!(p.north, default.north);
            assert_eq!(p.east, default.east);
            assert_eq!(p.south, default.south);
            assert_eq!(p.west, default.west);
        }
    }
}
