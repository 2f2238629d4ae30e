use raytrace::order::order_key;
use raytrace::sphere::{sphere_root, Root};

fn key(t: f32) -> u32 {
    order_key(t.to_bits())
}

fn roots(origin_z: f32, radius: f32) -> (bool, f32, f32) {
    // Ray from (0, 0, origin_z) along +z against a sphere of `radius` at the origin.
    let a = 1.0f32;
    let b = origin_z;
    let c = origin_z * origin_z - radius * radius;
    let d = b * b - a * c;
    if d > 0.0 {
        (true, (-b - d.sqrt()) / a, (-b + d.sqrt()) / a)
    } else {
        (false, 0.0, 0.0)
    }
}

#[test]
fn ray_at_center_enters_at_distance_minus_radius() {
    let (has, near, far) = roots(-5.0, 2.0);
    assert!(has);
    assert_eq!(near, 3.0);
    assert_eq!(far, 7.0);
    let r = sphere_root(has, key(0.001), key(near), key(far), key(f32::MAX));
    assert_eq!(r, Some(Root::Near));
}

#[test]
fn ray_from_inside_takes_far_root() {
    let (has, near, far) = roots(0.0, 2.0);
    assert!(has);
    assert_eq!(near, -2.0);
    assert_eq!(far, 2.0);
    let r = sphere_root(has, key(0.001), key(near), key(far), key(f32::MAX));
    assert_eq!(r, Some(Root::Far));
}

#[test]
fn sphere_behind_ray_is_missed() {
    let (has, near, far) = roots(5.0, 2.0);
    assert!(has);
    assert_eq!(sphere_root(has, key(0.001), key(near), key(far), key(f32::MAX)), None);
}

#[test]
fn no_real_roots_is_a_miss() {
    assert_eq!(sphere_root(false, key(0.001), key(1.0), key(2.0), key(f32::MAX)), None);
}

#[test]
fn ceiling_below_near_root_is_a_miss() {
    assert_eq!(sphere_root(true, key(0.001), key(3.0), key(7.0), key(3.0)), None);
}

#[test]
fn bounds_are_exclusive() {
    assert_eq!(sphere_root(true, key(3.0), key(3.0), key(7.0), key(7.0)), None);
    assert_eq!(sphere_root(true, key(3.0), key(3.0), key(7.0), key(8.0)), Some(Root::Far));
    assert_eq!(sphere_root(true, key(2.0), key(3.0), key(7.0), key(3.5)), Some(Root::Near));
}
