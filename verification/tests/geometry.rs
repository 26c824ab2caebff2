//! Exact-value tests of the vector core and the four shapes.

use ray_tracing::hittable::HitRecord;
use ray_tracing::math::{div_t, int_sqrt};
use ray_tracing::rat::Rat;
use ray_tracing::ray::Ray;
use ray_tracing::sphere::Sphere;
use ray_tracing::plane::Plane;
use ray_tracing::cube::Cube;
use ray_tracing::cylinder::Cylinder;
use ray_tracing::vec3::{Vec3, UNIT_SCALE};

fn v(x: i128, y: i128, z: i128) -> Vec3 {
    Vec3::new(x, y, z)
}

fn rat_value_is(t: Rat, num: i128, den: i128) -> bool {
    t.num * den == num * t.den
}

#[test]
fn int_sqrt_floors() {
    assert_eq!(int_sqrt(0), 0);
    assert_eq!(int_sqrt(1), 1);
    assert_eq!(int_sqrt(10), 3);
    assert_eq!(int_sqrt(16), 4);
    assert_eq!(int_sqrt(24), 4);
    assert_eq!(int_sqrt(25), 5);
}

#[test]
fn div_t_truncates_toward_zero() {
    assert_eq!(div_t(7, 2), 3);
    assert_eq!(div_t(-7, 2), -3);
    assert_eq!(div_t(6, 3), 2);
    assert_eq!(div_t(-6, 3), -2);
    assert_eq!(div_t(0, 5), 0);
}

#[test]
fn rat_comparisons_are_exact() {
    let a = Rat::new(1, 3);
    let b = Rat::new(2, 5);
    assert!(a.lt(&b));
    assert!(!b.lt(&a));
    assert!(a.le(&b));
    let c = Rat::new(2, 6);
    assert!(a.eq_val(&c));
    assert!(!a.lt(&c));
}

#[test]
fn vector_ops_exact() {
    let a = v(1, 2, 3);
    let b = v(4, -5, 6);
    assert_eq!(a.vadd(b), v(5, -3, 9));
    assert_eq!(a.vsub(b), v(-3, 7, -3));
    assert_eq!(a.vneg(), v(-1, -2, -3));
    assert_eq!(Vec3::smul(3, a), v(3, 6, 9));
    assert_eq!(Vec3::dot(a, b), 4 - 10 + 18);
    assert_eq!(Vec3::cross(v(1, 0, 0), v(0, 1, 0)), v(0, 0, 1));
    assert_eq!(a.length_squared(), 14);
    assert!(v(0, 0, 0).near_zero());
    assert!(!v(0, 1, 0).near_zero());
    assert_eq!(v(3, 4, 0).vec_length(), 5);
    assert_eq!(v(1, 1, 1).vec_length(), 1);
}

#[test]
fn normalize_rescales_to_unit_scale() {
    assert_eq!(v(0, 0, 7).normalize(), v(0, 0, UNIT_SCALE));
    assert_eq!(v(0, -3, 0).normalize(), v(0, -UNIT_SCALE, 0));
    assert_eq!(v(0, 0, 0).normalize(), v(0, 0, 0));
    assert_eq!(Vec3::unit_vector(v(3, 4, 0)), v(3 * UNIT_SCALE / 5, 4 * UNIT_SCALE / 5, 0));
}

#[test]
fn reflect_mirrors_about_the_normal() {
    // Incoming straight down onto a +y normal of scale s: the reflection
    // points up, scaled by |n|^2.
    let s = UNIT_SCALE;
    let r = Vec3::reflect(v(0, -4, 0), v(0, s, 0));
    assert_eq!(r, v(0, 4 * s * s, 0));
    // A grazing component along x is preserved.
    let r2 = Vec3::reflect(v(3, -4, 0), v(0, s, 0));
    assert_eq!(r2, v(3 * s * s, 4 * s * s, 0));
}

#[test]
fn random_range_stays_in_range() {
    let u = v(0, 32768, 65535);
    let r = Vec3::random_range(0, 10, u);
    assert_eq!(r, v(0, 5, 9));
    let r2 = Vec3::random_range(-5, 5, v(0, 0, 65535));
    assert_eq!(r2, v(-5, -5, 4));
}

#[test]
fn rejection_sampling_takes_first_inside_ball() {
    let far = v(UNIT_SCALE, UNIT_SCALE, 0);
    let near = v(100, 200, -300);
    assert_eq!(Vec3::random_in_unit_sphere(&vec![far, near]), Some(near));
    assert_eq!(Vec3::random_in_unit_sphere(&vec![far, far]), None);
    assert_eq!(Vec3::random_in_unit_sphere(&vec![]), None);
    assert_eq!(Vec3::random_unit_vector(&vec![v(0, 40000, 0)]), Some(v(0, UNIT_SCALE, 0)));
    assert_eq!(Vec3::random_unit_vector(&vec![far]), None);
}

#[test]
fn ray_at_is_exact() {
    let r = Ray::new(v(1, 2, 3), v(0, 0, -2));
    let p = r.at(Rat::new(1, 2));
    // 2 * origin + 1 * dir, over denominator 2.
    assert_eq!(p.num, v(2, 4, 4));
    assert_eq!(p.den, 2);
}

// A sphere of radius one half at distance one, hit straight on: the hit is at
// parameter one half, at the point midway to the center, with the normal
// pointing back along the axis. (Coordinates are doubled so the half-radius
// is exact.)
#[test]
fn sphere_head_on_hit() {
    let s = Sphere::new(v(0, 0, -2), 1, 0);
    let ray = Ray::new(v(0, 0, 0), v(0, 0, -2));
    let mut rec = HitRecord::new();
    let hit = s.hit(&ray, Rat::new(1, 1000), Rat::new(1 << 40, 1), &mut rec);
    assert!(hit);
    assert!(rat_value_is(rec.t, 1, 2));
    // Hit point (0, 0, -1): the doubled coordinates of (0, 0, -0.5).
    assert_eq!(rec.t.den, 4);
    assert_eq!(rec.p.num, v(0, 0, -4));
    assert_eq!(rec.p.den, 4);
    // The normal points along +z, against the ray.
    assert!(rec.front_face);
    assert_eq!(rec.normal, v(0, 0, 4));
    assert_eq!(rec.mat, Some(0));
}

#[test]
fn sphere_misses_and_interval() {
    let s = Sphere::new(v(0, 0, -2), 1, 0);
    let mut rec = HitRecord::new();
    // A ray pointing away: both roots negative, no hit.
    let away = Ray::new(v(0, 0, 0), v(0, 0, 2));
    assert!(!s.hit(&away, Rat::new(1, 1000), Rat::new(1 << 40, 1), &mut rec));
    // A ray passing wide: negative discriminant.
    let wide = Ray::new(v(0, 5, 0), v(0, 0, -2));
    assert!(!s.hit(&wide, Rat::new(1, 1000), Rat::new(1 << 40, 1), &mut rec));
    // A zero direction is a defined miss, not an error.
    let degenerate = Ray::new(v(0, 0, 0), v(0, 0, 0));
    assert!(!s.hit(&degenerate, Rat::new(1, 1000), Rat::new(1 << 40, 1), &mut rec));
    // The hit exists but lies beyond the upper bound.
    let head_on = Ray::new(v(0, 0, 0), v(0, 0, -2));
    assert!(!s.hit(&head_on, Rat::new(1, 1000), Rat::new(1, 4), &mut rec));
    // From inside, the far root is taken.
    let inside = Ray::new(v(0, 0, -2), v(0, 0, -2));
    assert!(s.hit(&inside, Rat::new(1, 1000), Rat::new(1 << 40, 1), &mut rec));
    assert!(rat_value_is(rec.t, 1, 2));
    assert!(!rec.front_face);
}

// A horizontal plane one unit below a ray cast straight down: hit at
// parameter one, at the origin of the world.
#[test]
fn plane_head_on_hit() {
    let p = Plane::new(v(0, 0, -1), v(0, 1, 0), 0);
    let ray = Ray::new(v(0, 1, 0), v(0, -1, 0));
    let mut rec = HitRecord::new();
    let hit = p.hit(&ray, Rat::new(1, 1000), Rat::new(1 << 40, 1), &mut rec);
    assert!(hit);
    assert!(rat_value_is(rec.t, 1, 1));
    assert_eq!(rec.p.num, v(0, 0, 0));
    assert!(rec.front_face);
    assert_eq!(rec.normal, v(0, UNIT_SCALE, 0));
}

#[test]
fn plane_parallel_ray_misses() {
    let p = Plane::new(v(0, 0, -1), v(0, 1, 0), 0);
    let mut rec = HitRecord::new();
    // Parallel above the plane.
    let par = Ray::new(v(0, 1, 0), v(1, 0, 0));
    assert!(!p.hit(&par, Rat::new(1, 1000), Rat::new(1 << 40, 1), &mut rec));
    // Lying exactly in the plane is also a (conservative) miss.
    let inside = Ray::new(v(0, 0, 5), v(1, 0, 0));
    assert!(!p.hit(&inside, Rat::new(1, 1000), Rat::new(1 << 40, 1), &mut rec));
}

// The unit cube hit straight on from in front: entry at parameter four on the
// front (+z) face. (Coordinates are doubled to keep the half-unit center
// exact elsewhere; here it doubles corners and distances alike.)
#[test]
fn cube_head_on_hit() {
    let c = Cube::new(v(0, 0, 0), v(2, 2, 2), 0);
    let ray = Ray::new(v(1, 1, 10), v(0, 0, -2));
    let mut rec = HitRecord::new();
    let hit = c.hit(&ray, Rat::new(1, 1000), Rat::new(1 << 40, 1), &mut rec);
    assert!(hit);
    assert!(rat_value_is(rec.t, 4, 1));
    assert!(rec.front_face);
    assert_eq!(rec.normal, v(0, 0, 1));
}

#[test]
fn cube_misses() {
    let c = Cube::new(v(0, 0, 0), v(2, 2, 2), 0);
    let mut rec = HitRecord::new();
    // Parallel to an axis and outside its slab.
    let outside = Ray::new(v(5, 1, 10), v(0, 0, -2));
    assert!(!c.hit(&outside, Rat::new(1, 1000), Rat::new(1 << 40, 1), &mut rec));
    // Pointing away.
    let away = Ray::new(v(1, 1, 10), v(0, 0, 2));
    assert!(!c.hit(&away, Rat::new(1, 1000), Rat::new(1 << 40, 1), &mut rec));
}

#[test]
fn cylinder_side_hit() {
    let cyl = Cylinder::new(v(0, -1, 0), 2, 1, 0);
    let ray = Ray::new(v(-5, 0, 0), v(1, 0, 0));
    let mut rec = HitRecord::new();
    let hit = cyl.hit(&ray, Rat::new(1, 1000), Rat::new(1 << 40, 1), &mut rec);
    assert!(hit);
    assert!(rat_value_is(rec.t, 4, 1));
    assert!(rec.front_face);
    // Radial normal at the hit point (-1, 0, 0).
    assert_eq!(rec.normal, v(-1, 0, 0));
}

#[test]
fn cylinder_cap_hit_and_height_rejection() {
    let cyl = Cylinder::new(v(0, -1, 0), 2, 1, 0);
    // Straight down onto the top cap (y = 1).
    let down = Ray::new(v(0, 5, 0), v(0, -1, 0));
    let mut rec = HitRecord::new();
    assert!(cyl.hit(&down, Rat::new(1, 1000), Rat::new(1 << 40, 1), &mut rec));
    assert!(rat_value_is(rec.t, 4, 1));
    assert!(rec.front_face);
    assert_eq!(rec.normal, v(0, 1, 0));
    // A lateral hit whose height coordinate lies above the cylinder: miss.
    let high = Ray::new(v(-5, 4, 0), v(1, 0, 0));
    assert!(!cyl.hit(&high, Rat::new(1, 1000), Rat::new(1 << 40, 1), &mut rec));
    // Down past the side, outside the cap disk: miss.
    let wide = Ray::new(v(3, 5, 0), v(0, -1, 0));
    assert!(!cyl.hit(&wide, Rat::new(1, 1000), Rat::new(1 << 40, 1), &mut rec));
}

// Every shape orients its stored normal against the incoming ray.
#[test]
fn normals_oppose_the_ray() {
    let t0 = Rat::new(1, 1000);
    let t1 = Rat::new(1 << 40, 1);
    let mut rec = HitRecord::new();
    let rays = [
        Ray::new(v(0, 0, 0), v(0, 0, -2)),
        Ray::new(v(0, 0, -2), v(0, 0, -2)),
        Ray::new(v(1, 1, 10), v(0, 0, -2)),
        Ray::new(v(0, 5, 0), v(0, -1, 0)),
        Ray::new(v(-5, 0, 0), v(1, 0, 0)),
    ];
    let sphere = Sphere::new(v(0, 0, -2), 1, 0);
    let plane = Plane::new(v(0, 0, -1), v(0, 1, 0), 0);
    let cube = Cube::new(v(0, 0, 0), v(2, 2, 2), 0);
    let cyl = Cylinder::new(v(0, -1, 0), 2, 1, 0);
    for ray in rays.iter() {
        if sphere.hit(ray, t0, t1, &mut rec) {
            assert!(Vec3::dot_wide(rec.normal, ray.direction()) <= 0);
        }
        if plane.hit(ray, t0, t1, &mut rec) {
            assert!(Vec3::dot_wide(rec.normal, ray.direction()) <= 0);
        }
        if cube.hit(ray, t0, t1, &mut rec) {
            assert!(Vec3::dot_wide(rec.normal, ray.direction()) <= 0);
        }
        if cyl.hit(ray, t0, t1, &mut rec) {
            assert!(Vec3::dot_wide(rec.normal, ray.direction()) <= 0);
        }
    }
}
