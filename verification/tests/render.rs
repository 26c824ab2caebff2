//! End-to-end tests: closest-hit resolution and the recursive integrator.

use ray_tracing::color::COLOR_SCALE;
use ray_tracing::hittable::{HitRecord, Hittable};
use ray_tracing::hittable_list::HittableList;
use ray_tracing::integrator::ray_color;
use ray_tracing::material::Material;
use ray_tracing::rat::Rat;
use ray_tracing::ray::Ray;
use ray_tracing::sphere::Sphere;
use ray_tracing::plane::Plane;
use ray_tracing::vec3::{Vec3, UNIT_SCALE};

fn v(x: i128, y: i128, z: i128) -> Vec3 {
    Vec3::new(x, y, z)
}

fn gray() -> Material {
    Material::lambertian(Vec3::new(50000, 50000, 50000))
}

// Two spheres on the same axis: whichever is added first, the nearer one
// wins, and its parameter equals the nearer individual parameter.
#[test]
fn closest_hit_is_insertion_order_independent() {
    let ray = Ray::new(v(0, 0, 0), v(0, 0, -2));
    let t0 = Rat::new(1, 1000);
    let t1 = Rat::new(1 << 40, 1);
    let near = Sphere::new(v(0, 0, -4), 1, 0);
    let far = Sphere::new(v(0, 0, -8), 1, 0);

    // Individual parameters: 3/2 for the near sphere, 7/2 for the far one.
    let mut rec = HitRecord::new();
    assert!(near.hit(&ray, t0, t1, &mut rec));
    assert!(rec.t.num * 2 == 3 * rec.t.den);
    assert!(far.hit(&ray, t0, t1, &mut rec));
    assert!(rec.t.num * 2 == 7 * rec.t.den);

    let mut w1 = HittableList::new();
    let m1 = w1.add_material(gray());
    w1.add(Hittable::Sphere(Sphere::new(v(0, 0, -4), 1, m1)));
    w1.add(Hittable::Sphere(Sphere::new(v(0, 0, -8), 1, m1)));
    let mut w2 = HittableList::new();
    let m2 = w2.add_material(gray());
    w2.add(Hittable::Sphere(Sphere::new(v(0, 0, -8), 1, m2)));
    w2.add(Hittable::Sphere(Sphere::new(v(0, 0, -4), 1, m2)));

    let mut r1 = HitRecord::new();
    let mut r2 = HitRecord::new();
    assert!(w1.hit(&ray, t0, t1, &mut r1));
    assert!(w2.hit(&ray, t0, t1, &mut r2));
    assert!(r1.t.num * 2 == 3 * r1.t.den);
    assert!(r2.t.num * 2 == 3 * r2.t.den);
    // The same rational value from both orders.
    assert_eq!(r1.t.num * r2.t.den, r2.t.num * r1.t.den);
}

#[test]
fn empty_scene_never_hits() {
    let w = HittableList::new();
    let ray = Ray::new(v(0, 0, 0), v(0, 0, -2));
    let mut rec = HitRecord::new();
    assert!(!w.hit(&ray, Rat::new(1, 1000), Rat::new(1 << 40, 1), &mut rec));
}

// A zero bounce budget returns exactly black, whatever the scene.
#[test]
fn depth_zero_is_black() {
    let mut w = HittableList::new();
    let m = w.add_material(gray());
    w.add(Hittable::Sphere(Sphere::new(v(0, 0, -4), 2, m)));
    let ray = Ray::new(v(0, 0, 0), v(0, 0, -2));
    let samples: Vec<Vec3> = vec![];
    assert_eq!(ray_color(&ray, &w, 0, &samples), v(0, 0, 0));
    assert_eq!(ray_color(&ray, &w, -3, &samples), v(0, 0, 0));
}

// A miss returns the background gradient.
#[test]
fn miss_returns_background() {
    let w = HittableList::new();
    let up = Ray::new(v(0, 0, 0), v(0, 2, 0));
    let samples: Vec<Vec3> = vec![v(0, 0, 0)];
    assert_eq!(ray_color(&up, &w, 1, &samples), v(68000, 80000, 92000));
}

// One diffuse bounce straight up into the sky: the background attenuated by
// the albedo, computed exactly.
#[test]
fn one_bounce_attenuates_the_sky() {
    let mut w = HittableList::new();
    let m = w.add_material(gray());
    w.add(Hittable::Sphere(Sphere::new(v(0, 0, -4), 2, m)));
    let ray = Ray::new(v(0, 0, 0), v(0, 0, -2));
    // Two bounces available; the bounce consumes the last sample. A zero
    // sample scatters straight along the unit normal (0, 0, 1).
    let samples: Vec<Vec3> = vec![v(0, 0, 0), v(0, 0, 0)];
    let c = ray_color(&ray, &w, 2, &samples);
    // The scattered ray (origin (0, 0, -2), direction (0, 0, UNIT_SCALE))
    // leaves the sphere tangentially and sees the horizontal background
    // (74000, 80000, 86000), attenuated by one half.
    assert_eq!(c, v(37000, 40000, 43000));
}

// An absorbing metal bounce returns black.
#[test]
fn absorbed_bounce_is_black() {
    let mut w = HittableList::new();
    // A mirror floor below, hit from inside-out so the reflection is
    // absorbed: aim at the plane from below along its normal.
    let m = w.add_material(Material::metal(v(80000, 80000, 80000), 0));
    w.add(Hittable::Plane(Plane::new(v(0, 0, 0), v(0, 1, 0), m)));
    // From above, the mirror reflects the sky; energy stays bounded.
    let down = Ray::new(v(0, 4, 0), v(0, -1, 0));
    let samples: Vec<Vec3> = vec![v(0, 0, 0), v(0, 0, 0)];
    let c = ray_color(&down, &w, 2, &samples);
    assert!(c.x() <= COLOR_SCALE && c.y() <= COLOR_SCALE && c.z() <= COLOR_SCALE);
    assert!(c.x() >= 0 && c.y() >= 0 && c.z() >= 0);
    // The mirrored ray points straight back up and sees the zenith color,
    // attenuated by 0.8.
    assert_eq!(c, v(54400, 64000, 73600));
}

// Energy never grows: every channel of every estimate stays within scale,
// across a spread of rays and depths.
#[test]
fn energy_stays_bounded() {
    let mut w = HittableList::new();
    let md = w.add_material(gray());
    let mm = w.add_material(Material::metal(v(100000, 100000, 100000), UNIT_SCALE));
    w.add(Hittable::Sphere(Sphere::new(v(0, 0, -4), 2, md)));
    w.add(Hittable::Sphere(Sphere::new(v(3, 0, -4), 1, mm)));
    let samples: Vec<Vec3> = vec![v(300, -100, 200); 8];
    let dirs = [v(0, 0, -2), v(1, 0, -2), v(-1, 1, -2), v(0, -1, -2)];
    for d in dirs.iter() {
        for depth in 0..8 {
            let c = ray_color(&Ray::new(v(0, 0, 0), *d), &w, depth, &samples);
            assert!(c.x() >= 0 && c.x() <= COLOR_SCALE);
            assert!(c.y() >= 0 && c.y() <= COLOR_SCALE);
            assert!(c.z() >= 0 && c.z() <= COLOR_SCALE);
        }
    }
}
