//! Exact-value tests of colors, materials, the background gradient, and the
//! camera frame.

use ray_tracing::camera::Camera;
use ray_tracing::color::{attenuate, color_add, color_to_rgb, COLOR_SCALE};
use ray_tracing::hittable::HitRecord;
use ray_tracing::integrator::background;
use ray_tracing::material::Material;
use ray_tracing::rat::Rat;
use ray_tracing::ray::Ray;
use ray_tracing::vec3::{Vec3, UNIT_SCALE};

fn v(x: i128, y: i128, z: i128) -> Vec3 {
    Vec3::new(x, y, z)
}

#[test]
fn attenuate_is_fixed_point_multiply() {
    let half = COLOR_SCALE / 2;
    let a = v(half, COLOR_SCALE, 0);
    let b = v(COLOR_SCALE, half, COLOR_SCALE);
    assert_eq!(attenuate(a, b), v(half, half, 0));
    // Full intensity is the identity; zero absorbs.
    assert_eq!(attenuate(a, v(COLOR_SCALE, COLOR_SCALE, COLOR_SCALE)), a);
    assert_eq!(attenuate(a, v(0, 0, 0)), v(0, 0, 0));
}

#[test]
fn color_to_rgb_rescales_and_caps() {
    // One sample at full, half, and zero intensity.
    let rgb = color_to_rgb(v(COLOR_SCALE, COLOR_SCALE / 2, 0), 1);
    assert_eq!(rgb, (255, 128, 0));
    // Averaging over four samples.
    let sum = color_add(
        color_add(v(COLOR_SCALE, 0, 0), v(COLOR_SCALE, 0, 0)),
        color_add(v(0, 0, 0), v(0, 0, 0)),
    );
    assert_eq!(color_to_rgb(sum, 4), (128, 0, 0));
}

fn hit_rec_with_normal(normal: Vec3) -> HitRecord {
    let mut rec = HitRecord::new();
    rec.normal = normal;
    rec
}

#[test]
fn lambertian_scatters_about_the_normal() {
    let m = Material::lambertian(v(10000, 20000, 50000));
    let rec = hit_rec_with_normal(v(0, 0, 4));
    let ray = Ray::new(v(0, 0, 0), v(0, 0, -2));
    let mut att = v(0, 0, 0);
    let mut scat = Ray::new(v(0, 0, 0), v(0, 0, 0));
    let sample = v(100, -200, 300);
    assert!(m.scatter(&ray, &rec, sample, &mut att, &mut scat));
    assert_eq!(att, v(10000, 20000, 50000));
    // Unit normal plus the sample.
    assert_eq!(scat.direction(), v(100, -200, UNIT_SCALE + 300));
    assert_eq!(scat.origin(), v(0, 0, 0));
}

#[test]
fn lambertian_degenerate_sum_falls_back_to_the_normal() {
    let m = Material::lambertian(v(10000, 20000, 50000));
    let rec = hit_rec_with_normal(v(0, 0, 4));
    let ray = Ray::new(v(0, 0, 0), v(0, 0, -2));
    let mut att = v(0, 0, 0);
    let mut scat = Ray::new(v(0, 0, 0), v(0, 0, 0));
    // A sample exactly opposite the unit normal.
    let sample = v(0, 0, -UNIT_SCALE);
    assert!(m.scatter(&ray, &rec, sample, &mut att, &mut scat));
    assert_eq!(scat.direction(), v(0, 0, UNIT_SCALE));
}

#[test]
fn metal_mirrors_exactly_with_zero_fuzz() {
    let m = Material::metal(v(80000, 60000, 20000), 0);
    let rec = hit_rec_with_normal(v(0, 0, 4));
    let ray = Ray::new(v(0, 0, 0), v(0, 0, -2));
    let mut att = v(0, 0, 0);
    let mut scat = Ray::new(v(0, 0, 0), v(0, 0, 0));
    assert!(m.scatter(&ray, &rec, v(0, 0, 0), &mut att, &mut scat));
    assert_eq!(att, v(80000, 60000, 20000));
    assert_eq!(scat.direction(), v(0, 0, UNIT_SCALE));
    // A grazing component is mirrored, not reversed.
    let ray2 = Ray::new(v(0, 0, 0), v(3, 0, -4));
    assert!(m.scatter(&ray2, &rec, v(0, 0, 0), &mut att, &mut scat));
    let d = scat.direction();
    assert!(d.x() > 0 && d.z() > 0);
    // The x component is preserved relative to z: direction (3, 0, 4).
    assert_eq!(d.x() * 4, d.z() * 3);
}

#[test]
fn metal_absorbs_reflections_into_the_surface() {
    let m = Material::metal(v(80000, 60000, 20000), 0);
    // A back-facing normal: the reflection points into the surface.
    let rec = hit_rec_with_normal(v(0, 0, -4));
    let ray = Ray::new(v(0, 0, 0), v(0, 0, -2));
    let mut att = v(1, 2, 3);
    let mut scat = Ray::new(v(0, 0, 0), v(0, 0, 0));
    assert!(!m.scatter(&ray, &rec, v(0, 0, 0), &mut att, &mut scat));
    // The outputs were left untouched.
    assert_eq!(att, v(1, 2, 3));
}

#[test]
fn metal_fuzz_perturbs_by_the_sample() {
    let m = Material::metal(v(80000, 60000, 20000), UNIT_SCALE / 2);
    let rec = hit_rec_with_normal(v(0, 0, 4));
    let ray = Ray::new(v(0, 0, 0), v(0, 0, -2));
    let mut att = v(0, 0, 0);
    let mut scat = Ray::new(v(0, 0, 0), v(0, 0, 0));
    assert!(m.scatter(&ray, &rec, v(1000, 0, 0), &mut att, &mut scat));
    assert_eq!(scat.direction(), v(500, 0, UNIT_SCALE));
}

#[test]
fn background_blends_by_vertical_direction() {
    // Straight up: the far blend endpoint.
    assert_eq!(background(v(0, 2, 0)), v(68000, 80000, 92000));
    // Straight down: the near endpoint, a uniform gray.
    assert_eq!(background(v(0, -2, 0)), v(80000, 80000, 80000));
    // Horizontal: the midpoint.
    assert_eq!(background(v(2, 0, 0)), v(74000, 80000, 86000));
}

#[test]
fn camera_frame_and_rays() {
    // A 90-degree camera at the origin looking down -z.
    let cam = Camera::new(
        v(0, 0, 0),
        v(0, 0, -4),
        v(0, 16, 0),
        Rat::new(1, 1),
        Rat::new(1, 1),
    );
    // The center of the viewport lies straight ahead.
    let ray = cam.get_ray(Rat::new(1, 2), Rat::new(1, 2));
    assert_eq!(ray.origin(), v(0, 0, 0));
    assert_eq!(ray.direction(), v(0, 0, -UNIT_SCALE));
    // The corners lean out by one viewport half-extent per axis.
    let corner = cam.get_ray(Rat::new(0, 1), Rat::new(0, 1));
    let d = corner.direction();
    assert!(d.x() < 0 && d.y() < 0 && d.z() < 0);
    assert_eq!(d.x(), d.y());
    assert_eq!(d.x(), d.z());
}
