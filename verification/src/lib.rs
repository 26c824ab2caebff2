//! An exact-arithmetic path-tracing core.
//!
//! The library implements the intersection-and-shading pipeline of an offline
//! renderer: ray/primitive intersection (sphere, plane, axis-aligned cube,
//! capped cylinder, and an aggregate list with closest-hit semantics), a
//! scattering model (diffuse and specular materials), camera ray generation,
//! and the recursive integrator that estimates the color seen along a ray.
//!
//! All geometry is carried out over exact integer arithmetic: world
//! coordinates are plain integers (callers pick the granularity of a world
//! unit), ray parameters are explicit rationals formed at division points, and
//! square roots are taken with a verified integer square-root floor. Every
//! intersection decision (discriminant sign, root selection, interval and slab
//! tests, closest-hit ordering, normal orientation, scatter acceptance) is
//! exact; only the magnitudes of reported positions and directions are
//! quantized, in ways each contract states precisely.
//!
//! Randomness is consumed, not produced: sampling functions take the uniform
//! draws they need as arguments, so the whole pipeline is a deterministic
//! function of its inputs.

pub mod math;
pub mod rat;
pub mod vec3;
pub mod ray;
pub mod hittable;
pub mod sphere;
pub mod plane;
pub mod cube;
pub mod cylinder;
pub mod hittable_list;
pub mod material;
pub mod camera;
pub mod color;
pub mod integrator;
