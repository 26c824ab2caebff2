//! The intersection record and the shared orientation policy.

use vstd::prelude::*;
use crate::math::lemma_mul_bound;
use crate::rat::{Rat, RAT_MAX};
use crate::vec3::{Vec3, dot3, neg_spec, NORM_MAX, SLIM_MAX};
use crate::ray::{Ray, RatVec3};

verus! {

/// The record of one intersection: the hit point, a surface normal oriented
/// against the incoming ray (scale-free: only its direction is meaningful),
/// the index of the surface's material, the ray parameter of the hit, and
/// whether the ray struck the front (outward) face.
#[derive(Clone, Copy, Debug)]
pub struct HitRecord {
    pub p: RatVec3,
    pub normal: Vec3,
    pub mat: Option<usize>,
    pub t: Rat,
    pub front_face: bool,
}

impl HitRecord {
    /// The magnitude caps every populated record obeys, so its fields can
    /// feed further exact arithmetic.
    pub open spec fn in_caps(self) -> bool {
        &&& self.p.wf()
        &&& self.normal.bounded(NORM_MAX as int)
        &&& self.t.wf()
        &&& self.t.bounded(RAT_MAX as int)
    }

    /// An empty record, to be populated by an intersection query.
    pub fn new() -> (r: HitRecord)
        ensures
            r.p.num == (Vec3 { x: 0, y: 0, z: 0 }),
            r.p.den == 1,
            r.normal == (Vec3 { x: 0, y: 0, z: 0 }),
            r.mat is None,
            r.t == (Rat { num: 0, den: 1 }),
            !r.front_face,
            r.in_caps(),
    {
        HitRecord {
            p: RatVec3::zero(),
            normal: Vec3 { x: 0, y: 0, z: 0 },
            mat: None,
            t: Rat { num: 0, den: 1 },
            front_face: false,
        }
    }

    /// The orientation policy every shape shares: the stored normal is the
    /// outward normal if that opposes the ray, else its negation, so the
    /// stored normal never points along the incoming ray.
    pub fn set_face_normal(&mut self, r: &Ray, outward_normal: Vec3)
        requires
            old(self).in_caps(),
            r.wf(),
            outward_normal.bounded(NORM_MAX as int),
        ensures
            final(self).front_face == (dot3(r.dir, outward_normal) < 0),
            final(self).normal == if dot3(r.dir, outward_normal) < 0 {
                outward_normal
            } else {
                neg_spec(outward_normal)
            },
            dot3(r.dir, final(self).normal) <= 0,
            final(self).p == old(self).p,
            final(self).mat == old(self).mat,
            final(self).t == old(self).t,
            final(self).in_caps(),
    {
        let d = Vec3::dot_wide(outward_normal, r.direction());
        self.front_face = d < 0;
        if self.front_face {
            self.normal = outward_normal;
        } else {
            self.normal = Vec3 {
                x: -outward_normal.x,
                y: -outward_normal.y,
                z: -outward_normal.z,
            };
            proof {
                lemma_dot_neg(r.dir, outward_normal);
            }
        }
    }
}

/// Any surface the scene can hold, dispatched as a closed sum so one
/// intersection contract covers them all.
#[derive(Clone, Copy, Debug)]
pub enum Hittable {
    Sphere(crate::sphere::Sphere),
    Plane(crate::plane::Plane),
    Cube(crate::cube::Cube),
    Cylinder(crate::cylinder::Cylinder),
}

impl Hittable {
    /// The index of the surface's material.
    pub open spec fn mat_index(self) -> usize {
        match self {
            Hittable::Sphere(s) => s.mat,
            Hittable::Plane(p) => p.mat,
            Hittable::Cube(c) => c.mat,
            Hittable::Cylinder(c) => c.mat,
        }
    }

    pub open spec fn wf(self) -> bool {
        match self {
            Hittable::Sphere(s) => s.wf(),
            Hittable::Plane(p) => p.wf(),
            Hittable::Cube(c) => c.wf(),
            Hittable::Cylinder(c) => c.wf(),
        }
    }

    /// The record this surface reports for the ray on `(t_min, t_max)`, if
    /// it hits.
    pub open spec fn hit_spec(self, ray: Ray, t_min: Rat, t_max: Rat) -> Option<HitRecord> {
        match self {
            Hittable::Sphere(s) => match s.hit_t(ray, t_min, t_max) {
                Some(t) => Some(s.hit_rec(ray, t)),
                None => None,
            },
            Hittable::Plane(p) => match p.hit_t(ray, t_min, t_max) {
                Some(t) => Some(p.hit_rec(ray, t)),
                None => None,
            },
            Hittable::Cube(c) => match c.hit_t(ray, t_min, t_max) {
                Some(t) => Some(c.hit_rec(ray, t)),
                None => None,
            },
            Hittable::Cylinder(c) => match c.hit_part(ray, t_min, t_max) {
                Some((t, part)) => Some(c.hit_rec(ray, t, part)),
                None => None,
            },
        }
    }

    /// Surface intersection restricted to `(t_min, t_max)`: on a hit the
    /// record is populated exactly as `hit_spec` describes, with the stored
    /// normal oriented against the incoming ray.
    pub fn hit(&self, r: &Ray, t_min: Rat, t_max: Rat, rec: &mut HitRecord) -> (ret: bool)
        requires
            self.wf(),
            r.wf(),
            t_min.wf(),
            t_min.bounded(RAT_MAX as int),
            t_max.wf(),
            t_max.bounded(RAT_MAX as int),
            old(rec).in_caps(),
        ensures
            ret == (self.hit_spec(*r, t_min, t_max) is Some),
            !ret ==> *final(rec) == *old(rec),
            ret ==> ({
                let hr = self.hit_spec(*r, t_min, t_max).unwrap();
                &&& *final(rec) == hr
                &&& t_min.lt_spec(hr.t) && hr.t.lt_spec(t_max)
                &&& hr.in_caps()
                &&& hr.mat == Some(self.mat_index())
                &&& dot3(r.dir, hr.normal) <= 0
            }),
    {
        match self {
            Hittable::Sphere(s) => s.hit(r, t_min, t_max, rec),
            Hittable::Plane(p) => p.hit(r, t_min, t_max, rec),
            Hittable::Cube(c) => c.hit(r, t_min, t_max, rec),
            Hittable::Cylinder(c) => c.hit(r, t_min, t_max, rec),
        }
    }
}

/// Negating one side negates a dot product.
pub proof fn lemma_dot_neg(u: Vec3, v: Vec3)
    by (nonlinear_arith)
    requires
        v.bounded(NORM_MAX as int),
    ensures
        dot3(u, neg_spec(v)) == -dot3(u, v),
{
}

} // verus!
