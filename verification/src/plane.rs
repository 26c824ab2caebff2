//! Infinite planes: linear ray intersection.

use vstd::prelude::*;
use crate::math::lemma_mul_bound;
use crate::rat::{Rat, RAT_MAX};
use crate::vec3::{Vec3, dot3, sub_spec, neg_spec, lemma_dot_bound, UNIT_SCALE, POS_MAX, DIR_MAX, VEC_MAX};
use crate::ray::{Ray, ray_at_spec};
use crate::hittable::HitRecord;

verus! {

/// A plane through a point, with a stored normal of magnitude `UNIT_SCALE`.
#[derive(Clone, Copy, Debug)]
pub struct Plane {
    pub point: Vec3,
    pub normal: Vec3,
    pub mat: usize,
}

impl Plane {
    /// Point inside the scene cap; normal nonzero and of normalized size.
    pub open spec fn wf(self) -> bool {
        self.point.bounded(POS_MAX as int) && self.normal.bounded(UNIT_SCALE as int)
            && !self.normal.is_zero()
    }

    /// The stored normal is the given one rescaled to magnitude `UNIT_SCALE`.
    pub fn new(point: Vec3, normal: Vec3, mat: usize) -> (p: Plane)
        requires
            point.bounded(POS_MAX as int),
            normal.bounded(VEC_MAX as int),
            !normal.is_zero(),
        ensures
            p.point == point,
            p.normal == crate::vec3::normalize_spec(normal),
            p.mat == mat,
            p.wf(),
    {
        Plane { point, normal: Vec3::unit_vector(normal), mat }
    }

    /// How fast the ray approaches the plane: zero means parallel.
    pub open spec fn denom(self, ray: Ray) -> int {
        dot3(self.normal, ray.dir)
    }

    /// The scaled distance from the ray origin to the plane.
    pub open spec fn numer(self, ray: Ray) -> int {
        dot3(sub_spec(self.point, ray.orig), self.normal)
    }

    /// The ray parameter of the hit, if any: the unique crossing parameter
    /// when the ray is not parallel to the plane and the crossing lies
    /// strictly inside `(t_min, t_max)`. A parallel ray (including one lying
    /// in the plane) is a miss.
    pub open spec fn hit_t(self, ray: Ray, t_min: Rat, t_max: Rat) -> Option<Rat> {
        let dn = self.denom(ray);
        if dn == 0 {
            None
        } else {
            let t = if dn > 0 {
                Rat { num: self.numer(ray) as i128, den: dn as i128 }
            } else {
                Rat { num: (-self.numer(ray)) as i128, den: (-dn) as i128 }
            };
            if t_min.lt_spec(t) && t.lt_spec(t_max) {
                Some(t)
            } else {
                None
            }
        }
    }

    /// The record a hit at parameter `t` populates.
    pub open spec fn hit_rec(self, ray: Ray, t: Rat) -> HitRecord {
        let front = dot3(ray.dir, self.normal) < 0;
        HitRecord {
            p: ray_at_spec(ray, t),
            normal: if front {
                self.normal
            } else {
                neg_spec(self.normal)
            },
            mat: Some(self.mat),
            t,
            front_face: front,
        }
    }

    /// Linear ray intersection. On a hit, the record is populated exactly as
    /// `hit_rec` describes, with the stored plane normal oriented against the
    /// incoming ray.
    pub fn hit(&self, r: &Ray, t_min: Rat, t_max: Rat, rec: &mut HitRecord) -> (ret: bool)
        requires
            self.wf(),
            r.wf(),
            t_min.wf(),
            t_min.bounded(RAT_MAX as int),
            t_max.wf(),
            t_max.bounded(RAT_MAX as int),
            old(rec).in_caps(),
        ensures
            ret == (self.hit_t(*r, t_min, t_max) is Some),
            !ret ==> *final(rec) == *old(rec),
            ret ==> *final(rec) == self.hit_rec(*r, self.hit_t(*r, t_min, t_max).unwrap()),
            ret ==> ({
                let t = self.hit_t(*r, t_min, t_max).unwrap();
                &&& t_min.lt_spec(t) && t.lt_spec(t_max)
                &&& t.wf() && t.bounded(RAT_MAX as int)
                &&& final(rec).t == t
                &&& final(rec).mat == Some(self.mat)
                &&& final(rec).in_caps()
                &&& dot3(r.dir, final(rec).normal) <= 0
            }),
    {
        proof {
            lemma_dot_bound(self.normal, r.dir, 0x2_0000int, 0x20_0000int);
        }
        let denom = Vec3::dot(self.normal, r.direction());
        if denom == 0 {
            return false;
        }
        let diff = self.point.vsub(r.origin());
        proof {
            assert(diff == sub_spec(self.point, r.orig));
            lemma_dot_bound(diff, self.normal, 0x20_0000_0000int, 0x2_0000int);
        }
        let num = Vec3::dot(diff, self.normal);
        let t = if denom > 0 {
            Rat::new(num, denom)
        } else {
            Rat::new(-num, -denom)
        };
        if t_min.lt(&t) && t.lt(&t_max) {
            rec.t = t;
            rec.p = r.at(t);
            rec.set_face_normal(r, self.normal);
            rec.mat = Some(self.mat);
            true
        } else {
            false
        }
    }
}

} // verus!
