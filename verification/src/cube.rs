//! Axis-aligned boxes: slab-method ray intersection.

use vstd::prelude::*;
use crate::rat::{Rat, RAT_MAX};
use crate::vec3::{Vec3, dot3, neg_spec, POS_MAX};
use crate::ray::{Ray, ray_at_spec};
use crate::hittable::HitRecord;

verus! {

/// The larger of two rationals by value; on a tie, the first.
pub open spec fn rat_max(a: Rat, b: Rat) -> Rat {
    if a.lt_spec(b) {
        b
    } else {
        a
    }
}

/// The smaller of two rationals by value; on a tie, the first.
pub open spec fn rat_min(a: Rat, b: Rat) -> Rat {
    if b.lt_spec(a) {
        b
    } else {
        a
    }
}

/// An axis-aligned box between two opposite corners, `min` strictly below
/// `max` on every axis.
#[derive(Clone, Copy, Debug)]
pub struct Cube {
    pub min: Vec3,
    pub max: Vec3,
    pub mat: usize,
}

/// The slab-entry parameter on one axis with nonzero direction component.
pub open spec fn axis_lo(o: int, d: int, lo: int, hi: int) -> Rat {
    if d > 0 {
        Rat { num: (lo - o) as i128, den: d as i128 }
    } else {
        Rat { num: (o - hi) as i128, den: (-d) as i128 }
    }
}

/// The slab-exit parameter on one axis with nonzero direction component.
pub open spec fn axis_hi(o: int, d: int, lo: int, hi: int) -> Rat {
    if d > 0 {
        Rat { num: (hi - o) as i128, den: d as i128 }
    } else {
        Rat { num: (o - lo) as i128, den: (-d) as i128 }
    }
}

impl Cube {
    pub open spec fn wf(self) -> bool {
        &&& self.min.bounded(POS_MAX as int)
        &&& self.max.bounded(POS_MAX as int)
        &&& self.min.x < self.max.x
        &&& self.min.y < self.max.y
        &&& self.min.z < self.max.z
    }

    pub fn new(min: Vec3, max: Vec3, mat: usize) -> (c: Cube)
        requires
            min.bounded(POS_MAX as int),
            max.bounded(POS_MAX as int),
            min.x < max.x,
            min.y < max.y,
            min.z < max.z,
        ensures
            c.min == min,
            c.max == max,
            c.mat == mat,
            c.wf(),
    {
        Cube { min, max, mat }
    }

    /// An axis whose direction component is zero constrains the ray to start
    /// strictly inside that slab; otherwise the ray misses outright.
    pub open spec fn parallel_ok(self, ray: Ray) -> bool {
        &&& (ray.dir.x == 0 ==> self.min.x < ray.orig.x < self.max.x)
        &&& (ray.dir.y == 0 ==> self.min.y < ray.orig.y < self.max.y)
        &&& (ray.dir.z == 0 ==> self.min.z < ray.orig.z < self.max.z)
    }

    /// The overall entry parameter: the largest slab entry over the axes with
    /// nonzero direction component (meaningful only when one exists).
    pub open spec fn entry(self, ray: Ray) -> Rat {
        let ex = axis_lo(ray.orig.x as int, ray.dir.x as int, self.min.x as int, self.max.x as int);
        let ey = axis_lo(ray.orig.y as int, ray.dir.y as int, self.min.y as int, self.max.y as int);
        let ez = axis_lo(ray.orig.z as int, ray.dir.z as int, self.min.z as int, self.max.z as int);
        if ray.dir.x != 0 {
            let e = ex;
            let e = if ray.dir.y != 0 {
                rat_max(e, ey)
            } else {
                e
            };
            if ray.dir.z != 0 {
                rat_max(e, ez)
            } else {
                e
            }
        } else if ray.dir.y != 0 {
            if ray.dir.z != 0 {
                rat_max(ey, ez)
            } else {
                ey
            }
        } else {
            ez
        }
    }

    /// The overall exit parameter: the smallest slab exit over the axes with
    /// nonzero direction component (meaningful only when one exists).
    pub open spec fn exit(self, ray: Ray) -> Rat {
        let ex = axis_hi(ray.orig.x as int, ray.dir.x as int, self.min.x as int, self.max.x as int);
        let ey = axis_hi(ray.orig.y as int, ray.dir.y as int, self.min.y as int, self.max.y as int);
        let ez = axis_hi(ray.orig.z as int, ray.dir.z as int, self.min.z as int, self.max.z as int);
        if ray.dir.x != 0 {
            let e = ex;
            let e = if ray.dir.y != 0 {
                rat_min(e, ey)
            } else {
                e
            };
            if ray.dir.z != 0 {
                rat_min(e, ez)
            } else {
                e
            }
        } else if ray.dir.y != 0 {
            if ray.dir.z != 0 {
                rat_min(ey, ez)
            } else {
                ey
            }
        } else {
            ez
        }
    }

    /// The ray parameter of the hit, if any: the slab entry, accepted when it
    /// precedes the slab exit and lies strictly inside `(t_min, t_max)`.
    /// A ray parallel to every axis, or starting outside a slab it cannot
    /// cross, is a miss.
    pub open spec fn hit_t(self, ray: Ray, t_min: Rat, t_max: Rat) -> Option<Rat> {
        if ray.dir.is_zero() || !self.parallel_ok(ray) {
            None
        } else {
            let en = self.entry(ray);
            let ex = self.exit(ray);
            if en.lt_spec(ex) && t_min.lt_spec(en) && en.lt_spec(t_max) {
                Some(en)
            } else {
                None
            }
        }
    }

    /// The outward face direction: the positive unit axis of the slab whose
    /// entry parameter equals the overall entry, ties broken in the order
    /// x, y, z. (Orientation toward the outside is restored by the shared
    /// orientation policy.)
    pub open spec fn face_axis(self, ray: Ray) -> Vec3 {
        let en = self.entry(ray);
        let ex = axis_lo(ray.orig.x as int, ray.dir.x as int, self.min.x as int, self.max.x as int);
        let ey = axis_lo(ray.orig.y as int, ray.dir.y as int, self.min.y as int, self.max.y as int);
        if ray.dir.x != 0 && en.eq_spec(ex) {
            Vec3 { x: 1, y: 0, z: 0 }
        } else if ray.dir.y != 0 && en.eq_spec(ey) {
            Vec3 { x: 0, y: 1, z: 0 }
        } else {
            Vec3 { x: 0, y: 0, z: 1 }
        }
    }

    /// The record a hit at parameter `t` populates.
    pub open spec fn hit_rec(self, ray: Ray, t: Rat) -> HitRecord {
        let outward = self.face_axis(ray);
        let front = dot3(ray.dir, outward) < 0;
        HitRecord {
            p: ray_at_spec(ray, t),
            normal: if front {
                outward
            } else {
                neg_spec(outward)
            },
            mat: Some(self.mat),
            t,
            front_face: front,
        }
    }

    /// Slab-method ray intersection.
    pub fn hit(&self, r: &Ray, t_min: Rat, t_max: Rat, rec: &mut HitRecord) -> (ret: bool)
        requires
            self.wf(),
            r.wf(),
            t_min.wf(),
            t_min.bounded(RAT_MAX as int),
            t_max.wf(),
            t_max.bounded(RAT_MAX as int),
            old(rec).in_caps(),
        ensures
            ret == (self.hit_t(*r, t_min, t_max) is Some),
            !ret ==> *final(rec) == *old(rec),
            ret ==> *final(rec) == self.hit_rec(*r, self.hit_t(*r, t_min, t_max).unwrap()),
            ret ==> ({
                let t = self.hit_t(*r, t_min, t_max).unwrap();
                &&& t_min.lt_spec(t) && t.lt_spec(t_max)
                &&& t.wf() && t.bounded(RAT_MAX as int)
                &&& final(rec).t == t
                &&& final(rec).mat == Some(self.mat)
                &&& final(rec).in_caps()
                &&& dot3(r.dir, final(rec).normal) <= 0
            }),
    {
        let d = r.direction();
        let o = r.origin();
        if d.x == 0 && !(self.min.x < o.x && o.x < self.max.x) {
            return false;
        }
        if d.y == 0 && !(self.min.y < o.y && o.y < self.max.y) {
            return false;
        }
        if d.z == 0 && !(self.min.z < o.z && o.z < self.max.z) {
            return false;
        }
        if d.x == 0 && d.y == 0 && d.z == 0 {
            return false;
        }
        let lo_x = self.axis_lo_x(r);
        let hi_x = self.axis_hi_x(r);
        let lo_y = self.axis_lo_y(r);
        let hi_y = self.axis_hi_y(r);
        let lo_z = self.axis_lo_z(r);
        let hi_z = self.axis_hi_z(r);
        let mut en = if d.x != 0 {
            lo_x
        } else if d.y != 0 {
            lo_y
        } else {
            lo_z
        };
        if d.x != 0 && d.y != 0 && en.lt(&lo_y) {
            en = lo_y;
        }
        if (d.x != 0 || d.y != 0) && d.z != 0 && en.lt(&lo_z) {
            en = lo_z;
        }
        let mut ex = if d.x != 0 {
            hi_x
        } else if d.y != 0 {
            hi_y
        } else {
            hi_z
        };
        if d.x != 0 && d.y != 0 && hi_y.lt(&ex) {
            ex = hi_y;
        }
        if (d.x != 0 || d.y != 0) && d.z != 0 && hi_z.lt(&ex) {
            ex = hi_z;
        }
        proof {
            assert(en == self.entry(*r));
            assert(ex == self.exit(*r));
        }
        if en.lt(&ex) && t_min.lt(&en) && en.lt(&t_max) {
            rec.t = en;
            rec.p = r.at(en);
            let outward = if d.x != 0 && en.eq_val(&lo_x) {
                Vec3 { x: 1, y: 0, z: 0 }
            } else if d.y != 0 && en.eq_val(&lo_y) {
                Vec3 { x: 0, y: 1, z: 0 }
            } else {
                Vec3 { x: 0, y: 0, z: 1 }
            };
            proof {
                assert(outward == self.face_axis(*r));
            }
            rec.set_face_normal(r, outward);
            rec.mat = Some(self.mat);
            true
        } else {
            false
        }
    }

    /// One slab bound on the x axis (direction component nonzero).
    fn axis_lo_x(&self, r: &Ray) -> (t: Rat)
        requires
            self.wf(),
            r.wf(),
        ensures
            r.dir.x != 0 ==> t == axis_lo(
                r.orig.x as int,
                r.dir.x as int,
                self.min.x as int,
                self.max.x as int,
            ) && t.wf() && t.bounded(RAT_MAX as int),
    {
        if r.dir.x > 0 {
            Rat { num: self.min.x - r.orig.x, den: r.dir.x }
        } else if r.dir.x < 0 {
            Rat { num: r.orig.x - self.max.x, den: -r.dir.x }
        } else {
            Rat { num: 0, den: 1 }
        }
    }

    fn axis_hi_x(&self, r: &Ray) -> (t: Rat)
        requires
            self.wf(),
            r.wf(),
        ensures
            r.dir.x != 0 ==> t == axis_hi(
                r.orig.x as int,
                r.dir.x as int,
                self.min.x as int,
                self.max.x as int,
            ) && t.wf() && t.bounded(RAT_MAX as int),
    {
        if r.dir.x > 0 {
            Rat { num: self.max.x - r.orig.x, den: r.dir.x }
        } else if r.dir.x < 0 {
            Rat { num: r.orig.x - self.min.x, den: -r.dir.x }
        } else {
            Rat { num: 0, den: 1 }
        }
    }

    fn axis_lo_y(&self, r: &Ray) -> (t: Rat)
        requires
            self.wf(),
            r.wf(),
        ensures
            r.dir.y != 0 ==> t == axis_lo(
                r.orig.y as int,
                r.dir.y as int,
                self.min.y as int,
                self.max.y as int,
            ) && t.wf() && t.bounded(RAT_MAX as int),
    {
        if r.dir.y > 0 {
            Rat { num: self.min.y - r.orig.y, den: r.dir.y }
        } else if r.dir.y < 0 {
            Rat { num: r.orig.y - self.max.y, den: -r.dir.y }
        } else {
            Rat { num: 0, den: 1 }
        }
    }

    fn axis_hi_y(&self, r: &Ray) -> (t: Rat)
        requires
            self.wf(),
            r.wf(),
        ensures
            r.dir.y != 0 ==> t == axis_hi(
                r.orig.y as int,
                r.dir.y as int,
                self.min.y as int,
                self.max.y as int,
            ) && t.wf() && t.bounded(RAT_MAX as int),
    {
        if r.dir.y > 0 {
            Rat { num: self.max.y - r.orig.y, den: r.dir.y }
        } else if r.dir.y < 0 {
            Rat { num: r.orig.y - self.min.y, den: -r.dir.y }
        } else {
            Rat { num: 0, den: 1 }
        }
    }

    fn axis_lo_z(&self, r: &Ray) -> (t: Rat)
        requires
            self.wf(),
            r.wf(),
        ensures
            r.dir.z != 0 ==> t == axis_lo(
                r.orig.z as int,
                r.dir.z as int,
                self.min.z as int,
                self.max.z as int,
            ) && t.wf() && t.bounded(RAT_MAX as int),
    {
        if r.dir.z > 0 {
            Rat { num: self.min.z - r.orig.z, den: r.dir.z }
        } else if r.dir.z < 0 {
            Rat { num: r.orig.z - self.max.z, den: -r.dir.z }
        } else {
            Rat { num: 0, den: 1 }
        }
    }

    fn axis_hi_z(&self, r: &Ray) -> (t: Rat)
        requires
            self.wf(),
            r.wf(),
        ensures
            r.dir.z != 0 ==> t == axis_hi(
                r.orig.z as int,
                r.dir.z as int,
                self.min.z as int,
                self.max.z as int,
            ) && t.wf() && t.bounded(RAT_MAX as int),
    {
        if r.dir.z > 0 {
            Rat { num: self.max.z - r.orig.z, den: r.dir.z }
        } else if r.dir.z < 0 {
            Rat { num: r.orig.z - self.min.z, den: -r.dir.z }
        } else {
            Rat { num: 0, den: 1 }
        }
    }
}

} // verus!
