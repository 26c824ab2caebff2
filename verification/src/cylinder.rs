//! Capped cylinders: lateral quadratic intersection plus two cap disks,
//! keeping the nearest accepted candidate.

use vstd::prelude::*;
use crate::math::{abs_i, isqrt, is_isqrt, int_sqrt, lemma_mul_bound, lemma_isqrt_le};
use crate::rat::{Rat, RAT_MAX};
use crate::vec3::{Vec3, dot3, neg_spec, POS_MAX};
use crate::ray::{Ray, ray_at_spec};
use crate::hittable::HitRecord;

verus! {

/// Which part of the cylinder a candidate hit lies on.
#[derive(Clone, Copy, Debug, PartialEq, Eq, Structural)]
pub enum CylPart {
    Side,
    Bottom,
    Top,
}

/// Fold one candidate into the running nearest-hit state: accept it when its
/// own test passed and it lies strictly inside `(t_min, closest)`.
pub open spec fn consider(
    acc: Option<(Rat, CylPart)>,
    closest: Rat,
    cand: Rat,
    part: CylPart,
    ok: bool,
    t_min: Rat,
) -> (Option<(Rat, CylPart)>, Rat) {
    if ok && t_min.lt_spec(cand) && cand.lt_spec(closest) {
        (Some((cand, part)), cand)
    } else {
        (acc, closest)
    }
}

/// Folding a candidate keeps the running bound under `t_max` and any
/// accepted winner strictly under `t_max`.
proof fn lemma_consider_keeps(
    acc: Option<(Rat, CylPart)>,
    closest: Rat,
    cand: Rat,
    part: CylPart,
    ok: bool,
    t_min: Rat,
    t_max: Rat,
)
    requires
        closest.wf(),
        t_max.wf(),
        ok ==> cand.wf(),
        closest.le_spec(t_max),
        acc matches Some(p) ==> p.0.lt_spec(t_max),
    ensures
        ({
            let s = consider(acc, closest, cand, part, ok, t_min);
            &&& s.1.wf()
            &&& s.1.le_spec(t_max)
            &&& (s.0 matches Some(p) ==> p.0.lt_spec(t_max))
        }),
{
    if ok && t_min.lt_spec(cand) && cand.lt_spec(closest) {
        crate::rat::lemma_rat_lt_le_trans(cand, closest, t_max);
    }
}

/// A vertical capped cylinder: center of the bottom cap, height, radius, and
/// the index of its material.
#[derive(Clone, Copy, Debug)]
pub struct Cylinder {
    pub base: Vec3,
    pub height: i128,
    pub radius: i128,
    pub mat: usize,
}

impl Cylinder {
    pub open spec fn wf(self) -> bool {
        self.base.bounded(POS_MAX as int) && 1 <= self.height <= POS_MAX && 1 <= self.radius
            <= POS_MAX
    }

    pub fn new(base: Vec3, height: i128, radius: i128, mat: usize) -> (c: Cylinder)
        requires
            base.bounded(POS_MAX as int),
            1 <= height <= POS_MAX,
            1 <= radius <= POS_MAX,
        ensures
            c.base == base,
            c.height == height,
            c.radius == radius,
            c.mat == mat,
            c.wf(),
    {
        Cylinder { base, height, radius, mat }
    }

    /// Leading coefficient of the lateral quadratic, in the two axes
    /// orthogonal to the cylinder axis.
    pub open spec fn lat_a(self, ray: Ray) -> int {
        (ray.dir.x as int) * (ray.dir.x as int) + (ray.dir.z as int) * (ray.dir.z as int)
    }

    /// Half the linear coefficient of the lateral quadratic.
    pub open spec fn lat_hb(self, ray: Ray) -> int {
        (ray.orig.x - self.base.x) * (ray.dir.x as int) + (ray.orig.z - self.base.z) * (
        ray.dir.z as int)
    }

    /// Constant coefficient of the lateral quadratic.
    pub open spec fn lat_c(self, ray: Ray) -> int {
        (ray.orig.x - self.base.x) * (ray.orig.x - self.base.x) + (ray.orig.z - self.base.z) * (
        ray.orig.z - self.base.z) - (self.radius as int) * (self.radius as int)
    }

    /// The quarter discriminant of the lateral quadratic.
    pub open spec fn lat_disc(self, ray: Ray) -> int {
        self.lat_hb(ray) * self.lat_hb(ray) - self.lat_a(ray) * self.lat_c(ray)
    }

    /// The smaller lateral root (meaningful when `lat_a != 0`, `disc >= 0`).
    pub open spec fn root1(self, ray: Ray) -> Rat {
        Rat {
            num: (-self.lat_hb(ray) - isqrt(self.lat_disc(ray))) as i128,
            den: self.lat_a(ray) as i128,
        }
    }

    /// The larger lateral root.
    pub open spec fn root2(self, ray: Ray) -> Rat {
        Rat {
            num: (-self.lat_hb(ray) + isqrt(self.lat_disc(ray))) as i128,
            den: self.lat_a(ray) as i128,
        }
    }

    /// A lateral candidate's height coordinate lies within `[0, height]`
    /// (stated scaled by the candidate's positive denominator).
    pub open spec fn y_ok(self, ray: Ray, t: Rat) -> bool {
        let yh = (ray.orig.y - self.base.y) * (t.den as int) + (t.num as int) * (ray.dir.y as int);
        0 <= yh <= (self.height as int) * (t.den as int)
    }

    /// The crossing parameter of the horizontal plane `y == ycap`
    /// (meaningful when `dir.y != 0`).
    pub open spec fn cap_t(self, ray: Ray, ycap: int) -> Rat {
        if ray.dir.y > 0 {
            Rat { num: (ycap - ray.orig.y) as i128, den: ray.dir.y }
        } else {
            Rat { num: (ray.orig.y - ycap) as i128, den: (-ray.dir.y) as i128 }
        }
    }

    /// A cap candidate's hit point lies within the cap disk (stated scaled
    /// by the candidate's positive denominator).
    pub open spec fn radial_ok(self, ray: Ray, t: Rat) -> bool {
        let p = ray_at_spec(ray, t);
        let rx = p.num.x as int - (self.base.x as int) * (p.den as int);
        let rz = p.num.z as int - (self.base.z as int) * (p.den as int);
        rx * rx + rz * rz <= (self.radius as int) * (self.radius as int) * ((p.den as int) * (
        p.den as int))
    }

    /// The nearest accepted candidate over the two lateral roots, the bottom
    /// cap and the top cap, considered in that order with a shrinking upper
    /// bound: a later candidate replaces an earlier one only when strictly
    /// nearer. A ray parallel to the axis skips the lateral surface; one
    /// orthogonal to it skips the caps.
    pub open spec fn hit_part(self, ray: Ray, t_min: Rat, t_max: Rat) -> Option<(Rat, CylPart)> {
        let lat = self.lat_a(ray) != 0 && self.lat_disc(ray) >= 0;
        let s1 = consider(
            None,
            t_max,
            self.root1(ray),
            CylPart::Side,
            lat && self.y_ok(ray, self.root1(ray)),
            t_min,
        );
        let s2 = consider(
            s1.0,
            s1.1,
            self.root2(ray),
            CylPart::Side,
            lat && self.y_ok(ray, self.root2(ray)),
            t_min,
        );
        let tb = self.cap_t(ray, self.base.y as int);
        let s3 = consider(
            s2.0,
            s2.1,
            tb,
            CylPart::Bottom,
            ray.dir.y != 0 && self.radial_ok(ray, tb),
            t_min,
        );
        let tt = self.cap_t(ray, self.base.y + self.height);
        let s4 = consider(
            s3.0,
            s3.1,
            tt,
            CylPart::Top,
            ray.dir.y != 0 && self.radial_ok(ray, tt),
            t_min,
        );
        s4.0
    }

    /// The outward direction at a hit on the given part: radial for the
    /// lateral surface, a vertical unit for the caps.
    pub open spec fn outward_at(self, ray: Ray, t: Rat, part: CylPart) -> Vec3 {
        match part {
            CylPart::Side => {
                let p = ray_at_spec(ray, t);
                Vec3 {
                    x: (p.num.x as int - (self.base.x as int) * (p.den as int)) as i128,
                    y: 0,
                    z: (p.num.z as int - (self.base.z as int) * (p.den as int)) as i128,
                }
            },
            CylPart::Bottom => Vec3 { x: 0, y: -1i128, z: 0 },
            CylPart::Top => Vec3 { x: 0, y: 1, z: 0 },
        }
    }

    /// The record a hit at parameter `t` on the given part populates.
    pub open spec fn hit_rec(self, ray: Ray, t: Rat, part: CylPart) -> HitRecord {
        let outward = self.outward_at(ray, t, part);
        let front = dot3(ray.dir, outward) < 0;
        HitRecord {
            p: ray_at_spec(ray, t),
            normal: if front {
                outward
            } else {
                neg_spec(outward)
            },
            mat: Some(self.mat),
            t,
            front_face: front,
        }
    }

    /// Magnitude bounds on the lateral quadratic for a well-formed cylinder
    /// and ray.
    proof fn lemma_lat_bounds(self, ray: Ray)
        requires
            self.wf(),
            ray.wf(),
        ensures
            0 <= self.lat_a(ray) < 0x1000_0000_0000i128,
            abs_i(self.lat_hb(ray)) < 0x1000_0000_0000_0000i128,
            abs_i(self.lat_c(ray)) < 0x1000_0000_0000_0000_0000i128,
            0 <= self.lat_disc(ray) ==> 0 <= isqrt(self.lat_disc(ray)) <= 0x2000_0000_0000_0000i128
                && is_isqrt(self.lat_disc(ray), isqrt(self.lat_disc(ray))),
            abs_i(self.lat_disc(ray)) < 0x400_0000_0000_0000_0000_0000_0000_0000i128,
    {
        lemma_mul_bound(ray.dir.x as int, ray.dir.x as int, 0x20_0000int, 0x20_0000int);
        lemma_mul_bound(ray.dir.z as int, ray.dir.z as int, 0x20_0000int, 0x20_0000int);
        lemma_mul_bound(ray.orig.x - self.base.x, ray.dir.x as int, 0x20_0000_0000int, 0x20_0000int);
        lemma_mul_bound(ray.orig.z - self.base.z, ray.dir.z as int, 0x20_0000_0000int, 0x20_0000int);
        lemma_mul_bound(
            ray.orig.x - self.base.x,
            ray.orig.x - self.base.x,
            0x20_0000_0000int,
            0x20_0000_0000int,
        );
        lemma_mul_bound(
            ray.orig.z - self.base.z,
            ray.orig.z - self.base.z,
            0x20_0000_0000int,
            0x20_0000_0000int,
        );
        lemma_mul_bound(self.radius as int, self.radius as int, 0x10_0000_0000int, 0x10_0000_0000int);
        assert(self.lat_a(ray) >= 0) by (nonlinear_arith);
        lemma_mul_bound(
            self.lat_hb(ray),
            self.lat_hb(ray),
            0x1000_0000_0000_0000int,
            0x1000_0000_0000_0000int,
        );
        lemma_mul_bound(
            self.lat_a(ray),
            self.lat_c(ray),
            0x1000_0000_0000int,
            0x1000_0000_0000_0000_0000int,
        );
        if 0 <= self.lat_disc(ray) {
            crate::math::lemma_isqrt_exists(self.lat_disc(ray));
            let r = choose|r: int| #[trigger] is_isqrt(self.lat_disc(ray), r);
            crate::math::lemma_isqrt_is(self.lat_disc(ray), r);
            assert(0x2000_0000_0000_0000int * 0x2000_0000_0000_0000int
                == 0x400_0000_0000_0000_0000_0000_0000_0000int) by (nonlinear_arith);
            lemma_isqrt_le(self.lat_disc(ray), 0x2000_0000_0000_0000int);
        }
    }

    /// Ray intersection against the lateral surface and both caps, keeping
    /// the nearest accepted candidate.
    pub fn hit(&self, r: &Ray, t_min: Rat, t_max: Rat, rec: &mut HitRecord) -> (ret: bool)
        requires
            self.wf(),
            r.wf(),
            t_min.wf(),
            t_min.bounded(RAT_MAX as int),
            t_max.wf(),
            t_max.bounded(RAT_MAX as int),
            old(rec).in_caps(),
        ensures
            ret == (self.hit_part(*r, t_min, t_max) is Some),
            !ret ==> *final(rec) == *old(rec),
            ret ==> ({
                let (t, part) = self.hit_part(*r, t_min, t_max).unwrap();
                &&& *final(rec) == self.hit_rec(*r, t, part)
                &&& t_min.lt_spec(t) && t.lt_spec(t_max)
                &&& t.wf() && t.bounded(RAT_MAX as int)
                &&& final(rec).t == t
                &&& final(rec).mat == Some(self.mat)
                &&& final(rec).in_caps()
                &&& dot3(r.dir, final(rec).normal) <= 0
            }),
    {
        proof {
            self.lemma_lat_bounds(*r);
        }
        let d = r.direction();
        let o = r.origin();
        let mut found = false;
        let mut best_t = Rat { num: 0, den: 1 };
        let mut best_part = CylPart::Side;
        let mut closest = t_max;
        let ghost lat = self.lat_a(*r) != 0 && self.lat_disc(*r) >= 0;

        proof {
            lemma_mul_bound(d.x as int, d.x as int, 0x20_0000int, 0x20_0000int);
            lemma_mul_bound(d.z as int, d.z as int, 0x20_0000int, 0x20_0000int);
            lemma_mul_bound(o.x - self.base.x, d.x as int, 0x20_0000_0000int, 0x20_0000int);
            lemma_mul_bound(o.z - self.base.z, d.z as int, 0x20_0000_0000int, 0x20_0000int);
            lemma_mul_bound(o.x - self.base.x, o.x - self.base.x, 0x20_0000_0000int, 0x20_0000_0000int);
            lemma_mul_bound(o.z - self.base.z, o.z - self.base.z, 0x20_0000_0000int, 0x20_0000_0000int);
            lemma_mul_bound(self.radius as int, self.radius as int, 0x10_0000_0000int, 0x10_0000_0000int);
        }
        let a2 = d.x * d.x + d.z * d.z;
        let hb2 = (o.x - self.base.x) * d.x + (o.z - self.base.z) * d.z;
        let c2 = (o.x - self.base.x) * (o.x - self.base.x) + (o.z - self.base.z) * (o.z
            - self.base.z) - self.radius * self.radius;
        proof {
            lemma_mul_bound(hb2 as int, hb2 as int, 0x1000_0000_0000_0000int, 0x1000_0000_0000_0000int);
            lemma_mul_bound(a2 as int, c2 as int, 0x1000_0000_0000int, 0x1000_0000_0000_0000_0000int);
        }
        let disc = hb2 * hb2 - a2 * c2;
        if a2 != 0 && disc >= 0 {
            let s = int_sqrt(disc as u128) as i128;
            let rt1 = Rat { num: -hb2 - s, den: a2 };
            proof {
                assert(rt1 == self.root1(*r));
            }
            if t_min.lt(&rt1) && rt1.lt(&closest) && self.y_in_range(r, &rt1) {
                found = true;
                best_t = rt1;
                best_part = CylPart::Side;
                closest = rt1;
            }
            proof {
                assert((if found { Some((best_t, best_part)) } else { None::<(Rat, CylPart)> },
                closest) == consider(
                    None,
                    t_max,
                    self.root1(*r),
                    CylPart::Side,
                    lat && self.y_ok(*r, self.root1(*r)),
                    t_min,
                ));
            }
            let rt2 = Rat { num: -hb2 + s, den: a2 };
            proof {
                assert(rt2 == self.root2(*r));
            }
            if t_min.lt(&rt2) && rt2.lt(&closest) && self.y_in_range(r, &rt2) {
                found = true;
                best_t = rt2;
                best_part = CylPart::Side;
                closest = rt2;
            }
        }
        proof {
            let s1 = consider(
                None,
                t_max,
                self.root1(*r),
                CylPart::Side,
                lat && self.y_ok(*r, self.root1(*r)),
                t_min,
            );
            let s2 = consider(
                s1.0,
                s1.1,
                self.root2(*r),
                CylPart::Side,
                lat && self.y_ok(*r, self.root2(*r)),
                t_min,
            );
            assert((if found { Some((best_t, best_part)) } else { None::<(Rat, CylPart)> }, closest)
                == s2);
        }
        if d.y != 0 {
            let tb = if d.y > 0 {
                Rat { num: self.base.y - o.y, den: d.y }
            } else {
                Rat { num: o.y - self.base.y, den: -d.y }
            };
            proof {
                assert(tb == self.cap_t(*r, self.base.y as int));
            }
            if t_min.lt(&tb) && tb.lt(&closest) && self.radial_in_range(r, &tb) {
                found = true;
                best_t = tb;
                best_part = CylPart::Bottom;
                closest = tb;
            }
            let yt = self.base.y + self.height;
            let tt = if d.y > 0 {
                Rat { num: yt - o.y, den: d.y }
            } else {
                Rat { num: o.y - yt, den: -d.y }
            };
            proof {
                assert(tt == self.cap_t(*r, self.base.y + self.height));
            }
            if t_min.lt(&tt) && tt.lt(&closest) && self.radial_in_range(r, &tt) {
                found = true;
                best_t = tt;
                best_part = CylPart::Top;
                closest = tt;
            }
        }
        proof {
            assert((if found { Some((best_t, best_part)) } else { None::<(Rat, CylPart)> })
                == self.hit_part(*r, t_min, t_max));
            let lat1 = lat && self.y_ok(*r, self.root1(*r));
            let lat2 = lat && self.y_ok(*r, self.root2(*r));
            let tb = self.cap_t(*r, self.base.y as int);
            let tt = self.cap_t(*r, self.base.y + self.height);
            let okb = r.dir.y != 0 && self.radial_ok(*r, tb);
            let okt = r.dir.y != 0 && self.radial_ok(*r, tt);
            let s1 = consider(None, t_max, self.root1(*r), CylPart::Side, lat1, t_min);
            let s2 = consider(s1.0, s1.1, self.root2(*r), CylPart::Side, lat2, t_min);
            let s3 = consider(s2.0, s2.1, tb, CylPart::Bottom, okb, t_min);
            lemma_consider_keeps(None, t_max, self.root1(*r), CylPart::Side, lat1, t_min, t_max);
            lemma_consider_keeps(s1.0, s1.1, self.root2(*r), CylPart::Side, lat2, t_min, t_max);
            lemma_consider_keeps(s2.0, s2.1, tb, CylPart::Bottom, okb, t_min, t_max);
            lemma_consider_keeps(s3.0, s3.1, tt, CylPart::Top, okt, t_min, t_max);
        }
        if !found {
            return false;
        }
        rec.t = best_t;
        rec.p = r.at(best_t);
        let outward = match best_part {
            CylPart::Side => {
                proof {
                    lemma_mul_bound(self.base.x as int, best_t.den as int, 0x10_0000_0000int, RAT_MAX as int);
                    lemma_mul_bound(self.base.z as int, best_t.den as int, 0x10_0000_0000int, RAT_MAX as int);
                    lemma_mul_bound(o.x as int, best_t.den as int, 0x10_0000_0000int, RAT_MAX as int);
                    lemma_mul_bound(o.y as int, best_t.den as int, 0x10_0000_0000int, RAT_MAX as int);
                    lemma_mul_bound(o.z as int, best_t.den as int, 0x10_0000_0000int, RAT_MAX as int);
                    lemma_mul_bound(best_t.num as int, d.x as int, RAT_MAX as int, 0x20_0000int);
                    lemma_mul_bound(best_t.num as int, d.y as int, RAT_MAX as int, 0x20_0000int);
                    lemma_mul_bound(best_t.num as int, d.z as int, RAT_MAX as int, 0x20_0000int);
                }
                Vec3 {
                    x: rec.p.num.x - self.base.x * rec.p.den,
                    y: 0,
                    z: rec.p.num.z - self.base.z * rec.p.den,
                }
            },
            CylPart::Bottom => Vec3 { x: 0, y: -1, z: 0 },
            CylPart::Top => Vec3 { x: 0, y: 1, z: 0 },
        };
        proof {
            assert(outward == self.outward_at(*r, best_t, best_part));
        }
        rec.set_face_normal(r, outward);
        rec.mat = Some(self.mat);
        true
    }

    /// The lateral candidate's height check, exactly.
    fn y_in_range(&self, r: &Ray, t: &Rat) -> (ok: bool)
        requires
            self.wf(),
            r.wf(),
            t.wf(),
            t.bounded(RAT_MAX as int),
        ensures
            ok == self.y_ok(*r, *t),
    {
        proof {
            lemma_mul_bound(r.orig.y - self.base.y, t.den as int, 0x20_0000_0000int, RAT_MAX as int);
            lemma_mul_bound(t.num as int, r.dir.y as int, RAT_MAX as int, 0x20_0000int);
            lemma_mul_bound(self.height as int, t.den as int, 0x10_0000_0000int, RAT_MAX as int);
        }
        let yh = (r.orig.y - self.base.y) * t.den + t.num * r.dir.y;
        0 <= yh && yh <= self.height * t.den
    }

    /// The cap candidate's radial check, exactly.
    fn radial_in_range(&self, r: &Ray, t: &Rat) -> (ok: bool)
        requires
            self.wf(),
            r.wf(),
            t.wf(),
            abs_i(t.num as int) <= 0x40_0000_0000int,
            t.den <= 0x20_0000int,
        ensures
            ok == self.radial_ok(*r, *t),
    {
        let p = r.at(*t);
        proof {
            lemma_mul_bound(self.base.x as int, p.den as int, 0x10_0000_0000int, 0x20_0000int);
            lemma_mul_bound(self.base.z as int, p.den as int, 0x10_0000_0000int, 0x20_0000int);
            lemma_mul_bound(r.orig.x as int, t.den as int, 0x10_0000_0000int, 0x20_0000int);
            lemma_mul_bound(r.orig.z as int, t.den as int, 0x10_0000_0000int, 0x20_0000int);
            lemma_mul_bound(t.num as int, r.dir.x as int, 0x40_0000_0000int, 0x20_0000int);
            lemma_mul_bound(t.num as int, r.dir.z as int, 0x40_0000_0000int, 0x20_0000int);
        }
        let rx = p.num.x - self.base.x * p.den;
        let rz = p.num.z - self.base.z * p.den;
        proof {
            lemma_mul_bound(rx as int, rx as int, 0x2000_0000_0000_0000int, 0x2000_0000_0000_0000int);
            lemma_mul_bound(rz as int, rz as int, 0x2000_0000_0000_0000int, 0x2000_0000_0000_0000int);
            lemma_mul_bound(self.radius as int, self.radius as int, 0x10_0000_0000int, 0x10_0000_0000int);
            lemma_mul_bound(p.den as int, p.den as int, 0x20_0000int, 0x20_0000int);
            lemma_mul_bound(
                self.radius as int * (self.radius as int),
                p.den as int * (p.den as int),
                0x1000_0000_0000_0000_0000int,
                0x400_0000_0000int,
            );
        }
        rx * rx + rz * rz <= self.radius * self.radius * (p.den * p.den)
    }
}

} // verus!
