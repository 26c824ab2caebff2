//! Rays and the rational points they pass through.

use vstd::prelude::*;
use crate::math::{abs_i, tdiv, lemma_mul_bound};
use crate::rat::{Rat, RAT_MAX};
use crate::vec3::{Vec3, POS_MAX, DIR_MAX, NORM_MAX};

verus! {

/// A point with exact rational coordinates: each component is `num / den`
/// for one shared positive denominator.
#[derive(Clone, Copy, Debug)]
pub struct RatVec3 {
    pub num: Vec3,
    pub den: i128,
}

impl RatVec3 {
    /// Positive denominator, components inside the caps downstream users need.
    pub open spec fn wf(self) -> bool {
        1 <= self.den <= RAT_MAX && self.num.bounded(NORM_MAX as int)
    }

    /// The origin, as a rational point.
    pub fn zero() -> (r: RatVec3)
        ensures
            r.num == (Vec3 { x: 0, y: 0, z: 0 }),
            r.den == 1,
            r.wf(),
    {
        RatVec3 { num: Vec3 { x: 0, y: 0, z: 0 }, den: 1 }
    }

    /// The nearest integer point toward zero, clamped into the scene cap, so
    /// a reported hit point can seed the next ray. Hit points of a scene held
    /// inside `POS_MAX` are unaffected by the clamp.
    pub fn round_to_vec3(&self) -> (r: Vec3)
        requires
            self.wf(),
        ensures
            r == round_spec(*self),
            r.bounded(POS_MAX as int),
    {
        let x = crate::math::div_t(self.num.x, self.den);
        let y = crate::math::div_t(self.num.y, self.den);
        let z = crate::math::div_t(self.num.z, self.den);
        Vec3 { x: clamp_exec(x), y: clamp_exec(y), z: clamp_exec(z) }
    }
}

/// The integer point a rational point rounds to: each coordinate truncated
/// toward zero and clamped into the scene cap.
pub open spec fn round_spec(p: RatVec3) -> Vec3 {
    Vec3 {
        x: clamp_pos(tdiv(p.num.x as int, p.den as int)) as i128,
        y: clamp_pos(tdiv(p.num.y as int, p.den as int)) as i128,
        z: clamp_pos(tdiv(p.num.z as int, p.den as int)) as i128,
    }
}

/// Clamp a coordinate into the scene cap.
pub open spec fn clamp_pos(a: int) -> int {
    if a > POS_MAX as int {
        POS_MAX as int
    } else if a < -POS_MAX as int {
        -POS_MAX as int
    } else {
        a
    }
}

fn clamp_exec(a: i128) -> (r: i128)
    ensures
        r as int == clamp_pos(a as int),
        abs_i(r as int) <= POS_MAX as int,
{
    if a > POS_MAX {
        POS_MAX
    } else if a < -POS_MAX {
        -POS_MAX
    } else {
        a
    }
}

/// A ray `origin + t * direction`. The direction need not be normalized:
/// every intersection test in the library is invariant to its scale.
#[derive(Clone, Copy, Debug)]
pub struct Ray {
    pub orig: Vec3,
    pub dir: Vec3,
}

/// The exact rational point `ray.orig + t * ray.dir`.
pub open spec fn ray_at_spec(r: Ray, t: Rat) -> RatVec3 {
    RatVec3 {
        num: Vec3 {
            x: ((r.orig.x as int) * (t.den as int) + (t.num as int) * (r.dir.x as int)) as i128,
            y: ((r.orig.y as int) * (t.den as int) + (t.num as int) * (r.dir.y as int)) as i128,
            z: ((r.orig.z as int) * (t.den as int) + (t.num as int) * (r.dir.z as int)) as i128,
        },
        den: t.den,
    }
}

impl Ray {
    /// Origin inside the scene cap, direction inside the direction cap.
    pub open spec fn wf(self) -> bool {
        self.orig.bounded(POS_MAX as int) && self.dir.bounded(DIR_MAX as int)
    }

    pub fn new(origin: Vec3, direction: Vec3) -> (r: Ray)
        ensures
            r.orig == origin,
            r.dir == direction,
    {
        Ray { orig: origin, dir: direction }
    }

    pub fn origin(&self) -> (r: Vec3)
        ensures
            r == self.orig,
    {
        self.orig
    }

    pub fn direction(&self) -> (r: Vec3)
        ensures
            r == self.dir,
    {
        self.dir
    }

    /// The exact point at parameter `t`.
    pub fn at(&self, t: Rat) -> (r: RatVec3)
        requires
            self.wf(),
            t.wf(),
            t.bounded(RAT_MAX as int),
        ensures
            r == ray_at_spec(*self, t),
            r.wf(),
    {
        proof {
            lemma_mul_bound(self.orig.x as int, t.den as int, POS_MAX as int, RAT_MAX as int);
            lemma_mul_bound(self.orig.y as int, t.den as int, POS_MAX as int, RAT_MAX as int);
            lemma_mul_bound(self.orig.z as int, t.den as int, POS_MAX as int, RAT_MAX as int);
            lemma_mul_bound(t.num as int, self.dir.x as int, RAT_MAX as int, DIR_MAX as int);
            lemma_mul_bound(t.num as int, self.dir.y as int, RAT_MAX as int, DIR_MAX as int);
            lemma_mul_bound(t.num as int, self.dir.z as int, RAT_MAX as int, DIR_MAX as int);
        }
        RatVec3 {
            num: Vec3 {
                x: self.orig.x * t.den + t.num * self.dir.x,
                y: self.orig.y * t.den + t.num * self.dir.y,
                z: self.orig.z * t.den + t.num * self.dir.z,
            },
            den: t.den,
        }
    }
}

} // verus!
