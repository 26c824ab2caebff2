//! Spheres: quadratic ray intersection with exact root selection.

use vstd::prelude::*;
use crate::math::{abs_i, isqrt, is_isqrt, int_sqrt, lemma_mul_bound, lemma_isqrt_le};
use crate::rat::{Rat, RAT_MAX};
use crate::vec3::{Vec3, dot3, sub_spec, neg_spec, lemma_dot_bound, lemma_ls_signs, POS_MAX, DIR_MAX};
use crate::ray::{Ray, ray_at_spec};
use crate::hittable::HitRecord;

verus! {

/// A sphere: center, radius, and the index of its material.
#[derive(Clone, Copy, Debug)]
pub struct Sphere {
    pub center: Vec3,
    pub radius: i128,
    pub mat: usize,
}

impl Sphere {
    /// Center inside the scene cap, radius positive and inside it too.
    pub open spec fn wf(self) -> bool {
        self.center.bounded(POS_MAX as int) && 1 <= self.radius <= POS_MAX
    }

    pub fn new(cen: Vec3, r: i128, mat: usize) -> (s: Sphere)
        requires
            cen.bounded(POS_MAX as int),
            1 <= r <= POS_MAX,
        ensures
            s.center == cen,
            s.radius == r,
            s.mat == mat,
            s.wf(),
    {
        Sphere { center: cen, radius: r, mat }
    }

    /// Leading coefficient of the hit quadratic: the squared direction length.
    pub open spec fn quad_a(self, ray: Ray) -> int {
        dot3(ray.dir, ray.dir)
    }

    /// Half the linear coefficient of the hit quadratic.
    pub open spec fn quad_hb(self, ray: Ray) -> int {
        dot3(sub_spec(ray.orig, self.center), ray.dir)
    }

    /// Constant coefficient of the hit quadratic.
    pub open spec fn quad_c(self, ray: Ray) -> int {
        let oc = sub_spec(ray.orig, self.center);
        dot3(oc, oc) - self.radius * self.radius
    }

    /// The quarter discriminant of the hit quadratic.
    pub open spec fn disc(self, ray: Ray) -> int {
        self.quad_hb(ray) * self.quad_hb(ray) - self.quad_a(ray) * self.quad_c(ray)
    }

    /// The ray parameter of the hit, if any: the smaller quadratic root when
    /// it lies strictly inside `(t_min, t_max)`, else the larger root when it
    /// does, else nothing. A degenerate (zero) direction or a negative
    /// discriminant is a miss. The square root is the exact integer floor.
    pub open spec fn hit_t(self, ray: Ray, t_min: Rat, t_max: Rat) -> Option<Rat> {
        let a = self.quad_a(ray);
        let d = self.disc(ray);
        if a == 0 || d < 0 {
            None
        } else {
            let s = isqrt(d);
            let r1 = Rat { num: (-self.quad_hb(ray) - s) as i128, den: a as i128 };
            if t_min.lt_spec(r1) && r1.lt_spec(t_max) {
                Some(r1)
            } else {
                let r2 = Rat { num: (-self.quad_hb(ray) + s) as i128, den: a as i128 };
                if t_min.lt_spec(r2) && r2.lt_spec(t_max) {
                    Some(r2)
                } else {
                    None
                }
            }
        }
    }

    /// The outward direction at the hit point, scaled by the point's
    /// denominator: exactly parallel to `point - center`.
    pub open spec fn outward_at(self, ray: Ray, t: Rat) -> Vec3 {
        let p = ray_at_spec(ray, t);
        Vec3 {
            x: (p.num.x as int - (self.center.x as int) * (p.den as int)) as i128,
            y: (p.num.y as int - (self.center.y as int) * (p.den as int)) as i128,
            z: (p.num.z as int - (self.center.z as int) * (p.den as int)) as i128,
        }
    }

    /// The record a hit at parameter `t` populates.
    pub open spec fn hit_rec(self, ray: Ray, t: Rat) -> HitRecord {
        let p = ray_at_spec(ray, t);
        let outward = self.outward_at(ray, t);
        let front = dot3(ray.dir, outward) < 0;
        HitRecord {
            p,
            normal: if front {
                outward
            } else {
                neg_spec(outward)
            },
            mat: Some(self.mat),
            t,
            front_face: front,
        }
    }

    /// Magnitude bounds on the quadratic's coefficients for a well-formed
    /// sphere and ray.
    pub proof fn lemma_coeff_bounds(self, ray: Ray)
        requires
            self.wf(),
            ray.wf(),
        ensures
            0 <= self.quad_a(ray) < 0x2000_0000_0000i128,
            abs_i(self.quad_hb(ray)) < 0x1000_0000_0000_0000i128,
            abs_i(self.quad_c(ray)) < 0x1000_0000_0000_0000_0000i128,
            abs_i(self.disc(ray)) < 0x400_0000_0000_0000_0000_0000_0000_0000i128,
            0 <= self.disc(ray) ==> 0 <= isqrt(self.disc(ray)) <= 0x2000_0000_0000_0000i128
                && is_isqrt(self.disc(ray), isqrt(self.disc(ray))),
    {
        let oc = sub_spec(ray.orig, self.center);
        assert(oc.bounded(0x20_0000_0000int));
        lemma_ls_signs(ray.dir);
        lemma_dot_bound(ray.dir, ray.dir, 0x20_0000int, 0x20_0000int);
        lemma_dot_bound(oc, ray.dir, 0x20_0000_0000int, 0x20_0000int);
        lemma_dot_bound(oc, oc, 0x20_0000_0000int, 0x20_0000_0000int);
        lemma_mul_bound(self.radius as int, self.radius as int, 0x10_0000_0000int, 0x10_0000_0000int);
        lemma_mul_bound(
            self.quad_hb(ray),
            self.quad_hb(ray),
            0x1000_0000_0000_0000int,
            0x1000_0000_0000_0000int,
        );
        lemma_mul_bound(
            self.quad_a(ray),
            self.quad_c(ray),
            0x2000_0000_0000int,
            0x1000_0000_0000_0000_0000int,
        );
        if 0 <= self.disc(ray) {
            crate::math::lemma_isqrt_exists(self.disc(ray));
            let r = choose|r: int| #[trigger] is_isqrt(self.disc(ray), r);
            crate::math::lemma_isqrt_is(self.disc(ray), r);
            assert(0x2000_0000_0000_0000int * 0x2000_0000_0000_0000int
                == 0x400_0000_0000_0000_0000_0000_0000_0000int) by (nonlinear_arith);
            lemma_isqrt_le(self.disc(ray), 0x2000_0000_0000_0000int);
        }
    }

    /// Quadratic ray intersection. On a hit, the record is populated exactly
    /// as `hit_rec` describes; the stored normal is parallel to
    /// `point - center` and oriented against the ray.
    pub fn hit(&self, r: &Ray, t_min: Rat, t_max: Rat, rec: &mut HitRecord) -> (ret: bool)
        requires
            self.wf(),
            r.wf(),
            t_min.wf(),
            t_min.bounded(RAT_MAX as int),
            t_max.wf(),
            t_max.bounded(RAT_MAX as int),
            old(rec).in_caps(),
        ensures
            ret == (self.hit_t(*r, t_min, t_max) is Some),
            !ret ==> *final(rec) == *old(rec),
            ret ==> *final(rec) == self.hit_rec(*r, self.hit_t(*r, t_min, t_max).unwrap()),
            ret ==> ({
                let t = self.hit_t(*r, t_min, t_max).unwrap();
                &&& t_min.lt_spec(t) && t.lt_spec(t_max)
                &&& t.wf() && t.bounded(RAT_MAX as int)
                &&& final(rec).t == t
                &&& final(rec).mat == Some(self.mat)
                &&& final(rec).in_caps()
                &&& dot3(r.dir, final(rec).normal) <= 0
            }),
    {
        proof {
            self.lemma_coeff_bounds(*r);
        }
        let oc = r.origin().vsub(self.center);
        proof {
            assert(oc == sub_spec(r.orig, self.center));
        }
        let a = Vec3::dot(r.direction(), r.direction());
        let half_b = Vec3::dot(oc, r.direction());
        proof {
            lemma_mul_bound(self.radius as int, self.radius as int, 0x10_0000_0000int, 0x10_0000_0000int);
        }
        let c_val = Vec3::dot(oc, oc) - self.radius * self.radius;
        proof {
            lemma_mul_bound(
                half_b as int,
                half_b as int,
                0x1000_0000_0000_0000int,
                0x1000_0000_0000_0000int,
            );
            lemma_mul_bound(
                a as int,
                c_val as int,
                0x2000_0000_0000int,
                0x1000_0000_0000_0000_0000int,
            );
        }
        let discriminant = half_b * half_b - a * c_val;
        if a == 0 || discriminant < 0 {
            return false;
        }
        let s = int_sqrt(discriminant as u128) as i128;
        let root1 = Rat { num: -half_b - s, den: a };
        if t_min.lt(&root1) && root1.lt(&t_max) {
            self.fill_rec(r, root1, rec);
            return true;
        }
        let root2 = Rat { num: -half_b + s, den: a };
        if t_min.lt(&root2) && root2.lt(&t_max) {
            self.fill_rec(r, root2, rec);
            return true;
        }
        false
    }

    /// Populate the record for a hit at parameter `t`.
    fn fill_rec(&self, r: &Ray, t: Rat, rec: &mut HitRecord)
        requires
            self.wf(),
            r.wf(),
            t.wf(),
            t.bounded(RAT_MAX as int),
            old(rec).in_caps(),
        ensures
            *final(rec) == self.hit_rec(*r, t),
            final(rec).in_caps(),
            dot3(r.dir, final(rec).normal) <= 0,
    {
        rec.t = t;
        rec.p = r.at(t);
        proof {
            lemma_mul_bound(self.orig_x(r), t.den as int, POS_MAX as int, RAT_MAX as int);
            lemma_mul_bound(t.num as int, r.dir.x as int, RAT_MAX as int, DIR_MAX as int);
            lemma_mul_bound(self.center.x as int, t.den as int, POS_MAX as int, RAT_MAX as int);
            lemma_mul_bound(self.orig_y(r), t.den as int, POS_MAX as int, RAT_MAX as int);
            lemma_mul_bound(t.num as int, r.dir.y as int, RAT_MAX as int, DIR_MAX as int);
            lemma_mul_bound(self.center.y as int, t.den as int, POS_MAX as int, RAT_MAX as int);
            lemma_mul_bound(self.orig_z(r), t.den as int, POS_MAX as int, RAT_MAX as int);
            lemma_mul_bound(t.num as int, r.dir.z as int, RAT_MAX as int, DIR_MAX as int);
            lemma_mul_bound(self.center.z as int, t.den as int, POS_MAX as int, RAT_MAX as int);
        }
        let scaled_center = Vec3::smul(rec.p.den, self.center);
        let outward = rec.p.num.vsub(scaled_center);
        rec.set_face_normal(r, outward);
        rec.mat = Some(self.mat);
    }

    /// Ray origin components, for bound bookkeeping.
    spec fn orig_x(self, r: &Ray) -> int {
        r.orig.x as int
    }

    spec fn orig_y(self, r: &Ray) -> int {
        r.orig.y as int
    }

    spec fn orig_z(self, r: &Ray) -> int {
        r.orig.z as int
    }
}

/// One squared coordinate of the hit point, expanded.
proof fn lemma_sq_comp(o: int, d: int, n: int, m: int)
    ensures
        (o * m + n * d) * (o * m + n * d) == (o * o) * (m * m) + 2 * ((o * d) * (n * m)) + (d * d)
            * (n * n),
{
    let u = o * m;
    let v = n * d;
    assert((u + v) * (u + v) == u * u + 2 * (u * v) + v * v) by (nonlinear_arith);
    assert(u * u == (o * o) * (m * m)) by (nonlinear_arith)
        requires
            u == o * m,
    ;
    assert(u * v == (o * d) * (n * m)) by (nonlinear_arith)
        requires
            u == o * m,
            v == n * d,
    ;
    assert(v * v == (d * d) * (n * n)) by (nonlinear_arith)
        requires
            v == n * d,
    ;
}

/// Distributing a common factor over a three-term sum.
proof fn lemma_dist3(x: int, y: int, z: int, w: int)
    by (nonlinear_arith)
    ensures
        (x + y + z) * w == x * w + y * w + z * w,
{
}

/// Distributing a common factor over a difference.
proof fn lemma_dist_sub(u: int, v: int, m: int)
    by (nonlinear_arith)
    ensures
        (u - v) * m == u * m - v * m,
{
}

/// Expanding the squared coordinates of the hit point: the scaled squared
/// distance from the center equals the quadratic's value plus the squared
/// radius, all scaled by the squared denominator.
proof fn lemma_quad_identity(
    ox: int,
    oy: int,
    oz: int,
    dx: int,
    dy: int,
    dz: int,
    n: int,
    m: int,
    rad: int,
)
    ensures
        (ox * m + n * dx) * (ox * m + n * dx) + (oy * m + n * dy) * (oy * m + n * dy) + (oz * m + n
            * dz) * (oz * m + n * dz) - rad * rad * (m * m) == (dx * dx + dy * dy + dz * dz) * (n
            * n) + 2 * (ox * dx + oy * dy + oz * dz) * (n * m) + (ox * ox + oy * oy + oz * oz - rad
            * rad) * (m * m),
{
    lemma_sq_comp(ox, dx, n, m);
    lemma_sq_comp(oy, dy, n, m);
    lemma_sq_comp(oz, dz, n, m);
    lemma_dist3(dx * dx, dy * dy, dz * dz, n * n);
    lemma_dist3(ox * dx, oy * dy, oz * dz, n * m);
    lemma_dist3(ox * ox, oy * oy, oz * oz, m * m);
    lemma_dist_sub(ox * ox + oy * oy + oz * oz, rad * rad, m * m);
    lemma_two_assoc(ox * dx + oy * dy + oz * dz, n * m);
}

/// Doubling commutes with a product.
proof fn lemma_two_assoc(s: int, w: int)
    by (nonlinear_arith)
    ensures
        2 * s * w == 2 * (s * w),
{
}

/// The quadratic's scaled value at either computed root collapses to
/// `a * (s * s - disc)`.
proof fn lemma_root_quad(hb: int, a: int, c: int, s: int, n: int)
    by (nonlinear_arith)
    requires
        n == -hb - s || n == -hb + s,
    ensures
        a * (n * n) + 2 * hb * (n * a) + c * (a * a) == a * ((s * s) - (hb * hb - a * c)),
{
}

/// Shrinking the upper bound of the search interval never changes which
/// parameter a sphere reports, it only filters it: a hit still inside the
/// smaller interval is reported unchanged, and one outside it becomes a miss.
pub proof fn lemma_sphere_hit_shrink(s: Sphere, ray: Ray, t_min: Rat, big: Rat, small: Rat)
    requires
        s.wf(),
        ray.wf(),
        t_min.wf(),
        big.wf(),
        small.wf(),
        small.le_spec(big),
    ensures
        s.hit_t(ray, t_min, big) is None ==> s.hit_t(ray, t_min, small) is None,
        s.hit_t(ray, t_min, big) matches Some(t) ==> ({
            &&& t.lt_spec(small) ==> s.hit_t(ray, t_min, small) == Some(t)
            &&& !t.lt_spec(small) ==> s.hit_t(ray, t_min, small) is None
        }),
{
    s.lemma_coeff_bounds(ray);
    let a = s.quad_a(ray);
    let hb = s.quad_hb(ray);
    let d = s.disc(ray);
    if a != 0 && d >= 0 {
        let sq = isqrt(d);
        let r1 = Rat { num: (-hb - sq) as i128, den: a as i128 };
        let r2 = Rat { num: (-hb + sq) as i128, den: a as i128 };
        vstd::arithmetic::mul::lemma_mul_inequality(-hb - sq, -hb + sq, a);
        assert(r1.le_spec(r2));
        crate::rat::lemma_rat_total(r1, small);
        crate::rat::lemma_rat_total(r1, big);
        crate::rat::lemma_rat_total(r2, small);
        crate::rat::lemma_rat_total(r2, big);
        if !r1.lt_spec(big) {
            // big <= r1, so small <= r1 and small <= r2.
            crate::rat::lemma_rat_le_trans(small, big, r1);
            crate::rat::lemma_rat_le_trans(small, r1, r2);
            crate::rat::lemma_rat_total(small, r1);
            crate::rat::lemma_rat_total(small, r2);
        }
        if !r1.lt_spec(small) {
            // small <= r1 <= r2.
            crate::rat::lemma_rat_total(small, r1);
            crate::rat::lemma_rat_le_trans(small, r1, r2);
            crate::rat::lemma_rat_total(small, r2);
        }
        if !r2.lt_spec(big) {
            crate::rat::lemma_rat_le_trans(small, big, r2);
            crate::rat::lemma_rat_total(small, r2);
        }
        if r1.lt_spec(small) {
            crate::rat::lemma_rat_lt_le_trans(r1, small, big);
        }
        if r2.lt_spec(small) {
            crate::rat::lemma_rat_lt_le_trans(r2, small, big);
        }
    }
}

/// The sphere round trip: whenever `hit_t` reports a hit at parameter `t`,
/// the exact point `ray.at(t)` never lies outside the sphere, and its scaled
/// squared distance from the center falls short of the squared radius by at
/// most the square-root truncation slack `a * (2 * isqrt(disc) + 1)` — zero,
/// so exactly on the sphere, whenever the quarter discriminant is a perfect
/// square. The record's normal is, up to the orientation sign, exactly the
/// scaled direction from the center to the hit point.
pub proof fn lemma_sphere_round_trip(s: Sphere, ray: Ray, t_min: Rat, t_max: Rat)
    requires
        s.wf(),
        ray.wf(),
        t_min.wf(),
        t_min.bounded(RAT_MAX as int),
        t_max.wf(),
        t_max.bounded(RAT_MAX as int),
        s.hit_t(ray, t_min, t_max) is Some,
    ensures
        ({
            let t = s.hit_t(ray, t_min, t_max).unwrap();
            let p = ray_at_spec(ray, t);
            let out = s.outward_at(ray, t);
            let dist_sq = dot3(out, out);
            let rad_sq = (s.radius as int) * (s.radius as int) * ((p.den as int) * (p.den as int));
            &&& dist_sq <= rad_sq
            &&& rad_sq - dist_sq <= s.quad_a(ray) * (2 * isqrt(s.disc(ray)) + 1)
            &&& (isqrt(s.disc(ray)) * isqrt(s.disc(ray)) == s.disc(ray) ==> dist_sq == rad_sq)
            &&& (s.hit_rec(ray, t).normal == out || s.hit_rec(ray, t).normal == neg_spec(out))
        }),
{
    s.lemma_coeff_bounds(ray);
    let t = s.hit_t(ray, t_min, t_max).unwrap();
    let a = s.quad_a(ray);
    let hb = s.quad_hb(ray);
    let c = s.quad_c(ray);
    let d = s.disc(ray);
    let sq = isqrt(d);
    let oc = sub_spec(ray.orig, s.center);
    assert(t.den as int == a);
    assert(t.num as int == -hb - sq || t.num as int == -hb + sq);
    let n = t.num as int;
    let m = t.den as int;
    lemma_mul_bound(ray.orig.x as int, m, POS_MAX as int, RAT_MAX as int);
    lemma_mul_bound(ray.orig.y as int, m, POS_MAX as int, RAT_MAX as int);
    lemma_mul_bound(ray.orig.z as int, m, POS_MAX as int, RAT_MAX as int);
    lemma_mul_bound(s.center.x as int, m, POS_MAX as int, RAT_MAX as int);
    lemma_mul_bound(s.center.y as int, m, POS_MAX as int, RAT_MAX as int);
    lemma_mul_bound(s.center.z as int, m, POS_MAX as int, RAT_MAX as int);
    lemma_mul_bound(n, ray.dir.x as int, RAT_MAX as int, DIR_MAX as int);
    lemma_mul_bound(n, ray.dir.y as int, RAT_MAX as int, DIR_MAX as int);
    lemma_mul_bound(n, ray.dir.z as int, RAT_MAX as int, DIR_MAX as int);
    lemma_quad_identity(
        oc.x as int,
        oc.y as int,
        oc.z as int,
        ray.dir.x as int,
        ray.dir.y as int,
        ray.dir.z as int,
        n,
        m,
        s.radius as int,
    );
    lemma_root_quad(hb, a, c, sq, n);
    let p = ray_at_spec(ray, t);
    let out = s.outward_at(ray, t);
    assert(out.x as int == (oc.x as int) * m + n * (ray.dir.x as int)) by {
        lemma_dist_sub(ray.orig.x as int, s.center.x as int, m);
    }
    assert(out.y as int == (oc.y as int) * m + n * (ray.dir.y as int)) by {
        lemma_dist_sub(ray.orig.y as int, s.center.y as int, m);
    }
    assert(out.z as int == (oc.z as int) * m + n * (ray.dir.z as int)) by {
        lemma_dist_sub(ray.orig.z as int, s.center.z as int, m);
    }
    assert(dot3(out, out) - (s.radius as int) * (s.radius as int) * (m * m) == a * ((sq * sq) - d));
    assert(sq * sq <= d);
    assert(a * ((sq * sq) - d) <= 0) by (nonlinear_arith)
        requires
            1 <= a,
            sq * sq <= d,
    ;
    assert(d < (sq + 1) * (sq + 1));
    assert(a * ((sq * sq) - d) >= -(a * (2 * sq + 1))) by (nonlinear_arith)
        requires
            1 <= a,
            d < (sq + 1) * (sq + 1),
            sq * sq <= d,
    ;
    assert(sq * sq == d ==> a * ((sq * sq) - d) == 0) by (nonlinear_arith);
}

} // verus!
