//! The camera: an orthonormal-by-construction viewing frame and the rays it
//! casts through the viewport.
//!
//! The vertical field of view enters as `tan(vfov / 2)`, a rational supplied
//! by the caller (the tangent itself is transcendental and outside the exact
//! core). All viewport geometry is carried as integer vectors scaled by one
//! shared positive denominator `q`, so `get_ray` is exact up to the stated
//! direction quantization.

use vstd::prelude::*;
use crate::math::{abs_i, lemma_mul_bound};
use crate::rat::Rat;
use crate::vec3::{
    Vec3, normalize_spec, shrink_spec, sub_spec, POS_MAX, UNIT_SCALE,
};
use crate::ray::Ray;

verus! {

/// Cap on the tangent and aspect rationals' numerators and denominators.
pub const CAM_PARAM_MAX: i128 = 1024;

/// Cap on the pixel-coordinate rationals' numerators and denominators.
pub const CAM_COORD_MAX: i128 = 0x10_0000i128;

/// The basis vector toward the viewer: the unit of `look_from - look_at`.
pub open spec fn cam_w(look_from: Vec3, look_at: Vec3) -> Vec3 {
    normalize_spec(sub_spec(look_from, look_at))
}

/// The cross product, over mathematical integers.
pub open spec fn cross_spec(u: Vec3, v: Vec3) -> Vec3 {
    Vec3 {
        x: (u.y * v.z - u.z * v.y) as i128,
        y: (u.z * v.x - u.x * v.z) as i128,
        z: (u.x * v.y - u.y * v.x) as i128,
    }
}

/// The basis vector to the right: the unit of `up x w`.
pub open spec fn cam_u(look_from: Vec3, look_at: Vec3, vup: Vec3) -> Vec3 {
    normalize_spec(cross_spec(vup, cam_w(look_from, look_at)))
}

/// The basis vector upward in view space: the unit of `w x u`.
pub open spec fn cam_v(look_from: Vec3, look_at: Vec3, vup: Vec3) -> Vec3 {
    normalize_spec(cross_spec(cam_w(look_from, look_at), cam_u(look_from, look_at, vup)))
}

/// An immutable viewing frame. `q` is the shared denominator of the three
/// viewport vectors: `llc_q / q` is the lower-left viewport corner,
/// `hor_q / q` the full horizontal viewport edge, `ver_q / q` the vertical
/// one.
#[derive(Clone, Copy, Debug)]
pub struct Camera {
    pub origin: Vec3,
    pub llc_q: Vec3,
    pub hor_q: Vec3,
    pub ver_q: Vec3,
    pub q: i128,
}

/// The exact (scaled) direction of the ray through viewport coordinates
/// `(s, t)`: `llc + s * horizontal + t * vertical - origin`, multiplied
/// through by the positive factor `q * s.den * t.den`.
pub open spec fn ray_num_spec(cam: Camera, s: Rat, t: Rat) -> Vec3 {
    let k1 = (s.den as int) * (t.den as int);
    Vec3 {
        x: (cam.llc_q.x * k1 + cam.hor_q.x * ((s.num as int) * (t.den as int)) + cam.ver_q.x * ((
        t.num as int) * (s.den as int)) - cam.origin.x * ((cam.q as int) * k1)) as i128,
        y: (cam.llc_q.y * k1 + cam.hor_q.y * ((s.num as int) * (t.den as int)) + cam.ver_q.y * ((
        t.num as int) * (s.den as int)) - cam.origin.y * ((cam.q as int) * k1)) as i128,
        z: (cam.llc_q.z * k1 + cam.hor_q.z * ((s.num as int) * (t.den as int)) + cam.ver_q.z * ((
        t.num as int) * (s.den as int)) - cam.origin.z * ((cam.q as int) * k1)) as i128,
    }
}

impl Camera {
    /// The caps the constructor establishes and `get_ray` relies on.
    pub open spec fn wf(self) -> bool {
        &&& self.origin.bounded(POS_MAX as int)
        &&& self.llc_q.bounded(0x400_0000_0000_0000_0000int)
        &&& self.hor_q.bounded(0x100_0000_0000int)
        &&& self.ver_q.bounded(0x100_0000_0000int)
        &&& 1 <= self.q <= 0x20_0000_0000i128
    }

    /// Build the frame from a position, a target, an up reference, the
    /// tangent of half the vertical field of view, and the aspect ratio.
    /// The caller keeps the frame nondegenerate: the view direction is
    /// nonzero, not parallel to `vup`, and its quantized basis vectors span.
    pub fn new(look_from: Vec3, look_at: Vec3, vup: Vec3, tan_half_vfov: Rat, aspect: Rat) -> (cam:
        Camera)
        requires
            look_from.bounded(POS_MAX as int),
            look_at.bounded(POS_MAX as int),
            vup.bounded(POS_MAX as int),
            1 <= tan_half_vfov.num <= CAM_PARAM_MAX,
            1 <= tan_half_vfov.den <= CAM_PARAM_MAX,
            1 <= aspect.num <= CAM_PARAM_MAX,
            1 <= aspect.den <= CAM_PARAM_MAX,
            !sub_spec(look_from, look_at).is_zero(),
            !cross_spec(vup, cam_w(look_from, look_at)).is_zero(),
            !cross_spec(
                cam_w(look_from, look_at),
                cam_u(look_from, look_at, vup),
            ).is_zero(),
        ensures
            cam.origin == look_from,
            cam.q == 2 * tan_half_vfov.den * aspect.den * UNIT_SCALE,
            ({
                let u = cam_u(look_from, look_at, vup);
                let v = cam_v(look_from, look_at, vup);
                let w = cam_w(look_from, look_at);
                let hn = tan_half_vfov.num as int;
                let hd = tan_half_vfov.den as int;
                let an = aspect.num as int;
                let ad = aspect.den as int;
                &&& cam.hor_q.x == 4 * hn * an * u.x && cam.hor_q.y == 4 * hn * an * u.y
                    && cam.hor_q.z == 4 * hn * an * u.z
                &&& cam.ver_q.x == 4 * hn * ad * v.x && cam.ver_q.y == 4 * hn * ad * v.y
                    && cam.ver_q.z == 4 * hn * ad * v.z
                &&& cam.llc_q.x == cam.q * look_from.x - 2 * hn * an * u.x - 2 * hn * ad * v.x - 2
                    * hd * ad * w.x
                &&& cam.llc_q.y == cam.q * look_from.y - 2 * hn * an * u.y - 2 * hn * ad * v.y - 2
                    * hd * ad * w.y
                &&& cam.llc_q.z == cam.q * look_from.z - 2 * hn * an * u.z - 2 * hn * ad * v.z - 2
                    * hd * ad * w.z
            }),
            cam.wf(),
    {
        let diff = look_from.vsub(look_at);
        proof {
            assert(diff == sub_spec(look_from, look_at));
        }
        let w = Vec3::unit_vector(diff);
        proof {
            assert(w == cam_w(look_from, look_at));
        }
        let cuw = Vec3::cross(vup, w);
        proof {
            lemma_mul_bound(vup.x as int, w.y as int, POS_MAX as int, UNIT_SCALE as int);
            lemma_mul_bound(vup.x as int, w.z as int, POS_MAX as int, UNIT_SCALE as int);
            lemma_mul_bound(vup.y as int, w.x as int, POS_MAX as int, UNIT_SCALE as int);
            lemma_mul_bound(vup.y as int, w.z as int, POS_MAX as int, UNIT_SCALE as int);
            lemma_mul_bound(vup.z as int, w.x as int, POS_MAX as int, UNIT_SCALE as int);
            lemma_mul_bound(vup.z as int, w.y as int, POS_MAX as int, UNIT_SCALE as int);
            assert(cuw == cross_spec(vup, cam_w(look_from, look_at)));
        }
        let u = Vec3::unit_vector(cuw);
        let cwu = Vec3::cross(w, u);
        proof {
            lemma_mul_bound(w.x as int, u.y as int, UNIT_SCALE as int, UNIT_SCALE as int);
            lemma_mul_bound(w.x as int, u.z as int, UNIT_SCALE as int, UNIT_SCALE as int);
            lemma_mul_bound(w.y as int, u.x as int, UNIT_SCALE as int, UNIT_SCALE as int);
            lemma_mul_bound(w.y as int, u.z as int, UNIT_SCALE as int, UNIT_SCALE as int);
            lemma_mul_bound(w.z as int, u.x as int, UNIT_SCALE as int, UNIT_SCALE as int);
            lemma_mul_bound(w.z as int, u.y as int, UNIT_SCALE as int, UNIT_SCALE as int);
            assert(cwu == cross_spec(cam_w(look_from, look_at), cam_u(look_from, look_at, vup)));
        }
        let v = Vec3::unit_vector(cwu);
        let hn = tan_half_vfov.num;
        let hd = tan_half_vfov.den;
        let an = aspect.num;
        let ad = aspect.den;
        proof {
            lemma_mul_bound(2 * (hd as int), ad as int, 2048int, 1024int);
            lemma_mul_bound(2 * (hd as int) * (ad as int), UNIT_SCALE as int, 0x20_0000int, UNIT_SCALE as int);
            lemma_mul_bound(4 * (hn as int), an as int, 4096int, 1024int);
            lemma_mul_bound(4 * (hn as int), ad as int, 4096int, 1024int);
            lemma_mul_bound(2 * (hn as int), an as int, 2048int, 1024int);
            lemma_mul_bound(2 * (hn as int), ad as int, 2048int, 1024int);
            lemma_mul_bound(4 * (hn as int) * (an as int), u.x as int, 0x40_0000int, UNIT_SCALE as int);
            lemma_mul_bound(4 * (hn as int) * (an as int), u.y as int, 0x40_0000int, UNIT_SCALE as int);
            lemma_mul_bound(4 * (hn as int) * (an as int), u.z as int, 0x40_0000int, UNIT_SCALE as int);
            lemma_mul_bound(4 * (hn as int) * (ad as int), v.x as int, 0x40_0000int, UNIT_SCALE as int);
            lemma_mul_bound(4 * (hn as int) * (ad as int), v.y as int, 0x40_0000int, UNIT_SCALE as int);
            lemma_mul_bound(4 * (hn as int) * (ad as int), v.z as int, 0x40_0000int, UNIT_SCALE as int);
            assert(2 * (hd as int) * (ad as int) * (UNIT_SCALE as int) >= 1) by (nonlinear_arith)
                requires
                    hd >= 1,
                    ad >= 1,
                    (UNIT_SCALE as int) == 65536,
            ;
        }
        let q = 2 * hd * ad * UNIT_SCALE;
        let hor_q = Vec3::smul(4 * hn * an, u);
        let ver_q = Vec3::smul(4 * hn * ad, v);
        proof {
            lemma_mul_bound(q as int, look_from.x as int, 0x20_0000_0000int, POS_MAX as int);
            lemma_mul_bound(q as int, look_from.y as int, 0x20_0000_0000int, POS_MAX as int);
            lemma_mul_bound(q as int, look_from.z as int, 0x20_0000_0000int, POS_MAX as int);
            lemma_mul_bound(2 * hn * an, u.x as int, 0x40_0000int, UNIT_SCALE as int);
            lemma_mul_bound(2 * hn * an, u.y as int, 0x40_0000int, UNIT_SCALE as int);
            lemma_mul_bound(2 * hn * an, u.z as int, 0x40_0000int, UNIT_SCALE as int);
            lemma_mul_bound(2 * hn * ad, v.x as int, 0x40_0000int, UNIT_SCALE as int);
            lemma_mul_bound(2 * hn * ad, v.y as int, 0x40_0000int, UNIT_SCALE as int);
            lemma_mul_bound(2 * hn * ad, v.z as int, 0x40_0000int, UNIT_SCALE as int);
            lemma_mul_bound(2 * hd * ad, w.x as int, 0x40_0000int, UNIT_SCALE as int);
            lemma_mul_bound(2 * hd * ad, w.y as int, 0x40_0000int, UNIT_SCALE as int);
            lemma_mul_bound(2 * hd * ad, w.z as int, 0x40_0000int, UNIT_SCALE as int);
        }
        let llc_q = Vec3 {
            x: q * look_from.x - 2 * hn * an * u.x - 2 * hn * ad * v.x - 2 * hd * ad * w.x,
            y: q * look_from.y - 2 * hn * an * u.y - 2 * hn * ad * v.y - 2 * hd * ad * w.y,
            z: q * look_from.z - 2 * hn * an * u.z - 2 * hn * ad * v.z - 2 * hd * ad * w.z,
        };
        Camera { origin: look_from, llc_q, hor_q, ver_q, q }
    }

    /// The ray from the camera origin through viewport coordinates `(s, t)`
    /// (each a rational, `0` to `1` spanning the viewport): its direction is
    /// `llc + s * horizontal + t * vertical - origin` up to the stated
    /// positive rescaling and quantization, and is nonzero whenever that
    /// exact direction is.
    pub fn get_ray(&self, s: Rat, t: Rat) -> (ray: Ray)
        requires
            self.wf(),
            s.wf(),
            t.wf(),
            abs_i(s.num as int) <= CAM_COORD_MAX as int,
            s.den <= CAM_COORD_MAX,
            abs_i(t.num as int) <= CAM_COORD_MAX as int,
            t.den <= CAM_COORD_MAX,
        ensures
            ray.orig == self.origin,
            ray.dir == normalize_spec(shrink_spec(ray_num_spec(*self, s, t))),
            ray.dir.bounded(UNIT_SCALE as int),
            !ray_num_spec(*self, s, t).is_zero() ==> !ray.dir.is_zero(),
            ray.wf(),
    {
        proof {
            lemma_mul_bound(s.den as int, t.den as int, CAM_COORD_MAX as int, CAM_COORD_MAX as int);
            lemma_mul_bound(s.num as int, t.den as int, CAM_COORD_MAX as int, CAM_COORD_MAX as int);
            lemma_mul_bound(t.num as int, s.den as int, CAM_COORD_MAX as int, CAM_COORD_MAX as int);
        }
        let k1 = s.den * t.den;
        let ks = s.num * t.den;
        let kt = t.num * s.den;
        proof {
            lemma_mul_bound(self.q as int, k1 as int, 0x20_0000_0000int, 0x100_0000_0000int);
        }
        let kq = self.q * k1;
        proof {
            lemma_mul_bound(self.llc_q.x as int, k1 as int, 0x400_0000_0000_0000_0000int, 0x100_0000_0000int);
            lemma_mul_bound(self.llc_q.y as int, k1 as int, 0x400_0000_0000_0000_0000int, 0x100_0000_0000int);
            lemma_mul_bound(self.llc_q.z as int, k1 as int, 0x400_0000_0000_0000_0000int, 0x100_0000_0000int);
            lemma_mul_bound(self.hor_q.x as int, ks as int, 0x100_0000_0000int, 0x100_0000_0000int);
            lemma_mul_bound(self.hor_q.y as int, ks as int, 0x100_0000_0000int, 0x100_0000_0000int);
            lemma_mul_bound(self.hor_q.z as int, ks as int, 0x100_0000_0000int, 0x100_0000_0000int);
            lemma_mul_bound(self.ver_q.x as int, kt as int, 0x100_0000_0000int, 0x100_0000_0000int);
            lemma_mul_bound(self.ver_q.y as int, kt as int, 0x100_0000_0000int, 0x100_0000_0000int);
            lemma_mul_bound(self.ver_q.z as int, kt as int, 0x100_0000_0000int, 0x100_0000_0000int);
            lemma_mul_bound(self.origin.x as int, kq as int, POS_MAX as int, 0x20_0000_0000_0000_0000_0000int);
            lemma_mul_bound(self.origin.y as int, kq as int, POS_MAX as int, 0x20_0000_0000_0000_0000_0000int);
            lemma_mul_bound(self.origin.z as int, kq as int, POS_MAX as int, 0x20_0000_0000_0000_0000_0000int);
        }
        let n = Vec3 {
            x: self.llc_q.x * k1 + self.hor_q.x * ks + self.ver_q.x * kt - self.origin.x * kq,
            y: self.llc_q.y * k1 + self.hor_q.y * ks + self.ver_q.y * kt - self.origin.y * kq,
            z: self.llc_q.z * k1 + self.hor_q.z * ks + self.ver_q.z * kt - self.origin.z * kq,
        };
        proof {
            assert(n == ray_num_spec(*self, s, t));
        }
        let dir = Vec3::unit_dir(n);
        Ray { orig: self.origin, dir }
    }
}

} // verus!
