//! The Monte Carlo integrator: the color seen along a ray, by bounded
//! recursive scattering.

use vstd::prelude::*;
use crate::math::{isqrt, int_sqrt, tdiv, div_t, lemma_mul_bound, lemma_square_lt, lemma_tdiv_bound, lemma_tdiv_strict};
use crate::rat::{Rat, RAT_MAX};
use crate::vec3::{Vec3, dot3, lemma_dot_bound, lemma_ls_signs, UNIT_SCALE, DIR_MAX};
use crate::ray::Ray;
use crate::hittable::HitRecord;
use crate::hittable_list::HittableList;
use crate::color::{color_wf, att3, attenuate, COLOR_SCALE};

verus! {

/// Pure black: what an exhausted or absorbed ray contributes.
pub open spec fn black() -> Vec3 {
    Vec3 { x: 0, y: 0, z: 0 }
}

/// The lower end of every primary intersection interval: a small positive
/// offset that suppresses self-intersection of a scattered ray with the
/// surface it just left.
pub open spec fn t_min_spec() -> Rat {
    Rat { num: 1, den: 1000 }
}

/// The upper end of every primary intersection interval: larger than any
/// parameter a shape within the scene caps can report, so it acts as
/// infinity.
pub open spec fn horizon_spec() -> Rat {
    Rat { num: RAT_MAX, den: 1 }
}

/// The vertical component of the ray direction rescaled to `UNIT_SCALE`
/// (zero for a zero direction): the blend knob of the background gradient.
pub open spec fn unit_y_of(dir: Vec3) -> int {
    let l = isqrt(dot3(dir, dir));
    if l == 0 {
        0
    } else {
        tdiv((dir.y as int) * (UNIT_SCALE as int), l)
    }
}

/// One channel of the background gradient: the blend
/// `c1 * (2 - t) + c2 * t` with `t = 0.3 * (unit_y + 1)`, evaluated exactly
/// over the fixed-point scales.
pub open spec fn bg_channel(c1: int, c2: int, uy: int) -> int {
    tdiv(
        c1 * (20 * (UNIT_SCALE as int) - 3 * (uy + (UNIT_SCALE as int))) + c2 * (3 * (uy
            + (UNIT_SCALE as int))),
        10 * (UNIT_SCALE as int),
    )
}

/// The sky gradient a missed ray returns, blending a gray horizon toward a
/// blue zenith by the ray's vertical direction.
pub open spec fn background_spec(dir: Vec3) -> Vec3 {
    let uy = unit_y_of(dir);
    Vec3 {
        x: bg_channel(40000, 20000, uy) as i128,
        y: bg_channel(40000, 40000, uy) as i128,
        z: bg_channel(40000, 60000, uy) as i128,
    }
}

/// The color seen along a ray: black once the bounce budget is exhausted;
/// else the nearest hit's material attenuation times the color seen along
/// the scattered ray (black when absorbed); else the background gradient.
/// One unit-ball sample is consumed per bounce, indexed by remaining depth.
pub open spec fn ray_color_spec(r: Ray, world: HittableList, depth: int, samples: Seq<Vec3>) -> Vec3
    decreases depth,
{
    if depth <= 0 {
        black()
    } else {
        match world.hit_spec(r, t_min_spec(), horizon_spec()) {
            Some(rec) => {
                let m = world.materials@[rec.mat.unwrap() as int];
                match m.scatter_spec(r, rec, samples[depth - 1]) {
                    Some(pair) => att3(
                        pair.0,
                        ray_color_spec(pair.1, world, depth - 1, samples),
                    ),
                    None => black(),
                }
            },
            None => background_spec(r.dir),
        }
    }
}

/// The background gradient, exactly as `background_spec` states, with every
/// channel inside `[0, COLOR_SCALE]`.
pub fn background(dir: Vec3) -> (c: Vec3)
    requires
        dir.bounded(DIR_MAX as int),
    ensures
        c == background_spec(dir),
        color_wf(c),
{
    proof {
        lemma_dot_bound(dir, dir, 0x20_0000int, 0x20_0000int);
        lemma_ls_signs(dir);
    }
    let ls = Vec3::dot(dir, dir);
    let uy: i128 = if ls == 0 {
        proof {
            assert((0int + 1) * (0int + 1) == 1);
            crate::math::lemma_isqrt_is(0, 0);
        }
        0
    } else {
        let l = int_sqrt(ls as u128) as i128;
        proof {
            if l == 0 {
                assert((0int + 1) * (0int + 1) == 1);
                assert(false);
            }
            assert((dir.y as int) * (dir.y as int) <= dot3(dir, dir)) by (nonlinear_arith);
            lemma_square_lt(dir.y as int, l as int + 1);
            lemma_mul_bound(dir.y as int, UNIT_SCALE as int, l as int, UNIT_SCALE as int);
            lemma_tdiv_bound((dir.y as int) * (UNIT_SCALE as int), l as int, UNIT_SCALE as int);
        }
        div_t(dir.y * UNIT_SCALE, l)
    };
    let w = 3 * (uy + UNIT_SCALE);
    let cx = bg_div(40000 * (20 * UNIT_SCALE - w) + 20000 * w);
    let cy = bg_div(40000 * (20 * UNIT_SCALE - w) + 40000 * w);
    let cz = bg_div(40000 * (20 * UNIT_SCALE - w) + 60000 * w);
    Vec3 { x: cx, y: cy, z: cz }
}

/// The gradient's common final division, with its range facts.
fn bg_div(num: i128) -> (c: i128)
    requires
        0 <= num <= 65_536_000_000i128,
    ensures
        c as int == tdiv(num as int, 10 * (UNIT_SCALE as int)),
        0 <= c <= COLOR_SCALE,
{
    proof {
        lemma_tdiv_strict(num as int, 655360int, 100001int);
    }
    div_t(num, 10 * UNIT_SCALE)
}

/// The color seen along a ray, exactly as `ray_color_spec` states. Every
/// channel stays inside `[0, COLOR_SCALE]` (bounced light never gains
/// energy), and a zero bounce budget returns exactly black.
pub fn ray_color(r: &Ray, world: &HittableList, depth: i32, samples: &Vec<Vec3>) -> (c: Vec3)
    requires
        world.wf(),
        r.wf(),
        depth <= samples@.len(),
        forall|i: int|
            0 <= i < samples@.len() ==> (#[trigger] samples@[i]).bounded(UNIT_SCALE as int),
    ensures
        c == ray_color_spec(*r, *world, depth as int, samples@),
        color_wf(c),
        depth <= 0 ==> c == black(),
    decreases depth,
{
    if depth <= 0 {
        return Vec3 { x: 0, y: 0, z: 0 };
    }
    let mut rec = HitRecord::new();
    let t_min = Rat { num: 1, den: 1000 };
    let horizon = Rat { num: RAT_MAX, den: 1 };
    if world.hit(r, t_min, horizon, &mut rec) {
        let mi = rec.mat.unwrap();
        let m = world.materials[mi];
        let mut attenuation = Vec3 { x: 0, y: 0, z: 0 };
        let mut scattered = Ray { orig: Vec3 { x: 0, y: 0, z: 0 }, dir: Vec3 { x: 0, y: 0, z: 0 } };
        let sample = samples[(depth - 1) as usize];
        if m.scatter(r, &rec, sample, &mut attenuation, &mut scattered) {
            let child = ray_color(&scattered, world, depth - 1, samples);
            attenuate(attenuation, child)
        } else {
            Vec3 { x: 0, y: 0, z: 0 }
        }
    } else {
        background(r.direction())
    }
}

} // verus!
