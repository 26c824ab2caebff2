//! Colors as fixed-point triples, and the conversion to output bytes.
//!
//! A channel value of `COLOR_SCALE` stands for full intensity 1.0; the scale
//! is decimal so that the usual albedo constants are exact.

use vstd::prelude::*;
use crate::math::{tdiv, div_t, lemma_mul_bound, lemma_tdiv_bound, lemma_tdiv_strict};
use crate::vec3::Vec3;

verus! {

/// The fixed-point scale of a color channel: this value means intensity 1.0.
pub const COLOR_SCALE: i128 = 100000;

/// Every channel within `[0, COLOR_SCALE]`.
pub open spec fn color_wf(c: Vec3) -> bool {
    &&& 0 <= c.x <= COLOR_SCALE
    &&& 0 <= c.y <= COLOR_SCALE
    &&& 0 <= c.z <= COLOR_SCALE
}

/// One attenuated channel: the fixed-point product, truncated.
pub open spec fn att_channel(a: int, b: int) -> int {
    tdiv(a * b, COLOR_SCALE as int)
}

/// Both colors attenuated, componentwise.
pub open spec fn att3(a: Vec3, b: Vec3) -> Vec3 {
    Vec3 {
        x: att_channel(a.x as int, b.x as int) as i128,
        y: att_channel(a.y as int, b.y as int) as i128,
        z: att_channel(a.z as int, b.z as int) as i128,
    }
}

/// Componentwise fixed-point multiplication of two colors; the result of
/// in-range channels stays in range, so bounced light never gains energy.
pub fn attenuate(a: Vec3, b: Vec3) -> (r: Vec3)
    requires
        color_wf(a),
        color_wf(b),
    ensures
        r == att3(a, b),
        color_wf(r),
{
    proof {
        lemma_mul_bound(a.x as int, b.x as int, COLOR_SCALE as int, COLOR_SCALE as int);
        lemma_mul_bound(a.y as int, b.y as int, COLOR_SCALE as int, COLOR_SCALE as int);
        lemma_mul_bound(a.z as int, b.z as int, COLOR_SCALE as int, COLOR_SCALE as int);
        lemma_tdiv_bound(a.x as int * b.x as int, COLOR_SCALE as int, COLOR_SCALE as int);
        lemma_tdiv_bound(a.y as int * b.y as int, COLOR_SCALE as int, COLOR_SCALE as int);
        lemma_tdiv_bound(a.z as int * b.z as int, COLOR_SCALE as int, COLOR_SCALE as int);
    }
    Vec3 {
        x: div_t(a.x * b.x, COLOR_SCALE),
        y: div_t(a.y * b.y, COLOR_SCALE),
        z: div_t(a.z * b.z, COLOR_SCALE),
    }
}

/// Componentwise sum of two colors (accumulating samples).
pub fn color_add(a: Vec3, b: Vec3) -> (r: Vec3)
    requires
        0 <= a.x,
        0 <= a.y,
        0 <= a.z,
        0 <= b.x <= COLOR_SCALE,
        0 <= b.y <= COLOR_SCALE,
        0 <= b.z <= COLOR_SCALE,
        a.x + b.x < 0x8000_0000_0000_0000_0000_0000_0000_0000,
        a.y + b.y < 0x8000_0000_0000_0000_0000_0000_0000_0000,
        a.z + b.z < 0x8000_0000_0000_0000_0000_0000_0000_0000,
    ensures
        r.x as int == a.x + b.x,
        r.y as int == a.y + b.y,
        r.z as int == a.z + b.z,
{
    Vec3 { x: a.x + b.x, y: a.y + b.y, z: a.z + b.z }
}

/// One output byte: the accumulated channel averaged over the sample count,
/// rescaled from `COLOR_SCALE` to 256 steps and capped at 255.
pub open spec fn byte_of_channel(sum: int, samples: int) -> int {
    let v = tdiv(256 * sum, samples * (COLOR_SCALE as int));
    if v > 255 {
        255
    } else {
        v
    }
}

/// Convert an accumulated color to the three output bytes of a pixel.
pub fn color_to_rgb(sum: Vec3, samples: i128) -> (rgb: (u8, u8, u8))
    requires
        1 <= samples <= 0x10_0000i128,
        0 <= sum.x <= samples * COLOR_SCALE,
        0 <= sum.y <= samples * COLOR_SCALE,
        0 <= sum.z <= samples * COLOR_SCALE,
    ensures
        rgb.0 as int == byte_of_channel(sum.x as int, samples as int),
        rgb.1 as int == byte_of_channel(sum.y as int, samples as int),
        rgb.2 as int == byte_of_channel(sum.z as int, samples as int),
{
    proof {
        lemma_mul_bound(samples as int, COLOR_SCALE as int, 0x10_0000int, COLOR_SCALE as int);
        lemma_mul_bound(256, sum.x as int, 256, 0x10_0000int * (COLOR_SCALE as int));
        lemma_mul_bound(256, sum.y as int, 256, 0x10_0000int * (COLOR_SCALE as int));
        lemma_mul_bound(256, sum.z as int, 256, 0x10_0000int * (COLOR_SCALE as int));
    }
    let denom = samples * COLOR_SCALE;
    let bx = channel_byte(sum.x, denom, samples);
    let by = channel_byte(sum.y, denom, samples);
    let bz = channel_byte(sum.z, denom, samples);
    (bx, by, bz)
}

/// One channel of `color_to_rgb`.
fn channel_byte(sum: i128, denom: i128, samples: i128) -> (b: u8)
    requires
        1 <= samples <= 0x10_0000i128,
        denom == samples * COLOR_SCALE,
        0 <= sum <= denom,
    ensures
        b as int == byte_of_channel(sum as int, samples as int),
{
    proof {
        lemma_mul_bound(samples as int, COLOR_SCALE as int, 0x10_0000int, COLOR_SCALE as int);
        assert(denom >= 1) by (nonlinear_arith)
            requires
                samples >= 1,
                denom == samples * (COLOR_SCALE as int),
                (COLOR_SCALE as int) >= 1,
        ;
        lemma_tdiv_strict(256 * (sum as int), denom as int, 257);
    }
    let v = div_t(256 * sum, denom);
    if v > 255 {
        255u8
    } else {
        v as u8
    }
}

} // verus!
