//! The scattering model: diffuse (Lambertian) and specular (Metal) surfaces.
//!
//! Randomness is handed in: each scatter call takes the one unit-ball sample
//! it consumes, so scattering is a deterministic function of its inputs.

use vstd::prelude::*;
use crate::math::{tdiv, div_t, lemma_mul_bound, lemma_tdiv_bound};
use crate::vec3::{Vec3, dot3, normalize_spec, shrink_spec, UNIT_SCALE};
use crate::ray::{Ray, round_spec};
use crate::hittable::HitRecord;
use crate::color::{color_wf, COLOR_SCALE};

verus! {

/// A surface's scattering behavior, fixed at construction.
#[derive(Clone, Copy, Debug)]
pub enum Material {
    /// Diffuse: scatters around the surface normal, attenuating by `albedo`.
    Lambertian { albedo: Vec3 },
    /// Specular: mirrors the incoming direction, roughened by `fuzz` in
    /// `[0, UNIT_SCALE]` (0 is a perfect mirror); attenuates by `albedo`.
    Metal { albedo: Vec3, fuzz: i128 },
}

/// The direction a diffuse surface scatters to: the unit normal plus the
/// unit-ball sample, or the bare normal when that sum degenerates to zero.
pub open spec fn lambertian_dir(normal: Vec3, sample: Vec3) -> Vec3 {
    let n = normalize_spec(shrink_spec(normal));
    let d = Vec3 {
        x: (n.x + sample.x) as i128,
        y: (n.y + sample.y) as i128,
        z: (n.z + sample.z) as i128,
    };
    if d.is_zero() {
        n
    } else {
        d
    }
}

/// The mirror direction of a metal surface before fuzzing, rescaled to
/// magnitude `UNIT_SCALE`: the exact scaled reflection of the incoming
/// direction about the unit normal, normalized.
pub open spec fn metal_reflect_dir(in_dir: Vec3, normal: Vec3) -> Vec3 {
    let n = normalize_spec(shrink_spec(normal));
    let refl = Vec3 {
        x: (dot3(n, n) * in_dir.x - 2 * dot3(in_dir, n) * n.x) as i128,
        y: (dot3(n, n) * in_dir.y - 2 * dot3(in_dir, n) * n.y) as i128,
        z: (dot3(n, n) * in_dir.z - 2 * dot3(in_dir, n) * n.z) as i128,
    };
    normalize_spec(refl)
}

/// The fuzzed scatter direction of a metal surface.
pub open spec fn metal_dir(in_dir: Vec3, normal: Vec3, sample: Vec3, fuzz: int) -> Vec3 {
    let ru = metal_reflect_dir(in_dir, normal);
    Vec3 {
        x: (ru.x + tdiv(fuzz * sample.x, UNIT_SCALE as int)) as i128,
        y: (ru.y + tdiv(fuzz * sample.y, UNIT_SCALE as int)) as i128,
        z: (ru.z + tdiv(fuzz * sample.z, UNIT_SCALE as int)) as i128,
    }
}

impl Material {
    /// Albedo channels inside `[0, COLOR_SCALE]`; a metal's fuzz inside
    /// `[0, UNIT_SCALE]`.
    pub open spec fn wf(self) -> bool {
        match self {
            Material::Lambertian { albedo } => color_wf(albedo),
            Material::Metal { albedo, fuzz } => color_wf(albedo) && 0 <= fuzz <= UNIT_SCALE,
        }
    }

    pub fn lambertian(albedo: Vec3) -> (m: Material)
        requires
            color_wf(albedo),
        ensures
            m == (Material::Lambertian { albedo }),
            m.wf(),
    {
        Material::Lambertian { albedo }
    }

    pub fn metal(albedo: Vec3, fuzz: i128) -> (m: Material)
        requires
            color_wf(albedo),
            0 <= fuzz <= UNIT_SCALE,
        ensures
            m == (Material::Metal { albedo, fuzz }),
            m.wf(),
    {
        Material::Metal { albedo, fuzz }
    }

    /// Whether a scatter happens at all, and its direction, as a function of
    /// the inputs. A diffuse surface always scatters unless the stored normal
    /// degenerated to zero; a metal scatters only when the fuzzed reflection
    /// still points against the stored normal (a grazing reflection is
    /// absorbed, not corrected).
    pub open spec fn scatter_spec(self, r_in: Ray, rec: HitRecord, sample: Vec3) -> Option<
        (Vec3, Ray),
    > {
        match self {
            Material::Lambertian { albedo } => {
                if rec.normal.is_zero() {
                    None
                } else {
                    Some(
                        (
                            albedo,
                            Ray {
                                orig: round_spec(rec.p),
                                dir: lambertian_dir(rec.normal, sample),
                            },
                        ),
                    )
                }
            },
            Material::Metal { albedo, fuzz } => {
                if rec.normal.is_zero() || metal_reflect_dir(r_in.dir, rec.normal).is_zero() {
                    None
                } else {
                    let d = metal_dir(r_in.dir, rec.normal, sample, fuzz as int);
                    if dot3(d, rec.normal) > 0 {
                        Some((albedo, Ray { orig: round_spec(rec.p), dir: d }))
                    } else {
                        None
                    }
                }
            },
        }
    }

    /// Ask the surface to scatter the incoming ray at the recorded hit,
    /// consuming one unit-ball sample. On success the attenuation is the
    /// albedo (so channels never leave `[0, COLOR_SCALE]`) and the scattered
    /// ray starts at the hit point with a nonzero, cap-bounded direction.
    pub fn scatter(
        &self,
        r_in: &Ray,
        rec: &HitRecord,
        sample: Vec3,
        attenuation: &mut Vec3,
        scattered: &mut Ray,
    ) -> (ret: bool)
        requires
            self.wf(),
            r_in.wf(),
            rec.in_caps(),
            sample.bounded(UNIT_SCALE as int),
        ensures
            ret == (self.scatter_spec(*r_in, *rec, sample) is Some),
            !ret ==> *final(attenuation) == *old(attenuation) && *final(scattered) == *old(
                scattered,
            ),
            ret ==> ({
                let (att, ray) = self.scatter_spec(*r_in, *rec, sample).unwrap();
                &&& *final(attenuation) == att
                &&& *final(scattered) == ray
                &&& color_wf(att)
                &&& ray.wf()
                &&& !ray.dir.is_zero()
            }),
    {
        match self {
            Material::Lambertian { albedo } => {
                if rec.normal.near_zero() {
                    return false;
                }
                let n = Vec3::unit_dir(rec.normal);
                let d0 = n.vadd(sample);
                let dir = if d0.near_zero() {
                    n
                } else {
                    d0
                };
                proof {
                    assert(dir == lambertian_dir(rec.normal, sample));
                }
                *attenuation = *albedo;
                *scattered = Ray { orig: rec.p.round_to_vec3(), dir };
                true
            },
            Material::Metal { albedo, fuzz } => {
                if rec.normal.near_zero() {
                    return false;
                }
                let n = Vec3::unit_dir(rec.normal);
                let refl = Vec3::reflect(r_in.direction(), n);
                let ru = refl.normalize();
                proof {
                    assert(ru == metal_reflect_dir(r_in.dir, rec.normal));
                }
                if ru.near_zero() {
                    proof {
                        crate::vec3::lemma_ls_signs(refl);
                    }
                    return false;
                }
                proof {
                    lemma_mul_bound(*fuzz as int, sample.x as int, UNIT_SCALE as int, UNIT_SCALE as int);
                    lemma_mul_bound(*fuzz as int, sample.y as int, UNIT_SCALE as int, UNIT_SCALE as int);
                    lemma_mul_bound(*fuzz as int, sample.z as int, UNIT_SCALE as int, UNIT_SCALE as int);
                    lemma_tdiv_bound(*fuzz as int * (sample.x as int), UNIT_SCALE as int, UNIT_SCALE as int);
                    lemma_tdiv_bound(*fuzz as int * (sample.y as int), UNIT_SCALE as int, UNIT_SCALE as int);
                    lemma_tdiv_bound(*fuzz as int * (sample.z as int), UNIT_SCALE as int, UNIT_SCALE as int);
                }
                let dir = Vec3 {
                    x: ru.x + div_t(*fuzz * sample.x, UNIT_SCALE),
                    y: ru.y + div_t(*fuzz * sample.y, UNIT_SCALE),
                    z: ru.z + div_t(*fuzz * sample.z, UNIT_SCALE),
                };
                proof {
                    assert(dir == metal_dir(r_in.dir, rec.normal, sample, *fuzz as int));
                }
                let against = Vec3::dot_wide(rec.normal, dir);
                proof {
                    assert(dot3(rec.normal, dir) == dot3(dir, rec.normal));
                }
                if against > 0 {
                    proof {
                        if dir.is_zero() {
                            assert(dot3(rec.normal, dir) == 0) by (nonlinear_arith)
                                requires
                                    dir.is_zero(),
                            ;
                        }
                    }
                    *attenuation = *albedo;
                    *scattered = Ray { orig: rec.p.round_to_vec3(), dir };
                    true
                } else {
                    false
                }
            },
        }
    }
}

} // verus!
