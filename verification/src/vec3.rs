//! Three-component vectors over exact integer coordinates.
//!
//! Callers pick the granularity of a world unit; all arithmetic here is exact.
//! Directions are scale-free throughout the library, so "normalizing" a vector
//! rescales it to magnitude about `UNIT_SCALE` with exactly specified
//! truncation, and a vector of any magnitude still names the same direction.

use vstd::prelude::*;
use crate::math::{
    abs_i, tdiv, isqrt, is_isqrt, int_sqrt, div_t, lemma_mul_bound, lemma_square_lt,
    lemma_tdiv_bound, lemma_tdiv_strict, lemma_tdiv_neg, lemma_tdiv_half, lemma_div_ge_one,
};
use vstd::arithmetic::mul::lemma_mul_strict_inequality;
use vstd::arithmetic::div_mod::lemma_div_decreases;

verus! {

/// The magnitude a normalized vector is rescaled to.
pub const UNIT_SCALE: i128 = 65536;

/// Cap on scene positions (origins, centers, corners) the shapes accept.
pub const POS_MAX: i128 = 0x10_0000_0000i128;

/// Cap on ray directions the shapes accept.
pub const DIR_MAX: i128 = 0x20_0000i128;

/// Cap under which dot products and squared lengths stay inside `i128`.
pub const VEC_MAX: i128 = 0x4000_0000_0000_0000i128;

/// `shrink` reduces a vector's components below this cap.
pub const SHRINK_CAP: i128 = 0x100_0000_0000i128;

/// Cap under which sums and differences of components stay inside `i128`.
pub const COMP_MAX: i128 = 0x3fff_ffff_ffff_ffff_ffff_ffff_ffff_ffffi128;

/// Cap on surface normals and hit-point numerators the shapes produce.
pub const NORM_MAX: i128 = 0x10_0000_0000_0000_0000_0000_0000i128;

/// Cap on the directions paired with such wide vectors in dot products.
pub const SLIM_MAX: i128 = 0x100_0000i128;

/// A vector (or point, or color) of three exact integer components.
#[derive(Clone, Copy, Debug, PartialEq, Eq, Structural)]
pub struct Vec3 {
    pub x: i128,
    pub y: i128,
    pub z: i128,
}

/// Exact dot product, over mathematical integers.
pub open spec fn dot3(u: Vec3, v: Vec3) -> int {
    (u.x as int) * (v.x as int) + (u.y as int) * (v.y as int) + (u.z as int) * (v.z as int)
}

/// The largest component magnitude.
pub open spec fn max_abs(v: Vec3) -> int {
    let ax = abs_i(v.x as int);
    let ay = abs_i(v.y as int);
    let az = abs_i(v.z as int);
    if ax >= ay && ax >= az {
        ax
    } else if ay >= az {
        ay
    } else {
        az
    }
}

/// Every component truncated toward zero by half.
pub open spec fn half_v(v: Vec3) -> Vec3 {
    Vec3 { x: tdiv(v.x as int, 2) as i128, y: tdiv(v.y as int, 2) as i128, z: tdiv(
        v.z as int,
        2,
    ) as i128 }
}

/// Componentwise negation, over mathematical integers.
pub open spec fn neg_spec(v: Vec3) -> Vec3 {
    Vec3 { x: (-(v.x as int)) as i128, y: (-(v.y as int)) as i128, z: (-(v.z as int)) as i128 }
}

/// Componentwise difference, over mathematical integers.
pub open spec fn sub_spec(a: Vec3, b: Vec3) -> Vec3 {
    Vec3 {
        x: (a.x as int - b.x as int) as i128,
        y: (a.y as int - b.y as int) as i128,
        z: (a.z as int - b.z as int) as i128,
    }
}

/// Halve the components until they all fit under `SHRINK_CAP`; the direction
/// is preserved up to the stated truncation.
pub open spec fn shrink_spec(v: Vec3) -> Vec3
    decreases max_abs(v),
    via shrink_spec_decreases
{
    if max_abs(v) <= SHRINK_CAP as int {
        v
    } else {
        shrink_spec(half_v(v))
    }
}

#[via_fn]
proof fn shrink_spec_decreases(v: Vec3) {
    if max_abs(v) > SHRINK_CAP as int {
        lemma_half_max(v);
    }
}

/// What `normalize` returns: the vector rescaled to magnitude `UNIT_SCALE`,
/// each component truncated toward zero; the zero vector stays itself.
pub open spec fn normalize_spec(v: Vec3) -> Vec3 {
    if v.is_zero() {
        v
    } else {
        let l = isqrt(dot3(v, v));
        Vec3 {
            x: tdiv((v.x as int) * (UNIT_SCALE as int), l) as i128,
            y: tdiv((v.y as int) * (UNIT_SCALE as int), l) as i128,
            z: tdiv((v.z as int) * (UNIT_SCALE as int), l) as i128,
        }
    }
}

impl Vec3 {
    /// Every component at most `b` in magnitude.
    pub open spec fn bounded(self, b: int) -> bool {
        abs_i(self.x as int) <= b && abs_i(self.y as int) <= b && abs_i(self.z as int) <= b
    }

    /// Exactly the zero vector.
    pub open spec fn is_zero(self) -> bool {
        self.x == 0 && self.y == 0 && self.z == 0
    }

    pub fn new(x: i128, y: i128, z: i128) -> (r: Vec3)
        ensures
            r == (Vec3 { x, y, z }),
    {
        Vec3 { x, y, z }
    }

    pub fn x(&self) -> (r: i128)
        ensures
            r == self.x,
    {
        self.x
    }

    pub fn y(&self) -> (r: i128)
        ensures
            r == self.y,
    {
        self.y
    }

    pub fn z(&self) -> (r: i128)
        ensures
            r == self.z,
    {
        self.z
    }

    /// Componentwise sum.
    pub fn vadd(self, o: Vec3) -> (r: Vec3)
        requires
            self.bounded(COMP_MAX as int),
            o.bounded(COMP_MAX as int),
        ensures
            r.x as int == self.x + o.x,
            r.y as int == self.y + o.y,
            r.z as int == self.z + o.z,
    {
        Vec3 { x: self.x + o.x, y: self.y + o.y, z: self.z + o.z }
    }

    /// Componentwise difference.
    pub fn vsub(self, o: Vec3) -> (r: Vec3)
        requires
            self.bounded(COMP_MAX as int),
            o.bounded(COMP_MAX as int),
        ensures
            r.x as int == self.x - o.x,
            r.y as int == self.y - o.y,
            r.z as int == self.z - o.z,
    {
        Vec3 { x: self.x - o.x, y: self.y - o.y, z: self.z - o.z }
    }

    /// Componentwise negation.
    pub fn vneg(self) -> (r: Vec3)
        requires
            self.bounded(COMP_MAX as int),
        ensures
            r.x as int == -self.x,
            r.y as int == -self.y,
            r.z as int == -self.z,
    {
        Vec3 { x: -self.x, y: -self.y, z: -self.z }
    }

    /// Scalar multiple.
    pub fn smul(k: i128, v: Vec3) -> (r: Vec3)
        requires
            abs_i(k as int) <= VEC_MAX as int,
            v.bounded(VEC_MAX as int),
        ensures
            r.x as int == k * v.x,
            r.y as int == k * v.y,
            r.z as int == k * v.z,
    {
        proof {
            lemma_mul_bound(k as int, v.x as int, VEC_MAX as int, VEC_MAX as int);
            lemma_mul_bound(k as int, v.y as int, VEC_MAX as int, VEC_MAX as int);
            lemma_mul_bound(k as int, v.z as int, VEC_MAX as int, VEC_MAX as int);
        }
        Vec3 { x: k * v.x, y: k * v.y, z: k * v.z }
    }

    /// Exact dot product.
    pub fn dot(u: Vec3, v: Vec3) -> (r: i128)
        requires
            u.bounded(VEC_MAX as int),
            v.bounded(VEC_MAX as int),
        ensures
            r as int == dot3(u, v),
    {
        proof {
            lemma_mul_bound(u.x as int, v.x as int, VEC_MAX as int, VEC_MAX as int);
            lemma_mul_bound(u.y as int, v.y as int, VEC_MAX as int, VEC_MAX as int);
            lemma_mul_bound(u.z as int, v.z as int, VEC_MAX as int, VEC_MAX as int);
        }
        u.x * v.x + u.y * v.y + u.z * v.z
    }

    /// Exact dot product of a wide vector (a normal or a hit-point numerator)
    /// with a ray direction.
    pub fn dot_wide(u: Vec3, v: Vec3) -> (r: i128)
        requires
            u.bounded(NORM_MAX as int),
            v.bounded(SLIM_MAX as int),
        ensures
            r as int == dot3(u, v),
    {
        proof {
            lemma_mul_bound(u.x as int, v.x as int, NORM_MAX as int, SLIM_MAX as int);
            lemma_mul_bound(u.y as int, v.y as int, NORM_MAX as int, SLIM_MAX as int);
            lemma_mul_bound(u.z as int, v.z as int, NORM_MAX as int, SLIM_MAX as int);
        }
        u.x * v.x + u.y * v.y + u.z * v.z
    }

    /// The squared length, exactly.
    pub fn length_squared(&self) -> (r: i128)
        requires
            self.bounded(VEC_MAX as int),
        ensures
            r as int == dot3(*self, *self),
            r >= 0,
            r == 0 <==> self.is_zero(),
    {
        proof {
            lemma_ls_signs(*self);
        }
        Self::dot(*self, *self)
    }

    /// True exactly for the zero vector (the integer model's degenerate case).
    pub fn near_zero(&self) -> (r: bool)
        ensures
            r == self.is_zero(),
    {
        self.x == 0 && self.y == 0 && self.z == 0
    }

    /// The floor of the Euclidean length.
    pub fn vec_length(&self) -> (r: i128)
        requires
            self.bounded(VEC_MAX as int),
        ensures
            r as int == isqrt(dot3(*self, *self)),
            is_isqrt(dot3(*self, *self), r as int),
            0 <= r,
    {
        let ls = self.length_squared();
        proof {
            lemma_dot_cap(*self, *self);
        }
        int_sqrt(ls as u128) as i128
    }

    /// Exact cross product.
    pub fn cross(u: Vec3, v: Vec3) -> (r: Vec3)
        requires
            u.bounded(VEC_MAX as int),
            v.bounded(VEC_MAX as int),
        ensures
            r.x as int == u.y * v.z - u.z * v.y,
            r.y as int == u.z * v.x - u.x * v.z,
            r.z as int == u.x * v.y - u.y * v.x,
    {
        proof {
            lemma_mul_bound(u.y as int, v.z as int, VEC_MAX as int, VEC_MAX as int);
            lemma_mul_bound(u.z as int, v.y as int, VEC_MAX as int, VEC_MAX as int);
            lemma_mul_bound(u.z as int, v.x as int, VEC_MAX as int, VEC_MAX as int);
            lemma_mul_bound(u.x as int, v.z as int, VEC_MAX as int, VEC_MAX as int);
            lemma_mul_bound(u.x as int, v.y as int, VEC_MAX as int, VEC_MAX as int);
            lemma_mul_bound(u.y as int, v.x as int, VEC_MAX as int, VEC_MAX as int);
        }
        Vec3 {
            x: u.y * v.z - u.z * v.y,
            y: u.z * v.x - u.x * v.z,
            z: u.x * v.y - u.y * v.x,
        }
    }

    /// Mirror reflection of `v` about the direction of `n`, scaled by the
    /// squared length of `n` so the result stays an integer vector: the true
    /// reflection is `v - 2 (v.n / n.n) n`, and this returns `n.n` times that.
    pub fn reflect(v: Vec3, n: Vec3) -> (r: Vec3)
        requires
            v.bounded(0x40_0000int),
            n.bounded(0x4_0000int),
        ensures
            r.x as int == dot3(n, n) * v.x - 2 * dot3(v, n) * n.x,
            r.y as int == dot3(n, n) * v.y - 2 * dot3(v, n) * n.y,
            r.z as int == dot3(n, n) * v.z - 2 * dot3(v, n) * n.z,
            r.bounded(VEC_MAX as int),
    {
        proof {
            lemma_dot_bound(n, n, 0x4_0000int, 0x4_0000int);
            lemma_dot_bound(v, n, 0x40_0000int, 0x4_0000int);
        }
        let nn = Self::dot(n, n);
        let d = Self::dot(v, n);
        proof {
            lemma_mul_bound(nn as int, v.x as int, 0x30_0000_0000int, 0x40_0000int);
            lemma_mul_bound(nn as int, v.y as int, 0x30_0000_0000int, 0x40_0000int);
            lemma_mul_bound(nn as int, v.z as int, 0x30_0000_0000int, 0x40_0000int);
            lemma_mul_bound(2 * (d as int), n.x as int, 0x600_0000_0000int, 0x4_0000int);
            lemma_mul_bound(2 * (d as int), n.y as int, 0x600_0000_0000int, 0x4_0000int);
            lemma_mul_bound(2 * (d as int), n.z as int, 0x600_0000_0000int, 0x4_0000int);
        }
        Vec3 {
            x: nn * v.x - 2 * d * n.x,
            y: nn * v.y - 2 * d * n.y,
            z: nn * v.z - 2 * d * n.z,
        }
    }

    /// Rescale to magnitude `UNIT_SCALE`, truncating each component toward
    /// zero; the zero vector is returned unchanged.
    pub fn normalize(&self) -> (r: Vec3)
        requires
            self.bounded(VEC_MAX as int),
        ensures
            r == normalize_spec(*self),
            r.bounded(UNIT_SCALE as int),
            !self.is_zero() ==> !r.is_zero(),
    {
        let ls = self.length_squared();
        if ls == 0 {
            proof {
                lemma_normalize_zero_bounded(*self);
            }
            *self
        } else {
            proof {
                lemma_dot_cap(*self, *self);
            }
            let l = int_sqrt(ls as u128) as i128;
            proof {
                if l == 0 {
                    assert((0int + 1) * (0int + 1) == 1);
                    assert(false);
                }
                lemma_comp_le_sq(*self, l as int);
                lemma_mul_bound(self.x as int, UNIT_SCALE as int, l as int, UNIT_SCALE as int);
                lemma_mul_bound(self.y as int, UNIT_SCALE as int, l as int, UNIT_SCALE as int);
                lemma_mul_bound(self.z as int, UNIT_SCALE as int, l as int, UNIT_SCALE as int);
            }
            let rx = div_t(self.x * UNIT_SCALE, l);
            let ry = div_t(self.y * UNIT_SCALE, l);
            let rz = div_t(self.z * UNIT_SCALE, l);
            proof {
                lemma_tdiv_bound((self.x as int) * (UNIT_SCALE as int), l as int, UNIT_SCALE as int);
                lemma_tdiv_bound((self.y as int) * (UNIT_SCALE as int), l as int, UNIT_SCALE as int);
                lemma_tdiv_bound((self.z as int) * (UNIT_SCALE as int), l as int, UNIT_SCALE as int);
                lemma_normalize_keeps_direction(*self, l as int);
            }
            Vec3 { x: rx, y: ry, z: rz }
        }
    }

    /// The direction of `v` at magnitude `UNIT_SCALE`; `v` must not be zero.
    pub fn unit_vector(v: Vec3) -> (r: Vec3)
        requires
            v.bounded(VEC_MAX as int),
            !v.is_zero(),
        ensures
            r == normalize_spec(v),
            r.bounded(UNIT_SCALE as int),
            !r.is_zero(),
    {
        v.normalize()
    }

    /// Halve the components until they all fit under `SHRINK_CAP`, keeping
    /// the direction up to the stated truncation and never zeroing a nonzero
    /// vector.
    pub fn shrink(v: Vec3) -> (r: Vec3)
        requires
            v.bounded(COMP_MAX as int),
        ensures
            r == shrink_spec(v),
            r.bounded(SHRINK_CAP as int),
            !v.is_zero() ==> !r.is_zero(),
    {
        let mut w = v;
        proof {
            lemma_max_abs_facts(v);
        }
        while w.x > SHRINK_CAP || w.x < -SHRINK_CAP || w.y > SHRINK_CAP || w.y < -SHRINK_CAP
            || w.z > SHRINK_CAP || w.z < -SHRINK_CAP
            invariant
                shrink_spec(w) == shrink_spec(v),
                w.bounded(COMP_MAX as int),
                !v.is_zero() ==> max_abs(w) >= 1,
            decreases max_abs(w),
        {
            proof {
                lemma_max_abs_facts(w);
                lemma_half_max(w);
                lemma_tdiv_half(w.x as int);
                lemma_tdiv_half(w.y as int);
                lemma_tdiv_half(w.z as int);
            }
            let h = Vec3 { x: div_t(w.x, 2), y: div_t(w.y, 2), z: div_t(w.z, 2) };
            proof {
                assert(h == half_v(w));
                lemma_max_abs_facts(h);
            }
            w = h;
        }
        proof {
            lemma_max_abs_facts(w);
        }
        w
    }

    /// The direction of an arbitrarily large vector at magnitude
    /// `UNIT_SCALE`: shrink, then normalize.
    pub fn unit_dir(v: Vec3) -> (r: Vec3)
        requires
            v.bounded(COMP_MAX as int),
        ensures
            r == normalize_spec(shrink_spec(v)),
            r.bounded(UNIT_SCALE as int),
            !v.is_zero() ==> !r.is_zero(),
    {
        let w = Self::shrink(v);
        w.normalize()
    }

    /// A vector with each component uniform in `[min, max)`, built from three
    /// uniform draws in `[0, UNIT_SCALE)`.
    pub fn random_range(min: i128, max: i128, u: Vec3) -> (r: Vec3)
        requires
            min < max,
            abs_i(min as int) <= POS_MAX as int,
            abs_i(max as int) <= POS_MAX as int,
            0 <= u.x < UNIT_SCALE,
            0 <= u.y < UNIT_SCALE,
            0 <= u.z < UNIT_SCALE,
        ensures
            r.x as int == min + tdiv(u.x * (max - min), UNIT_SCALE as int),
            r.y as int == min + tdiv(u.y * (max - min), UNIT_SCALE as int),
            r.z as int == min + tdiv(u.z * (max - min), UNIT_SCALE as int),
            min <= r.x < max,
            min <= r.y < max,
            min <= r.z < max,
    {
        let d = max - min;
        proof {
            lemma_mul_bound(u.x as int, d as int, UNIT_SCALE as int, 2 * POS_MAX as int);
            lemma_mul_bound(u.y as int, d as int, UNIT_SCALE as int, 2 * POS_MAX as int);
            lemma_mul_bound(u.z as int, d as int, UNIT_SCALE as int, 2 * POS_MAX as int);
            lemma_mul_strict_inequality(u.x as int, UNIT_SCALE as int, d as int);
            lemma_mul_strict_inequality(u.y as int, UNIT_SCALE as int, d as int);
            lemma_mul_strict_inequality(u.z as int, UNIT_SCALE as int, d as int);
            lemma_tdiv_strict(u.x * d, UNIT_SCALE as int, d as int);
            lemma_tdiv_strict(u.y * d, UNIT_SCALE as int, d as int);
            lemma_tdiv_strict(u.z * d, UNIT_SCALE as int, d as int);
        }
        Vec3 {
            x: min + div_t(u.x * d, UNIT_SCALE),
            y: min + div_t(u.y * d, UNIT_SCALE),
            z: min + div_t(u.z * d, UNIT_SCALE),
        }
    }

    /// Rejection sampling: the first candidate draw strictly inside the ball
    /// of radius `UNIT_SCALE`, or nothing if every candidate was rejected.
    pub fn random_in_unit_sphere(draws: &Vec<Vec3>) -> (r: Option<Vec3>)
        requires
            forall|i: int|
                0 <= i < draws@.len() ==> (#[trigger] draws@[i]).bounded(VEC_MAX as int),
        ensures
            r == first_in_ball(draws@),
            r matches Some(p) ==> dot3(p, p) < (UNIT_SCALE as int) * (UNIT_SCALE as int)
                && p.bounded(UNIT_SCALE as int),
    {
        let mut i: usize = 0;
        proof {
            assert(draws@.skip(0) =~= draws@);
        }
        while i < draws.len()
            invariant
                0 <= i <= draws@.len(),
                forall|k: int|
                    0 <= k < draws@.len() ==> (#[trigger] draws@[k]).bounded(VEC_MAX as int),
                first_in_ball(draws@) == first_in_ball(draws@.skip(i as int)),
            decreases draws@.len() - i,
        {
            let p = draws[i];
            let ls = Vec3::dot(p, p);
            proof {
                assert(draws@.skip(i as int)[0] == draws@[i as int]);
            }
            if ls < UNIT_SCALE * UNIT_SCALE {
                proof {
                    lemma_comp_in_ball(p);
                }
                return Some(p);
            }
            proof {
                assert(draws@.skip(i as int).drop_first() =~= draws@.skip(i as int + 1));
            }
            i = i + 1;
        }
        proof {
            assert(draws@.skip(draws@.len() as int).len() == 0);
        }
        None
    }

    /// The first accepted ball sample, rescaled to magnitude `UNIT_SCALE`.
    pub fn random_unit_vector(draws: &Vec<Vec3>) -> (r: Option<Vec3>)
        requires
            forall|i: int|
                0 <= i < draws@.len() ==> (#[trigger] draws@[i]).bounded(VEC_MAX as int),
        ensures
            first_in_ball(draws@) matches Some(p) ==> r == Some(normalize_spec(p)),
            first_in_ball(draws@) is None ==> r is None,
            r matches Some(q) ==> q.bounded(UNIT_SCALE as int),
    {
        match Self::random_in_unit_sphere(draws) {
            Some(p) => Some(p.normalize()),
            None => None,
        }
    }
}

/// The first draw strictly inside the ball of radius `UNIT_SCALE`.
pub open spec fn first_in_ball(s: Seq<Vec3>) -> Option<Vec3>
    decreases s.len(),
{
    if s.len() == 0 {
        None
    } else if dot3(s[0], s[0]) < (UNIT_SCALE as int) * (UNIT_SCALE as int) {
        Some(s[0])
    } else {
        first_in_ball(s.drop_first())
    }
}

/// A dot product of bounded vectors is bounded by three times the product.
pub proof fn lemma_dot_bound(u: Vec3, v: Vec3, a: int, b: int)
    requires
        0 <= a,
        0 <= b,
        u.bounded(a),
        v.bounded(b),
    ensures
        -3 * (a * b) <= dot3(u, v) <= 3 * (a * b),
{
    lemma_mul_bound(u.x as int, v.x as int, a, b);
    lemma_mul_bound(u.y as int, v.y as int, a, b);
    lemma_mul_bound(u.z as int, v.z as int, a, b);
}

/// A squared length is nonnegative and vanishes only on the zero vector.
pub proof fn lemma_ls_signs(v: Vec3)
    by (nonlinear_arith)
    ensures
        dot3(v, v) >= 0,
        dot3(v, v) == 0 <==> v.is_zero(),
{
}

/// Squared lengths of `VEC_MAX`-bounded vectors stay far inside `i128`.
proof fn lemma_dot_cap(u: Vec3, v: Vec3)
    requires
        u.bounded(VEC_MAX as int),
        v.bounded(VEC_MAX as int),
    ensures
        abs_i(dot3(u, v)) < 0x4000_0000_0000_0000_0000_0000_0000_0000int,
{
    lemma_dot_bound(u, v, VEC_MAX as int, VEC_MAX as int);
}

/// Every component is bounded by the floor square root of the squared length.
proof fn lemma_comp_le_sq(v: Vec3, l: int)
    requires
        is_isqrt(dot3(v, v), l),
    ensures
        abs_i(v.x as int) <= l,
        abs_i(v.y as int) <= l,
        abs_i(v.z as int) <= l,
{
    assert((v.x as int) * (v.x as int) <= dot3(v, v) && (v.y as int) * (v.y as int) <= dot3(v, v)
        && (v.z as int) * (v.z as int) <= dot3(v, v)) by (nonlinear_arith);
    lemma_square_lt(v.x as int, l + 1);
    lemma_square_lt(v.y as int, l + 1);
    lemma_square_lt(v.z as int, l + 1);
}

/// A vector strictly inside the `UNIT_SCALE` ball has components under
/// `UNIT_SCALE`.
proof fn lemma_comp_in_ball(p: Vec3)
    requires
        dot3(p, p) < (UNIT_SCALE as int) * (UNIT_SCALE as int),
    ensures
        p.bounded(UNIT_SCALE as int),
{
    assert((p.x as int) * (p.x as int) <= dot3(p, p) && (p.y as int) * (p.y as int) <= dot3(p, p)
        && (p.z as int) * (p.z as int) <= dot3(p, p)) by (nonlinear_arith);
    lemma_square_lt(p.x as int, UNIT_SCALE as int);
    lemma_square_lt(p.y as int, UNIT_SCALE as int);
    lemma_square_lt(p.z as int, UNIT_SCALE as int);
}

/// The zero branch of `normalize` meets the `UNIT_SCALE` bound.
proof fn lemma_normalize_zero_bounded(v: Vec3)
    requires
        v.is_zero(),
    ensures
        v.bounded(UNIT_SCALE as int),
{
}

/// Rescaling a nonzero vector never yields the zero vector: its largest
/// component keeps magnitude at least one.
proof fn lemma_normalize_keeps_direction(v: Vec3, l: int)
    requires
        !v.is_zero(),
        v.bounded(VEC_MAX as int),
        is_isqrt(dot3(v, v), l),
        1 <= l,
    ensures
        !(Vec3 {
            x: tdiv((v.x as int) * (UNIT_SCALE as int), l) as i128,
            y: tdiv((v.y as int) * (UNIT_SCALE as int), l) as i128,
            z: tdiv((v.z as int) * (UNIT_SCALE as int), l) as i128,
        }).is_zero(),
{
    let m = max_abs(v);
    lemma_max_abs_facts(v);
    assert(dot3(v, v) <= 3 * (m * m)) by (nonlinear_arith)
        requires
            abs_i(v.x as int) <= m,
            abs_i(v.y as int) <= m,
            abs_i(v.z as int) <= m,
    ;
    assert(l * l <= 3 * (m * m));
    assert(l * l < (2 * m) * (2 * m)) by (nonlinear_arith)
        requires
            l * l <= 3 * (m * m),
            m >= 1,
    ;
    lemma_square_lt(l, 2 * m);
    // The largest component c satisfies |c| * UNIT_SCALE >= 2 * m > l.
    lemma_comp_le_sq(v, l);
    lemma_mul_bound(v.x as int, UNIT_SCALE as int, l, UNIT_SCALE as int);
    lemma_mul_bound(v.y as int, UNIT_SCALE as int, l, UNIT_SCALE as int);
    lemma_mul_bound(v.z as int, UNIT_SCALE as int, l, UNIT_SCALE as int);
    lemma_tdiv_bound((v.x as int) * (UNIT_SCALE as int), l, UNIT_SCALE as int);
    lemma_tdiv_bound((v.y as int) * (UNIT_SCALE as int), l, UNIT_SCALE as int);
    lemma_tdiv_bound((v.z as int) * (UNIT_SCALE as int), l, UNIT_SCALE as int);
    if abs_i(v.x as int) == m {
        lemma_one_comp_survives(v.x as int, m, l);
        lemma_tdiv_neg((v.x as int) * (UNIT_SCALE as int), l);
    } else if abs_i(v.y as int) == m {
        lemma_one_comp_survives(v.y as int, m, l);
        lemma_tdiv_neg((v.y as int) * (UNIT_SCALE as int), l);
    } else {
        lemma_one_comp_survives(v.z as int, m, l);
        lemma_tdiv_neg((v.z as int) * (UNIT_SCALE as int), l);
    }
}

/// A component of maximal magnitude survives the rescaling.
proof fn lemma_one_comp_survives(c: int, m: int, l: int)
    requires
        abs_i(c) == m,
        1 <= m,
        1 <= l,
        l < 2 * m,
    ensures
        tdiv(c * (UNIT_SCALE as int), l) != 0,
{
    assert(abs_i(c * (UNIT_SCALE as int)) == m * (UNIT_SCALE as int)) by (nonlinear_arith)
        requires
            abs_i(c) == m,
            0 <= m,
    ;
    assert(l <= m * (UNIT_SCALE as int)) by (nonlinear_arith)
        requires
            l < 2 * m,
            1 <= m,
    ;
    if c >= 0 {
        lemma_div_ge_one(c * (UNIT_SCALE as int), l);
    } else {
        lemma_div_ge_one(-(c * (UNIT_SCALE as int)), l);
    }
}

/// `max_abs` dominates every component and is attained by one of them.
proof fn lemma_max_abs_facts(v: Vec3)
    ensures
        abs_i(v.x as int) <= max_abs(v),
        abs_i(v.y as int) <= max_abs(v),
        abs_i(v.z as int) <= max_abs(v),
        max_abs(v) == abs_i(v.x as int) || max_abs(v) == abs_i(v.y as int) || max_abs(v) == abs_i(
            v.z as int,
        ),
        max_abs(v) >= 0,
        max_abs(v) == 0 <==> v.is_zero(),
        v.bounded(max_abs(v)),
{
}

/// Halving a vector over the shrink cap strictly reduces its largest
/// component but keeps it at least one.
proof fn lemma_half_max(v: Vec3)
    requires
        max_abs(v) > SHRINK_CAP as int,
    ensures
        max_abs(half_v(v)) < max_abs(v),
        max_abs(half_v(v)) >= 1,
{
    let m = max_abs(v);
    lemma_max_abs_facts(v);
    lemma_max_abs_facts(half_v(v));
    lemma_tdiv_half(v.x as int);
    lemma_tdiv_half(v.y as int);
    lemma_tdiv_half(v.z as int);
    vstd::arithmetic::div_mod::lemma_div_is_ordered(abs_i(v.x as int), m, 2);
    vstd::arithmetic::div_mod::lemma_div_is_ordered(abs_i(v.y as int), m, 2);
    vstd::arithmetic::div_mod::lemma_div_is_ordered(abs_i(v.z as int), m, 2);
    lemma_div_decreases(m, 2);
    if abs_i(v.x as int) == m {
        lemma_div_ge_one(abs_i(v.x as int), 2);
    } else if abs_i(v.y as int) == m {
        lemma_div_ge_one(abs_i(v.y as int), 2);
    } else {
        lemma_div_ge_one(abs_i(v.z as int), 2);
    }
}

} // verus!
