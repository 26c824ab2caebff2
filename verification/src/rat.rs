//! Exact rational ray parameters.
//!
//! A ray parameter `t` is the quotient of two integers, formed once at a
//! division point (a quadratic root, a plane or slab crossing) and compared by
//! cross-multiplication, so every interval test and every closest-hit decision
//! in the library is exact.

use vstd::prelude::*;
use crate::math::{abs_i, lemma_mul_bound};

verus! {

/// Magnitude cap on the numerator and denominator of every rational the
/// library forms or accepts: cross-multiplied comparisons then fit in `i128`.
pub const RAT_MAX: i128 = 0x4000_0000_0000_0000i128;

/// A rational number `num / den` with a positive denominator.
#[derive(Clone, Copy, Debug, PartialEq, Eq, Structural)]
pub struct Rat {
    pub num: i128,
    pub den: i128,
}

impl Rat {
    /// A positive denominator; every function of the library keeps this.
    pub open spec fn wf(self) -> bool {
        self.den >= 1
    }

    /// Numerator and denominator no larger in magnitude than `b`.
    pub open spec fn bounded(self, b: int) -> bool {
        abs_i(self.num as int) <= b && self.den <= b
    }

    /// Exact value comparison: `self < o`.
    pub open spec fn lt_spec(self, o: Rat) -> bool {
        (self.num as int) * (o.den as int) < (o.num as int) * (self.den as int)
    }

    /// Exact value comparison: `self <= o`.
    pub open spec fn le_spec(self, o: Rat) -> bool {
        (self.num as int) * (o.den as int) <= (o.num as int) * (self.den as int)
    }

    /// Exact value equality (the same rational, not the same representation).
    pub open spec fn eq_spec(self, o: Rat) -> bool {
        (self.num as int) * (o.den as int) == (o.num as int) * (self.den as int)
    }

    pub fn new(num: i128, den: i128) -> (r: Rat)
        requires
            1 <= den,
        ensures
            r.num == num,
            r.den == den,
            r.wf(),
    {
        Rat { num, den }
    }

    /// Exact `self < o`, by cross-multiplication.
    pub fn lt(&self, o: &Rat) -> (r: bool)
        requires
            self.wf(),
            o.wf(),
            self.bounded(RAT_MAX as int),
            o.bounded(RAT_MAX as int),
        ensures
            r == self.lt_spec(*o),
    {
        proof {
            lemma_mul_bound(self.num as int, o.den as int, RAT_MAX as int, RAT_MAX as int);
            lemma_mul_bound(o.num as int, self.den as int, RAT_MAX as int, RAT_MAX as int);
        }
        self.num * o.den < o.num * self.den
    }

    /// Exact value equality, by cross-multiplication.
    pub fn eq_val(&self, o: &Rat) -> (r: bool)
        requires
            self.wf(),
            o.wf(),
            self.bounded(RAT_MAX as int),
            o.bounded(RAT_MAX as int),
        ensures
            r == self.eq_spec(*o),
    {
        proof {
            lemma_mul_bound(self.num as int, o.den as int, RAT_MAX as int, RAT_MAX as int);
            lemma_mul_bound(o.num as int, self.den as int, RAT_MAX as int, RAT_MAX as int);
        }
        self.num * o.den == o.num * self.den
    }

    /// Exact `self <= o`, by cross-multiplication.
    pub fn le(&self, o: &Rat) -> (r: bool)
        requires
            self.wf(),
            o.wf(),
            self.bounded(RAT_MAX as int),
            o.bounded(RAT_MAX as int),
        ensures
            r == self.le_spec(*o),
    {
        proof {
            lemma_mul_bound(self.num as int, o.den as int, RAT_MAX as int, RAT_MAX as int);
            lemma_mul_bound(o.num as int, self.den as int, RAT_MAX as int, RAT_MAX as int);
        }
        self.num * o.den <= o.num * self.den
    }
}

/// `<` then `<=` on values chain as expected.
pub proof fn lemma_rat_lt_le_trans(a: Rat, b: Rat, c: Rat)
    by (nonlinear_arith)
    requires
        a.wf(),
        b.wf(),
        c.wf(),
        a.lt_spec(b),
        b.le_spec(c),
    ensures
        a.lt_spec(c),
{
}

/// `<=` is transitive on values.
pub proof fn lemma_rat_le_trans(a: Rat, b: Rat, c: Rat)
    by (nonlinear_arith)
    requires
        a.wf(),
        b.wf(),
        c.wf(),
        a.le_spec(b),
        b.le_spec(c),
    ensures
        a.le_spec(c),
{
}

/// Exactly one of `a < b`, `a == b`, `b < a` holds on values.
pub proof fn lemma_rat_total(a: Rat, b: Rat)
    requires
        a.wf(),
        b.wf(),
    ensures
        a.lt_spec(b) <==> !b.le_spec(a),
        a.le_spec(b) <==> a.lt_spec(b) || a.eq_spec(b),
{
}

} // verus!
