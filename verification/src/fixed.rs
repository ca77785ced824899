//! Exact arithmetic for prices and profit fractions.
//!
//! Venue prices, volumes and position sizes are fixed-point decimals with
//! four fractional digits, held as an integer count of ten-thousandths
//! (`Dec`). Profit fractions are exact non-negative rationals (`Ratio`);
//! dividing two fixed-point values never rounds, it produces the rational
//! quotient. Contracts are stated over the mathematical rational `Rat`.

use vstd::prelude::*;

verus! {

use crate::DEC_SCALE;

/// A mathematical rational number, used only in specifications.
pub ghost struct Rat {
    pub num: int,
    pub den: int,
}

/// A well-formed specification rational: non-negative with positive denominator.
pub open spec fn rat_wf(r: Rat) -> bool {
    r.den > 0 && r.num >= 0
}

pub open spec fn rat_le(a: Rat, b: Rat) -> bool {
    a.num * b.den <= b.num * a.den
}

pub open spec fn rat_lt(a: Rat, b: Rat) -> bool {
    a.num * b.den < b.num * a.den
}

pub open spec fn rat_eq(a: Rat, b: Rat) -> bool {
    a.num * b.den == b.num * a.den
}

pub open spec fn rat_mul(a: Rat, b: Rat) -> Rat {
    Rat { num: a.num * b.num, den: a.den * b.den }
}

pub open spec fn rat_zero() -> Rat {
    Rat { num: 0, den: 1 }
}

pub open spec fn rat_one() -> Rat {
    Rat { num: 1, den: 1 }
}

/// The rational value of a fixed-point quantity given as units.
pub open spec fn dec_rat(units: int) -> Rat {
    Rat { num: units, den: DEC_SCALE as int }
}

/// A fixed-point decimal with four fractional digits: the represented value
/// is `units / 10_000`.
#[derive(Clone, Copy, PartialEq, Eq, Structural, Debug)]
pub struct Dec {
    pub units: u64,
}

impl View for Dec {
    type V = int;

    open spec fn view(&self) -> int {
        self.units as int
    }
}

impl Dec {
    pub fn new(units: u64) -> (r: Dec)
        ensures
            r@ == units as int,
    {
        Dec { units }
    }

    pub fn zero() -> (r: Dec)
        ensures
            r@ == 0,
    {
        Dec { units: 0 }
    }
}

/// An exact non-negative rational with executable representation.
#[derive(Clone, Copy, PartialEq, Eq, Structural, Debug)]
pub struct Ratio {
    pub num: u128,
    pub den: u128,
}

impl View for Ratio {
    type V = Rat;

    open spec fn view(&self) -> Rat {
        Rat { num: self.num as int, den: self.den as int }
    }
}

/// A well-formed executable ratio: positive denominator.
pub open spec fn ratio_wf(r: Ratio) -> bool {
    r.den > 0
}

/// Numerator and denominator both fit in 64 bits, so that cross
/// multiplication in 128 bits cannot overflow.
pub open spec fn ratio_small(r: Ratio) -> bool {
    r.num <= u64::MAX as u128 && r.den <= u64::MAX as u128
}

/// Multiplication of non-negative factors is monotone in both factors.
pub proof fn lemma_mul_le(a: int, b: int, c: int, d: int)
    by (nonlinear_arith)
    requires
        0 <= a <= c,
        0 <= b <= d,
    ensures
        a * b <= c * d,
{
}

impl Ratio {
    pub fn new(num: u64, den: u64) -> (r: Ratio)
        requires
            den > 0,
        ensures
            r@ == (Rat { num: num as int, den: den as int }),
            ratio_wf(r),
            ratio_small(r),
    {
        Ratio { num: num as u128, den: den as u128 }
    }

    pub fn zero() -> (r: Ratio)
        ensures
            r@ == rat_zero(),
            ratio_wf(r),
            ratio_small(r),
    {
        Ratio { num: 0, den: 1 }
    }

    /// Strict comparison: is `self` strictly greater than `other`?
    pub fn gt(&self, other: &Ratio) -> (r: bool)
        requires
            ratio_small(*self),
            ratio_small(*other),
        ensures
            r == rat_lt(other@, self@),
    {
        proof {
            lemma_mul_le(self.num as int, other.den as int, u64::MAX as int, u64::MAX as int);
            lemma_mul_le(other.num as int, self.den as int, u64::MAX as int, u64::MAX as int);
        }
        self.num * other.den > other.num * self.den
    }

    /// Non-strict comparison: is `self` at least `other`?
    pub fn ge(&self, other: &Ratio) -> (r: bool)
        requires
            ratio_small(*self),
            ratio_small(*other),
        ensures
            r == rat_le(other@, self@),
    {
        proof {
            lemma_mul_le(self.num as int, other.den as int, u64::MAX as int, u64::MAX as int);
            lemma_mul_le(other.num as int, self.den as int, u64::MAX as int, u64::MAX as int);
        }
        self.num * other.den >= other.num * self.den
    }

    /// Exact equality of the represented rational values.
    pub fn eq_value(&self, other: &Ratio) -> (r: bool)
        requires
            ratio_small(*self),
            ratio_small(*other),
        ensures
            r == rat_eq(self@, other@),
    {
        proof {
            lemma_mul_le(self.num as int, other.den as int, u64::MAX as int, u64::MAX as int);
            lemma_mul_le(other.num as int, self.den as int, u64::MAX as int, u64::MAX as int);
        }
        self.num * other.den == other.num * self.den
    }

    /// Exact product of a fixed-point quantity and a ratio; never rounds.
    pub fn scale_dec(&self, d: Dec) -> (r: Ratio)
        requires
            ratio_small(*self),
            ratio_wf(*self),
        ensures
            r@ == rat_mul(dec_rat(d@), self@),
            ratio_wf(r),
    {
        proof {
            lemma_mul_le(d.units as int, self.num as int, u64::MAX as int, u64::MAX as int);
            lemma_mul_le(self.den as int, DEC_SCALE as int, u64::MAX as int, DEC_SCALE as int);
        }
        Ratio { num: d.units as u128 * self.num, den: self.den * DEC_SCALE as u128 }
    }
}

/// Ordering of rationals is compatible across a non-strict and a strict step.
pub proof fn lemma_rat_le_lt_trans(a: Rat, b: Rat, c: Rat)
    by (nonlinear_arith)
    requires
        a.den > 0,
        b.den > 0,
        c.den > 0,
        rat_le(a, b),
        rat_lt(b, c),
    ensures
        rat_lt(a, c),
{
}

} // verus!
