//! Exact fractions in the unit interval.

use vstd::prelude::*;

verus! {

/// The mathematical value carried by a [`Ratio`]: `num / den`.
pub struct Fraction {
    pub num: nat,
    pub den: nat,
}

impl Fraction {
    /// The denominator is positive and the value lies in `[0, 1]`.
    pub open spec fn in_unit_interval(self) -> bool {
        0 < self.den && self.num <= self.den
    }

    /// The value is exactly zero.
    pub open spec fn is_zero(self) -> bool {
        self.num == 0
    }

    /// The value is exactly one.
    pub open spec fn is_one(self) -> bool {
        self.num == self.den
    }
}

/// `num / den`, or zero where the denominator vanishes.
pub open spec fn fraction_or_zero(num: nat, den: nat) -> Fraction {
    if den == 0 {
        Fraction { num: 0, den: 1 }
    } else {
        Fraction { num, den }
    }
}

/// A fraction of two counts, kept as it was counted and not reduced to
/// lowest terms. The fields are wide enough for the sum of two `usize`
/// counts.
#[derive(Clone, Copy, Debug)]
pub struct Ratio {
    pub num: u128,
    pub den: u128,
}

impl View for Ratio {
    type V = Fraction;

    open spec fn view(&self) -> Fraction {
        Fraction { num: self.num as nat, den: self.den as nat }
    }
}

impl Ratio {
    /// Well-formed ratios have a positive denominator and do not exceed one.
    pub open spec fn wf(&self) -> bool {
        self@.in_unit_interval()
    }

    /// `num / den`, with the division by zero defined as zero.
    pub fn new(num: u128, den: u128) -> (r: Ratio)
        requires
            num <= den,
        ensures
            r@ == fraction_or_zero(num as nat, den as nat),
            r.wf(),
    {
        if den == 0 {
            Ratio { num: 0, den: 1 }
        } else {
            Ratio { num, den }
        }
    }

    /// Whether the value is exactly zero.
    pub fn is_zero(&self) -> (b: bool)
        ensures
            b == self@.is_zero(),
    {
        self.num == 0
    }

    /// Whether the value is exactly one.
    pub fn is_one(&self) -> (b: bool)
        ensures
            b == self@.is_one(),
    {
        self.num == self.den
    }
}

} // verus!
