//! Exact fractions of two machine integers.

use vstd::prelude::*;

verus! {

/// The rational number `num / den`.
///
/// Sampling fractions and normalisation constants cross the library's
/// boundary in this form, so that every comparison made on them is exact.
#[derive(Clone, Copy, Debug, PartialEq, Eq, Structural)]
pub struct Fraction {
    pub num: u64,
    pub den: u64,
}

impl Fraction {
    /// Whether the fraction lies in the half-open interval `[0, 1)`.
    pub open spec fn in_unit_interval(self) -> bool {
        self.num < self.den
    }

    /// The fraction `num / den`.
    pub fn new(num: u64, den: u64) -> (f: Fraction)
        ensures
            f.num == num,
            f.den == den,
    {
        Fraction { num, den }
    }

    /// The fraction that 64 random bits stand for: their upper 53 bits over
    /// `2^53`, which lies in `[0, 1)` whatever the bits are.
    pub open spec fn spec_from_bits(bits: u64) -> Fraction {
        Fraction { num: bits / 2048, den: 0x20_0000_0000_0000 }
    }

    /// Turns 64 random bits into a fraction in `[0, 1)`, uniform over the
    /// multiples of `2^-53` where the bits are uniform.
    pub fn from_bits(bits: u64) -> (f: Fraction)
        ensures
            f == Self::spec_from_bits(bits),
            f.in_unit_interval(),
    {
        Fraction { num: bits / 2048, den: 0x20_0000_0000_0000 }
    }

    /// Tells whether the fraction lies in `[0, 1)`.
    pub fn is_in_unit_interval(&self) -> (b: bool)
        ensures
            b == self.in_unit_interval(),
    {
        self.num < self.den
    }
}

} // verus!
