//! Real numbers as the arithmetic outside this library hands them over.
//!
//! A [`Scalar`] is an IEEE 754 double-precision value held as its 64 bits:
//! one sign bit, eleven exponent bits, fifty-two fraction bits. The library
//! never computes with such a value. It orders it, tests it and stores it,
//! and that much the standard defines on the bits alone.

use vstd::prelude::*;

verus! {

/// The sign bit of a double.
pub const SIGN_MASK: u64 = 0x8000_0000_0000_0000;

/// Every bit of a double but its sign.
pub const MAGNITUDE_MASK: u64 = 0x7fff_ffff_ffff_ffff;

/// The bits of positive infinity: the largest magnitude that is a number.
pub const INFINITY_BITS: u64 = 0x7ff0_0000_0000_0000;

/// The bits of the number one.
pub const ONE_BITS: u64 = 0x3ff0_0000_0000_0000;

/// A double-precision value, by its bits. Two scalars are equal (`==`) where
/// their bits are, so the two zeros are not; `lt` and `le` compare scalars as
/// numbers.
#[derive(Clone, Copy, Debug, PartialEq, Eq, Structural)]
pub struct Scalar {
    pub bits: u64,
}

impl Scalar {
    /// The bits without the sign. Among numbers of one sign a larger magnitude
    /// is a larger absolute value.
    pub open spec fn magnitude(self) -> int {
        (self.bits & MAGNITUDE_MASK) as int
    }

    /// Whether the sign bit is set.
    pub open spec fn is_negative(self) -> bool {
        self.bits & SIGN_MASK != 0
    }

    /// Whether the bits stand for no number at all.
    pub open spec fn is_not_a_number(self) -> bool {
        self.magnitude() > INFINITY_BITS
    }

    /// Where a number stands on the number line: numbers compare as their
    /// ranks do. Both zeros have rank 0.
    pub open spec fn rank(self) -> int {
        if self.is_negative() {
            -self.magnitude()
        } else {
            self.magnitude()
        }
    }

    /// `self < other` as the standard defines it: false whenever either side
    /// is no number.
    pub open spec fn less_than(self, other: Scalar) -> bool {
        !self.is_not_a_number() && !other.is_not_a_number() && self.rank() < other.rank()
    }

    /// `self <= other` as the standard defines it: false whenever either side
    /// is no number.
    pub open spec fn at_most(self, other: Scalar) -> bool {
        !self.is_not_a_number() && !other.is_not_a_number() && self.rank() <= other.rank()
    }

    /// Whether the value is a number above zero.
    pub open spec fn positive(self) -> bool {
        !self.is_not_a_number() && self.rank() > 0
    }

    /// Whether the value lies between zero and one, both included.
    pub open spec fn probability(self) -> bool {
        !self.is_not_a_number() && 0 <= self.rank() <= ONE_BITS
    }

    /// The value with the given bits.
    pub fn from_bits(bits: u64) -> (s: Scalar)
        ensures
            s.bits == bits,
    {
        Scalar { bits }
    }

    /// Positive zero.
    pub fn zero() -> (s: Scalar)
        ensures
            s.bits == 0,
            s.rank() == 0,
            s.probability(),
    {
        assert(0u64 & MAGNITUDE_MASK == 0 && 0u64 & SIGN_MASK == 0) by (bit_vector);
        Scalar { bits: 0 }
    }

    /// The number one.
    pub fn one() -> (s: Scalar)
        ensures
            s.bits == ONE_BITS,
            s.rank() == ONE_BITS,
            s.probability(),
    {
        assert(ONE_BITS & MAGNITUDE_MASK == ONE_BITS && ONE_BITS & SIGN_MASK == 0) by (bit_vector);
        Scalar { bits: ONE_BITS }
    }

    /// Whether the bits stand for no number at all.
    pub fn is_nan(&self) -> (nan: bool)
        ensures
            nan == self.is_not_a_number(),
    {
        self.bits & MAGNITUDE_MASK > INFINITY_BITS
    }

    /// `self < other`.
    pub fn lt(&self, other: &Scalar) -> (less: bool)
        ensures
            less == self.less_than(*other),
    {
        if self.is_nan() || other.is_nan() {
            return false;
        }
        let a = self.bits & MAGNITUDE_MASK;
        let b = other.bits & MAGNITUDE_MASK;
        if self.bits & SIGN_MASK != 0 {
            if other.bits & SIGN_MASK != 0 {
                b < a
            } else {
                a != 0 || b != 0
            }
        } else {
            if other.bits & SIGN_MASK != 0 {
                false
            } else {
                a < b
            }
        }
    }

    /// `self <= other`.
    pub fn le(&self, other: &Scalar) -> (at_most: bool)
        ensures
            at_most == self.at_most(*other),
    {
        if self.is_nan() || other.is_nan() {
            return false;
        }
        !other.lt(self)
    }

    /// Whether the value is a number above zero.
    pub fn is_positive(&self) -> (yes: bool)
        ensures
            yes == self.positive(),
    {
        !self.is_nan() && self.bits & SIGN_MASK == 0 && self.bits & MAGNITUDE_MASK != 0
    }

    /// Whether the value lies between zero and one, both included.
    pub fn is_probability(&self) -> (yes: bool)
        ensures
            yes == self.probability(),
    {
        let magnitude = self.bits & MAGNITUDE_MASK;
        if self.bits & SIGN_MASK != 0 {
            magnitude == 0
        } else {
            magnitude <= ONE_BITS
        }
    }
}

} // verus!
