//! Fractional settings, carried by their IEEE 754 bit patterns.

use vstd::prelude::*;

verus! {

/// The bit pattern of positive infinity, the first that is not finite.
pub const INFINITY_BITS: u64 = 0x7ff0_0000_0000_0000;

/// The bit pattern of one.
pub const ONE_BITS: u64 = 0x3ff0_0000_0000_0000;

/// A binary64 number, held by its bit pattern. Among the patterns whose sign
/// bit is clear, a greater pattern is a greater number; those above
/// `INFINITY_BITS` are not numbers.
#[derive(Clone, Copy, PartialEq, Eq, Structural, Debug)]
pub struct Number {
    pub bits: u64,
}

impl Number {
    /// Whether the number is greater than zero and finite.
    pub open spec fn positive(self) -> bool {
        0 < self.bits < INFINITY_BITS
    }

    /// The greater of the number and one. What is not a number counts for
    /// nothing, and neither does what is below zero.
    pub open spec fn or_one(self) -> Number {
        if ONE_BITS <= self.bits <= INFINITY_BITS {
            self
        } else {
            Number { bits: ONE_BITS }
        }
    }

    /// The number with the given bit pattern.
    pub fn from_bits(bits: u64) -> (r: Number)
        ensures
            r.bits == bits,
    {
        Number { bits }
    }

    /// The number one.
    pub fn one() -> (r: Number)
        ensures
            r.bits == ONE_BITS,
    {
        Number { bits: ONE_BITS }
    }

    /// Whether the number is greater than zero and finite.
    pub fn is_positive(&self) -> (r: bool)
        ensures
            r == self.positive(),
    {
        0 < self.bits && self.bits < INFINITY_BITS
    }

    /// The greater of the number and one.
    pub fn at_least_one(&self) -> (r: Number)
        ensures
            r == self.or_one(),
    {
        if ONE_BITS <= self.bits && self.bits <= INFINITY_BITS {
            *self
        } else {
            Number::one()
        }
    }
}

/// A number is positive if its sign bit is clear, it is not zero, and it is
/// below infinity: the patterns from that of the least number to that before
/// infinity's.
pub proof fn law_positive_numbers(n: Number)
    ensures
        n.positive() <==> 0x0000_0000_0000_0001 <= n.bits <= 0x7fef_ffff_ffff_ffff,
{
}

/// The greater of a number and one is never below one, is the number itself
/// from one on, and is one for whatever is below one or no number.
pub proof fn law_at_least_one(n: Number)
    ensures
        0x3ff0_0000_0000_0000 <= n.or_one().bits <= 0x7ff0_0000_0000_0000,
        0x3ff0_0000_0000_0000 <= n.bits <= 0x7ff0_0000_0000_0000 ==> n.or_one() == n,
        n.bits < 0x3ff0_0000_0000_0000 || n.bits > 0x7ff0_0000_0000_0000 ==> n.or_one().bits
            == 0x3ff0_0000_0000_0000,
{
}

} // verus!
