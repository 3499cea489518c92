use vstd::prelude::*;

verus! {

/// A binary32 quantity, carried by its IEEE 754 bit pattern.
///
/// Lengths, offsets and angles travel through the library untouched; the only
/// questions ever asked of one are about its sign and whether it is zero,
/// and those are answered on the bit pattern.
#[derive(Clone, Copy, Debug, PartialEq, Eq, Structural)]
pub struct Number {
    pub bits: u32,
}

/// Bit pattern of positive infinity; every larger unsigned pattern below the
/// sign bit is a NaN.
pub const POSITIVE_INFINITY_BITS: u32 = 0x7F80_0000;

/// Bit pattern of negative zero, which is also the mask of the sign bit.
pub const NEGATIVE_ZERO_BITS: u32 = 0x8000_0000;

/// Bit pattern of negative infinity.
pub const NEGATIVE_INFINITY_BITS: u32 = 0xFF80_0000;

impl Number {
    /// The pattern stands for a finite value strictly above zero.
    pub open spec fn positive(self) -> bool {
        0 < self.bits < POSITIVE_INFINITY_BITS
    }

    /// The pattern stands for zero of either sign.
    pub open spec fn zero(self) -> bool {
        self.bits == 0 || self.bits == NEGATIVE_ZERO_BITS
    }

    /// The pattern stands for a value strictly below zero, negative infinity
    /// included and NaN excluded.
    pub open spec fn negative(self) -> bool {
        NEGATIVE_ZERO_BITS < self.bits <= NEGATIVE_INFINITY_BITS
    }

    /// Wraps a bit pattern.
    pub fn from_bits(bits: u32) -> (n: Number)
        ensures
            n.bits == bits,
    {
        Number { bits }
    }

    /// The bit pattern.
    pub fn to_bits(self) -> (bits: u32)
        ensures
            bits == self.bits,
    {
        self.bits
    }

    /// Positive zero.
    pub fn zero_value() -> (n: Number)
        ensures
            n.bits == 0,
    {
        Number { bits: 0 }
    }

    /// Finite and strictly above zero.
    pub fn is_positive(self) -> (b: bool)
        ensures
            b == self.positive(),
    {
        0 < self.bits && self.bits < POSITIVE_INFINITY_BITS
    }

    /// Zero of either sign.
    pub fn is_zero(self) -> (b: bool)
        ensures
            b == self.zero(),
    {
        self.bits == 0 || self.bits == NEGATIVE_ZERO_BITS
    }

    /// Strictly below zero.
    pub fn is_negative(self) -> (b: bool)
        ensures
            b == self.negative(),
    {
        NEGATIVE_ZERO_BITS < self.bits && self.bits <= NEGATIVE_INFINITY_BITS
    }
}

} // verus!
