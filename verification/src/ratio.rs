//! Split ratios, held as the bits of an IEEE single-precision number.

use vstd::prelude::*;

verus! {

/// A split ratio by the bit pattern of a 32-bit float.
#[derive(Clone, Copy, Debug, PartialEq, Eq, Structural)]
pub struct Ratio {
    pub bits: u32,
}

/// The bits of one half.
pub const HALF_BITS: u32 = 0x3f00_0000;

/// The bits of the smallest ratio a split may be given, 0.05.
pub const MIN_RATIO_BITS: u32 = 0x3d4c_cccd;

/// The bits of the largest ratio a split may be given, 0.95.
pub const MAX_RATIO_BITS: u32 = 0x3f73_3333;

impl Ratio {
    /// Whether the bits stand for no number.
    pub open spec fn is_nan(self) -> bool {
        self.bits % 0x8000_0000 > 0x7f80_0000
    }

    /// Position among the numbers, by sign and magnitude: of two bit patterns
    /// that are numbers the one with the smaller rank is the smaller number,
    /// and both zeros have rank zero.
    pub open spec fn rank(self) -> int {
        if self.bits < 0x8000_0000 {
            self.bits as int
        } else {
            0x8000_0000 - self.bits
        }
    }

    /// The ratio moved into the span that a split may have; what is no number
    /// stays as it is.
    pub open spec fn clamped(self) -> Ratio {
        if self.is_nan() {
            self
        } else if self.rank() < MIN_RATIO_BITS {
            Ratio { bits: MIN_RATIO_BITS }
        } else if self.rank() > MAX_RATIO_BITS {
            Ratio { bits: MAX_RATIO_BITS }
        } else {
            self
        }
    }

    /// One half.
    pub fn half() -> (r: Ratio)
        ensures
            r.bits == HALF_BITS,
    {
        Ratio { bits: HALF_BITS }
    }

    /// Clamps the ratio between 0.05 and 0.95.
    pub fn clamp_to_split(self) -> (r: Ratio)
        ensures
            r == self.clamped(),
    {
        if self.bits % 0x8000_0000 > 0x7f80_0000 {
            self
        } else if self.bits >= 0x8000_0000 || self.bits < MIN_RATIO_BITS {
            Ratio { bits: MIN_RATIO_BITS }
        } else if self.bits > MAX_RATIO_BITS {
            Ratio { bits: MAX_RATIO_BITS }
        } else {
            self
        }
    }
}

/// Clamping keeps every number within the span, changes nothing that is there
/// already, and clamping again changes nothing.
pub proof fn law_clamped_ratio(r: Ratio)
    ensures
        r.clamped().clamped() == r.clamped(),
        !r.is_nan() ==> MIN_RATIO_BITS <= r.clamped().rank() <= MAX_RATIO_BITS,
        !r.is_nan() && MIN_RATIO_BITS <= r.rank() <= MAX_RATIO_BITS ==> r.clamped() == r,
{
}

/// A split is never given less than a twentieth or more than nineteen twentieths: numbers
/// from zero up stand in the order of their bits, and everything below zero is below them.
pub proof fn law_span_of_a_split(r: Ratio, other: Ratio)
    requires
        !r.is_nan(),
        !other.is_nan(),
    ensures
        0x3d4c_cccd <= r.clamped().bits <= 0x3f73_3333,
        0x3d4c_cccd <= r.bits <= 0x3f73_3333 ==> r.clamped() == r,
        r.bits >= 0x8000_0000 ==> r.clamped().bits == 0x3d4c_cccd,
        r.bits < 0x3d4c_cccd ==> r.clamped().bits == 0x3d4c_cccd,
        0x3f73_3333 < r.bits < 0x8000_0000 ==> r.clamped().bits == 0x3f73_3333,
        r.bits <= other.bits < 0x8000_0000 ==> r.clamped().bits <= other.clamped().bits,
        r.bits < 0x8000_0000 ==> r.bits <= 0x7f80_0000,
{
}

} // verus!
