//! Trace sampling rates.

use vstd::prelude::*;

verus! {

/// Bits of the largest positive rate.
pub const POSITIVE_LIMIT_BITS: u64 = 0x7ff0_0000_0000_0000;

/// A trace sampling rate, held as the bits of its IEEE 754 double.
#[derive(Debug, Clone, Copy, PartialEq, Eq, Structural)]
pub struct SamplingRate {
    /// Bits of the rate.
    pub bits: u64,
}

impl SamplingRate {
    /// Whether the rate is above zero: the sign is clear, the value is not zero, and it is a
    /// number.
    pub open spec fn positive(self) -> bool {
        0 < self.bits <= POSITIVE_LIMIT_BITS
    }

    /// Returns whether the rate is above zero.
    pub fn is_positive(&self) -> (positive: bool)
        ensures
            positive == self.positive(),
    {
        0 < self.bits && self.bits <= POSITIVE_LIMIT_BITS
    }
}

/// A rate counts as above zero exactly if its sign is clear, its value is not zero and it is a number:
/// with a full exponent nothing may follow.
pub proof fn rates_above_zero(rate: SamplingRate, sign: int, exponent: int, fraction: int)
    requires
        rate.bits == sign * 0x8000_0000_0000_0000 + exponent * 0x10_0000_0000_0000 + fraction,
        0 <= sign <= 1,
        0 <= exponent < 2048,
        0 <= fraction < 0x10_0000_0000_0000,
    ensures
        rate.positive() <==> {
            &&& sign == 0
            &&& exponent > 0 || fraction > 0
            &&& exponent < 2047 || fraction == 0
        },
{
}

} // verus!
