//! Single-precision numbers, carried by their bit pattern.
//!
//! The library moves positions, deltas and scale factors around without
//! computing with them, so it holds each as the 32 bits of its IEEE 754
//! encoding. A caller converts at the edge, with `to_bits` and `from_bits`.

use vstd::prelude::*;

verus! {

/// A single-precision number, as the bit pattern of its IEEE 754 encoding.
#[derive(Clone, Copy, Debug, PartialEq, Eq, Structural)]
pub struct Scalar(pub u32);

/// A pair of scalars: a position or a delta, horizontal component first.
pub type Position = [Scalar; 2];

impl Scalar {
    /// The encoding of one.
    pub const ONE_BITS: u32 = 0x3f80_0000;

    /// The encoding of positive infinity.
    pub const INFINITY_BITS: u32 = 0x7f80_0000;

    /// The number zero.
    #[verifier::allow_in_spec]
    pub fn zero() -> Scalar
        returns
            Scalar(0),
    {
        Scalar(0)
    }

    /// The number one.
    #[verifier::allow_in_spec]
    pub fn one() -> Scalar
        returns
            Scalar(Scalar::ONE_BITS),
    {
        Scalar(Scalar::ONE_BITS)
    }

    /// Whether the number is greater than zero.
    ///
    /// The encodings of the positive numbers are exactly the patterns between
    /// zero's and positive infinity's, infinity included: a pattern above
    /// those is a NaN or has its sign bit set.
    #[verifier::allow_in_spec]
    pub fn is_positive(self) -> bool
        returns
            0 < self.0 <= Scalar::INFINITY_BITS,
    {
        0 < self.0 && self.0 <= Scalar::INFINITY_BITS
    }
}

/// A number is positive exactly when its sign bit is clear, it is not zero and
/// it is no NaN; infinity is positive.
pub proof fn law_positive_numbers(number: Scalar)
    ensures
        number.is_positive() <==> number.0 != 0 && number.0 <= 0x7f80_0000,
        Scalar::one().is_positive(),
        !Scalar::zero().is_positive(),
        Scalar::one().0 == 0x3f80_0000,
        Scalar::zero().0 == 0,
{
}

} // verus!
