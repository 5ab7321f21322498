//! Numbers as the library holds them.
//!
//! A `Scalar` carries an IEEE-754 binary64 number as its raw bit pattern,
//! together with the decimal text the caller wants shown for it. The
//! library itself never performs floating-point arithmetic: evaluation
//! hands pairs of bit patterns to a caller-supplied routine and reasons
//! about everything else. The one numeric question the library answers by
//! itself is whether a bit pattern is an IEEE-754 zero, which decides
//! division by zero. Numbers carry no equality of their own: IEEE-754
//! comparison is not bit-pattern comparison (negative zero equals zero,
//! and a NaN never equals itself), so comparing stays with the caller.

use vstd::prelude::*;

verus! {

/// The bit pattern of IEEE-754 binary64 negative zero.
pub const NEGATIVE_ZERO_BITS: u64 = 0x8000_0000_0000_0000;

/// Whether a binary64 bit pattern encodes an exact zero. Positive and
/// negative zero are the only two such patterns.
pub open spec fn is_zero_bits(bits: u64) -> bool {
    bits == 0 || bits == NEGATIVE_ZERO_BITS
}

/// Whether a binary64 bit pattern encodes an exact zero.
pub fn bits_are_zero(bits: u64) -> (r: bool)
    ensures
        r == is_zero_bits(bits),
{
    bits == 0 || bits == NEGATIVE_ZERO_BITS
}

/// A number: an IEEE-754 binary64 bit pattern plus its decimal rendering.
#[derive(Clone, Debug)]
pub struct Scalar {
    bits: u64,
    text: String,
}

impl Scalar {
    /// The bit pattern, seen from specifications.
    pub closed spec fn bits_spec(&self) -> u64 {
        self.bits
    }

    /// The rendering, seen from specifications.
    pub closed spec fn text_spec(&self) -> Seq<char> {
        self.text@
    }

    /// Builds a number from its binary64 bit pattern and the decimal text
    /// it renders as. Callers convert a machine float to its bit pattern
    /// and its canonical decimal form outside the library.
    pub fn new(bits: u64, text: String) -> (s: Scalar)
        ensures
            s.bits_spec() == bits,
            s.text_spec() == text@,
    {
        Scalar { bits, text }
    }

    /// The binary64 bit pattern of this number.
    pub fn bits(&self) -> (bits: u64)
        ensures
            bits == self.bits_spec(),
    {
        self.bits
    }

    /// The decimal text this number renders as.
    pub fn text(&self) -> (text: &str)
        ensures
            text@ == self.text_spec(),
    {
        self.text.as_str()
    }

    /// Whether this number is an exact IEEE-754 zero, negative zero included.
    pub fn is_zero(&self) -> (r: bool)
        ensures
            r == is_zero_bits(self.bits_spec()),
    {
        self.bits == 0 || self.bits == NEGATIVE_ZERO_BITS
    }
}

} // verus!
