//! IEEE-754 single-precision values held as their bit patterns.
//!
//! Scores, confidences and weights travel through the handlers as 32-bit
//! patterns. Everything the handlers decide about them is an order test, and
//! the order of the patterns is an order of integers.
use vstd::prelude::*;

verus! {

/// The sign bit of a pattern.
pub const SIGN: u32 = 0x8000_0000;

/// The pattern of positive infinity; a larger magnitude is a NaN.
pub const INFINITY_BITS: u32 = 0x7F80_0000;

/// The bit pattern of a single-precision value.
#[derive(Clone, Copy, Debug, PartialEq, Eq, Structural)]
pub struct Single {
    pub bits: u32,
}

/// The pattern of `0.5`.
pub const HALF_BITS: u32 = 0x3F00_0000;

/// The pattern of `1.0`.
pub const ONE_BITS: u32 = 0x3F80_0000;

/// The pattern of `-1.0`.
pub const MINUS_ONE_BITS: u32 = 0xBF80_0000;

impl Single {
    /// The pattern without its sign.
    pub open spec fn magnitude(self) -> int {
        if self.bits < SIGN {
            self.bits as int
        } else {
            self.bits - SIGN
        }
    }

    /// Whether the pattern stands for no number.
    pub open spec fn nan(self) -> bool {
        self.magnitude() > INFINITY_BITS
    }

    /// An integer that orders numbers as their values do; both zeroes map to 0.
    pub open spec fn key(self) -> int {
        if self.bits < SIGN {
            self.magnitude()
        } else {
            -self.magnitude()
        }
    }

    /// The order of values, false on a NaN.
    pub open spec fn below(self, other: Single) -> bool {
        !self.nan() && !other.nan() && self.key() < other.key()
    }

    /// The reflexive order of values, false on a NaN.
    pub open spec fn at_most(self, other: Single) -> bool {
        !self.nan() && !other.nan() && self.key() <= other.key()
    }

    /// A value from its bit pattern.
    pub fn from_bits(bits: u32) -> (r: Single)
        ensures
            r.bits == bits,
    {
        Single { bits }
    }

    /// The bit pattern of a value.
    pub fn to_bits(self) -> (r: u32)
        ensures
            r == self.bits,
    {
        self.bits
    }

    pub fn is_nan(self) -> (r: bool)
        ensures
            r == self.nan(),
    {
        if self.bits < SIGN {
            self.bits > INFINITY_BITS
        } else {
            self.bits - SIGN > INFINITY_BITS
        }
    }

    /// The order key as a machine integer.
    pub fn order_key(self) -> (r: i64)
        ensures
            r == self.key(),
    {
        if self.bits < SIGN {
            self.bits as i64
        } else {
            -((self.bits - SIGN) as i64)
        }
    }

    /// `self < other`.
    pub fn is_below(self, other: Single) -> (r: bool)
        ensures
            r == self.below(other),
    {
        !self.is_nan() && !other.is_nan() && self.order_key() < other.order_key()
    }

    /// `self <= other`.
    pub fn is_at_most(self, other: Single) -> (r: bool)
        ensures
            r == self.at_most(other),
    {
        !self.is_nan() && !other.is_nan() && self.order_key() <= other.order_key()
    }

    /// The order key of `max(self, 0)`, where a NaN counts as 0.
    pub open spec fn positive_key(self) -> int {
        if self.nan() || self.key() < 0 {
            0
        } else {
            self.key()
        }
    }

    /// The order key of `max(self, 0)`, where a NaN counts as 0.
    pub fn positive_order_key(self) -> (r: i64)
        ensures
            r == self.positive_key(),
    {
        let k: i64 = self.order_key();
        if self.is_nan() || k < 0 {
            0
        } else {
            k
        }
    }

    /// Whether `lo <= self <= hi`; false on a NaN.
    pub fn is_within(self, lo: Single, hi: Single) -> (r: bool)
        ensures
            r == (lo.at_most(self) && self.at_most(hi)),
    {
        lo.is_at_most(self) && self.is_at_most(hi)
    }
}

/// The bit pattern of a double-precision value.
#[derive(Clone, Copy, Debug, PartialEq, Eq, Structural)]
pub struct Double {
    pub bits: u64,
}

impl Double {
    /// An integer that orders numbers as their values do; both zeroes map to 0.
    pub open spec fn key(self) -> int {
        if self.bits < 0x8000_0000_0000_0000 {
            self.bits as int
        } else {
            0x8000_0000_0000_0000 - self.bits
        }
    }

    /// Whether the pattern stands for no number.
    pub open spec fn nan(self) -> bool {
        self.key() > 0x7FF0_0000_0000_0000 || self.key() < -0x7FF0_0000_0000_0000
    }

    /// Equality of values, false on a NaN.
    pub fn is_equal(self, other: Double) -> (r: bool)
        ensures
            r == (!self.nan() && !other.nan() && self.key() == other.key()),
    {
        let a: i128 = self.order_key();
        a == other.order_key() && -0x7FF0_0000_0000_0000 <= a && a <= 0x7FF0_0000_0000_0000
    }

    /// The order key as a machine integer.
    pub fn order_key(self) -> (r: i128)
        ensures
            r == self.key(),
    {
        if self.bits < 0x8000_0000_0000_0000 {
            self.bits as i128
        } else {
            0x8000_0000_0000_0000 - self.bits as i128
        }
    }
}

/// Of two numbers either one is below the other or they compare equal.
pub proof fn order_is_total(a: Single, b: Single)
    requires
        !a.nan(),
        !b.nan(),
    ensures
        a.below(b) || b.below(a) || (a.at_most(b) && b.at_most(a)),
        a.below(b) ==> !b.at_most(a),
{
}

/// The order of patterns: without a sign a larger pattern is a larger value,
/// with one it is a smaller value, and every value with a sign is at most every
/// value without. What is larger than infinity is no number.
pub proof fn patterns_order_values(a: Single, b: Single)
    ensures
        a.nan() <==> 0x7F80_0000 < a.bits < 0x8000_0000 || a.bits > 0xFF80_0000,
        a.nan() || b.nan() ==> !a.below(b) && !a.at_most(b),
        !a.nan() && !b.nan() ==> {
            &&& a.bits < 0x8000_0000 && b.bits < 0x8000_0000 ==> (a.below(b) <==> a.bits < b.bits)
            &&& a.bits >= 0x8000_0000 && b.bits >= 0x8000_0000 ==> (a.below(b) <==> a.bits
                > b.bits)
            &&& a.bits >= 0x8000_0000 && b.bits < 0x8000_0000 ==> a.at_most(b)
            &&& a.bits > 0x8000_0000 && b.bits < 0x8000_0000 ==> a.below(b)
            &&& a.at_most(b) <==> !b.below(a)
        },
{
}

} // verus!
