//! Numbers as the engine sees them: 64-bit IEEE 754 values held by their bit
//! pattern, ordered and compared with integer arithmetic only.

use vstd::prelude::*;

verus! {

/// The bit pattern of the sign bit alone.
pub const SIGN_BIT: u64 = 0x8000_0000_0000_0000;

/// The bit pattern of positive infinity: every larger magnitude is a NaN.
pub const INFINITY_BITS: u64 = 0x7ff0_0000_0000_0000;

/// The bit pattern of negative infinity.
pub const NEG_INFINITY_BITS: u64 = 0xfff0_0000_0000_0000;

/// A 64-bit IEEE 754 number, held as its bit pattern.
///
/// The library never computes with the number as a float: it orders and
/// compares it through `rank`, and hands the bits back unchanged.
#[derive(Clone, Copy, Debug, PartialEq, Eq, Hash, Structural)]
pub struct Number {
    pub bits: u64,
}

impl Number {
    /// The pattern without its sign bit.
    pub open spec fn magnitude(self) -> int {
        if self.bits >= SIGN_BIT {
            self.bits - SIGN_BIT
        } else {
            self.bits as int
        }
    }

    /// Whether the sign bit is set.
    pub open spec fn is_negative(self) -> bool {
        self.bits >= SIGN_BIT
    }

    /// Whether the pattern is a NaN: a magnitude above that of infinity.
    pub open spec fn is_nan(self) -> bool {
        self.magnitude() > INFINITY_BITS
    }

    /// The place of a number that is no NaN in the numeric order: the
    /// magnitude, negated under a sign bit. Both zeros have rank 0.
    pub open spec fn rank(self) -> int {
        if self.is_negative() {
            -self.magnitude()
        } else {
            self.magnitude()
        }
    }

    /// `self < other` as IEEE 754 has it: false as soon as one side is a NaN.
    pub open spec fn less(self, other: Number) -> bool {
        !self.is_nan() && !other.is_nan() && self.rank() < other.rank()
    }

    /// `self <= other` as IEEE 754 has it: false as soon as one side is a NaN.
    pub open spec fn at_most(self, other: Number) -> bool {
        !self.is_nan() && !other.is_nan() && self.rank() <= other.rank()
    }

    /// The greater of two numbers; a NaN gives way to the other side.
    pub open spec fn greater_of(self, other: Number) -> Number {
        if self.is_nan() {
            other
        } else if other.is_nan() {
            self
        } else if self.rank() < other.rank() {
            other
        } else {
            self
        }
    }

    /// The lesser of two numbers; a NaN gives way to the other side.
    pub open spec fn lesser_of(self, other: Number) -> Number {
        if self.is_nan() {
            other
        } else if other.is_nan() {
            self
        } else if other.rank() < self.rank() {
            other
        } else {
            self
        }
    }

    /// The number with the given bit pattern.
    pub fn from_bits(bits: u64) -> (n: Number)
        ensures
            n.bits == bits,
    {
        Number { bits }
    }

    /// The bit pattern of the number.
    pub fn to_bits(&self) -> (bits: u64)
        ensures
            bits == self.bits,
    {
        self.bits
    }

    /// Positive infinity, which no number exceeds.
    pub fn infinity() -> (n: Number)
        ensures
            n.bits == INFINITY_BITS,
            !n.is_nan(),
            forall|m: Number| !m.is_nan() ==> #[trigger] m.rank() <= n.rank(),
    {
        Number { bits: INFINITY_BITS }
    }

    /// Negative infinity, which exceeds no number.
    pub fn neg_infinity() -> (n: Number)
        ensures
            n.bits == NEG_INFINITY_BITS,
            !n.is_nan(),
            forall|m: Number| !m.is_nan() ==> n.rank() <= #[trigger] m.rank(),
    {
        Number { bits: NEG_INFINITY_BITS }
    }

    /// Whether the number is a NaN.
    pub fn nan(&self) -> (r: bool)
        ensures
            r == self.is_nan(),
    {
        if self.bits >= SIGN_BIT {
            self.bits - SIGN_BIT > INFINITY_BITS
        } else {
            self.bits > INFINITY_BITS
        }
    }

    /// The rank of the number, as a machine integer.
    fn key(&self) -> (k: i128)
        ensures
            k == self.rank(),
    {
        if self.bits >= SIGN_BIT {
            let m: u64 = self.bits - SIGN_BIT;
            -(m as i128)
        } else {
            self.bits as i128
        }
    }

    /// `self < other`.
    pub fn lt(&self, other: &Number) -> (r: bool)
        ensures
            r == self.less(*other),
    {
        !self.nan() && !other.nan() && self.key() < other.key()
    }

    /// `self <= other`.
    pub fn le(&self, other: &Number) -> (r: bool)
        ensures
            r == self.at_most(*other),
    {
        !self.nan() && !other.nan() && self.key() <= other.key()
    }

    /// `self > other`.
    pub fn gt(&self, other: &Number) -> (r: bool)
        ensures
            r == other.less(*self),
    {
        other.lt(self)
    }

    /// `self >= other`.
    pub fn ge(&self, other: &Number) -> (r: bool)
        ensures
            r == other.at_most(*self),
    {
        other.le(self)
    }

    /// The greater of the two; a NaN gives way to the other.
    pub fn max(self, other: Number) -> (r: Number)
        ensures
            r == self.greater_of(other),
    {
        if self.nan() {
            other
        } else if other.nan() {
            self
        } else if self.key() < other.key() {
            other
        } else {
            self
        }
    }

    /// The lesser of the two; a NaN gives way to the other.
    pub fn min(self, other: Number) -> (r: Number)
        ensures
            r == self.lesser_of(other),
    {
        if self.nan() {
            other
        } else if other.nan() {
            self
        } else if other.key() < self.key() {
            other
        } else {
            self
        }
    }
}

/// Of two numbers that are no NaN, exactly one of `a < b`, `b < a` and equal
/// rank holds, and `<=` is `<` or equal rank.
pub proof fn lemma_order_is_total(a: Number, b: Number)
    requires
        !a.is_nan(),
        !b.is_nan(),
    ensures
        a.less(b) || b.less(a) || a.rank() == b.rank(),
        !(a.less(b) && b.less(a)),
        a.at_most(b) <==> !b.less(a),
{
}

} // verus!
