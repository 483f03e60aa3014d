//! Lox numbers: IEEE-754 binary64 values, carried as their bit patterns.

use vstd::prelude::*;

verus! {

/// The sign bit of a binary64 pattern.
pub const SIGN_BIT: u64 = 0x8000_0000_0000_0000u64;

/// The magnitude of positive infinity: exponent all ones, fraction zero.
pub const INFINITY_MAGNITUDE: u64 = 0x7ff0_0000_0000_0000u64;

/// A Lox number. `bits` is the IEEE-754 binary64 encoding of the value.
#[derive(Clone, Copy, Debug, PartialEq, Eq, Structural)]
pub struct Number {
    pub bits: u64,
}

impl Number {
    /// The pattern without its sign bit.
    pub open spec fn magnitude(self) -> int {
        if self.bits >= SIGN_BIT {
            self.bits - SIGN_BIT
        } else {
            self.bits as int
        }
    }

    /// Whether the sign bit is set.
    pub open spec fn is_negative(self) -> bool {
        self.bits >= SIGN_BIT
    }

    /// Whether the pattern encodes a NaN: exponent all ones and a fraction
    /// that is not zero.
    pub open spec fn is_nan(self) -> bool {
        self.magnitude() > INFINITY_MAGNITUDE
    }

    /// The place of a number that is not a NaN on the number line: patterns
    /// with the sign bit count downwards from zero, the others upwards, and
    /// both zeros share one place.
    pub open spec fn place(self) -> int {
        if self.is_negative() {
            -self.magnitude()
        } else {
            self.magnitude()
        }
    }

    /// IEEE-754 equality: a NaN equals nothing, the two zeros are equal.
    pub open spec fn spec_equals(self, other: Number) -> bool {
        !self.is_nan() && !other.is_nan() && self.place() == other.place()
    }

    /// IEEE-754 `<`: false whenever a NaN is involved.
    pub open spec fn spec_less(self, other: Number) -> bool {
        !self.is_nan() && !other.is_nan() && self.place() < other.place()
    }

    /// IEEE-754 `<=`: false whenever a NaN is involved.
    pub open spec fn spec_less_equal(self, other: Number) -> bool {
        !self.is_nan() && !other.is_nan() && self.place() <= other.place()
    }

    /// The same value with the opposite sign.
    pub open spec fn spec_negate(self) -> Number {
        if self.bits >= SIGN_BIT {
            Number { bits: (self.bits - SIGN_BIT) as u64 }
        } else {
            Number { bits: (self.bits + SIGN_BIT) as u64 }
        }
    }

    pub fn from_bits(bits: u64) -> (n: Number)
        ensures
            n.bits == bits,
    {
        Number { bits }
    }

    pub fn to_bits(self) -> (bits: u64)
        ensures
            bits == self.bits,
    {
        self.bits
    }

    fn magnitude_bits(self) -> (m: u64)
        ensures
            m == self.magnitude(),
    {
        if self.bits >= SIGN_BIT {
            self.bits - SIGN_BIT
        } else {
            self.bits
        }
    }

    pub fn is_not_a_number(self) -> (b: bool)
        ensures
            b == self.is_nan(),
    {
        self.magnitude_bits() > INFINITY_MAGNITUDE
    }

    /// Unary minus: flips the sign bit, also of a zero, an infinity or a NaN.
    pub fn negate(self) -> (n: Number)
        ensures
            n == self.spec_negate(),
            n.magnitude() == self.magnitude(),
            n.is_negative() != self.is_negative(),
    {
        if self.bits >= SIGN_BIT {
            Number { bits: self.bits - SIGN_BIT }
        } else {
            Number { bits: self.bits + SIGN_BIT }
        }
    }

    pub fn equals(self, other: Number) -> (b: bool)
        ensures
            b == self.spec_equals(other),
    {
        if self.is_not_a_number() || other.is_not_a_number() {
            return false;
        }
        let a: u64 = self.magnitude_bits();
        let b: u64 = other.magnitude_bits();
        if a == 0 && b == 0 {
            return true;
        }
        self.bits == other.bits
    }

    pub fn less(self, other: Number) -> (b: bool)
        ensures
            b == self.spec_less(other),
    {
        if self.is_not_a_number() || other.is_not_a_number() {
            return false;
        }
        let a: u64 = self.magnitude_bits();
        let b: u64 = other.magnitude_bits();
        let a_negative: bool = self.bits >= SIGN_BIT;
        let b_negative: bool = other.bits >= SIGN_BIT;
        if a_negative {
            if b_negative {
                a > b
            } else {
                a > 0 || b > 0
            }
        } else {
            if b_negative {
                false
            } else {
                a < b
            }
        }
    }

    pub fn less_equal(self, other: Number) -> (b: bool)
        ensures
            b == self.spec_less_equal(other),
    {
        if self.is_not_a_number() || other.is_not_a_number() {
            return false;
        }
        !other.less(self)
    }

    pub fn greater(self, other: Number) -> (b: bool)
        ensures
            b == other.spec_less(self),
    {
        other.less(self)
    }

    pub fn greater_equal(self, other: Number) -> (b: bool)
        ensures
            b == other.spec_less_equal(self),
    {
        other.less_equal(self)
    }
}

/// Negating twice gives the number back.
pub proof fn negate_is_an_involution(n: Number)
    ensures
        n.spec_negate().spec_negate() == n,
{
}

/// Of two numbers of which neither is a NaN, exactly one of `a < b`,
/// `a == b` and `b < a` holds.
pub proof fn numbers_are_totally_ordered(a: Number, b: Number)
    requires
        !a.is_nan(),
        !b.is_nan(),
    ensures
        a.spec_less(b) || a.spec_equals(b) || b.spec_less(a),
        !(a.spec_less(b) && a.spec_equals(b)),
        !(a.spec_less(b) && b.spec_less(a)),
        !(b.spec_less(a) && a.spec_equals(b)),
{
}

} // verus!
