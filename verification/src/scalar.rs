//! Real numbers as they are stored: the bit pattern of an IEEE-754 binary32
//! value. The crate moves such values around and compares them by their
//! bits; it never does arithmetic on them.

use vstd::prelude::*;

verus! {

/// The bit pattern of positive infinity, the largest pattern that is a number.
pub const INFINITY_BITS: u32 = 0x7F80_0000;

/// The bit that holds the sign.
pub const SIGN_BIT: u32 = 0x8000_0000;

/// A real number, held as the bit pattern of an IEEE-754 binary32 value.
#[derive(Clone, Copy, Debug)]
pub struct Scalar {
    pub bits: u32,
}

impl Scalar {
    /// The pattern without its sign bit.
    pub open spec fn magnitude(self) -> int {
        if self.bits >= SIGN_BIT {
            self.bits - SIGN_BIT
        } else {
            self.bits as int
        }
    }

    /// The pattern stands for no number.
    pub open spec fn is_nan(self) -> bool {
        self.magnitude() > INFINITY_BITS
    }

    /// An integer that grows with the number: of two patterns that stand for
    /// numbers, the one with the smaller rank stands for the smaller number,
    /// and the two zeros have the same rank.
    pub open spec fn rank(self) -> int {
        if self.bits >= SIGN_BIT {
            -self.magnitude()
        } else {
            self.magnitude()
        }
    }

    /// Both patterns stand for numbers, and this one for the smaller.
    pub open spec fn is_less(self, other: Scalar) -> bool {
        !self.is_nan() && !other.is_nan() && self.rank() < other.rank()
    }

    /// Both patterns stand for numbers, and this one for no greater a number
    /// than the other.
    pub open spec fn is_at_most(self, other: Scalar) -> bool {
        !self.is_nan() && !other.is_nan() && self.rank() <= other.rank()
    }

    /// The pattern stands for a number strictly greater than zero, positive
    /// infinity included.
    pub open spec fn is_positive(self) -> bool {
        (Scalar { bits: 0 }).is_less(self)
    }

    /// The number of the same size and the other sign.
    pub open spec fn opposite(self) -> Scalar {
        if self.bits >= SIGN_BIT {
            Scalar { bits: (self.bits - SIGN_BIT) as u32 }
        } else {
            Scalar { bits: (self.bits + SIGN_BIT) as u32 }
        }
    }

    /// This number held between `min` and `max`: `min` where it is less,
    /// `max` where it is greater, and otherwise itself; so what is no number
    /// stays what it is.
    pub open spec fn clamped(self, min: Scalar, max: Scalar) -> Scalar {
        if self.is_less(min) {
            min
        } else if max.is_less(self) {
            max
        } else {
            self
        }
    }

    pub fn from_bits(bits: u32) -> (r: Self)
        ensures
            r.bits == bits,
    {
        Scalar { bits }
    }

    pub fn to_bits(self) -> (bits: u32)
        ensures
            bits == self.bits,
    {
        self.bits
    }

    /// The number of the same size and the other sign.
    pub fn negate(self) -> (r: Scalar)
        ensures
            r == self.opposite(),
    {
        if self.bits >= SIGN_BIT {
            Scalar { bits: self.bits - SIGN_BIT }
        } else {
            Scalar { bits: self.bits + SIGN_BIT }
        }
    }

    /// Whether the pattern stands for no number.
    pub fn nan(self) -> (r: bool)
        ensures
            r == self.is_nan(),
    {
        if self.bits >= SIGN_BIT {
            self.bits - SIGN_BIT > INFINITY_BITS
        } else {
            self.bits > INFINITY_BITS
        }
    }

    /// The rank of the pattern.
    fn ranked(self) -> (r: i64)
        ensures
            r == self.rank(),
    {
        if self.bits >= SIGN_BIT {
            let magnitude: u32 = self.bits - SIGN_BIT;
            0 - (magnitude as i64)
        } else {
            self.bits as i64
        }
    }

    /// Whether the number is strictly greater than zero. A pattern that is no
    /// number is not.
    pub fn positive(self) -> (r: bool)
        ensures
            r == self.is_positive(),
    {
        0 < self.bits && self.bits <= INFINITY_BITS
    }

    /// Whether this number is less than the other. What is no number is
    /// neither less nor greater than anything.
    pub fn lt(self, other: Scalar) -> (r: bool)
        ensures
            r == self.is_less(other),
    {
        !self.nan() && !other.nan() && self.ranked() < other.ranked()
    }

    /// Whether this number is less than the other or equal to it.
    pub fn le(self, other: Scalar) -> (r: bool)
        ensures
            r == self.is_at_most(other),
    {
        !self.nan() && !other.nan() && self.ranked() <= other.ranked()
    }

    /// This number held between `min` and `max`, of which `min` is not the
    /// greater.
    pub fn clamp(self, min: Scalar, max: Scalar) -> (r: Scalar)
        requires
            min.is_at_most(max),
        ensures
            r == self.clamped(min, max),
            !r.is_less(min),
            !max.is_less(r),
    {
        if self.lt(min) {
            min
        } else if max.lt(self) {
            max
        } else {
            self
        }
    }
}

} // verus!
