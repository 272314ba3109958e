//! Single-precision numbers as bit patterns: classification and ordering.
use vstd::prelude::*;
use crate::value::{lemma_half_rounds_to_even, lemma_rank_orders_values};

verus! {

/// The bit that carries the sign.
pub const SIGN_BIT: u32 = 0x8000_0000;

/// The pattern of positive infinity; every larger magnitude is a NaN.
pub const INFINITY_BITS: u32 = 0x7f80_0000;

/// The lowest exponent bit: the weight of the hidden leading one of a normal
/// significand.
pub const HIDDEN_BIT: u32 = 0x0080_0000;

/// The top fraction bit, which tells a quiet NaN from a signalling one.
pub const QUIET_BIT: u32 = 0x0040_0000;

/// The pattern of `1.0`.
pub const ONE_BITS: u32 = 0x3f80_0000;

/// An IEEE 754 binary32 number, held as its bit pattern.
///
/// What a finite pattern is worth is [`Scalar::units`]. `==` on this type is
/// identity of patterns; the numeric comparisons are the methods
/// [`Scalar::lt`], [`Scalar::le`], [`Scalar::ge`], [`Scalar::gt`] and
/// [`Scalar::same_number`].
#[derive(Clone, Copy, Debug, PartialEq, Eq, Structural)]
pub struct Scalar {
    pub bits: u32,
}

impl Scalar {
    /// The pattern without its sign bit.
    pub open spec fn magnitude(self) -> int {
        if self.bits >= SIGN_BIT {
            self.bits - SIGN_BIT
        } else {
            self.bits as int
        }
    }

    /// The sign bit is set. This holds of `-0.0` and of some NaNs too.
    pub open spec fn negative(self) -> bool {
        self.bits >= SIGN_BIT
    }

    pub open spec fn nan(self) -> bool {
        self.magnitude() > INFINITY_BITS
    }

    pub open spec fn infinite(self) -> bool {
        self.magnitude() == INFINITY_BITS
    }

    /// Zero, subnormal or normal.
    pub open spec fn finite(self) -> bool {
        self.magnitude() < INFINITY_BITS
    }

    /// The place of a number on the number line: patterns of one sign are
    /// ordered as their magnitudes are, and the two zeros share place 0.
    /// It carries no meaning for a NaN.
    pub open spec fn rank(self) -> int {
        if self.negative() {
            -self.magnitude()
        } else {
            self.magnitude()
        }
    }

    /// `self < other` as IEEE 754 has it: false as soon as one side is a NaN.
    pub open spec fn below(self, other: Scalar) -> bool {
        !self.nan() && !other.nan() && self.rank() < other.rank()
    }

    /// `self <= other` as IEEE 754 has it.
    pub open spec fn at_most(self, other: Scalar) -> bool {
        !self.nan() && !other.nan() && self.rank() <= other.rank()
    }

    /// `self == other` as IEEE 754 has it: the zeros are equal, a NaN equals
    /// nothing.
    pub open spec fn equals(self, other: Scalar) -> bool {
        !self.nan() && !other.nan() && self.rank() == other.rank()
    }

    pub open spec fn negated(self) -> Scalar {
        if self.bits >= SIGN_BIT {
            Scalar { bits: (self.bits - SIGN_BIT) as u32 }
        } else {
            Scalar { bits: (self.bits + SIGN_BIT) as u32 }
        }
    }

    pub open spec fn absolute(self) -> Scalar {
        Scalar { bits: self.magnitude() as u32 }
    }

    /// The pattern of `self / 2.0`, rounded to nearest with ties to even.
    ///
    /// From the second binade upward halving lowers the exponent by one.
    /// Below that the last bit of the significand is dropped, and a dropped
    /// one rounds the rest to the even neighbour. Zeros and infinities are
    /// their own halves; a NaN stays a NaN, made quiet.
    pub open spec fn halved(self) -> Scalar {
        let m = self.magnitude();
        let half: int = if m > INFINITY_BITS {
            if m % (2 * QUIET_BIT) >= QUIET_BIT {
                m
            } else {
                m + QUIET_BIT
            }
        } else if m == INFINITY_BITS {
            m
        } else if m >= 2 * HIDDEN_BIT {
            m - HIDDEN_BIT
        } else if m % 2 == 1 && (m / 2) % 2 == 1 {
            m / 2 + 1
        } else {
            m / 2
        };
        Scalar { bits: (self.bits - m + half) as u32 }
    }

    /// `self.min(other)`: the lesser number, and the other one where one of
    /// the two is a NaN. Of two zeros it is the first.
    pub open spec fn lesser(self, other: Scalar) -> Scalar {
        if other.below(self) || self.nan() {
            other
        } else {
            self
        }
    }

    /// `self.max(other)`: the greater number, and the other one where one of
    /// the two is a NaN. Of two zeros it is the first.
    pub open spec fn greater(self, other: Scalar) -> Scalar {
        if self.below(other) || self.nan() {
            other
        } else {
            self
        }
    }

    pub open spec fn zero() -> Scalar {
        Scalar { bits: 0 }
    }

    pub open spec fn one() -> Scalar {
        Scalar { bits: ONE_BITS }
    }

    pub open spec fn infinity() -> Scalar {
        Scalar { bits: INFINITY_BITS }
    }

    pub fn from_bits(bits: u32) -> (r: Scalar)
        ensures
            r.bits == bits,
    {
        Scalar { bits }
    }

    pub fn to_bits(self) -> (r: u32)
        ensures
            r == self.bits,
    {
        self.bits
    }

    pub fn is_sign_negative(self) -> (r: bool)
        ensures
            r == self.negative(),
    {
        self.bits >= SIGN_BIT
    }

    pub(crate) fn magnitude_bits(self) -> (r: u32)
        ensures
            r == self.magnitude(),
    {
        if self.bits >= SIGN_BIT {
            self.bits - SIGN_BIT
        } else {
            self.bits
        }
    }

    pub fn is_nan(self) -> (r: bool)
        ensures
            r == self.nan(),
    {
        self.magnitude_bits() > INFINITY_BITS
    }

    pub fn is_infinite(self) -> (r: bool)
        ensures
            r == self.infinite(),
    {
        self.magnitude_bits() == INFINITY_BITS
    }

    pub fn is_finite(self) -> (r: bool)
        ensures
            r == self.finite(),
    {
        self.magnitude_bits() < INFINITY_BITS
    }

    /// The number with its sign flipped; the magnitude is untouched.
    pub fn neg(self) -> (r: Scalar)
        ensures
            r == self.negated(),
            r.magnitude() == self.magnitude(),
            r.negative() != self.negative(),
            r.units() == -self.units(),
    {
        if self.bits >= SIGN_BIT {
            Scalar { bits: self.bits - SIGN_BIT }
        } else {
            Scalar { bits: self.bits + SIGN_BIT }
        }
    }

    /// The number with its sign cleared.
    pub fn abs(self) -> (r: Scalar)
        ensures
            r == self.absolute(),
            r.magnitude() == self.magnitude(),
            !r.negative(),
            r.units() == self.size(),
    {
        Scalar { bits: self.magnitude_bits() }
    }

    /// `self / 2.0`: half the number, to the last unit; where the half
    /// falls between two units, the even one of the two.
    pub fn half(self) -> (r: Scalar)
        ensures
            r == self.halved(),
            r.negative() == self.negative(),
            r.nan() == self.nan(),
            r.infinite() == self.infinite(),
            self.finite() && self.units() % 2 == 0 ==> 2 * r.units() == self.units(),
            self.finite() && self.units() % 2 != 0 ==> r.units() % 2 == 0 && (2 * r.units()
                == self.units() + 1 || 2 * r.units() == self.units() - 1),
    {
        proof {
            if self.finite() {
                lemma_half_rounds_to_even(self);
            }
        }
        let m: u32 = self.magnitude_bits();
        let sign: u32 = self.bits - m;
        let half: u32 = if m > INFINITY_BITS {
            if m % (2 * QUIET_BIT) >= QUIET_BIT {
                m
            } else {
                m + QUIET_BIT
            }
        } else if m == INFINITY_BITS {
            m
        } else if m >= 2 * HIDDEN_BIT {
            m - HIDDEN_BIT
        } else if m % 2 == 1 && (m / 2) % 2 == 1 {
            m / 2 + 1
        } else {
            m / 2
        };
        Scalar { bits: sign + half }
    }

    /// `self < other`: of finite numbers, whether the one is worth less
    /// than the other.
    pub fn lt(self, other: Scalar) -> (r: bool)
        ensures
            r == self.below(other),
            self.finite() && other.finite() ==> r == (self.units() < other.units()),
    {
        proof {
            if self.finite() && other.finite() {
                lemma_rank_orders_values(self, other);
            }
        }
        if self.is_nan() || other.is_nan() {
            return false;
        }
        let a: u32 = self.magnitude_bits();
        let b: u32 = other.magnitude_bits();
        if self.is_sign_negative() {
            if other.is_sign_negative() {
                b < a
            } else {
                a != 0 || b != 0
            }
        } else {
            !other.is_sign_negative() && a < b
        }
    }

    /// `self <= other`.
    pub fn le(self, other: Scalar) -> (r: bool)
        ensures
            r == self.at_most(other),
            self.finite() && other.finite() ==> r == (self.units() <= other.units()),
    {
        proof {
            if self.finite() && other.finite() {
                lemma_rank_orders_values(self, other);
            }
        }
        if self.is_nan() || other.is_nan() {
            return false;
        }
        !other.lt(self)
    }

    /// `self > other`.
    pub fn gt(self, other: Scalar) -> (r: bool)
        ensures
            r == other.below(self),
            self.finite() && other.finite() ==> r == (self.units() > other.units()),
    {
        other.lt(self)
    }

    /// `self >= other`.
    pub fn ge(self, other: Scalar) -> (r: bool)
        ensures
            r == other.at_most(self),
            self.finite() && other.finite() ==> r == (self.units() >= other.units()),
    {
        other.le(self)
    }

    pub fn min(self, other: Scalar) -> (r: Scalar)
        ensures
            r == self.lesser(other),
    {
        if other.lt(self) || self.is_nan() {
            other
        } else {
            self
        }
    }

    pub fn max(self, other: Scalar) -> (r: Scalar)
        ensures
            r == self.greater(other),
    {
        if self.lt(other) || self.is_nan() {
            other
        } else {
            self
        }
    }

    /// Numeric equality: `0.0` and `-0.0` are the same number, a NaN is not
    /// even the same as itself.
    pub fn same_number(self, other: Scalar) -> (r: bool)
        ensures
            r == self.equals(other),
            self.finite() && other.finite() ==> r == (self.units() == other.units()),
    {
        self.le(other) && other.le(self)
    }
}

} // verus!
