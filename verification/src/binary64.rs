//! Double-precision numbers held by their IEEE 754 bit pattern.
//!
//! Parameter values and scores cross the library as 64-bit patterns. Everything
//! the tuner decides about them (which of two scores is smaller, what the
//! negative of a score is, which level a categorical value names) is decided
//! here with integer arithmetic on the pattern, against a model of what the
//! pattern means.

use vstd::arithmetic::power2::{lemma2_to64, lemma_pow2_strictly_increases, pow2};
use vstd::bits::{lemma_u64_shl_is_mul, lemma_u64_shr_is_div};
use vstd::prelude::*;

verus! {

/// The sign bit of a pattern.
pub const SIGN_BIT: u64 = 0x8000_0000_0000_0000;

/// The pattern of positive infinity: all exponent bits set, no fraction bit.
pub const INFINITY_BITS: u64 = 0x7FF0_0000_0000_0000;

/// Two to the 52nd power: the weight of the implicit leading bit.
pub const HIDDEN_BIT: u64 = 0x0010_0000_0000_0000;

/// The biased exponent of one.
pub const EXPONENT_OF_ONE: u64 = 1023;

/// The biased exponent at which the significand is the value itself.
pub const EXPONENT_OF_UNIT: u64 = 1075;

/// A double-precision number, NaN and the infinities included.
#[derive(Clone, Copy, Debug, PartialEq, Eq, Structural)]
pub struct Binary64 {
    /// The IEEE 754 binary64 bit pattern.
    pub bits: u64,
}

impl Binary64 {
    /// Whether the sign bit is set (true of `-0.0` and of some NaNs too).
    pub open spec fn negative(self) -> bool {
        self.bits >= SIGN_BIT
    }

    /// The pattern without its sign bit.
    pub open spec fn magnitude(self) -> nat {
        if self.negative() {
            (self.bits - SIGN_BIT) as nat
        } else {
            self.bits as nat
        }
    }

    /// Whether the pattern is a NaN.
    pub open spec fn is_nan(self) -> bool {
        self.magnitude() > INFINITY_BITS
    }

    /// An integer that orders the numbers as their values do: for two patterns
    /// that are not NaN, the first is less than the second exactly if its rank
    /// is smaller, and they compare equal exactly if their ranks are equal
    /// (both zeros have rank 0).
    pub open spec fn rank(self) -> int {
        if self.negative() {
            -(self.magnitude() as int)
        } else {
            self.magnitude() as int
        }
    }

    /// The numeric `<`: false as soon as one side is a NaN.
    pub open spec fn less(self, other: Binary64) -> bool {
        !self.is_nan() && !other.is_nan() && self.rank() < other.rank()
    }

    /// The numeric `<=`: false as soon as one side is a NaN.
    pub open spec fn at_most(self, other: Binary64) -> bool {
        !self.is_nan() && !other.is_nan() && self.rank() <= other.rank()
    }

    /// The number with its sign flipped.
    pub open spec fn negated(self) -> Binary64 {
        if self.negative() {
            Binary64 { bits: (self.bits - SIGN_BIT) as u64 }
        } else {
            Binary64 { bits: (self.bits + SIGN_BIT) as u64 }
        }
    }

    /// The smaller of two numbers, where a NaN loses against anything else and
    /// the left side wins a tie.
    pub open spec fn lesser(self, other: Binary64) -> Binary64 {
        if self.is_nan() {
            other
        } else if other.is_nan() {
            self
        } else if other.rank() < self.rank() {
            other
        } else {
            self
        }
    }

    /// The biased exponent field.
    pub open spec fn exponent(self) -> nat {
        self.magnitude() / (HIDDEN_BIT as nat)
    }

    /// The significand of a normal number: the fraction field under the
    /// implicit leading bit.
    pub open spec fn significand(self) -> nat {
        (HIDDEN_BIT as nat) + self.magnitude() % (HIDDEN_BIT as nat)
    }

    /// The integer part of the absolute value. Below one (subnormals included)
    /// that is zero; from there on the significand scaled by the power of two
    /// that the exponent names.
    pub open spec fn whole(self) -> nat {
        let e: nat = self.exponent();
        if e < EXPONENT_OF_ONE {
            0
        } else if e <= EXPONENT_OF_UNIT {
            self.significand() / pow2((EXPONENT_OF_UNIT - e) as nat)
        } else {
            self.significand() * pow2((e - EXPONENT_OF_UNIT) as nat)
        }
    }

    /// The level that a number names: its integer part, with everything that
    /// has no level mapped to the nearest end. NaN and every number with the
    /// sign bit set give 0; what lies above `usize::MAX` gives `usize::MAX`.
    pub open spec fn level(self) -> usize {
        if self.is_nan() || self.negative() {
            0
        } else if self.whole() > usize::MAX {
            usize::MAX
        } else {
            self.whole() as usize
        }
    }

    /// Positive zero.
    pub fn zero() -> (r: Binary64)
        ensures
            r.bits == 0,
    {
        Binary64 { bits: 0 }
    }

    /// Positive infinity.
    pub fn infinity() -> (r: Binary64)
        ensures
            r.bits == INFINITY_BITS,
    {
        Binary64 { bits: INFINITY_BITS }
    }

    /// The pattern without its sign bit.
    pub fn abs_bits(self) -> (r: u64)
        ensures
            r == self.magnitude(),
    {
        if self.bits >= SIGN_BIT {
            self.bits - SIGN_BIT
        } else {
            self.bits
        }
    }

    /// Whether the number is a NaN.
    pub fn nan(self) -> (r: bool)
        ensures
            r == self.is_nan(),
    {
        self.abs_bits() > INFINITY_BITS
    }

    /// Whether the ranks are in strict order, for two numbers that are not NaN.
    fn rank_below(self, other: Binary64) -> (r: bool)
        ensures
            r == (self.rank() < other.rank()),
    {
        let a: u64 = self.abs_bits();
        let b: u64 = other.abs_bits();
        if self.bits >= SIGN_BIT {
            if other.bits >= SIGN_BIT {
                b < a
            } else {
                a > 0 || b > 0
            }
        } else {
            if other.bits >= SIGN_BIT {
                false
            } else {
                a < b
            }
        }
    }

    /// The numeric `<`.
    pub fn lt(self, other: Binary64) -> (r: bool)
        ensures
            r == self.less(other),
    {
        !self.nan() && !other.nan() && self.rank_below(other)
    }

    /// The numeric `<=`.
    pub fn le(self, other: Binary64) -> (r: bool)
        ensures
            r == self.at_most(other),
    {
        !self.nan() && !other.nan() && !other.rank_below(self)
    }

    /// The number with its sign flipped.
    pub fn neg(self) -> (r: Binary64)
        ensures
            r == self.negated(),
    {
        if self.bits >= SIGN_BIT {
            Binary64 { bits: self.bits - SIGN_BIT }
        } else {
            Binary64 { bits: self.bits + SIGN_BIT }
        }
    }

    /// The smaller of two numbers; a NaN loses against anything else.
    pub fn min(self, other: Binary64) -> (r: Binary64)
        ensures
            r == self.lesser(other),
    {
        if self.nan() {
            other
        } else if other.nan() {
            self
        } else if other.rank_below(self) {
            other
        } else {
            self
        }
    }

    /// The level that the number names: its integer part, held into `usize`.
    pub fn to_level(self) -> (r: usize)
        ensures
            r == self.level(),
    {
        if self.bits >= SIGN_BIT || self.bits > INFINITY_BITS {
            return 0;
        }
        let e: u64 = self.bits / HIDDEN_BIT;
        let m: u64 = HIDDEN_BIT + self.bits % HIDDEN_BIT;
        if e < EXPONENT_OF_ONE {
            return 0;
        }
        let w: u64 = if e <= EXPONENT_OF_UNIT {
            let shift: u64 = EXPONENT_OF_UNIT - e;
            proof {
                lemma_u64_shr_is_div(m, shift);
            }
            m >> shift
        } else if e - EXPONENT_OF_UNIT <= 11 {
            let shift: u64 = e - EXPONENT_OF_UNIT;
            proof {
                lemma2_to64();
                if shift < 11 {
                    lemma_pow2_strictly_increases(shift as nat, 11);
                }
                assert(m * pow2(shift as nat) <= u64::MAX) by (nonlinear_arith)
                    requires
                        m < 0x0020_0000_0000_0000,
                        pow2(shift as nat) <= 0x800,
                ;
                lemma_u64_shl_is_mul(m, shift);
            }
            m << shift
        } else {
            proof {
                let shift: nat = (e - EXPONENT_OF_UNIT) as nat;
                lemma2_to64();
                if shift > 12 {
                    lemma_pow2_strictly_increases(12, shift);
                }
                assert(m * pow2(shift) > u64::MAX) by (nonlinear_arith)
                    requires
                        m >= 0x0010_0000_0000_0000,
                        pow2(shift) >= 0x1000,
                ;
            }
            return usize::MAX;
        };
        if w > usize::MAX as u64 {
            usize::MAX
        } else {
            w as usize
        }
    }
}

} // verus!
