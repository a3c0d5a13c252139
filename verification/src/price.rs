//! Prices.
//!
//! A price is a binary64 number that is not a NaN, held by its bit pattern.
//! The library never computes with prices; it only compares them, and for
//! numbers that are not NaN the numeric order is the order of sign and
//! magnitude of the bit patterns. `Price::rank` is that order as an integer.

use vstd::prelude::*;

verus! {

/// The sign bit of a binary64 bit pattern.
pub const SIGN_BIT: u64 = 0x8000_0000_0000_0000;

/// The bit pattern of positive infinity: the largest magnitude that is a number.
pub const INFINITY_BITS: u64 = 0x7FF0_0000_0000_0000;

/// The bit pattern without its sign bit.
pub open spec fn magnitude(bits: u64) -> int {
    if bits >= SIGN_BIT {
        bits - SIGN_BIT
    } else {
        bits as int
    }
}

/// Whether a bit pattern stands for a number (anything but a NaN).
pub open spec fn is_number(bits: u64) -> bool {
    magnitude(bits) <= INFINITY_BITS
}

/// A price: the bit pattern of a binary64 number that is not a NaN.
#[derive(Clone, Copy, Debug)]
pub struct Price {
    bits: u64,
}

impl Price {
    #[verifier::type_invariant]
    spec fn well_formed(self) -> bool {
        is_number(self.bits)
    }

    /// The bit pattern of this price.
    pub closed spec fn bits(self) -> u64 {
        self.bits
    }

    /// The price 0.0.
    pub closed spec fn nil() -> Price {
        Price { bits: 0 }
    }

    /// An integer that orders prices as their numbers are ordered: the
    /// magnitude of the bit pattern, negated where the sign bit is set.
    /// Positive and negative zero share rank 0.
    pub open spec fn rank(self) -> int {
        if self.bits() >= SIGN_BIT {
            -magnitude(self.bits())
        } else {
            magnitude(self.bits())
        }
    }

    /// The lower of two prices; `self` where neither is lower.
    pub open spec fn lower(self, other: Price) -> Price {
        if other.rank() < self.rank() {
            other
        } else {
            self
        }
    }

    /// The price with the given bit pattern, or `None` for a NaN.
    pub fn from_bits(bits: u64) -> (r: Option<Price>)
        ensures
            r is Some <==> is_number(bits),
            r matches Some(p) ==> p.bits() == bits,
    {
        let mag: u64 = if bits >= SIGN_BIT {
            bits - SIGN_BIT
        } else {
            bits
        };
        if mag <= INFINITY_BITS {
            Some(Price { bits })
        } else {
            None
        }
    }

    /// The bit pattern of this price.
    pub fn to_bits(self) -> (r: u64)
        ensures
            r == self.bits(),
            is_number(r),
    {
        proof {
            use_type_invariant(&self);
        }
        self.bits
    }

    /// The price 0.0.
    pub fn zero() -> (r: Price)
        ensures
            r == Price::nil(),
            r.bits() == 0,
            r.rank() == 0,
    {
        Price { bits: 0 }
    }

    /// Whether this price is strictly lower than `other`.
    pub fn is_below(self, other: Price) -> (r: bool)
        ensures
            r == (self.rank() < other.rank()),
    {
        let a: u64 = self.bits;
        let b: u64 = other.bits;
        if a >= SIGN_BIT {
            if b >= SIGN_BIT {
                // both negative: the larger magnitude is the lower number
                a > b
            } else {
                // negative against non-negative: lower unless both are zero
                a > SIGN_BIT || b > 0
            }
        } else {
            if b >= SIGN_BIT {
                false
            } else {
                a < b
            }
        }
    }

    /// The lower of two prices; `self` where neither is lower.
    pub fn min(self, other: Price) -> (r: Price)
        ensures
            r == self.lower(other),
    {
        if other.is_below(self) {
            other
        } else {
            self
        }
    }

    /// Whether two prices are the same bit pattern.
    pub fn same_bits(self, other: Price) -> (r: bool)
        ensures
            r == (self == other),
    {
        self.bits == other.bits
    }
}

/// The price 0.0 has the bit pattern 0 and the rank 0.
pub proof fn law_nil_is_zero()
    ensures
        Price::nil().bits() == 0,
        Price::nil().rank() == 0,
{
}

/// The lower of two prices is one of the two, and neither is below it.
pub proof fn law_lower_is_the_minimum(a: Price, b: Price)
    ensures
        a.lower(b).rank() <= a.rank(),
        a.lower(b).rank() <= b.rank(),
        a.lower(b) == a || a.lower(b) == b,
{
}

} // verus!
