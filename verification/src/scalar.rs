//! Floating-point numbers by their bits.
//!
//! A number is held as its IEEE 754 bit pattern. Its `key` is an integer that
//! orders numbers as their values are ordered: a smaller value has a smaller
//! key, equal values have equal keys (both zeros have key 0), and everything
//! outside the two infinities is a NaN.

use vstd::prelude::*;

verus! {

/// Key of positive infinity in single precision.
pub const F32_INFINITY: u32 = 0x7f80_0000;

/// Weight of the sign bit in single precision.
pub const F32_SIGN: u32 = 0x8000_0000;

/// Key of positive infinity in double precision.
pub const F64_INFINITY: u64 = 0x7ff0_0000_0000_0000;

/// Weight of the sign bit in double precision.
pub const F64_SIGN: u64 = 0x8000_0000_0000_0000;

/// The order key of a single-precision bit pattern: the magnitude bits, negated
/// when the sign bit is set.
pub open spec fn f32_key(bits: u32) -> int {
    if bits < F32_SIGN {
        bits as int
    } else {
        F32_SIGN - bits
    }
}

/// The order key of a double-precision bit pattern.
pub open spec fn f64_key(bits: u64) -> int {
    if bits < F64_SIGN {
        bits as int
    } else {
        F64_SIGN - bits
    }
}

/// Whether a single-precision key belongs to a finite number.
pub open spec fn finite_key(key: int) -> bool {
    -F32_INFINITY < key < F32_INFINITY
}

/// Whether a single-precision key belongs to no number at all.
pub open spec fn nan_key(key: int) -> bool {
    key < -F32_INFINITY || key > F32_INFINITY
}

/// A single-precision number.
#[derive(Debug, Clone, Copy, PartialEq, Eq, Structural)]
pub struct F32 {
    pub bits: u32,
}

/// A double-precision number.
#[derive(Debug, Clone, Copy, PartialEq, Eq, Structural)]
pub struct F64 {
    pub bits: u64,
}

impl F32 {
    /// The order key.
    pub open spec fn key(self) -> int {
        f32_key(self.bits)
    }

    /// Neither an infinity nor a NaN.
    pub open spec fn finite(self) -> bool {
        finite_key(self.key())
    }

    pub fn from_bits(bits: u32) -> (r: F32)
        ensures
            r.bits == bits,
    {
        F32 { bits }
    }

    /// The order key as a machine integer.
    pub fn order_key(self) -> (r: i64)
        ensures
            r == self.key(),
    {
        if self.bits < F32_SIGN {
            self.bits as i64
        } else {
            F32_SIGN as i64 - self.bits as i64
        }
    }

    pub fn is_finite(self) -> (r: bool)
        ensures
            r == self.finite(),
    {
        let key: i64 = self.order_key();
        -(F32_INFINITY as i64) < key && key < F32_INFINITY as i64
    }

    /// The number with its sign turned: the sign bit flips and nothing else.
    pub open spec fn negated(self) -> F32 {
        if self.bits < F32_SIGN {
            F32 { bits: (self.bits + F32_SIGN) as u32 }
        } else {
            F32 { bits: (self.bits - F32_SIGN) as u32 }
        }
    }

    /// Turns the sign.
    pub fn negate(self) -> (r: F32)
        ensures
            r == self.negated(),
            r.key() == -self.key(),
    {
        if self.bits < F32_SIGN {
            F32 { bits: self.bits + F32_SIGN }
        } else {
            F32 { bits: self.bits - F32_SIGN }
        }
    }
}

impl F64 {
    /// The order key.
    pub open spec fn key(self) -> int {
        f64_key(self.bits)
    }

    /// Neither an infinity nor a NaN.
    pub open spec fn finite(self) -> bool {
        -F64_INFINITY < self.key() < F64_INFINITY
    }

    pub fn from_bits(bits: u64) -> (r: F64)
        ensures
            r.bits == bits,
    {
        F64 { bits }
    }

    /// The order key as a machine integer.
    pub fn order_key(self) -> (r: i128)
        ensures
            r == self.key(),
    {
        if self.bits < F64_SIGN {
            self.bits as i128
        } else {
            F64_SIGN as i128 - self.bits as i128
        }
    }

    pub fn is_finite(self) -> (r: bool)
        ensures
            r == self.finite(),
    {
        let key: i128 = self.order_key();
        -(F64_INFINITY as i128) < key && key < F64_INFINITY as i128
    }
}

/// Turning a sign twice gives the number back, and a bound and its negation
/// are as far from zero on either side.
pub proof fn negation_is_an_involution(x: F32)
    ensures
        x.negated().negated() == x,
        x.negated().key() == -x.key(),
        x.negated().finite() == x.finite(),
{
}

} // verus!
