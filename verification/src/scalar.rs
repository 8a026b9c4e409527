//! Numbers as the grammar engine delivers them.

use vstd::prelude::*;
use vstd::arithmetic::power2::*;
use vstd::bits::*;

verus! {

/// The number of explicitly stored significand bits of a binary64 number.
pub const SIGNIFICAND_BITS: u64 = 52;

/// The value of the implicit leading significand bit, `2^52`.
pub const HIDDEN_BIT: u64 = 0x10_0000_0000_0000;

/// The biased exponent at which the unit of the significand is one:
/// a normal number with biased exponent `e` has the value
/// `significand * 2^(e - 1075)`.
pub const UNIT_EXPONENT: u64 = 1075;

/// The bit pattern of the number one.
pub const ONE_BITS: u64 = 0x3FF0_0000_0000_0000;

/// A number of a document, held as the bit pattern of an IEEE 754 binary64
/// value. The library never computes with the value; it stores it, and reads
/// whole numbers out of it where a structure asks for an index.
#[derive(Clone, Copy, PartialEq, Eq, Structural, Debug, Hash)]
pub struct Scalar {
    pub bits: u64,
}

impl View for Scalar {
    type V = Scalar;

    open spec fn view(&self) -> Scalar {
        *self
    }
}

impl Scalar {
    /// The biased exponent together with the sign bit above it.
    pub open spec fn exponent(self) -> nat {
        (self.bits / HIDDEN_BIT) as nat
    }

    /// The significand of a normal number, the hidden bit included.
    pub open spec fn significand(self) -> nat {
        (HIDDEN_BIT + self.bits % HIDDEN_BIT) as nat
    }

    /// The value of one unit of the significand, as a divisor:
    /// the number's value is `significand / unit`.
    pub open spec fn unit(self) -> nat {
        pow2((UNIT_EXPONENT - self.exponent()) as nat)
    }

    /// The whole number below `2^32` that this scalar holds, if it holds one.
    ///
    /// Positive zero is `0`. A positive normal number whose value is at least
    /// one and below `2^32` (biased exponent `1023..=1054`) is whole exactly
    /// when its significand is a multiple of its unit. Everything else
    /// (negative numbers, fractions, larger numbers, infinities, NaN) is not
    /// an index.
    pub open spec fn index(self) -> Option<u32> {
        if self.bits == 0 {
            Some(0u32)
        } else if 1023 <= self.exponent() <= 1054 && self.significand() % self.unit() == 0 {
            Some((self.significand() / self.unit()) as u32)
        } else {
            None
        }
    }

    /// The number one.
    pub open spec fn one() -> Scalar {
        Scalar { bits: ONE_BITS }
    }

    /// The number with this bit pattern.
    pub fn from_bits(bits: u64) -> (s: Scalar)
        ensures
            s.bits == bits,
    {
        Scalar { bits }
    }

    /// The bit pattern of the number.
    pub fn to_bits(&self) -> (bits: u64)
        ensures
            bits == self.bits,
    {
        self.bits
    }

    /// Reads the scalar as an index.
    pub fn as_index(&self) -> (r: Option<u32>)
        ensures
            r == self.index(),
    {
        if self.bits == 0 {
            return Some(0);
        }
        let e: u64 = self.bits / HIDDEN_BIT;
        if e < 1023 || e > 1054 {
            return None;
        }
        let sig: u64 = HIDDEN_BIT + self.bits % HIDDEN_BIT;
        let shift: u64 = UNIT_EXPONENT - e;
        proof {
            lemma_pow2_strictly_increases(shift as nat, 53);
            lemma_pow2_strictly_increases(20, shift as nat);
            lemma2_to64_rest();
            lemma2_to64();
            lemma_u64_shl_is_mul(1, shift);
        }
        let unit: u64 = 1u64 << shift;
        assert(unit == self.unit());
        if sig % unit != 0 {
            return None;
        }
        let n: u64 = sig / unit;
        assert(n < 0x1_0000_0000) by (nonlinear_arith)
            requires
                n == sig / unit,
                sig < 0x20_0000_0000_0000,
                unit >= 0x20_0000,
        ;
        Some(n as u32)
    }
}

/// A scalar that holds an index has the value of that index: its significand
/// is the index times its unit.
pub proof fn lemma_index_value(s: Scalar)
    requires
        s.index().is_some(),
        s.bits != 0,
    ensures
        s.significand() == s.index().unwrap() * s.unit(),
        s.index().unwrap() >= 1,
{
    let e = s.exponent();
    let shift = (UNIT_EXPONENT - e) as nat;
    lemma_pow2_strictly_increases(shift, 53);
    lemma_pow2_strictly_increases(20, shift);
    lemma2_to64_rest();
    lemma2_to64();
    let sig = s.significand();
    let unit = s.unit();
    assert(sig / unit < 0x1_0000_0000 && sig == (sig / unit) * unit && sig / unit >= 1)
        by (nonlinear_arith)
        requires
            sig % unit == 0,
            0x10_0000_0000_0000 <= sig < 0x20_0000_0000_0000,
            0x20_0000 <= unit <= 0x10_0000_0000_0000,
    ;
}

} // verus!
