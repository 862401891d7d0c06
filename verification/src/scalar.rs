//! Double-precision quantities, carried by their binary64 encoding.
//!
//! An encoding is 64 bits: one sign bit, eleven exponent bits and fifty-two
//! fraction bits, from the most significant bit down. Every 64-bit pattern is
//! an encoding, so a `Scalar` has no invariant.
use vstd::prelude::*;
use vstd::arithmetic::power2::pow2;

verus! {

/// The encoding whose only set bit is the sign bit (negative zero).
pub const SIGN_BIT: u64 = 0x8000_0000_0000_0000;

/// The encoding of positive infinity: all exponent bits set, no fraction bit.
pub const INFINITY_BITS: u64 = 0x7FF0_0000_0000_0000;

/// The number of encodings that share one exponent: two to the power 52.
pub const FRACTION_SPAN: u64 = 0x0010_0000_0000_0000;

/// A double-precision quantity, held as its binary64 encoding.
#[derive(Clone, Copy, Debug, PartialEq, Eq, Structural)]
pub struct Scalar {
    pub bits: u64,
}

impl Scalar {
    /// The sign bit is set.
    pub open spec fn sign(self) -> bool {
        self.bits >= SIGN_BIT
    }

    /// The encoding with its sign bit cleared.
    pub open spec fn magnitude(self) -> nat {
        if self.bits >= SIGN_BIT {
            (self.bits - SIGN_BIT) as nat
        } else {
            self.bits as nat
        }
    }

    /// The eleven exponent bits, as a number below 2048.
    pub open spec fn exponent(self) -> nat {
        self.magnitude() / (FRACTION_SPAN as nat)
    }

    /// The fifty-two fraction bits, as a number.
    pub open spec fn fraction(self) -> nat {
        self.magnitude() % (FRACTION_SPAN as nat)
    }

    /// Not a number: the exponent is all ones and the fraction is not zero.
    pub open spec fn nan(self) -> bool {
        self.exponent() == 2047 && self.fraction() != 0
    }

    /// Neither infinite nor a NaN: the exponent is not all ones.
    pub open spec fn finite(self) -> bool {
        self.exponent() != 2047
    }

    /// Positive or negative zero.
    pub open spec fn vanishes(self) -> bool {
        self.exponent() == 0 && self.fraction() == 0
    }

    /// Greater than zero; positive infinity counts, a NaN does not.
    pub open spec fn positive(self) -> bool {
        !self.sign() && !self.nan() && !self.vanishes()
    }

    /// Less than zero; negative infinity counts, a NaN does not.
    pub open spec fn negative(self) -> bool {
        self.sign() && !self.nan() && !self.vanishes()
    }

    /// Equal as numbers: neither is a NaN, and the encodings agree or both
    /// are zeros of either sign.
    pub open spec fn same_number(self, other: Scalar) -> bool {
        &&& !self.nan()
        &&& !other.nan()
        &&& (self.bits == other.bits || (self.vanishes() && other.vanishes()))
    }

    /// The whole part of the number: zero for a NaN and for every number
    /// below one, and else the greatest whole number that is not above it.
    /// For positive infinity it is the value that the encoding would have
    /// as a finite number, which is above every machine integer.
    pub open spec fn whole(self) -> nat {
        let e = self.exponent();
        let m = FRACTION_SPAN as nat + self.fraction();
        if self.sign() || self.nan() || e < 1023 {
            0
        } else if e <= 1075 {
            m / pow2((1075 - e) as nat)
        } else {
            m * pow2((e - 1075) as nat)
        }
    }

    /// The whole part as a machine index: `whole`, or the greatest index
    /// where `whole` is above it.
    pub open spec fn index(self) -> usize {
        if self.whole() > usize::MAX {
            usize::MAX
        } else {
            self.whole() as usize
        }
    }

    /// The quantity with the given encoding.
    pub fn from_bits(bits: u64) -> (s: Scalar)
        ensures
            s.bits == bits,
    {
        Scalar { bits }
    }

    /// The encoding of the quantity.
    pub fn to_bits(&self) -> (bits: u64)
        ensures
            bits == self.bits,
    {
        self.bits
    }

    /// Positive zero.
    pub fn zero() -> (s: Scalar)
        ensures
            s.bits == 0,
            s.vanishes(),
            s.finite(),
    {
        Scalar { bits: 0 }
    }

    fn cleared(&self) -> (m: u64)
        ensures
            m == self.magnitude(),
            m < SIGN_BIT,
    {
        if self.bits >= SIGN_BIT {
            self.bits - SIGN_BIT
        } else {
            self.bits
        }
    }

    /// Whether the quantity is a NaN.
    pub fn is_nan(&self) -> (r: bool)
        ensures
            r == self.nan(),
    {
        self.cleared() > INFINITY_BITS
    }

    /// Whether the quantity is neither infinite nor a NaN.
    pub fn is_finite(&self) -> (r: bool)
        ensures
            r == self.finite(),
    {
        self.cleared() < INFINITY_BITS
    }

    /// Whether the quantity is a zero of either sign.
    pub fn is_zero(&self) -> (r: bool)
        ensures
            r == self.vanishes(),
    {
        self.cleared() == 0
    }

    /// Whether the quantity is greater than zero.
    pub fn is_positive(&self) -> (r: bool)
        ensures
            r == self.positive(),
    {
        0 < self.bits && self.bits <= INFINITY_BITS
    }

    /// Whether the quantity is less than zero.
    pub fn is_negative(&self) -> (r: bool)
        ensures
            r == self.negative(),
    {
        SIGN_BIT < self.bits && self.bits - SIGN_BIT <= INFINITY_BITS
    }

    /// The whole part of the number as an index: zero for a NaN and for
    /// every number below one, the greatest index for every number above it.
    pub fn to_index(&self) -> (n: usize)
        ensures
            n == self.index(),
    {
        if self.bits >= SIGN_BIT {
            return 0;
        }
        let e: u64 = self.bits / FRACTION_SPAN;
        let f: u64 = self.bits % FRACTION_SPAN;
        if e < 1023 || (e == 2047 && f != 0) {
            return 0;
        }
        let m: u64 = FRACTION_SPAN + f;
        if e <= 1075 {
            let k: u64 = 1075 - e;
            let q: u64 = m >> k;
            proof {
                vstd::bits::lemma_u64_shr_is_div(m, k);
            }
            if q > usize::MAX as u64 {
                usize::MAX
            } else {
                q as usize
            }
        } else if e <= 1086 {
            let k: u64 = e - 1075;
            proof {
                lemma_shifted_fits(m, k);
                vstd::bits::lemma_u64_shl_is_mul(m, k);
            }
            let q: u64 = m << k;
            if q > usize::MAX as u64 {
                usize::MAX
            } else {
                q as usize
            }
        } else {
            proof {
                lemma_shifted_large(m, (e - 1075) as nat);
            }
            usize::MAX
        }
    }

    /// Whether two quantities are equal as numbers.
    pub fn is_same_number(&self, other: &Scalar) -> (r: bool)
        ensures
            r == self.same_number(*other),
    {
        !self.is_nan() && !other.is_nan() && (self.bits == other.bits || (self.is_zero()
            && other.is_zero()))
    }
}

/// A significand, which is below two to the power 53, shifted left by at
/// most eleven places stays below two to the power 64.
proof fn lemma_shifted_fits(m: u64, k: u64)
    requires
        m < 0x20_0000_0000_0000,
        k <= 11,
    ensures
        m * pow2(k as nat) <= u64::MAX,
{
    vstd::arithmetic::power2::lemma2_to64();
    if k < 11 {
        vstd::arithmetic::power2::lemma_pow2_strictly_increases(k as nat, 11);
    }
    assert(m * pow2(k as nat) <= 0x1F_FFFF_FFFF_FFFF * 0x800) by (nonlinear_arith)
        requires
            m <= 0x1F_FFFF_FFFF_FFFF,
            pow2(k as nat) <= 0x800,
    ;
}

/// A significand, which is at least two to the power 52, shifted left by
/// twelve places or more is above every 64-bit number.
proof fn lemma_shifted_large(m: u64, k: nat)
    requires
        m >= 0x10_0000_0000_0000,
        k >= 12,
    ensures
        m * pow2(k) > u64::MAX,
{
    vstd::arithmetic::power2::lemma2_to64();
    if k > 12 {
        vstd::arithmetic::power2::lemma_pow2_strictly_increases(12, k);
    }
    assert(m * pow2(k) >= 0x10_0000_0000_0000 * 0x1000) by (nonlinear_arith)
        requires
            m >= 0x10_0000_0000_0000,
            pow2(k) >= 0x1000,
    ;
}

} // verus!
