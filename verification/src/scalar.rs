//! IEEE-754 binary32 values carried by their bit patterns.
//!
//! A [`Scalar`] is the 32-bit encoding of a single-precision number: one sign
//! bit, eight exponent bits and twenty-three fraction bits. The order of two
//! values, clamping, the absolute value and the saturating conversion to a
//! byte are all functions of the bit pattern alone and are decided here.

use vstd::prelude::*;
use vstd::arithmetic::power2::pow2;
use vstd::arithmetic::power2::lemma2_to64;
use vstd::arithmetic::power2::lemma_pow2_strictly_increases;
use vstd::arithmetic::power2::lemma_pow2_adds;

verus! {

/// The sign bit of a binary32 pattern.
pub const SIGN_BIT: u32 = 0x8000_0000;

/// The magnitude bits of infinity; every larger magnitude is a NaN.
pub const INFINITY_BITS: u32 = 0x7f80_0000;

/// The weight of the lowest exponent bit: two to the twenty-third.
pub const FRACTION_RANGE: u32 = 0x0080_0000;

/// Bit pattern of `0.0`.
pub const ZERO: u32 = 0x0000_0000;

/// Bit pattern of `1.0`.
pub const ONE: u32 = 0x3f80_0000;

/// A single-precision number, held as its bit pattern.
#[derive(Clone, Copy, Debug)]
pub struct Scalar {
    pub bits: u32,
}

impl Scalar {
    /// The pattern without its sign bit.
    pub open spec fn magnitude(self) -> u32 {
        if self.bits >= SIGN_BIT {
            (self.bits - SIGN_BIT) as u32
        } else {
            self.bits
        }
    }

    /// Whether the sign bit is set (true of `-0.0` too).
    pub open spec fn is_negative(self) -> bool {
        self.bits >= SIGN_BIT
    }

    /// Whether the pattern encodes zero, of either sign.
    pub open spec fn is_zero(self) -> bool {
        self.magnitude() == 0
    }

    /// Whether the pattern encodes a NaN.
    pub open spec fn spec_is_nan(self) -> bool {
        self.magnitude() > INFINITY_BITS
    }

    /// An integer that orders non-NaN values as the numbers they encode:
    /// the magnitude, negated when the sign bit is set. Both zeros have key 0.
    pub open spec fn key(self) -> int {
        if self.is_negative() {
            -(self.magnitude() as int)
        } else {
            self.magnitude() as int
        }
    }

    /// `self < other` as IEEE-754 defines it: false when either is a NaN.
    pub open spec fn spec_lt(self, other: Scalar) -> bool {
        !self.spec_is_nan() && !other.spec_is_nan() && self.key() < other.key()
    }

    /// `self <= other` as IEEE-754 defines it: false when either is a NaN.
    pub open spec fn spec_le(self, other: Scalar) -> bool {
        !self.spec_is_nan() && !other.spec_is_nan() && self.key() <= other.key()
    }

    /// `self > other` as IEEE-754 defines it.
    pub open spec fn spec_gt(self, other: Scalar) -> bool {
        other.spec_lt(self)
    }

    /// `self >= other` as IEEE-754 defines it.
    pub open spec fn spec_ge(self, other: Scalar) -> bool {
        other.spec_le(self)
    }

    /// The value limited to `[lo, hi]`: `lo` when below it, `hi` when above
    /// it, otherwise the value itself. A NaN stays a NaN.
    pub open spec fn spec_clamp(self, lo: Scalar, hi: Scalar) -> Scalar {
        if self.spec_lt(lo) {
            lo
        } else if self.spec_gt(hi) {
            hi
        } else {
            self
        }
    }

    /// The value with its sign bit cleared.
    pub open spec fn spec_abs(self) -> Scalar {
        Scalar { bits: self.magnitude() }
    }

    /// The value with its sign bit flipped.
    pub open spec fn spec_negated(self) -> Scalar {
        Scalar {
            bits: if self.bits >= SIGN_BIT {
                (self.bits - SIGN_BIT) as u32
            } else {
                (self.bits + SIGN_BIT) as u32
            },
        }
    }

    /// The smaller of the value and `other`, passing over a NaN: `other`
    /// when the value is a NaN or above `other`, otherwise the value.
    pub open spec fn spec_min(self, other: Scalar) -> Scalar {
        if self.spec_is_nan() || other.spec_lt(self) {
            other
        } else {
            self
        }
    }

    /// Whether a non-NaN value lies in `[lo, hi]`.
    pub open spec fn within(self, lo: Scalar, hi: Scalar) -> bool {
        lo.spec_le(self) && self.spec_le(hi)
    }

    /// The biased exponent field of the pattern.
    pub open spec fn exponent(self) -> int {
        self.magnitude() as int / (FRACTION_RANGE as int)
    }

    /// The fraction field of the pattern.
    pub open spec fn fraction(self) -> int {
        self.magnitude() as int % (FRACTION_RANGE as int)
    }

    /// The integer part of the absolute value of a finite pattern. A normal
    /// number is `(2^23 + fraction) * 2^(exponent - 150)`; a subnormal one is
    /// below one.
    pub open spec fn whole_part(self) -> int {
        let significand = FRACTION_RANGE as int + self.fraction();
        if self.exponent() == 0 {
            0
        } else if self.exponent() < 150 {
            significand / (pow2((150 - self.exponent()) as nat) as int)
        } else {
            significand * (pow2((self.exponent() - 150) as nat) as int)
        }
    }

    /// The value converted to a byte as Rust's `as u8` converts it: a NaN
    /// and every negative value give 0, a value of 255 or more gives 255,
    /// any other value loses its fractional part.
    pub open spec fn spec_to_u8(self) -> u8 {
        if self.spec_is_nan() || self.is_negative() {
            0
        } else if self.magnitude() >= INFINITY_BITS || self.whole_part() >= 255 {
            255
        } else {
            self.whole_part() as u8
        }
    }

    /// The scalar with the given bit pattern.
    pub open spec fn spec_from_bits(bits: u32) -> Scalar {
        Scalar { bits }
    }

    /// The scalar with the given bit pattern.
    #[verifier::when_used_as_spec(spec_from_bits)]
    pub fn from_bits(bits: u32) -> (s: Scalar)
        ensures
            s == Scalar::spec_from_bits(bits),
    {
        Scalar { bits }
    }

    /// The bit pattern.
    pub fn to_bits(self) -> (bits: u32)
        ensures
            bits == self.bits,
    {
        self.bits
    }

    fn magnitude_bits(self) -> (m: u32)
        ensures
            m == self.magnitude(),
    {
        if self.bits >= SIGN_BIT {
            self.bits - SIGN_BIT
        } else {
            self.bits
        }
    }

    /// Whether the value is a NaN.
    #[verifier::when_used_as_spec(spec_is_nan)]
    pub fn is_nan(self) -> (r: bool)
        ensures
            r == self.spec_is_nan(),
    {
        self.magnitude_bits() > INFINITY_BITS
    }

    /// Whether the values are both not NaN and `self`'s key is below or,
    /// when `or_equal`, at `other`'s.
    fn ordered(self, other: Scalar, or_equal: bool) -> (r: bool)
        ensures
            r == if or_equal {
                self.spec_le(other)
            } else {
                self.spec_lt(other)
            },
    {
        if self.is_nan() || other.is_nan() {
            return false;
        }
        let a: u32 = self.magnitude_bits();
        let b: u32 = other.magnitude_bits();
        let a_negative: bool = self.bits >= SIGN_BIT;
        let b_negative: bool = other.bits >= SIGN_BIT;
        if a_negative && b_negative {
            if or_equal { b <= a } else { b < a }
        } else if a_negative {
            if or_equal { true } else { a != 0 || b != 0 }
        } else if b_negative {
            if or_equal { a == 0 && b == 0 } else { false }
        } else {
            if or_equal { a <= b } else { a < b }
        }
    }

    /// `self < other`.
    #[verifier::when_used_as_spec(spec_lt)]
    pub fn lt(self, other: Scalar) -> (r: bool)
        ensures
            r == self.spec_lt(other),
    {
        self.ordered(other, false)
    }

    /// `self <= other`.
    #[verifier::when_used_as_spec(spec_le)]
    pub fn le(self, other: Scalar) -> (r: bool)
        ensures
            r == self.spec_le(other),
    {
        self.ordered(other, true)
    }

    /// `self > other`.
    #[verifier::when_used_as_spec(spec_gt)]
    pub fn gt(self, other: Scalar) -> (r: bool)
        ensures
            r == self.spec_gt(other),
    {
        other.ordered(self, false)
    }

    /// `self >= other`.
    #[verifier::when_used_as_spec(spec_ge)]
    pub fn ge(self, other: Scalar) -> (r: bool)
        ensures
            r == self.spec_ge(other),
    {
        other.ordered(self, true)
    }

    /// The value limited to `[lo, hi]`.
    #[verifier::when_used_as_spec(spec_clamp)]
    pub fn clamp(self, lo: Scalar, hi: Scalar) -> (r: Scalar)
        requires
            lo.spec_le(hi),
        ensures
            r == self.spec_clamp(lo, hi),
            self.spec_is_nan() ==> r == self,
            !self.spec_is_nan() ==> r.within(lo, hi),
    {
        if self.lt(lo) {
            lo
        } else if self.gt(hi) {
            hi
        } else {
            self
        }
    }

    /// The absolute value.
    #[verifier::when_used_as_spec(spec_abs)]
    pub fn abs(self) -> (r: Scalar)
        ensures
            r == self.spec_abs(),
            !r.is_negative(),
            r.spec_is_nan() == self.spec_is_nan(),
    {
        Scalar { bits: self.magnitude_bits() }
    }

    /// The value with its sign changed.
    #[verifier::when_used_as_spec(spec_negated)]
    pub fn negated(self) -> (r: Scalar)
        ensures
            r == self.spec_negated(),
            r.spec_is_nan() == self.spec_is_nan(),
            r.key() == -self.key(),
    {
        if self.bits >= SIGN_BIT {
            Scalar { bits: self.bits - SIGN_BIT }
        } else {
            Scalar { bits: self.bits + SIGN_BIT }
        }
    }

    /// The smaller of the value and `other`, passing over a NaN.
    #[verifier::when_used_as_spec(spec_min)]
    pub fn min(self, other: Scalar) -> (r: Scalar)
        ensures
            r == self.spec_min(other),
    {
        if self.is_nan() || other.lt(self) {
            other
        } else {
            self
        }
    }

    /// The value converted to a byte, saturating at 0 and 255.
    #[verifier::when_used_as_spec(spec_to_u8)]
    pub fn to_u8(self) -> (r: u8)
        ensures
            r == self.spec_to_u8(),
    {
        if self.is_nan() || self.bits >= SIGN_BIT {
            return 0;
        }
        let exponent: u32 = self.bits / FRACTION_RANGE;
        let significand: u32 = FRACTION_RANGE + self.bits % FRACTION_RANGE;
        proof {
            lemma2_to64();
            lemma_whole_part_bounds(self);
        }
        if exponent < 127 {
            0
        } else if exponent >= 135 {
            255
        } else {
            let divisor: u32 = if exponent == 127 {
                0x80_0000
            } else if exponent == 128 {
                0x40_0000
            } else if exponent == 129 {
                0x20_0000
            } else if exponent == 130 {
                0x10_0000
            } else if exponent == 131 {
                0x08_0000
            } else if exponent == 132 {
                0x04_0000
            } else if exponent == 133 {
                0x02_0000
            } else {
                0x01_0000
            };
            let whole: u32 = significand / divisor;
            assert(divisor == pow2((150 - exponent) as nat));
            assert(whole == self.whole_part());
            assert(whole <= 255) by {
                assert(significand < 0x100_0000);
            }
            whole as u8
        }
    }
}

/// The integer part of a non-negative finite value is zero below the
/// exponent of one and at least 256 from the exponent of 256 on.
proof fn lemma_whole_part_bounds(s: Scalar)
    requires
        !s.spec_is_nan(),
        !s.is_negative(),
    ensures
        s.exponent() < 127 ==> s.whole_part() == 0,
        135 <= s.exponent() ==> s.whole_part() >= 256,
        127 <= s.exponent() < 135 ==> 1 <= s.whole_part() <= 255,
{
    let e = s.exponent();
    let significand = FRACTION_RANGE as int + s.fraction();
    lemma2_to64();
    assert(0x80_0000 <= significand < 0x100_0000);
    if 0 < e < 127 {
        let shift = (150 - e) as nat;
        lemma_pow2_strictly_increases(23, shift);
        assert(pow2(24) <= pow2(shift)) by {
            if shift > 24 {
                lemma_pow2_strictly_increases(24, shift);
            }
        }
        assert(significand / (pow2(shift) as int) == 0) by (nonlinear_arith)
            requires
                0 <= significand < 0x100_0000,
                0x100_0000 <= pow2(shift),
        ;
    } else if 127 <= e < 135 {
        let shift = (150 - e) as nat;
        assert(pow2(16) <= pow2(shift) <= pow2(23)) by {
            if shift > 16 {
                lemma_pow2_strictly_increases(16, shift);
            }
            if shift < 23 {
                lemma_pow2_strictly_increases(shift, 23);
            }
        }
        assert(1 <= significand / (pow2(shift) as int) <= 255) by (nonlinear_arith)
            requires
                0x80_0000 <= significand < 0x100_0000,
                0x1_0000 <= pow2(shift) <= 0x80_0000,
        ;
    } else if 135 <= e < 150 {
        let shift = (150 - e) as nat;
        assert(pow2(shift) <= pow2(15)) by {
            if shift < 15 {
                lemma_pow2_strictly_increases(shift, 15);
            }
        }
        assert(0 < pow2(shift)) by {
            vstd::arithmetic::power2::lemma_pow2_pos(shift);
        }
        assert(significand / (pow2(shift) as int) >= 256) by (nonlinear_arith)
            requires
                0x80_0000 <= significand,
                0 < pow2(shift) <= 0x8000,
        ;
    } else if 150 <= e {
        let shift = (e - 150) as nat;
        assert(0 < pow2(shift)) by {
            vstd::arithmetic::power2::lemma_pow2_pos(shift);
        }
        assert(significand * (pow2(shift) as int) >= 256) by (nonlinear_arith)
            requires
                0x80_0000 <= significand,
                0 < pow2(shift),
        ;
    }
}

/// Conversion to a byte never reverses the order of two values: if
/// `a <= b` then the byte of `a` is at most the byte of `b`.
pub proof fn lemma_to_u8_monotone(a: Scalar, b: Scalar)
    requires
        a.spec_le(b),
    ensures
        a.spec_to_u8() <= b.spec_to_u8(),
{
    if a.is_negative() || b.is_negative() {
        // Either `a` converts to 0, or `b` is `-0.0` and `a` is `0.0`.
    } else if b.magnitude() >= INFINITY_BITS {
    } else {
        lemma2_to64();
        lemma_whole_part_bounds(a);
        lemma_whole_part_bounds(b);
        assert(a.exponent() <= b.exponent());
        if 127 <= a.exponent() && b.exponent() < 135 {
            let shift_a = (150 - a.exponent()) as nat;
            let shift_b = (150 - b.exponent()) as nat;
            let sig_a = FRACTION_RANGE as int + a.fraction();
            let sig_b = FRACTION_RANGE as int + b.fraction();
            if a.exponent() == b.exponent() {
                assert(sig_a <= sig_b);
                assert(sig_a / (pow2(shift_a) as int) <= sig_b / (pow2(shift_a) as int))
                    by (nonlinear_arith)
                    requires
                        0 <= sig_a <= sig_b,
                        0 < pow2(shift_a),
                ;
            } else {
                // 2^shift_a >= 2 * 2^shift_b, so whole(a) < 2^24 / 2^shift_a
                // <= 2^23 / 2^shift_b <= whole(b).
                lemma_pow2_adds((shift_a - shift_b) as nat, shift_b);
                assert(pow2((shift_a - shift_b) as nat) >= 2) by {
                    lemma_pow2_strictly_increases(0, (shift_a - shift_b) as nat);
                }
                lemma_pow2_adds((23 - shift_b) as nat, shift_b);
                let pa = pow2(shift_a) as int;
                let pb = pow2(shift_b) as int;
                let k = pow2((23 - shift_b) as nat) as int;
                assert(pa >= 2 * pb) by (nonlinear_arith)
                    requires
                        pa == pow2((shift_a - shift_b) as nat) * pb,
                        pow2((shift_a - shift_b) as nat) >= 2,
                        pb > 0,
                ;
                assert(k * pb == 0x80_0000);
                assert(sig_a / pa <= k) by (nonlinear_arith)
                    requires
                        0 <= sig_a < 0x100_0000,
                        pa >= 2 * pb,
                        k * pb == 0x80_0000,
                        pb > 0,
                        k > 0,
                ;
                assert(sig_b / pb >= k) by (nonlinear_arith)
                    requires
                        sig_b >= 0x80_0000,
                        k * pb == 0x80_0000,
                        pb > 0,
                        k > 0,
                ;
            }
        }
    }
}

} // verus!
