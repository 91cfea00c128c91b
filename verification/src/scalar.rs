//! Real numbers as the library carries them.
//!
//! A [`Scalar`] is the bit pattern of an IEEE 754 binary64 number: one sign
//! bit, eleven exponent bits, fifty-two fraction bits. Every such number that
//! is not a NaN is an integer multiple of two to the power of minus 1074, and
//! [`Scalar::scaled`] is that integer. The library orders, negates and
//! truncates numbers, which is exact on the bits, and states what it does in
//! terms of `scaled`. Every operation that rounds is left to the caller.

use vstd::prelude::*;
use vstd::arithmetic::div_mod::lemma_basic_div;
use vstd::arithmetic::div_mod::lemma_div_by_multiple;
use vstd::arithmetic::div_mod::lemma_div_denominator;
use vstd::arithmetic::div_mod::lemma_div_is_ordered;
use vstd::arithmetic::div_mod::lemma_div_is_ordered_by_denominator;
use vstd::arithmetic::div_mod::lemma_div_pos_is_pos;
use vstd::arithmetic::div_mod::lemma_fundamental_div_mod;
use vstd::arithmetic::div_mod::lemma_mod_bound;
use vstd::arithmetic::power2::lemma2_to64;
use vstd::arithmetic::power2::lemma2_to64_rest;
use vstd::arithmetic::power2::lemma_pow2_adds;
use vstd::arithmetic::power2::lemma_pow2_pos;
use vstd::arithmetic::power2::lemma_pow2_strictly_increases;
use vstd::arithmetic::power2::lemma_pow2_unfold;
use vstd::arithmetic::power2::pow2;
use vstd::bits::lemma_u64_shr_is_div;

verus! {

/// The bit that carries the sign.
pub const SIGN_BIT: u64 = 0x8000_0000_0000_0000;

/// Positive infinity: every exponent bit set, no fraction bit set.
pub const INFINITY_BITS: u64 = 0x7ff0_0000_0000_0000;

/// The number one.
pub const ONE_BITS: u64 = 0x3ff0_0000_0000_0000;

/// Weight of the lowest exponent bit, two to the power 52.
pub const FRACTION_RANGE: u64 = 0x0010_0000_0000_0000;

/// Exponent field of the numbers from one up to two.
pub const EXPONENT_BIAS: u64 = 1023;

/// An IEEE 754 binary64 number, held as its 64 bits.
///
/// The derived `==` compares bits: it tells the two zeros apart and finds a
/// NaN equal to itself. [`Scalar::same`] is the equality of the numbers.
#[derive(Clone, Copy, Debug, PartialEq, Eq, Structural)]
pub struct Scalar {
    pub bits: u64,
}

impl Scalar {
    /// Whether the sign bit is set.
    pub open spec fn sign(self) -> bool {
        self.bits >= SIGN_BIT
    }

    /// The bits without the sign bit.
    pub open spec fn magnitude(self) -> int {
        if self.bits >= SIGN_BIT {
            self.bits - SIGN_BIT
        } else {
            self.bits as int
        }
    }

    /// The exponent field, from 0 to 2047.
    pub open spec fn exponent(self) -> int {
        self.magnitude() / (FRACTION_RANGE as int)
    }

    /// The fraction field, below two to the power 52.
    pub open spec fn fraction(self) -> int {
        self.magnitude() % (FRACTION_RANGE as int)
    }

    /// Whether the bits encode no number: the exponent field is all ones and
    /// the fraction field is not zero.
    pub open spec fn nan(self) -> bool {
        self.magnitude() > INFINITY_BITS
    }

    /// Whether the bits encode a number other than an infinity.
    pub open spec fn finite(self) -> bool {
        self.magnitude() < INFINITY_BITS
    }

    /// The significand as an integer: the fraction field, with the implicit
    /// leading bit where the exponent field is not zero.
    pub open spec fn significand(self) -> int {
        if self.exponent() == 0 {
            self.fraction()
        } else {
            self.fraction() + FRACTION_RANGE
        }
    }

    /// The absolute value of the number, in units of two to the power of
    /// minus 1074. For an infinity this is an integer larger than that of any
    /// finite number.
    pub open spec fn size(self) -> int {
        if self.exponent() == 0 {
            self.significand()
        } else {
            self.significand() * pow2((self.exponent() - 1) as nat)
        }
    }

    /// The number, in units of two to the power of minus 1074. The two zeros
    /// both give zero.
    pub open spec fn scaled(self) -> int {
        if self.sign() {
            -self.size()
        } else {
            self.size()
        }
    }

    /// The IEEE 754 relation `<`: false as soon as either side is a NaN.
    pub open spec fn less(self, other: Scalar) -> bool {
        !self.nan() && !other.nan() && self.scaled() < other.scaled()
    }

    /// The IEEE 754 relation `<=`: false as soon as either side is a NaN.
    pub open spec fn at_most(self, other: Scalar) -> bool {
        !self.nan() && !other.nan() && self.scaled() <= other.scaled()
    }

    /// The IEEE 754 relation `==`: false as soon as either side is a NaN, and
    /// true of the two zeros.
    pub open spec fn same(self, other: Scalar) -> bool {
        !self.nan() && !other.nan() && self.scaled() == other.scaled()
    }

    /// `self < 0`: a number below zero. Neither zero nor a NaN is.
    pub open spec fn below_zero(self) -> bool {
        !self.nan() && self.scaled() < 0
    }

    /// `self > 0`: a number above zero. Neither zero nor a NaN is.
    pub open spec fn above_zero(self) -> bool {
        !self.nan() && self.scaled() > 0
    }

    /// The bits with the sign bit flipped.
    pub open spec fn negated(self) -> Scalar {
        if self.sign() {
            Scalar { bits: (self.bits - SIGN_BIT) as u64 }
        } else {
            Scalar { bits: (self.bits + SIGN_BIT) as u64 }
        }
    }

    /// The bits with the sign bit cleared.
    pub open spec fn absolute(self) -> Scalar {
        Scalar { bits: self.magnitude() as u64 }
    }

    /// The integer part of the number's absolute value.
    pub open spec fn whole(self) -> int {
        self.size() / (pow2(1074) as int)
    }

    /// What a saturating conversion to an unsigned integer no larger than
    /// `limit` gives: zero for a NaN and for every number with the sign bit
    /// set, the integer part where it is at most `limit`, else `limit`.
    pub open spec fn truncated(self, limit: u32) -> int {
        if self.nan() || self.sign() {
            0
        } else if self.whole() > limit {
            limit as int
        } else {
            self.whole()
        }
    }

    /// Sign and magnitude as one integer. It orders the numbers as `scaled`
    /// does, and can be read off the bits.
    pub open spec fn rank(self) -> int {
        if self.sign() {
            -self.magnitude()
        } else {
            self.magnitude()
        }
    }

    pub fn from_bits(bits: u64) -> (r: Scalar)
        ensures
            r.bits == bits,
    {
        Scalar { bits }
    }

    pub fn to_bits(self) -> (r: u64)
        ensures
            r == self.bits,
    {
        self.bits
    }

    /// Positive zero.
    pub fn zero() -> (r: Scalar)
        ensures
            r.bits == 0,
    {
        Scalar { bits: 0 }
    }

    /// The number one.
    pub fn one() -> (r: Scalar)
        ensures
            r.bits == ONE_BITS,
    {
        Scalar { bits: ONE_BITS }
    }

    /// Positive infinity.
    pub fn infinity() -> (r: Scalar)
        ensures
            r.bits == INFINITY_BITS,
    {
        Scalar { bits: INFINITY_BITS }
    }

    fn magnitude_bits(self) -> (r: u64)
        ensures
            r == self.magnitude(),
            r < SIGN_BIT,
    {
        if self.bits >= SIGN_BIT {
            self.bits - SIGN_BIT
        } else {
            self.bits
        }
    }

    fn rank_value(self) -> (r: i64)
        ensures
            r == self.rank(),
    {
        let magnitude: u64 = self.magnitude_bits();
        if self.bits >= SIGN_BIT {
            -(magnitude as i64)
        } else {
            magnitude as i64
        }
    }

    pub fn is_nan(self) -> (r: bool)
        ensures
            r == self.nan(),
    {
        self.magnitude_bits() > INFINITY_BITS
    }

    pub fn is_finite(self) -> (r: bool)
        ensures
            r == self.finite(),
    {
        self.magnitude_bits() < INFINITY_BITS
    }

    /// `self < other`.
    pub fn lt(self, other: Scalar) -> (r: bool)
        ensures
            r == self.less(other),
    {
        proof {
            lemma_rank_orders(self, other);
        }
        !self.is_nan() && !other.is_nan() && self.rank_value() < other.rank_value()
    }

    /// `self <= other`.
    pub fn le(self, other: Scalar) -> (r: bool)
        ensures
            r == self.at_most(other),
    {
        proof {
            lemma_rank_orders(self, other);
        }
        !self.is_nan() && !other.is_nan() && self.rank_value() <= other.rank_value()
    }

    /// `self > other`.
    pub fn gt(self, other: Scalar) -> (r: bool)
        ensures
            r == other.less(self),
    {
        other.lt(self)
    }

    /// `self == other` as numbers.
    pub fn equals(self, other: Scalar) -> (r: bool)
        ensures
            r == self.same(other),
    {
        proof {
            lemma_rank_orders(self, other);
        }
        !self.is_nan() && !other.is_nan() && self.rank_value() == other.rank_value()
    }

    /// `self < 0`.
    pub fn is_below_zero(self) -> (r: bool)
        ensures
            r == self.below_zero(),
            r == self.less(Scalar { bits: 0 }),
    {
        proof {
            lemma_rank_orders(self, Scalar { bits: 0 });
            lemma_zero();
        }
        !self.is_nan() && self.rank_value() < 0
    }

    /// `self > 0`.
    pub fn is_above_zero(self) -> (r: bool)
        ensures
            r == self.above_zero(),
            r == (Scalar { bits: 0 }).less(self),
    {
        proof {
            lemma_rank_orders(self, Scalar { bits: 0 });
            lemma_zero();
        }
        !self.is_nan() && self.rank_value() > 0
    }

    /// `-self`: the sign bit flipped, whatever the other bits encode.
    pub fn neg(self) -> (r: Scalar)
        ensures
            r == self.negated(),
    {
        if self.bits >= SIGN_BIT {
            Scalar { bits: self.bits - SIGN_BIT }
        } else {
            Scalar { bits: self.bits + SIGN_BIT }
        }
    }

    /// `|self|`: the sign bit cleared, whatever the other bits encode.
    pub fn abs(self) -> (r: Scalar)
        ensures
            r == self.absolute(),
    {
        Scalar { bits: self.magnitude_bits() }
    }

    /// The number as an unsigned integer no larger than `limit`, rounded
    /// toward zero and saturating at both ends; a NaN gives zero.
    pub fn truncate(self, limit: u32) -> (r: u32)
        ensures
            r == self.truncated(limit),
            r <= limit,
    {
        let magnitude: u64 = self.magnitude_bits();
        if magnitude > INFINITY_BITS || self.bits >= SIGN_BIT {
            return 0;
        }
        let exponent: u64 = magnitude / FRACTION_RANGE;
        let fraction: u64 = magnitude % FRACTION_RANGE;
        if exponent < EXPONENT_BIAS {
            proof {
                lemma_whole_below_one(self);
            }
            return 0;
        }
        if exponent >= EXPONENT_BIAS + 32 {
            proof {
                lemma_whole_beyond(self);
            }
            return limit;
        }
        let significand: u64 = fraction + FRACTION_RANGE;
        let shift: u64 = EXPONENT_BIAS + 52 - exponent;
        let whole: u64 = significand >> shift;
        proof {
            lemma_u64_shr_is_div(significand, shift);
            lemma_whole_within(self);
        }
        if whole > limit as u64 {
            limit
        } else {
            whole as u32
        }
    }
}

/// Zero has size zero.
proof fn lemma_zero()
    ensures
        (Scalar { bits: 0 }).scaled() == 0,
        (Scalar { bits: 0 }).rank() == 0,
        !(Scalar { bits: 0 }).nan(),
{
}

/// The fields of a bit pattern are in range and make up its magnitude.
proof fn lemma_fields(s: Scalar)
    ensures
        0 <= s.magnitude() < SIGN_BIT,
        0 <= s.fraction() < FRACTION_RANGE,
        0 <= s.exponent() < 2048,
        s.magnitude() == s.exponent() * FRACTION_RANGE + s.fraction(),
        0 <= s.significand() < 2 * FRACTION_RANGE,
        s.exponent() > 0 ==> s.significand() >= FRACTION_RANGE,
{
    let m = s.magnitude();
    let range = FRACTION_RANGE as int;
    lemma_fundamental_div_mod(m, range);
    lemma_mod_bound(m, range);
    assert(range * (m / range) == (m / range) * range) by (nonlinear_arith);
    if m / range >= 2048 {
        assert((m / range) * range >= 2048 * range) by (nonlinear_arith)
            requires
                m / range >= 2048,
                range > 0,
        ;
    }
    if m / range < 0 {
        assert((m / range) * range <= -range) by (nonlinear_arith)
            requires
                m / range <= -1,
                range > 0,
        ;
    }
}

/// The size lies between what the exponent field alone fixes.
proof fn lemma_size_bounds(s: Scalar)
    ensures
        s.size() >= 0,
        s.size() < FRACTION_RANGE * pow2(s.exponent() as nat),
        s.exponent() > 0 ==> s.size() >= FRACTION_RANGE * pow2((s.exponent() - 1) as nat),
{
    lemma_fields(s);
    let e = s.exponent();
    let sig = s.significand();
    let range = FRACTION_RANGE as int;
    if e == 0 {
        lemma2_to64();
    } else {
        let p = pow2((e - 1) as nat) as int;
        lemma_pow2_pos((e - 1) as nat);
        lemma_pow2_unfold(e as nat);
        assert(sig * p >= range * p) by (nonlinear_arith)
            requires
                sig >= range,
                p > 0,
        ;
        assert(sig * p < range * (2 * p)) by (nonlinear_arith)
            requires
                sig < 2 * range,
                p > 0,
        ;
    }
}

/// Of two bit patterns the one of larger magnitude has the larger size.
proof fn lemma_size_grows(a: Scalar, b: Scalar)
    requires
        a.magnitude() < b.magnitude(),
    ensures
        a.size() < b.size(),
{
    lemma_fields(a);
    lemma_fields(b);
    lemma_size_bounds(a);
    lemma_size_bounds(b);
    let range = FRACTION_RANGE as int;
    let ea = a.exponent();
    let eb = b.exponent();
    lemma_div_is_ordered(a.magnitude(), b.magnitude(), range);
    if ea == eb {
        if ea > 0 {
            let p = pow2((ea - 1) as nat) as int;
            lemma_pow2_pos((ea - 1) as nat);
            assert(a.significand() * p < b.significand() * p) by (nonlinear_arith)
                requires
                    a.significand() < b.significand(),
                    p > 0,
            ;
        }
    } else {
        if ea < eb - 1 {
            lemma_pow2_strictly_increases(ea as nat, (eb - 1) as nat);
        }
        let pa = pow2(ea as nat) as int;
        let pb = pow2((eb - 1) as nat) as int;
        assert(range * pa <= range * pb) by (nonlinear_arith)
            requires
                pa <= pb,
                range > 0,
        ;
    }
}

/// The order of the ranks is the order of the numbers: to order two numbers,
/// it is enough to order their bits as sign and magnitude.
pub proof fn lemma_rank_orders(a: Scalar, b: Scalar)
    ensures
        a.rank() < b.rank() <==> a.scaled() < b.scaled(),
        a.rank() == b.rank() <==> a.scaled() == b.scaled(),
{
    lemma_fields(a);
    lemma_fields(b);
    lemma_size_bounds(a);
    lemma_size_bounds(b);
    let nothing = Scalar { bits: 0 };
    if a.magnitude() > 0 {
        lemma_size_grows(nothing, a);
    }
    if b.magnitude() > 0 {
        lemma_size_grows(nothing, b);
    }
    if a.magnitude() < b.magnitude() {
        lemma_size_grows(a, b);
    }
    if b.magnitude() < a.magnitude() {
        lemma_size_grows(b, a);
    }
}

/// A number whose exponent field is below the bias is below one.
proof fn lemma_whole_below_one(s: Scalar)
    requires
        s.exponent() < EXPONENT_BIAS,
    ensures
        s.whole() == 0,
{
    lemma_size_bounds(s);
    lemma_fields(s);
    let e = s.exponent() as nat;
    lemma2_to64_rest();
    lemma_pow2_adds(52, e);
    if 52 + e < 1074 {
        lemma_pow2_strictly_increases(52 + e, 1074);
    }
    lemma_basic_div(s.size(), pow2(1074) as int);
}

/// A number whose exponent field is at least 32 above the bias has an integer
/// part of at least two to the power 32.
proof fn lemma_whole_beyond(s: Scalar)
    requires
        s.exponent() >= EXPONENT_BIAS + 32,
    ensures
        s.whole() >= 0x1_0000_0000,
{
    lemma_size_bounds(s);
    lemma_fields(s);
    let e = s.exponent();
    lemma2_to64();
    lemma2_to64_rest();
    lemma_pow2_adds(52, (e - 1) as nat);
    lemma_pow2_adds(32, 1074);
    if 1106 < 52 + (e - 1) {
        lemma_pow2_strictly_increases(1106, (52 + (e - 1)) as nat);
    }
    lemma_pow2_pos(1074);
    let unit = pow2(1074) as int;
    lemma_div_is_ordered(0x1_0000_0000 * unit, s.size(), unit);
    lemma_div_by_multiple(0x1_0000_0000, unit);
}

/// In between, the integer part is the significand shifted right, and is
/// below two to the power 32.
proof fn lemma_whole_within(s: Scalar)
    requires
        EXPONENT_BIAS <= s.exponent() < EXPONENT_BIAS + 32,
    ensures
        s.whole() == s.significand() / (pow2((EXPONENT_BIAS + 52 - s.exponent()) as nat) as int),
        0 <= s.whole() < 0x1_0000_0000,
{
    lemma_fields(s);
    let e = s.exponent();
    let sig = s.significand();
    let up = (e - 1) as nat;
    let down = (EXPONENT_BIAS + 52 - e) as nat;
    let p = pow2(up) as int;
    let q = pow2(down) as int;
    lemma_pow2_pos(up);
    lemma_pow2_pos(down);
    lemma_pow2_adds(up, down);
    assert(up + down == 1074);
    lemma_div_denominator(sig * p, p, q);
    lemma_div_by_multiple(sig, p);
    assert(s.whole() == sig / q);
    lemma2_to64();
    lemma2_to64_rest();
    if 21 < down {
        lemma_pow2_strictly_increases(21, down);
    }
    lemma_div_is_ordered_by_denominator(sig, pow2(21) as int, q);
    lemma_div_is_ordered(sig, 2 * FRACTION_RANGE - 1, pow2(21) as int);
    assert((2 * FRACTION_RANGE - 1) / (pow2(21) as int) < 0x1_0000_0000);
    lemma_div_pos_is_pos(sig, q);
}

/// Flipping the sign bit gives the opposite number, and a NaN for a NaN.
pub proof fn lemma_negated(s: Scalar)
    ensures
        s.negated().scaled() == -s.scaled(),
        s.negated().nan() == s.nan(),
        s.negated().negated() == s,
{
    lemma_size_bounds(s);
}

/// Clearing the sign bit gives the absolute value, and a NaN for a NaN.
pub proof fn lemma_absolute(s: Scalar)
    ensures
        s.absolute().scaled() == s.size(),
        s.absolute().scaled() >= 0,
        s.absolute().scaled() == s.scaled() || s.absolute().scaled() == -s.scaled(),
        s.absolute().nan() == s.nan(),
{
    lemma_size_bounds(s);
}

/// The named constants are the numbers they are named after: one is two to
/// the power 1074 units, and infinity lies beyond every finite number.
pub proof fn lemma_constants(s: Scalar)
    ensures
        (Scalar { bits: 0 }).scaled() == 0,
        (Scalar { bits: SIGN_BIT }).scaled() == 0,
        (Scalar { bits: ONE_BITS }).scaled() == pow2(1074),
        s.finite() ==> s.less(Scalar { bits: INFINITY_BITS }),
{
    let one = Scalar { bits: ONE_BITS };
    lemma_fields(one);
    assert(one.exponent() == 1023);
    assert(one.fraction() == 0);
    lemma2_to64_rest();
    lemma_pow2_adds(52, 1022);
    let infinity = Scalar { bits: INFINITY_BITS };
    lemma_rank_orders(s, infinity);
    lemma_fields(s);
}

} // verus!
