//! Single-precision numbers, carried by their bit patterns.
//!
//! The library stores such numbers, hands them on and compares them; computing with
//! them is left to its callers. A number's value is counted in the smallest positive
//! amount that the format can hold, 2^-149, so that every finite number is an integer.

use vstd::arithmetic::power2::{
    lemma_pow2_adds, lemma_pow2_pos, lemma_pow2_strictly_increases, lemma_pow2_unfold, pow2,
};
use vstd::prelude::*;

verus! {

/// The bit patterns of the infinities.
pub const INFINITY: u32 = 0x7f80_0000;

pub const NEG_INFINITY: u32 = 0xff80_0000;

/// A single-precision number, by its bit pattern.
#[derive(Debug, Clone, Copy, PartialEq, Eq, Structural)]
pub struct Scalar {
    pub bits: u32,
}

/// How many 2^-149ths a bit pattern without its sign stands for. Infinity counts as the
/// next number after the largest finite one.
pub open spec fn magnitude(body: int) -> int {
    let exponent = body / 0x80_0000;
    let fraction = body % 0x80_0000;
    if exponent == 0 {
        fraction
    } else {
        (fraction + 0x80_0000) * pow2((exponent - 1) as nat)
    }
}

impl Scalar {
    pub open spec fn is_negative(self) -> bool {
        self.bits >= 0x8000_0000
    }

    /// The bit pattern without its sign.
    pub open spec fn body(self) -> int {
        if self.is_negative() {
            self.bits - 0x8000_0000
        } else {
            self.bits as int
        }
    }

    /// Whether the bits stand for no number.
    pub open spec fn is_nan(self) -> bool {
        self.body() > 0x7f80_0000
    }

    /// The value of a number, in 2^-149ths.
    pub open spec fn value(self) -> int {
        if self.is_negative() {
            -magnitude(self.body())
        } else {
            magnitude(self.body())
        }
    }

    /// Whether this number is less than the other; nothing is less than what is no
    /// number, nor the other way round.
    pub open spec fn less_than(self, other: Scalar) -> bool {
        !self.is_nan() && !other.is_nan() && self.value() < other.value()
    }

    /// The number zero.
    pub fn zero() -> (s: Scalar)
        ensures
            s.bits == 0,
            s.value() == 0,
            !s.is_nan(),
    {
        Scalar { bits: 0 }
    }

    fn unsigned(&self) -> (body: u32)
        ensures
            body == self.body(),
    {
        if self.bits >= 0x8000_0000 {
            self.bits - 0x8000_0000
        } else {
            self.bits
        }
    }

    /// Whether this number is less than the other.
    pub fn lt(&self, other: &Scalar) -> (r: bool)
        ensures
            r == self.less_than(*other),
    {
        let a: u32 = self.unsigned();
        let b: u32 = other.unsigned();
        proof {
            lemma_magnitude_order(a as int, b as int);
            lemma_magnitude_order(b as int, a as int);
            lemma_magnitude_order(0, a as int);
            lemma_magnitude_order(0, b as int);
        }
        if a > 0x7f80_0000 || b > 0x7f80_0000 {
            return false;
        }
        let a_negative = self.bits >= 0x8000_0000;
        let b_negative = other.bits >= 0x8000_0000;
        if a_negative {
            if b_negative {
                b < a
            } else {
                a > 0 || b > 0
            }
        } else {
            !b_negative && a < b
        }
    }

    /// Whether this number is at most the other. False where either is no number.
    pub fn le(&self, other: &Scalar) -> (r: bool)
        ensures
            r == (!self.is_nan() && !other.is_nan() && self.value() <= other.value()),
    {
        let a: u32 = self.unsigned();
        let b: u32 = other.unsigned();
        if a > 0x7f80_0000 || b > 0x7f80_0000 {
            return false;
        }
        !other.lt(self)
    }

    /// This number, or zero where it is negative or no number.
    pub open spec fn or_zero(self) -> Scalar {
        if self.is_nan() || self.value() < 0 {
            Scalar { bits: 0 }
        } else {
            self
        }
    }

    /// This number, or zero where it is negative or no number.
    pub fn floored(self) -> (s: Scalar)
        ensures
            s == self.or_zero(),
    {
        let zero = Scalar::zero();
        if zero.le(&self) {
            self
        } else {
            zero
        }
    }

    /// Whether this number is positive.
    pub fn is_positive(&self) -> (r: bool)
        ensures
            r == (!self.is_nan() && self.value() > 0),
    {
        Scalar::zero().lt(self)
    }

    /// Whether a draw from the unit interval, given in 2^-24ths, falls below this number.
    pub fn exceeds_draw(&self, draw: u32) -> (r: bool)
        requires
            draw < 0x100_0000,
        ensures
            r == self.above_draw(draw),
    {
        let body: u32 = self.unsigned();
        proof {
            lemma_pow2_pos(125);
            lemma_magnitude_order(0, body as int);
            assert(draw * pow2(125) >= 0) by (nonlinear_arith)
                requires
                    draw >= 0,
                    pow2(125) > 0,
            ;
        }
        if body > 0x7f80_0000 || self.bits >= 0x8000_0000 {
            return false;
        }
        let exponent: u32 = body / 0x80_0000;
        let fraction: u32 = body % 0x80_0000;
        if exponent >= 127 {
            proof {
                lemma_reaches_one(draw as int, exponent as int, fraction as int);
            }
            return true;
        }
        if exponent == 0 {
            proof {
                lemma_below_normal(draw as int, fraction as int);
            }
            return draw == 0 && fraction > 0;
        }
        let shift: u32 = 126 - exponent;
        proof {
            lemma_scale_draw(draw as int, exponent as int, fraction as int);
        }
        if shift >= 24 {
            proof {
                lemma_far_shift(draw as int, shift as nat, fraction as int);
            }
            return draw == 0;
        }
        proof {
            lemma_near_shift(draw, shift as nat);
        }
        let scaled: u64 = (draw as u64) << shift;
        scaled < fraction as u64 + 0x80_0000
    }

    /// The number without its fraction, as far as `u32` goes; zero where it is negative
    /// or no number.
    pub open spec fn whole_part(self) -> int {
        let ones = magnitude(self.body()) / pow2(149) as int;
        if self.is_nan() || self.is_negative() {
            0
        } else if ones > u32::MAX {
            u32::MAX as int
        } else {
            ones
        }
    }

    /// The number without its fraction, as far as `u32` goes; zero where it is negative
    /// or no number.
    pub fn truncate(&self) -> (n: u32)
        ensures
            n == self.whole_part(),
    {
        let body: u32 = self.unsigned();
        if body > 0x7f80_0000 || self.bits >= 0x8000_0000 {
            return 0;
        }
        let exponent: u32 = body / 0x80_0000;
        let fraction: u32 = body % 0x80_0000;
        if exponent < 127 {
            proof {
                lemma_below_one(exponent as int, fraction as int);
            }
            return 0;
        }
        let mantissa: u32 = fraction + 0x80_0000;
        if exponent <= 150 {
            let shift: u32 = 150 - exponent;
            proof {
                lemma_cut_fraction(exponent as int, fraction as int);
                vstd::bits::lemma_u32_shr_is_div(mantissa, shift);
            }
            return mantissa >> shift;
        }
        let shift: u32 = exponent - 150;
        proof {
            lemma_no_fraction(exponent as int, fraction as int);
        }
        if shift > 8 {
            proof {
                lemma_too_large(shift as nat, fraction as int);
            }
            return u32::MAX;
        }
        proof {
            lemma_still_fits(shift as nat, mantissa);
        }
        mantissa << shift
    }

    /// Whether a draw from the unit interval, given in 2^-24ths, falls below this number.
    pub open spec fn above_draw(self, draw: u32) -> bool {
        !self.is_nan() && draw * pow2(125) < self.value()
    }
}

/// A larger bit pattern stands for a larger magnitude.
pub proof fn lemma_magnitude_order(a: int, b: int)
    requires
        0 <= a,
        0 <= b,
    ensures
        magnitude(a) >= 0,
        a < b ==> magnitude(a) < magnitude(b),
        a == b ==> magnitude(a) == magnitude(b),
{
    let ea = a / 0x80_0000;
    let fa = a % 0x80_0000;
    let eb = b / 0x80_0000;
    let fb = b % 0x80_0000;
    if ea > 0 {
        lemma_pow2_pos((ea - 1) as nat);
        let pa = pow2((ea - 1) as nat) as int;
        assert((fa + 0x80_0000) * pa >= 0) by (nonlinear_arith)
            requires
                fa >= 0,
                pa > 0,
        ;
    }
    if a < b {
        if ea == eb {
            if ea > 0 {
                let p = pow2((ea - 1) as nat) as int;
                assert((fa + 0x80_0000) * p < (fb + 0x80_0000) * p) by (nonlinear_arith)
                    requires
                        fa < fb,
                        p > 0,
                ;
            }
        } else {
            let pb = pow2((eb - 1) as nat) as int;
            lemma_pow2_pos((eb - 1) as nat);
            assert((fb + 0x80_0000) * pb >= 0x80_0000 * pb) by (nonlinear_arith)
                requires
                    fb >= 0,
                    pb > 0,
            ;
            if ea == 0 {
                assert(0x80_0000 * pb >= 0x80_0000) by (nonlinear_arith)
                    requires
                        pb >= 1,
                ;
            } else {
                let pa = pow2((ea - 1) as nat) as int;
                lemma_pow2_unfold(ea as nat);
                if ea < eb - 1 {
                    lemma_pow2_strictly_increases(ea as nat, (eb - 1) as nat);
                }
                assert(2 * pa <= pb);
                assert((fa + 0x80_0000) * pa < 0x100_0000 * pa) by (nonlinear_arith)
                    requires
                        fa < 0x80_0000,
                        pa > 0,
                ;
            }
        }
    }
}

/// A number with an exponent of one or more exceeds every draw.
proof fn lemma_reaches_one(draw: int, exponent: int, fraction: int)
    requires
        0 <= draw < 0x100_0000,
        127 <= exponent,
        0 <= fraction,
    ensures
        draw * pow2(125) < (fraction + 0x80_0000) * pow2((exponent - 1) as nat),
{
    let p = pow2(125) as int;
    let q = pow2((exponent - 1) as nat) as int;
    lemma_pow2_pos(125);
    lemma_pow2_unfold(126);
    if 126 < exponent - 1 {
        lemma_pow2_strictly_increases(126, (exponent - 1) as nat);
    }
    assert(2 * p <= q);
    assert(draw * p < 0x100_0000 * p) by (nonlinear_arith)
        requires
            draw < 0x100_0000,
            p > 0,
    ;
    assert(0x80_0000 * q <= (fraction + 0x80_0000) * q) by (nonlinear_arith)
        requires
            fraction >= 0,
            q > 0,
    ;
}

/// A number below the normal range exceeds a draw of zero at most.
proof fn lemma_below_normal(draw: int, fraction: int)
    requires
        0 <= draw,
        0 <= fraction < 0x80_0000,
    ensures
        draw * pow2(125) < fraction <==> draw == 0 && fraction > 0,
{
    let p = pow2(125) as int;
    lemma_pow2_adds(23, 102);
    lemma_pow2_pos(102);
    vstd::arithmetic::power2::lemma2_to64();
    assert(p >= 0x80_0000) by (nonlinear_arith)
        requires
            p == 0x80_0000 * pow2(102),
            pow2(102) >= 1,
    ;
    if draw >= 1 {
        assert(draw * p >= p) by (nonlinear_arith)
            requires
                draw >= 1,
                p > 0,
        ;
    }
}

/// A draw and a number of the normal range can be compared by moving the draw's point.
proof fn lemma_scale_draw(draw: int, exponent: int, fraction: int)
    requires
        0 <= draw,
        0 <= fraction,
        1 <= exponent <= 126,
    ensures
        draw * pow2(125) < (fraction + 0x80_0000) * pow2((exponent - 1) as nat) <==> draw * pow2(
            (126 - exponent) as nat,
        ) < fraction + 0x80_0000,
{
    let s = pow2((126 - exponent) as nat) as int;
    let q = pow2((exponent - 1) as nat) as int;
    lemma_pow2_adds((126 - exponent) as nat, (exponent - 1) as nat);
    lemma_pow2_pos((exponent - 1) as nat);
    assert(pow2(125) == s * q);
    assert(draw * (s * q) == (draw * s) * q) by (nonlinear_arith);
    let x = draw * s;
    let y = fraction + 0x80_0000;
    assert(x * q < y * q <==> x < y) by (nonlinear_arith)
        requires
            q > 0,
    ;
}

/// Moved by so much, only a draw of zero stays small.
proof fn lemma_far_shift(draw: int, shift: nat, fraction: int)
    requires
        0 <= draw,
        24 <= shift,
        0 <= fraction < 0x80_0000,
    ensures
        draw * pow2(shift) < fraction + 0x80_0000 <==> draw == 0,
{
    vstd::arithmetic::power2::lemma2_to64();
    if 24 < shift {
        lemma_pow2_strictly_increases(24, shift);
    }
    let p = pow2(shift) as int;
    if draw >= 1 {
        assert(draw * p >= p) by (nonlinear_arith)
            requires
                draw >= 1,
                p > 0,
        ;
    }
}

/// Moved by less than that, a draw still fits in 64 bits.
proof fn lemma_near_shift(draw: u32, shift: nat)
    requires
        draw < 0x100_0000,
        shift < 24,
    ensures
        ((draw as u64) << (shift as u32)) == draw * pow2(shift),
{
    vstd::arithmetic::power2::lemma2_to64();
    lemma_pow2_strictly_increases(shift, 24);
    let p = pow2(shift) as int;
    assert(draw * p <= 0x100_0000 * 0x100_0000) by (nonlinear_arith)
        requires
            0 <= draw < 0x100_0000,
            0 <= p <= 0x100_0000,
    ;
    vstd::bits::lemma_u64_shl_is_mul(draw as u64, shift as u64);
}

/// Numbers with a smaller exponent than one have no whole part.
proof fn lemma_below_one(exponent: int, fraction: int)
    requires
        0 <= exponent < 127,
        0 <= fraction < 0x80_0000,
    ensures
        magnitude(exponent * 0x80_0000 + fraction) / pow2(149) as int == 0,
{
    let body = exponent * 0x80_0000 + fraction;
    lemma_magnitude_order(body, 0x3f80_0000);
    assert(magnitude(0x3f80_0000) == 0x80_0000 * pow2(126));
    lemma_pow2_adds(23, 126);
    vstd::arithmetic::power2::lemma2_to64();
    vstd::arithmetic::div_mod::lemma_basic_div(magnitude(body), pow2(149) as int);
}

/// The whole part of a number whose last bits are its fraction.
proof fn lemma_cut_fraction(exponent: int, fraction: int)
    requires
        127 <= exponent <= 150,
        0 <= fraction < 0x80_0000,
    ensures
        magnitude(exponent * 0x80_0000 + fraction) / pow2(149) as int == (fraction + 0x80_0000)
            / pow2((150 - exponent) as nat) as int,
        0 <= (fraction + 0x80_0000) / pow2((150 - exponent) as nat) as int <= u32::MAX,
{
    let x = pow2((exponent - 1) as nat) as int;
    let a = fraction + 0x80_0000;
    let d = pow2((150 - exponent) as nat) as int;
    lemma_pow2_pos((exponent - 1) as nat);
    lemma_pow2_pos((150 - exponent) as nat);
    lemma_pow2_adds((exponent - 1) as nat, (150 - exponent) as nat);
    vstd::arithmetic::div_mod::lemma_div_multiples_vanish_quotient(x, a, d);
    assert(a * x == x * a) by (nonlinear_arith);
    vstd::arithmetic::div_mod::lemma_div_is_ordered_by_denominator(a, 1, d);
    vstd::arithmetic::div_mod::lemma_div_pos_is_pos(a, d);
}

/// The whole part of a number without a fraction.
proof fn lemma_no_fraction(exponent: int, fraction: int)
    requires
        150 <= exponent <= 255,
        0 <= fraction < 0x80_0000,
    ensures
        magnitude(exponent * 0x80_0000 + fraction) / pow2(149) as int == (fraction + 0x80_0000)
            * pow2((exponent - 150) as nat),
{
    let a = fraction + 0x80_0000;
    let s = pow2((exponent - 150) as nat) as int;
    let p = pow2(149) as int;
    lemma_pow2_pos(149);
    lemma_pow2_adds((exponent - 150) as nat, 149);
    assert(a * (s * p) == (a * s) * p) by (nonlinear_arith);
    assert(a * s >= 0) by (nonlinear_arith)
        requires
            a >= 0,
            s >= 0,
    ;
    vstd::arithmetic::div_mod::lemma_div_by_multiple(a * s, p);
}

/// Moved by more than eight places, a mantissa does not fit in 32 bits.
proof fn lemma_too_large(shift: nat, fraction: int)
    requires
        shift > 8,
        0 <= fraction,
    ensures
        (fraction + 0x80_0000) * pow2(shift) > u32::MAX,
{
    vstd::arithmetic::power2::lemma2_to64();
    if shift > 9 {
        lemma_pow2_strictly_increases(9, shift);
    }
    let p = pow2(shift) as int;
    assert((fraction + 0x80_0000) * p >= 0x80_0000 * 512) by (nonlinear_arith)
        requires
            fraction >= 0,
            p >= 512,
    ;
}

/// Moved by at most eight places, a mantissa still fits in 32 bits.
proof fn lemma_still_fits(shift: nat, mantissa: u32)
    requires
        shift <= 8,
        mantissa < 0x100_0000,
    ensures
        (mantissa << (shift as u32)) == mantissa * pow2(shift),
        mantissa * pow2(shift) <= u32::MAX,
{
    vstd::arithmetic::power2::lemma2_to64();
    if shift < 8 {
        lemma_pow2_strictly_increases(shift, 8);
    }
    let p = pow2(shift) as int;
    assert(mantissa * p <= 0xff_ffff * 256) by (nonlinear_arith)
        requires
            0 <= mantissa <= 0xff_ffff,
            0 <= p <= 256,
    ;
    vstd::bits::lemma_u32_shl_is_mul(mantissa, shift as u32);
}

/// What is kept from falling below zero is never negative, and is itself where it was not.
pub proof fn law_floored_numbers(x: Scalar)
    ensures
        !x.or_zero().is_nan(),
        x.or_zero().value() >= 0,
        !x.is_nan() && x.value() >= 0 ==> x.or_zero() == x,
        x.is_nan() || x.value() < 0 ==> x.or_zero().bits == 0,
{
    lemma_magnitude_order(0, 0);
}

/// What numbers mean: zero is zero, one is 2^149 of the smallest amounts, doubling is one more
/// in the exponent, and the sign bit makes the opposite.
pub proof fn law_what_numbers_mean(body: u32)
    requires
        0x80_0000 <= body < 0x7f00_0000,
    ensures
        (Scalar { bits: 0 }).value() == 0,
        (Scalar { bits: 0x3f80_0000 }).value() == pow2(149),
        (Scalar { bits: (body + 0x80_0000) as u32 }).value() == 2 * (Scalar { bits: body }).value(),
        (Scalar { bits: (body + 0x8000_0000) as u32 }).value() == -(Scalar { bits: body }).value(),
{
    let e = body as int / 0x80_0000;
    let f = body as int % 0x80_0000;
    lemma_pow2_unfold(e as nat);
    lemma_magnitude_order(0, 0);
    assert((body + 0x80_0000) / 0x80_0000 == e + 1);
    assert((body + 0x80_0000) % 0x80_0000 == f);
    let p = pow2((e - 1) as nat) as int;
    assert((f + 0x80_0000) * (2 * p) == 2 * ((f + 0x80_0000) * p)) by (nonlinear_arith);
    assert(0x3f80_0000int / 0x80_0000 == 127);
    assert(0x3f80_0000int % 0x80_0000 == 0);
    vstd::arithmetic::power2::lemma2_to64();
    lemma_pow2_adds(23, 126);
    assert(pow2(23) == 0x80_0000);
}

} // verus!
