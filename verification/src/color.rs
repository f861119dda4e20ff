//! Colours and their way into the image: gamma correction, clamping, the
//! eight-bit level of a channel and the line of text that a pixel becomes.

use vstd::prelude::*;
use vstd::arithmetic::div_mod::{lemma_basic_div, lemma_div_multiples_vanish_quotient};
use vstd::arithmetic::power2::{
    lemma2_to64, lemma2_to64_rest, lemma_pow2_adds, lemma_pow2_pos, lemma_pow2_strictly_increases,
    pow2,
};
use crate::interval::Interval;
use crate::root::lemma_root_is_unique;
use crate::scalar::{Scalar, FRACTION_SPAN, INFINITY_BITS, ONE_BITS};
use crate::text::{decimal, push_char, push_decimal};
use crate::vec3::Vec3;

verus! {

/// A colour: red, green and blue in `x`, `y` and `z`.
pub type Color = Vec3;

/// Pattern of `0.999`, the brightest intensity that is written.
pub const BRIGHTEST_BITS: u64 = 0x3FEF_F7CE_D916_872B;

/// The range of intensities that are written: from 0 to 0.999.
pub open spec fn intensity() -> Interval {
    Interval { min: Scalar { bits: 0 }, max: Scalar { bits: BRIGHTEST_BITS } }
}

/// `floor(256 * |v|)` for a number `v` of magnitude below one, which is
/// `significand * 2^(exponent - 1075)`.
pub open spec fn scaled_floor(v: Scalar) -> int {
    256 * v.significand() / (pow2((1075 - v.exponent()) as nat) as int)
}

/// The eight-bit level of a gamma-corrected channel: the channel is
/// clamped into `[0, 0.999]`, multiplied by 256 and cut to an integer. What
/// is not a number gives 0.
pub open spec fn spec_level(x: Scalar) -> int {
    let v = intensity().spec_clamp(x);
    if v.nan() {
        0
    } else {
        scaled_floor(v)
    }
}

/// `g` is the gamma-corrected value of a linear channel: zero where the
/// channel is not positive, else the number nearest to its square root,
/// which for infinity is infinity.
pub open spec fn is_gamma_of(g: Scalar, linear: Scalar) -> bool {
    if !linear.spec_gt(Scalar { bits: 0 }) {
        g.bits == 0
    } else if linear.bits == INFINITY_BITS {
        g.bits == INFINITY_BITS
    } else {
        g.is_root_of(linear)
    }
}

/// The gamma-corrected value of a linear channel.
pub open spec fn spec_linear_to_gamma(linear: Scalar) -> Scalar {
    choose|g: Scalar| is_gamma_of(g, linear)
}

/// The line of text of one pixel of the linear colour `c`: the levels of
/// its gamma-corrected channels in decimal, a space between them and a
/// line feed at the end.
pub open spec fn pixel_line(c: Color) -> Seq<char> {
    decimal(spec_level(spec_linear_to_gamma(c.x)) as nat) + seq![' '] + decimal(
        spec_level(spec_linear_to_gamma(c.y)) as nat,
    ) + seq![' '] + decimal(spec_level(spec_linear_to_gamma(c.z)) as nat) + seq!['\n']
}

/// A linear channel has one gamma-corrected value.
pub proof fn lemma_gamma_is_unique(a: Scalar, b: Scalar, linear: Scalar)
    requires
        is_gamma_of(a, linear),
        is_gamma_of(b, linear),
    ensures
        a == b,
{
    if linear.spec_gt(Scalar { bits: 0 }) && linear.bits != INFINITY_BITS {
        lemma_root_is_unique(a, b, linear);
    }
}

/// Full intensity stays full and is written as 255: the gamma-corrected
/// value of one is one, and the level of one is 255, not 256.
pub proof fn lemma_full_intensity()
    ensures
        spec_linear_to_gamma(Scalar { bits: ONE_BITS }) == (Scalar { bits: ONE_BITS }),
        spec_level(Scalar { bits: ONE_BITS }) == 255,
{
    let one = Scalar { bits: ONE_BITS };
    lemma2_to64();
    lemma2_to64_rest();
    assert(one.significand() == FRACTION_SPAN && one.exponent() == 1023);
    let p = pow2(2046) as int;
    lemma_pow2_pos(2046);
    lemma_pow2_adds(2046, 52);
    assert(one.wide() == FRACTION_SPAN * (p * FRACTION_SPAN));
    assert(one.is_root_of(one)) by (nonlinear_arith)
        requires
            one.significand() == 0x10_0000_0000_0000,
            one.exponent() == 1023,
            !one.sign(),
            one.magnitude() < INFINITY_BITS,
            p == pow2((2 * one.exponent()) as nat),
            p > 0,
            one.wide() == 0x10_0000_0000_0000 * (p * 0x10_0000_0000_0000),
    {
        let w = one.wide();
        assert(4 * w < (2 * 0x10_0000_0000_0000 + 1) * (2 * 0x10_0000_0000_0000 + 1) * p);
        assert((4 * 0x10_0000_0000_0000 - 1) * (4 * 0x10_0000_0000_0000 - 1) * p < 16 * w);
    }
    assert(is_gamma_of(one, one));
    lemma_gamma_is_unique(spec_linear_to_gamma(one), one, one);
    let brightest = Scalar { bits: BRIGHTEST_BITS };
    assert(intensity().spec_clamp(one) == brightest);
    assert(brightest.significand() == 0x1F_F7CE_D916_872B && brightest.exponent() == 1022);
    assert(pow2(53) == 0x20_0000_0000_0000);
    assert(256 * 0x1F_F7CE_D916_872Bint / 0x20_0000_0000_0000int == 255);
    assert(scaled_floor(brightest) == 255);
}

/// Gamma correction of one linear channel: the square root of a positive
/// channel, and zero for any other.
pub fn linear_to_gamma(linear_component: Scalar) -> (r: Scalar)
    ensures
        r == spec_linear_to_gamma(linear_component),
        is_gamma_of(r, linear_component),
        !linear_component.spec_gt(Scalar { bits: 0 }) ==> r.bits == 0,
{
    let r = if linear_component.gt(Scalar::zero()) {
        linear_component.sqrt()
    } else {
        Scalar::zero()
    };
    proof {
        assert(is_gamma_of(r, linear_component));
        lemma_gamma_is_unique(r, spec_linear_to_gamma(linear_component), linear_component);
    }
    r
}

/// The eight-bit level of a gamma-corrected channel.
pub fn level(x: Scalar) -> (n: u8)
    ensures
        n == spec_level(x),
        x.spec_gt(Scalar { bits: BRIGHTEST_BITS }) ==> n == 255,
        !x.spec_gt(Scalar { bits: 0 }) ==> n == 0,
{
    let range = Interval { min: Scalar::zero(), max: Scalar::from_bits(BRIGHTEST_BITS) };
    let v = range.clamp(x);
    if v.is_nan() {
        return 0;
    }
    let m: u64 = v.abs().to_bits();
    let e: u64 = m / FRACTION_SPAN;
    let f: u64 = m % FRACTION_SPAN;
    proof {
        lemma2_to64();
        lemma2_to64_rest();
        assert(e <= 1022);
    }
    if e < 1015 {
        proof {
            let k = (1075 - v.exponent()) as nat;
            if k > 61 {
                lemma_pow2_strictly_increases(61, k);
            }
            lemma_basic_div(256 * v.significand(), pow2(k) as int);
        }
        return 0;
    }
    let s: u64 = FRACTION_SPAN + f;
    let d: u64 = if e == 1015 {
        0x10_0000_0000_0000
    } else if e == 1016 {
        0x8_0000_0000_0000
    } else if e == 1017 {
        0x4_0000_0000_0000
    } else if e == 1018 {
        0x2_0000_0000_0000
    } else if e == 1019 {
        0x1_0000_0000_0000
    } else if e == 1020 {
        0x8000_0000_0000
    } else if e == 1021 {
        0x4000_0000_0000
    } else {
        0x2000_0000_0000
    };
    let q: u64 = s / d;
    proof {
        assert(pow2((1075 - e) as nat) == 256 * d);
        lemma_div_multiples_vanish_quotient(256, s as int, d as int);
        assert(q < 256);
    }
    q as u8
}

impl Vec3 {
    /// The line of text that the linear colour is written as: each
    /// channel is gamma-corrected, clamped into `[0, 0.999]` and scaled to
    /// its eight-bit level.
    pub fn to_string(self) -> (line: String)
        ensures
            line@ == pixel_line(self),
    {
        let r = linear_to_gamma(self.x);
        let g = linear_to_gamma(self.y);
        let b = linear_to_gamma(self.z);
        let mut line = String::new();
        push_decimal(&mut line, level(r) as u32);
        push_char(&mut line, ' ');
        push_decimal(&mut line, level(g) as u32);
        push_char(&mut line, ' ');
        push_decimal(&mut line, level(b) as u32);
        push_char(&mut line, '\n');
        line
    }
}

} // verus!
