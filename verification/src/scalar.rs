//! Binary64 numbers held by their bit pattern, with exact comparison.

use vstd::prelude::*;
use vstd::arithmetic::div_mod::{lemma_basic_div, lemma_div_is_ordered_by_denominator};
use vstd::arithmetic::power2::{
    lemma2_to64, lemma2_to64_rest, lemma_pow2_adds, lemma_pow2_pos, lemma_pow2_strictly_increases,
    pow2,
};
use vstd::bits::lemma_u64_shr_is_div;

verus! {

/// Bit that carries the sign of a binary64 pattern.
pub const SIGN_BIT: u64 = 0x8000_0000_0000_0000;

/// Pattern of positive infinity; every larger magnitude is a NaN.
pub const INFINITY_BITS: u64 = 0x7FF0_0000_0000_0000;

/// Pattern of `1.0`.
pub const ONE_BITS: u64 = 0x3FF0_0000_0000_0000;

/// Number of patterns that share one exponent: two to the 52nd.
pub const FRACTION_SPAN: u64 = 0x10_0000_0000_0000;

/// A binary64 number, held as its bit pattern.
///
/// `==` on two scalars compares the patterns: it tells `-0.0` from `0.0`
/// and finds a NaN equal to itself. Numeric comparison is `lt`, `le`, `gt`.
#[derive(Clone, Copy, Debug, PartialEq, Eq, Structural)]
pub struct Scalar {
    pub bits: u64,
}

impl Scalar {
    /// The pattern without its sign bit.
    pub open spec fn magnitude(self) -> int {
        if self.bits >= SIGN_BIT {
            self.bits - SIGN_BIT
        } else {
            self.bits as int
        }
    }

    /// Whether the sign bit is set.
    pub open spec fn sign(self) -> bool {
        self.bits >= SIGN_BIT
    }

    /// Whether the pattern is a NaN.
    pub open spec fn nan(self) -> bool {
        self.magnitude() > INFINITY_BITS
    }

    /// Position of the number on the extended real line: for two patterns
    /// that are not NaN, the one of lower rank is the smaller number, and
    /// both zeros have rank 0.
    pub open spec fn rank(self) -> int {
        if self.sign() {
            -self.magnitude()
        } else {
            self.magnitude()
        }
    }

    /// Numeric `<`: false as soon as either side is a NaN.
    pub open spec fn spec_lt(self, other: Scalar) -> bool {
        !self.nan() && !other.nan() && self.rank() < other.rank()
    }

    /// Numeric `<=`: false as soon as either side is a NaN.
    pub open spec fn spec_le(self, other: Scalar) -> bool {
        !self.nan() && !other.nan() && self.rank() <= other.rank()
    }

    /// Numeric `>`.
    pub open spec fn spec_gt(self, other: Scalar) -> bool {
        other.spec_lt(self)
    }

    /// The number with its sign flipped.
    pub open spec fn spec_neg(self) -> Scalar {
        if self.bits >= SIGN_BIT {
            Scalar { bits: (self.bits - SIGN_BIT) as u64 }
        } else {
            Scalar { bits: (self.bits + SIGN_BIT) as u64 }
        }
    }

    /// The number with its sign cleared.
    pub open spec fn spec_abs(self) -> Scalar {
        Scalar { bits: self.magnitude() as u64 }
    }

    /// The exponent field, that of a subnormal number counted as 1.
    pub open spec fn exponent(self) -> int {
        if self.magnitude() / (FRACTION_SPAN as int) == 0 {
            1
        } else {
            self.magnitude() / (FRACTION_SPAN as int)
        }
    }

    /// The significand, with the leading one of a normal number: a finite
    /// number has the magnitude `significand * 2^(exponent - 1075)`.
    pub open spec fn significand(self) -> int {
        if self.magnitude() / (FRACTION_SPAN as int) == 0 {
            self.magnitude()
        } else {
            FRACTION_SPAN + self.magnitude() % (FRACTION_SPAN as int)
        }
    }

    /// The number times `2^1074`, which is an integer: the signed
    /// significand times `2^(exponent - 1)`. An infinity stands here as
    /// `2^1024`, beyond every finite number.
    pub open spec fn scaled(self) -> int {
        if self.sign() {
            -(self.significand() * pow2((self.exponent() - 1) as nat))
        } else {
            self.significand() * pow2((self.exponent() - 1) as nat)
        }
    }

    /// The whole part of the magnitude of a number that is not a NaN.
    /// For an infinity it is some number of at least `2^1023`.
    pub open spec fn whole(self) -> int {
        if self.exponent() >= 1075 {
            self.significand() * pow2((self.exponent() - 1075) as nat)
        } else {
            self.significand() / (pow2((1075 - self.exponent()) as nat) as int)
        }
    }

    /// The number as a 32-bit integer: cut towards zero, held to the
    /// integer's range, and 0 for a NaN.
    pub open spec fn spec_truncate(self) -> int {
        if self.nan() {
            0
        } else if self.sign() {
            if self.whole() > 0x8000_0000 {
                -0x8000_0000
            } else {
                -self.whole()
            }
        } else {
            if self.whole() > 0x7FFF_FFFF {
                0x7FFF_FFFF
            } else {
                self.whole()
            }
        }
    }

    /// The number with the pattern given.
    pub fn from_bits(bits: u64) -> (s: Scalar)
        ensures
            s.bits == bits,
    {
        Scalar { bits }
    }

    /// The number's pattern.
    pub fn to_bits(self) -> (bits: u64)
        ensures
            bits == self.bits,
    {
        self.bits
    }

    /// Positive zero.
    pub fn zero() -> (s: Scalar)
        ensures
            s.bits == 0,
            !s.nan(),
            s.rank() == 0,
    {
        Scalar { bits: 0 }
    }

    /// The number one.
    pub fn one() -> (s: Scalar)
        ensures
            s.bits == ONE_BITS,
            !s.nan(),
            s.rank() == ONE_BITS,
    {
        Scalar { bits: ONE_BITS }
    }

    /// Positive infinity.
    pub fn infinity() -> (s: Scalar)
        ensures
            s.bits == INFINITY_BITS,
            !s.nan(),
            forall|x: Scalar| !x.nan() ==> x.rank() <= s.rank(),
    {
        Scalar { bits: INFINITY_BITS }
    }

    fn magnitude_bits(self) -> (m: u64)
        ensures
            m == self.magnitude(),
            m < SIGN_BIT,
    {
        if self.bits >= SIGN_BIT {
            self.bits - SIGN_BIT
        } else {
            self.bits
        }
    }

    /// Whether this is not a number.
    pub fn is_nan(self) -> (r: bool)
        ensures
            r == self.nan(),
    {
        self.magnitude_bits() > INFINITY_BITS
    }

    /// Whether this number is less than the other.
    pub fn lt(self, other: Scalar) -> (r: bool)
        ensures
            r == self.spec_lt(other),
    {
        if self.is_nan() || other.is_nan() {
            return false;
        }
        let a: u64 = self.magnitude_bits();
        let b: u64 = other.magnitude_bits();
        if self.bits >= SIGN_BIT {
            if other.bits >= SIGN_BIT {
                b < a
            } else {
                a > 0 || b > 0
            }
        } else {
            if other.bits >= SIGN_BIT {
                false
            } else {
                a < b
            }
        }
    }

    /// Whether this number is at most the other.
    pub fn le(self, other: Scalar) -> (r: bool)
        ensures
            r == self.spec_le(other),
    {
        if self.is_nan() || other.is_nan() {
            return false;
        }
        !other.lt(self)
    }

    /// Whether this number is greater than the other.
    pub fn gt(self, other: Scalar) -> (r: bool)
        ensures
            r == self.spec_gt(other),
    {
        other.lt(self)
    }

    /// The number with the opposite sign, a NaN and a zero included.
    pub fn neg(self) -> (r: Scalar)
        ensures
            r == self.spec_neg(),
            r.nan() == self.nan(),
            r.rank() == -self.rank(),
    {
        if self.bits >= SIGN_BIT {
            Scalar { bits: self.bits - SIGN_BIT }
        } else {
            Scalar { bits: self.bits + SIGN_BIT }
        }
    }

    /// The number as a 32-bit integer.
    pub fn truncate(self) -> (r: i32)
        ensures
            r == self.spec_truncate(),
            !self.nan() && self.rank() <= -ONE_BITS ==> r <= -1,
            !self.nan() && -ONE_BITS < self.rank() < ONE_BITS ==> r == 0,
            !self.nan() && self.rank() >= ONE_BITS ==> r >= 1,
    {
        if self.is_nan() {
            return 0;
        }
        let m: u64 = self.magnitude_bits();
        let e: u64 = m / FRACTION_SPAN;
        let s: u64 = if e == 0 {
            m
        } else {
            FRACTION_SPAN + m % FRACTION_SPAN
        };
        proof {
            lemma2_to64();
            lemma2_to64_rest();
            assert(e <= 2047);
            assert(s == self.significand());
        }
        if e < 1023 {
            proof {
                let k = (1075 - self.exponent()) as nat;
                if k > 53 {
                    lemma_pow2_strictly_increases(53, k);
                }
                lemma_basic_div(s as int, pow2(k) as int);
            }
            return 0;
        }
        if e >= 1054 {
            proof {
                if e >= 1075 {
                    let p = pow2((e - 1075) as nat) as int;
                    lemma_pow2_pos((e - 1075) as nat);
                    assert(s * p >= s) by (nonlinear_arith)
                        requires
                            s >= 0,
                            p >= 1,
                    ;
                } else {
                    let k = (1075 - e) as nat;
                    if k < 21 {
                        lemma_pow2_strictly_increases(k, 21);
                    }
                    lemma_pow2_pos(k);
                    lemma_div_is_ordered_by_denominator(s as int, pow2(k) as int, pow2(21) as int);
                }
            }
            return if self.bits >= SIGN_BIT {
                i32::MIN
            } else {
                i32::MAX
            };
        }
        let k: u64 = 1075 - e;
        let q: u64 = s >> k;
        proof {
            lemma_u64_shr_is_div(s, k);
            if k > 22 {
                lemma_pow2_strictly_increases(22, k as nat);
            }
            if k < 52 {
                lemma_pow2_strictly_increases(k as nat, 52);
            }
            lemma_div_is_ordered_by_denominator(s as int, pow2(22) as int, pow2(k as nat) as int);
            lemma_div_is_ordered_by_denominator(s as int, pow2(k as nat) as int, pow2(52) as int);
            assert(1 <= q < 0x8000_0000);
        }
        if self.bits >= SIGN_BIT {
            -(q as i32)
        } else {
            q as i32
        }
    }

    /// The number without its sign.
    pub fn abs(self) -> (r: Scalar)
        ensures
            r == self.spec_abs(),
            r.nan() == self.nan(),
            r.rank() == self.magnitude(),
    {
        Scalar { bits: self.magnitude_bits() }
    }
}

/// Among magnitudes, a larger pattern is a larger number.
proof fn lemma_magnitude_orders_values(a: Scalar, b: Scalar)
    requires
        !a.sign(),
        !b.sign(),
        a.bits < b.bits,
    ensures
        a.scaled() < b.scaled(),
{
    let ea = a.exponent();
    let eb = b.exponent();
    let sa = a.significand();
    let sb = b.significand();
    let pa = pow2((ea - 1) as nat) as int;
    let pb = pow2((eb - 1) as nat) as int;
    lemma_pow2_pos((ea - 1) as nat);
    assert(1 <= ea <= eb);
    assert(0 <= sa < 2 * FRACTION_SPAN);
    if ea == eb {
        assert(sa < sb);
        assert(sa * pa < sb * pa) by (nonlinear_arith)
            requires
                sa < sb,
                pa > 0,
        ;
    } else {
        let d = pow2((eb - ea) as nat) as int;
        lemma_pow2_adds((ea - 1) as nat, (eb - ea) as nat);
        lemma_pow2_strictly_increases(0, (eb - ea) as nat);
        lemma2_to64();
        assert(pb == pa * d);
        assert(sb >= FRACTION_SPAN);
        assert(sa * pa < sb * (pa * d)) by (nonlinear_arith)
            requires
                0 <= sa < 2 * sb,
                d >= 2,
                pa > 0,
        ;
    }
}

/// The rank orders the numbers as their values do: of two patterns that
/// are not NaN, one has the lower rank exactly when it is the lesser number.
pub proof fn lemma_rank_orders_values(a: Scalar, b: Scalar)
    requires
        !a.nan(),
        !b.nan(),
    ensures
        a.rank() < b.rank() <==> a.scaled() < b.scaled(),
        a.rank() == b.rank() <==> a.scaled() == b.scaled(),
{
    let ma = a.spec_abs();
    let mb = b.spec_abs();
    assert(ma.significand() == a.significand() && ma.exponent() == a.exponent());
    assert(mb.significand() == b.significand() && mb.exponent() == b.exponent());
    lemma_pow2_pos((a.exponent() - 1) as nat);
    lemma_pow2_pos((b.exponent() - 1) as nat);
    assert(ma.scaled() >= 0 && (ma.scaled() == 0 <==> ma.bits == 0)) by (nonlinear_arith)
        requires
            ma.scaled() == ma.significand() * pow2((ma.exponent() - 1) as nat),
            ma.significand() >= 0,
            ma.significand() == 0 <==> ma.bits == 0,
            pow2((ma.exponent() - 1) as nat) > 0,
    ;
    assert(mb.scaled() >= 0 && (mb.scaled() == 0 <==> mb.bits == 0)) by (nonlinear_arith)
        requires
            mb.scaled() == mb.significand() * pow2((mb.exponent() - 1) as nat),
            mb.significand() >= 0,
            mb.significand() == 0 <==> mb.bits == 0,
            pow2((mb.exponent() - 1) as nat) > 0,
    ;
    if ma.bits < mb.bits {
        lemma_magnitude_orders_values(ma, mb);
    } else if mb.bits < ma.bits {
        lemma_magnitude_orders_values(mb, ma);
    }
}

/// `<` is a strict order that agrees with `<=`: it holds in one direction
/// at most and of no number with itself, it is transitive, also across a
/// `<=`, and `a <= b` says of two numbers that `b < a` fails. Flipping the
/// sign twice gives the pattern back.
pub proof fn lemma_order(a: Scalar, b: Scalar, c: Scalar)
    ensures
        !(a.spec_lt(b) && b.spec_lt(a)),
        !a.spec_lt(a),
        a.spec_lt(b) && b.spec_lt(c) ==> a.spec_lt(c),
        a.spec_lt(b) && b.spec_le(c) ==> a.spec_lt(c),
        a.spec_le(b) <==> (!a.nan() && !b.nan() && !b.spec_lt(a)),
        a.spec_neg().spec_neg() == a,
{
}

} // verus!
