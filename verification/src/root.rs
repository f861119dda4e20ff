//! The square root of a number, rounded to the nearest binary64 number.

use vstd::prelude::*;
use vstd::arithmetic::power2::{
    lemma2_to64, lemma2_to64_rest, lemma_pow2_adds, lemma_pow2_pos, lemma_pow2_strictly_increases,
    lemma_pow2_unfold, pow2,
};
use crate::scalar::{Scalar, FRACTION_SPAN, INFINITY_BITS};

verus! {

/// The largest integer whose square does not exceed `t`.
fn integer_root(t: u128) -> (r: u64)
    requires
        t < 0x400_0000_0000_0000_0000_0000_0000,
    ensures
        r * r <= t < (r + 1) * (r + 1),
        r < 0x20_0000_0000_0000,
{
    let mut r: u64 = 0;
    let mut w: u64 = 0x20_0000_0000_0000;
    let ghost mut k: nat = 53;
    proof {
        lemma2_to64_rest();
        assert((0 + 0x20_0000_0000_0000int) * (0 + 0x20_0000_0000_0000int)
            == 0x400_0000_0000_0000_0000_0000_0000int) by (nonlinear_arith);
    }
    while w > 1
        invariant
            w == pow2(k),
            k <= 53,
            w >= 1,
            r + w <= 0x20_0000_0000_0000,
            r * r <= t < (r + w) * (r + w),
        decreases w,
    {
        proof {
            lemma2_to64();
            if k > 0 {
                lemma_pow2_unfold(k);
            }
        }
        let b: u64 = w / 2;
        let c: u64 = r + b;
        assert(c * c <= 0x400_0000_0000_0000_0000_0000_0000) by (nonlinear_arith)
            requires
                0 <= c <= 0x20_0000_0000_0000,
        ;
        let square: u128 = (c as u128) * (c as u128);
        if square <= t {
            r = c;
        }
        w = b;
        proof {
            k = (k - 1) as nat;
        }
    }
    r
}

/// Of two roots of one number, the first has no smaller pattern than the
/// second: else the number would lie both below the midpoint above the
/// first and above the midpoint below the second, which is no smaller.
proof fn lemma_root_is_not_below(a: Scalar, b: Scalar, x: Scalar)
    requires
        a.is_root_of(x),
        b.is_root_of(x),
    ensures
        a.bits >= b.bits,
{
    let ra = a.significand();
    let rb = b.significand();
    let ea = a.exponent();
    let eb = b.exponent();
    let pa = pow2((2 * ea) as nat) as int;
    let pb = pow2((2 * eb) as nat) as int;
    let w = x.wide();
    lemma_pow2_pos((2 * ea) as nat);
    assert(ra < 2 * FRACTION_SPAN && rb < 2 * FRACTION_SPAN);
    if a.bits < b.bits && ea == eb {
        assert(rb >= ra + 1);
        assert(false) by (nonlinear_arith)
            requires
                rb >= ra + 1,
                ra >= 0x10_0000_0000_0000,
                pa > 0,
                4 * w < (2 * ra + 1) * (2 * ra + 1) * pa,
                (2 * rb - 1) * (2 * rb - 1) * pa < 4 * w,
        ;
    } else if a.bits < b.bits {
        assert(ea < eb);
        let d = pow2((eb - ea) as nat) as int;
        let dd = pow2((2 * (eb - ea)) as nat) as int;
        lemma_pow2_adds((2 * ea) as nat, (2 * (eb - ea)) as nat);
        lemma_pow2_adds((eb - ea) as nat, (eb - ea) as nat);
        lemma_pow2_strictly_increases(0, (eb - ea) as nat);
        lemma2_to64();
        assert(pb == pa * dd);
        assert(dd >= 4) by (nonlinear_arith)
            requires
                dd == d * d,
                d >= 2,
        ;
        // With g the doubled midpoint below `b` and h that above `a`, in
        // units of the gaps: g * g * dd < h * h, yet 2 * g >= h.
        let g = if rb == FRACTION_SPAN {
            4 * rb - 1
        } else {
            2 * rb - 1
        };
        let h = if rb == FRACTION_SPAN {
            4 * ra + 2
        } else {
            2 * ra + 1
        };
        assert(h * h == if rb == FRACTION_SPAN {
            4 * ((2 * ra + 1) * (2 * ra + 1))
        } else {
            (2 * ra + 1) * (2 * ra + 1)
        }) by (nonlinear_arith)
            requires
                h == if rb == FRACTION_SPAN {
                    4 * ra + 2
                } else {
                    2 * ra + 1
                },
        ;
        assert(g * g * dd < h * h) by (nonlinear_arith)
            requires
                pa > 0,
                pb == pa * dd,
                4 * w < (2 * ra + 1) * (2 * ra + 1) * pa,
                rb == FRACTION_SPAN ==> g * g * pb < 16 * w && h * h == 4 * ((2 * ra + 1) * (2 * ra
                    + 1)),
                rb != FRACTION_SPAN ==> g * g * pb < 4 * w && h * h == (2 * ra + 1) * (2 * ra + 1),
        ;
        assert(g * g * dd >= (2 * g) * (2 * g)) by (nonlinear_arith)
            requires
                dd >= 4,
        ;
        assert((2 * g) * (2 * g) >= h * h) by (nonlinear_arith)
            requires
                2 * g >= h,
                h >= 0,
        ;
        assert(false);
    }
}

/// A positive finite number has one nearest number to its square root.
pub proof fn lemma_root_is_unique(a: Scalar, b: Scalar, x: Scalar)
    requires
        a.is_root_of(x),
        b.is_root_of(x),
    ensures
        a == b,
{
    lemma_root_is_not_below(a, b, x);
    lemma_root_is_not_below(b, a, x);
}

impl Scalar {
    /// The magnitude of the number times `2^2150`, which is an integer.
    pub open spec fn wide(self) -> int {
        self.significand() * pow2((self.exponent() + 1075) as nat)
    }

    /// This number is, of all binary64 numbers, the nearest to the square
    /// root of `x`, a positive finite number: it is positive, finite and
    /// normal, and the root lies within half the gap to its neighbours on
    /// either side. Below a power of two the gap is half as wide.
    pub open spec fn is_root_of(self, x: Scalar) -> bool {
        let r = self.significand();
        let p = pow2((2 * self.exponent()) as nat);
        &&& !self.sign()
        &&& self.magnitude() < INFINITY_BITS
        &&& r >= FRACTION_SPAN
        &&& 4 * x.wide() < (2 * r + 1) * (2 * r + 1) * p
        &&& if r == FRACTION_SPAN {
            (4 * r - 1) * (4 * r - 1) * p < 16 * x.wide()
        } else {
            (2 * r - 1) * (2 * r - 1) * p < 4 * x.wide()
        }
    }

    /// The square root of a positive number, rounded to the nearest
    /// number. That of infinity is infinity.
    pub fn sqrt(self) -> (root: Scalar)
        requires
            self.spec_gt(Scalar { bits: 0 }),
        ensures
            self.bits == INFINITY_BITS ==> root.bits == INFINITY_BITS,
            self.bits != INFINITY_BITS ==> root.is_root_of(self),
    {
        if self.bits == INFINITY_BITS {
            return self;
        }
        let e: u64 = self.bits / FRACTION_SPAN;
        let f: u64 = self.bits % FRACTION_SPAN;
        let mut s: u64 = if e == 0 {
            f
        } else {
            FRACTION_SPAN + f
        };
        let mut z: u64 = 0;
        proof {
            lemma2_to64();
            lemma2_to64_rest();
            assert(s == self.significand());
            assert(s * pow2(0) == s) by (nonlinear_arith)
                requires
                    pow2(0) == 1,
            ;
        }
        while s < FRACTION_SPAN
            invariant
                s == self.significand() * pow2(z as nat),
                self.significand() >= 1,
                0 < s < 2 * FRACTION_SPAN,
                z <= 52,
                e > 0 ==> z == 0 && s >= FRACTION_SPAN,
            decreases 2 * FRACTION_SPAN - s,
        {
            proof {
                lemma2_to64_rest();
                lemma_pow2_unfold((z + 1) as nat);
                lemma_pow2_pos(z as nat);
                if z >= 52 {
                    if z > 52 {
                        lemma_pow2_strictly_increases(52, z as nat);
                    }
                    assert(self.significand() * pow2(z as nat) >= pow2(z as nat))
                        by (nonlinear_arith)
                        requires
                            self.significand() >= 1,
                            pow2(z as nat) > 0,
                    ;
                    assert(false);
                }
                assert(self.significand() * (2 * pow2(z as nat)) == 2 * (self.significand() * pow2(
                    z as nat,
                ))) by (nonlinear_arith);
            }
            s = s * 2;
            z = z + 1;
        }
        let ex: u64 = if e == 0 {
            1
        } else {
            e
        };
        let n: u64 = ex + 52 - z;
        let odd: bool = n % 2 == 1;
        let m: u64 = if odd {
            s
        } else {
            2 * s
        };
        assert(m * 0x10_0000_0000_0000 < 0x400_0000_0000_0000_0000_0000_0000) by (nonlinear_arith)
            requires
                0 <= m < 0x40_0000_0000_0000,
        ;
        assert(m * 0x10_0000_0000_0000 >= 0x100_0000_0000_0000_0000_0000_0000) by (nonlinear_arith)
            requires
                m >= 0x10_0000_0000_0000,
        ;
        let t: u128 = (m as u128) * 0x10_0000_0000_0000u128;
        let low: u64 = integer_root(t);
        assert(low >= 0x10_0000_0000_0000) by (nonlinear_arith)
            requires
                t >= 0x100_0000_0000_0000_0000_0000_0000,
                t < (low + 1) * (low + 1),
                low >= 0,
        ;
        assert(low * low < 0x400_0000_0000_0000_0000_0000_0000) by (nonlinear_arith)
            requires
                0 <= low < 0x20_0000_0000_0000,
        ;
        let rest: u128 = t - (low as u128) * (low as u128);
        let mut r: u64 = if rest > low as u128 {
            low + 1
        } else {
            low
        };
        // The root lies strictly between the midpoints on either side of `r`.
        assert((2 * r - 1) * (2 * r - 1) < 4 * t && 4 * t < (2 * r + 1) * (2 * r + 1))
            by (nonlinear_arith)
            requires
                low * low <= t < (low + 1) * (low + 1),
                rest == t - low * low,
                rest > low ==> r == low + 1,
                rest <= low ==> r == low,
                low >= 1,
        ;
        let mut er: u64 = (n + 971) / 2;
        let ghost wide = self.wide();
        let ghost p = pow2((2 * er) as nat) as int;
        proof {
            // The number, scaled, is `t` times the square of the root's unit.
            let sx = self.significand();
            lemma_pow2_pos((2 * er) as nat);
            lemma_pow2_adds(z as nat, 52);
            lemma_pow2_adds((z + 52) as nat, (2 * er) as nat);
            lemma_pow2_unfold((self.exponent() + 1075) as nat);
            let pz = pow2(z as nat) as int;
            let p52 = pow2(52) as int;
            assert(p52 == 0x10_0000_0000_0000);
            if odd {
                assert(z + 52 + 2 * er == self.exponent() + 1075);
                assert(wide == t * p) by (nonlinear_arith)
                    requires
                        wide == sx * pow2((self.exponent() + 1075) as nat),
                        pow2((self.exponent() + 1075) as nat) == pow2((z + 52) as nat) * p,
                        pow2((z + 52) as nat) == pz * p52,
                        s == sx * pz,
                        t == s * p52,
                ;
            } else {
                assert(z + 52 + 2 * er + 1 == self.exponent() + 1075);
                assert(wide == t * p) by (nonlinear_arith)
                    requires
                        wide == sx * pow2((self.exponent() + 1075) as nat),
                        pow2((self.exponent() + 1075) as nat) == 2 * (pow2((z + 52) as nat) * p),
                        pow2((z + 52) as nat) == pz * p52,
                        s == sx * pz,
                        t == (2 * s) * p52,
                ;
            }
        }
        if r == 0x20_0000_0000_0000 {
            r = FRACTION_SPAN;
            er = er + 1;
        }
        let root = Scalar { bits: er * FRACTION_SPAN + (r - FRACTION_SPAN) };
        proof {
            assert(root.significand() == r);
            assert(root.exponent() == er);
            let q = pow2((2 * root.exponent()) as nat) as int;
            if er * 2 == 2 * ((n + 971) / 2) {
                assert(q == p);
                assert(4 * wide < (2 * r + 1) * (2 * r + 1) * q) by (nonlinear_arith)
                    requires
                        wide == t * q,
                        q > 0,
                        4 * t < (2 * r + 1) * (2 * r + 1),
                ;
                if r == FRACTION_SPAN {
                    assert((4 * r - 1) * (4 * r - 1) * q < 16 * wide) by (nonlinear_arith)
                        requires
                            wide == t * q,
                            q > 0,
                            r == 0x10_0000_0000_0000,
                            t >= 0x100_0000_0000_0000_0000_0000_0000,
                    ;
                } else {
                    assert((2 * r - 1) * (2 * r - 1) * q < 4 * wide) by (nonlinear_arith)
                        requires
                            wide == t * q,
                            q > 0,
                            (2 * r - 1) * (2 * r - 1) < 4 * t,
                    ;
                }
            } else {
                lemma_pow2_unfold((2 * er) as nat);
                lemma_pow2_unfold((2 * er - 1) as nat);
                assert(q == 4 * p);
                assert(4 * wide < (2 * r + 1) * (2 * r + 1) * q) by (nonlinear_arith)
                    requires
                        wide == t * p,
                        q == 4 * p,
                        p > 0,
                        r == 0x10_0000_0000_0000,
                        t < 0x400_0000_0000_0000_0000_0000_0000,
                ;
                assert((4 * r - 1) * (4 * r - 1) * q < 16 * wide) by (nonlinear_arith)
                    requires
                        wide == t * p,
                        q == 4 * p,
                        p > 0,
                        r == 0x10_0000_0000_0000,
                        (2 * 0x20_0000_0000_0000 - 1) * (2 * 0x20_0000_0000_0000 - 1) < 4 * t,
                ;
            }
        }
        root
    }
}

} // verus!
