//! Single-precision numbers, carried by their IEEE 754 bit patterns.
//!
//! Arithmetic, reading and printing of these numbers are left to the caller;
//! what the control logic itself needs of them is their order and their
//! conversion to a whole number.

use vstd::arithmetic::power2::pow2;
use vstd::arithmetic::power2::{lemma2_to64, lemma_pow2_adds, lemma_pow2_pos};
use vstd::prelude::*;

verus! {

/// A single-precision number. Two of them are equal where their bit patterns are.
#[derive(Clone, Copy, Debug, PartialEq, Eq, Structural)]
pub struct Num {
    pub bits: u32,
}

/// The pattern of `0.0`.
pub const ZERO_BITS: u32 = 0;

/// The pattern of `0.01`: a move shorter than this is not worth sending.
pub const SMALLEST_MOVE_BITS: u32 = 0x3c23_d70a;

impl Num {
    /// The bit pattern without the sign.
    pub open spec fn magnitude(self) -> int {
        self.bits as int % 0x8000_0000
    }

    /// The sign bit is set.
    pub open spec fn negative(self) -> bool {
        self.bits >= 0x8000_0000
    }

    /// The biased exponent.
    pub open spec fn exponent(self) -> int {
        self.magnitude() / 0x80_0000
    }

    /// The significand, with the leading bit that normal numbers leave out.
    pub open spec fn significand(self) -> int {
        let fraction = self.magnitude() % 0x80_0000;
        if self.exponent() == 0 {
            fraction
        } else {
            0x80_0000 + fraction
        }
    }

    /// The pattern is not that of a number.
    pub open spec fn is_nan(self) -> bool {
        self.magnitude() > 0x7f80_0000
    }

    /// An integer by which numbers are ordered: of two patterns that are
    /// numbers, the one with the smaller rank is the smaller number, and
    /// numbers of one rank are equal.
    pub open spec fn rank(self) -> int {
        if self.negative() {
            -self.magnitude()
        } else {
            self.magnitude()
        }
    }

    /// `self < other`, which holds of nothing that is not a number.
    pub open spec fn less(self, other: Num) -> bool {
        !self.is_nan() && !other.is_nan() && self.rank() < other.rank()
    }

    /// `self <= other`, which holds of nothing that is not a number.
    pub open spec fn at_most(self, other: Num) -> bool {
        !self.is_nan() && !other.is_nan() && self.rank() <= other.rank()
    }

    /// `self`, moved to the nearer end of the range where it lies outside.
    pub open spec fn clamped(self, lo: Num, hi: Num) -> Num {
        if self.less(lo) {
            lo
        } else if hi.less(self) {
            hi
        } else {
            self
        }
    }

    /// The absolute value is less than `other`.
    pub open spec fn abs_less(self, other: Num) -> bool {
        !self.is_nan() && !other.is_nan() && self.magnitude() < other.rank()
    }

    /// The whole part of the absolute value of a finite number: its
    /// significand, scaled by a power of two that the exponent gives.
    pub open spec fn whole_part(self) -> int {
        let e = if self.exponent() == 0 {
            1
        } else {
            self.exponent()
        };
        if e >= 150 {
            self.significand() * pow2((e - 150) as nat)
        } else {
            self.significand() / pow2((150 - e) as nat) as int
        }
    }

    /// The nearest `u32` toward zero: 0 below the range and where there is no
    /// number, the greatest `u32` above the range.
    pub open spec fn saturated_u32(self) -> int {
        if self.is_nan() || self.negative() {
            0
        } else if self.exponent() == 255 || self.whole_part() > u32::MAX {
            u32::MAX as int
        } else {
            self.whole_part()
        }
    }

    /// Whether the pattern is not that of a number.
    pub fn nan(self) -> (r: bool)
        ensures
            r == self.is_nan(),
    {
        self.bits % 0x8000_0000 > 0x7f80_0000
    }

    /// The integer by which numbers are ordered.
    fn order(self) -> (r: i64)
        ensures
            r == self.rank(),
    {
        let m: i64 = (self.bits % 0x8000_0000) as i64;
        if self.bits >= 0x8000_0000 {
            -m
        } else {
            m
        }
    }

    /// Whether `self < other`.
    pub fn lt(self, other: Num) -> (r: bool)
        ensures
            r == self.less(other),
    {
        !self.nan() && !other.nan() && self.order() < other.order()
    }

    /// Whether `self <= other`.
    pub fn le(self, other: Num) -> (r: bool)
        ensures
            r == self.at_most(other),
    {
        !self.nan() && !other.nan() && self.order() <= other.order()
    }

    /// `self`, moved to the nearer end of the range where it lies outside.
    pub fn clamp(self, lo: Num, hi: Num) -> (r: Num)
        requires
            lo.at_most(hi),
        ensures
            r == self.clamped(lo, hi),
            !self.is_nan() ==> lo.at_most(r) && r.at_most(hi),
    {
        if self.lt(lo) {
            lo
        } else if hi.lt(self) {
            hi
        } else {
            self
        }
    }

    /// Whether the absolute value is less than `other`.
    pub fn abs_lt(self, other: Num) -> (r: bool)
        ensures
            r == self.abs_less(other),
    {
        !self.nan() && !other.nan() && ((self.bits % 0x8000_0000) as i64) < other.order()
    }

    /// The number as a `u32`, cut off toward zero and kept within the type.
    pub fn to_u32(self) -> (r: u32)
        ensures
            r == self.saturated_u32(),
    {
        if self.nan() || self.bits >= 0x8000_0000 {
            return 0;
        }
        let exponent: u32 = self.bits / 0x80_0000;
        let fraction: u32 = self.bits % 0x80_0000;
        let significand: u64 = 0x80_0000 + fraction as u64;
        assert(self.exponent() == exponent);
        if exponent == 255 {
            return u32::MAX;
        }
        proof {
            lemma2_to64();
        }
        if exponent >= 159 {
            proof {
                lemma_pow2_adds(9, (exponent - 159) as nat);
                lemma_pow2_pos((exponent - 159) as nat);
                let p = pow2((exponent - 159) as nat) as int;
                let s = self.significand();
                assert(s * (512 * p) >= 0x1_0000_0000) by (nonlinear_arith)
                    requires
                        s >= 0x80_0000,
                        p >= 1,
                ;
            }
            u32::MAX
        } else if exponent >= 150 {
            let p: u64 = power((exponent - 150) as u32);
            proof {
                let k = (158 - exponent) as nat;
                lemma_pow2_adds((exponent - 150) as nat, k);
                lemma_pow2_pos(k);
                assert(p <= 256) by (nonlinear_arith)
                    requires
                        p * pow2(k) == 256,
                        pow2(k) >= 1,
                ;
                assert(significand * p < 0x1_0000_0000) by (nonlinear_arith)
                    requires
                        0 <= significand < 0x100_0000,
                        0 <= p <= 256,
                ;
            }
            (significand * p) as u32
        } else if exponent >= 127 {
            let p: u64 = power((150 - exponent) as u32);
            proof {
                lemma_pow2_pos((150 - exponent) as nat);
                assert(significand / p <= significand) by (nonlinear_arith)
                    requires
                        p >= 1,
                ;
            }
            (significand / p) as u32
        } else {
            proof {
                let e = if exponent == 0 {
                    1int
                } else {
                    exponent as int
                };
                lemma_pow2_adds(24, (126 - e) as nat);
                lemma_pow2_pos((126 - e) as nat);
                let q = pow2((126 - e) as nat) as int;
                let s = self.significand();
                assert(s < 0x100_0000 * q) by (nonlinear_arith)
                    requires
                        s < 0x100_0000,
                        q >= 1,
                ;
                assert(s / (0x100_0000 * q) == 0) by (nonlinear_arith)
                    requires
                        0 <= s < 0x100_0000 * q,
                ;
            }
            0
        }
    }
}

/// The conversion to `u32` stays within the type.
pub proof fn lemma_saturated_range(n: Num)
    ensures
        0 <= n.saturated_u32() <= u32::MAX,
{
    let e = if n.exponent() == 0 {
        1
    } else {
        n.exponent()
    };
    let s = n.significand();
    assert(s >= 0);
    if e >= 150 {
        let p = pow2((e - 150) as nat) as int;
        assert(s * p >= 0) by (nonlinear_arith)
            requires
                s >= 0,
                p >= 0,
        ;
    } else {
        lemma_pow2_pos((150 - e) as nat);
        let p = pow2((150 - e) as nat) as int;
        assert(s / p >= 0) by (nonlinear_arith)
            requires
                s >= 0,
                p > 0,
        ;
    }
}

/// Two to the power `k`.
fn power(k: u32) -> (r: u64)
    requires
        k <= 24,
    ensures
        r == pow2(k as nat),
{
    let mut p: u64 = 1;
    let mut i: u32 = 0;
    proof {
        lemma2_to64();
    }
    while i < k
        invariant
            i <= k <= 24,
            p == pow2(i as nat),
            p <= 0x100_0000,
            pow2(1) == 2,
            pow2(24) == 0x100_0000,
        decreases k - i,
    {
        proof {
            lemma_pow2_adds(i as nat, 1);
            lemma_pow2_adds((i + 1) as nat, (23 - i) as nat);
            lemma_pow2_pos((23 - i) as nat);
            let a = pow2((i + 1) as nat) as int;
            let b = pow2((23 - i) as nat) as int;
            assert(a <= 0x100_0000) by (nonlinear_arith)
                requires
                    a * b == 0x100_0000,
                    b >= 1,
                    a >= 0,
            ;
        }
        p = p * 2;
        i += 1;
    }
    p
}

} // verus!
