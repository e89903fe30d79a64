//! What the order of numbers and their conversion come to, said of the bit
//! patterns.

use vstd::arithmetic::power2::{lemma2_to64, lemma_pow2_adds, lemma_pow2_pos, pow2};
use vstd::prelude::*;
use crate::num::{Num, SMALLEST_MOVE_BITS};

verus! {

/// The exponent field of a pattern.
pub open spec fn exponent_field(n: Num) -> int {
    (n.bits as int / 0x80_0000) % 256
}

/// The fraction field of a pattern.
pub open spec fn fraction_field(n: Num) -> int {
    n.bits as int % 0x80_0000
}

/// A pattern is not a number where its exponent field is full and its fraction
/// field is not empty.
pub proof fn law_nan(n: Num)
    ensures
        n.is_nan() <==> exponent_field(n) == 255 && fraction_field(n) != 0,
{
    let b = n.bits as int;
    let m = b % 0x8000_0000;
    assert(exponent_field(n) == m / 0x80_0000);
    assert(fraction_field(n) == m % 0x80_0000);
}

/// The order of numbers: of two without a sign the one with the smaller pattern
/// is smaller, of two with a sign the one with the greater pattern is, and one
/// with a sign is smaller than one without, unless both are zero. What is not a
/// number is not smaller than anything, nor is anything smaller than it.
pub proof fn law_less(a: Num, b: Num)
    ensures
        a.is_nan() || b.is_nan() ==> !a.less(b) && !a.at_most(b),
        !a.is_nan() && !b.is_nan() ==> {
            &&& a.bits < 0x8000_0000 && b.bits < 0x8000_0000 ==> (a.less(b) <==> a.bits < b.bits)
            &&& a.bits >= 0x8000_0000 && b.bits >= 0x8000_0000 ==> (a.less(b) <==> b.bits
                < a.bits)
            &&& a.bits >= 0x8000_0000 && b.bits < 0x8000_0000 ==> (a.less(b) <==> !(a.bits
                == 0x8000_0000 && b.bits == 0))
            &&& a.bits < 0x8000_0000 && b.bits >= 0x8000_0000 ==> !a.less(b)
            &&& a.at_most(b) <==> !b.less(a)
        },
{
}

/// The order is one: nothing is smaller than itself, and what is smaller than a
/// smaller number is smaller.
pub proof fn law_order(a: Num, b: Num, c: Num)
    ensures
        !a.less(a),
        a.less(b) && b.less(c) ==> a.less(c),
        a.at_most(b) && b.at_most(c) ==> a.at_most(c),
        a.less(b) ==> a.at_most(b) && !b.at_most(a),
{
}

/// A number within a range is left as it is by clamping it; one below the range
/// becomes the lower end, one above it the upper end.
pub proof fn law_clamped(n: Num, lo: Num, hi: Num)
    requires
        lo.at_most(hi),
    ensures
        lo.at_most(n) && n.at_most(hi) ==> n.clamped(lo, hi) == n,
        n.less(lo) ==> n.clamped(lo, hi) == lo,
        hi.less(n) ==> n.clamped(lo, hi) == hi,
        n.is_nan() ==> n.clamped(lo, hi) == n,
{
}

/// The whole part of a number that is not negative: with the fraction cut off,
/// it is the greatest whole number that is not above the number. Below one it
/// is zero; from two to the 32nd on it is the greatest `u32`. What is negative
/// or not a number gives zero.
pub proof fn law_saturated(n: Num)
    ensures
        n.bits >= 0x8000_0000 || n.is_nan() ==> n.saturated_u32() == 0,
        n.bits < 0x8000_0000 && !n.is_nan() ==> ({
            let e = exponent_field(n);
            let s = 0x80_0000 + fraction_field(n);
            let r = n.saturated_u32();
            &&& e < 127 ==> r == 0
            &&& 127 <= e < 150 ==> r * pow2((150 - e) as nat) <= s < (r + 1) * pow2(
                (150 - e) as nat,
            )
            &&& 150 <= e < 159 ==> r == s * pow2((e - 150) as nat)
            &&& 159 <= e ==> r == u32::MAX
        }),
{
    lemma2_to64();
    let b = n.bits as int;
    if b < 0x8000_0000 && !n.is_nan() {
        let e = exponent_field(n);
        let s = 0x80_0000 + fraction_field(n);
        assert(n.magnitude() == b);
        assert(n.exponent() == e);
        if e >= 159 {
            if e < 255 {
                lemma_pow2_adds(9, (e - 159) as nat);
                lemma_pow2_pos((e - 159) as nat);
                let p = pow2((e - 159) as nat) as int;
                assert(s * (512 * p) >= 0x1_0000_0000) by (nonlinear_arith)
                    requires
                        s >= 0x80_0000,
                        p >= 1,
                ;
            }
        } else if e >= 150 {
            let p = pow2((e - 150) as nat) as int;
            let k = (158 - e) as nat;
            lemma_pow2_adds((e - 150) as nat, k);
            lemma_pow2_pos(k);
            let q = pow2(k) as int;
            assert(p <= 256) by (nonlinear_arith)
                requires
                    p * q == 256,
                    q >= 1,
            ;
            assert(s * p < 0x1_0000_0000) by (nonlinear_arith)
                requires
                    0 <= s < 0x100_0000,
                    p <= 256,
            ;
        } else if e >= 127 {
            let p = pow2((150 - e) as nat) as int;
            lemma_pow2_pos((150 - e) as nat);
            let r = s / p;
            assert(r * p <= s < (r + 1) * p && r <= s) by (nonlinear_arith)
                requires
                    r == s / p,
                    p >= 1,
                    s >= 0,
            ;
            assert(n.saturated_u32() == r);
        } else {
            let m = if e == 0 {
                1int
            } else {
                e
            };
            let sig = n.significand();
            lemma_pow2_adds(24, (126 - m) as nat);
            lemma_pow2_pos((126 - m) as nat);
            let q = pow2((126 - m) as nat) as int;
            assert(sig < 0x100_0000 * q) by (nonlinear_arith)
                requires
                    sig < 0x100_0000,
                    q >= 1,
            ;
            assert(sig / (0x100_0000 * q) == 0) by (nonlinear_arith)
                requires
                    0 <= sig < 0x100_0000 * q,
            ;
        }
    }
}

/// A whole number from one to two to the 24th is its own whole part.
pub proof fn law_whole_number_is_kept(n: Num, k: int)
    requires
        stands_for(n, k),
    ensures
        n.saturated_u32() == k,
{
    law_saturated(n);
    let e = exponent_field(n);
    let p = pow2((150 - e) as nat) as int;
    lemma_pow2_pos((150 - e) as nat);
    lemma2_to64();
    let r = n.saturated_u32();
    assert(n.is_nan() ==> e == 255) by {
        law_nan(n);
    }
    if e < 150 {
        assert(r == k) by (nonlinear_arith)
            requires
                r * p <= k * p < (r + 1) * p,
                p >= 1,
        ;
    } else {
        assert(p == 1);
        assert(pow2(0) == 1);
        assert(r == k) by (nonlinear_arith)
            requires
                r == (k * p) * 1,
                p == 1,
        ;
    }
}

/// The pattern stands for the whole number `k`: its significand, scaled by its
/// exponent, is `k` with nothing left over.
pub open spec fn stands_for(n: Num, k: int) -> bool {
    &&& n.bits < 0x8000_0000
    &&& 127 <= exponent_field(n) <= 150
    &&& 0x80_0000 + fraction_field(n) == k * pow2((150 - exponent_field(n)) as nat)
}

/// The shortest move is a hundredth of a millimetre: no number between it and
/// the next one above it is closer to a hundredth from below.
pub proof fn law_smallest_move()
    ensures
        ({
            let n = Num { bits: SMALLEST_MOVE_BITS };
            let s = 0x80_0000 + fraction_field(n);
            &&& exponent_field(n) == 120
            &&& 100 * s <= pow2(30) < 100 * (s + 1)
            &&& !n.is_nan()
        }),
{
    lemma2_to64();
}

} // verus!
