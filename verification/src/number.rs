//! Numbers as IEEE-754 binary32 bit patterns: their value, their order and
//! their whole part. The sign is the top bit, the next eight bits are the
//! exponent and the low twenty-three the fraction.

use vstd::arithmetic::div_mod::{lemma_div_by_multiple, lemma_div_multiples_vanish_quotient};
use vstd::arithmetic::power2::{
    lemma2_to64, lemma2_to64_rest, lemma_pow2_adds, lemma_pow2_pos, lemma_pow2_strictly_increases,
    lemma_pow2_unfold, pow2,
};
use vstd::bits::{lemma_u64_shl_is_mul, lemma_u64_shr_is_div};
use vstd::prelude::*;

verus! {

/// The pattern with only the sign bit set: negative zero.
pub const SIGN: u32 = 0x8000_0000;

/// The pattern of positive infinity: every exponent bit, no fraction bit.
pub const INFINITY: u32 = 0x7f80_0000;

/// The number of values that the fraction field can take.
pub const FRACTIONS: u32 = 0x80_0000;

/// Whether the sign bit is set.
pub open spec fn is_negative(bits: u32) -> bool {
    bits >= SIGN
}

/// The pattern without its sign bit.
pub open spec fn magnitude(bits: u32) -> u32 {
    if bits >= SIGN {
        (bits - SIGN) as u32
    } else {
        bits
    }
}

/// Whether the pattern is no number: every exponent bit and some fraction
/// bit set.
pub open spec fn is_nan(bits: u32) -> bool {
    magnitude(bits) > INFINITY
}

/// The exponent field.
pub open spec fn exponent(bits: u32) -> nat {
    (magnitude(bits) / FRACTIONS) as nat
}

/// The digits of the number in base two: the fraction field, with a leading
/// one unless the exponent field is zero.
pub open spec fn significand(bits: u32) -> nat {
    if exponent(bits) == 0 {
        (magnitude(bits) % FRACTIONS) as nat
    } else {
        (magnitude(bits) % FRACTIONS + FRACTIONS) as nat
    }
}

/// The power of two that the last digit of the significand counts, in
/// units of 2^-149: one less than the exponent field, and 0 where that
/// field is zero.
pub open spec fn scale(bits: u32) -> nat {
    if exponent(bits) == 0 {
        0
    } else {
        (exponent(bits) - 1) as nat
    }
}

/// The size of the number without its sign, in units of 2^-149. Infinity
/// has the size that its pattern would have as a number: more than every
/// number.
pub open spec fn size(bits: u32) -> nat {
    significand(bits) * pow2(scale(bits))
}

/// The number, in units of 2^-149. Both zeros are 0.
pub open spec fn value(bits: u32) -> int {
    if is_negative(bits) {
        -(size(bits) as int)
    } else {
        size(bits) as int
    }
}

/// `a < b` as numbers: false as soon as one of them is no number.
pub open spec fn less(a: u32, b: u32) -> bool {
    !is_nan(a) && !is_nan(b) && value(a) < value(b)
}

/// `a == b` as numbers: the zeros are equal, and what is no number equals
/// nothing, itself included.
pub open spec fn same(a: u32, b: u32) -> bool {
    !is_nan(a) && !is_nan(b) && value(a) == value(b)
}

/// The whole part of the number without its sign.
pub open spec fn whole(bits: u32) -> nat {
    size(bits) / pow2(149)
}

/// The number as a count: its whole part, 0 for what is negative or no
/// number, and the largest count for what is larger, infinity included.
pub open spec fn count(bits: u32) -> usize {
    if is_negative(bits) || is_nan(bits) {
        0
    } else if whole(bits) > usize::MAX {
        usize::MAX
    } else {
        whole(bits) as usize
    }
}

/// The pattern read as an integer with a sign bit.
pub open spec fn rank(bits: u32) -> int {
    if is_negative(bits) {
        -(magnitude(bits) as int)
    } else {
        magnitude(bits) as int
    }
}

/// Of two patterns without sign, the larger pattern is the larger number.
pub proof fn lemma_size_grows(small: u32, large: u32)
    requires
        small < large < SIGN,
    ensures
        size(small) < size(large),
{
    let e1 = exponent(small);
    let e2 = exponent(large);
    let s1 = significand(small);
    let s2 = significand(large);
    let p1 = pow2(scale(small));
    let p2 = pow2(scale(large));
    lemma_pow2_pos(scale(small));
    lemma_pow2_pos(scale(large));
    if e1 == e2 {
        assert(s1 * p1 < s2 * p2) by (nonlinear_arith)
            requires
                s1 < s2,
                p1 == p2,
                p1 > 0,
        {
        }
    } else {
        if e1 == 0 {
            lemma2_to64();
            assert(s1 * p1 < s2 * p2) by (nonlinear_arith)
                requires
                    s1 < 0x80_0000,
                    p1 == 1,
                    s2 >= 0x80_0000,
                    p2 >= 1,
            {
            }
        } else {
            lemma_pow2_unfold(scale(small) + 1);
            if scale(small) + 1 < scale(large) {
                lemma_pow2_strictly_increases(scale(small) + 1, scale(large));
            }
            assert(s1 * p1 < s2 * p2) by (nonlinear_arith)
                requires
                    s1 < 0x100_0000,
                    s2 >= 0x80_0000,
                    p1 > 0,
                    p2 >= 2 * p1,
            {
            }
        }
    }
}

/// Nothing but zero has the size 0.
pub proof fn lemma_size_zero(bits: u32)
    requires
        bits < SIGN,
    ensures
        size(bits) == 0 <==> bits == 0,
{
    if bits > 0 {
        lemma_size_grows(0, bits);
    } else {
        assert(size(0) == 0) by (nonlinear_arith)
            requires
                size(0) == significand(0) * pow2(scale(0)),
                significand(0) == 0,
        {
        }
    }
}

/// The patterns, read as integers with a sign bit, are in the order of the
/// numbers.
pub proof fn lemma_rank_orders(a: u32, b: u32)
    ensures
        rank(a) < rank(b) <==> value(a) < value(b),
        rank(a) == rank(b) <==> value(a) == value(b),
{
    let x = magnitude(a);
    let y = magnitude(b);
    if x < y {
        lemma_size_grows(x, y);
    } else if y < x {
        lemma_size_grows(y, x);
    }
    lemma_size_zero(x);
    lemma_size_zero(y);
}

fn rank_of(bits: u32) -> (r: i64)
    ensures
        r == rank(bits),
{
    if bits >= SIGN {
        let m: u32 = bits - SIGN;
        -(m as i64)
    } else {
        bits as i64
    }
}

fn nan(bits: u32) -> (r: bool)
    ensures
        r == is_nan(bits),
{
    if bits >= SIGN {
        bits - SIGN > INFINITY
    } else {
        bits > INFINITY
    }
}

/// Whether `a < b` as numbers.
pub fn is_less(a: u32, b: u32) -> (r: bool)
    ensures
        r == less(a, b),
{
    proof {
        lemma_rank_orders(a, b);
    }
    !nan(a) && !nan(b) && rank_of(a) < rank_of(b)
}

/// Whether `a == b` as numbers.
pub fn is_same(a: u32, b: u32) -> (r: bool)
    ensures
        r == same(a, b),
{
    proof {
        lemma_rank_orders(a, b);
    }
    !nan(a) && !nan(b) && rank_of(a) == rank_of(b)
}

/// The number as a count.
pub fn count_of(bits: u32) -> (n: usize)
    ensures
        n == count(bits),
{
    if bits >= SIGN || bits > INFINITY {
        return 0;
    }
    let e: u32 = bits / FRACTIONS;
    let ghost s = significand(bits);
    proof {
        lemma2_to64();
        lemma2_to64_rest();
        lemma_pow2_pos(scale(bits));
    }
    if e < 127 {
        proof {
            if scale(bits) < 125 {
                lemma_pow2_strictly_increases(scale(bits), 125);
            }
            lemma_pow2_adds(24, 125);
            lemma_pow2_pos(125);
            assert(size(bits) / pow2(149) == 0) by (nonlinear_arith)
                requires
                    size(bits) == s * pow2(scale(bits)),
                    s < 0x100_0000,
                    0 < pow2(scale(bits)) <= pow2(125),
                    pow2(149) == 0x100_0000 * pow2(125),
            {
            }
        }
        return 0;
    }
    let m: u64 = (bits % FRACTIONS + FRACTIONS) as u64;
    if e < 150 {
        let shift: u64 = (150 - e) as u64;
        proof {
            lemma_u64_shr_is_div(m, shift);
            lemma_pow2_adds(scale(bits), shift as nat);
            lemma_pow2_pos(shift as nat);
            lemma_div_multiples_vanish_quotient(
                pow2(scale(bits)) as int,
                s as int,
                pow2(shift as nat) as int,
            );
            assert(s * pow2(scale(bits)) == pow2(scale(bits)) * s) by (nonlinear_arith);
        }
        let v: u64 = m >> shift;
        assert(v <= m) by (nonlinear_arith)
            requires
                v == m as nat / pow2(shift as nat),
                pow2(shift as nat) > 0,
        {
        }
        v as usize
    } else {
        let ghost up = (e - 150) as nat;
        proof {
            lemma_pow2_adds(up, 149);
            lemma_pow2_pos(149);
            lemma_pow2_pos(up);
            assert(s * pow2(scale(bits)) == (s * pow2(up)) * pow2(149)) by (nonlinear_arith)
                requires
                    pow2(scale(bits)) == pow2(up) * pow2(149),
            {
            }
            lemma_div_by_multiple((s * pow2(up)) as int, pow2(149) as int);
        }
        if e - 150 <= 40 {
            let shift: u64 = (e - 150) as u64;
            proof {
                if shift < 40 {
                    lemma_pow2_strictly_increases(shift as nat, 40);
                }
                assert(m * pow2(shift as nat) <= u64::MAX) by (nonlinear_arith)
                    requires
                        m < 0x100_0000,
                        pow2(shift as nat) <= 0x100_0000_0000,
                {
                }
                lemma_u64_shl_is_mul(m, shift);
            }
            let v: u64 = m << shift;
            if v > usize::MAX as u64 {
                usize::MAX
            } else {
                v as usize
            }
        } else {
            proof {
                if up > 41 {
                    lemma_pow2_strictly_increases(41, up);
                }
                assert(m * pow2(up) > u64::MAX) by (nonlinear_arith)
                    requires
                        m >= 0x80_0000,
                        pow2(up) >= 0x200_0000_0000,
                {
                }
            }
            usize::MAX
        }
    }
}

} // verus!
