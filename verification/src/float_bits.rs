//! Floating-point values by their bit patterns: `f16`, `bf16` and `f32` as
//! `u16`, `u16` and `u32`.

use vstd::arithmetic::power2::{
    lemma2_to64, lemma_pow2_adds, lemma_pow2_pos, lemma_pow2_unfold, pow2,
};
use vstd::prelude::*;

verus! {

/// The bit pattern of `1.0f32`.
pub const F32_ONE: u32 = 0x3f80_0000;

/// The bit pattern of `0.0f32`.
pub const F32_ZERO: u32 = 0;

/// The bit pattern of negative infinity.
pub const F32_NEG_INFINITY: u32 = 0xff80_0000;

/// The sign bit of an `f32`.
pub open spec fn sign32(b: u32) -> nat {
    b as nat / 0x8000_0000
}

/// The biased exponent of an `f32`.
pub open spec fn exp32(b: u32) -> nat {
    b as nat / 0x80_0000 % 256
}

/// The stored significand of an `f32`.
pub open spec fn man32(b: u32) -> nat {
    b as nat % 0x80_0000
}

/// The sign bit of an `f16`.
pub open spec fn sign16(h: u16) -> nat {
    h as nat / 0x8000
}

/// The biased exponent of an `f16`.
pub open spec fn exp16(h: u16) -> nat {
    h as nat / 0x400 % 32
}

/// The stored significand of an `f16`.
pub open spec fn man16(h: u16) -> nat {
    h as nat % 0x400
}

/// Whether an `f32` is not a number.
pub open spec fn is_nan(b: u32) -> bool {
    exp32(b) == 255 && man32(b) != 0
}

/// `m / 2^shift`, rounded to the nearest integer and to the even one of two
/// nearest.
pub open spec fn round_half_even(m: nat, shift: nat) -> nat {
    let p = pow2(shift);
    let (q, r) = (m / p, m % p);
    if 2 * r > p || (2 * r == p && q % 2 == 1) {
        q + 1
    } else {
        q
    }
}

/// The magnitude bits of the `f16` nearest to a finite `f32`, ties to even.  The
/// bits of a floating-point number, read as an integer, grow with its magnitude,
/// so that a carry out of the significand moves to the next exponent and, at the
/// top, to infinity.
pub open spec fn nearest_half(b: u32) -> nat {
    let half_exp = exp32(b) - 112;
    if half_exp <= 0 {
        round_half_even(0x80_0000 + man32(b), (14 - half_exp) as nat)
    } else {
        let n = round_half_even((half_exp * 0x80_0000 + man32(b)) as nat, 13);
        if n < 0x7c00 {
            n
        } else {
            0x7c00
        }
    }
}

/// The `f16` of an `f32`: the nearest one, ties to even; an infinity is kept, and
/// of a NaN the upper ten bits of the payload.
pub open spec fn to_half(b: u32) -> u16 {
    if exp32(b) == 255 {
        (sign32(b) * 0x8000 + 0x7c00 + man32(b) / 0x2000) as u16
    } else {
        (sign32(b) * 0x8000 + nearest_half(b)) as u16
    }
}

/// How often a subnormal significand is doubled until its leading bit is the
/// implicit one.
pub open spec fn norm_shift(m: nat) -> nat
    decreases 0x800 - m,
{
    if m == 0 || m >= 0x400 {
        0
    } else {
        1 + norm_shift(2 * m)
    }
}

/// The `f32` with the value of an `f16`.
pub open spec fn from_half(h: u16) -> u32 {
    let s = sign16(h) * 0x8000_0000;
    if exp16(h) == 0 {
        if man16(h) == 0 {
            s as u32
        } else {
            let n = norm_shift(man16(h));
            (s + (113 - n) * 0x80_0000 + (man16(h) * pow2(n) - 0x400) * 0x2000) as u32
        }
    } else if exp16(h) == 31 {
        (s + 0x7f80_0000 + man16(h) * 0x2000) as u32
    } else {
        (s + (exp16(h) + 112) * 0x80_0000 + man16(h) * 0x2000) as u32
    }
}

/// The `f32` with the value of a `bf16`.
pub open spec fn from_bf16(b: u16) -> u32 {
    (b * 0x1_0000) as u32
}

pub proof fn lemma_norm_shift(m: nat)
    requires
        0 < m < 0x400,
    ensures
        1 <= norm_shift(m) <= 10,
        0x400 <= m * pow2(norm_shift(m)) < 0x800,
{
    lemma2_to64();
    assert(pow2(10) == 0x400);
    lemma_norm_shift_from(m, 10);
}

proof fn lemma_norm_shift_from(m: nat, bound: nat)
    requires
        0 < m < 0x400,
        m * pow2(bound) >= 0x400,
        bound <= 10,
    ensures
        1 <= norm_shift(m) <= bound,
        0x400 <= m * pow2(norm_shift(m)) < 0x800,
    decreases bound,
{
    lemma2_to64();
    if bound == 0 {
        assert(m * pow2(0) == m);
    } else {
        lemma_pow2_unfold(bound);
        let p = pow2((bound - 1) as nat);
        assert(m * (2 * p) == (2 * m) * p) by (nonlinear_arith);
        if 2 * m < 0x400 {
            lemma_norm_shift_from(2 * m, (bound - 1) as nat);
            let n = norm_shift(2 * m);
            lemma_pow2_unfold(n + 1);
            assert(m * (2 * pow2(n)) == (2 * m) * pow2(n)) by (nonlinear_arith);
        } else {
            assert(norm_shift(2 * m) == 0);
            assert(norm_shift(m) == 1);
        }
    }
}

proof fn lemma_round_bound(m: nat, shift: nat, k: nat)
    requires
        m < pow2(shift) * k,
    ensures
        round_half_even(m, shift) <= k,
{
    lemma_pow2_pos(shift);
    let p = pow2(shift);
    vstd::arithmetic::div_mod::lemma_fundamental_div_mod(m as int, p as int);
    let q = m / p;
    assert(q < k) by (nonlinear_arith)
        requires
            m == p * q + m % p,
            m < p * k,
            p > 0,
    ;
}

proof fn lemma_nearest_half_bound(b: u32)
    requires
        exp32(b) < 255,
    ensures
        nearest_half(b) <= 0x7c00,
{
    let half_exp = exp32(b) - 112;
    if half_exp <= 0 {
        let shift = (14 - half_exp) as nat;
        lemma2_to64();
        vstd::arithmetic::power2::lemma_pow2_strictly_increases(13, shift);
        let p = pow2(shift);
        assert(0x80_0000 + man32(b) < p * 0x7c00) by (nonlinear_arith)
            requires
                p > 0x2000,
                man32(b) < 0x80_0000,
        ;
        lemma_round_bound(0x80_0000 + man32(b), shift, 0x7c00);
    }
}

fn two_to(shift: u32) -> (p: u32)
    requires
        shift <= 24,
    ensures
        p == pow2(shift as nat),
        p > 0,
{
    let mut p: u32 = 1;
    let mut i: u32 = 0;
    proof {
        lemma2_to64();
    }
    while i < shift
        invariant
            i <= shift <= 24,
            p == pow2(i as nat),
            p > 0,
            pow2(24) == 0x100_0000,
        decreases shift - i,
    {
        proof {
            lemma_pow2_unfold((i + 1) as nat);
            if i + 1 < 24 {
                vstd::arithmetic::power2::lemma_pow2_strictly_increases((i + 1) as nat, 24);
            }
        }
        p = p * 2;
        i = i + 1;
    }
    p
}

fn round_shift(m: u32, shift: u32) -> (n: u32)
    requires
        shift <= 24,
        m < 0x1000_0000,
    ensures
        n == round_half_even(m as nat, shift as nat),
{
    let p: u32 = two_to(shift);
    proof {
        lemma2_to64();
        if shift < 24 {
            vstd::arithmetic::power2::lemma_pow2_strictly_increases(shift as nat, 24);
        }
    }
    let q: u32 = m / p;
    let r: u32 = m % p;
    proof {
        vstd::arithmetic::div_mod::lemma_fundamental_div_mod(m as int, p as int);
        assert(q <= m) by (nonlinear_arith)
            requires
                m == p * q + r,
                p > 0,
                r >= 0,
        ;
    }
    if 2 * r > p || (2 * r == p && q % 2 == 1) {
        q + 1
    } else {
        q
    }
}

proof fn lemma_rounds_to_zero(b: u32)
    requires
        exp32(b) < 102,
    ensures
        nearest_half(b) == 0,
{
    let shift = (14 - (exp32(b) - 112)) as nat;
    lemma2_to64();
    if shift > 25 {
        vstd::arithmetic::power2::lemma_pow2_strictly_increases(25, shift);
    }
    let p = pow2(shift);
    let m = 0x80_0000 + man32(b);
    vstd::arithmetic::div_mod::lemma_basic_div(m as int, p as int);
    vstd::arithmetic::div_mod::lemma_small_mod(m, p);
}

/// The `f16` nearest to an `f32`, ties to even.
pub fn f32_to_f16_bits(bits: u32) -> (h: u16)
    ensures
        h == to_half(bits),
{
    let sign: u32 = bits / 0x8000_0000 * 0x8000;
    let exp: u32 = bits / 0x80_0000 % 256;
    let man: u32 = bits % 0x80_0000;
    proof {
        assert(sign32(bits) <= 1);
        if exp < 255 {
            lemma_nearest_half_bound(bits);
        }
    }
    if exp == 255 {
        return (sign + 0x7c00 + man / 0x2000) as u16;
    }
    if exp < 102 {
        proof {
            lemma_rounds_to_zero(bits);
        }
        return sign as u16;
    }
    let n: u32 = if exp <= 112 {
        round_shift(0x80_0000 + man, 126 - exp)
    } else if exp >= 143 {
        proof {
            lemma2_to64();
            let m = (exp - 112) * 0x80_0000 + man;
            assert(pow2(13) == 0x2000);
            assert(m / 0x2000 >= 0x7c00) by (nonlinear_arith)
                requires
                    m >= 31 * 0x80_0000,
            ;
        }
        0x7c00
    } else {
        let n: u32 = round_shift((exp - 112) * 0x80_0000 + man, 13);
        if n < 0x7c00 {
            n
        } else {
            0x7c00
        }
    };
    (sign + n) as u16
}

/// The `f32` with the value of an `f16`.
pub fn f16_bits_to_f32(h: u16) -> (b: u32)
    ensures
        b == from_half(h),
{
    let sign: u32 = h as u32 / 0x8000 * 0x8000_0000;
    let exp: u32 = h as u32 / 0x400 % 32;
    let man: u32 = h as u32 % 0x400;
    if exp == 0 {
        if man == 0 {
            return sign;
        }
        let mut m: u32 = man;
        let mut s: u32 = 0;
        proof {
            lemma_norm_shift(man as nat);
            lemma2_to64();
        }
        while m < 0x400
            invariant
                0 < m < 0x800,
                0 < man < 0x400,
                norm_shift(man as nat) == s + norm_shift(m as nat),
                m == man * pow2(s as nat),
                norm_shift(man as nat) <= 10,
            decreases 0x800 - m,
        {
            proof {
                lemma_pow2_unfold((s + 1) as nat);
                assert(man * (2 * pow2(s as nat)) == 2 * (man * pow2(s as nat)))
                    by (nonlinear_arith);
            }
            m = m * 2;
            s = s + 1;
        }
        return sign + (113 - s) * 0x80_0000 + (m - 0x400) * 0x2000;
    }
    if exp == 31 {
        return sign + 0x7f80_0000 + man * 0x2000;
    }
    sign + (exp + 112) * 0x80_0000 + man * 0x2000
}

/// The `f32` with the value of a `bf16`.
pub fn bf16_to_f32(b: u16) -> (r: u32)
    ensures
        r == from_bf16(b),
{
    b as u32 * 0x1_0000
}

/// Widening an `f16` to `f32` and rounding it back gives the same bits, for
/// every `f16`.
pub proof fn half_survives_widening(h: u16)
    ensures
        to_half(from_half(h)) == h,
{
    let b = from_half(h);
    let (s, e, m) = (sign16(h), exp16(h), man16(h));
    assert(h == s * 0x8000 + e * 0x400 + m);
    lemma2_to64();
    if e == 0 && m != 0 {
        lemma_norm_shift(m);
        let n = norm_shift(m);
        let w = m * pow2(n);
        assert(b == s * 0x8000_0000 + (113 - n) * 0x80_0000 + (w - 0x400) * 0x2000);
        assert(sign32(b) == s);
        assert(exp32(b) == 113 - n);
        assert(man32(b) == (w - 0x400) * 0x2000);
        let shift = 13 + n;
        lemma_pow2_adds(n, 13);
        assert(pow2(shift) == pow2(n) * 0x2000);
        assert(0x80_0000 + man32(b) == w * 0x2000);
        assert(w * 0x2000 == m * pow2(shift)) by (nonlinear_arith)
            requires
                w == m * pow2(n),
                pow2(shift) == pow2(n) * 0x2000,
        ;
        lemma_pow2_pos(shift);
        vstd::arithmetic::div_mod::lemma_div_multiples_vanish(m as int, pow2(shift) as int);
        vstd::arithmetic::div_mod::lemma_mod_multiples_basic(m as int, pow2(shift) as int);
        assert(m * pow2(shift) == pow2(shift) * m) by (nonlinear_arith);
        assert(nearest_half(b) == m);
    } else if e == 0 {
        assert(b == s * 0x8000_0000);
        assert(exp32(b) == 0);
        lemma_rounds_to_zero(b);
    } else if e == 31 {
        assert(b == s * 0x8000_0000 + 0x7f80_0000 + m * 0x2000);
    } else {
        assert(b == s * 0x8000_0000 + (e + 112) * 0x80_0000 + m * 0x2000);
        assert(sign32(b) == s);
        assert(exp32(b) == e + 112);
        assert(man32(b) == m * 0x2000);
        let w = e * 0x80_0000 + man32(b);
        assert(w == (e * 0x400 + m) * 0x2000);
        assert(w / 0x2000 == e * 0x400 + m);
        assert(w % 0x2000 == 0);
    }
}

/// No two `f16` widen to the same `f32`.
pub proof fn widening_is_injective(g: u16, h: u16)
    requires
        from_half(g) == from_half(h),
    ensures
        g == h,
{
    half_survives_widening(g);
    half_survives_widening(h);
}

} // verus!
