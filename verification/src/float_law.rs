//! What the conversions and the order of floating-point bit patterns do to their values.

use vstd::arithmetic::power2::{lemma2_to64, lemma_pow2_adds, lemma_pow2_pos, pow2};
use vstd::prelude::*;

use crate::float_bits::{
    exp16, exp32, from_bf16, from_half, lemma_norm_shift, man16, man32, nearest_half, norm_shift,
    round_half_even, sign16, sign32, to_half,
};
use crate::sampling::float_gt;

verus! {

/// The magnitude of a finite `f32`, in units of the least positive one.
pub open spec fn magnitude32(b: u32) -> nat {
    if exp32(b) == 0 {
        man32(b)
    } else {
        (0x80_0000 + man32(b)) * pow2((exp32(b) - 1) as nat)
    }
}

/// The magnitude that `f16` magnitude bits stand for, in the same units.  The bits of
/// infinity stand for what would come next.
pub open spec fn magnitude16(n: nat) -> nat {
    let (e, m) = (n / 0x400, n % 0x400);
    if e == 0 {
        m * pow2(125)
    } else {
        (0x400 + m) * pow2((e + 124) as nat)
    }
}

/// The value of a finite `f32`.
pub open spec fn value32(b: u32) -> int {
    if sign32(b) == 0 {
        magnitude32(b) as int
    } else {
        -(magnitude32(b) as int)
    }
}

/// The value of a finite `f16`.
pub open spec fn value16(h: u16) -> int {
    if sign16(h) == 0 {
        magnitude16(h as nat % 0x8000) as int
    } else {
        -(magnitude16(h as nat % 0x8000) as int)
    }
}

proof fn lemma_step(e: nat)
    requires
        e >= 1,
    ensures
        pow2(e) == 2 * pow2((e - 1) as nat),
        pow2(e) > 0,
{
    lemma2_to64();
    lemma_pow2_adds(1, (e - 1) as nat);
    lemma_pow2_pos(e);
}

/// Magnitudes of one exponent lie below those of the next.
proof fn lemma_binade(b: u32)
    ensures
        exp32(b) == 0 ==> magnitude32(b) < 0x80_0000,
        exp32(b) >= 1 ==> 0x80_0000 * pow2((exp32(b) - 1) as nat) <= magnitude32(b) < 0x80_0000
            * pow2(exp32(b)),
{
    if exp32(b) >= 1 {
        let (e, m) = (exp32(b), man32(b));
        lemma_step(e);
        lemma_pow2_pos((e - 1) as nat);
        let p = pow2((e - 1) as nat);
        assert(0x80_0000 * p <= (0x80_0000 + m) * p < 0x80_0000 * (2 * p)) by (nonlinear_arith)
            requires
                0 <= m < 0x80_0000,
                p > 0,
        ;
    }
}

proof fn lemma_pow2_grows(a: nat, b: nat)
    requires
        a <= b,
    ensures
        0 < pow2(a) <= pow2(b),
{
    lemma_pow2_pos(a);
    if a < b {
        vstd::arithmetic::power2::lemma_pow2_strictly_increases(a, b);
    }
}

/// Larger bits of a magnitude are a larger magnitude.
proof fn lemma_magnitude_grows(a: u32, b: u32)
    requires
        a as nat % 0x8000_0000 < b as nat % 0x8000_0000,
        exp32(a) < 255,
        exp32(b) < 255,
    ensures
        magnitude32(a) < magnitude32(b),
{
    let (x, y) = (exp32(a), exp32(b));
    assert(x <= y);
    lemma_binade(a);
    lemma_binade(b);
    if x == y {
        if x >= 1 {
            let p = pow2((x - 1) as nat);
            lemma_pow2_pos((x - 1) as nat);
            let (m, n) = (man32(a), man32(b));
            assert((0x80_0000 + m) * p < (0x80_0000 + n) * p) by (nonlinear_arith)
                requires
                    m < n,
                    p > 0,
            ;
        }
    } else {
        lemma2_to64();
        lemma_pow2_grows(0, (y - 1) as nat);
        if x >= 1 {
            lemma_pow2_grows(x, (y - 1) as nat);
        }
    }
}

/// One finite `f32` is larger than another exactly where its value is.
pub proof fn order_is_that_of_values(a: u32, b: u32)
    requires
        exp32(a) < 255,
        exp32(b) < 255,
    ensures
        float_gt(a, b) <==> value32(a) > value32(b),
{
    let (x, y) = (a as nat % 0x8000_0000, b as nat % 0x8000_0000);
    if x < y {
        lemma_magnitude_grows(a, b);
    } else if y < x {
        lemma_magnitude_grows(b, a);
    } else {
        assert(exp32(a) == exp32(b) && man32(a) == man32(b));
    }
    if x > 0 {
        lemma_magnitude_grows(0, a);
    }
    if y > 0 {
        lemma_magnitude_grows(0, b);
    }
}

/// Widening a finite `f16` keeps its value, and so does widening a `bf16`, whose bits are
/// the upper ones.
pub proof fn widening_keeps_the_value(h: u16, b: u16)
    ensures
        exp16(h) < 31 ==> exp32(from_half(h)) < 255 && value32(from_half(h)) == value16(h),
        from_bf16(b) as int / 0x1_0000 == b && from_bf16(b) % 0x1_0000 == 0,
{
    if exp16(h) < 31 {
        let f = from_half(h);
        let (s, e, m) = (sign16(h), exp16(h), man16(h));
        let n = h as nat % 0x8000;
        assert(h == s * 0x8000 + e * 0x400 + m);
        assert(n / 0x400 == e && n % 0x400 == m);
        lemma2_to64();
        if e == 0 && m != 0 {
            lemma_norm_shift(m);
            let k = norm_shift(m);
            let w = m * pow2(k);
            assert(f == s * 0x8000_0000 + (113 - k) * 0x80_0000 + (w - 0x400) * 0x2000);
            assert(sign32(f) == s);
            assert(exp32(f) == 113 - k);
            assert(man32(f) == (w - 0x400) * 0x2000);
            let p = pow2((112 - k) as nat);
            lemma_pow2_adds(k, (112 - k) as nat);
            lemma_pow2_adds(112, 13);
            assert(w * 0x2000 * p == m * (pow2(k) * p) * 0x2000) by (nonlinear_arith)
                requires
                    w == m * pow2(k),
            ;
            assert(m * pow2(112) * 0x2000 == m * (pow2(112) * 0x2000)) by (nonlinear_arith);
        } else if e == 0 {
            assert(f == s * 0x8000_0000);
            assert(0 * pow2(125) == 0);
        } else {
            assert(f == s * 0x8000_0000 + (e + 112) * 0x80_0000 + m * 0x2000);
            assert(sign32(f) == s);
            assert(exp32(f) == e + 112);
            assert(man32(f) == m * 0x2000);
            let p = pow2((e + 111) as nat);
            lemma_pow2_adds((e + 111) as nat, 13);
            assert((0x80_0000 + m * 0x2000) * p == (0x400 + m) * (p * 0x2000)) by (nonlinear_arith);
        }
    }
}

/// From one `f16` magnitude to the next.
proof fn lemma_next16(n: nat)
    requires
        n < 0x7c00,
    ensures
        magnitude16(n + 1) == magnitude16(n) + pow2(
            if n < 0x400 {
                125
            } else {
                (n / 0x400 + 124) as nat
            },
        ),
{
    let (e, m) = (n / 0x400, n % 0x400);
    lemma2_to64();
    lemma_step((e + 125) as nat);
    let p = pow2((e + 124) as nat);
    let q = pow2(125);
    assert((m + 1) * q == m * q + q) by (nonlinear_arith);
    assert((0x400 + (m + 1)) * p == (0x400 + m) * p + p) by (nonlinear_arith);
    assert(0x800 * p == 0x400 * (2 * p)) by (nonlinear_arith);
    if m + 1 == 0x400 {
        assert((n + 1) / 0x400 == e + 1 && (n + 1) % 0x400 == 0);
    } else {
        assert((n + 1) / 0x400 == e && (n + 1) % 0x400 == m + 1);
    }
}

/// Rounding is to the nearest: what is rounded lies no further than half way to the
/// neighbours of what it is rounded to, and half way only where that is even.  The sign is
/// kept, and what lies beyond the largest `f16` by half a step or more is infinite.
pub proof fn rounding_is_to_the_nearest(b: u32)
    requires
        exp32(b) < 255,
    ensures
        ({
            let (h, x) = (to_half(b), magnitude32(b));
            let n = h as nat % 0x8000;
            &&& sign16(h) == sign32(b)
            &&& n <= 0x7c00
            &&& n < 0x7c00 ==> 2 * x <= magnitude16(n) + magnitude16(n + 1)
            &&& n < 0x7c00 && n % 2 == 1 ==> 2 * x < magnitude16(n) + magnitude16(n + 1)
            &&& n > 0 ==> 2 * x >= magnitude16((n - 1) as nat) + magnitude16(n)
            &&& n > 0 && n % 2 == 1 ==> 2 * x > magnitude16((n - 1) as nat) + magnitude16(n)
        }),
{
    let n = nearest_half(b);
    lemma_nearest(b);
    assert(to_half(b) as nat % 0x8000 == n && sign16(to_half(b)) == sign32(b));
}

/// `q` and `q + 1` are the neighbours of what is rounded, `r` of `p` above the lower one,
/// in units of `u`.
proof fn lemma_between(q: nat, r: nat, p: nat, u: nat, x: nat, n: nat)
    requires
        q < 0x7c00,
        0 < p,
        r < p,
        0 < u,
        x == magnitude16(q) + r * u,
        magnitude16(q + 1) == magnitude16(q) + p * u,
        n == if 2 * r > p || (2 * r == p && q % 2 == 1) {
            q + 1
        } else {
            q
        },
    ensures
        n <= 0x7c00,
        n < 0x7c00 ==> 2 * x <= magnitude16(n) + magnitude16(n + 1),
        n < 0x7c00 && n % 2 == 1 ==> 2 * x < magnitude16(n) + magnitude16(n + 1),
        n > 0 ==> 2 * x >= magnitude16((n - 1) as nat) + magnitude16(n),
        n > 0 && n % 2 == 1 ==> 2 * x > magnitude16((n - 1) as nat) + magnitude16(n),
{
    let (ru, pu) = (r * u, p * u);
    assert(ru < pu && (2 * r > p ==> 2 * ru > pu) && (2 * r == p ==> 2 * ru == pu) && (2 * r < p
        ==> 2 * ru < pu)) by (nonlinear_arith)
        requires
            ru == r * u,
            pu == p * u,
            r < p,
            0 < u,
    ;
    assert(0 <= ru) by (nonlinear_arith)
        requires
            ru == r * u,
    ;
    if n == q {
        if n > 0 {
            lemma_next16((n - 1) as nat);
            lemma_pow2_pos(125);
            lemma_pow2_pos(((n - 1) as nat / 0x400 + 124) as nat);
        }
    } else if n < 0x7c00 {
        lemma_next16(n);
        lemma_pow2_pos(125);
        lemma_pow2_pos((n / 0x400 + 124) as nat);
    }
}

proof fn lemma_nearest(b: u32)
    requires
        exp32(b) < 255,
    ensures
        ({
            let (n, x) = (nearest_half(b), magnitude32(b));
            &&& n <= 0x7c00
            &&& n < 0x7c00 ==> 2 * x <= magnitude16(n) + magnitude16(n + 1)
            &&& n < 0x7c00 && n % 2 == 1 ==> 2 * x < magnitude16(n) + magnitude16(n + 1)
            &&& n > 0 ==> 2 * x >= magnitude16((n - 1) as nat) + magnitude16(n)
            &&& n > 0 && n % 2 == 1 ==> 2 * x > magnitude16((n - 1) as nat) + magnitude16(n)
        }),
{
    let (e, m) = (exp32(b), man32(b));
    lemma2_to64();
    if e >= 143 {
        lemma_huge(b);
    } else if e >= 113 {
        let k = (e - 112) as nat;
        let w = k * 0x80_0000 + m;
        let (q, r) = (w / 0x2000, w % 0x2000);
        let u = pow2((e - 1) as nat);
        assert(q == k * 0x400 + m / 0x2000 && r == m % 0x2000);
        assert(q / 0x400 == k && q % 0x400 == m / 0x2000);
        lemma_pow2_adds(13, (e - 1) as nat);
        lemma_next16(q);
        let t = m / 0x2000;
        assert((0x80_0000 + m) * u == (0x400 + t) * (0x2000 * u) + r * u) by (nonlinear_arith)
            requires
                m == t * 0x2000 + r,
        ;
        lemma_pow2_pos((e - 1) as nat);
        lemma_between(q, r, 0x2000, u, magnitude32(b), round_half_even(w, 13));
    } else {
        lemma_small(b);
    }
}

/// What is far beyond the largest `f16` is rounded to infinity.
proof fn lemma_huge(b: u32)
    requires
        143 <= exp32(b) < 255,
    ensures
        nearest_half(b) == 0x7c00,
        2 * magnitude32(b) > magnitude16(0x7bff) + magnitude16(0x7c00),
{
    let (e, m) = (exp32(b), man32(b));
    lemma2_to64();
    let w = ((e - 112) * 0x80_0000 + m) as nat;
    assert(w / 0x2000 >= 0x7c00) by (nonlinear_arith)
        requires
            w >= 31 * 0x80_0000,
    ;
    lemma_binade(b);
    lemma_pow2_grows(142, (e - 1) as nat);
    lemma_pow2_adds(142, 13);
    lemma_next16(0x7bff);
    lemma_pow2_pos(154);
    lemma_step(155);
    assert(0x7c00nat / 0x400 == 31 && 0x7c00nat % 0x400 == 0);
    assert(0x80_0000 * pow2(142) == 0x400 * (pow2(142) * 0x2000)) by (nonlinear_arith);
    assert(0x7bffnat / 0x400 == 30);
    assert(0x80_0000 * pow2(142) <= 0x80_0000 * pow2((e - 1) as nat));
}

/// What is below the least normal `f16` is rounded to a whole number of the least ones.
proof fn lemma_small(b: u32)
    requires
        exp32(b) < 113,
    ensures
        ({
            let (n, x) = (nearest_half(b), magnitude32(b));
            &&& n <= 0x7c00
            &&& n < 0x7c00 ==> 2 * x <= magnitude16(n) + magnitude16(n + 1)
            &&& n < 0x7c00 && n % 2 == 1 ==> 2 * x < magnitude16(n) + magnitude16(n + 1)
            &&& n > 0 ==> 2 * x >= magnitude16((n - 1) as nat) + magnitude16(n)
            &&& n > 0 && n % 2 == 1 ==> 2 * x > magnitude16((n - 1) as nat) + magnitude16(n)
        }),
{
    let (e, m) = (exp32(b), man32(b));
    lemma2_to64();
    let shift = (126 - e) as nat;
    let (p, w) = (pow2(shift), 0x80_0000 + m);
    lemma_pow2_grows(14, shift);
    assert(pow2(14) == 0x4000);
    let (q, r) = (w / p, w % p);
    vstd::arithmetic::div_mod::lemma_fundamental_div_mod(w as int, p as int);
    vstd::arithmetic::div_mod::lemma_mod_bound(w as int, p as int);
    assert(q < 0x400) by (nonlinear_arith)
        requires
            w == p * q + r,
            w < 0x100_0000,
            p >= 0x4000,
            r >= 0,
    ;
    assert(magnitude16(q) == q * pow2(125));
    lemma_next16(q);
    if e >= 1 {
        let u = pow2((e - 1) as nat);
        lemma_pow2_pos((e - 1) as nat);
        lemma_pow2_adds(shift, (e - 1) as nat);
        assert(w * u == q * (p * u) + r * u) by (nonlinear_arith)
            requires
                w == p * q + r,
        ;
        lemma_between(q, r, p, u, magnitude32(b), round_half_even(w, shift));
    } else {
        lemma_pow2_grows(25, shift);
        assert(pow2(25) == 0x200_0000);
        assert(q == 0 && r == w) by {
            vstd::arithmetic::div_mod::lemma_basic_div(w as int, p as int);
            vstd::arithmetic::div_mod::lemma_small_mod(w, p);
        }
        lemma_pow2_grows(25, 125);
        assert(0 * pow2(125) == 0);
        assert(magnitude16(0) == 0);
        assert(nearest_half(b) == 0);
    }
}

} // verus!
