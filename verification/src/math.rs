//! Integer arithmetic that layouts and grids are made of.

use vstd::prelude::*;

verus! {

/// How many pieces of `d` cover `n`.
pub open spec fn ceil_div(n: int, d: int) -> int {
    (n + d - 1) / d
}

/// How many pieces of `d` cover `n`.
pub fn div_ceil_u32(n: u32, d: u32) -> (r: u32)
    requires
        d > 0,
    ensures
        r == ceil_div(n as int, d as int),
{
    let q: u32 = n / d;
    proof {
        lemma_ceil_div(n as int, d as int);
    }
    if n % d == 0 {
        q
    } else {
        q + 1
    }
}

/// How many pieces of `d` cover `n`.
pub fn div_ceil_usize(n: usize, d: usize) -> (r: usize)
    requires
        d > 0,
    ensures
        r == ceil_div(n as int, d as int),
{
    let q: usize = n / d;
    proof {
        lemma_ceil_div(n as int, d as int);
    }
    if n % d == 0 {
        q
    } else {
        q + 1
    }
}

/// The quotient and remainder form of `ceil_div`, with its bounds.
pub proof fn lemma_ceil_div(n: int, d: int)
    requires
        n >= 0,
        d > 0,
    ensures
        ceil_div(n, d) == n / d + if n % d == 0 {
            0int
        } else {
            1
        },
        0 <= ceil_div(n, d) <= n,
        ceil_div(n, d) * d >= n,
        (ceil_div(n, d) - 1) * d < n || n == 0,
        n > 0 ==> ceil_div(n, d) >= 1,
        n % d != 0 ==> n / d < n,
{
    let q = n / d;
    let r = n % d;
    vstd::arithmetic::div_mod::lemma_fundamental_div_mod(n, d);
    assert(n == d * q + r && 0 <= r < d);
    assert(q >= 0) by (nonlinear_arith)
        requires
            n == d * q + r,
            0 <= r < d,
            n >= 0,
            d > 0,
    ;
    if r == 0 {
        assert(n + d - 1 == q * d + (d - 1)) by (nonlinear_arith)
            requires
                n == d * q,
        ;
        vstd::arithmetic::div_mod::lemma_fundamental_div_mod_converse(n + d - 1, d, q, d - 1);
        assert(q * d == n) by (nonlinear_arith)
            requires
                n == d * q,
        ;
        assert((q - 1) * d == n - d) by (nonlinear_arith)
            requires
                n == d * q,
        ;
        assert(q <= n && (n > 0 ==> q >= 1)) by (nonlinear_arith)
            requires
                n == d * q,
                d > 0,
                q >= 0,
        ;
    } else {
        assert(n + d - 1 == (q + 1) * d + (r - 1)) by (nonlinear_arith)
            requires
                n == d * q + r,
        ;
        vstd::arithmetic::div_mod::lemma_fundamental_div_mod_converse(n + d - 1, d, q + 1, r - 1);
        assert((q + 1) * d == n - r + d) by (nonlinear_arith)
            requires
                n == d * q + r,
        ;
        assert(q * d == n - r) by (nonlinear_arith)
            requires
                n == d * q + r,
        ;
        assert(q + 1 <= n) by (nonlinear_arith)
            requires
                n == d * q + r,
                0 < r < d,
                q >= 0,
        ;
    }
}

/// The product of two machine words.
pub fn wide_product(a: usize, b: usize) -> (r: u128)
    ensures
        r == a * b,
        r <= 0xffff_ffff_ffff_fffe_0000_0000_0000_0001,
{
    proof {
        let (x, y) = (a as int, b as int);
        assert(0 <= x * y <= 0xffff_ffff_ffff_ffff * 0xffff_ffff_ffff_ffff) by (nonlinear_arith)
            requires
                0 <= x <= 0xffff_ffff_ffff_ffff,
                0 <= y <= 0xffff_ffff_ffff_ffff,
        ;
    }
    a as u128 * b as u128
}

} // verus!
