//! What the kernel reads in the parameter block of an attention call, field by field, and
//! that the strides in it address every element of the operands.

use vstd::arithmetic::power::{lemma_pow0, pow};
use vstd::prelude::*;

use crate::bytes::{bytes_stand_for_their_number, le_bytes, le_value, lemma_le_bytes_len};
use crate::fmha::{
    extent_fields, fields_bytes, fmha_launch, lemma_rounded, mode_fields, operand_fields,
    output_fields, param_block_has_fixed_size, param_bytes, unused_fields, FmhaCall, FmhaVariant,
};
use crate::launch::{Kernel, Queue};
use crate::math::{ceil_div, lemma_ceil_div};

verus! {

/// The unsigned number of `w` bytes at a place of a block.
#[verifier::opaque]
pub open spec fn number_at(s: Seq<u8>, at: int, w: nat) -> int {
    le_value(s.subrange(at, at + w)) as int
}

/// The four-byte number at a place of a block.
pub open spec fn word_at(s: Seq<u8>, at: int) -> int {
    number_at(s, at, 4)
}

/// The eight-byte number at a place of a block.
pub open spec fn long_at(s: Seq<u8>, at: int) -> int {
    number_at(s, at, 8)
}

/// Bytes of the fields before one of them.
spec fn before(f: Seq<(u64, usize)>, i: nat) -> nat
    decreases i,
{
    if i == 0 {
        0
    } else {
        before(f, (i - 1) as nat) + f[i - 1].1 as nat
    }
}

proof fn lemma_before(f: Seq<(u64, usize)>, g: Seq<(u64, usize)>, i: nat)
    requires
        i <= f.len(),
        i <= g.len(),
        forall|j: int| 0 <= j < i ==> f[j] == g[j],
    ensures
        before(f, i) == before(g, i),
    decreases i,
{
    if i > 0 {
        lemma_before(f, g, (i - 1) as nat);
    }
}

proof fn lemma_fields_len(f: Seq<(u64, usize)>)
    ensures
        fields_bytes(f).len() == before(f, f.len()),
    decreases f.len(),
{
    if f.len() > 0 {
        lemma_fields_len(f.drop_last());
        lemma_le_bytes_len(f.last().0 as nat, f.last().1 as nat);
        lemma_before(f, f.drop_last(), (f.len() - 1) as nat);
    }
}

/// A field stands behind those before it.
proof fn lemma_field(f: Seq<(u64, usize)>, i: int)
    requires
        0 <= i < f.len(),
    ensures
        before(f, i as nat) + f[i].1 <= fields_bytes(f).len(),
        fields_bytes(f).subrange(before(f, i as nat) as int, before(f, i as nat) + f[i].1)
            == le_bytes(f[i].0 as nat, f[i].1 as nat),
    decreases f.len(),
{
    let g = f.drop_last();
    let last = le_bytes(f.last().0 as nat, f.last().1 as nat);
    lemma_fields_len(f);
    lemma_fields_len(g);
    lemma_le_bytes_len(f.last().0 as nat, f.last().1 as nat);
    lemma_before(f, g, i as nat);
    if i < g.len() {
        lemma_field(g, i);
        let (a, b) = (before(f, i as nat) as int, before(f, i as nat) + f[i].1);
        assert(fields_bytes(f).subrange(a, b) =~= fields_bytes(g).subrange(a, b));
    } else {
        let (a, b) = (before(f, i as nat) as int, before(f, i as nat) + f[i].1);
        assert(fields_bytes(f).subrange(a, b) =~= last);
    }
}

pub proof fn lemma_widths()
    ensures
        pow(256, 1) == 0x100,
        pow(256, 4) == 0x1_0000_0000,
        pow(256, 8) == 0x1_0000_0000_0000_0000,
{
    lemma_pow0(256);
    reveal_with_fuel(pow, 9);
}

/// A field among others reads back.
proof fn lemma_reads(
    pre: Seq<u8>,
    f: Seq<(u64, usize)>,
    post: Seq<u8>,
    i: int,
    at: int,
    w: nat,
    x: int,
)
    requires
        0 <= i < f.len(),
        at == pre.len() + before(f, i as nat),
        f[i] == (x as u64, w as usize),
        0 <= x <= u64::MAX,
        w == 1 && x < 0x100 || w == 4 && x < 0x1_0000_0000 || w == 8,
    ensures
        number_at(pre + fields_bytes(f) + post, at, w) == x,
{
    reveal(number_at);
    lemma_widths();
    lemma_field(f, i);
    bytes_stand_for_their_number(x as nat, w);
    let s = pre + fields_bytes(f) + post;
    let b = before(f, i as nat) as int;
    assert(s.subrange(at, at + w) =~= fields_bytes(f).subrange(b, b + w));
}

/// The five parts of a block, and where each begins.
proof fn lemma_parts(c: FmhaCall, block_m: u32)
    ensures
        fields_bytes(operand_fields(c)).len() == 112,
        fields_bytes(output_fields(c)).len() == 64,
        fields_bytes(extent_fields(c, block_m)).len() == 48,
        fields_bytes(unused_fields()).len() == 144,
        fields_bytes(mode_fields()).len() == 88,
{
    let (a, b, e, u, m) = (
        operand_fields(c),
        output_fields(c),
        extent_fields(c, block_m),
        unused_fields(),
        mode_fields(),
    );
    lemma_fields_len(a);
    lemma_fields_len(b);
    lemma_fields_len(e);
    lemma_fields_len(u);
    lemma_fields_len(m);
    assert(before(a, 16) == 112) by {
        reveal_with_fuel(before, 17);
    }
    assert(before(b, 8) == 64) by {
        reveal_with_fuel(before, 9);
    }
    assert(before(e, 12) == 48) by {
        reveal_with_fuel(before, 13);
    }
    assert(before(u, 18) == 144) by {
        reveal_with_fuel(before, 19);
    }
    assert(before(m, 22) == 88) by {
        reveal_with_fuel(before, 23);
    }
}

proof fn lemma_sizes(c: FmhaCall, block_m: u32)
    requires
        c.wf(),
        0 < block_m <= 256,
    ensures
        c.heads * c.d <= u64::MAX,
        c.kv_heads * c.d <= u64::MAX,
        c.batch * c.heads * c.d <= u64::MAX,
        c.batch * c.kv_heads * c.d <= u64::MAX,
        c.heads / c.kv_heads <= u32::MAX,
        ceil_div(c.seqlen as int, block_m as int) * block_m <= u32::MAX,
        ceil_div(c.seqlen as int, 64) * 64 <= u32::MAX,
        0 <= ceil_div(c.seqlen as int, block_m as int) * block_m,
        0 <= ceil_div(c.seqlen as int, 64) * 64,
        0 <= c.seqlen * c.batch <= u32::MAX,
{
    let (b, h, k, d, n) = (
        c.batch as int,
        c.heads as int,
        c.kv_heads as int,
        c.d as int,
        c.seqlen as int,
    );
    lemma_rounded(n, block_m as int);
    lemma_rounded(n, 64);
    assert(h * d <= 0xffff_ffff * 128 && k * d <= 0xffff_ffff * 128 && b * h * d <= 0xffff_ffff
        * 128 && b * k * d <= 0xffff_ffff * 128) by (nonlinear_arith)
        requires
            d == 128,
            0 <= h <= 0xffff_ffff,
            0 <= k <= 0xffff_ffff,
            b * h <= 0xffff_ffff,
            b * k <= 0xffff_ffff,
    ;
    assert(0 <= h / k <= h) by (nonlinear_arith)
        requires
            k > 0,
            0 <= h,
    ;
    assert(0 <= n * b) by (nonlinear_arith)
        requires
            0 <= n,
            0 <= b,
    ;
}

/// What the block says of the queries, keys and values: their addresses, the strides from
/// one sequence to the next, from one token to the next and from one head to the next, how
/// many heads there are, and how many query heads share one of keys.
pub proof fn block_names_the_operands(c: FmhaCall, block_m: u32)
    requires
        c.wf(),
        0 < block_m <= 256,
    ensures
        ({
            let s = param_bytes(c, block_m);
            &&& long_at(s, 0) == c.q
            &&& long_at(s, 8) == c.k
            &&& long_at(s, 16) == c.v
            &&& long_at(s, 24) == c.heads * 128
            &&& long_at(s, 32) == c.kv_heads * 128
            &&& long_at(s, 40) == c.kv_heads * 128
            &&& long_at(s, 48) == c.batch * long_at(s, 24)
            &&& long_at(s, 56) == c.batch * long_at(s, 32)
            &&& long_at(s, 64) == c.batch * long_at(s, 40)
            &&& long_at(s, 72) == 128
            &&& long_at(s, 80) == 128
            &&& long_at(s, 88) == 128
            &&& word_at(s, 96) == c.heads
            &&& word_at(s, 100) == c.kv_heads
            &&& word_at(s, 104) * c.kv_heads == c.heads
            &&& word_at(s, 108) == 0
        }),
{
    reveal_with_fuel(before, 17);
    lemma_sizes(c, block_m);
    let f = operand_fields(c);
    let e = Seq::<u8>::empty();
    let post = fields_bytes(output_fields(c)) + fields_bytes(extent_fields(c, block_m))
        + fields_bytes(unused_fields()) + fields_bytes(mode_fields());
    let s = param_bytes(c, block_m);
    assert(e + fields_bytes(f) + post =~= s);
    let (b, h, k) = (c.batch as int, c.heads as int, c.kv_heads as int);
    lemma_reads(e, f, post, 0, 0, 8, c.q as int);
    lemma_reads(e, f, post, 1, 8, 8, c.k as int);
    lemma_reads(e, f, post, 2, 16, 8, c.v as int);
    lemma_reads(e, f, post, 3, 24, 8, h * c.d);
    lemma_reads(e, f, post, 4, 32, 8, k * c.d);
    lemma_reads(e, f, post, 5, 40, 8, k * c.d);
    lemma_reads(e, f, post, 6, 48, 8, b * h * c.d);
    lemma_reads(e, f, post, 7, 56, 8, b * k * c.d);
    lemma_reads(e, f, post, 8, 64, 8, b * k * c.d);
    lemma_reads(e, f, post, 9, 72, 8, c.d as int);
    lemma_reads(e, f, post, 10, 80, 8, c.d as int);
    lemma_reads(e, f, post, 11, 88, 8, c.d as int);
    lemma_reads(e, f, post, 12, 96, 4, h);
    lemma_reads(e, f, post, 13, 100, 4, k);
    lemma_reads(e, f, post, 14, 104, 4, h / k);
    lemma_reads(e, f, post, 15, 108, 4, 0);
    assert(b * h * 128 == b * (h * 128) && b * k * 128 == b * (k * 128)) by (nonlinear_arith);
    assert(h / k * k == h) by (nonlinear_arith)
        requires
            h % k == 0,
            k > 0,
    ;
}

/// What the block says of the output: its address and its strides, which are those of the
/// queries, and where the logarithms of the sums go. Nothing is accumulated elsewhere.
pub proof fn block_names_the_output(c: FmhaCall, block_m: u32)
    requires
        c.wf(),
        0 < block_m <= 256,
    ensures
        ({
            let s = param_bytes(c, block_m);
            &&& long_at(s, 112) == c.o
            &&& long_at(s, 120) == 0
            &&& long_at(s, 128) == c.heads * 128
            &&& long_at(s, 136) == c.batch * long_at(s, 128)
            &&& long_at(s, 144) == 128
            &&& long_at(s, 152) == 0
            &&& long_at(s, 160) == c.lse
            &&& long_at(s, 168) == 0
        }),
{
    reveal_with_fuel(before, 9);
    lemma_sizes(c, block_m);
    lemma_parts(c, block_m);
    let f = output_fields(c);
    let pre = fields_bytes(operand_fields(c));
    let post = fields_bytes(extent_fields(c, block_m)) + fields_bytes(unused_fields())
        + fields_bytes(mode_fields());
    let s = param_bytes(c, block_m);
    assert(pre + fields_bytes(f) + post =~= s);
    let (b, h) = (c.batch as int, c.heads as int);
    lemma_reads(pre, f, post, 0, 112, 8, c.o as int);
    lemma_reads(pre, f, post, 1, 120, 8, 0);
    lemma_reads(pre, f, post, 2, 128, 8, h * c.d);
    lemma_reads(pre, f, post, 3, 136, 8, b * h * c.d);
    lemma_reads(pre, f, post, 4, 144, 8, c.d as int);
    lemma_reads(pre, f, post, 5, 152, 8, 0);
    lemma_reads(pre, f, post, 6, 160, 8, c.lse as int);
    lemma_reads(pre, f, post, 7, 168, 8, 0);
    assert(b * h * 128 == b * (h * 128)) by (nonlinear_arith);
}

/// What the block says of the extents: the prompts attend to themselves, so there are as
/// many keys as queries, each rounded up to whole tiles of its own; the queries of all
/// sequences together; and scores that are weighted by powers of e as they are.
pub proof fn block_names_the_extents(c: FmhaCall, block_m: u32)
    requires
        c.wf(),
        0 < block_m <= 256,
    ensures
        ({
            let s = param_bytes(c, block_m);
            &&& word_at(s, 176) == c.batch
            &&& word_at(s, 180) == c.seqlen
            &&& word_at(s, 184) == c.seqlen
            &&& word_at(s, 188) == 0
            &&& word_at(s, 192) == 128
            &&& word_at(s, 196) % (block_m as int) == 0
            &&& c.seqlen <= word_at(s, 196) < c.seqlen + block_m
            &&& word_at(s, 200) % 64 == 0
            &&& c.seqlen <= word_at(s, 200) < c.seqlen + 64
            &&& word_at(s, 204) == 128
            &&& word_at(s, 208) == 0
            &&& word_at(s, 212) == word_at(s, 176) * word_at(s, 180)
            &&& word_at(s, 216) == 0x3F80_0000
            &&& word_at(s, 220) == 0x3FB8_AA3B
        }),
{
    reveal_with_fuel(before, 13);
    lemma_sizes(c, block_m);
    lemma_parts(c, block_m);
    let f = extent_fields(c, block_m);
    let pre = fields_bytes(operand_fields(c)) + fields_bytes(output_fields(c));
    let post = fields_bytes(unused_fields()) + fields_bytes(mode_fields());
    let s = param_bytes(c, block_m);
    assert(pre + fields_bytes(f) + post =~= s);
    let (n, b, m) = (c.seqlen as int, c.batch as int, block_m as int);
    let (rq, rk) = (ceil_div(n, m) * m, ceil_div(n, 64) * 64);
    lemma_reads(pre, f, post, 0, 176, 4, b);
    lemma_reads(pre, f, post, 1, 180, 4, n);
    lemma_reads(pre, f, post, 2, 184, 4, n);
    lemma_reads(pre, f, post, 3, 188, 4, 0);
    lemma_reads(pre, f, post, 4, 192, 4, c.d as int);
    lemma_reads(pre, f, post, 5, 196, 4, rq);
    lemma_reads(pre, f, post, 6, 200, 4, rk);
    lemma_reads(pre, f, post, 7, 204, 4, 128);
    lemma_reads(pre, f, post, 8, 208, 4, 0);
    lemma_reads(pre, f, post, 9, 212, 4, n * b);
    lemma_reads(pre, f, post, 10, 216, 4, 0x3F80_0000);
    lemma_reads(pre, f, post, 11, 220, 4, 0x3FB8_AA3B);
    lemma_rounded(n, m);
    lemma_rounded(n, 64);
    vstd::arithmetic::div_mod::lemma_mod_multiples_basic(ceil_div(n, m), m);
    assert(n * b == b * n) by (nonlinear_arith);
}

/// Fields of nothing are zeros.
proof fn lemma_zeros(f: Seq<(u64, usize)>, j: int)
    requires
        forall|i: int| 0 <= i < f.len() ==> (#[trigger] f[i]).0 == 0,
        0 <= j < fields_bytes(f).len(),
    ensures
        fields_bytes(f)[j] == 0,
    decreases f.len(),
{
    let g = f.drop_last();
    assert forall|i: int| 0 <= i < g.len() implies (#[trigger] g[i]).0 == 0 by {
        assert(g[i] == f[i]);
    }
    assert(f[f.len() - 1].0 == 0);
    if j < fields_bytes(g).len() {
        lemma_zeros(g, j);
    } else {
        lemma_zero_bytes(f.last().1 as nat, j - fields_bytes(g).len());
    }
}

proof fn lemma_zero_bytes(n: nat, j: int)
    requires
        0 <= j < le_bytes(0, n).len(),
    ensures
        le_bytes(0, n)[j] == 0,
    decreases n,
{
    if n > 0 && j > 0 {
        lemma_zero_bytes((n - 1) as nat, j - 1);
    }
}

/// What the block says of the rest: no lengths of their own for the sequences, no further
/// keys, no rotation and no pages, no dropout; a window that is open to the left and ends
/// at the token itself; the causal mask, `f16` operands, and one split.
pub proof fn block_names_the_mode(c: FmhaCall, block_m: u32)
    requires
        c.wf(),
        0 < block_m <= 256,
    ensures
        ({
            let s = param_bytes(c, block_m);
            &&& s.len() == 456
            &&& forall|j: int| 224 <= j < 380 ==> s[j] == 0
            &&& word_at(s, 380) == 0x3F80_0000
            &&& word_at(s, 384) == 0x3F80_0000
            &&& word_at(s, 388) == 0xffff_ffff
            &&& word_at(s, 392) == 0
            &&& word_at(s, 396) == 0
            &&& long_at(s, 400) == 0
            &&& long_at(s, 408) == 0
            &&& long_at(s, 416) == 0
            &&& number_at(s, 424, 1) == 0
            &&& number_at(s, 425, 1) == 1
            &&& number_at(s, 426, 1) == 0
            &&& number_at(s, 427, 1) == 0
            &&& word_at(s, 428) == 1
            &&& long_at(s, 432) == 0
            &&& long_at(s, 440) == 0
            &&& number_at(s, 448, 1) == 0
            &&& number_at(s, 449, 1) == 0
        }),
{
    reveal_with_fuel(before, 23);
    lemma_parts(c, block_m);
    param_block_has_fixed_size(c, block_m);
    let f = mode_fields();
    let g = unused_fields();
    let mid = fields_bytes(operand_fields(c)) + fields_bytes(output_fields(c)) + fields_bytes(
        extent_fields(c, block_m),
    );
    let pre = mid + fields_bytes(g);
    let e = Seq::<u8>::empty();
    let s = param_bytes(c, block_m);
    assert(pre + fields_bytes(f) + e =~= s);
    lemma_reads(pre, f, e, 4, 380, 4, 0x3F80_0000);
    lemma_reads(pre, f, e, 5, 384, 4, 0x3F80_0000);
    lemma_reads(pre, f, e, 6, 388, 4, 0xffff_ffff);
    lemma_reads(pre, f, e, 7, 392, 4, 0);
    lemma_reads(pre, f, e, 8, 396, 4, 0);
    lemma_reads(pre, f, e, 9, 400, 8, 0);
    lemma_reads(pre, f, e, 10, 408, 8, 0);
    lemma_reads(pre, f, e, 11, 416, 8, 0);
    lemma_reads(pre, f, e, 12, 424, 1, 0);
    lemma_reads(pre, f, e, 13, 425, 1, 1);
    lemma_reads(pre, f, e, 14, 426, 1, 0);
    lemma_reads(pre, f, e, 15, 427, 1, 0);
    lemma_reads(pre, f, e, 16, 428, 4, 1);
    lemma_reads(pre, f, e, 17, 432, 8, 0);
    lemma_reads(pre, f, e, 18, 440, 8, 0);
    lemma_reads(pre, f, e, 19, 448, 1, 0);
    lemma_reads(pre, f, e, 20, 449, 1, 0);
    let first = f.take(4);
    assert(fields_bytes(f).take(12) =~= fields_bytes(first)) by {
        reveal_with_fuel(fields_bytes, 5);
        lemma_take(f, 4);
        assert(before(f, 4) == 12);
    }
    assert forall|j: int| 224 <= j < 380 implies s[j] == 0 by {
        if j < 368 {
            lemma_zeros(g, j - 224);
            assert(s[j] == fields_bytes(g)[j - 224]);
        } else {
            lemma_zeros(first, j - 368);
            assert(s[j] == fields_bytes(f)[j - 368]);
            assert(fields_bytes(f).take(12)[j - 368] == fields_bytes(f)[j - 368]);
        }
    }
}

/// The first fields are the first bytes.
proof fn lemma_take(f: Seq<(u64, usize)>, n: nat)
    requires
        n <= f.len(),
    ensures
        before(f, n) <= fields_bytes(f).len(),
        fields_bytes(f.take(n as int)) == fields_bytes(f).take(before(f, n) as int),
    decreases f.len(),
{
    lemma_fields_len(f);
    if n == f.len() {
        assert(f.take(n as int) =~= f);
        assert(fields_bytes(f).take(before(f, n) as int) =~= fields_bytes(f));
    } else {
        let g = f.drop_last();
        lemma_take(g, n);
        lemma_before(f, g, n);
        assert(f.take(n as int) =~= g.take(n as int));
        assert(fields_bytes(f).take(before(f, n) as int) =~= fields_bytes(g).take(
            before(f, n) as int,
        ));
    }
}

/// Where the kernel finds element `i` of head `h` of token `t` of sequence `b`, given the
/// places in the block of the strides.
pub open spec fn element(
    s: Seq<u8>,
    row: int,
    batch: int,
    head: int,
    t: int,
    b: int,
    h: int,
    i: int,
) -> int {
    t * long_at(s, row) + b * long_at(s, batch) + h * long_at(s, head) + i
}

proof fn lemma_element(t: int, b: int, h: int, i: int, n: int, batch: int, heads: int)
    requires
        0 <= t < n,
        0 <= b < batch,
        0 <= h < heads,
        0 <= i < 128,
    ensures
        t * (batch * (heads * 128)) + b * (heads * 128) + h * 128 + i == ((t * batch + b) * heads
            + h) * 128 + i,
        0 <= ((t * batch + b) * heads + h) * 128 + i < n * batch * heads * 128,
{
    assert(t * (batch * (heads * 128)) + b * (heads * 128) + h * 128 + i == ((t * batch + b)
        * heads + h) * 128 + i) by (nonlinear_arith);
    let r = t * batch + b;
    assert(0 <= r < n * batch) by (nonlinear_arith)
        requires
            r == t * batch + b,
            0 <= t,
            t + 1 <= n,
            0 <= b < batch,
    ;
    let q = r * heads + h;
    let w = n * batch;
    assert(0 <= q < w * heads) by (nonlinear_arith)
        requires
            q == r * heads + h,
            0 <= r,
            r + 1 <= w,
            0 <= h < heads,
    ;
}

/// The strides in the block address every element of the queries and of the output at the
/// place that a row per token and sequence gives it, within their extent.
pub proof fn strides_address_the_queries(
    c: FmhaCall,
    block_m: u32,
    t: int,
    b: int,
    h: int,
    i: int,
)
    requires
        c.wf(),
        0 < block_m <= 256,
        0 <= t < c.seqlen,
        0 <= b < c.batch,
        0 <= h < c.heads,
        0 <= i < c.d,
    ensures
        ({
            let s = param_bytes(c, block_m);
            let at = ((t * c.batch + b) * c.heads + h) * c.d + i;
            &&& element(s, 48, 24, 72, t, b, h, i) == at
            &&& element(s, 136, 128, 144, t, b, h, i) == at
            &&& 0 <= at < word_at(s, 180) * word_at(s, 176) * word_at(s, 96) * word_at(s, 192)
        }),
{
    block_names_the_operands(c, block_m);
    block_names_the_output(c, block_m);
    block_names_the_extents(c, block_m);
    lemma_element(t, b, h, i, c.seqlen as int, c.batch as int, c.heads as int);
}

/// The strides in the block address every element of the keys and of the values at the
/// place that a row per token and sequence gives it, within their extent; and every query
/// head reads a head of them that there is.
pub proof fn strides_address_the_keys(
    c: FmhaCall,
    block_m: u32,
    t: int,
    b: int,
    h: int,
    i: int,
)
    requires
        c.wf(),
        0 < block_m <= 256,
        0 <= t < c.seqlen,
        0 <= b < c.batch,
        0 <= h < c.heads,
        0 <= i < c.d,
    ensures
        ({
            let s = param_bytes(c, block_m);
            let g = h / word_at(s, 104);
            let at = ((t * c.batch + b) * c.kv_heads + g) * c.d + i;
            &&& g == h * c.kv_heads / (c.heads as int)
            &&& 0 <= g < c.kv_heads
            &&& element(s, 56, 32, 80, t, b, g, i) == at
            &&& element(s, 64, 40, 88, t, b, g, i) == at
            &&& 0 <= at < word_at(s, 184) * word_at(s, 176) * word_at(s, 100) * word_at(s, 192)
        }),
{
    block_names_the_operands(c, block_m);
    block_names_the_extents(c, block_m);
    let s = param_bytes(c, block_m);
    let (r, k, q) = (word_at(s, 104), c.kv_heads as int, c.heads as int);
    assert(r > 0) by (nonlinear_arith)
        requires
            r * k == q,
            0 < q,
            0 < k,
    ;
    let g = h / r;
    assert(0 <= g < k) by (nonlinear_arith)
        requires
            g == h / r,
            0 <= h < r * k,
            r > 0,
    ;
    vstd::arithmetic::div_mod::lemma_div_multiples_vanish_quotient(k, h, r);
    assert(k * h == h * k && k * r == r * k) by (nonlinear_arith);
    lemma_element(t, b, g, i, c.seqlen as int, c.batch as int, k);
}

/// A launch has a block for every tile of rows of every head of every sequence, and no
/// more; and it takes the form of the kernel that leaves a check out only where the tiles
/// come out even.
pub proof fn tiles_cover_the_prompt(
    on: Queue,
    v: FmhaVariant,
    c: FmhaCall,
    smem: Option<u32>,
    t: int,
)
    requires
        c.wf(),
        0 < v.block_m <= 256,
        0 <= t < c.seqlen,
    ensures
        ({
            let l = fmha_launch(on, v, c, smem);
            &&& t / (v.block_m as int) < l.grid.x
            &&& (l.grid.x - 1) * v.block_m < c.seqlen
            &&& l.grid.y == word_at(l.params, 176)
            &&& l.grid.z == word_at(l.params, 96)
            &&& l.block.x == v.threads && l.block.y == 1 && l.block.z == 1
            &&& l.kernel matches Kernel::Fmha { variant, mn_even, k_even } && variant == v.id
                && mn_even == (word_at(l.params, 196) == c.seqlen) && k_even == (word_at(
                l.params,
                200,
            ) == c.seqlen)
        }),
{
    let (n, m) = (c.seqlen as int, v.block_m as int);
    block_names_the_operands(c, v.block_m);
    block_names_the_extents(c, v.block_m);
    lemma_ceil_div(n, m);
    lemma_rounded(n, m);
    let x = ceil_div(n, m);
    assert(x <= n) by (nonlinear_arith)
        requires
            (x - 1) * m < n,
            m >= 1,
            n >= 1,
    ;
    assert(t / m < x) by (nonlinear_arith)
        requires
            0 <= t < n,
            n <= x * m,
            m > 0,
    ;
    let s = param_bytes(c, v.block_m);
    let (rq, rk) = (word_at(s, 196), word_at(s, 200));
    lemma_even(n, m, rq);
    lemma_even(n, 64, rk);
    let l = fmha_launch(on, v, c, smem);
    assert(l.grid.x == x);
    assert((x - 1) * m < n);
    assert(l.kernel == (Kernel::Fmha { variant: v.id, mn_even: rq == n, k_even: rk == n }));
}

/// What is rounded up to whole tiles stays as it is where it is even.
proof fn lemma_even(n: int, m: int, r: int)
    requires
        m > 0,
        r % m == 0,
        n <= r < n + m,
    ensures
        n % m == 0 <==> r == n,
{
    if n % m == 0 {
        let d = r - n;
        vstd::arithmetic::div_mod::lemma_sub_mod_noop(r, n, m);
        vstd::arithmetic::div_mod::lemma_small_mod(0, m as nat);
        assert(d % m == 0);
        vstd::arithmetic::div_mod::lemma_small_mod(d as nat, m as nat);
    }
}

} // verus!
