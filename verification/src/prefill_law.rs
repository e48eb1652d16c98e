//! That a pass over a prompt computes the model's step for every token.

use vstd::prelude::*;

use crate::batch_law::{merged, row_at};
use crate::buffer::DeviceBuffer;
use crate::fmha::FmhaCall;
use crate::gemm::{ComputeType, DataType, GemmCall, Transpose};
use crate::launch::{blocks256, Kernel, LaunchV, Queue};
use crate::meaning::{
    covers, gated, half, lemma_blocks_cover, one, product, rotated, scaled, set_up, Memory, Row,
    Slot, Source,
};
use crate::math::lemma_ceil_div;
use crate::model::LayerWeights;
use crate::prefill::{
    p_cast, p_fmha, p_gather, p_kv_write, p_norm, p_rms, p_rope, p_scale, p_swiglu, pattn_ops,
    pffn_ops, pgemm, players_ops, pout_ops, pput, pqkv_ops, prefill_ops, prun, ptag, PrefillCtx,
    PrefillOpV, QkvScratch,
};
use crate::ptag::PTag;
use crate::reference::{apart, Ask, Net};
use crate::split_law::{lemma_place, net_of, place_of};
use crate::step::lemma_layer_page;

verus! {

/// Matrices that are joined row by row, by the address of the joined one.
pub type Joined = Map<int, (int, int, int)>;

/// What a launch of a pass over `b` tokens does to the row of token `i`, whose position
/// is its place in the prompt.
pub open spec fn passed(m: Memory, l: LaunchV, on: Queue, b: int, i: int, j: Joined) -> Memory {
    let a = l.args.map_values(|w: u64| w as int);
    if !set_up(l, on) {
        Memory::lost()
    } else {
        match l.kernel {
            Kernel::RopeNeoxRowsF16 => if a[3] == b && l.grid.x * a[5] >= b * a[2] && a[5] * a[1]
                <= l.block.x {
                let at = row_at(a[0], i, a[2] * (2 * a[1]), 2);
                m.put(at, rotated(m.at(at), a[2], a[1], i, a[4]))
            } else {
                Memory::lost()
            },
            Kernel::ScaleF16 => if covers(l, a[1]) && a[1] % b == 0 {
                let at = row_at(a[0], i, a[1] / b, 2);
                m.put(at, scaled(m.at(at), a[2]))
            } else {
                Memory::lost()
            },
            Kernel::SwigluF16 => if covers(l, a[3]) && a[3] % b == 0 {
                let n = a[3] / b;
                m.put(
                    row_at(a[2], i, n, 2),
                    gated(m.at(row_at(a[0], i, n, 2)), m.at(row_at(a[1], i, n, 2)), n),
                )
            } else {
                Memory::lost()
            },
            Kernel::CastSplitQkvF16 => if l.grid.y == b && covers(l, a[4] + 2 * a[5]) {
                match m.at(row_at(a[0], i, a[4] + 2 * a[5], 4)) {
                    Row::Product { of, w, n, k } => if n == a[4] + 2 * a[5] {
                        let (wq, wk, wv) = j[w];
                        m.put(
                            row_at(a[1], i, a[4], 2),
                            half(product(*of, wq, a[4], k), a[4]),
                        ).put(
                            row_at(a[2], i, a[5], 2),
                            half(product(*of, wk, a[5], k), a[5]),
                        ).put(row_at(a[3], i, a[5], 2), half(product(*of, wv, a[5], k), a[5]))
                    } else {
                        Memory::lost()
                    },
                    _ => Memory::lost(),
                }
            } else {
                Memory::lost()
            },
            Kernel::KvWriteSeqRows => if a[3] == b && covers(l, b * (a[5] * a[6])) {
                m.slot(
                    Slot {
                        kv: a[2],
                        pages: a[8],
                        page: a[7] + i / a[4],
                        place: i % a[4],
                        block_len: a[4],
                        kv_heads: a[5],
                        d: a[6],
                        key: m.at(row_at(a[0], i, a[5] * a[6], 2)),
                        value: m.at(row_at(a[1], i, a[5] * a[6], 2)),
                    },
                )
            } else {
                Memory::lost()
            },
            _ => merged(m, l, on, b, i),
        }
    }
}

/// What attention over a prompt does to the row of token `i`: it attends to the tokens up
/// to its own.
pub open spec fn prompted(m: Memory, c: FmhaCall, b: int, i: int) -> Memory {
    let (q, k) = (c.heads * c.d, c.kv_heads * c.d);
    if c.batch == 1 && c.seqlen == b {
        m.put(
            row_at(c.o as int, i, q, 2),
            Row::Attention {
                q: Box::new(m.at(row_at(c.q as int, i, q, 2))),
                key: Box::new(m.at(row_at(c.k as int, i, k, 2))),
                value: Box::new(m.at(row_at(c.v as int, i, k, 2))),
                at: i,
                len: i + 1,
                from: Source::Prompt,
                heads: c.heads as int,
                ratio: c.heads as int / c.kv_heads as int,
                kv_heads: c.kv_heads as int,
                d: c.d as int,
            },
        )
    } else {
        Memory::lost()
    }
}

/// Whether a call is the product of `b` rows with a matrix whose rows lie one after the
/// other, into rows that do: element `(i, j)` is the sum over `l` of `b[i * k + l]` and
/// `a[l * m + j]`, at `i * m + j`, and nothing is added.
pub open spec fn is_rows_product(g: GemmCall, b: int) -> bool {
    &&& g.n == b
    &&& g.trans_a == Transpose::N && g.a.ld == g.m
    &&& g.trans_b == Transpose::N && g.b.ld == g.k
    &&& g.c.ld == g.m
    &&& g.a.dtype == DataType::F16 && g.b.dtype == DataType::F16 && g.c.dtype == DataType::F32
    &&& g.compute == ComputeType::F32
    &&& g.alpha_bits == one() && g.beta_bits == 0
}

/// What an operation of a pass does to the row of token `i`.
pub open spec fn passed_op(m: Memory, o: PrefillOpV, x: PrefillCtx, i: int, j: Joined) -> Memory {
    match o {
        PrefillOpV::Launch(l) => passed(m, l, x.c.on, x.s as int, i, j),
        PrefillOpV::Gemm(g) => if g.on == x.c.on && is_rows_product(g, x.s as int) {
            m.put(
                row_at(g.c.ptr as int, i, g.m as int, 4),
                product(
                    m.at(row_at(g.b.ptr as int, i, g.k as int, 2)),
                    g.a.ptr as int,
                    g.m as int,
                    g.k as int,
                ),
            )
        } else {
            Memory::lost()
        },
        PrefillOpV::Fmha(c) => prompted(m, c, x.s as int, i),
        PrefillOpV::Mark(_) => m,
    }
}

/// What a pass does to the row of token `i`.
pub open spec fn passed_ops(
    m: Memory,
    ops: Seq<PrefillOpV>,
    x: PrefillCtx,
    i: int,
    j: Joined,
) -> Memory
    decreases ops.len(),
{
    if ops.len() == 0 {
        m
    } else {
        passed_op(passed_ops(m, ops.drop_last(), x, i, j), ops.last(), x, i, j)
    }
}

broadcast proof fn lemma_passed_push(
    m: Memory,
    ops: Seq<PrefillOpV>,
    o: PrefillOpV,
    x: PrefillCtx,
    i: int,
    j: Joined,
)
    ensures
        #[trigger] passed_ops(m, ops.push(o), x, i, j) == passed_op(
            passed_ops(m, ops, x, i, j),
            o,
            x,
            i,
            j,
        ),
{
    assert(ops.push(o).drop_last() =~= ops);
}

/// Row `i` of the buffers of a pass.
pub open spec fn pass_rows(x: PrefillCtx, i: int) -> Seq<int> {
    let (b, g) = (x.b, x.c.cfg);
    let (h, f) = (g.hidden_size as int, g.ffn_hidden as int);
    let (q, k) = (g.q_heads * g.head_dim, g.kv_heads * g.head_dim);
    seq![
        row_at(b.x.ptr as int, i, h, 2),
        row_at(b.xn.ptr as int, i, h, 2),
        row_at(b.q.ptr as int, i, q, 2),
        row_at(b.k.ptr as int, i, k, 2),
        row_at(b.v.ptr as int, i, k, 2),
        row_at(b.o.ptr as int, i, q, 2),
        row_at(b.oadd.ptr as int, i, h, 2),
        row_at(b.gate.ptr as int, i, f, 2),
        row_at(b.up.ptr as int, i, f, 2),
        row_at(b.down.ptr as int, i, f, 2),
        row_at(b.l2.ptr as int, i, h, 2),
        row_at(b.c_o.ptr as int, i, h, 4),
        row_at(b.c_g.ptr as int, i, f, 4),
        row_at(b.c_u.ptr as int, i, f, 4),
        row_at(b.c_d.ptr as int, i, h, 4),
        row_at(b.logits.ptr as int, i, g.vocab_size as int, 4),
    ] + match b.c_qkv {
        QkvScratch::Joined { qkv } => seq![row_at(qkv.ptr as int, i, q + 2 * k, 4)],
        QkvScratch::Apart { q: cq, k: ck, v: cv } => seq![
            row_at(cq.ptr as int, i, q, 4),
            row_at(ck.ptr as int, i, k, 4),
            row_at(cv.ptr as int, i, k, 4),
        ],
    }
}

/// The buffers of a row by name.
struct Names {
    x: int,
    xn: int,
    q: int,
    k: int,
    v: int,
    o: int,
    oadd: int,
    gate: int,
    up: int,
    down: int,
    l2: int,
    c_o: int,
    c_g: int,
    c_u: int,
    c_d: int,
    logits: int,
}

spec fn names(x: PrefillCtx, i: int) -> Names {
    let s = pass_rows(x, i);
    Names {
        x: s[0],
        xn: s[1],
        q: s[2],
        k: s[3],
        v: s[4],
        o: s[5],
        oadd: s[6],
        gate: s[7],
        up: s[8],
        down: s[9],
        l2: s[10],
        c_o: s[11],
        c_g: s[12],
        c_u: s[13],
        c_d: s[14],
        logits: s[15],
    }
}

/// Names that differ.
spec fn differ(x: PrefillCtx, i: int) -> bool {
    let (s, n) = (pass_rows(x, i), names(x, i));
    &&& place_of(s, n.x) == 0
    &&& place_of(s, n.xn) == 1
    &&& place_of(s, n.q) == 2
    &&& place_of(s, n.k) == 3
    &&& place_of(s, n.v) == 4
    &&& place_of(s, n.o) == 5
    &&& place_of(s, n.oadd) == 6
    &&& place_of(s, n.gate) == 7
    &&& place_of(s, n.up) == 8
    &&& place_of(s, n.down) == 9
    &&& place_of(s, n.l2) == 10
    &&& place_of(s, n.c_o) == 11
    &&& place_of(s, n.c_g) == 12
    &&& place_of(s, n.c_u) == 13
    &&& place_of(s, n.c_d) == 14
    &&& place_of(s, n.logits) == 15
    &&& place_of(s, s[16]) == 16
    &&& x.b.c_qkv is Apart ==> place_of(s, s[17]) == 17 && place_of(s, s[18]) == 18
}

proof fn lemma_differ(x: PrefillCtx, i: int)
    requires
        apart(pass_rows(x, i)),
    ensures
        differ(x, i),
{
    let s = pass_rows(x, i);
    assert forall|j: int| 0 <= j < s.len() implies #[trigger] place_of(s, s[j]) == j by {
        lemma_place(s, j);
    }
    assert(place_of(s, s[0]) == 0 && place_of(s, s[1]) == 1 && place_of(s, s[2]) == 2);
    assert(place_of(s, s[3]) == 3 && place_of(s, s[4]) == 4 && place_of(s, s[5]) == 5);
    assert(place_of(s, s[6]) == 6 && place_of(s, s[7]) == 7 && place_of(s, s[8]) == 8);
    assert(place_of(s, s[9]) == 9 && place_of(s, s[10]) == 10 && place_of(s, s[11]) == 11);
    assert(place_of(s, s[12]) == 12 && place_of(s, s[13]) == 13 && place_of(s, s[14]) == 14);
    assert(place_of(s, s[15]) == 15 && place_of(s, s[16]) == 16);
}

/// A pass over rows of `w` elements has `s` times as many.
spec fn whole(x: PrefillCtx, w: u32) -> bool {
    let b = x.s as int;
    x.rows(w) == b * w && (b * w) % b == 0 && (b * w) / b == w
}

proof fn lemma_whole(x: PrefillCtx, w: u32)
    requires
        x.s > 0,
        x.s * w <= u32::MAX,
    ensures
        whole(x, w),
{
    let (b, n) = (x.s as int, w as int);
    assert(0 <= b * n) by (nonlinear_arith)
        requires
            b > 0,
            n >= 0,
    ;
    vstd::arithmetic::div_mod::lemma_mod_multiples_basic(n, b);
    vstd::arithmetic::div_mod::lemma_div_multiples_vanish(n, b);
    assert(b * n == n * b) by (nonlinear_arith);
}

/// Whether the products of a pass have extents that their calls can express.
pub open spec fn small(x: PrefillCtx) -> bool {
    x.s <= i32::MAX && x.c.cfg.q_heads * x.c.cfg.head_dim + 2 * (x.c.cfg.kv_heads
        * x.c.cfg.head_dim) <= i32::MAX
}

/// What the laws of a token's row are about.
spec fn row_ok(x: PrefillCtx, i: int) -> bool {
    let (g, n) = (x.c.cfg, x.c.nums_of());
    &&& x.wf()
    &&& 0 <= i < x.s
    &&& small(x)
    &&& differ(x, i)
    &&& n.h == g.hidden_size && n.nqk == g.q_heads * g.head_dim && n.kvk == g.kv_heads * g.head_dim
    &&& n.ffn == g.ffn_hidden && n.d == g.head_dim && n.q_heads == g.q_heads && n.kv_heads
        == g.kv_heads
    &&& n.half == 64 && g.head_dim == 128
    &&& n.total_pages == g.n_layer * x.c.pp
    &&& whole(x, n.h) && whole(x, n.nqk) && whole(x, n.kvk) && whole(x, n.ffn)
    &&& whole(x, n.q_heads) && whole(x, n.kv_heads)
}

proof fn lemma_row_ok(x: PrefillCtx, i: int)
    requires
        x.wf(),
        small(x),
        0 <= i < x.s,
        apart(pass_rows(x, i)),
    ensures
        row_ok(x, i),
{
    let (g, b) = (x.c.cfg, x.s as int);
    g.lemma_heads();
    lemma_differ(x, i);
    let (n, p) = (g.n_layer as int, x.c.pp as int);
    assert(p <= n * p) by (nonlinear_arith)
        requires
            n >= 1,
            p >= 0,
    ;
    let (q, k, h) = (g.q_heads as int, g.kv_heads as int, g.hidden_size as int);
    assert(b * q <= b * g.nqk() && b * k <= b * g.kvk() && b <= b * h) by (nonlinear_arith)
        requires
            b > 0,
            h > 0,
            q <= g.nqk(),
            k <= g.kvk(),
    ;
    let w = x.c.nums_of();
    lemma_whole(x, w.h);
    lemma_whole(x, w.nqk);
    lemma_whole(x, w.kvk);
    lemma_whole(x, w.ffn);
    lemma_whole(x, w.q_heads);
    lemma_whole(x, w.kv_heads);
}

/// Whether the joined projections of a layer are joined of its own.
pub open spec fn is_joined(j: Joined, w: LayerWeights) -> bool {
    w.qkv_proj is Some && j[w.qkv_proj->0.ptr as int] == (
        w.q_proj.ptr as int,
        w.k_proj.ptr as int,
        w.v_proj.ptr as int,
    )
}

/// A product of a token.
proof fn lemma_pgemm(
    m: Memory,
    ops: Seq<PrefillOpV>,
    x: PrefillCtx,
    a: u64,
    w: u64,
    n: int,
    k: int,
    c: u64,
    t: PTag,
    i: int,
    j: Joined,
)
    requires
        0 <= x.s <= i32::MAX,
        0 <= n <= i32::MAX,
        0 <= k <= i32::MAX,
    ensures
        ({
            let before = passed_ops(m, ops, x, i, j);
            passed_ops(m, pgemm(ops, x.c.on, a, w, x.s, n, k, c, t), x, i, j) == before.put(
                row_at(c as int, i, n, 4),
                product(before.at(row_at(a as int, i, k, 2)), w as int, n, k),
            )
        }),
{
    broadcast use lemma_passed_push;

}

/// The norm and the projections of a token.
proof fn lemma_pqkv(
    m: Memory,
    ops: Seq<PrefillOpV>,
    x: PrefillCtx,
    net: Net,
    w: LayerWeights,
    i: int,
    j: Joined,
)
    requires
        row_ok(x, i),
        net.g == x.c.cfg,
        x.b.c_qkv is Joined ==> is_joined(j, w),
    ensures
        ({
            let s = prun(ops, p_rms(x, w.attn_norm.ptr), PTag::RmsAttn);
            let (a, z) = (
                passed_ops(m, ops, x, i, j),
                passed_ops(m, pqkv_ops(s, x, w), x, i, j),
            );
            let n = names(x, i);
            let r = a.at(n.x);
            let xn = net.normed(r, w.attn_norm.ptr as int);
            &&& z.at(n.x) == r
            &&& z.at(n.q) == net.projected(xn, w.q_proj.ptr as int, net.g.q_heads as int)
            &&& z.at(n.k) == net.projected(xn, w.k_proj.ptr as int, net.g.kv_heads as int)
            &&& z.at(n.v) == net.value(r, w)
            &&& z.cache == a.cache
            &&& z.words == a.words
        }),
{
    broadcast use lemma_passed_push, lemma_blocks_cover;

    let (g, b, n) = (net.g, x.b, x.c.nums_of());
    g.lemma_heads();
    let (h, nq, nk) = (g.hidden_size as int, g.nqk(), g.kvk());
    let s = prun(ops, p_rms(x, w.attn_norm.ptr), PTag::RmsAttn);
    let m0 = passed_ops(m, s, x, i, j);
    match b.c_qkv {
        QkvScratch::Joined { qkv } => {
            let t = nq + 2 * nk;
            lemma_pgemm(
                m,
                s,
                x,
                b.xn.ptr,
                w.qkv_proj->0.ptr,
                t,
                h,
                qkv.ptr,
                PTag::GemmQkv,
                i,
                j,
            );
            let s1 = pgemm(
                s,
                x.c.on,
                b.xn.ptr,
                w.qkv_proj->0.ptr,
                x.s,
                t,
                h,
                qkv.ptr,
                PTag::GemmQkv,
            );
            let m1 = passed_ops(m, s1, x, i, j);
            assert(pass_rows(x, i)[16] == row_at(qkv.ptr as int, i, t, 4));
            assert(m1.at(row_at(qkv.ptr as int, i, t, 4)) == product(
                m0.at(names(x, i).xn),
                w.qkv_proj->0.ptr as int,
                t,
                h,
            ));
        },
        QkvScratch::Apart { q, k, v } => {
            let (xn, on) = (b.xn.ptr, x.c.on);
            let r = pass_rows(x, i);
            assert(r[16] == row_at(q.ptr as int, i, nq, 4));
            assert(r[17] == row_at(k.ptr as int, i, nk, 4));
            assert(r[18] == row_at(v.ptr as int, i, nk, 4));
            lemma_pgemm(m, s, x, xn, w.q_proj.ptr, nq, h, q.ptr, PTag::GemmQkv, i, j);
            let s1 = pgemm(s, on, xn, w.q_proj.ptr, x.s, nq, h, q.ptr, PTag::GemmQkv);
            let s2 = pput(s1, p_cast(x, q.ptr, b.q.ptr, n.nqk));
            lemma_pgemm(m, s2, x, xn, w.k_proj.ptr, nk, h, k.ptr, PTag::GemmQkv, i, j);
            let s3 = pgemm(s2, on, xn, w.k_proj.ptr, x.s, nk, h, k.ptr, PTag::GemmQkv);
            let s4 = pput(s3, p_cast(x, k.ptr, b.k.ptr, n.kvk));
            lemma_pgemm(m, s4, x, xn, w.v_proj.ptr, nk, h, v.ptr, PTag::GemmQkv, i, j);
        },
    }
}

/// What is asked for the token at place `i` of a prompt: the step at that position, over
/// the tokens up to it.
pub open spec fn ask_at(x: PrefillCtx, ids: Seq<u32>, i: int) -> Ask {
    Ask {
        token: ids[i] as int,
        pos: i,
        len: i + 1,
        kv: x.c.kv as int,
        pages: x.c.cfg.n_layer * x.c.pp,
        base: 0,
        pp: x.c.pp as int,
        prompt: true,
    }
}

/// The blocks of the rotary embedding cover all heads of all tokens, and those of the
/// write of the cache all elements.
proof fn lemma_grids(x: PrefillCtx, i: int, heads: u32, li: int)
    requires
        row_ok(x, i),
        x.s * heads <= u32::MAX,
        0 <= li < x.c.cfg.n_layer,
    ensures
        ({
            let (l, k) = (p_rope(x, heads, 0), p_kv_write(x, li));
            &&& l.grid.x * 4 >= x.s * heads
            &&& l.args[5] == 4
            &&& k.grid.x * 256 >= x.s * (x.c.cfg.kv_heads * x.c.cfg.head_dim)
            &&& k.args[7] == li * x.c.pp
        }),
{
    broadcast use lemma_blocks_cover;

    let (s, n) = (x.s as int, x.c.cfg.kv_heads * x.c.cfg.head_dim);
    x.c.cfg.lemma_heads();
    lemma_layer_page(x.c, li);
    assert(0 <= s * heads) by (nonlinear_arith)
        requires
            s >= 0,
    ;
    lemma_ceil_div(s * heads, 4);
    lemma_ceil_div(n, 256);
    let b = blocks256(n) as int;
    assert(b * 256 >= n);
    assert(0 <= s * b && s * b <= s * n && s * b * 256 >= s * n) by (nonlinear_arith)
        requires
            s >= 0,
            0 <= b <= n,
            b * 256 >= n,
    ;
}

/// Head norms, rotary embedding, attention and the cache slot of a token.
proof fn lemma_pattn(
    m: Memory,
    ops: Seq<PrefillOpV>,
    x: PrefillCtx,
    net: Net,
    ids: Seq<u32>,
    r: Row,
    li: int,
    i: int,
    j: Joined,
)
    requires
        row_ok(x, i),
        net.g == x.c.cfg,
        0 <= li < x.c.cfg.n_layer,
        ({
            let (a, n, w) = (passed_ops(m, ops, x, i, j), names(x, i), net.layers[li]);
            let xn = net.normed(r, w.attn_norm.ptr as int);
            &&& a.at(n.x) == r
            &&& a.at(n.q) == net.projected(xn, w.q_proj.ptr as int, net.g.q_heads as int)
            &&& a.at(n.k) == net.projected(xn, w.k_proj.ptr as int, net.g.kv_heads as int)
            &&& a.at(n.v) == net.value(r, w)
        }),
    ensures
        ({
            let (w, ask) = (net.layers[li], ask_at(x, ids, i));
            let (a, z) = (
                passed_ops(m, ops, x, i, j),
                passed_ops(m, pattn_ops(ops, x, w, li), x, i, j),
            );
            let n = names(x, i);
            &&& z.at(n.x) == r
            &&& z.at(n.o) == net.attention(r, w, ask, li)
            &&& z.cache == a.cache.push(net.slot(r, ask, li))
            &&& z.words == a.words
        }),
{
    broadcast use lemma_passed_push, lemma_blocks_cover;

    let (g, n, nm) = (net.g, x.c.nums_of(), names(x, i));
    let (w, ask) = (net.layers[li], ask_at(x, ids, i));
    g.lemma_heads();
    lemma_grids(x, i, n.q_heads, li);
    lemma_grids(x, i, n.kv_heads, li);
    let (q, k) = (x.b.q.ptr, x.b.k.ptr);
    let s0 = match (w.q_norm, w.k_norm) {
        (Some(qn), Some(kn)) => prun(
            prun(ops, p_norm(x, n.q_heads, q, qn.ptr), PTag::RmsHeadsQ),
            p_norm(x, n.kv_heads, k, kn.ptr),
            PTag::RmsHeadsK,
        ),
        _ => ops,
    };
    let a = passed_ops(m, ops, x, i, j);
    let m0 = passed_ops(m, s0, x, i, j);
    assert(m0.at(nm.x) == r && m0.at(nm.v) == net.value(r, w) && m0.cache == a.cache && m0.words
        == a.words);
    let s1 = prun(s0, p_rope(x, n.q_heads, q), PTag::RopeQ);
    let s2 = prun(s1, p_rope(x, n.kv_heads, k), PTag::RopeK);
    let s3 = prun(s2, p_scale(x), PTag::ScaleQ);
    let m1 = passed_ops(m, s1, x, i, j);
    let m2 = passed_ops(m, s2, x, i, j);
    let m3 = passed_ops(m, s3, x, i, j);
    assert(m2.at(nm.k) == net.key(r, w, i));
    assert(m3.at(nm.q) == net.query(r, w, i));
    assert(m3.at(nm.k) == net.key(r, w, i));
    assert(m3.at(nm.v) == net.value(r, w) && m3.at(nm.x) == r);
    assert(m3.cache == a.cache && m3.words == a.words);
    let s4 = ptag(s3.push(PrefillOpV::Fmha(p_fmha(x))), PTag::Fmha);
    let m4 = passed_ops(m, s4, x, i, j);
    assert(m4 == m3.put(nm.o, net.attention(r, w, ask, li)));
}

/// The attention output of a token.
proof fn lemma_pout(
    m: Memory,
    ops: Seq<PrefillOpV>,
    x: PrefillCtx,
    net: Net,
    w: LayerWeights,
    i: int,
    j: Joined,
)
    requires
        row_ok(x, i),
        net.g == x.c.cfg,
    ensures
        ({
            let (a, z) = (passed_ops(m, ops, x, i, j), passed_ops(m, pout_ops(ops, x, w), x, i, j));
            let n = names(x, i);
            &&& z.at(n.x) == net.plus(
                a.at(n.x),
                a.at(n.o),
                w.o_proj.ptr as int,
                net.g.q_heads * net.g.head_dim,
            )
            &&& z.cache == a.cache
            &&& z.words == a.words
        }),
{
    broadcast use lemma_passed_push, lemma_blocks_cover;

    let (g, b) = (net.g, x.b);
    g.lemma_heads();
    let h = g.hidden_size as int;
    lemma_pgemm(m, ops, x, b.o.ptr, w.o_proj.ptr, h, g.nqk(), b.c_o.ptr, PTag::GemmO, i, j);
}

/// The feed-forward half of a token.
proof fn lemma_pffn(
    m: Memory,
    ops: Seq<PrefillOpV>,
    x: PrefillCtx,
    net: Net,
    w: LayerWeights,
    i: int,
    j: Joined,
)
    requires
        row_ok(x, i),
        net.g == x.c.cfg,
    ensures
        ({
            let (a, z) = (passed_ops(m, ops, x, i, j), passed_ops(m, pffn_ops(ops, x, w), x, i, j));
            let n = names(x, i);
            let y = a.at(n.x);
            &&& z.at(n.x) == net.plus(
                y,
                net.gate(y, w),
                w.down_proj.ptr as int,
                net.g.ffn_hidden as int,
            )
            &&& z.cache == a.cache
            &&& z.words == a.words
        }),
{
    broadcast use lemma_passed_push, lemma_blocks_cover;

    let (g, b, n, on) = (net.g, x.b, x.c.nums_of(), x.c.on);
    g.lemma_heads();
    let (h, f, xn) = (g.hidden_size as int, g.ffn_hidden as int, b.xn.ptr);
    let s0 = prun(ops, p_rms(x, w.ffn_norm.ptr), PTag::RmsFfn);
    lemma_pgemm(m, s0, x, xn, w.gate_proj.ptr, f, h, b.c_g.ptr, PTag::GemmGate, i, j);
    let s1 = pgemm(s0, on, xn, w.gate_proj.ptr, x.s, f, h, b.c_g.ptr, PTag::GemmGate);
    let s2 = pput(s1, p_cast(x, b.c_g.ptr, b.gate.ptr, n.ffn));
    lemma_pgemm(m, s2, x, xn, w.up_proj.ptr, f, h, b.c_u.ptr, PTag::GemmUp, i, j);
    let s3 = pgemm(s2, on, xn, w.up_proj.ptr, x.s, f, h, b.c_u.ptr, PTag::GemmUp);
    let s4 = prun(s3, p_cast(x, b.c_u.ptr, b.up.ptr, n.ffn), PTag::CastGU);
    let s5 = prun(s4, p_swiglu(x), PTag::Swiglu);
    let y = passed_ops(m, ops, x, i, j).at(names(x, i).x);
    let m5 = passed_ops(m, s5, x, i, j);
    assert(m5.at(names(x, i).down) == net.gate(y, w));
    assert(m5.at(names(x, i).x) == y);
    lemma_pgemm(m, s5, x, b.down.ptr, w.down_proj.ptr, h, f, b.c_d.ptr, PTag::GemmDown, i, j);
}

proof fn lemma_players(
    m: Memory,
    ops: Seq<PrefillOpV>,
    x: PrefillCtx,
    net: Net,
    ids: Seq<u32>,
    n: nat,
    i: int,
    j: Joined,
)
    requires
        row_ok(x, i),
        net.g == x.c.cfg,
        net.layers.len() == x.c.cfg.n_layer,
        n <= net.layers.len(),
        x.b.c_qkv is Joined ==> forall|li: int|
            0 <= li < net.layers.len() ==> is_joined(j, #[trigger] net.layers[li]),
        passed_ops(m, ops, x, i, j).at(names(x, i).x) == net.hidden(ask_at(x, ids, i), 0),
    ensures
        ({
            let a = passed_ops(m, ops, x, i, j);
            let z = passed_ops(m, players_ops(ops, x, net.layers, n), x, i, j);
            let ask = ask_at(x, ids, i);
            &&& z.at(names(x, i).x) == net.hidden(ask, n)
            &&& z.cache == a.cache + net.slots(ask, n)
        }),
    decreases n,
{
    let (a, ask) = (passed_ops(m, ops, x, i, j), ask_at(x, ids, i));
    if n == 0 {
        assert(a.cache + net.slots(ask, 0) =~= a.cache);
    } else {
        let k = (n - 1) as nat;
        lemma_players(m, ops, x, net, ids, k, i, j);
        let (w, r) = (net.layers[k as int], net.hidden(ask, k));
        let s1 = players_ops(ops, x, net.layers, k);
        lemma_pqkv(m, s1, x, net, w, i, j);
        let s2 = pqkv_ops(prun(s1, p_rms(x, w.attn_norm.ptr), PTag::RmsAttn), x, w);
        lemma_pattn(m, s2, x, net, ids, r, k as int, i, j);
        let s3 = pattn_ops(s2, x, w, k as int);
        lemma_pout(m, s3, x, net, w, i, j);
        let s4 = pout_ops(s3, x, w);
        lemma_pffn(m, s4, x, net, w, i, j);
        let z = passed_ops(m, pffn_ops(s4, x, w), x, i, j);
        assert(z.cache =~= a.cache + net.slots(ask, n));
    }
}

/// The embedding of a token.
proof fn lemma_pprologue(
    m: Memory,
    x: PrefillCtx,
    net: Net,
    ids: Seq<u32>,
    i: int,
    j: Joined,
)
    requires
        row_ok(x, i),
        net.g == x.c.cfg,
        net.embed == x.c.embed,
        m.words[x.b.toks.ptr + i * 4] == ids[i],
    ensures
        ({
            let z = passed_ops(m, prun(Seq::empty(), p_gather(x), PTag::Gather), x, i, j);
            &&& z.at(names(x, i).x) == net.hidden(ask_at(x, ids, i), 0)
            &&& z.cache == m.cache
        }),
{
    broadcast use lemma_passed_push, lemma_blocks_cover;

    assert(passed_ops(m, Seq::empty(), x, i, j) == m);
}

/// The output head of a token.
proof fn lemma_pepilogue(
    m: Memory,
    ops: Seq<PrefillOpV>,
    x: PrefillCtx,
    net: Net,
    lm_head: u64,
    i: int,
    j: Joined,
)
    requires
        row_ok(x, i),
        net.g == x.c.cfg,
        net.final_norm == x.c.final_norm,
        net.lm_head == lm_head,
    ensures
        ({
            let s = prun(ops, p_rms(x, x.c.final_norm), PTag::FinalRms);
            let (v, h) = (x.c.cfg.vocab_size as int, x.c.cfg.hidden_size as int);
            let t = pgemm(
                s,
                x.c.on,
                x.b.xn.ptr,
                lm_head,
                x.s,
                v,
                h,
                x.b.logits.ptr,
                PTag::LmHead,
            );
            let (a, z) = (passed_ops(m, ops, x, i, j), passed_ops(m, t, x, i, j));
            &&& z.at(names(x, i).logits) == product(
                net.normed(a.at(names(x, i).x), net.final_norm),
                net.lm_head,
                v,
                h,
            )
            &&& z.cache == a.cache
        }),
{
    broadcast use lemma_passed_push, lemma_blocks_cover;

    let s = prun(ops, p_rms(x, x.c.final_norm), PTag::FinalRms);
    let (v, h) = (x.c.cfg.vocab_size as int, x.c.cfg.hidden_size as int);
    lemma_pgemm(m, s, x, x.b.xn.ptr, lm_head, v, h, x.b.logits.ptr, PTag::LmHead, i, j);
}

/// A pass computes the model's step for every token of the prompt: row `i` of the logits
/// is what the model gives for token `i` at position `i`, over the tokens up to it, and
/// the token's key and value of every layer have been written to the slots of that
/// position, once each.
pub proof fn a_pass_computes_the_model(
    m: Memory,
    x: PrefillCtx,
    ids: Seq<u32>,
    layers: Seq<LayerWeights>,
    lm_head: DeviceBuffer,
    i: int,
    j: Joined,
)
    requires
        x.wf(),
        small(x),
        ids.len() == x.s,
        0 <= i < x.s,
        layers.len() == x.c.cfg.n_layer,
        apart(pass_rows(x, i)),
        m.words[x.b.toks.ptr + i * 4] == ids[i],
        x.b.c_qkv is Joined ==> forall|li: int|
            0 <= li < layers.len() ==> is_joined(j, #[trigger] layers[li]),
    ensures
        ({
            let z = passed_ops(m, prefill_ops(x, layers, lm_head.ptr), x, i, j);
            let (net, ask) = (net_of(x.c, layers, lm_head), ask_at(x, ids, i));
            &&& z.at(row_at(x.b.logits.ptr as int, i, x.c.cfg.vocab_size as int, 4)) == net.logits(
                ask,
            )
            &&& z.cache == m.cache + net.slots(ask, layers.len())
        }),
{
    let net = net_of(x.c, layers, lm_head);
    lemma_row_ok(x, i);
    let s = prun(Seq::empty(), p_gather(x), PTag::Gather);
    lemma_pprologue(m, x, net, ids, i, j);
    lemma_players(m, s, x, net, ids, layers.len(), i, j);
    let t = players_ops(s, x, layers, layers.len());
    lemma_pepilogue(m, t, x, net, lm_head.ptr, i, j);
}

} // verus!
