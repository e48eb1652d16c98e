//! That every row of a merged step computes the model's step for its request.

use vstd::prelude::*;

use crate::batch::{clean, pool_of, req_error, shares_pool, BatchReq};
use crate::batch_step::{
    b_flash, b_gather, b_kv_write, b_naive, b_naives, b_rms, batch_ops, battn_ops, bffn_ops, bgemm,
    blayers_ops, bmark, bqkv_ops, brope_ops, brun, BatchCtx, BatchMark, BatchOpV,
};
use crate::buffer::DeviceBuffer;
use crate::decode::flash_fits;
use crate::launch::{Kernel, LaunchV, Queue};
use crate::meaning::{
    attend, covers, gated, half, head_norm, launched, lemma_blocks_cover, norm, product, rotated,
    scaled, set_up, sum, Memory, Row, Slot,
};
use crate::model::LayerWeights;
use crate::reference::{apart, Ask, Net};
use crate::split_law::{lemma_place, net_of, place_of};
use crate::step::lemma_layer_page;

verus! {

/// The address of row `i` of rows of `n` elements of `size` bytes.
pub open spec fn row_at(base: int, i: int, n: int, size: int) -> int {
    base + i * n * size
}

/// What a launch over `b` rows does to row `i`.  Tokens, positions, lengths, page tables
/// and pools are read from the tables that the launch names, at the row's own entries.
pub open spec fn merged(m: Memory, l: LaunchV, on: Queue, b: int, i: int) -> Memory {
    let a = l.args.map_values(|w: u64| w as int);
    if !set_up(l, on) {
        Memory::lost()
    } else {
        match l.kernel {
            Kernel::GatherRowsF16 => if a[3] == b && covers(l, b * a[4]) {
                m.put(
                    row_at(a[1], i, a[4], 2),
                    Row::Embedding { table: a[0], token: m.words[a[2] + i * 4], n: a[4] },
                )
            } else {
                Memory::lost()
            },
            Kernel::RmsNormRowsF16 => if a[3] == b && l.grid.x == b {
                m.put(
                    row_at(a[1], i, a[4], 2),
                    norm(m.at(row_at(a[0], i, a[4], 2)), a[2], a[4], a[5]),
                )
            } else {
                Memory::lost()
            },
            Kernel::CastF32ToF16 => if covers(l, a[2]) && a[2] % b == 0 {
                let n = a[2] / b;
                m.put(row_at(a[1], i, n, 2), half(m.at(row_at(a[0], i, n, 4)), n))
            } else {
                Memory::lost()
            },
            Kernel::RmsNormHeadsF16 => if l.grid.x == a[3] && a[3] % b == 0 {
                let heads = a[3] / b;
                m.put(
                    row_at(a[1], i, heads * a[4], 2),
                    head_norm(m.at(row_at(a[0], i, heads * a[4], 2)), a[2], heads, a[4], a[5]),
                )
            } else {
                Memory::lost()
            },
            Kernel::RopeNeoxBatchF16 => if a[2] == b && l.grid.x == b * a[3] {
                let at = row_at(a[0], i, a[3] * (2 * a[4]), 2);
                let r = rotated(m.at(at), a[3], a[4], m.words[a[1] + i * 4], a[5]);
                m.put(at, scaled(r, a[6]))
            } else {
                Memory::lost()
            },
            Kernel::KvWriteBatchF16 => if a[5] == b && l.grid.x == b {
                let pos = m.words[a[4] + i * 4];
                let pp = a[12] / a[6];
                m.slot(
                    Slot {
                        kv: m.words[a[2] + i * 8],
                        pages: a[9],
                        page: m.words[a[3] + ((i * a[10] + a[11]) * pp + pos / a[6]) * 4],
                        place: pos % a[6],
                        block_len: a[6],
                        kv_heads: a[7],
                        d: a[8],
                        key: m.at(row_at(a[0], i, a[7] * a[8], 2)),
                        value: m.at(row_at(a[1], i, a[7] * a[8], 2)),
                    },
                )
            } else {
                Memory::lost()
            },
            Kernel::DecodeStepGqaFlashBatch => if a[5] == b && l.grid.x == b * a[6] && a[15] == 1
                && m.words[a[3] + i * 4] <= a[11] && l.shared == (a[7] + a[11]) * 4 {
                let pp = a[11] / a[8];
                m.put(
                    row_at(a[4], i, a[6] * a[7], 2),
                    attend(
                        m,
                        m.at(row_at(a[0], i, a[6] * a[7], 2)),
                        m.words[a[3] + i * 4],
                        m.words[a[2] + i * 8],
                        a[12],
                        m.words[a[1] + ((i * a[13] + a[14]) * pp) * 4],
                        a[8],
                        a[6],
                        a[9],
                        a[10],
                        a[7],
                    ),
                )
            } else {
                Memory::lost()
            },
            Kernel::AddF16 => if covers(l, a[2]) && a[2] % b == 0 {
                let n = a[2] / b;
                let at = row_at(a[0], i, n, 2);
                m.put(at, sum(m.at(at), m.at(row_at(a[1], i, n, 2)), n))
            } else {
                Memory::lost()
            },
            Kernel::FusedCastSwigluF16 => if covers(l, a[3]) && a[3] % b == 0 {
                let n = a[3] / b;
                m.put(
                    row_at(a[2], i, n, 2),
                    gated(
                        half(m.at(row_at(a[0], i, n, 4)), n),
                        half(m.at(row_at(a[1], i, n, 4)), n),
                        n,
                    ),
                )
            } else {
                Memory::lost()
            },
            _ => Memory::lost(),
        }
    }
}

/// What an operation of a merged step does to row `i`, where `lost` says whether launches
/// of flash attention fail.
pub open spec fn merged_op(m: Memory, o: BatchOpV, x: BatchCtx, i: int, lost: bool) -> Memory {
    match o {
        BatchOpV::Launch(l) => merged(m, l, x.c.on, x.b as int, i),
        BatchOpV::Gemm(g) => if g.m == x.b {
            m.put(
                row_at(g.c as int, i, g.n as int, 4),
                product(
                    m.at(row_at(g.a as int, i, g.k as int, 2)),
                    g.w as int,
                    g.n as int,
                    g.k as int,
                ),
            )
        } else {
            Memory::lost()
        },
        BatchOpV::Attn { flash, naive } => if !lost {
            merged(m, flash, x.c.on, x.b as int, i)
        } else if naive.len() == x.b {
            launched(m, naive[i], x.c.on)
        } else {
            Memory::lost()
        },
        BatchOpV::FlashRefused(naive) => if naive.len() == x.b {
            launched(m, naive[i], x.c.on)
        } else {
            Memory::lost()
        },
        BatchOpV::Mark(_) => m,
    }
}

/// What a merged step does to row `i`.
pub open spec fn merged_ops(
    m: Memory,
    ops: Seq<BatchOpV>,
    x: BatchCtx,
    i: int,
    lost: bool,
) -> Memory
    decreases ops.len(),
{
    if ops.len() == 0 {
        m
    } else {
        merged_op(merged_ops(m, ops.drop_last(), x, i, lost), ops.last(), x, i, lost)
    }
}

broadcast proof fn lemma_merged_push(
    m: Memory,
    ops: Seq<BatchOpV>,
    o: BatchOpV,
    x: BatchCtx,
    i: int,
    lost: bool,
)
    ensures
        #[trigger] merged_ops(m, ops.push(o), x, i, lost) == merged_op(
            merged_ops(m, ops, x, i, lost),
            o,
            x,
            i,
            lost,
        ),
{
    assert(ops.push(o).drop_last() =~= ops);
}

/// Row `i` of the buffers of a merged step.
pub open spec fn batch_rows(x: BatchCtx, i: int) -> Seq<int> {
    let (sc, g) = (x.sc, x.c.cfg);
    let (h, f) = (g.hidden_size as int, g.ffn_hidden as int);
    let (q, k) = (g.q_heads * g.head_dim, g.kv_heads * g.head_dim);
    seq![
        row_at(sc.x.ptr as int, i, h, 2),
        row_at(sc.xn.ptr as int, i, h, 2),
        row_at(sc.q.ptr as int, i, q, 2),
        row_at(sc.k.ptr as int, i, k, 2),
        row_at(sc.v.ptr as int, i, k, 2),
        row_at(sc.attn.ptr as int, i, q, 2),
        row_at(sc.oadd.ptr as int, i, h, 2),
        row_at(sc.down.ptr as int, i, f, 2),
        row_at(sc.c_q.ptr as int, i, q, 4),
        row_at(sc.c_k.ptr as int, i, k, 4),
        row_at(sc.c_v.ptr as int, i, k, 4),
        row_at(sc.c_o.ptr as int, i, h, 4),
        row_at(sc.c_g.ptr as int, i, f, 4),
        row_at(sc.c_u.ptr as int, i, f, 4),
        row_at(sc.c_d.ptr as int, i, h, 4),
        row_at(sc.logits.ptr as int, i, g.vocab_size as int, 4),
    ]
}

spec fn bnamed(x: BatchCtx, i: int) -> bool {
    let s = batch_rows(x, i);
    forall|j: int| 0 <= j < 16 ==> #[trigger] place_of(s, s[j]) == j
}

proof fn lemma_bnamed(x: BatchCtx, i: int)
    requires
        apart(batch_rows(x, i)),
    ensures
        bnamed(x, i),
{
    let s = batch_rows(x, i);
    assert forall|j: int| 0 <= j < 16 implies #[trigger] place_of(s, s[j]) == j by {
        lemma_place(s, j);
    }
}

/// The buffers of a row by name.
struct Names {
    x: int,
    xn: int,
    q: int,
    k: int,
    v: int,
    attn: int,
    oadd: int,
    down: int,
    c_q: int,
    c_k: int,
    c_v: int,
    c_o: int,
    c_g: int,
    c_u: int,
    c_d: int,
    logits: int,
}

spec fn names(x: BatchCtx, i: int) -> Names {
    let s = batch_rows(x, i);
    Names {
        x: s[0],
        xn: s[1],
        q: s[2],
        k: s[3],
        v: s[4],
        attn: s[5],
        oadd: s[6],
        down: s[7],
        c_q: s[8],
        c_k: s[9],
        c_v: s[10],
        c_o: s[11],
        c_g: s[12],
        c_u: s[13],
        c_d: s[14],
        logits: s[15],
    }
}

/// Names that differ.
spec fn differ(n: Names, s: Seq<int>) -> bool {
    &&& place_of(s, n.x) == 0
    &&& place_of(s, n.xn) == 1
    &&& place_of(s, n.q) == 2
    &&& place_of(s, n.k) == 3
    &&& place_of(s, n.v) == 4
    &&& place_of(s, n.attn) == 5
    &&& place_of(s, n.oadd) == 6
    &&& place_of(s, n.down) == 7
    &&& place_of(s, n.c_q) == 8
    &&& place_of(s, n.c_k) == 9
    &&& place_of(s, n.c_v) == 10
    &&& place_of(s, n.c_o) == 11
    &&& place_of(s, n.c_g) == 12
    &&& place_of(s, n.c_u) == 13
    &&& place_of(s, n.c_d) == 14
    &&& place_of(s, n.logits) == 15
}

/// What the laws of a row are about: a batch of rows whose buffers are apart, and the
/// extents of its launches.
spec fn row_ok(x: BatchCtx, i: int) -> bool {
    let (g, n, b) = (x.c.cfg, x.c.nums_of(), x.b as int);
    &&& x.wf()
    &&& 0 <= i < b
    &&& g.head_dim % 2 == 0
    &&& differ(names(x, i), batch_rows(x, i))
    &&& n.h == g.hidden_size && n.nqk == g.q_heads * g.head_dim && n.kvk == g.kv_heads * g.head_dim
    &&& n.ffn == g.ffn_hidden && n.d == g.head_dim && n.q_heads == g.q_heads && n.kv_heads
        == g.kv_heads
    &&& 2 * n.half == g.head_dim && n.half == g.head_dim as int / 2
    &&& n.ratio == g.q_heads as int / g.kv_heads as int
    &&& n.max_kv == x.c.pp * 32
    &&& whole(x, n.h) && whole(x, n.nqk) && whole(x, n.kvk) && whole(x, n.ffn)
    &&& whole(x, n.q_heads) && whole(x, n.kv_heads)
}

/// A batch of rows of `w` elements has `b` times as many.
spec fn whole(x: BatchCtx, w: u32) -> bool {
    let b = x.b as int;
    x.rows(w) == b * w && (b * w) % b == 0 && (b * w) / b == w
}

proof fn lemma_whole(x: BatchCtx, w: u32)
    requires
        x.b > 0,
        x.b * w <= u32::MAX,
    ensures
        whole(x, w),
{
    let (b, n) = (x.b as int, w as int);
    assert(0 <= b * n) by (nonlinear_arith)
        requires
            b > 0,
            n >= 0,
    ;
    vstd::arithmetic::div_mod::lemma_mod_multiples_basic(n, b);
    vstd::arithmetic::div_mod::lemma_div_multiples_vanish(n, b);
    assert(b * n == n * b) by (nonlinear_arith);
}

proof fn lemma_row_ok(x: BatchCtx, i: int)
    requires
        x.wf(),
        0 <= i < x.b,
        x.c.cfg.head_dim % 2 == 0,
        apart(batch_rows(x, i)),
    ensures
        row_ok(x, i),
{
    let (g, b) = (x.c.cfg, x.b as int);
    g.lemma_heads();
    lemma_bnamed(x, i);
    let s = batch_rows(x, i);
    assert(differ(names(x, i), s)) by {
        assert forall|j: int| 0 <= j < 16 implies #[trigger] place_of(s, s[j]) == j by {}
        assert(place_of(s, s[0]) == 0 && place_of(s, s[1]) == 1 && place_of(s, s[2]) == 2);
        assert(place_of(s, s[3]) == 3 && place_of(s, s[4]) == 4 && place_of(s, s[5]) == 5);
        assert(place_of(s, s[6]) == 6 && place_of(s, s[7]) == 7 && place_of(s, s[8]) == 8);
        assert(place_of(s, s[9]) == 9 && place_of(s, s[10]) == 10 && place_of(s, s[11]) == 11);
        assert(place_of(s, s[12]) == 12 && place_of(s, s[13]) == 13 && place_of(s, s[14]) == 14);
        assert(place_of(s, s[15]) == 15);
    }
    let (n, p) = (g.n_layer as int, x.c.pp as int);
    assert(p <= n * p) by (nonlinear_arith)
        requires
            n >= 1,
            p >= 0,
    ;
    let (q, k) = (g.q_heads as int, g.kv_heads as int);
    assert(b * q <= b * g.nqk() && b * k <= b * g.kvk()) by (nonlinear_arith)
        requires
            b > 0,
            q <= g.nqk(),
            k <= g.kvk(),
    ;
    let w = x.c.nums_of();
    lemma_whole(x, w.h);
    lemma_whole(x, w.nqk);
    lemma_whole(x, w.kvk);
    lemma_whole(x, w.ffn);
    lemma_whole(x, w.q_heads);
    lemma_whole(x, w.kv_heads);
}

/// The norm and the projections of a row.
proof fn lemma_bqkv(
    m: Memory,
    ops: Seq<BatchOpV>,
    x: BatchCtx,
    net: Net,
    w: LayerWeights,
    i: int,
    lost: bool,
)
    requires
        row_ok(x, i),
        net.g == x.c.cfg,
    ensures
        ({
            let (a, z) = (
                merged_ops(m, ops, x, i, lost),
                merged_ops(m, bqkv_ops(ops, x, w), x, i, lost),
            );
            let n = names(x, i);
            let r = a.at(n.x);
            let xn = net.normed(r, w.attn_norm.ptr as int);
            &&& z.at(n.x) == r
            &&& z.at(n.q) == net.projected(xn, w.q_proj.ptr as int, net.g.q_heads as int)
            &&& z.at(n.k) == net.projected(xn, w.k_proj.ptr as int, net.g.kv_heads as int)
            &&& z.at(n.v) == net.value(r, w)
            &&& z.cache == a.cache
            &&& z.words == a.words
        }),
{
    broadcast use lemma_merged_push, lemma_blocks_cover;

    net.g.lemma_heads();
}

/// Where an entry of a request's page table is.
pub open spec fn entry_at(x: BatchCtx, i: int, p: int) -> int {
    x.sc.pages.ptr + (i * (x.c.cfg.n_layer * x.c.pp) + p) * 4
}

/// What is asked for a request: its own token, position and length, in its own segment.
pub open spec fn ask_for(x: BatchCtx, r: BatchReq) -> Ask {
    Ask {
        token: r.token as int,
        pos: r.pos as int,
        len: r.kv.len as int,
        kv: if r.kv.kv == 0 {
            x.c.kv as int
        } else {
            r.kv.kv as int
        },
        pages: x.pool.pages as int,
        base: r.kv.base_pages as int,
        pp: x.c.pp as int,
        prompt: false,
    }
}

/// Whether the tables of a batch hold a request at place `i`: its token, position and
/// length, the address of its pool, and the pages of its segment, one after the other.
pub open spec fn holds(words: Map<int, int>, x: BatchCtx, r: BatchReq, i: int) -> bool {
    let ask = ask_for(x, r);
    &&& words[x.sc.toks.ptr + i * 4] == ask.token
    &&& words[x.sc.pos.ptr + i * 4] == ask.pos
    &&& words[x.sc.lens.ptr + i * 4] == ask.len
    &&& words[x.sc.kv_ptrs.ptr + i * 8] == ask.kv
    &&& forall|p: int|
        0 <= p < x.c.cfg.n_layer * x.c.pp ==> #[trigger] words[entry_at(x, i, p)] == ask.base + p
}

/// Head norms and rotary embedding of a row.
proof fn lemma_brope(
    m: Memory,
    ops: Seq<BatchOpV>,
    x: BatchCtx,
    net: Net,
    w: LayerWeights,
    r: Row,
    pos: int,
    i: int,
    lost: bool,
)
    requires
        row_ok(x, i),
        net.g == x.c.cfg,
        ({
            let (a, n) = (merged_ops(m, ops, x, i, lost), names(x, i));
            let xn = net.normed(r, w.attn_norm.ptr as int);
            &&& a.words[x.sc.pos.ptr + i * 4] == pos
            &&& a.at(n.q) == net.projected(xn, w.q_proj.ptr as int, net.g.q_heads as int)
            &&& a.at(n.k) == net.projected(xn, w.k_proj.ptr as int, net.g.kv_heads as int)
        }),
    ensures
        ({
            let (a, z) = (
                merged_ops(m, ops, x, i, lost),
                merged_ops(m, brope_ops(ops, x, w), x, i, lost),
            );
            let n = names(x, i);
            &&& z.at(n.x) == a.at(n.x)
            &&& z.at(n.q) == net.query(r, w, pos)
            &&& z.at(n.k) == net.key(r, w, pos)
            &&& z.at(n.v) == a.at(n.v)
            &&& z.cache == a.cache
            &&& z.words == a.words
        }),
{
    broadcast use lemma_merged_push, lemma_blocks_cover;

    net.g.lemma_heads();
}

/// The cache slot and attention of a row.
proof fn lemma_battn(
    m: Memory,
    ops: Seq<BatchOpV>,
    x: BatchCtx,
    reqs: Seq<BatchReq>,
    net: Net,
    r: Row,
    li: int,
    i: int,
    lost: bool,
)
    requires
        row_ok(x, i),
        reqs.len() == x.b,
        net.g == x.c.cfg,
        0 <= li < x.c.cfg.n_layer,
        fits(x, reqs, i),
        ({
            let (a, n, w, pos) = (
                merged_ops(m, ops, x, i, lost),
                names(x, i),
                net.layers[li],
                reqs[i].pos as int,
            );
            &&& holds(a.words, x, reqs[i], i)
            &&& a.at(n.x) == r
            &&& a.at(n.q) == net.query(r, w, pos)
            &&& a.at(n.k) == net.key(r, w, pos)
            &&& a.at(n.v) == net.value(r, w)
        }),
    ensures
        ({
            let (a, z) = (
                merged_ops(m, ops, x, i, lost),
                merged_ops(m, battn_ops(ops, x, reqs, li), x, i, lost),
            );
            let (n, ask) = (names(x, i), ask_for(x, reqs[i]));
            &&& z.at(n.x) == r
            &&& z.at(n.attn) == net.attention(r, net.layers[li], ask, li)
            &&& z.cache == a.cache.push(net.slot(r, ask, li))
            &&& z.words == a.words
        }),
{
    broadcast use lemma_merged_push, lemma_blocks_cover;

    let (a, nm, ask) = (merged_ops(m, ops, x, i, lost), names(x, i), ask_for(x, reqs[i]));
    let (n, k) = (x.c.nums_of(), x.c.cfg.n_layer as int);
    let (pp, pos, b) = (x.c.pp as int, ask.pos, x.b as int);
    net.g.lemma_heads();
    lemma_layer_page(x.c, li);
    let pages = k * pp;
    assert((i * k + li) * pp == i * pages + li * pp) by (nonlinear_arith)
        requires
            pages == k * pp,
    ;
    assert(0 <= i * pages && i * pages + pages <= b * pages) by (nonlinear_arith)
        requires
            0 <= i < b,
            pages >= 0,
    ;
    assert(n.max_kv as int / 32 == pp);
    assert(0 <= li * pp + pos / 32 < pages);
    let (first, own) = (li * pp, li * pp + pos / 32);
    assert(a.words[entry_at(x, i, first)] == ask.base + first);
    assert(a.words[entry_at(x, i, own)] == ask.base + own);
    let s1 = brun(ops, b_kv_write(x, li));
    let m1 = merged_ops(m, s1, x, i, lost);
    assert(x.sc.pages.ptr + ((i * k + li) * pp + pos / 32) * 4 == entry_at(x, i, own));
    assert(m1 == a.slot(net.slot(r, ask, li)));
    assert(m1.cache.last() == net.slot(r, ask, li));
    assert((ask.base + own - (ask.base + first)) * 32 + pos % 32 == pos);
    let attn = net.attention(r, net.layers[li], ask, li);
    let (f, g) = (b_flash(x, li), b_naives(x, reqs, li));
    if lost || !flash_fits(n.d, n.max_kv) {
        assert(g[i] == b_naive(x, reqs, i, li));
        let q = x.c.cfg.nqk();
        assert(0 <= i * q <= b * q) by (nonlinear_arith)
            requires
                0 <= i < b,
                q >= 0,
        ;
        assert(g[i].args[1] == entry_at(x, i, first));
        assert(req_error(reqs, i, x.c.cfg.vocab_size, x.c.pp) is None);
        if shares_pool(reqs) {
            assert(reqs[i].kv.kv == reqs[0].kv.kv);
        }
        assert(g[i].args[2] == ask.kv);
        assert(launched(m1, g[i], x.c.on) == m1.put(nm.attn, attn));
    } else {
        assert(x.sc.pages.ptr + ((i * k + li) * pp) * 4 == entry_at(x, i, first));
        assert(merged(m1, f, x.c.on, x.b as int, i) == m1.put(nm.attn, attn));
    }
}

/// The attention output and the feed-forward half of a row.
proof fn lemma_bffn(
    m: Memory,
    ops: Seq<BatchOpV>,
    x: BatchCtx,
    net: Net,
    w: LayerWeights,
    i: int,
    lost: bool,
)
    requires
        row_ok(x, i),
        net.g == x.c.cfg,
    ensures
        ({
            let (a, z) = (
                merged_ops(m, ops, x, i, lost),
                merged_ops(m, bffn_ops(ops, x, w), x, i, lost),
            );
            let n = names(x, i);
            let y = net.plus(
                a.at(n.x),
                a.at(n.attn),
                w.o_proj.ptr as int,
                net.g.q_heads * net.g.head_dim,
            );
            &&& z.at(n.x) == net.plus(
                y,
                net.gate(y, w),
                w.down_proj.ptr as int,
                net.g.ffn_hidden as int,
            )
            &&& z.cache == a.cache
            &&& z.words == a.words
        }),
{
    broadcast use lemma_merged_push, lemma_blocks_cover;

    net.g.lemma_heads();
}

/// Whether a request can be served at place `i`: it is a request without faults of a
/// batch without faults, in the pool of the batch.
pub open spec fn fits(x: BatchCtx, reqs: Seq<BatchReq>, i: int) -> bool {
    &&& clean(reqs, reqs.len() as int, x.c.cfg.vocab_size, x.c.pp)
    &&& x.pool == pool_of(reqs, x.c.cfg.n_layer * x.c.pp, x.c.kv)
    &&& 0 <= i < reqs.len()
    &&& 0 < reqs[i].kv.len <= x.c.pp * 32
    &&& reqs[i].pos / 32 < x.c.pp
}

proof fn lemma_blayers(
    m: Memory,
    ops: Seq<BatchOpV>,
    x: BatchCtx,
    reqs: Seq<BatchReq>,
    net: Net,
    n: nat,
    i: int,
    lost: bool,
)
    requires
        row_ok(x, i),
        reqs.len() == x.b,
        net.g == x.c.cfg,
        net.layers.len() == x.c.cfg.n_layer,
        n <= net.layers.len(),
        fits(x, reqs, i),
        holds(merged_ops(m, ops, x, i, lost).words, x, reqs[i], i),
        merged_ops(m, ops, x, i, lost).at(names(x, i).x) == net.hidden(ask_for(x, reqs[i]), 0),
    ensures
        ({
            let a = merged_ops(m, ops, x, i, lost);
            let z = merged_ops(m, blayers_ops(ops, x, reqs, net.layers, n), x, i, lost);
            let ask = ask_for(x, reqs[i]);
            &&& z.words == a.words
            &&& z.at(names(x, i).x) == net.hidden(ask, n)
            &&& z.cache == a.cache + net.slots(ask, n)
        }),
    decreases n,
{
    let (a, ask) = (merged_ops(m, ops, x, i, lost), ask_for(x, reqs[i]));
    if n == 0 {
        assert(a.cache + net.slots(ask, 0) =~= a.cache);
    } else {
        let k = (n - 1) as nat;
        lemma_blayers(m, ops, x, reqs, net, k, i, lost);
        let (w, r) = (net.layers[k as int], net.hidden(ask, k));
        let s1 = blayers_ops(ops, x, reqs, net.layers, k);
        lemma_bqkv(m, s1, x, net, w, i, lost);
        let s2 = bqkv_ops(s1, x, w);
        lemma_brope(m, s2, x, net, w, r, ask.pos, i, lost);
        let s3 = brope_ops(s2, x, w);
        lemma_battn(m, s3, x, reqs, net, r, k as int, i, lost);
        let s4 = battn_ops(s3, x, reqs, k as int);
        lemma_bffn(m, s4, x, net, w, i, lost);
        let z = merged_ops(m, bffn_ops(s4, x, w), x, i, lost);
        assert(z.cache =~= a.cache + net.slots(ask, n));
    }
}

/// The embedding of a row.
proof fn lemma_bprologue(
    m: Memory,
    x: BatchCtx,
    reqs: Seq<BatchReq>,
    net: Net,
    i: int,
    lost: bool,
)
    requires
        row_ok(x, i),
        reqs.len() == x.b,
        net.g == x.c.cfg,
        net.embed == x.c.embed,
        holds(m.words, x, reqs[i], i),
    ensures
        ({
            let s = bmark(Seq::empty(), BatchMark::Stage);
            let z = merged_ops(m, bmark(brun(s, b_gather(x)), BatchMark::Embed), x, i, lost);
            &&& z.at(names(x, i).x) == net.hidden(ask_for(x, reqs[i]), 0)
            &&& z.cache == m.cache
            &&& z.words == m.words
        }),
{
    broadcast use lemma_merged_push, lemma_blocks_cover;

    assert(merged_ops(m, Seq::empty(), x, i, lost) == m);
}

/// The output head of a row.
proof fn lemma_bepilogue(
    m: Memory,
    ops: Seq<BatchOpV>,
    x: BatchCtx,
    net: Net,
    lm_head: u64,
    i: int,
    lost: bool,
)
    requires
        row_ok(x, i),
        net.g == x.c.cfg,
        net.final_norm == x.c.final_norm,
        net.lm_head == lm_head,
    ensures
        ({
            let s = brun(bmark(ops, BatchMark::Lm), b_rms(x, x.c.final_norm));
            let s = bgemm(
                s,
                x.sc.xn.ptr,
                lm_head,
                x.b,
                x.c.cfg.vocab_size as int,
                x.c.cfg.hidden_size as int,
                x.sc.logits.ptr,
            );
            let (a, z) = (merged_ops(m, ops, x, i, lost), merged_ops(m, s, x, i, lost));
            &&& z.at(names(x, i).logits) == product(
                net.normed(a.at(names(x, i).x), net.final_norm),
                net.lm_head,
                net.g.vocab_size as int,
                net.h(),
            )
            &&& z.cache == a.cache
        }),
{
    broadcast use lemma_merged_push, lemma_blocks_cover;

}

/// A merged step computes the model's step for every request: row `i` of the logits is
/// what the model gives for the request's own token at its own position, over its own
/// length and its own pages, and the request's key and value of every layer have been
/// written to the slots of that position in its own segment, once each.
pub proof fn a_merged_step_computes_the_model(
    m: Memory,
    x: BatchCtx,
    reqs: Seq<BatchReq>,
    layers: Seq<LayerWeights>,
    lm_head: DeviceBuffer,
    i: int,
    lost: bool,
)
    requires
        x.wf(),
        reqs.len() == x.b,
        layers.len() == x.c.cfg.n_layer,
        x.c.cfg.head_dim % 2 == 0,
        fits(x, reqs, i),
        apart(batch_rows(x, i)),
        holds(m.words, x, reqs[i], i),
    ensures
        ({
            let z = merged_ops(m, batch_ops(x, reqs, layers, lm_head.ptr), x, i, lost);
            let (net, ask) = (net_of(x.c, layers, lm_head), ask_for(x, reqs[i]));
            &&& z.at(row_at(x.sc.logits.ptr as int, i, x.c.cfg.vocab_size as int, 4))
                == net.logits(ask)
            &&& z.cache == m.cache + net.slots(ask, layers.len())
        }),
{
    let net = net_of(x.c, layers, lm_head);
    lemma_row_ok(x, i);
    let s = bmark(brun(bmark(Seq::empty(), BatchMark::Stage), b_gather(x)), BatchMark::Embed);
    lemma_bprologue(m, x, reqs, net, i, lost);
    lemma_blayers(m, s, x, reqs, net, layers.len(), i, lost);
    let t = blayers_ops(s, x, reqs, layers, layers.len());
    lemma_bepilogue(m, t, x, net, lm_head.ptr, i, lost);
}

} // verus!
