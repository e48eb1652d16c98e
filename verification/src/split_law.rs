//! That the step of separate launches computes the model's step.

use vstd::prelude::*;

use crate::buffer::DeviceBuffer;
use crate::decode::flash_fits;
use crate::meaning::{
    after, launched, lemma_after_push, lemma_blocks_cover, product, Memory, Row, Under,
};
use crate::model::LayerWeights;
use crate::plans::{head_plan, layer_plans, plans_of, DecodeGemmPlans, LayerGemmPlans};
use crate::reference::{apart, Ask, Net};
use crate::split::{
    attn_ops, epilogue, ffn_ops, head_norm_ops, l_flash, l_kv_write, l_naive, l_rope_k, l_rope_q,
    layers_ops, norm_ops, prologue, qkv_ops, split_ops, StepMode,
};
use crate::step::{
    attention, lemma_layer_page, read_back, run, start, Anchor, StepCtx, StepOpV, SEG_ATTN,
};

verus! {

/// Where an address is among others.
pub open spec fn place_of(a: Seq<int>, x: int) -> int {
    choose|i: int| 0 <= i < a.len() && #[trigger] a[i] == x
}

pub proof fn lemma_place(a: Seq<int>, i: int)
    requires
        apart(a),
        0 <= i < a.len(),
    ensures
        place_of(a, a[i]) == i,
{
    let j = place_of(a, a[i]);
    assert(0 <= j < a.len() && a[j] == a[i]);
}

/// The buffers of a step over one row.
pub open spec fn step_rows(c: StepCtx) -> Seq<int> {
    let b = c.b;
    seq![
        b.x.ptr as int,
        b.xn.ptr as int,
        b.q.ptr as int,
        b.k.ptr as int,
        b.v.ptr as int,
        b.attn.ptr as int,
        b.down.ptr as int,
        b.c_q.ptr as int,
        b.c_k.ptr as int,
        b.c_v.ptr as int,
        b.c_o.ptr as int,
        b.c_g.ptr as int,
        b.c_u.ptr as int,
        b.c_d.ptr as int,
        b.logits.ptr as int,
    ]
}

spec fn named(c: StepCtx) -> bool {
    let (s, b) = (step_rows(c), c.b);
    &&& place_of(s, b.x.ptr as int) == 0
    &&& place_of(s, b.xn.ptr as int) == 1
    &&& place_of(s, b.q.ptr as int) == 2
    &&& place_of(s, b.k.ptr as int) == 3
    &&& place_of(s, b.v.ptr as int) == 4
    &&& place_of(s, b.attn.ptr as int) == 5
    &&& place_of(s, b.down.ptr as int) == 6
    &&& place_of(s, b.c_q.ptr as int) == 7
    &&& place_of(s, b.c_k.ptr as int) == 8
    &&& place_of(s, b.c_v.ptr as int) == 9
    &&& place_of(s, b.c_o.ptr as int) == 10
    &&& place_of(s, b.c_g.ptr as int) == 11
    &&& place_of(s, b.c_u.ptr as int) == 12
    &&& place_of(s, b.c_d.ptr as int) == 13
    &&& place_of(s, b.logits.ptr as int) == 14
}

proof fn lemma_named(c: StepCtx)
    requires
        apart(step_rows(c)),
    ensures
        named(c),
{
    let s = step_rows(c);
    lemma_place(s, 0);
    lemma_place(s, 1);
    lemma_place(s, 2);
    lemma_place(s, 3);
    lemma_place(s, 4);
    lemma_place(s, 5);
    lemma_place(s, 6);
    lemma_place(s, 7);
    lemma_place(s, 8);
    lemma_place(s, 9);
    lemma_place(s, 10);
    lemma_place(s, 11);
    lemma_place(s, 12);
    lemma_place(s, 13);
    lemma_place(s, 14);
}

/// The model of a context.
pub open spec fn net_of(c: StepCtx, layers: Seq<LayerWeights>, lm_head: DeviceBuffer) -> Net {
    Net {
        g: c.cfg,
        embed: c.embed as int,
        layers,
        final_norm: c.final_norm as int,
        lm_head: lm_head.ptr as int,
    }
}

/// A step in the engine's own cache.
pub open spec fn ask_of(c: StepCtx, token: u32, pos: usize, kv_len: usize) -> Ask {
    Ask {
        token: token as int,
        pos: pos as int,
        len: kv_len as int,
        kv: c.kv as int,
        pages: c.cfg.n_layer * c.pp,
        base: 0,
        pp: c.pp as int,
        prompt: false,
    }
}

/// Where an entry of the page table is.
pub open spec fn entry(c: StepCtx, p: int) -> int {
    c.b.pages.ptr + p * 4
}

/// Whether the page table is uploaded: entry `p` is page `p`.
pub open spec fn has_pages(words: Map<int, int>, c: StepCtx) -> bool {
    forall|p: int| 0 <= p < c.cfg.n_layer * c.pp ==> #[trigger] words[entry(c, p)] == p
}

/// What a step is performed over, with its length uploaded to the buffer of lengths.
pub open spec fn under(c: StepCtx, lost: bool) -> Under {
    Under {
        on: c.on,
        lens: c.b.lens.ptr as int,
        lost,
        x: c.b.x.ptr as int,
        xn: c.b.xn.ptr as int,
        q: c.b.q.ptr as int,
        attn: c.b.attn.ptr as int,
    }
}

/// Whether attention has room for the tokens: the pages of a layer hold them, and where
/// it is naive, so do the rows of its scores.
pub open spec fn has_room(c: StepCtx, kv_len: usize, flash_off: bool, lost: bool) -> bool {
    &&& 0 < kv_len <= c.pp * 32
    &&& lost || flash_off || !flash_fits(c.nums_of().d, c.nums_of().max_kv) ==> kv_len
        <= c.cfg.n_layer * c.pp
}

/// Whether the page table and the length are uploaded.
pub open spec fn ready(m: Memory, c: StepCtx, kv_len: usize) -> bool {
    &&& has_pages(m.words, c)
    &&& m.words[c.b.lens.ptr as int] == kv_len
}

spec fn fixed(c: StepCtx) -> bool {
    c.wf() && named(c)
}

/// The numbers of a step in terms of the model and its pages.
pub proof fn lemma_widths(c: StepCtx)
    requires
        c.wf(),
    ensures
        ({
            let n = c.nums_of();
            &&& n.h == c.cfg.hidden_size
            &&& n.nqk == c.cfg.q_heads * c.cfg.head_dim
            &&& n.kvk == c.cfg.kv_heads * c.cfg.head_dim
            &&& n.ffn == c.cfg.ffn_hidden
            &&& n.d == c.cfg.head_dim
            &&& n.half == c.cfg.head_dim / 2
            &&& n.q_heads == c.cfg.q_heads
            &&& n.kv_heads == c.cfg.kv_heads
            &&& n.ratio == c.cfg.q_heads as int / c.cfg.kv_heads as int
            &&& n.total_pages == c.cfg.n_layer * c.pp
            &&& n.max_kv == c.pp * 32
            &&& n.vocab == c.cfg.vocab_size
        }),
{
    c.cfg.lemma_heads();
    let (n, p) = (c.cfg.n_layer as int, c.pp as int);
    assert(p <= n * p) by (nonlinear_arith)
        requires
            n >= 1,
            p >= 0,
    ;
}

/// The norm and the projections.
proof fn lemma_qkv(
    m: Memory,
    ops: Seq<StepOpV>,
    c: StepCtx,
    net: Net,
    w: LayerWeights,
    detail: bool,
    u: Under,
)
    requires
        fixed(c),
        net.g == c.cfg,
        u == under(c, u.lost),
    ensures
        ({
            let pl = layer_plans(c.cfg, c.b, w, false);
            let s = qkv_ops(norm_ops(ops, c, w, detail), c, pl);
            let (a, z) = (after(m, ops, u), after(m, s, u));
            let x = a.at(c.b.x.ptr as int);
            let xn = net.normed(x, w.attn_norm.ptr as int);
            &&& z.at(c.b.x.ptr as int) == x
            &&& z.at(c.b.q.ptr as int) == net.projected(
                xn,
                w.q_proj.ptr as int,
                c.cfg.q_heads as int,
            )
            &&& z.at(c.b.k.ptr as int) == net.projected(
                xn,
                w.k_proj.ptr as int,
                c.cfg.kv_heads as int,
            )
            &&& z.at(c.b.v.ptr as int) == net.value(x, w)
            &&& z.cache == a.cache
            &&& z.words == a.words
            &&& z.kept == if detail {
                a.kept.push(x).push(xn)
            } else {
                a.kept
            }
        }),
{
    broadcast use lemma_after_push, lemma_blocks_cover;

    lemma_widths(c);
    c.cfg.lemma_heads();
}

/// Head norms, rotary embedding, the cache slot and attention.
proof fn lemma_attn(
    m: Memory,
    ops: Seq<StepOpV>,
    c: StepCtx,
    net: Net,
    x: Row,
    ask: Ask,
    li: int,
    pos: usize,
    kv_len: usize,
    token: u32,
    mode: StepMode,
    u: Under,
)
    requires
        fixed(c),
        net.g == c.cfg,
        0 <= li < c.cfg.n_layer,
        ask == ask_of(c, token, pos, kv_len),
        c.takes_pos(pos),
        has_room(c, kv_len, mode.flash_off, u.lost),
        u == under(c, u.lost),
        ({
            let (a, w) = (after(m, ops, u), net.layers[li]);
            let xn = net.normed(x, w.attn_norm.ptr as int);
            &&& ready(a, c, kv_len)
            &&& a.at(c.b.x.ptr as int) == x
            &&& a.at(c.b.q.ptr as int) == net.projected(
                xn,
                w.q_proj.ptr as int,
                c.cfg.q_heads as int,
            )
            &&& a.at(c.b.k.ptr as int) == net.projected(
                xn,
                w.k_proj.ptr as int,
                c.cfg.kv_heads as int,
            )
            &&& a.at(c.b.v.ptr as int) == net.value(x, w)
        }),
    ensures
        ({
            let w = net.layers[li];
            let a = after(m, ops, u);
            let z = after(
                m,
                attn_ops(ops, c, w, li, pos, mode.flash_off, mode.detail),
                u,
            );
            &&& z.at(c.b.x.ptr as int) == x
            &&& z.at(c.b.attn.ptr as int) == net.attention(x, w, ask, li)
            &&& z.cache == a.cache.push(net.slot(x, ask, li))
            &&& z.words == a.words
            &&& z.kept == if mode.detail {
                a.kept.push(net.query(x, w, ask.pos)).push(net.attention(x, w, ask, li))
            } else {
                a.kept
            }
        }),
{
    broadcast use lemma_after_push, lemma_blocks_cover;

    lemma_widths(c);
    c.cfg.lemma_heads();
    lemma_layer_page(c, li);
    let a = after(m, ops, u);
    let (w, n) = (net.layers[li], c.nums_of());
    let p = li * c.pp;
    assert(c.page_table(li) == entry(c, p));
    assert(a.words[entry(c, p)] == p);
    let (q, k) = (net.query(x, w, ask.pos), net.key(x, w, ask.pos));
    let s1 = head_norm_ops(start(ops, SEG_ATTN), c, w);
    let s2 = run(s1, l_rope_q(c, pos as u32), SEG_ATTN);
    let s3 = read_back(run(s2, l_rope_k(c, pos as u32), SEG_ATTN), mode.detail, Anchor::Q);
    let m3 = after(m, s3, u);
    assert(m3.at(c.b.q.ptr as int) == q);
    assert(m3.at(c.b.k.ptr as int) == k);
    assert(m3.at(c.b.v.ptr as int) == net.value(x, w));
    assert(m3.at(c.b.x.ptr as int) == x && m3.cache == a.cache && m3.words == a.words);
    let phys = c.phys(li, pos) as u32;
    assert(phys == li * c.pp + pos as int / 32);
    let s4 = run(s3, l_kv_write(c, phys, (pos % 32) as u32), SEG_ATTN);
    let m4 = after(m, s4, u);
    assert(m4.cache == a.cache.push(net.slot(x, ask, li)));
    assert(m4.rows == m3.rows && m4.words == m3.words);
    assert(m4.cache.last() == net.slot(x, ask, li));
    let (f, g) = (l_flash(c, li), l_naive(c, li));
    let attn = net.attention(x, w, ask, li);
    assert((p + pos as int / 32 - p) * 32 + pos as int % 32 == pos);
    if u.lost || mode.flash_off || !flash_fits(n.d, n.max_kv) {
        assert(launched(m4, g, u.on) == m4.put(c.b.attn.ptr as int, attn));
    } else {
        assert(launched(m4, f, u.on) == m4.put(c.b.attn.ptr as int, attn));
    }
    let s5 = attention(s4, mode.flash_off, flash_fits(n.d, n.max_kv), f, g);
    assert(after(m, s5, u) == m4.put(c.b.attn.ptr as int, attn));
}

/// The attention output and the feed-forward half.
proof fn lemma_ffn(
    m: Memory,
    ops: Seq<StepOpV>,
    c: StepCtx,
    net: Net,
    w: LayerWeights,
    trace: bool,
    u: Under,
)
    requires
        fixed(c),
        net.g == c.cfg,
        u == under(c, u.lost),
    ensures
        ({
            let pl = layer_plans(c.cfg, c.b, w, false);
            let (a, z) = (after(m, ops, u), after(m, ffn_ops(ops, c, w, pl, trace), u));
            let y = net.plus(
                a.at(c.b.x.ptr as int),
                a.at(c.b.attn.ptr as int),
                w.o_proj.ptr as int,
                c.cfg.q_heads * c.cfg.head_dim,
            );
            &&& z.at(c.b.x.ptr as int) == net.plus(
                y,
                net.gate(y, w),
                w.down_proj.ptr as int,
                c.cfg.ffn_hidden as int,
            )
            &&& z.cache == a.cache
            &&& z.words == a.words
            &&& z.kept == if trace {
                a.kept.push(z.at(c.b.x.ptr as int))
            } else {
                a.kept
            }
        }),
{
    broadcast use lemma_after_push, lemma_blocks_cover;

    lemma_widths(c);
    c.cfg.lemma_heads();
}

proof fn lemma_layers(
    m: Memory,
    ops: Seq<StepOpV>,
    c: StepCtx,
    net: Net,
    plans: Seq<LayerGemmPlans>,
    ask: Ask,
    n: nat,
    token: u32,
    pos: usize,
    kv_len: usize,
    mode: StepMode,
    u: Under,
)
    requires
        fixed(c),
        net.g == c.cfg,
        n <= net.layers.len(),
        net.layers.len() == c.cfg.n_layer,
        plans == net.layers.map_values(|w: LayerWeights| layer_plans(c.cfg, c.b, w, false)),
        ask == ask_of(c, token, pos, kv_len),
        c.takes_pos(pos),
        has_room(c, kv_len, mode.flash_off, u.lost),
        u == under(c, u.lost),
        ready(after(m, ops, u), c, kv_len),
        after(m, ops, u).at(c.b.x.ptr as int) == net.hidden(ask, 0),
    ensures
        ({
            let z = after(m, layers_ops(ops, c, net.layers, plans, n, pos, mode), u);
            &&& ready(z, c, kv_len)
            &&& z.at(c.b.x.ptr as int) == net.hidden(ask, n)
            &&& z.cache == after(m, ops, u).cache + net.slots(ask, n)
            &&& z.kept == after(m, ops, u).kept + net.kept(ask, n, mode.detail, mode.trace)
        }),
    decreases n,
{
    let a = after(m, ops, u);
    if n == 0 {
        assert(a.cache + net.slots(ask, 0) =~= a.cache);
        assert(a.kept + net.kept(ask, 0, mode.detail, mode.trace) =~= a.kept);
    } else {
        let k = (n - 1) as nat;
        lemma_layers(m, ops, c, net, plans, ask, k, token, pos, kv_len, mode, u);
        let (w, x) = (net.layers[k as int], net.hidden(ask, k));
        let pl = layer_plans(c.cfg, c.b, w, false);
        assert(plans[k as int] == pl);
        let s1 = layers_ops(ops, c, net.layers, plans, k, pos, mode);
        lemma_qkv(m, s1, c, net, w, mode.detail, u);
        let s2 = qkv_ops(norm_ops(s1, c, w, mode.detail), c, pl);
        lemma_attn(m, s2, c, net, x, ask, k as int, pos, kv_len, token, mode, u);
        let s3 = attn_ops(s2, c, w, k as int, pos, mode.flash_off, mode.detail);
        lemma_ffn(m, s3, c, net, w, mode.trace, u);
        let z = after(m, ffn_ops(s3, c, w, pl, mode.trace), u);
        assert(z.cache =~= a.cache + net.slots(ask, n));
        assert(z.kept =~= a.kept + net.kept(ask, n, mode.detail, mode.trace));
    }
}

/// The embedding row and the length.
proof fn lemma_prologue(
    m: Memory,
    c: StepCtx,
    net: Net,
    token: u32,
    pos: usize,
    kv_len: usize,
    u: Under,
)
    requires
        c.wf(),
        net.g == c.cfg,
        net.embed == c.embed,
        u == under(c, u.lost),
        has_pages(m.words, c),
        kv_len <= u32::MAX,
        forall|p: int| 0 <= p < c.cfg.n_layer * c.pp ==> #[trigger] entry(c, p) != c.b.lens.ptr,
    ensures
        ({
            let z = after(m, prologue(Seq::empty(), c, token, kv_len), u);
            &&& ready(z, c, kv_len)
            &&& z.at(c.b.x.ptr as int) == net.hidden(ask_of(c, token, pos, kv_len), 0)
            &&& z.cache == m.cache
            &&& z.kept == m.kept
        }),
{
    broadcast use lemma_after_push, lemma_blocks_cover;

    lemma_widths(c);
    assert(after(m, Seq::empty(), u) == m);
}

/// The final norm and the output head.
proof fn lemma_epilogue(
    m: Memory,
    ops: Seq<StepOpV>,
    c: StepCtx,
    net: Net,
    lm_head: DeviceBuffer,
    u: Under,
)
    requires
        fixed(c),
        net.g == c.cfg,
        net.final_norm == c.final_norm,
        net.lm_head == lm_head.ptr,
        u.on == c.on,
    ensures
        ({
            let (a, z) = (
                after(m, ops, u),
                after(m, epilogue(ops, c, head_plan(c.cfg, c.b, lm_head, false)), u),
            );
            &&& z.at(c.b.logits.ptr as int) == product(
                net.normed(a.at(c.b.x.ptr as int), net.final_norm),
                net.lm_head,
                c.cfg.vocab_size as int,
                c.cfg.hidden_size as int,
            )
            &&& z.cache == a.cache
            &&& z.kept == a.kept
        }),
{
    broadcast use lemma_after_push, lemma_blocks_cover;

    lemma_widths(c);
}

/// A step of separate launches computes the model's step, whichever kernel attends: it
/// leaves the logits of the token at its position in the buffer of logits, and has written
/// the token's key and value of every layer to the slots of that position, once each.  What
/// it reads back for a trace are the rows of the model.
pub proof fn a_split_step_computes_the_model(
    m: Memory,
    c: StepCtx,
    layers: Seq<LayerWeights>,
    lm_head: DeviceBuffer,
    plans: DecodeGemmPlans,
    token: u32,
    pos: usize,
    kv_len: usize,
    mode: StepMode,
    lost: bool,
)
    requires
        c.wf(),
        c.takes_pos(pos),
        layers.len() == c.cfg.n_layer,
        plans_of(plans, c.cfg, c.b, layers, lm_head, false),
        apart(step_rows(c)),
        has_pages(m.words, c),
        forall|p: int| 0 <= p < c.cfg.n_layer * c.pp ==> #[trigger] entry(c, p) != c.b.lens.ptr,
        has_room(c, kv_len, mode.flash_off, lost),
    ensures
        ({
            let z = after(
                m,
                split_ops(c, layers, plans, token, pos, kv_len, mode),
                under(c, lost),
            );
            let (net, ask) = (net_of(c, layers, lm_head), ask_of(c, token, pos, kv_len));
            &&& z.at(c.b.logits.ptr as int) == net.logits(ask)
            &&& z.cache == m.cache + net.slots(ask, layers.len())
            &&& z.kept == m.kept + net.kept(ask, layers.len(), mode.detail, mode.trace)
        }),
{
    let (net, ask) = (net_of(c, layers, lm_head), ask_of(c, token, pos, kv_len));
    let u = under(c, lost);
    lemma_named(c);
    lemma_widths(c);
    let s0 = prologue(Seq::empty(), c, token, kv_len);
    lemma_prologue(m, c, net, token, pos, kv_len, u);
    let n = layers.len();
    lemma_layers(m, s0, c, net, plans.layers@, ask, n, token, pos, kv_len, mode, u);
    lemma_epilogue(
        m,
        layers_ops(s0, c, layers, plans.layers@, n, pos, mode),
        c,
        net,
        lm_head,
        u,
    );
}

} // verus!
