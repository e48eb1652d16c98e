//! That the fused step, and the step of one launch per layer, compute the model's step.

use vstd::prelude::*;

use crate::buffer::DeviceBuffer;
use crate::fused::{
    fusable, geom_of, layer_rows, rows_of_layers, segments, segments_partition_the_buffer,
    table_rows, FusedGeom, PlanRow,
};
use crate::fused_step::{
    f_flash, f_p1_gu, f_p1_lm, f_p1_o, f_p1_qkv, f_p2_gu_d, f_p2_o, f_p2_qkv,
    fused_attn_ops, fused_ffn_ops, fused_head_ops, fused_layers_ops, fused_ops, layer_fused_ops,
    lf_layer, lf_layers_ops, norm_weights, table_at,
};
use crate::gemm::{lemma_shape, shape_cols, shape_slabs};
use crate::launch::{Kernel, LaunchV};
use crate::layer_fused::{spec_of, LayerFusedKernels, LayerFusedSpec};
use crate::math::lemma_ceil_div;
use crate::meaning::{
    attend, gated, half, head_norm, launched, lemma_blocks_cover, norm, one, product, rotated,
    scaled, set_up, sum, Memory, Row, Slot, Under,
};
use crate::model::LayerWeights;
use crate::plans::{layer_plans, plans_of, DecodeGemmPlans};
use crate::reference::{apart, Ask, Net};
use crate::split::{l_gather, l_rms, StepMode};
use crate::split_law::{
    ask_of, entry, has_pages, lemma_place, net_of, place_of, under,
};
use crate::step::{
    begin, end, lemma_layer_page, push_detail, read_back, run, start, trace_row, upload_lens,
    Anchor, SEG_ATTN, SEG_FFN_D, SEG_FFN_GU, SEG_LAYER, SEG_LM_HEAD, SEG_O, SEG_QKV, SEG_SMALL,
    StepCtx, StepOpV,
};

verus! {

/// The rows of a plan table by address.
pub type Table = Map<int, PlanRow>;

/// Blocks of 256 columns, at least one.
pub open spec fn col_blocks(n: int) -> int {
    if n <= 256 {
        1
    } else {
        (n + 255) / 256
    }
}

/// Blocks of the first phase of a row's product.
pub open spec fn row_blocks(r: PlanRow) -> int {
    col_blocks(r.n as int) * r.nslabs
}

/// The row of a product before its slabs are summed.
pub open spec fn slabs_of(m: Memory, r: PlanRow) -> Row {
    Row::Slabs {
        of: Box::new(m.at(r.a as int)),
        w: r.b as int,
        n: r.n as int,
        k: r.k as int,
        slabs: r.nslabs as int,
    }
}

/// The slabs of a product summed.
pub open spec fn summed(r: Row, n: int, slabs: int) -> Row {
    match r {
        Row::Slabs { of, w, n: m, k, slabs: t } => if m == n && t == slabs {
            product(*of, w, n, k)
        } else {
            Row::Lost
        },
        _ => Row::Lost,
    }
}

/// The first phase of the products from a row of the table on: the blocks of a product
/// follow those of the one before, and the grid has the blocks of all.
pub open spec fn first_phase(m: Memory, t: Table, at: int, count: int, grid: int) -> Memory {
    let (a, b, c) = (t[at], t[at + 40], t[at + 80]);
    if count == 1 && a.col_off == 0 && grid == row_blocks(a) {
        m.put(a.partials as int, slabs_of(m, a))
    } else if count == 2 && a.col_off == 0 && b.col_off == row_blocks(a) && grid == row_blocks(a)
        + row_blocks(b) {
        m.put(a.partials as int, slabs_of(m, a)).put(b.partials as int, slabs_of(m, b))
    } else if count == 3 && a.col_off == 0 && b.col_off == row_blocks(a) && c.col_off == row_blocks(
        a,
    ) + row_blocks(b) && grid == row_blocks(a) + row_blocks(b) + row_blocks(c) {
        m.put(a.partials as int, slabs_of(m, a)).put(b.partials as int, slabs_of(m, b)).put(
            c.partials as int,
            slabs_of(m, c),
        )
    } else {
        Memory::lost()
    }
}

/// Heads in `f16`, normed where `hn` says so, at a position.
pub open spec fn heads_at(
    p: Row,
    hn: bool,
    w: int,
    heads: int,
    d: int,
    halves: int,
    pos: int,
    eta: int,
    scale: int,
    eps: int,
) -> Row {
    let p = if hn {
        head_norm(p, w, heads, d, eps)
    } else {
        p
    };
    scaled(rotated(p, heads, halves, pos, eta), scale)
}

/// Attention over `len` tokens with the write of the slot of the last one.
pub open spec fn write_and_attend(
    m: Memory,
    q: int,
    k: int,
    v: int,
    out: int,
    len: int,
    kv: int,
    pages: int,
    page: int,
    block_len: int,
    heads: int,
    ratio: int,
    kv_heads: int,
    d: int,
) -> Memory {
    let z = m.slot(
        Slot {
            kv,
            pages,
            page: page + (len - 1) / block_len,
            place: (len - 1) % block_len,
            block_len,
            kv_heads,
            d,
            key: m.at(k),
            value: m.at(v),
        },
    );
    z.put(out, attend(z, m.at(q), len, kv, pages, page, block_len, heads, ratio, kv_heads, d))
}

/// The second phase of a product, the residual add and the norm after it.
pub open spec fn add_and_norm(
    m: Memory,
    partials: int,
    x: int,
    out: int,
    w: int,
    n: int,
    slabs: int,
    eps: int,
) -> Memory {
    let y = sum(m.at(x), half(summed(m.at(partials), n, slabs), n), n);
    m.put(x, y).put(out, norm(y, w, n, eps))
}

/// The second phase of gate and up, their gating, and the first phase of down.
pub open spec fn gate_and_down(m: Memory, t: Table, at: int, grid: int) -> Memory {
    let (g, u, d) = (t[at], t[at + 40], t[at + 80]);
    let (gn, un) = (g.n as int, u.n as int);
    let act = gated(
        half(summed(m.at(g.partials as int), gn, g.nslabs as int), gn),
        half(summed(m.at(u.partials as int), un, u.nslabs as int), un),
        gn,
    );
    let z = m.put(d.a as int, act);
    if d.k == g.n && un == gn && grid == row_blocks(d) {
        z.put(d.partials as int, slabs_of(z, d))
    } else {
        Memory::lost()
    }
}

/// What a launch of the fused step does.
pub open spec fn fused_launch(m: Memory, l: LaunchV, u: Under, t: Table) -> Memory {
    let a = l.args.map_values(|w: u64| w as int);
    if !set_up(l, u.on) {
        Memory::lost()
    } else {
        match l.kernel {
            Kernel::GemvM1Multi => first_phase(m, t, a[0], a[1], l.grid.x as int),
            Kernel::GemvP2QkvCastHnRope => if l.grid.x == col_blocks(a[8]) + col_blocks(a[9])
                + col_blocks(a[10]) {
                let hn = a[21] == 1;
                let q = half(summed(m.at(a[0]), a[8], a[11]), a[8]);
                let k = half(summed(m.at(a[1]), a[9], a[12]), a[9]);
                let v = half(summed(m.at(a[2]), a[10], a[13]), a[10]);
                let (d, f, pos, eta, eps) = (a[14], a[15], a[16], a[17], a[20]);
                m.put(
                    a[3],
                    heads_at(q, hn, a[6], a[8] / d, d, f, pos, eta, a[18], eps),
                ).put(
                    a[4],
                    heads_at(k, hn, a[7], a[9] / d, d, f, pos, eta, a[19], eps),
                ).put(a[5], v)
            } else {
                Memory::lost()
            },
            Kernel::DecodeStepGqaFlashFused => if l.grid.x == a[6] && a[5] == 1 && a[13] == 1
                && m.words[a[3]] <= a[11] && l.shared == (a[7] + a[11]) * 4 {
                write_and_attend(
                    m,
                    a[0],
                    a[14],
                    a[15],
                    a[4],
                    m.words[a[3]],
                    a[2],
                    a[12],
                    m.words[a[1]],
                    a[8],
                    a[6],
                    a[9],
                    a[10],
                    a[7],
                )
            } else {
                Memory::lost()
            },
            Kernel::GemvP2AddRms => if l.grid.x == 1 {
                add_and_norm(m, a[0], a[1], a[2], a[3], a[4], a[5], a[6])
            } else {
                Memory::lost()
            },
            Kernel::GemvP2GuP1dSwiglu => if a[1] == 3 {
                gate_and_down(m, t, a[0], l.grid.x as int)
            } else {
                Memory::lost()
            },
            Kernel::GemvM1Reduce => if l.grid.x == col_blocks(a[2]) {
                m.put(a[1], summed(m.at(a[0]), a[2], a[3]))
            } else {
                Memory::lost()
            },
            _ => launched(m, l, u.on),
        }
    }
}

/// What an operation of the fused step does.
pub open spec fn fused_op(m: Memory, o: StepOpV, u: Under, t: Table) -> Memory {
    match o {
        StepOpV::Launch(l) => fused_launch(m, l, u, t),
        StepOpV::UploadLens(n) => Memory { words: m.words.insert(u.lens, n as int), ..m },
        StepOpV::Gemm(_) => Memory::lost(),
        StepOpV::Attn { .. } => Memory::lost(),
        StepOpV::FlashRefused(_) => Memory::lost(),
        StepOpV::ReadBack(a) => m.keep(u.place(a)),
        StepOpV::TraceRow => m.keep(u.x),
        _ => m,
    }
}

/// What the fused step does.
pub open spec fn fused_after(m: Memory, ops: Seq<StepOpV>, u: Under, t: Table) -> Memory
    decreases ops.len(),
{
    if ops.len() == 0 {
        m
    } else {
        fused_op(fused_after(m, ops.drop_last(), u, t), ops.last(), u, t)
    }
}

broadcast proof fn lemma_fused_push(
    m: Memory,
    ops: Seq<StepOpV>,
    o: StepOpV,
    u: Under,
    t: Table,
)
    ensures
        #[trigger] fused_after(m, ops.push(o), u, t) == fused_op(
            fused_after(m, ops, u, t),
            o,
            u,
            t,
        ),
{
    assert(ops.push(o).drop_last() =~= ops);
}

/// The buffers of the fused step: those of a row, and the partial sums.
pub open spec fn fused_rows(c: StepCtx, g: FusedGeom) -> Seq<int> {
    let b = c.b;
    seq![
        b.x.ptr as int,
        b.xn.ptr as int,
        b.q.ptr as int,
        b.k.ptr as int,
        b.v.ptr as int,
        b.attn.ptr as int,
        b.down.ptr as int,
        b.logits.ptr as int,
        g.pq as int,
        g.pk as int,
        g.pv as int,
        g.po as int,
        g.pg as int,
        g.pu as int,
        g.pd as int,
        g.plm as int,
    ]
}

spec fn differ(c: StepCtx, g: FusedGeom) -> bool {
    let (s, b) = (fused_rows(c, g), c.b);
    &&& place_of(s, b.x.ptr as int) == 0
    &&& place_of(s, b.xn.ptr as int) == 1
    &&& place_of(s, b.q.ptr as int) == 2
    &&& place_of(s, b.k.ptr as int) == 3
    &&& place_of(s, b.v.ptr as int) == 4
    &&& place_of(s, b.attn.ptr as int) == 5
    &&& place_of(s, b.down.ptr as int) == 6
    &&& place_of(s, b.logits.ptr as int) == 7
    &&& place_of(s, g.pq as int) == 8
    &&& place_of(s, g.pk as int) == 9
    &&& place_of(s, g.pv as int) == 10
    &&& place_of(s, g.po as int) == 11
    &&& place_of(s, g.pg as int) == 12
    &&& place_of(s, g.pu as int) == 13
    &&& place_of(s, g.pd as int) == 14
    &&& place_of(s, g.plm as int) == 15
}

proof fn lemma_differ(c: StepCtx, g: FusedGeom)
    requires
        apart(fused_rows(c, g)),
    ensures
        differ(c, g),
{
    let s = fused_rows(c, g);
    assert forall|j: int| 0 <= j < s.len() implies #[trigger] place_of(s, s[j]) == j by {
        lemma_place(s, j);
    }
    assert(place_of(s, s[0]) == 0 && place_of(s, s[1]) == 1 && place_of(s, s[2]) == 2);
    assert(place_of(s, s[3]) == 3 && place_of(s, s[4]) == 4 && place_of(s, s[5]) == 5);
    assert(place_of(s, s[6]) == 6 && place_of(s, s[7]) == 7 && place_of(s, s[8]) == 8);
    assert(place_of(s, s[9]) == 9 && place_of(s, s[10]) == 10 && place_of(s, s[11]) == 11);
    assert(place_of(s, s[12]) == 12 && place_of(s, s[13]) == 13 && place_of(s, s[14]) == 14);
    assert(place_of(s, s[15]) == 15);
}

/// Whether the rows of a table are uploaded from an address on.
pub open spec fn has_table(t: Table, at: int, rows: Seq<PlanRow>) -> bool {
    forall|r: int| 0 <= r < rows.len() ==> t[at + r * 40] == #[trigger] rows[r]
}

/// A row of the product of `a` with the matrix at `w`, as a layer needs it.
spec fn is_row(r: PlanRow, a: u64, w: u64, partials: u64, n: int, k: int) -> bool {
    r.a == a && r.b == w && r.partials == partials && r.n == n && r.k == k && r.nslabs
        == shape_slabs(n as i32, k as i32)
}

/// What the table and the geometry say of a layer.
spec fn layer_ok(c: StepCtx, g: FusedGeom, w: LayerWeights, li: int, t: Table) -> bool {
    let (cfg, b, at) = (c.cfg, c.b, g.tables + li * 7 * 40);
    let (h, f) = (cfg.hidden_size as int, cfg.ffn_hidden as int);
    let (nq, nk) = (cfg.q_heads * cfg.head_dim, cfg.kv_heads * cfg.head_dim);
    let (q, k, v, o) = (t[at], t[at + 40], t[at + 80], t[at + 120]);
    let (e, u, d) = (t[at + 160], t[at + 200], t[at + 240]);
    &&& is_row(q, b.xn.ptr, w.q_proj.ptr, g.pq, nq, h)
    &&& is_row(k, b.xn.ptr, w.k_proj.ptr, g.pk, nk, h)
    &&& is_row(v, b.xn.ptr, w.v_proj.ptr, g.pv, nk, h)
    &&& is_row(o, b.attn.ptr, w.o_proj.ptr, g.po, h, nq)
    &&& is_row(e, b.xn.ptr, w.gate_proj.ptr, g.pg, f, h)
    &&& is_row(u, b.xn.ptr, w.up_proj.ptr, g.pu, f, h)
    &&& is_row(d, b.down.ptr, w.down_proj.ptr, g.pd, h, f)
    &&& q.col_off == 0 && k.col_off == row_blocks(q) && v.col_off == row_blocks(q) + row_blocks(k)
    &&& o.col_off == 0 && e.col_off == 0 && u.col_off == row_blocks(e)
    &&& g.grid_qkv@[li] == row_blocks(q) + row_blocks(k) + row_blocks(v)
    &&& g.grid_o@[li] == row_blocks(o)
    &&& g.grid_gu@[li] == row_blocks(e) + row_blocks(u)
    &&& g.grid_gu_p2 == row_blocks(d)
    &&& g.nslabs_q == q.nslabs && g.nslabs_k == k.nslabs && g.nslabs_v == v.nslabs
    &&& g.nslabs_o == o.nslabs && g.nslabs_d == d.nslabs
    &&& g.grid_qkv_p2 == col_blocks(nq) + col_blocks(nk) + col_blocks(nk)
    &&& table_at(g, li, 0) == at && table_at(g, li, 3) == at + 120 && table_at(g, li, 4) == at + 160
}

proof fn lemma_rows(p: DecodeGemmPlans, base: u64, n: nat, li: int, r: int)
    requires
        0 <= li < n,
        n <= p.layers@.len(),
        0 <= r < 7,
    ensures
        rows_of_layers(p, base, n).len() == n * 7,
        rows_of_layers(p, base, n)[li * 7 + r] == layer_rows(
            p.layers@[li],
            p.layers@[0],
            p.lm_head,
            base,
        )[r],
    decreases n,
{
    let k = (n - 1) as nat;
    let (s, e) = (
        rows_of_layers(p, base, k),
        layer_rows(p.layers@[k as int], p.layers@[0], p.lm_head, base),
    );
    lemma_rows_len(p, base, k);
    assert(rows_of_layers(p, base, n) == s + e);
    if li < k {
        lemma_rows(p, base, k, li, r);
        assert((s + e)[li * 7 + r] == s[li * 7 + r]);
    } else {
        assert((s + e)[li * 7 + r] == e[r]);
    }
}

proof fn lemma_rows_len(p: DecodeGemmPlans, base: u64, n: nat)
    ensures
        rows_of_layers(p, base, n).len() == n * 7,
    decreases n,
{
    if n > 0 {
        lemma_rows_len(p, base, (n - 1) as nat);
    }
}

proof fn lemma_blocks(n: int, k: int)
    requires
        0 < n < 0x4000_0000,
        0 < k < 0x4000_0000,
    ensures
        col_blocks(n) == shape_cols(n as i32),
        1 <= shape_slabs(n as i32, k as i32) <= 192,
        shape_cols(n as i32) * shape_slabs(n as i32, k as i32) <= 192 + 0x100_0000,
        0 <= shape_cols(n as i32) * shape_slabs(n as i32, k as i32),
        1 <= shape_cols(n as i32) <= 0x100_0000,
{
    lemma_shape(n as i32, k as i32);
    lemma_ceil_div(n, 256);
    let (c, s) = (shape_cols(n as i32), shape_slabs(n as i32, k as i32));
    assert(0 <= c * s) by (nonlinear_arith)
        requires
            c >= 1,
            s >= 1,
    ;
}

proof fn lemma_layer_ok(
    c: StepCtx,
    g: FusedGeom,
    layers: Seq<LayerWeights>,
    lm_head: DeviceBuffer,
    plans: DecodeGemmPlans,
    base: u64,
    tables: u64,
    li: int,
    t: Table,
)
    requires
        c.wf(),
        layers.len() == c.cfg.n_layer,
        plans_of(plans, c.cfg, c.b, layers, lm_head, false),
        fusable(plans),
        geom_of(g, plans, base, tables),
        base + segments(plans.layers@[0], plans.lm_head).total * 4 <= u64::MAX,
        tables + (layers.len() * 7 + 1) * 40 <= u64::MAX,
        has_table(t, tables as int, table_rows(plans, base)),
        0 <= li < layers.len(),
    ensures
        layer_ok(c, g, layers[li], li, t),
{
    let cfg = c.cfg;
    cfg.lemma_heads();
    let (h, f) = (cfg.hidden_size as int, cfg.ffn_hidden as int);
    let (nq, nk) = (cfg.q_heads * cfg.head_dim, cfg.kv_heads * cfg.head_dim);
    lemma_blocks(nq, h);
    lemma_blocks(nk, h);
    lemma_blocks(h, nq);
    lemma_blocks(f, h);
    lemma_blocks(h, f);
    segments_partition_the_buffer(plans);
    let n = layers.len();
    assert(plans.layers@[li] == layer_plans(cfg, c.b, layers[li], false));
    assert(plans.layers@[0] == layer_plans(cfg, c.b, layers[0], false));
    let rows = table_rows(plans, base);
    lemma_rows_len(plans, base, n);
    let l = layer_rows(plans.layers@[li], plans.layers@[0], plans.lm_head, base);
    assert forall|r: int| 0 <= r < 7 implies t[tables + (li * 7 + r) * 40] == #[trigger] l[r] by {
        lemma_rows(plans, base, n, li, r);
        assert(rows[li * 7 + r] == l[r]);
    }
    assert(t[tables + (li * 7 + 0) * 40] == l[0]);
    assert(t[tables + (li * 7 + 1) * 40] == l[1]);
    assert(t[tables + (li * 7 + 2) * 40] == l[2]);
    assert(t[tables + (li * 7 + 3) * 40] == l[3]);
    assert(t[tables + (li * 7 + 4) * 40] == l[4]);
    assert(t[tables + (li * 7 + 5) * 40] == l[5]);
    assert(t[tables + (li * 7 + 6) * 40] == l[6]);
}

/// What the laws of a step are about.
spec fn step_ok(c: StepCtx, g: FusedGeom) -> bool {
    let (cfg, n) = (c.cfg, c.nums_of());
    &&& c.wf()
    &&& differ(c, g)
    &&& n.h == cfg.hidden_size && n.nqk == cfg.q_heads * cfg.head_dim
    &&& n.kvk == cfg.kv_heads * cfg.head_dim && n.ffn == cfg.ffn_hidden
    &&& n.d == cfg.head_dim && n.half == cfg.head_dim as int / 2
    &&& n.q_heads == cfg.q_heads && n.kv_heads == cfg.kv_heads
    &&& n.nqk as int / n.d as int == cfg.q_heads && n.kvk as int / n.d as int == cfg.kv_heads
    &&& n.ratio == cfg.q_heads as int / cfg.kv_heads as int
    &&& n.total_pages == cfg.n_layer * c.pp && n.max_kv == c.pp * 32
    &&& n.vocab == cfg.vocab_size
}

proof fn lemma_step_ok(c: StepCtx, g: FusedGeom)
    requires
        c.wf(),
        apart(fused_rows(c, g)),
    ensures
        step_ok(c, g),
{
    let cfg = c.cfg;
    cfg.lemma_heads();
    lemma_differ(c, g);
    let (n, p) = (cfg.n_layer as int, c.pp as int);
    assert(p <= n * p) by (nonlinear_arith)
        requires
            n >= 1,
            p >= 0,
    ;
    let (q, k, d) = (cfg.q_heads as int, cfg.kv_heads as int, cfg.head_dim as int);
    vstd::arithmetic::div_mod::lemma_div_multiples_vanish(q, d);
    vstd::arithmetic::div_mod::lemma_div_multiples_vanish(k, d);
    assert(q * d == d * q && k * d == d * k) by (nonlinear_arith);
}

/// Whether the length is uploaded, and the page table.
spec fn ready(m: Memory, c: StepCtx, kv_len: usize) -> bool {
    has_pages(m.words, c) && m.words[c.b.lens.ptr as int] == kv_len
}

/// The first half of a layer: the query, the cache slot and attention.
proof fn lemma_fattn(
    m: Memory,
    ops: Seq<StepOpV>,
    c: StepCtx,
    g: FusedGeom,
    net: Net,
    ask: Ask,
    r: Row,
    li: int,
    token: u32,
    pos: usize,
    kv_len: usize,
    detail: bool,
    u: Under,
    t: Table,
)
    requires
        step_ok(c, g),
        layer_ok(c, g, net.layers[li], li, t),
        net.g == c.cfg,
        0 <= li < c.cfg.n_layer,
        net.has_norms(net.layers[li]) == c.cfg.head_norm,
        ask == ask_of(c, token, pos, kv_len),
        kv_len == pos + 1,
        kv_len <= c.pp * 32,
        u == under(c, u.lost),
        ({
            let a = fused_after(m, ops, u, t);
            &&& ready(a, c, kv_len)
            &&& a.at(c.b.x.ptr as int) == r
            &&& a.at(c.b.xn.ptr as int) == net.normed(r, net.layers[li].attn_norm.ptr as int)
        }),
    ensures
        ({
            let w = net.layers[li];
            let (a, z) = (
                fused_after(m, ops, u, t),
                fused_after(m, fused_attn_ops(ops, c, g, w, li, pos, detail), u, t),
            );
            &&& z.at(c.b.x.ptr as int) == r
            &&& z.at(c.b.attn.ptr as int) == net.attention(r, w, ask, li)
            &&& z.cache == a.cache.push(net.slot(r, ask, li))
            &&& z.words == a.words
            &&& z.kept == if detail {
                a.kept.push(r).push(net.normed(r, w.attn_norm.ptr as int)).push(
                    net.query(r, w, ask.pos),
                ).push(net.attention(r, w, ask, li))
            } else {
                a.kept
            }
        }),
{
    broadcast use lemma_fused_push;

    let (w, n, b) = (net.layers[li], c.nums_of(), c.b);
    c.cfg.lemma_heads();
    lemma_layer_page(c, li);
    let a = fused_after(m, ops, u, t);
    let p = li * c.pp;
    assert((p + pos as int / 32 - p) * 32 + pos as int % 32 == pos);
    assert(c.page_table(li) == entry(c, p));
    assert(a.words[entry(c, p)] == p);
    let s0 = start(read_back(read_back(ops, detail, Anchor::X), detail, Anchor::Xn), SEG_QKV);
    let a0 = fused_after(m, s0, u, t);
    assert(a0.rows == a.rows && a0.cache == a.cache && a0.words == a.words);
    let s1 = run(s0, f_p1_qkv(c, g, li), SEG_QKV);
    let m1 = fused_after(m, s1, u, t);
    let xn = net.normed(r, w.attn_norm.ptr as int);
    let h = c.cfg.hidden_size as int;
    let (nq, nk) = (c.cfg.q_heads * c.cfg.head_dim, c.cfg.kv_heads * c.cfg.head_dim);
    let at = g.tables + li * 7 * 40;
    assert(m1 == a0.put(g.pq as int, slabs_of(a, t[at])).put(
        g.pk as int,
        slabs_of(a, t[at + 40]),
    ).put(g.pv as int, slabs_of(a, t[at + 80])));
    assert(summed(m1.at(g.pq as int), nq, g.nslabs_q as int) == product(
        xn,
        w.q_proj.ptr as int,
        nq,
        h,
    ));
    assert(summed(m1.at(g.pk as int), nk, g.nslabs_k as int) == product(
        xn,
        w.k_proj.ptr as int,
        nk,
        h,
    ));
    assert(summed(m1.at(g.pv as int), nk, g.nslabs_v as int) == product(
        xn,
        w.v_proj.ptr as int,
        nk,
        h,
    ));
    let s2 = end(run(s1, f_p2_qkv(c, g, w, pos as u32), SEG_QKV), SEG_QKV);
    let m2 = fused_after(m, s2, u, t);
    let (q, k, v) = (net.query(r, w, ask.pos), net.key(r, w, ask.pos), net.value(r, w));
    assert(m2 == m1.put(b.q.ptr as int, q).put(b.k.ptr as int, k).put(b.v.ptr as int, v));
    let s3 = start(read_back(s2, detail, Anchor::Q), SEG_ATTN);
    let m3 = fused_after(m, s3, u, t);
    assert(m3.rows == m2.rows && m3.cache == m2.cache && m3.words == m2.words);
    let s4 = run(s3, f_flash(c, li), SEG_ATTN);
    let m4 = fused_after(m, s4, u, t);
    let slot = net.slot(r, ask, li);
    let z = m3.slot(slot);
    assert(z.cache.last() == slot);
    assert(m4 == z.put(b.attn.ptr as int, net.attention(r, w, ask, li)));
}

/// The second half of a layer.
proof fn lemma_fffn(
    m: Memory,
    ops: Seq<StepOpV>,
    c: StepCtx,
    g: FusedGeom,
    net: Net,
    r: Row,
    o: Row,
    li: int,
    mode: StepMode,
    u: Under,
    t: Table,
)
    requires
        step_ok(c, g),
        layer_ok(c, g, net.layers[li], li, t),
        net.g == c.cfg,
        net.final_norm == c.final_norm,
        0 <= li < net.layers.len(),
        u == under(c, u.lost),
        fused_after(m, ops, u, t).at(c.b.x.ptr as int) == r,
        fused_after(m, ops, u, t).at(c.b.attn.ptr as int) == o,
    ensures
        ({
            let w = net.layers[li];
            let (a, z) = (
                fused_after(m, ops, u, t),
                fused_after(m, fused_ffn_ops(ops, c, g, net.layers, li, mode), u, t),
            );
            let y = net.plus(r, o, w.o_proj.ptr as int, c.cfg.q_heads * c.cfg.head_dim);
            let x = net.plus(
                y,
                net.gate(y, w),
                w.down_proj.ptr as int,
                c.cfg.ffn_hidden as int,
            );
            &&& z.at(c.b.x.ptr as int) == x
            &&& z.at(c.b.xn.ptr as int) == net.normed(x, following(net, li))
            &&& z.cache == a.cache
            &&& z.words == a.words
            &&& z.kept == if mode.trace {
                a.kept.push(x)
            } else {
                a.kept
            }
        }),
{
    broadcast use lemma_fused_push;

    let (w, n, b) = (net.layers[li], c.nums_of(), c.b);
    c.cfg.lemma_heads();
    let a = fused_after(m, ops, u, t);
    let (h, f) = (c.cfg.hidden_size as int, c.cfg.ffn_hidden as int);
    let nq = c.cfg.q_heads * c.cfg.head_dim;
    let at = g.tables + li * 7 * 40;
    let s1 = run(start(ops, SEG_O), f_p1_o(c, g, li), SEG_O);
    let s2 = start(push_detail(s1, mode.detail), SEG_O);
    let m2 = fused_after(m, s2, u, t);
    assert(m2 == a.put(g.po as int, slabs_of(a, t[at + 120])));
    assert(summed(m2.at(g.po as int), h, g.nslabs_o as int) == product(
        o,
        w.o_proj.ptr as int,
        h,
        nq,
    ));
    let s3 = end(run(s2, f_p2_o(c, g, w), SEG_O), SEG_O);
    let m3 = fused_after(m, s3, u, t);
    let y = net.plus(r, o, w.o_proj.ptr as int, nq);
    let yn = net.normed(y, w.ffn_norm.ptr as int);
    assert(m3 == m2.put(b.x.ptr as int, y).put(b.xn.ptr as int, yn));
    let s4 = end(run(start(s3, SEG_FFN_GU), f_p1_gu(c, g, li), SEG_FFN_GU), SEG_FFN_GU);
    let m4 = fused_after(m, s4, u, t);
    assert(m4 == m3.put(g.pg as int, slabs_of(m3, t[at + 160])).put(
        g.pu as int,
        slabs_of(m3, t[at + 200]),
    ));
    assert(summed(m4.at(g.pg as int), f, t[at + 160].nslabs as int) == product(
        yn,
        w.gate_proj.ptr as int,
        f,
        h,
    ));
    assert(summed(m4.at(g.pu as int), f, t[at + 200].nslabs as int) == product(
        yn,
        w.up_proj.ptr as int,
        f,
        h,
    ));
    let s5 = end(run(start(s4, SEG_FFN_D), f_p2_gu_d(c, g, li), SEG_FFN_D), SEG_FFN_D);
    let m5 = fused_after(m, s5, u, t);
    let z5 = m4.put(b.down.ptr as int, net.gate(y, w));
    assert(m5 == z5.put(g.pd as int, slabs_of(z5, t[at + 240])));
    assert(summed(m5.at(g.pd as int), h, g.nslabs_d as int) == product(
        net.gate(y, w),
        w.down_proj.ptr as int,
        h,
        f,
    ));
    assert(m5.at(b.x.ptr as int) == y);
}

/// The weights of the norm that follows a layer: the one before the projections of the
/// next layer, or the one before the output head.
spec fn following(net: Net, li: int) -> int {
    if li + 1 < net.layers.len() {
        net.layers[li + 1].attn_norm.ptr as int
    } else {
        net.final_norm
    }
}

proof fn lemma_flayers(
    m: Memory,
    ops: Seq<StepOpV>,
    c: StepCtx,
    g: FusedGeom,
    net: Net,
    ask: Ask,
    n: nat,
    token: u32,
    pos: usize,
    kv_len: usize,
    mode: StepMode,
    u: Under,
    t: Table,
)
    requires
        step_ok(c, g),
        forall|li: int|
            0 <= li < net.layers.len() ==> layer_ok(c, g, #[trigger] net.layers[li], li, t)
                && net.has_norms(net.layers[li]) == c.cfg.head_norm,
        net.g == c.cfg,
        net.final_norm == c.final_norm,
        net.layers.len() == c.cfg.n_layer,
        n <= net.layers.len(),
        ask == ask_of(c, token, pos, kv_len),
        kv_len == pos + 1,
        kv_len <= c.pp * 32,
        u == under(c, u.lost),
        ({
            let a = fused_after(m, ops, u, t);
            let x = net.hidden(ask, 0);
            &&& ready(a, c, kv_len)
            &&& a.at(c.b.x.ptr as int) == x
            &&& a.at(c.b.xn.ptr as int) == net.normed(x, following(net, -1))
        }),
    ensures
        ({
            let a = fused_after(m, ops, u, t);
            let z = fused_after(
                m,
                fused_layers_ops(ops, c, g, net.layers, n, pos, mode),
                u,
                t,
            );
            let x = net.hidden(ask, n);
            &&& z.words == a.words
            &&& z.at(c.b.x.ptr as int) == x
            &&& z.at(c.b.xn.ptr as int) == net.normed(x, following(net, n - 1))
            &&& z.cache == a.cache + net.slots(ask, n)
            &&& z.kept == a.kept + net.kept(ask, n, mode.detail, mode.trace)
        }),
    decreases n,
{
    let a = fused_after(m, ops, u, t);
    if n == 0 {
        assert(a.cache + net.slots(ask, 0) =~= a.cache);
        assert(a.kept + net.kept(ask, 0, mode.detail, mode.trace) =~= a.kept);
    } else {
        let k = (n - 1) as nat;
        lemma_flayers(m, ops, c, g, net, ask, k, token, pos, kv_len, mode, u, t);
        let (w, r) = (net.layers[k as int], net.hidden(ask, k));
        let s1 = fused_layers_ops(ops, c, g, net.layers, k, pos, mode);
        let li = k as int;
        lemma_fattn(m, s1, c, g, net, ask, r, li, token, pos, kv_len, mode.detail, u, t);
        let s2 = fused_attn_ops(s1, c, g, w, li, pos, mode.detail);
        lemma_fffn(m, s2, c, g, net, r, net.attention(r, w, ask, li), li, mode, u, t);
        let z = fused_after(m, fused_ffn_ops(s2, c, g, net.layers, li, mode), u, t);
        assert(z.cache =~= a.cache + net.slots(ask, n));
        assert(z.kept =~= a.kept + net.kept(ask, n, mode.detail, mode.trace));
    }
}

/// The output head.
proof fn lemma_fhead(
    m: Memory,
    ops: Seq<StepOpV>,
    c: StepCtx,
    g: FusedGeom,
    net: Net,
    u: Under,
    t: Table,
)
    requires
        step_ok(c, g),
        head_ok(c, g, net, t),
        u == under(c, u.lost),
    ensures
        ({
            let (a, z) = (
                fused_after(m, ops, u, t),
                fused_after(m, fused_head_ops(ops, c, g), u, t),
            );
            &&& z.at(c.b.logits.ptr as int) == product(
                a.at(c.b.xn.ptr as int),
                net.lm_head,
                c.cfg.vocab_size as int,
                c.cfg.hidden_size as int,
            )
            &&& z.cache == a.cache
            &&& z.kept == a.kept
        }),
{
    broadcast use lemma_fused_push;

    let a = fused_after(m, ops, u, t);
    let s1 = run(start(ops, SEG_LM_HEAD), f_p1_lm(c, g), SEG_LM_HEAD);
    let m1 = fused_after(m, s1, u, t);
    assert(m1 == a.put(g.plm as int, slabs_of(a, t[g.lm_table as int])));
}

/// What the table and the geometry say of the output head.
spec fn head_ok(c: StepCtx, g: FusedGeom, net: Net, t: Table) -> bool {
    let (r, v, h) = (t[g.lm_table as int], c.cfg.vocab_size as int, c.cfg.hidden_size as int);
    &&& r.a == c.b.xn.ptr && r.b == net.lm_head && r.partials == g.plm && r.n == v && r.k == h
    &&& r.nslabs == 1 && r.col_off == 0
    &&& g.grid_lm == row_blocks(r)
}

proof fn lemma_head_ok(
    c: StepCtx,
    g: FusedGeom,
    net: Net,
    lm_head: DeviceBuffer,
    plans: DecodeGemmPlans,
    base: u64,
    tables: u64,
    t: Table,
)
    requires
        c.wf(),
        net.layers.len() == c.cfg.n_layer,
        net.lm_head == lm_head.ptr,
        plans_of(plans, c.cfg, c.b, net.layers, lm_head, false),
        fusable(plans),
        geom_of(g, plans, base, tables),
        base + segments(plans.layers@[0], plans.lm_head).total * 4 <= u64::MAX,
        tables + (net.layers.len() * 7 + 1) * 40 <= u64::MAX,
        has_table(t, tables as int, table_rows(plans, base)),
    ensures
        head_ok(c, g, net, t),
{
    let (v, h) = (c.cfg.vocab_size as int, c.cfg.hidden_size as int);
    lemma_blocks(v, h);
    segments_partition_the_buffer(plans);
    let (n, rows) = (net.layers.len(), table_rows(plans, base));
    lemma_rows_len(plans, base, n);
    assert(plans.layers@.len() == n);
    assert(t[tables + (n * 7) * 40] == rows[n * 7 as int]);
}

/// The embedding row, the norm before the first layer, and the length.
proof fn lemma_fprologue(
    m: Memory,
    c: StepCtx,
    g: FusedGeom,
    net: Net,
    token: u32,
    pos: usize,
    kv_len: usize,
    u: Under,
    t: Table,
)
    requires
        step_ok(c, g),
        net.g == c.cfg,
        net.embed == c.embed,
        net.layers.len() == c.cfg.n_layer,
        u == under(c, u.lost),
        has_pages(m.words, c),
        forall|p: int| 0 <= p < c.cfg.n_layer * c.pp ==> #[trigger] entry(c, p) != c.b.lens.ptr,
        kv_len <= u32::MAX,
    ensures
        ({
            let s = run(begin(Seq::empty()), l_gather(c, token), SEG_SMALL);
            let s = end(run(s, l_rms(c, net.layers[0].attn_norm.ptr), SEG_SMALL), SEG_SMALL);
            let z = fused_after(m, upload_lens(s, kv_len), u, t);
            let x = net.hidden(ask_of(c, token, pos, kv_len), 0);
            &&& ready(z, c, kv_len)
            &&& z.cache == m.cache
            &&& z.kept == m.kept
            &&& z.at(c.b.x.ptr as int) == x
            &&& z.at(c.b.xn.ptr as int) == net.normed(x, following(net, -1))
        }),
{
    broadcast use lemma_fused_push, lemma_blocks_cover;

    assert(fused_after(m, Seq::empty(), u, t) == m);
}

/// The fused step computes the model's step: it leaves the logits of the token at its
/// position in the buffer of logits, and has written the token's key and value of every
/// layer to the slots of that position, once each.  What it reads back for a trace are the
/// rows of the model.
pub proof fn a_fused_step_computes_the_model(
    m: Memory,
    c: StepCtx,
    g: FusedGeom,
    layers: Seq<LayerWeights>,
    lm_head: DeviceBuffer,
    plans: DecodeGemmPlans,
    base: u64,
    tables: u64,
    t: Table,
    token: u32,
    pos: usize,
    kv_len: usize,
    mode: StepMode,
)
    requires
        c.wf(),
        layers.len() == c.cfg.n_layer,
        plans_of(plans, c.cfg, c.b, layers, lm_head, false),
        fusable(plans),
        geom_of(g, plans, base, tables),
        base + segments(plans.layers@[0], plans.lm_head).total * 4 <= u64::MAX,
        tables + (layers.len() * 7 + 1) * 40 <= u64::MAX,
        has_table(t, tables as int, table_rows(plans, base)),
        forall|li: int|
            0 <= li < layers.len() ==> ((#[trigger] layers[li]).q_norm is Some
                && layers[li].k_norm is Some) == c.cfg.head_norm,
        apart(fused_rows(c, g)),
        has_pages(m.words, c),
        forall|p: int| 0 <= p < c.cfg.n_layer * c.pp ==> #[trigger] entry(c, p) != c.b.lens.ptr,
        kv_len == pos + 1,
        kv_len <= c.pp * 32,
    ensures
        ({
            let z = fused_after(
                m,
                fused_ops(c, g, layers, token, pos, kv_len, mode),
                under(c, false),
                t,
            );
            let (net, ask) = (net_of(c, layers, lm_head), ask_of(c, token, pos, kv_len));
            &&& z.at(c.b.logits.ptr as int) == net.logits(ask)
            &&& z.cache == m.cache + net.slots(ask, layers.len())
            &&& z.kept == m.kept + net.kept(ask, layers.len(), mode.detail, mode.trace)
        }),
{
    let (net, ask) = (net_of(c, layers, lm_head), ask_of(c, token, pos, kv_len));
    let u = under(c, false);
    lemma_step_ok(c, g);
    assert forall|li: int| 0 <= li < net.layers.len() implies layer_ok(
        c,
        g,
        #[trigger] net.layers[li],
        li,
        t,
    ) && net.has_norms(net.layers[li]) == c.cfg.head_norm by {
        lemma_layer_ok(c, g, layers, lm_head, plans, base, tables, li, t);
    }
    lemma_head_ok(c, g, net, lm_head, plans, base, tables, t);
    let s = run(begin(Seq::empty()), l_gather(c, token), SEG_SMALL);
    let s = end(run(s, l_rms(c, layers[0].attn_norm.ptr), SEG_SMALL), SEG_SMALL);
    let s = upload_lens(s, kv_len);
    lemma_fprologue(m, c, g, net, token, pos, kv_len, u, t);
    let n = layers.len();
    lemma_flayers(m, s, c, g, net, ask, n, token, pos, kv_len, mode, u, t);
    lemma_fhead(m, fused_layers_ops(s, c, g, layers, n, pos, mode), c, g, net, u, t);
}

/// What a loaded layer kernel knows: its constants, and the grid and the shared memory
/// that it is resident with.
pub struct LayerConsts {
    pub at: int,
    pub bar: int,
    pub s: LayerFusedSpec,
    pub grid: int,
    pub shared: int,
    /// The scale of the query, the reciprocal square root of the width of a head.
    pub scale: int,
}

/// The first half of the stages of the layer kernel, up to attention.
pub open spec fn layer_attends(
    m: Memory,
    k: LayerConsts,
    t: Table,
    at: int,
    wq: int,
    wk: int,
    li: int,
    pos: int,
) -> Memory {
    let s = k.s;
    let (q, e, v) = (t[at], t[at + 40], t[at + 80]);
    let m1 = m.put(q.partials as int, slabs_of(m, q)).put(e.partials as int, slabs_of(m, e)).put(
        v.partials as int,
        slabs_of(m, v),
    );
    let (nq, nk, d) = (s.nqk as int, s.kvk as int, s.d as int);
    let (halves, eta, eps) = (d / 2, s.eta as int, s.eps as int);
    let rq = half(summed(m1.at(q.partials as int), nq, q.nslabs as int), nq);
    let rk = half(summed(m1.at(e.partials as int), nk, e.nslabs as int), nk);
    let rv = half(summed(m1.at(v.partials as int), nk, v.nslabs as int), nk);
    let (hq, hk) = (s.q_heads as int, s.kv_heads as int);
    let m2 = m1.put(
        s.q16 as int,
        heads_at(rq, s.head_norm, wq, hq, d, halves, pos, eta, k.scale, eps),
    ).put(s.k16 as int, heads_at(rk, s.head_norm, wk, hk, d, halves, pos, eta, one(), eps)).put(
        s.v16 as int,
        rv,
    );
    if m2.words[s.lens as int] <= s.max_kv {
        write_and_attend(
            m2,
            s.q16 as int,
            s.k16 as int,
            s.v16 as int,
            s.attn as int,
            m2.words[s.lens as int],
            s.kv as int,
            s.total_pages as int,
            m2.words[s.pages + li * s.pp * 4],
            s.block_len as int,
            hq,
            hq / hk,
            hk,
            d,
        )
    } else {
        Memory::lost()
    }
}

/// The second half of the stages of the layer kernel.
pub open spec fn layer_feeds(
    m: Memory,
    k: LayerConsts,
    t: Table,
    at: int,
    wnext: int,
    ffn_norm: int,
) -> Memory {
    let s = k.s;
    let (o, e, u, d) = (t[at + 120], t[at + 160], t[at + 200], t[at + 240]);
    let (x, xn, h, eps) = (s.x as int, s.xn as int, s.h as int, s.eps as int);
    let m1 = m.put(o.partials as int, slabs_of(m, o));
    let m2 = add_and_norm(m1, o.partials as int, x, xn, ffn_norm, h, o.nslabs as int, eps);
    let m3 = m2.put(e.partials as int, slabs_of(m2, e)).put(u.partials as int, slabs_of(m2, u));
    let m4 = gate_and_down(m3, t, at + 160, row_blocks(d));
    add_and_norm(m4, d.partials as int, x, xn, wnext, h, d.nslabs as int, eps)
}

/// What a launch of the layer kernel does: on the first layer the embedding row and its
/// norm, and on every layer the stages of the fused step, one after the other.
pub open spec fn layer_launched(
    m: Memory,
    l: LaunchV,
    u: Under,
    t: Table,
    k: LayerConsts,
) -> Memory {
    let a = l.args.map_values(|w: u64| w as int);
    if l.kernel == Kernel::LayerFused {
        if set_up(l, u.on) && l.grid.x == k.grid && l.shared == k.shared && a[0] == k.at && a[6]
            == k.bar && 0 <= a[7] < a[8] && t[a[1] + 240].k == k.s.ffn {
            let s = k.s;
            let first = Row::Embedding { table: s.embed as int, token: a[10], n: s.h as int };
            let m0 = if a[7] == 0 {
                m.put(s.x as int, first).put(
                    s.xn as int,
                    norm(first, s.wnorm0 as int, s.h as int, s.eps as int),
                )
            } else {
                m
            };
            let m1 = layer_attends(m0, k, t, a[1], a[4], a[5], a[7], a[9]);
            layer_feeds(m1, k, t, a[1], a[2], a[3])
        } else {
            Memory::lost()
        }
    } else {
        fused_launch(m, l, u, t)
    }
}

/// What an operation of the step of one launch per layer does.
pub open spec fn layer_op(m: Memory, o: StepOpV, u: Under, t: Table, k: LayerConsts) -> Memory {
    match o {
        StepOpV::Launch(l) => layer_launched(m, l, u, t, k),
        _ => fused_op(m, o, u, t),
    }
}

/// What the step of one launch per layer does.
pub open spec fn layer_after(
    m: Memory,
    ops: Seq<StepOpV>,
    u: Under,
    t: Table,
    k: LayerConsts,
) -> Memory
    decreases ops.len(),
{
    if ops.len() == 0 {
        m
    } else {
        layer_op(layer_after(m, ops.drop_last(), u, t, k), ops.last(), u, t, k)
    }
}

broadcast proof fn lemma_layer_push(
    m: Memory,
    ops: Seq<StepOpV>,
    o: StepOpV,
    u: Under,
    t: Table,
    k: LayerConsts,
)
    ensures
        #[trigger] layer_after(m, ops.push(o), u, t, k) == layer_op(
            layer_after(m, ops, u, t, k),
            o,
            u,
            t,
            k,
        ),
{
    assert(ops.push(o).drop_last() =~= ops);
}

/// What a loaded layer kernel knows of a context.
pub open spec fn consts_of(
    c: StepCtx,
    lf: LayerFusedKernels,
    layers: Seq<LayerWeights>,
) -> LayerConsts {
    LayerConsts {
        at: lf.const_ptr as int,
        bar: lf.bar_ptr as int,
        s: spec_of(c, layers[0].attn_norm.ptr),
        grid: lf.grid as int,
        shared: lf.shared as int,
        scale: c.cfg.q_scale as int,
    }
}

/// The first half of a layer in one launch.
proof fn lemma_lattn(
    m: Memory,
    c: StepCtx,
    g: FusedGeom,
    lf: LayerFusedKernels,
    net: Net,
    ask: Ask,
    r: Row,
    li: int,
    token: u32,
    pos: usize,
    kv_len: usize,
    t: Table,
)
    requires
        step_ok(c, g),
        layer_ok(c, g, net.layers[li], li, t),
        net.g == c.cfg,
        0 <= li < c.cfg.n_layer,
        net.has_norms(net.layers[li]) == c.cfg.head_norm,
        ask == ask_of(c, token, pos, kv_len),
        kv_len == pos + 1,
        kv_len <= c.pp * 32,
        ready(m, c, kv_len),
        m.at(c.b.x.ptr as int) == r,
        m.at(c.b.xn.ptr as int) == net.normed(r, net.layers[li].attn_norm.ptr as int),
    ensures
        ({
            let (w, k) = (net.layers[li], consts_of(c, lf, net.layers));
            let (wq, wk) = norm_weights(w);
            let z = layer_attends(
                m,
                k,
                t,
                g.tables + li * 7 * 40,
                wq as int,
                wk as int,
                li,
                pos as int,
            );
            &&& z.at(c.b.x.ptr as int) == r
            &&& z.at(c.b.attn.ptr as int) == net.attention(r, w, ask, li)
            &&& z.cache == m.cache.push(net.slot(r, ask, li))
            &&& z.words == m.words
            &&& z.kept == m.kept
        }),
{
    let (w, k, b) = (net.layers[li], consts_of(c, lf, net.layers), c.b);
    c.cfg.lemma_heads();
    lemma_layer_page(c, li);
    let p = li * c.pp;
    assert(m.words[entry(c, p)] == p);
    let xn = net.normed(r, w.attn_norm.ptr as int);
    let h = c.cfg.hidden_size as int;
    let (nq, nk) = (c.cfg.q_heads * c.cfg.head_dim, c.cfg.kv_heads * c.cfg.head_dim);
    let at = g.tables + li * 7 * 40;
    let m1 = m.put(g.pq as int, slabs_of(m, t[at])).put(g.pk as int, slabs_of(m, t[at + 40])).put(
        g.pv as int,
        slabs_of(m, t[at + 80]),
    );
    assert(summed(m1.at(g.pq as int), nq, t[at].nslabs as int) == product(
        xn,
        w.q_proj.ptr as int,
        nq,
        h,
    ));
    assert(summed(m1.at(g.pk as int), nk, t[at + 40].nslabs as int) == product(
        xn,
        w.k_proj.ptr as int,
        nk,
        h,
    ));
    assert(summed(m1.at(g.pv as int), nk, t[at + 80].nslabs as int) == product(
        xn,
        w.v_proj.ptr as int,
        nk,
        h,
    ));
    let (q, e, v) = (net.query(r, w, ask.pos), net.key(r, w, ask.pos), net.value(r, w));
    let m2 = m1.put(b.q.ptr as int, q).put(b.k.ptr as int, e).put(b.v.ptr as int, v);
    let slot = net.slot(r, ask, li);
    let z = m2.slot(slot);
    assert(z.cache.last() == slot);
    assert((p + pos as int / 32 - p) * 32 + pos as int % 32 == pos);
    let (wq, wk) = norm_weights(w);
    assert(layer_attends(m, k, t, at, wq as int, wk as int, li, pos as int) == z.put(
        b.attn.ptr as int,
        net.attention(r, w, ask, li),
    ));
}

/// The second half of a layer in one launch.
proof fn lemma_lffn(
    m: Memory,
    c: StepCtx,
    g: FusedGeom,
    lf: LayerFusedKernels,
    net: Net,
    r: Row,
    o: Row,
    li: int,
    wnext: int,
    t: Table,
)
    requires
        step_ok(c, g),
        layer_ok(c, g, net.layers[li], li, t),
        net.g == c.cfg,
        m.at(c.b.x.ptr as int) == r,
        m.at(c.b.attn.ptr as int) == o,
    ensures
        ({
            let w = net.layers[li];
            let z = layer_feeds(
                m,
                consts_of(c, lf, net.layers),
                t,
                g.tables + li * 7 * 40,
                wnext,
                w.ffn_norm.ptr as int,
            );
            let y = net.plus(r, o, w.o_proj.ptr as int, c.cfg.q_heads * c.cfg.head_dim);
            let x = net.plus(
                y,
                net.gate(y, w),
                w.down_proj.ptr as int,
                c.cfg.ffn_hidden as int,
            );
            &&& z.at(c.b.x.ptr as int) == x
            &&& z.at(c.b.xn.ptr as int) == net.normed(x, wnext)
            &&& z.cache == m.cache
            &&& z.words == m.words
            &&& z.kept == m.kept
        }),
{
    let (w, b) = (net.layers[li], c.b);
    c.cfg.lemma_heads();
    let (h, f) = (c.cfg.hidden_size as int, c.cfg.ffn_hidden as int);
    let nq = c.cfg.q_heads * c.cfg.head_dim;
    let at = g.tables + li * 7 * 40;
    let m1 = m.put(g.po as int, slabs_of(m, t[at + 120]));
    assert(summed(m1.at(g.po as int), h, t[at + 120].nslabs as int) == product(
        o,
        w.o_proj.ptr as int,
        h,
        nq,
    ));
    let y = net.plus(r, o, w.o_proj.ptr as int, nq);
    let yn = net.normed(y, w.ffn_norm.ptr as int);
    let m2 = m1.put(b.x.ptr as int, y).put(b.xn.ptr as int, yn);
    let m3 = m2.put(g.pg as int, slabs_of(m2, t[at + 160])).put(
        g.pu as int,
        slabs_of(m2, t[at + 200]),
    );
    assert(summed(m3.at(g.pg as int), f, t[at + 160].nslabs as int) == product(
        yn,
        w.gate_proj.ptr as int,
        f,
        h,
    ));
    assert(summed(m3.at(g.pu as int), f, t[at + 200].nslabs as int) == product(
        yn,
        w.up_proj.ptr as int,
        f,
        h,
    ));
    let z = m3.put(b.down.ptr as int, net.gate(y, w));
    let m4 = z.put(g.pd as int, slabs_of(z, t[at + 240]));
    assert(gate_and_down(m3, t, at + 160, row_blocks(t[at + 240])) == m4);
    assert(summed(m4.at(g.pd as int), h, t[at + 240].nslabs as int) == product(
        net.gate(y, w),
        w.down_proj.ptr as int,
        h,
        f,
    ));
}

/// A layer in one launch.
proof fn lemma_llayer(
    m: Memory,
    c: StepCtx,
    g: FusedGeom,
    lf: LayerFusedKernels,
    net: Net,
    ask: Ask,
    li: int,
    token: u32,
    pos: usize,
    kv_len: usize,
    u: Under,
    t: Table,
)
    requires
        step_ok(c, g),
        0 <= li < net.layers.len(),
        layer_ok(c, g, net.layers[li], li, t),
        net.has_norms(net.layers[li]) == c.cfg.head_norm,
        net.g == c.cfg,
        net.embed == c.embed,
        net.final_norm == c.final_norm,
        net.layers.len() == c.cfg.n_layer,
        net.layers.len() <= u32::MAX,
        ask == ask_of(c, token, pos, kv_len),
        kv_len == pos + 1,
        kv_len <= c.pp * 32,
        pos <= u32::MAX,
        u == under(c, u.lost),
        ready(m, c, kv_len),
        li > 0 ==> m.at(c.b.x.ptr as int) == net.hidden(ask, li as nat),
        li > 0 ==> m.at(c.b.xn.ptr as int) == net.normed(
            net.hidden(ask, li as nat),
            net.layers[li].attn_norm.ptr as int,
        ),
    ensures
        ({
            let l = lf_layer(c, g, lf, net.layers, li, pos as u32, token);
            let z = layer_launched(m, l, u, t, consts_of(c, lf, net.layers));
            let x = net.hidden(ask, (li + 1) as nat);
            &&& z.words == m.words
            &&& z.kept == m.kept
            &&& z.at(c.b.x.ptr as int) == x
            &&& z.at(c.b.xn.ptr as int) == net.normed(x, following(net, li))
            &&& z.cache == m.cache.push(net.slot(net.hidden(ask, li as nat), ask, li))
        }),
{
    let k = consts_of(c, lf, net.layers);
    let (w, r) = (net.layers[li], net.hidden(ask, li as nat));
    let first = net.hidden(ask, 0);
    let m2 = if li == 0 {
        m.put(c.b.x.ptr as int, first).put(
            c.b.xn.ptr as int,
            net.normed(first, w.attn_norm.ptr as int),
        )
    } else {
        m
    };
    lemma_lattn(m2, c, g, lf, net, ask, r, li, token, pos, kv_len, t);
    let at = g.tables + li * 7 * 40;
    let (wq, wk) = norm_weights(w);
    let m3 = layer_attends(m2, k, t, at, wq as int, wk as int, li, pos as int);
    let attn = net.attention(r, w, ask, li);
    lemma_lffn(m3, c, g, lf, net, r, attn, li, following(net, li), t);
    let m4 = layer_feeds(m3, k, t, at, following(net, li), w.ffn_norm.ptr as int);
    let l = lf_layer(c, g, lf, net.layers, li, pos as u32, token);
    let a = l.args.map_values(|w: u64| w as int);
    assert(a[0] == lf.const_ptr && a[1] == at && a[2] == following(net, li) && a[3]
        == w.ffn_norm.ptr && a[4] == wq && a[5] == wk && a[6] == lf.bar_ptr && a[7] == li && a[8]
        == net.layers.len() && a[9] == pos && a[10] == token);
    assert(layer_launched(m, l, u, t, k) == m4);
}

/// What a program does when a traced launch is added to it.
proof fn lemma_lrun(
    m: Memory,
    ops: Seq<StepOpV>,
    l: LaunchV,
    trace: bool,
    u: Under,
    t: Table,
    k: LayerConsts,
)
    ensures
        ({
            let z = layer_launched(layer_after(m, ops, u, t, k), l, u, t, k);
            layer_after(m, trace_row(run(ops, l, SEG_LAYER), trace), u, t, k) == if trace {
                z.keep(u.x)
            } else {
                z
            }
        }),
{
    broadcast use lemma_layer_push;

}

proof fn lemma_llayers(
    m: Memory,
    ops: Seq<StepOpV>,
    c: StepCtx,
    g: FusedGeom,
    lf: LayerFusedKernels,
    net: Net,
    ask: Ask,
    n: nat,
    token: u32,
    pos: usize,
    kv_len: usize,
    trace: bool,
    u: Under,
    t: Table,
)
    requires
        step_ok(c, g),
        forall|li: int|
            0 <= li < net.layers.len() ==> layer_ok(c, g, #[trigger] net.layers[li], li, t)
                && net.has_norms(net.layers[li]) == c.cfg.head_norm,
        net.g == c.cfg,
        net.embed == c.embed,
        net.final_norm == c.final_norm,
        net.layers.len() == c.cfg.n_layer,
        net.layers.len() <= u32::MAX,
        n <= net.layers.len(),
        ask == ask_of(c, token, pos, kv_len),
        kv_len == pos + 1,
        kv_len <= c.pp * 32,
        pos <= u32::MAX,
        u == under(c, u.lost),
        ready(layer_after(m, ops, u, t, consts_of(c, lf, net.layers)), c, kv_len),
    ensures
        ({
            let k = consts_of(c, lf, net.layers);
            let a = layer_after(m, ops, u, t, k);
            let z = layer_after(
                m,
                lf_layers_ops(ops, c, g, lf, net.layers, n, pos, token, trace),
                u,
                t,
                k,
            );
            let x = net.hidden(ask, n);
            &&& z.words == a.words
            &&& n > 0 ==> z.at(c.b.x.ptr as int) == x
            &&& n > 0 ==> z.at(c.b.xn.ptr as int) == net.normed(x, following(net, n - 1))
            &&& z.cache == a.cache + net.slots(ask, n)
            &&& z.kept == a.kept + net.kept(ask, n, false, trace)
        }),
    decreases n,
{
    let k = consts_of(c, lf, net.layers);
    let a = layer_after(m, ops, u, t, k);
    if n == 0 {
        assert(a.cache + net.slots(ask, 0) =~= a.cache);
        assert(a.kept + net.kept(ask, 0, false, trace) =~= a.kept);
    } else {
        let li = n - 1;
        lemma_llayers(m, ops, c, g, lf, net, ask, li as nat, token, pos, kv_len, trace, u, t);
        let s1 = lf_layers_ops(ops, c, g, lf, net.layers, li as nat, pos, token, trace);
        let m1 = layer_after(m, s1, u, t, k);
        lemma_llayer(m1, c, g, lf, net, ask, li, token, pos, kv_len, u, t);
        let l = lf_layer(c, g, lf, net.layers, li, pos as u32, token);
        lemma_lrun(m, s1, l, trace, u, t, k);
        assert(layer_launched(m1, l, u, t, k).cache =~= a.cache + net.slots(ask, n));
        let s2 = lf_layers_ops(ops, c, g, lf, net.layers, n, pos, token, trace);
        let z = layer_after(m, s2, u, t, k);
        assert(z.kept =~= a.kept + net.kept(ask, n, false, trace));
    }
}

/// The output head after the layers.
proof fn lemma_lhead(
    m: Memory,
    ops: Seq<StepOpV>,
    c: StepCtx,
    g: FusedGeom,
    net: Net,
    u: Under,
    t: Table,
    k: LayerConsts,
)
    requires
        step_ok(c, g),
        head_ok(c, g, net, t),
        u == under(c, u.lost),
    ensures
        ({
            let (a, z) = (
                layer_after(m, ops, u, t, k),
                layer_after(m, fused_head_ops(ops, c, g).push(StepOpV::FoldStages), u, t, k),
            );
            &&& z.at(c.b.logits.ptr as int) == product(
                a.at(c.b.xn.ptr as int),
                net.lm_head,
                c.cfg.vocab_size as int,
                c.cfg.hidden_size as int,
            )
            &&& z.cache == a.cache
            &&& z.kept == a.kept
        }),
{
    broadcast use lemma_layer_push;

    let a = layer_after(m, ops, u, t, k);
    let s1 = run(start(ops, SEG_LM_HEAD), f_p1_lm(c, g), SEG_LM_HEAD);
    let m1 = layer_after(m, s1, u, t, k);
    assert(m1 == a.put(g.plm as int, slabs_of(a, t[g.lm_table as int])));
}

/// The step of one launch per layer computes the model's step: it leaves the logits of the
/// token at its position in the buffer of logits, and has written the token's key and value
/// of every layer to the slots of that position, once each.  What it reads back for a trace
/// are the rows of the model.
pub proof fn a_layer_fused_step_computes_the_model(
    m: Memory,
    c: StepCtx,
    g: FusedGeom,
    lf: LayerFusedKernels,
    layers: Seq<LayerWeights>,
    lm_head: DeviceBuffer,
    plans: DecodeGemmPlans,
    base: u64,
    tables: u64,
    t: Table,
    token: u32,
    pos: usize,
    kv_len: usize,
    trace: bool,
)
    requires
        c.wf(),
        layers.len() == c.cfg.n_layer,
        layers.len() <= u32::MAX,
        plans_of(plans, c.cfg, c.b, layers, lm_head, false),
        fusable(plans),
        geom_of(g, plans, base, tables),
        base + segments(plans.layers@[0], plans.lm_head).total * 4 <= u64::MAX,
        tables + (layers.len() * 7 + 1) * 40 <= u64::MAX,
        has_table(t, tables as int, table_rows(plans, base)),
        forall|li: int|
            0 <= li < layers.len() ==> ((#[trigger] layers[li]).q_norm is Some
                && layers[li].k_norm is Some) == c.cfg.head_norm,
        apart(fused_rows(c, g)),
        has_pages(m.words, c),
        forall|p: int| 0 <= p < c.cfg.n_layer * c.pp ==> #[trigger] entry(c, p) != c.b.lens.ptr,
        kv_len == pos + 1,
        kv_len <= c.pp * 32,
        kv_len <= u32::MAX,
    ensures
        ({
            let z = layer_after(
                m,
                layer_fused_ops(c, g, lf, layers, token, pos, kv_len, trace),
                under(c, false),
                t,
                consts_of(c, lf, layers),
            );
            let (net, ask) = (net_of(c, layers, lm_head), ask_of(c, token, pos, kv_len));
            &&& z.at(c.b.logits.ptr as int) == net.logits(ask)
            &&& z.cache == m.cache + net.slots(ask, layers.len())
            &&& z.kept == m.kept + net.kept(ask, layers.len(), false, trace)
        }),
{
    let (net, ask) = (net_of(c, layers, lm_head), ask_of(c, token, pos, kv_len));
    let (u, k) = (under(c, false), consts_of(c, lf, layers));
    lemma_step_ok(c, g);
    assert forall|li: int| 0 <= li < net.layers.len() implies layer_ok(
        c,
        g,
        #[trigger] net.layers[li],
        li,
        t,
    ) && net.has_norms(net.layers[li]) == c.cfg.head_norm by {
        lemma_layer_ok(c, g, layers, lm_head, plans, base, tables, li, t);
    }
    lemma_head_ok(c, g, net, lm_head, plans, base, tables, t);
    let s = upload_lens(begin(Seq::empty()), kv_len);
    let a = layer_after(m, s, u, t, k);
    assert(ready(a, c, kv_len) && a.cache == m.cache && a.kept == m.kept) by {
        broadcast use lemma_layer_push;

        assert(layer_after(m, Seq::empty(), u, t, k) == m);
    }
    let n = layers.len();
    lemma_llayers(m, s, c, g, lf, net, ask, n, token, pos, kv_len, trace, u, t);
    lemma_lhead(m, lf_layers_ops(s, c, g, lf, layers, n, pos, token, trace), c, g, net, u, t, k);
}

} // verus!
