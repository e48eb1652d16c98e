//! How far the operands of a product reach, and that those of steps, passes and batches
//! stay in their buffers.

use vstd::prelude::*;

use crate::batch::{pages_bytes, pool_bytes, staging_has_its_size, words_bytes, BatchReq};
use crate::batch_step::{
    b_add, b_cast, b_gather, b_rms, b_swiglu, batch_ops, battn_ops, bffn_ops, bgemm, blayers_ops,
    bmark, bqkv_ops, brope_ops, brun, sizes_fit, sizes_of, BatchCtx, BatchGemm, BatchMark,
    BatchOpV, BatchScratch, BatchSizes,
};
use crate::buffer::DeviceBuffer;
use crate::gemm::{call_of, col_major_swap, row_major, DataType, GemmPlan, Transpose};
use crate::load::{step_sizes_of, StepSizes};
use crate::model::{LayerWeights, LlamaConfig, StepBuffers};
use crate::plans::{head_plan, layer_plans, plans_of, tier, DecodeGemmPlans};
use crate::prefill::{
    p_cast, p_gather, p_rms, p_swiglu, pattn_ops, pffn_ops, pgemm, players_ops, pout_ops, pput,
    pqkv_ops, prefill_ops, prefill_sizes_fit, prefill_sizes_of, prun, PrefillBuffers, PrefillCtx,
    PrefillOpV, PrefillSizes, QkvScratch,
};
use crate::ptag::PTag;

verus! {

/// Bytes of an element.
pub open spec fn bytes_of(dt: DataType) -> int {
    match dt {
        DataType::F16 => 2,
        DataType::F32 => 4,
    }
}

/// Elements from the first to the last of a column-major matrix.
pub open spec fn reach(rows: int, cols: int, ld: int) -> int {
    if rows <= 0 || cols <= 0 {
        0
    } else {
        ld * (cols - 1) + rows
    }
}

/// Bytes that the first operand of a product spans.
pub open spec fn span_a(p: GemmPlan) -> int {
    bytes_of(p.a_dt) * if p.trans_a == Transpose::N {
        reach(p.m as int, p.k as int, p.ld_a as int)
    } else {
        reach(p.k as int, p.m as int, p.ld_a as int)
    }
}

/// Bytes that the second operand of a product spans.
pub open spec fn span_b(p: GemmPlan) -> int {
    bytes_of(p.b_dt) * if p.trans_b == Transpose::N {
        reach(p.k as int, p.n as int, p.ld_b as int)
    } else {
        reach(p.n as int, p.k as int, p.ld_b as int)
    }
}

/// Bytes that the result of a product spans.
pub open spec fn span_c(p: GemmPlan) -> int {
    bytes_of(p.c_dt) * reach(p.m as int, p.n as int, p.ld_c as int)
}

/// Whether a product reads and writes these buffers and nothing outside them.
pub open spec fn stays_in(p: GemmPlan, a: DeviceBuffer, b: DeviceBuffer, c: DeviceBuffer) -> bool {
    &&& p.a == a.ptr && span_a(p) <= a.len
    &&& p.b == b.ptr && span_b(p) <= b.len
    &&& p.c == c.ptr && span_c(p) <= c.len
}

/// Whether the buffers of a step have their sizes.
pub open spec fn sized(b: StepBuffers, z: StepSizes) -> bool {
    &&& b.xn.len == z.xn
    &&& b.attn.len == z.attn
    &&& b.down.len == z.down
    &&& b.xn32.len == z.xn32
    &&& b.attn32.len == z.attn32
    &&& b.c_q.len == z.c_q
    &&& b.c_k.len == z.c_k
    &&& b.c_v.len == z.c_v
    &&& b.c_o.len == z.c_o
    &&& b.c_g.len == z.c_g
    &&& b.c_u.len == z.c_u
    &&& b.c_d.len == z.c_d
    &&& b.logits.len == z.logits
}

/// Whether the matrices of a layer have their sizes on a tier.
pub open spec fn layer_sized(w: LayerWeights, cfg: LlamaConfig, parity_f32: bool) -> bool {
    let e = bytes_of(tier(parity_f32));
    &&& w.q_proj.len == cfg.nqk() * cfg.hidden_size * e
    &&& w.k_proj.len == cfg.kvk() * cfg.hidden_size * e
    &&& w.v_proj.len == cfg.kvk() * cfg.hidden_size * e
    &&& w.o_proj.len == cfg.hidden_size * cfg.nqk() * e
    &&& w.gate_proj.len == cfg.ffn_hidden * cfg.hidden_size * e
    &&& w.up_proj.len == cfg.ffn_hidden * cfg.hidden_size * e
    &&& w.down_proj.len == cfg.hidden_size * cfg.ffn_hidden * e
}

/// The spans of a product of `m` rows: exactly its operands and its result.
pub proof fn products_span_their_matrices(
    dt: DataType,
    a: u64,
    b: u64,
    c: u64,
    m: usize,
    n: usize,
    k: usize,
)
    requires
        0 < m <= i32::MAX,
        0 < n <= i32::MAX,
        0 < k <= i32::MAX,
    ensures
        ({
            let p = row_major(dt, a, b, c, m, n, k);
            &&& span_a(p) == bytes_of(dt) * (m * k)
            &&& span_b(p) == bytes_of(dt) * (n * k)
            &&& span_c(p) == 4 * (m * n)
        }),
        ({
            let p = col_major_swap(a, b, c, m, n, k);
            &&& span_a(p) == 2 * (n * k)
            &&& span_b(p) == 2 * (m * k)
            &&& span_c(p) == 4 * (m * n)
        }),
{
    let (x, y, z) = (m as int, n as int, k as int);
    assert(z * (x - 1) + z == x * z) by (nonlinear_arith);
    assert(y * (z - 1) + y == y * z) by (nonlinear_arith);
    assert(x * (y - 1) + x == x * y) by (nonlinear_arith);
    assert(y * (x - 1) + y == x * y) by (nonlinear_arith);
}

/// A product of one row stays in buffers that hold its row, its matrix and its
/// result.
proof fn lemma_row(
    dt: DataType,
    a: DeviceBuffer,
    b: DeviceBuffer,
    c: DeviceBuffer,
    n: int,
    k: int,
)
    requires
        0 < n <= i32::MAX,
        0 < k <= i32::MAX,
        k * bytes_of(dt) <= a.len,
        n * k * bytes_of(dt) <= b.len,
        n * 4 <= c.len,
    ensures
        stays_in(row_major(dt, a.ptr, b.ptr, c.ptr, 1, n as usize, k as usize), a, b, c),
{
    products_span_their_matrices(dt, a.ptr, b.ptr, c.ptr, 1, n as usize, k as usize);
    assert(1 * k == k && 1 * n == n);
    let e = bytes_of(dt);
    assert(e * k == k * e && e * (n * k) == n * k * e) by (nonlinear_arith);
}

/// Every product of a decode step stays in its buffers: with buffers of the sizes that
/// are allocated, and weights of the sizes that are uploaded, no product of any layer
/// on either tier reads or writes outside the buffers that it names.
pub proof fn step_products_stay_in_their_buffers(
    p: DecodeGemmPlans,
    cfg: LlamaConfig,
    b: StepBuffers,
    layers: Seq<LayerWeights>,
    lm_head: DeviceBuffer,
    parity_f32: bool,
    max_kv: usize,
    li: int,
)
    requires
        cfg.wf(),
        plans_of(p, cfg, b, layers, lm_head, parity_f32),
        sized(b, step_sizes_of(cfg, max_kv)),
        0 <= li < layers.len(),
        layer_sized(layers[li], cfg, parity_f32),
        lm_head.len == cfg.vocab_size * cfg.hidden_size * bytes_of(tier(parity_f32)),
    ensures
        ({
            let (w, l) = (layers[li], p.layers@[li]);
            let xn = if parity_f32 {
                b.xn32
            } else {
                b.xn
            };
            let (attn, gated, down) = if parity_f32 {
                (b.attn32, b.c_g, b.c_o)
            } else {
                (b.attn, b.down, b.c_d)
            };
            &&& stays_in(l.q, xn, w.q_proj, b.c_q)
            &&& stays_in(l.k, xn, w.k_proj, b.c_k)
            &&& stays_in(l.v, xn, w.v_proj, b.c_v)
            &&& stays_in(l.o, attn, w.o_proj, b.c_o)
            &&& stays_in(l.gate, xn, w.gate_proj, b.c_g)
            &&& stays_in(l.up, xn, w.up_proj, b.c_u)
            &&& stays_in(l.down, gated, w.down_proj, down)
            &&& stays_in(p.lm_head, xn, lm_head, b.logits)
        }),
{
    cfg.lemma_heads();
    let dt = tier(parity_f32);
    let w = layers[li];
    assert(p.layers@[li] == layer_plans(cfg, b, w, parity_f32));
    assert(p.lm_head == head_plan(cfg, b, lm_head, parity_f32));
    let (h, f, v) = (cfg.hidden_size as int, cfg.ffn_hidden as int, cfg.vocab_size as int);
    let (nqk, kvk) = (cfg.nqk(), cfg.kvk());
    let xn = if parity_f32 {
        b.xn32
    } else {
        b.xn
    };
    let (attn, gated, down) = if parity_f32 {
        (b.attn32, b.c_g, b.c_o)
    } else {
        (b.attn, b.down, b.c_d)
    };
    lemma_row(dt, xn, w.q_proj, b.c_q, nqk, h);
    lemma_row(dt, xn, w.k_proj, b.c_k, kvk, h);
    lemma_row(dt, xn, w.v_proj, b.c_v, kvk, h);
    lemma_row(dt, attn, w.o_proj, b.c_o, h, nqk);
    lemma_row(dt, xn, w.gate_proj, b.c_g, f, h);
    lemma_row(dt, xn, w.up_proj, b.c_u, f, h);
    lemma_row(dt, gated, w.down_proj, down, h, f);
    lemma_row(dt, xn, lm_head, b.logits, v, h);
}

/// Whether buffers hold a product of `m` rows: its rows, its matrix and its result.
pub open spec fn holds(
    a: DeviceBuffer,
    w: DeviceBuffer,
    c: DeviceBuffer,
    m: int,
    n: int,
    k: int,
) -> bool {
    &&& 2 * (m * k) <= a.len
    &&& 2 * (n * k) <= w.len
    &&& 4 * (m * n) <= c.len
}

/// Whether a buffer holds weights of the model: a projection of a layer, the joined
/// projections or the output head.
pub open spec fn is_weight(layers: Seq<LayerWeights>, lm_head: DeviceBuffer, w: DeviceBuffer) -> bool {
    ||| w == lm_head
    ||| exists|i: int|
        0 <= i < layers.len() && {
            let l = #[trigger] layers[i];
            ||| w == l.q_proj
            ||| w == l.k_proj
            ||| w == l.v_proj
            ||| l.qkv_proj == Some(w)
            ||| w == l.o_proj
            ||| w == l.gate_proj
            ||| w == l.up_proj
            ||| w == l.down_proj
        }
}

/// Whether the matrices of every layer and the output head have their sizes on the
/// `f16` tier.
pub open spec fn weights_sized(
    layers: Seq<LayerWeights>,
    lm_head: DeviceBuffer,
    cfg: LlamaConfig,
) -> bool {
    &&& lm_head.len == cfg.vocab_size * cfg.hidden_size * 2
    &&& forall|i: int|
        0 <= i < layers.len() ==> {
            let l = #[trigger] layers[i];
            &&& layer_sized(l, cfg, false)
            &&& l.qkv_proj is Some ==> l.qkv_proj->0.len == (cfg.nqk() + 2 * cfg.kvk())
                * cfg.hidden_size * 2
        }
}

/// Whether the buffers of a pass have their sizes.
pub open spec fn pass_sized(b: PrefillBuffers, z: PrefillSizes) -> bool {
    &&& b.xn.len == z.xn
    &&& b.o.len == z.o
    &&& b.down.len == z.down
    &&& b.c_o.len == z.c_o
    &&& b.c_g.len == z.c_g
    &&& b.c_u.len == z.c_u
    &&& b.c_d.len == z.c_d
    &&& b.logits.len == z.logits
    &&& match b.c_qkv {
        QkvScratch::Joined { qkv } => qkv.len == z.c_qkv,
        QkvScratch::Apart { q, k, v } => q.len == z.c_q && k.len == z.c_k && v.len == z.c_v,
    }
}

/// Whether a buffer takes the result of a product of a pass.
pub open spec fn is_pass_result(b: PrefillBuffers, c: DeviceBuffer) -> bool {
    ||| c == b.c_o
    ||| c == b.c_g
    ||| c == b.c_u
    ||| c == b.c_d
    ||| c == b.logits
    ||| match b.c_qkv {
        QkvScratch::Joined { qkv } => c == qkv,
        QkvScratch::Apart { q, k, v } => c == q || c == k || c == v,
    }
}

/// Whether an operation of a pass, where it is a product, multiplies rows of the pass
/// by weights of the model into a result of the pass, and stays in the three buffers.
pub open spec fn pass_op_stays(
    o: PrefillOpV,
    x: PrefillCtx,
    layers: Seq<LayerWeights>,
    lm_head: DeviceBuffer,
) -> bool {
    o is Gemm ==> exists|p: GemmPlan, w: DeviceBuffer, a: DeviceBuffer, c: DeviceBuffer|
        {
            &&& o->Gemm_0 == call_of(x.c.on, p)
            &&& #[trigger] stays_in(p, w, a, c)
            &&& is_weight(layers, lm_head, w)
            &&& a == x.b.xn || a == x.b.o || a == x.b.down
            &&& is_pass_result(x.b, c)
        }
}

spec fn pass_ok(
    s: Seq<PrefillOpV>,
    x: PrefillCtx,
    layers: Seq<LayerWeights>,
    lm_head: DeviceBuffer,
) -> bool {
    forall|i: int| 0 <= i < s.len() ==> pass_op_stays(#[trigger] s[i], x, layers, lm_head)
}

/// A product whose buffers hold it may be appended.
proof fn lemma_pgemm(
    s: Seq<PrefillOpV>,
    x: PrefillCtx,
    layers: Seq<LayerWeights>,
    lm_head: DeviceBuffer,
    a: DeviceBuffer,
    w: DeviceBuffer,
    n: int,
    k: int,
    c: DeviceBuffer,
    t: PTag,
)
    requires
        pass_ok(s, x, layers, lm_head),
        0 < x.s <= i32::MAX,
        0 < n <= i32::MAX,
        0 < k <= i32::MAX,
        holds(a, w, c, x.s as int, n, k),
        is_weight(layers, lm_head, w),
        a == x.b.xn || a == x.b.o || a == x.b.down,
        is_pass_result(x.b, c),
    ensures
        pass_ok(pgemm(s, x.c.on, a.ptr, w.ptr, x.s, n, k, c.ptr, t), x, layers, lm_head),
{
    let p = col_major_swap(a.ptr, w.ptr, c.ptr, x.s, n as usize, k as usize);
    products_span_their_matrices(
        DataType::F16,
        a.ptr,
        w.ptr,
        c.ptr,
        x.s,
        n as usize,
        k as usize,
    );
    assert(stays_in(p, w, a, c));
    assert(pass_op_stays(PrefillOpV::Gemm(call_of(x.c.on, p)), x, layers, lm_head));
}

proof fn lemma_products(s: usize, n: int, k: int)
    requires
        n >= 0,
        k >= 0,
    ensures
        2 * (s * k) == s * k * 2,
        2 * (n * k) == n * k * 2,
        4 * (s * n) == s * n * 4,
        0 <= s * k,
        0 <= s * n,
{
    assert(0 <= s * k && 0 <= s * n) by (nonlinear_arith)
        requires
            s >= 0,
            n >= 0,
            k >= 0,
    ;
}

proof fn lemma_pass_layer(
    s: Seq<PrefillOpV>,
    x: PrefillCtx,
    layers: Seq<LayerWeights>,
    lm_head: DeviceBuffer,
    block_m: u32,
    li: int,
)
    requires
        pass_ok(s, x, layers, lm_head),
        pass_fits(x, layers, lm_head, block_m),
        0 <= li < layers.len(),
    ensures
        ({
            let w = layers[li];
            let s = pqkv_ops(s, x, w);
            pass_ok(pffn_ops(pout_ops(pattn_ops(s, x, w, li), x, w), x, w), x, layers, lm_head)
        }),
{
    let (cfg, b, w) = (x.c.cfg, x.b, layers[li]);
    let (h, f) = (cfg.hidden_size as int, cfg.ffn_hidden as int);
    let (nqk, kvk) = (cfg.nqk(), cfg.kvk());
    let joined = nqk + 2 * kvk;
    cfg.lemma_heads();
    lemma_products(x.s, nqk, h);
    lemma_products(x.s, kvk, h);
    lemma_products(x.s, joined, h);
    lemma_products(x.s, h, nqk);
    lemma_products(x.s, f, h);
    lemma_products(x.s, h, f);
    assert(x.s * nqk <= x.s * joined && x.s * kvk <= x.s * joined) by (nonlinear_arith)
        requires
            0 <= nqk <= joined,
            0 <= kvk <= joined,
            x.s >= 0,
    ;
    let n = x.c.nums_of();
    let s1 = pqkv_ops(s, x, w);
    assert(pass_ok(s1, x, layers, lm_head)) by {
        match b.c_qkv {
            QkvScratch::Joined { qkv } => {
                let t = pgemm(
                    s,
                    x.c.on,
                    b.xn.ptr,
                    w.qkv_proj->0.ptr,
                    x.s,
                    joined,
                    h,
                    qkv.ptr,
                    PTag::GemmQkv,
                );
                lemma_pgemm(
                    s,
                    x,
                    layers,
                    lm_head,
                    b.xn,
                    w.qkv_proj->0,
                    joined,
                    h,
                    qkv,
                    PTag::GemmQkv,
                );
                assert(pass_ok(t, x, layers, lm_head));
            },
            QkvScratch::Apart { q, k, v } => {
                lemma_pgemm(s, x, layers, lm_head, b.xn, w.q_proj, nqk, h, q, PTag::GemmQkv);
                let t = pgemm(
                    s,
                    x.c.on,
                    b.xn.ptr,
                    w.q_proj.ptr,
                    x.s,
                    nqk,
                    h,
                    q.ptr,
                    PTag::GemmQkv,
                );
                let t = pput(t, p_cast(x, q.ptr, b.q.ptr, n.nqk));
                assert(pass_ok(t, x, layers, lm_head));
                lemma_pgemm(t, x, layers, lm_head, b.xn, w.k_proj, kvk, h, k, PTag::GemmQkv);
                let t = pgemm(
                    t,
                    x.c.on,
                    b.xn.ptr,
                    w.k_proj.ptr,
                    x.s,
                    kvk,
                    h,
                    k.ptr,
                    PTag::GemmQkv,
                );
                let t = pput(t, p_cast(x, k.ptr, b.k.ptr, n.kvk));
                assert(pass_ok(t, x, layers, lm_head));
                lemma_pgemm(t, x, layers, lm_head, b.xn, w.v_proj, kvk, h, v, PTag::GemmQkv);
            },
        }
    }
    let s2 = pattn_ops(s1, x, w, li);
    assert(pass_ok(s2, x, layers, lm_head));
    lemma_pgemm(s2, x, layers, lm_head, b.o, w.o_proj, h, nqk, b.c_o, PTag::GemmO);
    let s3 = pout_ops(s2, x, w);
    assert(pass_ok(s3, x, layers, lm_head));
    let t = prun(s3, p_rms(x, w.ffn_norm.ptr), PTag::RmsFfn);
    assert(pass_ok(t, x, layers, lm_head));
    lemma_pgemm(t, x, layers, lm_head, b.xn, w.gate_proj, f, h, b.c_g, PTag::GemmGate);
    let t = pgemm(
        t,
        x.c.on,
        b.xn.ptr,
        w.gate_proj.ptr,
        x.s,
        f,
        h,
        b.c_g.ptr,
        PTag::GemmGate,
    );
    let t = pput(t, p_cast(x, b.c_g.ptr, b.gate.ptr, n.ffn));
    assert(pass_ok(t, x, layers, lm_head));
    lemma_pgemm(t, x, layers, lm_head, b.xn, w.up_proj, f, h, b.c_u, PTag::GemmUp);
    let t = pgemm(t, x.c.on, b.xn.ptr, w.up_proj.ptr, x.s, f, h, b.c_u.ptr, PTag::GemmUp);
    let t = prun(t, p_cast(x, b.c_u.ptr, b.up.ptr, n.ffn), PTag::CastGU);
    let t = prun(t, p_swiglu(x), PTag::Swiglu);
    assert(pass_ok(t, x, layers, lm_head));
    lemma_pgemm(t, x, layers, lm_head, b.down, w.down_proj, h, f, b.c_d, PTag::GemmDown);
}

/// A pass over a model with buffers of their sizes.
pub open spec fn pass_fits(
    x: PrefillCtx,
    layers: Seq<LayerWeights>,
    lm_head: DeviceBuffer,
    block_m: u32,
) -> bool {
    let cfg = x.c.cfg;
    &&& x.wf()
    &&& x.s <= i32::MAX
    &&& cfg.nqk() + 2 * cfg.kvk() <= i32::MAX
    &&& prefill_sizes_fit(cfg, x.s, block_m)
    &&& pass_sized(x.b, prefill_sizes_of(cfg, x.s, block_m))
    &&& weights_sized(layers, lm_head, cfg)
    &&& x.b.c_qkv is Joined ==> forall|i: int|
        0 <= i < layers.len() ==> (#[trigger] layers[i]).qkv_proj is Some
}

proof fn lemma_pass_layers(
    s: Seq<PrefillOpV>,
    x: PrefillCtx,
    layers: Seq<LayerWeights>,
    lm_head: DeviceBuffer,
    block_m: u32,
    n: nat,
)
    requires
        pass_ok(s, x, layers, lm_head),
        pass_fits(x, layers, lm_head, block_m),
        n <= layers.len(),
    ensures
        pass_ok(players_ops(s, x, layers, n), x, layers, lm_head),
    decreases n,
{
    if n > 0 {
        lemma_pass_layers(s, x, layers, lm_head, block_m, (n - 1) as nat);
        let w = layers[n - 1];
        let t = players_ops(s, x, layers, (n - 1) as nat);
        let t = prun(t, p_rms(x, w.attn_norm.ptr), PTag::RmsAttn);
        assert(pass_ok(t, x, layers, lm_head));
        lemma_pass_layer(t, x, layers, lm_head, block_m, n - 1);
    }
}

/// Every product of a pass stays in its buffers: with buffers of the sizes that are
/// allocated, and weights of the sizes that are uploaded, each multiplies rows of the
/// pass by weights of the model into a result of the pass, inside all three buffers.
pub proof fn pass_products_stay_in_their_buffers(
    x: PrefillCtx,
    layers: Seq<LayerWeights>,
    lm_head: DeviceBuffer,
    block_m: u32,
    i: int,
)
    requires
        pass_fits(x, layers, lm_head, block_m),
        0 <= i < prefill_ops(x, layers, lm_head.ptr).len(),
    ensures
        pass_op_stays(prefill_ops(x, layers, lm_head.ptr)[i], x, layers, lm_head),
{
    let cfg = x.c.cfg;
    let (v, h) = (cfg.vocab_size as int, cfg.hidden_size as int);
    let s = prun(Seq::empty(), p_gather(x), PTag::Gather);
    assert(pass_ok(s, x, layers, lm_head));
    lemma_pass_layers(s, x, layers, lm_head, block_m, layers.len());
    let s = players_ops(s, x, layers, layers.len());
    let s = prun(s, p_rms(x, x.c.final_norm), PTag::FinalRms);
    assert(pass_ok(s, x, layers, lm_head));
    lemma_products(x.s, v, h);
    lemma_pgemm(s, x, layers, lm_head, x.b.xn, lm_head, v, h, x.b.logits, PTag::LmHead);
}

/// Whether the buffers of a batch have the sizes for as many requests as they hold.
pub open spec fn batch_sized(sc: BatchScratch, z: BatchSizes) -> bool {
    &&& sc.cap == z.cap
    &&& sc.xn.len == z.xn
    &&& sc.attn.len == z.attn
    &&& sc.down.len == z.down
    &&& sc.c_q.len == z.c_q
    &&& sc.c_k.len == z.c_k
    &&& sc.c_v.len == z.c_v
    &&& sc.c_o.len == z.c_o
    &&& sc.c_g.len == z.c_g
    &&& sc.c_u.len == z.c_u
    &&& sc.c_d.len == z.c_d
    &&& sc.logits.len == z.logits
}

/// Whether a buffer takes the result of a product of a batch.
pub open spec fn is_batch_result(sc: BatchScratch, c: DeviceBuffer) -> bool {
    ||| c == sc.c_q
    ||| c == sc.c_k
    ||| c == sc.c_v
    ||| c == sc.c_o
    ||| c == sc.c_g
    ||| c == sc.c_u
    ||| c == sc.c_d
    ||| c == sc.logits
}

/// Whether an operation of a merged step, where it is a product, multiplies rows of the
/// batch by weights of the model into a result of the batch, and the three buffers hold
/// it.
pub open spec fn batch_op_stays(
    o: BatchOpV,
    x: BatchCtx,
    layers: Seq<LayerWeights>,
    lm_head: DeviceBuffer,
) -> bool {
    let g = o->Gemm_0;
    o is Gemm ==> exists|a: DeviceBuffer, w: DeviceBuffer, c: DeviceBuffer|
        {
            &&& g.a == a.ptr && g.w == w.ptr && g.c == c.ptr
            &&& #[trigger] holds(a, w, c, g.m as int, g.n as int, g.k as int)
            &&& is_weight(layers, lm_head, w)
            &&& a == x.sc.xn || a == x.sc.attn || a == x.sc.down
            &&& is_batch_result(x.sc, c)
        }
}

spec fn batch_ok(
    s: Seq<BatchOpV>,
    x: BatchCtx,
    layers: Seq<LayerWeights>,
    lm_head: DeviceBuffer,
) -> bool {
    forall|i: int| 0 <= i < s.len() ==> batch_op_stays(#[trigger] s[i], x, layers, lm_head)
}

/// A merged step over a model with buffers of their sizes.
pub open spec fn batch_fits(x: BatchCtx, layers: Seq<LayerWeights>, lm_head: DeviceBuffer) -> bool {
    let cfg = x.c.cfg;
    &&& x.wf()
    &&& x.b <= x.sc.cap
    &&& sizes_fit(cfg, x.c.pp, x.sc.cap)
    &&& batch_sized(x.sc, sizes_of(cfg, x.c.pp, x.sc.cap))
    &&& weights_sized(layers, lm_head, cfg)
}

/// A product whose buffers hold it for every request may be appended.
proof fn lemma_bgemm(
    s: Seq<BatchOpV>,
    x: BatchCtx,
    layers: Seq<LayerWeights>,
    lm_head: DeviceBuffer,
    a: DeviceBuffer,
    w: DeviceBuffer,
    n: int,
    k: int,
    c: DeviceBuffer,
)
    requires
        batch_ok(s, x, layers, lm_head),
        x.b <= x.sc.cap,
        0 <= n <= usize::MAX,
        0 <= k <= usize::MAX,
        a.len == x.sc.cap * k * 2,
        w.len == n * k * 2,
        c.len == x.sc.cap * n * 4,
        is_weight(layers, lm_head, w),
        a == x.sc.xn || a == x.sc.attn || a == x.sc.down,
        is_batch_result(x.sc, c),
    ensures
        batch_ok(bgemm(s, a.ptr, w.ptr, x.b, n, k, c.ptr), x, layers, lm_head),
{
    let (m, cap) = (x.b as int, x.sc.cap as int);
    assert(m * k <= cap * k && m * n <= cap * n) by (nonlinear_arith)
        requires
            0 <= m <= cap,
            0 <= n,
            0 <= k,
    ;
    assert(holds(a, w, c, m, n, k));
    let g = BatchGemm { a: a.ptr, w: w.ptr, m: x.b, n: n as usize, k: k as usize, c: c.ptr };
    let o = BatchOpV::Gemm(g);
    assert(holds(a, w, c, o->Gemm_0.m as int, o->Gemm_0.n as int, o->Gemm_0.k as int));
    assert(batch_op_stays(o, x, layers, lm_head));
}

proof fn lemma_batch_layer(
    s: Seq<BatchOpV>,
    x: BatchCtx,
    reqs: Seq<BatchReq>,
    layers: Seq<LayerWeights>,
    lm_head: DeviceBuffer,
    li: int,
)
    requires
        batch_ok(s, x, layers, lm_head),
        batch_fits(x, layers, lm_head),
        0 <= li < layers.len(),
    ensures
        ({
            let w = layers[li];
            let s = brope_ops(bqkv_ops(s, x, w), x, w);
            batch_ok(bffn_ops(battn_ops(s, x, reqs, li), x, w), x, layers, lm_head)
        }),
{
    let (cfg, sc, w, n) = (x.c.cfg, x.sc, layers[li], x.c.nums_of());
    let (h, f) = (cfg.hidden_size as int, cfg.ffn_hidden as int);
    let (nqk, kvk) = (cfg.nqk(), cfg.kvk());
    cfg.lemma_heads();
    lemma_products(sc.cap, nqk, h);
    lemma_products(sc.cap, kvk, h);
    lemma_products(sc.cap, f, h);
    let s1 = bqkv_ops(s, x, w);
    assert(batch_ok(s1, x, layers, lm_head)) by {
        let t = brun(s, b_rms(x, w.attn_norm.ptr));
        assert(batch_ok(t, x, layers, lm_head));
        lemma_bgemm(t, x, layers, lm_head, sc.xn, w.q_proj, nqk, h, sc.c_q);
        let t = bgemm(t, sc.xn.ptr, w.q_proj.ptr, x.b, nqk, h, sc.c_q.ptr);
        let t = brun(t, b_cast(x, sc.c_q.ptr, sc.q.ptr, n.nqk));
        assert(batch_ok(t, x, layers, lm_head));
        lemma_bgemm(t, x, layers, lm_head, sc.xn, w.k_proj, kvk, h, sc.c_k);
        let t = bgemm(t, sc.xn.ptr, w.k_proj.ptr, x.b, kvk, h, sc.c_k.ptr);
        let t = brun(t, b_cast(x, sc.c_k.ptr, sc.k.ptr, n.kvk));
        assert(batch_ok(t, x, layers, lm_head));
        lemma_bgemm(t, x, layers, lm_head, sc.xn, w.v_proj, kvk, h, sc.c_v);
    }
    let s2 = battn_ops(brope_ops(s1, x, w), x, reqs, li);
    assert(batch_ok(s2, x, layers, lm_head));
    lemma_bgemm(s2, x, layers, lm_head, sc.attn, w.o_proj, h, nqk, sc.c_o);
    let t = bgemm(s2, sc.attn.ptr, w.o_proj.ptr, x.b, h, nqk, sc.c_o.ptr);
    let t = brun(t, b_cast(x, sc.c_o.ptr, sc.oadd.ptr, n.h));
    let t = brun(brun(t, b_add(x)), b_rms(x, w.ffn_norm.ptr));
    assert(batch_ok(t, x, layers, lm_head));
    lemma_bgemm(t, x, layers, lm_head, sc.xn, w.gate_proj, f, h, sc.c_g);
    let t = bgemm(t, sc.xn.ptr, w.gate_proj.ptr, x.b, f, h, sc.c_g.ptr);
    lemma_bgemm(t, x, layers, lm_head, sc.xn, w.up_proj, f, h, sc.c_u);
    let t = bgemm(t, sc.xn.ptr, w.up_proj.ptr, x.b, f, h, sc.c_u.ptr);
    let t = brun(t, b_swiglu(x));
    assert(batch_ok(t, x, layers, lm_head));
    lemma_bgemm(t, x, layers, lm_head, sc.down, w.down_proj, h, f, sc.c_d);
}

proof fn lemma_batch_layers(
    s: Seq<BatchOpV>,
    x: BatchCtx,
    reqs: Seq<BatchReq>,
    layers: Seq<LayerWeights>,
    lm_head: DeviceBuffer,
    n: nat,
)
    requires
        batch_ok(s, x, layers, lm_head),
        batch_fits(x, layers, lm_head),
        n <= layers.len(),
    ensures
        batch_ok(blayers_ops(s, x, reqs, layers, n), x, layers, lm_head),
    decreases n,
{
    if n > 0 {
        lemma_batch_layers(s, x, reqs, layers, lm_head, (n - 1) as nat);
        let t = blayers_ops(s, x, reqs, layers, (n - 1) as nat);
        lemma_batch_layer(t, x, reqs, layers, lm_head, n - 1);
    }
}

/// Every product of a merged step stays in its buffers, also where these were allocated
/// for a larger batch.
pub proof fn batch_products_stay_in_their_buffers(
    x: BatchCtx,
    reqs: Seq<BatchReq>,
    layers: Seq<LayerWeights>,
    lm_head: DeviceBuffer,
    i: int,
)
    requires
        batch_fits(x, layers, lm_head),
        0 <= i < batch_ops(x, reqs, layers, lm_head.ptr).len(),
    ensures
        batch_op_stays(batch_ops(x, reqs, layers, lm_head.ptr)[i], x, layers, lm_head),
{
    let (cfg, sc) = (x.c.cfg, x.sc);
    let s = bmark(Seq::empty(), BatchMark::Stage);
    let s = bmark(brun(s, b_gather(x)), BatchMark::Embed);
    assert(batch_ok(s, x, layers, lm_head));
    lemma_batch_layers(s, x, reqs, layers, lm_head, layers.len());
    let s = blayers_ops(s, x, reqs, layers, layers.len());
    let s = brun(bmark(s, BatchMark::Lm), b_rms(x, x.c.final_norm));
    assert(batch_ok(s, x, layers, lm_head));
    let (v, h) = (cfg.vocab_size as int, cfg.hidden_size as int);
    lemma_products(sc.cap, v, h);
    lemma_bgemm(s, x, layers, lm_head, sc.xn, lm_head, v, h, sc.logits);
}

/// What is staged for a batch of requests fits the buffers that it is staged in and
/// uploaded to, also where these were allocated for a larger batch.
pub proof fn staging_fits_its_buffers(
    cfg: LlamaConfig,
    pp: usize,
    cap: usize,
    words: Seq<u32>,
    key: Seq<(u64, u32)>,
    pool: u64,
)
    requires
        sizes_fit(cfg, pp, cap),
        words.len() <= cap,
        key.len() <= cap,
        forall|i: int|
            0 <= i < key.len() ==> (#[trigger] key[i]).1 + cfg.n_layer * pp <= u32::MAX,
    ensures
        ({
            let z = sizes_of(cfg, pp, cap);
            let pages = (cfg.n_layer * pp) as nat;
            &&& words_bytes(words).len() <= z.toks
            &&& words_bytes(words).len() <= z.lens
            &&& words_bytes(words).len() <= z.pos
            &&& pages_bytes(key, key.len(), pages).len() <= z.pages
            &&& pool_bytes(key, key.len(), pool).len() <= z.kv_ptrs
        }),
{
    let pages = cfg.n_layer * pp;
    let (n, c) = (key.len() as int, cap as int);
    assert(0 <= pages) by (nonlinear_arith)
        requires
            pages == cfg.n_layer * pp,
            cfg.n_layer >= 0,
            pp >= 0,
    ;
    staging_has_its_size(words, key, pages as nat, pool);
    assert(0 <= n * pages <= c * pages) by (nonlinear_arith)
        requires
            0 <= n <= c,
            0 <= pages,
    ;
}

} // verus!
