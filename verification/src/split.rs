//! The decode step as separate launches: one kernel or GEMM per operation.

use vstd::prelude::*;

use crate::decode::{self, flash_fits};
use crate::dense;
use crate::diff;
use crate::float_bits::F32_ONE;
use crate::gemm::GemmPlan;
use crate::launch::{Launch, LaunchV};
use crate::model::{LayerWeights, BLOCK_LEN};
use crate::plans::{DecodeGemmPlans, LayerGemmPlans};
use crate::step::{
    attention, begin, close, end, gemm, push_detail, read_back, run, start, trace_row, upload_lens,
    Anchor, Program, StepCtx, StepKernels, StepNums, StepOp, StepOpV, SEG_ATTN, SEG_FFN_D,
    SEG_FFN_GU, SEG_FFN_RMS, SEG_LM_HEAD, SEG_O, SEG_QKV, SEG_SMALL,
};

verus! {

/// The embedding row of a token.
pub open spec fn l_gather(c: StepCtx, token: u32) -> LaunchV {
    dense::gather(c.on, c.embed, c.b.x.ptr, token, c.nums_of().h)
}

/// An RMSNorm of the residual row by the given weights.
pub open spec fn l_rms(c: StepCtx, w: u64) -> LaunchV {
    dense::rms_norm(c.on, c.b.x.ptr, c.b.xn.ptr, w, c.nums_of().h, c.cfg.rms_eps)
}

pub open spec fn l_cast_q(c: StepCtx) -> LaunchV {
    diff::cast_f32_f16(c.on, c.b.c_q.ptr, c.b.q.ptr, c.nums_of().nqk)
}

pub open spec fn l_cast_k(c: StepCtx) -> LaunchV {
    diff::cast_f32_f16(c.on, c.b.c_k.ptr, c.b.k.ptr, c.nums_of().kvk)
}

pub open spec fn l_cast_v(c: StepCtx) -> LaunchV {
    diff::cast_f32_f16(c.on, c.b.c_v.ptr, c.b.v.ptr, c.nums_of().kvk)
}

pub open spec fn l_norm_q(c: StepCtx, w: u64) -> LaunchV {
    let n = c.nums_of();
    dense::rms_heads(c.on, c.b.q.ptr, c.b.q.ptr, w, n.q_heads, n.d, c.cfg.rms_eps)
}

pub open spec fn l_norm_k(c: StepCtx, w: u64) -> LaunchV {
    let n = c.nums_of();
    dense::rms_heads(c.on, c.b.k.ptr, c.b.k.ptr, w, n.kv_heads, n.d, c.cfg.rms_eps)
}

/// Rotary embedding of the query, with the attention scale folded in.
pub open spec fn l_rope_q(c: StepCtx, pos: u32) -> LaunchV {
    let n = c.nums_of();
    dense::rope_heads(c.on, c.b.q.ptr, n.q_heads, n.half, pos, c.cfg.rope_theta, c.cfg.q_scale)
}

pub open spec fn l_rope_k(c: StepCtx, pos: u32) -> LaunchV {
    let n = c.nums_of();
    dense::rope_heads(c.on, c.b.k.ptr, n.kv_heads, n.half, pos, c.cfg.rope_theta, F32_ONE)
}

pub open spec fn l_kv_write(c: StepCtx, phys: u32, off: u32) -> LaunchV {
    let n = c.nums_of();
    dense::kv_write(
        c.on,
        c.b.k.ptr,
        c.b.v.ptr,
        c.kv,
        phys,
        off,
        BLOCK_LEN as u32,
        n.kv_heads,
        n.d,
        n.total_pages,
    )
}

pub open spec fn l_flash(c: StepCtx, li: int) -> LaunchV {
    let n = c.nums_of();
    decode::step_flash(
        c.on,
        c.b.q.ptr,
        c.page_table(li),
        c.kv,
        c.b.lens.ptr,
        c.b.attn.ptr,
        1,
        n.q_heads,
        n.d,
        BLOCK_LEN as u32,
        n.ratio,
        n.kv_heads,
        n.max_kv,
        n.total_pages,
        1,
    )
}

pub open spec fn l_naive(c: StepCtx, li: int) -> LaunchV {
    let n = c.nums_of();
    decode::step_gqa(
        c.on,
        c.b.q.ptr,
        c.page_table(li),
        c.kv,
        c.b.lens.ptr,
        c.b.scores.ptr,
        c.b.attn.ptr,
        1,
        n.q_heads,
        n.d,
        BLOCK_LEN as u32,
        n.ratio,
        n.kv_heads,
        n.total_pages,
        n.total_pages,
    )
}

/// Residual add of the attention output, and the norm before the feed-forward
/// half.
pub open spec fn l_add_rms(c: StepCtx, w: u64) -> LaunchV {
    dense::add_rms(
        c.on,
        c.b.x.ptr,
        c.b.c_o.ptr,
        c.b.xn.ptr,
        w,
        c.nums_of().h,
        c.cfg.rms_eps,
    )
}

pub open spec fn l_swiglu(c: StepCtx) -> LaunchV {
    dense::cast_swiglu(c.on, c.b.c_g.ptr, c.b.c_u.ptr, c.b.down.ptr, c.nums_of().ffn)
}

/// Residual add of the feed-forward output.
pub open spec fn l_add(c: StepCtx) -> LaunchV {
    dense::add_cast(c.on, c.b.x.ptr, c.b.c_d.ptr, c.nums_of().h)
}

/// The norm before attention.
pub open spec fn norm_ops(s: Seq<StepOpV>, c: StepCtx, w: LayerWeights, detail: bool) -> Seq<StepOpV> {
    let s = end(run(s, l_rms(c, w.attn_norm.ptr), SEG_SMALL), SEG_SMALL);
    read_back(read_back(s, detail, Anchor::X), detail, Anchor::Xn)
}

/// The projections, each cast to `f16`.
pub open spec fn qkv_ops(s: Seq<StepOpV>, c: StepCtx, pl: LayerGemmPlans) -> Seq<StepOpV> {
    let s = start(s, SEG_QKV);
    let s = run(gemm(s, pl.q, SEG_QKV), l_cast_q(c), SEG_QKV);
    let s = run(gemm(s, pl.k, SEG_QKV), l_cast_k(c), SEG_QKV);
    let s = run(gemm(s, pl.v, SEG_QKV), l_cast_v(c), SEG_QKV);
    end(s, SEG_QKV)
}

/// The norms of the heads, where the model has them.
pub open spec fn head_norm_ops(s: Seq<StepOpV>, c: StepCtx, w: LayerWeights) -> Seq<StepOpV> {
    match (w.q_norm, w.k_norm) {
        (Some(qn), Some(kn)) => run(
            run(s, l_norm_q(c, qn.ptr), SEG_ATTN),
            l_norm_k(c, kn.ptr),
            SEG_ATTN,
        ),
        _ => s,
    }
}

/// Rotary embedding, the write of the cache slot, and attention.
pub open spec fn attn_ops(
    s: Seq<StepOpV>,
    c: StepCtx,
    w: LayerWeights,
    li: int,
    pos: usize,
    flash_off: bool,
    detail: bool,
) -> Seq<StepOpV> {
    let n = c.nums_of();
    let s = head_norm_ops(start(s, SEG_ATTN), c, w);
    let s = run(s, l_rope_q(c, pos as u32), SEG_ATTN);
    let s = run(s, l_rope_k(c, pos as u32), SEG_ATTN);
    let s = read_back(s, detail, Anchor::Q);
    let s = run(s, l_kv_write(c, c.phys(li, pos) as u32, (pos % 32) as u32), SEG_ATTN);
    let s = attention(s, flash_off, flash_fits(n.d, n.max_kv), l_flash(c, li), l_naive(c, li));
    let s = end(s, SEG_ATTN);
    push_detail(read_back(s, detail, Anchor::Attn), detail)
}

/// The attention output and the feed-forward half.
pub open spec fn ffn_ops(
    s: Seq<StepOpV>,
    c: StepCtx,
    w: LayerWeights,
    pl: LayerGemmPlans,
    trace: bool,
) -> Seq<StepOpV> {
    let s = end(gemm(start(s, SEG_O), pl.o, SEG_O), SEG_O);
    let s = run(s, l_add_rms(c, w.ffn_norm.ptr), SEG_FFN_RMS);
    let s = gemm(gemm(start(s, SEG_FFN_GU), pl.gate, SEG_FFN_GU), pl.up, SEG_FFN_GU);
    let s = start(end(s, SEG_FFN_GU), SEG_FFN_D);
    let s = gemm(run(s, l_swiglu(c), SEG_FFN_D), pl.down, SEG_FFN_D);
    let s = start(end(s, SEG_FFN_D), SEG_FFN_RMS);
    let s = end(run(s, l_add(c), SEG_FFN_RMS), SEG_FFN_RMS);
    trace_row(s, trace)
}

/// What a step keeps for its caller, and how it attends.
#[derive(Debug, Clone, Copy, PartialEq, Eq, Structural)]
pub struct StepMode {
    /// Keep the residual row after each layer.
    pub trace: bool,
    /// Keep four buffers per layer.
    pub detail: bool,
    /// Flash attention is turned off.
    pub flash_off: bool,
}

/// One layer.
pub open spec fn layer_ops(
    s: Seq<StepOpV>,
    c: StepCtx,
    w: LayerWeights,
    pl: LayerGemmPlans,
    li: int,
    pos: usize,
    m: StepMode,
) -> Seq<StepOpV> {
    let s = norm_ops(s, c, w, m.detail);
    let s = qkv_ops(s, c, pl);
    let s = attn_ops(s, c, w, li, pos, m.flash_off, m.detail);
    ffn_ops(s, c, w, pl, m.trace)
}

/// The first `n` layers.
pub open spec fn layers_ops(
    s: Seq<StepOpV>,
    c: StepCtx,
    layers: Seq<LayerWeights>,
    plans: Seq<LayerGemmPlans>,
    n: nat,
    pos: usize,
    m: StepMode,
) -> Seq<StepOpV>
    decreases n,
{
    if n == 0 {
        s
    } else {
        layer_ops(
            layers_ops(s, c, layers, plans, (n - 1) as nat, pos, m),
            c,
            layers[n - 1],
            plans[n - 1],
            n - 1,
            pos,
            m,
        )
    }
}

/// The embedding row and the KV length.
pub open spec fn prologue(s: Seq<StepOpV>, c: StepCtx, token: u32, kv_len: usize) -> Seq<StepOpV> {
    upload_lens(run(begin(s), l_gather(c, token), SEG_SMALL), kv_len)
}

/// The final norm and the output head.
pub open spec fn epilogue(s: Seq<StepOpV>, c: StepCtx, lm_head: GemmPlan) -> Seq<StepOpV> {
    let s = run(start(s, SEG_LM_HEAD), l_rms(c, c.final_norm), SEG_LM_HEAD);
    close(end(gemm(s, lm_head, SEG_LM_HEAD), SEG_LM_HEAD))
}

/// The whole step.
pub open spec fn split_ops(
    c: StepCtx,
    layers: Seq<LayerWeights>,
    plans: DecodeGemmPlans,
    token: u32,
    pos: usize,
    kv_len: usize,
    m: StepMode,
) -> Seq<StepOpV> {
    let s = prologue(Seq::empty(), c, token, kv_len);
    let s = layers_ops(s, c, layers, plans.layers@, layers.len(), pos, m);
    epilogue(s, c, plans.lm_head)
}

impl StepKernels {
    pub fn gather(&self, c: &StepCtx, n: &StepNums, token: u32) -> (l: Launch)
        requires
            *n == c.nums_of(),
        ensures
            l@ == l_gather(*c, token),
    {
        self.dense.launch_gather(c.on.dev, &c.on.stream, c.embed, c.b.x.ptr, token, n.h)
    }

    pub fn rms(&self, c: &StepCtx, n: &StepNums, w: u64) -> (l: Launch)
        requires
            *n == c.nums_of(),
        ensures
            l@ == l_rms(*c, w),
    {
        self.dense.launch_rms_norm(
            c.on.dev,
            &c.on.stream,
            c.b.x.ptr,
            c.b.xn.ptr,
            w,
            n.h,
            c.cfg.rms_eps,
        )
    }

    pub fn cast_q(&self, c: &StepCtx, n: &StepNums) -> (l: Launch)
        requires
            *n == c.nums_of(),
        ensures
            l@ == l_cast_q(*c),
    {
        self.diff.launch_cast_f32_f16(c.on.dev, &c.on.stream, c.b.c_q.ptr, c.b.q.ptr, n.nqk)
    }

    pub fn cast_k(&self, c: &StepCtx, n: &StepNums) -> (l: Launch)
        requires
            *n == c.nums_of(),
        ensures
            l@ == l_cast_k(*c),
    {
        self.diff.launch_cast_f32_f16(c.on.dev, &c.on.stream, c.b.c_k.ptr, c.b.k.ptr, n.kvk)
    }

    pub fn cast_v(&self, c: &StepCtx, n: &StepNums) -> (l: Launch)
        requires
            *n == c.nums_of(),
        ensures
            l@ == l_cast_v(*c),
    {
        self.diff.launch_cast_f32_f16(c.on.dev, &c.on.stream, c.b.c_v.ptr, c.b.v.ptr, n.kvk)
    }

    pub fn norm_q(&self, c: &StepCtx, n: &StepNums, w: u64) -> (l: Launch)
        requires
            *n == c.nums_of(),
        ensures
            l@ == l_norm_q(*c, w),
    {
        let q: u64 = c.b.q.ptr;
        let eps: u32 = c.cfg.rms_eps;
        self.dense.launch_rms_heads(c.on.dev, &c.on.stream, q, q, w, n.q_heads, n.d, eps)
    }

    pub fn norm_k(&self, c: &StepCtx, n: &StepNums, w: u64) -> (l: Launch)
        requires
            *n == c.nums_of(),
        ensures
            l@ == l_norm_k(*c, w),
    {
        let k: u64 = c.b.k.ptr;
        let eps: u32 = c.cfg.rms_eps;
        self.dense.launch_rms_heads(c.on.dev, &c.on.stream, k, k, w, n.kv_heads, n.d, eps)
    }

    pub fn rope_q(&self, c: &StepCtx, n: &StepNums, pos: u32) -> (l: Launch)
        requires
            *n == c.nums_of(),
        ensures
            l@ == l_rope_q(*c, pos),
    {
        self.dense.launch_rope_heads(
            c.on.dev,
            &c.on.stream,
            c.b.q.ptr,
            n.q_heads,
            n.half,
            pos,
            c.cfg.rope_theta,
            c.cfg.q_scale,
        )
    }

    pub fn rope_k(&self, c: &StepCtx, n: &StepNums, pos: u32) -> (l: Launch)
        requires
            *n == c.nums_of(),
        ensures
            l@ == l_rope_k(*c, pos),
    {
        self.dense.launch_rope_heads(
            c.on.dev,
            &c.on.stream,
            c.b.k.ptr,
            n.kv_heads,
            n.half,
            pos,
            c.cfg.rope_theta,
            F32_ONE,
        )
    }

    pub fn write_slot(&self, c: &StepCtx, n: &StepNums, phys: u32, off: u32) -> (l: Launch)
        requires
            *n == c.nums_of(),
            n.kv_heads * n.d <= u32::MAX,
        ensures
            l@ == l_kv_write(*c, phys, off),
    {
        self.dense.launch_kv_write(
            c.on.dev,
            &c.on.stream,
            c.b.k.ptr,
            c.b.v.ptr,
            c.kv,
            phys,
            off,
            BLOCK_LEN as u32,
            n.kv_heads,
            n.d,
            n.total_pages,
        )
    }

    pub fn add_rms(&self, c: &StepCtx, n: &StepNums, w: u64) -> (l: Launch)
        requires
            *n == c.nums_of(),
        ensures
            l@ == l_add_rms(*c, w),
    {
        self.dense.launch_fused_add_rms(
            c.on.dev,
            &c.on.stream,
            c.b.x.ptr,
            c.b.c_o.ptr,
            c.b.xn.ptr,
            w,
            n.h,
            c.cfg.rms_eps,
        )
    }

    pub fn swiglu(&self, c: &StepCtx, n: &StepNums) -> (l: Launch)
        requires
            *n == c.nums_of(),
        ensures
            l@ == l_swiglu(*c),
    {
        let (g, u) = (c.b.c_g.ptr, c.b.c_u.ptr);
        self.dense.launch_fused_cast_swiglu(c.on.dev, &c.on.stream, g, u, c.b.down.ptr, n.ffn)
    }

    pub fn add(&self, c: &StepCtx, n: &StepNums) -> (l: Launch)
        requires
            *n == c.nums_of(),
        ensures
            l@ == l_add(*c),
    {
        self.dense.launch_add_cast(c.on.dev, &c.on.stream, c.b.x.ptr, c.b.c_d.ptr, n.h)
    }
}

fn push_norm(p: &mut Program, c: &StepCtx, k: &StepKernels, n: &StepNums, w: &LayerWeights, detail: bool)
    requires
        *n == c.nums_of(),
    ensures
        final(p)@ == norm_ops(old(p)@, *c, *w, detail),
{
    p.run(k.rms(c, n, w.attn_norm.ptr), SEG_SMALL);
    p.end(SEG_SMALL);
    p.read_back(detail, Anchor::X);
    p.read_back(detail, Anchor::Xn);
}

fn push_qkv(p: &mut Program, c: &StepCtx, k: &StepKernels, n: &StepNums, pl: &LayerGemmPlans)
    requires
        *n == c.nums_of(),
    ensures
        final(p)@ == qkv_ops(old(p)@, *c, *pl),
{
    p.start(SEG_QKV);
    p.gemm(&pl.q, SEG_QKV);
    p.run(k.cast_q(c, n), SEG_QKV);
    p.gemm(&pl.k, SEG_QKV);
    p.run(k.cast_k(c, n), SEG_QKV);
    p.gemm(&pl.v, SEG_QKV);
    p.run(k.cast_v(c, n), SEG_QKV);
    p.end(SEG_QKV);
}

fn push_head_norm(p: &mut Program, c: &StepCtx, k: &StepKernels, n: &StepNums, w: &LayerWeights)
    requires
        *n == c.nums_of(),
    ensures
        final(p)@ == head_norm_ops(old(p)@, *c, *w),
{
    if let Some(qn) = w.q_norm {
        if let Some(kn) = w.k_norm {
            p.run(k.norm_q(c, n, qn.ptr), SEG_ATTN);
            p.run(k.norm_k(c, n, kn.ptr), SEG_ATTN);
        }
    }
}

fn push_attention(
    p: &mut Program,
    c: &StepCtx,
    k: &StepKernels,
    n: &StepNums,
    li: usize,
    flash_off: bool,
)
    requires
        c.wf(),
        k.launch_on(*c),
        *n == c.nums_of(),
        (n.d + n.max_kv) * 4 <= u32::MAX,
        li < c.cfg.n_layer,
    ensures
        final(p)@ == attention(
            old(p)@,
            flash_off,
            flash_fits(n.d, n.max_kv),
            l_flash(*c, li as int),
            l_naive(*c, li as int),
        ),
{
    let pages: u64 = c.layer_pages(li);
    let naive = k.decode.launch_decode_step_gqa(
        c.on.dev,
        c.b.q.ptr,
        pages,
        c.kv,
        c.b.lens.ptr,
        c.b.scores.ptr,
        c.b.attn.ptr,
        1,
        n.q_heads,
        n.d,
        BLOCK_LEN as u32,
        n.ratio,
        n.kv_heads,
        n.total_pages,
        n.total_pages,
    );
    if flash_off {
        p.push(StepOp::Launch(naive));
    } else {
        let flash = k.decode.launch_decode_step_gqa_flash(
            c.on.dev,
            c.b.q.ptr,
            pages,
            c.kv,
            c.b.lens.ptr,
            c.b.attn.ptr,
            1,
            n.q_heads,
            n.d,
            BLOCK_LEN as u32,
            n.ratio,
            n.kv_heads,
            n.max_kv,
            n.total_pages,
            1,
        );
        match flash {
            Ok(l) => {
                p.push(StepOp::Attn { flash: l, naive });
            },
            Err(_) => {
                p.push(StepOp::FlashRefused(naive));
            },
        }
    }
    p.count(SEG_ATTN);
}

fn push_attn(
    p: &mut Program,
    c: &StepCtx,
    k: &StepKernels,
    n: &StepNums,
    w: &LayerWeights,
    li: usize,
    pos: usize,
    flash_off: bool,
    detail: bool,
)
    requires
        c.wf(),
        k.launch_on(*c),
        *n == c.nums_of(),
        (n.d + n.max_kv) * 4 <= u32::MAX,
        n.kv_heads * n.d <= u32::MAX,
        li < c.cfg.n_layer,
        c.takes_pos(pos),
    ensures
        final(p)@ == attn_ops(old(p)@, *c, *w, li as int, pos, flash_off, detail),
{
    p.start(SEG_ATTN);
    push_head_norm(p, c, k, n, w);
    p.run(k.rope_q(c, n, pos as u32), SEG_ATTN);
    p.run(k.rope_k(c, n, pos as u32), SEG_ATTN);
    p.read_back(detail, Anchor::Q);
    let phys: u32 = c.phys_page(li, pos);
    p.run(k.write_slot(c, n, phys, (pos % BLOCK_LEN) as u32), SEG_ATTN);
    push_attention(p, c, k, n, li, flash_off);
    p.end(SEG_ATTN);
    p.read_back(detail, Anchor::Attn);
    p.push_detail(detail);
}

fn push_ffn(
    p: &mut Program,
    c: &StepCtx,
    k: &StepKernels,
    n: &StepNums,
    w: &LayerWeights,
    pl: &LayerGemmPlans,
    trace: bool,
)
    requires
        *n == c.nums_of(),
    ensures
        final(p)@ == ffn_ops(old(p)@, *c, *w, *pl, trace),
{
    p.start(SEG_O);
    p.gemm(&pl.o, SEG_O);
    p.end(SEG_O);
    p.run(k.add_rms(c, n, w.ffn_norm.ptr), SEG_FFN_RMS);
    p.start(SEG_FFN_GU);
    p.gemm(&pl.gate, SEG_FFN_GU);
    p.gemm(&pl.up, SEG_FFN_GU);
    p.end(SEG_FFN_GU);
    p.start(SEG_FFN_D);
    p.run(k.swiglu(c, n), SEG_FFN_D);
    p.gemm(&pl.down, SEG_FFN_D);
    p.end(SEG_FFN_D);
    p.start(SEG_FFN_RMS);
    p.run(k.add(c, n), SEG_FFN_RMS);
    p.end(SEG_FFN_RMS);
    p.trace_row(trace);
}

fn push_layer(
    p: &mut Program,
    c: &StepCtx,
    k: &StepKernels,
    n: &StepNums,
    w: &LayerWeights,
    pl: &LayerGemmPlans,
    li: usize,
    pos: usize,
    m: StepMode,
)
    requires
        c.wf(),
        k.launch_on(*c),
        *n == c.nums_of(),
        (n.d + n.max_kv) * 4 <= u32::MAX,
        n.kv_heads * n.d <= u32::MAX,
        li < c.cfg.n_layer,
        c.takes_pos(pos),
    ensures
        final(p)@ == layer_ops(old(p)@, *c, *w, *pl, li as int, pos, m),
{
    push_norm(p, c, k, n, w, m.detail);
    push_qkv(p, c, k, n, pl);
    push_attn(p, c, k, n, w, li, pos, m.flash_off, m.detail);
    push_ffn(p, c, k, n, w, pl, m.trace);
}

/// The decode step as separate launches.
pub fn step_decode_split(
    c: &StepCtx,
    k: &StepKernels,
    layers: &Vec<LayerWeights>,
    plans: &DecodeGemmPlans,
    token: u32,
    pos: usize,
    kv_len: usize,
    m: StepMode,
) -> (p: Program)
    requires
        c.wf(),
        k.launch_on(*c),
        layers@.len() == c.cfg.n_layer,
        plans.layers@.len() == c.cfg.n_layer,
        c.takes_pos(pos),
    ensures
        p@ == split_ops(*c, layers@, *plans, token, pos, kv_len, m),
{
    let n = c.nums();
    let mut p = Program::new();
    p.begin();
    p.run(k.gather(c, &n, token), SEG_SMALL);
    p.upload_lens(kv_len);
    let ghost s0 = p@;
    let mut li: usize = 0;
    while li < layers.len()
        invariant
            li <= layers.len(),
            c.wf(),
            k.launch_on(*c),
            n == c.nums_of(),
            (n.d + n.max_kv) * 4 <= u32::MAX,
            n.kv_heads * n.d <= u32::MAX,
            layers@.len() == c.cfg.n_layer,
            plans.layers@.len() == c.cfg.n_layer,
            c.takes_pos(pos),
            p@ == layers_ops(s0, *c, layers@, plans.layers@, li as nat, pos, m),
        decreases layers.len() - li,
    {
        push_layer(&mut p, c, k, &n, &layers[li], &plans.layers[li], li, pos, m);
        li = li + 1;
    }
    p.start(SEG_LM_HEAD);
    p.run(k.rms(c, &n, c.final_norm), SEG_LM_HEAD);
    p.gemm(&plans.lm_head, SEG_LM_HEAD);
    p.end(SEG_LM_HEAD);
    p.close();
    p
}

} // verus!
