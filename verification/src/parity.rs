//! The decode step on the `f32` tier: `f32` activations throughout, and the cache
//! in `f16`.

use vstd::prelude::*;

use crate::decode::{self, flash_fits};
use crate::dense;
use crate::diff;
use crate::launch::LaunchV;
use crate::model::{LayerWeights, BLOCK_LEN};
use crate::plans::{DecodeGemmPlans, LayerGemmPlans};
use crate::split::l_kv_write;
use crate::step::{
    attention, begin, close, end, gemm, run, start, upload_lens, Program, StepCtx, StepKernels,
    StepNums, StepOp, StepOpV, SEG_ATTN, SEG_FFN_D, SEG_FFN_GU, SEG_FFN_RMS, SEG_LM_HEAD, SEG_O,
    SEG_QKV, SEG_SMALL,
};

verus! {

/// An RMSNorm of the residual row by the given weights.
pub open spec fn l_rms32(c: StepCtx, w: u64) -> LaunchV {
    diff::rms_norm(c.on, c.b.x32.ptr, w, c.b.xn32.ptr, c.nums_of().h, c.cfg.rms_eps)
}

/// The address of a head in a row of heads.
pub open spec fn head_at(base: u64, hh: int, d: u32) -> u64 {
    (base + hh * d * 4) as u64
}

/// The norms of the first `n` heads of a row.
pub open spec fn head_norms32(s: Seq<StepOpV>, c: StepCtx, base: u64, w: u64, n: nat) -> Seq<StepOpV>
    decreases n,
{
    if n == 0 {
        s
    } else {
        let d = c.nums_of().d;
        let at = head_at(base, n - 1, d);
        run(
            head_norms32(s, c, base, w, (n - 1) as nat),
            diff::rms_norm(c.on, at, w, at, d, c.cfg.rms_eps),
            SEG_ATTN,
        )
    }
}

/// The rotary embedding of the first `n` heads of a row.
pub open spec fn head_ropes32(s: Seq<StepOpV>, c: StepCtx, base: u64, pos: u32, n: nat) -> Seq<StepOpV>
    decreases n,
{
    if n == 0 {
        s
    } else {
        let k = c.nums_of();
        let at = head_at(base, n - 1, k.d);
        run(
            head_ropes32(s, c, base, pos, (n - 1) as nat),
            diff::rope(c.on, at, at, k.half, pos, c.cfg.rope_theta),
            SEG_ATTN,
        )
    }
}

/// The norm before attention, and the projections.
pub open spec fn qkv32_ops(s: Seq<StepOpV>, c: StepCtx, w: LayerWeights, pl: LayerGemmPlans) -> Seq<
    StepOpV,
> {
    let s = end(run(s, l_rms32(c, w.attn_norm.ptr), SEG_SMALL), SEG_SMALL);
    let s = start(s, SEG_QKV);
    let s = gemm(gemm(gemm(s, pl.q, SEG_QKV), pl.k, SEG_QKV), pl.v, SEG_QKV);
    end(s, SEG_QKV)
}

/// The norms of the heads, where the model has them.
pub open spec fn head_norm32_ops(s: Seq<StepOpV>, c: StepCtx, w: LayerWeights) -> Seq<StepOpV> {
    match (w.q_norm, w.k_norm) {
        (Some(qn), Some(kn)) => head_norms32(
            head_norms32(s, c, c.b.c_q.ptr, qn.ptr, c.cfg.q_heads as nat),
            c,
            c.b.c_k.ptr,
            kn.ptr,
            c.cfg.kv_heads as nat,
        ),
        _ => s,
    }
}

pub open spec fn l_flash32(c: StepCtx, li: int) -> LaunchV {
    let n = c.nums_of();
    decode::step_flash_f32(
        c.on,
        c.b.c_q.ptr,
        c.page_table(li),
        c.kv,
        c.b.lens.ptr,
        c.b.attn32.ptr,
        1,
        n.q_heads,
        n.d,
        BLOCK_LEN as u32,
        n.ratio,
        n.kv_heads,
        n.max_kv,
        n.total_pages,
        1,
    )
}

pub open spec fn l_naive32(c: StepCtx, li: int) -> LaunchV {
    let n = c.nums_of();
    decode::step_gqa_f32(
        c.on,
        c.b.c_q.ptr,
        c.page_table(li),
        c.kv,
        c.b.lens.ptr,
        c.b.scores.ptr,
        c.b.attn32.ptr,
        1,
        n.q_heads,
        n.d,
        BLOCK_LEN as u32,
        n.ratio,
        n.kv_heads,
        n.total_pages,
        n.total_pages,
    )
}

/// Rotary embedding, scale, the write of the cache slot, and attention.
pub open spec fn attn32_ops(
    s: Seq<StepOpV>,
    c: StepCtx,
    w: LayerWeights,
    li: int,
    pos: usize,
    flash_off: bool,
) -> Seq<StepOpV> {
    let n = c.nums_of();
    let s = head_norm32_ops(start(s, SEG_ATTN), c, w);
    let s = head_ropes32(s, c, c.b.c_q.ptr, pos as u32, c.cfg.q_heads as nat);
    let s = head_ropes32(s, c, c.b.c_k.ptr, pos as u32, c.cfg.kv_heads as nat);
    let s = run(s, dense::scale_f32(c.on, c.b.c_q.ptr, n.nqk, c.cfg.q_scale), SEG_ATTN);
    let s = run(s, diff::cast_f32_f16(c.on, c.b.c_k.ptr, c.b.k.ptr, n.kvk), SEG_ATTN);
    let s = run(s, diff::cast_f32_f16(c.on, c.b.c_v.ptr, c.b.v.ptr, n.kvk), SEG_ATTN);
    let s = run(s, l_kv_write(c, c.phys(li, pos) as u32, (pos % 32) as u32), SEG_ATTN);
    let s = attention(s, flash_off, flash_fits(n.d, n.max_kv), l_flash32(c, li), l_naive32(c, li));
    end(s, SEG_ATTN)
}

/// The attention output and the feed-forward half.
pub open spec fn ffn32_ops(s: Seq<StepOpV>, c: StepCtx, w: LayerWeights, pl: LayerGemmPlans) -> Seq<
    StepOpV,
> {
    let n = c.nums_of();
    let add = diff::add_mask(c.on, c.b.x32.ptr, c.b.c_o.ptr, n.h);
    let s = end(run(gemm(start(s, SEG_O), pl.o, SEG_O), add, SEG_O), SEG_O);
    let s = start(start(s, SEG_FFN_GU), SEG_SMALL);
    let s = end(run(s, l_rms32(c, w.ffn_norm.ptr), SEG_SMALL), SEG_SMALL);
    let s = end(gemm(gemm(s, pl.gate, SEG_FFN_GU), pl.up, SEG_FFN_GU), SEG_FFN_GU);
    let glu = dense::swiglu_f32(c.on, c.b.c_g.ptr, c.b.c_u.ptr, c.b.c_g.ptr, n.ffn);
    let s = gemm(run(start(s, SEG_FFN_D), glu, SEG_FFN_D), pl.down, SEG_FFN_D);
    let s = start(end(s, SEG_FFN_D), SEG_FFN_RMS);
    end(run(s, add, SEG_FFN_RMS), SEG_FFN_RMS)
}

/// One layer.
pub open spec fn layer32_ops(
    s: Seq<StepOpV>,
    c: StepCtx,
    w: LayerWeights,
    pl: LayerGemmPlans,
    li: int,
    pos: usize,
    flash_off: bool,
) -> Seq<StepOpV> {
    ffn32_ops(attn32_ops(qkv32_ops(s, c, w, pl), c, w, li, pos, flash_off), c, w, pl)
}

/// The first `n` layers.
pub open spec fn layers32_ops(
    s: Seq<StepOpV>,
    c: StepCtx,
    layers: Seq<LayerWeights>,
    plans: Seq<LayerGemmPlans>,
    n: nat,
    pos: usize,
    flash_off: bool,
) -> Seq<StepOpV>
    decreases n,
{
    if n == 0 {
        s
    } else {
        layer32_ops(
            layers32_ops(s, c, layers, plans, (n - 1) as nat, pos, flash_off),
            c,
            layers[n - 1],
            plans[n - 1],
            n - 1,
            pos,
            flash_off,
        )
    }
}

/// The whole step.
pub open spec fn parity_ops(
    c: StepCtx,
    layers: Seq<LayerWeights>,
    plans: DecodeGemmPlans,
    token: u32,
    pos: usize,
    kv_len: usize,
    flash_off: bool,
) -> Seq<StepOpV> {
    let gather = dense::gather_f32(c.on, c.embed, c.b.x32.ptr, token, c.nums_of().h);
    let s = upload_lens(run(begin(Seq::empty()), gather, SEG_SMALL), kv_len);
    let s = layers32_ops(s, c, layers, plans.layers@, layers.len(), pos, flash_off);
    let s = run(start(s, SEG_LM_HEAD), l_rms32(c, c.final_norm), SEG_LM_HEAD);
    close(end(gemm(s, plans.lm_head, SEG_LM_HEAD), SEG_LM_HEAD))
}

proof fn lemma_head_fits(c: StepCtx, base: u64, heads: int, hh: int)
    requires
        c.wf(),
        base + heads * c.cfg.head_dim * 4 <= u64::MAX,
        0 <= hh < heads,
    ensures
        0 <= hh * c.cfg.head_dim * 4,
        base + hh * c.cfg.head_dim * 4 <= u64::MAX,
        hh * c.cfg.head_dim <= heads * c.cfg.head_dim,
{
    let d = c.cfg.head_dim as int;
    assert(0 <= hh * d <= heads * d) by (nonlinear_arith)
        requires
            0 <= hh < heads,
            d > 0,
    ;
}

fn push_head_norms(p: &mut Program, c: &StepCtx, k: &StepKernels, base: u64, w: u64, heads: usize)
    requires
        c.wf(),
        k.launch_on(*c),
        base + heads * c.cfg.head_dim * 4 <= u64::MAX,
    ensures
        final(p)@ == head_norms32(old(p)@, *c, base, w, heads as nat),
{
    let n = c.nums();
    let mut hh: usize = 0;
    while hh < heads
        invariant
            hh <= heads,
            c.wf(),
            k.launch_on(*c),
            n == c.nums_of(),
            n.d == c.cfg.head_dim,
            base + heads * c.cfg.head_dim * 4 <= u64::MAX,
            p@ == head_norms32(old(p)@, *c, base, w, hh as nat),
        decreases heads - hh,
    {
        proof {
            lemma_head_fits(*c, base, heads as int, hh as int);
        }
        let at: u64 = base + hh as u64 * n.d as u64 * 4;
        p.run(k.diff.launch_rms_norm(c.on.dev, at, w, at, n.d, c.cfg.rms_eps), SEG_ATTN);
        hh = hh + 1;
    }
}

fn push_head_ropes(p: &mut Program, c: &StepCtx, k: &StepKernels, base: u64, pos: u32, heads: usize)
    requires
        c.wf(),
        k.launch_on(*c),
        base + heads * c.cfg.head_dim * 4 <= u64::MAX,
    ensures
        final(p)@ == head_ropes32(old(p)@, *c, base, pos, heads as nat),
{
    let n = c.nums();
    let mut hh: usize = 0;
    while hh < heads
        invariant
            hh <= heads,
            c.wf(),
            k.launch_on(*c),
            n == c.nums_of(),
            n.d == c.cfg.head_dim,
            base + heads * c.cfg.head_dim * 4 <= u64::MAX,
            p@ == head_ropes32(old(p)@, *c, base, pos, hh as nat),
        decreases heads - hh,
    {
        proof {
            lemma_head_fits(*c, base, heads as int, hh as int);
        }
        let at: u64 = base + hh as u64 * n.d as u64 * 4;
        p.run(k.diff.launch_rope(c.on.dev, at, at, n.half, pos, c.cfg.rope_theta), SEG_ATTN);
        hh = hh + 1;
    }
}

fn push_qkv32(p: &mut Program, c: &StepCtx, k: &StepKernels, n: &StepNums, w: &LayerWeights, pl: &LayerGemmPlans)
    requires
        k.launch_on(*c),
        *n == c.nums_of(),
    ensures
        final(p)@ == qkv32_ops(old(p)@, *c, *w, *pl),
{
    p.run(
        k.diff.launch_rms_norm(
            c.on.dev,
            c.b.x32.ptr,
            w.attn_norm.ptr,
            c.b.xn32.ptr,
            n.h,
            c.cfg.rms_eps,
        ),
        SEG_SMALL,
    );
    p.end(SEG_SMALL);
    p.start(SEG_QKV);
    p.gemm(&pl.q, SEG_QKV);
    p.gemm(&pl.k, SEG_QKV);
    p.gemm(&pl.v, SEG_QKV);
    p.end(SEG_QKV);
}

fn push_attention32(p: &mut Program, c: &StepCtx, k: &StepKernels, n: &StepNums, li: usize, flash_off: bool)
    requires
        c.wf(),
        k.launch_on(*c),
        *n == c.nums_of(),
        (n.d + n.max_kv) * 4 <= u32::MAX,
        li < c.cfg.n_layer,
    ensures
        final(p)@ == attention(
            old(p)@,
            flash_off,
            flash_fits(n.d, n.max_kv),
            l_flash32(*c, li as int),
            l_naive32(*c, li as int),
        ),
{
    let pages: u64 = c.layer_pages(li);
    let naive = k.decode.launch_decode_step_gqa_f32(
        c.on.dev,
        c.b.c_q.ptr,
        pages,
        c.kv,
        c.b.lens.ptr,
        c.b.scores.ptr,
        c.b.attn32.ptr,
        1,
        n.q_heads,
        n.d,
        BLOCK_LEN as u32,
        n.ratio,
        n.kv_heads,
        n.total_pages,
        n.total_pages,
    );
    if flash_off {
        p.push(StepOp::Launch(naive));
    } else {
        let flash = k.decode.launch_decode_step_gqa_flash_f32(
            c.on.dev,
            c.b.c_q.ptr,
            pages,
            c.kv,
            c.b.lens.ptr,
            c.b.attn32.ptr,
            1,
            n.q_heads,
            n.d,
            BLOCK_LEN as u32,
            n.ratio,
            n.kv_heads,
            n.max_kv,
            n.total_pages,
            1,
        );
        match flash {
            Ok(l) => {
                p.push(StepOp::Attn { flash: l, naive });
            },
            Err(_) => {
                p.push(StepOp::FlashRefused(naive));
            },
        }
    }
    p.count(SEG_ATTN);
}

fn push_attn32(
    p: &mut Program,
    c: &StepCtx,
    k: &StepKernels,
    n: &StepNums,
    w: &LayerWeights,
    li: usize,
    pos: usize,
    flash_off: bool,
)
    requires
        c.wf(),
        k.launch_on(*c),
        *n == c.nums_of(),
        (n.d + n.max_kv) * 4 <= u32::MAX,
        n.kv_heads * n.d <= u32::MAX,
        li < c.cfg.n_layer,
        c.takes_pos(pos),
    ensures
        final(p)@ == attn32_ops(old(p)@, *c, *w, li as int, pos, flash_off),
{
    let (dev, st) = (c.on.dev, &c.on.stream);
    p.start(SEG_ATTN);
    if let Some(qn) = w.q_norm {
        if let Some(kn) = w.k_norm {
            push_head_norms(p, c, k, c.b.c_q.ptr, qn.ptr, c.cfg.q_heads);
            push_head_norms(p, c, k, c.b.c_k.ptr, kn.ptr, c.cfg.kv_heads);
        }
    }
    push_head_ropes(p, c, k, c.b.c_q.ptr, pos as u32, c.cfg.q_heads);
    push_head_ropes(p, c, k, c.b.c_k.ptr, pos as u32, c.cfg.kv_heads);
    p.run(k.dense.launch_scale_f32(dev, st, c.b.c_q.ptr, n.nqk, c.cfg.q_scale), SEG_ATTN);
    p.run(k.diff.launch_cast_f32_f16(dev, st, c.b.c_k.ptr, c.b.k.ptr, n.kvk), SEG_ATTN);
    p.run(k.diff.launch_cast_f32_f16(dev, st, c.b.c_v.ptr, c.b.v.ptr, n.kvk), SEG_ATTN);
    let phys: u32 = c.phys_page(li, pos);
    p.run(
        k.dense.launch_kv_write(
            dev,
            st,
            c.b.k.ptr,
            c.b.v.ptr,
            c.kv,
            phys,
            (pos % BLOCK_LEN) as u32,
            BLOCK_LEN as u32,
            n.kv_heads,
            n.d,
            n.total_pages,
        ),
        SEG_ATTN,
    );
    push_attention32(p, c, k, n, li, flash_off);
    p.end(SEG_ATTN);
}

fn push_ffn32(p: &mut Program, c: &StepCtx, k: &StepKernels, n: &StepNums, w: &LayerWeights, pl: &LayerGemmPlans)
    requires
        k.launch_on(*c),
        *n == c.nums_of(),
    ensures
        final(p)@ == ffn32_ops(old(p)@, *c, *w, *pl),
{
    let (dev, st) = (c.on.dev, &c.on.stream);
    p.start(SEG_O);
    p.gemm(&pl.o, SEG_O);
    p.run(k.diff.launch_add_mask(dev, st, c.b.x32.ptr, c.b.c_o.ptr, n.h), SEG_O);
    p.end(SEG_O);
    p.start(SEG_FFN_GU);
    p.start(SEG_SMALL);
    p.run(
        k.diff.launch_rms_norm(
            dev,
            c.b.x32.ptr,
            w.ffn_norm.ptr,
            c.b.xn32.ptr,
            n.h,
            c.cfg.rms_eps,
        ),
        SEG_SMALL,
    );
    p.end(SEG_SMALL);
    p.gemm(&pl.gate, SEG_FFN_GU);
    p.gemm(&pl.up, SEG_FFN_GU);
    p.end(SEG_FFN_GU);
    p.start(SEG_FFN_D);
    p.run(
        k.dense.launch_swiglu_f32(dev, st, c.b.c_g.ptr, c.b.c_u.ptr, c.b.c_g.ptr, n.ffn),
        SEG_FFN_D,
    );
    p.gemm(&pl.down, SEG_FFN_D);
    p.end(SEG_FFN_D);
    p.start(SEG_FFN_RMS);
    p.run(k.diff.launch_add_mask(dev, st, c.b.x32.ptr, c.b.c_o.ptr, n.h), SEG_FFN_RMS);
    p.end(SEG_FFN_RMS);
}

/// The decode step on the `f32` tier.
pub fn step_decode_launches_f32(
    c: &StepCtx,
    k: &StepKernels,
    layers: &Vec<LayerWeights>,
    plans: &DecodeGemmPlans,
    token: u32,
    pos: usize,
    kv_len: usize,
    flash_off: bool,
) -> (p: Program)
    requires
        c.wf(),
        k.launch_on(*c),
        layers@.len() == c.cfg.n_layer,
        plans.layers@.len() == c.cfg.n_layer,
        c.takes_pos(pos),
    ensures
        p@ == parity_ops(*c, layers@, *plans, token, pos, kv_len, flash_off),
{
    let n = c.nums();
    let mut p = Program::new();
    p.begin();
    p.run(
        k.dense.launch_gather_f32(c.on.dev, &c.on.stream, c.embed, c.b.x32.ptr, token, n.h),
        SEG_SMALL,
    );
    p.upload_lens(kv_len);
    let ghost s0 = p@;
    let mut li: usize = 0;
    while li < layers.len()
        invariant
            li <= layers.len(),
            c.wf(),
            k.launch_on(*c),
            n == c.nums_of(),
            (n.d + n.max_kv) * 4 <= u32::MAX,
            n.kv_heads * n.d <= u32::MAX,
            layers@.len() == c.cfg.n_layer,
            plans.layers@.len() == c.cfg.n_layer,
            c.takes_pos(pos),
            p@ == layers32_ops(s0, *c, layers@, plans.layers@, li as nat, pos, flash_off),
        decreases layers.len() - li,
    {
        let w = &layers[li];
        let pl = &plans.layers[li];
        push_qkv32(&mut p, c, k, &n, w, pl);
        push_attn32(&mut p, c, k, &n, w, li, pos, flash_off);
        push_ffn32(&mut p, c, k, &n, w, pl);
        li = li + 1;
    }
    p.start(SEG_LM_HEAD);
    p.run(
        k.diff.launch_rms_norm(
            c.on.dev,
            c.b.x32.ptr,
            c.final_norm,
            c.b.xn32.ptr,
            n.h,
            c.cfg.rms_eps,
        ),
        SEG_LM_HEAD,
    );
    p.gemm(&plans.lm_head, SEG_LM_HEAD);
    p.end(SEG_LM_HEAD);
    p.close();
    p
}

} // verus!
