//! The fused decode step, and the step of one launch per layer.

use vstd::prelude::*;

use crate::decode::{self, flash_fits};
use crate::error::LaunchError;
use crate::float_bits::F32_ONE;
use crate::fused::{self, FusedDecodeKernels, FusedGeom, PLAN_ROW_BYTES};
use crate::launch::{Launch, LaunchV};
use crate::layer_fused::{layer_launch, LayerFusedKernels};
use crate::model::{LayerWeights, BLOCK_LEN};
use crate::split::{l_gather, l_rms, StepMode};
use crate::step::{
    begin, close, end, push_detail, read_back, run, start, trace_row, upload_lens, Anchor, Program,
    StepCtx, StepKernels, StepNums, StepOp, StepOpV, SEG_ATTN, SEG_FFN_D, SEG_FFN_GU, SEG_FFN_RMS,
    SEG_LAYER, SEG_LM_HEAD, SEG_O, SEG_QKV, SEG_SMALL,
};

verus! {

/// Whether a geometry describes every layer of a context, within the address
/// space.
pub open spec fn geom_fits(g: FusedGeom, c: StepCtx) -> bool {
    &&& g.grid_qkv@.len() == c.cfg.n_layer
    &&& g.grid_gu@.len() == c.cfg.n_layer
    &&& g.grid_o@.len() == c.cfg.n_layer
    &&& g.tables + c.cfg.n_layer * 7 * PLAN_ROW_BYTES <= u64::MAX
}

/// The address of a row of the plan table: row `r` of layer `li`.
pub open spec fn table_at(g: FusedGeom, li: int, r: int) -> u64 {
    (g.tables + (li * 7 + r) * PLAN_ROW_BYTES) as u64
}

/// The weights of the norm after a layer: of the next layer's attention, or the
/// final ones.
pub open spec fn next_norm(c: StepCtx, layers: Seq<LayerWeights>, li: int) -> u64 {
    if li + 1 < layers.len() {
        layers[li + 1].attn_norm.ptr
    } else {
        c.final_norm
    }
}

/// The weights of the head norms; null where the model has none.
pub open spec fn norm_weights(w: LayerWeights) -> (u64, u64) {
    match (w.q_norm, w.k_norm) {
        (Some(qn), Some(kn)) => (qn.ptr, kn.ptr),
        _ => (0, 0),
    }
}

pub open spec fn f_p1_qkv(c: StepCtx, g: FusedGeom, li: int) -> LaunchV {
    fused::p1(c.on, table_at(g, li, 0), 3, g.grid_qkv@[li])
}

pub open spec fn f_p2_qkv(c: StepCtx, g: FusedGeom, w: LayerWeights, pos: u32) -> LaunchV {
    let n = c.nums_of();
    let (wq, wk) = norm_weights(w);
    fused::p2_qkv(
        c.on,
        g.pq,
        g.pk,
        g.pv,
        c.b.q.ptr,
        c.b.k.ptr,
        c.b.v.ptr,
        wq,
        wk,
        n.nqk,
        n.kvk,
        n.kvk,
        g.nslabs_q,
        g.nslabs_k,
        g.nslabs_v,
        n.d,
        n.half,
        pos,
        c.cfg.rope_theta,
        c.cfg.q_scale,
        F32_ONE,
        c.cfg.rms_eps,
        if c.cfg.head_norm {
            1
        } else {
            0
        },
        g.grid_qkv_p2,
    )
}

pub open spec fn f_flash(c: StepCtx, li: int) -> LaunchV {
    let n = c.nums_of();
    decode::step_flash_fused(
        c.on,
        c.b.q.ptr,
        c.page_table(li),
        c.kv,
        c.b.lens.ptr,
        c.b.attn.ptr,
        1,
        n.q_heads,
        n.d,
        BLOCK_LEN as u32,
        n.ratio,
        n.kv_heads,
        n.max_kv,
        n.total_pages,
        1,
        c.b.k.ptr,
        c.b.v.ptr,
    )
}

pub open spec fn f_p1_o(c: StepCtx, g: FusedGeom, li: int) -> LaunchV {
    fused::p1(c.on, table_at(g, li, 3), 1, g.grid_o@[li])
}

pub open spec fn f_p2_o(c: StepCtx, g: FusedGeom, w: LayerWeights) -> LaunchV {
    fused::p2_add_rms(
        c.on,
        g.po,
        c.b.x.ptr,
        c.b.xn.ptr,
        w.ffn_norm.ptr,
        c.nums_of().h,
        g.nslabs_o,
        c.cfg.rms_eps,
    )
}

pub open spec fn f_p1_gu(c: StepCtx, g: FusedGeom, li: int) -> LaunchV {
    fused::p1(c.on, table_at(g, li, 4), 2, g.grid_gu@[li])
}

pub open spec fn f_p2_gu_d(c: StepCtx, g: FusedGeom, li: int) -> LaunchV {
    fused::p2_gu_d(c.on, table_at(g, li, 4), g.grid_gu_p2)
}

pub open spec fn f_p2_down(c: StepCtx, g: FusedGeom, layers: Seq<LayerWeights>, li: int) -> LaunchV {
    fused::p2_add_rms(
        c.on,
        g.pd,
        c.b.x.ptr,
        c.b.xn.ptr,
        next_norm(c, layers, li),
        c.nums_of().h,
        g.nslabs_d,
        c.cfg.rms_eps,
    )
}

pub open spec fn f_p1_lm(c: StepCtx, g: FusedGeom) -> LaunchV {
    fused::p1(c.on, g.lm_table, 1, g.grid_lm)
}

pub open spec fn f_reduce_lm(c: StepCtx, g: FusedGeom) -> LaunchV {
    fused::reduce(c.on, g.plm, c.b.logits.ptr, c.nums_of().vocab, 1, g.grid_lm)
}

/// The first half of a layer: projections and attention.
pub open spec fn fused_attn_ops(
    s: Seq<StepOpV>,
    c: StepCtx,
    g: FusedGeom,
    w: LayerWeights,
    li: int,
    pos: usize,
    detail: bool,
) -> Seq<StepOpV> {
    let s = read_back(read_back(s, detail, Anchor::X), detail, Anchor::Xn);
    let s = run(start(s, SEG_QKV), f_p1_qkv(c, g, li), SEG_QKV);
    let s = end(run(s, f_p2_qkv(c, g, w, pos as u32), SEG_QKV), SEG_QKV);
    let s = start(read_back(s, detail, Anchor::Q), SEG_ATTN);
    let s = end(run(s, f_flash(c, li), SEG_ATTN), SEG_ATTN);
    read_back(s, detail, Anchor::Attn)
}

/// The second half of a layer: attention output and feed-forward.
pub open spec fn fused_ffn_ops(
    s: Seq<StepOpV>,
    c: StepCtx,
    g: FusedGeom,
    layers: Seq<LayerWeights>,
    li: int,
    m: StepMode,
) -> Seq<StepOpV> {
    let s = run(start(s, SEG_O), f_p1_o(c, g, li), SEG_O);
    let s = start(push_detail(s, m.detail), SEG_O);
    let s = end(run(s, f_p2_o(c, g, layers[li]), SEG_O), SEG_O);
    let s = end(run(start(s, SEG_FFN_GU), f_p1_gu(c, g, li), SEG_FFN_GU), SEG_FFN_GU);
    let s = end(run(start(s, SEG_FFN_D), f_p2_gu_d(c, g, li), SEG_FFN_D), SEG_FFN_D);
    let s = run(start(s, SEG_FFN_RMS), f_p2_down(c, g, layers, li), SEG_FFN_RMS);
    trace_row(end(s, SEG_FFN_RMS), m.trace)
}

/// The first `n` layers.
pub open spec fn fused_layers_ops(
    s: Seq<StepOpV>,
    c: StepCtx,
    g: FusedGeom,
    layers: Seq<LayerWeights>,
    n: nat,
    pos: usize,
    m: StepMode,
) -> Seq<StepOpV>
    decreases n,
{
    if n == 0 {
        s
    } else {
        let s = fused_layers_ops(s, c, g, layers, (n - 1) as nat, pos, m);
        let s = fused_attn_ops(s, c, g, layers[n - 1], n - 1, pos, m.detail);
        fused_ffn_ops(s, c, g, layers, n - 1, m)
    }
}

/// The output head.
pub open spec fn fused_head_ops(s: Seq<StepOpV>, c: StepCtx, g: FusedGeom) -> Seq<StepOpV> {
    let s = run(start(s, SEG_LM_HEAD), f_p1_lm(c, g), SEG_LM_HEAD);
    close(end(run(s, f_reduce_lm(c, g), SEG_LM_HEAD), SEG_LM_HEAD))
}

/// The whole fused step.
pub open spec fn fused_ops(
    c: StepCtx,
    g: FusedGeom,
    layers: Seq<LayerWeights>,
    token: u32,
    pos: usize,
    kv_len: usize,
    m: StepMode,
) -> Seq<StepOpV> {
    let s = run(begin(Seq::empty()), l_gather(c, token), SEG_SMALL);
    let s = end(run(s, l_rms(c, layers[0].attn_norm.ptr), SEG_SMALL), SEG_SMALL);
    let s = upload_lens(s, kv_len);
    fused_head_ops(fused_layers_ops(s, c, g, layers, layers.len(), pos, m), c, g)
}

/// The launch of a layer in the step of one launch per layer.
pub open spec fn lf_layer(
    c: StepCtx,
    g: FusedGeom,
    k: LayerFusedKernels,
    layers: Seq<LayerWeights>,
    li: int,
    pos: u32,
    token: u32,
) -> LaunchV {
    let (wq, wk) = norm_weights(layers[li]);
    layer_launch(
        c.on,
        k,
        table_at(g, li, 0),
        next_norm(c, layers, li),
        layers[li].ffn_norm.ptr,
        wq,
        wk,
        li as u32,
        layers.len() as u32,
        pos,
        token,
    )
}

/// The first `n` layers, one launch each.
pub open spec fn lf_layers_ops(
    s: Seq<StepOpV>,
    c: StepCtx,
    g: FusedGeom,
    k: LayerFusedKernels,
    layers: Seq<LayerWeights>,
    n: nat,
    pos: usize,
    token: u32,
    trace: bool,
) -> Seq<StepOpV>
    decreases n,
{
    if n == 0 {
        s
    } else {
        let s = lf_layers_ops(s, c, g, k, layers, (n - 1) as nat, pos, token, trace);
        trace_row(run(s, lf_layer(c, g, k, layers, n - 1, pos as u32, token), SEG_LAYER), trace)
    }
}

/// The whole step of one launch per layer.
pub open spec fn layer_fused_ops(
    c: StepCtx,
    g: FusedGeom,
    k: LayerFusedKernels,
    layers: Seq<LayerWeights>,
    token: u32,
    pos: usize,
    kv_len: usize,
    trace: bool,
) -> Seq<StepOpV> {
    let s = upload_lens(begin(Seq::empty()), kv_len);
    let s = lf_layers_ops(s, c, g, k, layers, layers.len(), pos, token, trace);
    fused_head_ops(s, c, g).push(StepOpV::FoldStages)
}

/// The address of row `r` of layer `li` in the plan table.
pub fn plan_table(g: &FusedGeom, c: &StepCtx, li: usize, r: usize) -> (a: u64)
    requires
        geom_fits(*g, *c),
        li < c.cfg.n_layer,
        r < 7,
    ensures
        a == table_at(*g, li as int, r as int),
        a == g.tables + (li * 7 + r) * PLAN_ROW_BYTES,
{
    proof {
        let n = c.cfg.n_layer as int;
        assert((li * 7 + r) * 40 <= n * 7 * 40) by (nonlinear_arith)
            requires
                li + 1 <= n,
                r < 7,
        ;
    }
    g.tables + (li as u64 * 7 + r as u64) * PLAN_ROW_BYTES
}

fn next_norm_of(c: &StepCtx, layers: &Vec<LayerWeights>, li: usize) -> (w: u64)
    requires
        li < layers@.len(),
    ensures
        w == next_norm(*c, layers@, li as int),
{
    let count: usize = layers.len();
    if li + 1 < count {
        layers[li + 1].attn_norm.ptr
    } else {
        c.final_norm
    }
}

fn norm_weights_of(w: &LayerWeights) -> (r: (u64, u64))
    ensures
        r == norm_weights(*w),
{
    if let Some(qn) = w.q_norm {
        if let Some(kn) = w.k_norm {
            return (qn.ptr, kn.ptr);
        }
    }
    (0, 0)
}

impl FusedDecodeKernels {
    /// The second phase of the projections of a layer.
    pub fn qkv(&self, c: &StepCtx, n: &StepNums, w: &LayerWeights, pos: u32) -> (l: Launch)
        requires
            self.dev == c.on.dev,
            *n == c.nums_of(),
        ensures
            l@ == f_p2_qkv(*c, self.geom, *w, pos),
    {
        let g = self.geom();
        let (wq, wk) = norm_weights_of(w);
        let hn: u32 = if c.cfg.head_norm {
            1
        } else {
            0
        };
        self.launch_p2_qkv(
            &c.on.stream,
            g.pq,
            g.pk,
            g.pv,
            c.b.q.ptr,
            c.b.k.ptr,
            c.b.v.ptr,
            wq,
            wk,
            n.nqk,
            n.kvk,
            n.kvk,
            g.nslabs_q,
            g.nslabs_k,
            g.nslabs_v,
            n.d,
            n.half,
            pos,
            c.cfg.rope_theta,
            c.cfg.q_scale,
            F32_ONE,
            c.cfg.rms_eps,
            hn,
            g.grid_qkv_p2,
        )
    }

    /// The second phase of the attention output of a layer.
    pub fn attn_out(&self, c: &StepCtx, n: &StepNums, w: &LayerWeights) -> (l: Launch)
        requires
            self.dev == c.on.dev,
            *n == c.nums_of(),
        ensures
            l@ == f_p2_o(*c, self.geom, *w),
    {
        let g = self.geom();
        self.launch_p2_add_rms(
            &c.on.stream,
            g.po,
            c.b.x.ptr,
            c.b.xn.ptr,
            w.ffn_norm.ptr,
            n.h,
            g.nslabs_o,
            c.cfg.rms_eps,
        )
    }

    /// The second phase of the feed-forward output of a layer.
    pub fn down(&self, c: &StepCtx, n: &StepNums, layers: &Vec<LayerWeights>, li: usize) -> (l: Launch)
        requires
            self.dev == c.on.dev,
            *n == c.nums_of(),
            li < layers@.len(),
        ensures
            l@ == f_p2_down(*c, self.geom, layers@, li as int),
    {
        let g = self.geom();
        self.launch_p2_add_rms(
            &c.on.stream,
            g.pd,
            c.b.x.ptr,
            c.b.xn.ptr,
            next_norm_of(c, layers, li),
            n.h,
            g.nslabs_d,
            c.cfg.rms_eps,
        )
    }
}

impl LayerFusedKernels {
    /// The launch of a layer of the step.
    pub fn layer(
        &self,
        c: &StepCtx,
        g: &FusedGeom,
        layers: &Vec<LayerWeights>,
        li: usize,
        pos: u32,
        token: u32,
    ) -> (l: Launch)
        requires
            self.dev == c.on.dev,
            geom_fits(*g, *c),
            layers@.len() == c.cfg.n_layer,
            layers@.len() <= u32::MAX,
            li < layers@.len(),
        ensures
            l@ == lf_layer(*c, *g, *self, layers@, li as int, pos, token),
    {
        let (wq, wk) = norm_weights_of(&layers[li]);
        self.launch(
            &c.on.stream,
            plan_table(g, c, li, 0),
            next_norm_of(c, layers, li),
            layers[li].ffn_norm.ptr,
            wq,
            wk,
            li as u32,
            layers.len() as u32,
            pos,
            token,
        )
    }
}

fn push_fused_attn(
    p: &mut Program,
    c: &StepCtx,
    k: &StepKernels,
    f: &FusedDecodeKernels,
    n: &StepNums,
    w: &LayerWeights,
    li: usize,
    pos: usize,
    detail: bool,
) -> (r: Result<(), LaunchError>)
    requires
        c.wf(),
        k.launch_on(*c),
        f.dev == c.on.dev,
        geom_fits(f.geom, *c),
        *n == c.nums_of(),
        (n.d + n.max_kv) * 4 <= u32::MAX,
        li < c.cfg.n_layer,
        c.takes_pos(pos),
    ensures
        r is Ok <==> flash_fits(n.d, n.max_kv),
        r is Ok ==> final(p)@ == fused_attn_ops(
            old(p)@,
            *c,
            f.geom,
            *w,
            li as int,
            pos,
            detail,
        ),
        r is Err ==> r->Err_0 == LaunchError::Fatal,
{
    let g = f.geom();
    let st = &c.on.stream;
    p.read_back(detail, Anchor::X);
    p.read_back(detail, Anchor::Xn);
    p.start(SEG_QKV);
    p.run(f.launch_p1(st, plan_table(g, c, li, 0), 3, g.grid_qkv[li]), SEG_QKV);
    p.run(f.qkv(c, n, w, pos as u32), SEG_QKV);
    p.end(SEG_QKV);
    p.read_back(detail, Anchor::Q);
    p.start(SEG_ATTN);
    let flash = k.decode.launch_decode_step_gqa_flash_fused(
        c.on.dev,
        c.b.q.ptr,
        c.layer_pages(li),
        c.kv,
        c.b.lens.ptr,
        c.b.attn.ptr,
        1,
        n.q_heads,
        n.d,
        BLOCK_LEN as u32,
        n.ratio,
        n.kv_heads,
        n.max_kv,
        n.total_pages,
        1,
        c.b.k.ptr,
        c.b.v.ptr,
    );
    match flash {
        Ok(l) => {
            p.run(l, SEG_ATTN);
        },
        Err(e) => {
            return Err(e);
        },
    }
    p.end(SEG_ATTN);
    p.read_back(detail, Anchor::Attn);
    Ok(())
}

fn push_fused_ffn(
    p: &mut Program,
    c: &StepCtx,
    f: &FusedDecodeKernels,
    n: &StepNums,
    layers: &Vec<LayerWeights>,
    li: usize,
    m: StepMode,
)
    requires
        f.dev == c.on.dev,
        geom_fits(f.geom, *c),
        *n == c.nums_of(),
        layers@.len() == c.cfg.n_layer,
        li < c.cfg.n_layer,
    ensures
        final(p)@ == fused_ffn_ops(old(p)@, *c, f.geom, layers@, li as int, m),
{
    let g = f.geom();
    let st = &c.on.stream;
    p.start(SEG_O);
    p.run(f.launch_p1(st, plan_table(g, c, li, 3), 1, g.grid_o[li]), SEG_O);
    p.push_detail(m.detail);
    p.start(SEG_O);
    p.run(f.attn_out(c, n, &layers[li]), SEG_O);
    p.end(SEG_O);
    p.start(SEG_FFN_GU);
    p.run(f.launch_p1(st, plan_table(g, c, li, 4), 2, g.grid_gu[li]), SEG_FFN_GU);
    p.end(SEG_FFN_GU);
    p.start(SEG_FFN_D);
    p.run(f.launch_p2_gu_d(st, plan_table(g, c, li, 4), g.grid_gu_p2), SEG_FFN_D);
    p.end(SEG_FFN_D);
    p.start(SEG_FFN_RMS);
    p.run(f.down(c, n, layers, li), SEG_FFN_RMS);
    p.end(SEG_FFN_RMS);
    p.trace_row(m.trace);
}

fn push_head(p: &mut Program, c: &StepCtx, f: &FusedDecodeKernels, n: &StepNums)
    requires
        f.dev == c.on.dev,
        *n == c.nums_of(),
    ensures
        final(p)@ == fused_head_ops(old(p)@, *c, f.geom),
{
    let g = f.geom();
    let st = &c.on.stream;
    p.start(SEG_LM_HEAD);
    p.run(f.launch_p1(st, g.lm_table, 1, g.grid_lm), SEG_LM_HEAD);
    p.run(f.launch_reduce(st, g.plm, c.b.logits.ptr, n.vocab, 1, g.grid_lm), SEG_LM_HEAD);
    p.end(SEG_LM_HEAD);
    p.close();
}

/// The fused decode step.  It is refused as a whole, before anything is
/// launched, where its attention kernel would be over its budget.
pub fn step_decode_launches_fused(
    c: &StepCtx,
    k: &StepKernels,
    f: &FusedDecodeKernels,
    layers: &Vec<LayerWeights>,
    token: u32,
    pos: usize,
    kv_len: usize,
    m: StepMode,
) -> (r: Result<Program, LaunchError>)
    requires
        c.wf(),
        k.launch_on(*c),
        f.dev == c.on.dev,
        geom_fits(f.geom, *c),
        layers@.len() == c.cfg.n_layer,
        c.takes_pos(pos),
    ensures
        r is Ok <==> flash_fits(c.nums_of().d, c.nums_of().max_kv),
        r is Ok ==> r->Ok_0@ == fused_ops(*c, f.geom, layers@, token, pos, kv_len, m),
        r is Err ==> r->Err_0 == LaunchError::Fatal,
{
    let n = c.nums();
    let mut p = Program::new();
    p.begin();
    p.run(k.gather(c, &n, token), SEG_SMALL);
    p.run(k.rms(c, &n, layers[0].attn_norm.ptr), SEG_SMALL);
    p.end(SEG_SMALL);
    p.upload_lens(kv_len);
    let ghost s0 = p@;
    let mut li: usize = 0;
    while li < layers.len()
        invariant
            li <= layers.len(),
            c.wf(),
            k.launch_on(*c),
            f.dev == c.on.dev,
            geom_fits(f.geom, *c),
            n == c.nums_of(),
            (n.d + n.max_kv) * 4 <= u32::MAX,
            layers@.len() == c.cfg.n_layer,
            c.takes_pos(pos),
            li > 0 ==> flash_fits(n.d, n.max_kv),
            p@ == fused_layers_ops(s0, *c, f.geom, layers@, li as nat, pos, m),
        decreases layers.len() - li,
    {
        match push_fused_attn(&mut p, c, k, f, &n, &layers[li], li, pos, m.detail) {
            Ok(_) => {},
            Err(e) => {
                return Err(e);
            },
        }
        push_fused_ffn(&mut p, c, f, &n, layers, li, m);
        li = li + 1;
    }
    push_head(&mut p, c, f, &n);
    Ok(p)
}

/// The decode step of one launch per layer.
pub fn step_decode_launches_layer_fused(
    c: &StepCtx,
    f: &FusedDecodeKernels,
    lf: &LayerFusedKernels,
    layers: &Vec<LayerWeights>,
    token: u32,
    pos: usize,
    kv_len: usize,
    trace: bool,
) -> (p: Program)
    requires
        c.wf(),
        f.dev == c.on.dev,
        lf.dev == c.on.dev,
        geom_fits(f.geom, *c),
        layers@.len() == c.cfg.n_layer,
        layers@.len() <= u32::MAX,
        c.takes_pos(pos),
    ensures
        p@ == layer_fused_ops(*c, f.geom, *lf, layers@, token, pos, kv_len, trace),
{
    let n = c.nums();
    let mut p = Program::new();
    p.begin();
    p.upload_lens(kv_len);
    let ghost s0 = p@;
    let mut li: usize = 0;
    while li < layers.len()
        invariant
            li <= layers.len(),
            lf.dev == c.on.dev,
            geom_fits(f.geom, *c),
            layers@.len() == c.cfg.n_layer,
            layers@.len() <= u32::MAX,
            c.takes_pos(pos),
            p@ == lf_layers_ops(s0, *c, f.geom, *lf, layers@, li as nat, pos, token, trace),
        decreases layers.len() - li,
    {
        p.run(lf.layer(c, f.geom(), layers, li, pos as u32, token), SEG_LAYER);
        p.trace_row(trace);
        li = li + 1;
    }
    push_head(&mut p, c, f, &n);
    p.push(StepOp::FoldStages);
    p
}

} // verus!
