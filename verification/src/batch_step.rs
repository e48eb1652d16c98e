//! The merged step of a batch: one row per request.

use vstd::prelude::*;

use crate::batch::{BatchPool, BatchReq};
use crate::batch_kernels::{kv_write_batch, rope_batch, BatchDecodeKernels};
use crate::buffer::{DeviceBuffer, HostBuffer};
use crate::decode::{self, flash_fits};
use crate::dense;
use crate::diff;
use crate::float_bits::F32_ONE;
use crate::gemm::{
    gemv_batch_phase1, gemv_batch_phase2, gemv_phase1, gemv_phase2, lemma_shape, row_major,
    shape_cols, shape_slabs,
    DataType,
};
use crate::launch::{Launch, LaunchV, Queue};
use crate::math::wide_product;
use crate::model::{LayerWeights, LlamaConfig, BLOCK_LEN};
use crate::prefill_kernels::{gather_rows, rms_rows, PrefillKernels};
use crate::step::{lemma_layer_page, StepCtx, StepKernels, StepNums};

verus! {

/// Device and staging buffers of a batch of up to `cap` requests.
#[derive(Debug, Clone, Copy, PartialEq, Eq, Structural)]
pub struct BatchScratch {
    pub cap: usize,
    pub toks_hb: HostBuffer,
    pub lens_hb: HostBuffer,
    pub pos_hb: HostBuffer,
    pub pages_hb: HostBuffer,
    pub kv_ptrs_hb: HostBuffer,
    pub toks: DeviceBuffer,
    pub lens: DeviceBuffer,
    pub pos: DeviceBuffer,
    pub pages: DeviceBuffer,
    pub kv_ptrs: DeviceBuffer,
    pub x: DeviceBuffer,
    pub xn: DeviceBuffer,
    pub q: DeviceBuffer,
    pub k: DeviceBuffer,
    pub v: DeviceBuffer,
    pub attn: DeviceBuffer,
    pub oadd: DeviceBuffer,
    pub down: DeviceBuffer,
    pub c_q: DeviceBuffer,
    pub c_k: DeviceBuffer,
    pub c_v: DeviceBuffer,
    pub c_o: DeviceBuffer,
    pub c_g: DeviceBuffer,
    pub c_u: DeviceBuffer,
    pub c_d: DeviceBuffer,
    pub logits: DeviceBuffer,
    pub scores: DeviceBuffer,
    pub logits_hb: HostBuffer,
}

/// Sizes in bytes of the buffers of a batch; a staging buffer has the size of the buffer
/// that it is staged for.
#[derive(Debug, Clone, Copy, PartialEq, Eq, Structural)]
pub struct BatchSizes {
    /// Requests that the buffers hold.
    pub cap: usize,
    pub toks: usize,
    pub lens: usize,
    pub pos: usize,
    pub pages: usize,
    pub kv_ptrs: usize,
    pub x: usize,
    pub xn: usize,
    pub q: usize,
    pub k: usize,
    pub v: usize,
    pub attn: usize,
    pub oadd: usize,
    pub down: usize,
    pub c_q: usize,
    pub c_k: usize,
    pub c_v: usize,
    pub c_o: usize,
    pub c_g: usize,
    pub c_u: usize,
    pub c_d: usize,
    pub logits: usize,
    pub scores: usize,
}

/// The sizes of the buffers of `b` requests.
pub open spec fn sizes_of(cfg: LlamaConfig, pp: usize, b: usize) -> BatchSizes {
    BatchSizes {
        cap: b,
        toks: (b * 4) as usize,
        lens: (b * 4) as usize,
        pos: (b * 4) as usize,
        pages: (b * (cfg.n_layer * pp) * 4) as usize,
        kv_ptrs: (b * 8) as usize,
        x: (b * cfg.hidden_size * 2) as usize,
        xn: (b * cfg.hidden_size * 2) as usize,
        q: (b * cfg.nqk() * 2) as usize,
        k: (b * cfg.kvk() * 2) as usize,
        v: (b * cfg.kvk() * 2) as usize,
        attn: (b * cfg.nqk() * 2) as usize,
        oadd: (b * cfg.hidden_size * 2) as usize,
        down: (b * cfg.ffn_hidden * 2) as usize,
        c_q: (b * cfg.nqk() * 4) as usize,
        c_k: (b * cfg.kvk() * 4) as usize,
        c_v: (b * cfg.kvk() * 4) as usize,
        c_o: (b * cfg.hidden_size * 4) as usize,
        c_g: (b * cfg.ffn_hidden * 4) as usize,
        c_u: (b * cfg.ffn_hidden * 4) as usize,
        c_d: (b * cfg.hidden_size * 4) as usize,
        logits: (b * cfg.vocab_size * 4) as usize,
        scores: (cfg.q_heads * (pp * BLOCK_LEN) * 4) as usize,
    }
}

/// Whether the sizes of the buffers of `b` requests can be expressed.
pub open spec fn sizes_fit(cfg: LlamaConfig, pp: usize, b: usize) -> bool {
    &&& b * 8 <= usize::MAX
    &&& b * (cfg.n_layer * pp) * 4 <= usize::MAX
    &&& cfg.n_layer * pp <= usize::MAX
    &&& b * cfg.hidden_size * 4 <= usize::MAX
    &&& b * cfg.nqk() * 4 <= usize::MAX
    &&& b * cfg.kvk() * 4 <= usize::MAX
    &&& b * cfg.ffn_hidden * 4 <= usize::MAX
    &&& b * cfg.vocab_size * 4 <= usize::MAX
    &&& pp * BLOCK_LEN <= usize::MAX
    &&& cfg.q_heads * (pp * BLOCK_LEN) * 4 <= usize::MAX
}

/// Whether the sizes of the buffers of `b` requests can be expressed.
pub fn can_size(cfg: &LlamaConfig, pp: usize, b: usize) -> (r: bool)
    requires
        cfg.wf(),
    ensures
        r == sizes_fit(*cfg, pp, b),
{
    let w = cfg.widths();
    let max: u128 = usize::MAX as u128;
    let (entries, kv) = (wide_product(cfg.n_layer, pp), wide_product(pp, BLOCK_LEN));
    if entries > max || kv > max || b as u128 * 8 > max {
        return false;
    }
    wide_product(b, entries as usize) <= max / 4 && wide_product(b, w.h) <= max / 4
        && wide_product(b, w.nqk) <= max / 4 && wide_product(b, w.kvk) <= max / 4
        && wide_product(b, w.ffn) <= max / 4 && wide_product(b, w.vocab) <= max / 4
        && wide_product(cfg.q_heads, kv as usize) <= max / 4
}

proof fn lemma_product(a: int, b: int)
    requires
        a >= 0,
        b >= 0,
    ensures
        a * b >= 0,
{
    assert(a * b >= 0) by (nonlinear_arith)
        requires
            a >= 0,
            b >= 0,
    ;
}

/// What a batch keeps from step to step: its buffers, and the segments whose page
/// tables were uploaded last.
#[derive(Debug)]
pub struct BatchState {
    pub scratch: Option<BatchScratch>,
    pub pages_key: Option<Vec<(u64, u32)>>,
}

impl BatchState {
    pub fn new() -> (s: Self)
        ensures
            s.scratch is None,
            s.pages_key is None,
    {
        BatchState { scratch: None, pages_key: None }
    }

    /// Asks for buffers of `b` requests: the sizes of those to be allocated, or
    /// `None` where there are enough.  New buffers hold no page tables, so that
    /// the uploaded segments are forgotten first.
    pub fn batch_scratch_ensure(&mut self, cfg: &LlamaConfig, pp: usize, b: usize) -> (r: Option<
        BatchSizes,
    >)
        requires
            cfg.wf(),
            sizes_fit(*cfg, pp, b),
        ensures
            r is None <==> old(self).scratch is Some && old(self).scratch->0.cap >= b,
            r is None ==> *final(self) == *old(self),
            r is Some ==> r->0 == sizes_of(*cfg, pp, b),
            r is Some ==> final(self).scratch == old(self).scratch && final(self).pages_key is None,
    {
        match self.scratch {
            Some(sc) => {
                if sc.cap >= b {
                    return None;
                }
            },
            None => {},
        }
        self.pages_key = None;
        let w = cfg.widths();
        proof {
            lemma_product(b as int, cfg.n_layer * pp);
            lemma_product(cfg.n_layer as int, pp as int);
            lemma_product(b as int, cfg.hidden_size as int);
            lemma_product(b as int, cfg.nqk());
            lemma_product(b as int, cfg.kvk());
            lemma_product(b as int, cfg.ffn_hidden as int);
            lemma_product(b as int, cfg.vocab_size as int);
            lemma_product(cfg.q_heads as int, pp * BLOCK_LEN);
            lemma_product(cfg.q_heads as int, cfg.head_dim as int);
            lemma_product(cfg.kv_heads as int, cfg.head_dim as int);
        }
        let max_kv: usize = pp * BLOCK_LEN;
        let entries: usize = cfg.n_layer * pp;
        Some(
            BatchSizes {
                cap: b,
                toks: b * 4,
                lens: b * 4,
                pos: b * 4,
                pages: b * entries * 4,
                kv_ptrs: b * 8,
                x: b * w.h * 2,
                xn: b * w.h * 2,
                q: b * w.nqk * 2,
                k: b * w.kvk * 2,
                v: b * w.kvk * 2,
                attn: b * w.nqk * 2,
                oadd: b * w.h * 2,
                down: b * w.ffn * 2,
                c_q: b * w.nqk * 4,
                c_k: b * w.kvk * 4,
                c_v: b * w.kvk * 4,
                c_o: b * w.h * 4,
                c_g: b * w.ffn * 4,
                c_u: b * w.ffn * 4,
                c_d: b * w.h * 4,
                logits: b * w.vocab * 4,
                scores: cfg.q_heads * max_kv * 4,
            },
        )
    }

    /// Takes the buffers that were allocated.
    pub fn grown(&mut self, sc: BatchScratch)
        ensures
            final(self).scratch == Some(sc),
            final(self).pages_key == old(self).pages_key,
    {
        self.scratch = Some(sc);
    }

    /// Notes the segments whose page tables have been uploaded.
    pub fn uploaded(&mut self, key: Vec<(u64, u32)>)
        ensures
            final(self).scratch == old(self).scratch,
            final(self).pages_key == Some(key),
    {
        self.pages_key = Some(key);
    }
}

/// A projection of every row of a batch over one weight matrix.
#[derive(Debug, Clone, Copy, PartialEq, Eq, Structural)]
pub struct BatchGemm {
    pub a: u64,
    pub w: u64,
    pub m: usize,
    pub n: usize,
    pub k: usize,
    pub c: u64,
}

/// A mark of the batch trace.
#[derive(Debug, Clone, Copy, PartialEq, Eq, Structural)]
pub enum BatchMark {
    Stage,
    Embed,
    Qkv,
    Attn,
    Rest,
    Lm,
}

impl BatchMark {
    /// The label of the mark.
    pub fn label(&self) -> (s: &'static str)
        ensures
            s@ == match *self {
                BatchMark::Stage => "stage"@,
                BatchMark::Embed => "embed"@,
                BatchMark::Qkv => "qkv"@,
                BatchMark::Attn => "attn"@,
                BatchMark::Rest => "rest"@,
                BatchMark::Lm => "lm"@,
            },
    {
        match self {
            BatchMark::Stage => "stage",
            BatchMark::Embed => "embed",
            BatchMark::Qkv => "qkv",
            BatchMark::Attn => "attn",
            BatchMark::Rest => "rest",
            BatchMark::Lm => "lm",
        }
    }
}

/// An operation of a merged step.
#[derive(Debug)]
pub enum BatchOp {
    /// Launch a kernel; a failure ends the step.
    Launch(Launch),
    /// Run a projection by the kernels that serve it.
    Gemm(BatchGemm),
    /// Launch flash attention; where that fails, count a fallback and launch the
    /// others, one per request.
    Attn { flash: Launch, naive: Vec<Launch> },
    /// Flash attention is over its budget: count a fallback and launch these.
    FlashRefused(Vec<Launch>),
    /// Set a mark of the trace.
    Mark(BatchMark),
}

/// The mathematical value of an operation.
pub enum BatchOpV {
    Launch(LaunchV),
    Gemm(BatchGemm),
    Attn { flash: LaunchV, naive: Seq<LaunchV> },
    FlashRefused(Seq<LaunchV>),
    Mark(BatchMark),
}

pub open spec fn views(v: Seq<Launch>) -> Seq<LaunchV> {
    v.map_values(|l: Launch| l@)
}

impl View for BatchOp {
    type V = BatchOpV;

    open spec fn view(&self) -> BatchOpV {
        match self {
            BatchOp::Launch(l) => BatchOpV::Launch(l@),
            BatchOp::Gemm(g) => BatchOpV::Gemm(*g),
            BatchOp::Attn { flash, naive } => BatchOpV::Attn { flash: flash@, naive: views(naive@) },
            BatchOp::FlashRefused(n) => BatchOpV::FlashRefused(views(n@)),
            BatchOp::Mark(m) => BatchOpV::Mark(*m),
        }
    }
}

/// A sequence of operations.
#[derive(Debug)]
pub struct BatchProgram {
    pub ops: Vec<BatchOp>,
}

impl View for BatchProgram {
    type V = Seq<BatchOpV>;

    open spec fn view(&self) -> Seq<BatchOpV> {
        self.ops@.map_values(|o: BatchOp| o@)
    }
}

/// A launch, appended.
pub open spec fn brun(s: Seq<BatchOpV>, l: LaunchV) -> Seq<BatchOpV> {
    s.push(BatchOpV::Launch(l))
}

/// A projection, appended.
pub open spec fn bgemm(
    s: Seq<BatchOpV>,
    a: u64,
    w: u64,
    m: usize,
    n: int,
    k: int,
    c: u64,
) -> Seq<BatchOpV> {
    s.push(BatchOpV::Gemm(BatchGemm { a, w, m, n: n as usize, k: k as usize, c }))
}

/// A mark, appended.
pub open spec fn bmark(s: Seq<BatchOpV>, m: BatchMark) -> Seq<BatchOpV> {
    s.push(BatchOpV::Mark(m))
}

impl BatchProgram {
    pub fn new() -> (p: Self)
        ensures
            p@ == Seq::<BatchOpV>::empty(),
    {
        let p = BatchProgram { ops: Vec::new() };
        proof {
            assert(p@ =~= Seq::<BatchOpV>::empty());
        }
        p
    }

    /// Appends an operation.
    pub fn push(&mut self, op: BatchOp)
        ensures
            final(self)@ == old(self)@.push(op@),
    {
        let ghost before = self@;
        self.ops.push(op);
        proof {
            assert(self@ =~= before.push(op@));
        }
    }

    pub fn run(&mut self, l: Launch)
        ensures
            final(self)@ == brun(old(self)@, l@),
    {
        self.push(BatchOp::Launch(l));
    }

    pub fn gemm(&mut self, a: u64, w: u64, m: usize, n: usize, k: usize, c: u64)
        ensures
            final(self)@ == bgemm(old(self)@, a, w, m, n as int, k as int, c),
    {
        self.push(BatchOp::Gemm(BatchGemm { a, w, m, n, k, c }));
    }

    pub fn mark(&mut self, m: BatchMark)
        ensures
            final(self)@ == bmark(old(self)@, m),
    {
        self.push(BatchOp::Mark(m));
    }
}

/// A batch of `b` requests over a context: what its launches are made of.
#[derive(Debug, Clone, Copy, PartialEq, Eq, Structural)]
pub struct BatchCtx {
    pub c: StepCtx,
    pub sc: BatchScratch,
    pub pool: BatchPool,
    pub b: usize,
}

impl BatchCtx {
    /// A batch whose extents the kernels' parameters can express, and whose rows
    /// lie within the address space.
    pub open spec fn wf(self) -> bool {
        let cfg = self.c.cfg;
        &&& self.c.wf()
        &&& self.b <= u32::MAX
        &&& self.b * cfg.hidden_size <= u32::MAX
        &&& self.b * cfg.nqk() <= u32::MAX
        &&& self.b * cfg.kvk() <= u32::MAX
        &&& self.b * cfg.ffn_hidden <= u32::MAX
        &&& cfg.n_layer <= u32::MAX
        &&& self.sc.q.ptr + self.b * cfg.nqk() * 2 <= u64::MAX
        &&& self.sc.attn.ptr + self.b * cfg.nqk() * 2 <= u64::MAX
        &&& self.sc.lens.ptr + self.b * 4 <= u64::MAX
        &&& self.sc.pages.ptr + self.b * self.c.pages() * 4 <= u64::MAX
    }

    pub open spec fn rows(self, w: u32) -> u32 {
        (self.b * w) as u32
    }

    /// Whether the kernels' parameters can express the batch.
    pub fn fits(&self) -> (r: bool)
        ensures
            r == self.wf(),
    {
        if !self.c.fits() {
            return false;
        }
        let w = self.c.cfg.widths();
        let (b, sc) = (self.b, &self.sc);
        if b as u64 > 0xffff_ffff || self.c.cfg.n_layer as u64 > 0xffff_ffff {
            return false;
        }
        let rows: u128 = wide_product(b, w.nqk);
        let pages: u128 = wide_product(self.c.cfg.n_layer, self.c.pp);
        if wide_product(b, w.h) > 0xffff_ffff || rows > 0xffff_ffff || wide_product(b, w.kvk)
            > 0xffff_ffff || wide_product(b, w.ffn) > 0xffff_ffff {
            return false;
        }
        let entries: u128 = wide_product(b, pages as usize);
        proof {
            lemma_product(self.b as int, self.c.pages());
        }
        sc.q.ptr as u128 + rows * 2 <= 0xffff_ffff_ffff_ffff && sc.attn.ptr as u128 + rows * 2
            <= 0xffff_ffff_ffff_ffff && sc.lens.ptr as u128 + b as u128 * 4
            <= 0xffff_ffff_ffff_ffff && entries <= 0xffff_ffff_ffff_ffff && sc.pages.ptr as u128
            + entries * 4 <= 0xffff_ffff_ffff_ffff
    }
}

pub open spec fn b_gather(x: BatchCtx) -> LaunchV {
    gather_rows(x.c.on, x.c.embed, x.sc.x.ptr, x.sc.toks.ptr, x.b as u32, x.c.nums_of().h)
}

/// RMSNorm of every residual row.
pub open spec fn b_rms(x: BatchCtx, w: u64) -> LaunchV {
    rms_rows(
        x.c.on,
        x.sc.x.ptr,
        x.sc.xn.ptr,
        w,
        x.b as u32,
        x.c.nums_of().h,
        x.c.cfg.rms_eps,
    )
}

pub open spec fn b_cast(x: BatchCtx, from: u64, to: u64, w: u32) -> LaunchV {
    diff::cast_f32_f16(x.c.on, from, to, x.rows(w))
}

/// Norm of every head of every row, in place.
pub open spec fn b_norm(x: BatchCtx, heads: u32, at: u64, w: u64) -> LaunchV {
    dense::rms_heads(x.c.on, at, at, w, x.rows(heads), x.c.nums_of().d, x.c.cfg.rms_eps)
}

pub open spec fn b_rope(x: BatchCtx, heads: u32, at: u64, scale: u32) -> LaunchV {
    rope_batch(
        x.c.on,
        at,
        x.sc.pos.ptr,
        x.b as u32,
        heads,
        x.c.nums_of().half,
        x.c.cfg.rope_theta,
        scale,
    )
}

pub open spec fn b_kv_write(x: BatchCtx, li: int) -> LaunchV {
    let n = x.c.nums_of();
    kv_write_batch(
        x.c.on,
        x.sc.k.ptr,
        x.sc.v.ptr,
        x.sc.kv_ptrs.ptr,
        x.sc.pages.ptr,
        x.sc.pos.ptr,
        x.b as u32,
        BLOCK_LEN as u32,
        n.kv_heads,
        n.d,
        x.pool.pages,
        x.c.cfg.n_layer as u32,
        li as u32,
        n.max_kv,
    )
}

pub open spec fn b_flash(x: BatchCtx, li: int) -> LaunchV {
    let n = x.c.nums_of();
    decode::step_flash_batch(
        x.c.on,
        x.sc.q.ptr,
        x.sc.pages.ptr,
        x.sc.kv_ptrs.ptr,
        x.sc.lens.ptr,
        x.sc.attn.ptr,
        x.b as u32,
        n.q_heads,
        n.d,
        BLOCK_LEN as u32,
        n.ratio,
        n.kv_heads,
        n.max_kv,
        x.pool.pages,
        x.c.cfg.n_layer as u32,
        li as u32,
        1,
    )
}

/// Attention of one request where flash attention cannot be had: its own rows,
/// length and table, and the pool that it lives in.
pub open spec fn b_naive(x: BatchCtx, reqs: Seq<BatchReq>, bi: int, li: int) -> LaunchV {
    let n = x.c.nums_of();
    decode::step_gqa(
        x.c.on,
        (x.sc.q.ptr + bi * x.c.cfg.nqk() * 2) as u64,
        (x.sc.pages.ptr + (bi * x.c.pages() + li * x.c.pp) * 4) as u64,
        if x.pool.shared {
            x.pool.kv
        } else {
            reqs[bi].kv.kv
        },
        (x.sc.lens.ptr + bi * 4) as u64,
        x.sc.scores.ptr,
        (x.sc.attn.ptr + bi * x.c.cfg.nqk() * 2) as u64,
        1,
        n.q_heads,
        n.d,
        BLOCK_LEN as u32,
        n.ratio,
        n.kv_heads,
        n.max_kv,
        x.pool.pages,
    )
}

pub open spec fn b_naives(x: BatchCtx, reqs: Seq<BatchReq>, li: int) -> Seq<LaunchV> {
    Seq::new(reqs.len(), |bi: int| b_naive(x, reqs, bi, li))
}

pub open spec fn b_add(x: BatchCtx) -> LaunchV {
    dense::add_rows(x.c.on, x.sc.x.ptr, x.sc.oadd.ptr, x.rows(x.c.nums_of().h))
}

pub open spec fn b_swiglu(x: BatchCtx) -> LaunchV {
    dense::cast_swiglu(
        x.c.on,
        x.sc.c_g.ptr,
        x.sc.c_u.ptr,
        x.sc.down.ptr,
        x.rows(x.c.nums_of().ffn),
    )
}

/// The norm and the three projections, each cast to `f16`.
pub open spec fn bqkv_ops(s: Seq<BatchOpV>, x: BatchCtx, w: LayerWeights) -> Seq<BatchOpV> {
    let (cfg, sc, n) = (x.c.cfg, x.sc, x.c.nums_of());
    let h = cfg.hidden_size as int;
    let s = brun(s, b_rms(x, w.attn_norm.ptr));
    let s = bgemm(s, sc.xn.ptr, w.q_proj.ptr, x.b, cfg.nqk(), h, sc.c_q.ptr);
    let s = brun(s, b_cast(x, sc.c_q.ptr, sc.q.ptr, n.nqk));
    let s = bgemm(s, sc.xn.ptr, w.k_proj.ptr, x.b, cfg.kvk(), h, sc.c_k.ptr);
    let s = brun(s, b_cast(x, sc.c_k.ptr, sc.k.ptr, n.kvk));
    let s = bgemm(s, sc.xn.ptr, w.v_proj.ptr, x.b, cfg.kvk(), h, sc.c_v.ptr);
    brun(s, b_cast(x, sc.c_v.ptr, sc.v.ptr, n.kvk))
}

/// Head norms where the model has them, and rotary embedding at each request's
/// own position.
pub open spec fn brope_ops(s: Seq<BatchOpV>, x: BatchCtx, w: LayerWeights) -> Seq<BatchOpV> {
    let n = x.c.nums_of();
    let s = match (w.q_norm, w.k_norm) {
        (Some(qn), Some(kn)) => brun(
            brun(s, b_norm(x, n.q_heads, x.sc.q.ptr, qn.ptr)),
            b_norm(x, n.kv_heads, x.sc.k.ptr, kn.ptr),
        ),
        _ => s,
    };
    let s = brun(s, b_rope(x, n.q_heads, x.sc.q.ptr, x.c.cfg.q_scale));
    bmark(brun(s, b_rope(x, n.kv_heads, x.sc.k.ptr, F32_ONE)), BatchMark::Qkv)
}

/// The write of the cache slots, and attention of the whole batch.
pub open spec fn battn_ops(
    s: Seq<BatchOpV>,
    x: BatchCtx,
    reqs: Seq<BatchReq>,
    li: int,
) -> Seq<BatchOpV> {
    let n = x.c.nums_of();
    let s = brun(s, b_kv_write(x, li));
    let op = if flash_fits(n.d, n.max_kv) {
        BatchOpV::Attn { flash: b_flash(x, li), naive: b_naives(x, reqs, li) }
    } else {
        BatchOpV::FlashRefused(b_naives(x, reqs, li))
    };
    bmark(s.push(op), BatchMark::Attn)
}

/// The attention output and the feed-forward half.
pub open spec fn bffn_ops(s: Seq<BatchOpV>, x: BatchCtx, w: LayerWeights) -> Seq<BatchOpV> {
    let (cfg, sc, n) = (x.c.cfg, x.sc, x.c.nums_of());
    let (h, ffn) = (cfg.hidden_size as int, cfg.ffn_hidden as int);
    let s = bgemm(s, sc.attn.ptr, w.o_proj.ptr, x.b, h, cfg.nqk(), sc.c_o.ptr);
    let s = brun(s, b_cast(x, sc.c_o.ptr, sc.oadd.ptr, n.h));
    let s = brun(s, b_add(x));
    let s = brun(s, b_rms(x, w.ffn_norm.ptr));
    let s = bgemm(s, sc.xn.ptr, w.gate_proj.ptr, x.b, ffn, h, sc.c_g.ptr);
    let s = bgemm(s, sc.xn.ptr, w.up_proj.ptr, x.b, ffn, h, sc.c_u.ptr);
    let s = brun(s, b_swiglu(x));
    let s = bgemm(s, sc.down.ptr, w.down_proj.ptr, x.b, h, ffn, sc.c_d.ptr);
    let s = brun(s, b_cast(x, sc.c_d.ptr, sc.oadd.ptr, n.h));
    bmark(brun(s, b_add(x)), BatchMark::Rest)
}

/// The first `n` layers.
pub open spec fn blayers_ops(
    s: Seq<BatchOpV>,
    x: BatchCtx,
    reqs: Seq<BatchReq>,
    layers: Seq<LayerWeights>,
    n: nat,
) -> Seq<BatchOpV>
    decreases n,
{
    if n == 0 {
        s
    } else {
        let s = blayers_ops(s, x, reqs, layers, (n - 1) as nat);
        let s = brope_ops(bqkv_ops(s, x, layers[n - 1]), x, layers[n - 1]);
        bffn_ops(battn_ops(s, x, reqs, n - 1), x, layers[n - 1])
    }
}

/// The whole merged step, from the staged inputs to the logits on the device.
pub open spec fn batch_ops(
    x: BatchCtx,
    reqs: Seq<BatchReq>,
    layers: Seq<LayerWeights>,
    lm_head: u64,
) -> Seq<BatchOpV> {
    let s = bmark(Seq::empty(), BatchMark::Stage);
    let s = bmark(brun(s, b_gather(x)), BatchMark::Embed);
    let s = blayers_ops(s, x, reqs, layers, layers.len());
    let s = brun(bmark(s, BatchMark::Lm), b_rms(x, x.c.final_norm));
    bgemm(
        s,
        x.sc.xn.ptr,
        lm_head,
        x.b,
        x.c.cfg.vocab_size as int,
        x.c.cfg.hidden_size as int,
        x.sc.logits.ptr,
    )
}

/// The loaded kernels of a merged step.
#[derive(Debug)]
pub struct BatchKernels<'a> {
    pub step: &'a StepKernels,
    pub rows: &'a PrefillKernels,
    pub batch: &'a BatchDecodeKernels,
}

/// The extents of a batch as kernel parameters.
#[derive(Debug, Clone, Copy, PartialEq, Eq, Structural)]
pub struct BatchNums {
    pub n: StepNums,
    pub b: u32,
    pub h: u32,
    pub nqk: u32,
    pub kvk: u32,
    pub ffn: u32,
    pub q_heads: u32,
    pub kv_heads: u32,
}

impl BatchCtx {
    pub open spec fn nums_of(self) -> BatchNums {
        let n = self.c.nums_of();
        BatchNums {
            n,
            b: self.b as u32,
            h: self.rows(n.h),
            nqk: self.rows(n.nqk),
            kvk: self.rows(n.kvk),
            ffn: self.rows(n.ffn),
            q_heads: self.rows(n.q_heads),
            kv_heads: self.rows(n.kv_heads),
        }
    }

    /// The extents of the batch as kernel parameters.
    pub fn nums(&self) -> (r: BatchNums)
        requires
            self.wf(),
        ensures
            r == self.nums_of(),
            self.b * r.n.q_heads <= u32::MAX,
            self.b * r.n.kv_heads <= u32::MAX,
            (r.n.d + r.n.max_kv) * 4 <= u32::MAX,
    {
        let n = self.c.nums();
        let b: u32 = self.b as u32;
        proof {
            self.c.cfg.lemma_heads();
            lemma_rows(self.b as int, n.q_heads as int, n.nqk as int);
            lemma_rows(self.b as int, n.kv_heads as int, n.kvk as int);
        }
        BatchNums {
            n,
            b,
            h: b * n.h,
            nqk: b * n.nqk,
            kvk: b * n.kvk,
            ffn: b * n.ffn,
            q_heads: b * n.q_heads,
            kv_heads: b * n.kv_heads,
        }
    }
}

proof fn lemma_rows(b: int, x: int, y: int)
    requires
        b >= 0,
        x <= y,
    ensures
        b * x <= b * y,
{
    assert(b * x <= b * y) by (nonlinear_arith)
        requires
            b >= 0,
            x <= y,
    ;
}

fn bpush_qkv(p: &mut BatchProgram, x: &BatchCtx, k: &BatchKernels, m: &BatchNums, w: &LayerWeights)
    requires
        x.wf(),
        *m == x.nums_of(),
    ensures
        final(p)@ == bqkv_ops(old(p)@, *x, *w),
{
    let (dev, st, sc) = (x.c.on.dev, &x.c.on.stream, &x.sc);
    let d = x.c.cfg.widths();
    let (xn, b, h) = (sc.xn.ptr, x.b, d.h);
    p.run(k.rms(x, m, w.attn_norm.ptr));
    p.gemm(xn, w.q_proj.ptr, b, d.nqk, h, sc.c_q.ptr);
    p.run(k.step.diff.launch_cast_f32_f16(dev, st, sc.c_q.ptr, sc.q.ptr, m.nqk));
    p.gemm(xn, w.k_proj.ptr, b, d.kvk, h, sc.c_k.ptr);
    p.run(k.step.diff.launch_cast_f32_f16(dev, st, sc.c_k.ptr, sc.k.ptr, m.kvk));
    p.gemm(xn, w.v_proj.ptr, b, d.kvk, h, sc.c_v.ptr);
    p.run(k.step.diff.launch_cast_f32_f16(dev, st, sc.c_v.ptr, sc.v.ptr, m.kvk));
}

impl<'a> BatchKernels<'a> {
    fn rms(&self, x: &BatchCtx, m: &BatchNums, w: u64) -> (l: Launch)
        requires
            *m == x.nums_of(),
        ensures
            l@ == b_rms(*x, w),
    {
        let (dev, st, sc) = (x.c.on.dev, &x.c.on.stream, &x.sc);
        self.rows.launch_rms_norm_rows(dev, st, sc.x.ptr, sc.xn.ptr, w, m.b, m.n.h, x.c.cfg.rms_eps)
    }

    fn rope(&self, x: &BatchCtx, m: &BatchNums, heads: u32, at: u64, scale: u32) -> (l: Launch)
        requires
            *m == x.nums_of(),
            x.b <= u32::MAX,
            x.b * heads <= u32::MAX,
        ensures
            l@ == b_rope(*x, heads, at, scale),
    {
        self.batch.launch_rope_batch(
            x.c.on.dev,
            &x.c.on.stream,
            at,
            x.sc.pos.ptr,
            m.b,
            heads,
            m.n.half,
            x.c.cfg.rope_theta,
            scale,
        )
    }

    fn add(&self, x: &BatchCtx, m: &BatchNums) -> (l: Launch)
        requires
            *m == x.nums_of(),
        ensures
            l@ == b_add(*x),
    {
        let st = &x.c.on.stream;
        self.step.dense.launch_add(x.c.on.dev, st, x.sc.x.ptr, x.sc.oadd.ptr, m.h)
    }
}

fn bpush_rope(p: &mut BatchProgram, x: &BatchCtx, k: &BatchKernels, m: &BatchNums, w: &LayerWeights)
    requires
        x.wf(),
        *m == x.nums_of(),
        x.b * m.n.q_heads <= u32::MAX,
        x.b * m.n.kv_heads <= u32::MAX,
    ensures
        final(p)@ == brope_ops(old(p)@, *x, *w),
{
    let (dev, st, q, kk) = (x.c.on.dev, &x.c.on.stream, x.sc.q.ptr, x.sc.k.ptr);
    let eps: u32 = x.c.cfg.rms_eps;
    if let Some(qn) = w.q_norm {
        if let Some(kn) = w.k_norm {
            let d: u32 = m.n.d;
            p.run(k.step.dense.launch_rms_heads(dev, st, q, q, qn.ptr, m.q_heads, d, eps));
            p.run(k.step.dense.launch_rms_heads(dev, st, kk, kk, kn.ptr, m.kv_heads, d, eps));
        }
    }
    p.run(k.rope(x, m, m.n.q_heads, q, x.c.cfg.q_scale));
    p.run(k.rope(x, m, m.n.kv_heads, kk, F32_ONE));
    p.mark(BatchMark::Qkv);
}

proof fn lemma_row_addresses(x: BatchCtx, bi: int, li: int)
    requires
        x.wf(),
        0 <= bi < x.b,
        0 <= li < x.c.cfg.n_layer,
    ensures
        0 <= bi * x.c.cfg.nqk() * 2,
        x.sc.q.ptr + bi * x.c.cfg.nqk() * 2 <= u64::MAX,
        x.sc.attn.ptr + bi * x.c.cfg.nqk() * 2 <= u64::MAX,
        0 <= bi * x.c.pages(),
        0 <= li * x.c.pp,
        bi * x.c.pages() + li * x.c.pp <= x.b * x.c.pages(),
        x.sc.pages.ptr + (bi * x.c.pages() + li * x.c.pp) * 4 <= u64::MAX,
        x.sc.lens.ptr + bi * 4 <= u64::MAX,
{
    let (b, w, g) = (x.b as int, x.c.cfg.nqk(), x.c.pages());
    x.c.cfg.lemma_heads();
    lemma_layer_page(x.c, li);
    assert(0 <= bi * w <= b * w) by (nonlinear_arith)
        requires
            0 <= bi <= b,
            w >= 0,
    ;
    assert(0 <= bi * g && bi * g + g <= b * g) by (nonlinear_arith)
        requires
            0 <= bi,
            bi + 1 <= b,
            g >= 0,
    ;
}

fn naive_row(
    x: &BatchCtx,
    k: &BatchKernels,
    m: &BatchNums,
    reqs: &Vec<BatchReq>,
    bi: usize,
    li: usize,
) -> (l: Launch)
    requires
        x.wf(),
        k.step.launch_on(x.c),
        *m == x.nums_of(),
        reqs@.len() == x.b,
        bi < x.b,
        li < x.c.cfg.n_layer,
    ensures
        l@ == b_naive(*x, reqs@, bi as int, li as int),
{
    proof {
        lemma_row_addresses(*x, bi as int, li as int);
        lemma_product(x.c.cfg.n_layer as int, x.c.pp as int);
    }
    let sc = &x.sc;
    let row: u64 = bi as u64 * x.c.cfg.widths().nqk as u64 * 2;
    let pages: u64 = x.c.cfg.n_layer as u64 * x.c.pp as u64;
    let entry: u64 = bi as u64 * pages + li as u64 * x.c.pp as u64;
    let kv: u64 = if x.pool.shared {
        x.pool.kv
    } else {
        reqs[bi].kv.kv
    };
    k.step.decode.launch_decode_step_gqa(
        x.c.on.dev,
        sc.q.ptr + row,
        sc.pages.ptr + entry * 4,
        kv,
        sc.lens.ptr + bi as u64 * 4,
        sc.scores.ptr,
        sc.attn.ptr + row,
        1,
        m.n.q_heads,
        m.n.d,
        BLOCK_LEN as u32,
        m.n.ratio,
        m.n.kv_heads,
        m.n.max_kv,
        x.pool.pages,
    )
}

fn naive_rows(
    x: &BatchCtx,
    k: &BatchKernels,
    m: &BatchNums,
    reqs: &Vec<BatchReq>,
    li: usize,
) -> (v: Vec<Launch>)
    requires
        x.wf(),
        k.step.launch_on(x.c),
        *m == x.nums_of(),
        reqs@.len() == x.b,
        li < x.c.cfg.n_layer,
    ensures
        views(v@) == b_naives(*x, reqs@, li as int),
{
    let mut out: Vec<Launch> = Vec::new();
    let mut bi: usize = 0;
    while bi < reqs.len()
        invariant
            bi <= reqs.len(),
            x.wf(),
            k.step.launch_on(x.c),
            *m == x.nums_of(),
            reqs@.len() == x.b,
            li < x.c.cfg.n_layer,
            out@.len() == bi,
            forall|j: int|
                0 <= j < bi ==> (#[trigger] out@[j])@ == b_naive(*x, reqs@, j, li as int),
        decreases reqs.len() - bi,
    {
        out.push(naive_row(x, k, m, reqs, bi, li));
        bi = bi + 1;
    }
    proof {
        assert(views(out@) =~= b_naives(*x, reqs@, li as int));
    }
    out
}

fn bpush_attn(
    p: &mut BatchProgram,
    x: &BatchCtx,
    k: &BatchKernels,
    m: &BatchNums,
    reqs: &Vec<BatchReq>,
    li: usize,
)
    requires
        x.wf(),
        k.step.launch_on(x.c),
        *m == x.nums_of(),
        x.b * m.n.q_heads <= u32::MAX,
        (m.n.d + m.n.max_kv) * 4 <= u32::MAX,
        reqs@.len() == x.b,
        li < x.c.cfg.n_layer,
    ensures
        final(p)@ == battn_ops(old(p)@, *x, reqs@, li as int),
{
    let (dev, st, sc) = (x.c.on.dev, &x.c.on.stream, &x.sc);
    let n = &m.n;
    let layers: u32 = x.c.cfg.n_layer as u32;
    p.run(
        k.batch.launch_kv_write_batch(
            dev,
            st,
            sc.k.ptr,
            sc.v.ptr,
            sc.kv_ptrs.ptr,
            sc.pages.ptr,
            sc.pos.ptr,
            m.b,
            BLOCK_LEN as u32,
            n.kv_heads,
            n.d,
            x.pool.pages,
            layers,
            li as u32,
            n.max_kv,
        ),
    );
    let flash = k.step.decode.launch_decode_step_gqa_flash_batch(
        dev,
        sc.q.ptr,
        sc.pages.ptr,
        sc.kv_ptrs.ptr,
        sc.lens.ptr,
        sc.attn.ptr,
        m.b,
        n.q_heads,
        n.d,
        BLOCK_LEN as u32,
        n.ratio,
        n.kv_heads,
        n.max_kv,
        x.pool.pages,
        layers,
        li as u32,
        1,
    );
    let naive = naive_rows(x, k, m, reqs, li);
    match flash {
        Ok(l) => {
            p.push(BatchOp::Attn { flash: l, naive });
        },
        Err(_) => {
            p.push(BatchOp::FlashRefused(naive));
        },
    }
    p.mark(BatchMark::Attn);
}

fn bpush_ffn(p: &mut BatchProgram, x: &BatchCtx, k: &BatchKernels, m: &BatchNums, w: &LayerWeights)
    requires
        x.wf(),
        *m == x.nums_of(),
    ensures
        final(p)@ == bffn_ops(old(p)@, *x, *w),
{
    let (dev, st, sc) = (x.c.on.dev, &x.c.on.stream, &x.sc);
    let d = x.c.cfg.widths();
    let (b, h, ffn) = (x.b, d.h, d.ffn);
    p.gemm(sc.attn.ptr, w.o_proj.ptr, b, h, d.nqk, sc.c_o.ptr);
    p.run(k.step.diff.launch_cast_f32_f16(dev, st, sc.c_o.ptr, sc.oadd.ptr, m.h));
    p.run(k.add(x, m));
    p.run(k.rms(x, m, w.ffn_norm.ptr));
    p.gemm(sc.xn.ptr, w.gate_proj.ptr, b, ffn, h, sc.c_g.ptr);
    p.gemm(sc.xn.ptr, w.up_proj.ptr, b, ffn, h, sc.c_u.ptr);
    let (g, u, down) = (sc.c_g.ptr, sc.c_u.ptr, sc.down.ptr);
    p.run(k.step.dense.launch_fused_cast_swiglu(dev, st, g, u, down, m.ffn));
    p.gemm(sc.down.ptr, w.down_proj.ptr, b, h, ffn, sc.c_d.ptr);
    p.run(k.step.diff.launch_cast_f32_f16(dev, st, sc.c_d.ptr, sc.oadd.ptr, m.h));
    p.run(k.add(x, m));
    p.mark(BatchMark::Rest);
}

/// The merged step of a batch, from the staged inputs to the logits on the device.
pub fn batch_step_impl(
    x: &BatchCtx,
    k: &BatchKernels,
    reqs: &Vec<BatchReq>,
    layers: &Vec<LayerWeights>,
    lm_head: u64,
) -> (p: BatchProgram)
    requires
        x.wf(),
        k.step.launch_on(x.c),
        reqs@.len() == x.b,
        layers@.len() == x.c.cfg.n_layer,
    ensures
        p@ == batch_ops(*x, reqs@, layers@, lm_head),
{
    let m = x.nums();
    let (dev, st) = (x.c.on.dev, &x.c.on.stream);
    let mut p = BatchProgram::new();
    p.mark(BatchMark::Stage);
    p.run(
        k.rows.launch_gather_rows(dev, st, x.c.embed, x.sc.x.ptr, x.sc.toks.ptr, m.b, m.n.h),
    );
    p.mark(BatchMark::Embed);
    let ghost s0 = p@;
    let mut li: usize = 0;
    while li < layers.len()
        invariant
            li <= layers.len(),
            x.wf(),
            k.step.launch_on(x.c),
            m == x.nums_of(),
            x.b * m.n.q_heads <= u32::MAX,
            x.b * m.n.kv_heads <= u32::MAX,
            (m.n.d + m.n.max_kv) * 4 <= u32::MAX,
            reqs@.len() == x.b,
            layers@.len() == x.c.cfg.n_layer,
            p@ == blayers_ops(s0, *x, reqs@, layers@, li as nat),
        decreases layers.len() - li,
    {
        let w = &layers[li];
        bpush_qkv(&mut p, x, k, &m, w);
        bpush_rope(&mut p, x, k, &m, w);
        bpush_attn(&mut p, x, k, &m, reqs, li);
        bpush_ffn(&mut p, x, k, &m, w);
        li = li + 1;
    }
    p.mark(BatchMark::Lm);
    p.run(k.rms(x, &m, x.c.final_norm));
    let d = x.c.cfg.widths();
    p.gemm(x.sc.xn.ptr, lm_head, x.b, d.vocab, d.h, x.sc.logits.ptr);
    p
}

/// The logits row of each request, of rows that were read back one after the
/// other.
pub fn split_rows(flat: &Vec<u32>, vocab: usize, b: usize) -> (rows: Vec<Vec<u32>>)
    requires
        b * vocab == flat@.len(),
    ensures
        rows@.len() == b,
        forall|i: int|
            0 <= i < b ==> (#[trigger] rows@[i])@ == flat@.subrange(i * vocab, (i + 1) * vocab),
{
    let mut out: Vec<Vec<u32>> = Vec::new();
    let mut i: usize = 0;
    while i < b
        invariant
            i <= b,
            b * vocab == flat@.len(),
            out@.len() == i,
            forall|j: int|
                0 <= j < i ==> (#[trigger] out@[j])@ == flat@.subrange(j * vocab, (j + 1) * vocab),
        decreases b - i,
    {
        let total: usize = flat.len();
        proof {
            let (k, v, n) = (i as int, vocab as int, b as int);
            assert(0 <= k * v && k * v + v == (k + 1) * v && (k + 1) * v <= n * v)
                by (nonlinear_arith)
                requires
                    0 <= k,
                    k + 1 <= n,
                    v >= 0,
            ;
        }
        let base: usize = i * vocab;
        let mut row: Vec<u32> = Vec::new();
        let mut j: usize = 0;
        while j < vocab
            invariant
                j <= vocab,
                total == flat@.len(),
                base + vocab <= total,
                row@ == flat@.subrange(base as int, base + j),
            decreases vocab - j,
        {
            row.push(flat[base + j]);
            j = j + 1;
            proof {
                assert(row@ =~= flat@.subrange(base as int, base + j));
            }
        }
        out.push(row);
        i = i + 1;
    }
    out
}

/// A batch row is computed as a single step computes it: its projection is split
/// into the same number of slabs as the one-row product of the same shape, with
/// as many blocks for each row.
pub proof fn batch_keeps_the_single_shape(
    on: Queue,
    a: u64,
    w: u64,
    c: u64,
    partials: u64,
    m: usize,
    n: usize,
    k: usize,
)
    requires
        n <= i32::MAX,
        k <= i32::MAX,
        m * gemv_phase1(on, row_major(DataType::F16, a, w, c, 1, n, k), partials).grid.x
            <= u32::MAX,
    ensures
        ({
            let plan = row_major(DataType::F16, a, w, c, 1, n, k);
            let (s1, s2) = (gemv_phase1(on, plan, partials), gemv_phase2(on, plan, partials));
            let b1 = gemv_batch_phase1(on, a, w, partials, m, n, k);
            let b2 = gemv_batch_phase2(on, c, partials, m, n, k);
            &&& b1.args[6] == s1.args[5]
            &&& b2.args[4] == s2.args[3]
            &&& b1.grid.x == m * s1.grid.x
            &&& b2.grid.x == m * s2.grid.x
            &&& b1.block == s1.block
            &&& b2.block == s2.block
        }),
{
    lemma_shape(n as i32, k as i32);
    let (g1, g2) = (
        shape_cols(n as i32) * shape_slabs(n as i32, k as i32),
        shape_cols(n as i32),
    );
    assert(g2 <= g1) by (nonlinear_arith)
        requires
            g1 == g2 * shape_slabs(n as i32, k as i32),
            g2 >= 1,
            shape_slabs(n as i32, k as i32) >= 1,
    ;
    lemma_rows(m as int, g2, g1);
}

} // verus!
