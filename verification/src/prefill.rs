//! Prefill of a prompt in one pass: every projection over all tokens at once,
//! attention over the whole prompt, and the cache slots of every token.

use vstd::prelude::*;

use crate::batch::words_bytes;
use crate::buffer::DeviceBuffer;
use crate::bytes::push_le;
use crate::dense;
use crate::diff;
use crate::engine_error::{EngineError, ErrorV};
use crate::fmha::{lemma_rounded, rounded, FmhaCall, FMHA_HEAD_DIM};
use crate::gemm::{call_of, col_major_swap, Gemm, GemmCall, GemmPlan};
use crate::launch::{blocks256, Launch, LaunchV, Queue};
use crate::math::{ceil_div, div_ceil_usize, lemma_ceil_div, wide_product};
use crate::model::{LayerWeights, LlamaConfig, BLOCK_LEN};
use crate::prefill_kernels::{
    cast_split, gather_rows, kv_write_seq, rms_rows, rope_rows, PrefillKernels,
};
use crate::ptag::PTag;
use crate::step::{lemma_layer_page, StepCtx, StepKernels, StepNums};
use crate::text::{decimal, push_decimal, push_text};

verus! {

/// How a prompt is prefilled.
#[derive(Debug, Clone, Copy, PartialEq, Eq, Structural)]
pub enum PrefillPath {
    /// The `f32` tier: a step per token.
    Steps,
    /// One pass where it was chosen, a step per token where not.
    Choose,
}

/// How a prompt of `count` tokens is prefilled; an empty one is refused.
pub fn prefill_path(count: usize, parity_f32: bool) -> (r: Result<PrefillPath, EngineError>)
    ensures
        r is Err <==> count == 0,
        r is Err ==> r->Err_0@ == ErrorV::Sts("empty prompt"@),
        r is Ok ==> r->Ok_0 == if parity_f32 {
            PrefillPath::Steps
        } else {
            PrefillPath::Choose
        },
{
    if count == 0 {
        Err(EngineError::Sts("empty prompt".to_owned()))
    } else if parity_f32 {
        Ok(PrefillPath::Steps)
    } else {
        Ok(PrefillPath::Choose)
    }
}

/// A way to prefill a prompt.
#[derive(Debug, Clone, Copy, PartialEq, Eq, Structural)]
pub enum PrefillRun {
    OnePass,
    PerToken,
}

/// The first way to be tried, where the selector chose one pass or not.
pub fn first_run(one_pass: bool) -> (r: PrefillRun)
    ensures
        r == if one_pass {
            PrefillRun::OnePass
        } else {
            PrefillRun::PerToken
        },
{
    if one_pass {
        PrefillRun::OnePass
    } else {
        PrefillRun::PerToken
    }
}

/// What follows a way that was tried.
#[derive(Debug, Clone, Copy, PartialEq, Eq, Structural)]
pub enum AfterRun {
    /// Its time is recorded and its result is the result.
    Record,
    /// Its failure is the result.
    Fail,
    /// This way is tried next.
    Next(PrefillRun),
}

/// What follows a way that was tried: a pass that failed falls back to steps, and
/// only what succeeded is recorded.
pub fn after_run(run: PrefillRun, ok: bool) -> (r: AfterRun)
    ensures
        r == if ok {
            AfterRun::Record
        } else if run == PrefillRun::OnePass {
            AfterRun::Next(PrefillRun::PerToken)
        } else {
            AfterRun::Fail
        },
{
    if ok {
        AfterRun::Record
    } else {
        match run {
            PrefillRun::OnePass => AfterRun::Next(PrefillRun::PerToken),
            PrefillRun::PerToken => AfterRun::Fail,
        }
    }
}

/// A step of a prefill: token, position, and length of the cache with it.
#[derive(Debug, Clone, Copy, PartialEq, Eq, Structural)]
pub struct StepArgs {
    pub token: u32,
    pub pos: usize,
    pub kv_len: usize,
}

/// The steps that prefill a prompt token by token; the last one's logits are the
/// result.
pub fn prefill_fallback(ids: &Vec<u32>) -> (v: Vec<StepArgs>)
    ensures
        v@ == Seq::new(
            ids@.len(),
            |i: int| StepArgs { token: ids@[i], pos: i as usize, kv_len: (i + 1) as usize },
        ),
{
    let n: usize = ids.len();
    let mut out: Vec<StepArgs> = Vec::new();
    let mut i: usize = 0;
    while i < n
        invariant
            i <= n,
            n == ids@.len(),
            out@ == Seq::new(
                i as nat,
                |i: int| StepArgs { token: ids@[i], pos: i as usize, kv_len: (i + 1) as usize },
            ),
        decreases n - i,
    {
        out.push(StepArgs { token: ids[i], pos: i, kv_len: i + 1 });
        i = i + 1;
        proof {
            assert(out@ =~= Seq::new(
                i as nat,
                |i: int| StepArgs { token: ids@[i], pos: i as usize, kv_len: (i + 1) as usize },
            ));
        }
    }
    out
}

/// The first token without an embedding row, if there is one.
pub open spec fn first_oov(ids: Seq<u32>, vocab: usize) -> Option<u32>
    decreases ids.len(),
{
    if ids.len() == 0 {
        None
    } else {
        match first_oov(ids.drop_last(), vocab) {
            Some(t) => Some(t),
            None => if ids.last() >= vocab {
                Some(ids.last())
            } else {
                None
            },
        }
    }
}

/// What is wrong with a prompt for one pass: a token without an embedding row; more
/// tokens than a layer's pages hold; kernels that are not loaded.
pub open spec fn prompt_error(
    ids: Seq<u32>,
    vocab: usize,
    pp: usize,
    fmha: bool,
    rows: bool,
) -> Option<ErrorV> {
    let pages = ceil_div(ids.len() as int, BLOCK_LEN as int);
    match first_oov(ids, vocab) {
        Some(t) => Some(ErrorV::EmbeddingOov(t)),
        None => if pages > pp {
            Some(
                ErrorV::Sts(
                    "prompt "@ + decimal(ids.len()) + " tokens needs "@ + decimal(pages as nat)
                        + " pages > max_kv pages "@ + decimal(pp as nat),
                ),
            )
        } else if !fmha {
            Some(ErrorV::Sts("fmha not loaded"@))
        } else if !rows {
            Some(ErrorV::Sts("prefill kernels not loaded"@))
        } else {
            None
        },
    }
}

/// Checks a prompt for one pass.
pub fn check_prompt(ids: &Vec<u32>, vocab: usize, pp: usize, fmha: bool, rows: bool) -> (r: Result<
    (),
    EngineError,
>)
    ensures
        r is Ok <==> prompt_error(ids@, vocab, pp, fmha, rows) is None,
        r is Err ==> prompt_error(ids@, vocab, pp, fmha, rows) == Some(r->Err_0@),
{
    let mut i: usize = 0;
    while i < ids.len()
        invariant
            i <= ids.len(),
            first_oov(ids@.subrange(0, i as int), vocab) is None,
        decreases ids.len() - i,
    {
        let t: u32 = ids[i];
        proof {
            let s = ids@.subrange(0, i + 1);
            assert(s.drop_last() =~= ids@.subrange(0, i as int));
        }
        if t as u64 >= vocab as u64 {
            proof {
                lemma_oov_stays(ids@, i + 1, vocab);
            }
            return Err(EngineError::EmbeddingOov(t));
        }
        i = i + 1;
    }
    proof {
        assert(ids@.subrange(0, ids@.len() as int) =~= ids@);
    }
    let pages: usize = div_ceil_usize(ids.len(), BLOCK_LEN);
    if pages > pp {
        let mut s = "prompt ".to_owned();
        push_decimal(&mut s, ids.len() as u64);
        push_text(&mut s, " tokens needs ");
        push_decimal(&mut s, pages as u64);
        push_text(&mut s, " pages > max_kv pages ");
        push_decimal(&mut s, pp as u64);
        return Err(EngineError::Sts(s));
    }
    if !fmha {
        return Err(EngineError::Sts("fmha not loaded".to_owned()));
    }
    if !rows {
        return Err(EngineError::Sts("prefill kernels not loaded".to_owned()));
    }
    Ok(())
}

proof fn lemma_oov_stays(ids: Seq<u32>, n: int, vocab: usize)
    requires
        0 <= n <= ids.len(),
        first_oov(ids.subrange(0, n), vocab) is Some,
    ensures
        first_oov(ids, vocab) == first_oov(ids.subrange(0, n), vocab),
    decreases ids.len(),
{
    if n == ids.len() {
        assert(ids.subrange(0, n) =~= ids);
    } else {
        assert(ids.drop_last().subrange(0, n) =~= ids.subrange(0, n));
        lemma_oov_stays(ids.drop_last(), n, vocab);
    }
}

/// The tokens of a prompt as they are uploaded.
pub fn token_bytes(ids: &Vec<u32>) -> (v: Vec<u8>)
    ensures
        v@ == words_bytes(ids@),
{
    let mut out: Vec<u8> = Vec::new();
    let mut i: usize = 0;
    while i < ids.len()
        invariant
            i <= ids.len(),
            out@ == words_bytes(ids@.subrange(0, i as int)),
        decreases ids.len() - i,
    {
        push_le(&mut out, ids[i] as u64, 4);
        i = i + 1;
        proof {
            assert(ids@.subrange(0, i as int).drop_last() =~= ids@.subrange(0, i - 1));
        }
    }
    proof {
        assert(ids@.subrange(0, ids@.len() as int) =~= ids@);
    }
    out
}

/// Where the projections are before they are cast: joined in one buffer, or apart.
#[derive(Debug, Clone, Copy, PartialEq, Eq, Structural)]
pub enum QkvScratch {
    Joined { qkv: DeviceBuffer },
    Apart { q: DeviceBuffer, k: DeviceBuffer, v: DeviceBuffer },
}

/// Buffers of a pass.
#[derive(Debug, Clone, Copy, PartialEq, Eq, Structural)]
pub struct PrefillBuffers {
    pub toks: DeviceBuffer,
    pub x: DeviceBuffer,
    pub xn: DeviceBuffer,
    pub q: DeviceBuffer,
    pub k: DeviceBuffer,
    pub v: DeviceBuffer,
    pub o: DeviceBuffer,
    pub oadd: DeviceBuffer,
    pub gate: DeviceBuffer,
    pub up: DeviceBuffer,
    pub down: DeviceBuffer,
    pub l2: DeviceBuffer,
    pub c_qkv: QkvScratch,
    pub c_o: DeviceBuffer,
    pub c_g: DeviceBuffer,
    pub c_u: DeviceBuffer,
    pub c_d: DeviceBuffer,
    pub logits: DeviceBuffer,
    pub lse: DeviceBuffer,
}

/// Sizes in bytes of the buffers of a pass.
#[derive(Debug, Clone, Copy, PartialEq, Eq, Structural)]
pub struct PrefillSizes {
    pub toks: usize,
    pub x: usize,
    pub xn: usize,
    pub q: usize,
    pub k: usize,
    pub v: usize,
    pub o: usize,
    pub oadd: usize,
    pub gate: usize,
    pub up: usize,
    pub down: usize,
    pub l2: usize,
    /// The projections, joined.
    pub c_qkv: usize,
    /// The query projection where they are apart.
    pub c_q: usize,
    pub c_k: usize,
    pub c_v: usize,
    pub c_o: usize,
    pub c_g: usize,
    pub c_u: usize,
    pub c_d: usize,
    pub logits: usize,
    /// Row sums, in whole row tiles.
    pub lse: usize,
}

/// Sizes for `s` tokens, where attention has row tiles of `block_m`.
pub open spec fn prefill_sizes_of(cfg: LlamaConfig, s: usize, block_m: u32) -> PrefillSizes {
    PrefillSizes {
        toks: (s * 4) as usize,
        x: (s * cfg.hidden_size * 2) as usize,
        xn: (s * cfg.hidden_size * 2) as usize,
        q: (s * cfg.nqk() * 2) as usize,
        k: (s * cfg.kvk() * 2) as usize,
        v: (s * cfg.kvk() * 2) as usize,
        o: (s * cfg.nqk() * 2) as usize,
        oadd: (s * cfg.hidden_size * 2) as usize,
        gate: (s * cfg.ffn_hidden * 2) as usize,
        up: (s * cfg.ffn_hidden * 2) as usize,
        down: (s * cfg.ffn_hidden * 2) as usize,
        l2: (s * cfg.hidden_size * 2) as usize,
        c_qkv: (s * (cfg.nqk() + 2 * cfg.kvk()) * 4) as usize,
        c_q: (s * cfg.nqk() * 4) as usize,
        c_k: (s * cfg.kvk() * 4) as usize,
        c_v: (s * cfg.kvk() * 4) as usize,
        c_o: (s * cfg.hidden_size * 4) as usize,
        c_g: (s * cfg.ffn_hidden * 4) as usize,
        c_u: (s * cfg.ffn_hidden * 4) as usize,
        c_d: (s * cfg.hidden_size * 4) as usize,
        logits: (s * cfg.vocab_size * 4) as usize,
        lse: (cfg.q_heads * rounded(s as int, block_m as int) * 4) as usize,
    }
}

/// Whether these sizes can be expressed.
pub open spec fn prefill_sizes_fit(cfg: LlamaConfig, s: usize, block_m: u32) -> bool {
    &&& s * 4 <= usize::MAX
    &&& s * cfg.hidden_size * 4 <= usize::MAX
    &&& s * (cfg.nqk() + 2 * cfg.kvk()) * 4 <= usize::MAX
    &&& s * cfg.ffn_hidden * 4 <= usize::MAX
    &&& s * cfg.vocab_size * 4 <= usize::MAX
    &&& rounded(s as int, block_m as int) <= usize::MAX
    &&& cfg.q_heads * rounded(s as int, block_m as int) * 4 <= usize::MAX
}

/// Whether these sizes can be expressed.
pub fn can_size_pass(cfg: &LlamaConfig, s: usize, block_m: u32) -> (r: bool)
    requires
        cfg.wf(),
        0 < block_m,
    ensures
        r == prefill_sizes_fit(*cfg, s, block_m),
{
    let w = cfg.widths();
    let max: u128 = usize::MAX as u128;
    let tiles: usize = div_ceil_usize(s, block_m as usize);
    let rows: u128 = wide_product(tiles, block_m as usize);
    proof {
        cfg.lemma_heads();
        lemma_times(s as int, cfg.nqk() + 2 * cfg.kvk(), cfg.nqk() + 2 * cfg.kvk());
    }
    if rows > max || s as u128 * 4 > max {
        return false;
    }
    wide_product(s, w.h) <= max / 4 && wide_product(s, w.nqk + 2 * w.kvk) <= max / 4
        && wide_product(s, w.ffn) <= max / 4 && wide_product(s, w.vocab) <= max / 4
        && wide_product(cfg.q_heads, rows as usize) <= max / 4
}

proof fn lemma_times(a: int, b: int, c: int)
    requires
        a >= 0,
        0 <= b <= c,
    ensures
        0 <= a * b <= a * c,
{
    assert(0 <= a * b <= a * c) by (nonlinear_arith)
        requires
            a >= 0,
            0 <= b <= c,
    ;
}

/// The sizes of the buffers of a pass over `s` tokens.
pub fn prefill_sizes(cfg: &LlamaConfig, s: usize, block_m: u32) -> (r: PrefillSizes)
    requires
        cfg.wf(),
        block_m > 0,
        prefill_sizes_fit(*cfg, s, block_m),
    ensures
        r == prefill_sizes_of(*cfg, s, block_m),
{
    let w = cfg.widths();
    proof {
        cfg.lemma_heads();
        let joined = cfg.nqk() + 2 * cfg.kvk();
        lemma_times(s as int, cfg.nqk(), joined);
        lemma_times(s as int, cfg.kvk(), joined);
        lemma_times(s as int, cfg.hidden_size as int, cfg.hidden_size as int);
        lemma_times(s as int, cfg.ffn_hidden as int, cfg.ffn_hidden as int);
        lemma_times(s as int, cfg.vocab_size as int, cfg.vocab_size as int);
        lemma_rounded(s as int, block_m as int);
        let r = rounded(s as int, block_m as int);
        lemma_times(cfg.q_heads as int, r, r);
    }
    let rows: usize = div_ceil_usize(s, block_m as usize) * block_m as usize;
    let joined: usize = w.nqk + 2 * w.kvk;
    PrefillSizes {
        toks: s * 4,
        x: s * w.h * 2,
        xn: s * w.h * 2,
        q: s * w.nqk * 2,
        k: s * w.kvk * 2,
        v: s * w.kvk * 2,
        o: s * w.nqk * 2,
        oadd: s * w.h * 2,
        gate: s * w.ffn * 2,
        up: s * w.ffn * 2,
        down: s * w.ffn * 2,
        l2: s * w.h * 2,
        c_qkv: s * joined * 4,
        c_q: s * w.nqk * 4,
        c_k: s * w.kvk * 4,
        c_v: s * w.kvk * 4,
        c_o: s * w.h * 4,
        c_g: s * w.ffn * 4,
        c_u: s * w.ffn * 4,
        c_d: s * w.h * 4,
        logits: s * w.vocab * 4,
        lse: cfg.q_heads * rows * 4,
    }
}

/// An operation of a pass.
#[derive(Debug)]
pub enum PrefillOp {
    /// Launch a kernel; a failure ends the pass.
    Launch(Launch),
    /// Call cuBLAS.
    Gemm(GemmCall),
    /// Attention over the whole prompt.
    Fmha(FmhaCall),
    /// Set a mark of the profiler.
    Mark(PTag),
}

/// The mathematical value of an operation.
pub enum PrefillOpV {
    Launch(LaunchV),
    Gemm(GemmCall),
    Fmha(FmhaCall),
    Mark(PTag),
}

impl View for PrefillOp {
    type V = PrefillOpV;

    open spec fn view(&self) -> PrefillOpV {
        match self {
            PrefillOp::Launch(l) => PrefillOpV::Launch(l@),
            PrefillOp::Gemm(g) => PrefillOpV::Gemm(*g),
            PrefillOp::Fmha(c) => PrefillOpV::Fmha(*c),
            PrefillOp::Mark(t) => PrefillOpV::Mark(*t),
        }
    }
}

/// A sequence of operations.
#[derive(Debug)]
pub struct PrefillProgram {
    pub ops: Vec<PrefillOp>,
}

impl View for PrefillProgram {
    type V = Seq<PrefillOpV>;

    open spec fn view(&self) -> Seq<PrefillOpV> {
        self.ops@.map_values(|o: PrefillOp| o@)
    }
}

/// A launch, appended.
pub open spec fn pput(s: Seq<PrefillOpV>, l: LaunchV) -> Seq<PrefillOpV> {
    s.push(PrefillOpV::Launch(l))
}

/// A mark, appended.
pub open spec fn ptag(s: Seq<PrefillOpV>, t: PTag) -> Seq<PrefillOpV> {
    s.push(PrefillOpV::Mark(t))
}

/// A launch and its mark, appended.
pub open spec fn prun(s: Seq<PrefillOpV>, l: LaunchV, t: PTag) -> Seq<PrefillOpV> {
    ptag(pput(s, l), t)
}

/// The product of rows with a row-major result, and its mark, appended.
pub open spec fn pgemm(
    s: Seq<PrefillOpV>,
    on: Queue,
    a: u64,
    w: u64,
    m: usize,
    n: int,
    k: int,
    c: u64,
    t: PTag,
) -> Seq<PrefillOpV> {
    ptag(
        s.push(PrefillOpV::Gemm(call_of(on, col_major_swap(a, w, c, m, n as usize, k as usize)))),
        t,
    )
}

impl PrefillProgram {
    pub fn new() -> (p: Self)
        ensures
            p@ == Seq::<PrefillOpV>::empty(),
    {
        let p = PrefillProgram { ops: Vec::new() };
        proof {
            assert(p@ =~= Seq::<PrefillOpV>::empty());
        }
        p
    }

    /// Appends an operation.
    pub fn push(&mut self, op: PrefillOp)
        ensures
            final(self)@ == old(self)@.push(op@),
    {
        let ghost before = self@;
        self.ops.push(op);
        proof {
            assert(self@ =~= before.push(op@));
        }
    }

    pub fn put(&mut self, l: Launch)
        ensures
            final(self)@ == pput(old(self)@, l@),
    {
        self.push(PrefillOp::Launch(l));
    }

    pub fn mark(&mut self, t: PTag)
        ensures
            final(self)@ == ptag(old(self)@, t),
    {
        self.push(PrefillOp::Mark(t));
    }

    pub fn run(&mut self, l: Launch, t: PTag)
        ensures
            final(self)@ == prun(old(self)@, l@, t),
    {
        self.put(l);
        self.mark(t);
    }

    pub fn gemm(&mut self, on: Queue, a: u64, w: u64, m: usize, n: usize, k: usize, c: u64, t: PTag)
        ensures
            final(self)@ == pgemm(old(self)@, on, a, w, m, n as int, k as int, c, t),
    {
        self.push(PrefillOp::Gemm(gemm1r(on, a, w, m, n, k, c)));
        self.mark(t);
    }
}

/// The call of a product of rows with a row-major result: the operands swapped,
/// neither transposed.
pub fn gemm1r(on: Queue, a: u64, w: u64, m: usize, n: usize, k: usize, c: u64) -> (g: GemmCall)
    ensures
        g == call_of(on, col_major_swap(a, w, c, m, n, k)),
{
    let gemm = Gemm { dev: on.dev };
    gemm.execute(&on.stream, &GemmPlan::col_major_swap_f16(a, w, c, m, n, k))
}

/// A pass over `s` tokens: what its launches are made of.
#[derive(Debug, Clone, Copy, PartialEq, Eq, Structural)]
pub struct PrefillCtx {
    pub c: StepCtx,
    pub b: PrefillBuffers,
    pub s: usize,
}

impl PrefillCtx {
    /// A prompt that fits a layer's pages, on a model whose heads the attention
    /// kernels take, with extents that the kernels' parameters can express.
    pub open spec fn wf(self) -> bool {
        let cfg = self.c.cfg;
        &&& self.c.wf()
        &&& cfg.head_dim == FMHA_HEAD_DIM
        &&& cfg.q_heads % cfg.kv_heads == 0
        &&& 0 < self.s <= self.c.cap()
        &&& self.s * cfg.hidden_size <= u32::MAX
        &&& self.s * cfg.nqk() <= u32::MAX
        &&& self.s * cfg.kvk() <= u32::MAX
        &&& self.s * cfg.ffn_hidden <= u32::MAX
        &&& cfg.nqk() + 2 * cfg.kvk() <= u32::MAX
    }

    pub open spec fn rows(self, w: u32) -> u32 {
        (self.s * w) as u32
    }

    /// Whether the pass can be launched.
    pub fn fits(&self) -> (r: bool)
        ensures
            r == self.wf(),
    {
        if !self.c.fits() {
            return false;
        }
        let cfg = &self.c.cfg;
        let w = cfg.widths();
        let cap: u128 = wide_product(self.c.pp, BLOCK_LEN);
        cfg.head_dim == FMHA_HEAD_DIM as usize && cfg.q_heads % cfg.kv_heads == 0 && 0 < self.s
            && self.s as u128 <= cap && wide_product(self.s, w.h) <= 0xffff_ffff && wide_product(
            self.s,
            w.nqk,
        ) <= 0xffff_ffff && wide_product(self.s, w.kvk) <= 0xffff_ffff && wide_product(
            self.s,
            w.ffn,
        ) <= 0xffff_ffff && w.nqk as u128 + 2 * w.kvk as u128 <= 0xffff_ffff
    }
}

pub open spec fn p_gather(x: PrefillCtx) -> LaunchV {
    gather_rows(x.c.on, x.c.embed, x.b.x.ptr, x.b.toks.ptr, x.s as u32, x.c.nums_of().h)
}

pub open spec fn p_rms(x: PrefillCtx, w: u64) -> LaunchV {
    rms_rows(
        x.c.on,
        x.b.x.ptr,
        x.b.xn.ptr,
        w,
        x.s as u32,
        x.c.nums_of().h,
        x.c.cfg.rms_eps,
    )
}

pub open spec fn p_cast(x: PrefillCtx, from: u64, to: u64, w: u32) -> LaunchV {
    diff::cast_f32_f16(x.c.on, from, to, x.rows(w))
}

pub open spec fn p_split(x: PrefillCtx, from: u64) -> LaunchV {
    let n = x.c.nums_of();
    cast_split(x.c.on, from, x.b.q.ptr, x.b.k.ptr, x.b.v.ptr, x.s as u32, n.nqk, n.kvk)
}

pub open spec fn p_norm(x: PrefillCtx, heads: u32, at: u64, w: u64) -> LaunchV {
    dense::rms_heads(x.c.on, at, at, w, x.rows(heads), x.c.nums_of().d, x.c.cfg.rms_eps)
}

pub open spec fn p_rope(x: PrefillCtx, heads: u32, at: u64) -> LaunchV {
    rope_rows(x.c.on, at, x.c.nums_of().half, heads, x.s as u32, x.c.cfg.rope_theta)
}

/// The attention scale of the query.
pub open spec fn p_scale(x: PrefillCtx) -> LaunchV {
    dense::scale_row(x.c.on, x.b.q.ptr, x.rows(x.c.nums_of().nqk), x.c.cfg.q_scale)
}

pub open spec fn p_fmha(x: PrefillCtx) -> FmhaCall {
    let n = x.c.nums_of();
    FmhaCall {
        q: x.b.q.ptr,
        k: x.b.k.ptr,
        v: x.b.v.ptr,
        o: x.b.o.ptr,
        lse: x.b.lse.ptr,
        seqlen: x.s as u32,
        batch: 1,
        heads: n.q_heads,
        kv_heads: n.kv_heads,
        d: n.d,
    }
}

/// The cache slots of every token on a layer.
pub open spec fn p_kv_write(x: PrefillCtx, li: int) -> LaunchV {
    let n = x.c.nums_of();
    kv_write_seq(
        x.c.on,
        x.b.k.ptr,
        x.b.v.ptr,
        x.c.kv,
        x.s as u32,
        BLOCK_LEN as u32,
        n.kv_heads,
        n.d,
        (li * x.c.pp) as u32,
        n.total_pages,
    )
}

pub open spec fn p_add(x: PrefillCtx, from: u64) -> LaunchV {
    dense::add_rows(x.c.on, x.b.x.ptr, from, x.rows(x.c.nums_of().h))
}

pub open spec fn p_swiglu(x: PrefillCtx) -> LaunchV {
    dense::swiglu(x.c.on, x.b.gate.ptr, x.b.up.ptr, x.b.down.ptr, x.rows(x.c.nums_of().ffn))
}

/// The projections in `f16`: one product over the joined weights, parted by the
/// cast, or three products, each cast.
pub open spec fn pqkv_ops(s: Seq<PrefillOpV>, x: PrefillCtx, w: LayerWeights) -> Seq<PrefillOpV> {
    let (on, cfg, b, n) = (x.c.on, x.c.cfg, x.b, x.c.nums_of());
    let (h, xn) = (cfg.hidden_size as int, b.xn.ptr);
    match b.c_qkv {
        QkvScratch::Joined { qkv } => {
            let joined = cfg.nqk() + 2 * cfg.kvk();
            let s = pgemm(s, on, xn, w.qkv_proj->0.ptr, x.s, joined, h, qkv.ptr, PTag::GemmQkv);
            prun(s, p_split(x, qkv.ptr), PTag::CastQkv)
        },
        QkvScratch::Apart { q, k, v } => {
            let s = pgemm(s, on, xn, w.q_proj.ptr, x.s, cfg.nqk(), h, q.ptr, PTag::GemmQkv);
            let s = pput(s, p_cast(x, q.ptr, b.q.ptr, n.nqk));
            let s = pgemm(s, on, xn, w.k_proj.ptr, x.s, cfg.kvk(), h, k.ptr, PTag::GemmQkv);
            let s = pput(s, p_cast(x, k.ptr, b.k.ptr, n.kvk));
            let s = pgemm(s, on, xn, w.v_proj.ptr, x.s, cfg.kvk(), h, v.ptr, PTag::GemmQkv);
            prun(s, p_cast(x, v.ptr, b.v.ptr, n.kvk), PTag::CastQkv)
        },
    }
}

/// Head norms where the model has them, rotary embedding, scale, attention and the
/// cache slots.
pub open spec fn pattn_ops(
    s: Seq<PrefillOpV>,
    x: PrefillCtx,
    w: LayerWeights,
    li: int,
) -> Seq<PrefillOpV> {
    let n = x.c.nums_of();
    let (q, k) = (x.b.q.ptr, x.b.k.ptr);
    let s = match (w.q_norm, w.k_norm) {
        (Some(qn), Some(kn)) => prun(
            prun(s, p_norm(x, n.q_heads, q, qn.ptr), PTag::RmsHeadsQ),
            p_norm(x, n.kv_heads, k, kn.ptr),
            PTag::RmsHeadsK,
        ),
        _ => s,
    };
    let s = prun(s, p_rope(x, n.q_heads, q), PTag::RopeQ);
    let s = prun(s, p_rope(x, n.kv_heads, k), PTag::RopeK);
    let s = prun(s, p_scale(x), PTag::ScaleQ);
    let s = ptag(s.push(PrefillOpV::Fmha(p_fmha(x))), PTag::Fmha);
    prun(s, p_kv_write(x, li), PTag::KvWrite)
}

/// The attention output and its residual add.
pub open spec fn pout_ops(s: Seq<PrefillOpV>, x: PrefillCtx, w: LayerWeights) -> Seq<PrefillOpV> {
    let (on, cfg, b, n) = (x.c.on, x.c.cfg, x.b, x.c.nums_of());
    let h = cfg.hidden_size as int;
    let s = pgemm(s, on, b.o.ptr, w.o_proj.ptr, x.s, h, cfg.nqk(), b.c_o.ptr, PTag::GemmO);
    let s = prun(s, p_cast(x, b.c_o.ptr, b.oadd.ptr, n.h), PTag::CastO);
    prun(s, p_add(x, b.oadd.ptr), PTag::AddO)
}

/// The feed-forward half.
pub open spec fn pffn_ops(s: Seq<PrefillOpV>, x: PrefillCtx, w: LayerWeights) -> Seq<PrefillOpV> {
    let (on, cfg, b, n) = (x.c.on, x.c.cfg, x.b, x.c.nums_of());
    let (h, ffn, xn) = (cfg.hidden_size as int, cfg.ffn_hidden as int, b.xn.ptr);
    let s = prun(s, p_rms(x, w.ffn_norm.ptr), PTag::RmsFfn);
    let s = pgemm(s, on, xn, w.gate_proj.ptr, x.s, ffn, h, b.c_g.ptr, PTag::GemmGate);
    let s = pput(s, p_cast(x, b.c_g.ptr, b.gate.ptr, n.ffn));
    let s = pgemm(s, on, xn, w.up_proj.ptr, x.s, ffn, h, b.c_u.ptr, PTag::GemmUp);
    let s = prun(s, p_cast(x, b.c_u.ptr, b.up.ptr, n.ffn), PTag::CastGU);
    let s = prun(s, p_swiglu(x), PTag::Swiglu);
    let s = pgemm(s, on, b.down.ptr, w.down_proj.ptr, x.s, h, ffn, b.c_d.ptr, PTag::GemmDown);
    let s = prun(s, p_cast(x, b.c_d.ptr, b.l2.ptr, n.h), PTag::CastD);
    ptag(prun(s, p_add(x, b.l2.ptr), PTag::AddD), PTag::LayerBoundary)
}

/// The first `n` layers.
pub open spec fn players_ops(
    s: Seq<PrefillOpV>,
    x: PrefillCtx,
    layers: Seq<LayerWeights>,
    n: nat,
) -> Seq<PrefillOpV>
    decreases n,
{
    if n == 0 {
        s
    } else {
        let w = layers[n - 1];
        let s = players_ops(s, x, layers, (n - 1) as nat);
        let s = pqkv_ops(prun(s, p_rms(x, w.attn_norm.ptr), PTag::RmsAttn), x, w);
        pffn_ops(pout_ops(pattn_ops(s, x, w, n - 1), x, w), x, w)
    }
}

/// The whole pass, from the uploaded tokens to the logits of every token.
pub open spec fn prefill_ops(x: PrefillCtx, layers: Seq<LayerWeights>, lm_head: u64) -> Seq<
    PrefillOpV,
> {
    let (cfg, b) = (x.c.cfg, x.b);
    let s = prun(Seq::empty(), p_gather(x), PTag::Gather);
    let s = players_ops(s, x, layers, layers.len());
    let s = prun(s, p_rms(x, x.c.final_norm), PTag::FinalRms);
    pgemm(
        s,
        x.c.on,
        b.xn.ptr,
        lm_head,
        x.s,
        cfg.vocab_size as int,
        cfg.hidden_size as int,
        b.logits.ptr,
        PTag::LmHead,
    )
}

/// The extents of a pass as kernel parameters.
#[derive(Debug, Clone, Copy, PartialEq, Eq, Structural)]
pub struct PrefillNums {
    pub n: StepNums,
    pub s: u32,
    pub h: u32,
    pub nqk: u32,
    pub kvk: u32,
    pub ffn: u32,
    pub q_heads: u32,
    pub kv_heads: u32,
}

impl PrefillCtx {
    pub open spec fn nums_of(self) -> PrefillNums {
        let n = self.c.nums_of();
        PrefillNums {
            n,
            s: self.s as u32,
            h: self.rows(n.h),
            nqk: self.rows(n.nqk),
            kvk: self.rows(n.kvk),
            ffn: self.rows(n.ffn),
            q_heads: self.rows(n.q_heads),
            kv_heads: self.rows(n.kv_heads),
        }
    }

    /// The bounds that the launches of a pass need.
    pub open spec fn bounds(self, m: PrefillNums) -> bool {
        &&& m == self.nums_of()
        &&& m.s == self.s
        &&& m.n.half == 64
        &&& m.n.nqk == self.c.cfg.nqk()
        &&& m.n.kvk == self.c.cfg.kvk()
        &&& self.s * m.n.q_heads <= u32::MAX
        &&& self.s * m.n.kv_heads <= u32::MAX
        &&& m.n.kv_heads * m.n.d <= u32::MAX
        &&& m.s * blocks256(m.n.kv_heads * m.n.d) <= u32::MAX
        &&& m.n.nqk + 2 * m.n.kvk <= u32::MAX
    }

    /// The extents of the pass as kernel parameters.
    pub fn nums(&self) -> (r: PrefillNums)
        requires
            self.wf(),
        ensures
            self.bounds(r),
    {
        let n = self.c.nums();
        proof {
            let cfg = self.c.cfg;
            cfg.lemma_heads();
            lemma_times(self.s as int, n.q_heads as int, n.nqk as int);
            lemma_times(self.s as int, n.kv_heads as int, n.kvk as int);
            lemma_times(self.s as int, 1, n.h as int);
            lemma_ceil_div(n.kvk as int, 256);
            assert(n.kv_heads * n.d == n.kvk);
            lemma_times(self.s as int, ceil_div(n.kvk as int, 256), n.kvk as int);
        }
        let s: u32 = self.s as u32;
        PrefillNums {
            n,
            s,
            h: s * n.h,
            nqk: s * n.nqk,
            kvk: s * n.kvk,
            ffn: s * n.ffn,
            q_heads: s * n.q_heads,
            kv_heads: s * n.kv_heads,
        }
    }
}

/// The loaded kernels of a pass.
#[derive(Debug)]
pub struct PassKernels<'a> {
    pub step: &'a StepKernels,
    pub rows: &'a PrefillKernels,
}

impl<'a> PassKernels<'a> {
    fn rms(&self, x: &PrefillCtx, m: &PrefillNums, w: u64) -> (l: Launch)
        requires
            *m == x.nums_of(),
        ensures
            l@ == p_rms(*x, w),
    {
        let (dev, st, b) = (x.c.on.dev, &x.c.on.stream, &x.b);
        self.rows.launch_rms_norm_rows(dev, st, b.x.ptr, b.xn.ptr, w, m.s, m.n.h, x.c.cfg.rms_eps)
    }

    fn cast(&self, x: &PrefillCtx, from: u64, to: u64, rows: u32, Ghost(w): Ghost<u32>) -> (l: Launch)
        requires
            rows == x.rows(w),
        ensures
            l@ == p_cast(*x, from, to, w),
    {
        self.step.diff.launch_cast_f32_f16(x.c.on.dev, &x.c.on.stream, from, to, rows)
    }

    fn norm(&self, x: &PrefillCtx, m: &PrefillNums, rows: u32, at: u64, w: u64, Ghost(heads): Ghost<
        u32,
    >) -> (l: Launch)
        requires
            *m == x.nums_of(),
            rows == x.rows(heads),
        ensures
            l@ == p_norm(*x, heads, at, w),
    {
        let (dev, st) = (x.c.on.dev, &x.c.on.stream);
        self.step.dense.launch_rms_heads(dev, st, at, at, w, rows, m.n.d, x.c.cfg.rms_eps)
    }

    fn rope(&self, x: &PrefillCtx, m: &PrefillNums, heads: u32, at: u64) -> (l: Launch)
        requires
            x.bounds(*m),
            x.s * heads <= u32::MAX,
        ensures
            l@ == p_rope(*x, heads, at),
    {
        let (dev, st) = (x.c.on.dev, &x.c.on.stream);
        self.rows.launch_rope_rows(dev, st, at, m.n.half, heads, m.s, x.c.cfg.rope_theta)
    }

    fn add(&self, x: &PrefillCtx, m: &PrefillNums, from: u64) -> (l: Launch)
        requires
            *m == x.nums_of(),
        ensures
            l@ == p_add(*x, from),
    {
        self.step.dense.launch_add(x.c.on.dev, &x.c.on.stream, x.b.x.ptr, from, m.h)
    }
}

fn ppush_qkv(p: &mut PrefillProgram, x: &PrefillCtx, k: &PassKernels, m: &PrefillNums, w: &LayerWeights)
    requires
        x.wf(),
        x.bounds(*m),
        x.b.c_qkv is Joined ==> w.qkv_proj is Some,
    ensures
        final(p)@ == pqkv_ops(old(p)@, *x, *w),
{
    let (on, b) = (x.c.on, &x.b);
    let d = x.c.cfg.widths();
    let (h, xn) = (d.h, b.xn.ptr);
    match b.c_qkv {
        QkvScratch::Joined { qkv } => {
            let joined: usize = d.nqk + 2 * d.kvk;
            if let Some(wq) = w.qkv_proj {
                p.gemm(on, xn, wq.ptr, x.s, joined, h, qkv.ptr, PTag::GemmQkv);
            }
            p.run(
                k.rows.launch_cast_split_qkv(
                    on.dev,
                    &on.stream,
                    qkv.ptr,
                    b.q.ptr,
                    b.k.ptr,
                    b.v.ptr,
                    m.s,
                    m.n.nqk,
                    m.n.kvk,
                ),
                PTag::CastQkv,
            );
        },
        QkvScratch::Apart { q, k: kk, v } => {
            p.gemm(on, xn, w.q_proj.ptr, x.s, d.nqk, h, q.ptr, PTag::GemmQkv);
            p.put(k.cast(x, q.ptr, b.q.ptr, m.nqk, Ghost(m.n.nqk)));
            p.gemm(on, xn, w.k_proj.ptr, x.s, d.kvk, h, kk.ptr, PTag::GemmQkv);
            p.put(k.cast(x, kk.ptr, b.k.ptr, m.kvk, Ghost(m.n.kvk)));
            p.gemm(on, xn, w.v_proj.ptr, x.s, d.kvk, h, v.ptr, PTag::GemmQkv);
            p.run(k.cast(x, v.ptr, b.v.ptr, m.kvk, Ghost(m.n.kvk)), PTag::CastQkv);
        },
    }
}

fn ppush_attn(
    p: &mut PrefillProgram,
    x: &PrefillCtx,
    k: &PassKernels,
    m: &PrefillNums,
    w: &LayerWeights,
    li: usize,
)
    requires
        x.wf(),
        x.bounds(*m),
        li < x.c.cfg.n_layer,
    ensures
        final(p)@ == pattn_ops(old(p)@, *x, *w, li as int),
{
    let (on, b, n) = (x.c.on, &x.b, &m.n);
    let (q, kk) = (b.q.ptr, b.k.ptr);
    if let Some(qn) = w.q_norm {
        if let Some(kn) = w.k_norm {
            p.run(k.norm(x, m, m.q_heads, q, qn.ptr, Ghost(n.q_heads)), PTag::RmsHeadsQ);
            p.run(k.norm(x, m, m.kv_heads, kk, kn.ptr, Ghost(n.kv_heads)), PTag::RmsHeadsK);
        }
    }
    p.run(k.rope(x, m, n.q_heads, q), PTag::RopeQ);
    p.run(k.rope(x, m, n.kv_heads, kk), PTag::RopeK);
    p.run(
        k.step.dense.launch_scale(on.dev, &on.stream, q, m.nqk, x.c.cfg.q_scale),
        PTag::ScaleQ,
    );
    p.push(
        PrefillOp::Fmha(
            FmhaCall {
                q,
                k: kk,
                v: b.v.ptr,
                o: b.o.ptr,
                lse: b.lse.ptr,
                seqlen: m.s,
                batch: 1,
                heads: n.q_heads,
                kv_heads: n.kv_heads,
                d: n.d,
            },
        ),
    );
    p.mark(PTag::Fmha);
    proof {
        lemma_layer_page(x.c, li as int);
    }
    p.run(
        k.rows.launch_kv_write_seq(
            on.dev,
            &on.stream,
            kk,
            b.v.ptr,
            x.c.kv,
            m.s,
            BLOCK_LEN as u32,
            n.kv_heads,
            n.d,
            (li * x.c.pp) as u32,
            n.total_pages,
        ),
        PTag::KvWrite,
    );
}

fn ppush_out(p: &mut PrefillProgram, x: &PrefillCtx, k: &PassKernels, m: &PrefillNums, w: &LayerWeights)
    requires
        x.wf(),
        x.bounds(*m),
    ensures
        final(p)@ == pout_ops(old(p)@, *x, *w),
{
    let (on, b) = (x.c.on, &x.b);
    let d = x.c.cfg.widths();
    p.gemm(on, b.o.ptr, w.o_proj.ptr, x.s, d.h, d.nqk, b.c_o.ptr, PTag::GemmO);
    p.run(k.cast(x, b.c_o.ptr, b.oadd.ptr, m.h, Ghost(m.n.h)), PTag::CastO);
    p.run(k.add(x, m, b.oadd.ptr), PTag::AddO);
}

fn ppush_ffn(p: &mut PrefillProgram, x: &PrefillCtx, k: &PassKernels, m: &PrefillNums, w: &LayerWeights)
    requires
        x.wf(),
        x.bounds(*m),
    ensures
        final(p)@ == pffn_ops(old(p)@, *x, *w),
{
    let (on, b) = (x.c.on, &x.b);
    let d = x.c.cfg.widths();
    let (h, ffn, xn) = (d.h, d.ffn, b.xn.ptr);
    p.run(k.rms(x, m, w.ffn_norm.ptr), PTag::RmsFfn);
    p.gemm(on, xn, w.gate_proj.ptr, x.s, ffn, h, b.c_g.ptr, PTag::GemmGate);
    p.put(k.cast(x, b.c_g.ptr, b.gate.ptr, m.ffn, Ghost(m.n.ffn)));
    p.gemm(on, xn, w.up_proj.ptr, x.s, ffn, h, b.c_u.ptr, PTag::GemmUp);
    p.run(k.cast(x, b.c_u.ptr, b.up.ptr, m.ffn, Ghost(m.n.ffn)), PTag::CastGU);
    let (g, u, o) = (b.gate.ptr, b.up.ptr, b.down.ptr);
    p.run(k.step.dense.launch_swiglu(on.dev, &on.stream, g, u, o, m.ffn), PTag::Swiglu);
    p.gemm(on, b.down.ptr, w.down_proj.ptr, x.s, h, ffn, b.c_d.ptr, PTag::GemmDown);
    p.run(k.cast(x, b.c_d.ptr, b.l2.ptr, m.h, Ghost(m.n.h)), PTag::CastD);
    p.run(k.add(x, m, b.l2.ptr), PTag::AddD);
    p.mark(PTag::LayerBoundary);
}

/// The pass over a prompt, from the uploaded tokens to the logits of every token.
pub fn prefill_batch_fmha(
    x: &PrefillCtx,
    k: &PassKernels,
    layers: &Vec<LayerWeights>,
    lm_head: u64,
) -> (p: PrefillProgram)
    requires
        x.wf(),
        layers@.len() == x.c.cfg.n_layer,
        x.b.c_qkv is Joined ==> forall|i: int|
            0 <= i < layers@.len() ==> (#[trigger] layers@[i]).qkv_proj is Some,
    ensures
        p@ == prefill_ops(*x, layers@, lm_head),
{
    let m = x.nums();
    let on = x.c.on;
    let mut p = PrefillProgram::new();
    let (embed, to, toks) = (x.c.embed, x.b.x.ptr, x.b.toks.ptr);
    p.run(
        k.rows.launch_gather_rows(on.dev, &on.stream, embed, to, toks, m.s, m.n.h),
        PTag::Gather,
    );
    let ghost s0 = p@;
    let mut li: usize = 0;
    while li < layers.len()
        invariant
            li <= layers.len(),
            x.wf(),
            x.bounds(m),
            layers@.len() == x.c.cfg.n_layer,
            x.b.c_qkv is Joined ==> forall|i: int|
                0 <= i < layers@.len() ==> (#[trigger] layers@[i]).qkv_proj is Some,
            p@ == players_ops(s0, *x, layers@, li as nat),
        decreases layers.len() - li,
    {
        let w = &layers[li];
        p.run(k.rms(x, &m, w.attn_norm.ptr), PTag::RmsAttn);
        ppush_qkv(&mut p, x, k, &m, w);
        ppush_attn(&mut p, x, k, &m, w, li);
        ppush_out(&mut p, x, k, &m, w);
        ppush_ffn(&mut p, x, k, &m, w);
        li = li + 1;
    }
    p.run(k.rms(x, &m, x.c.final_norm), PTag::FinalRms);
    let d = x.c.cfg.widths();
    p.gemm(on, x.b.xn.ptr, lm_head, x.s, d.vocab, d.h, x.b.logits.ptr, PTag::LmHead);
    p
}

/// Whether a pass uses the joined projections: the weights have them, and nothing
/// asks for the separate ones.
pub fn joined_qkv(layers: &Vec<LayerWeights>, apart: bool) -> (b: bool)
    ensures
        b == (layers@.len() > 0 && layers@[0].qkv_proj is Some && !apart),
{
    layers.len() > 0 && layers[0].qkv_proj.is_some() && !apart
}

/// Where the logits of the last of `s` tokens are, in bytes, and how many bytes.
pub fn last_logits(s: usize, vocab: usize) -> (r: (usize, usize))
    requires
        s > 0,
        s * vocab * 4 <= usize::MAX,
    ensures
        r.0 == (s - 1) * vocab * 4,
        r.1 == vocab * 4,
        r.0 + r.1 == s * vocab * 4,
{
    proof {
        let (a, v) = (s as int, vocab as int);
        assert(0 <= (a - 1) * v && (a - 1) * v + v == a * v) by (nonlinear_arith)
            requires
                a >= 1,
                v >= 0,
        ;
    }
    ((s - 1) * vocab * 4, vocab * 4)
}

/// A pass attends with extents that the attention kernels take.
pub proof fn pass_attention_is_valid(x: PrefillCtx)
    requires
        x.wf(),
    ensures
        p_fmha(x).wf(),
{
    let cfg = x.c.cfg;
    cfg.lemma_heads();
    lemma_times(x.s as int, 1, cfg.hidden_size as int);
    let (n, p) = (cfg.n_layer as int, x.c.pp as int);
    assert(p <= n * p) by (nonlinear_arith)
        requires
            n >= 1,
            p >= 0,
    ;
}

/// A pass writes the slots that single steps write: token `t` of the prompt goes to
/// the page and the place that a step at position `t` writes on that layer.
pub proof fn pass_writes_the_slots_of_steps(x: PrefillCtx, li: int, t: usize)
    requires
        x.wf(),
        0 <= li < x.c.cfg.n_layer,
        t < x.s,
    ensures
        p_kv_write(x, li).args[7] + t / BLOCK_LEN == x.c.phys(li, t),
        x.c.phys(li, t) < x.c.pages(),
{
    lemma_layer_page(x.c, li);
}

/// The steps of a token-by-token prefill visit the prompt's positions in order, each
/// with exactly the tokens before it and itself in the cache.
pub proof fn fallback_visits_every_position(ids: Seq<u32>, steps: Seq<StepArgs>, i: int)
    requires
        steps == Seq::new(
            ids.len(),
            |i: int| StepArgs { token: ids[i], pos: i as usize, kv_len: (i + 1) as usize },
        ),
        0 <= i < ids.len(),
        ids.len() <= usize::MAX,
    ensures
        steps.len() == ids.len(),
        steps[i].token == ids[i],
        steps[i].pos == i,
        steps[i].kv_len == steps[i].pos + 1,
{
}

} // verus!
