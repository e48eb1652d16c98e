//! The operations of a decode step, and what all its forms share.
//!
//! A step is a program: a sequence of operations that the application performs
//! in order.  The functions that describe one are written as what they append to
//! a sequence.

use vstd::prelude::*;

use crate::decode::DecodeKernels;
use crate::dense::DenseKernels;
use crate::diff::DiffKernels;
use crate::gemm::GemmPlan;
use crate::launch::{Launch, LaunchV, Queue};
use crate::math::wide_product;
use crate::model::{LlamaConfig, StepBuffers, BLOCK_LEN};

verus! {

/// Segments of a step, for the profiler.
pub const SEG_SMALL: u8 = 0;

pub const SEG_QKV: u8 = 1;

pub const SEG_ATTN: u8 = 2;

pub const SEG_O: u8 = 3;

pub const SEG_FFN_GU: u8 = 4;

pub const SEG_FFN_D: u8 = 5;

pub const SEG_FFN_RMS: u8 = 6;

pub const SEG_LM_HEAD: u8 = 7;

pub const SEG_LAYER: u8 = 8;

/// Number of segments.
pub const SEG_COUNT: usize = 9;

/// A call of the profiler.
#[derive(Debug, Clone, Copy, PartialEq, Eq, Structural)]
pub enum ProfOp {
    BeginStep,
    Count(u8),
    Start(u8),
    End(u8),
    EndWall,
    Finalize,
}

/// A buffer that is read back for a detailed trace.
#[derive(Debug, Clone, Copy, PartialEq, Eq, Structural)]
pub enum Anchor {
    X,
    Xn,
    Q,
    Attn,
}

/// An operation of a step.
#[derive(Debug)]
pub enum StepOp {
    /// Launch a kernel; a failure ends the program.
    Launch(Launch),
    /// Run a GEMM by the kernel that serves it.
    Gemm(GemmPlan),
    /// Launch flash attention; where that fails, count a fallback and launch the
    /// other kernel.
    Attn { flash: Launch, naive: Launch },
    /// Flash attention is over its budget: count a fallback and launch this.
    FlashRefused(Launch),
    /// Upload the KV length.
    UploadLens(u32),
    /// Call the profiler.
    Prof(ProfOp),
    /// Read a buffer back for the detailed trace.
    ReadBack(Anchor),
    /// Append the buffers read back to the detailed trace.
    PushDetail,
    /// Wait for the stream, read the residual row back and append it to the
    /// trace.
    TraceRow,
    /// Fold the stage marks of the layer kernels, where the profiler is armed.
    FoldStages,
}

/// The mathematical value of an operation.
pub enum StepOpV {
    Launch(LaunchV),
    Gemm(GemmPlan),
    Attn { flash: LaunchV, naive: LaunchV },
    FlashRefused(LaunchV),
    UploadLens(u32),
    Prof(ProfOp),
    ReadBack(Anchor),
    PushDetail,
    TraceRow,
    FoldStages,
}

impl View for StepOp {
    type V = StepOpV;

    open spec fn view(&self) -> StepOpV {
        match self {
            StepOp::Launch(l) => StepOpV::Launch(l@),
            StepOp::Gemm(p) => StepOpV::Gemm(*p),
            StepOp::Attn { flash, naive } => StepOpV::Attn { flash: flash@, naive: naive@ },
            StepOp::FlashRefused(l) => StepOpV::FlashRefused(l@),
            StepOp::UploadLens(n) => StepOpV::UploadLens(*n),
            StepOp::Prof(p) => StepOpV::Prof(*p),
            StepOp::ReadBack(a) => StepOpV::ReadBack(*a),
            StepOp::PushDetail => StepOpV::PushDetail,
            StepOp::TraceRow => StepOpV::TraceRow,
            StepOp::FoldStages => StepOpV::FoldStages,
        }
    }
}

/// A sequence of operations.
#[derive(Debug)]
pub struct Program {
    pub ops: Vec<StepOp>,
}

impl View for Program {
    type V = Seq<StepOpV>;

    open spec fn view(&self) -> Seq<StepOpV> {
        self.ops@.map_values(|o: StepOp| o@)
    }
}

/// `count` of the profiler, appended.
pub open spec fn count(s: Seq<StepOpV>, seg: u8) -> Seq<StepOpV> {
    s.push(StepOpV::Prof(ProfOp::Count(seg)))
}

/// `start_segment` of the profiler, appended.
pub open spec fn start(s: Seq<StepOpV>, seg: u8) -> Seq<StepOpV> {
    s.push(StepOpV::Prof(ProfOp::Start(seg)))
}

/// `end_segment` of the profiler, appended.
pub open spec fn end(s: Seq<StepOpV>, seg: u8) -> Seq<StepOpV> {
    s.push(StepOpV::Prof(ProfOp::End(seg)))
}

/// A launch and its count, appended.
pub open spec fn run(s: Seq<StepOpV>, l: LaunchV, seg: u8) -> Seq<StepOpV> {
    count(s.push(StepOpV::Launch(l)), seg)
}

/// A GEMM and its count, appended.
pub open spec fn gemm(s: Seq<StepOpV>, p: GemmPlan, seg: u8) -> Seq<StepOpV> {
    count(s.push(StepOpV::Gemm(p)), seg)
}

/// A read-back for the detailed trace, appended where one is kept.
pub open spec fn read_back(s: Seq<StepOpV>, detail: bool, a: Anchor) -> Seq<StepOpV> {
    if detail {
        s.push(StepOpV::ReadBack(a))
    } else {
        s
    }
}

/// The append to the detailed trace, where one is kept.
pub open spec fn push_detail(s: Seq<StepOpV>, detail: bool) -> Seq<StepOpV> {
    if detail {
        s.push(StepOpV::PushDetail)
    } else {
        s
    }
}

/// The append to the trace, where one is kept.
pub open spec fn trace_row(s: Seq<StepOpV>, trace: bool) -> Seq<StepOpV> {
    if trace {
        s.push(StepOpV::TraceRow)
    } else {
        s
    }
}

/// The start of a step, appended.
pub open spec fn begin(s: Seq<StepOpV>) -> Seq<StepOpV> {
    s.push(StepOpV::Prof(ProfOp::BeginStep))
}

/// The upload of the KV length and its count, appended.
pub open spec fn upload_lens(s: Seq<StepOpV>, kv_len: usize) -> Seq<StepOpV> {
    count(s.push(StepOpV::UploadLens(kv_len as u32)), SEG_SMALL)
}

/// The close of a step, appended.
pub open spec fn close(s: Seq<StepOpV>) -> Seq<StepOpV> {
    s.push(StepOpV::Prof(ProfOp::EndWall)).push(StepOpV::Prof(ProfOp::Finalize))
}

/// Decode attention and its count, appended: flash attention with its
/// alternative where it is on and fits, the alternative alone where not.
pub open spec fn attention(
    s: Seq<StepOpV>,
    flash_off: bool,
    fits: bool,
    flash: LaunchV,
    naive: LaunchV,
) -> Seq<StepOpV> {
    let op = if flash_off {
        StepOpV::Launch(naive)
    } else if fits {
        StepOpV::Attn { flash, naive }
    } else {
        StepOpV::FlashRefused(naive)
    };
    count(s.push(op), SEG_ATTN)
}

impl Program {
    pub fn new() -> (p: Self)
        ensures
            p@ == Seq::<StepOpV>::empty(),
    {
        let p = Program { ops: Vec::new() };
        proof {
            assert(p@ =~= Seq::<StepOpV>::empty());
        }
        p
    }

    /// Appends an operation.
    pub fn push(&mut self, op: StepOp)
        ensures
            final(self)@ == old(self)@.push(op@),
    {
        let ghost before = self@;
        self.ops.push(op);
        proof {
            assert(self@ =~= before.push(op@));
        }
    }

    pub fn count(&mut self, seg: u8)
        ensures
            final(self)@ == count(old(self)@, seg),
    {
        self.push(StepOp::Prof(ProfOp::Count(seg)));
    }

    pub fn start(&mut self, seg: u8)
        ensures
            final(self)@ == start(old(self)@, seg),
    {
        self.push(StepOp::Prof(ProfOp::Start(seg)));
    }

    pub fn end(&mut self, seg: u8)
        ensures
            final(self)@ == end(old(self)@, seg),
    {
        self.push(StepOp::Prof(ProfOp::End(seg)));
    }

    pub fn run(&mut self, l: Launch, seg: u8)
        ensures
            final(self)@ == run(old(self)@, l@, seg),
    {
        self.push(StepOp::Launch(l));
        self.count(seg);
    }

    pub fn gemm(&mut self, p: &GemmPlan, seg: u8)
        ensures
            final(self)@ == gemm(old(self)@, *p, seg),
    {
        self.push(StepOp::Gemm(*p));
        self.count(seg);
    }

    pub fn read_back(&mut self, detail: bool, a: Anchor)
        ensures
            final(self)@ == read_back(old(self)@, detail, a),
    {
        if detail {
            self.push(StepOp::ReadBack(a));
        }
    }

    pub fn push_detail(&mut self, detail: bool)
        ensures
            final(self)@ == push_detail(old(self)@, detail),
    {
        if detail {
            self.push(StepOp::PushDetail);
        }
    }

    pub fn trace_row(&mut self, trace: bool)
        ensures
            final(self)@ == trace_row(old(self)@, trace),
    {
        if trace {
            self.push(StepOp::TraceRow);
        }
    }

    pub fn begin(&mut self)
        ensures
            final(self)@ == begin(old(self)@),
    {
        self.push(StepOp::Prof(ProfOp::BeginStep));
    }

    pub fn upload_lens(&mut self, kv_len: usize)
        ensures
            final(self)@ == upload_lens(old(self)@, kv_len),
    {
        self.push(StepOp::UploadLens(#[verifier::truncate] (kv_len as u32)));
        self.count(SEG_SMALL);
    }

    pub fn close(&mut self)
        ensures
            final(self)@ == close(old(self)@),
    {
        self.push(StepOp::Prof(ProfOp::EndWall));
        self.push(StepOp::Prof(ProfOp::Finalize));
    }
}

/// What a decode step reads of the engine: its queue, the model, the buffers, and
/// the KV store with `pp` pages per layer.
#[derive(Debug, Clone, Copy, PartialEq, Eq, Structural)]
pub struct StepCtx {
    pub on: Queue,
    pub cfg: LlamaConfig,
    pub b: StepBuffers,
    pub embed: u64,
    pub final_norm: u64,
    pub kv: u64,
    pub pp: usize,
}

impl StepCtx {
    /// Pages of the whole KV store.
    pub open spec fn pages(self) -> int {
        self.cfg.n_layer * self.pp
    }

    /// Tokens that a layer's pages hold.
    pub open spec fn cap(self) -> int {
        self.pp * BLOCK_LEN
    }

    /// A context that the kernels' parameters can express: pages and tokens are
    /// counted in 32 bits, and the buffers that are addressed in parts lie within
    /// the address space.
    pub open spec fn wf(self) -> bool {
        &&& self.cfg.wf()
        &&& self.pages() <= u32::MAX
        &&& (self.cfg.head_dim + self.cap()) * 4 <= u32::MAX
        &&& self.b.pages.ptr + self.pages() * 4 <= u64::MAX
        &&& self.b.c_q.ptr + self.cfg.nqk() * 4 <= u64::MAX
        &&& self.b.c_k.ptr + self.cfg.kvk() * 4 <= u64::MAX
    }

    /// Whether a position can be named on every layer.
    pub open spec fn takes_pos(self, pos: usize) -> bool {
        pos <= u32::MAX && self.pages() + pos / 32 <= u32::MAX
    }

    /// The physical page of a position on a layer.
    pub open spec fn phys(self, li: int, pos: usize) -> int {
        li * self.pp + pos as int / 32
    }

    /// The page table of a layer.
    pub open spec fn page_table(self, li: int) -> u64 {
        (self.b.pages.ptr + li * self.pp * 4) as u64
    }
}

impl StepCtx {
    /// Whether the kernels' parameters can express the context.
    pub fn fits(&self) -> (b: bool)
        ensures
            b == self.wf(),
    {
        if !self.cfg.fits() {
            return false;
        }
        let pages: u128 = wide_product(self.cfg.n_layer, self.pp);
        let cap: u128 = wide_product(self.pp, BLOCK_LEN);
        if pages > 0xffff_ffff || cap > 0xffff_ffff {
            return false;
        }
        let w = self.cfg.widths();
        let d: u128 = self.cfg.head_dim as u128;
        proof {
            self.cfg.lemma_heads();
        }
        (d + cap) * 4 <= 0xffff_ffff && self.b.pages.ptr as u128 + pages * 4
            <= 0xffff_ffff_ffff_ffff && self.b.c_q.ptr as u128 + w.nqk as u128 * 4
            <= 0xffff_ffff_ffff_ffff && self.b.c_k.ptr as u128 + w.kvk as u128 * 4
            <= 0xffff_ffff_ffff_ffff
    }

    /// Whether a position can be named on every layer.
    pub fn can_take(&self, pos: usize) -> (b: bool)
        ensures
            b == self.takes_pos(pos),
    {
        let pages: u128 = wide_product(self.cfg.n_layer, self.pp);
        pos as u64 <= 0xffff_ffff && pages <= 0xffff_ffff && pages + pos as u128 / 32
            <= 0xffff_ffff
    }
}

/// The kernels that every form of a step launches.
#[derive(Debug)]
pub struct StepKernels {
    pub dense: DenseKernels,
    pub diff: DiffKernels,
    pub decode: DecodeKernels,
}

impl StepKernels {
    /// Whether all of them launch on the stream of a context.
    pub open spec fn launch_on(self, c: StepCtx) -> bool {
        &&& self.diff.stream == c.on.stream
        &&& self.decode.stream == c.on.stream
    }
}

/// The numbers of a step as kernel parameters.
#[derive(Debug, Clone, Copy, PartialEq, Eq, Structural)]
pub struct StepNums {
    pub h: u32,
    pub nqk: u32,
    pub kvk: u32,
    pub ffn: u32,
    pub vocab: u32,
    pub d: u32,
    pub half: u32,
    pub q_heads: u32,
    pub kv_heads: u32,
    pub ratio: u32,
    pub total_pages: u32,
    pub max_kv: u32,
}

impl StepCtx {
    pub open spec fn nums_of(self) -> StepNums {
        StepNums {
            h: self.cfg.hidden_size as u32,
            nqk: self.cfg.nqk() as u32,
            kvk: self.cfg.kvk() as u32,
            ffn: self.cfg.ffn_hidden as u32,
            vocab: self.cfg.vocab_size as u32,
            d: self.cfg.head_dim as u32,
            half: (self.cfg.head_dim / 2) as u32,
            q_heads: self.cfg.q_heads as u32,
            kv_heads: self.cfg.kv_heads as u32,
            ratio: self.cfg.ratio() as u32,
            total_pages: self.pages() as u32,
            max_kv: self.cap() as u32,
        }
    }

    /// The numbers of a step as kernel parameters.
    pub fn nums(&self) -> (n: StepNums)
        requires
            self.wf(),
        ensures
            n == self.nums_of(),
            n.h == self.cfg.hidden_size,
            n.nqk == self.cfg.nqk(),
            n.kvk == self.cfg.kvk(),
            n.ffn == self.cfg.ffn_hidden,
            n.vocab == self.cfg.vocab_size,
            n.d == self.cfg.head_dim,
            n.q_heads == self.cfg.q_heads,
            n.kv_heads == self.cfg.kv_heads,
            n.kv_heads * n.d <= u32::MAX,
            n.nqk == n.q_heads * n.d,
            n.kvk == n.kv_heads * n.d,
            n.ratio == self.cfg.q_heads as int / self.cfg.kv_heads as int,
            self.cfg.q_heads % self.cfg.kv_heads == 0 ==> n.ratio * n.kv_heads == n.q_heads,
            2 * n.half <= n.d <= 2 * n.half + 1,
            n.total_pages == self.pages(),
            n.total_pages == self.cfg.n_layer * self.pp,
            n.max_kv == self.cap(),
            n.max_kv == self.pp * 32,
            (n.d + n.max_kv) * 4 <= u32::MAX,
    {
        proof {
            self.cfg.lemma_heads();
            let (n, p) = (self.cfg.n_layer as int, self.pp as int);
            assert(p <= n * p) by (nonlinear_arith)
                requires
                    n >= 1,
                    p >= 0,
            ;
            let (q, k) = (self.cfg.q_heads as int, self.cfg.kv_heads as int);
            assert(q % k == 0 ==> q / k * k == q) by (nonlinear_arith)
                requires
                    k > 0,
            ;
        }
        let w = self.cfg.widths();
        StepNums {
            h: w.h as u32,
            nqk: w.nqk as u32,
            kvk: w.kvk as u32,
            ffn: w.ffn as u32,
            vocab: w.vocab as u32,
            d: self.cfg.head_dim as u32,
            half: (self.cfg.head_dim / 2) as u32,
            q_heads: self.cfg.q_heads as u32,
            kv_heads: self.cfg.kv_heads as u32,
            ratio: (self.cfg.q_heads / self.cfg.kv_heads) as u32,
            total_pages: (self.cfg.n_layer * self.pp) as u32,
            max_kv: (self.pp * BLOCK_LEN) as u32,
        }
    }

    /// The address of a layer's page table.
    pub fn layer_pages(&self, li: usize) -> (p: u64)
        requires
            self.wf(),
            li < self.cfg.n_layer,
        ensures
            p == self.page_table(li as int),
            p == self.b.pages.ptr + li * self.pp * 4,
    {
        proof {
            lemma_layer_page(*self, li as int);
        }
        self.b.pages.ptr + li as u64 * self.pp as u64 * 4
    }

    /// The physical page of a position on a layer.
    pub fn phys_page(&self, li: usize, pos: usize) -> (p: u32)
        requires
            self.wf(),
            li < self.cfg.n_layer,
            self.takes_pos(pos),
        ensures
            p == self.phys(li as int, pos),
    {
        proof {
            lemma_layer_page(*self, li as int);
        }
        (li * self.pp + pos / BLOCK_LEN) as u32
    }
}

/// A layer's pages lie within the store.
pub proof fn lemma_layer_page(c: StepCtx, li: int)
    requires
        c.wf(),
        0 <= li < c.cfg.n_layer,
    ensures
        0 <= li * c.pp <= c.pages() - c.pp,
        li * c.pp + c.pp == (li + 1) * c.pp,
        (li + 1) * c.pp <= c.pages(),
{
    let (n, p) = (c.cfg.n_layer as int, c.pp as int);
    assert(0 <= li * p && li * p + p == (li + 1) * p && (li + 1) * p <= n * p) by (nonlinear_arith)
        requires
            0 <= li,
            li + 1 <= n,
            p >= 0,
    ;
}

/// Every position that the cache holds has its slot within its layer's own pages.
pub proof fn slot_lies_in_its_layer(c: StepCtx, li: int, pos: usize)
    requires
        c.wf(),
        0 <= li < c.cfg.n_layer,
        pos < c.cap(),
    ensures
        li * c.pp <= c.phys(li, pos) < (li + 1) * c.pp,
        c.phys(li, pos) < c.pages(),
        0 <= pos % 32 < BLOCK_LEN,
{
    lemma_layer_page(c, li);
}

/// Two tokens never share a slot: different positions, or different layers, have
/// different pages or different places in a page.
pub proof fn slots_are_distinct(c: StepCtx, la: int, pa: usize, lb: int, pb: usize)
    requires
        c.wf(),
        0 <= la < c.cfg.n_layer,
        0 <= lb < c.cfg.n_layer,
        pa < c.cap(),
        pb < c.cap(),
        c.phys(la, pa) == c.phys(lb, pb),
        pa % 32 == pb % 32,
    ensures
        la == lb,
        pa == pb,
{
    slot_lies_in_its_layer(c, la, pa);
    slot_lies_in_its_layer(c, lb, pb);
    let p = c.pp as int;
    if la < lb {
        assert((la + 1) * p <= lb * p) by (nonlinear_arith)
            requires
                la + 1 <= lb,
                p >= 0,
        ;
    }
    if lb < la {
        assert((lb + 1) * p <= la * p) by (nonlinear_arith)
            requires
                lb + 1 <= la,
                p >= 0,
        ;
    }
}

} // verus!
