//! What a launch does to one row, and that a row of a merged step is computed as a step
//! of its own.

use vstd::prelude::*;

use crate::batch::BatchReq;
use crate::batch_step::{
    b_add, b_cast, b_flash, b_gather, b_kv_write, b_naive, b_naives, b_norm, b_rms, b_rope,
    b_swiglu, batch_ops, battn_ops, bffn_ops, bgemm, blayers_ops, bmark, bqkv_ops, brope_ops, brun,
    BatchCtx, BatchMark, BatchOpV,
};
use crate::buffer::DeviceBuffer;
use crate::decode::flash_fits;
use crate::float_bits::F32_ONE;
use crate::gemm::{shape_slabs, GemmPlan};
use crate::launch::{Kernel, LaunchV};
use crate::model::LayerWeights;
use crate::plans::{head_plan, layer_plans, plans_of, DecodeGemmPlans, LayerGemmPlans};
use crate::split::{
    attn_ops, epilogue, ffn_ops, head_norm_ops, l_add, l_add_rms, l_flash, l_kv_write, l_naive,
    l_rms, l_rope_k, l_rope_q, l_swiglu, layers_ops, norm_ops, prologue, qkv_ops, split_ops,
    StepMode,
};
use crate::step::{
    attention, close, end, gemm, push_detail, read_back, run, start, trace_row, Anchor, StepCtx,
    StepOpV, SEG_ATTN, SEG_FFN_D, SEG_FFN_GU, SEG_FFN_RMS, SEG_LM_HEAD, SEG_O,
};

verus! {

/// An operation on one row.  Operands are named by address, cache pages by their number
/// among the row's own pages.
pub enum RowOp {
    /// The embedding row of a token.
    Gather { src: int, dst: int, token: int, n: int },
    Rms { x: int, out: int, w: int, n: int, eps: int },
    /// A product with a matrix, its reduction in `slabs` parts.
    Product { a: int, w: int, c: int, n: int, k: int, slabs: int },
    Cast { from: int, to: int, n: int },
    HeadNorm { x: int, out: int, w: int, heads: int, d: int, eps: int },
    Rope { x: int, heads: int, half: int, pos: int, eta: int, scale: int },
    /// The write of the cache slot.
    Write { k: int, v: int, page: int, place: int, block_len: int, kv_heads: int, d: int },
    /// Attention over the first `len` tokens of the pages from `page` on, by the flash
    /// kernel or by the naive one.
    Attend {
        flash: bool,
        q: int,
        page: int,
        len: int,
        out: int,
        heads: int,
        d: int,
        block_len: int,
        ratio: int,
        kv_heads: int,
    },
    /// The residual add of a row cast to `f16`.
    AddCast { x: int, c: int, n: int },
    Add { x: int, y: int, n: int },
    Glu { gate: int, up: int, out: int, n: int },
    /// Any other launch.
    Other(LaunchV),
}

/// A residual add, appended; one whose addend was cast just before is a residual add of
/// the row that was cast.
pub open spec fn push_add(s: Seq<RowOp>, x: int, y: int, n: int) -> Seq<RowOp> {
    let add = s.push(RowOp::Add { x, y, n });
    if s.len() == 0 {
        add
    } else {
        match s.last() {
            RowOp::Cast { from, to, n: m } => if to == y && m == n {
                s.drop_last().push(RowOp::AddCast { x, c: from, n })
            } else {
                add
            },
            _ => add,
        }
    }
}

/// What a launch of a single step does, appended.
pub open spec fn row_of_launch(s: Seq<RowOp>, l: LaunchV) -> Seq<RowOp> {
    let a = l.args.map_values(|w: u64| w as int);
    match l.kernel {
        Kernel::GatherRow => s.push(RowOp::Gather { src: a[0], dst: a[1], token: a[2], n: a[3] }),
        Kernel::RmsNormRowF16 => s.push(
            RowOp::Rms { x: a[0], out: a[1], w: a[2], n: a[3], eps: a[4] },
        ),
        Kernel::CastF32ToF16 => s.push(RowOp::Cast { from: a[0], to: a[1], n: a[2] }),
        Kernel::RmsNormHeadsF16 => s.push(
            RowOp::HeadNorm { x: a[0], out: a[1], w: a[2], heads: a[3], d: a[4], eps: a[5] },
        ),
        Kernel::RopeHeadsF16 => s.push(
            RowOp::Rope { x: a[0], heads: a[1], half: a[2], pos: a[3], eta: a[4], scale: a[5] },
        ),
        Kernel::KvWriteRow => s.push(
            RowOp::Write {
                k: a[0],
                v: a[1],
                page: a[3],
                place: a[4],
                block_len: a[5],
                kv_heads: a[6],
                d: a[7],
            },
        ),
        Kernel::FusedAddRmsF16 => s.push(RowOp::AddCast { x: a[0], c: a[1], n: a[4] }).push(
            RowOp::Rms { x: a[0], out: a[2], w: a[3], n: a[4], eps: a[5] },
        ),
        Kernel::FusedCastSwigluF16 => s.push(
            RowOp::Glu { gate: a[0], up: a[1], out: a[2], n: a[3] },
        ),
        Kernel::AddCastF16 => s.push(RowOp::AddCast { x: a[0], c: a[1], n: a[2] }),
        _ => s.push(RowOp::Other(l)),
    }
}

/// What flash attention of a single step does, where the row has `len` tokens and its
/// pages are named by the table at `table`.
pub open spec fn row_of_flash(l: LaunchV, table: u64, len: u32) -> RowOp {
    RowOp::Attend {
        flash: true,
        q: l.args[0] as int,
        page: (l.args[1] - table) / 4,
        len: len as int,
        out: l.args[4] as int,
        heads: l.args[6] as int,
        d: l.args[7] as int,
        block_len: l.args[8] as int,
        ratio: l.args[9] as int,
        kv_heads: l.args[10] as int,
    }
}

/// What naive attention over one row does, where the row has `len` tokens, at `lens`, and
/// its pages are named by the table at `table`.  It keeps its scores in rows as wide as
/// the launch says, and is that attention where they hold a score for every token.
pub open spec fn row_of_naive(l: LaunchV, table: int, lens: int, len: u32) -> RowOp {
    if l.kernel == Kernel::DecodeStepGqa && l.args[3] == lens && l.args[6] == 1 && len
        <= l.args[12] {
        RowOp::Attend {
            flash: false,
            q: l.args[0] as int,
            page: (l.args[1] - table) / 4,
            len: len as int,
            out: l.args[5] as int,
            heads: l.args[7] as int,
            d: l.args[8] as int,
            block_len: l.args[9] as int,
            ratio: l.args[10] as int,
            kv_heads: l.args[11] as int,
        }
    } else {
        RowOp::Other(l)
    }
}

/// What naive attention of a single step does.
pub open spec fn row_of_step_naive(l: LaunchV, c: StepCtx, len: u32) -> RowOp {
    row_of_naive(l, c.b.pages.ptr as int, c.b.lens.ptr as int, len)
}

/// What naive attention of the `i`-th request of a merged step does.
pub open spec fn row_of_merged_naive(l: LaunchV, x: BatchCtx, r: BatchReq, i: int) -> RowOp {
    row_of_naive(
        l,
        x.sc.pages.ptr + i * x.c.pages() * 4,
        x.sc.lens.ptr + i * 4,
        r.kv.len as u32,
    )
}

/// What a product of a single step does.
pub open spec fn row_of_plan(p: GemmPlan) -> RowOp {
    RowOp::Product {
        a: p.a as int,
        w: p.b as int,
        c: p.c as int,
        n: p.n as int,
        k: p.k as int,
        slabs: shape_slabs(p.n, p.k),
    }
}

/// What an operation of a single step does to its row, appended; `lost` says whether
/// launches of flash attention fail.
pub open spec fn row_of_op(
    s: Seq<RowOp>,
    o: StepOpV,
    c: StepCtx,
    len: u32,
    lost: bool,
) -> Seq<RowOp> {
    match o {
        StepOpV::Launch(l) => if l.kernel == Kernel::DecodeStepGqa {
            s.push(row_of_step_naive(l, c, len))
        } else {
            row_of_launch(s, l)
        },
        StepOpV::Gemm(p) => s.push(row_of_plan(p)),
        StepOpV::Attn { flash, naive } => if lost {
            s.push(row_of_step_naive(naive, c, len))
        } else {
            s.push(row_of_flash(flash, c.b.pages.ptr, len))
        },
        StepOpV::FlashRefused(l) => s.push(row_of_step_naive(l, c, len)),
        _ => s,
    }
}

/// What a single step does to its row.
pub open spec fn step_row(ops: Seq<StepOpV>, c: StepCtx, len: u32, lost: bool) -> Seq<RowOp>
    decreases ops.len(),
{
    if ops.len() == 0 {
        Seq::empty()
    } else {
        row_of_op(step_row(ops.drop_last(), c, len, lost), ops.last(), c, len, lost)
    }
}

/// What a launch of a merged step of `b` rows does to row `i`, appended: the operands of
/// the row are the `i`-th of `b` equal parts, and its token, its position and its length
/// are those that were staged for its request.
pub open spec fn row_of_merged(s: Seq<RowOp>, l: LaunchV, b: int, r: BatchReq, i: int) -> Seq<
    RowOp,
> {
    let a = l.args.map_values(|w: u64| w as int);
    match l.kernel {
        Kernel::GatherRowsF16 => s.push(
            RowOp::Gather { src: a[0], dst: a[1] + i * a[4] * 2, token: r.token as int, n: a[4] },
        ),
        Kernel::RmsNormRowsF16 => s.push(
            RowOp::Rms {
                x: a[0] + i * a[4] * 2,
                out: a[1] + i * a[4] * 2,
                w: a[2],
                n: a[4],
                eps: a[5],
            },
        ),
        Kernel::CastF32ToF16 => s.push(
            RowOp::Cast {
                from: a[0] + i * (a[2] / b) * 4,
                to: a[1] + i * (a[2] / b) * 2,
                n: a[2] / b,
            },
        ),
        Kernel::RmsNormHeadsF16 => s.push(
            RowOp::HeadNorm {
                x: a[0] + i * ((a[3] / b) * a[4]) * 2,
                out: a[1] + i * ((a[3] / b) * a[4]) * 2,
                w: a[2],
                heads: a[3] / b,
                d: a[4],
                eps: a[5],
            },
        ),
        Kernel::KvWriteBatchF16 => s.push(
            RowOp::Write {
                k: a[0] + i * (a[7] * a[8]) * 2,
                v: a[1] + i * (a[7] * a[8]) * 2,
                page: a[11] * (a[12] / a[6]) + r.pos as int / a[6],
                place: r.pos as int % a[6],
                block_len: a[6],
                kv_heads: a[7],
                d: a[8],
            },
        ),
        Kernel::AddF16 => push_add(
            s,
            a[0] + i * (a[2] / b) * 2,
            a[1] + i * (a[2] / b) * 2,
            a[2] / b,
        ),
        Kernel::FusedCastSwigluF16 => s.push(
            RowOp::Glu {
                gate: a[0] + i * (a[3] / b) * 4,
                up: a[1] + i * (a[3] / b) * 4,
                out: a[2] + i * (a[3] / b) * 2,
                n: a[3] / b,
            },
        ),
        _ => s.push(RowOp::Other(l)),
    }
}

/// What the rotary embedding of a merged step does to row `i`, with heads of `d`
/// elements.
pub open spec fn row_of_rope(l: LaunchV, d: int, r: BatchReq, i: int) -> RowOp {
    RowOp::Rope {
        x: l.args[0] + i * (l.args[3] * d) * 2,
        heads: l.args[3] as int,
        half: l.args[4] as int,
        pos: (r.pos as u32) as int,
        eta: l.args[5] as int,
        scale: l.args[6] as int,
    }
}

/// What flash attention of a merged step does to row `i`.
pub open spec fn row_of_merged_flash(l: LaunchV, r: BatchReq, i: int) -> RowOp {
    let a = l.args;
    RowOp::Attend {
        flash: true,
        q: a[0] + i * (a[6] * a[7]) * 2,
        page: a[14] * (a[11] as int / a[8] as int),
        len: (r.kv.len as u32) as int,
        out: a[4] + i * (a[6] * a[7]) * 2,
        heads: a[6] as int,
        d: a[7] as int,
        block_len: a[8] as int,
        ratio: a[9] as int,
        kv_heads: a[10] as int,
    }
}

/// What an operation of a merged step does to row `i`, appended.
pub open spec fn row_of_batch_op(
    s: Seq<RowOp>,
    o: BatchOpV,
    x: BatchCtx,
    r: BatchReq,
    i: int,
    lost: bool,
) -> Seq<RowOp> {
    match o {
        BatchOpV::Launch(l) => if l.kernel == Kernel::RopeNeoxBatchF16 {
            s.push(row_of_rope(l, x.c.cfg.head_dim as int, r, i))
        } else {
            row_of_merged(s, l, x.b as int, r, i)
        },
        BatchOpV::Gemm(g) => s.push(
            RowOp::Product {
                a: g.a + i * g.k * 2,
                w: g.w as int,
                c: g.c + i * g.n * 4,
                n: g.n as int,
                k: g.k as int,
                slabs: shape_slabs(g.n as i32, g.k as i32),
            },
        ),
        BatchOpV::Attn { flash, naive } => if lost {
            s.push(row_of_merged_naive(naive[i], x, r, i))
        } else {
            s.push(row_of_merged_flash(flash, r, i))
        },
        BatchOpV::FlashRefused(v) => s.push(row_of_merged_naive(v[i], x, r, i)),
        BatchOpV::Mark(_) => s,
    }
}

/// What a merged step does to row `i`.
pub open spec fn batch_row(
    ops: Seq<BatchOpV>,
    x: BatchCtx,
    r: BatchReq,
    i: int,
    lost: bool,
) -> Seq<RowOp>
    decreases ops.len(),
{
    if ops.len() == 0 {
        Seq::empty()
    } else {
        row_of_batch_op(batch_row(ops.drop_last(), x, r, i, lost), ops.last(), x, r, i, lost)
    }
}

broadcast proof fn lemma_step_row_push(
    ops: Seq<StepOpV>,
    o: StepOpV,
    c: StepCtx,
    len: u32,
    lost: bool,
)
    ensures
        #[trigger] step_row(ops.push(o), c, len, lost) == row_of_op(
            step_row(ops, c, len, lost),
            o,
            c,
            len,
            lost,
        ),
{
    assert(ops.push(o).drop_last() =~= ops);
}

broadcast proof fn lemma_batch_row_push(
    ops: Seq<BatchOpV>,
    o: BatchOpV,
    x: BatchCtx,
    r: BatchReq,
    i: int,
    lost: bool,
)
    ensures
        #[trigger] batch_row(ops.push(o), x, r, i, lost) == row_of_batch_op(
            batch_row(ops, x, r, i, lost),
            o,
            x,
            r,
            i,
            lost,
        ),
{
    assert(ops.push(o).drop_last() =~= ops);
}

/// Whether a context is that of a single step over row `i` of a batch: the same model and
/// weights, and the row's part of every buffer.
pub open spec fn is_row(c: StepCtx, x: BatchCtx, i: int) -> bool {
    let (g, sc) = (x.c.cfg, x.sc);
    let (h, f) = (g.hidden_size as int, g.ffn_hidden as int);
    &&& c.cfg == g
    &&& c.pp == x.c.pp
    &&& c.embed == x.c.embed
    &&& c.final_norm == x.c.final_norm
    &&& c.b.x.ptr == sc.x.ptr + i * h * 2
    &&& c.b.xn.ptr == sc.xn.ptr + i * h * 2
    &&& c.b.q.ptr == sc.q.ptr + i * g.nqk() * 2
    &&& c.b.k.ptr == sc.k.ptr + i * g.kvk() * 2
    &&& c.b.v.ptr == sc.v.ptr + i * g.kvk() * 2
    &&& c.b.attn.ptr == sc.attn.ptr + i * g.nqk() * 2
    &&& c.b.down.ptr == sc.down.ptr + i * f * 2
    &&& c.b.c_q.ptr == sc.c_q.ptr + i * g.nqk() * 4
    &&& c.b.c_k.ptr == sc.c_k.ptr + i * g.kvk() * 4
    &&& c.b.c_v.ptr == sc.c_v.ptr + i * g.kvk() * 4
    &&& c.b.c_o.ptr == sc.c_o.ptr + i * h * 4
    &&& c.b.c_g.ptr == sc.c_g.ptr + i * f * 4
    &&& c.b.c_u.ptr == sc.c_u.ptr + i * f * 4
    &&& c.b.c_d.ptr == sc.c_d.ptr + i * h * 4
    &&& c.b.logits.ptr == sc.logits.ptr + i * g.vocab_size * 4
}

/// Whether the rows of scores of naive attention hold a score for every token of a
/// request, in a merged step and in a single one, whose rows are as wide as the page
/// table is long.
pub open spec fn has_room(c: StepCtx, r: BatchReq) -> bool {
    r.kv.len <= c.cap() && r.kv.len <= c.pages()
}

/// Whether a merged step and a single one attend by the same kernel: a merged step always
/// tries flash attention, which a single step leaves out where it is switched off.
pub open spec fn agrees(c: StepCtx, r: BatchReq, flash_off: bool, lost: bool) -> bool {
    let naive = lost || !flash_fits(c.nums_of().d, c.nums_of().max_kv);
    &&& flash_off ==> naive
    &&& naive ==> has_room(c, r)
}

/// A merged step and a single step that are compared.
spec fn compared(x: BatchCtx, c: StepCtx, r: BatchReq, i: int) -> bool {
    &&& x.wf()
    &&& c.wf()
    &&& is_row(c, x, i)
    &&& 0 <= i < x.b
    &&& c.takes_pos(r.pos)
}

proof fn lemma_part(b: int, w: int)
    requires
        b > 0,
        w >= 0,
    ensures
        (b * w) / b == w,
{
    vstd::arithmetic::div_mod::lemma_div_multiples_vanish(w, b);
}

/// The parts of a batch's rows are the rows.
proof fn lemma_parts(x: BatchCtx, c: StepCtx, r: BatchReq, i: int)
    requires
        compared(x, c, r, i),
    ensures
        ({
            let (n, b) = (x.c.nums_of(), x.b as int);
            &&& n == c.nums_of()
            &&& n.h == x.c.cfg.hidden_size
            &&& n.nqk == x.c.cfg.nqk()
            &&& n.kvk == x.c.cfg.kvk()
            &&& n.ffn == x.c.cfg.ffn_hidden
            &&& n.q_heads == x.c.cfg.q_heads
            &&& n.kv_heads == x.c.cfg.kv_heads
            &&& n.d == x.c.cfg.head_dim
            &&& n.max_kv == x.c.pp * 32
            &&& n.q_heads * n.d == n.nqk
            &&& n.kv_heads * n.d == n.kvk
            &&& x.rows(n.h) as int / b == n.h
            &&& x.rows(n.nqk) as int / b == n.nqk
            &&& x.rows(n.kvk) as int / b == n.kvk
            &&& x.rows(n.ffn) as int / b == n.ffn
            &&& x.rows(n.q_heads) as int / b == n.q_heads
            &&& x.rows(n.kv_heads) as int / b == n.kv_heads
        }),
{
    let cfg = x.c.cfg;
    cfg.lemma_heads();
    let b = x.b as int;
    lemma_part(b, cfg.hidden_size as int);
    lemma_part(b, cfg.nqk());
    lemma_part(b, cfg.kvk());
    lemma_part(b, cfg.ffn_hidden as int);
    lemma_part(b, cfg.q_heads as int);
    lemma_part(b, cfg.kv_heads as int);
    let (q, k) = (cfg.q_heads as int, cfg.kv_heads as int);
    assert(0 <= b * q <= b * cfg.nqk() && 0 <= b * k <= b * cfg.kvk()) by (nonlinear_arith)
        requires
            b > 0,
            0 <= q <= cfg.nqk(),
            0 <= k <= cfg.kvk(),
    ;
}

proof fn lemma_qkv_row(
    t: Seq<BatchOpV>,
    o: Seq<StepOpV>,
    x: BatchCtx,
    c: StepCtx,
    w: LayerWeights,
    r: BatchReq,
    i: int,
    m: StepMode,
    lost: bool,
)
    requires
        compared(x, c, r, i),
        batch_row(t, x, r, i, lost) == step_row(o, c, r.kv.len as u32, lost),
    ensures
        batch_row(bqkv_ops(t, x, w), x, r, i, lost) == step_row(
            qkv_ops(norm_ops(o, c, w, m.detail), c, layer_plans(c.cfg, c.b, w, false)),
            c,
            r.kv.len as u32,
            lost,
        ),
{
    broadcast use lemma_step_row_push, lemma_batch_row_push;

    lemma_parts(x, c, r, i);
}

/// Rotary embedding of a row.
proof fn lemma_ropes(s: Seq<RowOp>, x: BatchCtx, c: StepCtx, r: BatchReq, i: int, lost: bool)
    requires
        compared(x, c, r, i),
    ensures
        ({
            let (n, len) = (c.nums_of(), r.kv.len as u32);
            let q = BatchOpV::Launch(b_rope(x, n.q_heads, x.sc.q.ptr, x.c.cfg.q_scale));
            let k = BatchOpV::Launch(b_rope(x, n.kv_heads, x.sc.k.ptr, F32_ONE));
            &&& row_of_batch_op(s, q, x, r, i, lost) == row_of_op(
                s,
                StepOpV::Launch(l_rope_q(c, r.pos as u32)),
                c,
                len,
                lost,
            )
            &&& row_of_batch_op(s, k, x, r, i, lost) == row_of_op(
                s,
                StepOpV::Launch(l_rope_k(c, r.pos as u32)),
                c,
                len,
                lost,
            )
        }),
{
    lemma_parts(x, c, r, i);
}

/// The write of a row's cache slot, and its attention.
proof fn lemma_cache(s: Seq<RowOp>, x: BatchCtx, c: StepCtx, r: BatchReq, i: int, li: int, lost: bool)
    requires
        compared(x, c, r, i),
        0 <= li < c.cfg.n_layer,
    ensures
        row_of_batch_op(s, BatchOpV::Launch(b_kv_write(x, li)), x, r, i, lost) == row_of_op(
            s,
            StepOpV::Launch(l_kv_write(c, c.phys(li, r.pos) as u32, (r.pos % 32) as u32)),
            c,
            r.kv.len as u32,
            lost,
        ),
        row_of_merged_flash(b_flash(x, li), r, i) == row_of_flash(
            l_flash(c, li),
            c.b.pages.ptr,
            r.kv.len as u32,
        ),
{
    lemma_parts(x, c, r, i);
    let (l, n, p) = (li, c.cfg.n_layer as int, c.pp as int);
    assert(0 <= l * p <= n * p) by (nonlinear_arith)
        requires
            0 <= l < n,
            p >= 0,
    ;
    assert(c.page_table(li) == c.b.pages.ptr + li * c.pp * 4);
    assert(x.c.nums_of().max_kv as int / 32 == c.pp);
}

/// Naive attention of a row.
proof fn lemma_naive(
    x: BatchCtx,
    c: StepCtx,
    reqs: Seq<BatchReq>,
    r: BatchReq,
    i: int,
    li: int,
)
    requires
        compared(x, c, r, i),
        reqs.len() == x.b,
        reqs[i] == r,
        0 <= li < c.cfg.n_layer,
        has_room(c, r),
    ensures
        row_of_merged_naive(b_naives(x, reqs, li)[i], x, r, i) == row_of_step_naive(
            l_naive(c, li),
            c,
            r.kv.len as u32,
        ),
{
    lemma_parts(x, c, r, i);
    let (b, l, n, p, q) = (x.b as int, li, c.cfg.n_layer as int, c.pp as int, c.cfg.nqk());
    let pages = n * p;
    assert(0 <= l * p <= pages) by (nonlinear_arith)
        requires
            0 <= l < n,
            p >= 0,
            pages == n * p,
    ;
    assert(0 <= i * pages + l * p <= b * pages) by (nonlinear_arith)
        requires
            0 <= i < b,
            0 <= l * p <= pages,
    ;
    assert(0 <= i * q <= b * q) by (nonlinear_arith)
        requires
            0 <= i < b,
            q >= 0,
    ;
    assert(c.page_table(li) == c.b.pages.ptr + li * c.pp * 4);
    let a = b_naives(x, reqs, li)[i];
    assert(a == b_naive(x, reqs, i, li));
    assert(a.args[1] == x.sc.pages.ptr + (i * pages + l * p) * 4);
    assert((i * pages + l * p) * 4 - i * pages * 4 == l * p * 4);
}

/// The norms of a row's heads.
proof fn lemma_head_norms(
    t: Seq<BatchOpV>,
    o: Seq<StepOpV>,
    x: BatchCtx,
    c: StepCtx,
    w: LayerWeights,
    r: BatchReq,
    i: int,
    lost: bool,
)
    requires
        compared(x, c, r, i),
        batch_row(t, x, r, i, lost) == step_row(o, c, r.kv.len as u32, lost),
    ensures
        batch_row(merged_norms(t, x, w), x, r, i, lost) == step_row(
            head_norm_ops(start(o, SEG_ATTN), c, w),
            c,
            r.kv.len as u32,
            lost,
        ),
{
    broadcast use lemma_step_row_push, lemma_batch_row_push;

    lemma_parts(x, c, r, i);
}

spec fn merged_norms(t: Seq<BatchOpV>, x: BatchCtx, w: LayerWeights) -> Seq<BatchOpV> {
    let n = x.c.nums_of();
    match (w.q_norm, w.k_norm) {
        (Some(qn), Some(kn)) => brun(
            brun(t, b_norm(x, n.q_heads, x.sc.q.ptr, qn.ptr)),
            b_norm(x, n.kv_heads, x.sc.k.ptr, kn.ptr),
        ),
        _ => t,
    }
}

proof fn lemma_attn_row(
    t: Seq<BatchOpV>,
    o: Seq<StepOpV>,
    x: BatchCtx,
    c: StepCtx,
    w: LayerWeights,
    reqs: Seq<BatchReq>,
    r: BatchReq,
    i: int,
    li: int,
    off: bool,
    detail: bool,
    lost: bool,
)
    requires
        compared(x, c, r, i),
        0 <= li < c.cfg.n_layer,
        reqs.len() == x.b,
        reqs[i] == r,
        agrees(c, r, off, lost),
        batch_row(t, x, r, i, lost) == step_row(o, c, r.kv.len as u32, lost),
    ensures
        batch_row(battn_ops(brope_ops(t, x, w), x, reqs, li), x, r, i, lost) == step_row(
            attn_ops(o, c, w, li, r.pos, off, detail),
            c,
            r.kv.len as u32,
            lost,
        ),
{
    broadcast use lemma_step_row_push, lemma_batch_row_push;

    let n = x.c.nums_of();
    assert(n == c.nums_of());
    lemma_head_norms(t, o, x, c, w, r, i, lost);
    let t1 = merged_norms(t, x, w);
    let o1 = head_norm_ops(start(o, SEG_ATTN), c, w);
    lemma_ropes(batch_row(t1, x, r, i, lost), x, c, r, i, lost);
    let t2 = brun(t1, b_rope(x, n.q_heads, x.sc.q.ptr, x.c.cfg.q_scale));
    let o2 = run(o1, l_rope_q(c, r.pos as u32), SEG_ATTN);
    assert(batch_row(t2, x, r, i, lost) == step_row(o2, c, r.kv.len as u32, lost));
    lemma_ropes(batch_row(t2, x, r, i, lost), x, c, r, i, lost);
    let t3 = bmark(brun(t2, b_rope(x, n.kv_heads, x.sc.k.ptr, F32_ONE)), BatchMark::Qkv);
    let o3 = read_back(run(o2, l_rope_k(c, r.pos as u32), SEG_ATTN), detail, Anchor::Q);
    assert(batch_row(t3, x, r, i, lost) == step_row(o3, c, r.kv.len as u32, lost));
    assert(t3 == brope_ops(t, x, w));
    lemma_cache(batch_row(t3, x, r, i, lost), x, c, r, i, li, lost);
    let t4 = brun(t3, b_kv_write(x, li));
    let phys = c.phys(li, r.pos) as u32;
    let o4 = run(o3, l_kv_write(c, phys, (r.pos % 32) as u32), SEG_ATTN);
    assert(batch_row(t4, x, r, i, lost) == step_row(o4, c, r.kv.len as u32, lost));
    let fits = flash_fits(n.d, n.max_kv);
    if lost || off || !fits {
        lemma_naive(x, c, reqs, r, i, li);
    }
    let op = if fits {
        BatchOpV::Attn { flash: b_flash(x, li), naive: b_naives(x, reqs, li) }
    } else {
        BatchOpV::FlashRefused(b_naives(x, reqs, li))
    };
    let t5 = bmark(t4.push(op), BatchMark::Attn);
    assert(t5 == battn_ops(t3, x, reqs, li));
    let o5 = end(attention(o4, off, fits, l_flash(c, li), l_naive(c, li)), SEG_ATTN);
    assert(batch_row(t5, x, r, i, lost) == step_row(o5, c, r.kv.len as u32, lost));
    let o6 = push_detail(read_back(o5, detail, Anchor::Attn), detail);
    assert(o6 == attn_ops(o, c, w, li, r.pos, off, detail));
}

/// The residual add of a row: a cast and an add of the merged step are one add of the
/// single step.
proof fn lemma_residual(
    t: Seq<BatchOpV>,
    x: BatchCtx,
    c: StepCtx,
    from: u64,
    at: u64,
    r: BatchReq,
    i: int,
    lost: bool,
)
    requires
        compared(x, c, r, i),
        at == from + i * x.c.cfg.hidden_size * 4,
    ensures
        ({
            let n = c.nums_of();
            batch_row(
                brun(brun(t, b_cast(x, from, x.sc.oadd.ptr, n.h)), b_add(x)),
                x,
                r,
                i,
                lost,
            ) == batch_row(t, x, r, i, lost).push(
                RowOp::AddCast { x: c.b.x.ptr as int, c: at as int, n: n.h as int },
            )
        }),
{
    broadcast use lemma_batch_row_push;

    lemma_parts(x, c, r, i);
    let n = c.nums_of();
    let s = batch_row(t, x, r, i, lost);
    let cast = RowOp::Cast {
        from: at as int,
        to: x.sc.oadd.ptr + i * n.h * 2,
        n: n.h as int,
    };
    let t1 = brun(t, b_cast(x, from, x.sc.oadd.ptr, n.h));
    assert(batch_row(t1, x, r, i, lost) == s.push(cast));
    assert(s.push(cast).drop_last() =~= s);
    assert(s.push(cast).last() == cast);
}

/// Norm, products and gate of a row.
proof fn lemma_small(s: Seq<RowOp>, x: BatchCtx, c: StepCtx, w: u64, r: BatchReq, i: int, lost: bool)
    requires
        compared(x, c, r, i),
    ensures
        row_of_batch_op(s, BatchOpV::Launch(b_rms(x, w)), x, r, i, lost) == row_of_op(
            s,
            StepOpV::Launch(l_rms(c, w)),
            c,
            r.kv.len as u32,
            lost,
        ),
        row_of_batch_op(s, BatchOpV::Launch(b_swiglu(x)), x, r, i, lost) == row_of_op(
            s,
            StepOpV::Launch(l_swiglu(c)),
            c,
            r.kv.len as u32,
            lost,
        ),
{
    lemma_parts(x, c, r, i);
}

/// A product of a row.
proof fn lemma_product(
    t: Seq<BatchOpV>,
    x: BatchCtx,
    a: u64,
    w: u64,
    n: int,
    k: int,
    c: u64,
    p: GemmPlan,
    r: BatchReq,
    i: int,
    lost: bool,
)
    requires
        0 <= n < 0x4000_0000,
        0 <= k < 0x4000_0000,
        p.a == a + i * k * 2,
        p.b == w,
        p.c == c + i * n * 4,
        p.n == n,
        p.k == k,
    ensures
        batch_row(bgemm(t, a, w, x.b, n, k, c), x, r, i, lost) == batch_row(t, x, r, i, lost).push(
            row_of_plan(p),
        ),
{
    broadcast use lemma_batch_row_push;

}

proof fn lemma_ffn_row(
    t: Seq<BatchOpV>,
    o: Seq<StepOpV>,
    x: BatchCtx,
    c: StepCtx,
    w: LayerWeights,
    r: BatchReq,
    i: int,
    trace: bool,
    lost: bool,
)
    requires
        compared(x, c, r, i),
        batch_row(t, x, r, i, lost) == step_row(o, c, r.kv.len as u32, lost),
    ensures
        batch_row(bffn_ops(t, x, w), x, r, i, lost) == step_row(
            ffn_ops(o, c, w, layer_plans(c.cfg, c.b, w, false), trace),
            c,
            r.kv.len as u32,
            lost,
        ),
{
    broadcast use lemma_step_row_push;

    let (cfg, sc, n, len) = (x.c.cfg, x.sc, x.c.nums_of(), r.kv.len as u32);
    let (h, f) = (cfg.hidden_size as int, cfg.ffn_hidden as int);
    let pl = layer_plans(c.cfg, c.b, w, false);
    cfg.lemma_heads();
    lemma_parts(x, c, r, i);
    // attention output
    lemma_product(t, x, sc.attn.ptr, w.o_proj.ptr, h, cfg.nqk(), sc.c_o.ptr, pl.o, r, i, lost);
    let t1 = bgemm(t, sc.attn.ptr, w.o_proj.ptr, x.b, h, cfg.nqk(), sc.c_o.ptr);
    let o1 = end(gemm(start(o, SEG_O), pl.o, SEG_O), SEG_O);
    assert(batch_row(t1, x, r, i, lost) == step_row(o1, c, len, lost));
    lemma_residual(t1, x, c, sc.c_o.ptr, c.b.c_o.ptr, r, i, lost);
    let t2 = brun(brun(t1, b_cast(x, sc.c_o.ptr, sc.oadd.ptr, n.h)), b_add(x));
    lemma_small(batch_row(t2, x, r, i, lost), x, c, w.ffn_norm.ptr, r, i, lost);
    lemma_batch_row_push(t2, BatchOpV::Launch(b_rms(x, w.ffn_norm.ptr)), x, r, i, lost);
    let t3 = brun(t2, b_rms(x, w.ffn_norm.ptr));
    let o3 = run(o1, l_add_rms(c, w.ffn_norm.ptr), SEG_FFN_RMS);
    assert(batch_row(t3, x, r, i, lost) == step_row(o3, c, len, lost));
    // gate and up
    lemma_product(t3, x, sc.xn.ptr, w.gate_proj.ptr, f, h, sc.c_g.ptr, pl.gate, r, i, lost);
    let t4 = bgemm(t3, sc.xn.ptr, w.gate_proj.ptr, x.b, f, h, sc.c_g.ptr);
    lemma_product(t4, x, sc.xn.ptr, w.up_proj.ptr, f, h, sc.c_u.ptr, pl.up, r, i, lost);
    let t5 = bgemm(t4, sc.xn.ptr, w.up_proj.ptr, x.b, f, h, sc.c_u.ptr);
    let o5 = gemm(gemm(start(o3, SEG_FFN_GU), pl.gate, SEG_FFN_GU), pl.up, SEG_FFN_GU);
    assert(batch_row(t5, x, r, i, lost) == step_row(o5, c, len, lost));
    let o6 = start(end(o5, SEG_FFN_GU), SEG_FFN_D);
    lemma_small(batch_row(t5, x, r, i, lost), x, c, 0, r, i, lost);
    lemma_batch_row_push(t5, BatchOpV::Launch(b_swiglu(x)), x, r, i, lost);
    let t6 = brun(t5, b_swiglu(x));
    let o7 = run(o6, l_swiglu(c), SEG_FFN_D);
    assert(batch_row(t6, x, r, i, lost) == step_row(o7, c, len, lost));
    // down
    lemma_product(t6, x, sc.down.ptr, w.down_proj.ptr, h, f, sc.c_d.ptr, pl.down, r, i, lost);
    let t7 = bgemm(t6, sc.down.ptr, w.down_proj.ptr, x.b, h, f, sc.c_d.ptr);
    let o8 = start(end(gemm(o7, pl.down, SEG_FFN_D), SEG_FFN_D), SEG_FFN_RMS);
    assert(batch_row(t7, x, r, i, lost) == step_row(o8, c, len, lost));
    lemma_residual(t7, x, c, sc.c_d.ptr, c.b.c_d.ptr, r, i, lost);
    let t8 = brun(brun(t7, b_cast(x, sc.c_d.ptr, sc.oadd.ptr, n.h)), b_add(x));
    lemma_batch_row_push(t8, BatchOpV::Mark(BatchMark::Rest), x, r, i, lost);
    let o9 = end(run(o8, l_add(c), SEG_FFN_RMS), SEG_FFN_RMS);
    assert(batch_row(t8, x, r, i, lost) == step_row(o9, c, len, lost));
    assert(bffn_ops(t, x, w) == bmark(t8, BatchMark::Rest));
    assert(ffn_ops(o, c, w, pl, trace) == trace_row(o9, trace));
}

proof fn lemma_layers_row(
    t: Seq<BatchOpV>,
    o: Seq<StepOpV>,
    x: BatchCtx,
    c: StepCtx,
    reqs: Seq<BatchReq>,
    layers: Seq<LayerWeights>,
    plans: Seq<LayerGemmPlans>,
    r: BatchReq,
    i: int,
    n: nat,
    m: StepMode,
    lost: bool,
)
    requires
        compared(x, c, r, i),
        n <= layers.len(),
        layers.len() == c.cfg.n_layer,
        plans == layers.map_values(|w: LayerWeights| layer_plans(c.cfg, c.b, w, false)),
        reqs.len() == x.b,
        reqs[i] == r,
        agrees(c, r, m.flash_off, lost),
        batch_row(t, x, r, i, lost) == step_row(o, c, r.kv.len as u32, lost),
    ensures
        batch_row(blayers_ops(t, x, reqs, layers, n), x, r, i, lost) == step_row(
            layers_ops(o, c, layers, plans, n, r.pos, m),
            c,
            r.kv.len as u32,
            lost,
        ),
    decreases n,
{
    if n > 0 {
        let li = n - 1;
        lemma_layers_row(t, o, x, c, reqs, layers, plans, r, i, li as nat, m, lost);
        let w = layers[li];
        let pl = layer_plans(c.cfg, c.b, w, false);
        assert(plans[li] == pl);
        let t1 = blayers_ops(t, x, reqs, layers, li as nat);
        let o1 = layers_ops(o, c, layers, plans, li as nat, r.pos, m);
        lemma_qkv_row(t1, o1, x, c, w, r, i, m, lost);
        let t2 = bqkv_ops(t1, x, w);
        let o2 = qkv_ops(norm_ops(o1, c, w, m.detail), c, pl);
        lemma_attn_row(t2, o2, x, c, w, reqs, r, i, li, m.flash_off, m.detail, lost);
        let t3 = battn_ops(brope_ops(t2, x, w), x, reqs, li);
        let o3 = attn_ops(o2, c, w, li, r.pos, m.flash_off, m.detail);
        lemma_ffn_row(t3, o3, x, c, w, r, i, m.trace, lost);
    }
}

/// The embedding of a row.
proof fn lemma_prologue_row(x: BatchCtx, c: StepCtx, r: BatchReq, i: int, lost: bool)
    requires
        compared(x, c, r, i),
    ensures
        batch_row(
            bmark(
                brun(bmark(Seq::empty(), BatchMark::Stage), b_gather(x)),
                BatchMark::Embed,
            ),
            x,
            r,
            i,
            lost,
        ) == step_row(
            prologue(Seq::empty(), c, r.token, r.kv.len),
            c,
            r.kv.len as u32,
            lost,
        ),
{
    broadcast use lemma_step_row_push, lemma_batch_row_push;

    lemma_parts(x, c, r, i);
    assert(batch_row(Seq::empty(), x, r, i, lost) == step_row(
        Seq::empty(),
        c,
        r.kv.len as u32,
        lost,
    ));
}

/// The output head of a row.
proof fn lemma_epilogue_row(
    t: Seq<BatchOpV>,
    o: Seq<StepOpV>,
    x: BatchCtx,
    c: StepCtx,
    lm_head: DeviceBuffer,
    r: BatchReq,
    i: int,
    lost: bool,
)
    requires
        compared(x, c, r, i),
        batch_row(t, x, r, i, lost) == step_row(o, c, r.kv.len as u32, lost),
    ensures
        batch_row(
            bgemm(
                brun(bmark(t, BatchMark::Lm), b_rms(x, x.c.final_norm)),
                x.sc.xn.ptr,
                lm_head.ptr,
                x.b,
                x.c.cfg.vocab_size as int,
                x.c.cfg.hidden_size as int,
                x.sc.logits.ptr,
            ),
            x,
            r,
            i,
            lost,
        ) == step_row(
            epilogue(o, c, head_plan(c.cfg, c.b, lm_head, false)),
            c,
            r.kv.len as u32,
            lost,
        ),
{
    let (cfg, len) = (x.c.cfg, r.kv.len as u32);
    cfg.lemma_heads();
    let t2 = brun(bmark(t, BatchMark::Lm), b_rms(x, x.c.final_norm));
    let o2 = run(start(o, SEG_LM_HEAD), l_rms(c, c.final_norm), SEG_LM_HEAD);
    assert(batch_row(t2, x, r, i, lost) == step_row(o2, c, len, lost)) by {
        broadcast use lemma_step_row_push, lemma_batch_row_push;

        lemma_small(batch_row(t, x, r, i, lost), x, c, x.c.final_norm, r, i, lost);
    }
    let (v, h) = (cfg.vocab_size as int, cfg.hidden_size as int);
    let p = head_plan(c.cfg, c.b, lm_head, false);
    lemma_product(t2, x, x.sc.xn.ptr, lm_head.ptr, v, h, x.sc.logits.ptr, p, r, i, lost);
    let o3 = close(end(gemm(o2, p, SEG_LM_HEAD), SEG_LM_HEAD));
    assert(epilogue(o, c, p) == o3);
    assert(step_row(o3, c, len, lost) == step_row(o2, c, len, lost).push(row_of_plan(p))) by {
        broadcast use lemma_step_row_push;

    }
}

/// A row of a merged step is computed as a step of its own: what the merged step does to
/// row `i` is, operation by operation and operand by operand, what a single step in
/// separate launches does with the request's token, position and length over the row's
/// part of the buffers and the request's own pages, whether launches of flash attention
/// succeed, fail (`lost`) or are over their budget.  The other requests have no part in
/// it.
pub proof fn a_merged_row_is_a_step_of_its_own(
    x: BatchCtx,
    c: StepCtx,
    reqs: Seq<BatchReq>,
    layers: Seq<LayerWeights>,
    lm_head: DeviceBuffer,
    plans: DecodeGemmPlans,
    i: int,
    m: StepMode,
    lost: bool,
)
    requires
        x.wf(),
        c.wf(),
        reqs.len() == x.b,
        layers.len() == x.c.cfg.n_layer,
        0 <= i < reqs.len(),
        is_row(c, x, i),
        plans_of(plans, c.cfg, c.b, layers, lm_head, false),
        c.takes_pos(reqs[i].pos),
        agrees(c, reqs[i], m.flash_off, lost),
    ensures
        ({
            let r = reqs[i];
            batch_row(batch_ops(x, reqs, layers, lm_head.ptr), x, r, i, lost) == step_row(
                split_ops(c, layers, plans, r.token, r.pos, r.kv.len, m),
                c,
                r.kv.len as u32,
                lost,
            )
        }),
{
    let r = reqs[i];
    assert(compared(x, c, r, i));
    let t0 = bmark(
        brun(bmark(Seq::empty(), BatchMark::Stage), b_gather(x)),
        BatchMark::Embed,
    );
    let o0 = prologue(Seq::empty(), c, r.token, r.kv.len);
    lemma_prologue_row(x, c, r, i, lost);
    let n = layers.len();
    lemma_layers_row(t0, o0, x, c, reqs, layers, plans.layers@, r, i, n, m, lost);
    let t1 = blayers_ops(t0, x, reqs, layers, n);
    let o1 = layers_ops(o0, c, layers, plans.layers@, n, r.pos, m);
    lemma_epilogue_row(t1, o1, x, c, lm_head, r, i, lost);
}

/// Layers of two batches do the same to a row that they have in common.
proof fn lemma_layers_alone(
    t: Seq<BatchOpV>,
    x: BatchCtx,
    reqs: Seq<BatchReq>,
    others: Seq<BatchReq>,
    layers: Seq<LayerWeights>,
    i: int,
    n: nat,
    lost: bool,
)
    requires
        0 <= i < reqs.len(),
        i < others.len(),
        reqs[i] == others[i],
    ensures
        batch_row(blayers_ops(t, x, reqs, layers, n), x, reqs[i], i, lost) == batch_row(
            blayers_ops(t, x, others, layers, n),
            x,
            reqs[i],
            i,
            lost,
        ),
    decreases n,
{
    if n > 0 {
        let (li, r) = (n - 1, reqs[i]);
        lemma_layers_alone(t, x, reqs, others, layers, i, li as nat, lost);
        let w = layers[li];
        let (s1, t1) = (
            blayers_ops(t, x, reqs, layers, li as nat),
            blayers_ops(t, x, others, layers, li as nat),
        );
        let (s2, t2) = (bqkv_ops(s1, x, w), bqkv_ops(t1, x, w));
        assert(batch_row(s2, x, r, i, lost) == batch_row(t2, x, r, i, lost)) by {
            broadcast use lemma_batch_row_push;

        }
        let (s3, t3) = (brope_ops(s2, x, w), brope_ops(t2, x, w));
        assert(batch_row(s3, x, r, i, lost) == batch_row(t3, x, r, i, lost)) by {
            broadcast use lemma_batch_row_push;

        }
        let (s4, t4) = (battn_ops(s3, x, reqs, li), battn_ops(t3, x, others, li));
        assert(batch_row(s4, x, r, i, lost) == batch_row(t4, x, r, i, lost)) by {
            broadcast use lemma_batch_row_push;

            assert(b_naives(x, reqs, li)[i] == b_naives(x, others, li)[i]);
        }
        assert(batch_row(bffn_ops(s4, x, w), x, r, i, lost) == batch_row(
            bffn_ops(t4, x, w),
            x,
            r,
            i,
            lost,
        )) by {
            broadcast use lemma_batch_row_push;

        }
    }
}

/// The other requests of a batch have no part in a row: two batches of the same size over
/// the same buffers do the same to a row whose request they have in common.
pub proof fn other_requests_have_no_part_in_a_row(
    x: BatchCtx,
    reqs: Seq<BatchReq>,
    others: Seq<BatchReq>,
    layers: Seq<LayerWeights>,
    lm_head: u64,
    i: int,
    lost: bool,
)
    requires
        reqs.len() == x.b,
        others.len() == x.b,
        0 <= i < x.b,
        reqs[i] == others[i],
    ensures
        batch_row(batch_ops(x, reqs, layers, lm_head), x, reqs[i], i, lost) == batch_row(
            batch_ops(x, others, layers, lm_head),
            x,
            others[i],
            i,
            lost,
        ),
{
    broadcast use lemma_batch_row_push;

    let t = bmark(
        brun(bmark(Seq::empty(), BatchMark::Stage), b_gather(x)),
        BatchMark::Embed,
    );
    lemma_layers_alone(t, x, reqs, others, layers, i, layers.len(), lost);
}

} // verus!
