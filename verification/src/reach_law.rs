//! That the launches of a step, of a merged step and of a pass stay in their buffers.

use vstd::prelude::*;

use crate::batch::BatchReq;
use crate::batch_step::{
    b_add, b_cast, b_flash, b_gather, b_kv_write, b_naive, b_norm, b_rms, b_rope, b_swiglu,
    sizes_fit, sizes_of, BatchCtx, BatchScratch, BatchSizes,
};
use crate::buffer::DeviceBuffer;
use crate::dense;
use crate::diff;
use crate::extents::{batch_sized, pass_sized, sized};
use crate::fmha::{lemma_rounded, FmhaCall};
use crate::launch::{Kernel, LaunchV};
use crate::load::{step_sizes_of, StepSizes};
use crate::model::StepBuffers;
use crate::parity::{l_flash32, l_naive32, l_rms32};
use crate::prefill::{
    p_add, p_cast, p_fmha, p_gather, p_kv_write, p_norm, p_rms, p_rope, p_scale, p_split, p_swiglu,
    prefill_sizes_fit, prefill_sizes_of, PrefillBuffers, PrefillCtx, PrefillSizes, QkvScratch,
};
use crate::split::{
    l_add, l_add_rms, l_cast_k, l_cast_q, l_cast_v, l_flash, l_gather, l_kv_write, l_naive,
    l_norm_k, l_norm_q, l_rms, l_rope_k, l_rope_q, l_swiglu,
};
use crate::split_law::lemma_widths;
use crate::step::StepCtx;

verus! {

/// Bytes from an address on.
pub struct Span {
    pub at: int,
    pub bytes: int,
}

pub open spec fn span(at: int, bytes: int) -> Span {
    Span { at, bytes }
}

/// Nothing.
pub open spec fn nowhere() -> Span {
    span(0, 0)
}

/// The activations that a launch reads or writes, other than weights and caches.
pub open spec fn touched(l: LaunchV) -> (Span, Span, Span, Span) {
    let a = l.args.map_values(|w: u64| w as int);
    let none = nowhere();
    match l.kernel {
        Kernel::GatherRow => (span(a[1], a[3] * 2), none, none, none),
        Kernel::GatherRowF32 => (span(a[1], a[3] * 4), none, none, none),
        Kernel::GatherRowsF16 => (span(a[1], a[3] * a[4] * 2), span(a[2], a[3] * 4), none, none),
        Kernel::RmsNormRowF16 => (span(a[0], a[3] * 2), span(a[1], a[3] * 2), none, none),
        Kernel::RmsNormRow => (span(a[0], a[3] * 4), span(a[2], a[3] * 4), none, none),
        Kernel::RmsNormRowsF16 => (
            span(a[0], a[3] * a[4] * 2),
            span(a[1], a[3] * a[4] * 2),
            none,
            none,
        ),
        Kernel::CastF32ToF16 => (span(a[0], a[2] * 4), span(a[1], a[2] * 2), none, none),
        Kernel::CastSplitQkvF16 => (
            span(a[0], l.grid.y * (a[4] + 2 * a[5]) * 4),
            span(a[1], l.grid.y * a[4] * 2),
            span(a[2], l.grid.y * a[5] * 2),
            span(a[3], l.grid.y * a[5] * 2),
        ),
        Kernel::RmsNormHeadsF16 => (
            span(a[0], a[3] * a[4] * 2),
            span(a[1], a[3] * a[4] * 2),
            none,
            none,
        ),
        Kernel::RopeHeadsF16 => (span(a[0], a[1] * (2 * a[2]) * 2), none, none, none),
        Kernel::RopeNeoxBatchF16 => (
            span(a[0], a[2] * a[3] * (2 * a[4]) * 2),
            span(a[1], a[2] * 4),
            none,
            none,
        ),
        Kernel::RopeNeoxRowsF16 => (span(a[0], a[3] * a[2] * (2 * a[1]) * 2), none, none, none),
        Kernel::ScaleF16 => (span(a[0], a[1] * 2), none, none, none),
        Kernel::ScaleF32 => (span(a[0], a[1] * 4), none, none, none),
        Kernel::KvWriteRow => (
            span(a[0], a[6] * a[7] * 2),
            span(a[1], a[6] * a[7] * 2),
            none,
            none,
        ),
        Kernel::KvWriteBatchF16 => (
            span(a[0], a[5] * (a[7] * a[8]) * 2),
            span(a[1], a[5] * (a[7] * a[8]) * 2),
            span(a[2], a[5] * 8),
            span(a[4], a[5] * 4),
        ),
        Kernel::KvWriteSeqRows => (
            span(a[0], a[3] * (a[5] * a[6]) * 2),
            span(a[1], a[3] * (a[5] * a[6]) * 2),
            none,
            none,
        ),
        Kernel::DecodeStepGqaFlash => (
            span(a[0], a[6] * a[7] * 2),
            span(a[4], a[6] * a[7] * 2),
            span(a[3], 4),
            none,
        ),
        Kernel::DecodeStepGqaFlashF32 => (
            span(a[0], a[6] * a[7] * 4),
            span(a[4], a[6] * a[7] * 4),
            span(a[3], 4),
            none,
        ),
        Kernel::DecodeStepGqa => (
            span(a[0], a[7] * a[8] * 2),
            span(a[5], a[7] * a[8] * 2),
            span(a[3], 4),
            span(a[4], a[7] * a[12] * 4),
        ),
        Kernel::DecodeStepGqaF32 => (
            span(a[0], a[7] * a[8] * 4),
            span(a[5], a[7] * a[8] * 4),
            span(a[3], 4),
            span(a[4], a[7] * a[12] * 4),
        ),
        Kernel::DecodeStepGqaFlashBatch => (
            span(a[0], a[5] * (a[6] * a[7]) * 2),
            span(a[4], a[5] * (a[6] * a[7]) * 2),
            span(a[3], a[5] * 4),
            span(a[2], a[5] * 8),
        ),
        Kernel::FusedAddRmsF16 => (
            span(a[0], a[4] * 2),
            span(a[1], a[4] * 4),
            span(a[2], a[4] * 2),
            none,
        ),
        Kernel::FusedCastSwigluF16 => (
            span(a[0], a[3] * 4),
            span(a[1], a[3] * 4),
            span(a[2], a[3] * 2),
            none,
        ),
        Kernel::SwigluF16 => (
            span(a[0], a[3] * 2),
            span(a[1], a[3] * 2),
            span(a[2], a[3] * 2),
            none,
        ),
        Kernel::SwigluF32 => (
            span(a[0], a[3] * 4),
            span(a[1], a[3] * 4),
            span(a[2], a[3] * 4),
            none,
        ),
        Kernel::AddCastF16 => (span(a[0], a[2] * 2), span(a[1], a[2] * 4), none, none),
        Kernel::AddF16 => (span(a[0], a[2] * 2), span(a[1], a[2] * 2), none, none),
        Kernel::AddF32Inplace => (span(a[0], a[2] * 4), span(a[1], a[2] * 4), none, none),
        _ => (span(0, 1), none, none, none),
    }
}

/// Whether bytes lie in one of the buffers.
#[verifier::opaque]
pub open spec fn lies_in(s: Span, bufs: Seq<DeviceBuffer>) -> bool {
    s.bytes <= 0 || exists|i: int|
        0 <= i < bufs.len() && (#[trigger] bufs[i]).ptr <= s.at && s.at + s.bytes <= bufs[i].ptr
            + bufs[i].len
}

/// Whether what a launch touches lies in buffers.
pub open spec fn stays(l: LaunchV, bufs: Seq<DeviceBuffer>) -> bool {
    let t = touched(l);
    lies_in(t.0, bufs) && lies_in(t.1, bufs) && lies_in(t.2, bufs) && lies_in(t.3, bufs)
}

proof fn lemma_nowhere(bufs: Seq<DeviceBuffer>)
    ensures
        lies_in(nowhere(), bufs),
{
    reveal(lies_in);
}

/// The start of a buffer lies in it.
proof fn lemma_lies(bufs: Seq<DeviceBuffer>, i: int, bytes: int)
    requires
        0 <= i < bufs.len(),
        bytes <= bufs[i].len,
    ensures
        lies_in(span(bufs[i].ptr as int, bytes), bufs),
{
    reveal(lies_in);
    assert(bufs[i].ptr <= bufs[i].ptr);
}

/// A part of a buffer lies in it.
proof fn lemma_part(bufs: Seq<DeviceBuffer>, i: int, off: int, bytes: int)
    requires
        0 <= i < bufs.len(),
        0 <= off,
        off + bytes <= bufs[i].len,
    ensures
        lies_in(span(bufs[i].ptr + off, bytes), bufs),
{
    reveal(lies_in);
    assert(bufs[i].ptr <= bufs[i].ptr + off);
}

/// The buffers of a step.
pub open spec fn step_buffers(b: StepBuffers) -> Seq<DeviceBuffer> {
    seq![
        b.lens,
        b.x,
        b.xn,
        b.q,
        b.k,
        b.v,
        b.attn,
        b.down,
        b.x32,
        b.xn32,
        b.attn32,
        b.c_q,
        b.c_k,
        b.c_v,
        b.c_o,
        b.c_g,
        b.c_u,
        b.c_d,
        b.scores,
    ]
}

/// Whether all buffers of a step have their sizes.
pub open spec fn step_sized(b: StepBuffers, z: StepSizes) -> bool {
    &&& sized(b, z)
    &&& b.lens.len == z.lens
    &&& b.x.len == z.x
    &&& b.q.len == z.q
    &&& b.k.len == z.k
    &&& b.v.len == z.v
    &&& b.x32.len == z.x32
    &&& b.scores.len == z.scores
}

/// Every launch of a decode step stays in its buffers, where these have the sizes that are
/// allocated.  Naive attention does so where a row of scores is no longer than the rows
/// that they have room for.
pub proof fn step_launches_stay_in_their_buffers(
    c: StepCtx,
    max_kv: usize,
    w: u64,
    token: u32,
    pos: u32,
    phys: u32,
    off: u32,
    li: int,
)
    requires
        c.wf(),
        c.cfg.nqk() * max_kv * 4 <= usize::MAX,
        step_sized(c.b, step_sizes_of(c.cfg, max_kv)),
    ensures
        ({
            let b = step_buffers(c.b);
            &&& stays(l_gather(c, token), b)
            &&& stays(l_rms(c, w), b)
            &&& stays(l_cast_q(c), b) && stays(l_cast_k(c), b) && stays(l_cast_v(c), b)
            &&& stays(l_norm_q(c, w), b) && stays(l_norm_k(c, w), b)
            &&& stays(l_rope_q(c, pos), b) && stays(l_rope_k(c, pos), b)
            &&& stays(l_kv_write(c, phys, off), b)
            &&& stays(l_flash(c, li), b)
            &&& c.cfg.n_layer * c.pp <= c.cfg.head_dim * max_kv ==> stays(l_naive(c, li), b)
            &&& stays(l_add_rms(c, w), b)
            &&& stays(l_swiglu(c), b)
            &&& stays(l_add(c), b)
        }),
{
    let (b, g) = (step_buffers(c.b), c.cfg);
    let (h, f) = (g.hidden_size as int, g.ffn_hidden as int);
    let (q, k, d) = (g.q_heads * g.head_dim, g.kv_heads * g.head_dim, g.head_dim as int);
    let (hq, hk) = (g.q_heads as int, g.kv_heads as int);
    lemma_widths(c);
    g.lemma_heads();
    lemma_nowhere(b);
    lemma_lies(b, 0, 4);
    lemma_lies(b, 1, h * 2);
    lemma_lies(b, 2, h * 2);
    lemma_lies(b, 3, q * 2);
    lemma_lies(b, 4, k * 2);
    lemma_lies(b, 5, k * 2);
    lemma_lies(b, 6, q * 2);
    lemma_lies(b, 7, f * 2);
    lemma_lies(b, 11, q * 4);
    lemma_lies(b, 12, k * 4);
    lemma_lies(b, 13, k * 4);
    lemma_lies(b, 14, h * 4);
    lemma_lies(b, 15, f * 4);
    lemma_lies(b, 16, f * 4);
    lemma_lies(b, 17, h * 4);
    let e = 2 * (d / 2);
    assert(hq * e <= hq * d && hk * e <= hk * d) by (nonlinear_arith)
        requires
            e <= d,
            hq >= 0,
            hk >= 0,
    ;
    lemma_lies(b, 3, hq * e * 2);
    lemma_lies(b, 4, hk * e * 2);
    let p = g.n_layer * c.pp;
    if p <= d * max_kv {
        assert(hq * p * 4 <= hq * d * max_kv * 4) by (nonlinear_arith)
            requires
                p <= d * max_kv,
                hq >= 0,
        ;
        lemma_lies(b, 18, hq * p * 4);
    }
}

/// Every launch of a step on the `f32` tier stays in its buffers too; those of its heads lie
/// in the rows of these heads.
pub proof fn parity_launches_stay_in_their_buffers(
    c: StepCtx,
    max_kv: usize,
    w: u64,
    token: u32,
    phys: u32,
    off: u32,
    li: int,
)
    requires
        c.wf(),
        c.cfg.nqk() * max_kv * 4 <= usize::MAX,
        step_sized(c.b, step_sizes_of(c.cfg, max_kv)),
    ensures
        ({
            let (b, n, x) = (step_buffers(c.b), c.nums_of(), c.b);
            &&& stays(dense::gather_f32(c.on, c.embed, x.x32.ptr, token, n.h), b)
            &&& stays(l_rms32(c, w), b)
            &&& stays(dense::scale_f32(c.on, x.c_q.ptr, n.nqk, c.cfg.q_scale), b)
            &&& stays(diff::cast_f32_f16(c.on, x.c_k.ptr, x.k.ptr, n.kvk), b)
            &&& stays(diff::cast_f32_f16(c.on, x.c_v.ptr, x.v.ptr, n.kvk), b)
            &&& stays(l_kv_write(c, phys, off), b)
            &&& stays(l_flash32(c, li), b)
            &&& c.cfg.n_layer * c.pp <= c.cfg.head_dim * max_kv ==> stays(l_naive32(c, li), b)
            &&& stays(diff::add_mask(c.on, x.x32.ptr, x.c_o.ptr, n.h), b)
            &&& stays(dense::swiglu_f32(c.on, x.c_g.ptr, x.c_u.ptr, x.c_g.ptr, n.ffn), b)
        }),
{
    let (b, g) = (step_buffers(c.b), c.cfg);
    let (h, f) = (g.hidden_size as int, g.ffn_hidden as int);
    let (q, k, d) = (g.q_heads * g.head_dim, g.kv_heads * g.head_dim, g.head_dim as int);
    let hq = g.q_heads as int;
    lemma_widths(c);
    g.lemma_heads();
    lemma_nowhere(b);
    lemma_lies(b, 0, 4);
    lemma_lies(b, 4, k * 2);
    lemma_lies(b, 5, k * 2);
    lemma_lies(b, 8, h * 4);
    lemma_lies(b, 9, h * 4);
    lemma_lies(b, 10, q * 4);
    lemma_lies(b, 11, q * 4);
    lemma_lies(b, 12, k * 4);
    lemma_lies(b, 13, k * 4);
    lemma_lies(b, 14, h * 4);
    lemma_lies(b, 15, f * 4);
    lemma_lies(b, 16, f * 4);
    let p = g.n_layer * c.pp;
    if p <= d * max_kv {
        assert(hq * p * 4 <= hq * d * max_kv * 4) by (nonlinear_arith)
            requires
                p <= d * max_kv,
                hq >= 0,
        ;
        lemma_lies(b, 18, hq * p * 4);
    }
}

/// The buffers of a merged step.
pub open spec fn batch_buffers(s: BatchScratch) -> Seq<DeviceBuffer> {
    seq![
        s.toks,
        s.lens,
        s.pos,
        s.kv_ptrs,
        s.x,
        s.xn,
        s.q,
        s.k,
        s.v,
        s.attn,
        s.oadd,
        s.down,
        s.c_q,
        s.c_k,
        s.c_v,
        s.c_o,
        s.c_g,
        s.c_u,
        s.c_d,
        s.scores,
    ]
}

/// Whether all buffers of a merged step have their sizes.
pub open spec fn scratch_sized(s: BatchScratch, z: BatchSizes) -> bool {
    &&& batch_sized(s, z)
    &&& s.toks.len == z.toks
    &&& s.lens.len == z.lens
    &&& s.pos.len == z.pos
    &&& s.kv_ptrs.len == z.kv_ptrs
    &&& s.x.len == z.x
    &&& s.q.len == z.q
    &&& s.k.len == z.k
    &&& s.v.len == z.v
    &&& s.oadd.len == z.oadd
    &&& s.scores.len == z.scores
}

/// Rows of a batch are no more than those that there is room for, and rows of heads are
/// heads of rows.
proof fn lemma_rows(b: int, cap: int, w: int)
    requires
        0 <= b <= cap,
        0 <= w,
    ensures
        0 <= b * w <= cap * w,
{
    assert(0 <= b * w <= cap * w) by (nonlinear_arith)
        requires
            0 <= b <= cap,
            0 <= w,
    ;
}

proof fn lemma_heads(b: int, heads: int, d: int, e: int)
    requires
        0 <= b,
        0 <= heads,
        0 <= e <= d,
    ensures
        b * heads * d == b * (heads * d),
        b * heads * e <= b * (heads * d),
        0 <= b * heads,
        d > 0 ==> b * heads <= b * (heads * d),
{
    assert(b * heads * d == b * (heads * d)) by (nonlinear_arith);
    assert(0 <= b * heads) by (nonlinear_arith)
        requires
            0 <= b,
            0 <= heads,
    ;
    let r = b * heads;
    assert(r * e <= r * d && (d > 0 ==> r <= r * d)) by (nonlinear_arith)
        requires
            0 <= r,
            0 <= e <= d,
    ;
}

/// Every launch of a merged step stays in its buffers, also where these were allocated for
/// a larger batch.
pub proof fn batch_launches_stay_in_their_buffers(
    x: BatchCtx,
    reqs: Seq<BatchReq>,
    w: u64,
    scale: u32,
    bi: int,
    li: int,
)
    requires
        x.wf(),
        x.b <= x.sc.cap,
        sizes_fit(x.c.cfg, x.c.pp, x.sc.cap),
        scratch_sized(x.sc, sizes_of(x.c.cfg, x.c.pp, x.sc.cap)),
        0 <= bi < x.b,
    ensures
        ({
            let (b, n, s) = (batch_buffers(x.sc), x.c.nums_of(), x.sc);
            &&& stays(b_gather(x), b)
            &&& stays(b_rms(x, w), b)
            &&& stays(b_cast(x, s.c_q.ptr, s.q.ptr, n.nqk), b)
            &&& stays(b_cast(x, s.c_k.ptr, s.k.ptr, n.kvk), b)
            &&& stays(b_cast(x, s.c_v.ptr, s.v.ptr, n.kvk), b)
            &&& stays(b_norm(x, n.q_heads, s.q.ptr, w), b)
            &&& stays(b_norm(x, n.kv_heads, s.k.ptr, w), b)
            &&& stays(b_rope(x, n.q_heads, s.q.ptr, scale), b)
            &&& stays(b_rope(x, n.kv_heads, s.k.ptr, scale), b)
            &&& stays(b_kv_write(x, li), b)
            &&& stays(b_flash(x, li), b)
            &&& stays(b_naive(x, reqs, bi, li), b)
            &&& stays(b_cast(x, s.c_o.ptr, s.oadd.ptr, n.h), b)
            &&& stays(b_cast(x, s.c_d.ptr, s.oadd.ptr, n.h), b)
            &&& stays(b_add(x), b)
            &&& stays(b_swiglu(x), b)
        }),
{
    let (b, g) = (batch_buffers(x.sc), x.c.cfg);
    let (m, cap) = (x.b as int, x.sc.cap as int);
    let (h, f) = (g.hidden_size as int, g.ffn_hidden as int);
    let (q, k, d) = (g.q_heads * g.head_dim, g.kv_heads * g.head_dim, g.head_dim as int);
    let (hq, hk) = (g.q_heads as int, g.kv_heads as int);
    let e = 2 * (d / 2);
    lemma_widths(x.c);
    g.lemma_heads();
    lemma_rows(m, cap, h);
    lemma_rows(m, cap, f);
    lemma_rows(m, cap, q);
    lemma_rows(m, cap, k);
    lemma_heads(m, hq, d, e);
    lemma_heads(m, hk, d, e);
    lemma_nowhere(b);
    lemma_lies(b, 0, m * 4);
    lemma_lies(b, 1, m * 4);
    lemma_lies(b, 2, m * 4);
    lemma_lies(b, 3, m * 8);
    lemma_lies(b, 4, m * h * 2);
    lemma_lies(b, 5, m * h * 2);
    lemma_lies(b, 6, m * q * 2);
    lemma_lies(b, 6, m * hq * e * 2);
    lemma_lies(b, 7, m * k * 2);
    lemma_lies(b, 7, m * hk * e * 2);
    lemma_lies(b, 8, m * k * 2);
    lemma_lies(b, 9, m * q * 2);
    lemma_lies(b, 10, m * h * 2);
    lemma_lies(b, 11, m * f * 2);
    lemma_lies(b, 12, m * q * 4);
    lemma_lies(b, 13, m * k * 4);
    lemma_lies(b, 14, m * k * 4);
    lemma_lies(b, 15, m * h * 4);
    lemma_lies(b, 16, m * f * 4);
    lemma_lies(b, 17, m * f * 4);
    lemma_lies(b, 18, m * h * 4);
    assert(0 <= bi * q && bi * q + q <= m * q) by (nonlinear_arith)
        requires
            0 <= bi,
            bi + 1 <= m,
            q >= 0,
    ;
    lemma_part(b, 6, bi * q * 2, q * 2);
    lemma_part(b, 9, bi * q * 2, q * 2);
    lemma_part(b, 1, bi * 4, 4);
    lemma_lies(b, 19, hq * (x.c.pp * 32) * 4);
}

/// The buffers of a pass.
pub open spec fn pass_buffers(b: PrefillBuffers) -> Seq<DeviceBuffer> {
    seq![
        b.toks,
        b.x,
        b.xn,
        b.q,
        b.k,
        b.v,
        b.o,
        b.oadd,
        b.gate,
        b.up,
        b.down,
        b.l2,
        b.c_o,
        b.c_g,
        b.c_u,
        b.c_d,
        b.lse,
    ] + match b.c_qkv {
        QkvScratch::Joined { qkv } => seq![qkv],
        QkvScratch::Apart { q, k, v } => seq![q, k, v],
    }
}

/// Whether all buffers of a pass have their sizes.
pub open spec fn rows_sized(b: PrefillBuffers, z: PrefillSizes) -> bool {
    &&& pass_sized(b, z)
    &&& b.toks.len == z.toks
    &&& b.x.len == z.x
    &&& b.q.len == z.q
    &&& b.k.len == z.k
    &&& b.v.len == z.v
    &&& b.oadd.len == z.oadd
    &&& b.gate.len == z.gate
    &&& b.up.len == z.up
    &&& b.l2.len == z.l2
    &&& b.lse.len == z.lse
}

/// Whether what attention over a prompt touches lies in buffers: its operands, its output,
/// and a number for every row of every head.
pub open spec fn prompt_stays(c: FmhaCall, bufs: Seq<DeviceBuffer>) -> bool {
    let (q, k) = (
        c.seqlen * c.batch * (c.heads * c.d),
        c.seqlen * c.batch * (c.kv_heads * c.d),
    );
    &&& lies_in(span(c.q as int, q * 2), bufs)
    &&& lies_in(span(c.k as int, k * 2), bufs)
    &&& lies_in(span(c.v as int, k * 2), bufs)
    &&& lies_in(span(c.o as int, q * 2), bufs)
    &&& lies_in(span(c.lse as int, c.batch * c.heads * c.seqlen * 4), bufs)
}

/// Every launch of a pass stays in its buffers, and so does its attention.
#[verifier::rlimit(40)]
pub proof fn pass_launches_stay_in_their_buffers(
    x: PrefillCtx,
    block_m: u32,
    w: u64,
    li: int,
)
    requires
        x.wf(),
        0 < block_m,
        prefill_sizes_fit(x.c.cfg, x.s, block_m),
        rows_sized(x.b, prefill_sizes_of(x.c.cfg, x.s, block_m)),
    ensures
        ({
            let (b, n, s) = (pass_buffers(x.b), x.c.nums_of(), x.b);
            &&& stays(p_gather(x), b)
            &&& stays(p_rms(x, w), b)
            &&& match s.c_qkv {
                QkvScratch::Joined { qkv } => stays(p_split(x, qkv.ptr), b),
                QkvScratch::Apart { q, k, v } => stays(p_cast(x, q.ptr, s.q.ptr, n.nqk), b)
                    && stays(p_cast(x, k.ptr, s.k.ptr, n.kvk), b) && stays(
                    p_cast(x, v.ptr, s.v.ptr, n.kvk),
                    b,
                ),
            }
            &&& stays(p_norm(x, n.q_heads, s.q.ptr, w), b)
            &&& stays(p_norm(x, n.kv_heads, s.k.ptr, w), b)
            &&& stays(p_rope(x, n.q_heads, s.q.ptr), b)
            &&& stays(p_rope(x, n.kv_heads, s.k.ptr), b)
            &&& stays(p_scale(x), b)
            &&& prompt_stays(p_fmha(x), b)
            &&& stays(p_kv_write(x, li), b)
            &&& stays(p_cast(x, s.c_o.ptr, s.oadd.ptr, n.h), b)
            &&& stays(p_add(x, s.oadd.ptr), b)
            &&& stays(p_cast(x, s.c_g.ptr, s.gate.ptr, n.ffn), b)
            &&& stays(p_cast(x, s.c_u.ptr, s.up.ptr, n.ffn), b)
            &&& stays(p_swiglu(x), b)
            &&& stays(p_cast(x, s.c_d.ptr, s.l2.ptr, n.h), b)
            &&& stays(p_add(x, s.l2.ptr), b)
        }),
{
    let (b, g) = (pass_buffers(x.b), x.c.cfg);
    let m = x.s as int;
    let (h, f) = (g.hidden_size as int, g.ffn_hidden as int);
    let (q, k, d) = (g.q_heads * g.head_dim, g.kv_heads * g.head_dim, g.head_dim as int);
    let (hq, hk) = (g.q_heads as int, g.kv_heads as int);
    lemma_widths(x.c);
    g.lemma_heads();
    lemma_rows(m, m, h);
    lemma_rows(m, m, f);
    lemma_rows(m, m, q);
    lemma_rows(m, m, k);
    lemma_heads(m, hq, d, d);
    lemma_heads(m, hk, d, d);
    lemma_rounded(m, block_m as int);
    let r = crate::fmha::rounded(m, block_m as int);
    assert(m * (q + 2 * k) == m * q + 2 * (m * k)) by (nonlinear_arith);
    assert(0 <= hq * m <= hq * r) by (nonlinear_arith)
        requires
            0 <= hq,
            0 <= m <= r,
    ;
    lemma_nowhere(b);
    lemma_lies(b, 0, m * 4);
    lemma_lies(b, 1, m * h * 2);
    lemma_lies(b, 2, m * h * 2);
    lemma_lies(b, 3, m * q * 2);
    lemma_lies(b, 4, m * k * 2);
    lemma_lies(b, 5, m * k * 2);
    lemma_lies(b, 6, m * q * 2);
    lemma_lies(b, 7, m * h * 2);
    lemma_lies(b, 8, m * f * 2);
    lemma_lies(b, 9, m * f * 2);
    lemma_lies(b, 10, m * f * 2);
    lemma_lies(b, 11, m * h * 2);
    lemma_lies(b, 12, m * h * 4);
    lemma_lies(b, 13, m * f * 4);
    lemma_lies(b, 14, m * f * 4);
    lemma_lies(b, 15, m * h * 4);
    lemma_lies(b, 16, hq * m * 4);
    assert(1 * hq * m == hq * m && m * 1 * q == m * q && m * 1 * k == m * k);
    assert(prompt_stays(p_fmha(x), b));
    match x.b.c_qkv {
        QkvScratch::Joined { qkv } => {
            lemma_lies(b, 17, m * (q + 2 * k) * 4);
            assert(stays(p_split(x, qkv.ptr), b));
        },
        QkvScratch::Apart { q: cq, k: ck, v: cv } => {
            lemma_lies(b, 17, m * q * 4);
            lemma_lies(b, 18, m * k * 4);
            lemma_lies(b, 19, m * k * 4);
        },
    }
}

} // verus!
