//! What the launches outside of the steps reach: every element, row or block of their
//! operands, each at its own place.

use vstd::prelude::*;

use crate::attention::{
    attention_ops, attention_output_is_row_major, left_place, result_place, right_place, AttnOpV,
    PrefillScratch,
};
use crate::batch::BatchReq;
use crate::batch_step::{b_flash, b_naive, BatchCtx};
use crate::buffer::DeviceBuffer;
use crate::decode::q8_dot;
use crate::dense::rope_row;
use crate::dequant::dequant_q8_0;
use crate::diff::{softmax_matrix, softmax_row, transpose_f16, transpose_f32};
use crate::fused_step::f_flash;
use crate::gemm::{ComputeType, DataType, GemmCall};
use crate::launch::{symbol_of, Kernel, LaunchV, Queue};
use crate::math::lemma_ceil_div;
use crate::meaning::lemma_blocks_cover;
use crate::parity::{l_flash32, l_naive32};
use crate::split::{l_flash, l_naive};
use crate::split_law::lemma_widths;
use crate::step::StepCtx;

verus! {

/// A stretch of bytes that a launch reads, and the one that it writes for it.
pub struct Moved {
    pub from: int,
    pub to: int,
    pub read: int,
    pub written: int,
}

/// What a transpose does with the element in row `r` and column `c` of its operand: a
/// block has 16 rows and 16 columns.
pub open spec fn transposed(l: LaunchV, r: int, c: int) -> Option<Moved> {
    let a = l.args.map_values(|w: u64| w as int);
    let bytes = match l.kernel {
        Kernel::TransposeF16 => 2int,
        Kernel::TransposeF32 => 4,
        _ => 0,
    };
    if 0 <= r < a[2] && 0 <= c < a[3] && c / 16 < l.grid.x && r / 16 < l.grid.y && l.block.x == 16
        && l.block.y == 16 {
        Some(
            Moved {
                from: a[0] + (r * a[3] + c) * bytes,
                to: a[1] + (c * a[2] + r) * bytes,
                read: bytes,
                written: bytes,
            },
        )
    } else {
        None
    }
}

/// What a launch with a block or a warp for every row does with row `i`.
pub open spec fn reached(l: LaunchV, i: int) -> Option<Moved> {
    let a = l.args.map_values(|w: u64| w as int);
    match l.kernel {
        Kernel::MaskedSoftmaxRow => if i == 0 && l.grid.x == 1 && l.block.x == 256 {
            Some(Moved { from: a[0], to: a[1], read: a[2] * 4, written: a[2] * 4 })
        } else {
            None
        },
        Kernel::MaskedSoftmaxMatrix => if 0 <= i < l.grid.x && i < a[2] && l.block.x == 256 {
            Some(
                Moved {
                    from: a[0] + i * a[3] * 4,
                    to: a[1] + i * a[3] * 4,
                    read: a[3] * 4,
                    written: a[3] * 4,
                },
            )
        } else {
            None
        },
        Kernel::DequantQ80 => if 0 <= i < l.grid.x && i < a[2] && l.block.x == 32 {
            Some(Moved { from: a[0] + i * 34, to: a[1] + i * 128, read: 34, written: 128 })
        } else {
            None
        },
        Kernel::FusedQ8Dot => if 0 <= i < a[3] && i / 8 < l.grid.x && l.block.x == 256 {
            Some(
                Moved {
                    from: a[1] + i * (a[4] / 32) * 34,
                    to: a[2] + i * 4,
                    read: a[4] / 32 * 34,
                    written: 4,
                },
            )
        } else {
            None
        },
        Kernel::RopeNeoxF16 => if i == 0 && l.grid.x == 1 && l.block.x == 256 {
            Some(Moved { from: a[0], to: a[0], read: a[1] * 4, written: a[1] * 4 })
        } else {
            None
        },
        _ => None,
    }
}

/// A transpose moves every element of a row-major matrix to its place in the transposed
/// one.
pub proof fn transposes_reach_every_element(
    on: Queue,
    x: u64,
    out: u64,
    rows: u32,
    cols: u32,
    r: int,
    c: int,
)
    requires
        0 <= r < rows,
        0 <= c < cols,
    ensures
        transposed(transpose_f16(on, x, out, rows, cols), r, c) == Some(
            Moved {
                from: x + (r * cols + c) * 2,
                to: out + (c * rows + r) * 2,
                read: 2,
                written: 2,
            },
        ),
        transposed(transpose_f32(on, x, out, rows, cols), r, c) == Some(
            Moved {
                from: x + (r * cols + c) * 4,
                to: out + (c * rows + r) * 4,
                read: 4,
                written: 4,
            },
        ),
{
    lemma_ceil_div(rows as int, 16);
    lemma_ceil_div(cols as int, 16);
}

/// A softmax of a matrix is that of every row, in the row of the same number; of one row
/// it is the same.
pub proof fn softmax_reaches_every_row(
    on: Queue,
    x: u64,
    out: u64,
    rows: u32,
    rowlen: u32,
    i: int,
)
    requires
        0 <= i < rows,
    ensures
        reached(softmax_matrix(on, x, out, rows, rowlen), i) == Some(
            Moved {
                from: x + i * rowlen * 4,
                to: out + i * rowlen * 4,
                read: rowlen * 4,
                written: rowlen * 4,
            },
        ),
        reached(softmax_row(on, x, out, rowlen), 0) == reached(
            softmax_matrix(on, x, out, 1, rowlen),
            0,
        ),
{
}

/// Every block of 34 bytes is dequantized, into 32 numbers at the place of that block.
pub proof fn dequantization_reaches_every_block(
    on: Queue,
    blob: u64,
    out: u64,
    nblocks: u32,
    i: int,
)
    requires
        0 <= i < nblocks,
    ensures
        reached(dequant_q8_0(on, blob, out, nblocks), i) == Some(
            Moved { from: blob + i * 34, to: out + i * 32 * 4, read: 34, written: 128 },
        ),
{
}

/// Every row of a quantized matrix has a dot product, at the place of that row.
pub proof fn dot_products_reach_every_row(
    on: Queue,
    x: u64,
    w: u64,
    out: u64,
    n: u32,
    k: u32,
    i: int,
)
    requires
        0 <= i < n,
    ensures
        q8_dot(on, x, w, out, n, k).args[0] == x,
        reached(q8_dot(on, x, w, out, n, k), i) == Some(
            Moved {
                from: w + i * (k as int / 32) * 34,
                to: out + i * 4,
                read: k as int / 32 * 34,
                written: 4,
            },
        ),
{
    lemma_ceil_div(n as int, 8);
}

/// The rotary embedding of one row works on both halves of that row, in place.
pub proof fn rotation_reaches_both_halves(on: Queue, x: u64, half: u32, pos: u32, eta: u32)
    ensures
        reached(rope_row(on, x, half, pos, eta), 0) == Some(
            Moved { from: x as int, to: x as int, read: 2 * half * 2, written: 2 * half * 2 },
        ),
        rope_row(on, x, half, pos, eta).args[2] == pos,
        rope_row(on, x, half, pos, eta).args[3] == eta,
{
}

/// Whether a product is `f32` throughout, on a queue, with nothing scaled and nothing added.
pub open spec fn is_plain_f32(g: GemmCall, on: Queue) -> bool {
    &&& g.on == on
    &&& g.a.dtype == DataType::F32 && g.b.dtype == DataType::F32 && g.c.dtype == DataType::F32
    &&& g.compute == ComputeType::F32
    &&& g.alpha_bits == 0x3f80_0000 && g.beta_bits == 0
}

/// Reference attention follows every element through its buffers.  Element `l` of key `j`
/// moves to row `l` of the transposed keys; score `(i, j)` is summed over `l` from query `i`
/// and those rows, moves to row `i` of the scores, has element `(i, j)` of the mask added,
/// and takes part in the softmax of that row; output `(i, l)` is summed over `j` from those
/// weights and the values.  Nothing comes after but a wait.
pub proof fn attention_follows_every_element(
    on: Queue,
    blas: Queue,
    x: PrefillScratch,
    q: DeviceBuffer,
    k: DeviceBuffer,
    v: DeviceBuffer,
    mask: DeviceBuffer,
    out: DeviceBuffer,
    seq: usize,
    d: usize,
    i: int,
    j: int,
    l: int,
)
    requires
        seq <= i32::MAX,
        d <= i32::MAX,
        seq * seq <= u32::MAX,
        0 <= i < seq,
        0 <= j < seq,
        0 <= l < d,
    ensures
        ({
            let ops = attention_ops(on, blas, x, q, k, v, mask, out, seq, d);
            let (score, weigh) = (ops[1]->Gemm_0, ops[5]->Gemm_0);
            let (keys, turn, add, soft) = (
                ops[0]->Launch_0,
                ops[2]->Launch_0,
                ops[3]->Launch_0,
                ops[4]->Launch_0,
            );
            &&& ops.len() == 7 && ops[6] == AttnOpV::Sync
            &&& ops[1] is Gemm && ops[5] is Gemm
            &&& ops[0] is Launch && ops[2] is Launch && ops[3] is Launch && ops[4] is Launch
            &&& keys.on == on && turn.on == on && add.on == on && soft.on == on
            &&& is_plain_f32(score, blas) && is_plain_f32(weigh, blas)
            &&& transposed(keys, j, l) == Some(
                Moved {
                    from: k.ptr + (j * d + l) * 4,
                    to: score.b.ptr + right_place(score, l, j) * 4,
                    read: 4,
                    written: 4,
                },
            )
            &&& score.a.ptr == q.ptr && left_place(score, i, l) == i * d + l
            &&& score.m == seq && score.n == seq && score.k == d
            &&& transposed(turn, j, i) == Some(
                Moved {
                    from: score.c.ptr + result_place(score, i, j) * 4,
                    to: add.args[0] + (i * seq + j) * 4,
                    read: 4,
                    written: 4,
                },
            )
            &&& add.kernel == Kernel::AddF32Inplace && add.args[1] == mask.ptr && add.args[2] == seq
                * seq && add.grid.x * add.block.x >= seq * seq
            &&& soft.kernel == Kernel::MaskedSoftmaxMatrix
            &&& reached(soft, i) == Some(
                Moved {
                    from: add.args[0] + i * seq * 4,
                    to: weigh.b.ptr + right_place(weigh, 0, i) * 4,
                    read: seq * 4,
                    written: seq * 4,
                },
            )
            &&& right_place(weigh, j, i) == right_place(weigh, 0, i) + j
            &&& weigh.a.ptr == v.ptr && left_place(weigh, l, j) == j * d + l
            &&& weigh.m == d && weigh.n == seq && weigh.k == seq
            &&& weigh.c.ptr == out.ptr && result_place(weigh, l, i) == i * d + l
        }),
{
    broadcast use lemma_blocks_cover;

    attention_output_is_row_major(on, blas, x, q, k, v, mask, out, seq, d, i, j, l, l);
    transposes_reach_every_element(on, k.ptr, x.kt.ptr, seq as u32, d as u32, j, l);
    transposes_reach_every_element(on, x.s.ptr, x.sr.ptr, seq as u32, seq as u32, j, i);
    softmax_reaches_every_row(on, x.sr.ptr, x.sr.ptr, seq as u32, seq as u32, i);
    assert(0 <= seq * seq) by (nonlinear_arith)
        requires
            seq >= 0,
    ;
    let weigh = attention_ops(on, blas, x, q, k, v, mask, out, seq, d)[5]->Gemm_0;
    assert(right_place(weigh, 0, i) == i * seq);
    assert(right_place(weigh, j, i) == i * seq + j);
}

/// How a launch of decode attention groups heads: query heads, query heads per key head,
/// and key heads.
pub open spec fn grouped(l: LaunchV) -> (int, int, int) {
    let a = l.args.map_values(|w: u64| w as int);
    match l.kernel {
        Kernel::DecodeStepGqa => (a[7], a[10], a[11]),
        Kernel::DecodeStepGqaF32 => (a[7], a[10], a[11]),
        _ => (a[6], a[9], a[10]),
    }
}

/// Every launch of decode attention, in whatever form of a step, has as many query heads to
/// a key head as the model has: where the heads come in whole groups, the groups of all key
/// heads are the query heads.
pub proof fn attention_launches_group_the_heads(
    c: StepCtx,
    x: BatchCtx,
    reqs: Seq<BatchReq>,
    bi: int,
    li: int,
)
    requires
        c.wf(),
        x.c == c,
    ensures
        ({
            let (q, k) = (c.cfg.q_heads as int, c.cfg.kv_heads as int);
            let g = (q, q / k, k);
            &&& grouped(l_flash(c, li)) == g && grouped(l_naive(c, li)) == g
            &&& grouped(l_flash32(c, li)) == g && grouped(l_naive32(c, li)) == g
            &&& grouped(f_flash(c, li)) == g
            &&& grouped(b_flash(x, li)) == g && grouped(b_naive(x, reqs, bi, li)) == g
            &&& q % k == 0 ==> g.1 * g.2 == g.0
        }),
{
    lemma_widths(c);
    let (q, k) = (c.cfg.q_heads as int, c.cfg.kv_heads as int);
    assert(q % k == 0 ==> q / k * k == q) by (nonlinear_arith)
        requires
            k > 0,
    ;
}

/// The symbol of a kernel that comes in several forms is that of its plain form with the
/// name of the form behind it.
pub proof fn symbols_name_their_forms()
    ensures
        symbol_of(Kernel::DecodeStepGqaF32) == Some(
            symbol_of(Kernel::DecodeStepGqa)->0 + "_f32"@,
        ),
        symbol_of(Kernel::DecodeStepGqaFlash) == Some(
            symbol_of(Kernel::DecodeStepGqa)->0 + "_flash"@,
        ),
        symbol_of(Kernel::DecodeStepGqaFlashF32) == Some(
            symbol_of(Kernel::DecodeStepGqaFlash)->0 + "_f32"@,
        ),
        symbol_of(Kernel::DecodeStepGqaFlashFused) == Some(
            symbol_of(Kernel::DecodeStepGqaFlash)->0 + "_fused"@,
        ),
        symbol_of(Kernel::DecodeStepGqaFlashBatch) == Some(
            symbol_of(Kernel::DecodeStepGqaFlash)->0 + "_batch"@,
        ),
        symbol_of(Kernel::GemvM1Reduce) == Some(symbol_of(Kernel::GemvM1)->0 + "_reduce"@),
        symbol_of(Kernel::GemvM1Multi) == Some(symbol_of(Kernel::GemvM1)->0 + "_multi"@),
        symbol_of(Kernel::GemvMbReduce) == Some(symbol_of(Kernel::GemvMb)->0 + "_reduce"@),
        symbol_of(Kernel::RmsNormRowF16) == Some(symbol_of(Kernel::RmsNormRow)->0 + "_f16"@),
        symbol_of(Kernel::GatherRowF32) == Some(symbol_of(Kernel::GatherRow)->0 + "_f32"@),
{
    reveal_strlit("_f16");
    reveal_strlit("_f32");
    reveal_strlit("_flash");
    reveal_strlit("_fused");
    reveal_strlit("_batch");
    reveal_strlit("_reduce");
    reveal_strlit("_multi");
    reveal_strlit("decode_step_gqa");
    reveal_strlit("decode_step_gqa_f32");
    reveal_strlit("decode_step_gqa_flash");
    reveal_strlit("decode_step_gqa_flash_f32");
    reveal_strlit("decode_step_gqa_flash_fused");
    reveal_strlit("decode_step_gqa_flash_batch");
    reveal_strlit("gemv_m1_f16f32");
    reveal_strlit("gemv_m1_f16f32_reduce");
    reveal_strlit("gemv_m1_f16f32_multi");
    reveal_strlit("gemv_mb_f16f32");
    reveal_strlit("gemv_mb_f16f32_reduce");
    reveal_strlit("rms_norm_row");
    reveal_strlit("rms_norm_row_f16");
    reveal_strlit("gather_row");
    reveal_strlit("gather_row_f32");
    assert("decode_step_gqa_f32"@ =~= "decode_step_gqa"@ + "_f32"@);
    assert("decode_step_gqa_flash"@ =~= "decode_step_gqa"@ + "_flash"@);
    assert("decode_step_gqa_flash_f32"@ =~= "decode_step_gqa_flash"@ + "_f32"@);
    assert("decode_step_gqa_flash_fused"@ =~= "decode_step_gqa_flash"@ + "_fused"@);
    assert("decode_step_gqa_flash_batch"@ =~= "decode_step_gqa_flash"@ + "_batch"@);
    assert("gemv_m1_f16f32_reduce"@ =~= "gemv_m1_f16f32"@ + "_reduce"@);
    assert("gemv_m1_f16f32_multi"@ =~= "gemv_m1_f16f32"@ + "_multi"@);
    assert("gemv_mb_f16f32_reduce"@ =~= "gemv_mb_f16f32"@ + "_reduce"@);
    assert("rms_norm_row_f16"@ =~= "rms_norm_row"@ + "_f16"@);
    assert("gather_row_f32"@ =~= "gather_row"@ + "_f32"@);
}

} // verus!
