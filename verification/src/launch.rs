//! Kernel launches as data: which kernel, on which stream, with which geometry
//! and which argument words.

use vstd::prelude::*;

use crate::math::ceil_div;
use crate::text::{decimal, push_decimal, push_text};

verus! {

/// A stream of device work: the device it belongs to and its handle.
#[derive(Debug, Clone, Copy, PartialEq, Eq, Structural)]
pub struct CudaStream {
    pub dev: u32,
    pub handle: u64,
}

/// Where a launch goes: a device and one of its streams.
#[derive(Debug, Clone, Copy, PartialEq, Eq, Structural)]
pub struct Queue {
    pub dev: u32,
    pub stream: CudaStream,
}

/// Three extents of a grid or a block.
#[derive(Debug, Clone, Copy, PartialEq, Eq, Structural)]
pub struct Dim3 {
    pub x: u32,
    pub y: u32,
    pub z: u32,
}

/// A compilation unit of kernels: one source, one loaded library.
#[derive(Debug, Clone, Copy, PartialEq, Eq, Structural)]
pub enum Unit {
    Dense,
    Diff,
    DecodeGqa,
    DecodeFlash,
    DecodeDot,
    Dequant,
    GemmM1,
    DecodeFused,
    DecodeBatch,
    Prefill,
    Fmha,
    /// One persistent kernel per decoder layer.
    LayerFused,
}

/// A kernel of one of the units.
#[derive(Debug, Clone, Copy, PartialEq, Eq, Structural)]
pub enum Kernel {
    RmsNormRowF16,
    RmsNormHeadsF16,
    RopeNeoxF16,
    RopeHeadsF16,
    AddF16,
    AddCastF16,
    SwigluF16,
    FusedCastSwigluF16,
    FusedAddRmsF16,
    KvWriteRow,
    GatherRow,
    ScaleF16,
    GatherRowF32,
    ScaleF32,
    SwigluF32,
    RmsNormRow,
    RopeRow,
    MaskedSoftmaxRow,
    MaskedSoftmaxMatrix,
    CastF32ToF16,
    AddF32Inplace,
    TransposeF16,
    TransposeF32,
    DecodeStepGqa,
    DecodeStepGqaF32,
    DecodeStepGqaFlash,
    DecodeStepGqaFlashF32,
    DecodeStepGqaFlashFused,
    DecodeStepGqaFlashBatch,
    FusedQ8Dot,
    DequantQ80,
    GemvM1,
    GemvM1Reduce,
    GemvMb,
    GemvMbReduce,
    GemvM1Multi,
    GemvP2QkvCastHnRope,
    GemvP2GuP1dSwiglu,
    GemvP2AddRms,
    RopeNeoxBatchF16,
    KvWriteBatchF16,
    RmsNormRowsF16,
    RopeNeoxRowsF16,
    GatherRowsF16,
    KvWriteSeqRows,
    CastSplitQkvF16,
    /// Batched prefill attention: the tile variant, and whether the sequence
    /// length is a multiple of the row tile and of the key tile.
    Fmha { variant: u32, mn_even: bool, k_even: bool },
    /// The layer kernel; its loader knows the symbol.
    LayerFused,
}

/// The name of a unit.
pub open spec fn unit_name(u: Unit) -> Seq<char> {
    match u {
        Unit::Dense => "dense_kernels"@,
        Unit::Diff => "diff_kernels"@,
        Unit::DecodeGqa => "decode_gqa_kernels"@,
        Unit::DecodeFlash => "decode_flash_kernels"@,
        Unit::DecodeDot => "decode_dot_kernels"@,
        Unit::Dequant => "dequant_kernels"@,
        Unit::GemmM1 => "gemm_m1"@,
        Unit::DecodeFused => "decode_fused"@,
        Unit::DecodeBatch => "decode_batch_kernels"@,
        Unit::Prefill => "prefill_kernels"@,
        Unit::Fmha => "fmha_fwd_kernels"@,
        Unit::LayerFused => "decode_layer_fused"@,
    }
}

/// The unit that a kernel is loaded from.
pub open spec fn unit_of(k: Kernel) -> Unit {
    match k {
        Kernel::RmsNormRowF16 => Unit::Dense,
        Kernel::RmsNormHeadsF16 => Unit::Dense,
        Kernel::RopeNeoxF16 => Unit::Dense,
        Kernel::RopeHeadsF16 => Unit::Dense,
        Kernel::AddF16 => Unit::Dense,
        Kernel::AddCastF16 => Unit::Dense,
        Kernel::SwigluF16 => Unit::Dense,
        Kernel::FusedCastSwigluF16 => Unit::Dense,
        Kernel::FusedAddRmsF16 => Unit::Dense,
        Kernel::KvWriteRow => Unit::Dense,
        Kernel::GatherRow => Unit::Dense,
        Kernel::ScaleF16 => Unit::Dense,
        Kernel::GatherRowF32 => Unit::Dense,
        Kernel::ScaleF32 => Unit::Dense,
        Kernel::SwigluF32 => Unit::Dense,
        Kernel::RmsNormRow => Unit::Diff,
        Kernel::RopeRow => Unit::Diff,
        Kernel::MaskedSoftmaxRow => Unit::Diff,
        Kernel::MaskedSoftmaxMatrix => Unit::Diff,
        Kernel::CastF32ToF16 => Unit::Diff,
        Kernel::AddF32Inplace => Unit::Diff,
        Kernel::TransposeF16 => Unit::Diff,
        Kernel::TransposeF32 => Unit::Diff,
        Kernel::DecodeStepGqa => Unit::DecodeGqa,
        Kernel::DecodeStepGqaF32 => Unit::DecodeGqa,
        Kernel::DecodeStepGqaFlash => Unit::DecodeFlash,
        Kernel::DecodeStepGqaFlashF32 => Unit::DecodeFlash,
        Kernel::DecodeStepGqaFlashFused => Unit::DecodeFlash,
        Kernel::DecodeStepGqaFlashBatch => Unit::DecodeFlash,
        Kernel::FusedQ8Dot => Unit::DecodeDot,
        Kernel::DequantQ80 => Unit::Dequant,
        Kernel::GemvM1 => Unit::GemmM1,
        Kernel::GemvM1Reduce => Unit::GemmM1,
        Kernel::GemvMb => Unit::GemmM1,
        Kernel::GemvMbReduce => Unit::GemmM1,
        Kernel::GemvM1Multi => Unit::DecodeFused,
        Kernel::GemvP2QkvCastHnRope => Unit::DecodeFused,
        Kernel::GemvP2GuP1dSwiglu => Unit::DecodeFused,
        Kernel::GemvP2AddRms => Unit::DecodeFused,
        Kernel::RopeNeoxBatchF16 => Unit::DecodeBatch,
        Kernel::KvWriteBatchF16 => Unit::DecodeBatch,
        Kernel::RmsNormRowsF16 => Unit::Prefill,
        Kernel::RopeNeoxRowsF16 => Unit::Prefill,
        Kernel::GatherRowsF16 => Unit::Prefill,
        Kernel::KvWriteSeqRows => Unit::Prefill,
        Kernel::CastSplitQkvF16 => Unit::Prefill,
        Kernel::Fmha { .. } => Unit::Fmha,
        Kernel::LayerFused => Unit::LayerFused,
    }
}

pub open spec fn parity_text(even: bool) -> Seq<char> {
    if even {
        "even"@
    } else {
        "odd"@
    }
}

/// The symbol of a kernel, where the kernel alone determines it.
pub open spec fn symbol_of(k: Kernel) -> Option<Seq<char>> {
    match k {
        Kernel::RmsNormRowF16 => Some("rms_norm_row_f16"@),
        Kernel::RmsNormHeadsF16 => Some("rms_norm_heads_f16"@),
        Kernel::RopeNeoxF16 => Some("rope_neox_f16"@),
        Kernel::RopeHeadsF16 => Some("rope_heads_f16"@),
        Kernel::AddF16 => Some("add_f16_to_f16"@),
        Kernel::AddCastF16 => Some("add_cast_f16"@),
        Kernel::SwigluF16 => Some("swiglu_f16"@),
        Kernel::FusedCastSwigluF16 => Some("fused_cast_swiglu_f16"@),
        Kernel::FusedAddRmsF16 => Some("fused_add_rms_f16"@),
        Kernel::KvWriteRow => Some("kv_write_row"@),
        Kernel::GatherRow => Some("gather_row"@),
        Kernel::ScaleF16 => Some("scale_f16"@),
        Kernel::GatherRowF32 => Some("gather_row_f32"@),
        Kernel::ScaleF32 => Some("scale_f32"@),
        Kernel::SwigluF32 => Some("swiglu_f32"@),
        Kernel::RmsNormRow => Some("rms_norm_row"@),
        Kernel::RopeRow => Some("rope_row"@),
        Kernel::MaskedSoftmaxRow => Some("masked_softmax_row"@),
        Kernel::MaskedSoftmaxMatrix => Some("masked_softmax_matrix"@),
        Kernel::CastF32ToF16 => Some("cast_f32_to_f16"@),
        Kernel::AddF32Inplace => Some("add_f32_f32_inplace"@),
        Kernel::TransposeF16 => Some("transpose_f16"@),
        Kernel::TransposeF32 => Some("transpose_f32"@),
        Kernel::DecodeStepGqa => Some("decode_step_gqa"@),
        Kernel::DecodeStepGqaF32 => Some("decode_step_gqa_f32"@),
        Kernel::DecodeStepGqaFlash => Some("decode_step_gqa_flash"@),
        Kernel::DecodeStepGqaFlashF32 => Some("decode_step_gqa_flash_f32"@),
        Kernel::DecodeStepGqaFlashFused => Some("decode_step_gqa_flash_fused"@),
        Kernel::DecodeStepGqaFlashBatch => Some("decode_step_gqa_flash_batch"@),
        Kernel::FusedQ8Dot => Some("fused_q8_dot"@),
        Kernel::DequantQ80 => Some("dequant_q8_0"@),
        Kernel::GemvM1 => Some("gemv_m1_f16f32"@),
        Kernel::GemvM1Reduce => Some("gemv_m1_f16f32_reduce"@),
        Kernel::GemvMb => Some("gemv_mb_f16f32"@),
        Kernel::GemvMbReduce => Some("gemv_mb_f16f32_reduce"@),
        Kernel::GemvM1Multi => Some("gemv_m1_f16f32_multi"@),
        Kernel::GemvP2QkvCastHnRope => Some("gemv_p2_qkv_cast_hn_rope"@),
        Kernel::GemvP2GuP1dSwiglu => Some("gemv_p2_gu_p1d_swiglu"@),
        Kernel::GemvP2AddRms => Some("gemv_p2_add_rms"@),
        Kernel::RopeNeoxBatchF16 => Some("rope_neox_batch_f16"@),
        Kernel::KvWriteBatchF16 => Some("kv_write_batch_f16"@),
        Kernel::RmsNormRowsF16 => Some("rms_norm_rows_f16"@),
        Kernel::RopeNeoxRowsF16 => Some("rope_neox_rows_f16"@),
        Kernel::GatherRowsF16 => Some("gather_rows_f16"@),
        Kernel::KvWriteSeqRows => Some("kv_write_seq_rows"@),
        Kernel::CastSplitQkvF16 => Some("cast_split_qkv_f16"@),
        Kernel::Fmha { variant, mn_even, k_even } => Some(
            "fmha_v"@ + decimal(variant as nat) + "_mn_"@ + parity_text(mn_even) + "_k_"@
                + parity_text(k_even),
        ),
        Kernel::LayerFused => None,
    }
}

impl Unit {
    /// The name of the unit.
    pub fn name(&self) -> (s: &'static str)
        ensures
            s@ == unit_name(*self),
    {
        match self {
            Unit::Dense => "dense_kernels",
            Unit::Diff => "diff_kernels",
            Unit::DecodeGqa => "decode_gqa_kernels",
            Unit::DecodeFlash => "decode_flash_kernels",
            Unit::DecodeDot => "decode_dot_kernels",
            Unit::Dequant => "dequant_kernels",
            Unit::GemmM1 => "gemm_m1",
            Unit::DecodeFused => "decode_fused",
            Unit::DecodeBatch => "decode_batch_kernels",
            Unit::Prefill => "prefill_kernels",
            Unit::Fmha => "fmha_fwd_kernels",
            Unit::LayerFused => "decode_layer_fused",
        }
    }
}

fn parity(even: bool) -> (s: &'static str)
    ensures
        s@ == parity_text(even),
{
    if even {
        "even"
    } else {
        "odd"
    }
}

impl Kernel {
    /// The unit that the kernel is loaded from.
    pub fn unit(&self) -> (u: Unit)
        ensures
            u == unit_of(*self),
    {
        match self {
            Kernel::RmsNormRowF16 => Unit::Dense,
            Kernel::RmsNormHeadsF16 => Unit::Dense,
            Kernel::RopeNeoxF16 => Unit::Dense,
            Kernel::RopeHeadsF16 => Unit::Dense,
            Kernel::AddF16 => Unit::Dense,
            Kernel::AddCastF16 => Unit::Dense,
            Kernel::SwigluF16 => Unit::Dense,
            Kernel::FusedCastSwigluF16 => Unit::Dense,
            Kernel::FusedAddRmsF16 => Unit::Dense,
            Kernel::KvWriteRow => Unit::Dense,
            Kernel::GatherRow => Unit::Dense,
            Kernel::ScaleF16 => Unit::Dense,
            Kernel::GatherRowF32 => Unit::Dense,
            Kernel::ScaleF32 => Unit::Dense,
            Kernel::SwigluF32 => Unit::Dense,
            Kernel::RmsNormRow => Unit::Diff,
            Kernel::RopeRow => Unit::Diff,
            Kernel::MaskedSoftmaxRow => Unit::Diff,
            Kernel::MaskedSoftmaxMatrix => Unit::Diff,
            Kernel::CastF32ToF16 => Unit::Diff,
            Kernel::AddF32Inplace => Unit::Diff,
            Kernel::TransposeF16 => Unit::Diff,
            Kernel::TransposeF32 => Unit::Diff,
            Kernel::DecodeStepGqa => Unit::DecodeGqa,
            Kernel::DecodeStepGqaF32 => Unit::DecodeGqa,
            Kernel::DecodeStepGqaFlash => Unit::DecodeFlash,
            Kernel::DecodeStepGqaFlashF32 => Unit::DecodeFlash,
            Kernel::DecodeStepGqaFlashFused => Unit::DecodeFlash,
            Kernel::DecodeStepGqaFlashBatch => Unit::DecodeFlash,
            Kernel::FusedQ8Dot => Unit::DecodeDot,
            Kernel::DequantQ80 => Unit::Dequant,
            Kernel::GemvM1 => Unit::GemmM1,
            Kernel::GemvM1Reduce => Unit::GemmM1,
            Kernel::GemvMb => Unit::GemmM1,
            Kernel::GemvMbReduce => Unit::GemmM1,
            Kernel::GemvM1Multi => Unit::DecodeFused,
            Kernel::GemvP2QkvCastHnRope => Unit::DecodeFused,
            Kernel::GemvP2GuP1dSwiglu => Unit::DecodeFused,
            Kernel::GemvP2AddRms => Unit::DecodeFused,
            Kernel::RopeNeoxBatchF16 => Unit::DecodeBatch,
            Kernel::KvWriteBatchF16 => Unit::DecodeBatch,
            Kernel::RmsNormRowsF16 => Unit::Prefill,
            Kernel::RopeNeoxRowsF16 => Unit::Prefill,
            Kernel::GatherRowsF16 => Unit::Prefill,
            Kernel::KvWriteSeqRows => Unit::Prefill,
            Kernel::CastSplitQkvF16 => Unit::Prefill,
            Kernel::Fmha { .. } => Unit::Fmha,
            Kernel::LayerFused => Unit::LayerFused,
        }
    }

    /// The symbol to look up in the unit's library; `None` for the layer kernel,
    /// whose loader picks one.
    pub fn symbol(&self) -> (s: Option<String>)
        ensures
            s is Some <==> symbol_of(*self) is Some,
            s is Some ==> s->0@ == symbol_of(*self)->0,
    {
        let fixed: &str = match self {
            Kernel::RmsNormRowF16 => "rms_norm_row_f16",
            Kernel::RmsNormHeadsF16 => "rms_norm_heads_f16",
            Kernel::RopeNeoxF16 => "rope_neox_f16",
            Kernel::RopeHeadsF16 => "rope_heads_f16",
            Kernel::AddF16 => "add_f16_to_f16",
            Kernel::AddCastF16 => "add_cast_f16",
            Kernel::SwigluF16 => "swiglu_f16",
            Kernel::FusedCastSwigluF16 => "fused_cast_swiglu_f16",
            Kernel::FusedAddRmsF16 => "fused_add_rms_f16",
            Kernel::KvWriteRow => "kv_write_row",
            Kernel::GatherRow => "gather_row",
            Kernel::ScaleF16 => "scale_f16",
            Kernel::GatherRowF32 => "gather_row_f32",
            Kernel::ScaleF32 => "scale_f32",
            Kernel::SwigluF32 => "swiglu_f32",
            Kernel::RmsNormRow => "rms_norm_row",
            Kernel::RopeRow => "rope_row",
            Kernel::MaskedSoftmaxRow => "masked_softmax_row",
            Kernel::MaskedSoftmaxMatrix => "masked_softmax_matrix",
            Kernel::CastF32ToF16 => "cast_f32_to_f16",
            Kernel::AddF32Inplace => "add_f32_f32_inplace",
            Kernel::TransposeF16 => "transpose_f16",
            Kernel::TransposeF32 => "transpose_f32",
            Kernel::DecodeStepGqa => "decode_step_gqa",
            Kernel::DecodeStepGqaF32 => "decode_step_gqa_f32",
            Kernel::DecodeStepGqaFlash => "decode_step_gqa_flash",
            Kernel::DecodeStepGqaFlashF32 => "decode_step_gqa_flash_f32",
            Kernel::DecodeStepGqaFlashFused => "decode_step_gqa_flash_fused",
            Kernel::DecodeStepGqaFlashBatch => "decode_step_gqa_flash_batch",
            Kernel::FusedQ8Dot => "fused_q8_dot",
            Kernel::DequantQ80 => "dequant_q8_0",
            Kernel::GemvM1 => "gemv_m1_f16f32",
            Kernel::GemvM1Reduce => "gemv_m1_f16f32_reduce",
            Kernel::GemvMb => "gemv_mb_f16f32",
            Kernel::GemvMbReduce => "gemv_mb_f16f32_reduce",
            Kernel::GemvM1Multi => "gemv_m1_f16f32_multi",
            Kernel::GemvP2QkvCastHnRope => "gemv_p2_qkv_cast_hn_rope",
            Kernel::GemvP2GuP1dSwiglu => "gemv_p2_gu_p1d_swiglu",
            Kernel::GemvP2AddRms => "gemv_p2_add_rms",
            Kernel::RopeNeoxBatchF16 => "rope_neox_batch_f16",
            Kernel::KvWriteBatchF16 => "kv_write_batch_f16",
            Kernel::RmsNormRowsF16 => "rms_norm_rows_f16",
            Kernel::RopeNeoxRowsF16 => "rope_neox_rows_f16",
            Kernel::GatherRowsF16 => "gather_rows_f16",
            Kernel::KvWriteSeqRows => "kv_write_seq_rows",
            Kernel::CastSplitQkvF16 => "cast_split_qkv_f16",
            Kernel::Fmha { variant, mn_even, k_even } => {
                let mut s = String::new();
                push_text(&mut s, "fmha_v");
                push_decimal(&mut s, *variant as u64);
                push_text(&mut s, "_mn_");
                push_text(&mut s, parity(*mn_even));
                push_text(&mut s, "_k_");
                push_text(&mut s, parity(*k_even));
                return Some(s);
            },
            Kernel::LayerFused => {
                return None;
            },
        };
        Some(fixed.to_owned())
    }
}

/// A kernel launch.  Each argument is one word: an address, an integer, or the
/// bit pattern of an `f32`; the kernel reads as many of its low bytes as its
/// parameter has.
#[derive(Debug)]
pub struct Launch {
    pub on: Queue,
    pub kernel: Kernel,
    pub grid: Dim3,
    pub block: Dim3,
    /// Dynamic shared memory in bytes.
    pub shared: u32,
    pub args: Vec<u64>,
}

/// The mathematical value of a launch.
#[verifier::ext_equal]
pub struct LaunchV {
    pub on: Queue,
    pub kernel: Kernel,
    pub grid: Dim3,
    pub block: Dim3,
    pub shared: u32,
    pub args: Seq<u64>,
}

impl View for Launch {
    type V = LaunchV;

    open spec fn view(&self) -> LaunchV {
        LaunchV {
            on: self.on,
            kernel: self.kernel,
            grid: self.grid,
            block: self.block,
            shared: self.shared,
            args: self.args@,
        }
    }
}

/// A launch over `grid` blocks of `block` threads in one dimension.
pub open spec fn rows_launch(
    on: Queue,
    kernel: Kernel,
    grid: u32,
    block: u32,
    shared: u32,
    args: Seq<u64>,
) -> LaunchV {
    LaunchV {
        on,
        kernel,
        grid: Dim3 { x: grid, y: 1, z: 1 },
        block: Dim3 { x: block, y: 1, z: 1 },
        shared,
        args,
    }
}

/// A launch over a grid and blocks of two dimensions.
pub open spec fn grid_launch(
    on: Queue,
    kernel: Kernel,
    gx: u32,
    gy: u32,
    bx: u32,
    by: u32,
    args: Seq<u64>,
) -> LaunchV {
    LaunchV {
        on,
        kernel,
        grid: Dim3 { x: gx, y: gy, z: 1 },
        block: Dim3 { x: bx, y: by, z: 1 },
        shared: 0,
        args,
    }
}

/// Blocks of 256 threads for `n` elements.
pub open spec fn blocks256(n: int) -> u32 {
    ceil_div(n, 256) as u32
}

pub fn launch_rows(
    on: Queue,
    kernel: Kernel,
    grid: u32,
    block: u32,
    shared: u32,
    args: Vec<u64>,
) -> (l: Launch)
    ensures
        l@ == rows_launch(on, kernel, grid, block, shared, args@),
{
    Launch {
        on,
        kernel,
        grid: Dim3 { x: grid, y: 1, z: 1 },
        block: Dim3 { x: block, y: 1, z: 1 },
        shared,
        args,
    }
}

pub fn launch_grid(
    on: Queue,
    kernel: Kernel,
    gx: u32,
    gy: u32,
    bx: u32,
    by: u32,
    args: Vec<u64>,
) -> (l: Launch)
    ensures
        l@ == grid_launch(on, kernel, gx, gy, bx, by, args@),
{
    Launch {
        on,
        kernel,
        grid: Dim3 { x: gx, y: gy, z: 1 },
        block: Dim3 { x: bx, y: by, z: 1 },
        shared: 0,
        args,
    }
}

} // verus!
