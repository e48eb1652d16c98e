//! Launches of the small kernels of a dense decoder layer.

use vstd::prelude::*;

use crate::launch::{
    blocks256, launch_rows, rows_launch, CudaStream, Kernel, Launch, LaunchV, Queue,
};
use crate::math::div_ceil_u32;

verus! {

/// RMSNorm of one row, one block.
pub open spec fn rms_norm(on: Queue, x: u64, out: u64, w: u64, n: u32, eps: u32) -> LaunchV {
    rows_launch(on, Kernel::RmsNormRowF16, 1, 256, 0, seq![x, out, w, n as u64, eps as u64])
}

/// RMSNorm of every head, one block each, over a shared weight row.
pub open spec fn rms_heads(
    on: Queue,
    x: u64,
    out: u64,
    w: u64,
    rows: u32,
    n: u32,
    eps: u32,
) -> LaunchV {
    rows_launch(
        on,
        Kernel::RmsNormHeadsF16,
        rows,
        256,
        0,
        seq![x, out, w, rows as u64, n as u64, eps as u64],
    )
}

/// Rotary embedding of one head in place.
pub open spec fn rope_row(on: Queue, x: u64, half: u32, pos: u32, eta: u32) -> LaunchV {
    rows_launch(
        on,
        Kernel::RopeNeoxF16,
        1,
        256,
        0,
        seq![x, half as u64, pos as u64, eta as u64],
    )
}

/// Rotary embedding of every head in place, with an element scale folded in.
pub open spec fn rope_heads(
    on: Queue,
    x: u64,
    heads: u32,
    half: u32,
    pos: u32,
    eta: u32,
    scale: u32,
) -> LaunchV {
    rows_launch(
        on,
        Kernel::RopeHeadsF16,
        heads,
        256,
        0,
        seq![x, heads as u64, half as u64, pos as u64, eta as u64, scale as u64],
    )
}

/// Residual add: `out += x`.
pub open spec fn add_rows(on: Queue, out: u64, x: u64, n: u32) -> LaunchV {
    rows_launch(on, Kernel::AddF16, blocks256(n as int), 256, 0, seq![out, x, n as u64])
}

/// Residual add of an `f32` row cast to `f16`.
pub open spec fn add_cast(on: Queue, out: u64, x: u64, n: u32) -> LaunchV {
    rows_launch(on, Kernel::AddCastF16, blocks256(n as int), 256, 0, seq![out, x, n as u64])
}

/// SiLU-GLU of `f32` gate and up rows, each cast to `f16` first.
pub open spec fn cast_swiglu(on: Queue, gate: u64, up: u64, out: u64, n: u32) -> LaunchV {
    rows_launch(
        on,
        Kernel::FusedCastSwigluF16,
        blocks256(n as int),
        256,
        0,
        seq![gate, up, out, n as u64],
    )
}

/// Residual add into `x`, and the RMSNorm row of the sum.
pub open spec fn add_rms(
    on: Queue,
    x: u64,
    c: u64,
    out: u64,
    w: u64,
    n: u32,
    eps: u32,
) -> LaunchV {
    rows_launch(on, Kernel::FusedAddRmsF16, 1, 256, 0, seq![x, c, out, w, n as u64, eps as u64])
}

/// SiLU-GLU: `out = silu(gate) * up`.
pub open spec fn swiglu(on: Queue, gate: u64, up: u64, out: u64, n: u32) -> LaunchV {
    rows_launch(
        on,
        Kernel::SwigluF16,
        blocks256(n as int),
        256,
        0,
        seq![gate, up, out, n as u64],
    )
}

/// Write of one token's key and value rows into its cache slot.
pub open spec fn kv_write(
    on: Queue,
    k_row: u64,
    v_row: u64,
    kv: u64,
    phys: u32,
    off: u32,
    block_len: u32,
    kv_heads: u32,
    d: u32,
    total_pages: u32,
) -> LaunchV {
    rows_launch(
        on,
        Kernel::KvWriteRow,
        blocks256(kv_heads * d),
        256,
        0,
        seq![
            k_row,
            v_row,
            kv,
            phys as u64,
            off as u64,
            block_len as u64,
            kv_heads as u64,
            d as u64,
            total_pages as u64,
        ],
    )
}

/// Element scale: `x *= scale`.
pub open spec fn scale_row(on: Queue, x: u64, n: u32, scale: u32) -> LaunchV {
    rows_launch(
        on,
        Kernel::ScaleF16,
        blocks256(n as int),
        256,
        0,
        seq![x, n as u64, scale as u64],
    )
}

/// Copy of one embedding row.
pub open spec fn gather(on: Queue, src: u64, dst: u64, row: u32, n: u32) -> LaunchV {
    rows_launch(
        on,
        Kernel::GatherRow,
        blocks256(n as int),
        256,
        0,
        seq![src, dst, row as u64, n as u64],
    )
}

/// Copy of one `f32` embedding row.
pub open spec fn gather_f32(on: Queue, src: u64, dst: u64, row: u32, n: u32) -> LaunchV {
    rows_launch(
        on,
        Kernel::GatherRowF32,
        blocks256(n as int),
        256,
        0,
        seq![src, dst, row as u64, n as u64],
    )
}

/// Element scale of an `f32` row.
pub open spec fn scale_f32(on: Queue, x: u64, n: u32, scale: u32) -> LaunchV {
    rows_launch(
        on,
        Kernel::ScaleF32,
        blocks256(n as int),
        256,
        0,
        seq![x, n as u64, scale as u64],
    )
}

/// SiLU-GLU of `f32` rows.
pub open spec fn swiglu_f32(on: Queue, gate: u64, up: u64, out: u64, n: u32) -> LaunchV {
    rows_launch(
        on,
        Kernel::SwigluF32,
        blocks256(n as int),
        256,
        0,
        seq![gate, up, out, n as u64],
    )
}

/// The dense decoder kernels.
#[derive(Debug)]
pub struct DenseKernels {
    /// Target architecture that the unit is compiled for.
    pub arch: String,
}

impl DenseKernels {
    /// The dense kernels for an architecture.
    pub fn new(arch: &str) -> (s: Self)
        ensures
            s.arch@ == arch@,
    {
        DenseKernels { arch: arch.to_owned() }
    }

    /// RMSNorm of one row, one block.
    pub fn launch_rms_norm(
        &self,
        dev: u32,
        stream: &CudaStream,
        x: u64,
        out: u64,
        w: u64,
        n: u32,
        eps: u32,
    ) -> (l: Launch)
        ensures
            l@ == rms_norm((Queue { dev, stream: *stream }), x, out, w, n, eps),
    {
        launch_rows(
            Queue { dev, stream: *stream },
            Kernel::RmsNormRowF16,
            1,
            256,
            0,
            vec![x, out, w, n as u64, eps as u64],
        )
    }

    /// RMSNorm of every head, one block each, over a shared weight row.
    pub fn launch_rms_heads(
        &self,
        dev: u32,
        stream: &CudaStream,
        x: u64,
        out: u64,
        w: u64,
        rows: u32,
        n: u32,
        eps: u32,
    ) -> (l: Launch)
        ensures
            l@ == rms_heads((Queue { dev, stream: *stream }), x, out, w, rows, n, eps),
    {
        launch_rows(
            Queue { dev, stream: *stream },
            Kernel::RmsNormHeadsF16,
            rows,
            256,
            0,
            vec![x, out, w, rows as u64, n as u64, eps as u64],
        )
    }

    /// Rotary embedding of one head in place.
    pub fn launch_rope_row(
        &self,
        dev: u32,
        stream: &CudaStream,
        x: u64,
        half: u32,
        pos: u32,
        eta: u32,
    ) -> (l: Launch)
        ensures
            l@ == rope_row((Queue { dev, stream: *stream }), x, half, pos, eta),
    {
        launch_rows(
            Queue { dev, stream: *stream },
            Kernel::RopeNeoxF16,
            1,
            256,
            0,
            vec![x, half as u64, pos as u64, eta as u64],
        )
    }

    /// Rotary embedding of every head in place, with an element scale folded in.
    pub fn launch_rope_heads(
        &self,
        dev: u32,
        stream: &CudaStream,
        x: u64,
        heads: u32,
        half: u32,
        pos: u32,
        eta: u32,
        scale: u32,
    ) -> (l: Launch)
        ensures
            l@ == rope_heads((Queue { dev, stream: *stream }), x, heads, half, pos, eta, scale),
    {
        launch_rows(
            Queue { dev, stream: *stream },
            Kernel::RopeHeadsF16,
            heads,
            256,
            0,
            vec![x, heads as u64, half as u64, pos as u64, eta as u64, scale as u64],
        )
    }

    /// Residual add: `out += x`.
    pub fn launch_add(
        &self,
        dev: u32,
        stream: &CudaStream,
        out: u64,
        x: u64,
        n: u32,
    ) -> (l: Launch)
        ensures
            l@ == add_rows((Queue { dev, stream: *stream }), out, x, n),
    {
        launch_rows(
            Queue { dev, stream: *stream },
            Kernel::AddF16,
            div_ceil_u32(n, 256),
            256,
            0,
            vec![out, x, n as u64],
        )
    }

    /// Residual add of an `f32` row cast to `f16`.
    pub fn launch_add_cast(
        &self,
        dev: u32,
        stream: &CudaStream,
        out: u64,
        x: u64,
        n: u32,
    ) -> (l: Launch)
        ensures
            l@ == add_cast((Queue { dev, stream: *stream }), out, x, n),
    {
        launch_rows(
            Queue { dev, stream: *stream },
            Kernel::AddCastF16,
            div_ceil_u32(n, 256),
            256,
            0,
            vec![out, x, n as u64],
        )
    }

    /// SiLU-GLU of `f32` gate and up rows, each cast to `f16` first.
    pub fn launch_fused_cast_swiglu(
        &self,
        dev: u32,
        stream: &CudaStream,
        gate: u64,
        up: u64,
        out: u64,
        n: u32,
    ) -> (l: Launch)
        ensures
            l@ == cast_swiglu((Queue { dev, stream: *stream }), gate, up, out, n),
    {
        launch_rows(
            Queue { dev, stream: *stream },
            Kernel::FusedCastSwigluF16,
            div_ceil_u32(n, 256),
            256,
            0,
            vec![gate, up, out, n as u64],
        )
    }

    /// Residual add into `x`, and the RMSNorm row of the sum.
    pub fn launch_fused_add_rms(
        &self,
        dev: u32,
        stream: &CudaStream,
        x: u64,
        c: u64,
        out: u64,
        w: u64,
        n: u32,
        eps: u32,
    ) -> (l: Launch)
        ensures
            l@ == add_rms((Queue { dev, stream: *stream }), x, c, out, w, n, eps),
    {
        launch_rows(
            Queue { dev, stream: *stream },
            Kernel::FusedAddRmsF16,
            1,
            256,
            0,
            vec![x, c, out, w, n as u64, eps as u64],
        )
    }

    /// SiLU-GLU: `out = silu(gate) * up`.
    pub fn launch_swiglu(
        &self,
        dev: u32,
        stream: &CudaStream,
        gate: u64,
        up: u64,
        out: u64,
        n: u32,
    ) -> (l: Launch)
        ensures
            l@ == swiglu((Queue { dev, stream: *stream }), gate, up, out, n),
    {
        launch_rows(
            Queue { dev, stream: *stream },
            Kernel::SwigluF16,
            div_ceil_u32(n, 256),
            256,
            0,
            vec![gate, up, out, n as u64],
        )
    }

    /// Write of one token's key and value rows into its cache slot.
    pub fn launch_kv_write(
        &self,
        dev: u32,
        stream: &CudaStream,
        k_row: u64,
        v_row: u64,
        kv: u64,
        phys: u32,
        off: u32,
        block_len: u32,
        kv_heads: u32,
        d: u32,
        total_pages: u32,
    ) -> (l: Launch)
        requires
            kv_heads * d <= u32::MAX,
        ensures
            l@ == kv_write(
                (Queue { dev, stream: *stream }),
                k_row,
                v_row,
                kv,
                phys,
                off,
                block_len,
                kv_heads,
                d,
                total_pages,
            ),
    {
        launch_rows(
            Queue { dev, stream: *stream },
            Kernel::KvWriteRow,
            div_ceil_u32(kv_heads * d, 256),
            256,
            0,
            vec![
                k_row,
                v_row,
                kv,
                phys as u64,
                off as u64,
                block_len as u64,
                kv_heads as u64,
                d as u64,
                total_pages as u64,
            ],
        )
    }

    /// Element scale: `x *= scale`.
    pub fn launch_scale(
        &self,
        dev: u32,
        stream: &CudaStream,
        x: u64,
        n: u32,
        scale: u32,
    ) -> (l: Launch)
        ensures
            l@ == scale_row((Queue { dev, stream: *stream }), x, n, scale),
    {
        launch_rows(
            Queue { dev, stream: *stream },
            Kernel::ScaleF16,
            div_ceil_u32(n, 256),
            256,
            0,
            vec![x, n as u64, scale as u64],
        )
    }

    /// Copy of one embedding row.
    pub fn launch_gather(
        &self,
        dev: u32,
        stream: &CudaStream,
        src: u64,
        dst: u64,
        row: u32,
        n: u32,
    ) -> (l: Launch)
        ensures
            l@ == gather((Queue { dev, stream: *stream }), src, dst, row, n),
    {
        launch_rows(
            Queue { dev, stream: *stream },
            Kernel::GatherRow,
            div_ceil_u32(n, 256),
            256,
            0,
            vec![src, dst, row as u64, n as u64],
        )
    }

    /// Copy of one `f32` embedding row.
    pub fn launch_gather_f32(
        &self,
        dev: u32,
        stream: &CudaStream,
        src: u64,
        dst: u64,
        row: u32,
        n: u32,
    ) -> (l: Launch)
        ensures
            l@ == gather_f32((Queue { dev, stream: *stream }), src, dst, row, n),
    {
        launch_rows(
            Queue { dev, stream: *stream },
            Kernel::GatherRowF32,
            div_ceil_u32(n, 256),
            256,
            0,
            vec![src, dst, row as u64, n as u64],
        )
    }

    /// Element scale of an `f32` row.
    pub fn launch_scale_f32(
        &self,
        dev: u32,
        stream: &CudaStream,
        x: u64,
        n: u32,
        scale: u32,
    ) -> (l: Launch)
        ensures
            l@ == scale_f32((Queue { dev, stream: *stream }), x, n, scale),
    {
        launch_rows(
            Queue { dev, stream: *stream },
            Kernel::ScaleF32,
            div_ceil_u32(n, 256),
            256,
            0,
            vec![x, n as u64, scale as u64],
        )
    }

    /// SiLU-GLU of `f32` rows.
    pub fn launch_swiglu_f32(
        &self,
        dev: u32,
        stream: &CudaStream,
        gate: u64,
        up: u64,
        out: u64,
        n: u32,
    ) -> (l: Launch)
        ensures
            l@ == swiglu_f32((Queue { dev, stream: *stream }), gate, up, out, n),
    {
        launch_rows(
            Queue { dev, stream: *stream },
            Kernel::SwigluF32,
            div_ceil_u32(n, 256),
            256,
            0,
            vec![gate, up, out, n as u64],
        )
    }
}

} // verus!
