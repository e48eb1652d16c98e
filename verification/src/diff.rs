//! Launches of the row-wise reference kernels.

use vstd::prelude::*;

use crate::launch::{
    blocks256, grid_launch, launch_grid, launch_rows, rows_launch, CudaStream, Kernel, Launch,
    LaunchV, Queue,
};
use crate::math::{ceil_div, div_ceil_u32};

verus! {

/// Tiles of 16 along an extent.
pub open spec fn tiles16(n: u32) -> u32 {
    ceil_div(n as int, 16) as u32
}

/// RMSNorm of one `f32` row, one block.
pub open spec fn rms_norm(on: Queue, x: u64, w: u64, out: u64, n: u32, eps: u32) -> LaunchV {
    rows_launch(on, Kernel::RmsNormRow, 1, 256, 0, seq![x, w, out, n as u64, eps as u64])
}

/// Rotary embedding of one `f32` head at one position.
pub open spec fn rope(on: Queue, x: u64, out: u64, half: u32, pos: u32, eta: u32) -> LaunchV {
    rows_launch(
        on,
        Kernel::RopeRow,
        1,
        1024,
        0,
        seq![x, out, half as u64, pos as u64, eta as u64],
    )
}

/// Softmax of every row of a masked matrix, one block each.
pub open spec fn softmax_matrix(
    on: Queue,
    x: u64,
    out: u64,
    rows: u32,
    rowlen: u32,
) -> LaunchV {
    rows_launch(
        on,
        Kernel::MaskedSoftmaxMatrix,
        rows,
        256,
        0,
        seq![x, out, rows as u64, rowlen as u64],
    )
}

/// Softmax of one masked row.
pub open spec fn softmax_row(on: Queue, x: u64, out: u64, n: u32) -> LaunchV {
    rows_launch(on, Kernel::MaskedSoftmaxRow, 1, 256, 0, seq![x, out, n as u64])
}

/// Elementwise cast from `f32` to `f16`.
pub open spec fn cast_f32_f16(on: Queue, x: u64, out: u64, n: u32) -> LaunchV {
    rows_launch(on, Kernel::CastF32ToF16, blocks256(n as int), 256, 0, seq![x, out, n as u64])
}

/// Addition of a mask in place.
pub open spec fn add_mask(on: Queue, s: u64, mask: u64, n: u32) -> LaunchV {
    rows_launch(on, Kernel::AddF32Inplace, blocks256(n as int), 256, 0, seq![s, mask, n as u64])
}

/// Transpose of a row-major `f16` matrix.
pub open spec fn transpose_f16(on: Queue, x: u64, out: u64, rows: u32, cols: u32) -> LaunchV {
    grid_launch(
        on,
        Kernel::TransposeF16,
        tiles16(cols),
        tiles16(rows),
        16,
        16,
        seq![x, out, rows as u64, cols as u64],
    )
}

/// Transpose of a row-major `f32` matrix.
pub open spec fn transpose_f32(on: Queue, x: u64, out: u64, rows: u32, cols: u32) -> LaunchV {
    grid_launch(
        on,
        Kernel::TransposeF32,
        tiles16(cols),
        tiles16(rows),
        16,
        16,
        seq![x, out, rows as u64, cols as u64],
    )
}

/// The row-wise reference kernels, with the stream of the single-row launches.
#[derive(Debug)]
pub struct DiffKernels {
    pub stream: CudaStream,
    pub arch: String,
}

impl DiffKernels {
    /// The reference kernels for an architecture, on a stream.
    pub fn new(arch: &str, stream: CudaStream) -> (s: Self)
        ensures
            s.arch@ == arch@,
            s.stream == stream,
    {
        DiffKernels { stream, arch: arch.to_owned() }
    }

    /// Target architecture.
    pub fn arch(&self) -> (a: &str)
        ensures
            a@ == self.arch@,
    {
        self.arch.as_str()
    }

    /// The stream to wait for when these launches are to be complete.
    pub fn sync_stream(&self) -> (s: CudaStream)
        ensures
            s == self.stream,
    {
        self.stream
    }

    /// RMSNorm of one `f32` row, one block.
    pub fn launch_rms_norm(
        &self,
        dev: u32,
        x: u64,
        w: u64,
        out: u64,
        n: u32,
        eps: u32,
    ) -> (l: Launch)
        ensures
            l@ == rms_norm((Queue { dev, stream: self.stream }), x, w, out, n, eps),
    {
        launch_rows(
            Queue { dev, stream: self.stream },
            Kernel::RmsNormRow,
            1,
            256,
            0,
            vec![x, w, out, n as u64, eps as u64],
        )
    }

    /// Rotary embedding of one `f32` head at one position.
    pub fn launch_rope(
        &self,
        dev: u32,
        x: u64,
        out: u64,
        half: u32,
        pos: u32,
        eta: u32,
    ) -> (l: Launch)
        ensures
            l@ == rope((Queue { dev, stream: self.stream }), x, out, half, pos, eta),
    {
        launch_rows(
            Queue { dev, stream: self.stream },
            Kernel::RopeRow,
            1,
            1024,
            0,
            vec![x, out, half as u64, pos as u64, eta as u64],
        )
    }

    /// Softmax of every row of a masked matrix, one block each.
    pub fn launch_masked_softmax_matrix(
        &self,
        dev: u32,
        stream: &CudaStream,
        x: u64,
        out: u64,
        rows: u32,
        rowlen: u32,
    ) -> (l: Launch)
        ensures
            l@ == softmax_matrix((Queue { dev, stream: *stream }), x, out, rows, rowlen),
    {
        launch_rows(
            Queue { dev, stream: *stream },
            Kernel::MaskedSoftmaxMatrix,
            rows,
            256,
            0,
            vec![x, out, rows as u64, rowlen as u64],
        )
    }

    /// Softmax of one masked row.
    pub fn launch_masked_softmax(&self, dev: u32, x: u64, out: u64, n: u32) -> (l: Launch)
        ensures
            l@ == softmax_row((Queue { dev, stream: self.stream }), x, out, n),
    {
        launch_rows(
            Queue { dev, stream: self.stream },
            Kernel::MaskedSoftmaxRow,
            1,
            256,
            0,
            vec![x, out, n as u64],
        )
    }

    /// Elementwise cast from `f32` to `f16`.
    pub fn launch_cast_f32_f16(
        &self,
        dev: u32,
        stream: &CudaStream,
        x: u64,
        out: u64,
        n: u32,
    ) -> (l: Launch)
        ensures
            l@ == cast_f32_f16((Queue { dev, stream: *stream }), x, out, n),
    {
        launch_rows(
            Queue { dev, stream: *stream },
            Kernel::CastF32ToF16,
            div_ceil_u32(n, 256),
            256,
            0,
            vec![x, out, n as u64],
        )
    }

    /// Addition of a mask in place.
    pub fn launch_add_mask(
        &self,
        dev: u32,
        stream: &CudaStream,
        s: u64,
        mask: u64,
        n: u32,
    ) -> (l: Launch)
        ensures
            l@ == add_mask((Queue { dev, stream: *stream }), s, mask, n),
    {
        launch_rows(
            Queue { dev, stream: *stream },
            Kernel::AddF32Inplace,
            div_ceil_u32(n, 256),
            256,
            0,
            vec![s, mask, n as u64],
        )
    }

    /// Transpose of a row-major `f16` matrix.
    pub fn launch_transpose_f16(
        &self,
        dev: u32,
        stream: &CudaStream,
        x: u64,
        out: u64,
        rows: u32,
        cols: u32,
    ) -> (l: Launch)
        ensures
            l@ == transpose_f16((Queue { dev, stream: *stream }), x, out, rows, cols),
    {
        launch_grid(
            Queue { dev, stream: *stream },
            Kernel::TransposeF16,
            div_ceil_u32(cols, 16),
            div_ceil_u32(rows, 16),
            16,
            16,
            vec![x, out, rows as u64, cols as u64],
        )
    }

    /// Transpose of a row-major `f32` matrix.
    pub fn launch_transpose_f32(
        &self,
        dev: u32,
        stream: &CudaStream,
        x: u64,
        out: u64,
        rows: u32,
        cols: u32,
    ) -> (l: Launch)
        ensures
            l@ == transpose_f32((Queue { dev, stream: *stream }), x, out, rows, cols),
    {
        launch_grid(
            Queue { dev, stream: *stream },
            Kernel::TransposeF32,
            div_ceil_u32(cols, 16),
            div_ceil_u32(rows, 16),
            16,
            16,
            vec![x, out, rows as u64, cols as u64],
        )
    }
}

} // verus!
