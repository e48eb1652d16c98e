//! Launch of the Q8_0 dequantization kernel.

use vstd::prelude::*;

use crate::launch::{launch_rows, rows_launch, CudaStream, Kernel, Launch, LaunchV, Queue};

verus! {

/// Dequantization of `nblocks` Q8_0 blocks of 34 bytes into 32 `f32` each.
pub open spec fn dequant_q8_0(on: Queue, blob: u64, out: u64, nblocks: u32) -> LaunchV {
    rows_launch(on, Kernel::DequantQ80, nblocks, 32, 0, seq![blob, out, nblocks as u64])
}

/// The dequantization kernel, with its stream.
#[derive(Debug)]
pub struct DequantKernels {
    pub stream: CudaStream,
    pub arch: String,
}

impl DequantKernels {
    /// The dequantization kernel for an architecture, on a stream.
    pub fn new(arch: &str, stream: CudaStream) -> (s: Self)
        ensures
            s.arch@ == arch@,
            s.stream == stream,
    {
        DequantKernels { stream, arch: arch.to_owned() }
    }

    /// Target architecture.
    pub fn arch(&self) -> (a: &str)
        ensures
            a@ == self.arch@,
    {
        self.arch.as_str()
    }

    /// The stream to wait for when these launches are to be complete.
    pub fn sync_stream(&self) -> (s: CudaStream)
        ensures
            s == self.stream,
    {
        self.stream
    }

    /// Dequantization of `nblocks` Q8_0 blocks of 34 bytes into 32 `f32` each.
    pub fn launch_dequant_q8_0(
        &self,
        dev: u32,
        blob: u64,
        out: u64,
        nblocks: u32,
    ) -> (l: Launch)
        ensures
            l@ == dequant_q8_0((Queue { dev, stream: self.stream }), blob, out, nblocks),
    {
        launch_rows(
            Queue { dev, stream: self.stream },
            Kernel::DequantQ80,
            nblocks,
            32,
            0,
            vec![blob, out, nblocks as u64],
        )
    }
}

} // verus!
