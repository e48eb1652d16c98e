//! Launches of the kernels that work on every request of a batch.

use vstd::prelude::*;

use crate::launch::{launch_rows, rows_launch, CudaStream, Kernel, Launch, LaunchV, Queue};

verus! {

/// Rotary embedding of every head of every request in place, at the request's
/// own position, with an element scale folded in.
pub open spec fn rope_batch(
    on: Queue,
    x: u64,
    pos: u64,
    b: u32,
    heads: u32,
    half: u32,
    eta: u32,
    scale: u32,
) -> LaunchV {
    rows_launch(
        on,
        Kernel::RopeNeoxBatchF16,
        (b * heads) as u32,
        256,
        0,
        seq![x, pos, b as u64, heads as u64, half as u64, eta as u64, scale as u64],
    )
}

/// The write of the cache slot of every request, one block each, through its page
/// table and the base of its pool.
pub open spec fn kv_write_batch(
    on: Queue,
    k_rows: u64,
    v_rows: u64,
    kv_ptrs: u64,
    pages: u64,
    pos: u64,
    b: u32,
    block_len: u32,
    kv_heads: u32,
    d: u32,
    total_pages: u32,
    n_layer: u32,
    li: u32,
    max_kv: u32,
) -> LaunchV {
    rows_launch(
        on,
        Kernel::KvWriteBatchF16,
        b,
        256,
        0,
        seq![
            k_rows,
            v_rows,
            kv_ptrs,
            pages,
            pos,
            b as u64,
            block_len as u64,
            kv_heads as u64,
            d as u64,
            total_pages as u64,
            n_layer as u64,
            li as u64,
            max_kv as u64,
        ],
    )
}

/// The loaded unit of these kernels.
#[derive(Debug)]
pub struct BatchDecodeKernels {
    /// Target architecture that the unit is compiled for.
    pub arch: String,
}

impl BatchDecodeKernels {
    /// The kernels for an architecture.
    pub fn new(arch: &str) -> (s: Self)
        ensures
            s.arch@ == arch@,
    {
        BatchDecodeKernels { arch: arch.to_owned() }
    }

    /// Rotary embedding of every head of every request in place, at the request's
    /// own position, with an element scale folded in.
    pub fn launch_rope_batch(
        &self,
        dev: u32,
        stream: &CudaStream,
        x: u64,
        pos: u64,
        b: u32,
        heads: u32,
        half: u32,
        eta: u32,
        scale: u32,
    ) -> (l: Launch)
        requires
            b * heads <= u32::MAX,
        ensures
            l@ == rope_batch((Queue { dev, stream: *stream }), x, pos, b, heads, half, eta, scale),
    {
        launch_rows(
            Queue { dev, stream: *stream },
            Kernel::RopeNeoxBatchF16,
            b * heads,
            256,
            0,
            vec![x, pos, b as u64, heads as u64, half as u64, eta as u64, scale as u64],
        )
    }

    /// Writes the cache slot of every request, one block each, through its page
    /// table and the base of its pool.
    pub fn launch_kv_write_batch(
        &self,
        dev: u32,
        stream: &CudaStream,
        k_rows: u64,
        v_rows: u64,
        kv_ptrs: u64,
        pages: u64,
        pos: u64,
        b: u32,
        block_len: u32,
        kv_heads: u32,
        d: u32,
        total_pages: u32,
        n_layer: u32,
        li: u32,
        max_kv: u32,
    ) -> (l: Launch)
        ensures
            l@ == kv_write_batch(
                (Queue { dev, stream: *stream }),
                k_rows,
                v_rows,
                kv_ptrs,
                pages,
                pos,
                b,
                block_len,
                kv_heads,
                d,
                total_pages,
                n_layer,
                li,
                max_kv,
            ),
    {
        launch_rows(
            Queue { dev, stream: *stream },
            Kernel::KvWriteBatchF16,
            b,
            256,
            0,
            vec![
                k_rows,
                v_rows,
                kv_ptrs,
                pages,
                pos,
                b as u64,
                block_len as u64,
                kv_heads as u64,
                d as u64,
                total_pages as u64,
                n_layer as u64,
                li as u64,
                max_kv as u64,
            ],
        )
    }
}

} // verus!
