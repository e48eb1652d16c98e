//! Launches of the kernels that work on every row of a sequence.

use vstd::prelude::*;

use crate::launch::{
    blocks256, grid_launch, launch_grid, launch_rows, rows_launch, CudaStream, Kernel, Launch,
    LaunchV, Queue,
};
use crate::math::{ceil_div, div_ceil_u32, lemma_ceil_div};

verus! {

/// Heads that fill a block of 256 threads, at `half` threads each; at least one.
pub open spec fn rows_per_block(half: u32) -> u32 {
    if 256u32 / half > 1 {
        256u32 / half
    } else {
        1
    }
}

fn heads_per_block(half: u32) -> (r: u32)
    requires
        half > 0,
    ensures
        r == rows_per_block(half),
        r >= 1,
{
    let r: u32 = 256 / half;
    if r > 1 {
        r
    } else {
        1
    }
}

fn blocks_of(rows: u32, n: u32) -> (r: u32)
    ensures
        r == blocks256(rows * n),
{
    proof {
        let (a, b) = (rows as int, n as int);
        assert(0 <= a * b <= 0xffff_ffff * 0xffff_ffff) by (nonlinear_arith)
            requires
                0 <= a <= 0xffff_ffff,
                0 <= b <= 0xffff_ffff,
        ;
        lemma_ceil_div(a * b, 256);
    }
    let total: u64 = rows as u64 * n as u64;
    let blocks: u64 = total / 256 + (if total % 256 == 0 {
        0
    } else {
        1
    });
    #[verifier::truncate]
    (blocks as u32)
}

/// RMSNorm of every row, one block each.
pub open spec fn rms_rows(
    on: Queue,
    x: u64,
    out: u64,
    w: u64,
    rows: u32,
    n: u32,
    eps: u32,
) -> LaunchV {
    rows_launch(
        on,
        Kernel::RmsNormRowsF16,
        rows,
        256,
        0,
        seq![x, out, w, rows as u64, n as u64, eps as u64],
    )
}

/// Rotary embedding of the heads of every row in place, at the row's own
/// position; a block takes as many heads as fill it.
pub open spec fn rope_rows(
    on: Queue,
    x: u64,
    half: u32,
    heads: u32,
    seqlen: u32,
    eta: u32,
) -> LaunchV {
    rows_launch(
        on,
        Kernel::RopeNeoxRowsF16,
        ceil_div(seqlen * heads, rows_per_block(half) as int) as u32,
        256,
        0,
        seq![x, half as u64, heads as u64, seqlen as u64, eta as u64, rows_per_block(half) as u64],
    )
}

/// The embedding rows of a sequence of tokens on the device.
pub open spec fn gather_rows(
    on: Queue,
    src: u64,
    dst: u64,
    toks: u64,
    rows: u32,
    n: u32,
) -> LaunchV {
    rows_launch(
        on,
        Kernel::GatherRowsF16,
        blocks256(rows * n),
        256,
        0,
        seq![src, dst, toks, rows as u64, n as u64],
    )
}

/// The write of the cache slots of a whole sequence: token `s` goes to page
/// `page_base + s / block_len`.
pub open spec fn kv_write_seq(
    on: Queue,
    k_rows: u64,
    v_rows: u64,
    kv: u64,
    seqlen: u32,
    block_len: u32,
    kv_heads: u32,
    d: u32,
    page_base: u32,
    total_pages: u32,
) -> LaunchV {
    rows_launch(
        on,
        Kernel::KvWriteSeqRows,
        (seqlen * blocks256(kv_heads * d)) as u32,
        256,
        0,
        seq![
            k_rows,
            v_rows,
            kv,
            seqlen as u64,
            block_len as u64,
            kv_heads as u64,
            d as u64,
            page_base as u64,
            total_pages as u64,
        ],
    )
}

/// The cast of joined projection rows to `f16`, parted into query, key and value
/// rows.
pub open spec fn cast_split(
    on: Queue,
    c: u64,
    q: u64,
    k: u64,
    v: u64,
    seqlen: u32,
    nqk: u32,
    kvk: u32,
) -> LaunchV {
    grid_launch(
        on,
        Kernel::CastSplitQkvF16,
        blocks256(nqk + 2 * kvk),
        seqlen,
        256,
        1,
        seq![c, q, k, v, nqk as u64, kvk as u64],
    )
}

/// The loaded unit of these kernels.
#[derive(Debug)]
pub struct PrefillKernels {
    /// Target architecture that the unit is compiled for.
    pub arch: String,
}

impl PrefillKernels {
    /// The kernels for an architecture.
    pub fn new(arch: &str) -> (s: Self)
        ensures
            s.arch@ == arch@,
    {
        PrefillKernels { arch: arch.to_owned() }
    }

    /// RMSNorm of every row, one block each.
    pub fn launch_rms_norm_rows(
        &self,
        dev: u32,
        stream: &CudaStream,
        x: u64,
        out: u64,
        w: u64,
        rows: u32,
        n: u32,
        eps: u32,
    ) -> (l: Launch)
        ensures
            l@ == rms_rows((Queue { dev, stream: *stream }), x, out, w, rows, n, eps),
    {
        launch_rows(
            Queue { dev, stream: *stream },
            Kernel::RmsNormRowsF16,
            rows,
            256,
            0,
            vec![x, out, w, rows as u64, n as u64, eps as u64],
        )
    }

    /// Rotary embedding of the heads of every row in place, at the row's own
    /// position; a block takes as many heads as fill it.
    pub fn launch_rope_rows(
        &self,
        dev: u32,
        stream: &CudaStream,
        x: u64,
        half: u32,
        heads: u32,
        seqlen: u32,
        eta: u32,
    ) -> (l: Launch)
        requires
            half > 0,
            seqlen * heads <= u32::MAX,
        ensures
            l@ == rope_rows((Queue { dev, stream: *stream }), x, half, heads, seqlen, eta),
    {
        let rpc: u32 = heads_per_block(half);
        launch_rows(
            Queue { dev, stream: *stream },
            Kernel::RopeNeoxRowsF16,
            div_ceil_u32(seqlen * heads, rpc),
            256,
            0,
            vec![x, half as u64, heads as u64, seqlen as u64, eta as u64, rpc as u64],
        )
    }

    /// The embedding rows of a sequence of tokens on the device.
    pub fn launch_gather_rows(
        &self,
        dev: u32,
        stream: &CudaStream,
        src: u64,
        dst: u64,
        toks: u64,
        rows: u32,
        n: u32,
    ) -> (l: Launch)
        ensures
            l@ == gather_rows((Queue { dev, stream: *stream }), src, dst, toks, rows, n),
    {
        let blocks: u32 = blocks_of(rows, n);
        launch_rows(
            Queue { dev, stream: *stream },
            Kernel::GatherRowsF16,
            blocks,
            256,
            0,
            vec![src, dst, toks, rows as u64, n as u64],
        )
    }

    /// Writes the cache slots of a whole sequence: token `s` goes to page
    /// `page_base + s / block_len`.
    pub fn launch_kv_write_seq(
        &self,
        dev: u32,
        stream: &CudaStream,
        k_rows: u64,
        v_rows: u64,
        kv: u64,
        seqlen: u32,
        block_len: u32,
        kv_heads: u32,
        d: u32,
        page_base: u32,
        total_pages: u32,
    ) -> (l: Launch)
        requires
            kv_heads * d <= u32::MAX,
            seqlen * blocks256(kv_heads * d) <= u32::MAX,
        ensures
            l@ == kv_write_seq(
                (Queue { dev, stream: *stream }),
                k_rows,
                v_rows,
                kv,
                seqlen,
                block_len,
                kv_heads,
                d,
                page_base,
                total_pages,
            ),
    {
        launch_rows(
            Queue { dev, stream: *stream },
            Kernel::KvWriteSeqRows,
            seqlen * div_ceil_u32(kv_heads * d, 256),
            256,
            0,
            vec![
                k_rows,
                v_rows,
                kv,
                seqlen as u64,
                block_len as u64,
                kv_heads as u64,
                d as u64,
                page_base as u64,
                total_pages as u64,
            ],
        )
    }

    /// Casts joined projection rows to `f16` and parts them into query, key and
    /// value rows.
    pub fn launch_cast_split_qkv(
        &self,
        dev: u32,
        stream: &CudaStream,
        c: u64,
        q: u64,
        k: u64,
        v: u64,
        seqlen: u32,
        nqk: u32,
        kvk: u32,
    ) -> (l: Launch)
        requires
            nqk + 2 * kvk <= u32::MAX,
        ensures
            l@ == cast_split((Queue { dev, stream: *stream }), c, q, k, v, seqlen, nqk, kvk),
    {
        launch_grid(
            Queue { dev, stream: *stream },
            Kernel::CastSplitQkvF16,
            div_ceil_u32(nqk + 2 * kvk, 256),
            seqlen,
            256,
            1,
            vec![c, q, k, v, nqk as u64, kvk as u64],
        )
    }
}

} // verus!
