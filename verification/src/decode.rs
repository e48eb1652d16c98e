//! Launches of the decode attention kernels, and the paged KV store.

use vstd::prelude::*;

use crate::buffer::DeviceBuffer;
use crate::error::LaunchError;
use crate::launch::{launch_rows, rows_launch, CudaStream, Kernel, Launch, LaunchV, Queue};
use crate::math::{ceil_div, div_ceil_u32};

verus! {

/// Dynamic shared memory that a flash launch may ask for, in bytes.
pub const FLASH_SMEM_MAX: u32 = 48 * 1024;

/// The shared memory of a flash launch: a query row and a score per token.
pub open spec fn smem_bytes(d: u32, max_kv: u32) -> u32 {
    ((d + max_kv) * 4) as u32
}

/// Whether a flash launch stays within its shared memory budget.
pub open spec fn flash_fits(d: u32, max_kv: u32) -> bool {
    (d + max_kv) * 4 <= FLASH_SMEM_MAX
}

fn flash_smem(d: u32, max_kv: u32) -> (r: u32)
    requires
        (d + max_kv) * 4 <= u32::MAX,
    ensures
        r == smem_bytes(d, max_kv),
        r == (d + max_kv) * 4,
{
    (d + max_kv) * 4
}

/// Paged attention of one decode step, one block per request and head.
pub open spec fn step_gqa(
    on: Queue,
    q: u64,
    page: u64,
    kv: u64,
    kv_lens: u64,
    scores: u64,
    out: u64,
    b: u32,
    qh: u32,
    d: u32,
    block_len: u32,
    kv_ratio: u32,
    kv_heads: u32,
    max_kv: u32,
    total_pages: u32,
) -> LaunchV {
    rows_launch(
        on,
        Kernel::DecodeStepGqa,
        (b * qh) as u32,
        256,
        0,
        seq![
            q,
            page,
            kv,
            kv_lens,
            scores,
            out,
            b as u64,
            qh as u64,
            d as u64,
            block_len as u64,
            kv_ratio as u64,
            kv_heads as u64,
            max_kv as u64,
            total_pages as u64,
        ],
    )
}

/// Paged attention of one decode step with `f32` query and output.
pub open spec fn step_gqa_f32(
    on: Queue,
    q: u64,
    page: u64,
    kv: u64,
    kv_lens: u64,
    scores: u64,
    out: u64,
    b: u32,
    qh: u32,
    d: u32,
    block_len: u32,
    kv_ratio: u32,
    kv_heads: u32,
    max_kv: u32,
    total_pages: u32,
) -> LaunchV {
    rows_launch(
        on,
        Kernel::DecodeStepGqaF32,
        (b * qh) as u32,
        256,
        0,
        seq![
            q,
            page,
            kv,
            kv_lens,
            scores,
            out,
            b as u64,
            qh as u64,
            d as u64,
            block_len as u64,
            kv_ratio as u64,
            kv_heads as u64,
            max_kv as u64,
            total_pages as u64,
        ],
    )
}

/// Attention of one decode step with the softmax in shared memory.
pub open spec fn step_flash(
    on: Queue,
    q: u64,
    page: u64,
    kv: u64,
    kv_lens: u64,
    out: u64,
    b: u32,
    qh: u32,
    d: u32,
    block_len: u32,
    kv_ratio: u32,
    kv_heads: u32,
    max_kv: u32,
    total_pages: u32,
    identity: u32,
) -> LaunchV {
    rows_launch(
        on,
        Kernel::DecodeStepGqaFlash,
        (b * qh) as u32,
        512,
        smem_bytes(d, max_kv),
        seq![
            q,
            page,
            kv,
            kv_lens,
            out,
            b as u64,
            qh as u64,
            d as u64,
            block_len as u64,
            kv_ratio as u64,
            kv_heads as u64,
            max_kv as u64,
            total_pages as u64,
            identity as u64,
        ],
    )
}

/// Flash attention of a whole batch on layer `li`: a block per request and query
/// head, through each request's page tables and the base of its pool.
pub open spec fn step_flash_batch(
    on: Queue,
    q: u64,
    pages: u64,
    kv_ptrs: u64,
    kv_lens: u64,
    out: u64,
    b: u32,
    qh: u32,
    d: u32,
    block_len: u32,
    kv_ratio: u32,
    kv_heads: u32,
    max_kv: u32,
    total_pages: u32,
    n_layer: u32,
    li: u32,
    identity: u32,
) -> LaunchV {
    rows_launch(
        on,
        Kernel::DecodeStepGqaFlashBatch,
        (b * qh) as u32,
        512,
        smem_bytes(d, max_kv),
        seq![
            q,
            pages,
            kv_ptrs,
            kv_lens,
            out,
            b as u64,
            qh as u64,
            d as u64,
            block_len as u64,
            kv_ratio as u64,
            kv_heads as u64,
            max_kv as u64,
            total_pages as u64,
            n_layer as u64,
            li as u64,
            identity as u64,
        ],
    )
}

/// Flash attention with the write of the current cache slot in the same kernel.
pub open spec fn step_flash_fused(
    on: Queue,
    q: u64,
    page: u64,
    kv: u64,
    kv_lens: u64,
    out: u64,
    b: u32,
    qh: u32,
    d: u32,
    block_len: u32,
    kv_ratio: u32,
    kv_heads: u32,
    max_kv: u32,
    total_pages: u32,
    identity: u32,
    k16: u64,
    v16: u64,
) -> LaunchV {
    rows_launch(
        on,
        Kernel::DecodeStepGqaFlashFused,
        (b * qh) as u32,
        512,
        smem_bytes(d, max_kv),
        seq![
            q,
            page,
            kv,
            kv_lens,
            out,
            b as u64,
            qh as u64,
            d as u64,
            block_len as u64,
            kv_ratio as u64,
            kv_heads as u64,
            max_kv as u64,
            total_pages as u64,
            identity as u64,
            k16,
            v16,
        ],
    )
}

/// As `launch_decode_step_gqa_flash`, with `f32` query and output.
pub open spec fn step_flash_f32(
    on: Queue,
    q: u64,
    page: u64,
    kv: u64,
    kv_lens: u64,
    out: u64,
    b: u32,
    qh: u32,
    d: u32,
    block_len: u32,
    kv_ratio: u32,
    kv_heads: u32,
    max_kv: u32,
    total_pages: u32,
    identity: u32,
) -> LaunchV {
    rows_launch(
        on,
        Kernel::DecodeStepGqaFlashF32,
        (b * qh) as u32,
        512,
        smem_bytes(d, max_kv),
        seq![
            q,
            page,
            kv,
            kv_lens,
            out,
            b as u64,
            qh as u64,
            d as u64,
            block_len as u64,
            kv_ratio as u64,
            kv_heads as u64,
            max_kv as u64,
            total_pages as u64,
            identity as u64,
        ],
    )
}

/// Dot products of an activation row with `n` Q8_0 rows of length `k`, in one
/// launch.
pub open spec fn q8_dot(on: Queue, x: u64, w: u64, out: u64, n: u32, k: u32) -> LaunchV {
    rows_launch(
        on,
        Kernel::FusedQ8Dot,
        ceil_div(n as int, 8) as u32,
        256,
        0,
        seq![x, w, out, n as u64, k as u64],
    )
}

/// The decode attention kernels, with their stream.
#[derive(Debug)]
pub struct DecodeKernels {
    pub stream: CudaStream,
    pub arch: String,
}

impl DecodeKernels {
    /// The decode kernels for an architecture, on a stream.
    pub fn new(arch: &str, stream: CudaStream) -> (s: Self)
        ensures
            s.arch@ == arch@,
            s.stream == stream,
    {
        DecodeKernels { stream, arch: arch.to_owned() }
    }

    /// Whether the flash kernels are loaded: they load with the others.
    pub fn flash_available(&self) -> (b: bool)
        ensures
            b,
    {
        true
    }

    /// Target architecture.
    pub fn arch(&self) -> (a: &str)
        ensures
            a@ == self.arch@,
    {
        self.arch.as_str()
    }

    /// The stream to wait for when these launches are to be complete.
    pub fn sync_stream(&self) -> (s: CudaStream)
        ensures
            s == self.stream,
    {
        self.stream
    }

    /// Paged attention of one decode step, one block per request and head.
    pub fn launch_decode_step_gqa(
        &self,
        dev: u32,
        q: u64,
        page: u64,
        kv: u64,
        kv_lens: u64,
        scores: u64,
        out: u64,
        b: u32,
        qh: u32,
        d: u32,
        block_len: u32,
        kv_ratio: u32,
        kv_heads: u32,
        max_kv: u32,
        total_pages: u32,
    ) -> (l: Launch)
        requires
            b * qh <= u32::MAX,
        ensures
            l@ == step_gqa(
                (Queue { dev, stream: self.stream }),
                q,
                page,
                kv,
                kv_lens,
                scores,
                out,
                b,
                qh,
                d,
                block_len,
                kv_ratio,
                kv_heads,
                max_kv,
                total_pages,
            ),
    {
        launch_rows(
            Queue { dev, stream: self.stream },
            Kernel::DecodeStepGqa,
            b * qh,
            256,
            0,
            vec![
                q,
                page,
                kv,
                kv_lens,
                scores,
                out,
                b as u64,
                qh as u64,
                d as u64,
                block_len as u64,
                kv_ratio as u64,
                kv_heads as u64,
                max_kv as u64,
                total_pages as u64,
            ],
        )
    }

    /// Paged attention of one decode step with `f32` query and output.
    pub fn launch_decode_step_gqa_f32(
        &self,
        dev: u32,
        q: u64,
        page: u64,
        kv: u64,
        kv_lens: u64,
        scores: u64,
        out: u64,
        b: u32,
        qh: u32,
        d: u32,
        block_len: u32,
        kv_ratio: u32,
        kv_heads: u32,
        max_kv: u32,
        total_pages: u32,
    ) -> (l: Launch)
        requires
            b * qh <= u32::MAX,
        ensures
            l@ == step_gqa_f32(
                (Queue { dev, stream: self.stream }),
                q,
                page,
                kv,
                kv_lens,
                scores,
                out,
                b,
                qh,
                d,
                block_len,
                kv_ratio,
                kv_heads,
                max_kv,
                total_pages,
            ),
    {
        launch_rows(
            Queue { dev, stream: self.stream },
            Kernel::DecodeStepGqaF32,
            b * qh,
            256,
            0,
            vec![
                q,
                page,
                kv,
                kv_lens,
                scores,
                out,
                b as u64,
                qh as u64,
                d as u64,
                block_len as u64,
                kv_ratio as u64,
                kv_heads as u64,
                max_kv as u64,
                total_pages as u64,
            ],
        )
    }

    /// Attention of one decode step with the softmax in shared memory.
    /// Refused where the shared memory would exceed its budget.
    pub fn launch_decode_step_gqa_flash(
        &self,
        dev: u32,
        q: u64,
        page: u64,
        kv: u64,
        kv_lens: u64,
        out: u64,
        b: u32,
        qh: u32,
        d: u32,
        block_len: u32,
        kv_ratio: u32,
        kv_heads: u32,
        max_kv: u32,
        total_pages: u32,
        identity: u32,
    ) -> (r: Result<Launch, LaunchError>)
        requires
            b * qh <= u32::MAX,
            (d + max_kv) * 4 <= u32::MAX,
        ensures
            r is Err <==> !flash_fits(d, max_kv),
            r is Err ==> r->Err_0 == LaunchError::Fatal,
            r is Ok ==> r->Ok_0@ == step_flash(
                (Queue { dev, stream: self.stream }),
                q,
                page,
                kv,
                kv_lens,
                out,
                b,
                qh,
                d,
                block_len,
                kv_ratio,
                kv_heads,
                max_kv,
                total_pages,
                identity,
            ),
    {
        if flash_smem(d, max_kv) > FLASH_SMEM_MAX {
            return Err(LaunchError::Fatal);
        }
        Ok(launch_rows(
            Queue { dev, stream: self.stream },
            Kernel::DecodeStepGqaFlash,
            b * qh,
            512,
            flash_smem(d, max_kv),
            vec![
                q,
                page,
                kv,
                kv_lens,
                out,
                b as u64,
                qh as u64,
                d as u64,
                block_len as u64,
                kv_ratio as u64,
                kv_heads as u64,
                max_kv as u64,
                total_pages as u64,
                identity as u64,
            ],
        ))
    }

    /// Flash attention of a whole batch on one layer.
    pub fn launch_decode_step_gqa_flash_batch(
        &self,
        dev: u32,
        q: u64,
        pages: u64,
        kv_ptrs: u64,
        kv_lens: u64,
        out: u64,
        b: u32,
        qh: u32,
        d: u32,
        block_len: u32,
        kv_ratio: u32,
        kv_heads: u32,
        max_kv: u32,
        total_pages: u32,
        n_layer: u32,
        li: u32,
        identity: u32,
    ) -> (r: Result<Launch, LaunchError>)
        requires
            b * qh <= u32::MAX,
            (d + max_kv) * 4 <= u32::MAX,
        ensures
            r is Err <==> !flash_fits(d, max_kv),
            r is Err ==> r->Err_0 == LaunchError::Fatal,
            r is Ok ==> r->Ok_0@ == step_flash_batch(
                (Queue { dev, stream: self.stream }),
                q,
                pages,
                kv_ptrs,
                kv_lens,
                out,
                b,
                qh,
                d,
                block_len,
                kv_ratio,
                kv_heads,
                max_kv,
                total_pages,
                n_layer,
                li,
                identity,
            ),
    {
        if flash_smem(d, max_kv) > FLASH_SMEM_MAX {
            return Err(LaunchError::Fatal);
        }
        Ok(launch_rows(
            Queue { dev, stream: self.stream },
            Kernel::DecodeStepGqaFlashBatch,
            b * qh,
            512,
            flash_smem(d, max_kv),
            vec![
                q,
                pages,
                kv_ptrs,
                kv_lens,
                out,
                b as u64,
                qh as u64,
                d as u64,
                block_len as u64,
                kv_ratio as u64,
                kv_heads as u64,
                max_kv as u64,
                total_pages as u64,
                n_layer as u64,
                li as u64,
                identity as u64,
            ],
        ))
    }

    /// As `launch_decode_step_gqa_flash`, with the write of the current cache slot
    /// in the same kernel.
    pub fn launch_decode_step_gqa_flash_fused(
        &self,
        dev: u32,
        q: u64,
        page: u64,
        kv: u64,
        kv_lens: u64,
        out: u64,
        b: u32,
        qh: u32,
        d: u32,
        block_len: u32,
        kv_ratio: u32,
        kv_heads: u32,
        max_kv: u32,
        total_pages: u32,
        identity: u32,
        k16: u64,
        v16: u64,
    ) -> (r: Result<Launch, LaunchError>)
        requires
            b * qh <= u32::MAX,
            (d + max_kv) * 4 <= u32::MAX,
        ensures
            r is Err <==> !flash_fits(d, max_kv),
            r is Err ==> r->Err_0 == LaunchError::Fatal,
            r is Ok ==> r->Ok_0@ == step_flash_fused(
                (Queue { dev, stream: self.stream }),
                q,
                page,
                kv,
                kv_lens,
                out,
                b,
                qh,
                d,
                block_len,
                kv_ratio,
                kv_heads,
                max_kv,
                total_pages,
                identity,
                k16,
                v16,
            ),
    {
        if flash_smem(d, max_kv) > FLASH_SMEM_MAX {
            return Err(LaunchError::Fatal);
        }
        Ok(launch_rows(
            Queue { dev, stream: self.stream },
            Kernel::DecodeStepGqaFlashFused,
            b * qh,
            512,
            flash_smem(d, max_kv),
            vec![
                q,
                page,
                kv,
                kv_lens,
                out,
                b as u64,
                qh as u64,
                d as u64,
                block_len as u64,
                kv_ratio as u64,
                kv_heads as u64,
                max_kv as u64,
                total_pages as u64,
                identity as u64,
                k16,
                v16,
            ],
        ))
    }

    /// As `launch_decode_step_gqa_flash`, with `f32` query and output.
    pub fn launch_decode_step_gqa_flash_f32(
        &self,
        dev: u32,
        q: u64,
        page: u64,
        kv: u64,
        kv_lens: u64,
        out: u64,
        b: u32,
        qh: u32,
        d: u32,
        block_len: u32,
        kv_ratio: u32,
        kv_heads: u32,
        max_kv: u32,
        total_pages: u32,
        identity: u32,
    ) -> (r: Result<Launch, LaunchError>)
        requires
            b * qh <= u32::MAX,
            (d + max_kv) * 4 <= u32::MAX,
        ensures
            r is Err <==> !flash_fits(d, max_kv),
            r is Err ==> r->Err_0 == LaunchError::Fatal,
            r is Ok ==> r->Ok_0@ == step_flash_f32(
                (Queue { dev, stream: self.stream }),
                q,
                page,
                kv,
                kv_lens,
                out,
                b,
                qh,
                d,
                block_len,
                kv_ratio,
                kv_heads,
                max_kv,
                total_pages,
                identity,
            ),
    {
        if flash_smem(d, max_kv) > FLASH_SMEM_MAX {
            return Err(LaunchError::Fatal);
        }
        Ok(launch_rows(
            Queue { dev, stream: self.stream },
            Kernel::DecodeStepGqaFlashF32,
            b * qh,
            512,
            flash_smem(d, max_kv),
            vec![
                q,
                page,
                kv,
                kv_lens,
                out,
                b as u64,
                qh as u64,
                d as u64,
                block_len as u64,
                kv_ratio as u64,
                kv_heads as u64,
                max_kv as u64,
                total_pages as u64,
                identity as u64,
            ],
        ))
    }

    /// The launch of `launch_decode_step_gqa_flash`, whatever its shared memory.
    pub fn declare_decode_step_gqa_flash(
        &self,
        dev: u32,
        q: u64,
        page: u64,
        kv: u64,
        kv_lens: u64,
        out: u64,
        b: u32,
        qh: u32,
        d: u32,
        block_len: u32,
        kv_ratio: u32,
        kv_heads: u32,
        max_kv: u32,
        total_pages: u32,
        identity: u32,
    ) -> (l: Launch)
        requires
            b * qh <= u32::MAX,
            (d + max_kv) * 4 <= u32::MAX,
        ensures
            l@ == step_flash(
                (Queue { dev, stream: self.stream }),
                q,
                page,
                kv,
                kv_lens,
                out,
                b,
                qh,
                d,
                block_len,
                kv_ratio,
                kv_heads,
                max_kv,
                total_pages,
                identity,
            ),
    {
        launch_rows(
            Queue { dev, stream: self.stream },
            Kernel::DecodeStepGqaFlash,
            b * qh,
            512,
            flash_smem(d, max_kv),
            vec![
                q,
                page,
                kv,
                kv_lens,
                out,
                b as u64,
                qh as u64,
                d as u64,
                block_len as u64,
                kv_ratio as u64,
                kv_heads as u64,
                max_kv as u64,
                total_pages as u64,
                identity as u64,
            ],
        )
    }

    /// The launch of `launch_decode_step_gqa_flash_fused`, whatever its shared memory.
    pub fn declare_decode_step_gqa_flash_fused(
        &self,
        dev: u32,
        q: u64,
        page: u64,
        kv: u64,
        kv_lens: u64,
        out: u64,
        b: u32,
        qh: u32,
        d: u32,
        block_len: u32,
        kv_ratio: u32,
        kv_heads: u32,
        max_kv: u32,
        total_pages: u32,
        identity: u32,
        k16: u64,
        v16: u64,
    ) -> (l: Launch)
        requires
            b * qh <= u32::MAX,
            (d + max_kv) * 4 <= u32::MAX,
        ensures
            l@ == step_flash_fused(
                (Queue { dev, stream: self.stream }),
                q,
                page,
                kv,
                kv_lens,
                out,
                b,
                qh,
                d,
                block_len,
                kv_ratio,
                kv_heads,
                max_kv,
                total_pages,
                identity,
                k16,
                v16,
            ),
    {
        launch_rows(
            Queue { dev, stream: self.stream },
            Kernel::DecodeStepGqaFlashFused,
            b * qh,
            512,
            flash_smem(d, max_kv),
            vec![
                q,
                page,
                kv,
                kv_lens,
                out,
                b as u64,
                qh as u64,
                d as u64,
                block_len as u64,
                kv_ratio as u64,
                kv_heads as u64,
                max_kv as u64,
                total_pages as u64,
                identity as u64,
                k16,
                v16,
            ],
        )
    }
}

/// The fused Q8_0 dequantize-and-dot kernel, with its stream.
#[derive(Debug)]
pub struct DecodeDotKernels {
    pub stream: CudaStream,
    pub arch: String,
}

impl DecodeDotKernels {
    /// The dot kernel for an architecture, on a stream.
    pub fn new(arch: &str, stream: CudaStream) -> (s: Self)
        ensures
            s.arch@ == arch@,
            s.stream == stream,
    {
        DecodeDotKernels { stream, arch: arch.to_owned() }
    }

    /// Target architecture.
    pub fn arch(&self) -> (a: &str)
        ensures
            a@ == self.arch@,
    {
        self.arch.as_str()
    }

    /// The stream to wait for when these launches are to be complete.
    pub fn sync_stream(&self) -> (s: CudaStream)
        ensures
            s == self.stream,
    {
        self.stream
    }

    /// Dot products of an activation row with `n` Q8_0 rows of length `k`, in one
    /// launch.  Nothing is launched for an empty shape.
    pub fn launch_fused_q8_dot(
        &self,
        dev: u32,
        x: u64,
        w: u64,
        out: u64,
        n: u32,
        k: u32,
    ) -> (r: Option<Launch>)
        requires
            n > 0 && k > 0 ==> k % 32 == 0,
        ensures
            r is None <==> n == 0 || k == 0,
            r is Some ==> r->0@ == q8_dot((Queue { dev, stream: self.stream }), x, w, out, n, k),
    {
        if n == 0 || k == 0 {
            return None;
        }
        Some(launch_rows(
            Queue { dev, stream: self.stream },
            Kernel::FusedQ8Dot,
            div_ceil_u32(n, 8),
            256,
            0,
            vec![x, w, out, n as u64, k as u64],
        ))
    }
}

/// A paged KV store: the key region and then the value region, each of
/// `total_pages` pages of `block_len` tokens.
#[derive(Debug, Clone, Copy, PartialEq, Eq, Structural)]
pub struct KvStore {
    pub data: DeviceBuffer,
    pub total_pages: usize,
    pub block_len: usize,
}

/// Elements of one region of a KV store.
pub open spec fn kv_region_elems(total_pages: int, block_len: int, kv_heads: int, d: int) -> int {
    total_pages * block_len * kv_heads * d
}

impl KvStore {
    /// Bytes that a store takes: two regions of two-byte elements.  `None` where
    /// the number does not fit a machine word.
    pub fn alloc_size(total_pages: usize, block_len: usize, kv_heads: usize, d: usize) -> (r: Option<
        usize,
    >)
        ensures
            r is Some <==> kv_region_elems(
                total_pages as int,
                block_len as int,
                kv_heads as int,
                d as int,
            ) * 4 <= usize::MAX,
            r is Some ==> r->0 == kv_region_elems(
                total_pages as int,
                block_len as int,
                kv_heads as int,
                d as int,
            ) * 4,
    {
        proof {
            let (t, b, h, e) = (total_pages as int, block_len as int, kv_heads as int, d as int);
            let (tb, tbh, tbhd) = (t * b, t * b * h, t * b * h * e);
            assert(tb >= 0) by (nonlinear_arith)
                requires
                    tb == t * b,
                    t >= 0,
                    b >= 0,
            ;
            assert(tbh >= 0 && (h > 0 ==> tbh >= tb)) by (nonlinear_arith)
                requires
                    tbh == tb * h,
                    tb >= 0,
                    h >= 0,
            ;
            assert(tbhd >= 0 && (e > 0 ==> tbhd >= tbh)) by (nonlinear_arith)
                requires
                    tbhd == tbh * e,
                    tbh >= 0,
                    e >= 0,
            ;
            assert(h == 0 ==> tbh == 0) by (nonlinear_arith)
                requires
                    tbh == tb * h,
            ;
            assert(e == 0 ==> tbhd == 0) by (nonlinear_arith)
                requires
                    tbhd == tbh * e,
            ;
            assert(tbh == 0 ==> tbhd == 0) by (nonlinear_arith)
                requires
                    tbhd == tbh * e,
            ;
        }
        if kv_heads == 0 || d == 0 {
            return Some(0);
        }
        let tb: usize = total_pages.checked_mul(block_len)?;
        let tbh: usize = tb.checked_mul(kv_heads)?;
        let n: usize = tbh.checked_mul(d)?;
        n.checked_mul(4)
    }

    /// The store in an allocation.
    pub fn allocate(data: DeviceBuffer, total_pages: usize, block_len: usize) -> (s: Self)
        ensures
            s == (KvStore { data, total_pages, block_len }),
    {
        KvStore { data, total_pages, block_len }
    }

    /// Address of the key region.
    pub fn k_ptr(&self) -> (p: u64)
        ensures
            p == self.data.ptr,
    {
        self.data.as_ptr()
    }

    /// Address of the value region: half of the store behind the key region.
    pub fn v_ptr(&self) -> (p: u64)
        requires
            self.data.ptr + self.data.len <= u64::MAX,
        ensures
            p == self.data.ptr + self.data.len / 2 / 2 * 2,
    {
        let per: usize = self.data.size() / 2;
        self.data.as_ptr() + (per / 2 * 2) as u64
    }
}

/// In a store of its exact size the value region starts where the key region
/// ends, and ends where the allocation ends.
pub proof fn kv_regions_partition_the_store(
    ptr: int,
    total_pages: int,
    block_len: int,
    kv_heads: int,
    d: int,
)
    requires
        total_pages >= 0,
        block_len >= 0,
        kv_heads >= 0,
        d >= 0,
    ensures
        ({
            let elems = kv_region_elems(total_pages, block_len, kv_heads, d);
            let bytes = elems * 4;
            &&& ptr + bytes / 2 / 2 * 2 == ptr + elems * 2
            &&& ptr + elems * 2 + elems * 2 == ptr + bytes
        }),
{
}

} // verus!
