//! GEMM calls: the stable parameters of a call, the cuBLAS call they become, and
//! the two-phase kernels that serve one-row products instead of cuBLAS.

use vstd::prelude::*;

use crate::error::LaunchError;
use crate::float_bits::{f32_to_f16_bits, to_half, F32_ONE, F32_ZERO};
use crate::graph::{KernelSpec, KernelSpecV, NodeRole, ParamLayout, PtrRole};
use crate::launch::{
    launch_rows, rows_launch, CudaStream, Dim3, Kernel, Launch, LaunchV, Queue,
};
use crate::math::{ceil_div, div_ceil_u32, lemma_ceil_div};

verus! {

/// Element type of an operand.
#[derive(Debug, Clone, Copy, PartialEq, Eq, Structural)]
pub enum DataType {
    F16,
    F32,
}

/// Type that a product is accumulated in.
#[derive(Debug, Clone, Copy, PartialEq, Eq, Structural)]
pub enum ComputeType {
    F16,
    F32,
}

/// Whether an operand is transposed.
#[derive(Debug, Clone, Copy, PartialEq, Eq, Structural)]
pub enum Transpose {
    N,
    T,
}

/// An operand of a GEMM: its address, element type and leading dimension.
#[derive(Debug, Clone, Copy, PartialEq, Eq, Structural)]
pub struct GpuMat {
    pub ptr: u64,
    pub dtype: DataType,
    pub ld: i32,
}

/// Every parameter of one GEMM, with `alpha` and `beta` as `f32` bit patterns.
#[derive(Debug, Clone, Copy, PartialEq, Eq, Structural)]
pub struct GemmPlan {
    pub m: i32,
    pub n: i32,
    pub k: i32,
    pub a: u64,
    pub b: u64,
    pub c: u64,
    pub a_dt: DataType,
    pub b_dt: DataType,
    pub c_dt: DataType,
    pub ld_a: i32,
    pub ld_b: i32,
    pub ld_c: i32,
    pub alpha: u32,
    pub beta: u32,
    pub compute: ComputeType,
    pub trans_a: Transpose,
    pub trans_b: Transpose,
}

/// Parameter slots of a cuBLAS GEMM kernel.
pub const GEMM_PARAM_SLOTS: usize = 22;

/// Row-major `C[m x n] = A[m x k] * B[k x n]` with operands of type `dt`, an
/// `f32` output seen column-major, and `f32` accumulation.
pub open spec fn row_major(dt: DataType, a: u64, b: u64, c: u64, m: usize, n: usize, k: usize) -> GemmPlan {
    GemmPlan {
        m: m as i32,
        n: n as i32,
        k: k as i32,
        a,
        b,
        c,
        a_dt: dt,
        b_dt: dt,
        c_dt: DataType::F32,
        ld_a: k as i32,
        ld_b: n as i32,
        ld_c: m as i32,
        alpha: F32_ONE,
        beta: F32_ZERO,
        compute: ComputeType::F32,
        trans_a: Transpose::T,
        trans_b: Transpose::T,
    }
}

/// The same product with a row-major output: the operands swapped and neither
/// transposed.
pub open spec fn col_major_swap(a: u64, b: u64, c: u64, m: usize, n: usize, k: usize) -> GemmPlan {
    GemmPlan {
        m: n as i32,
        n: m as i32,
        k: k as i32,
        a: b,
        b: a,
        c,
        a_dt: DataType::F16,
        b_dt: DataType::F16,
        c_dt: DataType::F32,
        ld_a: n as i32,
        ld_b: k as i32,
        ld_c: n as i32,
        alpha: F32_ONE,
        beta: F32_ZERO,
        compute: ComputeType::F32,
        trans_a: Transpose::N,
        trans_b: Transpose::N,
    }
}

impl GemmPlan {
    /// Row-major product of `f16` operands into an `f32` output.
    pub fn row_major_f16(a: u64, b: u64, c: u64, m: usize, n: usize, k: usize) -> (p: Self)
        ensures
            p == row_major(DataType::F16, a, b, c, m, n, k),
    {
        let mi: i32 = #[verifier::truncate] (m as i32);
        let ni: i32 = #[verifier::truncate] (n as i32);
        let ki: i32 = #[verifier::truncate] (k as i32);
        GemmPlan {
            m: mi,
            n: ni,
            k: ki,
            a,
            b,
            c,
            a_dt: DataType::F16,
            b_dt: DataType::F16,
            c_dt: DataType::F32,
            ld_a: ki,
            ld_b: ni,
            ld_c: mi,
            alpha: F32_ONE,
            beta: F32_ZERO,
            compute: ComputeType::F32,
            trans_a: Transpose::T,
            trans_b: Transpose::T,
        }
    }

    /// Row-major product of `f32` operands.
    pub fn row_major_f32(a: u64, b: u64, c: u64, m: usize, n: usize, k: usize) -> (p: Self)
        ensures
            p == row_major(DataType::F32, a, b, c, m, n, k),
    {
        let p = GemmPlan::row_major_f16(a, b, c, m, n, k);
        GemmPlan { a_dt: DataType::F32, b_dt: DataType::F32, c_dt: DataType::F32, ..p }
    }

    /// Product of row-major `f16` operands into a row-major output.
    pub fn col_major_swap_f16(a: u64, b: u64, c: u64, m: usize, n: usize, k: usize) -> (p: Self)
        ensures
            p == col_major_swap(a, b, c, m, n, k),
    {
        let mi: i32 = #[verifier::truncate] (m as i32);
        let ni: i32 = #[verifier::truncate] (n as i32);
        let ki: i32 = #[verifier::truncate] (k as i32);
        GemmPlan {
            m: ni,
            n: mi,
            k: ki,
            a: b,
            b: a,
            c,
            a_dt: DataType::F16,
            b_dt: DataType::F16,
            c_dt: DataType::F32,
            ld_a: ni,
            ld_b: ki,
            ld_c: ni,
            alpha: F32_ONE,
            beta: F32_ZERO,
            compute: ComputeType::F32,
            trans_a: Transpose::N,
            trans_b: Transpose::N,
        }
    }

    /// The node specification of this GEMM as a cuBLAS node: the three extents
    /// in the first three slots; kernel and geometry come with the capture.
    pub fn kernel_spec(&self, ptr_slots: Vec<(usize, PtrRole)>) -> (s: KernelSpec)
        ensures
            s@ == gemm_spec(ptr_slots@),
    {
        KernelSpec {
            role: NodeRole::CublasGemm,
            layout: ParamLayout::Gemm { slots: GEMM_PARAM_SLOTS, m: 0, n: 1, k: 2 },
            ptr_slots,
            kernel: None,
            grid: Dim3 { x: 1, y: 1, z: 1 },
            block: Dim3 { x: 256, y: 1, z: 1 },
            shared: 0,
        }
    }
}

/// The node specification of a cuBLAS GEMM.
pub open spec fn gemm_spec(ptr_slots: Seq<(usize, PtrRole)>) -> KernelSpecV {
    KernelSpecV {
        role: NodeRole::CublasGemm,
        layout: ParamLayout::Gemm { slots: GEMM_PARAM_SLOTS, m: 0, n: 1, k: 2 },
        ptr_slots,
        kernel: None,
        grid: Dim3 { x: 1, y: 1, z: 1 },
        block: Dim3 { x: 256, y: 1, z: 1 },
        shared: 0,
    }
}

/// A `cublasGemmEx` call.
#[derive(Debug, Clone, Copy, PartialEq, Eq, Structural)]
pub struct GemmCall {
    pub on: Queue,
    pub m: i32,
    pub n: i32,
    pub k: i32,
    pub a: GpuMat,
    pub b: GpuMat,
    pub c: GpuMat,
    pub compute: ComputeType,
    pub trans_a: Transpose,
    pub trans_b: Transpose,
    /// The scalars as the call reads them: half bit patterns under `f16`
    /// accumulation, `f32` ones otherwise.
    pub alpha_bits: u32,
    pub beta_bits: u32,
}

/// A scalar as a call under the given accumulation reads it.
pub open spec fn scalar_bits(compute: ComputeType, s: u32) -> u32 {
    match compute {
        ComputeType::F16 => to_half(s) as u32,
        ComputeType::F32 => s,
    }
}

/// The call that a plan stands for.
pub open spec fn call_of(on: Queue, p: GemmPlan) -> GemmCall {
    GemmCall {
        on,
        m: p.m,
        n: p.n,
        k: p.k,
        a: GpuMat { ptr: p.a, dtype: p.a_dt, ld: p.ld_a },
        b: GpuMat { ptr: p.b, dtype: p.b_dt, ld: p.ld_b },
        c: GpuMat { ptr: p.c, dtype: p.c_dt, ld: p.ld_c },
        compute: p.compute,
        trans_a: p.trans_a,
        trans_b: p.trans_b,
        alpha_bits: scalar_bits(p.compute, p.alpha),
        beta_bits: scalar_bits(p.compute, p.beta),
    }
}

/// The bit pattern of a scalar under `f16` accumulation.
pub fn f16_bits(f: u32) -> (h: u32)
    ensures
        h == to_half(f),
{
    f32_to_f16_bits(f) as u32
}

/// A cuBLAS handle's device.
#[derive(Debug, Clone, Copy, PartialEq, Eq, Structural)]
pub struct Gemm {
    pub dev: u32,
}

impl Gemm {
    pub fn new(dev: u32) -> (g: Self)
        ensures
            g.dev == dev,
    {
        Gemm { dev }
    }

    /// The device of the handle.
    pub fn device(&self) -> (d: u32)
        ensures
            d == self.dev,
    {
        self.dev
    }

    /// The call `C = alpha * op(A) * op(B) + beta * C`.
    pub fn gemm_exec(
        &self,
        stream: &CudaStream,
        m: i32,
        n: i32,
        k: i32,
        a: &GpuMat,
        b: &GpuMat,
        c: &GpuMat,
        compute: ComputeType,
        trans_a: Transpose,
        trans_b: Transpose,
        alpha: u32,
        beta: u32,
    ) -> (g: GemmCall)
        ensures
            g == (GemmCall {
                on: Queue { dev: self.dev, stream: *stream },
                m,
                n,
                k,
                a: *a,
                b: *b,
                c: *c,
                compute,
                trans_a,
                trans_b,
                alpha_bits: scalar_bits(compute, alpha),
                beta_bits: scalar_bits(compute, beta),
            }),
    {
        let (alpha_bits, beta_bits) = match compute {
            ComputeType::F16 => (f16_bits(alpha), f16_bits(beta)),
            ComputeType::F32 => (alpha, beta),
        };
        GemmCall {
            on: Queue { dev: self.dev, stream: *stream },
            m,
            n,
            k,
            a: *a,
            b: *b,
            c: *c,
            compute,
            trans_a,
            trans_b,
            alpha_bits,
            beta_bits,
        }
    }

    /// The call with `f32` accumulation and both operands transposed.
    pub fn gemm_f32acc(
        &self,
        stream: &CudaStream,
        m: i32,
        n: i32,
        k: i32,
        a: &GpuMat,
        b: &GpuMat,
        c: &GpuMat,
        alpha: u32,
        beta: u32,
    ) -> (g: GemmCall)
        ensures
            g == (GemmCall {
                on: Queue { dev: self.dev, stream: *stream },
                m,
                n,
                k,
                a: *a,
                b: *b,
                c: *c,
                compute: ComputeType::F32,
                trans_a: Transpose::T,
                trans_b: Transpose::T,
                alpha_bits: alpha,
                beta_bits: beta,
            }),
    {
        self.gemm_exec(
            stream,
            m,
            n,
            k,
            a,
            b,
            c,
            ComputeType::F32,
            Transpose::T,
            Transpose::T,
            alpha,
            beta,
        )
    }

    /// The call with `f16` accumulation and both operands transposed.
    pub fn gemm_f16_16acc(
        &self,
        stream: &CudaStream,
        m: i32,
        n: i32,
        k: i32,
        a: &GpuMat,
        b: &GpuMat,
        c: &GpuMat,
        alpha: u32,
        beta: u32,
    ) -> (g: GemmCall)
        ensures
            g == (GemmCall {
                on: Queue { dev: self.dev, stream: *stream },
                m,
                n,
                k,
                a: *a,
                b: *b,
                c: *c,
                compute: ComputeType::F16,
                trans_a: Transpose::T,
                trans_b: Transpose::T,
                alpha_bits: to_half(alpha) as u32,
                beta_bits: to_half(beta) as u32,
            }),
    {
        self.gemm_exec(
            stream,
            m,
            n,
            k,
            a,
            b,
            c,
            ComputeType::F16,
            Transpose::T,
            Transpose::T,
            alpha,
            beta,
        )
    }

    /// The call that a plan stands for.
    pub fn execute(&self, stream: &CudaStream, plan: &GemmPlan) -> (g: GemmCall)
        ensures
            g == call_of((Queue { dev: self.dev, stream: *stream }), *plan),
    {
        let a = GpuMat { ptr: plan.a, dtype: plan.a_dt, ld: plan.ld_a };
        let b = GpuMat { ptr: plan.b, dtype: plan.b_dt, ld: plan.ld_b };
        let c = GpuMat { ptr: plan.c, dtype: plan.c_dt, ld: plan.ld_c };
        self.gemm_exec(
            stream,
            plan.m,
            plan.n,
            plan.k,
            &a,
            &b,
            &c,
            plan.compute,
            plan.trans_a,
            plan.trans_b,
            plan.alpha,
            plan.beta,
        )
    }
}

pub const CUBLAS_STATUS_SUCCESS: i32 = 0;

pub const CUBLAS_STATUS_NOT_INITIALIZED: i32 = 1;

pub const CUBLAS_STATUS_ALLOC_FAILED: i32 = 3;

pub const CUBLAS_STATUS_INVALID_VALUE: i32 = 7;

/// What a cuBLAS status says, in words.
pub fn status_message(st: i32) -> (s: &'static str)
    ensures
        s@ == if st == CUBLAS_STATUS_ALLOC_FAILED {
            "cublas: alloc failed"@
        } else if st == CUBLAS_STATUS_NOT_INITIALIZED {
            "cublas: not initialized"@
        } else if st == CUBLAS_STATUS_INVALID_VALUE {
            "cublas: invalid value"@
        } else {
            "cublas: internal error"@
        },
{
    if st == CUBLAS_STATUS_ALLOC_FAILED {
        "cublas: alloc failed"
    } else if st == CUBLAS_STATUS_NOT_INITIALIZED {
        "cublas: not initialized"
    } else if st == CUBLAS_STATUS_INVALID_VALUE {
        "cublas: invalid value"
    } else {
        "cublas: internal error"
    }
}

/// A cuBLAS status as a `Result`: a failed allocation is `Oom`, any other
/// failure `Fatal`.
pub fn map_status(st: i32) -> (r: Result<(), LaunchError>)
    ensures
        r is Ok <==> st == CUBLAS_STATUS_SUCCESS,
        r is Err ==> r->Err_0 == if st == CUBLAS_STATUS_ALLOC_FAILED {
            LaunchError::Oom
        } else {
            LaunchError::Fatal
        },
{
    if st == CUBLAS_STATUS_SUCCESS {
        Ok(())
    } else if st == CUBLAS_STATUS_ALLOC_FAILED {
        Err(LaunchError::Oom)
    } else {
        Err(LaunchError::Fatal)
    }
}

/// Blocks of 256 columns for `n` output columns, at least one.
pub open spec fn shape_cols(n: i32) -> int {
    let c = ceil_div((n as u32) as int, 256);
    if c > 1 {
        c
    } else {
        1
    }
}

/// Blocks that a launch aims for: more for plans that are far taller than wide.
pub open spec fn block_target(n: i32, k: i32) -> int {
    if 2 * n < k {
        192
    } else {
        96
    }
}

/// Slabs that the reduction is split into: enough for the target number of
/// blocks, but at least one and at most one per 32 positions.
pub open spec fn shape_slabs(n: i32, k: i32) -> int {
    let want = ceil_div(block_target(n, k), shape_cols(n));
    let most = if (k as u32) / 32 > 1 {
        ((k as u32) / 32) as int
    } else {
        1
    };
    if want < 1 {
        1
    } else if want > most {
        most
    } else {
        want
    }
}

pub proof fn lemma_shape(n: i32, k: i32)
    ensures
        1 <= shape_cols(n) <= 0x100_0000,
        1 <= shape_slabs(n, k) <= 192,
        shape_cols(n) * shape_slabs(n, k) <= 192 + 0x100_0000,
{
    let c = shape_cols(n);
    let t = block_target(n, k);
    lemma_ceil_div((n as u32) as int, 256);
    assert(ceil_div((n as u32) as int, 256) <= 0x100_0000);
    lemma_ceil_div(t, c);
    let want = ceil_div(t, c);
    let s = shape_slabs(n, k);
    assert(s <= want);
    assert(c * s <= c * want) by (nonlinear_arith)
        requires
            s <= want,
            c >= 1,
    ;
    assert(c * want < t + c) by (nonlinear_arith)
        requires
            (want - 1) * c < t,
    ;
}

/// The partial sums of a two-phase product: a buffer that only grows.
#[derive(Debug, Clone, Copy, PartialEq, Eq, Structural)]
pub struct Partials {
    pub cap: usize,
    pub ptr: u64,
}

/// What an enquiry for partial sums comes to.
#[derive(Debug, Clone, Copy, PartialEq, Eq, Structural)]
pub enum PartialsNeed {
    /// The buffer at this address is large enough.
    Ready(u64),
    /// A buffer of this many bytes has to be allocated first.
    Grow(usize),
}

/// The two-phase kernels for one-row products, and the buffer between the
/// phases.
#[derive(Debug, Clone, Copy, PartialEq, Eq, Structural)]
pub struct Jgemm {
    pub dev: u32,
    pub partials: Option<Partials>,
}

/// Whether the two-phase kernels serve a plan: one row of `f16` operands into
/// `f32`, in the row-major layout, with scalars one and zero.
pub open spec fn served(p: GemmPlan) -> bool {
    &&& p.m == 1
    &&& p.a_dt == DataType::F16
    &&& p.b_dt == DataType::F16
    &&& p.c_dt == DataType::F32
    &&& p.trans_a == Transpose::T
    &&& p.trans_b == Transpose::T
    &&& p.alpha == F32_ONE
    &&& (p.beta == F32_ZERO || p.beta == 0x8000_0000)
    &&& p.ld_a == p.k
    &&& p.ld_b == p.n
    &&& p.ld_c == 1
}

/// A word that holds an integer argument.
pub open spec fn int_word(i: i32) -> u64 {
    (i as u32) as u64
}

/// First phase of a one-row product: partial sums per slab.
pub open spec fn gemv_phase1(on: Queue, p: GemmPlan, partials: u64) -> LaunchV {
    rows_launch(
        on,
        Kernel::GemvM1,
        (shape_cols(p.n) * shape_slabs(p.n, p.k)) as u32,
        256,
        0,
        seq![
            p.a,
            p.b,
            partials,
            int_word(p.n),
            int_word(p.k),
            shape_slabs(p.n, p.k) as u64,
        ],
    )
}

/// Second phase of a one-row product: the sum over the slabs.
pub open spec fn gemv_phase2(on: Queue, p: GemmPlan, partials: u64) -> LaunchV {
    rows_launch(
        on,
        Kernel::GemvM1Reduce,
        shape_cols(p.n) as u32,
        256,
        0,
        seq![partials, p.c, int_word(p.n), shape_slabs(p.n, p.k) as u64],
    )
}

/// First phase of `m` one-row products over one weight matrix.
pub open spec fn gemv_batch_phase1(
    on: Queue,
    a: u64,
    b: u64,
    partials: u64,
    m: usize,
    n: usize,
    k: usize,
) -> LaunchV {
    rows_launch(
        on,
        Kernel::GemvMb,
        (m * (shape_cols(n as i32) * shape_slabs(n as i32, k as i32))) as u32,
        256,
        0,
        seq![
            a,
            b,
            partials,
            int_word(m as i32),
            int_word(n as i32),
            int_word(k as i32),
            shape_slabs(n as i32, k as i32) as u64,
        ],
    )
}

/// Second phase of `m` one-row products.
pub open spec fn gemv_batch_phase2(
    on: Queue,
    c: u64,
    partials: u64,
    m: usize,
    n: usize,
    k: usize,
) -> LaunchV {
    rows_launch(
        on,
        Kernel::GemvMbReduce,
        (m * shape_cols(n as i32)) as u32,
        256,
        0,
        seq![
            partials,
            c,
            int_word(m as i32),
            int_word(n as i32),
            shape_slabs(n as i32, k as i32) as u64,
        ],
    )
}

impl Jgemm {
    pub fn new(dev: u32) -> (j: Self)
        ensures
            j == (Jgemm { dev, partials: None }),
    {
        Jgemm { dev, partials: None }
    }

    /// Grid of a two-phase product: blocks of columns, and slabs.
    pub fn shape(&self, n: i32, k: i32) -> (r: (u32, u32))
        requires
            -0x4000_0000 <= n < 0x4000_0000,
        ensures
            r.0 == shape_cols(n),
            r.1 == shape_slabs(n, k),
            1 <= r.0,
            1 <= r.1 <= 192,
            r.0 * r.1 <= 192 + 0x100_0000,
    {
        proof {
            lemma_shape(n, k);
            lemma_ceil_div((n as u32) as int, 256);
        }
        let c: u32 = div_ceil_u32(#[verifier::truncate] (n as u32), 256);
        let ncols: u32 = if c > 1 {
            c
        } else {
            1
        };
        let target: u32 = if 2 * n < k {
            192
        } else {
            96
        };
        let want: u32 = div_ceil_u32(target, ncols);
        let per: u32 = (#[verifier::truncate] (k as u32)) / 32;
        let most: u32 = if per > 1 {
            per
        } else {
            1
        };
        let nslabs: u32 = if want < 1 {
            1
        } else if want > most {
            most
        } else {
            want
        };
        (ncols, nslabs)
    }

    /// Asks for partial sums of `n` columns by `nslabs` slabs.
    pub fn ensure_partials(&self, n: usize, nslabs: u32) -> (r: PartialsNeed)
        requires
            n * nslabs * 4 <= usize::MAX,
        ensures
            r == partials_need(self.partials, n * nslabs * 4),
    {
        proof {
            assert(0 <= n * nslabs) by (nonlinear_arith)
                requires
                    n >= 0,
                    nslabs >= 0,
            ;
        }
        let bytes: usize = n * nslabs as usize * 4;
        match self.partials {
            Some(p) => if p.cap < bytes {
                PartialsNeed::Grow(bytes)
            } else {
                PartialsNeed::Ready(p.ptr)
            },
            None => PartialsNeed::Grow(bytes),
        }
    }

    /// Takes the buffer that was allocated for partial sums.
    pub fn grown(&mut self, cap: usize, ptr: u64)
        ensures
            *final(self) == (Jgemm { dev: old(self).dev, partials: Some(Partials { cap, ptr }) }),
    {
        self.partials = Some(Partials { cap, ptr });
    }

    /// Whether the two-phase kernels serve a plan.
    pub fn matches(&self, plan: &GemmPlan) -> (b: bool)
        ensures
            b == served(*plan),
    {
        plan.m == 1 && plan.a_dt == DataType::F16 && plan.b_dt == DataType::F16 && plan.c_dt
            == DataType::F32 && plan.trans_a == Transpose::T && plan.trans_b == Transpose::T
            && plan.alpha == F32_ONE && (plan.beta == F32_ZERO || plan.beta == 0x8000_0000)
            && plan.ld_a == plan.k && plan.ld_b == plan.n && plan.ld_c == 1
    }

    /// The two phases of a served plan, with the partial sums at `partials`.
    pub fn launch(&self, stream: &CudaStream, plan: &GemmPlan, partials: u64) -> (r: (
        Launch,
        Launch,
    ))
        requires
            served(*plan),
            -0x4000_0000 <= plan.n < 0x4000_0000,
        ensures
            r.0@ == gemv_phase1((Queue { dev: self.dev, stream: *stream }), *plan, partials),
            r.1@ == gemv_phase2((Queue { dev: self.dev, stream: *stream }), *plan, partials),
    {
        let (ncols, nslabs) = self.shape(plan.n, plan.k);
        let on = Queue { dev: self.dev, stream: *stream };
        let n: u64 = (#[verifier::truncate] (plan.n as u32)) as u64;
        let k: u64 = (#[verifier::truncate] (plan.k as u32)) as u64;
        let p1 = launch_rows(
            on,
            Kernel::GemvM1,
            ncols * nslabs,
            256,
            0,
            vec![plan.a, plan.b, partials, n, k, nslabs as u64],
        );
        let p2 = launch_rows(
            on,
            Kernel::GemvM1Reduce,
            ncols,
            256,
            0,
            vec![partials, plan.c, n, nslabs as u64],
        );
        (p1, p2)
    }

    /// The two phases of `m` one-row products over one weight matrix.
    pub fn launch_batch(
        &self,
        stream: &CudaStream,
        a: u64,
        b: u64,
        c: u64,
        m: usize,
        n: usize,
        k: usize,
        partials: u64,
    ) -> (r: (Launch, Launch))
        requires
            n < 0x4000_0000,
            k <= i32::MAX,
            m * (shape_cols(n as i32) * shape_slabs(n as i32, k as i32)) <= u32::MAX,
            m <= i32::MAX,
        ensures
            r.0@ == gemv_batch_phase1(
                (Queue { dev: self.dev, stream: *stream }),
                a,
                b,
                partials,
                m,
                n,
                k,
            ),
            r.1@ == gemv_batch_phase2(
                (Queue { dev: self.dev, stream: *stream }),
                c,
                partials,
                m,
                n,
                k,
            ),
    {
        let (ncols, nslabs) = self.shape(n as i32, k as i32);
        let on = Queue { dev: self.dev, stream: *stream };
        let mi: u64 = (m as i32 as u32) as u64;
        let ni: u64 = (n as i32 as u32) as u64;
        let ki: u64 = (k as i32 as u32) as u64;
        proof {
            assert(m * ncols <= m * (ncols * nslabs)) by (nonlinear_arith)
                requires
                    m >= 0,
                    ncols >= 0,
                    nslabs >= 1,
            ;
        }
        let tiles: u32 = ncols * nslabs;
        let p1 = launch_rows(
            on,
            Kernel::GemvMb,
            m as u32 * tiles,
            256,
            0,
            vec![a, b, partials, mi, ni, ki, nslabs as u64],
        );
        let p2 = launch_rows(
            on,
            Kernel::GemvMbReduce,
            m as u32 * ncols,
            256,
            0,
            vec![partials, c, mi, ni, nslabs as u64],
        );
        (p1, p2)
    }
}

/// What an enquiry for `bytes` of partial sums comes to.
pub open spec fn partials_need(have: Option<Partials>, bytes: int) -> PartialsNeed {
    match have {
        Some(p) if p.cap >= bytes => PartialsNeed::Ready(p.ptr),
        _ => PartialsNeed::Grow(bytes as usize),
    }
}

/// The blocks of columns cover the output, and every slab of a reduction of at
/// least 32 positions holds at least 32 of them.
pub proof fn shape_covers_the_product(n: i32, k: i32)
    requires
        n >= 0,
        k >= 0,
    ensures
        1 <= shape_slabs(n, k) <= 192,
        shape_cols(n) * 256 >= n,
        k >= 32 ==> k / shape_slabs(n, k) as i32 >= 32,
{
    lemma_shape(n, k);
    lemma_ceil_div(n as int, 256);
    let s = shape_slabs(n, k);
    if k >= 32 {
        assert(s <= k / 32);
        assert(32 * s <= k);
        vstd::arithmetic::div_mod::lemma_div_is_ordered(32 * s, k as int, s);
        vstd::arithmetic::div_mod::lemma_div_multiples_vanish(32, s);
        assert(s * 32 == 32 * s);
    }
}

/// A one-row product of `f16` operands is served by the two-phase kernels; one
/// of `f32` operands, or with a row-major output, never is.
pub proof fn served_plans(a: u64, b: u64, c: u64, m: usize, n: usize, k: usize)
    ensures
        served(row_major(DataType::F16, a, b, c, 1, n, k)),
        !served(row_major(DataType::F32, a, b, c, m, n, k)),
        !served(col_major_swap(a, b, c, m, n, k)),
{
}

/// Once a buffer has been taken for the largest need, every smaller need is met
/// by the same address: nothing is allocated again.
pub proof fn partials_address_is_stable(j: Jgemm, p: Partials, bytes: int)
    requires
        j.partials == Some(p),
        0 <= bytes <= p.cap,
    ensures
        partials_need(j.partials, bytes) == PartialsNeed::Ready(p.ptr),
{
}

/// Both phases of a one-row product agree on the number of slabs and on the
/// address of the partial sums, and the first has that many blocks per block of
/// the second.
pub proof fn phases_agree(on: Queue, p: GemmPlan, partials: u64)
    ensures
        gemv_phase1(on, p, partials).args[2] == gemv_phase2(on, p, partials).args[0],
        gemv_phase1(on, p, partials).args[5] == gemv_phase2(on, p, partials).args[3],
        gemv_phase1(on, p, partials).grid.x == gemv_phase2(on, p, partials).grid.x * shape_slabs(
            p.n,
            p.k,
        ),
{
    lemma_shape(p.n, p.k);
}

} // verus!
