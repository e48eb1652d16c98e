//! Reference attention of one head over a whole prompt, in `f32`.

use vstd::prelude::*;

use crate::buffer::DeviceBuffer;
use crate::diff::{self, DiffKernels};
use crate::float_bits::{F32_NEG_INFINITY, F32_ONE, F32_ZERO};
use crate::gemm::{ComputeType, DataType, Gemm, GemmCall, GpuMat, Transpose};
use crate::launch::{CudaStream, Launch, LaunchV, Queue};

verus! {

/// Buffers between the steps.
#[derive(Debug, Clone, Copy, PartialEq, Eq, Structural)]
pub struct PrefillScratch {
    /// Scores as the first product leaves them.
    pub s: DeviceBuffer,
    /// Weights in `f16`.
    pub p: DeviceBuffer,
    /// The keys, transposed.
    pub kt: DeviceBuffer,
    /// Scores row by row.
    pub sr: DeviceBuffer,
}

/// Their sizes in bytes.
#[derive(Debug, Clone, Copy, PartialEq, Eq, Structural)]
pub struct ScratchSizes {
    pub s: usize,
    pub p: usize,
    pub kt: usize,
    pub sr: usize,
}

impl PrefillScratch {
    /// The buffers in allocations of their sizes.
    pub fn allocate(s: DeviceBuffer, p: DeviceBuffer, kt: DeviceBuffer, sr: DeviceBuffer) -> (r: Self)
        ensures
            r == (PrefillScratch { s, p, kt, sr }),
    {
        PrefillScratch { s, p, kt, sr }
    }

    /// The sizes for `seq` tokens of width `d`; `None` where one of them cannot be
    /// expressed.
    pub fn alloc_sizes(seq: usize, d: usize) -> (r: Option<ScratchSizes>)
        ensures
            r is Some <==> seq * seq * 4 <= usize::MAX && seq * d * 4 <= usize::MAX,
            r is Some ==> r->0.s == seq * seq * 4,
            r is Some ==> r->0.p == seq * seq * 2,
            r is Some ==> r->0.kt == seq * d * 4,
            r is Some ==> r->0.sr == seq * seq * 4,
    {
        proof {
            let (s, n) = (seq as int, d as int);
            assert(0 <= s * s && 0 <= s * n) by (nonlinear_arith)
                requires
                    s >= 0,
                    n >= 0,
            ;
        }
        let square: usize = seq.checked_mul(seq)?;
        let keys: usize = seq.checked_mul(d)?;
        let s: usize = square.checked_mul(4)?;
        let kt: usize = keys.checked_mul(4)?;
        Some(ScratchSizes { s, p: square * 2, kt, sr: s })
    }
}

/// An operation of reference attention.
#[derive(Debug)]
pub enum AttnOp {
    Launch(Launch),
    Gemm(GemmCall),
    /// Wait for the stream.
    Sync,
}

/// The mathematical value of an operation.
pub enum AttnOpV {
    Launch(LaunchV),
    Gemm(GemmCall),
    Sync,
}

impl View for AttnOp {
    type V = AttnOpV;

    open spec fn view(&self) -> AttnOpV {
        match self {
            AttnOp::Launch(l) => AttnOpV::Launch(l@),
            AttnOp::Gemm(g) => AttnOpV::Gemm(*g),
            AttnOp::Sync => AttnOpV::Sync,
        }
    }
}

pub open spec fn f32_mat(ptr: u64, ld: i32) -> GpuMat {
    GpuMat { ptr, dtype: DataType::F32, ld }
}

/// A product in `f32` with both operands read as given by `t`.
pub open spec fn f32_product(
    on: Queue,
    t: Transpose,
    m: i32,
    n: i32,
    k: i32,
    a: GpuMat,
    b: GpuMat,
    c: GpuMat,
) -> GemmCall {
    GemmCall {
        on,
        m,
        n,
        k,
        a,
        b,
        c,
        compute: ComputeType::F32,
        trans_a: t,
        trans_b: t,
        alpha_bits: F32_ONE,
        beta_bits: F32_ZERO,
    }
}

/// The whole of it: transpose the keys, score every query against every key, turn
/// the scores into rows, add the mask, take the row softmax, and weight the values.
/// The first product reads rows and leaves columns; the last one has its operands
/// swapped and leaves rows.
pub open spec fn attention_ops(
    on: Queue,
    blas: Queue,
    x: PrefillScratch,
    q: DeviceBuffer,
    k: DeviceBuffer,
    v: DeviceBuffer,
    mask: DeviceBuffer,
    out: DeviceBuffer,
    seq: usize,
    d: usize,
) -> Seq<AttnOpV> {
    let (s, w) = (seq as i32, d as i32);
    seq![
        AttnOpV::Launch(diff::transpose_f32(on, k.ptr, x.kt.ptr, seq as u32, d as u32)),
        AttnOpV::Gemm(
            f32_product(
                blas,
                Transpose::T,
                s,
                s,
                w,
                f32_mat(q.ptr, w),
                f32_mat(x.kt.ptr, s),
                f32_mat(x.s.ptr, s),
            ),
        ),
        AttnOpV::Launch(diff::transpose_f32(on, x.s.ptr, x.sr.ptr, seq as u32, seq as u32)),
        AttnOpV::Launch(diff::add_mask(on, x.sr.ptr, mask.ptr, (seq * seq) as u32)),
        AttnOpV::Launch(
            diff::softmax_matrix(on, x.sr.ptr, x.sr.ptr, seq as u32, seq as u32),
        ),
        AttnOpV::Gemm(
            f32_product(
                blas,
                Transpose::N,
                w,
                s,
                s,
                f32_mat(v.ptr, w),
                f32_mat(x.sr.ptr, s),
                f32_mat(out.ptr, w),
            ),
        ),
        AttnOpV::Sync,
    ]
}

/// Reference attention of one head: `seq` rows of width `d`, the mask added to the
/// scores.  Queries, keys, values, mask and output are row-major.
pub fn prefill_attention(
    dev: u32,
    blas: &Gemm,
    sm: &DiffKernels,
    stream: &CudaStream,
    scratch: &PrefillScratch,
    q: &DeviceBuffer,
    k: &DeviceBuffer,
    v: &DeviceBuffer,
    mask: &DeviceBuffer,
    seq: usize,
    d: usize,
    out: &DeviceBuffer,
) -> (r: Vec<AttnOp>)
    requires
        seq <= i32::MAX,
        d <= i32::MAX,
        seq * seq <= u32::MAX,
    ensures
        r@.map_values(|o: AttnOp| o@) == attention_ops(
            (Queue { dev, stream: *stream }),
            (Queue { dev: blas.dev, stream: *stream }),
            *scratch,
            *q,
            *k,
            *v,
            *mask,
            *out,
            seq,
            d,
        ),
{
    let x = scratch;
    let (s, w) = (seq as i32, d as i32);
    let (su, wu) = (seq as u32, d as u32);
    let qm = GpuMat { ptr: q.ptr, dtype: DataType::F32, ld: w };
    let ktm = GpuMat { ptr: x.kt.ptr, dtype: DataType::F32, ld: s };
    let sm1 = GpuMat { ptr: x.s.ptr, dtype: DataType::F32, ld: s };
    let pm = GpuMat { ptr: x.sr.ptr, dtype: DataType::F32, ld: s };
    let vm = GpuMat { ptr: v.ptr, dtype: DataType::F32, ld: w };
    let om = GpuMat { ptr: out.ptr, dtype: DataType::F32, ld: w };
    let r = vec![
        AttnOp::Launch(sm.launch_transpose_f32(dev, stream, k.ptr, x.kt.ptr, su, wu)),
        AttnOp::Gemm(blas.gemm_f32acc(stream, s, s, w, &qm, &ktm, &sm1, F32_ONE, F32_ZERO)),
        AttnOp::Launch(sm.launch_transpose_f32(dev, stream, x.s.ptr, x.sr.ptr, su, su)),
        AttnOp::Launch(sm.launch_add_mask(dev, stream, x.sr.ptr, mask.ptr, su * su)),
        AttnOp::Launch(
            sm.launch_masked_softmax_matrix(dev, stream, x.sr.ptr, x.sr.ptr, su, su),
        ),
        AttnOp::Gemm(
            blas.gemm_exec(
                stream,
                w,
                s,
                s,
                &vm,
                &pm,
                &om,
                ComputeType::F32,
                Transpose::N,
                Transpose::N,
                F32_ONE,
                F32_ZERO,
            ),
        ),
        AttnOp::Sync,
    ];
    proof {
        assert(r@.map_values(|o: AttnOp| o@) =~= attention_ops(
            (Queue { dev, stream: *stream }),
            (Queue { dev: blas.dev, stream: *stream }),
            *scratch,
            *q,
            *k,
            *v,
            *mask,
            *out,
            seq,
            d,
        ));
    }
    r
}

/// The place of row `r` and column `c` of an operand that is read as `t`.
pub open spec fn operand_place(t: Transpose, ld: int, r: int, c: int) -> int {
    if t == Transpose::N {
        r + c * ld
    } else {
        c + r * ld
    }
}

/// Where a product reads term `j` of row `r` of its left operand.
pub open spec fn left_place(g: GemmCall, r: int, j: int) -> int {
    operand_place(g.trans_a, g.a.ld as int, r, j)
}

/// Where a product reads term `j` of column `c` of its right operand.
pub open spec fn right_place(g: GemmCall, j: int, c: int) -> int {
    operand_place(g.trans_b, g.b.ld as int, j, c)
}

/// Where a product writes row `r` and column `c` of its result.
pub open spec fn result_place(g: GemmCall, r: int, c: int) -> int {
    r + c * g.c.ld
}

/// Attention is row-major from end to end.  Score `(i, j)` is summed from
/// `q[i * d + l]` and the transposed `kt[l * seq + j]` and lands at `s[j * seq + i]`, which
/// the transpose turns into row `i`; output `(i, c)` is summed from weight
/// `sr[i * seq + j]` and value `v[j * d + c]` and lands at `out[i * d + c]`.
pub proof fn attention_output_is_row_major(
    on: Queue,
    blas: Queue,
    x: PrefillScratch,
    q: DeviceBuffer,
    k: DeviceBuffer,
    v: DeviceBuffer,
    mask: DeviceBuffer,
    out: DeviceBuffer,
    seq: usize,
    d: usize,
    i: int,
    j: int,
    l: int,
    c: int,
)
    requires
        seq <= i32::MAX,
        d <= i32::MAX,
        0 <= i < seq,
        0 <= j < seq,
        0 <= l < d,
        0 <= c < d,
    ensures
        ({
            let ops = attention_ops(on, blas, x, q, k, v, mask, out, seq, d);
            let (s, o) = (ops[1]->Gemm_0, ops[5]->Gemm_0);
            &&& s.m == seq && s.n == seq && s.k == d
            &&& s.a.ptr == q.ptr && left_place(s, i, l) == i * d + l
            &&& s.b.ptr == x.kt.ptr && right_place(s, l, j) == l * seq + j
            &&& s.c.ptr == x.s.ptr && result_place(s, i, j) == j * seq + i
            &&& o.m == d && o.n == seq && o.k == seq
            &&& o.a.ptr == v.ptr && left_place(o, c, j) == j * d + c
            &&& o.b.ptr == x.sr.ptr && right_place(o, j, i) == i * seq + j
            &&& o.c.ptr == out.ptr && result_place(o, c, i) == i * d + c
        }),
{
}

/// Rows that a causal mask changes: each has a column behind its own.
pub open spec fn masked_rows(seq: int, collen: int) -> int {
    if collen == 0 {
        0
    } else if seq < collen - 1 {
        seq
    } else {
        collen - 1
    }
}

/// Whether the mask covers a place of `seq` rows of `collen` columns: its column is
/// behind its row.
pub open spec fn is_masked(at: int, seq: int, collen: int) -> bool {
    collen > 0 && at / collen < seq && at % collen > at / collen
}

/// Writes the causal mask into row-major scores, `f32` bit patterns: every place
/// behind the diagonal becomes minus infinity, the others stay.
pub fn mask_causal_inplace(s: &mut Vec<u32>, seq: usize, collen: usize)
    requires
        masked_rows(seq as int, collen as int) * collen <= old(s)@.len(),
    ensures
        final(s)@.len() == old(s)@.len(),
        forall|at: int|
            0 <= at < old(s)@.len() ==> #[trigger] final(s)@[at] == if is_masked(
                at,
                seq as int,
                collen as int,
            ) {
                F32_NEG_INFINITY
            } else {
                old(s)@[at]
            },
{
    if collen == 0 {
        return;
    }
    let rows: usize = if seq < collen - 1 {
        seq
    } else {
        collen - 1
    };
    let total: usize = s.len();
    let ghost before = s@;
    let mut i: usize = 0;
    while i < rows
        invariant
            i <= rows,
            rows == masked_rows(seq as int, collen as int),
            0 < collen,
            total == s@.len(),
            total == before.len(),
            rows * collen <= total,
            forall|at: int|
                0 <= at < total ==> #[trigger] s@[at] == if at / (collen as int) < i && at % (
                collen as int) > at / (collen as int) {
                    F32_NEG_INFINITY
                } else {
                    before[at]
                },
        decreases rows - i,
    {
        proof {
            let (r, c, n) = (i as int, collen as int, rows as int);
            assert(0 <= r * c && r * c + c <= n * c) by (nonlinear_arith)
                requires
                    0 <= r,
                    r + 1 <= n,
                    c > 0,
            ;
        }
        let base: usize = i * collen;
        let mut j: usize = i + 1;
        while j < collen
            invariant
                i < rows,
                i < j <= collen,
                base == i * collen,
                base + collen <= total,
                0 < collen,
                total == s@.len(),
                total == before.len(),
                forall|at: int|
                    0 <= at < total ==> #[trigger] s@[at] == if (at / (collen as int) < i && at % (
                    collen as int) > at / (collen as int)) || (base + i < at < base + j) {
                        F32_NEG_INFINITY
                    } else {
                        before[at]
                    },
            decreases collen - j,
        {
            s.set(base + j, F32_NEG_INFINITY);
            j = j + 1;
        }
        proof {
            assert forall|at: int| 0 <= at < total implies #[trigger] s@[at] == if at / (
            collen as int) < i + 1 && at % (collen as int) > at / (collen as int) {
                F32_NEG_INFINITY
            } else {
                before[at]
            } by {
                lemma_place(at, collen as int, i as int);
            }
        }
        i = i + 1;
    }
    proof {
        assert forall|at: int| 0 <= at < total implies #[trigger] s@[at] == if is_masked(
            at,
            seq as int,
            collen as int,
        ) {
            F32_NEG_INFINITY
        } else {
            before[at]
        } by {
            lemma_place(at, collen as int, at / (collen as int));
        }
    }
}

/// A place is in row `i` if and only if it is among the row's columns.
proof fn lemma_place(at: int, collen: int, i: int)
    requires
        0 <= at,
        0 < collen,
        0 <= i,
    ensures
        at / collen == i <==> i * collen <= at < i * collen + collen,
        at / collen == i ==> at % collen == at - i * collen,
        0 <= at % collen < collen,
{
    vstd::arithmetic::div_mod::lemma_fundamental_div_mod(at, collen);
    let (q, r) = (at / collen, at % collen);
    assert(q == i <==> i * collen <= at < i * collen + collen) by (nonlinear_arith)
        requires
            at == collen * q + r,
            0 <= r < collen,
    ;
    if q == i {
        assert(collen * q == i * collen) by (nonlinear_arith)
            requires
                q == i,
        ;
    }
}

/// The causal mask leaves every query its own key and those before it, and no other:
/// in a square matrix the place in row `i` and column `j` is masked if and only if
/// `j > i`.
pub proof fn causal_mask_is_strictly_upper(i: int, j: int, seq: int)
    requires
        0 <= i < seq,
        0 <= j < seq,
    ensures
        is_masked(i * seq + j, seq, seq) <==> j > i,
{
    let at = i * seq + j;
    assert(0 <= i * seq) by (nonlinear_arith)
        requires
            i >= 0,
            seq >= 0,
    ;
    lemma_place(at, seq, i);
}

} // verus!
