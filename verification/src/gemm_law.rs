//! That the calls and the launches of products compute them, for one row and for many.

use vstd::prelude::*;

use crate::attention::{left_place, result_place, right_place};
use crate::fused_law::col_blocks;
use crate::gemm::{
    call_of, col_major_swap, gemv_batch_phase1, gemv_batch_phase2, gemv_phase1, gemv_phase2,
    lemma_shape, row_major, served, shape_cols, shape_slabs, ComputeType, DataType, GemmPlan,
};
use crate::launch::{Kernel, LaunchV, Queue};
use crate::math::lemma_ceil_div;
use crate::meaning::{one, product, Memory, Row};

verus! {

/// The row that partial sums add up to.
pub open spec fn added(r: Row, n: int, slabs: int) -> Row {
    match r {
        Row::Slabs { of, w, n: n0, k, slabs: s0 } => if n0 == n && s0 == slabs {
            product(*of, w, n, k)
        } else {
            Row::Lost
        },
        _ => Row::Lost,
    }
}

/// What a phase of a product does to row `i` of its operands.  A phase has a block for
/// every 256 columns of every row, and the first one for every slab of them.
pub open spec fn phased(m: Memory, l: LaunchV, on: Queue, i: int) -> Memory {
    let a = l.args.map_values(|w: u64| w as int);
    if l.on != on || l.block.x != 256 {
        Memory::lost()
    } else {
        match l.kernel {
            Kernel::GemvM1 => if i == 0 && a[5] >= 1 && l.grid.x == col_blocks(a[3]) * a[5] {
                m.put(
                    a[2],
                    Row::Slabs { of: Box::new(m.at(a[0])), w: a[1], n: a[3], k: a[4], slabs: a[5] },
                )
            } else {
                Memory::lost()
            },
            Kernel::GemvM1Reduce => if i == 0 && l.grid.x == col_blocks(a[2]) {
                m.put(a[1], added(m.at(a[0]), a[2], a[3]))
            } else {
                Memory::lost()
            },
            Kernel::GemvMb => if 0 <= i < a[3] && a[6] >= 1 && l.grid.x == a[3] * (col_blocks(a[4])
                * a[6]) {
                m.put(
                    a[2] + i * a[6] * a[4] * 4,
                    Row::Slabs {
                        of: Box::new(m.at(a[0] + i * a[5] * 2)),
                        w: a[1],
                        n: a[4],
                        k: a[5],
                        slabs: a[6],
                    },
                )
            } else {
                Memory::lost()
            },
            Kernel::GemvMbReduce => if 0 <= i < a[2] && l.grid.x == a[2] * col_blocks(a[3]) {
                m.put(a[1] + i * a[3] * 4, added(m.at(a[0] + i * a[4] * a[3] * 4), a[3], a[4]))
            } else {
                Memory::lost()
            },
            _ => Memory::lost(),
        }
    }
}

proof fn lemma_cols(n: i32, k: i32)
    requires
        n >= 0,
    ensures
        shape_cols(n) == col_blocks(n as int),
        1 <= shape_cols(n) <= 0x100_0000,
        1 <= shape_slabs(n, k) <= 192,
        shape_cols(n) * shape_slabs(n, k) <= 192 + 0x100_0000,
{
    lemma_shape(n, k);
    lemma_ceil_div(n as int, 256);
}

/// The two phases of a served product leave the product of its row with its matrix at the
/// output, and nothing else changes but the partial sums.
pub proof fn two_phases_compute_the_product(m: Memory, on: Queue, p: GemmPlan, partials: u64)
    requires
        served(p),
        0 <= p.n < 0x4000_0000,
        0 <= p.k,
    ensures
        ({
            let z = phased(
                phased(m, gemv_phase1(on, p, partials), on, 0),
                gemv_phase2(on, p, partials),
                on,
                0,
            );
            let r = product(m.at(p.a as int), p.b as int, p.n as int, p.k as int);
            &&& z.at(p.c as int) == r
            &&& forall|x: int| x != p.c && x != partials ==> #[trigger] z.at(x) == m.at(x)
            &&& z.cache == m.cache
            &&& z.words == m.words
        }),
{
    lemma_cols(p.n, p.k);
}

/// The two phases of the products of `rows` rows with one matrix leave at every row of the
/// output the product of its own row.
pub proof fn two_phases_compute_every_product(
    m: Memory,
    on: Queue,
    a: u64,
    b: u64,
    c: u64,
    partials: u64,
    rows: usize,
    n: usize,
    k: usize,
    i: int,
)
    requires
        n < 0x4000_0000,
        k <= i32::MAX,
        rows * (shape_cols(n as i32) * shape_slabs(n as i32, k as i32)) <= u32::MAX,
        rows <= i32::MAX,
        0 <= i < rows,
    ensures
        ({
            let z = phased(
                phased(m, gemv_batch_phase1(on, a, b, partials, rows, n, k), on, i),
                gemv_batch_phase2(on, c, partials, rows, n, k),
                on,
                i,
            );
            z.at(c + i * n * 4) == product(m.at(a + i * k * 2), b as int, n as int, k as int)
        }),
{
    lemma_cols(n as i32, k as i32);
    let (x, s) = (shape_cols(n as i32), shape_slabs(n as i32, k as i32));
    let l = gemv_batch_phase1(on, a, b, partials, rows, n, k);
    assert(0 <= rows * x <= rows * (x * s)) by (nonlinear_arith)
        requires
            rows >= 0,
            x >= 0,
            s >= 1,
    ;
    let g = l.args.map_values(|w: u64| w as int);
    assert(g[0] == a && g[1] == b && g[2] == partials && g[3] == rows && g[4] == n && g[5] == k
        && g[6] == s);
    assert(l.grid.x == rows * (x * s));
}

/// The call of a plan reads and writes where the product of row-major operands does: term
/// `j` of output `(i, o)` comes from element `j` of row `i` and from element `o` of row `j`
/// of the matrix.  With its operands swapped, the call leaves the output row-major too; the
/// plain one does so where it has one row.  Nothing is scaled, and nothing is added.
pub proof fn calls_compute_the_product(
    on: Queue,
    dt: DataType,
    a: u64,
    b: u64,
    c: u64,
    m: usize,
    n: usize,
    k: usize,
    i: int,
    o: int,
    j: int,
)
    requires
        m <= i32::MAX,
        n <= i32::MAX,
        k <= i32::MAX,
        0 <= i < m,
        0 <= o < n,
        0 <= j < k,
    ensures
        ({
            let g = call_of(on, row_major(dt, a, b, c, m, n, k));
            &&& g.on == on && g.m == m && g.n == n && g.k == k
            &&& g.a.ptr == a && left_place(g, i, j) == i * k + j
            &&& g.b.ptr == b && right_place(g, j, o) == j * n + o
            &&& g.c.ptr == c && result_place(g, i, o) == o * m + i
            &&& g.a.dtype == dt && g.b.dtype == dt && g.c.dtype == DataType::F32
            &&& g.compute == ComputeType::F32
            &&& g.alpha_bits == one() && g.beta_bits == 0
        }),
        ({
            let g = call_of(on, col_major_swap(a, b, c, m, n, k));
            &&& g.on == on && g.m == n && g.n == m && g.k == k
            &&& g.b.ptr == a && right_place(g, j, i) == i * k + j
            &&& g.a.ptr == b && left_place(g, o, j) == j * n + o
            &&& g.c.ptr == c && result_place(g, o, i) == i * n + o
            &&& g.a.dtype == DataType::F16 && g.b.dtype == DataType::F16
            &&& g.c.dtype == DataType::F32
            &&& g.compute == ComputeType::F32
            &&& g.alpha_bits == one() && g.beta_bits == 0
        }),
{
}

} // verus!
