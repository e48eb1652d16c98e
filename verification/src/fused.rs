//! The fused decode step: the table of its one-row products, the layout of their
//! shared partial sums, and its launches.
//!
//! Every layer uses the same layout of partial sums: a layer reads its sums
//! before the next layer writes them.  The table holds seven rows per layer
//! (query, key, value, attention output, gate, up, down) and then the row of the
//! output head.

use vstd::prelude::*;

use crate::bytes::{le_bytes, lemma_le_bytes_len, push_le};
use crate::error::LaunchError;
use crate::gemm::{
    int_word, lemma_shape, shape_cols, shape_covers_the_product, shape_slabs, GemmPlan, Jgemm,
};
use crate::launch::{launch_rows, rows_launch, CudaStream, Kernel, Launch, LaunchV, Queue};
use crate::math::{ceil_div, div_ceil_u32, lemma_ceil_div};
use crate::plans::{DecodeGemmPlans, LayerGemmPlans};

verus! {

/// Bytes of a row of the table.
pub const PLAN_ROW_BYTES: u64 = 40;

/// A row of the table: a one-row product, and where its blocks start in the grid
/// that computes it.
#[derive(Debug, Clone, Copy, PartialEq, Eq, Structural)]
pub struct PlanRow {
    pub a: u64,
    pub b: u64,
    pub partials: u64,
    pub n: i32,
    pub k: i32,
    pub nslabs: i32,
    pub col_off: i32,
}

/// A row as the kernels read it.
pub open spec fn row_bytes(r: PlanRow) -> Seq<u8> {
    le_bytes(r.a as nat, 8) + le_bytes(r.b as nat, 8) + le_bytes(r.partials as nat, 8) + le_bytes(
        int_word(r.n) as nat,
        4,
    ) + le_bytes(int_word(r.k) as nat, 4) + le_bytes(int_word(r.nslabs) as nat, 4) + le_bytes(
        int_word(r.col_off) as nat,
        4,
    )
}

/// The rows of a table one after the other.
pub open spec fn table_bytes(rows: Seq<PlanRow>) -> Seq<u8>
    decreases rows.len(),
{
    if rows.len() == 0 {
        Seq::empty()
    } else {
        table_bytes(rows.drop_last()) + row_bytes(rows.last())
    }
}

fn push_row(out: &mut Vec<u8>, r: &PlanRow)
    ensures
        final(out)@ == old(out)@ + row_bytes(*r),
{
    push_le(out, r.a, 8);
    push_le(out, r.b, 8);
    push_le(out, r.partials, 8);
    push_le(out, (#[verifier::truncate] (r.n as u32)) as u64, 4);
    push_le(out, (#[verifier::truncate] (r.k as u32)) as u64, 4);
    push_le(out, (#[verifier::truncate] (r.nslabs as u32)) as u64, 4);
    push_le(out, (#[verifier::truncate] (r.col_off as u32)) as u64, 4);
    proof {
        assert(out@ =~= old(out)@ + row_bytes(*r));
    }
}

/// The bytes of a table.
pub fn encode_table(rows: &Vec<PlanRow>) -> (out: Vec<u8>)
    ensures
        out@ == table_bytes(rows@),
{
    let mut out: Vec<u8> = Vec::new();
    let mut i: usize = 0;
    while i < rows.len()
        invariant
            i <= rows.len(),
            out@ == table_bytes(rows@.subrange(0, i as int)),
        decreases rows.len() - i,
    {
        push_row(&mut out, &rows[i]);
        proof {
            let t = rows@.subrange(0, i + 1);
            assert(t.drop_last() =~= rows@.subrange(0, i as int));
        }
        i = i + 1;
    }
    proof {
        assert(rows@.subrange(0, rows@.len() as int) =~= rows@);
    }
    out
}

/// Partial sums of a product, in `f32` elements.
pub open spec fn seg_len(p: GemmPlan) -> int {
    p.n * shape_slabs(p.n, p.k)
}

/// Blocks of the first phase of a product.
pub open spec fn tiles(p: GemmPlan) -> int {
    shape_cols(p.n) * shape_slabs(p.n, p.k)
}

/// Where the partial sums of each product start, in elements from the start of
/// the shared buffer.
pub struct Segments {
    pub q: int,
    pub k: int,
    pub v: int,
    pub o: int,
    pub g: int,
    pub u: int,
    pub d: int,
    pub lm: int,
    pub total: int,
}

/// The layout of partial sums: the products of a layer one after the other, and
/// then the output head.
pub open spec fn segments(l: LayerGemmPlans, lm: GemmPlan) -> Segments {
    let q: int = 0;
    let k = q + seg_len(l.q);
    let v = k + seg_len(l.k);
    let o = v + seg_len(l.v);
    let g = o + seg_len(l.o);
    let u = g + seg_len(l.gate);
    let d = u + seg_len(l.up);
    let h = d + seg_len(l.down);
    Segments { q, k, v, o, g, u, d, lm: h, total: h + lm.n }
}

/// Positions per slab of a product.
pub open spec fn slab_len(p: GemmPlan) -> int {
    ceil_div(p.k as int, shape_slabs(p.n, p.k))
}

/// Whether the second product of the feed-forward half can run in the kernel
/// that computes its input: a slab fits a stripe of 256 positions a whole number
/// of times, and the stripes of the slabs cover the reduction.
pub open spec fn merge_is_valid(down: GemmPlan) -> bool {
    let s = slab_len(down);
    &&& s <= 256
    &&& 256int % s == 0
    &&& (shape_slabs(down.n, down.k) / (256int / s)) * 256 >= down.k
}

/// Whether a product has extents that the shape arithmetic can take.
pub open spec fn extents_ok(p: GemmPlan) -> bool {
    0 < p.n < 0x4000_0000 && 0 < p.k
}

/// Plans that a fused step can be built from: there is a layer, up and gate have
/// one shape, and the output head is wide enough to need one slab.
pub open spec fn fusable(p: DecodeGemmPlans) -> bool {
    let l = p.layers@[0];
    &&& p.layers@.len() > 0
    &&& extents_ok(l.q)
    &&& extents_ok(l.k)
    &&& extents_ok(l.v)
    &&& extents_ok(l.o)
    &&& extents_ok(l.gate)
    &&& extents_ok(l.up)
    &&& extents_ok(l.down)
    &&& extents_ok(p.lm_head)
    &&& l.up.n == l.gate.n
    &&& l.down.n == l.o.n
    &&& shape_slabs(l.up.n, l.up.k) == shape_slabs(l.gate.n, l.gate.k)
    &&& shape_slabs(p.lm_head.n, p.lm_head.k) == 1
}

/// A row of the table for a product at `a` and `b`, with the shape of `p`.
pub open spec fn plan_row(own: GemmPlan, p: GemmPlan, base: u64, seg: int, col_off: int) -> PlanRow {
    PlanRow {
        a: own.a,
        b: own.b,
        partials: (base + seg * 4) as u64,
        n: p.n,
        k: p.k,
        nslabs: shape_slabs(p.n, p.k) as i32,
        col_off: col_off as i32,
    }
}

/// The seven rows of a layer.  Query, key and value share one grid, and so do
/// gate and up; the others have their own.
pub open spec fn layer_rows(
    own: LayerGemmPlans,
    l: LayerGemmPlans,
    lm: GemmPlan,
    base: u64,
) -> Seq<PlanRow> {
    let s = segments(l, lm);
    seq![
        plan_row(own.q, l.q, base, s.q, 0),
        plan_row(own.k, l.k, base, s.k, tiles(l.q)),
        plan_row(own.v, l.v, base, s.v, tiles(l.q) + tiles(l.k)),
        plan_row(own.o, l.o, base, s.o, 0),
        plan_row(own.gate, l.gate, base, s.g, 0),
        plan_row(own.up, l.up, base, s.u, tiles(l.gate)),
        plan_row(own.down, l.down, base, s.d, 0),
    ]
}

/// The rows of the first `n` layers.
pub open spec fn rows_of_layers(p: DecodeGemmPlans, base: u64, n: nat) -> Seq<PlanRow>
    decreases n,
{
    if n == 0 {
        Seq::empty()
    } else {
        rows_of_layers(p, base, (n - 1) as nat) + layer_rows(
            p.layers@[n - 1],
            p.layers@[0],
            p.lm_head,
            base,
        )
    }
}

/// The whole table.
pub open spec fn table_rows(p: DecodeGemmPlans, base: u64) -> Seq<PlanRow> {
    rows_of_layers(p, base, p.layers@.len()).push(
        plan_row(p.lm_head, p.lm_head, base, segments(p.layers@[0], p.lm_head).lm, 0),
    )
}

/// The geometry of the fused step: grids, slab counts, and addresses of the
/// partial sums and of the table.
#[derive(Debug)]
pub struct FusedGeom {
    pub grid_qkv: Vec<u32>,
    pub grid_gu: Vec<u32>,
    pub grid_o: Vec<u32>,
    pub grid_lm: u32,
    pub grid_qkv_p2: u32,
    pub grid_gu_p2: u32,
    pub nslabs_q: i32,
    pub nslabs_k: i32,
    pub nslabs_v: i32,
    pub nslabs_o: i32,
    pub nslabs_g: i32,
    pub nslabs_d: i32,
    pub pq: u64,
    pub pk: u64,
    pub pv: u64,
    pub po: u64,
    pub pg: u64,
    pub pu: u64,
    pub pd: u64,
    pub plm: u64,
    pub tables: u64,
    pub lm_table: u64,
}

/// Whether this is the geometry of plans whose partial sums are at `base` and
/// whose table is at `tables`.
pub open spec fn geom_of(g: FusedGeom, p: DecodeGemmPlans, base: u64, tables: u64) -> bool {
    let l = p.layers@[0];
    let s = segments(l, p.lm_head);
    let n = p.layers@.len();
    &&& g.grid_qkv@ == Seq::new(n, |i: int| (tiles(l.q) + tiles(l.k) + tiles(l.v)) as u32)
    &&& g.grid_gu@ == Seq::new(n, |i: int| (2 * tiles(l.gate)) as u32)
    &&& g.grid_o@ == Seq::new(n, |i: int| tiles(l.o) as u32)
    &&& g.grid_lm == shape_cols(p.lm_head.n)
    &&& g.grid_qkv_p2 == shape_cols(l.q.n) + shape_cols(l.k.n) + shape_cols(l.v.n)
    &&& g.grid_gu_p2 == tiles(l.down)
    &&& g.nslabs_q == shape_slabs(l.q.n, l.q.k)
    &&& g.nslabs_k == shape_slabs(l.k.n, l.k.k)
    &&& g.nslabs_v == shape_slabs(l.v.n, l.v.k)
    &&& g.nslabs_o == shape_slabs(l.o.n, l.o.k)
    &&& g.nslabs_g == shape_slabs(l.gate.n, l.gate.k)
    &&& g.nslabs_d == shape_slabs(l.down.n, l.down.k)
    &&& g.pq == base + s.q * 4
    &&& g.pk == base + s.k * 4
    &&& g.pv == base + s.v * 4
    &&& g.po == base + s.o * 4
    &&& g.pg == base + s.g * 4
    &&& g.pu == base + s.u * 4
    &&& g.pd == base + s.d * 4
    &&& g.plm == base + s.lm * 4
    &&& g.tables == tables
    &&& g.lm_table == tables + n * 7 * PLAN_ROW_BYTES
}

proof fn lemma_seg(p: GemmPlan)
    requires
        extents_ok(p),
    ensures
        0 < seg_len(p) <= 0x4000_0000 * 192,
        0 < tiles(p) <= 192 + 0x100_0000,
        1 <= shape_slabs(p.n, p.k) <= 192,
        1 <= shape_cols(p.n) <= 192 + 0x100_0000,
{
    shape_covers_the_product(p.n, p.k);
    lemma_shape(p.n, p.k);
    let s = shape_slabs(p.n, p.k);
    assert(0 < p.n * s <= 0x4000_0000 * 192) by (nonlinear_arith)
        requires
            0 < p.n < 0x4000_0000,
            1 <= s <= 192,
    ;
    let c = shape_cols(p.n);
    assert(0 < c * s) by (nonlinear_arith)
        requires
            c >= 1,
            s >= 1,
    ;
}

proof fn lemma_segments(p: DecodeGemmPlans)
    requires
        fusable(p),
    ensures
        ({
            let s = segments(p.layers@[0], p.lm_head);
            &&& 0 == s.q < s.k < s.v < s.o < s.g < s.u < s.d < s.lm < s.total
            &&& s.total <= 7 * 0x4000_0000 * 192 + 0x4000_0000
        }),
{
    let l = p.layers@[0];
    lemma_seg(l.q);
    lemma_seg(l.k);
    lemma_seg(l.v);
    lemma_seg(l.o);
    lemma_seg(l.gate);
    lemma_seg(l.up);
    lemma_seg(l.down);
}

/// Bytes that the fused step needs on the device.
#[derive(Debug, Clone, Copy, PartialEq, Eq, Structural)]
pub struct FusedSizes {
    pub partials: u64,
    pub tables: u64,
}

/// The segments as machine words.
#[derive(Debug, Clone, Copy)]
struct SegWords {
    k: u64,
    v: u64,
    o: u64,
    g: u64,
    u: u64,
    d: u64,
    lm: u64,
    total: u64,
}

fn seg_words(jg: &Jgemm, plans: &DecodeGemmPlans) -> (w: SegWords)
    requires
        fusable(*plans),
    ensures
        ({
            let s = segments(plans.layers@[0], plans.lm_head);
            &&& w.k == s.k && w.v == s.v && w.o == s.o && w.g == s.g
            &&& w.u == s.u && w.d == s.d && w.lm == s.lm && w.total == s.total
        }),
{
    let l = &plans.layers[0];
    proof {
        lemma_segments(*plans);
    }
    let k: u64 = seg_word(jg, &l.q);
    let v: u64 = k + seg_word(jg, &l.k);
    let o: u64 = v + seg_word(jg, &l.v);
    let g: u64 = o + seg_word(jg, &l.o);
    let u: u64 = g + seg_word(jg, &l.gate);
    let d: u64 = u + seg_word(jg, &l.up);
    let lm: u64 = d + seg_word(jg, &l.down);
    let total: u64 = lm + plans.lm_head.n as u64;
    SegWords { k, v, o, g, u, d, lm, total }
}

fn seg_word(jg: &Jgemm, p: &GemmPlan) -> (n: u64)
    requires
        extents_ok(*p),
    ensures
        n == seg_len(*p),
        n <= 0x4000_0000 * 192,
{
    let (_, s) = jg.shape(p.n, p.k);
    proof {
        lemma_seg(*p);
    }
    p.n as u64 * s as u64
}

fn tile_count(jg: &Jgemm, p: &GemmPlan) -> (n: u32)
    requires
        extents_ok(*p),
    ensures
        n == tiles(*p),
        n <= 192 + 0x100_0000,
{
    let (c, s) = jg.shape(p.n, p.k);
    c * s
}

fn merge_check(jg: &Jgemm, down: &GemmPlan) -> (b: bool)
    requires
        extents_ok(*down),
    ensures
        b == merge_is_valid(*down),
{
    let (_, nslabs) = jg.shape(down.n, down.k);
    let k: u32 = down.k as u32;
    let slab: u32 = div_ceil_u32(k, nslabs);
    proof {
        lemma_ceil_div(k as int, nslabs as int);
        lemma_seg(*down);
    }
    if slab > 256 || 256 % slab != 0 {
        return false;
    }
    let per: u32 = 256 / slab;
    proof {
        let p = 256int / (slab as int);
        vstd::arithmetic::div_mod::lemma_div_non_zero(256, slab as int);
        assert(p >= 1);
        vstd::arithmetic::div_mod::lemma_div_is_ordered_by_denominator(nslabs as int, 1, p);
    }
    nslabs / per * 256 >= k
}

/// The fused decode kernels: their device, and the geometry of the step.
#[derive(Debug)]
pub struct FusedDecodeKernels {
    pub dev: u32,
    pub geom: FusedGeom,
}

/// First phase of several products of one table.
pub open spec fn p1(on: Queue, table: u64, nplans: u32, grid: u32) -> LaunchV {
    rows_launch(on, Kernel::GemvM1Multi, grid, 256, 0, seq![table, nplans as u64])
}

/// Second phase of the query, key and value products, with casts, head norms and
/// rotary embedding.
pub open spec fn p2_qkv(
    on: Queue,
    pq: u64,
    pk: u64,
    pv: u64,
    q16: u64,
    k16: u64,
    v16: u64,
    wq: u64,
    wk: u64,
    nq: u32,
    nk: u32,
    nv: u32,
    nslabs_q: i32,
    nslabs_k: i32,
    nslabs_v: i32,
    d: u32,
    half: u32,
    pos: u32,
    eta: u32,
    scale_q: u32,
    scale_k: u32,
    eps: u32,
    hn: u32,
    grid: u32,
) -> LaunchV {
    rows_launch(
        on,
        Kernel::GemvP2QkvCastHnRope,
        grid,
        256,
        0,
        seq![
            pq,
            pk,
            pv,
            q16,
            k16,
            v16,
            wq,
            wk,
            nq as u64,
            nk as u64,
            nv as u64,
            int_word(nslabs_q),
            int_word(nslabs_k),
            int_word(nslabs_v),
            d as u64,
            half as u64,
            pos as u64,
            eta as u64,
            scale_q as u64,
            scale_k as u64,
            eps as u64,
            hn as u64,
        ],
    )
}

/// Second phase of gate and up, their SiLU-GLU, and the first phase of down.
pub open spec fn p2_gu_d(on: Queue, table: u64, grid: u32) -> LaunchV {
    rows_launch(on, Kernel::GemvP2GuP1dSwiglu, grid, 256, 0, seq![table, 3])
}

/// Second phase of a product, the residual add and the RMSNorm row after it.
pub open spec fn p2_add_rms(
    on: Queue,
    partials: u64,
    x: u64,
    out: u64,
    w: u64,
    n: u32,
    nslabs: i32,
    eps: u32,
) -> LaunchV {
    rows_launch(
        on,
        Kernel::GemvP2AddRms,
        1,
        256,
        0,
        seq![partials, x, out, w, n as u64, int_word(nslabs), eps as u64],
    )
}

/// Second phase of the output head.
pub open spec fn reduce(on: Queue, partials: u64, c: u64, n: u32, nslabs: i32, grid: u32) -> LaunchV {
    rows_launch(on, Kernel::GemvM1Reduce, grid, 256, 0, seq![partials, c, n as u64, int_word(nslabs)])
}

fn in_extent(p: &GemmPlan) -> (b: bool)
    ensures
        b == extents_ok(*p),
{
    0 < p.n && p.n < 0x4000_0000 && 0 < p.k
}

impl FusedDecodeKernels {
    /// The fused kernels of a device, before their plans are built.
    pub fn new(dev: u32) -> (f: Self)
        ensures
            f.dev == dev,
            f.geom.grid_qkv@.len() == 0,
    {
        FusedDecodeKernels {
            dev,
            geom: FusedGeom {
                grid_qkv: Vec::new(),
                grid_gu: Vec::new(),
                grid_o: Vec::new(),
                grid_lm: 1,
                grid_qkv_p2: 1,
                grid_gu_p2: 1,
                nslabs_q: 1,
                nslabs_k: 1,
                nslabs_v: 1,
                nslabs_o: 1,
                nslabs_g: 1,
                nslabs_d: 1,
                pq: 0,
                pk: 0,
                pv: 0,
                po: 0,
                pg: 0,
                pu: 0,
                pd: 0,
                plm: 0,
                tables: 0,
                lm_table: 0,
            },
        }
    }

    /// Whether a fused step can be built from plans.
    pub fn can_fuse(jg: &Jgemm, plans: &DecodeGemmPlans) -> (b: bool)
        ensures
            b == fusable(*plans),
    {
        if plans.layers.len() == 0 {
            return false;
        }
        let l = &plans.layers[0];
        if !in_extent(&l.q) || !in_extent(&l.k) || !in_extent(&l.v) || !in_extent(&l.o)
            || !in_extent(&l.gate) || !in_extent(&l.up) || !in_extent(&l.down) || !in_extent(
            &plans.lm_head,
        ) {
            return false;
        }
        let (_, gate) = jg.shape(l.gate.n, l.gate.k);
        let (_, up) = jg.shape(l.up.n, l.up.k);
        let (_, head) = jg.shape(plans.lm_head.n, plans.lm_head.k);
        l.up.n == l.gate.n && l.down.n == l.o.n && up == gate && head == 1
    }

    /// Bytes of partial sums and of the table; `Fatal` where the merged kernel
    /// cannot serve the shapes.
    pub fn plan_sizes(jg: &Jgemm, plans: &DecodeGemmPlans) -> (r: Result<FusedSizes, LaunchError>)
        requires
            fusable(*plans),
            plans.layers@.len() * 7 * PLAN_ROW_BYTES + PLAN_ROW_BYTES <= u64::MAX,
        ensures
            r is Ok <==> merge_is_valid(plans.layers@[0].down),
            r is Ok ==> r->Ok_0.partials == segments(plans.layers@[0], plans.lm_head).total * 4,
            r is Ok ==> r->Ok_0.tables == (plans.layers@.len() * 7 + 1) * PLAN_ROW_BYTES,
            r is Err ==> r->Err_0 == LaunchError::Fatal,
    {
        if !merge_check(jg, &plans.layers[0].down) {
            return Err(LaunchError::Fatal);
        }
        let w = seg_words(jg, plans);
        proof {
            lemma_segments(*plans);
        }
        Ok(
            FusedSizes {
                partials: w.total * 4,
                tables: (plans.layers.len() as u64 * 7 + 1) * PLAN_ROW_BYTES,
            },
        )
    }

    /// Builds the geometry over partial sums at `base` and a table at `tables`,
    /// and returns the rows of the table.
    #[verifier::rlimit(60)]
    pub fn build_plans(&mut self, jg: &Jgemm, plans: &DecodeGemmPlans, base: u64, tables: u64) -> (r:
        Result<Vec<PlanRow>, LaunchError>)
        requires
            fusable(*plans),
            base + segments(plans.layers@[0], plans.lm_head).total * 4 <= u64::MAX,
            tables + (plans.layers@.len() * 7 + 1) * PLAN_ROW_BYTES <= u64::MAX,
        ensures
            r is Ok <==> merge_is_valid(plans.layers@[0].down),
            r is Ok ==> r->Ok_0@ == table_rows(*plans, base),
            r is Ok ==> geom_of(final(self).geom, *plans, base, tables) && final(self).dev == old(
                self,
            ).dev,
            r is Err ==> r->Err_0 == LaunchError::Fatal && *final(self) == *old(self),
    {
        let l = &plans.layers[0];
        if !merge_check(jg, &l.down) {
            return Err(LaunchError::Fatal);
        }
        proof {
            lemma_segments(*plans);
            lemma_seg(l.q);
            lemma_seg(l.k);
            lemma_seg(l.v);
            lemma_seg(l.o);
            lemma_seg(l.gate);
            lemma_seg(l.up);
            lemma_seg(l.down);
            lemma_seg(plans.lm_head);
        }
        let w = seg_words(jg, plans);
        let (ncols_q, nslabs_q) = jg.shape(l.q.n, l.q.k);
        let (ncols_k, nslabs_k) = jg.shape(l.k.n, l.k.k);
        let (ncols_v, nslabs_v) = jg.shape(l.v.n, l.v.k);
        let (_, nslabs_o) = jg.shape(l.o.n, l.o.k);
        let (_, nslabs_g) = jg.shape(l.gate.n, l.gate.k);
        let (_, nslabs_d) = jg.shape(l.down.n, l.down.k);
        let (ncols_lm, _) = jg.shape(plans.lm_head.n, plans.lm_head.k);
        let b_q: u32 = tile_count(jg, &l.q);
        let b_k: u32 = b_q + tile_count(jg, &l.k);
        let b_v: u32 = b_k + tile_count(jg, &l.v);
        let b_o: u32 = tile_count(jg, &l.o);
        let b_g: u32 = tile_count(jg, &l.gate);
        let b_d: u32 = tile_count(jg, &l.down);
        let ghost s = segments(*l, plans.lm_head);
        let (pq, pk, pv) = (base, base + w.k * 4, base + w.v * 4);
        let (po, pg, pu) = (base + w.o * 4, base + w.g * 4, base + w.u * 4);
        let (pd, plm) = (base + w.d * 4, base + w.lm * 4);
        let mut rows: Vec<PlanRow> = Vec::new();
        let mut grid_qkv: Vec<u32> = Vec::new();
        let mut grid_gu: Vec<u32> = Vec::new();
        let mut grid_o: Vec<u32> = Vec::new();
        let mut i: usize = 0;
        while i < plans.layers.len()
            invariant
                i <= plans.layers.len(),
                fusable(*plans),
                *l == plans.layers@[0],
                s == segments(*l, plans.lm_head),
                pq == base + s.q * 4,
                pk == base + s.k * 4,
                pv == base + s.v * 4,
                po == base + s.o * 4,
                pg == base + s.g * 4,
                pu == base + s.u * 4,
                pd == base + s.d * 4,
                b_q == tiles(l.q),
                b_k == tiles(l.q) + tiles(l.k),
                b_v == tiles(l.q) + tiles(l.k) + tiles(l.v),
                b_o == tiles(l.o),
                b_g == tiles(l.gate),
                b_k <= 2 * (192 + 0x100_0000),
                b_g <= 192 + 0x100_0000,
                nslabs_q == shape_slabs(l.q.n, l.q.k),
                nslabs_k == shape_slabs(l.k.n, l.k.k),
                nslabs_v == shape_slabs(l.v.n, l.v.k),
                nslabs_o == shape_slabs(l.o.n, l.o.k),
                nslabs_g == shape_slabs(l.gate.n, l.gate.k),
                nslabs_d == shape_slabs(l.down.n, l.down.k),
                nslabs_q <= 192,
                nslabs_k <= 192,
                nslabs_v <= 192,
                nslabs_o <= 192,
                nslabs_g <= 192,
                nslabs_d <= 192,
                rows@ == rows_of_layers(*plans, base, i as nat),
                grid_qkv@ == Seq::new(
                    i as nat,
                    |j: int| (tiles(l.q) + tiles(l.k) + tiles(l.v)) as u32,
                ),
                grid_gu@ == Seq::new(i as nat, |j: int| (2 * tiles(l.gate)) as u32),
                grid_o@ == Seq::new(i as nat, |j: int| tiles(l.o) as u32),
            decreases plans.layers.len() - i,
        {
            let own = &plans.layers[i];
            let ghost before = rows@;
            rows.push(row(&own.q, &l.q, pq, nslabs_q, 0));
            rows.push(row(&own.k, &l.k, pk, nslabs_k, b_q));
            rows.push(row(&own.v, &l.v, pv, nslabs_v, b_k));
            rows.push(row(&own.o, &l.o, po, nslabs_o, 0));
            rows.push(row(&own.gate, &l.gate, pg, nslabs_g, 0));
            rows.push(row(&own.up, &l.up, pu, nslabs_g, b_g));
            rows.push(row(&own.down, &l.down, pd, nslabs_d, 0));
            grid_qkv.push(b_v);
            grid_gu.push(b_g + b_g);
            grid_o.push(b_o);
            proof {
                assert(rows@ =~= before + layer_rows(*own, *l, plans.lm_head, base));
                assert(grid_qkv@ =~= Seq::new(
                    (i + 1) as nat,
                    |j: int| (tiles(l.q) + tiles(l.k) + tiles(l.v)) as u32,
                ));
                assert(grid_gu@ =~= Seq::new((i + 1) as nat, |j: int| (2 * tiles(l.gate)) as u32));
                assert(grid_o@ =~= Seq::new((i + 1) as nat, |j: int| tiles(l.o) as u32));
            }
            i = i + 1;
        }
        rows.push(row(&plans.lm_head, &plans.lm_head, plm, 1, 0));
        self.geom = FusedGeom {
            grid_qkv,
            grid_gu,
            grid_o,
            grid_lm: ncols_lm,
            grid_qkv_p2: ncols_q + ncols_k + ncols_v,
            grid_gu_p2: b_d,
            nslabs_q: nslabs_q as i32,
            nslabs_k: nslabs_k as i32,
            nslabs_v: nslabs_v as i32,
            nslabs_o: nslabs_o as i32,
            nslabs_g: nslabs_g as i32,
            nslabs_d: nslabs_d as i32,
            pq,
            pk,
            pv,
            po,
            pg,
            pu,
            pd,
            plm,
            tables,
            lm_table: tables + plans.layers.len() as u64 * 7 * PLAN_ROW_BYTES,
        };
        Ok(rows)
    }

    /// The geometry of the step.
    pub fn geom(&self) -> (g: &FusedGeom)
        ensures
            *g == self.geom,
    {
        &self.geom
    }

    /// First phase of `nplans` products from `table` on.
    pub fn launch_p1(&self, stream: &CudaStream, table: u64, nplans: u32, grid: u32) -> (l: Launch)
        ensures
            l@ == p1((Queue { dev: self.dev, stream: *stream }), table, nplans, grid),
    {
        launch_rows(
            Queue { dev: self.dev, stream: *stream },
            Kernel::GemvM1Multi,
            grid,
            256,
            0,
            vec![table, nplans as u64],
        )
    }

    /// Second phase of query, key and value.  The norm weights are null where
    /// `hn` is zero.
    pub fn launch_p2_qkv(
        &self,
        stream: &CudaStream,
        pq: u64,
        pk: u64,
        pv: u64,
        q16: u64,
        k16: u64,
        v16: u64,
        wq: u64,
        wk: u64,
        nq: u32,
        nk: u32,
        nv: u32,
        nslabs_q: i32,
        nslabs_k: i32,
        nslabs_v: i32,
        d: u32,
        half: u32,
        pos: u32,
        eta: u32,
        scale_q: u32,
        scale_k: u32,
        eps: u32,
        hn: u32,
        grid: u32,
    ) -> (l: Launch)
        ensures
            l@ == p2_qkv(
                (Queue { dev: self.dev, stream: *stream }),
                pq,
                pk,
                pv,
                q16,
                k16,
                v16,
                wq,
                wk,
                nq,
                nk,
                nv,
                nslabs_q,
                nslabs_k,
                nslabs_v,
                d,
                half,
                pos,
                eta,
                scale_q,
                scale_k,
                eps,
                hn,
                grid,
            ),
    {
        launch_rows(
            Queue { dev: self.dev, stream: *stream },
            Kernel::GemvP2QkvCastHnRope,
            grid,
            256,
            0,
            vec![
                pq,
                pk,
                pv,
                q16,
                k16,
                v16,
                wq,
                wk,
                nq as u64,
                nk as u64,
                nv as u64,
                (#[verifier::truncate] (nslabs_q as u32)) as u64,
                (#[verifier::truncate] (nslabs_k as u32)) as u64,
                (#[verifier::truncate] (nslabs_v as u32)) as u64,
                d as u64,
                half as u64,
                pos as u64,
                eta as u64,
                scale_q as u64,
                scale_k as u64,
                eps as u64,
                hn as u64,
            ],
        )
    }

    /// Second phase of gate and up with the first phase of down; `table` is the
    /// gate row.
    pub fn launch_p2_gu_d(&self, stream: &CudaStream, table: u64, grid: u32) -> (l: Launch)
        ensures
            l@ == p2_gu_d((Queue { dev: self.dev, stream: *stream }), table, grid),
    {
        launch_rows(
            Queue { dev: self.dev, stream: *stream },
            Kernel::GemvP2GuP1dSwiglu,
            grid,
            256,
            0,
            vec![table, 3],
        )
    }

    /// Second phase of a product, residual add and RMSNorm.
    pub fn launch_p2_add_rms(
        &self,
        stream: &CudaStream,
        partials: u64,
        x: u64,
        out: u64,
        w: u64,
        n: u32,
        nslabs: i32,
        eps: u32,
    ) -> (l: Launch)
        ensures
            l@ == p2_add_rms(
                (Queue { dev: self.dev, stream: *stream }),
                partials,
                x,
                out,
                w,
                n,
                nslabs,
                eps,
            ),
    {
        launch_rows(
            Queue { dev: self.dev, stream: *stream },
            Kernel::GemvP2AddRms,
            1,
            256,
            0,
            vec![
                partials,
                x,
                out,
                w,
                n as u64,
                (#[verifier::truncate] (nslabs as u32)) as u64,
                eps as u64,
            ],
        )
    }

    /// Second phase of the output head.
    pub fn launch_reduce(
        &self,
        stream: &CudaStream,
        partials: u64,
        c: u64,
        n: u32,
        nslabs: i32,
        grid: u32,
    ) -> (l: Launch)
        ensures
            l@ == reduce(
                (Queue { dev: self.dev, stream: *stream }),
                partials,
                c,
                n,
                nslabs,
                grid,
            ),
    {
        launch_rows(
            Queue { dev: self.dev, stream: *stream },
            Kernel::GemvM1Reduce,
            grid,
            256,
            0,
            vec![partials, c, n as u64, (#[verifier::truncate] (nslabs as u32)) as u64],
        )
    }
}

fn row(own: &GemmPlan, p: &GemmPlan, partials: u64, nslabs: u32, col_off: u32) -> (r: PlanRow)
    requires
        nslabs <= i32::MAX,
        col_off <= i32::MAX,
    ensures
        r == (PlanRow {
            a: own.a,
            b: own.b,
            partials,
            n: p.n,
            k: p.k,
            nslabs: nslabs as i32,
            col_off: col_off as i32,
        }),
{
    PlanRow {
        a: own.a,
        b: own.b,
        partials,
        n: p.n,
        k: p.k,
        nslabs: nslabs as i32,
        col_off: col_off as i32,
    }
}

/// A row of the table takes `PLAN_ROW_BYTES` bytes.
pub proof fn row_has_fixed_size(r: PlanRow)
    ensures
        row_bytes(r).len() == PLAN_ROW_BYTES,
{
    lemma_le_bytes_len(r.a as nat, 8);
    lemma_le_bytes_len(r.b as nat, 8);
    lemma_le_bytes_len(r.partials as nat, 8);
    lemma_le_bytes_len(int_word(r.n) as nat, 4);
    lemma_le_bytes_len(int_word(r.k) as nat, 4);
    lemma_le_bytes_len(int_word(r.nslabs) as nat, 4);
    lemma_le_bytes_len(int_word(r.col_off) as nat, 4);
}

/// The partial sums of two products never overlap, and all of them together fill
/// the shared buffer.
pub proof fn segments_partition_the_buffer(p: DecodeGemmPlans)
    requires
        fusable(p),
    ensures
        ({
            let l = p.layers@[0];
            let s = segments(l, p.lm_head);
            &&& s.q == 0 && s.q + seg_len(l.q) == s.k
            &&& s.k + seg_len(l.k) == s.v
            &&& s.v + seg_len(l.v) == s.o
            &&& s.o + seg_len(l.o) == s.g
            &&& s.g + seg_len(l.gate) == s.u
            &&& s.u + seg_len(l.up) == s.d
            &&& s.d + seg_len(l.down) == s.lm
            &&& s.lm + seg_len(p.lm_head) == s.total
            &&& s.q < s.k < s.v < s.o < s.g < s.u < s.d < s.lm < s.total
        }),
{
    lemma_segments(p);
    let n = p.lm_head.n as int;
    assert(n * 1 == n);
}

/// Where the merge is valid, every slab of the second product lies inside the
/// stripe of 256 positions that its own block has computed, and the stripes of
/// the slabs cover the whole reduction.
pub proof fn merged_slabs_stay_in_their_stripe(down: GemmPlan, slab: int)
    requires
        extents_ok(down),
        merge_is_valid(down),
        0 <= slab < shape_slabs(down.n, down.k),
    ensures
        ({
            let s = slab_len(down);
            let lo = slab / (256int / s) * 256;
            &&& lo <= slab * s
            &&& slab * s + s <= lo + 256
        }),
        shape_slabs(down.n, down.k) / (256int / slab_len(down)) * 256 >= down.k,
{
    let n = shape_slabs(down.n, down.k);
    lemma_seg(down);
    lemma_ceil_div(down.k as int, n);
    let s = slab_len(down);
    let per = 256int / s;
    vstd::arithmetic::div_mod::lemma_fundamental_div_mod(256, s);
    assert(s * per == 256);
    assert(per >= 1) by (nonlinear_arith)
        requires
            s * per == 256,
            s >= 1,
    ;
    vstd::arithmetic::div_mod::lemma_fundamental_div_mod(slab, per);
    let q = slab / per;
    let r = slab % per;
    assert(slab * s == q * 256 + r * s) by (nonlinear_arith)
        requires
            slab == per * q + r,
            s * per == 256,
    ;
    assert(0 <= r * s && r * s + s <= 256) by (nonlinear_arith)
        requires
            0 <= r < per,
            s * per == 256,
            s >= 1,
    ;
}

/// The blocks of a shared grid belong to its products one after the other: each
/// product's blocks start where those before it end.
pub proof fn shared_grids_are_partitioned(p: DecodeGemmPlans, base: u64, li: int)
    requires
        fusable(p),
        0 <= li < p.layers@.len(),
    ensures
        ({
            let l = p.layers@[0];
            let r = layer_rows(p.layers@[li], l, p.lm_head, base);
            &&& r[0].col_off == 0
            &&& r[1].col_off == r[0].col_off + tiles(l.q)
            &&& r[2].col_off == r[1].col_off + tiles(l.k)
            &&& r[4].col_off == 0
            &&& r[5].col_off == r[4].col_off + tiles(l.gate)
        }),
{
    let l = p.layers@[0];
    lemma_seg(l.q);
    lemma_seg(l.k);
    lemma_seg(l.gate);
}

} // verus!
