//! That every form in which an engine tries a step computes the model's step, and that
//! whatever runs a product computes it.

use vstd::prelude::*;

use crate::batch_law::row_at;
use crate::batch_step::BatchGemm;
use crate::engine::{runs_batch_gemm, runs_gemm, DecodePath, Engine, GemmAction};
use crate::fused::{fusable, geom_of, segments, table_rows};
use crate::fused_law::{
    a_fused_step_computes_the_model, a_layer_fused_step_computes_the_model, consts_of, fused_after,
    fused_rows, has_table, layer_after, Table,
};
use crate::gemm::{
    call_of, col_major_swap, lemma_shape, row_major, shape_cols, shape_slabs, ComputeType, DataType,
    GemmCall, Jgemm, Transpose,
};
use crate::gemm_law::{phased, two_phases_compute_every_product, two_phases_compute_the_product};
use crate::launch::Queue;
use crate::meaning::{after, one, product, Memory};
use crate::parity_law::{
    a_parity_step_computes_the_model, after32, heads_apart, heads_of, step32_rows,
};
use crate::prefill_law::is_rows_product;
use crate::reference::apart;
use crate::split::StepMode;
use crate::split_law::{
    a_split_step_computes_the_model, ask_of, entry, has_pages, has_room, net_of, step_rows, under,
};
use crate::step::StepOpV;

verus! {

/// What a program does that is launched as a form of the step: `lost` says whether launches
/// of flash attention fail, and `t` are the rows of the plan table.
pub open spec fn served(
    e: Engine,
    path: DecodePath,
    m: Memory,
    ops: Seq<StepOpV>,
    t: Table,
    lost: bool,
) -> Memory {
    let c = e.c;
    match path {
        DecodePath::Parity => after32(m, ops, under(c, lost), heads_of(c)),
        DecodePath::LayerFused => layer_after(
            m,
            ops,
            under(c, false),
            t,
            consts_of(c, e.layer_fused->0, e.layers@),
        ),
        DecodePath::Fused => fused_after(m, ops, under(c, false), t),
        _ => after(m, ops, under(c, lost)),
    }
}

/// Whether the fused forms have their plan table, with partial sums at `base` and the table
/// at `tables`, and their buffers.
pub open spec fn has_fused(e: Engine, t: Table, base: u64, tables: u64) -> bool {
    let (c, p, g) = (e.c, e.plans, e.fused->0.geom);
    &&& fusable(p)
    &&& geom_of(g, p, base, tables)
    &&& base + segments(p.layers@[0], p.lm_head).total * 4 <= u64::MAX
    &&& tables + (e.layers@.len() * 7 + 1) * 40 <= u64::MAX
    &&& has_table(t, tables as int, table_rows(p, base))
    &&& forall|li: int|
        0 <= li < e.layers@.len() ==> ((#[trigger] e.layers@[li]).q_norm is Some
            && e.layers@[li].k_norm is Some) == c.cfg.head_norm
    &&& apart(fused_rows(c, g))
}

/// Whether the forms that are not fused have their buffers.
pub open spec fn has_buffers(e: Engine) -> bool {
    let c = e.c;
    if e.switches.parity_f32 {
        apart(step32_rows(c)) && heads_apart(heads_of(c)) && c.cfg.head_dim <= 2048
    } else {
        apart(step_rows(c))
    }
}

/// Whichever form a step is tried in, it computes the same: the logits of the token at its
/// position, the token's key and value of every layer in the slots of that position, and
/// in a trace the rows of the model.  A form that keeps less than is asked for is not
/// tried.  On the `f32` tier the step is the model's without casts, and keeps nothing.
pub proof fn every_form_of_a_step_computes_the_model(
    e: Engine,
    path: DecodePath,
    m: Memory,
    t: Table,
    base: u64,
    tables: u64,
    token: u32,
    pos: usize,
    kv_len: usize,
    mode: StepMode,
    lost: bool,
)
    requires
        e.wf(),
        e.attempts(mode).contains(path),
        path != DecodePath::Declared,
        e.c.takes_pos(pos),
        kv_len == pos + 1,
        kv_len <= u32::MAX,
        has_room(e.c, kv_len, mode.flash_off, lost),
        has_pages(m.words, e.c),
        forall|p: int|
            0 <= p < e.c.cfg.n_layer * e.c.pp ==> #[trigger] entry(e.c, p) != e.c.b.lens.ptr,
        has_buffers(e),
        e.fused is Some ==> has_fused(e, t, base, tables),
    ensures
        ({
            let (net, ask) = (
                net_of(e.c, e.layers@, e.lm_head),
                ask_of(e.c, token, pos, kv_len),
            );
            let z = served(e, path, m, e.program_of(path, token, pos, kv_len, mode), t, lost);
            let n = e.layers@.len();
            if e.switches.parity_f32 {
                &&& z.at(e.c.b.logits.ptr as int) == net.logits32(ask)
                &&& z.cache == m.cache + net.slots32(ask, n)
            } else {
                &&& z.at(e.c.b.logits.ptr as int) == net.logits(ask)
                &&& z.cache == m.cache + net.slots(ask, n)
                &&& z.kept == m.kept + net.kept(ask, n, mode.detail, mode.trace)
            }
        }),
{
    let (c, l, h, p) = (e.c, e.layers@, e.lm_head, e.plans);
    let s = e.attempts(mode);
    let i = choose|i: int| 0 <= i < s.len() && s[i] == path;
    if e.switches.parity_f32 {
        assert(path == DecodePath::Parity);
        let f = mode.flash_off;
        a_parity_step_computes_the_model(m, c, l, h, p, token, pos, kv_len, f, lost);
    } else {
        match path {
            DecodePath::LayerFused => {
                let (g, lf) = (e.fused->0.geom, e.layer_fused->0);
                a_layer_fused_step_computes_the_model(
                    m,
                    c,
                    g,
                    lf,
                    l,
                    h,
                    p,
                    base,
                    tables,
                    t,
                    token,
                    pos,
                    kv_len,
                    mode.trace,
                );
            },
            DecodePath::Fused => {
                let g = e.fused->0.geom;
                a_fused_step_computes_the_model(
                    m,
                    c,
                    g,
                    l,
                    h,
                    p,
                    base,
                    tables,
                    t,
                    token,
                    pos,
                    kv_len,
                    mode,
                );
            },
            DecodePath::Split => {
                a_split_step_computes_the_model(
                    m,
                    c,
                    l,
                    h,
                    p,
                    token,
                    pos,
                    kv_len,
                    mode,
                    lost,
                );
            },
            _ => {},
        }
    }
}

/// What a call does to row `i` of its operands, where these are rows and its matrix has rows
/// that lie one after the other: either as it stands, with one row, or with its operands
/// swapped.
pub open spec fn called(m: Memory, g: GemmCall, on: Queue, i: int) -> Memory {
    let one_row = g.m == 1 && g.trans_a == Transpose::T && g.a.ld == g.k && g.trans_b
        == Transpose::T && g.b.ld == g.n && g.c.ld == 1;
    let halves = g.a.dtype == DataType::F16 && g.b.dtype == DataType::F16 && g.c.dtype
        == DataType::F32 && g.compute == ComputeType::F32 && g.alpha_bits == one() && g.beta_bits
        == 0;
    if g.on == on && halves && one_row && i == 0 {
        m.put(
            g.c.ptr as int,
            product(m.at(g.a.ptr as int), g.b.ptr as int, g.n as int, g.k as int),
        )
    } else if is_rows_product(g, g.n as int) && g.on == on && 0 <= i < g.n {
        m.put(
            row_at(g.c.ptr as int, i, g.m as int, 4),
            product(
                m.at(row_at(g.b.ptr as int, i, g.k as int, 2)),
                g.a.ptr as int,
                g.m as int,
                g.k as int,
            ),
        )
    } else {
        Memory::lost()
    }
}

/// What an action of a product does to row `i`, once its partial sums are there.
pub open spec fn acted(m: Memory, r: GemmAction, on: Queue, i: int) -> Memory {
    match r {
        GemmAction::TwoPhase { first, second, .. } => phased(
            phased(m, first@, on, i),
            second@,
            on,
            i,
        ),
        GemmAction::Grow { fallback, .. } => called(m, fallback, on, i),
        GemmAction::Cublas(call) => called(m, call, on, i),
    }
}

/// Whatever runs a product of a step computes it, and so does what it falls back to; two
/// launches have the partial sums that they need.
pub proof fn every_action_computes_the_product(
    m: Memory,
    r: GemmAction,
    jg: Option<Jgemm>,
    on: Queue,
    a: u64,
    b: u64,
    c: u64,
    n: usize,
    k: usize,
)
    requires
        0 < n < 0x4000_0000,
        0 < k <= i32::MAX,
        runs_gemm(r, jg, on, row_major(DataType::F16, a, b, c, 1, n, k)),
    ensures
        ({
            let p = product(m.at(a as int), b as int, n as int, k as int);
            &&& acted(m, r, on, 0).at(c as int) == p
            &&& r is TwoPhase ==> called(m, r->TwoPhase_fallback, on, 0).at(c as int) == p
            &&& r is TwoPhase ==> jg->0.partials is Some && n * r->first@.args[5] * 4
                <= jg->0.partials->0.cap && r->first@.args[2] == jg->0.partials->0.ptr
        }),
{
    let g = row_major(DataType::F16, a, b, c, 1, n, k);
    lemma_shape(n as i32, k as i32);
    if r is TwoPhase {
        two_phases_compute_the_product(m, on, g, jg->0.partials->0.ptr);
    }
}

/// Whatever runs a product of every row of a batch computes each of them, and so does what
/// it falls back to.
pub proof fn every_action_computes_every_product(
    m: Memory,
    r: GemmAction,
    jg: Option<Jgemm>,
    on: Queue,
    g: BatchGemm,
    i: int,
)
    requires
        0 < g.n < 0x4000_0000,
        0 < g.k <= i32::MAX,
        g.m <= i32::MAX,
        g.m * (shape_cols(g.n as i32) * shape_slabs(g.n as i32, g.k as i32)) <= u32::MAX,
        0 <= i < g.m,
        runs_batch_gemm(r, jg, on, g),
    ensures
        ({
            let at = row_at(g.c as int, i, g.n as int, 4);
            let x = m.at(row_at(g.a as int, i, g.k as int, 2));
            let p = product(x, g.w as int, g.n as int, g.k as int);
            &&& acted(m, r, on, i).at(at) == p
            &&& r is TwoPhase ==> called(m, r->TwoPhase_fallback, on, i).at(at) == p
        }),
{
    let call = call_of(on, col_major_swap(g.a, g.w, g.c, g.m, g.n, g.k));
    assert(is_rows_product(call, g.m as int));
    assert(called(m, call, on, i).at(row_at(g.c as int, i, g.n as int, 4)) == product(
        m.at(row_at(g.a as int, i, g.k as int, 2)),
        g.w as int,
        g.n as int,
        g.k as int,
    ));
    if r is TwoPhase {
        two_phases_compute_every_product(
            m,
            on,
            g.a,
            g.w,
            g.c,
            jg->0.partials->0.ptr,
            g.m,
            g.n,
            g.k,
            i,
        );
    }
}

} // verus!
