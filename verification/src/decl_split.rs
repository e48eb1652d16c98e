//! The graph declaration of the step of separate launches.

use vstd::prelude::*;

use crate::buffer::DeviceBuffer;
use crate::decl::{
    all_at_step, all_custom, at_step, declared_refresh_is_exact, fixed, fixed_gemm, gemm_decl,
    lemma_all_custom_push, lemma_at_step_push, lemma_fixed_at_step, lemma_gemm_decl_at_step,
    lemma_marked_at_step, lemma_nodes_push, lemma_slots_fixed, lemma_slots_gemm, lemma_slots_marked,
    mark_kv, mark_pos, mark_token, marked, node_of, nodes_of, refresh_of, slots_of, GraphStepDecl,
    Marks, NodeT, NodeV, StepVars,
};
use crate::decl_build::DeclBuilder;
use crate::decode::flash_fits;
use crate::gemm::{served, GemmPlan, Jgemm};
use crate::model::{LayerWeights, BLOCK_LEN};
use crate::plans::{narrow, narrow_layer, plans_of, DecodeGemmPlans, LayerGemmPlans};
use crate::split::{
    attn_ops, epilogue, ffn_ops, head_norm_ops, l_add, l_add_rms, l_cast_k, l_cast_q, l_cast_v,
    l_flash, l_gather, l_kv_write, l_norm_k, l_norm_q, l_rms, l_rope_k, l_rope_q, l_swiglu,
    layers_ops, norm_ops, prologue, qkv_ops, split_ops, StepMode,
};
use crate::step::{start, StepCtx, StepKernels, StepNums, StepOpV, SEG_ATTN};

verus! {

/// The norm before attention and the projections.
pub open spec fn qkv_decl(
    s: Seq<NodeT>,
    c: StepCtx,
    w: LayerWeights,
    pl: LayerGemmPlans,
    jg: Option<u64>,
) -> Seq<NodeT> {
    let s = s.push(fixed(l_rms(c, w.attn_norm.ptr)));
    let s = gemm_decl(s, c.on, jg, pl.q).push(fixed(l_cast_q(c)));
    let s = gemm_decl(s, c.on, jg, pl.k).push(fixed(l_cast_k(c)));
    gemm_decl(s, c.on, jg, pl.v).push(fixed(l_cast_v(c)))
}

pub open spec fn head_norm_decl(s: Seq<NodeT>, c: StepCtx, w: LayerWeights) -> Seq<NodeT> {
    match (w.q_norm, w.k_norm) {
        (Some(qn), Some(kn)) => s.push(fixed(l_norm_q(c, qn.ptr))).push(
            fixed(l_norm_k(c, kn.ptr)),
        ),
        _ => s,
    }
}

/// Rotary embedding at the step's position, the write of its cache slot, and
/// attention.
pub open spec fn attn_decl(s: Seq<NodeT>, c: StepCtx, w: LayerWeights, li: nat) -> Seq<NodeT> {
    let s = head_norm_decl(s, c, w);
    let s = s.push(marked(l_rope_q(c, 0), mark_pos(3), li));
    let s = s.push(marked(l_rope_k(c, 0), mark_pos(3), li));
    let s = s.push(marked(l_kv_write(c, 0, 0), mark_kv(3, 4), li));
    s.push(fixed(l_flash(c, li as int)))
}

/// The attention output and the feed-forward half.
pub open spec fn ffn_decl(
    s: Seq<NodeT>,
    c: StepCtx,
    w: LayerWeights,
    pl: LayerGemmPlans,
    jg: Option<u64>,
) -> Seq<NodeT> {
    let s = gemm_decl(s, c.on, jg, pl.o).push(fixed(l_add_rms(c, w.ffn_norm.ptr)));
    let s = gemm_decl(gemm_decl(s, c.on, jg, pl.gate), c.on, jg, pl.up);
    let s = gemm_decl(s.push(fixed(l_swiglu(c))), c.on, jg, pl.down);
    s.push(fixed(l_add(c)))
}

/// The first `n` layers.
pub open spec fn layers_decl(
    s: Seq<NodeT>,
    c: StepCtx,
    layers: Seq<LayerWeights>,
    plans: Seq<LayerGemmPlans>,
    n: nat,
    jg: Option<u64>,
) -> Seq<NodeT>
    decreases n,
{
    if n == 0 {
        s
    } else {
        let s = layers_decl(s, c, layers, plans, (n - 1) as nat, jg);
        let s = qkv_decl(s, c, layers[n - 1], plans[n - 1], jg);
        let s = attn_decl(s, c, layers[n - 1], (n - 1) as nat);
        ffn_decl(s, c, layers[n - 1], plans[n - 1], jg)
    }
}

/// The nodes of the whole step.
pub open spec fn split_decl(
    c: StepCtx,
    layers: Seq<LayerWeights>,
    plans: DecodeGemmPlans,
    jg: Option<u64>,
) -> Seq<NodeT> {
    let s = seq![marked(l_gather(c, 0), mark_token(2), 0)];
    let s = layers_decl(s, c, layers, plans.layers@, layers.len(), jg);
    gemm_decl(s.push(fixed(l_rms(c, c.final_norm))), c.on, jg, plans.lm_head)
}

fn declare_qkv(
    d: &mut DeclBuilder,
    c: &StepCtx,
    k: &StepKernels,
    n: &StepNums,
    w: &LayerWeights,
    pl: &LayerGemmPlans,
    jg: &Option<Jgemm>,
    partials: Option<u64>,
)
    requires
        old(d).wf(),
        *n == c.nums_of(),
        narrow_layer(*pl),
        partials is Some ==> *jg is Some && jg->0.dev == c.on.dev,
    ensures
        final(d).wf(),
        final(d).nodes@ == qkv_decl(old(d).nodes@, *c, *w, *pl, partials),
        final(d).has_token == old(d).has_token,
        final(d).rope_q@.len() == old(d).rope_q@.len(),
        final(d).rope_k@.len() == old(d).rope_k@.len(),
        final(d).phys@.len() == old(d).phys@.len(),
{
    d.launch(&k.rms(c, n, w.attn_norm.ptr));
    d.gemm(c.on, jg, partials, &pl.q);
    d.launch(&k.cast_q(c, n));
    d.gemm(c.on, jg, partials, &pl.k);
    d.launch(&k.cast_k(c, n));
    d.gemm(c.on, jg, partials, &pl.v);
    d.launch(&k.cast_v(c, n));
}

fn declare_attn(
    d: &mut DeclBuilder,
    c: &StepCtx,
    k: &StepKernels,
    n: &StepNums,
    w: &LayerWeights,
    li: usize,
)
    requires
        old(d).wf(),
        c.wf(),
        k.launch_on(*c),
        *n == c.nums_of(),
        (n.d + n.max_kv) * 4 <= u32::MAX,
        n.kv_heads * n.d <= u32::MAX,
        li < c.cfg.n_layer,
        old(d).rope_q@.len() == li,
        old(d).rope_k@.len() == li,
        old(d).phys@.len() == li,
    ensures
        final(d).wf(),
        final(d).nodes@ == attn_decl(old(d).nodes@, *c, *w, li as nat),
        final(d).has_token == old(d).has_token,
        final(d).rope_q@.len() == li + 1,
        final(d).rope_k@.len() == li + 1,
        final(d).phys@.len() == li + 1,
{
    if let Some(qn) = w.q_norm {
        if let Some(kn) = w.k_norm {
            d.launch(&k.norm_q(c, n, qn.ptr));
            d.launch(&k.norm_k(c, n, kn.ptr));
        }
    }
    let pos = Marks { token: None, pos: Some(3), kv: None };
    d.launch_marked(&k.rope_q(c, n, 0), pos, true, false);
    d.launch_marked(&k.rope_k(c, n, 0), pos, false, true);
    let kv = Marks { token: None, pos: None, kv: Some((3, 4)) };
    d.launch_marked(&k.write_slot(c, n, 0, 0), kv, false, false);
    let flash = k.decode.declare_decode_step_gqa_flash(
        c.on.dev,
        c.b.q.ptr,
        c.layer_pages(li),
        c.kv,
        c.b.lens.ptr,
        c.b.attn.ptr,
        1,
        n.q_heads,
        n.d,
        BLOCK_LEN as u32,
        n.ratio,
        n.kv_heads,
        n.max_kv,
        n.total_pages,
        1,
    );
    d.launch(&flash);
}

fn declare_ffn(
    d: &mut DeclBuilder,
    c: &StepCtx,
    k: &StepKernels,
    n: &StepNums,
    w: &LayerWeights,
    pl: &LayerGemmPlans,
    jg: &Option<Jgemm>,
    partials: Option<u64>,
)
    requires
        old(d).wf(),
        *n == c.nums_of(),
        narrow_layer(*pl),
        partials is Some ==> *jg is Some && jg->0.dev == c.on.dev,
    ensures
        final(d).wf(),
        final(d).nodes@ == ffn_decl(old(d).nodes@, *c, *w, *pl, partials),
        final(d).has_token == old(d).has_token,
        final(d).rope_q@.len() == old(d).rope_q@.len(),
        final(d).rope_k@.len() == old(d).rope_k@.len(),
        final(d).phys@.len() == old(d).phys@.len(),
{
    d.gemm(c.on, jg, partials, &pl.o);
    d.launch(&k.add_rms(c, n, w.ffn_norm.ptr));
    d.gemm(c.on, jg, partials, &pl.gate);
    d.gemm(c.on, jg, partials, &pl.up);
    d.launch(&k.swiglu(c, n));
    d.gemm(c.on, jg, partials, &pl.down);
    d.launch(&k.add(c, n));
}

impl GraphStepDecl {
    /// Declares the step of separate launches.  The two-phase kernels, where they
    /// are loaded, keep their partial sums at `partials`.
    pub fn build(
        c: &StepCtx,
        k: &StepKernels,
        layers: &Vec<LayerWeights>,
        plans: &DecodeGemmPlans,
        jg: &Option<Jgemm>,
        partials: Option<u64>,
    ) -> (d: GraphStepDecl)
        requires
            c.wf(),
            k.launch_on(*c),
            layers@.len() == c.cfg.n_layer,
            plans.layers@.len() == c.cfg.n_layer,
            narrow(*plans),
            partials is Some ==> *jg is Some && jg->0.dev == c.on.dev,
        ensures
            d.declares(split_decl(*c, layers@, *plans, partials)),
            d.cell_kv_phys@.len() == c.cfg.n_layer,
            d.refresh@.len() == 1 + 4 * layers@.len(),
            d.refresh@.no_duplicates(),
    {
        let n = c.nums();
        let mut d = DeclBuilder::new();
        let token = Marks { token: Some(2), pos: None, kv: None };
        d.launch_marked(&k.gather(c, &n, 0), token, false, false);
        let ghost s0 = d.nodes@;
        proof {
            assert(s0 =~= seq![marked(l_gather(*c, 0), mark_token(2), 0)]);
        }
        let mut li: usize = 0;
        while li < layers.len()
            invariant
                li <= layers.len(),
                c.wf(),
                k.launch_on(*c),
                n == c.nums_of(),
                (n.d + n.max_kv) * 4 <= u32::MAX,
                n.kv_heads * n.d <= u32::MAX,
                layers@.len() == c.cfg.n_layer,
                plans.layers@.len() == c.cfg.n_layer,
                narrow(*plans),
                partials is Some ==> *jg is Some && jg->0.dev == c.on.dev,
                d.wf(),
                d.has_token,
                d.rope_q@.len() == li,
                d.rope_k@.len() == li,
                d.phys@.len() == li,
                d.nodes@ == layers_decl(s0, *c, layers@, plans.layers@, li as nat, partials),
            decreases layers.len() - li,
        {
            let w = &layers[li];
            let pl = &plans.layers[li];
            declare_qkv(&mut d, c, k, &n, w, pl, jg, partials);
            declare_attn(&mut d, c, k, &n, w, li);
            declare_ffn(&mut d, c, k, &n, w, pl, jg, partials);
            li = li + 1;
        }
        d.launch(&k.rms(c, &n, c.final_norm));
        d.gemm(c.on, jg, partials, &plans.lm_head);
        let d = d.finish();
        proof {
            lemma_split_refresh(*c, layers@, *plans, partials);
            declared_refresh_is_exact(d, split_decl(*c, layers@, *plans, partials));
        }
        d
    }
}

proof fn lemma_qkv_refresh(
    t: Seq<NodeT>,
    c: StepCtx,
    w: LayerWeights,
    pl: LayerGemmPlans,
    jg: Option<u64>,
    last: bool,
)
    ensures
        slots_of(qkv_decl(t, c, w, pl, jg), last) == slots_of(t, last),
{
    broadcast use lemma_slots_fixed, lemma_slots_gemm;

}

proof fn lemma_ffn_refresh(
    t: Seq<NodeT>,
    c: StepCtx,
    w: LayerWeights,
    pl: LayerGemmPlans,
    jg: Option<u64>,
    last: bool,
)
    ensures
        slots_of(ffn_decl(t, c, w, pl, jg), last) == slots_of(t, last),
{
    broadcast use lemma_slots_fixed, lemma_slots_gemm;

}

proof fn lemma_attn_refresh(t: Seq<NodeT>, c: StepCtx, w: LayerWeights, li: nat)
    ensures
        ({
            let i = head_norm_decl(t, c, w).len();
            slots_of(attn_decl(t, c, w, li), false) == slots_of(t, false) + seq![
                (i as usize, 3usize),
                ((i + 1) as usize, 3usize),
                ((i + 2) as usize, 3usize),
                ((i + 2) as usize, 4usize),
            ]
        }),
        slots_of(attn_decl(t, c, w, li), true) == slots_of(t, true),
{
    let t1 = head_norm_decl(t, c, w);
    assert(slots_of(t1, false) == slots_of(t, false) && slots_of(t1, true) == slots_of(t, true)) by {
        broadcast use lemma_slots_fixed;

    }
    lemma_slots_marked(t1, l_rope_q(c, 0), mark_pos(3), li);
    let t2 = t1.push(marked(l_rope_q(c, 0), mark_pos(3), li));
    lemma_slots_marked(t2, l_rope_k(c, 0), mark_pos(3), li);
    let t3 = t2.push(marked(l_rope_k(c, 0), mark_pos(3), li));
    lemma_slots_marked(t3, l_kv_write(c, 0, 0), mark_kv(3, 4), li);
    let t4 = t3.push(marked(l_kv_write(c, 0, 0), mark_kv(3, 4), li));
    lemma_slots_fixed(t4, l_flash(c, li as int), false);
    lemma_slots_fixed(t4, l_flash(c, li as int), true);
    let i = t1.len();
    assert(slots_of(t4, false) =~= slots_of(t, false) + seq![
        (i as usize, 3usize),
        ((i + 1) as usize, 3usize),
        ((i + 2) as usize, 3usize),
        ((i + 2) as usize, 4usize),
    ]);
    assert(slots_of(t4, true) =~= slots_of(t, true));
}

proof fn lemma_layers_refresh(
    s: Seq<NodeT>,
    c: StepCtx,
    layers: Seq<LayerWeights>,
    plans: Seq<LayerGemmPlans>,
    n: nat,
    jg: Option<u64>,
)
    ensures
        slots_of(layers_decl(s, c, layers, plans, n, jg), false).len() == slots_of(s, false).len()
            + 4 * n,
        slots_of(layers_decl(s, c, layers, plans, n, jg), true) == slots_of(s, true),
    decreases n,
{
    if n > 0 {
        let i = (n - 1) as nat;
        lemma_layers_refresh(s, c, layers, plans, i, jg);
        let (w, pl) = (layers[n - 1], plans[n - 1]);
        let t1 = layers_decl(s, c, layers, plans, i, jg);
        lemma_qkv_refresh(t1, c, w, pl, jg, false);
        lemma_qkv_refresh(t1, c, w, pl, jg, true);
        let t2 = qkv_decl(t1, c, w, pl, jg);
        lemma_attn_refresh(t2, c, w, i);
        let t3 = attn_decl(t2, c, w, i);
        lemma_ffn_refresh(t3, c, w, pl, jg, false);
        lemma_ffn_refresh(t3, c, w, pl, jg, true);
    }
}

/// The step of separate launches changes one slot for the token, and on each layer two
/// for the position, one for the page and one for the place in it.
proof fn lemma_split_refresh(
    c: StepCtx,
    layers: Seq<LayerWeights>,
    plans: DecodeGemmPlans,
    jg: Option<u64>,
)
    ensures
        refresh_of(split_decl(c, layers, plans, jg)).len() == 1 + 4 * layers.len(),
{
    broadcast use lemma_slots_fixed, lemma_slots_gemm;

    let e = Seq::<NodeT>::empty();
    let s = seq![marked(l_gather(c, 0), mark_token(2), 0)];
    assert(s =~= e.push(marked(l_gather(c, 0), mark_token(2), 0)));
    lemma_slots_marked(e, l_gather(c, 0), mark_token(2), 0);
    lemma_layers_refresh(s, c, layers, plans.layers@, layers.len(), jg);
}

proof fn lemma_qkv_mirrors(
    t: Seq<NodeT>,
    o: Seq<StepOpV>,
    c: StepCtx,
    w: LayerWeights,
    pl: LayerGemmPlans,
    jg: Option<u64>,
    v: StepVars,
    detail: bool,
)
    requires
        all_at_step(t, v) == nodes_of(o, c.on, jg),
    ensures
        all_at_step(qkv_decl(t, c, w, pl, jg), v) == nodes_of(
            qkv_ops(norm_ops(o, c, w, detail), c, pl),
            c.on,
            jg,
        ),
{
    broadcast use lemma_nodes_push, lemma_at_step_push, lemma_fixed_at_step;

    let t = t.push(fixed(l_rms(c, w.attn_norm.ptr)));
    lemma_gemm_decl_at_step(t, c.on, jg, pl.q, v);
    let t = gemm_decl(t, c.on, jg, pl.q).push(fixed(l_cast_q(c)));
    lemma_gemm_decl_at_step(t, c.on, jg, pl.k, v);
    let t = gemm_decl(t, c.on, jg, pl.k).push(fixed(l_cast_k(c)));
    lemma_gemm_decl_at_step(t, c.on, jg, pl.v, v);
}

proof fn lemma_slots_mirror(c: StepCtx, li: nat, v: StepVars)
    requires
        c.pp == v.pp,
        v.pos <= u32::MAX,
    ensures
        at_step(marked(l_rope_q(c, 0), mark_pos(3), li), v) == node_of(
            l_rope_q(c, v.pos as u32),
        ),
        at_step(marked(l_rope_k(c, 0), mark_pos(3), li), v) == node_of(
            l_rope_k(c, v.pos as u32),
        ),
        at_step(marked(l_kv_write(c, 0, 0), mark_kv(3, 4), li), v)
            == node_of(
            l_kv_write(c, c.phys(li as int, v.pos) as u32, (v.pos % 32) as u32),
        ),
{
    lemma_marked_at_step(l_rope_q(c, 0), mark_pos(3), li, l_rope_q(c, v.pos as u32), v);
    lemma_marked_at_step(l_rope_k(c, 0), mark_pos(3), li, l_rope_k(c, v.pos as u32), v);
    lemma_marked_at_step(
        l_kv_write(c, 0, 0),
        mark_kv(3, 4),
        li,
        l_kv_write(c, c.phys(li as int, v.pos) as u32, (v.pos % 32) as u32),
        v,
    );
}

proof fn lemma_attn_mirrors(
    t: Seq<NodeT>,
    o: Seq<StepOpV>,
    c: StepCtx,
    w: LayerWeights,
    li: nat,
    jg: Option<u64>,
    v: StepVars,
    detail: bool,
)
    requires
        all_at_step(t, v) == nodes_of(o, c.on, jg),
        c.pp == v.pp,
        v.pos <= u32::MAX,
        flash_fits(c.nums_of().d, c.nums_of().max_kv),
    ensures
        all_at_step(attn_decl(t, c, w, li), v) == nodes_of(
            attn_ops(o, c, w, li as int, v.pos, false, detail),
            c.on,
            jg,
        ),
{
    broadcast use lemma_nodes_push, lemma_at_step_push, lemma_fixed_at_step;

    lemma_slots_mirror(c, li, v);
    let o1 = head_norm_ops(start(o, SEG_ATTN), c, w);
    assert(all_at_step(head_norm_decl(t, c, w), v) == nodes_of(o1, c.on, jg));
}

proof fn lemma_ffn_mirrors(
    t: Seq<NodeT>,
    o: Seq<StepOpV>,
    c: StepCtx,
    w: LayerWeights,
    pl: LayerGemmPlans,
    jg: Option<u64>,
    v: StepVars,
    trace: bool,
)
    requires
        all_at_step(t, v) == nodes_of(o, c.on, jg),
    ensures
        all_at_step(ffn_decl(t, c, w, pl, jg), v) == nodes_of(
            ffn_ops(o, c, w, pl, trace),
            c.on,
            jg,
        ),
{
    broadcast use lemma_nodes_push, lemma_at_step_push, lemma_fixed_at_step;

    lemma_gemm_decl_at_step(t, c.on, jg, pl.o, v);
    let t = gemm_decl(t, c.on, jg, pl.o).push(fixed(l_add_rms(c, w.ffn_norm.ptr)));
    lemma_gemm_decl_at_step(t, c.on, jg, pl.gate, v);
    let t = gemm_decl(t, c.on, jg, pl.gate);
    lemma_gemm_decl_at_step(t, c.on, jg, pl.up, v);
    let t = gemm_decl(t, c.on, jg, pl.up).push(fixed(l_swiglu(c)));
    lemma_gemm_decl_at_step(t, c.on, jg, pl.down, v);
}

proof fn lemma_layers_mirror(
    t: Seq<NodeT>,
    o: Seq<StepOpV>,
    c: StepCtx,
    layers: Seq<LayerWeights>,
    plans: Seq<LayerGemmPlans>,
    n: nat,
    jg: Option<u64>,
    v: StepVars,
    m: StepMode,
)
    requires
        all_at_step(t, v) == nodes_of(o, c.on, jg),
        c.pp == v.pp,
        v.pos <= u32::MAX,
        flash_fits(c.nums_of().d, c.nums_of().max_kv),
        !m.flash_off,
    ensures
        all_at_step(layers_decl(t, c, layers, plans, n, jg), v) == nodes_of(
            layers_ops(o, c, layers, plans, n, v.pos, m),
            c.on,
            jg,
        ),
    decreases n,
{
    if n > 0 {
        let i = (n - 1) as nat;
        lemma_layers_mirror(t, o, c, layers, plans, i, jg, v, m);
        let (w, pl) = (layers[n - 1], plans[n - 1]);
        let t1 = layers_decl(t, c, layers, plans, i, jg);
        let o1 = layers_ops(o, c, layers, plans, i, v.pos, m);
        lemma_qkv_mirrors(t1, o1, c, w, pl, jg, v, m.detail);
        let t2 = qkv_decl(t1, c, w, pl, jg);
        let o2 = qkv_ops(norm_ops(o1, c, w, m.detail), c, pl);
        lemma_attn_mirrors(t2, o2, c, w, i, jg, v, m.detail);
        let t3 = attn_decl(t2, c, w, i);
        let o3 = attn_ops(o2, c, w, i as int, v.pos, false, m.detail);
        lemma_ffn_mirrors(t3, o3, c, w, pl, jg, v, m.trace);
    }
}

pub proof fn lemma_gather_mirrors(c: StepCtx, li: nat, v: StepVars)
    ensures
        at_step(marked(l_gather(c, 0), mark_token(2), li), v) == node_of(l_gather(c, v.token)),
{
    lemma_marked_at_step(l_gather(c, 0), mark_token(2), li, l_gather(c, v.token), v);
}

proof fn lemma_prologue_mirrors(
    c: StepCtx,
    token: u32,
    kv_len: usize,
    jg: Option<u64>,
    v: StepVars,
)
    requires
        v.token == token,
    ensures
        all_at_step(seq![marked(l_gather(c, 0), mark_token(2), 0)], v) == nodes_of(
            prologue(Seq::empty(), c, token, kv_len),
            c.on,
            jg,
        ),
{
    broadcast use lemma_nodes_push;

    let first = marked(l_gather(c, 0), mark_token(2), 0);
    lemma_gather_mirrors(c, 0, v);
    assert(all_at_step(seq![first], v) =~= Seq::empty().push(at_step(first, v)));
    assert(nodes_of(Seq::empty(), c.on, jg) == Seq::<NodeV>::empty());
}

proof fn lemma_epilogue_mirrors(
    t: Seq<NodeT>,
    o: Seq<StepOpV>,
    c: StepCtx,
    lm_head: GemmPlan,
    jg: Option<u64>,
    v: StepVars,
)
    requires
        all_at_step(t, v) == nodes_of(o, c.on, jg),
    ensures
        all_at_step(
            gemm_decl(t.push(fixed(l_rms(c, c.final_norm))), c.on, jg, lm_head),
            v,
        ) == nodes_of(epilogue(o, c, lm_head), c.on, jg),
{
    broadcast use lemma_nodes_push, lemma_at_step_push, lemma_fixed_at_step;

    lemma_gemm_decl_at_step(t.push(fixed(l_rms(c, c.final_norm))), c.on, jg, lm_head, v);
}

/// The declaration mirrors the step: with the values of a step in its cells, its
/// nodes are those that the step's own launches add to a captured graph, in order
/// and argument for argument, where flash attention is on and fits.
pub proof fn split_declaration_mirrors_the_step(
    c: StepCtx,
    layers: Seq<LayerWeights>,
    plans: DecodeGemmPlans,
    jg: Option<u64>,
    token: u32,
    pos: usize,
    kv_len: usize,
    m: StepMode,
)
    requires
        pos <= u32::MAX,
        flash_fits(c.nums_of().d, c.nums_of().max_kv),
        !m.flash_off,
    ensures
        all_at_step(split_decl(c, layers, plans, jg), (StepVars { token, pos, pp: c.pp }))
            == nodes_of(split_ops(c, layers, plans, token, pos, kv_len, m), c.on, jg),
{
    let v = StepVars { token, pos, pp: c.pp };
    let t0 = seq![marked(l_gather(c, 0), mark_token(2), 0)];
    let o0 = prologue(Seq::empty(), c, token, kv_len);
    lemma_prologue_mirrors(c, token, kv_len, jg, v);
    lemma_layers_mirror(t0, o0, c, layers, plans.layers@, layers.len(), jg, v, m);
    lemma_epilogue_mirrors(
        layers_decl(t0, c, layers, plans.layers@, layers.len(), jg),
        layers_ops(o0, c, layers, plans.layers@, layers.len(), pos, m),
        c,
        plans.lm_head,
        jg,
        v,
    );
}

/// Number of nodes of a declared step.
pub open spec fn node_count(
    n_layers: nat,
    head_norm: bool,
    jgemm: bool,
    fused: bool,
    layer_fused: bool,
) -> nat {
    if layer_fused {
        n_layers + 2
    } else if fused {
        4 + 8 * n_layers
    } else {
        let head: nat = if jgemm {
            2
        } else {
            1
        };
        2 + layer_count(head_norm, jgemm) * n_layers + head
    }
}

/// Number of nodes of a layer in separate launches: its kernels, and one or two
/// for each of its GEMMs.
pub open spec fn layer_count(head_norm: bool, jgemm: bool) -> nat {
    let small: nat = if head_norm {
        13
    } else {
        11
    };
    let gemms: nat = if jgemm {
        14
    } else {
        7
    };
    small + gemms
}

/// Number of nodes of a declared step.
pub fn expected_node_count(
    n_layers: usize,
    head_norm: bool,
    jgemm: bool,
    fused: bool,
    layer_fused: bool,
) -> (r: usize)
    requires
        4 + 27 * n_layers <= usize::MAX,
    ensures
        r == node_count(n_layers as nat, head_norm, jgemm, fused, layer_fused),
{
    if layer_fused {
        return n_layers + 2;
    }
    if fused {
        return 4 + 8 * n_layers;
    }
    let small: usize = if head_norm {
        13
    } else {
        11
    };
    let gemms: usize = if jgemm {
        14
    } else {
        7
    };
    let head: usize = if jgemm {
        2
    } else {
        1
    };
    proof {
        let (c, n) = (small + gemms, n_layers as int);
        assert(c * n <= 27 * n) by (nonlinear_arith)
            requires
                c <= 27,
                n >= 0,
        ;
    }
    2 + (small + gemms) * n_layers + head
}

proof fn lemma_layers_count(
    s: Seq<NodeT>,
    c: StepCtx,
    layers: Seq<LayerWeights>,
    plans: Seq<LayerGemmPlans>,
    n: nat,
    jg: Option<u64>,
    head_norm: bool,
)
    requires
        n <= layers.len(),
        n <= plans.len(),
        forall|i: int|
            0 <= i < n ==> ((#[trigger] layers[i]).q_norm is Some <==> head_norm)
                && (layers[i].k_norm is Some <==> head_norm),
        forall|i: int| 0 <= i < n ==> all_served(#[trigger] plans[i]),
    ensures
        layers_decl(s, c, layers, plans, n, jg).len() == s.len() + layer_count(
            head_norm,
            jg is Some,
        ) * n,
    decreases n,
{
    let k = layer_count(head_norm, jg is Some) as int;
    if n > 0 {
        lemma_layers_count(s, c, layers, plans, (n - 1) as nat, jg, head_norm);
        let (w, pl) = (layers[n - 1], plans[n - 1]);
        assert(all_served(pl));
        let t1 = layers_decl(s, c, layers, plans, (n - 1) as nat, jg);
        let t2 = qkv_decl(t1, c, w, pl, jg);
        assert(t2.len() == t1.len() + 4 + (if jg is Some {
            6int
        } else {
            3
        }));
        let t3 = attn_decl(t2, c, w, (n - 1) as nat);
        assert(t3.len() == t2.len() + (if head_norm {
            6int
        } else {
            4
        }));
        let m = n as int;
        assert(k * m == k * (m - 1) + k) by (nonlinear_arith);
    } else {
        assert(k * 0 == 0);
    }
}

pub open spec fn all_served(l: LayerGemmPlans) -> bool {
    &&& served(l.q)
    &&& served(l.k)
    &&& served(l.v)
    &&& served(l.o)
    &&& served(l.gate)
    &&& served(l.up)
    &&& served(l.down)
}

/// The declaration of separate launches of a model has the expected number of
/// nodes.
pub proof fn split_declaration_has_expected_count(
    c: StepCtx,
    layers: Seq<LayerWeights>,
    plans: DecodeGemmPlans,
    lm_head: DeviceBuffer,
    jg: Option<u64>,
    head_norm: bool,
)
    requires
        plans_of(plans, c.cfg, c.b, layers, lm_head, false),
        forall|i: int|
            0 <= i < layers.len() ==> ((#[trigger] layers[i]).q_norm is Some <==> head_norm)
                && (layers[i].k_norm is Some <==> head_norm),
    ensures
        split_decl(c, layers, plans, jg).len() == node_count(
            layers.len(),
            head_norm,
            jg is Some,
            false,
            false,
        ),
{
    let s = seq![marked(l_gather(c, 0), mark_token(2), 0)];
    lemma_layers_count(s, c, layers, plans.layers@, layers.len(), jg, head_norm);
}

proof fn lemma_layers_custom(
    s: Seq<NodeT>,
    c: StepCtx,
    layers: Seq<LayerWeights>,
    plans: Seq<LayerGemmPlans>,
    n: nat,
    partials: u64,
)
    requires
        n <= plans.len(),
        all_custom(s),
        forall|i: int| 0 <= i < n ==> all_served(#[trigger] plans[i]),
    ensures
        all_custom(layers_decl(s, c, layers, plans, n, Some(partials))),
    decreases n,
{
    broadcast use lemma_all_custom_push;

    if n > 0 {
        let jg = Some(partials);
        lemma_layers_custom(s, c, layers, plans, (n - 1) as nat, partials);
        let (w, pl) = (layers[n - 1], plans[n - 1]);
        assert(all_served(pl));
        let t1 = layers_decl(s, c, layers, plans, (n - 1) as nat, jg);
        let t2 = qkv_decl(t1, c, w, pl, jg);
        assert(all_custom(t2));
        let t3 = attn_decl(t2, c, w, (n - 1) as nat);
        assert(all_custom(t3));
    }
}

/// Every node of the declaration of separate launches launches a kernel of this library
/// exactly where the one-row kernels are loaded, whose partial sums it then names; else
/// its products are nodes of cuBLAS.
pub proof fn split_nodes_are_custom_with_the_one_row_kernels(
    c: StepCtx,
    layers: Seq<LayerWeights>,
    plans: DecodeGemmPlans,
    lm_head: DeviceBuffer,
    partials: Option<u64>,
)
    requires
        plans_of(plans, c.cfg, c.b, layers, lm_head, false),
    ensures
        all_custom(split_decl(c, layers, plans, partials)) <==> partials is Some,
{
    broadcast use lemma_all_custom_push;

    let s = seq![marked(l_gather(c, 0), mark_token(2), 0)];
    let t = layers_decl(s, c, layers, plans.layers@, layers.len(), partials);
    match partials {
        Some(at) => {
            lemma_layers_custom(s, c, layers, plans.layers@, layers.len(), at);
            assert(served(plans.lm_head));
        },
        None => {
            let u = t.push(fixed(l_rms(c, c.final_norm)));
            assert(split_decl(c, layers, plans, partials) == u.push(fixed_gemm(plans.lm_head)));
        },
    }
}

} // verus!
