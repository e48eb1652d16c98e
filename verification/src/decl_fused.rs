//! The graph declarations of the fused steps.

use vstd::prelude::*;

use crate::decl::{
    all_at_step, all_custom, at_step, fixed, lemma_all_custom_push, lemma_at_step_push, lemma_fixed_at_step, lemma_marked_at_step,
    lemma_nodes_push, lemma_slots_fixed, lemma_slots_marked, mark_pos, mark_token, marked, node_of,
    nodes_of, refresh_of, slots_of, GraphStepDecl, Marks, NodeT, NodeV, StepVars,
};
use crate::decl_build::DeclBuilder;
use crate::decl_split::{lemma_gather_mirrors, node_count};
use crate::fused::{FusedDecodeKernels, FusedGeom};
use crate::fused_step::{
    f_flash, f_p1_gu, f_p1_lm, f_p1_o, f_p1_qkv, f_p2_down, f_p2_gu_d, f_p2_o, f_p2_qkv,
    f_reduce_lm, fused_attn_ops, fused_ffn_ops, fused_head_ops, fused_layers_ops, fused_ops,
    geom_fits, layer_fused_ops, lf_layer, lf_layers_ops, plan_table,
};
use crate::layer_fused::LayerFusedKernels;
use crate::model::{LayerWeights, BLOCK_LEN};
use crate::split::{l_gather, l_rms, StepMode};
use crate::step::{begin, end, run, upload_lens, StepCtx, StepKernels, StepNums, StepOpV, SEG_SMALL};

verus! {

/// A layer of the fused step.
pub open spec fn fused_layer_decl(
    s: Seq<NodeT>,
    c: StepCtx,
    g: FusedGeom,
    layers: Seq<LayerWeights>,
    li: int,
) -> Seq<NodeT> {
    let s = s.push(fixed(f_p1_qkv(c, g, li)));
    let s = s.push(marked(f_p2_qkv(c, g, layers[li], 0), mark_pos(16), 0));
    let s = s.push(fixed(f_flash(c, li)));
    let s = s.push(fixed(f_p1_o(c, g, li))).push(fixed(f_p2_o(c, g, layers[li])));
    let s = s.push(fixed(f_p1_gu(c, g, li))).push(fixed(f_p2_gu_d(c, g, li)));
    s.push(fixed(f_p2_down(c, g, layers, li)))
}

/// The first `n` layers of the fused step.
pub open spec fn fused_layers_decl(
    s: Seq<NodeT>,
    c: StepCtx,
    g: FusedGeom,
    layers: Seq<LayerWeights>,
    n: nat,
) -> Seq<NodeT>
    decreases n,
{
    if n == 0 {
        s
    } else {
        fused_layer_decl(fused_layers_decl(s, c, g, layers, (n - 1) as nat), c, g, layers, n - 1)
    }
}

/// The output head in two phases.
pub open spec fn head_decl(s: Seq<NodeT>, c: StepCtx, g: FusedGeom) -> Seq<NodeT> {
    s.push(fixed(f_p1_lm(c, g))).push(fixed(f_reduce_lm(c, g)))
}

/// The nodes of the fused step.
pub open spec fn fused_decl(c: StepCtx, g: FusedGeom, layers: Seq<LayerWeights>) -> Seq<NodeT> {
    let s = seq![
        marked(l_gather(c, 0), mark_token(2), 0),
        fixed(l_rms(c, layers[0].attn_norm.ptr)),
    ];
    head_decl(fused_layers_decl(s, c, g, layers, layers.len()), c, g)
}

/// What a layer's launch reads of the step: the position, and on the first layer
/// the token, which no other layer reads.
pub open spec fn lf_marks(li: int) -> Marks {
    if li == 0 {
        Marks { token: Some(10), pos: Some(9), kv: None }
    } else {
        mark_pos(9)
    }
}

/// The first `n` layers, one launch each.
pub open spec fn lf_layers_decl(
    c: StepCtx,
    g: FusedGeom,
    k: LayerFusedKernels,
    layers: Seq<LayerWeights>,
    n: nat,
) -> Seq<NodeT>
    decreases n,
{
    if n == 0 {
        Seq::empty()
    } else {
        lf_layers_decl(c, g, k, layers, (n - 1) as nat).push(
            marked(lf_layer(c, g, k, layers, n - 1, 0, 0), lf_marks(n - 1), 0),
        )
    }
}

/// The nodes of the step of one launch per layer.
pub open spec fn layer_fused_decl(
    c: StepCtx,
    g: FusedGeom,
    k: LayerFusedKernels,
    layers: Seq<LayerWeights>,
) -> Seq<NodeT> {
    head_decl(lf_layers_decl(c, g, k, layers, layers.len()), c, g)
}

fn declare_fused_layer(
    d: &mut DeclBuilder,
    c: &StepCtx,
    k: &StepKernels,
    f: &FusedDecodeKernels,
    n: &StepNums,
    layers: &Vec<LayerWeights>,
    li: usize,
)
    requires
        old(d).wf(),
        c.wf(),
        k.launch_on(*c),
        f.dev == c.on.dev,
        geom_fits(f.geom, *c),
        *n == c.nums_of(),
        (n.d + n.max_kv) * 4 <= u32::MAX,
        layers@.len() == c.cfg.n_layer,
        li < layers@.len(),
        old(d).rope_q@.len() == li,
        old(d).rope_k@.len() == li,
        old(d).phys@.len() == 0,
    ensures
        final(d).wf(),
        final(d).nodes@ == fused_layer_decl(old(d).nodes@, *c, f.geom, layers@, li as int),
        final(d).has_token == old(d).has_token,
        final(d).rope_q@.len() == li + 1,
        final(d).rope_k@.len() == li + 1,
        final(d).phys@.len() == 0,
{
    let g = f.geom();
    let st = &c.on.stream;
    d.launch(&f.launch_p1(st, plan_table(g, c, li, 0), 3, g.grid_qkv[li]));
    let pos = Marks { token: None, pos: Some(16), kv: None };
    d.launch_marked(&f.qkv(c, n, &layers[li], 0), pos, true, true);
    let flash = k.decode.declare_decode_step_gqa_flash_fused(
        c.on.dev,
        c.b.q.ptr,
        c.layer_pages(li),
        c.kv,
        c.b.lens.ptr,
        c.b.attn.ptr,
        1,
        n.q_heads,
        n.d,
        BLOCK_LEN as u32,
        n.ratio,
        n.kv_heads,
        n.max_kv,
        n.total_pages,
        1,
        c.b.k.ptr,
        c.b.v.ptr,
    );
    d.launch(&flash);
    d.launch(&f.launch_p1(st, plan_table(g, c, li, 3), 1, g.grid_o[li]));
    d.launch(&f.attn_out(c, n, &layers[li]));
    d.launch(&f.launch_p1(st, plan_table(g, c, li, 4), 2, g.grid_gu[li]));
    d.launch(&f.launch_p2_gu_d(st, plan_table(g, c, li, 4), g.grid_gu_p2));
    d.launch(&f.down(c, n, layers, li));
}

fn declare_head(d: &mut DeclBuilder, c: &StepCtx, f: &FusedDecodeKernels, n: &StepNums)
    requires
        old(d).wf(),
        f.dev == c.on.dev,
        *n == c.nums_of(),
    ensures
        final(d).wf(),
        final(d).nodes@ == head_decl(old(d).nodes@, *c, f.geom),
        final(d).has_token == old(d).has_token,
        final(d).rope_q@.len() == old(d).rope_q@.len(),
        final(d).rope_k@.len() == old(d).rope_k@.len(),
        final(d).phys@.len() == old(d).phys@.len(),
{
    let g = f.geom();
    let st = &c.on.stream;
    d.launch(&f.launch_p1(st, g.lm_table, 1, g.grid_lm));
    d.launch(&f.launch_reduce(st, g.plm, c.b.logits.ptr, n.vocab, 1, g.grid_lm));
}

impl GraphStepDecl {
    /// Declares the fused step.
    pub fn build_fused(
        c: &StepCtx,
        k: &StepKernels,
        f: &FusedDecodeKernels,
        layers: &Vec<LayerWeights>,
    ) -> (d: GraphStepDecl)
        requires
            c.wf(),
            k.launch_on(*c),
            f.dev == c.on.dev,
            geom_fits(f.geom, *c),
            layers@.len() == c.cfg.n_layer,
        ensures
            d.declares(fused_decl(*c, f.geom, layers@)),
            d.cell_kv_phys@.len() == 0,
            d.refresh@ == fused_refresh(layers@.len()),
    {
        let n = c.nums();
        let mut d = DeclBuilder::new();
        let token = Marks { token: Some(2), pos: None, kv: None };
        d.launch_marked(&k.gather(c, &n, 0), token, false, false);
        d.launch(&k.rms(c, &n, layers[0].attn_norm.ptr));
        let ghost s0 = d.nodes@;
        proof {
            assert(s0 =~= seq![
                marked(l_gather(*c, 0), mark_token(2), 0),
                fixed(l_rms(*c, layers@[0].attn_norm.ptr)),
            ]);
        }
        let mut li: usize = 0;
        while li < layers.len()
            invariant
                li <= layers.len(),
                c.wf(),
                k.launch_on(*c),
                f.dev == c.on.dev,
                geom_fits(f.geom, *c),
                n == c.nums_of(),
                (n.d + n.max_kv) * 4 <= u32::MAX,
                layers@.len() == c.cfg.n_layer,
                d.wf(),
                d.has_token,
                d.rope_q@.len() == li,
                d.rope_k@.len() == li,
                d.phys@.len() == 0,
                d.nodes@ == fused_layers_decl(s0, *c, f.geom, layers@, li as nat),
            decreases layers.len() - li,
        {
            declare_fused_layer(&mut d, c, k, f, &n, layers, li);
            li = li + 1;
        }
        declare_head(&mut d, c, f, &n);
        proof {
            lemma_fused_refresh(*c, f.geom, layers@);
        }
        d.finish()
    }

    /// Declares the step of one launch per layer.
    pub fn build_layer_fused(
        c: &StepCtx,
        f: &FusedDecodeKernels,
        lf: &LayerFusedKernels,
        layers: &Vec<LayerWeights>,
    ) -> (d: GraphStepDecl)
        requires
            c.wf(),
            f.dev == c.on.dev,
            lf.dev == c.on.dev,
            geom_fits(f.geom, *c),
            layers@.len() == c.cfg.n_layer,
            layers@.len() <= u32::MAX,
        ensures
            d.declares(layer_fused_decl(*c, f.geom, *lf, layers@)),
            d.cell_kv_phys@.len() == 0,
            d.refresh@ == layer_fused_refresh(layers@.len()),
    {
        let n = c.nums();
        let mut d = DeclBuilder::new();
        let mut li: usize = 0;
        while li < layers.len()
            invariant
                li <= layers.len(),
                lf.dev == c.on.dev,
                geom_fits(f.geom, *c),
                layers@.len() == c.cfg.n_layer,
                layers@.len() <= u32::MAX,
                d.wf(),
                d.has_token == (li > 0),
                d.rope_q@.len() == li,
                d.rope_k@.len() == li,
                d.phys@.len() == 0,
                d.nodes@ == lf_layers_decl(*c, f.geom, *lf, layers@, li as nat),
            decreases layers.len() - li,
        {
            let token: Option<usize> = if li == 0 {
                Some(10)
            } else {
                None
            };
            let m = Marks { token, pos: Some(9), kv: None };
            d.launch_marked(&lf.layer(c, f.geom(), layers, li, 0, 0), m, true, true);
            li = li + 1;
        }
        declare_head(&mut d, c, f, &n);
        proof {
            lemma_layer_fused_refresh(*c, f.geom, *lf, layers@);
        }
        d.finish()
    }
}

/// The slots of the fused step that change: the token of the first node, and the
/// position of the second node of every layer.
pub open spec fn fused_refresh(n: nat) -> Seq<(usize, usize)> {
    seq![(0usize, 2usize)] + Seq::new(n, |li: int| ((3 + 8 * li) as usize, 16usize))
}

/// The slots of the step of one launch per layer that change: the position of every
/// layer, and then the token of the first.
pub open spec fn layer_fused_refresh(n: nat) -> Seq<(usize, usize)> {
    Seq::new(n, |li: int| (li as usize, 9usize)).push((0usize, 10usize))
}

proof fn lemma_fused_layers_refresh(
    s: Seq<NodeT>,
    c: StepCtx,
    g: FusedGeom,
    layers: Seq<LayerWeights>,
    n: nat,
)
    requires
        s.len() == 2,
    ensures
        fused_layers_decl(s, c, g, layers, n).len() == 2 + 8 * n,
        slots_of(fused_layers_decl(s, c, g, layers, n), false) == slots_of(s, false) + Seq::new(
            n,
            |li: int| ((3 + 8 * li) as usize, 16usize),
        ),
        slots_of(fused_layers_decl(s, c, g, layers, n), true) == slots_of(s, true),
    decreases n,
{
    broadcast use lemma_slots_fixed;

    let f = |li: int| ((3 + 8 * li) as usize, 16usize);
    if n > 0 {
        let li = n - 1;
        lemma_fused_layers_refresh(s, c, g, layers, li as nat);
        let t = fused_layers_decl(s, c, g, layers, li as nat);
        let t1 = t.push(fixed(f_p1_qkv(c, g, li)));
        let l = f_p2_qkv(c, g, layers[li], 0);
        lemma_slots_marked(t1, l, mark_pos(16), 0);
        let t2 = t1.push(marked(l, mark_pos(16), 0));
        let t3 = fused_layer_decl(t, c, g, layers, li);
        assert(slots_of(t3, false) == slots_of(t2, false));
        assert(slots_of(t3, true) == slots_of(t2, true));
        assert(slots_of(t2, true) =~= slots_of(t, true));
        assert(slots_of(t2, false) =~= slots_of(s, false) + Seq::new(n, f));
    } else {
        assert(slots_of(s, false) =~= slots_of(s, false) + Seq::new(0, f));
    }
}

proof fn lemma_fused_refresh(c: StepCtx, g: FusedGeom, layers: Seq<LayerWeights>)
    ensures
        refresh_of(fused_decl(c, g, layers)) == fused_refresh(layers.len()),
{
    broadcast use lemma_slots_fixed;

    let e = Seq::<NodeT>::empty();
    let first = marked(l_gather(c, 0), mark_token(2), 0);
    let second = fixed(l_rms(c, layers[0].attn_norm.ptr));
    lemma_slots_marked(e, l_gather(c, 0), mark_token(2), 0);
    let s = seq![first, second];
    assert(s =~= e.push(first).push(second));
    assert(slots_of(s, false) =~= seq![(0usize, 2usize)]);
    assert(slots_of(s, true) =~= Seq::<(usize, usize)>::empty());
    lemma_fused_layers_refresh(s, c, g, layers, layers.len());
    assert(refresh_of(fused_decl(c, g, layers)) =~= fused_refresh(layers.len()));
}

proof fn lemma_lf_layers_refresh(
    c: StepCtx,
    g: FusedGeom,
    k: LayerFusedKernels,
    layers: Seq<LayerWeights>,
    n: nat,
)
    ensures
        lf_layers_decl(c, g, k, layers, n).len() == n,
        slots_of(lf_layers_decl(c, g, k, layers, n), false) == Seq::new(
            n,
            |li: int| (li as usize, 9usize),
        ),
        slots_of(lf_layers_decl(c, g, k, layers, n), true) == (if n > 0 {
            seq![(0usize, 10usize)]
        } else {
            Seq::empty()
        }),
    decreases n,
{
    let t = lf_layers_decl(c, g, k, layers, n);
    if n > 0 {
        lemma_lf_layers_refresh(c, g, k, layers, (n - 1) as nat);
        lemma_slots_marked(
            lf_layers_decl(c, g, k, layers, (n - 1) as nat),
            lf_layer(c, g, k, layers, n - 1, 0, 0),
            lf_marks(n - 1),
            0,
        );
    }
    assert(slots_of(t, false) =~= Seq::new(n, |li: int| (li as usize, 9usize)));
    assert(slots_of(t, true) =~= (if n > 0 {
        seq![(0usize, 10usize)]
    } else {
        Seq::empty()
    }));
}

proof fn lemma_layer_fused_refresh(
    c: StepCtx,
    g: FusedGeom,
    k: LayerFusedKernels,
    layers: Seq<LayerWeights>,
)
    requires
        layers.len() > 0,
    ensures
        refresh_of(layer_fused_decl(c, g, k, layers)) == layer_fused_refresh(layers.len()),
{
    broadcast use lemma_slots_fixed;

    lemma_lf_layers_refresh(c, g, k, layers, layers.len());
    assert(refresh_of(layer_fused_decl(c, g, k, layers)) =~= layer_fused_refresh(layers.len()));
}

proof fn lemma_fused_attn_mirrors(
    t: Seq<NodeT>,
    o: Seq<StepOpV>,
    c: StepCtx,
    g: FusedGeom,
    w: LayerWeights,
    li: int,
    jg: Option<u64>,
    v: StepVars,
    detail: bool,
)
    requires
        all_at_step(t, v) == nodes_of(o, c.on, jg),
        v.pos <= u32::MAX,
    ensures
        all_at_step(
            t.push(fixed(f_p1_qkv(c, g, li))).push(
                marked(f_p2_qkv(c, g, w, 0), mark_pos(16), 0),
            ).push(fixed(f_flash(c, li))),
            v,
        ) == nodes_of(fused_attn_ops(o, c, g, w, li, v.pos, detail), c.on, jg),
{
    broadcast use lemma_nodes_push, lemma_at_step_push, lemma_fixed_at_step;

    assert(at_step(marked(f_p2_qkv(c, g, w, 0), mark_pos(16), 0), v) == node_of(
        f_p2_qkv(c, g, w, v.pos as u32),
    )) by {
        lemma_marked_at_step(
            f_p2_qkv(c, g, w, 0),
            mark_pos(16),
            0,
            f_p2_qkv(c, g, w, v.pos as u32),
            v,
        );
    }
}

proof fn lemma_fused_ffn_mirrors(
    t: Seq<NodeT>,
    o: Seq<StepOpV>,
    c: StepCtx,
    g: FusedGeom,
    layers: Seq<LayerWeights>,
    li: int,
    jg: Option<u64>,
    v: StepVars,
    m: StepMode,
)
    requires
        all_at_step(t, v) == nodes_of(o, c.on, jg),
    ensures
        all_at_step(
            t.push(fixed(f_p1_o(c, g, li))).push(fixed(f_p2_o(c, g, layers[li]))).push(
                fixed(f_p1_gu(c, g, li)),
            ).push(fixed(f_p2_gu_d(c, g, li))).push(fixed(f_p2_down(c, g, layers, li))),
            v,
        ) == nodes_of(fused_ffn_ops(o, c, g, layers, li, m), c.on, jg),
{
    broadcast use lemma_nodes_push, lemma_at_step_push, lemma_fixed_at_step;

}

proof fn lemma_fused_layers_mirror(
    t: Seq<NodeT>,
    o: Seq<StepOpV>,
    c: StepCtx,
    g: FusedGeom,
    layers: Seq<LayerWeights>,
    n: nat,
    jg: Option<u64>,
    v: StepVars,
    m: StepMode,
)
    requires
        all_at_step(t, v) == nodes_of(o, c.on, jg),
        v.pos <= u32::MAX,
    ensures
        all_at_step(fused_layers_decl(t, c, g, layers, n), v) == nodes_of(
            fused_layers_ops(o, c, g, layers, n, v.pos, m),
            c.on,
            jg,
        ),
    decreases n,
{
    if n > 0 {
        let i = (n - 1) as nat;
        lemma_fused_layers_mirror(t, o, c, g, layers, i, jg, v, m);
        let (w, li) = (layers[n - 1], n - 1);
        let t1 = fused_layers_decl(t, c, g, layers, i);
        let o1 = fused_layers_ops(o, c, g, layers, i, v.pos, m);
        lemma_fused_attn_mirrors(t1, o1, c, g, w, li, jg, v, m.detail);
        let t2 = t1.push(fixed(f_p1_qkv(c, g, li))).push(
            marked(f_p2_qkv(c, g, w, 0), mark_pos(16), 0),
        ).push(fixed(f_flash(c, li)));
        let o2 = fused_attn_ops(o1, c, g, w, li, v.pos, m.detail);
        lemma_fused_ffn_mirrors(t2, o2, c, g, layers, li, jg, v, m);
    }
}

proof fn lemma_fused_start_mirrors(
    c: StepCtx,
    w: u64,
    kv_len: usize,
    jg: Option<u64>,
    v: StepVars,
)
    ensures
        all_at_step(seq![marked(l_gather(c, 0), mark_token(2), 0), fixed(l_rms(c, w))], v)
            == nodes_of(
            upload_lens(
                end(
                    run(run(begin(Seq::empty()), l_gather(c, v.token), SEG_SMALL), l_rms(c, w), SEG_SMALL),
                    SEG_SMALL,
                ),
                kv_len,
            ),
            c.on,
            jg,
        ),
{
    broadcast use lemma_nodes_push, lemma_fixed_at_step;

    let first = marked(l_gather(c, 0), mark_token(2), 0);
    let second = fixed(l_rms(c, w));
    lemma_gather_mirrors(c, 0, v);
    assert(all_at_step(seq![first, second], v) =~= Seq::empty().push(at_step(first, v)).push(
        at_step(second, v),
    ));
    assert(nodes_of(Seq::empty(), c.on, jg) == Seq::<NodeV>::empty());
}

proof fn lemma_head_mirrors(
    t: Seq<NodeT>,
    o: Seq<StepOpV>,
    c: StepCtx,
    g: FusedGeom,
    jg: Option<u64>,
    v: StepVars,
)
    ensures
        all_at_step(head_decl(t, c, g), v) == all_at_step(t, v).push(
            node_of(f_p1_lm(c, g)),
        ).push(node_of(f_reduce_lm(c, g))),
        nodes_of(fused_head_ops(o, c, g), c.on, jg) == nodes_of(o, c.on, jg).push(
            node_of(f_p1_lm(c, g)),
        ).push(node_of(f_reduce_lm(c, g))),
{
    broadcast use lemma_nodes_push, lemma_at_step_push, lemma_fixed_at_step;

}

/// The declaration of the fused step mirrors it: with the values of a step in its
/// cells, its nodes are those that the step's own launches add to a captured
/// graph, in order and argument for argument.
pub proof fn fused_declaration_mirrors_the_step(
    c: StepCtx,
    g: FusedGeom,
    layers: Seq<LayerWeights>,
    jg: Option<u64>,
    token: u32,
    pos: usize,
    kv_len: usize,
    m: StepMode,
)
    requires
        pos <= u32::MAX,
    ensures
        all_at_step(fused_decl(c, g, layers), (StepVars { token, pos, pp: c.pp })) == nodes_of(
            fused_ops(c, g, layers, token, pos, kv_len, m),
            c.on,
            jg,
        ),
{
    let v = StepVars { token, pos, pp: c.pp };
    let w = layers[0].attn_norm.ptr;
    let t0 = seq![marked(l_gather(c, 0), mark_token(2), 0), fixed(l_rms(c, w))];
    let o0 = upload_lens(
        end(
            run(run(begin(Seq::empty()), l_gather(c, token), SEG_SMALL), l_rms(c, w), SEG_SMALL),
            SEG_SMALL,
        ),
        kv_len,
    );
    lemma_fused_start_mirrors(c, w, kv_len, jg, v);
    lemma_fused_layers_mirror(t0, o0, c, g, layers, layers.len(), jg, v, m);
    lemma_head_mirrors(
        fused_layers_decl(t0, c, g, layers, layers.len()),
        fused_layers_ops(o0, c, g, layers, layers.len(), pos, m),
        c,
        g,
        jg,
        v,
    );
}

/// Two nodes that agree but for one slot.
pub open spec fn agree_but(a: NodeV, b: NodeV, slot: int) -> bool {
    &&& a.spec == b.spec
    &&& a.cells.len() == b.cells.len()
    &&& forall|j: int| 0 <= j < a.cells.len() && j != slot ==> #[trigger] a.cells[j] == b.cells[j]
}

/// Node `i` of the step of one launch per layer, as declared and as launched:
/// the same, but for the token on layers past the first.
pub open spec fn lf_agree(a: NodeV, b: NodeV, i: int, n_layers: nat) -> bool {
    if 0 < i < n_layers {
        agree_but(a, b, 10)
    } else {
        a == b
    }
}

proof fn lemma_lf_layers_mirror(
    o: Seq<StepOpV>,
    c: StepCtx,
    g: FusedGeom,
    k: LayerFusedKernels,
    layers: Seq<LayerWeights>,
    n: nat,
    jg: Option<u64>,
    v: StepVars,
    trace: bool,
)
    requires
        nodes_of(o, c.on, jg) == Seq::<NodeV>::empty(),
        v.pos <= u32::MAX,
        n <= layers.len(),
    ensures
        ({
            let a = all_at_step(lf_layers_decl(c, g, k, layers, n), v);
            let b = nodes_of(
                lf_layers_ops(o, c, g, k, layers, n, v.pos, v.token, trace),
                c.on,
                jg,
            );
            &&& a.len() == n
            &&& b.len() == n
            &&& forall|i: int| 0 <= i < n ==> lf_agree(#[trigger] a[i], b[i], i, layers.len())
        }),
    decreases n,
{
    broadcast use lemma_nodes_push, lemma_at_step_push;

    if n > 0 {
        let i = n - 1;
        lemma_lf_layers_mirror(o, c, g, k, layers, i as nat, jg, v, trace);
        let d0 = lf_layer(c, g, k, layers, i, 0, 0);
        let l = lf_layer(c, g, k, layers, i, v.pos as u32, v.token);
        let t = marked(d0, lf_marks(i), 0);
        if i == 0 {
            lemma_marked_at_step(d0, lf_marks(0), 0, l, v);
        } else {
            assert(agree_but(at_step(t, v), node_of(l), 10));
        }
    }
}

/// The declaration of the step of one launch per layer mirrors it: with the
/// values of a step in its cells, its nodes are those that the step's own launches
/// add to a captured graph, in order and argument for argument, but for the token
/// on layers past the first, where no kernel reads it.
pub proof fn layer_fused_declaration_mirrors_the_step(
    c: StepCtx,
    g: FusedGeom,
    k: LayerFusedKernels,
    layers: Seq<LayerWeights>,
    jg: Option<u64>,
    token: u32,
    pos: usize,
    kv_len: usize,
    trace: bool,
)
    requires
        pos <= u32::MAX,
    ensures
        ({
            let v = StepVars { token, pos, pp: c.pp };
            let a = all_at_step(layer_fused_decl(c, g, k, layers), v);
            let b = nodes_of(
                layer_fused_ops(c, g, k, layers, token, pos, kv_len, trace),
                c.on,
                jg,
            );
            &&& a.len() == b.len()
            &&& forall|i: int|
                0 <= i < a.len() ==> lf_agree(#[trigger] a[i], b[i], i, layers.len())
        }),
{
    broadcast use lemma_nodes_push;

    let v = StepVars { token, pos, pp: c.pp };
    let o = upload_lens(begin(Seq::empty()), kv_len);
    assert(nodes_of(Seq::empty(), c.on, jg) == Seq::<NodeV>::empty());
    lemma_lf_layers_mirror(o, c, g, k, layers, layers.len(), jg, v, trace);
    lemma_head_mirrors(
        lf_layers_decl(c, g, k, layers, layers.len()),
        lf_layers_ops(o, c, g, k, layers, layers.len(), pos, token, trace),
        c,
        g,
        jg,
        v,
    );
}

proof fn lemma_fused_count(
    s: Seq<NodeT>,
    c: StepCtx,
    g: FusedGeom,
    layers: Seq<LayerWeights>,
    n: nat,
)
    ensures
        fused_layers_decl(s, c, g, layers, n).len() == s.len() + 8 * n,
    decreases n,
{
    if n > 0 {
        lemma_fused_count(s, c, g, layers, (n - 1) as nat);
    }
}

proof fn lemma_lf_count(
    c: StepCtx,
    g: FusedGeom,
    k: LayerFusedKernels,
    layers: Seq<LayerWeights>,
    n: nat,
)
    ensures
        lf_layers_decl(c, g, k, layers, n).len() == n,
    decreases n,
{
    if n > 0 {
        lemma_lf_count(c, g, k, layers, (n - 1) as nat);
    }
}

/// The declarations of the fused steps have the expected number of nodes.
pub proof fn fused_declarations_have_expected_counts(
    c: StepCtx,
    g: FusedGeom,
    k: LayerFusedKernels,
    layers: Seq<LayerWeights>,
    head_norm: bool,
    jgemm: bool,
)
    ensures
        fused_decl(c, g, layers).len() == node_count(layers.len(), head_norm, jgemm, true, false),
        layer_fused_decl(c, g, k, layers).len() == node_count(
            layers.len(),
            head_norm,
            jgemm,
            true,
            true,
        ),
{
    let s = seq![
        marked(l_gather(c, 0), mark_token(2), 0),
        fixed(l_rms(c, layers[0].attn_norm.ptr)),
    ];
    lemma_fused_count(s, c, g, layers, layers.len());
    lemma_lf_count(c, g, k, layers, layers.len());
}

proof fn lemma_fused_custom(
    s: Seq<NodeT>,
    c: StepCtx,
    g: FusedGeom,
    layers: Seq<LayerWeights>,
    n: nat,
)
    requires
        all_custom(s),
    ensures
        all_custom(fused_layers_decl(s, c, g, layers, n)),
    decreases n,
{
    broadcast use lemma_all_custom_push;

    if n > 0 {
        lemma_fused_custom(s, c, g, layers, (n - 1) as nat);
    }
}

proof fn lemma_layer_fused_custom(
    c: StepCtx,
    g: FusedGeom,
    k: LayerFusedKernels,
    layers: Seq<LayerWeights>,
    n: nat,
)
    ensures
        all_custom(lf_layers_decl(c, g, k, layers, n)),
    decreases n,
{
    broadcast use lemma_all_custom_push;

    if n > 0 {
        lemma_layer_fused_custom(c, g, k, layers, (n - 1) as nat);
    }
}

/// Every node of the declaration of the fused step launches a kernel of this library.
pub proof fn fused_nodes_are_custom(c: StepCtx, g: FusedGeom, layers: Seq<LayerWeights>)
    ensures
        all_custom(fused_decl(c, g, layers)),
{
    broadcast use lemma_all_custom_push;

    let s = seq![
        marked(l_gather(c, 0), mark_token(2), 0),
        fixed(l_rms(c, layers[0].attn_norm.ptr)),
    ];
    assert(all_custom(s));
    lemma_fused_custom(s, c, g, layers, layers.len());
}

/// Every node of the declaration of one launch per layer launches a kernel of this
/// library.
pub proof fn layer_fused_nodes_are_custom(
    c: StepCtx,
    g: FusedGeom,
    k: LayerFusedKernels,
    layers: Seq<LayerWeights>,
)
    ensures
        all_custom(layer_fused_decl(c, g, k, layers)),
{
    broadcast use lemma_all_custom_push;

    lemma_layer_fused_custom(c, g, k, layers, layers.len());
}

} // verus!
