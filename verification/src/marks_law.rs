//! That the marks of a pass end what they name, and that the work of a step is counted where
//! it belongs.

use vstd::prelude::*;

use crate::buffer::DeviceBuffer;
use crate::gemm::{call_of, col_major_swap};
use crate::launch::{Kernel, LaunchV};
use crate::model::LayerWeights;
use crate::plans::{layer_plans, plans_of, DecodeGemmPlans, LayerGemmPlans};
use crate::prefill::{
    p_add, p_cast, p_fmha, p_gather, p_kv_write, p_norm, p_rms, p_rope, p_scale, p_split, p_swiglu,
    pattn_ops, pffn_ops, pgemm, players_ops, pout_ops, pput, pqkv_ops, prefill_ops, prun, ptag,
    PrefillBuffers, PrefillCtx, PrefillOpV, QkvScratch,
};
use crate::ptag::PTag;
use crate::split::{
    attn_ops, epilogue, ffn_ops, layer_ops, layers_ops, norm_ops, prologue, qkv_ops, split_ops,
    StepMode,
};
use crate::step::{count, ProfOp, StepCtx, StepOpV};

verus! {

/// Whether an operation is a launch of a kernel with an address as one of its arguments.
pub open spec fn launches(o: PrefillOpV, k: Kernel, arg: int, at: u64) -> bool {
    o matches PrefillOpV::Launch(l) && l.kernel == k && arg < l.args.len() && l.args[arg] == at
}

/// Whether an operation is a product into a buffer.
pub open spec fn multiplies(o: PrefillOpV, at: u64) -> bool {
    o matches PrefillOpV::Gemm(g) && g.c.ptr == at
}

/// Whether an operation is a product into one of the buffers of the projections.
pub open spec fn projects(o: PrefillOpV, b: PrefillBuffers) -> bool {
    match b.c_qkv {
        QkvScratch::Joined { qkv } => multiplies(o, qkv.ptr),
        QkvScratch::Apart { q, k, v } => multiplies(o, q.ptr) || multiplies(o, k.ptr)
            || multiplies(o, v.ptr),
    }
}

/// Whether an operation is the norm before the attention of a layer.
pub open spec fn norms_attention(o: PrefillOpV, layers: Seq<LayerWeights>) -> bool {
    exists|i: int|
        0 <= i < layers.len() && launches(
            o,
            Kernel::RmsNormRowsF16,
            2,
            (#[trigger] layers[i]).attn_norm.ptr,
        )
}

/// Whether an operation is the norm before the feed-forward half of a layer.
pub open spec fn norms_feed(o: PrefillOpV, layers: Seq<LayerWeights>) -> bool {
    exists|i: int|
        0 <= i < layers.len() && launches(
            o,
            Kernel::RmsNormRowsF16,
            2,
            (#[trigger] layers[i]).ffn_norm.ptr,
        )
}

/// Whether an operation is what a mark ends.
pub open spec fn ends(
    t: PTag,
    o: PrefillOpV,
    x: PrefillCtx,
    layers: Seq<LayerWeights>,
) -> bool {
    let b = x.b;
    match t {
        PTag::Gather => launches(o, Kernel::GatherRowsF16, 1, b.x.ptr),
        PTag::RmsAttn => norms_attention(o, layers),
        PTag::GemmQkv => projects(o, b),
        PTag::CastQkv => launches(o, Kernel::CastSplitQkvF16, 3, b.v.ptr) || launches(
            o,
            Kernel::CastF32ToF16,
            1,
            b.v.ptr,
        ),
        PTag::RmsHeadsQ => launches(o, Kernel::RmsNormHeadsF16, 1, b.q.ptr),
        PTag::RmsHeadsK => launches(o, Kernel::RmsNormHeadsF16, 1, b.k.ptr),
        PTag::RopeQ => launches(o, Kernel::RopeNeoxRowsF16, 0, b.q.ptr),
        PTag::RopeK => launches(o, Kernel::RopeNeoxRowsF16, 0, b.k.ptr),
        PTag::ScaleQ => launches(o, Kernel::ScaleF16, 0, b.q.ptr),
        PTag::Fmha => o is Fmha,
        PTag::KvWrite => launches(o, Kernel::KvWriteSeqRows, 0, b.k.ptr),
        PTag::GemmO => multiplies(o, b.c_o.ptr),
        PTag::CastO => launches(o, Kernel::CastF32ToF16, 1, b.oadd.ptr),
        PTag::AddO => launches(o, Kernel::AddF16, 1, b.oadd.ptr),
        PTag::RmsFfn => norms_feed(o, layers),
        PTag::GemmGate => multiplies(o, b.c_g.ptr),
        PTag::GemmUp => multiplies(o, b.c_u.ptr),
        PTag::CastGU => launches(o, Kernel::CastF32ToF16, 1, b.up.ptr),
        PTag::Swiglu => launches(o, Kernel::SwigluF16, 2, b.down.ptr),
        PTag::GemmDown => multiplies(o, b.c_d.ptr),
        PTag::CastD => launches(o, Kernel::CastF32ToF16, 1, b.l2.ptr),
        PTag::AddD => launches(o, Kernel::AddF16, 1, b.l2.ptr),
        PTag::FinalRms => launches(o, Kernel::RmsNormRowsF16, 2, x.c.final_norm),
        PTag::LmHead => multiplies(o, b.logits.ptr),
        PTag::LayerBoundary => o == PrefillOpV::Mark(PTag::AddD),
    }
}

/// Whether every mark stands behind what it ends.
pub open spec fn marked(s: Seq<PrefillOpV>, x: PrefillCtx, layers: Seq<LayerWeights>) -> bool {
    forall|i: int|
        0 <= i < s.len() && (#[trigger] s[i]) is Mark ==> i > 0 && ends(
            s[i]->Mark_0,
            s[i - 1],
            x,
            layers,
        )
}

proof fn lemma_put(s: Seq<PrefillOpV>, o: PrefillOpV, x: PrefillCtx, layers: Seq<LayerWeights>)
    requires
        marked(s, x, layers),
        o !is Mark,
    ensures
        marked(s.push(o), x, layers),
{
    let t = s.push(o);
    assert forall|i: int| 0 <= i < t.len() && (#[trigger] t[i]) is Mark implies i > 0 && ends(
        t[i]->Mark_0,
        t[i - 1],
        x,
        layers,
    ) by {
        assert(t[i] == s[i] && t[i - 1] == s[i - 1]);
    }
}

proof fn lemma_tag(s: Seq<PrefillOpV>, m: PTag, x: PrefillCtx, layers: Seq<LayerWeights>)
    requires
        marked(s, x, layers),
        s.len() > 0,
        ends(m, s.last(), x, layers),
    ensures
        marked(ptag(s, m), x, layers),
{
    let t = ptag(s, m);
    assert forall|i: int| 0 <= i < t.len() && (#[trigger] t[i]) is Mark implies i > 0 && ends(
        t[i]->Mark_0,
        t[i - 1],
        x,
        layers,
    ) by {
        assert(t[i - 1] == s[i - 1]);
        if i < s.len() {
            assert(t[i] == s[i]);
        }
    }
}

/// A launch and its mark.
proof fn lemma_run(
    s: Seq<PrefillOpV>,
    l: LaunchV,
    m: PTag,
    x: PrefillCtx,
    layers: Seq<LayerWeights>,
)
    requires
        marked(s, x, layers),
        ends(m, PrefillOpV::Launch(l), x, layers),
    ensures
        marked(prun(s, l, m), x, layers),
{
    lemma_put(s, PrefillOpV::Launch(l), x, layers);
    lemma_tag(pput(s, l), m, x, layers);
}

/// A product and its mark.
proof fn lemma_gemm(
    s: Seq<PrefillOpV>,
    x: PrefillCtx,
    layers: Seq<LayerWeights>,
    a: u64,
    w: u64,
    n: int,
    k: int,
    c: u64,
    m: PTag,
)
    requires
        marked(s, x, layers),
        forall|o: PrefillOpV| #[trigger] multiplies(o, c) ==> ends(m, o, x, layers),
    ensures
        marked(pgemm(s, x.c.on, a, w, x.s, n, k, c, m), x, layers),
{
    let g = call_of(x.c.on, col_major_swap(a, w, c, x.s, n as usize, k as usize));
    let o = PrefillOpV::Gemm(g);
    assert(multiplies(o, c));
    lemma_put(s, o, x, layers);
    lemma_tag(s.push(o), m, x, layers);
}

proof fn lemma_qkv(s: Seq<PrefillOpV>, x: PrefillCtx, layers: Seq<LayerWeights>, w: LayerWeights)
    requires
        marked(s, x, layers),
    ensures
        marked(pqkv_ops(s, x, w), x, layers),
{
    let (on, cfg, b, n) = (x.c.on, x.c.cfg, x.b, x.c.nums_of());
    let (h, xn) = (cfg.hidden_size as int, b.xn.ptr);
    match b.c_qkv {
        QkvScratch::Joined { qkv } => {
            let j = cfg.nqk() + 2 * cfg.kvk();
            let p = w.qkv_proj->0.ptr;
            lemma_gemm(s, x, layers, xn, p, j, h, qkv.ptr, PTag::GemmQkv);
            let s = pgemm(s, on, xn, p, x.s, j, h, qkv.ptr, PTag::GemmQkv);
            lemma_run(s, p_split(x, qkv.ptr), PTag::CastQkv, x, layers);
        },
        QkvScratch::Apart { q, k, v } => {
            let (nq, nk) = (cfg.nqk(), cfg.kvk());
            lemma_gemm(s, x, layers, xn, w.q_proj.ptr, nq, h, q.ptr, PTag::GemmQkv);
            let s = pgemm(s, on, xn, w.q_proj.ptr, x.s, nq, h, q.ptr, PTag::GemmQkv);
            let l = p_cast(x, q.ptr, b.q.ptr, n.nqk);
            lemma_put(s, PrefillOpV::Launch(l), x, layers);
            let s = pput(s, l);
            lemma_gemm(s, x, layers, xn, w.k_proj.ptr, nk, h, k.ptr, PTag::GemmQkv);
            let s = pgemm(s, on, xn, w.k_proj.ptr, x.s, nk, h, k.ptr, PTag::GemmQkv);
            let l = p_cast(x, k.ptr, b.k.ptr, n.kvk);
            lemma_put(s, PrefillOpV::Launch(l), x, layers);
            let s = pput(s, l);
            lemma_gemm(s, x, layers, xn, w.v_proj.ptr, nk, h, v.ptr, PTag::GemmQkv);
            let s = pgemm(s, on, xn, w.v_proj.ptr, x.s, nk, h, v.ptr, PTag::GemmQkv);
            lemma_run(s, p_cast(x, v.ptr, b.v.ptr, n.kvk), PTag::CastQkv, x, layers);
        },
    }
}

proof fn lemma_attn(
    s: Seq<PrefillOpV>,
    x: PrefillCtx,
    layers: Seq<LayerWeights>,
    w: LayerWeights,
    li: int,
)
    requires
        marked(s, x, layers),
    ensures
        marked(pattn_ops(s, x, w, li), x, layers),
{
    let n = x.c.nums_of();
    let (q, k) = (x.b.q.ptr, x.b.k.ptr);
    let s = match (w.q_norm, w.k_norm) {
        (Some(qn), Some(kn)) => {
            let l = p_norm(x, n.q_heads, q, qn.ptr);
            lemma_run(s, l, PTag::RmsHeadsQ, x, layers);
            let s = prun(s, l, PTag::RmsHeadsQ);
            let l = p_norm(x, n.kv_heads, k, kn.ptr);
            lemma_run(s, l, PTag::RmsHeadsK, x, layers);
            prun(s, l, PTag::RmsHeadsK)
        },
        _ => s,
    };
    lemma_run(s, p_rope(x, n.q_heads, q), PTag::RopeQ, x, layers);
    let s = prun(s, p_rope(x, n.q_heads, q), PTag::RopeQ);
    lemma_run(s, p_rope(x, n.kv_heads, k), PTag::RopeK, x, layers);
    let s = prun(s, p_rope(x, n.kv_heads, k), PTag::RopeK);
    lemma_run(s, p_scale(x), PTag::ScaleQ, x, layers);
    let s = prun(s, p_scale(x), PTag::ScaleQ);
    let o = PrefillOpV::Fmha(p_fmha(x));
    lemma_put(s, o, x, layers);
    lemma_tag(s.push(o), PTag::Fmha, x, layers);
    let s = ptag(s.push(o), PTag::Fmha);
    lemma_run(s, p_kv_write(x, li), PTag::KvWrite, x, layers);
}

proof fn lemma_out(s: Seq<PrefillOpV>, x: PrefillCtx, layers: Seq<LayerWeights>, w: LayerWeights)
    requires
        marked(s, x, layers),
    ensures
        marked(pout_ops(s, x, w), x, layers),
{
    let (on, cfg, b, n) = (x.c.on, x.c.cfg, x.b, x.c.nums_of());
    let (h, q, p) = (cfg.hidden_size as int, cfg.nqk(), w.o_proj.ptr);
    lemma_gemm(s, x, layers, b.o.ptr, p, h, q, b.c_o.ptr, PTag::GemmO);
    let s = pgemm(s, on, b.o.ptr, p, x.s, h, q, b.c_o.ptr, PTag::GemmO);
    let l = p_cast(x, b.c_o.ptr, b.oadd.ptr, n.h);
    lemma_run(s, l, PTag::CastO, x, layers);
    lemma_run(prun(s, l, PTag::CastO), p_add(x, b.oadd.ptr), PTag::AddO, x, layers);
}

proof fn lemma_ffn(s: Seq<PrefillOpV>, x: PrefillCtx, layers: Seq<LayerWeights>, li: int)
    requires
        marked(s, x, layers),
        0 <= li < layers.len(),
    ensures
        marked(pffn_ops(s, x, layers[li]), x, layers),
{
    let (on, cfg, b, n, w) = (x.c.on, x.c.cfg, x.b, x.c.nums_of(), layers[li]);
    let (h, f, xn) = (cfg.hidden_size as int, cfg.ffn_hidden as int, b.xn.ptr);
    let l = p_rms(x, w.ffn_norm.ptr);
    assert(launches(PrefillOpV::Launch(l), Kernel::RmsNormRowsF16, 2, layers[li].ffn_norm.ptr));
    lemma_run(s, l, PTag::RmsFfn, x, layers);
    let s = prun(s, l, PTag::RmsFfn);
    lemma_gemm(s, x, layers, xn, w.gate_proj.ptr, f, h, b.c_g.ptr, PTag::GemmGate);
    let s = pgemm(s, on, xn, w.gate_proj.ptr, x.s, f, h, b.c_g.ptr, PTag::GemmGate);
    let l = p_cast(x, b.c_g.ptr, b.gate.ptr, n.ffn);
    lemma_put(s, PrefillOpV::Launch(l), x, layers);
    let s = pput(s, l);
    lemma_gemm(s, x, layers, xn, w.up_proj.ptr, f, h, b.c_u.ptr, PTag::GemmUp);
    let s = pgemm(s, on, xn, w.up_proj.ptr, x.s, f, h, b.c_u.ptr, PTag::GemmUp);
    let l = p_cast(x, b.c_u.ptr, b.up.ptr, n.ffn);
    lemma_run(s, l, PTag::CastGU, x, layers);
    let s = prun(s, l, PTag::CastGU);
    lemma_run(s, p_swiglu(x), PTag::Swiglu, x, layers);
    let s = prun(s, p_swiglu(x), PTag::Swiglu);
    let (d, p) = (b.down.ptr, w.down_proj.ptr);
    lemma_gemm(s, x, layers, d, p, h, f, b.c_d.ptr, PTag::GemmDown);
    let s = pgemm(s, on, d, p, x.s, h, f, b.c_d.ptr, PTag::GemmDown);
    let l = p_cast(x, b.c_d.ptr, b.l2.ptr, n.h);
    lemma_run(s, l, PTag::CastD, x, layers);
    let s = prun(s, l, PTag::CastD);
    lemma_run(s, p_add(x, b.l2.ptr), PTag::AddD, x, layers);
    lemma_tag(prun(s, p_add(x, b.l2.ptr), PTag::AddD), PTag::LayerBoundary, x, layers);
}

proof fn lemma_layers(s: Seq<PrefillOpV>, x: PrefillCtx, layers: Seq<LayerWeights>, n: nat)
    requires
        marked(s, x, layers),
        n <= layers.len(),
    ensures
        marked(players_ops(s, x, layers, n), x, layers),
    decreases n,
{
    if n > 0 {
        let (li, w) = (n - 1, layers[n - 1]);
        lemma_layers(s, x, layers, li as nat);
        let s = players_ops(s, x, layers, li as nat);
        let l = p_rms(x, w.attn_norm.ptr);
        assert(launches(
            PrefillOpV::Launch(l),
            Kernel::RmsNormRowsF16,
            2,
            layers[li].attn_norm.ptr,
        ));
        lemma_run(s, l, PTag::RmsAttn, x, layers);
        let s = prun(s, l, PTag::RmsAttn);
        lemma_qkv(s, x, layers, w);
        let s = pqkv_ops(s, x, w);
        lemma_attn(s, x, layers, w, li);
        let s = pattn_ops(s, x, w, li);
        lemma_out(s, x, layers, w);
        lemma_ffn(pout_ops(s, x, w), x, layers, li);
    }
}

/// Every mark of a pass ends what it names: it stands behind the launch or the product that
/// writes the rows of that name.
pub proof fn marks_end_what_they_name(
    x: PrefillCtx,
    layers: Seq<LayerWeights>,
    lm_head: u64,
    i: int,
)
    requires
        0 <= i < prefill_ops(x, layers, lm_head).len(),
        prefill_ops(x, layers, lm_head)[i] is Mark,
    ensures
        ({
            let s = prefill_ops(x, layers, lm_head);
            i > 0 && ends(s[i]->Mark_0, s[i - 1], x, layers)
        }),
{
    let (cfg, b, xn) = (x.c.cfg, x.b, x.b.xn.ptr);
    let (v, h) = (cfg.vocab_size as int, cfg.hidden_size as int);
    let s = Seq::<PrefillOpV>::empty();
    lemma_run(s, p_gather(x), PTag::Gather, x, layers);
    let s = prun(s, p_gather(x), PTag::Gather);
    lemma_layers(s, x, layers, layers.len());
    let s = players_ops(s, x, layers, layers.len());
    lemma_run(s, p_rms(x, x.c.final_norm), PTag::FinalRms, x, layers);
    let s = prun(s, p_rms(x, x.c.final_norm), PTag::FinalRms);
    lemma_gemm(s, x, layers, xn, lm_head, v, h, b.logits.ptr, PTag::LmHead);
}

/// Whether an operation of a step is a launch of a kernel.
pub open spec fn runs(o: StepOpV, k: Kernel) -> bool {
    o matches StepOpV::Launch(l) && l.kernel == k
}

/// Whether an operation of a step is a launch of a kernel with an address as one of its
/// arguments.
pub open spec fn runs_on(o: StepOpV, k: Kernel, arg: int, at: u64) -> bool {
    o matches StepOpV::Launch(l) && l.kernel == k && arg < l.args.len() && l.args[arg] == at
}

/// Whether an operation of a step is a product into a buffer.
pub open spec fn makes(o: StepOpV, at: u64) -> bool {
    o matches StepOpV::Gemm(p) && p.c == at
}

/// Whether an operation of a step of separate launches belongs to a segment: the small ones
/// before the layers and the norm before a layer's projections; the projections with their
/// casts; what is done to heads, up to attention; its output; the two projections of the
/// feed-forward half; their activation and the projection back; the residual adds; and the
/// output head.
pub open spec fn belongs(seg: u8, o: StepOpV, c: StepCtx) -> bool {
    let b = c.b;
    if seg == 0 {
        o is UploadLens || runs(o, Kernel::GatherRow) || runs_on(
            o,
            Kernel::RmsNormRowF16,
            1,
            b.xn.ptr,
        )
    } else if seg == 1 {
        makes(o, b.c_q.ptr) || makes(o, b.c_k.ptr) || makes(o, b.c_v.ptr) || runs(
            o,
            Kernel::CastF32ToF16,
        )
    } else if seg == 2 {
        runs(o, Kernel::RmsNormHeadsF16) || runs(o, Kernel::RopeHeadsF16) || runs(
            o,
            Kernel::KvWriteRow,
        ) || runs(o, Kernel::DecodeStepGqa) || o is Attn || o is FlashRefused
    } else if seg == 3 {
        makes(o, b.c_o.ptr)
    } else if seg == 4 {
        makes(o, b.c_g.ptr) || makes(o, b.c_u.ptr)
    } else if seg == 5 {
        runs(o, Kernel::FusedCastSwigluF16) || makes(o, b.c_d.ptr)
    } else if seg == 6 {
        runs(o, Kernel::FusedAddRmsF16) || runs(o, Kernel::AddCastF16)
    } else if seg == 7 {
        runs_on(o, Kernel::RmsNormRowF16, 2, c.final_norm) || makes(o, b.logits.ptr)
    } else {
        false
    }
}

/// Whether an operation is work that a profiler counts.
pub open spec fn is_work(o: StepOpV) -> bool {
    o is Launch || o is Gemm || o is Attn || o is FlashRefused || o is UploadLens
}

/// Whether every piece of work is counted right behind it, in the segment that it belongs
/// to, and nothing else is.
#[verifier::opaque]
pub open spec fn is_counted(s: Seq<StepOpV>, c: StepCtx) -> bool {
    &&& forall|i: int|
        0 <= i < s.len() && is_work(#[trigger] s[i]) ==> i + 1 < s.len() && s[i + 1] is Prof && s[i
            + 1]->Prof_0 is Count
    &&& forall|i: int|
        0 <= i < s.len() && (#[trigger] s[i]) is Prof && s[i]->Prof_0 is Count ==> i > 0 && belongs(
            s[i]->Prof_0->Count_0,
            s[i - 1],
            c,
        )
}

/// Work and its count.
broadcast proof fn lemma_counted(s: Seq<StepOpV>, o: StepOpV, seg: u8, c: StepCtx)
    requires
        is_counted(s, c),
        is_work(o),
        belongs(seg, o, c),
    ensures
        #[trigger] is_counted(count(s.push(o), seg), c),
{
    reveal(is_counted);
    let t = count(s.push(o), seg);
    let n = s.len() as int;
    assert(t[n] == o && t[n + 1] == StepOpV::Prof(ProfOp::Count(seg)));
    assert forall|i: int| 0 <= i < t.len() && is_work(#[trigger] t[i]) implies i + 1 < t.len()
        && t[i + 1] is Prof && t[i + 1]->Prof_0 is Count by {
        if i < n {
            assert(t[i] == s[i]);
            assert(is_work(s[i]));
            assert(t[i + 1] == s[i + 1]);
        }
    }
    assert forall|i: int|
        0 <= i < t.len() && (#[trigger] t[i]) is Prof && t[i]->Prof_0 is Count implies i > 0
        && belongs(t[i]->Prof_0->Count_0, t[i - 1], c) by {
        if i < n {
            assert(t[i] == s[i] && t[i - 1] == s[i - 1]);
        }
    }
}

/// What is neither work nor a count.
broadcast proof fn lemma_uncounted(s: Seq<StepOpV>, o: StepOpV, c: StepCtx)
    requires
        is_counted(s, c),
        !is_work(o),
        !(o is Prof && o->Prof_0 is Count),
    ensures
        #[trigger] is_counted(s.push(o), c),
{
    reveal(is_counted);
    let t = s.push(o);
    let n = s.len() as int;
    assert forall|i: int| 0 <= i < t.len() && is_work(#[trigger] t[i]) implies i + 1 < t.len()
        && t[i + 1] is Prof && t[i + 1]->Prof_0 is Count by {
        if i < n {
            assert(t[i] == s[i]);
            assert(is_work(s[i]));
            assert(t[i + 1] == s[i + 1]);
        }
    }
    assert forall|i: int|
        0 <= i < t.len() && (#[trigger] t[i]) is Prof && t[i]->Prof_0 is Count implies i > 0
        && belongs(t[i]->Prof_0->Count_0, t[i - 1], c) by {
        if i < n {
            assert(t[i] == s[i] && t[i - 1] == s[i - 1]);
        }
    }
}

/// A layer.
proof fn lemma_layer_counted(
    s: Seq<StepOpV>,
    c: StepCtx,
    w: LayerWeights,
    li: int,
    pos: usize,
    m: StepMode,
)
    requires
        is_counted(s, c),
    ensures
        is_counted(layer_ops(s, c, w, layer_plans(c.cfg, c.b, w, false), li, pos, m), c),
{
    broadcast use lemma_counted, lemma_uncounted;

    let pl = layer_plans(c.cfg, c.b, w, false);
    let s1 = norm_ops(s, c, w, m.detail);
    assert(is_counted(s1, c));
    let s2 = qkv_ops(s1, c, pl);
    assert(is_counted(s2, c));
    let s3 = attn_ops(s2, c, w, li, pos, m.flash_off, m.detail);
    assert(is_counted(s3, c));
    assert(is_counted(ffn_ops(s3, c, w, pl, m.trace), c));
}

proof fn lemma_layers_counted(
    s: Seq<StepOpV>,
    c: StepCtx,
    layers: Seq<LayerWeights>,
    plans: Seq<LayerGemmPlans>,
    n: nat,
    pos: usize,
    m: StepMode,
)
    requires
        is_counted(s, c),
        n <= layers.len(),
        plans == layers.map_values(|w: LayerWeights| layer_plans(c.cfg, c.b, w, false)),
    ensures
        is_counted(layers_ops(s, c, layers, plans, n, pos, m), c),
    decreases n,
{
    if n > 0 {
        let k = (n - 1) as nat;
        lemma_layers_counted(s, c, layers, plans, k, pos, m);
        let t = layers_ops(s, c, layers, plans, k, pos, m);
        assert(plans[k as int] == layer_plans(c.cfg, c.b, layers[k as int], false));
        lemma_layer_counted(t, c, layers[k as int], k as int, pos, m);
    }
}

/// In a step of separate launches every launch, every product and the upload of the length
/// are counted once, in the segment that they belong to.
pub proof fn work_is_counted_where_it_belongs(
    c: StepCtx,
    layers: Seq<LayerWeights>,
    lm_head: DeviceBuffer,
    plans: DecodeGemmPlans,
    token: u32,
    pos: usize,
    kv_len: usize,
    m: StepMode,
)
    requires
        plans_of(plans, c.cfg, c.b, layers, lm_head, false),
    ensures
        is_counted(split_ops(c, layers, plans, token, pos, kv_len, m), c),
{
    broadcast use lemma_counted, lemma_uncounted;

    let s = Seq::<StepOpV>::empty();
    assert(is_counted(s, c)) by {
        reveal(is_counted);
    }
    let s = prologue(s, c, token, kv_len);
    assert(is_counted(s, c));
    lemma_layers_counted(s, c, layers, plans.layers@, layers.len(), pos, m);
    let s = layers_ops(s, c, layers, plans.layers@, layers.len(), pos, m);
    assert(is_counted(epilogue(s, c, plans.lm_head), c));
}

} // verus!
