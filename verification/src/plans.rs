//! The GEMMs of a decode step, fixed when the model is loaded.

use vstd::prelude::*;

use crate::buffer::DeviceBuffer;
use crate::gemm::{
    partials_need, row_major, served, shape_slabs, DataType, GemmPlan, Jgemm, Partials,
    PartialsNeed,
};
use crate::model::{LayerWeights, LlamaConfig, StepBuffers};

verus! {

/// The GEMMs of one layer.
#[derive(Debug, Clone, Copy, PartialEq, Eq, Structural)]
pub struct LayerGemmPlans {
    pub q: GemmPlan,
    pub k: GemmPlan,
    pub v: GemmPlan,
    pub o: GemmPlan,
    pub gate: GemmPlan,
    pub up: GemmPlan,
    pub down: GemmPlan,
}

/// The GEMMs of a decode step.
#[derive(Debug)]
pub struct DecodeGemmPlans {
    pub layers: Vec<LayerGemmPlans>,
    pub lm_head: GemmPlan,
}

/// The element type of weights and activations.
pub open spec fn tier(parity_f32: bool) -> DataType {
    if parity_f32 {
        DataType::F32
    } else {
        DataType::F16
    }
}

/// The GEMMs of a layer.  On the `f16` tier the operands are the `f16`
/// activations; on the `f32` tier they are the `f32` ones, where the gated row
/// stays in the output buffer of its first GEMM and the last GEMM shares the
/// output buffer of the attention output.
pub open spec fn layer_plans(
    cfg: LlamaConfig,
    b: StepBuffers,
    w: LayerWeights,
    parity_f32: bool,
) -> LayerGemmPlans {
    let dt = tier(parity_f32);
    let d = cfg.widths_of();
    let xn = if parity_f32 {
        b.xn32.ptr
    } else {
        b.xn.ptr
    };
    let (attn, gated, down) = if parity_f32 {
        (b.attn32.ptr, b.c_g.ptr, b.c_o.ptr)
    } else {
        (b.attn.ptr, b.down.ptr, b.c_d.ptr)
    };
    LayerGemmPlans {
        q: row_major(dt, xn, w.q_proj.ptr, b.c_q.ptr, 1, d.nqk, d.h),
        k: row_major(dt, xn, w.k_proj.ptr, b.c_k.ptr, 1, d.kvk, d.h),
        v: row_major(dt, xn, w.v_proj.ptr, b.c_v.ptr, 1, d.kvk, d.h),
        o: row_major(dt, attn, w.o_proj.ptr, b.c_o.ptr, 1, d.h, d.nqk),
        gate: row_major(dt, xn, w.gate_proj.ptr, b.c_g.ptr, 1, d.ffn, d.h),
        up: row_major(dt, xn, w.up_proj.ptr, b.c_u.ptr, 1, d.ffn, d.h),
        down: row_major(dt, gated, w.down_proj.ptr, down, 1, d.h, d.ffn),
    }
}

/// The GEMM of the output head.
pub open spec fn head_plan(
    cfg: LlamaConfig,
    b: StepBuffers,
    lm_head: DeviceBuffer,
    parity_f32: bool,
) -> GemmPlan {
    let xn = if parity_f32 {
        b.xn32.ptr
    } else {
        b.xn.ptr
    };
    row_major(tier(parity_f32), xn, lm_head.ptr, b.logits.ptr, 1, cfg.vocab_size, cfg.hidden_size)
}

/// Whether these are the plans of a model.
pub open spec fn plans_of(
    p: DecodeGemmPlans,
    cfg: LlamaConfig,
    b: StepBuffers,
    layers: Seq<LayerWeights>,
    lm_head: DeviceBuffer,
    parity_f32: bool,
) -> bool {
    &&& p.layers@ == layers.map_values(|w: LayerWeights| layer_plans(cfg, b, w, parity_f32))
    &&& p.lm_head == head_plan(cfg, b, lm_head, parity_f32)
}

/// Whether the widths of every GEMM are within what the two-phase kernels take.
pub open spec fn narrow(p: DecodeGemmPlans) -> bool {
    &&& forall|i: int| 0 <= i < p.layers@.len() ==> narrow_layer(#[trigger] p.layers@[i])
    &&& -0x4000_0000 <= p.lm_head.n < 0x4000_0000
}

pub open spec fn narrow_layer(l: LayerGemmPlans) -> bool {
    &&& -0x4000_0000 <= l.q.n < 0x4000_0000
    &&& -0x4000_0000 <= l.k.n < 0x4000_0000
    &&& -0x4000_0000 <= l.v.n < 0x4000_0000
    &&& -0x4000_0000 <= l.o.n < 0x4000_0000
    &&& -0x4000_0000 <= l.gate.n < 0x4000_0000
    &&& -0x4000_0000 <= l.up.n < 0x4000_0000
    &&& -0x4000_0000 <= l.down.n < 0x4000_0000
}

/// The widths of a model's GEMMs are those of its rows.
pub proof fn lemma_narrow(
    p: DecodeGemmPlans,
    cfg: LlamaConfig,
    b: StepBuffers,
    layers: Seq<LayerWeights>,
    lm_head: DeviceBuffer,
    parity_f32: bool,
)
    requires
        cfg.wf(),
        plans_of(p, cfg, b, layers, lm_head, parity_f32),
    ensures
        narrow(p),
{
    cfg.lemma_heads();
}

fn plan(parity_f32: bool, a: u64, b: u64, c: u64, m: usize, n: usize, k: usize) -> (p: GemmPlan)
    ensures
        p == row_major(tier(parity_f32), a, b, c, m, n, k),
{
    if parity_f32 {
        GemmPlan::row_major_f32(a, b, c, m, n, k)
    } else {
        GemmPlan::row_major_f16(a, b, c, m, n, k)
    }
}

fn build_layer(cfg: &LlamaConfig, b: &StepBuffers, w: &LayerWeights, parity_f32: bool) -> (p:
    LayerGemmPlans)
    requires
        cfg.wf(),
    ensures
        p == layer_plans(*cfg, *b, *w, parity_f32),
{
    let d = cfg.widths();
    let xn: u64 = if parity_f32 {
        b.xn32.ptr
    } else {
        b.xn.ptr
    };
    let (attn, gated, down) = if parity_f32 {
        (b.attn32.ptr, b.c_g.ptr, b.c_o.ptr)
    } else {
        (b.attn.ptr, b.down.ptr, b.c_d.ptr)
    };
    LayerGemmPlans {
        q: plan(parity_f32, xn, w.q_proj.ptr, b.c_q.ptr, 1, d.nqk, d.h),
        k: plan(parity_f32, xn, w.k_proj.ptr, b.c_k.ptr, 1, d.kvk, d.h),
        v: plan(parity_f32, xn, w.v_proj.ptr, b.c_v.ptr, 1, d.kvk, d.h),
        o: plan(parity_f32, attn, w.o_proj.ptr, b.c_o.ptr, 1, d.h, d.nqk),
        gate: plan(parity_f32, xn, w.gate_proj.ptr, b.c_g.ptr, 1, d.ffn, d.h),
        up: plan(parity_f32, xn, w.up_proj.ptr, b.c_u.ptr, 1, d.ffn, d.h),
        down: plan(parity_f32, gated, w.down_proj.ptr, down, 1, d.h, d.ffn),
    }
}

impl DecodeGemmPlans {
    /// The GEMMs of a decode step over a model's weights and buffers.
    pub fn build(
        cfg: &LlamaConfig,
        b: &StepBuffers,
        layers: &Vec<LayerWeights>,
        lm_head: &DeviceBuffer,
        parity_f32: bool,
    ) -> (p: Self)
        requires
            cfg.wf(),
        ensures
            plans_of(p, *cfg, *b, layers@, *lm_head, parity_f32),
            narrow(p),
    {
        let mut out: Vec<LayerGemmPlans> = Vec::new();
        let mut i: usize = 0;
        while i < layers.len()
            invariant
                i <= layers.len(),
                cfg.wf(),
                out@ == layers@.subrange(0, i as int).map_values(
                    |w: LayerWeights| layer_plans(*cfg, *b, w, parity_f32),
                ),
            decreases layers.len() - i,
        {
            out.push(build_layer(cfg, b, &layers[i], parity_f32));
            proof {
                assert(out@ =~= layers@.subrange(0, i + 1).map_values(
                    |w: LayerWeights| layer_plans(*cfg, *b, w, parity_f32),
                ));
            }
            i = i + 1;
        }
        let xn: u64 = if parity_f32 {
            b.xn32.ptr
        } else {
            b.xn.ptr
        };
        proof {
            assert(layers@.subrange(0, layers@.len() as int) =~= layers@);
        }
        DecodeGemmPlans {
            layers: out,
            lm_head: plan(
                parity_f32,
                xn,
                lm_head.ptr,
                b.logits.ptr,
                1,
                cfg.vocab_size,
                cfg.hidden_size,
            ),
        }
    }
}

/// On the `f16` tier every GEMM of the step is served by the two-phase kernels;
/// on the `f32` tier none is.
pub proof fn tier_decides_who_serves(
    p: DecodeGemmPlans,
    cfg: LlamaConfig,
    b: StepBuffers,
    layers: Seq<LayerWeights>,
    lm_head: DeviceBuffer,
    parity_f32: bool,
    li: int,
)
    requires
        plans_of(p, cfg, b, layers, lm_head, parity_f32),
        0 <= li < layers.len(),
    ensures
        ({
            let l = p.layers@[li];
            &&& served(l.q) == !parity_f32
            &&& served(l.k) == !parity_f32
            &&& served(l.v) == !parity_f32
            &&& served(l.o) == !parity_f32
            &&& served(l.gate) == !parity_f32
            &&& served(l.up) == !parity_f32
            &&& served(l.down) == !parity_f32
            &&& served(p.lm_head) == !parity_f32
        }),
{
}

/// Bytes of partial sums that a GEMM takes, where the two-phase kernels serve it.
pub open spec fn partial_bytes(p: GemmPlan) -> int {
    if served(p) && p.n > 0 {
        p.n * shape_slabs(p.n, p.k) * 4
    } else {
        0
    }
}

pub open spec fn larger(a: int, b: int) -> int {
    if a > b {
        a
    } else {
        b
    }
}

/// The largest need of a layer.
pub open spec fn layer_bytes(l: LayerGemmPlans) -> int {
    let m = larger(partial_bytes(l.q), larger(partial_bytes(l.k), partial_bytes(l.v)));
    let f = larger(partial_bytes(l.gate), larger(partial_bytes(l.up), partial_bytes(l.down)));
    larger(m, larger(partial_bytes(l.o), f))
}

/// The largest need of the first `n` layers and of the output head.
pub open spec fn plans_bytes(p: DecodeGemmPlans, n: nat) -> int
    decreases n,
{
    if n == 0 {
        partial_bytes(p.lm_head)
    } else {
        larger(plans_bytes(p, (n - 1) as nat), layer_bytes(p.layers@[n - 1]))
    }
}

fn bytes_of(jg: &Jgemm, p: &GemmPlan) -> (b: u64)
    requires
        -0x4000_0000 <= p.n < 0x4000_0000,
    ensures
        b == partial_bytes(*p),
{
    if jg.matches(p) && p.n > 0 {
        let (_, nslabs) = jg.shape(p.n, p.k);
        proof {
            assert(p.n * nslabs <= 0x4000_0000 * 192) by (nonlinear_arith)
                requires
                    0 < p.n < 0x4000_0000,
                    0 <= nslabs <= 192,
            ;
        }
        p.n as u64 * nslabs as u64 * 4
    } else {
        0
    }
}

fn larger_of(a: u64, b: u64) -> (r: u64)
    ensures
        r == larger(a as int, b as int),
{
    if a > b {
        a
    } else {
        b
    }
}

fn layer_need(jg: &Jgemm, l: &LayerGemmPlans) -> (b: u64)
    requires
        narrow_layer(*l),
    ensures
        b == layer_bytes(*l),
{
    let m: u64 = larger_of(bytes_of(jg, &l.q), larger_of(bytes_of(jg, &l.k), bytes_of(jg, &l.v)));
    let f: u64 = larger_of(
        bytes_of(jg, &l.gate),
        larger_of(bytes_of(jg, &l.up), bytes_of(jg, &l.down)),
    );
    larger_of(m, larger_of(bytes_of(jg, &l.o), f))
}

impl DecodeGemmPlans {
    /// Bytes of partial sums that serve every GEMM of the step.
    pub fn partials_need(&self, jg: &Jgemm) -> (b: u64)
        requires
            narrow(*self),
        ensures
            b == plans_bytes(*self, self.layers@.len()),
    {
        let mut b: u64 = bytes_of(jg, &self.lm_head);
        let mut i: usize = 0;
        while i < self.layers.len()
            invariant
                i <= self.layers@.len(),
                narrow(*self),
                b == plans_bytes(*self, i as nat),
            decreases self.layers@.len() - i,
        {
            b = larger_of(b, layer_need(jg, &self.layers[i]));
            i = i + 1;
        }
        b
    }
}

/// Once the partial sums have the bytes that serve every GEMM, no GEMM of the step
/// allocates: each finds them at the same address.
pub proof fn no_allocation_within_a_step(p: DecodeGemmPlans, parts: Partials, n: nat, li: int)
    requires
        n == p.layers@.len(),
        parts.cap >= plans_bytes(p, n),
        0 <= li < n,
    ensures
        ({
            let l = p.layers@[li];
            let have = Some(parts);
            let ready = PartialsNeed::Ready(parts.ptr);
            &&& partials_need(have, partial_bytes(l.q)) == ready
            &&& partials_need(have, partial_bytes(l.k)) == ready
            &&& partials_need(have, partial_bytes(l.v)) == ready
            &&& partials_need(have, partial_bytes(l.o)) == ready
            &&& partials_need(have, partial_bytes(l.gate)) == ready
            &&& partials_need(have, partial_bytes(l.up)) == ready
            &&& partials_need(have, partial_bytes(l.down)) == ready
            &&& partials_need(have, partial_bytes(p.lm_head)) == ready
        }),
{
    lemma_layer_need(p, n, li);
}

proof fn lemma_layer_need(p: DecodeGemmPlans, n: nat, li: int)
    requires
        0 <= li < n,
    ensures
        layer_bytes(p.layers@[li]) <= plans_bytes(p, n),
        partial_bytes(p.lm_head) <= plans_bytes(p, n),
    decreases n,
{
    if li < n - 1 {
        lemma_layer_need(p, (n - 1) as nat, li);
    } else {
        lemma_head_need(p, n);
    }
}

proof fn lemma_head_need(p: DecodeGemmPlans, n: nat)
    ensures
        partial_bytes(p.lm_head) <= plans_bytes(p, n),
    decreases n,
{
    if n > 0 {
        lemma_head_need(p, (n - 1) as nat);
    }
}

} // verus!
