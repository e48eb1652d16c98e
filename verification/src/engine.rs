//! The engine: a loaded model, and how its steps are served.

use vstd::prelude::*;

use crate::batch::{path_of, single_steps, BatchPath, BatchReq, SegRef};
use crate::batch_step::{BatchGemm, BatchState};
use crate::buffer::DeviceBuffer;
use crate::decl::{
    stepped, stepping_keeps_the_declaration, GraphStepDecl, NodeT, StepVars,
};
use crate::decl_fused::{
    fused_decl, fused_nodes_are_custom, layer_fused_decl, layer_fused_nodes_are_custom,
};
use crate::decl_split::{split_decl, split_nodes_are_custom_with_the_one_row_kernels};
use crate::decode::{flash_fits, KvStore};
use crate::engine_error::{EngineError, ErrorV};
use crate::error::LaunchError;
use crate::fused::{geom_of, FusedDecodeKernels, PLAN_ROW_BYTES};
use crate::fused_step::{
    fused_ops, geom_fits, layer_fused_ops, step_decode_launches_fused,
    step_decode_launches_layer_fused,
};
use crate::gemm::{
    call_of, col_major_swap, gemv_batch_phase1, gemv_batch_phase2, gemv_phase1, gemv_phase2,
    partials_need, served, shape_cols, shape_slabs, Gemm, GemmCall, GemmPlan, Jgemm, Partials,
    PartialsNeed,
};
use crate::graph_state::{after_capture, after_replay, CaptureOutcome, GraphChoice, GraphState};
use crate::launch::{CudaStream, Launch, Queue};
use crate::layer_fused::LayerFusedKernels;
use crate::load::{fused_serves, layer_fused_serves, wants_fused, wants_layer_fused, Switches};
use crate::model::{LayerWeights, LlamaConfig};
use crate::parity::{parity_ops, step_decode_launches_f32};
use crate::plans::{lemma_narrow, plans_bytes, plans_of, DecodeGemmPlans};
use crate::prefill::{gemm1r, StepArgs};
use crate::profile::{DecodeProfiler, PrefillProfiler};
use crate::split::{split_ops, step_decode_split, StepMode};
use crate::step::{Program, StepCtx, StepKernels, StepOpV};

verus! {

/// A form of the decode step.
#[derive(Debug, Clone, Copy, PartialEq, Eq, Structural)]
pub enum DecodePath {
    /// The `f32` tier.
    Parity,
    /// The declared nodes, with their cells as arguments.
    Declared,
    /// One launch per layer.
    LayerFused,
    Fused,
    /// One launch per operation.
    Split,
}

/// The engine.
#[derive(Debug)]
pub struct Engine {
    pub c: StepCtx,
    pub kernels: StepKernels,
    pub layers: Vec<LayerWeights>,
    pub lm_head: DeviceBuffer,
    pub kv: KvStore,
    pub arch: String,
    pub switches: Switches,
    pub gemm: Gemm,
    pub jgemm: Option<Jgemm>,
    pub jgemm_fallbacks: u64,
    pub fused: Option<FusedDecodeKernels>,
    pub layer_fused: Option<LayerFusedKernels>,
    pub plans: DecodeGemmPlans,
    pub graph: GraphState,
    pub graph_decl: Option<GraphStepDecl>,
    /// The address of the partial sums that the declaration was made with.
    pub declared_partials: Option<u64>,
    pub decode_flash_fallbacks: u64,
    pub prof: DecodeProfiler,
    pub prefill_prof: PrefillProfiler,
    pub batch: BatchState,
}

/// A view of the logits of the last step on the device.
#[derive(Debug, Clone, Copy, PartialEq, Eq, Structural)]
pub struct LogitsView {
    pub dev: u32,
    pub ptr: u64,
    pub bytes: usize,
    pub vocab: usize,
}

/// What is loaded before an engine can be assembled.
#[derive(Debug)]
pub struct EngineParts {
    pub c: StepCtx,
    pub kernels: StepKernels,
    pub layers: Vec<LayerWeights>,
    pub lm_head: DeviceBuffer,
    pub kv: KvStore,
    pub arch: String,
    pub switches: Switches,
    pub jgemm_loaded: bool,
    pub graph_on: bool,
    pub profile_on: bool,
    pub prefill_profile_on: bool,
}

impl EngineParts {
    /// Parts that belong together.
    pub open spec fn fit(self) -> bool {
        &&& self.c.wf()
        &&& self.kernels.launch_on(self.c)
        &&& self.layers@.len() == self.c.cfg.n_layer
        &&& self.layers@.len() <= u32::MAX
    }

    /// Whether the parts belong together.
    pub fn fits(&self) -> (b: bool)
        ensures
            b == self.fit(),
    {
        self.c.fits() && self.kernels.diff.stream == self.c.on.stream && self.kernels.decode.stream
            == self.c.on.stream && self.layers.len() == self.c.cfg.n_layer && self.layers.len() as u64
            <= 0xffff_ffff
    }
}

/// Whether a declaration takes the values of a step: they are in its cells, and nothing
/// else of it changes.
pub open spec fn takes_step(d: GraphStepDecl, e: GraphStepDecl, v: StepVars) -> bool {
    e.cells@ == stepped(d, v) && e == (GraphStepDecl { cells: e.cells, ..d })
}

impl Engine {
    /// The nodes that the engine's step is declared with: those of its most fused
    /// form.
    pub open spec fn step_nodes(self) -> Seq<NodeT> {
        match (self.layer_fused, self.fused) {
            (Some(lf), Some(f)) => layer_fused_decl(self.c, f.geom, lf, self.layers@),
            (None, Some(f)) => fused_decl(self.c, f.geom, self.layers@),
            _ => split_decl(self.c, self.layers@, self.plans, self.declared_partials),
        }
    }

    pub open spec fn wf(self) -> bool {
        &&& self.c.wf()
        &&& self.kernels.launch_on(self.c)
        &&& self.layers@.len() == self.c.cfg.n_layer
        &&& self.layers@.len() <= u32::MAX
        &&& self.gemm.dev == self.c.on.dev
        &&& self.jgemm is Some ==> self.jgemm->0.dev == self.c.on.dev
        &&& plans_of(
            self.plans,
            self.c.cfg,
            self.c.b,
            self.layers@,
            self.lm_head,
            self.switches.parity_f32,
        )
        &&& self.fused is Some ==> self.fused->0.dev == self.c.on.dev && geom_fits(
            self.fused->0.geom,
            self.c,
        )
        &&& self.layer_fused is Some ==> self.fused is Some && self.layer_fused->0.dev
            == self.c.on.dev
        &&& self.graph.wf()
        &&& self.graph_decl is Some ==> self.graph_decl->0.declares(self.step_nodes())
            && self.graph_decl->0.cell_kv_phys@.len() <= self.c.cfg.n_layer
        &&& self.prof.wf()
        &&& self.prefill_prof.wf()
    }

    /// An engine of loaded parts: its GEMMs are fixed, nothing is fused or declared,
    /// and nothing is counted.  Where the graph path is on, the step profiler stays
    /// inert: a capture admits no events.
    pub fn load_with_graph(p: EngineParts) -> (e: Self)
        requires
            p.fit(),
        ensures
            e.wf(),
            e.c == p.c,
            e.kernels == p.kernels,
            e.layers == p.layers,
            e.lm_head == p.lm_head,
            e.kv == p.kv,
            e.arch == p.arch,
            e.switches == p.switches,
            e.jgemm == (if p.jgemm_loaded && !p.switches.jgemm_off {
                Some(Jgemm { dev: p.c.on.dev, partials: None })
            } else {
                None
            }),
            e.jgemm_fallbacks == 0,
            e.fused is None,
            e.layer_fused is None,
            e.graph.on == p.graph_on,
            e.graph.execs.dev == p.c.on.dev,
            e.graph.is_fresh(),
            e.graph_decl is None,
            e.declared_partials is None,
            e.decode_flash_fallbacks == 0,
            e.prof.active == (p.profile_on && !p.graph_on),
            e.prof.is_fresh(),
            e.prefill_prof.active == p.prefill_profile_on,
            e.prefill_prof.is_fresh(),
            e.batch.scratch is None,
            e.batch.pages_key is None,
    {
        let dev: u32 = p.c.on.dev;
        let plans = DecodeGemmPlans::build(
            &p.c.cfg,
            &p.c.b,
            &p.layers,
            &p.lm_head,
            p.switches.parity_f32,
        );
        let jgemm = if p.jgemm_loaded && !p.switches.jgemm_off {
            Some(Jgemm::new(dev))
        } else {
            None
        };
        Engine {
            c: p.c,
            kernels: p.kernels,
            layers: p.layers,
            lm_head: p.lm_head,
            kv: p.kv,
            arch: p.arch,
            switches: p.switches,
            gemm: Gemm::new(dev),
            jgemm,
            jgemm_fallbacks: 0,
            fused: None,
            layer_fused: None,
            plans,
            graph: GraphState::new(dev, p.graph_on),
            graph_decl: None,
            declared_partials: None,
            decode_flash_fallbacks: 0,
            prof: DecodeProfiler::new(p.profile_on && !p.graph_on),
            prefill_prof: PrefillProfiler::new(p.prefill_profile_on),
            batch: BatchState::new(),
        }
    }

    /// Whether the fused kernels are to be loaded.
    pub fn wants_fused(&self) -> (b: bool)
        ensures
            b == fused_serves(self.switches, self.c.cfg, self.jgemm is Some),
    {
        wants_fused(&self.switches, &self.c.cfg, self.jgemm.is_some())
    }

    /// Takes the fused kernels with the geometry of the engine's GEMMs.
    pub fn set_fused(&mut self, f: FusedDecodeKernels, base: u64, tables: u64)
        requires
            old(self).wf(),
            old(self).graph_decl is None,
            f.dev == old(self).c.on.dev,
            geom_of(f.geom, old(self).plans, base, tables),
            tables + old(self).layers@.len() * 7 * PLAN_ROW_BYTES <= u64::MAX,
        ensures
            final(self).wf(),
            *final(self) == (Engine { fused: Some(f), ..*old(self) }),
    {
        self.fused = Some(f);
    }

    /// Whether the layer kernel is to be loaded.
    pub fn wants_layer_fused(&self) -> (b: bool)
        ensures
            b == layer_fused_serves(self.switches, self.c.cfg, self.fused is Some),
    {
        wants_layer_fused(&self.switches, &self.c.cfg, self.fused.is_some())
    }

    /// Takes the layer kernel.
    pub fn set_layer_fused(&mut self, lf: LayerFusedKernels)
        requires
            old(self).wf(),
            old(self).graph_decl is None,
            old(self).fused is Some,
            lf.dev == old(self).c.on.dev,
        ensures
            final(self).wf(),
            *final(self) == (Engine { layer_fused: Some(lf), ..*old(self) }),
    {
        self.layer_fused = Some(lf);
    }

    /// Whether a declaration is to be made: on the graph path of the `f16` tier.
    pub open spec fn declares_step(self) -> bool {
        self.graph.on && !self.switches.parity_f32
    }

    /// Whether the declaration names the address of the partial sums.
    pub open spec fn declares_partials(self) -> bool {
        self.declares_step() && self.fused is None && self.jgemm is Some
    }

    /// Bytes of partial sums that have to be there before the step is declared;
    /// `None` where the declaration names none.
    pub fn declaration_need(&self) -> (r: Option<u64>)
        requires
            self.wf(),
        ensures
            r is Some <==> self.declares_partials(),
            r is Some ==> r->0 == plans_bytes(self.plans, self.plans.layers@.len()),
    {
        if !self.graph.on || self.switches.parity_f32 || self.fused.is_some() {
            return None;
        }
        proof {
            lemma_narrow(
                self.plans,
                self.c.cfg,
                self.c.b,
                self.layers@,
                self.lm_head,
                self.switches.parity_f32,
            );
        }
        match &self.jgemm {
            Some(jg) => Some(self.plans.partials_need(jg)),
            None => None,
        }
    }

    /// Declares the step of the engine's most fused form, where a declaration is to
    /// be made.  It names the partial sums only where a GEMM of it runs on the one-row
    /// kernels by itself.
    pub fn declare(&mut self)
        requires
            old(self).wf(),
            old(self).graph_decl is None,
            old(self).declares_partials() ==> old(self).jgemm->0.partials is Some,
        ensures
            final(self).wf(),
            final(self).graph_decl is Some <==> old(self).declares_step(),
            final(self).declared_partials == if old(self).declares_partials() {
                Some(old(self).jgemm->0.partials->0.ptr)
            } else {
                None
            },
            final(self).graph_decl is Some ==> final(self).graph_decl->0.declares(
                final(self).step_nodes(),
            ),
            *final(self) == (Engine {
                graph_decl: final(self).graph_decl,
                declared_partials: final(self).declared_partials,
                ..*old(self)
            }),
    {
        self.declared_partials = None;
        if !self.graph.on || self.switches.parity_f32 {
            return;
        }
        proof {
            lemma_narrow(
                self.plans,
                self.c.cfg,
                self.c.b,
                self.layers@,
                self.lm_head,
                self.switches.parity_f32,
            );
        }
        if let Some(f) = &self.fused {
            if let Some(lf) = &self.layer_fused {
                let d = GraphStepDecl::build_layer_fused(&self.c, f, lf, &self.layers);
                self.graph_decl = Some(d);
            } else {
                let d = GraphStepDecl::build_fused(&self.c, &self.kernels, f, &self.layers);
                self.graph_decl = Some(d);
            }
        } else {
            let partials: Option<u64> = match &self.jgemm {
                Some(jg) => match jg.partials {
                    Some(p) => Some(p.ptr),
                    None => None,
                },
                None => None,
            };
            let d = GraphStepDecl::build(
                &self.c,
                &self.kernels,
                &self.layers,
                &self.plans,
                &self.jgemm,
                partials,
            );
            self.declared_partials = partials;
            self.graph_decl = Some(d);
        }
    }

    /// The product that is run once before the first step, and only where the graph path
    /// is on: the library behind it allocates its workspace at its first product, and a
    /// capture admits no allocation.  It has the extents of the output head, whose logits
    /// the first step overwrites.
    pub fn warm_up(&self) -> (r: Option<GemmPlan>)
        ensures
            r is Some <==> self.graph.on,
            r is Some ==> r->0 == self.plans.lm_head,
    {
        if self.graph.on {
            Some(self.plans.lm_head)
        } else {
            None
        }
    }

    /// The model's dimensions.
    pub fn config(&self) -> (c: &LlamaConfig)
        ensures
            *c == self.c.cfg,
    {
        &self.c.cfg
    }

    /// The engine's own KV store.
    pub fn kv_store(&self) -> (k: &KvStore)
        ensures
            *k == self.kv,
    {
        &self.kv
    }

    /// The device.
    pub fn device(&self) -> (d: u32)
        ensures
            d == self.c.on.dev,
    {
        self.c.on.dev
    }

    /// The stream of every launch and replay.
    pub fn decode_stream(&self) -> (s: &CudaStream)
        ensures
            *s == self.c.on.stream,
    {
        &self.c.on.stream
    }

    /// Where the logits of the last step are.
    pub fn logits_view(&self) -> (v: LogitsView)
        requires
            self.wf(),
        ensures
            v.dev == self.c.on.dev,
            v.ptr == self.c.b.logits.ptr,
            v.bytes == self.c.cfg.vocab_size * 4,
            v.vocab == self.c.cfg.vocab_size,
    {
        LogitsView {
            dev: self.c.on.dev,
            ptr: self.c.b.logits.ptr,
            bytes: self.c.cfg.vocab_size * 4,
            vocab: self.c.cfg.vocab_size,
        }
    }

    /// Steps that the graph path served eagerly after a failure.
    pub fn graph_eager_fallbacks(&self) -> (n: u64)
        ensures
            n == self.graph.eager_fallbacks,
    {
        self.graph.eager_fallbacks
    }

    /// Graphs that were captured and bound to their bucket.
    pub fn graph_captures(&self) -> (n: u64)
        ensures
            n == self.graph.captures,
    {
        self.graph.captures
    }

    /// Steps that were replayed.
    pub fn graph_replays(&self) -> (n: u64)
        ensures
            n == self.graph.replays,
    {
        self.graph.replays
    }

    /// Launches of flash attention that fell back.
    pub fn decode_flash_fallbacks(&self) -> (n: u64)
        ensures
            n == self.decode_flash_fallbacks,
    {
        self.decode_flash_fallbacks
    }

    /// Whether the one-row kernels are loaded.
    pub fn jgemm_enabled(&self) -> (b: bool)
        ensures
            b == self.jgemm is Some,
    {
        self.jgemm.is_some()
    }

    /// Launches of the one-row kernels that fell back to cuBLAS.
    pub fn jgemm_fallbacks(&self) -> (n: u64)
        ensures
            n == self.jgemm_fallbacks,
    {
        self.jgemm_fallbacks
    }

    /// Starts a step: a token without an embedding row is refused; else the values of
    /// the step are written into the declaration's cells, where there is one.
    pub fn begin_step(&mut self, token: u32, pos: usize) -> (r: Result<(), EngineError>)
        requires
            old(self).wf(),
            old(self).c.takes_pos(pos),
        ensures
            final(self).wf(),
            r is Err <==> token >= old(self).c.cfg.vocab_size,
            r is Err ==> r->Err_0@ == ErrorV::EmbeddingOov(token) && *final(self) == *old(self),
            *final(self) == (Engine { graph_decl: final(self).graph_decl, ..*old(self) }),
            final(self).graph_decl is Some <==> old(self).graph_decl is Some,
            r is Ok && old(self).graph_decl is Some ==> takes_step(
                old(self).graph_decl->0,
                final(self).graph_decl->0,
                StepVars { token, pos, pp: old(self).c.pp },
            ),
    {
        if token as u64 >= self.c.cfg.vocab_size as u64 {
            return Err(EngineError::EmbeddingOov(token));
        }
        let count: usize = self.layers.len();
        let pp: usize = self.c.pp;
        let ghost nodes = self.step_nodes();
        if let Some(mut d) = self.graph_decl.take() {
            let ghost before = d;
            proof {
                lemma_slots_fit(self.c, d.cell_kv_phys@.len(), pos);
            }
            d.write_step(token, pos, count, pp);
            proof {
                stepping_keeps_the_declaration(before, d, nodes, StepVars { token, pos, pp });
            }
            self.graph_decl = Some(d);
        }
        Ok(())
    }

    /// How a step is served, where `b` is the bucket of its sequence length.
    pub fn graph_choice(&self, b: usize, m: &StepMode) -> (c: GraphChoice)
        ensures
            c == self.graph.choice(
                b,
                !m.trace && !m.detail,
                self.graph_decl is Some,
                m.flash_off,
            ),
    {
        self.graph.decide(b, !m.trace && !m.detail, self.graph_decl.is_some(), m.flash_off)
    }

    /// Whether a step is launched by its declaration: it is plain, the graph path is
    /// on, and every declared node is a kernel of its own, among them flash
    /// attention.
    pub open spec fn by_declaration(self, m: StepMode) -> bool {
        &&& self.graph.on
        &&& !m.trace
        &&& !m.detail
        &&& !m.flash_off
        &&& self.graph_decl is Some
        &&& self.graph_decl->0.custom()
    }

    /// The forms of a step that are tried, in order: the first whose launches all
    /// succeed serves it.
    pub open spec fn attempts(self, m: StepMode) -> Seq<DecodePath> {
        if self.switches.parity_f32 {
            seq![DecodePath::Parity]
        } else {
            let s = Seq::<DecodePath>::empty();
            let s = if self.by_declaration(m) {
                s.push(DecodePath::Declared)
            } else {
                s
            };
            let s = if self.layer_fused is Some && !m.detail {
                s.push(DecodePath::LayerFused)
            } else {
                s
            };
            let s = if self.fused is Some {
                s.push(DecodePath::Fused)
            } else {
                s
            };
            s.push(DecodePath::Split)
        }
    }

    /// The forms of a step that are tried, in order.
    pub fn decode_attempts(&self, m: &StepMode) -> (v: Vec<DecodePath>)
        ensures
            v@ == self.attempts(*m),
    {
        if self.switches.parity_f32 {
            let v = vec![DecodePath::Parity];
            proof {
                assert(v@ =~= seq![DecodePath::Parity]);
            }
            return v;
        }
        let mut v: Vec<DecodePath> = Vec::new();
        let declared = match &self.graph_decl {
            Some(d) => d.is_all_custom(),
            None => false,
        };
        if self.graph.on && !m.trace && !m.detail && !m.flash_off && declared {
            v.push(DecodePath::Declared);
        }
        if self.layer_fused.is_some() && !m.detail {
            v.push(DecodePath::LayerFused);
        }
        if self.fused.is_some() {
            v.push(DecodePath::Fused);
        }
        v.push(DecodePath::Split);
        proof {
            assert(v@ =~= self.attempts(*m));
        }
        v
    }

    /// The program of a form of the step that is launched operation by operation.
    pub open spec fn program_of(
        self,
        path: DecodePath,
        token: u32,
        pos: usize,
        kv_len: usize,
        m: StepMode,
    ) -> Seq<StepOpV> {
        let (c, l, p) = (self.c, self.layers@, self.plans);
        match path {
            DecodePath::Parity => parity_ops(c, l, p, token, pos, kv_len, m.flash_off),
            DecodePath::LayerFused => layer_fused_ops(
                c,
                self.fused->0.geom,
                self.layer_fused->0,
                l,
                token,
                pos,
                kv_len,
                m.trace,
            ),
            DecodePath::Fused => fused_ops(c, self.fused->0.geom, l, token, pos, kv_len, m),
            _ => split_ops(c, l, p, token, pos, kv_len, m),
        }
    }

    /// The program of a form of the step.  The fused form is refused where its
    /// attention is over its budget.
    pub fn step_decode_launches(
        &self,
        path: DecodePath,
        token: u32,
        pos: usize,
        kv_len: usize,
        m: StepMode,
    ) -> (r: Result<Program, LaunchError>)
        requires
            self.wf(),
            self.c.takes_pos(pos),
            path != DecodePath::Declared,
            path == DecodePath::LayerFused ==> self.layer_fused is Some,
            path == DecodePath::Fused ==> self.fused is Some,
        ensures
            r is Err <==> path == DecodePath::Fused && !flash_fits(
                self.c.nums_of().d,
                self.c.nums_of().max_kv,
            ),
            r is Err ==> r->Err_0 == LaunchError::Fatal,
            r is Ok ==> r->Ok_0@ == self.program_of(path, token, pos, kv_len, m),
    {
        let (c, k) = (&self.c, &self.kernels);
        match path {
            DecodePath::Parity => Ok(
                step_decode_launches_f32(
                    c,
                    k,
                    &self.layers,
                    &self.plans,
                    token,
                    pos,
                    kv_len,
                    m.flash_off,
                ),
            ),
            DecodePath::LayerFused => {
                if let Some(f) = &self.fused {
                    if let Some(lf) = &self.layer_fused {
                        return Ok(
                            step_decode_launches_layer_fused(
                                c,
                                f,
                                lf,
                                &self.layers,
                                token,
                                pos,
                                kv_len,
                                m.trace,
                            ),
                        );
                    }
                }
                Err(LaunchError::Fatal)
            },
            DecodePath::Fused => {
                if let Some(f) = &self.fused {
                    return step_decode_launches_fused(
                        c,
                        k,
                        f,
                        &self.layers,
                        token,
                        pos,
                        kv_len,
                        m,
                    );
                }
                Err(LaunchError::Fatal)
            },
            _ => Ok(step_decode_split(c, k, &self.layers, &self.plans, token, pos, kv_len, m)),
        }
    }
}

/// Page numbers of a position on every declared layer fit a machine word.
proof fn lemma_slots_fit(c: StepCtx, layers: nat, pos: usize)
    requires
        c.wf(),
        c.takes_pos(pos),
        layers <= c.cfg.n_layer,
    ensures
        layers * c.pp + pos / 32 <= usize::MAX,
{
    let (n, p, l) = (c.cfg.n_layer as int, c.pp as int, layers as int);
    assert(l * p <= n * p) by (nonlinear_arith)
        requires
            l <= n,
            p >= 0,
    ;
}

/// What runs a GEMM.
#[derive(Debug)]
pub enum GemmAction {
    /// These two launches, and where one of them fails a counted fallback to the
    /// call.
    TwoPhase { first: Launch, second: Launch, fallback: GemmCall },
    /// Partial sums of this many bytes have to be allocated first; where that fails,
    /// a counted fallback to the call.
    Grow { bytes: usize, fallback: GemmCall },
    /// The call.
    Cublas(GemmCall),
}

/// Whether an action is what a product comes to: served by two launches with partial
/// sums at hand, by two launches once they are, or by cuBLAS.
pub open spec fn runs_gemm(
    r: GemmAction,
    jg: Option<Jgemm>,
    on: Queue,
    p: GemmPlan,
) -> bool {
    let call = call_of(on, p);
    if jg is None || !served(p) {
        r == GemmAction::Cublas(call)
    } else {
        match partials_need(jg->0.partials, p.n * shape_slabs(p.n, p.k) * 4) {
            PartialsNeed::Ready(ptr) => {
                &&& r is TwoPhase
                &&& r->first@ == gemv_phase1(on, p, ptr)
                &&& r->second@ == gemv_phase2(on, p, ptr)
                &&& r->TwoPhase_fallback == call
            },
            PartialsNeed::Grow(bytes) => r == GemmAction::Grow { bytes, fallback: call },
        }
    }
}

/// As `runs_gemm`, for a product of every row of a batch.
pub open spec fn runs_batch_gemm(r: GemmAction, jg: Option<Jgemm>, on: Queue, g: BatchGemm) -> bool {
    let call = call_of(on, col_major_swap(g.a, g.w, g.c, g.m, g.n, g.k));
    if jg is None {
        r == GemmAction::Cublas(call)
    } else {
        match partials_need(
            jg->0.partials,
            g.n * g.m * shape_slabs(g.n as i32, g.k as i32) * 4,
        ) {
            PartialsNeed::Ready(ptr) => {
                &&& r is TwoPhase
                &&& r->first@ == gemv_batch_phase1(on, g.a, g.w, ptr, g.m, g.n, g.k)
                &&& r->second@ == gemv_batch_phase2(on, g.c, ptr, g.m, g.n, g.k)
                &&& r->TwoPhase_fallback == call
            },
            PartialsNeed::Grow(bytes) => r == GemmAction::Grow { bytes, fallback: call },
        }
    }
}

impl Engine {
    /// What runs a GEMM of the step: the two-phase kernels where they are loaded and
    /// serve it, else cuBLAS.
    pub fn gemm_exec_plan(&self, plan: &GemmPlan) -> (r: GemmAction)
        requires
            self.wf(),
            0 <= plan.n < 0x4000_0000,
            plan.n * shape_slabs(plan.n, plan.k) * 4 <= usize::MAX,
        ensures
            runs_gemm(r, self.jgemm, self.c.on, *plan),
    {
        let st = &self.c.on.stream;
        let call = self.gemm.execute(st, plan);
        match &self.jgemm {
            Some(jg) => {
                if !jg.matches(plan) {
                    return GemmAction::Cublas(call);
                }
                let (_, nslabs) = jg.shape(plan.n, plan.k);
                match jg.ensure_partials(plan.n as usize, nslabs) {
                    PartialsNeed::Ready(ptr) => {
                        let (first, second) = jg.launch(st, plan, ptr);
                        GemmAction::TwoPhase { first, second, fallback: call }
                    },
                    PartialsNeed::Grow(bytes) => GemmAction::Grow { bytes, fallback: call },
                }
            },
            None => GemmAction::Cublas(call),
        }
    }

    /// What runs a product of every row of a batch: the batched two-phase kernels
    /// where they are loaded, else cuBLAS.
    pub fn gemm_batch_jgemm(&self, g: &BatchGemm) -> (r: GemmAction)
        requires
            self.wf(),
            g.m <= i32::MAX,
            g.n < 0x4000_0000,
            g.k <= i32::MAX,
            g.n * g.m <= usize::MAX,
            g.n * g.m * shape_slabs(g.n as i32, g.k as i32) * 4 <= usize::MAX,
            g.m * (shape_cols(g.n as i32) * shape_slabs(g.n as i32, g.k as i32)) <= u32::MAX,
        ensures
            runs_batch_gemm(r, self.jgemm, self.c.on, *g),
    {
        let st = &self.c.on.stream;
        let call = gemm1r(self.c.on, g.a, g.w, g.m, g.n, g.k, g.c);
        match &self.jgemm {
            Some(jg) => {
                let (_, nslabs) = jg.shape(g.n as i32, g.k as i32);
                match jg.ensure_partials(g.n * g.m, nslabs) {
                    PartialsNeed::Ready(ptr) => {
                        let (first, second) = jg.launch_batch(
                            st,
                            g.a,
                            g.w,
                            g.c,
                            g.m,
                            g.n,
                            g.k,
                            ptr,
                        );
                        GemmAction::TwoPhase { first, second, fallback: call }
                    },
                    PartialsNeed::Grow(bytes) => GemmAction::Grow { bytes, fallback: call },
                }
            },
            None => GemmAction::Cublas(call),
        }
    }

    /// Takes partial sums that were allocated.  A declaration keeps the address that
    /// it was made with, so that those partial sums have to live on.
    pub fn grown(&mut self, bytes: usize, ptr: u64)
        requires
            old(self).wf(),
            old(self).jgemm is Some,
        ensures
            final(self).wf(),
            *final(self) == (Engine {
                jgemm: Some(
                    Jgemm { partials: Some(Partials { cap: bytes, ptr }), ..old(self).jgemm->0 },
                ),
                ..*old(self)
            }),
    {
        let mut jg = match self.jgemm.take() {
            Some(j) => j,
            None => Jgemm::new(self.c.on.dev),
        };
        jg.grown(bytes, ptr);
        self.jgemm = Some(jg);
    }
}

/// What is to be done for a step.
#[derive(Debug, Clone, Copy, PartialEq, Eq, Structural)]
pub enum StepAction {
    /// Replay this graph.
    Replay(u64),
    /// Capture the step's launches.
    Capture,
    /// Launch this form of the step.
    Launch(DecodePath),
    /// Wait for the stream and read the logits.
    Read,
    /// The failure of the last launch is the step's.
    Fail,
}

/// What came of an action.
#[derive(Debug, Clone, Copy, PartialEq, Eq, Structural)]
pub enum StepEvent {
    Replayed(bool),
    Captured(CaptureOutcome),
    Launched(bool),
}

/// A step that is under way: its bucket, the forms that are tried, the one that is
/// tried next, and the action that is pending.
#[derive(Debug)]
pub struct StepRun {
    pub bucket: usize,
    pub attempts: Vec<DecodePath>,
    pub next: usize,
    pub pending: StepAction,
}

impl StepRun {
    pub open spec fn wf(self, g: GraphState) -> bool {
        &&& self.next < self.attempts@.len()
        &&& self.pending == StepAction::Capture ==> !g.failed@.contains(self.bucket)
            && !g.execs.execs@.contains_key(self.bucket)
        &&& self.pending is Launch ==> self.pending->Launch_0 == self.attempts@[self.next as int]
    }

    /// Whether an event answers the pending action.
    pub open spec fn takes(self, ev: StepEvent) -> bool {
        match ev {
            StepEvent::Replayed(_) => self.pending is Replay,
            StepEvent::Captured(_) => self.pending == StepAction::Capture,
            StepEvent::Launched(_) => self.pending is Launch,
        }
    }
}

/// The form of the step that is tried next after an event: the one after a form whose
/// launch failed, as long as there is one.
pub open spec fn next_form(r: StepRun, ev: StepEvent) -> usize {
    if ev == StepEvent::Launched(false) && r.next + 1 < r.attempts@.len() {
        (r.next + 1) as usize
    } else {
        r.next
    }
}

/// The action after an event: a replay that succeeded, and a launch that did, leave
/// the logits to be read; all else leads to the next form of the step, as long as
/// there is one.
pub open spec fn next_action(r: StepRun, ev: StepEvent) -> StepAction {
    match ev {
        StepEvent::Replayed(true) | StepEvent::Launched(true) => StepAction::Read,
        StepEvent::Launched(false) => if r.next + 1 < r.attempts@.len() {
            StepAction::Launch(r.attempts@[r.next + 1])
        } else {
            StepAction::Fail
        },
        _ => StepAction::Launch(r.attempts@[r.next as int]),
    }
}

impl Engine {
    /// Starts a step of bucket `b`: refuses a token without an embedding row, writes
    /// the step into the declaration, and says what is to be done first.
    pub fn step_impl(&mut self, token: u32, pos: usize, b: usize, m: &StepMode) -> (r: Result<
        StepRun,
        EngineError,
    >)
        requires
            old(self).wf(),
            old(self).c.takes_pos(pos),
        ensures
            final(self).wf(),
            r is Err <==> token >= old(self).c.cfg.vocab_size,
            r is Err ==> r->Err_0@ == ErrorV::EmbeddingOov(token) && *final(self) == *old(self),
            *final(self) == (Engine { graph_decl: final(self).graph_decl, ..*old(self) }),
            final(self).graph_decl is Some <==> old(self).graph_decl is Some,
            r is Ok && old(self).graph_decl is Some ==> takes_step(
                old(self).graph_decl->0,
                final(self).graph_decl->0,
                StepVars { token, pos, pp: old(self).c.pp },
            ),
            r is Ok ==> {
                let run = r->Ok_0;
                &&& run.wf(final(self).graph)
                &&& run.bucket == b
                &&& run.next == 0
                &&& run.attempts@ == final(self).attempts(*m)
                &&& run.pending == match final(self).graph.choice(
                    b,
                    !m.trace && !m.detail,
                    old(self).graph_decl is Some,
                    m.flash_off,
                ) {
                    GraphChoice::Replay(h) => StepAction::Replay(h),
                    GraphChoice::Capture => StepAction::Capture,
                    GraphChoice::Eager => StepAction::Launch(run.attempts@[0]),
                }
            },
    {
        match self.begin_step(token, pos) {
            Ok(_) => {},
            Err(e) => {
                return Err(e);
            },
        }
        let attempts = self.decode_attempts(m);
        let pending = match self.graph_choice(b, m) {
            GraphChoice::Replay(h) => StepAction::Replay(h),
            GraphChoice::Capture => StepAction::Capture,
            GraphChoice::Eager => StepAction::Launch(attempts[0]),
        };
        Ok(StepRun { bucket: b, attempts, next: 0, pending })
    }

    /// Takes what came of the pending action, and says what is to be done next.
    pub fn step_event(&mut self, run: &mut StepRun, ev: StepEvent)
        requires
            old(self).wf(),
            old(run).wf(old(self).graph),
            old(run).takes(ev),
            old(self).graph.replays < u64::MAX,
            old(self).graph.captures < u64::MAX,
            old(self).graph.eager_fallbacks < u64::MAX,
        ensures
            final(self).wf(),
            *final(self) == (Engine { graph: final(self).graph, ..*old(self) }),
            *final(run) == (StepRun {
                next: next_form(*old(run), ev),
                pending: next_action(*old(run), ev),
                ..*old(run)
            }),
            final(run).pending == StepAction::Read || final(run).pending == StepAction::Fail
                || final(run).wf(final(self).graph),
            match ev {
                StepEvent::Launched(_) => final(self).graph == old(self).graph,
                StepEvent::Replayed(ok) => after_replay(
                    old(self).graph,
                    final(self).graph,
                    old(run).bucket,
                    ok,
                ),
                StepEvent::Captured(o) => after_capture(
                    old(self).graph,
                    final(self).graph,
                    old(run).bucket,
                    o,
                ),
            },
    {
        match ev {
            StepEvent::Replayed(ok) => {
                self.graph.replayed(run.bucket, ok);
                run.pending = if ok {
                    StepAction::Read
                } else {
                    StepAction::Launch(run.attempts[run.next])
                };
            },
            StepEvent::Captured(outcome) => {
                self.graph.captured(run.bucket, outcome);
                run.pending = StepAction::Launch(run.attempts[run.next]);
            },
            StepEvent::Launched(ok) => {
                let count: usize = run.attempts.len();
                if ok {
                    run.pending = StepAction::Read;
                } else if run.next + 1 < count {
                    run.next = run.next + 1;
                    run.pending = StepAction::Launch(run.attempts[run.next]);
                } else {
                    run.pending = StepAction::Fail;
                }
            },
        }
    }
}

/// A step always has a form to fall back to: the last one that is tried is the one of
/// separate launches, or the `f32` tier's only one.
pub proof fn last_attempt_is_the_reference(e: Engine, m: StepMode)
    ensures
        e.attempts(m).len() > 0,
        e.attempts(m).last() == if e.switches.parity_f32 {
            DecodePath::Parity
        } else {
            DecodePath::Split
        },
{
}

/// Every declared node launches a kernel of this library, and the step can be launched by
/// its declaration, exactly where the step is fused or its products run on the one-row
/// kernels.
pub proof fn declared_nodes_are_custom_with_the_one_row_kernels(e: Engine)
    requires
        e.wf(),
        e.graph_decl is Some,
        !e.switches.parity_f32,
    ensures
        e.graph_decl->0.custom() <==> e.fused is Some || e.declared_partials is Some,
{
    e.graph_decl->0.lemma_custom(e.step_nodes());
    match (e.layer_fused, e.fused) {
        (Some(lf), Some(f)) => {
            layer_fused_nodes_are_custom(e.c, f.geom, lf, e.layers@);
        },
        (None, Some(f)) => {
            fused_nodes_are_custom(e.c, f.geom, e.layers@);
        },
        _ => {
            split_nodes_are_custom_with_the_one_row_kernels(
                e.c,
                e.layers@,
                e.plans,
                e.lm_head,
                e.declared_partials,
            );
        },
    }
}

/// A batch of one is a step, whatever its segment: it is served as a single step with the
/// request's token, position and length, which runs the same program in every form, also
/// where the request names another pool or other pages.
pub proof fn a_batch_of_one_is_a_step(
    e: Engine,
    r: BatchReq,
    kv: u64,
    base_pages: u32,
    path: DecodePath,
    m: StepMode,
)
    ensures
        path_of(1, e.switches.parity_f32) == Some(BatchPath::Single),
        single_steps(seq![r]) == seq![StepArgs { token: r.token, pos: r.pos, kv_len: r.kv.len }],
        ({
            let moved = BatchReq { kv: SegRef { kv, base_pages, len: r.kv.len }, ..r };
            let a = single_steps(seq![moved])[0];
            &&& single_steps(seq![moved]) == single_steps(seq![r])
            &&& e.program_of(path, a.token, a.pos, a.kv_len, m) == e.program_of(
                path,
                r.token,
                r.pos,
                r.kv.len,
                m,
            )
        }),
{
    let moved = BatchReq { kv: SegRef { kv, base_pages, len: r.kv.len }, ..r };
    let a = StepArgs { token: r.token, pos: r.pos, kv_len: r.kv.len };
    assert(single_steps(seq![r]) =~= seq![a]);
    assert(single_steps(seq![moved]) =~= seq![a]);
}

/// A graph never decides what a step computes: a step that is not replayed is launched,
/// also after it was captured, and one that failed to replay or to be captured is
/// launched all the same.
pub proof fn every_step_is_served(r: StepRun, ev: StepEvent)
    requires
        r.takes(ev),
        r.next < r.attempts@.len(),
    ensures
        ev !is Launched && ev != StepEvent::Replayed(true) ==> next_action(r, ev)
            == StepAction::Launch(r.attempts@[r.next as int]),
        next_action(r, ev) == StepAction::Fail ==> r.next + 1 == r.attempts@.len(),
{
}

} // verus!
