//! What follows from what came of a launch, a product or a capture.

use vstd::prelude::*;

use crate::batch_step::BatchGemm;
use crate::engine::{runs_batch_gemm, runs_gemm, DecodePath, Engine, GemmAction};
use crate::gemm::{
    gemv_batch_phase1, gemv_batch_phase2, gemv_phase1, gemv_phase2, shape_slabs, GemmCall, GemmPlan,
    Jgemm, Partials,
};
use crate::graph_state::CaptureOutcome;
use crate::launch::Queue;
use crate::split::StepMode;

verus! {

/// What came of flash attention.
#[derive(Debug, Clone, Copy, PartialEq, Eq, Structural)]
pub enum FlashEvent {
    Launched,
    Failed,
    /// It was over its budget, and was not launched.
    Refused,
}

/// What follows for the attention of a layer.
#[derive(Debug, Clone, Copy, PartialEq, Eq, Structural)]
pub enum FlashNext {
    /// It is served.
    Served,
    /// The launches of the naive alternative serve it, all of them.
    Naive,
}

/// What follows from flash attention: the naive alternative unless it was launched.
pub open spec fn flash_next(ev: FlashEvent) -> FlashNext {
    if ev == FlashEvent::Launched {
        FlashNext::Served
    } else {
        FlashNext::Naive
    }
}

/// What came of an action that runs a product.
#[derive(Debug, Clone, Copy, PartialEq, Eq, Structural)]
pub enum GemmEvent {
    /// Partial sums were allocated at this address.
    Grown(u64),
    /// They could not be allocated.
    GrowFailed,
    /// Whether both launches succeeded.
    Launched(bool),
    /// Whether the call did.
    Called(bool),
}

/// What follows for the product.
#[derive(Debug, Clone, Copy, PartialEq, Eq, Structural)]
pub enum GemmNext {
    /// Its action is to be asked for again.
    Again,
    /// This call serves it, or the product fails.
    Call(GemmCall),
    Done,
    Fail,
}

/// Whether an event answers an action.
pub open spec fn answers(a: GemmAction, ev: GemmEvent) -> bool {
    match a {
        GemmAction::Grow { .. } => ev is Grown || ev is GrowFailed,
        GemmAction::TwoPhase { .. } => ev is Launched,
        GemmAction::Cublas(_) => ev is Called,
    }
}

/// The call that serves a product where its action does not.
pub open spec fn call_behind(a: GemmAction) -> GemmCall {
    match a {
        GemmAction::Grow { fallback, .. } => fallback,
        GemmAction::TwoPhase { fallback, .. } => fallback,
        GemmAction::Cublas(call) => call,
    }
}

/// Whether an event is a fallback from the two-phase kernels.
pub open spec fn falls_back(ev: GemmEvent) -> bool {
    ev is GrowFailed || ev == GemmEvent::Launched(false)
}

/// What follows from an event: a fallback leads to the call, partial sums that were
/// allocated to the launches, and the call decides where it is the action.
pub open spec fn gemm_next(a: GemmAction, ev: GemmEvent) -> GemmNext {
    if falls_back(ev) {
        GemmNext::Call(call_behind(a))
    } else {
        match ev {
            GemmEvent::Grown(_) => GemmNext::Again,
            GemmEvent::Called(false) => GemmNext::Fail,
            _ => GemmNext::Done,
        }
    }
}

/// A count after one more, which wraps around.
pub open spec fn counted(n: u64) -> u64 {
    if n == u64::MAX {
        0
    } else {
        (n + 1) as u64
    }
}

impl Engine {
    /// Takes what came of flash attention, and says what follows.  Every layer whose
    /// attention was not launched counts once.
    pub fn flash_event(&mut self, ev: FlashEvent) -> (next: FlashNext)
        requires
            old(self).wf(),
            ev != FlashEvent::Launched ==> old(self).decode_flash_fallbacks < u64::MAX,
        ensures
            final(self).wf(),
            next == flash_next(ev),
            *final(self) == (Engine {
                decode_flash_fallbacks: if ev == FlashEvent::Launched {
                    old(self).decode_flash_fallbacks
                } else {
                    (old(self).decode_flash_fallbacks + 1) as u64
                },
                ..*old(self)
            }),
    {
        match ev {
            FlashEvent::Launched => FlashNext::Served,
            FlashEvent::Failed | FlashEvent::Refused => {
                self.decode_flash_fallbacks = self.decode_flash_fallbacks + 1;
                FlashNext::Naive
            },
        }
    }

    fn count_jgemm_fallback(&mut self)
        requires
            old(self).wf(),
        ensures
            final(self).wf(),
            *final(self) == (Engine {
                jgemm_fallbacks: counted(old(self).jgemm_fallbacks),
                ..*old(self)
            }),
    {
        self.jgemm_fallbacks = if self.jgemm_fallbacks == u64::MAX {
            0
        } else {
            self.jgemm_fallbacks + 1
        };
    }

    /// Takes what came of an action that runs a product, and says what follows.  Every
    /// product that falls back from the two-phase kernels counts once.
    pub fn gemm_event(&mut self, a: &GemmAction, ev: GemmEvent) -> (next: GemmNext)
        requires
            old(self).wf(),
            answers(*a, ev),
            ev is Grown ==> old(self).jgemm is Some,
        ensures
            final(self).wf(),
            next == gemm_next(*a, ev),
            *final(self) == (Engine {
                jgemm_fallbacks: if falls_back(ev) {
                    counted(old(self).jgemm_fallbacks)
                } else {
                    old(self).jgemm_fallbacks
                },
                jgemm: if ev is Grown {
                    Some(
                        Jgemm {
                            partials: Some(Partials { cap: a->Grow_bytes, ptr: ev->Grown_0 }),
                            ..old(self).jgemm->0
                        },
                    )
                } else {
                    old(self).jgemm
                },
                ..*old(self)
            }),
    {
        match a {
            GemmAction::Grow { bytes, fallback } => {
                if let GemmEvent::Grown(ptr) = ev {
                    self.grown(*bytes, ptr);
                    GemmNext::Again
                } else {
                    self.count_jgemm_fallback();
                    GemmNext::Call(*fallback)
                }
            },
            GemmAction::TwoPhase { fallback, .. } => {
                if let GemmEvent::Launched(true) = ev {
                    GemmNext::Done
                } else {
                    self.count_jgemm_fallback();
                    GemmNext::Call(*fallback)
                }
            },
            GemmAction::Cublas(_) => {
                if let GemmEvent::Called(true) = ev {
                    GemmNext::Done
                } else {
                    GemmNext::Fail
                }
            },
        }
    }
}

/// Partial sums that were allocated for a product serve it: asked for again, its action
/// is its two launches over them.
pub proof fn grown_partials_serve_their_product(
    jg: Jgemm,
    on: Queue,
    p: GemmPlan,
    before: GemmAction,
    after: GemmAction,
    ptr: u64,
)
    requires
        runs_gemm(before, Some(jg), on, p),
        before is Grow,
        0 <= p.n * shape_slabs(p.n, p.k) * 4 <= usize::MAX,
        runs_gemm(
            after,
            Some(Jgemm { partials: Some(Partials { cap: before->Grow_bytes, ptr }), ..jg }),
            on,
            p,
        ),
    ensures
        after is TwoPhase,
        after->first@ == gemv_phase1(on, p, ptr),
        after->second@ == gemv_phase2(on, p, ptr),
{
}

/// As `grown_partials_serve_their_product`, for a product of every row of a batch.
pub proof fn grown_partials_serve_their_batch_product(
    jg: Jgemm,
    on: Queue,
    g: BatchGemm,
    before: GemmAction,
    after: GemmAction,
    ptr: u64,
)
    requires
        runs_batch_gemm(before, Some(jg), on, g),
        before is Grow,
        0 <= g.n * g.m * shape_slabs(g.n as i32, g.k as i32) * 4 <= usize::MAX,
        runs_batch_gemm(
            after,
            Some(Jgemm { partials: Some(Partials { cap: before->Grow_bytes, ptr }), ..jg }),
            on,
            g,
        ),
    ensures
        after is TwoPhase,
        after->first@ == gemv_batch_phase1(on, g.a, g.w, ptr, g.m, g.n, g.k),
        after->second@ == gemv_batch_phase2(on, g.c, ptr, g.m, g.n, g.k),
{
}

/// What is to be done for a capture.
#[derive(Debug, Clone, Copy, PartialEq, Eq, Structural)]
pub enum CaptureAction {
    /// Begin it.
    Begin,
    /// Launch this form of the step.
    Launch(DecodePath),
    /// End it, with a graph of what was launched.
    End,
    /// End it, without one.
    Abort,
    /// Prepare the graph for its first replay.
    Seed(u64),
    /// Drop the graph.
    Drop(u64),
    /// The capture is over.
    Finish(CaptureOutcome),
}

/// What came of an action.
#[derive(Debug, Clone, Copy, PartialEq, Eq, Structural)]
pub enum CaptureEvent {
    Began(bool),
    Launched(bool),
    Ended(Option<u64>),
    Aborted,
    Seeded(bool),
    Dropped,
}

/// A capture that is under way: the forms of the step that are tried, the one that is
/// tried next, whether its graph is to be seeded, and the action that is pending.
#[derive(Debug)]
pub struct CaptureRun {
    pub attempts: Vec<DecodePath>,
    pub next: usize,
    pub seeds: bool,
    pub pending: CaptureAction,
}

impl CaptureRun {
    pub open spec fn wf(self) -> bool {
        &&& self.next < self.attempts@.len()
        &&& self.pending is Launch ==> self.pending->Launch_0 == self.attempts@[self.next as int]
        &&& self.pending is Seed || self.pending is Drop ==> self.seeds
    }

    /// Whether an event answers the pending action.
    pub open spec fn takes(self, ev: CaptureEvent) -> bool {
        match ev {
            CaptureEvent::Began(_) => self.pending == CaptureAction::Begin,
            CaptureEvent::Launched(_) => self.pending is Launch,
            CaptureEvent::Ended(_) => self.pending == CaptureAction::End,
            CaptureEvent::Aborted => self.pending == CaptureAction::Abort,
            CaptureEvent::Seeded(_) => self.pending is Seed,
            CaptureEvent::Dropped => self.pending is Drop,
        }
    }

    /// Whether another form is tried after one whose launch failed.
    pub open spec fn has_another(self) -> bool {
        self.next + 1 < self.attempts@.len()
    }
}

/// The action after an event: the forms of the step are launched in order until one
/// succeeds, and without one the capture fails; a graph whose nodes are all kernels of
/// this library is seeded, and dropped where that fails.
pub open spec fn next_capture(r: CaptureRun, ev: CaptureEvent) -> CaptureAction {
    match ev {
        CaptureEvent::Began(true) => CaptureAction::Launch(r.attempts@[r.next as int]),
        CaptureEvent::Began(false) => CaptureAction::Finish(CaptureOutcome::Failed),
        CaptureEvent::Launched(true) => CaptureAction::End,
        CaptureEvent::Launched(false) => if r.has_another() {
            CaptureAction::Launch(r.attempts@[r.next + 1])
        } else {
            CaptureAction::Abort
        },
        CaptureEvent::Ended(Some(h)) => if r.seeds {
            CaptureAction::Seed(h)
        } else {
            CaptureAction::Finish(CaptureOutcome::Captured(h))
        },
        CaptureEvent::Ended(None) => CaptureAction::Finish(CaptureOutcome::Failed),
        CaptureEvent::Aborted => CaptureAction::Finish(CaptureOutcome::Failed),
        CaptureEvent::Seeded(true) => CaptureAction::Finish(
            CaptureOutcome::Captured(r.pending->Seed_0),
        ),
        CaptureEvent::Seeded(false) => CaptureAction::Drop(r.pending->Seed_0),
        CaptureEvent::Dropped => CaptureAction::Finish(CaptureOutcome::SeedFailed),
    }
}

impl Engine {
    /// Starts a capture of a step.  Its graph is to be seeded exactly where every
    /// declared node launches a kernel of this library.
    pub fn start_capture(&self, m: &StepMode) -> (c: CaptureRun)
        ensures
            c.wf(),
            c.attempts@ == self.attempts(*m),
            c.next == 0,
            c.seeds == (self.graph_decl is Some && self.graph_decl->0.custom()),
            c.pending == CaptureAction::Begin,
    {
        let seeds = match &self.graph_decl {
            Some(d) => d.is_all_custom(),
            None => false,
        };
        let attempts = self.decode_attempts(m);
        CaptureRun { attempts, next: 0, seeds, pending: CaptureAction::Begin }
    }
}

impl CaptureRun {
    /// Takes what came of the pending action, and says what is to be done next.
    pub fn event(&mut self, ev: CaptureEvent)
        requires
            old(self).wf(),
            old(self).takes(ev),
        ensures
            final(self).wf(),
            *final(self) == (CaptureRun {
                next: if ev == CaptureEvent::Launched(false) && old(self).has_another() {
                    (old(self).next + 1) as usize
                } else {
                    old(self).next
                },
                pending: next_capture(*old(self), ev),
                ..*old(self)
            }),
    {
        let pending = match ev {
            CaptureEvent::Began(ok) => if ok {
                CaptureAction::Launch(self.attempts[self.next])
            } else {
                CaptureAction::Finish(CaptureOutcome::Failed)
            },
            CaptureEvent::Launched(ok) => if ok {
                CaptureAction::End
            } else if self.next < self.attempts.len() - 1 {
                self.next = self.next + 1;
                CaptureAction::Launch(self.attempts[self.next])
            } else {
                CaptureAction::Abort
            },
            CaptureEvent::Ended(graph) => match graph {
                Some(h) => if self.seeds {
                    CaptureAction::Seed(h)
                } else {
                    CaptureAction::Finish(CaptureOutcome::Captured(h))
                },
                None => CaptureAction::Finish(CaptureOutcome::Failed),
            },
            CaptureEvent::Aborted => CaptureAction::Finish(CaptureOutcome::Failed),
            CaptureEvent::Seeded(ok) => match self.pending {
                CaptureAction::Seed(h) => if ok {
                    CaptureAction::Finish(CaptureOutcome::Captured(h))
                } else {
                    CaptureAction::Drop(h)
                },
                other => other,
            },
            CaptureEvent::Dropped => CaptureAction::Finish(CaptureOutcome::SeedFailed),
        };
        self.pending = pending;
    }
}

/// A graph is made only of a form of the step that was launched, and it is seeded before
/// it is bound exactly where every declared node launches a kernel of this library.
pub proof fn graphs_are_seeded_where_their_nodes_are_custom(
    r: CaptureRun,
    ev: CaptureEvent,
    h: u64,
)
    requires
        r.wf(),
        r.takes(ev),
    ensures
        next_capture(r, ev) == CaptureAction::End <==> ev == CaptureEvent::Launched(true),
        next_capture(r, ev) == CaptureAction::Seed(h) <==> ev == CaptureEvent::Ended(Some(h))
            && r.seeds,
        next_capture(r, ev) == CaptureAction::Finish(CaptureOutcome::Captured(h)) <==> if r.seeds {
            r.pending == CaptureAction::Seed(h) && ev == CaptureEvent::Seeded(true)
        } else {
            ev == CaptureEvent::Ended(Some(h))
        },
{
}

} // verus!
