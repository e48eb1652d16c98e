//! When a decode step is captured, replayed or launched eagerly.

use vstd::prelude::*;

use std::collections::{HashMap, HashSet};

use crate::decl::{extents_fit, lemma_offset, offset, GraphStepDecl, NodeT};
use crate::graph::{NodeRole, ParamLayout};

verus! {

broadcast use vstd::std_specs::hash::group_hash_axioms;

/// Captured graphs by bucket of sequence lengths, named by handles.
#[derive(Debug)]
pub struct GraphExecStore {
    pub execs: HashMap<usize, u64>,
    pub dev: u32,
}

impl GraphExecStore {
    pub fn new(dev: u32) -> (s: Self)
        ensures
            s.dev == dev,
            s.execs@ == Map::<usize, u64>::empty(),
    {
        GraphExecStore { execs: HashMap::new(), dev }
    }

    pub fn contains_key(&self, bucket: usize) -> (b: bool)
        ensures
            b == self.execs@.contains_key(bucket),
    {
        self.execs.contains_key(&bucket)
    }

    /// The graph of a bucket.
    pub fn get(&self, bucket: usize) -> (r: Option<u64>)
        ensures
            r is Some <==> self.execs@.contains_key(bucket),
            r is Some ==> r->0 == self.execs@[bucket],
    {
        match self.execs.get(&bucket) {
            Some(h) => Some(*h),
            None => None,
        }
    }

    pub fn insert(&mut self, bucket: usize, exec: u64)
        ensures
            final(self).execs@ == old(self).execs@.insert(bucket, exec),
            final(self).dev == old(self).dev,
    {
        self.execs.insert(bucket, exec);
    }

    pub fn remove(&mut self, bucket: usize)
        ensures
            final(self).execs@ == old(self).execs@.remove(bucket),
            final(self).dev == old(self).dev,
    {
        self.execs.remove(&bucket);
    }
}

/// How a step is served.
#[derive(Debug, Clone, Copy, PartialEq, Eq, Structural)]
pub enum GraphChoice {
    /// By its launches.
    Eager,
    /// By the captured graph of its bucket.
    Replay(u64),
    /// By its launches, after a capture of them for its bucket.
    Capture,
}

/// What came of a capture.
#[derive(Debug, Clone, Copy, PartialEq, Eq, Structural)]
pub enum CaptureOutcome {
    Failed,
    /// The graph could not be prepared for its first replay.
    SeedFailed,
    Captured(u64),
}

/// The graph path: whether it is on, the graphs of the buckets, the buckets that
/// failed, and what was counted.
#[derive(Debug)]
pub struct GraphState {
    pub on: bool,
    pub failed: HashSet<usize>,
    pub execs: GraphExecStore,
    pub eager_fallbacks: u64,
    pub captures: u64,
    pub replays: u64,
}

/// What a replay of bucket `b` makes of the state: one that succeeded is counted; after
/// one that failed the bucket has no graph, counts as failed, and its step as served
/// eagerly.
pub open spec fn after_replay(s: GraphState, t: GraphState, b: usize, ok: bool) -> bool {
    &&& t.on == s.on
    &&& t.captures == s.captures
    &&& t.execs.dev == s.execs.dev
    &&& if ok {
        &&& t.replays == s.replays + 1
        &&& t.failed == s.failed
        &&& t.execs == s.execs
        &&& t.eager_fallbacks == s.eager_fallbacks
    } else {
        &&& t.replays == s.replays
        &&& t.failed@ == s.failed@.insert(b)
        &&& t.execs.execs@ == s.execs.execs@.remove(b)
        &&& t.eager_fallbacks == s.eager_fallbacks + 1
    }
}

/// What a capture for bucket `b` makes of the state: a graph is bound to the bucket and
/// counted; without one the bucket counts as failed, and its step as served eagerly.
pub open spec fn after_capture(
    s: GraphState,
    t: GraphState,
    b: usize,
    outcome: CaptureOutcome,
) -> bool {
    &&& t.on == s.on
    &&& t.replays == s.replays
    &&& t.execs.dev == s.execs.dev
    &&& match outcome {
        CaptureOutcome::Captured(h) => {
            &&& t.captures == s.captures + 1
            &&& t.failed == s.failed
            &&& t.execs.execs@ == s.execs.execs@.insert(b, h)
            &&& t.eager_fallbacks == s.eager_fallbacks
        },
        _ => {
            &&& t.captures == s.captures
            &&& t.failed@ == s.failed@.insert(b)
            &&& t.execs == s.execs
            &&& t.eager_fallbacks == s.eager_fallbacks + 1
        },
    }
}

impl GraphState {
    /// A bucket that failed has no graph.
    pub open spec fn wf(self) -> bool {
        forall|b: usize| #[trigger] self.failed@.contains(b) ==> !self.execs.execs@.contains_key(b)
    }

    /// A state without graphs and failures, with nothing counted.
    pub open spec fn is_fresh(self) -> bool {
        &&& self.failed@ == Set::<usize>::empty()
        &&& self.execs.execs@ == Map::<usize, u64>::empty()
        &&& self.eager_fallbacks == 0
        &&& self.captures == 0
        &&& self.replays == 0
    }

    pub fn new(dev: u32, on: bool) -> (s: Self)
        ensures
            s.wf(),
            s.on == on,
            s.execs.dev == dev,
            s.is_fresh(),
    {
        GraphState {
            on,
            failed: HashSet::new(),
            execs: GraphExecStore::new(dev),
            eager_fallbacks: 0,
            captures: 0,
            replays: 0,
        }
    }

    /// How a step of bucket `b` is served.  Only a plain step of a declared engine
    /// goes by graph; a bucket that failed stays eager; without flash attention,
    /// which the declaration is made for, nothing is captured.
    pub open spec fn choice(self, b: usize, plain: bool, declared: bool, flash_off: bool) -> GraphChoice {
        if !plain || !self.on || !declared || self.failed@.contains(b) {
            GraphChoice::Eager
        } else if self.execs.execs@.contains_key(b) {
            GraphChoice::Replay(self.execs.execs@[b])
        } else if flash_off {
            GraphChoice::Eager
        } else {
            GraphChoice::Capture
        }
    }

    /// How a step of bucket `b` is served.
    pub fn decide(&self, b: usize, plain: bool, declared: bool, flash_off: bool) -> (c: GraphChoice)
        ensures
            c == self.choice(b, plain, declared, flash_off),
    {
        if !plain || !self.on || !declared || self.failed.contains(&b) {
            return GraphChoice::Eager;
        }
        match self.execs.get(b) {
            Some(h) => GraphChoice::Replay(h),
            None => if flash_off {
                GraphChoice::Eager
            } else {
                GraphChoice::Capture
            },
        }
    }

    /// Takes the outcome of a replay.  One that failed loses its graph, its bucket
    /// counts as failed, and the step is served eagerly.
    pub fn replayed(&mut self, b: usize, ok: bool)
        requires
            old(self).wf(),
            old(self).replays < u64::MAX,
            old(self).eager_fallbacks < u64::MAX,
        ensures
            final(self).wf(),
            after_replay(*old(self), *final(self), b, ok),
    {
        if ok {
            self.replays = self.replays + 1;
        } else {
            self.execs.remove(b);
            self.failed.insert(b);
            self.eager_fallbacks = self.eager_fallbacks + 1;
        }
    }

    /// Takes the outcome of a capture.  A graph is bound to its bucket and counted;
    /// a bucket without one counts as failed.
    pub fn captured(&mut self, b: usize, outcome: CaptureOutcome)
        requires
            old(self).wf(),
            !old(self).failed@.contains(b),
            !old(self).execs.execs@.contains_key(b),
            old(self).captures < u64::MAX,
            old(self).eager_fallbacks < u64::MAX,
        ensures
            final(self).wf(),
            after_capture(*old(self), *final(self), b, outcome),
    {
        match outcome {
            CaptureOutcome::Captured(h) => {
                self.captures = self.captures + 1;
                self.execs.insert(b, h);
            },
            _ => {
                self.failed.insert(b);
                self.eager_fallbacks = self.eager_fallbacks + 1;
            },
        }
    }
}

/// A bucket that failed is never tried again: whatever is captured or replayed
/// afterwards, its steps stay eager.
pub proof fn failed_buckets_stay_eager(
    a: GraphState,
    b: GraphState,
    bucket: usize,
    other: usize,
    plain: bool,
    declared: bool,
    flash_off: bool,
)
    requires
        a.failed@.contains(bucket),
        b.failed@ == a.failed@ || b.failed@ == a.failed@.insert(other),
    ensures
        a.choice(bucket, plain, declared, flash_off) == GraphChoice::Eager,
        b.choice(bucket, plain, declared, flash_off) == GraphChoice::Eager,
{
}

/// After a capture its bucket is replayed, and after a failure of either kind it is
/// eager: a bucket is captured once.
pub proof fn a_bucket_is_captured_once(
    a: GraphState,
    b: GraphState,
    bucket: usize,
    h: u64,
    plain: bool,
    declared: bool,
    flash_off: bool,
)
    requires
        a.choice(bucket, plain, declared, flash_off) == GraphChoice::Capture,
        b.on == a.on,
        (b.failed == a.failed && b.execs.execs@ == a.execs.execs@.insert(bucket, h)) || (
        b.failed@ == a.failed@.insert(bucket)),
    ensures
        b.choice(bucket, plain, declared, flash_off) != GraphChoice::Capture,
        !b.failed@.contains(bucket) ==> b.choice(bucket, plain, declared, flash_off)
            == GraphChoice::Replay(h),
{
}

/// What the driver reads back of a captured node.
#[derive(Debug, Clone, Copy, PartialEq, Eq, Structural)]
pub enum NodeRead {
    Missing,
    /// Geometry, but no argument values.
    MetaOnly,
    /// The extents of a cuBLAS node.
    Mnk { m: u64, n: u64, k: u64 },
}

/// What a read-back says of a declared node.
#[derive(Debug, Clone, Copy, PartialEq, Eq, Structural)]
pub enum Verdict {
    /// Not a cuBLAS node.
    Other,
    Aligned,
    Mismatched,
    MetaOnly,
    Missing,
}

/// Whether the extents of every cuBLAS node have their cells.
pub open spec fn gemm_cells_there(d: GraphStepDecl) -> bool {
    &&& d.cell_off@.len() == d.specs@.len()
    &&& forall|i: int|
        0 <= i < d.specs@.len() ==> match (#[trigger] d.specs@[i]).layout {
            ParamLayout::Gemm { m, n, k, .. } => {
                let base = d.cell_off@[i];
                base + m < d.cells@.len() && base + n < d.cells@.len() && base + k
                    < d.cells@.len()
            },
            _ => true,
        }
}

/// What a read-back says of node `i`.
pub open spec fn verdict_of(d: GraphStepDecl, read: NodeRead, i: int) -> Verdict {
    let s = d.specs@[i];
    match s.layout {
        ParamLayout::Gemm { m, n, k, .. } if s.role == NodeRole::CublasGemm => {
            let base = d.cell_off@[i];
            match read {
                NodeRead::Missing => Verdict::Missing,
                NodeRead::MetaOnly => Verdict::MetaOnly,
                NodeRead::Mnk { m: rm, n: rn, k: rk } => if rm == d.cells@[base + m] && rn
                    == d.cells@[base + n] && rk == d.cells@[base + k] {
                    Verdict::Aligned
                } else {
                    Verdict::Mismatched
                },
            }
        },
        _ => Verdict::Other,
    }
}

fn verdict(d: &GraphStepDecl, read: NodeRead, i: usize) -> (v: Verdict)
    requires
        gemm_cells_there(*d),
        i < d.specs@.len(),
    ensures
        v == verdict_of(*d, read, i as int),
{
    if d.specs[i].role != NodeRole::CublasGemm {
        return Verdict::Other;
    }
    match d.gemm_cells(i) {
        None => Verdict::Other,
        Some((dm, dn, dk)) => match read {
            NodeRead::Missing => Verdict::Missing,
            NodeRead::MetaOnly => Verdict::MetaOnly,
            NodeRead::Mnk { m, n, k } => if m == dm && n == dn && k == dk {
                Verdict::Aligned
            } else {
                Verdict::Mismatched
            },
        },
    }
}

/// Compares what the driver reads back of every captured node with the declaration.
pub fn check_capture_alignment(d: &GraphStepDecl, reads: &Vec<NodeRead>) -> (v: Vec<Verdict>)
    requires
        gemm_cells_there(*d),
        reads@.len() == d.specs@.len(),
    ensures
        v@ == Seq::new(d.specs@.len(), |i: int| verdict_of(*d, reads@[i], i)),
{
    let mut out: Vec<Verdict> = Vec::new();
    let mut i: usize = 0;
    while i < reads.len()
        invariant
            i <= reads@.len(),
            gemm_cells_there(*d),
            reads@.len() == d.specs@.len(),
            out@ == Seq::new(i as nat, |i: int| verdict_of(*d, reads@[i], i)),
        decreases reads@.len() - i,
    {
        out.push(verdict(d, reads[i], i));
        i = i + 1;
        proof {
            assert(out@ =~= Seq::new(i as nat, |i: int| verdict_of(*d, reads@[i], i)));
        }
    }
    out
}

/// A declaration has the cells of every cuBLAS node's extents.
pub proof fn declarations_have_their_extents(d: GraphStepDecl, t: Seq<NodeT>)
    requires
        d.declares(t),
    ensures
        gemm_cells_there(d),
{
    assert forall|i: int| 0 <= i < d.specs@.len() implies match (#[trigger] d.specs@[i]).layout {
        ParamLayout::Gemm { m, n, k, .. } => {
            let base = d.cell_off@[i];
            base + m < d.cells@.len() && base + n < d.cells@.len() && base + k < d.cells@.len()
        },
        _ => true,
    } by {
        lemma_offset(t, i);
        assert(extents_fit(t[i]));
        assert(d.specs@[i]@ == t[i].spec);
        assert(d.cell_off@[i] == offset(t, i));
    }
}

} // verus!
