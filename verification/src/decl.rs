//! The graph declaration of a decode step: one node per launch, in launch order,
//! and a cell for every argument.
//!
//! A node reads its arguments from its cells at every launch, so that a step
//! changes only the cells that hold its token, its position and its cache slot.

use vstd::prelude::*;

use crate::gemm::{gemm_spec, gemv_phase1, gemv_phase2, int_word, served, GemmPlan};
use crate::graph::{all_slots, slots_upto, KernelSpec, KernelSpecV, NodeRole, ParamLayout};
use crate::launch::{Dim3, Kernel, Launch, LaunchV, Queue};
use crate::model::BLOCK_LEN;
use crate::step::StepOpV;

verus! {

/// What a cell holds at a step.
pub enum CellV {
    /// The same word at every step.
    Const(u64),
    /// The token.
    Token,
    /// The position.
    Pos,
    /// The physical page of the position on a layer.
    Phys(nat),
    /// The place of the position in its page.
    Off,
}

/// A declared node: its specification, and what its cells hold.
#[verifier::ext_equal]
pub struct NodeT {
    pub spec: KernelSpecV,
    pub cells: Seq<CellV>,
}

/// A node at a step: its specification, and the words in its cells.
#[verifier::ext_equal]
pub struct NodeV {
    pub spec: KernelSpecV,
    pub cells: Seq<u64>,
}

/// What a step writes into the cells.
pub struct StepVars {
    pub token: u32,
    pub pos: usize,
    pub pp: usize,
}

/// The word of a cell at a step.
pub open spec fn cell_value(c: CellV, v: StepVars) -> u64 {
    match c {
        CellV::Const(w) => w,
        CellV::Token => v.token as u64,
        CellV::Pos => v.pos as u64,
        CellV::Phys(li) => ((li * v.pp + v.pos as int / 32) as u32) as u64,
        CellV::Off => (v.pos % 32) as u64,
    }
}

/// A node at a step.
pub open spec fn at_step(t: NodeT, v: StepVars) -> NodeV {
    NodeV { spec: t.spec, cells: t.cells.map_values(|c: CellV| cell_value(c, v)) }
}

/// Nodes at a step.
pub open spec fn all_at_step(t: Seq<NodeT>, v: StepVars) -> Seq<NodeV> {
    t.map_values(|n: NodeT| at_step(n, v))
}

/// The specification of a node that launches a kernel with all its slots.
pub open spec fn custom_spec(
    kernel: Option<Kernel>,
    slots: nat,
    grid: Dim3,
    block: Dim3,
    shared: u32,
) -> KernelSpecV {
    KernelSpecV {
        role: NodeRole::CustomKernel,
        layout: ParamLayout::Fixed { slots: slots as usize },
        ptr_slots: all_slots(slots),
        kernel,
        grid,
        block,
        shared,
    }
}

/// The node of a launch.
pub open spec fn node_of(l: LaunchV) -> NodeV {
    NodeV {
        spec: custom_spec(Some(l.kernel), l.args.len(), l.grid, l.block, l.shared),
        cells: l.args,
    }
}

/// The slots of a launch that change from step to step.
#[derive(Debug, Clone, Copy, PartialEq, Eq)]
pub struct Marks {
    pub token: Option<usize>,
    pub pos: Option<usize>,
    /// The slots of the page and of the place in the page.
    pub kv: Option<(usize, usize)>,
}

/// No slot changes.
pub open spec fn no_marks() -> Marks {
    Marks { token: None, pos: None, kv: None }
}

/// One slot holds the token.
pub open spec fn mark_token(slot: usize) -> Marks {
    Marks { token: Some(slot), pos: None, kv: None }
}

/// One slot holds the position.
pub open spec fn mark_pos(slot: usize) -> Marks {
    Marks { token: None, pos: Some(slot), kv: None }
}

/// Two slots hold the cache slot.
pub open spec fn mark_kv(page: usize, place: usize) -> Marks {
    Marks { token: None, pos: None, kv: Some((page, place)) }
}

impl Marks {
    /// Whether the marks name different slots of a launch, a page before its place.
    pub open spec fn fit(self, slots: nat) -> bool {
        &&& self.token is Some ==> self.token->0 < slots && self.token != self.pos
        &&& self.pos is Some ==> self.pos->0 < slots
        &&& self.kv is Some ==> (self.kv->0).0 < (self.kv->0).1 && (self.kv->0).1 < slots
            && self.token is None && self.pos is None
    }
}

/// What a slot of a launch on layer `li` holds.
pub open spec fn marked_cell(l: LaunchV, m: Marks, li: nat, j: int) -> CellV {
    if m.token == Some(j as usize) {
        CellV::Token
    } else if m.pos == Some(j as usize) {
        CellV::Pos
    } else if m.kv is Some && (m.kv->0).0 == j {
        CellV::Phys(li)
    } else if m.kv is Some && (m.kv->0).1 == j {
        CellV::Off
    } else {
        CellV::Const(l.args[j])
    }
}

/// The node of a launch on layer `li` with slots that change.
pub open spec fn marked(l: LaunchV, m: Marks, li: nat) -> NodeT {
    NodeT {
        spec: node_of(l).spec,
        cells: Seq::new(l.args.len(), |j: int| marked_cell(l, m, li, j)),
    }
}

/// The node of a launch whose arguments are the same at every step.
pub open spec fn fixed(l: LaunchV) -> NodeT {
    marked(l, no_marks(), 0)
}

/// The words of a cuBLAS node: its three extents.
pub open spec fn gemm_words(p: GemmPlan) -> Seq<u64> {
    seq![int_word(p.m), int_word(p.n), int_word(p.k)]
}

/// The node of a GEMM that cuBLAS runs.
pub open spec fn gemm_node(p: GemmPlan) -> NodeV {
    NodeV { spec: gemm_spec(all_slots(3)), cells: gemm_words(p) }
}

pub open spec fn fixed_gemm(p: GemmPlan) -> NodeT {
    NodeT {
        spec: gemm_node(p).spec,
        cells: gemm_words(p).map_values(|w: u64| CellV::Const(w)),
    }
}

/// The nodes of a GEMM, appended: its two phases where the two-phase kernels are
/// loaded, with their partial sums at `jg`, and serve it; else one cuBLAS node.
pub open spec fn gemm_nodes(s: Seq<NodeV>, on: Queue, jg: Option<u64>, p: GemmPlan) -> Seq<NodeV> {
    match jg {
        Some(partials) if served(p) => s.push(node_of(gemv_phase1(on, p, partials))).push(
            node_of(gemv_phase2(on, p, partials)),
        ),
        _ => s.push(gemm_node(p)),
    }
}

/// As `gemm_nodes`, as declared.
pub open spec fn gemm_decl(s: Seq<NodeT>, on: Queue, jg: Option<u64>, p: GemmPlan) -> Seq<NodeT> {
    match jg {
        Some(partials) if served(p) => s.push(fixed(gemv_phase1(on, p, partials))).push(
            fixed(gemv_phase2(on, p, partials)),
        ),
        _ => s.push(fixed_gemm(p)),
    }
}

/// Whether every node launches a kernel of this library.
pub open spec fn all_custom(t: Seq<NodeT>) -> bool {
    forall|i: int| 0 <= i < t.len() ==> (#[trigger] t[i]).spec.role == NodeRole::CustomKernel
}

pub broadcast proof fn lemma_all_custom_push(t: Seq<NodeT>, n: NodeT)
    ensures
        #[trigger] all_custom(t.push(n)) <==> all_custom(t) && n.spec.role
            == NodeRole::CustomKernel,
{
    let u = t.push(n);
    assert(u[t.len() as int] == n);
    if all_custom(u) {
        assert forall|i: int| 0 <= i < t.len() implies (#[trigger] t[i]).spec.role
            == NodeRole::CustomKernel by {
            assert(u[i] == t[i]);
        }
    }
}

/// The nodes of an operation of a step, appended: what a launch of it adds to a
/// captured graph.
pub open spec fn op_nodes(s: Seq<NodeV>, op: StepOpV, on: Queue, jg: Option<u64>) -> Seq<NodeV> {
    match op {
        StepOpV::Launch(l) => s.push(node_of(l)),
        StepOpV::Gemm(p) => gemm_nodes(s, on, jg, p),
        StepOpV::Attn { flash, .. } => s.push(node_of(flash)),
        StepOpV::FlashRefused(l) => s.push(node_of(l)),
        _ => s,
    }
}

/// The kernel nodes of a program whose launches all succeed.
pub open spec fn nodes_of(ops: Seq<StepOpV>, on: Queue, jg: Option<u64>) -> Seq<NodeV>
    decreases ops.len(),
{
    if ops.len() == 0 {
        Seq::empty()
    } else {
        op_nodes(nodes_of(ops.drop_last(), on, jg), ops.last(), on, jg)
    }
}

pub broadcast proof fn lemma_nodes_push(ops: Seq<StepOpV>, op: StepOpV, on: Queue, jg: Option<u64>)
    ensures
        #[trigger] nodes_of(ops.push(op), on, jg) == op_nodes(nodes_of(ops, on, jg), op, on, jg),
{
    assert(ops.push(op).drop_last() =~= ops);
}

pub broadcast proof fn lemma_at_step_push(t: Seq<NodeT>, n: NodeT, v: StepVars)
    ensures
        #[trigger] all_at_step(t.push(n), v) == all_at_step(t, v).push(at_step(n, v)),
{
    assert(all_at_step(t.push(n), v) =~= all_at_step(t, v).push(at_step(n, v)));
}

pub broadcast proof fn lemma_fixed_at_step(l: LaunchV, v: StepVars)
    ensures
        #[trigger] at_step(fixed(l), v) == node_of(l),
{
    assert(at_step(fixed(l), v).cells =~= l.args);
}

pub broadcast proof fn lemma_fixed_gemm_at_step(p: GemmPlan, v: StepVars)
    ensures
        #[trigger] at_step(fixed_gemm(p), v) == gemm_node(p),
{
    assert(at_step(fixed_gemm(p), v).cells =~= gemm_words(p));
}

pub proof fn lemma_gemm_decl_at_step(s: Seq<NodeT>, on: Queue, jg: Option<u64>, p: GemmPlan, v: StepVars)
    ensures
        all_at_step(gemm_decl(s, on, jg, p), v) == gemm_nodes(all_at_step(s, v), on, jg, p),
{
    broadcast use lemma_at_step_push, lemma_fixed_at_step, lemma_fixed_gemm_at_step;

}

/// A marked launch at a step is the launch with the step's words in its slots.
pub proof fn lemma_marked_at_step(l: LaunchV, m: Marks, li: nat, s: LaunchV, v: StepVars)
    requires
        s.kernel == l.kernel,
        s.grid == l.grid,
        s.block == l.block,
        s.shared == l.shared,
        s.args.len() == l.args.len(),
        forall|j: int|
            0 <= j < l.args.len() ==> #[trigger] s.args[j] == cell_value(
                marked_cell(l, m, li, j),
                v,
            ),
    ensures
        at_step(marked(l, m, li), v) == node_of(s),
{
    assert(at_step(marked(l, m, li), v).cells =~= s.args);
}

/// Whether the extents of a cuBLAS node are among its cells.
pub open spec fn extents_fit(n: NodeT) -> bool {
    match n.spec.layout {
        ParamLayout::Gemm { m, n: cols, k, .. } => m < n.cells.len() && cols < n.cells.len() && k
            < n.cells.len(),
        _ => true,
    }
}

/// The cells of all nodes, one node after the other.
pub open spec fn flat(t: Seq<NodeT>) -> Seq<CellV>
    decreases t.len(),
{
    if t.len() == 0 {
        Seq::empty()
    } else {
        flat(t.drop_last()) + t.last().cells
    }
}

pub broadcast proof fn lemma_flat_push(t: Seq<NodeT>, n: NodeT)
    ensures
        #[trigger] flat(t.push(n)) == flat(t) + n.cells,
{
    assert(t.push(n).drop_last() =~= t);
}

/// Whether a node reads the position.
pub open spec fn reads_pos(n: NodeT) -> bool {
    exists|j: int| 0 <= j < n.cells.len() && #[trigger] n.cells[j] is Pos
}

/// Whether a cell of a node is listed: it changes; and it is listed last where it is
/// the token of a node that also reads the position, else in its place.
pub open spec fn listed(n: NodeT, j: int, last: bool) -> bool {
    &&& n.cells[j] !is Const
    &&& last == (n.cells[j] is Token && reads_pos(n))
}

/// The listed slots among the first `k` cells of node `i`.
pub open spec fn node_slots(n: NodeT, i: nat, last: bool, k: nat) -> Seq<(usize, usize)>
    decreases k,
{
    if k == 0 {
        Seq::empty()
    } else {
        let s = node_slots(n, i, last, (k - 1) as nat);
        if listed(n, k - 1, last) {
            s.push((i as usize, (k - 1) as usize))
        } else {
            s
        }
    }
}

/// The listed slots of all nodes, node by node.
pub open spec fn slots_of(t: Seq<NodeT>, last: bool) -> Seq<(usize, usize)>
    decreases t.len(),
{
    if t.len() == 0 {
        Seq::empty()
    } else {
        let i = (t.len() - 1) as nat;
        slots_of(t.drop_last(), last) + node_slots(t.last(), i, last, t.last().cells.len())
    }
}

/// The slots that change from step to step, as pairs of a node and its slot: node by
/// node and slot by slot, but for the token of a node that also reads the position,
/// which comes last.
pub open spec fn refresh_of(t: Seq<NodeT>) -> Seq<(usize, usize)> {
    slots_of(t, false) + slots_of(t, true)
}

/// The slots of node `i` that marks list in their place.
pub open spec fn marks_here(m: Marks, i: nat) -> Seq<(usize, usize)> {
    match (m.pos, m.token, m.kv) {
        (Some(p), _, _) => seq![(i as usize, p)],
        (None, Some(k), _) => seq![(i as usize, k)],
        (None, None, Some(s)) => seq![(i as usize, s.0), (i as usize, s.1)],
        _ => Seq::empty(),
    }
}

/// The slots of node `i` that marks list last.
pub open spec fn marks_last(m: Marks, i: nat) -> Seq<(usize, usize)> {
    match (m.pos, m.token) {
        (Some(_), Some(k)) => seq![(i as usize, k)],
        _ => Seq::empty(),
    }
}

/// The listed slots where at most `a` and, behind it, `b` are listed.
proof fn lemma_node_slots(n: NodeT, i: nat, last: bool, a: Option<int>, b: Option<int>, k: nat)
    requires
        k <= n.cells.len(),
        b is Some ==> a is Some && a->0 < b->0,
        forall|j: int|
            0 <= j < n.cells.len() ==> (#[trigger] listed(n, j, last) <==> a == Some(j) || b
                == Some(j)),
    ensures
        node_slots(n, i, last, k) == (if a is Some && 0 <= a->0 < k {
            seq![(i as usize, a->0 as usize)]
        } else {
            Seq::empty()
        }) + (if b is Some && 0 <= b->0 < k {
            seq![(i as usize, b->0 as usize)]
        } else {
            Seq::empty()
        }),
    decreases k,
{
    if k > 0 {
        lemma_node_slots(n, i, last, a, b, (k - 1) as nat);
        assert(listed(n, k - 1, last) <==> a == Some(k - 1) || b == Some(k - 1));
    }
    assert(node_slots(n, i, last, k) =~= (if a is Some && 0 <= a->0 < k {
        seq![(i as usize, a->0 as usize)]
    } else {
        Seq::empty()
    }) + (if b is Some && 0 <= b->0 < k {
        seq![(i as usize, b->0 as usize)]
    } else {
        Seq::empty()
    }));
}

proof fn lemma_slots_push(t: Seq<NodeT>, n: NodeT, last: bool)
    ensures
        slots_of(t.push(n), last) == slots_of(t, last) + node_slots(
            n,
            t.len(),
            last,
            n.cells.len(),
        ),
{
    assert(t.push(n).drop_last() =~= t);
}

/// A node with marked slots lists them.
pub proof fn lemma_slots_marked(t: Seq<NodeT>, l: LaunchV, m: Marks, li: nat)
    requires
        m.fit(l.args.len()),
        l.args.len() <= usize::MAX,
    ensures
        slots_of(t.push(marked(l, m, li)), false) == slots_of(t, false) + marks_here(m, t.len()),
        slots_of(t.push(marked(l, m, li)), true) == slots_of(t, true) + marks_last(m, t.len()),
{
    let n = marked(l, m, li);
    let i = t.len();
    let k = n.cells.len();
    assert forall|j: int| 0 <= j < k implies #[trigger] n.cells[j] == marked_cell(l, m, li, j) by {}
    assert(reads_pos(n) <==> m.pos is Some) by {
        if m.pos is Some {
            assert(n.cells[m.pos->0 as int] is Pos);
        }
    }
    lemma_slots_push(t, n, false);
    lemma_slots_push(t, n, true);
    let (a, b) = match (m.pos, m.token, m.kv) {
        (Some(p), _, _) => (Some(p as int), None),
        (None, Some(s), _) => (Some(s as int), None),
        (None, None, Some(s)) => (Some(s.0 as int), Some(s.1 as int)),
        _ => (None, None),
    };
    lemma_node_slots(n, i, false, a, b, k);
    assert(node_slots(n, i, false, k) =~= marks_here(m, i));
    let z = match (m.pos, m.token) {
        (Some(_), Some(s)) => Some(s as int),
        _ => None,
    };
    lemma_node_slots(n, i, true, z, None, k);
    assert(node_slots(n, i, true, k) =~= marks_last(m, i));
}

/// A node whose arguments are the same at every step lists nothing.
pub broadcast proof fn lemma_slots_fixed(t: Seq<NodeT>, l: LaunchV, last: bool)
    ensures
        #[trigger] slots_of(t.push(fixed(l)), last) == slots_of(t, last),
{
    let n = fixed(l);
    assert forall|j: int| 0 <= j < n.cells.len() implies !#[trigger] listed(n, j, last) by {
        assert(n.cells[j] == marked_cell(l, no_marks(), 0, j));
    }
    lemma_slots_push(t, n, last);
    lemma_node_slots(n, t.len(), last, None, None, n.cells.len());
    assert(slots_of(t.push(n), last) =~= slots_of(t, last));
}

pub proof fn lemma_slots_gemm_node(t: Seq<NodeT>, p: GemmPlan, last: bool)
    ensures
        slots_of(t.push(fixed_gemm(p)), last) == slots_of(t, last),
{
    let n = fixed_gemm(p);
    assert forall|j: int| 0 <= j < n.cells.len() implies !#[trigger] listed(n, j, last) by {
        assert(n.cells[j] is Const);
    }
    lemma_slots_push(t, n, last);
    lemma_node_slots(n, t.len(), last, None, None, n.cells.len());
    assert(slots_of(t.push(n), last) =~= slots_of(t, last));
}

/// The nodes of a GEMM list nothing.
pub broadcast proof fn lemma_slots_gemm(
    s: Seq<NodeT>,
    on: Queue,
    jg: Option<u64>,
    p: GemmPlan,
    last: bool,
)
    ensures
        #[trigger] slots_of(gemm_decl(s, on, jg, p), last) == slots_of(s, last),
{
    broadcast use lemma_slots_fixed;

    lemma_slots_gemm_node(s, p, last);
}

proof fn lemma_node_slots_are(n: NodeT, i: nat, last: bool, k: nat)
    requires
        i <= usize::MAX,
        k <= n.cells.len() <= usize::MAX,
    ensures
        node_slots(n, i, last, k).no_duplicates(),
        forall|a: usize, b: usize|
            #[trigger] node_slots(n, i, last, k).contains((a, b)) <==> a == i && b < k && listed(
                n,
                b as int,
                last,
            ),
    decreases k,
{
    let s = node_slots(n, i, last, k);
    if k > 0 {
        let r = node_slots(n, i, last, (k - 1) as nat);
        lemma_node_slots_are(n, i, last, (k - 1) as nat);
        let x = (i as usize, (k - 1) as usize);
        if listed(n, k - 1, last) {
            assert(!r.contains(x));
            assert forall|a: usize, b: usize| #[trigger] s.contains((a, b)) <==> r.contains((a, b))
                || (a, b) == x by {
                lemma_contains_push(r, x, (a, b));
            }
            assert forall|p: int, q: int| 0 <= p < s.len() && 0 <= q < s.len() && p != q implies s[p]
                != s[q] by {
                if p == r.len() || q == r.len() {
                    let o = if p == r.len() {
                        q
                    } else {
                        p
                    };
                    assert(r.contains(r[o]));
                }
            }
        }
    }
}

pub proof fn lemma_contains_push<A>(s: Seq<A>, x: A, y: A)
    ensures
        s.push(x).contains(y) <==> s.contains(y) || x == y,
{
    let p = s.push(x);
    if s.contains(y) {
        let i = s.index_of(y);
        assert(p[i] == y);
    }
    if x == y {
        assert(p[s.len() as int] == y);
    }
    if p.contains(y) && x != y {
        let i = p.index_of(y);
        assert(s[i] == y);
    }
}

/// Two lists without repeats and without a common entry make one without repeats.
proof fn lemma_joined<A>(s: Seq<A>, r: Seq<A>)
    requires
        s.no_duplicates(),
        r.no_duplicates(),
        forall|x: A| #[trigger] s.contains(x) ==> !r.contains(x),
    ensures
        (s + r).no_duplicates(),
        forall|x: A| #[trigger] (s + r).contains(x) <==> s.contains(x) || r.contains(x),
{
    let w = s + r;
    assert forall|p: int, q: int| 0 <= p < w.len() && 0 <= q < w.len() && p != q implies w[p]
        != w[q] by {
        if p < s.len() && q >= s.len() {
            assert(s.contains(s[p]) && r.contains(r[q - s.len()]));
        } else if p >= s.len() && q < s.len() {
            assert(s.contains(s[q]) && r.contains(r[p - s.len()]));
        }
    }
    assert forall|x: A| #[trigger] w.contains(x) <==> s.contains(x) || r.contains(x) by {
        if s.contains(x) {
            assert(w[s.index_of(x)] == x);
        }
        if r.contains(x) {
            assert(w[s.len() + r.index_of(x)] == x);
        }
        if w.contains(x) {
            let i = w.index_of(x);
            if i < s.len() {
                assert(s[i] == x);
            } else {
                assert(r[i - s.len()] == x);
            }
        }
    }
}

proof fn lemma_slots_are(t: Seq<NodeT>, last: bool)
    requires
        t.len() <= usize::MAX,
        forall|i: int| 0 <= i < t.len() ==> (#[trigger] t[i]).cells.len() <= usize::MAX,
    ensures
        slots_of(t, last).no_duplicates(),
        forall|a: usize, b: usize|
            #[trigger] slots_of(t, last).contains((a, b)) <==> a < t.len() && b
                < t[a as int].cells.len() && listed(t[a as int], b as int, last),
    decreases t.len(),
{
    if t.len() > 0 {
        let (u, n) = (t.drop_last(), t.last());
        let (s, r) = (slots_of(u, last), node_slots(n, u.len(), last, n.cells.len()));
        lemma_slots_are(u, last);
        lemma_node_slots_are(n, u.len(), last, n.cells.len());
        assert forall|x: (usize, usize)| #[trigger] s.contains(x) implies !r.contains(x) by {
            assert(s.contains((x.0, x.1)));
        }
        lemma_joined(s, r);
        assert forall|a: usize, b: usize| #[trigger] slots_of(t, last).contains((a, b)) <==> a
            < t.len() && b < t[a as int].cells.len() && listed(t[a as int], b as int, last) by {
            assert((s + r).contains((a, b)) <==> s.contains((a, b)) || r.contains((a, b)));
            if a < u.len() {
                assert(u[a as int] == t[a as int]);
            }
        }
    }
}

/// The slots that are listed for refresh are exactly those that change, each once; no
/// other pair is listed.
pub proof fn refresh_lists_every_changing_slot_once(t: Seq<NodeT>)
    requires
        t.len() <= usize::MAX,
        forall|i: int| 0 <= i < t.len() ==> (#[trigger] t[i]).cells.len() <= usize::MAX,
    ensures
        refresh_of(t).no_duplicates(),
        forall|a: usize, b: usize|
            #[trigger] refresh_of(t).contains((a, b)) <==> a < t.len() && b
                < t[a as int].cells.len() && t[a as int].cells[b as int] !is Const,
{
    let (s, r) = (slots_of(t, false), slots_of(t, true));
    lemma_slots_are(t, false);
    lemma_slots_are(t, true);
    assert forall|x: (usize, usize)| #[trigger] s.contains(x) implies !r.contains(x) by {
        assert(s.contains((x.0, x.1)));
    }
    lemma_joined(s, r);
    assert forall|a: usize, b: usize| #[trigger] refresh_of(t).contains((a, b)) <==> a < t.len()
        && b < t[a as int].cells.len() && t[a as int].cells[b as int] !is Const by {
        assert((s + r).contains((a, b)) <==> s.contains((a, b)) || r.contains((a, b)));
    }
}

/// A declaration lists for refresh exactly the slots that a step changes, each once; no
/// pair names a missing node or slot.
pub proof fn declared_refresh_is_exact(d: GraphStepDecl, t: Seq<NodeT>)
    requires
        d.declares(t),
    ensures
        d.refresh@.no_duplicates(),
        forall|a: usize, b: usize|
            #[trigger] d.refresh@.contains((a, b)) <==> a < t.len() && b < t[a as int].cells.len()
                && t[a as int].cells[b as int] !is Const,
{
    assert(d.specs@.len() == d.specs.len());
    assert(d.cells@.len() == d.cells.len());
    assert forall|i: int| 0 <= i < t.len() implies (#[trigger] t[i]).cells.len() <= usize::MAX by {
        lemma_offset(t, i);
    }
    refresh_lists_every_changing_slot_once(t);
}

/// Where a node's cells start.
pub open spec fn offset(t: Seq<NodeT>, i: int) -> int {
    flat(t.take(i)).len() as int
}

pub proof fn lemma_offset(t: Seq<NodeT>, i: int)
    requires
        0 <= i < t.len(),
    ensures
        0 <= offset(t, i),
        offset(t, i) + t[i].cells.len() <= flat(t).len(),
        flat(t).subrange(offset(t, i), offset(t, i) + t[i].cells.len()) == t[i].cells,
    decreases t.len(),
{
    let d = t.drop_last();
    if i == t.len() - 1 {
        assert(t.take(i) =~= d);
        assert(flat(t).subrange(offset(t, i), offset(t, i) + t[i].cells.len()) =~= t[i].cells);
    } else {
        lemma_offset(d, i);
        assert(t.take(i) =~= d.take(i));
        assert(flat(t).subrange(offset(t, i), offset(t, i) + t[i].cells.len()) =~= flat(
            d,
        ).subrange(offset(d, i), offset(d, i) + d[i].cells.len()));
    }
}

/// A slot of a node and the cell that it reads.
#[derive(Debug, Clone, Copy, PartialEq, Eq, Structural)]
pub struct PtrUpdate {
    pub node: usize,
    pub slot: usize,
    pub cell: usize,
}

/// Specifications and cells while a declaration is built.
#[derive(Debug)]
pub struct SpecAcc {
    pub specs: Vec<KernelSpec>,
    pub cell_off: Vec<usize>,
    pub cells: Vec<u64>,
}

impl SpecAcc {
    pub fn new() -> (a: Self)
        ensures
            a.specs@.len() == 0,
            a.cell_off@.len() == 0,
            a.cells@.len() == 0,
    {
        SpecAcc { specs: Vec::new(), cell_off: Vec::new(), cells: Vec::new() }
    }

    /// Appends a kernel node with the words of all its slots.
    pub fn custom_with_shared(
        &mut self,
        kernel: Option<Kernel>,
        slots: usize,
        grid: Dim3,
        block: Dim3,
        shared: u32,
        vals: &[u64],
    )
        requires
            slots == vals@.len(),
        ensures
            final(self).specs@.len() == old(self).specs@.len() + 1,
            final(self).specs@.last()@ == custom_spec(kernel, slots as nat, grid, block, shared),
            forall|i: int|
                0 <= i < old(self).specs@.len() ==> #[trigger] final(self).specs@[i] == old(
                    self,
                ).specs@[i],
            final(self).cell_off@ == old(self).cell_off@.push(old(self).cells@.len() as usize),
            final(self).cells@ == old(self).cells@ + vals@,
    {
        self.cell_off.push(self.cells.len());
        push_words(&mut self.cells, vals);
        self.specs.push(
            KernelSpec {
                role: NodeRole::CustomKernel,
                layout: ParamLayout::Fixed { slots },
                ptr_slots: slots_upto(slots),
                kernel,
                grid,
                block,
                shared,
            },
        );
    }

    /// Appends a kernel node without dynamic shared memory.
    pub fn custom(
        &mut self,
        kernel: Option<Kernel>,
        slots: usize,
        grid: Dim3,
        block: Dim3,
        vals: &[u64],
    )
        requires
            slots == vals@.len(),
        ensures
            final(self).specs@.len() == old(self).specs@.len() + 1,
            final(self).specs@.last()@ == custom_spec(kernel, slots as nat, grid, block, 0),
            forall|i: int|
                0 <= i < old(self).specs@.len() ==> #[trigger] final(self).specs@[i] == old(
                    self,
                ).specs@[i],
            final(self).cell_off@ == old(self).cell_off@.push(old(self).cells@.len() as usize),
            final(self).cells@ == old(self).cells@ + vals@,
    {
        self.custom_with_shared(kernel, slots, grid, block, 0, vals);
    }

    /// Appends a cuBLAS node with the words of its extents.
    pub fn gemm(&mut self, plan: &GemmPlan)
        ensures
            final(self).specs@.len() == old(self).specs@.len() + 1,
            final(self).specs@.last()@ == gemm_spec(all_slots(3)),
            forall|i: int|
                0 <= i < old(self).specs@.len() ==> #[trigger] final(self).specs@[i] == old(
                    self,
                ).specs@[i],
            final(self).cell_off@ == old(self).cell_off@.push(old(self).cells@.len() as usize),
            final(self).cells@ == old(self).cells@ + gemm_words(*plan),
    {
        self.cell_off.push(self.cells.len());
        self.cells.push((#[verifier::truncate] (plan.m as u32)) as u64);
        self.cells.push((#[verifier::truncate] (plan.n as u32)) as u64);
        self.cells.push((#[verifier::truncate] (plan.k as u32)) as u64);
        self.specs.push(plan.kernel_spec(slots_upto(3)));
        proof {
            assert(self.cells@ =~= old(self).cells@ + gemm_words(*plan));
        }
    }

    /// The index of the cell of a slot of the last node.
    pub fn cell_of(&self, slot: usize) -> (k: usize)
        requires
            self.specs@.len() > 0,
            self.cell_off@.len() == self.specs@.len(),
            self.cell_off@.last() + slot <= usize::MAX,
        ensures
            k == self.cell_off@.last() + slot,
    {
        self.cell_off[self.specs.len() - 1] + slot
    }
}

fn push_words(out: &mut Vec<u64>, vals: &[u64])
    ensures
        final(out)@ == old(out)@ + vals@,
{
    let mut i: usize = 0;
    while i < vals.len()
        invariant
            i <= vals.len(),
            out@ == old(out)@ + vals@.subrange(0, i as int),
        decreases vals.len() - i,
    {
        out.push(vals[i]);
        i = i + 1;
        proof {
            assert(out@ =~= old(out)@ + vals@.subrange(0, i as int));
        }
    }
    proof {
        assert(vals@.subrange(0, vals@.len() as int) =~= vals@);
    }
}

/// The declaration of a decode step.
#[derive(Debug)]
pub struct GraphStepDecl {
    /// Specifications in launch order.
    pub specs: Vec<KernelSpec>,
    /// Where the cells of each node start.
    pub cell_off: Vec<usize>,
    /// The words of all arguments, one node after the other.
    pub cells: Vec<u64>,
    /// Every declared slot and its cell.
    pub updates: Vec<PtrUpdate>,
    /// The cell of the token.
    pub cell_token: usize,
    /// Per layer the cells of the position, of the query and of the key.
    pub cell_rope_q_pos: Vec<usize>,
    pub cell_rope_k_pos: Vec<usize>,
    /// Per layer the cells of the cache slot: page, and place in the page.
    pub cell_kv_phys: Vec<usize>,
    pub cell_kv_off: Vec<usize>,
    /// The slots, by node, that change from step to step.
    pub refresh: Vec<(usize, usize)>,
}

/// Writes of the position through the first `n` entries of two lists.
pub open spec fn write_pos(
    cells: Seq<u64>,
    q: Seq<usize>,
    k: Seq<usize>,
    n: nat,
    pos: usize,
) -> Seq<u64>
    decreases n,
{
    if n == 0 {
        cells
    } else {
        write_pos(cells, q, k, (n - 1) as nat, pos).update(q[n - 1] as int, pos as u64).update(
            k[n - 1] as int,
            pos as u64,
        )
    }
}

/// Writes of the cache slots through the first `n` entries of two lists.
pub open spec fn write_slots(
    cells: Seq<u64>,
    phys: Seq<usize>,
    off: Seq<usize>,
    n: nat,
    v: StepVars,
) -> Seq<u64>
    decreases n,
{
    if n == 0 {
        cells
    } else {
        write_slots(cells, phys, off, (n - 1) as nat, v).update(
            phys[n - 1] as int,
            cell_value(CellV::Phys((n - 1) as nat), v),
        ).update(off[n - 1] as int, cell_value(CellV::Off, v))
    }
}

/// The cells of a declaration after the values of a step have been written.
pub open spec fn stepped(d: GraphStepDecl, v: StepVars) -> Seq<u64> {
    let c = d.cells@.update(d.cell_token as int, v.token as u64);
    let c = write_pos(
        c,
        d.cell_rope_q_pos@,
        d.cell_rope_k_pos@,
        d.cell_rope_q_pos@.len(),
        v.pos,
    );
    write_slots(c, d.cell_kv_phys@, d.cell_kv_off@, d.cell_kv_phys@.len(), v)
}

impl GraphStepDecl {
    /// Whether every cell of the position and of the cache slot exists.
    pub open spec fn in_range(self) -> bool {
        &&& forall|i: int|
            0 <= i < self.cell_rope_q_pos@.len() ==> #[trigger] self.cell_rope_q_pos@[i]
                < self.cells@.len()
        &&& forall|i: int|
            0 <= i < self.cell_rope_k_pos@.len() ==> #[trigger] self.cell_rope_k_pos@[i]
                < self.cells@.len()
        &&& forall|i: int|
            0 <= i < self.cell_kv_phys@.len() ==> #[trigger] self.cell_kv_phys@[i]
                < self.cells@.len()
        &&& forall|i: int|
            0 <= i < self.cell_kv_off@.len() ==> #[trigger] self.cell_kv_off@[i]
                < self.cells@.len()
    }

    /// Whether every listed cell exists, and the lists pair up.
    pub open spec fn lists_ok(self) -> bool {
        &&& self.cell_token < self.cells@.len()
        &&& self.cell_rope_q_pos@.len() == self.cell_rope_k_pos@.len()
        &&& self.cell_kv_phys@.len() == self.cell_kv_off@.len()
        &&& self.in_range()
    }

    /// Whether the specifications and cells are those of the given nodes.
    pub open spec fn holds(self, t: Seq<NodeT>) -> bool {
        let f = flat(t);
        &&& self.specs@.len() == t.len()
        &&& self.cell_off@.len() == t.len()
        &&& self.cells@.len() == f.len()
        &&& forall|i: int| 0 <= i < t.len() ==> (#[trigger] self.specs@[i])@ == t[i].spec
        &&& forall|i: int| 0 <= i < t.len() ==> #[trigger] self.cell_off@[i] == offset(t, i)
        &&& forall|k: int|
            0 <= k < f.len() && f[k] is Const ==> #[trigger] self.cells@[k] == f[k]->Const_0
    }

    /// Whether the lists name exactly the cells that change, of the position and
    /// of the cache slot.
    pub open spec fn lists(self, t: Seq<NodeT>) -> bool {
        let f = flat(t);
        &&& forall|k: int|
            0 <= k < f.len() ==> (#[trigger] f[k] is Pos <==> self.cell_rope_q_pos@.contains(
                k as usize,
            ) || self.cell_rope_k_pos@.contains(k as usize))
        &&& forall|k: int|
            0 <= k < f.len() && #[trigger] f[k] is Phys ==> f[k]->Phys_0 < self.cell_kv_phys@.len()
                && self.cell_kv_phys@[f[k]->Phys_0 as int] == k
        &&& forall|li: int|
            0 <= li < self.cell_kv_phys@.len() ==> f[#[trigger] self.cell_kv_phys@[li] as int]
                == CellV::Phys(li as nat)
        &&& forall|k: int|
            0 <= k < f.len() ==> (#[trigger] f[k] is Off <==> self.cell_kv_off@.contains(
                k as usize,
            ))
    }

    /// Whether the token has a cell, and only that one; or none yet.
    pub open spec fn token_at(self, t: Seq<NodeT>, has: bool) -> bool {
        let f = flat(t);
        forall|k: int|
            0 <= k < f.len() ==> (#[trigger] f[k] is Token <==> has && k == self.cell_token)
    }

    /// Whether this declares the given nodes.
    pub open spec fn declares(self, t: Seq<NodeT>) -> bool {
        &&& self.lists_ok()
        &&& self.holds(t)
        &&& self.lists(t)
        &&& self.token_at(t, true)
        &&& self.refreshes(t)
        &&& self.updates_all(t)
        &&& forall|i: int| 0 <= i < t.len() ==> extents_fit(#[trigger] t[i])
    }

    /// Whether the changing slots are listed for refresh, in their order.
    pub open spec fn refreshes(self, t: Seq<NodeT>) -> bool {
        self.refresh@ == refresh_of(t)
    }

    /// Whether every slot of every node is listed with its cell, in order.
    pub open spec fn updates_all(self, t: Seq<NodeT>) -> bool {
        &&& self.updates@.len() == flat(t).len()
        &&& forall|i: int, j: int|
            0 <= i < t.len() && 0 <= j < t[i].cells.len() ==> self.updates@[#[trigger] (offset(t, i)
                + j)] == (PtrUpdate {
                node: i as usize,
                slot: j as usize,
                cell: (offset(t, i) + j) as usize,
            })
    }

    /// Specifications in launch order.
    pub fn specs(&self) -> (s: &Vec<KernelSpec>)
        ensures
            *s == self.specs,
    {
        &self.specs
    }

    /// Every declared slot and its cell.
    pub fn updates(&self) -> (u: &Vec<PtrUpdate>)
        ensures
            *u == self.updates,
    {
        &self.updates
    }

    /// The slots that change from step to step.
    pub fn refresh(&self) -> (r: &Vec<(usize, usize)>)
        ensures
            *r == self.refresh,
    {
        &self.refresh
    }

    /// The declared extents of a cuBLAS node; `None` for a kernel node, and
    /// where there is no such node.
    pub fn gemm_cells(&self, node: usize) -> (r: Option<(u64, u64, u64)>)
        requires
            self.cell_off@.len() == self.specs@.len(),
            node < self.specs@.len() ==> match self.specs@[node as int].layout {
                ParamLayout::Gemm { m, n, k, .. } => {
                    let base = self.cell_off@[node as int];
                    base + m < self.cells@.len() && base + n < self.cells@.len() && base + k
                        < self.cells@.len()
                },
                _ => true,
            },
        ensures
            r is Some <==> node < self.specs@.len() && self.specs@[node as int].layout is Gemm,
            r is Some ==> ({
                let l = self.specs@[node as int].layout;
                let base = self.cell_off@[node as int];
                r->0 == (
                    self.cells@[base + l->m],
                    self.cells@[base + l->n],
                    self.cells@[base + l->k],
                )
            }),
    {
        let total: usize = self.cells.len();
        if node >= self.specs.len() {
            return None;
        }
        match self.specs[node].layout {
            ParamLayout::Gemm { m, n, k, .. } => {
                let base: usize = self.cell_off[node];
                proof {
                    assert(base + m < total && base + n < total && base + k < total);
                }
                Some((self.cells[base + m], self.cells[base + n], self.cells[base + k]))
            },
            _ => None,
        }
    }

    /// Writes the values of a step into the cells.
    pub fn write_step(&mut self, token: u32, pos: usize, n_layers: usize, pp: usize)
        requires
            old(self).lists_ok(),
            old(self).cell_kv_phys@.len() > 0 ==> old(self).cell_kv_phys@.len() * pp + pos / 32
                <= usize::MAX,
        ensures
            final(self).cells@ == stepped(*old(self), StepVars { token, pos, pp }),
            final(self).specs == old(self).specs,
            final(self).cell_off == old(self).cell_off,
            final(self).updates == old(self).updates,
            final(self).cell_token == old(self).cell_token,
            final(self).cell_rope_q_pos == old(self).cell_rope_q_pos,
            final(self).cell_rope_k_pos == old(self).cell_rope_k_pos,
            final(self).cell_kv_phys == old(self).cell_kv_phys,
            final(self).cell_kv_off == old(self).cell_kv_off,
            final(self).refresh == old(self).refresh,
            final(self).lists_ok(),
    {
        let ghost v = StepVars { token, pos, pp };
        let ghost d0 = *self;
        let off: u64 = (pos % BLOCK_LEN) as u64;
        self.cells.set(self.cell_token, token as u64);
        let ghost c1 = self.cells@;
        let mut li: usize = 0;
        while li < self.cell_rope_q_pos.len()
            invariant
                d0.lists_ok(),
                li <= self.cell_rope_q_pos.len(),
                self.specs == d0.specs,
                self.cell_off == d0.cell_off,
                self.updates == d0.updates,
                self.cell_token == d0.cell_token,
                self.cell_rope_q_pos == d0.cell_rope_q_pos,
                self.cell_rope_k_pos == d0.cell_rope_k_pos,
                self.cell_kv_phys == d0.cell_kv_phys,
                self.cell_kv_off == d0.cell_kv_off,
                self.refresh == d0.refresh,
                self.cells@.len() == d0.cells@.len(),
                self.cells@ == write_pos(
                    c1,
                    d0.cell_rope_q_pos@,
                    d0.cell_rope_k_pos@,
                    li as nat,
                    pos,
                ),
            decreases self.cell_rope_q_pos.len() - li,
        {
            let q: usize = self.cell_rope_q_pos[li];
            let k: usize = self.cell_rope_k_pos[li];
            self.cells.set(q, pos as u64);
            self.cells.set(k, pos as u64);
            li = li + 1;
        }
        let ghost c2 = self.cells@;
        let mut lj: usize = 0;
        while lj < self.cell_kv_phys.len()
            invariant
                d0.lists_ok(),
                lj <= self.cell_kv_phys.len(),
                self.specs == d0.specs,
                self.cell_off == d0.cell_off,
                self.updates == d0.updates,
                self.cell_token == d0.cell_token,
                self.cell_rope_q_pos == d0.cell_rope_q_pos,
                self.cell_rope_k_pos == d0.cell_rope_k_pos,
                self.cell_kv_phys == d0.cell_kv_phys,
                self.cell_kv_off == d0.cell_kv_off,
                self.refresh == d0.refresh,
                self.cells@.len() == d0.cells@.len(),
                v == (StepVars { token, pos, pp }),
                off == pos % 32,
                d0.cell_kv_phys@.len() > 0 ==> d0.cell_kv_phys@.len() * pp + pos / 32
                    <= usize::MAX,
                self.cells@ == write_slots(
                    c2,
                    d0.cell_kv_phys@,
                    d0.cell_kv_off@,
                    lj as nat,
                    v,
                ),
            decreases self.cell_kv_phys.len() - lj,
        {
            let pc: usize = self.cell_kv_phys[lj];
            let oc: usize = self.cell_kv_off[lj];
            proof {
                let n = d0.cell_kv_phys@.len() as int;
                assert(lj * pp <= n * pp) by (nonlinear_arith)
                    requires
                        lj <= n,
                        pp >= 0,
                ;
            }
            let page: usize = lj * pp + pos / BLOCK_LEN;
            self.cells.set(pc, (#[verifier::truncate] (page as u32)) as u64);
            self.cells.set(oc, off);
            lj = lj + 1;
        }
    }

    /// Whether every node launches a kernel of this library.
    pub open spec fn custom(self) -> bool {
        forall|i: int|
            0 <= i < self.specs@.len() ==> (#[trigger] self.specs@[i]).role
                == NodeRole::CustomKernel
    }

    /// The roles of a declaration are those of the nodes that it declares.
    pub proof fn lemma_custom(self, t: Seq<NodeT>)
        requires
            self.holds(t),
        ensures
            self.custom() == all_custom(t),
    {
        assert forall|i: int| 0 <= i < t.len() implies #[trigger] self.specs@[i].role
            == t[i].spec.role by {
            assert(self.specs@[i]@ == t[i].spec);
        }
        if self.custom() {
            assert forall|i: int| 0 <= i < t.len() implies (#[trigger] t[i]).spec.role
                == NodeRole::CustomKernel by {
                assert(self.specs@[i].role == NodeRole::CustomKernel);
            }
        }
    }

    /// Whether every node launches a kernel of this library.
    pub fn is_all_custom(&self) -> (b: bool)
        ensures
            b == self.custom(),
    {
        let mut i: usize = 0;
        while i < self.specs.len()
            invariant
                i <= self.specs.len(),
                forall|j: int|
                    0 <= j < i ==> (#[trigger] self.specs@[j]).role == NodeRole::CustomKernel,
            decreases self.specs.len() - i,
        {
            if self.specs[i].role != NodeRole::CustomKernel {
                return false;
            }
            i = i + 1;
        }
        true
    }
}

proof fn lemma_write_pos(cells: Seq<u64>, q: Seq<usize>, k: Seq<usize>, n: nat, pos: usize, at: int)
    requires
        n <= q.len(),
        q.len() == k.len(),
        forall|i: int| 0 <= i < q.len() ==> #[trigger] q[i] < cells.len(),
        forall|i: int| 0 <= i < k.len() ==> #[trigger] k[i] < cells.len(),
        0 <= at < cells.len(),
    ensures
        write_pos(cells, q, k, n, pos).len() == cells.len(),
        forall|i: int|
            0 <= i < n && #[trigger] q[i] == at ==> write_pos(cells, q, k, n, pos)[at]
                == pos as u64,
        forall|i: int|
            0 <= i < n && #[trigger] k[i] == at ==> write_pos(cells, q, k, n, pos)[at]
                == pos as u64,
        (forall|i: int| 0 <= i < n ==> #[trigger] q[i] != at) && (forall|i: int|
            0 <= i < n ==> #[trigger] k[i] != at) ==> write_pos(cells, q, k, n, pos)[at]
            == cells[at],
    decreases n,
{
    if n > 0 {
        lemma_write_pos(cells, q, k, (n - 1) as nat, pos, at);
        let m = (n - 1) as int;
        let before = write_pos(cells, q, k, (n - 1) as nat, pos);
        assert(write_pos(cells, q, k, n, pos) == before.update(q[m] as int, pos as u64).update(
            k[m] as int,
            pos as u64,
        ));
    }
}

proof fn lemma_write_slots(
    cells: Seq<u64>,
    phys: Seq<usize>,
    off: Seq<usize>,
    n: nat,
    v: StepVars,
    at: int,
)
    requires
        n <= phys.len(),
        phys.len() == off.len(),
        forall|i: int| 0 <= i < phys.len() ==> #[trigger] phys[i] < cells.len(),
        forall|i: int| 0 <= i < off.len() ==> #[trigger] off[i] < cells.len(),
        forall|i: int, j: int|
            0 <= i < phys.len() && 0 <= j < phys.len() && #[trigger] phys[i] == #[trigger] phys[j]
                ==> i == j,
        forall|i: int, j: int|
            0 <= i < phys.len() && 0 <= j < off.len() ==> #[trigger] phys[i] != #[trigger] off[j],
        0 <= at < cells.len(),
    ensures
        write_slots(cells, phys, off, n, v).len() == cells.len(),
        forall|i: int|
            0 <= i < n && #[trigger] phys[i] == at ==> write_slots(cells, phys, off, n, v)[at]
                == cell_value(CellV::Phys(i as nat), v),
        (exists|i: int| 0 <= i < n && #[trigger] off[i] == at) ==> write_slots(
            cells,
            phys,
            off,
            n,
            v,
        )[at] == cell_value(CellV::Off, v),
        (forall|i: int| 0 <= i < n ==> #[trigger] phys[i] != at) && (forall|i: int|
            0 <= i < n ==> #[trigger] off[i] != at) ==> write_slots(cells, phys, off, n, v)[at]
            == cells[at],
    decreases n,
{
    if n > 0 {
        lemma_write_slots(cells, phys, off, (n - 1) as nat, v, at);
        let m = (n - 1) as int;
        let before = write_slots(cells, phys, off, (n - 1) as nat, v);
        let after = write_slots(cells, phys, off, n, v);
        assert(after == before.update(
            phys[m] as int,
            cell_value(CellV::Phys(m as nat), v),
        ).update(off[m] as int, cell_value(CellV::Off, v)));
        assert forall|i: int| 0 <= i < n && #[trigger] phys[i] == at implies after[at]
            == cell_value(CellV::Phys(i as nat), v) by {
            assert(off[m] != phys[i]);
            if i < m {
                assert(phys[m] != at);
            }
        }
        if exists|i: int| 0 <= i < n && #[trigger] off[i] == at {
            let i = choose|i: int| 0 <= i < n && #[trigger] off[i] == at;
            if off[m] != at {
                assert(i < m);
                assert(phys[m] != off[i]);
            }
        }
    }
}

/// After the values of a step have been written, every cell of every declared
/// node holds what the node reads at that step.
pub proof fn written_cells_are_the_step(d: GraphStepDecl, t: Seq<NodeT>, v: StepVars)
    requires
        d.declares(t),
    ensures
        stepped(d, v).len() == flat(t).len(),
        forall|k: int|
            0 <= k < flat(t).len() ==> #[trigger] stepped(d, v)[k] == cell_value(flat(t)[k], v),
{
    let f = flat(t);
    assert(d.cells@.len() == d.cells.len());
    let (q, kk, ph, of) = (
        d.cell_rope_q_pos@,
        d.cell_rope_k_pos@,
        d.cell_kv_phys@,
        d.cell_kv_off@,
    );
    let c1 = d.cells@.update(d.cell_token as int, v.token as u64);
    let c2 = write_pos(c1, q, kk, q.len(), v.pos);
    assert forall|i: int, j: int|
        0 <= i < ph.len() && 0 <= j < ph.len() && #[trigger] ph[i] == #[trigger] ph[j] implies i
        == j by {
        assert(f[ph[i] as int] == CellV::Phys(i as nat));
        assert(f[ph[j] as int] == CellV::Phys(j as nat));
    }
    assert forall|i: int, j: int| 0 <= i < ph.len() && 0 <= j < of.len() implies #[trigger] ph[i]
        != #[trigger] of[j] by {
        assert(f[ph[i] as int] == CellV::Phys(i as nat));
        assert(of.contains(of[j]));
        assert(f[of[j] as int] is Off);
    }
    lemma_write_pos(c1, q, kk, q.len(), v.pos, d.cell_token as int);
    lemma_write_slots(c2, ph, of, ph.len(), v, d.cell_token as int);
    assert forall|k: int| 0 <= k < f.len() implies #[trigger] stepped(d, v)[k] == cell_value(
        f[k],
        v,
    ) by {
        lemma_write_pos(c1, q, kk, q.len(), v.pos, k);
        lemma_write_slots(c2, ph, of, ph.len(), v, k);
        let ku = k as usize;
        assert(f[k] is Pos <==> q.contains(ku) || kk.contains(ku));
        assert(f[k] is Off <==> of.contains(ku));
        assert forall|i: int| 0 <= i < ph.len() && #[trigger] ph[i] == k implies f[k]
            == CellV::Phys(i as nat) by {}
        assert forall|i: int| 0 <= i < of.len() && #[trigger] of[i] == k implies f[k] is Off by {
            assert(of.contains(of[i]));
        }
        if f[k] is Pos {
            if q.contains(ku) {
                assert(q[q.index_of(ku)] == k);
            } else {
                assert(kk[kk.index_of(ku)] == k);
            }
        } else {
            assert forall|i: int| 0 <= i < q.len() implies #[trigger] q[i] != k by {
                assert(q.contains(q[i]));
            }
            assert forall|i: int| 0 <= i < kk.len() implies #[trigger] kk[i] != k by {
                assert(kk.contains(kk[i]));
            }
        }
        if f[k] is Phys {
            assert(ph[f[k]->Phys_0 as int] == k);
        } else {
            assert(forall|i: int| 0 <= i < ph.len() ==> #[trigger] ph[i] != k);
            if f[k] is Off {
                let i = of.index_of(ku);
                assert(of[i] == k);
            } else {
                assert(forall|i: int| 0 <= i < of.len() ==> #[trigger] of[i] != k);
            }
        }
    }
}

/// The step's values reach exactly the nodes of the step: read through its cells,
/// a declaration is the declared nodes at that step.
pub proof fn declaration_is_the_step(d: GraphStepDecl, t: Seq<NodeT>, v: StepVars, i: int)
    requires
        d.declares(t),
        0 <= i < t.len(),
    ensures
        d.specs@[i]@ == all_at_step(t, v)[i].spec,
        d.cell_off@[i] + t[i].cells.len() <= stepped(d, v).len(),
        stepped(d, v).subrange(
            d.cell_off@[i] as int,
            d.cell_off@[i] + t[i].cells.len(),
        ) == all_at_step(t, v)[i].cells,
{
    written_cells_are_the_step(d, t, v);
    lemma_offset(t, i);
    let o = offset(t, i);
    let n = t[i].cells.len() as int;
    assert forall|j: int| 0 <= j < n implies stepped(d, v)[o + j] == #[trigger] cell_value(
        t[i].cells[j],
        v,
    ) by {
        assert(flat(t).subrange(o, o + n)[j] == flat(t)[o + j]);
    }
    assert(stepped(d, v).subrange(o, o + n) =~= all_at_step(t, v)[i].cells);
}

/// A step leaves every cell alone that is not listed as changing.
pub proof fn other_cells_stay(d: GraphStepDecl, t: Seq<NodeT>, v: StepVars, k: int)
    requires
        d.declares(t),
        0 <= k < flat(t).len(),
        k != d.cell_token,
        !d.cell_rope_q_pos@.contains(k as usize),
        !d.cell_rope_k_pos@.contains(k as usize),
        !d.cell_kv_phys@.contains(k as usize),
        !d.cell_kv_off@.contains(k as usize),
    ensures
        stepped(d, v)[k] == d.cells@[k],
{
    written_cells_are_the_step(d, t, v);
    let f = flat(t);
    assert(d.cells@.len() == d.cells.len());
    match f[k] {
        CellV::Phys(li) => {
            assert(d.cell_kv_phys@[li as int] == k);
            assert(d.cell_kv_phys@.contains(d.cell_kv_phys@[li as int]));
        },
        _ => {},
    }
}

/// Writing a step keeps a declaration what it declares.
pub proof fn stepping_keeps_the_declaration(
    d: GraphStepDecl,
    e: GraphStepDecl,
    t: Seq<NodeT>,
    v: StepVars,
)
    requires
        d.declares(t),
        e.cells@ == stepped(d, v),
        e.specs == d.specs,
        e.cell_off == d.cell_off,
        e.updates == d.updates,
        e.cell_token == d.cell_token,
        e.cell_rope_q_pos == d.cell_rope_q_pos,
        e.cell_rope_k_pos == d.cell_rope_k_pos,
        e.cell_kv_phys == d.cell_kv_phys,
        e.cell_kv_off == d.cell_kv_off,
        e.refresh == d.refresh,
    ensures
        e.declares(t),
{
    written_cells_are_the_step(d, t, v);
    let f = flat(t);
    assert forall|k: int| 0 <= k < f.len() && f[k] is Const implies #[trigger] e.cells@[k]
        == f[k]->Const_0 by {
        assert(stepped(d, v)[k] == cell_value(f[k], v));
    }
    assert(e.holds(t));
    assert(e.lists(t));
    assert(e.in_range());
}

} // verus!
