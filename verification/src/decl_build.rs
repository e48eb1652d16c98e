//! Building a graph declaration node by node.

use vstd::prelude::*;

use crate::decl::{
    extents_fit, fixed, fixed_gemm, flat, gemm_decl, gemm_words, lemma_contains_push,
    lemma_flat_push, lemma_offset, lemma_slots_gemm_node, lemma_slots_marked, marked, marks_here,
    marks_last, offset, slots_of, CellV, GraphStepDecl, Marks, NodeT, PtrUpdate, SpecAcc,
};
use crate::gemm::{GemmPlan, Jgemm};
use crate::launch::{Launch, Queue};

verus! {

/// A declaration while it is built.
pub struct DeclBuilder {
    pub acc: SpecAcc,
    pub rope_q: Vec<usize>,
    pub rope_k: Vec<usize>,
    pub phys: Vec<usize>,
    pub off: Vec<usize>,
    /// The changing slots that are listed in their place.
    pub refresh: Vec<(usize, usize)>,
    /// The changing slots that are listed last.
    pub late: Vec<(usize, usize)>,
    pub token: usize,
    pub has_token: bool,
    /// The nodes that are declared so far.
    pub nodes: Ghost<Seq<NodeT>>,
}

/// An entry appended to a list where there is one.
pub open spec fn push_opt<A>(s: Seq<A>, x: Option<A>) -> Seq<A> {
    match x {
        Some(a) => s.push(a),
        None => s,
    }
}

/// The cell of a marked slot of the node that is appended.
pub open spec fn cell_at(base: int, slot: Option<usize>) -> Option<usize> {
    match slot {
        Some(j) => Some((base + j) as usize),
        None => None,
    }
}

impl DeclBuilder {
    pub open spec fn as_decl(self) -> GraphStepDecl {
        GraphStepDecl {
            specs: self.acc.specs,
            cell_off: self.acc.cell_off,
            cells: self.acc.cells,
            updates: arbitrary(),
            cell_token: self.token,
            cell_rope_q_pos: self.rope_q,
            cell_rope_k_pos: self.rope_k,
            cell_kv_phys: self.phys,
            cell_kv_off: self.off,
            refresh: self.refresh,
        }
    }

    pub open spec fn wf(self) -> bool {
        let d = self.as_decl();
        &&& d.in_range()
        &&& d.holds(self.nodes@)
        &&& d.lists(self.nodes@)
        &&& d.token_at(self.nodes@, self.has_token)
        &&& self.refresh@ == slots_of(self.nodes@, false)
        &&& self.late@ == slots_of(self.nodes@, true)
        &&& self.has_token ==> self.token < self.acc.cells@.len()
        &&& self.phys@.len() == self.off@.len()
        &&& forall|i: int| 0 <= i < self.nodes@.len() ==> extents_fit(#[trigger] self.nodes@[i])
    }
}

proof fn lemma_push_opt<A>(s: Seq<A>, x: Option<A>, y: A)
    ensures
        push_opt(s, x).contains(y) <==> s.contains(y) || x == Some(y),
{
    if x is Some {
        lemma_contains_push(s, x->0, y);
    }
}

proof fn lemma_holds_push(
    a: GraphStepDecl,
    b: GraphStepDecl,
    t: Seq<NodeT>,
    n: NodeT,
    words: Seq<u64>,
)
    requires
        a.holds(t),
        words.len() == n.cells.len(),
        b.specs@.len() == a.specs@.len() + 1,
        b.specs@.last()@ == n.spec,
        forall|i: int| 0 <= i < a.specs@.len() ==> #[trigger] b.specs@[i] == a.specs@[i],
        b.cell_off@ == a.cell_off@.push(a.cells@.len() as usize),
        b.cells@ == a.cells@ + words,
        forall|j: int|
            0 <= j < n.cells.len() && #[trigger] n.cells[j] is Const ==> words[j]
                == n.cells[j]->Const_0,
    ensures
        b.holds(t.push(n)),
{
    broadcast use lemma_flat_push;

    let u = t.push(n);
    assert(a.cells@.len() == a.cells.len());
    assert forall|i: int| 0 <= i < u.len() implies (#[trigger] b.specs@[i])@ == u[i].spec by {
        if i < t.len() {
            assert(b.specs@[i] == a.specs@[i]);
        }
    }
    assert forall|i: int| 0 <= i < u.len() implies #[trigger] b.cell_off@[i] == offset(u, i) by {
        assert(u.take(i) =~= t.take(i));
        if i == t.len() {
            assert(t.take(i) =~= t);
        }
    }
    let f = flat(t);
    assert forall|k: int| 0 <= k < flat(u).len() && flat(u)[k] is Const implies
        #[trigger] b.cells@[k] == flat(u)[k]->Const_0 by {
        if k < f.len() {
            assert(flat(u)[k] == f[k]);
            assert(b.cells@[k] == a.cells@[k]);
        } else {
            assert(flat(u)[k] == n.cells[k - f.len()]);
        }
    }
}

/// The lists after a node has been appended name the cells that change, where
/// the node's own changing cells were appended to them.
proof fn lemma_lists_push(
    a: GraphStepDecl,
    b: GraphStepDecl,
    t: Seq<NodeT>,
    n: NodeT,
    pos: Option<usize>,
    in_q: bool,
    in_k: bool,
    kv: Option<(usize, usize)>,
)
    requires
        a.in_range(),
        a.holds(t),
        a.lists(t),
        a.cell_kv_phys@.len() == a.cell_kv_off@.len(),
        b.cells@.len() == a.cells@.len() + n.cells.len(),
        pos is Some ==> pos->0 < n.cells.len() && (in_q || in_k),
        kv is Some ==> (kv->0).0 < n.cells.len() && (kv->0).1 < n.cells.len(),
        forall|j: int|
            0 <= j < n.cells.len() ==> (#[trigger] n.cells[j] is Pos <==> pos == Some(j as usize)),
        forall|j: int|
            0 <= j < n.cells.len() ==> (#[trigger] n.cells[j] is Phys <==> kv is Some && (kv->0).0
                == j),
        forall|j: int|
            0 <= j < n.cells.len() ==> (#[trigger] n.cells[j] is Off <==> kv is Some && (kv->0).1
                == j),
        kv is Some ==> n.cells[(kv->0).0 as int] == CellV::Phys(a.cell_kv_phys@.len()),
        b.cell_rope_q_pos@ == push_opt(
            a.cell_rope_q_pos@,
            if in_q {
                cell_at(a.cells@.len() as int, pos)
            } else {
                None
            },
        ),
        b.cell_rope_k_pos@ == push_opt(
            a.cell_rope_k_pos@,
            if in_k {
                cell_at(a.cells@.len() as int, pos)
            } else {
                None
            },
        ),
        b.cell_kv_phys@ == (if kv is Some {
            a.cell_kv_phys@.push((a.cells@.len() + (kv->0).0) as usize)
        } else {
            a.cell_kv_phys@
        }),
        b.cell_kv_off@ == (if kv is Some {
            a.cell_kv_off@.push((a.cells@.len() + (kv->0).1) as usize)
        } else {
            a.cell_kv_off@
        }),
    ensures
        b.in_range(),
        b.lists(t.push(n)),
{
    broadcast use lemma_flat_push;

    let f = flat(t);
    let g = flat(t.push(n));
    let base = f.len() as int;
    assert(b.cells@.len() == b.cells.len());
    assert(a.cells@.len() == a.cells.len());
    let qc = if in_q {
        cell_at(base, pos)
    } else {
        None
    };
    let kc = if in_k {
        cell_at(base, pos)
    } else {
        None
    };
    assert forall|k: int| 0 <= k < g.len() implies (#[trigger] g[k] is Pos
        <==> b.cell_rope_q_pos@.contains(k as usize) || b.cell_rope_k_pos@.contains(k as usize)) by {
        let ku = k as usize;
        lemma_push_opt(a.cell_rope_q_pos@, qc, ku);
        lemma_push_opt(a.cell_rope_k_pos@, kc, ku);
        if k < base {
            assert(g[k] == f[k]);
            assert(f[k] is Pos <==> a.cell_rope_q_pos@.contains(ku) || a.cell_rope_k_pos@.contains(
                ku,
            ));
        } else {
            assert(g[k] == n.cells[k - base]);
            assert(n.cells[k - base] is Pos <==> pos == Some((k - base) as usize));
            if a.cell_rope_q_pos@.contains(ku) {
                assert(a.cell_rope_q_pos@[a.cell_rope_q_pos@.index_of(ku)] == ku);
            }
            if a.cell_rope_k_pos@.contains(ku) {
                assert(a.cell_rope_k_pos@[a.cell_rope_k_pos@.index_of(ku)] == ku);
            }
        }
    }
    assert forall|k: int| 0 <= k < g.len() implies (#[trigger] g[k] is Off
        <==> b.cell_kv_off@.contains(k as usize)) by {
        let ku = k as usize;
        if kv is Some {
            lemma_contains_push(a.cell_kv_off@, (a.cells@.len() + (kv->0).1) as usize, ku);
        }
        if k < base {
            assert(g[k] == f[k]);
            assert(f[k] is Off <==> a.cell_kv_off@.contains(ku));
        } else {
            assert(g[k] == n.cells[k - base]);
            assert(n.cells[k - base] is Off <==> kv is Some && (kv->0).1 == k - base);
            if a.cell_kv_off@.contains(ku) {
                assert(a.cell_kv_off@[a.cell_kv_off@.index_of(ku)] == ku);
            }
        }
    }
    assert forall|k: int| 0 <= k < g.len() && #[trigger] g[k] is Phys implies g[k]->Phys_0
        < b.cell_kv_phys@.len() && b.cell_kv_phys@[g[k]->Phys_0 as int] == k by {
        if k < base {
            assert(g[k] == f[k]);
        } else {
            assert(g[k] == n.cells[k - base]);
            assert(n.cells[k - base] is Phys);
        }
    }
    assert forall|li: int| 0 <= li < b.cell_kv_phys@.len() implies g[
        #[trigger] b.cell_kv_phys@[li] as int
    ] == CellV::Phys(li as nat) by {
        if li < a.cell_kv_phys@.len() {
            let c = a.cell_kv_phys@[li];
            assert(f[c as int] == CellV::Phys(li as nat));
            assert(g[c as int] == f[c as int]);
        } else {
            let c = base + (kv->0).0;
            assert(g[c] == n.cells[(kv->0).0 as int]);
        }
    }
    assert forall|i: int| 0 <= i < b.cell_rope_q_pos@.len() implies
        #[trigger] b.cell_rope_q_pos@[i] < b.cells@.len() by {
        if i < a.cell_rope_q_pos@.len() {
            assert(a.cell_rope_q_pos@[i] < a.cells@.len());
        }
    }
    assert forall|i: int| 0 <= i < b.cell_rope_k_pos@.len() implies
        #[trigger] b.cell_rope_k_pos@[i] < b.cells@.len() by {
        if i < a.cell_rope_k_pos@.len() {
            assert(a.cell_rope_k_pos@[i] < a.cells@.len());
        }
    }
    assert forall|i: int| 0 <= i < b.cell_kv_phys@.len() implies #[trigger] b.cell_kv_phys@[i]
        < b.cells@.len() by {
        if i < a.cell_kv_phys@.len() {
            assert(a.cell_kv_phys@[i] < a.cells@.len());
        }
    }
    assert forall|i: int| 0 <= i < b.cell_kv_off@.len() implies #[trigger] b.cell_kv_off@[i]
        < b.cells@.len() by {
        if i < a.cell_kv_off@.len() {
            assert(a.cell_kv_off@[i] < a.cells@.len());
        }
    }
}

proof fn lemma_token_push(
    a: GraphStepDecl,
    b: GraphStepDecl,
    t: Seq<NodeT>,
    n: NodeT,
    had: bool,
    token: Option<usize>,
)
    requires
        a.holds(t),
        a.token_at(t, had),
        had ==> a.cell_token < a.cells@.len() && token is None,
        b.cells@.len() == a.cells@.len() + n.cells.len(),
        token is Some ==> token->0 < n.cells.len() && b.cell_token == a.cells@.len() + token->0,
        token is None ==> b.cell_token == a.cell_token,
        forall|j: int|
            0 <= j < n.cells.len() ==> (#[trigger] n.cells[j] is Token <==> token == Some(
                j as usize,
            )),
    ensures
        b.token_at(t.push(n), had || token is Some),
{
    broadcast use lemma_flat_push;

    let f = flat(t);
    let g = flat(t.push(n));
    assert(b.cells@.len() == b.cells.len());
    assert forall|k: int| 0 <= k < g.len() implies (#[trigger] g[k] is Token <==> (had || token
        is Some) && k == b.cell_token) by {
        if k < f.len() {
            assert(g[k] == f[k]);
            assert(f[k] is Token <==> had && k == a.cell_token);
        } else {
            assert(g[k] == n.cells[k - f.len()]);
            assert(n.cells[k - f.len()] is Token <==> token == Some((k - f.len()) as usize));
        }
    }
}

impl DeclBuilder {
    pub fn new() -> (b: Self)
        ensures
            b.wf(),
            b.nodes@ == Seq::<NodeT>::empty(),
            !b.has_token,
            b.rope_q@.len() == 0,
            b.rope_k@.len() == 0,
            b.phys@.len() == 0,
    {
        DeclBuilder {
            acc: SpecAcc::new(),
            rope_q: Vec::new(),
            rope_k: Vec::new(),
            phys: Vec::new(),
            off: Vec::new(),
            refresh: Vec::new(),
            late: Vec::new(),
            token: 0,
            has_token: false,
            nodes: Ghost(Seq::empty()),
        }
    }

    /// Appends a node with marked slots; a marked position is listed for the
    /// query, for the key, or for both.
    pub fn launch_marked(&mut self, l: &Launch, m: Marks, in_q: bool, in_k: bool)
        requires
            old(self).wf(),
            m.fit(l.args@.len()),
            m.token is Some ==> !old(self).has_token,
            m.pos is Some ==> in_q || in_k,
        ensures
            final(self).wf(),
            final(self).nodes@ == old(self).nodes@.push(marked(l@, m, old(self).phys@.len())),
            final(self).has_token == (old(self).has_token || m.token is Some),
            final(self).rope_q@.len() == old(self).rope_q@.len() + (if m.pos is Some && in_q {
                1int
            } else {
                0
            }),
            final(self).rope_k@.len() == old(self).rope_k@.len() + (if m.pos is Some && in_k {
                1int
            } else {
                0
            }),
            final(self).phys@.len() == old(self).phys@.len() + (if m.kv is Some {
                1int
            } else {
                0
            }),
    {
        let ghost a = self.as_decl();
        let ghost t = self.nodes@;
        let ghost n = marked(l@, m, self.phys@.len());
        self.acc.custom_with_shared(
            Some(l.kernel),
            l.args.len(),
            l.grid,
            l.block,
            l.shared,
            l.args.as_slice(),
        );
        let total: usize = self.acc.cells.len();
        let node: usize = self.acc.specs.len() - 1;
        if let Some(j) = m.token {
            self.token = self.acc.cell_of(j);
            self.has_token = true;
            if m.pos.is_some() {
                self.late.push((node, j));
            } else {
                self.refresh.push((node, j));
            }
        }
        if let Some(j) = m.pos {
            let cell: usize = self.acc.cell_of(j);
            if in_q {
                self.rope_q.push(cell);
            }
            if in_k {
                self.rope_k.push(cell);
            }
            self.refresh.push((node, j));
        }
        if let Some(s) = m.kv {
            self.phys.push(self.acc.cell_of(s.0));
            self.off.push(self.acc.cell_of(s.1));
            self.refresh.push((node, s.0));
            self.refresh.push((node, s.1));
        }
        self.nodes = Ghost(t.push(n));
        proof {
            let b = self.as_decl();
            lemma_holds_push(a, b, t, n, l.args@);
            lemma_lists_push(a, b, t, n, m.pos, in_q, in_k, m.kv);
            lemma_token_push(a, b, t, n, old(self).has_token, m.token);
            lemma_slots_marked(t, l@, m, old(self).phys@.len());
            assert(self.refresh@ =~= old(self).refresh@ + marks_here(m, t.len()));
            assert(self.late@ =~= old(self).late@ + marks_last(m, t.len()));
        }
    }

    /// Appends a node whose arguments are the same at every step.
    pub fn launch(&mut self, l: &Launch)
        requires
            old(self).wf(),
        ensures
            final(self).wf(),
            final(self).nodes@ == old(self).nodes@.push(fixed(l@)),
            final(self).has_token == old(self).has_token,
            final(self).rope_q@.len() == old(self).rope_q@.len(),
            final(self).rope_k@.len() == old(self).rope_k@.len(),
            final(self).phys@.len() == old(self).phys@.len(),
    {
        let none = Marks { token: None, pos: None, kv: None };
        self.launch_marked(l, none, false, false);
        proof {
            assert(marked(l@, none, old(self).phys@.len()) =~= fixed(l@));
        }
    }

    fn gemm_cublas(&mut self, p: &GemmPlan)
        requires
            old(self).wf(),
        ensures
            final(self).wf(),
            final(self).nodes@ == old(self).nodes@.push(fixed_gemm(*p)),
            final(self).has_token == old(self).has_token,
            final(self).rope_q@.len() == old(self).rope_q@.len(),
            final(self).rope_k@.len() == old(self).rope_k@.len(),
            final(self).phys@.len() == old(self).phys@.len(),
    {
        let ghost a = self.as_decl();
        let ghost t = self.nodes@;
        let ghost n = fixed_gemm(*p);
        self.acc.gemm(p);
        self.nodes = Ghost(t.push(n));
        proof {
            let b = self.as_decl();
            lemma_holds_push(a, b, t, n, gemm_words(*p));
            lemma_lists_push(a, b, t, n, None, false, false, None);
            lemma_token_push(a, b, t, n, self.has_token, None);
            lemma_slots_gemm_node(t, *p, false);
            lemma_slots_gemm_node(t, *p, true);
        }
    }

    /// Appends the nodes of a GEMM: its two phases where the two-phase kernels
    /// are loaded with their partial sums at `partials` and serve it, else one
    /// cuBLAS node.
    pub fn gemm(&mut self, on: Queue, jg: &Option<Jgemm>, partials: Option<u64>, p: &GemmPlan)
        requires
            old(self).wf(),
            partials is Some ==> *jg is Some && jg->0.dev == on.dev,
            -0x4000_0000 <= p.n < 0x4000_0000,
        ensures
            final(self).wf(),
            final(self).nodes@ == gemm_decl(old(self).nodes@, on, partials, *p),
            final(self).has_token == old(self).has_token,
            final(self).rope_q@.len() == old(self).rope_q@.len(),
            final(self).rope_k@.len() == old(self).rope_k@.len(),
            final(self).phys@.len() == old(self).phys@.len(),
    {
        if let Some(ptr) = partials {
            if let Some(j) = jg {
                if j.matches(p) {
                    let (l1, l2) = j.launch(&on.stream, p, ptr);
                    self.launch(&l1);
                    self.launch(&l2);
                    return;
                }
            }
        }
        self.gemm_cublas(p);
    }

    /// The declaration of the nodes appended.
    pub fn finish(self) -> (d: GraphStepDecl)
        requires
            self.wf(),
            self.has_token,
            self.rope_q@.len() == self.rope_k@.len(),
        ensures
            d.declares(self.nodes@),
            d.specs == self.acc.specs,
            d.cell_kv_phys == self.phys,
    {
        let ghost t = self.nodes@;
        let mut updates: Vec<PtrUpdate> = Vec::new();
        let mut node: usize = 0;
        while node < self.acc.specs.len()
            invariant
                node <= self.acc.specs@.len(),
                self.wf(),
                t == self.nodes@,
                updates@.len() == offset(t, node as int),
                forall|i: int, j: int|
                    0 <= i < node && 0 <= j < t[i].cells.len() ==> updates@[#[trigger] (offset(t, i)
                        + j)] == (PtrUpdate {
                        node: i as usize,
                        slot: j as usize,
                        cell: (offset(t, i) + j) as usize,
                    }),
            decreases self.acc.specs@.len() - node,
        {
            proof {
                lemma_offset(t, node as int);
            }
            let base: usize = self.acc.cell_off[node];
            let stop: usize = if node + 1 < self.acc.cell_off.len() {
                self.acc.cell_off[node + 1]
            } else {
                self.acc.cells.len()
            };
            proof {
                lemma_offset_next(t, node as int);
                if node + 1 == t.len() {
                    assert(t.take(node + 1) =~= t);
                }
            }
            let mut slot: usize = 0;
            while slot < stop - base
                invariant
                    self.wf(),
                    t == self.nodes@,
                    node < self.acc.specs@.len(),
                    base == offset(t, node as int),
                    stop == base + t[node as int].cells.len(),
                    stop <= flat(t).len(),
                    slot <= stop - base,
                    updates@.len() == base + slot,
                    forall|i: int, j: int|
                        0 <= i < node && 0 <= j < t[i].cells.len() ==> updates@[#[trigger] (offset(
                            t,
                            i,
                        ) + j)] == (PtrUpdate {
                            node: i as usize,
                            slot: j as usize,
                            cell: (offset(t, i) + j) as usize,
                        }),
                    forall|j: int|
                        0 <= j < slot ==> #[trigger] updates@[base + j] == (PtrUpdate {
                            node,
                            slot: j as usize,
                            cell: (base + j) as usize,
                        }),
                decreases stop - base - slot,
            {
                let ghost before = updates@;
                updates.push(PtrUpdate { node, slot, cell: base + slot });
                proof {
                    assert forall|i: int, j: int|
                        0 <= i < node && 0 <= j < t[i].cells.len() implies updates@[#[trigger] (
                    offset(t, i) + j)] == (PtrUpdate {
                        node: i as usize,
                        slot: j as usize,
                        cell: (offset(t, i) + j) as usize,
                    }) by {
                        lemma_offset_mono(t, i, node as int);
                        assert(updates@[offset(t, i) + j] == before[offset(t, i) + j]);
                    }
                }
                slot = slot + 1;
            }
            node = node + 1;
        }
        proof {
            assert(t.take(t.len() as int) =~= t);
            let b = self.as_decl();
            assert forall|i: int| 0 <= i < self.rope_q@.len() implies #[trigger] self.rope_q@[i]
                < self.acc.cells@.len() by {
                assert(b.cell_rope_q_pos@[i] < b.cells@.len());
            }
            assert forall|i: int| 0 <= i < self.rope_k@.len() implies #[trigger] self.rope_k@[i]
                < self.acc.cells@.len() by {
                assert(b.cell_rope_k_pos@[i] < b.cells@.len());
            }
            assert forall|i: int| 0 <= i < self.off@.len() implies #[trigger] self.off@[i]
                < self.acc.cells@.len() by {
                assert(b.cell_kv_off@[i] < b.cells@.len());
            }
        }
        let mut refresh = self.refresh;
        let mut late = self.late;
        refresh.append(&mut late);
        GraphStepDecl {
            specs: self.acc.specs,
            cell_off: self.acc.cell_off,
            cells: self.acc.cells,
            updates,
            cell_token: self.token,
            cell_rope_q_pos: self.rope_q,
            cell_rope_k_pos: self.rope_k,
            cell_kv_phys: self.phys,
            cell_kv_off: self.off,
            refresh,
        }
    }
}

proof fn lemma_offset_next(t: Seq<NodeT>, i: int)
    requires
        0 <= i < t.len(),
    ensures
        offset(t, i + 1) == offset(t, i) + t[i].cells.len(),
{
    let u = t.take(i + 1);
    assert(u.drop_last() =~= t.take(i));
}

proof fn lemma_offset_mono(t: Seq<NodeT>, i: int, n: int)
    requires
        0 <= i < n <= t.len(),
    ensures
        offset(t, i) + t[i].cells.len() <= offset(t, n),
    decreases n - i,
{
    lemma_offset_next(t, i);
    if i + 1 < n {
        lemma_offset_mono(t, i + 1, n);
    }
}

} // verus!
