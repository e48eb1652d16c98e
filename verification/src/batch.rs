//! Requests of a batch step: which path serves them, what is refused, and what is
//! staged for the device.

use vstd::prelude::*;

use crate::bytes::{le32, le_bytes, lemma_le32, lemma_le_bytes_len, push_le};
use crate::engine_error::{EngineError, ErrorV};
use crate::model::BLOCK_LEN;
use crate::prefill::StepArgs;
use crate::text::{decimal, push_decimal, push_text};

verus! {

/// Where a request keeps its keys and values.
#[derive(Debug, Clone, Copy, PartialEq, Eq, Structural)]
pub struct SegRef {
    /// Address of the key region of the pool; null is the engine's own pool.
    pub kv: u64,
    /// The first page of the segment in the pool.
    pub base_pages: u32,
    /// Length in tokens: what attention sees.
    pub len: usize,
}

impl SegRef {
    /// A segment in the engine's own pool.
    pub fn engine(len: usize) -> (s: Self)
        ensures
            s == (SegRef { kv: 0, base_pages: 0, len }),
    {
        SegRef { kv: 0, base_pages: 0, len }
    }
}

/// One request of a batch: a token at a position of its segment.
#[derive(Debug, Clone, Copy, PartialEq, Eq, Structural)]
pub struct BatchReq {
    pub token: u32,
    pub pos: usize,
    pub kv: SegRef,
}

/// How a batch is served.
#[derive(Debug, Clone, Copy, PartialEq, Eq, Structural)]
pub enum BatchPath {
    /// One request: the single step, in the engine's own pool.
    Single,
    /// The `f32` tier: a single step per request, in the engine's own pool.
    PerRequest,
    /// One merged step.
    Merged,
}

/// How a batch of `count` requests is served; an empty one is not.
pub open spec fn path_of(count: nat, parity_f32: bool) -> Option<BatchPath> {
    if count == 0 {
        None
    } else if count == 1 {
        Some(BatchPath::Single)
    } else if parity_f32 {
        Some(BatchPath::PerRequest)
    } else {
        Some(BatchPath::Merged)
    }
}

/// How a batch of `count` requests is served; an empty one is refused.
pub fn batch_path(count: usize, parity_f32: bool) -> (r: Result<BatchPath, EngineError>)
    ensures
        r is Err <==> path_of(count as nat, parity_f32) is None,
        r is Err ==> r->Err_0@ == ErrorV::Sts("empty batch"@),
        r is Ok ==> path_of(count as nat, parity_f32) == Some(r->Ok_0),
{
    if count == 0 {
        Err(EngineError::Sts("empty batch".to_owned()))
    } else if count == 1 {
        Ok(BatchPath::Single)
    } else if parity_f32 {
        Ok(BatchPath::PerRequest)
    } else {
        Ok(BatchPath::Merged)
    }
}

/// The single steps of requests that are not merged, in the engine's own pool: a
/// request's segment says only how long its sequence is.
pub open spec fn single_steps(reqs: Seq<BatchReq>) -> Seq<StepArgs> {
    reqs.map_values(
        |r: BatchReq| StepArgs { token: r.token, pos: r.pos, kv_len: r.kv.len },
    )
}

/// The single steps of requests that are not merged.
pub fn batch_steps(reqs: &Vec<BatchReq>) -> (v: Vec<StepArgs>)
    ensures
        v@ == single_steps(reqs@),
{
    let mut v: Vec<StepArgs> = Vec::new();
    let mut i: usize = 0;
    while i < reqs.len()
        invariant
            i <= reqs.len(),
            v@ == single_steps(reqs@.subrange(0, i as int)),
        decreases reqs.len() - i,
    {
        let r = &reqs[i];
        v.push(StepArgs { token: r.token, pos: r.pos, kv_len: r.kv.len });
        i = i + 1;
        proof {
            assert(v@ =~= single_steps(reqs@.subrange(0, i as int)));
        }
    }
    proof {
        assert(reqs@.subrange(0, i as int) =~= reqs@);
    }
    v
}

/// Whether all requests name one pool.
pub open spec fn shares_pool(reqs: Seq<BatchReq>) -> bool {
    forall|i: int| 0 <= i < reqs.len() ==> (#[trigger] reqs[i]).kv.kv == reqs[0].kv.kv
}

/// `batch req` and the request's place.
pub open spec fn req_text(i: int) -> Seq<char> {
    "batch req "@ + decimal(i as nat)
}

/// What is wrong with a request: its token has no embedding row; its pool does
/// not go with the others'; its length or its position is not one of a segment.
pub open spec fn req_error(reqs: Seq<BatchReq>, i: int, vocab: usize, pp: usize) -> Option<ErrorV> {
    let r = reqs[i];
    if r.token >= vocab {
        Some(ErrorV::EmbeddingOov(r.token))
    } else if shares_pool(reqs) && r.kv.kv == 0 && r.kv.base_pages != 0 {
        Some(ErrorV::Sts(req_text(i) + ": the engine pool requires base_pages = 0"@))
    } else if !shares_pool(reqs) && (r.kv.kv == 0 || r.kv.base_pages != 0) {
        Some(
            ErrorV::Sts(
                req_text(i)
                    + ": per-request pools require a non-null kv pointer and base_pages = 0"@,
            ),
        )
    } else if r.kv.len == 0 || r.kv.len > pp * BLOCK_LEN {
        Some(
            ErrorV::Sts(
                req_text(i) + ": kv len "@ + decimal(r.kv.len as nat) + " out of range (1.."@
                    + decimal((pp * BLOCK_LEN) as nat) + ")"@,
            ),
        )
    } else if r.pos / BLOCK_LEN >= pp {
        Some(
            ErrorV::Sts(
                req_text(i) + ": pos "@ + decimal(r.pos as nat) + " beyond the segment's "@
                    + decimal(pp as nat) + " pages"@,
            ),
        )
    } else {
        None
    }
}

/// Whether nothing is wrong with the first `n` requests.
pub open spec fn clean(reqs: Seq<BatchReq>, n: int, vocab: usize, pp: usize) -> bool {
    forall|i: int| 0 <= i < n ==> #[trigger] req_error(reqs, i, vocab, pp) is None
}

/// The largest extent of the first `n` segments, in pages from the base of their
/// pool.
pub open spec fn pool_extent(reqs: Seq<BatchReq>, n: nat, pages: int) -> int
    decreases n,
{
    if n == 0 {
        0
    } else {
        let before = pool_extent(reqs, (n - 1) as nat, pages);
        let here = reqs[n - 1].kv.base_pages + pages;
        if here > before {
            here
        } else {
            before
        }
    }
}

/// The pool of a batch.
#[derive(Debug, Clone, Copy, PartialEq, Eq, Structural)]
pub struct BatchPool {
    /// All requests share one pool.
    pub shared: bool,
    /// Address of the first request's pool.
    pub kv: u64,
    /// Pages of the key region of a pool.
    pub pages: u32,
}

impl BatchPool {
    /// The pool of a request.
    pub open spec fn base(self, r: BatchReq) -> u64 {
        if r.kv.kv == 0 {
            self.kv
        } else {
            r.kv.kv
        }
    }
}

/// The pool of a batch without faults, where `engine_kv` is the engine's own.
pub open spec fn pool_of(reqs: Seq<BatchReq>, pages: int, engine_kv: u64) -> BatchPool {
    BatchPool {
        shared: shares_pool(reqs),
        kv: if reqs[0].kv.kv == 0 {
            engine_kv
        } else {
            reqs[0].kv.kv
        },
        pages: pool_extent(reqs, reqs.len(), pages) as u32,
    }
}

fn all_share(reqs: &Vec<BatchReq>) -> (b: bool)
    requires
        reqs@.len() > 0,
    ensures
        b == shares_pool(reqs@),
{
    let first: u64 = reqs[0].kv.kv;
    let mut i: usize = 0;
    while i < reqs.len()
        invariant
            i <= reqs.len(),
            reqs@.len() > 0,
            first == reqs@[0].kv.kv,
            forall|j: int| 0 <= j < i ==> (#[trigger] reqs@[j]).kv.kv == first,
        decreases reqs.len() - i,
    {
        if reqs[i].kv.kv != first {
            return false;
        }
        i = i + 1;
    }
    true
}

fn named(i: usize, what: &str) -> (s: String)
    ensures
        s@ == req_text(i as int) + what@,
{
    let mut s = "batch req ".to_owned();
    push_decimal(&mut s, i as u64);
    push_text(&mut s, what);
    s
}

fn check_req(reqs: &Vec<BatchReq>, i: usize, shared: bool, vocab: usize, pp: usize) -> (r: Result<
    (),
    EngineError,
>)
    requires
        i < reqs@.len(),
        shared == shares_pool(reqs@),
        pp * BLOCK_LEN <= usize::MAX,
    ensures
        r is Ok <==> req_error(reqs@, i as int, vocab, pp) is None,
        r is Err ==> req_error(reqs@, i as int, vocab, pp) == Some(r->Err_0@),
{
    let r = &reqs[i];
    if r.token as u64 >= vocab as u64 {
        return Err(EngineError::EmbeddingOov(r.token));
    }
    if shared {
        if r.kv.kv == 0 && r.kv.base_pages != 0 {
            return Err(EngineError::Sts(named(i, ": the engine pool requires base_pages = 0")));
        }
    } else if r.kv.kv == 0 || r.kv.base_pages != 0 {
        return Err(
            EngineError::Sts(
                named(
                    i,
                    ": per-request pools require a non-null kv pointer and base_pages = 0",
                ),
            ),
        );
    }
    if r.kv.len == 0 || r.kv.len > pp * BLOCK_LEN {
        let mut s = named(i, ": kv len ");
        push_decimal(&mut s, r.kv.len as u64);
        push_text(&mut s, " out of range (1..");
        push_decimal(&mut s, (pp * BLOCK_LEN) as u64);
        push_text(&mut s, ")");
        return Err(EngineError::Sts(s));
    }
    if r.pos / BLOCK_LEN >= pp {
        let mut s = named(i, ": pos ");
        push_decimal(&mut s, r.pos as u64);
        push_text(&mut s, " beyond the segment's ");
        push_decimal(&mut s, pp as u64);
        push_text(&mut s, " pages");
        return Err(EngineError::Sts(s));
    }
    Ok(())
}

/// Checks the requests of a merged step in order.  The first fault is returned;
/// where there is none, the pool of the batch.
pub fn check_batch(
    reqs: &Vec<BatchReq>,
    vocab: usize,
    n_layers: usize,
    pp: usize,
    engine_kv: u64,
) -> (r: Result<BatchPool, EngineError>)
    requires
        reqs@.len() > 0,
        pp * BLOCK_LEN <= usize::MAX,
        n_layers * pp <= u32::MAX,
        forall|i: int|
            0 <= i < reqs@.len() && clean(reqs@, i + 1, vocab, pp) ==> (
            #[trigger] reqs@[i]).kv.base_pages + n_layers * pp <= u32::MAX,
    ensures
        r is Ok <==> clean(reqs@, reqs@.len() as int, vocab, pp),
        r is Ok ==> r->Ok_0 == pool_of(reqs@, n_layers * pp, engine_kv),
        r is Err ==> exists|i: int|
            0 <= i < reqs@.len() && clean(reqs@, i, vocab, pp) && #[trigger] req_error(
                reqs@,
                i,
                vocab,
                pp,
            ) == Some(r->Err_0@),
{
    let shared = all_share(reqs);
    let mut pages: u32 = 0;
    let mut i: usize = 0;
    while i < reqs.len()
        invariant
            i <= reqs.len(),
            shared == shares_pool(reqs@),
            pp * BLOCK_LEN <= usize::MAX,
            n_layers * pp <= u32::MAX,
            forall|i: int|
                0 <= i < reqs@.len() && clean(reqs@, i + 1, vocab, pp) ==> (
                #[trigger] reqs@[i]).kv.base_pages + n_layers * pp <= u32::MAX,
            clean(reqs@, i as int, vocab, pp),
            pages == pool_extent(reqs@, i as nat, n_layers * pp),
        decreases reqs.len() - i,
    {
        match check_req(reqs, i, shared, vocab, pp) {
            Ok(_) => {},
            Err(e) => {
                return Err(e);
            },
        }
        proof {
            assert(clean(reqs@, i + 1, vocab, pp));
        }
        let here: u32 = reqs[i].kv.base_pages + (n_layers * pp) as u32;
        if here > pages {
            pages = here;
        }
        i = i + 1;
    }
    let first: u64 = reqs[0].kv.kv;
    let kv: u64 = if first == 0 {
        engine_kv
    } else {
        first
    };
    Ok(BatchPool { shared, kv, pages })
}

/// What the page tables of a batch depend on: the segments, by pool and page.
pub open spec fn key_of(reqs: Seq<BatchReq>) -> Seq<(u64, u32)> {
    reqs.map_values(|r: BatchReq| (r.kv.kv, r.kv.base_pages))
}

/// The bytes of the pages `base` to `base + count`.
pub open spec fn table_bytes(base: int, count: nat) -> Seq<u8>
    decreases count,
{
    if count == 0 {
        Seq::empty()
    } else {
        table_bytes(base, (count - 1) as nat) + le_bytes((base + count - 1) as nat, 4)
    }
}

/// The page tables of the first `n` segments: each segment has its pages in order.
pub open spec fn pages_bytes(key: Seq<(u64, u32)>, n: nat, pages: nat) -> Seq<u8>
    decreases n,
{
    if n == 0 {
        Seq::empty()
    } else {
        pages_bytes(key, (n - 1) as nat, pages) + table_bytes(key[n - 1].1 as int, pages)
    }
}

/// The pool addresses of the first `n` segments; null stands for `pool`.
pub open spec fn pool_bytes(key: Seq<(u64, u32)>, n: nat, pool: u64) -> Seq<u8>
    decreases n,
{
    if n == 0 {
        Seq::empty()
    } else {
        let kv = if key[n - 1].0 == 0 {
            pool
        } else {
            key[n - 1].0
        };
        pool_bytes(key, (n - 1) as nat, pool) + le_bytes(kv as nat, 8)
    }
}

/// Numbers as four bytes each.
pub open spec fn words_bytes(words: Seq<u32>) -> Seq<u8>
    decreases words.len(),
{
    if words.len() == 0 {
        Seq::empty()
    } else {
        words_bytes(words.drop_last()) + le_bytes(words.last() as nat, 4)
    }
}

/// What a step uploads: tokens, lengths and positions, and where the segments are
/// not those of the last upload the page tables and the pool addresses.
#[derive(Debug)]
pub struct BatchStaging {
    pub toks: Vec<u8>,
    pub lens: Vec<u8>,
    pub pos: Vec<u8>,
    pub tables: Option<BatchTables>,
}

/// Page tables and pool addresses.
#[derive(Debug)]
pub struct BatchTables {
    pub pages: Vec<u8>,
    pub kv_ptrs: Vec<u8>,
}

/// Whether this is what a step uploads for requests: their tokens, lengths and positions,
/// and where the segments are `fresh`, which they are not if they were uploaded last, the
/// page tables and the pool addresses.
pub open spec fn stages(
    s: BatchStaging,
    reqs: Seq<BatchReq>,
    fresh: bool,
    pages: nat,
    pool: u64,
) -> bool {
    &&& s.toks@ == words_bytes(reqs.map_values(|r: BatchReq| r.token))
    &&& s.lens@ == words_bytes(reqs.map_values(|r: BatchReq| r.kv.len as u32))
    &&& s.pos@ == words_bytes(reqs.map_values(|r: BatchReq| r.pos as u32))
    &&& s.tables is Some <==> fresh
    &&& s.tables is Some ==> s.tables->0.pages@ == pages_bytes(key_of(reqs), reqs.len(), pages)
    &&& s.tables is Some ==> s.tables->0.kv_ptrs@ == pool_bytes(key_of(reqs), reqs.len(), pool)
}

fn push_word(out: &mut Vec<u8>, w: u32, Ghost(words): Ghost<Seq<u32>>)
    requires
        old(out)@ == words_bytes(words),
    ensures
        final(out)@ == words_bytes(words.push(w)),
{
    push_le(out, w as u64, 4);
    proof {
        assert(words.push(w).drop_last() =~= words);
    }
}

/// Appends the bytes of the pages `base` to `base + count`.
pub fn push_table(out: &mut Vec<u8>, base: u32, count: u32)
    requires
        base + count <= u32::MAX,
    ensures
        final(out)@ == old(out)@ + table_bytes(base as int, count as nat),
{
    let mut j: u32 = 0;
    while j < count
        invariant
            j <= count,
            base + count <= u32::MAX,
            out@ == old(out)@ + table_bytes(base as int, j as nat),
        decreases count - j,
    {
        push_le(out, (base + j) as u64, 4);
        j = j + 1;
        proof {
            assert(out@ =~= old(out)@ + table_bytes(base as int, j as nat));
        }
    }
}

fn same_key(a: &Vec<(u64, u32)>, b: &Vec<(u64, u32)>) -> (r: bool)
    ensures
        r == (a@ == b@),
{
    if a.len() != b.len() {
        return false;
    }
    let mut i: usize = 0;
    while i < a.len()
        invariant
            i <= a.len(),
            a@.len() == b@.len(),
            forall|j: int| 0 <= j < i ==> #[trigger] a@[j] == b@[j],
        decreases a.len() - i,
    {
        if a[i].0 != b[i].0 || a[i].1 != b[i].1 {
            return false;
        }
        i = i + 1;
    }
    proof {
        assert(a@ =~= b@);
    }
    true
}

/// The segments of a batch.
pub fn seg_key(reqs: &Vec<BatchReq>) -> (k: Vec<(u64, u32)>)
    ensures
        k@ == key_of(reqs@),
{
    let mut out: Vec<(u64, u32)> = Vec::new();
    let mut i: usize = 0;
    while i < reqs.len()
        invariant
            i <= reqs.len(),
            out@ == key_of(reqs@.subrange(0, i as int)),
        decreases reqs.len() - i,
    {
        out.push((reqs[i].kv.kv, reqs[i].kv.base_pages));
        i = i + 1;
        proof {
            assert(out@ =~= key_of(reqs@.subrange(0, i as int)));
        }
    }
    proof {
        assert(reqs@.subrange(0, reqs@.len() as int) =~= reqs@);
    }
    out
}

fn tables_of(key: &Vec<(u64, u32)>, pages: u32, pool: u64) -> (t: BatchTables)
    requires
        forall|i: int| 0 <= i < key@.len() ==> (#[trigger] key@[i]).1 + pages <= u32::MAX,
    ensures
        t.pages@ == pages_bytes(key@, key@.len(), pages as nat),
        t.kv_ptrs@ == pool_bytes(key@, key@.len(), pool),
{
    let mut out: Vec<u8> = Vec::new();
    let mut ptrs: Vec<u8> = Vec::new();
    let mut i: usize = 0;
    while i < key.len()
        invariant
            i <= key.len(),
            forall|i: int| 0 <= i < key@.len() ==> (#[trigger] key@[i]).1 + pages <= u32::MAX,
            out@ == pages_bytes(key@, i as nat, pages as nat),
            ptrs@ == pool_bytes(key@, i as nat, pool),
        decreases key.len() - i,
    {
        let (kv, base) = key[i];
        push_table(&mut out, base, pages);
        let at: u64 = if kv == 0 {
            pool
        } else {
            kv
        };
        push_le(&mut ptrs, at, 8);
        i = i + 1;
    }
    BatchTables { pages: out, kv_ptrs: ptrs }
}

/// What a merged step uploads, where `last` names the segments of the last upload.
/// The tables are staged if and only if the segments are others.
pub fn stage_batch(
    reqs: &Vec<BatchReq>,
    last: &Option<Vec<(u64, u32)>>,
    pages: u32,
    pool: u64,
) -> (s: BatchStaging)
    requires
        forall|i: int|
            0 <= i < reqs@.len() ==> (#[trigger] reqs@[i]).kv.base_pages + pages <= u32::MAX
                && reqs@[i].kv.len <= u32::MAX && reqs@[i].pos <= u32::MAX,
    ensures
        stages(
            s,
            reqs@,
            !(*last is Some && last->0@ == key_of(reqs@)),
            pages as nat,
            pool,
        ),
{
    let mut toks: Vec<u8> = Vec::new();
    let mut lens: Vec<u8> = Vec::new();
    let mut pos: Vec<u8> = Vec::new();
    let mut i: usize = 0;
    let ghost mut t = Seq::<u32>::empty();
    let ghost mut l = Seq::<u32>::empty();
    let ghost mut p = Seq::<u32>::empty();
    while i < reqs.len()
        invariant
            i <= reqs.len(),
            forall|i: int|
                0 <= i < reqs@.len() ==> (#[trigger] reqs@[i]).kv.base_pages + pages <= u32::MAX
                    && reqs@[i].kv.len <= u32::MAX && reqs@[i].pos <= u32::MAX,
            t == reqs@.subrange(0, i as int).map_values(|r: BatchReq| r.token),
            l == reqs@.subrange(0, i as int).map_values(|r: BatchReq| r.kv.len as u32),
            p == reqs@.subrange(0, i as int).map_values(|r: BatchReq| r.pos as u32),
            toks@ == words_bytes(t),
            lens@ == words_bytes(l),
            pos@ == words_bytes(p),
        decreases reqs.len() - i,
    {
        let r = &reqs[i];
        push_word(&mut toks, r.token, Ghost(t));
        push_word(&mut lens, r.kv.len as u32, Ghost(l));
        push_word(&mut pos, r.pos as u32, Ghost(p));
        proof {
            t = t.push(r.token);
            l = l.push(r.kv.len as u32);
            p = p.push(r.pos as u32);
            let q = reqs@.subrange(0, i + 1);
            assert(t =~= q.map_values(|r: BatchReq| r.token));
            assert(l =~= q.map_values(|r: BatchReq| r.kv.len as u32));
            assert(p =~= q.map_values(|r: BatchReq| r.pos as u32));
        }
        i = i + 1;
    }
    proof {
        assert(reqs@.subrange(0, reqs@.len() as int) =~= reqs@);
    }
    let key = seg_key(reqs);
    let changed = match last {
        Some(k) => !same_key(k, &key),
        None => true,
    };
    let tables = if changed {
        Some(tables_of(&key, pages, pool))
    } else {
        None
    };
    BatchStaging { toks, lens, pos, tables }
}

/// Skipping an upload is sound: batches with the same segments have the same page
/// tables and pool addresses, whatever their tokens, lengths and positions.
pub proof fn equal_segments_have_equal_tables(
    a: Seq<BatchReq>,
    b: Seq<BatchReq>,
    pages: nat,
    pool: u64,
)
    requires
        key_of(a) == key_of(b),
    ensures
        pages_bytes(key_of(a), a.len(), pages) == pages_bytes(key_of(b), b.len(), pages),
        pool_bytes(key_of(a), a.len(), pool) == pool_bytes(key_of(b), b.len(), pool),
{
    assert(key_of(a).len() == a.len());
    assert(key_of(b).len() == b.len());
}

/// In a batch without faults the pools do not mix: either one pool serves all, or
/// every request has a pool of its own and starts at its first page.
pub proof fn pools_do_not_mix(reqs: Seq<BatchReq>, vocab: usize, pp: usize, i: int)
    requires
        clean(reqs, reqs.len() as int, vocab, pp),
        0 <= i < reqs.len(),
    ensures
        shares_pool(reqs) || (reqs[i].kv.kv != 0 && reqs[i].kv.base_pages == 0),
        shares_pool(reqs) && reqs[0].kv.kv == 0 ==> reqs[i].kv.base_pages == 0,
{
    assert(req_error(reqs, i, vocab, pp) is None);
}

/// Every segment of a batch without faults lies within the pages of its pool, and
/// so does the slot that the request writes on any layer.
pub proof fn segments_lie_in_their_pool(
    reqs: Seq<BatchReq>,
    vocab: usize,
    n_layers: nat,
    pp: usize,
    i: int,
    li: int,
)
    requires
        clean(reqs, reqs.len() as int, vocab, pp),
        0 <= i < reqs.len(),
        0 <= li < n_layers,
    ensures
        reqs[i].kv.base_pages + n_layers * pp <= pool_extent(reqs, reqs.len(), (n_layers * pp) as int),
        reqs[i].kv.base_pages + li * pp + reqs[i].pos / BLOCK_LEN < reqs[i].kv.base_pages + (li + 1)
            * pp,
        (li + 1) * pp <= n_layers * pp,
{
    assert(req_error(reqs, i, vocab, pp) is None);
    lemma_extent(reqs, reqs.len(), (n_layers * pp) as int, i);
    let (n, p) = (n_layers as int, pp as int);
    assert((li + 1) * p <= n * p && li * p + p == (li + 1) * p) by (nonlinear_arith)
        requires
            li + 1 <= n,
            p >= 0,
    ;
}

proof fn lemma_extent(reqs: Seq<BatchReq>, n: nat, pages: int, i: int)
    requires
        0 <= i < n,
    ensures
        reqs[i].kv.base_pages + pages <= pool_extent(reqs, n, pages),
    decreases n,
{
    if i < n - 1 {
        lemma_extent(reqs, (n - 1) as nat, pages, i);
    }
}

/// The bytes of a page table are the table: entry `j` is page `base + j`.
pub proof fn table_holds_its_pages(base: int, count: nat, j: int)
    requires
        0 <= base,
        base + count <= u32::MAX,
        0 <= j < count,
    ensures
        table_bytes(base, count).len() == count * 4,
        le32(table_bytes(base, count), j * 4) == base + j,
    decreases count,
{
    let s = table_bytes(base, (count - 1) as nat);
    let e = le_bytes((base + count - 1) as nat, 4);
    lemma_le32((base + count - 1) as u32);
    lemma_table_len(base, (count - 1) as nat);
    if j < count - 1 {
        table_holds_its_pages(base, (count - 1) as nat, j);
    }
}

proof fn lemma_table_len(base: int, count: nat)
    requires
        0 <= base,
        base + count <= u32::MAX,
    ensures
        table_bytes(base, count).len() == count * 4,
    decreases count,
{
    if count > 0 {
        lemma_table_len(base, (count - 1) as nat);
        lemma_le_bytes_len((base + count - 1) as nat, 4);
    }
}

/// What is staged for a batch has the size of what is staged: four bytes for every
/// token, length and position, four for every page of every segment, and eight for every
/// pool address.
pub proof fn staging_has_its_size(
    words: Seq<u32>,
    key: Seq<(u64, u32)>,
    pages: nat,
    pool: u64,
)
    requires
        forall|i: int| 0 <= i < key.len() ==> (#[trigger] key[i]).1 + pages <= u32::MAX,
    ensures
        words_bytes(words).len() == words.len() * 4,
        pages_bytes(key, key.len(), pages).len() == key.len() * pages * 4,
        pool_bytes(key, key.len(), pool).len() == key.len() * 8,
{
    lemma_words_len(words);
    lemma_tables_len(key, key.len(), pages, pool);
}

proof fn lemma_words_len(words: Seq<u32>)
    ensures
        words_bytes(words).len() == words.len() * 4,
    decreases words.len(),
{
    if words.len() > 0 {
        lemma_words_len(words.drop_last());
        lemma_le_bytes_len(words.last() as nat, 4);
    }
}

proof fn lemma_tables_len(key: Seq<(u64, u32)>, n: nat, pages: nat, pool: u64)
    requires
        n <= key.len(),
        forall|i: int| 0 <= i < key.len() ==> (#[trigger] key[i]).1 + pages <= u32::MAX,
    ensures
        pages_bytes(key, n, pages).len() == n * pages * 4,
        pool_bytes(key, n, pool).len() == n * 8,
    decreases n,
{
    if n > 0 {
        lemma_tables_len(key, (n - 1) as nat, pages, pool);
        lemma_table_len(key[n - 1].1 as int, pages);
        let kv = if key[n - 1].0 == 0 {
            pool
        } else {
            key[n - 1].0
        };
        lemma_le_bytes_len(kv as nat, 8);
        assert((n - 1) * pages + pages == n * pages) by (nonlinear_arith);
    } else {
        assert(0 * pages == 0);
    }
}

} // verus!
