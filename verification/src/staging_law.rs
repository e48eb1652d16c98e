//! That what is staged for a batch is what the device reads for its requests.

use vstd::prelude::*;

use crate::batch::{
    key_of, pages_bytes, pool_bytes, stages, staging_has_its_size, table_bytes,
    table_holds_its_pages, words_bytes, BatchReq, BatchStaging,
};
use crate::batch_law::{ask_for, entry_at, holds};
use crate::batch_step::BatchCtx;
use crate::bytes::{le32, le_bytes, lemma_le32, lemma_le_bytes_len};

verus! {

/// The eight-byte number at a place.
pub open spec fn le64(s: Seq<u8>, at: int) -> int {
    le32(s, at) + 0x1_0000_0000 * le32(s, at + 4)
}

/// Whether four-byte numbers are at an address.
pub open spec fn holds_words(words: Map<int, int>, at: int, s: Seq<u8>) -> bool {
    forall|k: int| 0 <= k && k * 4 + 4 <= s.len() ==> words[at + k * 4] == #[trigger] le32(s, k * 4)
}

/// Whether eight-byte numbers are at an address.
pub open spec fn holds_longs(words: Map<int, int>, at: int, s: Seq<u8>) -> bool {
    forall|k: int| 0 <= k && k * 8 + 8 <= s.len() ==> words[at + k * 8] == #[trigger] le64(s, k * 8)
}

proof fn lemma_le64(x: u64)
    ensures
        le_bytes(x as nat, 8).len() == 8,
        le64(le_bytes(x as nat, 8), 0) == x,
{
    let (n, hi) = (x as nat, x as nat / 0x1_0000_0000);
    let (a, b) = (le_bytes(n, 8), le_bytes(hi, 4));
    let lo = (n % 0x1_0000_0000) as u32;
    let c = le_bytes(lo as nat, 4);
    assert(a =~= c + b) by {
        reveal_with_fuel(le_bytes, 9);
    }
    lemma_le32(lo);
    lemma_le32(hi as u32);
    assert(le32(a, 0) == le32(c, 0));
    assert(le32(a, 4) == le32(b, 0));
}

/// A number among numbers of four bytes each.
proof fn lemma_word(w: Seq<u32>, i: int)
    requires
        0 <= i < w.len(),
    ensures
        words_bytes(w).len() == w.len() * 4,
        le32(words_bytes(w), i * 4) == w[i],
    decreases w.len(),
{
    let (s, e) = (words_bytes(w.drop_last()), le_bytes(w.last() as nat, 4));
    lemma_le32(w.last());
    staging_has_its_size(w.drop_last(), Seq::empty(), 0, 0);
    assert(words_bytes(w) == s + e);
    if i < w.len() - 1 {
        lemma_word(w.drop_last(), i);
        assert(le32(s + e, i * 4) == le32(s, i * 4));
    } else {
        assert(le32(s + e, i * 4) == le32(e, 0));
    }
}

/// A page among the page tables of segments.
proof fn lemma_page(key: Seq<(u64, u32)>, n: nat, pages: nat, pool: u64, i: int, p: int)
    requires
        n <= key.len(),
        0 <= i < n,
        0 <= p < pages,
        forall|i: int| 0 <= i < key.len() ==> (#[trigger] key[i]).1 + pages <= u32::MAX,
    ensures
        pages_bytes(key, n, pages).len() == n * pages * 4,
        0 <= i * pages + p,
        (i * pages + p) * 4 + 4 <= n * pages * 4,
        le32(pages_bytes(key, n, pages), (i * pages + p) * 4) == key[i].1 + p,
    decreases n,
{
    let j = (n - 1) as nat;
    let (s, e) = (pages_bytes(key, j, pages), table_bytes(key[j as int].1 as int, pages));
    lemma_pages_len(key, j, pages);
    table_holds_its_pages(key[j as int].1 as int, pages, p);
    assert(pages_bytes(key, n, pages) == s + e);
    assert(j * pages + pages == n * pages) by (nonlinear_arith)
        requires
            n == j + 1,
    ;
    if i < j {
        lemma_page(key, j, pages, pool, i, p);
        let at = (i * pages + p) * 4;
        assert(le32(s + e, at) == le32(s, at));
    } else {
        let at = (i * pages + p) * 4;
        assert(at == s.len() + p * 4);
        assert(le32(s + e, at) == le32(e, p * 4));
    }
}

proof fn lemma_pages_len(key: Seq<(u64, u32)>, n: nat, pages: nat)
    requires
        n <= key.len(),
        forall|i: int| 0 <= i < key.len() ==> (#[trigger] key[i]).1 + pages <= u32::MAX,
    ensures
        pages_bytes(key, n, pages).len() == n * pages * 4,
    decreases n,
{
    if n > 0 {
        let j = (n - 1) as nat;
        lemma_pages_len(key, j, pages);
        if pages > 0 {
            table_holds_its_pages(key[j as int].1 as int, pages, 0);
        }
        assert(j * pages + pages == n * pages) by (nonlinear_arith)
            requires
                n == j + 1,
        ;
    } else {
        assert(0 * pages == 0);
    }
}

/// A pool among pools.
proof fn lemma_pool(key: Seq<(u64, u32)>, n: nat, pool: u64, i: int)
    requires
        n <= key.len(),
        0 <= i < n,
    ensures
        pool_bytes(key, n, pool).len() == n * 8,
        le64(pool_bytes(key, n, pool), i * 8) == if key[i].0 == 0 {
            pool
        } else {
            key[i].0
        },
    decreases n,
{
    let j = (n - 1) as nat;
    let kv = if key[j as int].0 == 0 {
        pool
    } else {
        key[j as int].0
    };
    let (s, e) = (pool_bytes(key, j, pool), le_bytes(kv as nat, 8));
    lemma_le64(kv);
    lemma_pool_len(key, j, pool);
    assert(pool_bytes(key, n, pool) == s + e);
    if i < j {
        lemma_pool(key, j, pool, i);
        assert(le64(s + e, i * 8) == le64(s, i * 8));
    } else {
        assert(le64(s + e, i * 8) == le64(e, 0));
    }
}

proof fn lemma_pool_len(key: Seq<(u64, u32)>, n: nat, pool: u64)
    ensures
        pool_bytes(key, n, pool).len() == n * 8,
    decreases n,
{
    if n > 0 {
        let j = (n - 1) as nat;
        lemma_pool_len(key, j, pool);
        let kv = if key[j as int].0 == 0 {
            pool
        } else {
            key[j as int].0
        };
        lemma_le_bytes_len(kv as nat, 8);
    }
}

/// What is staged is what the device reads: with the staged bytes in the buffers of their
/// names, the tables hold every request at its place.
pub proof fn staging_holds_every_request(
    s: BatchStaging,
    words: Map<int, int>,
    x: BatchCtx,
    reqs: Seq<BatchReq>,
    i: int,
)
    requires
        stages(s, reqs, true, (x.c.cfg.n_layer * x.c.pp) as nat, x.pool.kv),
        0 <= i < reqs.len(),
        forall|j: int|
            0 <= j < reqs.len() ==> (#[trigger] reqs[j]).kv.base_pages + x.c.cfg.n_layer * x.c.pp
                <= u32::MAX && reqs[j].kv.len <= u32::MAX && reqs[j].pos <= u32::MAX,
        reqs[i].kv.kv == 0 ==> x.pool.kv == x.c.kv,
        holds_words(words, x.sc.toks.ptr as int, s.toks@),
        holds_words(words, x.sc.lens.ptr as int, s.lens@),
        holds_words(words, x.sc.pos.ptr as int, s.pos@),
        holds_words(words, x.sc.pages.ptr as int, s.tables->0.pages@),
        holds_longs(words, x.sc.kv_ptrs.ptr as int, s.tables->0.kv_ptrs@),
    ensures
        holds(words, x, reqs[i], i),
{
    let (r, ask) = (reqs[i], ask_for(x, reqs[i]));
    let pages = (x.c.cfg.n_layer * x.c.pp) as nat;
    let (t, l, q) = (
        reqs.map_values(|r: BatchReq| r.token),
        reqs.map_values(|r: BatchReq| r.kv.len as u32),
        reqs.map_values(|r: BatchReq| r.pos as u32),
    );
    lemma_word(t, i);
    lemma_word(l, i);
    lemma_word(q, i);
    let key = key_of(reqs);
    assert forall|j: int| 0 <= j < key.len() implies (#[trigger] key[j]).1 + pages <= u32::MAX by {
        assert(key[j].1 == reqs[j].kv.base_pages);
    }
    lemma_pool(key, reqs.len(), x.pool.kv, i);
    assert(words[x.sc.kv_ptrs.ptr + i * 8] == le64(s.tables->0.kv_ptrs@, i * 8));
    assert forall|p: int| 0 <= p < pages implies #[trigger] words[entry_at(x, i, p)] == ask.base
        + p by {
        lemma_page(key, reqs.len(), pages, x.pool.kv, i, p);
        let k = i * pages + p;
        assert(words[x.sc.pages.ptr + k * 4] == le32(s.tables->0.pages@, k * 4));
    }
}

} // verus!
