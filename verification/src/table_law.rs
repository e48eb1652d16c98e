//! What the kernels read in an uploaded plan table.

use vstd::prelude::*;

use crate::bytes::{bytes_stand_for_their_number, le_bytes, lemma_le_bytes_len};
use crate::fmha_law::{lemma_widths, long_at, number_at, word_at};
use crate::fused::{row_bytes, row_has_fixed_size, table_bytes, PlanRow};
use crate::gemm::int_word;

verus! {

/// The signed four-byte number at a place.
pub open spec fn int_at(s: Seq<u8>, at: int) -> int {
    if word_at(s, at) < 0x8000_0000 {
        word_at(s, at)
    } else {
        word_at(s, at) - 0x1_0000_0000
    }
}

/// A number whose bytes stand at a place is read there.
proof fn lemma_number(s: Seq<u8>, at: int, x: nat, w: nat)
    requires
        0 <= at,
        at + w <= s.len(),
        s.subrange(at, at + w) == le_bytes(x, w),
        w == 4 && x < 0x1_0000_0000 || w == 8 && x < 0x1_0000_0000_0000_0000,
    ensures
        number_at(s, at, w) == x,
{
    reveal(number_at);
    lemma_widths();
    bytes_stand_for_their_number(x, w);
}

/// The word of an integer is that integer, or that much below the end of the words.
proof fn lemma_int_word(i: i32)
    ensures
        int_word(i) == if i < 0 {
            i + 0x1_0000_0000
        } else {
            i as int
        },
{
    assert(i < 0 ==> i as u32 == i + 0x1_0000_0000) by (bit_vector);
    assert(i >= 0 ==> i as u32 == i) by (bit_vector);
}

/// The bytes of a row of a table.
proof fn lemma_row(rows: Seq<PlanRow>, r: int)
    requires
        0 <= r < rows.len(),
    ensures
        table_bytes(rows).len() == rows.len() * 40,
        table_bytes(rows).subrange(r * 40, r * 40 + 40) == row_bytes(rows[r]),
    decreases rows.len(),
{
    let f = rows.drop_last();
    row_has_fixed_size(rows.last());
    lemma_table_len(f);
    if r < f.len() {
        lemma_row(f, r);
        assert(table_bytes(rows).subrange(r * 40, r * 40 + 40) =~= table_bytes(f).subrange(
            r * 40,
            r * 40 + 40,
        ));
    } else {
        assert(table_bytes(rows).subrange(r * 40, r * 40 + 40) =~= row_bytes(rows.last()));
    }
}

proof fn lemma_table_len(rows: Seq<PlanRow>)
    ensures
        table_bytes(rows).len() == rows.len() * 40,
    decreases rows.len(),
{
    if rows.len() > 0 {
        lemma_table_len(rows.drop_last());
        row_has_fixed_size(rows.last());
    }
}

/// Every field of every row of an uploaded plan table is read at its place: the operand,
/// the matrix and the partial sums by address, then the extents of the product, its slabs,
/// and the column that its blocks begin at.
pub proof fn table_rows_read_back(rows: Seq<PlanRow>, r: int)
    requires
        0 <= r < rows.len(),
    ensures
        ({
            let (s, row) = (table_bytes(rows), rows[r]);
            &&& s.len() == rows.len() * 40
            &&& long_at(s, r * 40) == row.a
            &&& long_at(s, r * 40 + 8) == row.b
            &&& long_at(s, r * 40 + 16) == row.partials
            &&& int_at(s, r * 40 + 24) == row.n
            &&& int_at(s, r * 40 + 28) == row.k
            &&& int_at(s, r * 40 + 32) == row.nslabs
            &&& int_at(s, r * 40 + 36) == row.col_off
        }),
{
    let (s, row, at) = (table_bytes(rows), rows[r], r * 40);
    lemma_row(rows, r);
    let t = row_bytes(row);
    let (a, b, p) = (row.a as nat, row.b as nat, row.partials as nat);
    let (n, k) = (int_word(row.n) as nat, int_word(row.k) as nat);
    let (l, o) = (int_word(row.nslabs) as nat, int_word(row.col_off) as nat);
    lemma_le_bytes_len(a, 8);
    lemma_le_bytes_len(b, 8);
    lemma_le_bytes_len(p, 8);
    lemma_le_bytes_len(n, 4);
    lemma_le_bytes_len(k, 4);
    lemma_le_bytes_len(l, 4);
    lemma_le_bytes_len(o, 4);
    assert(s.subrange(at, at + 8) =~= t.subrange(0, 8));
    assert(s.subrange(at, at + 8) =~= le_bytes(a, 8));
    assert(s.subrange(at + 8, at + 16) =~= t.subrange(8, 16));
    assert(s.subrange(at + 8, at + 16) =~= le_bytes(b, 8));
    assert(s.subrange(at + 16, at + 24) =~= t.subrange(16, 24));
    assert(s.subrange(at + 16, at + 24) =~= le_bytes(p, 8));
    assert(s.subrange(at + 24, at + 28) =~= t.subrange(24, 28));
    assert(s.subrange(at + 24, at + 28) =~= le_bytes(n, 4));
    assert(s.subrange(at + 28, at + 32) =~= t.subrange(28, 32));
    assert(s.subrange(at + 28, at + 32) =~= le_bytes(k, 4));
    assert(s.subrange(at + 32, at + 36) =~= t.subrange(32, 36));
    assert(s.subrange(at + 32, at + 36) =~= le_bytes(l, 4));
    assert(s.subrange(at + 36, at + 40) =~= t.subrange(36, 40));
    assert(s.subrange(at + 36, at + 40) =~= le_bytes(o, 4));
    lemma_int_word(row.n);
    lemma_int_word(row.k);
    lemma_int_word(row.nslabs);
    lemma_int_word(row.col_off);
    lemma_number(s, at, a, 8);
    lemma_number(s, at + 8, b, 8);
    lemma_number(s, at + 16, p, 8);
    lemma_number(s, at + 24, n, 4);
    lemma_number(s, at + 28, k, 4);
    lemma_number(s, at + 32, l, 4);
    lemma_number(s, at + 36, o, 4);
}

} // verus!
