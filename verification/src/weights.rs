//! Weights as they are read from a model: shapes, names and element types, and the
//! bytes that go to the device.

use vstd::prelude::*;

use crate::bytes::{le16, le32, le_bytes, lemma_le32, push_le, read_le16, read_le32};
use crate::engine_error::{EngineError, ErrorV};
use crate::float_bits::{
    bf16_to_f32, f16_bits_to_f32, f32_to_f16_bits, from_bf16, from_half, to_half,
};
use crate::text::{decimal, push_decimal, push_text};

verus! {

/// The element type of a tensor.
#[derive(Debug, Clone, PartialEq, Eq)]
pub enum StDtype {
    F16,
    Bf16,
    F32,
    /// Any other type, by name.
    Other(String),
}

/// A tensor: its element type, its extents, and its bytes.
#[derive(Debug)]
pub struct TensorView {
    pub dtype: StDtype,
    pub shape: Vec<u64>,
    pub bytes: Vec<u8>,
}

/// Bytes of an element.
pub open spec fn size_of_elem(d: StDtype) -> nat {
    match d {
        StDtype::F32 => 4,
        _ => 2,
    }
}

/// Bytes of an element; a type that is not supported counts as two.
pub fn elemsize(d: &StDtype) -> (n: usize)
    ensures
        n == size_of_elem(*d),
{
    match d {
        StDtype::F32 => 4,
        _ => 2,
    }
}

/// Element `i` of a row of bytes as an `f16`.
pub open spec fn half_at(d: StDtype, bytes: Seq<u8>, i: int) -> u16 {
    match d {
        StDtype::F32 => to_half(le32(bytes, i * 4)),
        StDtype::Bf16 => to_half(from_bf16(le16(bytes, i * 2))),
        _ => le16(bytes, i * 2),
    }
}

/// The error of a type that is not supported.
pub open spec fn dtype_error(d: StDtype) -> Option<ErrorV> {
    match d {
        StDtype::Other(name) => Some(ErrorV::UnsupportedDtype(name@)),
        _ => None,
    }
}

/// Element `i` of bytes as an `f16`.
fn read_half(d: &StDtype, bytes: &[u8], i: usize) -> (h: u16)
    requires
        (i + 1) * size_of_elem(*d) <= bytes@.len(),
    ensures
        h == half_at(*d, bytes@, i as int),
{
    let total: usize = bytes.len();
    match d {
        StDtype::F32 => f32_to_f16_bits(read_le32(bytes, i * 4)),
        StDtype::Bf16 => f32_to_f16_bits(bf16_to_f32(read_le16(bytes, i * 2))),
        _ => read_le16(bytes, i * 2),
    }
}

/// Two bytes of an `f16`.
pub open spec fn holds_half(v: Seq<u8>, i: int, h: u16) -> bool {
    v[i * 2] == (h % 256) as u8 && v[i * 2 + 1] == (h / 256) as u8
}

proof fn lemma_holds_half(v: Seq<u8>, i: int, h: u16)
    ensures
        holds_half(v, i, h) <==> le16(v, i * 2) == h,
{
    let (a, b) = (v[i * 2], v[i * 2 + 1]);
    assert(le16(v, i * 2) == a + 256 * b);
}

fn set_half(v: &mut Vec<u8>, i: usize, h: u16)
    requires
        i * 2 + 1 < old(v)@.len(),
    ensures
        final(v)@ == old(v)@.update(i * 2, (h % 256) as u8).update(i * 2 + 1, (h / 256) as u8),
        le16(final(v)@, i * 2) == h,
        forall|j: int|
            0 <= j && j * 2 + 1 < old(v)@.len() && j != i ==> #[trigger] le16(final(v)@, j * 2)
                == le16(old(v)@, j * 2),
{
    let total: usize = v.len();
    v.set(i * 2, (h % 256) as u8);
    v.set(i * 2 + 1, (h / 256) as u8);
    proof {
        lemma_holds_half(v@, i as int, h);
    }
}

/// Elements that a row of bytes holds whole.
pub open spec fn row_elems(d: StDtype, len: nat) -> nat {
    len / size_of_elem(d)
}

/// Writes a row as `f16` to the start of `out`.  An `f16` row fills `out`; the
/// others may leave a rest, which stays.
pub fn row_to_f16(d: &StDtype, bytes: &[u8], out: &mut Vec<u8>) -> (r: Result<(), EngineError>)
    requires
        *d is F16 ==> old(out)@.len() == bytes@.len(),
        *d is Bf16 || *d is F32 ==> row_elems(*d, bytes@.len()) * 2 <= old(out)@.len(),
    ensures
        r is Err <==> dtype_error(*d) is Some,
        r is Err ==> dtype_error(*d) == Some(r->Err_0@) && final(out)@ == old(out)@,
        r is Ok ==> final(out)@.len() == old(out)@.len(),
        r is Ok && *d is F16 ==> final(out)@ == bytes@,
        r is Ok && *d !is F16 ==> {
            let n = row_elems(*d, bytes@.len());
            &&& forall|i: int|
                0 <= i < n ==> #[trigger] le16(final(out)@, i * 2) == half_at(*d, bytes@, i)
            &&& forall|k: int| n * 2 <= k < old(out)@.len() ==> #[trigger] final(out)@[k] == old(out)@[k]
        },
{
    match d {
        StDtype::Other(name) => Err(EngineError::UnsupportedDtype(name.clone())),
        StDtype::F16 => {
            let mut i: usize = 0;
            while i < bytes.len()
                invariant
                    i <= bytes@.len(),
                    out@.len() == bytes@.len(),
                    forall|k: int| 0 <= k < i ==> #[trigger] out@[k] == bytes@[k],
                decreases bytes@.len() - i,
            {
                out.set(i, bytes[i]);
                i = i + 1;
            }
            proof {
                assert(out@ =~= bytes@);
            }
            Ok(())
        },
        _ => {
            let sz: usize = elemsize(d);
            let n: usize = bytes.len() / sz;
            let total: usize = bytes.len();
            let ghost before = out@;
            let mut i: usize = 0;
            while i < n
                invariant
                    i <= n,
                    *d is Bf16 || *d is F32,
                    sz == size_of_elem(*d),
                    total == bytes@.len(),
                    n == total / sz,
                    n * 2 <= out@.len(),
                    out@.len() == before.len(),
                    forall|j: int|
                        0 <= j < i ==> #[trigger] le16(out@, j * 2) == half_at(*d, bytes@, j),
                    forall|k: int| i * 2 <= k < before.len() ==> #[trigger] out@[k] == before[k],
                decreases n - i,
            {
                let h: u16 = read_half(d, bytes, i);
                set_half(out, i, h);
                i = i + 1;
            }
            Ok(())
        },
    }
}

/// Zeroed bytes.
fn zeroed(n: usize) -> (v: Vec<u8>)
    ensures
        v@ == Seq::new(n as nat, |i: int| 0u8),
{
    let mut v: Vec<u8> = Vec::new();
    let mut i: usize = 0;
    while i < n
        invariant
            i <= n,
            v@ == Seq::new(i as nat, |i: int| 0u8),
        decreases n - i,
    {
        v.push(0);
        i = i + 1;
        proof {
            assert(v@ =~= Seq::new(i as nat, |i: int| 0u8));
        }
    }
    v
}

/// Whether the element in row `r` and column `c` of a matrix of `out` rows and `inp`
/// columns stands, as an `f16`, in row `c` and column `r` of `w`.
pub open spec fn transposes(
    w: Seq<u8>,
    d: StDtype,
    bytes: Seq<u8>,
    out: int,
    inp: int,
    r: int,
    c: int,
) -> bool {
    le16(w, (c * out + r) * 2) == half_at(d, bytes, r * inp + c)
}

proof fn lemma_cell(r: int, c: int, rows: int, cols: int)
    requires
        0 <= r < rows,
        0 <= c < cols,
    ensures
        0 <= c * rows + r < rows * cols,
        0 <= r * cols + c < rows * cols,
        r * cols + c + 1 <= rows * cols,
{
    assert(0 <= c * rows + r < rows * cols && 0 <= r * cols + c < rows * cols)
        by (nonlinear_arith)
        requires
            0 <= r < rows,
            0 <= c < cols,
    ;
}

proof fn lemma_cells_differ(r: int, c: int, r2: int, c2: int, rows: int)
    requires
        0 <= r < rows,
        0 <= r2 < rows,
        c * rows + r == c2 * rows + r2,
    ensures
        r == r2,
        c == c2,
{
    assert(c == c2) by (nonlinear_arith)
        requires
            0 <= r < rows,
            0 <= r2 < rows,
            c * rows + r == c2 * rows + r2,
    ;
}

/// What a conversion of `out` rows of `inp` elements needs of the bytes: all rows,
/// or the first one where the type is refused.
pub open spec fn rows_there(d: StDtype, len: nat, out: int, inp: int) -> bool {
    if d is Other {
        out > 0 ==> inp * 2 <= len
    } else {
        out * inp * size_of_elem(d) <= len
    }
}

/// A matrix as `f16`, transposed: from `out` rows of `inp` elements to `inp` rows of
/// `out` elements.
pub fn to_f16_rm(view: &TensorView, out: usize, inp: usize) -> (r: Result<Vec<u8>, EngineError>)
    requires
        out * inp * 2 <= usize::MAX,
        rows_there(view.dtype, view.bytes@.len(), out as int, inp as int),
    ensures
        r is Err <==> out > 0 && dtype_error(view.dtype) is Some,
        r is Err ==> dtype_error(view.dtype) == Some(r->Err_0@),
        r is Ok ==> r->Ok_0@.len() == out * inp * 2,
        r is Ok ==> forall|i: int, c: int|
            0 <= i < out && 0 <= c < inp ==> #[trigger] transposes(
                r->Ok_0@,
                view.dtype,
                view.bytes@,
                out as int,
                inp as int,
                i,
                c,
            ),
{
    let d = &view.dtype;
    proof {
        assert(0 <= out * inp) by (nonlinear_arith)
            requires
                out >= 0,
                inp >= 0,
        ;
    }
    let mut w: Vec<u8> = zeroed(out * inp * 2);
    if out == 0 {
        return Ok(w);
    }
    if let StDtype::Other(name) = d {
        return Err(EngineError::UnsupportedDtype(name.clone()));
    }
    let total: usize = view.bytes.len();
    let mut r: usize = 0;
    while r < out
        invariant
            r <= out,
            *d == view.dtype,
            *d !is Other,
            out * inp * 2 <= usize::MAX,
            total == view.bytes@.len(),
            out * inp * size_of_elem(*d) <= total,
            w@.len() == out * inp * 2,
            forall|i: int, c: int|
                0 <= i < r && 0 <= c < inp ==> #[trigger] transposes(
                    w@,
                    *d,
                    view.bytes@,
                    out as int,
                    inp as int,
                    i,
                    c,
                ),
        decreases out - r,
    {
        let mut c: usize = 0;
        while c < inp
            invariant
                r < out,
                c <= inp,
                *d == view.dtype,
                *d !is Other,
                out * inp * 2 <= usize::MAX,
                total == view.bytes@.len(),
                out * inp * size_of_elem(*d) <= total,
                w@.len() == out * inp * 2,
                forall|i: int, k: int|
                    0 <= i < out && 0 <= k < inp && (i < r || (i == r && k < c)) ==> #[trigger]
                    transposes(w@, *d, view.bytes@, out as int, inp as int, i, k),
            decreases inp - c,
        {
            proof {
                lemma_cell(r as int, c as int, out as int, inp as int);
                assert((r * inp + c + 1) * size_of_elem(*d) <= out * inp * size_of_elem(*d))
                    by (nonlinear_arith)
                    requires
                        r * inp + c + 1 <= out * inp,
                        size_of_elem(*d) >= 0,
                ;
                assert(0 <= r * inp && 0 <= c * out) by (nonlinear_arith)
                    requires
                        r >= 0,
                        inp >= 0,
                        c >= 0,
                        out >= 0,
                ;
            }
            let ghost before = w@;
            let h: u16 = read_half(d, view.bytes.as_slice(), r * inp + c);
            set_half(&mut w, c * out + r, h);
            proof {
                assert forall|i: int, k: int|
                    0 <= i < out && 0 <= k < inp && (i < r || (i == r && k < c + 1)) implies
                    #[trigger] transposes(w@, *d, view.bytes@, out as int, inp as int, i, k) by {
                    if !(i == r && k == c) {
                        assert(transposes(
                            before,
                            *d,
                            view.bytes@,
                            out as int,
                            inp as int,
                            i,
                            k,
                        ));
                        lemma_cell(i, k, out as int, inp as int);
                        if k * out + i == c * out + r {
                            lemma_cells_differ(i, k, r as int, c as int, out as int);
                        }
                        let j = k * out + i;
                        assert(le16(w@, j * 2) == le16(before, j * 2));
                    }
                }
            }
            c = c + 1;
        }
        r = r + 1;
    }
    Ok(w)
}

/// Elements of bytes as `f16`, in order.
fn halves(d: &StDtype, bytes: &[u8], n: usize) -> (w: Vec<u8>)
    requires
        n * 2 <= usize::MAX,
        n * size_of_elem(*d) <= bytes@.len(),
    ensures
        w@.len() == n * 2,
        forall|i: int| 0 <= i < n ==> #[trigger] le16(w@, i * 2) == half_at(*d, bytes@, i),
{
    let total: usize = bytes.len();
    let mut w: Vec<u8> = zeroed(n * 2);
    let mut i: usize = 0;
    while i < n
        invariant
            i <= n,
            n * 2 <= usize::MAX,
            total == bytes@.len(),
            n * size_of_elem(*d) <= total,
            w@.len() == n * 2,
            forall|j: int| 0 <= j < i ==> #[trigger] le16(w@, j * 2) == half_at(*d, bytes@, j),
        decreases n - i,
    {
        proof {
            assert((i + 1) * size_of_elem(*d) <= n * size_of_elem(*d)) by (nonlinear_arith)
                requires
                    i + 1 <= n,
                    size_of_elem(*d) >= 0,
            ;
        }
        let h: u16 = read_half(d, bytes, i);
        set_half(&mut w, i, h);
        i = i + 1;
    }
    w
}

/// A matrix as `f16`, in the order it has.
pub fn to_f16_rows(view: &TensorView) -> (r: Result<Vec<u8>, EngineError>)
    requires
        view.shape@.len() >= 2,
        view.shape@[0] <= usize::MAX,
        view.shape@[1] <= usize::MAX,
        view.shape@[0] * view.shape@[1] * 2 <= usize::MAX,
        rows_there(
            view.dtype,
            view.bytes@.len(),
            view.shape@[0] as int,
            view.shape@[1] as int,
        ),
    ensures
        r is Err <==> view.shape@[0] > 0 && dtype_error(view.dtype) is Some,
        r is Err ==> dtype_error(view.dtype) == Some(r->Err_0@),
        r is Ok ==> r->Ok_0@.len() == view.shape@[0] * view.shape@[1] * 2,
        r is Ok ==> forall|i: int|
            0 <= i < view.shape@[0] * view.shape@[1] ==> #[trigger] le16(r->Ok_0@, i * 2)
                == half_at(view.dtype, view.bytes@, i),
{
    let rows: usize = view.shape[0] as usize;
    let cols: usize = view.shape[1] as usize;
    if rows > 0 {
        if let StDtype::Other(name) = &view.dtype {
            return Err(EngineError::UnsupportedDtype(name.clone()));
        }
    }
    proof {
        assert(0 <= rows * cols) by (nonlinear_arith)
            requires
                rows >= 0,
                cols >= 0,
        ;
        if rows == 0 {
            assert(0 * cols == 0);
        }
    }
    Ok(halves(&view.dtype, view.bytes.as_slice(), rows * cols))
}

/// A vector as `f16`.  An `f16` vector has exactly the bytes of its extent; of the
/// others the elements that are there are converted, and the rest is zero.
pub fn to_f16_vec(view: &TensorView) -> (r: Result<Vec<u8>, EngineError>)
    requires
        view.shape@.len() >= 1,
        view.shape@[0] * 2 <= usize::MAX,
        view.dtype is F16 ==> view.bytes@.len() == view.shape@[0] * 2,
        view.dtype is Bf16 || view.dtype is F32 ==> row_elems(view.dtype, view.bytes@.len())
            <= view.shape@[0],
    ensures
        r is Err <==> dtype_error(view.dtype) is Some,
        r is Err ==> dtype_error(view.dtype) == Some(r->Err_0@),
        r is Ok ==> r->Ok_0@.len() == view.shape@[0] * 2,
        r is Ok && view.dtype is F16 ==> r->Ok_0@ == view.bytes@,
        r is Ok ==> forall|i: int|
            0 <= i < row_elems(view.dtype, view.bytes@.len()) ==> #[trigger] le16(
                r->Ok_0@,
                i * 2,
            ) == half_at(view.dtype, view.bytes@, i),
        r is Ok ==> forall|k: int|
            row_elems(view.dtype, view.bytes@.len()) * 2 <= k < r->Ok_0@.len()
                ==> #[trigger] r->Ok_0@[k] == 0,
{
    let n: usize = view.shape[0] as usize;
    let mut out: Vec<u8> = zeroed(n * 2);
    let ghost fresh = out@;
    match row_to_f16(&view.dtype, view.bytes.as_slice(), &mut out) {
        Ok(_) => {
            proof {
                if view.dtype is F16 {
                    assert(row_elems(view.dtype, view.bytes@.len()) * 2 == out@.len());
                } else {
                    assert forall|k: int|
                        row_elems(view.dtype, view.bytes@.len()) * 2 <= k < out@.len() implies
                        #[trigger] out@[k] == 0 by {
                        assert(out@[k] == fresh[k]);
                    }
                }
            }
            Ok(out)
        },
        Err(e) => Err(e),
    }
}

/// `f16` bytes as `f32` bytes of the same values.
pub fn expand_f16_to_f32(w16: &Vec<u8>) -> (v: Vec<u8>)
    requires
        w16@.len() * 2 <= usize::MAX,
    ensures
        v@.len() == w16@.len() / 2 * 4,
        forall|i: int|
            0 <= i < w16@.len() / 2 ==> #[trigger] le32(v@, i * 4) == from_half(le16(w16@, i * 2)),
{
    let n: usize = w16.len() / 2;
    let mut v: Vec<u8> = Vec::new();
    let mut i: usize = 0;
    while i < n
        invariant
            i <= n,
            n == w16@.len() / 2,
            w16@.len() * 2 <= usize::MAX,
            v@.len() == i * 4,
            forall|j: int|
                0 <= j < i ==> #[trigger] le32(v@, j * 4) == from_half(le16(w16@, j * 2)),
        decreases n - i,
    {
        let total: usize = w16.len();
        let f: u32 = f16_bits_to_f32(read_le16(w16.as_slice(), i * 2));
        let ghost before = v@;
        push_le(&mut v, f as u64, 4);
        proof {
            lemma_le32(f);
            let e = le_bytes(f as nat, 4);
            assert(v@ == before + e);
            assert forall|j: int| 0 <= j < i + 1 implies #[trigger] le32(v@, j * 4) == from_half(
                le16(w16@, j * 2),
            ) by {
                if j < i {
                    assert(le32(v@, j * 4) == le32(before, j * 4));
                } else {
                    assert(le32(v@, j * 4) == le32(e, 0));
                }
            }
        }
        i = i + 1;
    }
    v
}

/// The `f32` values of `f16` bytes that were read back, as bit patterns.
pub fn readback_f16(w16: &Vec<u8>) -> (v: Vec<u32>)
    ensures
        v@ == Seq::new(
            (w16@.len() / 2) as nat,
            |i: int| from_half(le16(w16@, i * 2)),
        ),
{
    let n: usize = w16.len() / 2;
    let mut v: Vec<u32> = Vec::new();
    let mut i: usize = 0;
    while i < n
        invariant
            i <= n,
            n == w16@.len() / 2,
            v@ == Seq::new(i as nat, |i: int| from_half(le16(w16@, i * 2))),
        decreases n - i,
    {
        let total: usize = w16.len();
        v.push(f16_bits_to_f32(read_le16(w16.as_slice(), i * 2)));
        i = i + 1;
        proof {
            assert(v@ =~= Seq::new(i as nat, |i: int| from_half(le16(w16@, i * 2))));
        }
    }
    v
}

/// Rows joined one by one: row `r` of each part, one after the other.
pub open spec fn joined_rows(
    q: Seq<u8>,
    k: Seq<u8>,
    v: Seq<u8>,
    nq: int,
    nk: int,
    rows: nat,
) -> Seq<u8>
    decreases rows,
{
    if rows == 0 {
        Seq::empty()
    } else {
        let r = rows - 1;
        joined_rows(q, k, v, nq, nk, r as nat) + q.subrange(r * nq, (r + 1) * nq) + k.subrange(
            r * nk,
            (r + 1) * nk,
        ) + v.subrange(r * nk, (r + 1) * nk)
    }
}

fn push_row(out: &mut Vec<u8>, from: &Vec<u8>, start: usize, stop: usize)
    requires
        start <= stop <= from@.len(),
    ensures
        final(out)@ == old(out)@ + from@.subrange(start as int, stop as int),
{
    let mut i: usize = start;
    while i < stop
        invariant
            start <= i <= stop,
            stop <= from@.len(),
            out@ == old(out)@ + from@.subrange(start as int, i as int),
        decreases stop - i,
    {
        out.push(from[i]);
        i = i + 1;
        proof {
            assert(out@ =~= old(out)@ + from@.subrange(start as int, i as int));
        }
    }
    proof {
        assert(out@ =~= old(out)@ + from@.subrange(start as int, stop as int));
    }
}

/// The joined projection weights: row `r` is row `r` of the query, of the key and of
/// the value projection, of `nqk`, `kvk` and `kvk` elements.
pub fn join_qkv(q16: &Vec<u8>, k16: &Vec<u8>, v16: &Vec<u8>, h: usize, nqk: usize, kvk: usize) -> (w:
    Vec<u8>)
    requires
        nqk * 2 <= usize::MAX,
        kvk * 2 <= usize::MAX,
        h * (nqk * 2) <= q16@.len(),
        h * (kvk * 2) <= k16@.len(),
        h * (kvk * 2) <= v16@.len(),
    ensures
        w@ == joined_rows(q16@, k16@, v16@, nqk * 2, kvk * 2, h as nat),
{
    let (nq, nk) = (nqk * 2, kvk * 2);
    let (lq, lk, lv) = (q16.len(), k16.len(), v16.len());
    let mut out: Vec<u8> = Vec::new();
    let mut r: usize = 0;
    while r < h
        invariant
            r <= h,
            nq == nqk * 2,
            nk == kvk * 2,
            lq == q16@.len(),
            lk == k16@.len(),
            lv == v16@.len(),
            h * nq <= lq,
            h * nk <= lk,
            h * nk <= lv,
            out@ == joined_rows(q16@, k16@, v16@, nq as int, nk as int, r as nat),
        decreases h - r,
    {
        proof {
            lemma_row(r as int, h as int, nq as int);
            lemma_row(r as int, h as int, nk as int);
        }
        push_row(&mut out, q16, r * nq, (r + 1) * nq);
        push_row(&mut out, k16, r * nk, (r + 1) * nk);
        push_row(&mut out, v16, r * nk, (r + 1) * nk);
        r = r + 1;
    }
    out
}

proof fn lemma_row(r: int, h: int, n: int)
    requires
        0 <= r < h,
        n >= 0,
    ensures
        0 <= r * n <= (r + 1) * n <= h * n,
{
    assert(0 <= r * n <= (r + 1) * n && (r + 1) * n <= h * n) by (nonlinear_arith)
        requires
            0 <= r,
            r + 1 <= h,
            n >= 0,
    ;
}

/// Joined rows have the rows' places: byte `j` of the query part of row `r` is byte
/// `j` of row `r` of the query weights, and likewise behind it for key and value.
pub proof fn join_keeps_every_row(
    q: Seq<u8>,
    k: Seq<u8>,
    v: Seq<u8>,
    nq: int,
    nk: int,
    rows: nat,
    r: int,
    j: int,
)
    requires
        nq >= 0,
        nk >= 0,
        rows * nq <= q.len(),
        rows * nk <= k.len(),
        rows * nk <= v.len(),
        0 <= r < rows,
    ensures
        ({
            let w = joined_rows(q, k, v, nq, nk, rows);
            let at = r * (nq + 2 * nk);
            &&& w.len() == rows * (nq + 2 * nk)
            &&& 0 <= j < nq ==> w[at + j] == q[r * nq + j]
            &&& 0 <= j < nk ==> w[at + nq + j] == k[r * nk + j]
            &&& 0 <= j < nk ==> w[at + nq + nk + j] == v[r * nk + j]
        }),
    decreases rows,
{
    let m = rows - 1;
    let n2 = nq + 2 * nk;
    lemma_row(m, rows as int, nq);
    lemma_row(m, rows as int, nk);
    lemma_row(r, rows as int, nq);
    lemma_row(r, rows as int, nk);
    lemma_row(r, rows as int, n2);
    lemma_joined_len(q, k, v, nq, nk, m as nat);
    assert((m + 1) * nq - m * nq == nq && (m + 1) * nk - m * nk == nk && m * n2 + n2 == rows * n2)
        by (nonlinear_arith)
        requires
            rows == m + 1,
    ;
    if r < m {
        assert(rows * nq == m * nq + nq && rows * nk == m * nk + nk && r * n2 + n2 <= m * n2)
            by (nonlinear_arith)
            requires
                rows == m + 1,
                r + 1 <= m,
                n2 >= 0,
        ;
        join_keeps_every_row(q, k, v, nq, nk, m as nat, r, j);
    }
}

proof fn lemma_joined_len(q: Seq<u8>, k: Seq<u8>, v: Seq<u8>, nq: int, nk: int, rows: nat)
    requires
        nq >= 0,
        nk >= 0,
        rows * nq <= q.len(),
        rows * nk <= k.len(),
        rows * nk <= v.len(),
    ensures
        joined_rows(q, k, v, nq, nk, rows).len() == rows * (nq + 2 * nk),
    decreases rows,
{
    let n2 = nq + 2 * nk;
    if rows > 0 {
        let m = rows - 1;
        lemma_row(m, rows as int, nq);
        lemma_row(m, rows as int, nk);
        assert((m + 1) * nq - m * nq == nq && (m + 1) * nk - m * nk == nk && m * n2 + n2 == rows
            * n2 && m * nq <= rows * nq && m * nk <= rows * nk) by (nonlinear_arith)
            requires
                rows == m + 1,
                nq >= 0,
                nk >= 0,
        ;
        lemma_joined_len(q, k, v, nq, nk, m as nat);
    } else {
        assert(0 * n2 == 0);
    }
}

/// Extents in words: in brackets, with a comma and a space between them.
pub open spec fn extents_text(shape: Seq<u64>) -> Seq<char>
    decreases shape.len(),
{
    if shape.len() == 0 {
        Seq::empty()
    } else if shape.len() == 1 {
        decimal(shape[0] as nat)
    } else {
        extents_text(shape.drop_last()) + ", "@ + decimal(shape.last() as nat)
    }
}

fn push_shape(s: &mut String, shape: &Vec<u64>)
    ensures
        final(s)@ == old(s)@ + "["@ + extents_text(shape@) + "]"@,
{
    push_text(s, "[");
    let ghost head = s@;
    let mut i: usize = 0;
    proof {
        assert(shape@.subrange(0, 0) =~= Seq::<u64>::empty());
        assert(s@ =~= head + extents_text(shape@.subrange(0, 0)));
    }
    while i < shape.len()
        invariant
            i <= shape@.len(),
            s@ == head + extents_text(shape@.subrange(0, i as int)),
        decreases shape@.len() - i,
    {
        if i > 0 {
            push_text(s, ", ");
        }
        push_decimal(s, shape[i]);
        i = i + 1;
        proof {
            let e = shape@.subrange(0, i as int);
            assert(e.drop_last() =~= shape@.subrange(0, i - 1));
            assert(s@ =~= head + extents_text(e));
        }
    }
    proof {
        assert(shape@.subrange(0, shape@.len() as int) =~= shape@);
    }
    push_text(s, "]");
}

/// What is said of a matrix of another shape.
pub open spec fn matrix_text(name: Seq<char>, rows: nat, cols: nat, shape: Seq<u64>) -> Seq<char> {
    name + ": expected ["@ + decimal(rows) + ","@ + decimal(cols) + "] got "@ + "["@
        + extents_text(shape) + "]"@
}

/// What is said of a vector of another shape.
pub open spec fn vector_text(name: Seq<char>, d: nat, shape: Seq<u64>) -> Seq<char> {
    name + ": expected ["@ + decimal(d) + "] got "@ + "["@ + extents_text(shape) + "]"@
}

/// Checks the shape of a matrix.
pub fn check_matrix(name: &str, shape: &Vec<u64>, rows: usize, cols: usize) -> (r: Result<
    (),
    EngineError,
>)
    ensures
        r is Ok <==> shape@ == seq![rows as u64, cols as u64],
        r is Err ==> r->Err_0@ == ErrorV::WeightShape(
            matrix_text(name@, rows as nat, cols as nat, shape@),
        ),
{
    if shape.len() == 2 && shape[0] == rows as u64 && shape[1] == cols as u64 {
        proof {
            assert(shape@ =~= seq![rows as u64, cols as u64]);
        }
        return Ok(());
    }
    let mut s = name.to_owned();
    push_text(&mut s, ": expected [");
    push_decimal(&mut s, rows as u64);
    push_text(&mut s, ",");
    push_decimal(&mut s, cols as u64);
    push_text(&mut s, "] got ");
    push_shape(&mut s, shape);
    Err(EngineError::WeightShape(s))
}

/// Checks the shape of a vector.
pub fn check_vector(name: &str, shape: &Vec<u64>, d: usize) -> (r: Result<(), EngineError>)
    ensures
        r is Ok <==> shape@ == seq![d as u64],
        r is Err ==> r->Err_0@ == ErrorV::WeightShape(vector_text(name@, d as nat, shape@)),
{
    if shape.len() == 1 && shape[0] == d as u64 {
        proof {
            assert(shape@ =~= seq![d as u64]);
        }
        return Ok(());
    }
    let mut s = name.to_owned();
    push_text(&mut s, ": expected [");
    push_decimal(&mut s, d as u64);
    push_text(&mut s, "] got ");
    push_shape(&mut s, shape);
    Err(EngineError::WeightShape(s))
}

/// The name of a layer's tensor.
pub fn layer_tensor(i: usize, part: &str) -> (s: String)
    ensures
        s@ == "model.layers."@ + decimal(i as nat) + "."@ + part@,
{
    let mut s = "model.layers.".to_owned();
    push_decimal(&mut s, i as u64);
    push_text(&mut s, ".");
    push_text(&mut s, part);
    s
}

} // verus!
