//! What copies do to memory, and that a round trip gives the bytes back.

use vstd::prelude::*;

use crate::buffer::{
    async_plan, copy_accepted, copy_plan, AfterCopy, CopyOp, CopyPlan, DeviceBuffer, HostBuffer,
    MemRef,
};
use crate::launch::CudaStream;

verus! {

/// The bytes of host and device memory by address.
pub type Memory = spec_fn(int) -> u8;

/// Memory after bytes have been copied from one place to another.
pub open spec fn moved(m: Memory, dst: u64, src: u64, bytes: usize) -> Memory {
    |at: int|
        if dst <= at < dst + bytes {
            m(src + (at - dst))
        } else {
            m(at)
        }
}

/// Memory after a copy has been performed.
pub open spec fn performed(m: Memory, op: CopyOp) -> Memory {
    match op {
        CopyOp::Direct { dst, src, bytes, .. } => moved(m, dst, src, bytes),
        CopyOp::Peer { dst, src, bytes, .. } => moved(m, dst, src, bytes),
    }
}

/// Memory after copies have been performed one after the other.
pub open spec fn all_performed(m: Memory, ops: Seq<CopyOp>) -> Memory
    decreases ops.len(),
{
    if ops.len() == 0 {
        m
    } else {
        performed(all_performed(m, ops.drop_last()), ops.last())
    }
}

/// The stream that a copy is issued on.
pub open spec fn stream_of(op: CopyOp) -> u64 {
    match op {
        CopyOp::Direct { stream, .. } => stream,
        CopyOp::Peer { stream, .. } => stream,
    }
}

/// The copies of plans on a stream, in the order in which they were issued, which is the
/// order in which the stream performs them.
pub open spec fn on_stream(plans: Seq<CopyPlan>, stream: u64) -> Seq<CopyOp>
    decreases plans.len(),
{
    if plans.len() == 0 {
        Seq::empty()
    } else {
        let s = on_stream(plans.drop_last(), stream);
        if stream_of(plans.last().op) == stream {
            s.push(plans.last().op)
        } else {
            s
        }
    }
}

/// Whether a copy is complete when its call returns: it is issued on the default stream,
/// which the call waits for.
pub open spec fn is_blocking(p: CopyPlan) -> bool {
    stream_of(p.op) == 0 && p.after == AfterCopy::SyncDefaultStream
}

/// Whether an event that the last plan records shows all copies on its stream to be
/// complete: it is recorded on that stream, behind them.
pub open spec fn is_shown_by_event(plans: Seq<CopyPlan>, stream: u64) -> bool {
    &&& plans.len() > 0
    &&& stream_of(plans.last().op) == stream
    &&& plans.last().after matches AfterCopy::RecordEvent { stream: s, .. } && s == stream
}

/// Whether two stretches of `n` bytes have none in common.
pub open spec fn apart(a: u64, b: u64, n: usize) -> bool {
    a + n <= b || b + n <= a
}

/// Whether two stretches of `n` bytes hold the same bytes, each in its memory.
pub open spec fn same_bytes(m: Memory, a: u64, w: Memory, b: u64, n: usize) -> bool {
    forall|j: int| 0 <= j < n ==> #[trigger] m(a + j) == w(b + j)
}

/// Four allocations of `n` bytes that have no byte in common.
pub open spec fn separate(
    src: HostBuffer,
    d1: DeviceBuffer,
    d2: DeviceBuffer,
    out: HostBuffer,
    n: usize,
) -> bool {
    &&& n <= src.len && n <= d1.len && n <= d2.len && n <= out.len
    &&& apart(src.ptr, d1.ptr, n)
    &&& apart(src.ptr, d2.ptr, n)
    &&& apart(src.ptr, out.ptr, n)
    &&& apart(d1.ptr, d2.ptr, n)
    &&& apart(d1.ptr, out.ptr, n)
    &&& apart(d2.ptr, out.ptr, n)
}

/// Three copies in a row carry the bytes through and leave the source as it was.
proof fn lemma_chain(m: Memory, src: u64, d1: u64, d2: u64, out: u64, n: usize)
    requires
        apart(src, d1, n),
        apart(src, d2, n),
        apart(src, out, n),
        apart(d1, d2, n),
        apart(d2, out, n),
    ensures
        ({
            let w = moved(moved(moved(m, d1, src, n), d2, d1, n), out, d2, n);
            same_bytes(w, out, m, src, n) && same_bytes(w, src, m, src, n)
        }),
{
    let w1 = moved(m, d1, src, n);
    let w2 = moved(w1, d2, d1, n);
    let w = moved(w2, out, d2, n);
    assert forall|j: int| 0 <= j < n implies #[trigger] w(out + j) == m(src + j) by {
        assert(w(out + j) == w2(d2 + j));
        assert(w2(d2 + j) == w1(d1 + j));
        assert(w1(d1 + j) == m(src + j));
    }
    assert forall|j: int| 0 <= j < n implies #[trigger] w(src + j) == m(src + j) by {
        assert(w(src + j) == w2(src + j));
        assert(w2(src + j) == w1(src + j));
    }
}

/// A blocking round trip gives the bytes back: from the host to a device, to another
/// buffer of the device and back to the host, every copy is accepted and complete when
/// its call returns, and then the last buffer holds the bytes of the first, which are
/// unchanged.
pub proof fn blocking_round_trip_gives_the_bytes_back(
    m: Memory,
    src: HostBuffer,
    d1: DeviceBuffer,
    d2: DeviceBuffer,
    out: HostBuffer,
    n: usize,
    current: u32,
)
    requires
        separate(src, d1, d2, out, n),
        d1.dev.index == current,
        d2.dev.index == current,
    ensures
        ({
            let (hs, e1, e2, ho) = (
                MemRef::Host(&src),
                MemRef::Device(&d1),
                MemRef::Device(&d2),
                MemRef::Host(&out),
            );
            let p1 = copy_plan(e1, hs, n, None);
            let p2 = copy_plan(e2, e1, n, None);
            let p3 = copy_plan(ho, e2, n, None);
            let w = performed(performed(performed(m, p1.op), p2.op), p3.op);
            &&& copy_accepted(e1, hs, n, current)
            &&& copy_accepted(e2, e1, n, current)
            &&& copy_accepted(ho, e2, n, current)
            &&& is_blocking(p1) && is_blocking(p2) && is_blocking(p3)
            &&& same_bytes(w, out.ptr, m, src.ptr, n)
            &&& same_bytes(w, src.ptr, m, src.ptr, n)
        }),
{
    lemma_chain(m, src.ptr, d1.ptr, d2.ptr, out.ptr, n);
}

/// A round trip on a stream gives the bytes back: every copy is accepted, the event behind
/// the last one is recorded on the stream of all three, and once it is complete the last
/// buffer holds the bytes of the first, which are unchanged.
pub proof fn streamed_round_trip_gives_the_bytes_back(
    m: Memory,
    src: HostBuffer,
    d1: DeviceBuffer,
    d2: DeviceBuffer,
    out: HostBuffer,
    n: usize,
    stream: CudaStream,
    current: u32,
)
    requires
        separate(src, d1, d2, out, n),
        d1.dev.index == current,
        d2.dev.index == current,
    ensures
        ({
            let (hs, e1, e2, ho) = (
                MemRef::Host(&src),
                MemRef::Device(&d1),
                MemRef::Device(&d2),
                MemRef::Host(&out),
            );
            let plans = seq![
                async_plan(e1, hs, n, stream),
                async_plan(e2, e1, n, stream),
                async_plan(ho, e2, n, stream),
            ];
            let w = all_performed(m, on_stream(plans, stream.handle));
            &&& copy_accepted(e1, hs, n, current)
            &&& copy_accepted(e2, e1, n, current)
            &&& copy_accepted(ho, e2, n, current)
            &&& is_shown_by_event(plans, stream.handle)
            &&& same_bytes(w, out.ptr, m, src.ptr, n)
            &&& same_bytes(w, src.ptr, m, src.ptr, n)
        }),
{
    lemma_chain(m, src.ptr, d1.ptr, d2.ptr, out.ptr, n);
    let (hs, e1, e2, ho) = (
        MemRef::Host(&src),
        MemRef::Device(&d1),
        MemRef::Device(&d2),
        MemRef::Host(&out),
    );
    let (p1, p2, p3) = (
        async_plan(e1, hs, n, stream),
        async_plan(e2, e1, n, stream),
        async_plan(ho, e2, n, stream),
    );
    let plans = seq![p1, p2, p3];
    assert(plans.drop_last() =~= seq![p1, p2]);
    assert(seq![p1, p2].drop_last() =~= seq![p1]);
    assert(seq![p1].drop_last() =~= Seq::<CopyPlan>::empty());
    reveal_with_fuel(on_stream, 4);
    assert(on_stream(plans, stream.handle) =~= seq![p1.op, p2.op, p3.op]);
    let ops = seq![p1.op, p2.op, p3.op];
    assert(ops.drop_last() =~= seq![p1.op, p2.op]);
    assert(seq![p1.op, p2.op].drop_last() =~= seq![p1.op]);
    assert(seq![p1.op].drop_last() =~= Seq::<CopyOp>::empty());
    reveal_with_fuel(all_performed, 4);
}

} // verus!
