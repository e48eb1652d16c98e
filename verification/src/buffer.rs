//! Device and pinned host memory by address and length, and the copies between
//! them.

use vstd::prelude::*;

use crate::buffer_check::{
    peer_copy_is_valid, validate_peer_memref, MemRefEnd, MemcpyKind, PeerPolicy,
};
use crate::error::{class_of, map_err, CudaErrorCode, LaunchError, CUDA_SUCCESS};
use crate::launch::CudaStream;

verus! {

/// A device, by its index.
#[derive(Debug, Clone, Copy, PartialEq, Eq, Structural)]
pub struct DeviceId {
    pub index: u32,
}

impl DeviceId {
    pub fn new(index: u32) -> (d: Self)
        ensures
            d.index == index,
    {
        DeviceId { index }
    }

    pub fn index(&self) -> (i: u32)
        ensures
            i == self.index,
    {
        self.index
    }
}

/// An allocation of device memory.
#[derive(Debug, Clone, Copy, PartialEq, Eq, Structural)]
pub struct DeviceBuffer {
    pub dev: DeviceId,
    pub ptr: u64,
    pub len: usize,
}

impl DeviceBuffer {
    /// The buffer of an allocation call on the device: the address it gave for
    /// `size` bytes, or the class of its return code.
    pub fn allocate(dev: DeviceId, size: usize, rc: CudaErrorCode, ptr: u64) -> (r: Result<
        Self,
        LaunchError,
    >)
        ensures
            r is Ok <==> rc == CUDA_SUCCESS,
            r is Ok ==> r->Ok_0 == (DeviceBuffer { dev, ptr, len: size }),
            r is Err ==> class_of(rc) == Some(r->Err_0),
    {
        match map_err(rc) {
            Ok(_) => Ok(DeviceBuffer { dev, ptr, len: size }),
            Err(e) => Err(e),
        }
    }

    /// Address of the first byte.
    pub fn as_ptr(&self) -> (p: u64)
        ensures
            p == self.ptr,
    {
        self.ptr
    }

    /// Length in bytes.
    pub fn size(&self) -> (n: usize)
        ensures
            n == self.len,
    {
        self.len
    }

    /// The device that holds the memory.
    pub fn device(&self) -> (d: DeviceId)
        ensures
            d == self.dev,
    {
        self.dev
    }
}

/// An allocation of pinned host memory.
#[derive(Debug, Clone, Copy, PartialEq, Eq, Structural)]
pub struct HostBuffer {
    pub ptr: u64,
    pub len: usize,
}

impl HostBuffer {
    /// The buffer of an allocation call: the address it gave for `size` bytes,
    /// or the class of its return code.
    pub fn allocate(size: usize, rc: CudaErrorCode, ptr: u64) -> (r: Result<Self, LaunchError>)
        ensures
            r is Ok <==> rc == CUDA_SUCCESS,
            r is Ok ==> r->Ok_0 == (HostBuffer { ptr, len: size }),
            r is Err ==> class_of(rc) == Some(r->Err_0),
    {
        match map_err(rc) {
            Ok(_) => Ok(HostBuffer { ptr, len: size }),
            Err(e) => Err(e),
        }
    }

    /// Address of the first byte.
    pub fn as_ptr(&self) -> (p: u64)
        ensures
            p == self.ptr,
    {
        self.ptr
    }

    /// Length in bytes.
    pub fn size(&self) -> (n: usize)
        ensures
            n == self.len,
    {
        self.len
    }
}

/// One end of a copy: a whole buffer.
#[derive(Debug, Clone, Copy)]
pub enum MemRef<'a> {
    Device(&'a DeviceBuffer),
    Host(&'a HostBuffer),
}

impl<'a> MemRef<'a> {
    pub open spec fn ptr_of(self) -> u64 {
        match self {
            MemRef::Device(b) => b.ptr,
            MemRef::Host(b) => b.ptr,
        }
    }

    /// The buffer as an end of a copy, from its first byte on.
    pub open spec fn end_of(self) -> MemRefEnd {
        match self {
            MemRef::Device(b) => MemRefEnd { offset: 0, len: b.len, dev: Some(b.dev.index) },
            MemRef::Host(b) => MemRefEnd { offset: 0, len: b.len, dev: None },
        }
    }

    /// Address of the first byte.
    pub fn ptr(&self) -> (p: u64)
        ensures
            p == self.ptr_of(),
    {
        match self {
            MemRef::Device(b) => b.as_ptr(),
            MemRef::Host(b) => b.as_ptr(),
        }
    }

    /// Length in bytes.
    pub fn len(&self) -> (n: usize)
        ensures
            n == self.end_of().len,
    {
        match self {
            MemRef::Device(b) => b.size(),
            MemRef::Host(b) => b.size(),
        }
    }

    /// Whether the buffer holds no byte.
    pub fn is_empty(&self) -> (b: bool)
        ensures
            b == (self.end_of().len == 0),
    {
        self.len() == 0
    }

    /// The device that holds the buffer; `None` for host memory.
    pub fn device(&self) -> (d: Option<u32>)
        ensures
            d == self.end_of().dev,
    {
        match self {
            MemRef::Device(b) => Some(b.device().index()),
            MemRef::Host(_) => None,
        }
    }

    /// The buffer as an end of a copy.
    pub fn end(&self) -> (e: MemRefEnd)
        ensures
            e == self.end_of(),
    {
        MemRefEnd { offset: 0, len: self.len(), dev: self.device() }
    }
}

/// The direction between two ends; host to host has none.
pub open spec fn kind_between(dst: Option<u32>, src: Option<u32>) -> Option<MemcpyKind> {
    match (dst, src) {
        (Some(_), None) => Some(MemcpyKind::H2D),
        (None, Some(_)) => Some(MemcpyKind::D2H),
        (Some(_), Some(_)) => Some(MemcpyKind::D2D),
        (None, None) => None,
    }
}

/// The direction of a copy; a copy within the host is `Fatal`.
pub fn kind_of(dst: Option<u32>, src: Option<u32>) -> (r: Result<MemcpyKind, LaunchError>)
    ensures
        r is Ok <==> kind_between(dst, src) is Some,
        r is Ok ==> kind_between(dst, src) == Some(r->Ok_0),
        r is Err ==> r->Err_0 == LaunchError::Fatal,
{
    match (dst, src) {
        (Some(_), None) => Ok(MemcpyKind::H2D),
        (None, Some(_)) => Ok(MemcpyKind::D2H),
        (Some(_), Some(_)) => Ok(MemcpyKind::D2D),
        (None, None) => Err(LaunchError::Fatal),
    }
}

/// The device call that performs a copy.
#[derive(Debug, Clone, Copy, PartialEq, Eq, Structural)]
pub enum CopyOp {
    /// A copy that one device performs.
    Direct { kind: MemcpyKind, dst: u64, src: u64, bytes: usize, stream: u64 },
    /// A copy between two devices, once the destination has been found able to
    /// reach the source.
    Peer { dst: u64, dst_dev: u32, src: u64, src_dev: u32, bytes: usize, stream: u64 },
}

/// The call for a copy: between two devices where the ends name two.
pub open spec fn copy_op(
    kind: MemcpyKind,
    dst: u64,
    src: u64,
    bytes: usize,
    dst_dev: Option<u32>,
    src_dev: Option<u32>,
    stream: u64,
) -> CopyOp {
    match (dst_dev, src_dev) {
        (Some(d), Some(s)) if d != s => CopyOp::Peer {
            dst,
            dst_dev: d,
            src,
            src_dev: s,
            bytes,
            stream,
        },
        _ => CopyOp::Direct { kind, dst, src, bytes, stream },
    }
}

/// The device call for a copy.
pub fn memcpy_launch(
    kind: MemcpyKind,
    dst: u64,
    src: u64,
    bytes: usize,
    dst_dev: Option<u32>,
    src_dev: Option<u32>,
    stream: u64,
) -> (op: CopyOp)
    ensures
        op == copy_op(kind, dst, src, bytes, dst_dev, src_dev, stream),
{
    match (dst_dev, src_dev) {
        (Some(d), Some(s)) => {
            if d != s {
                CopyOp::Peer { dst, dst_dev: d, src, src_dev: s, bytes, stream }
            } else {
                CopyOp::Direct { kind, dst, src, bytes, stream }
            }
        },
        _ => CopyOp::Direct { kind, dst, src, bytes, stream },
    }
}

/// What the probe for peer access says of a peer copy: without the ability it
/// is `Fatal`.
pub fn peer_access(can: i32) -> (r: Result<(), LaunchError>)
    ensures
        r is Ok <==> can != 0,
        r is Err ==> r->Err_0 == LaunchError::Fatal,
{
    if can == 0 {
        Err(LaunchError::Fatal)
    } else {
        Ok(())
    }
}

/// What follows the device call of a copy.
#[derive(Debug, Clone, Copy, PartialEq, Eq, Structural)]
pub enum AfterCopy {
    /// The stream orders it; nothing to wait for.
    Nothing,
    /// Wait for the default stream.
    SyncDefaultStream,
    /// Record an event of the device on the stream.
    RecordEvent { dev: u32, stream: u64 },
}

/// A checked copy: the device call, and what follows it.
#[derive(Debug, Clone, Copy, PartialEq, Eq, Structural)]
pub struct CopyPlan {
    pub op: CopyOp,
    pub after: AfterCopy,
}

/// Whether a copy between two buffers is accepted on a thread bound to a device.
pub open spec fn copy_accepted(dst: MemRef, src: MemRef, bytes: usize, current: u32) -> bool {
    match kind_between(dst.end_of().dev, src.end_of().dev) {
        Some(kind) => peer_copy_is_valid(
            kind,
            dst.end_of(),
            src.end_of(),
            bytes,
            PeerPolicy { current_dev: current, allow_peer: true },
        ),
        None => false,
    }
}

/// The device call of an accepted copy.
pub open spec fn accepted_op(dst: MemRef, src: MemRef, bytes: usize, stream: u64) -> CopyOp {
    copy_op(
        kind_between(dst.end_of().dev, src.end_of().dev)->0,
        dst.ptr_of(),
        src.ptr_of(),
        bytes,
        dst.end_of().dev,
        src.end_of().dev,
        stream,
    )
}

/// The plan of an accepted copy: blocking on the default stream, or ordered by a stream.
pub open spec fn copy_plan(
    dst: MemRef,
    src: MemRef,
    bytes: usize,
    stream: Option<CudaStream>,
) -> CopyPlan {
    match stream {
        Some(s) => CopyPlan {
            op: accepted_op(dst, src, bytes, s.handle),
            after: AfterCopy::Nothing,
        },
        None => CopyPlan {
            op: accepted_op(dst, src, bytes, 0),
            after: AfterCopy::SyncDefaultStream,
        },
    }
}

/// The plan of an accepted copy with an event behind it.
pub open spec fn async_plan(dst: MemRef, src: MemRef, bytes: usize, stream: CudaStream) -> CopyPlan {
    CopyPlan {
        op: accepted_op(dst, src, bytes, stream.handle),
        after: AfterCopy::RecordEvent { dev: stream.dev, stream: stream.handle },
    }
}

fn checked_copy(dst: &MemRef<'_>, src: &MemRef<'_>, bytes: usize, current: u32, stream: u64) -> (r:
    Result<CopyOp, LaunchError>)
    ensures
        r is Ok <==> copy_accepted(*dst, *src, bytes, current),
        r is Ok ==> r->Ok_0 == accepted_op(*dst, *src, bytes, stream),
        r is Err ==> r->Err_0 == LaunchError::Fatal,
{
    let kind = match kind_of(dst.device(), src.device()) {
        Ok(k) => k,
        Err(e) => {
            return Err(e);
        },
    };
    let policy = PeerPolicy { current_dev: current, allow_peer: true };
    match validate_peer_memref(kind, &dst.end(), &src.end(), bytes, &policy) {
        Ok(_) => Ok(
            memcpy_launch(kind, dst.ptr(), src.ptr(), bytes, dst.device(), src.device(), stream),
        ),
        Err(e) => Err(e),
    }
}

/// A blocking copy on the default stream where no stream is given, else a copy
/// that the stream orders.  `current` is the calling thread's device.
pub fn copy(
    dst: &MemRef<'_>,
    src: &MemRef<'_>,
    bytes: usize,
    stream: Option<&CudaStream>,
    current: u32,
) -> (r: Result<CopyPlan, LaunchError>)
    ensures
        r is Ok <==> copy_accepted(*dst, *src, bytes, current),
        r is Ok ==> r->Ok_0 == copy_plan(
            *dst,
            *src,
            bytes,
            match stream {
                Some(s) => Some(*s),
                None => None,
            },
        ),
        r is Err ==> r->Err_0 == LaunchError::Fatal,
{
    let (raw, after) = match stream {
        Some(s) => (s.handle, AfterCopy::Nothing),
        None => (0, AfterCopy::SyncDefaultStream),
    };
    match checked_copy(dst, src, bytes, current, raw) {
        Ok(op) => Ok(CopyPlan { op, after }),
        Err(e) => Err(e),
    }
}

/// A copy on a stream whose completion an event on that stream shows.
pub fn copy_async(
    dst: &MemRef<'_>,
    src: &MemRef<'_>,
    bytes: usize,
    stream: &CudaStream,
    current: u32,
) -> (r: Result<CopyPlan, LaunchError>)
    ensures
        r is Ok <==> copy_accepted(*dst, *src, bytes, current),
        r is Ok ==> r->Ok_0 == async_plan(*dst, *src, bytes, *stream),
        r is Err ==> r->Err_0 == LaunchError::Fatal,
{
    match checked_copy(dst, src, bytes, current, stream.handle) {
        Ok(op) => Ok(
            CopyPlan {
                op,
                after: AfterCopy::RecordEvent { dev: stream.dev, stream: stream.handle },
            },
        ),
        Err(e) => Err(e),
    }
}

/// An accepted copy never writes past the destination nor reads past the
/// source, and its destination is host memory or the calling thread's device.
pub proof fn accepted_copy_stays_in_bounds(dst: MemRef, src: MemRef, bytes: usize, current: u32)
    requires
        copy_accepted(dst, src, bytes, current),
    ensures
        bytes <= dst.end_of().len,
        bytes <= src.end_of().len,
        dst.end_of().dev is Some ==> dst.end_of().dev == Some(current),
{
}

/// Only a copy between two different devices is a peer copy, and then the
/// destination is the calling thread's device.
pub proof fn peer_copies_cross_devices(dst: MemRef, src: MemRef, bytes: usize, current: u32, stream: u64)
    requires
        copy_accepted(dst, src, bytes, current),
    ensures
        accepted_op(dst, src, bytes, stream) is Peer <==> dst.end_of().dev is Some
            && src.end_of().dev is Some && src.end_of().dev != Some(current),
{
}

} // verus!
