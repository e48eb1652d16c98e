//! Checks on the two ends of a copy, before any of it is started.

use vstd::prelude::*;

use crate::error::LaunchError;

verus! {

/// Direction of a copy.
#[derive(Debug, Clone, Copy, PartialEq, Eq, Structural)]
pub enum MemcpyKind {
    /// Host to device.
    H2D,
    /// Device to host.
    D2H,
    /// Device to device.
    D2D,
}

/// One end of a copy.
#[derive(Debug, Clone, Copy, PartialEq, Eq, Structural)]
pub struct MemRefEnd {
    pub offset: usize,
    pub len: usize,
    /// The device that holds this end; `None` for host memory.
    pub dev: Option<u32>,
}

/// The calling thread's device, and what it may reach beyond it.
#[derive(Debug, Clone, Copy, PartialEq, Eq, Structural)]
pub struct PeerPolicy {
    pub current_dev: u32,
    pub allow_peer: bool,
}

/// Whether each end is on the side that the direction names.
pub open spec fn direction_matches(kind: MemcpyKind, dst: MemRefEnd, src: MemRefEnd) -> bool {
    match kind {
        MemcpyKind::H2D => dst.dev is Some && src.dev is None,
        MemcpyKind::D2H => dst.dev is None && src.dev is Some,
        MemcpyKind::D2D => dst.dev is Some && src.dev is Some,
    }
}

impl MemRefEnd {
    /// Whether `bytes` from the offset on lie within the end.
    pub open spec fn holds(self, bytes: usize) -> bool {
        self.offset + bytes <= self.len
    }

    /// Whether the end is host memory or memory of the given device.
    pub open spec fn owned_by(self, dev: u32) -> bool {
        self.dev is Some ==> self.dev == Some(dev)
    }
}

/// A copy that stays within what the calling thread owns: the direction is
/// right, both ends hold the bytes, and both belong to the thread's device.
pub open spec fn copy_is_valid(
    kind: MemcpyKind,
    dst: MemRefEnd,
    src: MemRefEnd,
    bytes: usize,
    policy: PeerPolicy,
) -> bool {
    &&& direction_matches(kind, dst, src)
    &&& dst.holds(bytes)
    &&& src.holds(bytes)
    &&& dst.owned_by(policy.current_dev)
    &&& src.owned_by(policy.current_dev)
}

/// A copy that may also read from a peer: as `copy_is_valid`, but where the
/// policy allows it a device-to-device copy may have its source elsewhere.
pub open spec fn peer_copy_is_valid(
    kind: MemcpyKind,
    dst: MemRefEnd,
    src: MemRefEnd,
    bytes: usize,
    policy: PeerPolicy,
) -> bool {
    &&& direction_matches(kind, dst, src)
    &&& dst.holds(bytes)
    &&& src.holds(bytes)
    &&& dst.owned_by(policy.current_dev)
    &&& src.owned_by(policy.current_dev) || (kind == MemcpyKind::D2D && policy.allow_peer)
}

fn check_direction(kind: MemcpyKind, dst: &MemRefEnd, src: &MemRefEnd) -> (b: bool)
    ensures
        b == direction_matches(kind, *dst, *src),
{
    match kind {
        MemcpyKind::H2D => dst.dev.is_some() && src.dev.is_none(),
        MemcpyKind::D2H => dst.dev.is_none() && src.dev.is_some(),
        MemcpyKind::D2D => dst.dev.is_some() && src.dev.is_some(),
    }
}

fn check_bounds(end: &MemRefEnd, bytes: usize) -> (b: bool)
    ensures
        b == end.holds(bytes),
{
    match end.offset.checked_add(bytes) {
        Some(stop) => stop <= end.len,
        None => false,
    }
}

fn check_owner(end: &MemRefEnd, dev: u32) -> (b: bool)
    ensures
        b == end.owned_by(dev),
{
    match end.dev {
        Some(d) => d == dev,
        None => true,
    }
}

/// Checks a copy that may not leave the calling thread's device.  Every
/// violation is `Fatal`.
pub fn validate_memref(
    kind: MemcpyKind,
    dst: &MemRefEnd,
    src: &MemRefEnd,
    bytes: usize,
    policy: &PeerPolicy,
) -> (r: Result<(), LaunchError>)
    ensures
        r is Ok <==> copy_is_valid(kind, *dst, *src, bytes, *policy),
        r is Err ==> r->Err_0 == LaunchError::Fatal,
{
    if check_direction(kind, dst, src) && check_bounds(dst, bytes) && check_bounds(src, bytes)
        && check_owner(dst, policy.current_dev) && check_owner(src, policy.current_dev) {
        Ok(())
    } else {
        Err(LaunchError::Fatal)
    }
}

/// Checks a copy whose source may be a peer of the calling thread's device.
/// Every violation is `Fatal`.
pub fn validate_peer_memref(
    kind: MemcpyKind,
    dst: &MemRefEnd,
    src: &MemRefEnd,
    bytes: usize,
    policy: &PeerPolicy,
) -> (r: Result<(), LaunchError>)
    ensures
        r is Ok <==> peer_copy_is_valid(kind, *dst, *src, bytes, *policy),
        r is Err ==> r->Err_0 == LaunchError::Fatal,
{
    if check_direction(kind, dst, src) && check_bounds(dst, bytes) && check_bounds(src, bytes)
        && check_owner(dst, policy.current_dev) && (check_owner(src, policy.current_dev) || (kind
        == MemcpyKind::D2D && policy.allow_peer)) {
        Ok(())
    } else {
        Err(LaunchError::Fatal)
    }
}

/// A valid copy between two devices is a copy within one device: whatever the
/// policy says of peers, both ends belong to the calling thread's device.
pub proof fn valid_device_copy_stays_on_device(
    dst: MemRefEnd,
    src: MemRefEnd,
    bytes: usize,
    policy: PeerPolicy,
)
    requires
        copy_is_valid(MemcpyKind::D2D, dst, src, bytes, policy),
    ensures
        dst.dev == src.dev,
        dst.dev == Some(policy.current_dev),
{
}

/// What the strict check accepts the peer check accepts, and without the leave
/// to reach a peer the two are one check.
pub proof fn peer_check_extends_strict_check(
    kind: MemcpyKind,
    dst: MemRefEnd,
    src: MemRefEnd,
    bytes: usize,
    policy: PeerPolicy,
)
    ensures
        copy_is_valid(kind, dst, src, bytes, policy) ==> peer_copy_is_valid(
            kind,
            dst,
            src,
            bytes,
            policy,
        ),
        !policy.allow_peer ==> peer_copy_is_valid(kind, dst, src, bytes, policy) == copy_is_valid(
            kind,
            dst,
            src,
            bytes,
            policy,
        ),
{
}

} // verus!
