use std::collections::HashMap;

use reinfer_cuda::buffer::{
    copy, copy_async, kind_of, peer_access, AfterCopy, CopyOp, CopyPlan, DeviceBuffer, DeviceId,
    HostBuffer, MemRef,
};
use reinfer_cuda::buffer_check::{validate_memref, MemRefEnd, MemcpyKind, PeerPolicy};
use reinfer_cuda::decode::KvStore;
use reinfer_cuda::error::{LaunchError, CUDA_ERROR_MEMORY_ALLOCATION, CUDA_SUCCESS};
use reinfer_cuda::launch::CudaStream;

const CUR: u32 = 0;
const OTHER: u32 = 1;

fn end(off: usize, len: usize, dev: Option<u32>) -> MemRefEnd {
    MemRefEnd { offset: off, len, dev }
}

fn policy(allow_peer: bool) -> PeerPolicy {
    PeerPolicy { current_dev: CUR, allow_peer }
}

fn ok(kind: MemcpyKind, dst: Option<u32>, src: Option<u32>) -> bool {
    validate_memref(kind, &end(0, 16, dst), &end(0, 16, src), 16, &policy(false)).is_ok()
}

#[test]
fn direction_matching() {
    assert!(ok(MemcpyKind::H2D, Some(CUR), None));
    assert!(ok(MemcpyKind::D2H, None, Some(CUR)));
    assert!(ok(MemcpyKind::D2D, Some(CUR), Some(CUR)));
    assert!(!ok(MemcpyKind::H2D, None, None));
    assert!(!ok(MemcpyKind::H2D, Some(CUR), Some(CUR)));
    assert!(!ok(MemcpyKind::D2H, Some(CUR), None));
    assert!(!ok(MemcpyKind::D2D, None, Some(CUR)));
}

#[test]
fn bounds_and_overflow() {
    let dev = Some(CUR);
    assert!(validate_memref(
        MemcpyKind::D2D,
        &end(8, 16, dev),
        &end(8, 16, dev),
        8,
        &policy(false)
    )
    .is_ok());
    assert!(validate_memref(
        MemcpyKind::D2D,
        &end(9, 16, dev),
        &end(0, 16, dev),
        8,
        &policy(false)
    )
    .is_err());
    assert!(validate_memref(
        MemcpyKind::D2D,
        &end(usize::MAX, 16, dev),
        &end(0, 16, dev),
        16,
        &policy(false)
    )
    .is_err());
}

#[test]
fn device_ownership_and_cross_device() {
    assert!(validate_memref(
        MemcpyKind::D2D,
        &end(0, 16, Some(OTHER)),
        &end(0, 16, Some(OTHER)),
        1,
        &policy(false)
    )
    .is_err());
    assert!(validate_memref(
        MemcpyKind::D2D,
        &end(0, 16, Some(CUR)),
        &end(0, 16, Some(OTHER)),
        1,
        &policy(false)
    )
    .is_err());
    assert!(validate_memref(
        MemcpyKind::D2D,
        &end(0, 16, Some(CUR)),
        &end(0, 16, Some(CUR)),
        1,
        &policy(true)
    )
    .is_ok());
}

#[test]
fn zero_length_is_legal() {
    assert!(validate_memref(
        MemcpyKind::D2D,
        &end(16, 16, Some(CUR)),
        &end(16, 16, Some(CUR)),
        0,
        &policy(false)
    )
    .is_ok());
}

const ONE_MIB: usize = 1 << 20;

/// Memory by address, for copies that are planned and then carried out.
struct Memory {
    at: HashMap<u64, Vec<u8>>,
}

impl Memory {
    fn run(&mut self, plan: &CopyPlan) {
        let (dst, src, bytes) = match plan.op {
            CopyOp::Direct { dst, src, bytes, .. } => (dst, src, bytes),
            CopyOp::Peer { dst, src, bytes, .. } => (dst, src, bytes),
        };
        let from = self.at[&src][..bytes].to_vec();
        self.at.get_mut(&dst).unwrap()[..bytes].copy_from_slice(&from);
    }
}

fn filled(seed: u8) -> Vec<u8> {
    (0..ONE_MIB).map(|i| seed.wrapping_add(i as u8)).collect()
}

fn dbuf(dev: u32, ptr: u64) -> DeviceBuffer {
    DeviceBuffer::allocate(DeviceId::new(dev), ONE_MIB, CUDA_SUCCESS, ptr).unwrap()
}

fn hbuf(ptr: u64) -> HostBuffer {
    HostBuffer::allocate(ONE_MIB, CUDA_SUCCESS, ptr).unwrap()
}

fn memory(seed: u8) -> Memory {
    let mut at = HashMap::new();
    at.insert(0x10, filled(seed));
    for p in [0x20, 0x30, 0x40] {
        at.insert(p, vec![0; ONE_MIB]);
    }
    Memory { at }
}

#[test]
fn memcpy_roundtrip_sync() {
    let (src, out) = (hbuf(0x10), hbuf(0x40));
    let (d1, d2) = (dbuf(0, 0x20), dbuf(0, 0x30));
    let mut mem = memory(0xA5);
    let h2d = copy(&MemRef::Device(&d1), &MemRef::Host(&src), ONE_MIB, None, 0).expect("h2d");
    let d2d = copy(&MemRef::Device(&d2), &MemRef::Device(&d1), ONE_MIB, None, 0).expect("d2d");
    let d2h = copy(&MemRef::Host(&out), &MemRef::Device(&d2), ONE_MIB, None, 0).expect("d2h");
    for p in [&h2d, &d2d, &d2h] {
        assert_eq!(p.after, AfterCopy::SyncDefaultStream);
        mem.run(p);
    }
    assert_eq!(mem.at[&0x40], filled(0xA5), "sync roundtrip mismatch");
    assert_eq!(
        h2d.op,
        CopyOp::Direct { kind: MemcpyKind::H2D, dst: 0x20, src: 0x10, bytes: ONE_MIB, stream: 0 }
    );
}

#[test]
fn memcpy_roundtrip_async() {
    let stream = CudaStream { dev: 0, handle: 7 };
    let (src, out) = (hbuf(0x10), hbuf(0x40));
    let (d1, d2) = (dbuf(0, 0x20), dbuf(0, 0x30));
    let mut mem = memory(0x5A);
    let e1 = copy_async(&MemRef::Device(&d1), &MemRef::Host(&src), ONE_MIB, &stream, 0)
        .expect("h2d");
    let e2 = copy_async(&MemRef::Device(&d2), &MemRef::Device(&d1), ONE_MIB, &stream, 0)
        .expect("d2d");
    let e3 = copy_async(&MemRef::Host(&out), &MemRef::Device(&d2), ONE_MIB, &stream, 0)
        .expect("d2h");
    for e in [&e1, &e2, &e3] {
        assert_eq!(e.after, AfterCopy::RecordEvent { dev: 0, stream: 7 });
        mem.run(e);
    }
    assert_eq!(mem.at[&0x40], filled(0x5A), "async roundtrip mismatch");
}

#[test]
fn memcpy_peer_d2d_when_available() {
    let (d0, d1) = (dbuf(0, 0x20), dbuf(1, 0x30));
    let mut mem = memory(0);
    mem.at.insert(0x20, filled(3));
    let p = copy(&MemRef::Device(&d1), &MemRef::Device(&d0), ONE_MIB, None, 1).expect("peer d2d");
    assert_eq!(
        p.op,
        CopyOp::Peer {
            dst: 0x30,
            dst_dev: 1,
            src: 0x20,
            src_dev: 0,
            bytes: ONE_MIB,
            stream: 0
        }
    );
    assert_eq!(peer_access(1), Ok(()));
    assert_eq!(peer_access(0), Err(LaunchError::Fatal));
    mem.run(&p);
    assert_eq!(mem.at[&0x30], filled(3));
    // not from a thread that is bound to the source's device
    let e = copy(&MemRef::Device(&d1), &MemRef::Device(&d0), ONE_MIB, None, 0);
    assert_eq!(e, Err(LaunchError::Fatal));
}

#[test]
fn alloc_overflow_is_oom() {
    let err = DeviceBuffer::allocate(DeviceId::new(0), ONE_MIB, CUDA_ERROR_MEMORY_ALLOCATION, 0)
        .expect_err("must fail");
    assert_eq!(err, LaunchError::Oom, "expected Oom for over-size alloc");
    assert_eq!(
        HostBuffer::allocate(ONE_MIB, CUDA_ERROR_MEMORY_ALLOCATION, 0),
        Err(LaunchError::Oom)
    );
}

#[test]
fn copies_are_bounded_and_directed() {
    let (h, d) = (hbuf(1), dbuf(0, 2));
    let too_many = copy(&MemRef::Device(&d), &MemRef::Host(&h), ONE_MIB + 1, None, 0);
    assert_eq!(too_many, Err(LaunchError::Fatal));
    let host_only = copy(&MemRef::Host(&h), &MemRef::Host(&h), 1, None, 0);
    assert_eq!(host_only, Err(LaunchError::Fatal));
    assert_eq!(kind_of(None, None), Err(LaunchError::Fatal));
    assert_eq!(kind_of(Some(1), Some(2)), Ok(MemcpyKind::D2D));
    let s = CudaStream { dev: 0, handle: 9 };
    let p = copy(&MemRef::Host(&h), &MemRef::Device(&d), 4, Some(&s), 0).unwrap();
    assert_eq!(p.after, AfterCopy::Nothing);
    assert_eq!(
        p.op,
        CopyOp::Direct { kind: MemcpyKind::D2H, dst: 1, src: 2, bytes: 4, stream: 9 }
    );
    assert!(!MemRef::Host(&h).is_empty());
    assert_eq!(MemRef::Device(&d).device(), Some(0));
    assert_eq!(d.device(), DeviceId::new(0));
    assert_eq!((d.as_ptr(), d.size()), (2, ONE_MIB));
}

#[test]
fn kv_regions_share_the_store() {
    let size = KvStore::alloc_size(28 * 64, 32, 8, 128).unwrap();
    assert_eq!(size, 28 * 64 * 32 * 8 * 128 * 4);
    let data = DeviceBuffer::allocate(DeviceId::new(0), size, CUDA_SUCCESS, 0x1000).unwrap();
    let kv = KvStore::allocate(data, 28 * 64, 32);
    assert_eq!(kv.k_ptr(), 0x1000);
    assert_eq!(kv.v_ptr(), 0x1000 + size as u64 / 2);
    assert_eq!(KvStore::alloc_size(usize::MAX, 32, 8, 128), None);
}
