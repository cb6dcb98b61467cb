use std::collections::BTreeMap;
use std::ops::Deref;
use std::sync::Arc;

use starry_mm::addr::{PageSize, VirtAddrRange};
use starry_mm::backend::cow::FileRef;
use starry_mm::backend::frames::FrameTableRefCount;
use starry_mm::backend::ops::{frame_layout, Pte, Reply, Request};
use starry_mm::backend::shared::{
    SharedBackend, SharedPages, SharedPopulateState, SharedState, SharedZapState,
};
use starry_mm::backend::vm_flags::{VmFlags, VM_DONTCOPY, VM_LOCKED, VM_SHARED};
use starry_mm::backend::{Backend, BackendOps, CloneOp, MapOp, PopulateOp, UnmapOp, ZapOp};
use starry_mm::error::{AxError, AxResult, PagingError};
use starry_mm::flags::{MappingFlags, MAPPING_READ, MAPPING_USER, MAPPING_WRITE};

const RW: MappingFlags = MappingFlags { bits: MAPPING_USER | MAPPING_READ | MAPPING_WRITE };
const RO: MappingFlags = MappingFlags { bits: MAPPING_USER | MAPPING_READ };
const WRITE: MappingFlags = MappingFlags { bits: MAPPING_WRITE };
const RANGE: VirtAddrRange = VirtAddrRange { start: 0x4000, end: 0x7000 };

type Table = BTreeMap<usize, Pte>;

fn serve(table: &mut Table, req: Request) -> Reply {
    match req {
        Request::Query { vaddr } => {
            Reply::Entry(table.get(&vaddr).copied().ok_or(PagingError::NotMapped))
        }
        Request::Unmap { vaddr } => {
            Reply::Entry(table.remove(&vaddr).ok_or(PagingError::NotMapped))
        }
        Request::MapPage { vaddr, paddr, size, flags } => {
            if table.contains_key(&vaddr) {
                return Reply::Paging(Err(PagingError::AlreadyMapped));
            }
            table.insert(vaddr, Pte { paddr, flags, size });
            Reply::Paging(Ok(()))
        }
        _ => panic!("a shared mapping does not ask for this"),
    }
}

fn allocate(count: usize) -> SharedPages {
    let mut alloc = SharedPages::new(count * 0x1000, PageSize::Size4K);
    let mut next = 0x10_0000;
    while let Some(req) = alloc.request() {
        assert_eq!(
            req,
            Request::AllocFrame { zeroed: true, layout: frame_layout(PageSize::Size4K) }
        );
        alloc.resume(Reply::Frame(Ok(next)));
        next += 0x1000;
    }
    alloc.finish().unwrap()
}

fn backend(count: usize) -> SharedBackend {
    match Backend::new_shared(0x4000, Arc::new(allocate(count))) {
        Backend::Shared(b) => b,
        _ => panic!("not shared"),
    }
}

fn map(b: &SharedBackend, table: &mut Table, range: VirtAddrRange, flags: MappingFlags) -> AxResult<()> {
    let mut op = match b.map(range, flags) {
        MapOp::Shared(op) => op,
        MapOp::Ready(r) => return r,
    };
    while let Some(req) = op.request() {
        let reply = serve(table, req);
        op.resume(reply);
    }
    match op.state {
        SharedState::Done(r) => r,
        _ => panic!("not over"),
    }
}

fn unmap(b: &SharedBackend, table: &mut Table, range: VirtAddrRange) -> AxResult<()> {
    let mut op = match b.unmap(range) {
        UnmapOp::Shared(op) => op,
        _ => panic!("not a shared operation"),
    };
    while let Some(req) = op.request() {
        let reply = serve(table, req);
        op.resume(reply);
    }
    match op.state {
        SharedState::Done(r) => r,
        _ => panic!("not over"),
    }
}

fn zap(b: &SharedBackend, table: &mut Table, range: VirtAddrRange) -> AxResult<usize> {
    let mut op = match b.zap(range) {
        ZapOp::Shared(op) => op,
        _ => panic!("not a shared operation"),
    };
    while let Some(req) = op.request() {
        let reply = serve(table, req);
        op.resume(reply);
    }
    match op.state {
        SharedZapState::Done(r) => r,
        _ => panic!("not over"),
    }
}

fn populate(
    b: &SharedBackend,
    table: &mut Table,
    range: VirtAddrRange,
    flags: MappingFlags,
    access: MappingFlags,
) -> AxResult<usize> {
    let mut op = match b.populate(range, flags, access) {
        PopulateOp::Shared(op) => op,
        _ => panic!("not a shared operation"),
    };
    while let Some(req) = op.request() {
        let reply = serve(table, req);
        op.resume(reply);
    }
    match op.state {
        SharedPopulateState::Done(r) => r,
        _ => panic!("not over"),
    }
}

#[test]
fn frames_are_allocated_one_by_one() {
    let pages = allocate(3);
    assert_eq!(pages.len(), 3);
    assert!(!pages.is_empty());
    assert_eq!(pages.deref(), &[0x10_0000, 0x10_1000, 0x10_2000]);
    assert_eq!(pages.size, PageSize::Size4K);
    let (frames, layout) = pages.release();
    assert_eq!(frames, vec![0x10_0000, 0x10_1000, 0x10_2000]);
    assert_eq!(layout, frame_layout(PageSize::Size4K));
    assert!(allocate(0).is_empty());
}

#[test]
fn an_allocation_that_fails_hands_its_frames_back() {
    let mut alloc = SharedPages::new(0x60_0000, PageSize::Size2M);
    alloc.resume(Reply::Frame(Ok(0x20_0000)));
    alloc.resume(Reply::Frame(Err(AxError::NoMemory)));
    assert_eq!(alloc.request(), None);
    alloc.resume(Reply::Frame(Ok(0x40_0000)));
    let (error, pages) = alloc.finish().unwrap_err();
    assert_eq!(error, AxError::NoMemory);
    assert_eq!(pages.release(), (vec![0x20_0000], frame_layout(PageSize::Size2M)));
}

#[test]
fn mapping_takes_the_frames_in_order_and_unmapping_undoes_it() {
    let b = backend(3);
    let mut table = Table::new();
    assert_eq!(map(&b, &mut table, RANGE, RW), Ok(()));
    let entries: Vec<(usize, usize)> = table.iter().map(|(v, p)| (*v, p.paddr)).collect();
    assert_eq!(entries, vec![(0x4000, 0x10_0000), (0x5000, 0x10_1000), (0x6000, 0x10_2000)]);
    assert!(table.values().all(|p| p.flags == RW && p.size == PageSize::Size4K));
    assert_eq!(unmap(&b, &mut table, RANGE), Ok(()));
    assert!(table.is_empty());
}

#[test]
fn mapping_ends_with_the_last_frame() {
    let b = backend(2);
    let mut table = Table::new();
    assert_eq!(map(&b, &mut table, RANGE, RW), Ok(()));
    assert_eq!(table.len(), 2);
    let behind = VirtAddrRange { start: 0x6000, end: 0x7000 };
    assert_eq!(map(&b, &mut table, behind, RW), Ok(()));
    assert_eq!(table.len(), 2);
    assert_eq!(b.pages_starting_from(0x5000), &[0x10_1000]);
    assert_eq!(b.pages_starting_from(0x6000), &[] as &[usize]);
    assert_eq!(b.start_index(0x5000), 1);
}

#[test]
fn shared_errors() {
    let b = backend(3);
    let mut table = Table::new();
    let bad = VirtAddrRange { start: 0x4001, end: 0x7000 };
    assert_eq!(map(&b, &mut table, bad, RW), Err(AxError::InvalidInput));
    assert_eq!(unmap(&b, &mut table, bad), Err(AxError::InvalidInput));
    assert_eq!(zap(&b, &mut table, bad), Err(AxError::InvalidInput));
    assert_eq!(populate(&b, &mut table, bad, RW, WRITE), Err(AxError::InvalidInput));
    // A page without an entry ends unmapping, and one with an entry ends mapping.
    assert_eq!(unmap(&b, &mut table, RANGE), Err(AxError::InvalidInput));
    table.insert(0x5000, Pte { paddr: 0x9000, flags: RW, size: PageSize::Size4K });
    assert_eq!(map(&b, &mut table, RANGE, RW), Err(AxError::InvalidInput));
    assert_eq!(table.len(), 2);
}

#[test]
fn a_broken_entry_ends_populating() {
    let b = backend(1);
    let mut op = match b.populate(VirtAddrRange { start: 0x4000, end: 0x5000 }, RW, WRITE) {
        PopulateOp::Shared(op) => op,
        _ => panic!("not a shared operation"),
    };
    op.resume(Reply::Entry(Err(PagingError::MappedToHugePage)));
    assert_eq!(op.state, SharedPopulateState::Done(Err(AxError::BadAddress)));
    assert_eq!(op.request(), None);
}

#[test]
fn zapped_pages_come_back_with_the_same_frames() {
    let b = backend(3);
    let mut table = Table::new();
    assert_eq!(map(&b, &mut table, RANGE, RW), Ok(()));
    let before = table.clone();
    let two = VirtAddrRange { start: 0x4000, end: 0x6000 };
    assert_eq!(zap(&b, &mut table, two), Ok(2));
    assert_eq!(zap(&b, &mut table, RANGE), Ok(1));
    assert_eq!(populate(&b, &mut table, RANGE, RW, WRITE), Ok(3));
    assert_eq!(table, before);
}

#[test]
fn populating_counts_pages_that_satisfy_the_access() {
    let b = backend(3);
    let mut table = Table::new();
    table.insert(0x4000, Pte { paddr: 0x10_0000, flags: RO, size: PageSize::Size4K });
    assert_eq!(populate(&b, &mut table, RANGE, RW, WRITE), Ok(2));
    assert_eq!(table.len(), 3);
    table.clear();
    assert_eq!(populate(&b, &mut table, RANGE, RO, WRITE), Ok(0));
    assert_eq!(table.len(), 3);
}

#[test]
fn a_shared_duplicate_has_the_same_frames() {
    let b = backend(2);
    let mut frames = FrameTableRefCount::new();
    let other = match b.clone_map(RANGE, RW, &mut frames) {
        CloneOp::Ready(Backend::Shared(other)) => other,
        _ => panic!("not shared"),
    };
    assert!(Arc::ptr_eq(b.pages(), other.pages()));
    assert_eq!(other.start, 0x4000);
    assert_eq!(other.vm_flags().bits(), VM_SHARED);
}

#[test]
fn backends_dispatch_to_their_kind() {
    let shared = Backend::Shared(backend(3));
    let alloc = Backend::new_alloc(0x4000, PageSize::Size2M);
    let linear = Backend::new_linear(-0x1000);
    let file = Backend::new_file(0x4000, FileRef { id: 3 }, 0x2000);
    let mut frames = FrameTableRefCount::new();
    assert!(matches!(shared.map(0x4000, 0x3000, RW), Some(MapOp::Shared(_))));
    assert!(matches!(shared.unmap(0x4000, 0x3000), Some(UnmapOp::Shared(_))));
    assert!(matches!(shared.populate(RANGE, RW, WRITE), Some(PopulateOp::Shared(_))));
    assert!(matches!(shared.zap(RANGE), Some(ZapOp::Shared(_))));
    assert!(matches!(shared.clone_map(RANGE, RW, &mut frames), Some(CloneOp::Ready(_))));
    assert_eq!(shared.page_size(), Some(PageSize::Size4K));
    assert!(matches!(alloc.map(0x4000, 0x3000, RW), Some(MapOp::Ready(Ok(())))));
    assert!(matches!(alloc.unmap(0, 0x20_0000), Some(UnmapOp::Cow(_))));
    assert!(matches!(alloc.populate(RANGE, RW, WRITE), Some(PopulateOp::Cow(_))));
    assert!(matches!(alloc.zap(RANGE), Some(ZapOp::Cow(_))));
    assert!(matches!(alloc.clone_map(RANGE, RW, &mut frames), Some(CloneOp::Cow(_))));
    assert_eq!(alloc.page_size(), Some(PageSize::Size2M));
    for b in [&shared, &alloc] {
        assert_eq!(b.protect(0x4000, 0x1000, RO), Some(Ok(())));
        assert_eq!(b.sync(RANGE), Some(Ok(())));
    }
    for b in [&linear, &file] {
        assert!(b.map(0x4000, 0x1000, RW).is_none());
        assert!(b.unmap(0x4000, 0x1000).is_none());
        assert!(b.populate(RANGE, RW, WRITE).is_none());
        assert!(b.zap(RANGE).is_none());
        assert!(b.clone_map(RANGE, RW, &mut frames).is_none());
        assert_eq!(b.protect(0x4000, 0x1000, RO), None);
        assert_eq!(b.page_size(), None);
        assert!(b.vm_flags().is_none());
    }
}

#[test]
fn metadata_flags_through_a_backend() {
    let mut b = Backend::Shared(backend(1));
    assert_eq!(b.set_vm_flags(VmFlags { bits: VM_LOCKED | VM_DONTCOPY }, true), Some(()));
    assert_eq!(b.set_vm_flags(VmFlags { bits: VM_LOCKED }, false), Some(()));
    assert_eq!(b.vm_flags().unwrap().bits(), VM_SHARED | VM_DONTCOPY);
    let copy = b.clone();
    assert_eq!(copy.vm_flags().unwrap().bits(), VM_SHARED | VM_DONTCOPY);
    let mut linear = Backend::new_linear(0);
    assert_eq!(linear.set_vm_flags(VmFlags { bits: VM_LOCKED }, true), None);
}
