use std::collections::BTreeMap;

use starry_mm::addr::{PageSize, VirtAddrRange};
use starry_mm::backend::cow::clone::{CloneState, CowClone};
use starry_mm::backend::cow::populate::{CowPopulate, PopulateState};
use starry_mm::backend::cow::unmap::{CowUnmap, UnmapState};
use starry_mm::backend::cow::zap::{CowZap, ZapState};
use starry_mm::backend::cow::{CowBackend, CowFile, FileRef};
use starry_mm::backend::frames::FrameTableRefCount;
use starry_mm::backend::ops::{FileRead, Pte, Reply, Request};
use starry_mm::backend::vm_flags::{VmFlags, VM_DONTCOPY, VM_LOCKED};
use starry_mm::backend::{Backend, BackendOps, CloneOp, MapOp, PopulateOp, UnmapOp, ZapOp};
use starry_mm::error::{AxError, AxResult, PagingError};
use starry_mm::flags::{MappingFlags, MAPPING_READ, MAPPING_USER, MAPPING_WRITE};

const RW: MappingFlags = MappingFlags { bits: MAPPING_USER | MAPPING_READ | MAPPING_WRITE };
const RO: MappingFlags = MappingFlags { bits: MAPPING_USER | MAPPING_READ };
const READ: MappingFlags = MappingFlags { bits: MAPPING_READ };
const WRITE: MappingFlags = MappingFlags { bits: MAPPING_READ | MAPPING_WRITE };

/// Page tables and frames for the operations to work on.
struct Machine {
    table: BTreeMap<usize, Pte>,
    new_table: BTreeMap<usize, Pte>,
    next_frame: usize,
    contents: BTreeMap<usize, String>,
    reads: Vec<FileRead>,
    freed: Vec<usize>,
    fail: Option<(Request, Reply)>,
}

impl Machine {
    fn new() -> Self {
        Machine {
            table: BTreeMap::new(),
            new_table: BTreeMap::new(),
            next_frame: 0x10_0000,
            contents: BTreeMap::new(),
            reads: Vec::new(),
            freed: Vec::new(),
            fail: None,
        }
    }

    fn serve(&mut self, req: Request) -> Reply {
        if let Some((r, reply)) = self.fail {
            if r == req {
                return reply;
            }
        }
        match req {
            Request::Query { vaddr } => {
                Reply::Entry(self.table.get(&vaddr).copied().ok_or(PagingError::NotMapped))
            }
            Request::Unmap { vaddr } => {
                Reply::Entry(self.table.remove(&vaddr).ok_or(PagingError::NotMapped))
            }
            Request::MapPage { vaddr, paddr, size, flags } => {
                if self.table.contains_key(&vaddr) {
                    return Reply::Paging(Err(PagingError::AlreadyMapped));
                }
                self.table.insert(vaddr, Pte { paddr, flags, size });
                Reply::Paging(Ok(()))
            }
            Request::MapNew { vaddr, paddr, size, flags } => {
                if self.new_table.contains_key(&vaddr) {
                    return Reply::Paging(Err(PagingError::AlreadyMapped));
                }
                self.new_table.insert(vaddr, Pte { paddr, flags, size });
                Reply::Paging(Ok(()))
            }
            Request::Protect { vaddr, flags } => match self.table.get_mut(&vaddr) {
                Some(pte) => {
                    pte.flags = flags;
                    Reply::Paging(Ok(()))
                }
                None => Reply::Paging(Err(PagingError::NotMapped)),
            },
            Request::Remap { vaddr, paddr, flags } => match self.table.get_mut(&vaddr) {
                Some(pte) => {
                    pte.paddr = paddr;
                    pte.flags = flags;
                    Reply::Paging(Ok(()))
                }
                None => Reply::Paging(Err(PagingError::NotMapped)),
            },
            Request::AllocFrame { zeroed, layout } => {
                let frame = self.next_frame;
                self.next_frame += layout.align;
                self.contents.insert(frame, if zeroed { "zero" } else { "?" }.to_string());
                Reply::Frame(Ok(frame))
            }
            Request::FreeFrame { paddr, .. } => {
                self.contents.remove(&paddr);
                self.freed.push(paddr);
                Reply::Done
            }
            Request::CopyFrame { from, to, .. } => {
                let data = self.contents[&from].clone();
                self.contents.insert(to, data);
                Reply::Done
            }
            Request::ReadFile { frame, read } => {
                self.contents.insert(frame, "file".to_string());
                self.reads.push(read);
                Reply::File(Ok(()))
            }
        }
    }
}

fn populate(op: PopulateOp, m: &mut Machine, f: &mut FrameTableRefCount) -> AxResult<usize> {
    let mut op: CowPopulate = match op {
        PopulateOp::Cow(op) => op,
        _ => panic!("not a copy-on-write operation"),
    };
    while let Some(req) = op.request() {
        let reply = m.serve(req);
        op.resume(reply, f);
    }
    match op.state {
        PopulateState::Done(r) => r,
        _ => panic!("not over"),
    }
}

fn unmap(op: UnmapOp, m: &mut Machine, f: &mut FrameTableRefCount) -> AxResult<()> {
    let mut op: CowUnmap = match op {
        UnmapOp::Cow(op) => op,
        _ => panic!("not a copy-on-write operation"),
    };
    while let Some(req) = op.request() {
        let reply = m.serve(req);
        op.resume(reply, f);
    }
    match op.state {
        UnmapState::Done(r) => r,
        _ => panic!("not over"),
    }
}

fn zap(op: ZapOp, m: &mut Machine, f: &mut FrameTableRefCount) -> AxResult<usize> {
    let mut op: CowZap = match op {
        ZapOp::Cow(op) => op,
        _ => panic!("not a copy-on-write operation"),
    };
    while let Some(req) = op.request() {
        let reply = m.serve(req);
        op.resume(reply, f);
    }
    match op.state {
        ZapState::Done(r) => r,
        _ => panic!("not over"),
    }
}

fn clone(op: CloneOp, m: &mut Machine, f: &mut FrameTableRefCount) -> AxResult<()> {
    let mut op: CowClone = match op {
        CloneOp::Cow(op) => op,
        _ => panic!("not a copy-on-write operation"),
    };
    while let Some(req) = op.request() {
        let reply = m.serve(req);
        op.resume(reply, f);
    }
    match op.state {
        CloneState::Done(r) => r,
        _ => panic!("not over"),
    }
}

fn anonymous() -> CowBackend {
    match Backend::new_alloc(0x1000, PageSize::Size4K) {
        Backend::Cow(b) => b,
        _ => panic!("not copy-on-write"),
    }
}

const RANGE: VirtAddrRange = VirtAddrRange { start: 0x1000, end: 0x4000 };

#[test]
fn mapping_does_nothing_at_once() {
    let b = anonymous();
    assert!(matches!(b.map(RANGE, RW), MapOp::Ready(Ok(()))));
    assert_eq!(b.page_size(), PageSize::Size4K);
    assert_eq!(b.on_protect(RANGE, RO), Ok(()));
    assert_eq!(b.sync(RANGE), Ok(()));
}

#[test]
fn populate_maps_zeroed_frames() {
    let (mut m, mut f) = (Machine::new(), FrameTableRefCount::new());
    let b = anonymous();
    assert_eq!(populate(b.populate(RANGE, RW, READ), &mut m, &mut f), Ok(3));
    assert_eq!(m.table.len(), 3);
    for pte in m.table.values() {
        assert_eq!(pte.flags, RW);
        assert_eq!(m.contents[&pte.paddr], "zero");
        assert_eq!(f.get_frame_ref(pte.paddr), Some(1));
    }
    let before = m.table.clone();
    assert_eq!(populate(b.populate(RANGE, RW, WRITE), &mut m, &mut f), Ok(3));
    assert_eq!(m.table, before);
}

#[test]
fn populate_counts_pages_that_satisfy_the_access() {
    let (mut m, mut f) = (Machine::new(), FrameTableRefCount::new());
    let b = anonymous();
    assert_eq!(populate(b.populate(RANGE, RO, WRITE), &mut m, &mut f), Ok(0));
    assert_eq!(m.table.len(), 3);
    assert_eq!(populate(b.populate(RANGE, RO, READ), &mut m, &mut f), Ok(3));
}

#[test]
fn unmap_undoes_populate() {
    let (mut m, mut f) = (Machine::new(), FrameTableRefCount::new());
    let b = anonymous();
    assert_eq!(populate(b.populate(RANGE, RW, READ), &mut m, &mut f), Ok(3));
    let frames: Vec<usize> = m.table.values().map(|p| p.paddr).collect();
    let middle = VirtAddrRange { start: 0x2000, end: 0x3000 };
    assert_eq!(unmap(b.unmap(middle), &mut m, &mut f), Ok(()));
    assert_eq!(m.table.keys().copied().collect::<Vec<_>>(), vec![0x1000, 0x3000]);
    assert_eq!(unmap(b.unmap(RANGE), &mut m, &mut f), Ok(()));
    assert!(m.table.is_empty());
    assert_eq!(m.freed, vec![frames[1], frames[0], frames[2]]);
    for p in frames {
        assert_eq!(f.get_frame_ref(p), None);
    }
}

#[test]
fn zap_counts_and_the_range_can_be_populated_again() {
    let (mut m, mut f) = (Machine::new(), FrameTableRefCount::new());
    let b = anonymous();
    let first = VirtAddrRange { start: 0x1000, end: 0x3000 };
    assert_eq!(populate(b.populate(first, RW, READ), &mut m, &mut f), Ok(2));
    assert_eq!(zap(b.zap(RANGE), &mut m, &mut f), Ok(2));
    assert_eq!(zap(b.zap(RANGE), &mut m, &mut f), Ok(0));
    assert_eq!(m.freed.len(), 2);
    assert_eq!(populate(b.populate(RANGE, RW, READ), &mut m, &mut f), Ok(3));
}

#[test]
fn zap_passes_uncounted_frames_and_unmap_refuses_them() {
    let (mut m, mut f) = (Machine::new(), FrameTableRefCount::new());
    let b = anonymous();
    m.table.insert(0x2000, Pte { paddr: 0x9000, flags: RW, size: PageSize::Size4K });
    assert_eq!(zap(b.zap(RANGE), &mut m, &mut f), Ok(1));
    assert!(m.freed.is_empty());
    m.table.insert(0x2000, Pte { paddr: 0x9000, flags: RW, size: PageSize::Size4K });
    assert_eq!(unmap(b.unmap(RANGE), &mut m, &mut f), Err(AxError::BadAddress));
}

#[test]
fn clone_shares_and_a_write_copies() {
    let (mut m, mut f) = (Machine::new(), FrameTableRefCount::new());
    let b = anonymous();
    let mapped = VirtAddrRange { start: 0x1000, end: 0x3000 };
    assert_eq!(populate(b.populate(mapped, RW, WRITE), &mut m, &mut f), Ok(2));
    let before = m.table.clone();
    let op = b.clone_map(RANGE, RW, &mut f);
    assert_eq!(clone(op, &mut m, &mut f), Ok(()));
    assert_eq!(m.table, m.new_table);
    for (v, pte) in &m.table {
        assert_eq!(pte.paddr, before[v].paddr);
        assert_eq!(pte.flags, RO);
        assert_eq!(f.get_frame_ref(pte.paddr), Some(2));
    }
    // A read leaves the sharing alone.
    assert_eq!(populate(b.populate(mapped, RW, READ), &mut m, &mut f), Ok(2));
    assert_eq!(m.table, m.new_table);
    // The first writer gets a copy.
    let shared = m.table[&0x1000].paddr;
    m.contents.insert(shared, "data".to_string());
    let page = VirtAddrRange { start: 0x1000, end: 0x2000 };
    assert_eq!(populate(b.populate(page, RW, WRITE), &mut m, &mut f), Ok(1));
    let own = m.table[&0x1000].paddr;
    assert_ne!(own, shared);
    assert_eq!(m.contents[&own], "data");
    assert_eq!(m.table[&0x1000].flags, RW);
    assert_eq!(m.new_table[&0x1000].paddr, shared);
    assert_eq!(m.new_table[&0x1000].flags, RO);
    assert_eq!((f.get_frame_ref(own), f.get_frame_ref(shared)), (Some(1), Some(1)));
    // The last one takes the frame as it is.
    let mut other = Machine::new();
    other.table = m.new_table.clone();
    assert_eq!(populate(b.populate(page, RW, WRITE), &mut other, &mut f), Ok(1));
    assert_eq!(other.table[&0x1000].paddr, shared);
    assert_eq!(other.table[&0x1000].flags, RW);
}

#[test]
fn a_write_is_not_seen_by_the_duplicate() {
    let (mut m, mut f) = (Machine::new(), FrameTableRefCount::new());
    let b = anonymous();
    let page = VirtAddrRange { start: 0x1000, end: 0x2000 };
    assert_eq!(populate(b.populate(page, RW, WRITE), &mut m, &mut f), Ok(1));
    m.contents.insert(m.table[&0x1000].paddr, "before".to_string());
    let op = b.clone_map(page, RW, &mut f);
    assert_eq!(clone(op, &mut m, &mut f), Ok(()));
    assert_eq!(m.contents[&m.new_table[&0x1000].paddr], "before");
    assert_eq!(populate(b.populate(page, RW, WRITE), &mut m, &mut f), Ok(1));
    m.contents.insert(m.table[&0x1000].paddr, "after".to_string());
    assert_eq!(m.contents[&m.table[&0x1000].paddr], "after");
    assert_eq!(m.contents[&m.new_table[&0x1000].paddr], "before");
}

#[test]
fn populating_again_changes_nothing() {
    let (mut m, mut f) = (Machine::new(), FrameTableRefCount::new());
    let b = anonymous();
    let page = VirtAddrRange { start: 0x1000, end: 0x2000 };
    assert_eq!(populate(b.populate(page, RW, WRITE), &mut m, &mut f), Ok(1));
    let op = b.clone_map(RANGE, RW, &mut f);
    assert_eq!(clone(op, &mut m, &mut f), Ok(()));
    assert_eq!(populate(b.populate(RANGE, RW, WRITE), &mut m, &mut f), Ok(3));
    let (table, contents, next) = (m.table.clone(), m.contents.clone(), m.next_frame);
    assert_eq!(populate(b.populate(RANGE, RW, WRITE), &mut m, &mut f), Ok(3));
    assert_eq!((m.table, m.contents, m.next_frame), (table.clone(), contents, next));
    for pte in table.values() {
        assert_eq!(f.get_frame_ref(pte.paddr), Some(1));
    }
    assert!(m.freed.is_empty());
}

#[test]
fn frames_are_given_back_once_and_only_when_unused() {
    let (mut m, mut f) = (Machine::new(), FrameTableRefCount::new());
    let b = anonymous();
    let page = VirtAddrRange { start: 0x1000, end: 0x2000 };
    assert_eq!(populate(b.populate(RANGE, RW, WRITE), &mut m, &mut f), Ok(3));
    let op = b.clone_map(page, RW, &mut f);
    assert_eq!(clone(op, &mut m, &mut f), Ok(()));
    let shared = m.table[&0x1000].paddr;
    let own = vec![m.table[&0x2000].paddr, m.table[&0x3000].paddr];
    assert_eq!(unmap(b.unmap(RANGE), &mut m, &mut f), Ok(()));
    assert_eq!(m.freed, own);
    assert_eq!(f.get_frame_ref(shared), Some(1));
    m.table = m.new_table.clone();
    assert_eq!(zap(b.zap(RANGE), &mut m, &mut f), Ok(1));
    assert_eq!(m.freed, vec![own[0], own[1], shared]);
    assert_eq!(f.get_frame_ref(shared), None);
}

#[test]
fn a_discarded_page_begins_anew() {
    let (mut m, mut f) = (Machine::new(), FrameTableRefCount::new());
    let b = anonymous();
    assert_eq!(populate(b.populate(RANGE, RW, WRITE), &mut m, &mut f), Ok(3));
    for pte in m.table.values() {
        m.contents.insert(pte.paddr, "data".to_string());
    }
    assert_eq!(zap(b.zap(RANGE), &mut m, &mut f), Ok(3));
    assert_eq!(populate(b.populate(RANGE, RW, READ), &mut m, &mut f), Ok(3));
    for pte in m.table.values() {
        assert_eq!(m.contents[&pte.paddr], "zero");
    }
}

#[test]
fn clone_refuses_uncounted_frames() {
    let (mut m, mut f) = (Machine::new(), FrameTableRefCount::new());
    let b = anonymous();
    m.table.insert(0x2000, Pte { paddr: 0x9000, flags: RW, size: PageSize::Size4K });
    let op = b.clone_map(RANGE, RW, &mut f);
    assert_eq!(clone(op, &mut m, &mut f), Err(AxError::BadAddress));
    assert!(m.new_table.is_empty());
    assert_eq!(m.table[&0x2000].flags, RW);
}

#[test]
fn clone_reports_page_table_errors() {
    let (mut m, mut f) = (Machine::new(), FrameTableRefCount::new());
    let b = anonymous();
    assert_eq!(populate(b.populate(RANGE, RW, WRITE), &mut m, &mut f), Ok(3));
    m.new_table.insert(0x2000, Pte { paddr: 0x9000, flags: RW, size: PageSize::Size4K });
    let op = b.clone_map(RANGE, RW, &mut f);
    assert_eq!(clone(op, &mut m, &mut f), Err(AxError::InvalidInput));
    m.fail = Some((
        Request::Query { vaddr: 0x1000 },
        Reply::Entry(Err(PagingError::MappedToHugePage)),
    ));
    let op = b.clone_map(RANGE, RW, &mut f);
    assert_eq!(clone(op, &mut m, &mut f), Err(AxError::BadAddress));
}

#[test]
fn an_empty_range_is_cloned_at_once() {
    let (mut m, mut f) = (Machine::new(), FrameTableRefCount::new());
    let b = anonymous();
    let op = b.clone_map(VirtAddrRange { start: 0x1000, end: 0x1000 }, RW, &mut f);
    assert_eq!(clone(op, &mut m, &mut f), Ok(()));
}

#[test]
fn unaligned_ranges_are_refused() {
    let (mut m, mut f) = (Machine::new(), FrameTableRefCount::new());
    let b = anonymous();
    let bad = VirtAddrRange { start: 0x1001, end: 0x3000 };
    assert_eq!(populate(b.populate(bad, RW, READ), &mut m, &mut f), Err(AxError::InvalidInput));
    assert_eq!(unmap(b.unmap(bad), &mut m, &mut f), Err(AxError::InvalidInput));
    assert_eq!(zap(b.zap(bad), &mut m, &mut f), Err(AxError::InvalidInput));
    let op = b.clone_map(bad, RW, &mut f);
    assert_eq!(clone(op, &mut m, &mut f), Err(AxError::InvalidInput));
}

#[test]
fn errors_end_populating() {
    let b = anonymous();
    let map = Request::MapPage { vaddr: 0x2000, paddr: 0x10_1000, size: PageSize::Size4K, flags: RW };
    let cases = vec![
        (Request::Query { vaddr: 0x2000 }, Reply::Entry(Err(PagingError::NotAligned)), AxError::BadAddress),
        (map, Reply::Paging(Err(PagingError::NoMemory)), AxError::NoMemory),
        (map, Reply::Paging(Err(PagingError::AlreadyMapped)), AxError::InvalidInput),
    ];
    for (req, reply, error) in cases {
        let (mut m, mut f) = (Machine::new(), FrameTableRefCount::new());
        m.fail = Some((req, reply));
        assert_eq!(populate(b.populate(RANGE, RW, READ), &mut m, &mut f), Err(error));
        assert_eq!(m.table.len(), 1);
    }
}

#[test]
fn a_write_to_an_uncounted_frame_is_a_bad_address() {
    let (mut m, mut f) = (Machine::new(), FrameTableRefCount::new());
    let b = anonymous();
    m.table.insert(0x1000, Pte { paddr: 0x9000, flags: RO, size: PageSize::Size4K });
    assert_eq!(populate(b.populate(RANGE, RW, WRITE), &mut m, &mut f), Err(AxError::BadAddress));
}

#[test]
fn a_reply_of_another_kind_is_ignored() {
    let mut f = FrameTableRefCount::new();
    let mut op = match anonymous().unmap(RANGE) {
        UnmapOp::Cow(op) => op,
        _ => panic!("not a copy-on-write operation"),
    };
    let before = op;
    op.resume(Reply::Done, &mut f);
    assert_eq!(op, before);
}

#[test]
fn file_pages_are_read_at_their_place() {
    let (mut m, mut f) = (Machine::new(), FrameTableRefCount::new());
    let b = match Backend::new_cow(0x1000, PageSize::Size4K, FileRef { id: 7 }, 0x8000, Some(0x9800)) {
        Backend::Cow(b) => b,
        _ => panic!("not copy-on-write"),
    };
    assert_eq!(populate(b.populate(RANGE, RW, READ), &mut m, &mut f), Ok(3));
    assert_eq!(
        m.reads,
        vec![
            FileRead { start: 0, len: 0x1000, offset: 0x8000 },
            FileRead { start: 0, len: 0x800, offset: 0x9000 },
            FileRead { start: 0, len: 0, offset: 0xa000 },
        ]
    );
}

#[test]
fn the_gap_before_a_mapping_stays_clean() {
    let file = CowFile { file: FileRef { id: 1 }, start: 0x300, end: None };
    let r = file.window(0x1234, 0x1000, PageSize::Size4K);
    assert_eq!(r, FileRead { start: 0x234, len: 0xdcc, offset: 0x300 });
    let r = file.window(0x1234, 0x2000, PageSize::Size4K);
    assert_eq!(r, FileRead { start: 0, len: 0x1000, offset: 0x300 + 0xdcc });
    let short = CowFile { file: FileRef { id: 1 }, start: 0x300, end: Some(0x310) };
    let r = short.window(0x1234, 0x1000, PageSize::Size4K);
    assert_eq!(r, FileRead { start: 0x234, len: 0x10, offset: 0x300 });
}

#[test]
fn metadata_flags_of_a_backend() {
    let mut b = anonymous();
    assert_eq!(b.vm_flags().bits(), 0);
    b.set_vm_flags(VmFlags { bits: VM_LOCKED | VM_DONTCOPY }, true);
    assert_eq!(b.vm_flags().bits(), VM_LOCKED | VM_DONTCOPY);
    b.set_vm_flags(VmFlags { bits: VM_LOCKED }, false);
    assert_eq!(b.vm_flags().bits(), VM_DONTCOPY);
    assert_eq!(b.clone().vm_flags().bits(), VM_DONTCOPY);
}
