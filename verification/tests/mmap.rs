use starry_mm::addr::{PageSize, VirtAddrRange};
use starry_mm::backend::cow::{CowFile, FileRef};
use starry_mm::backend::ops::Reply;
use starry_mm::backend::shared::SharedPages;
use starry_mm::backend::vm_flags::VM_SHARED;
use starry_mm::backend::{Backend, BackendOps, FileBackend, LinearBackend};
use starry_mm::error::{AxError, AxResult};
use starry_mm::flags::{
    MappingFlags, MAPPING_READ, MAPPING_USER, MAPPING_WRITE, MAP_ANONYMOUS, MAP_FIXED,
    MAP_FIXED_NOREPLACE, MAP_HUGETLB, MAP_HUGETLB_1GB, MAP_POPULATE, MAP_PRIVATE, MAP_SHARED,
    MAP_SHARED_VALIDATE, PROT_READ, PROT_WRITE,
};
use starry_mm::syscall::area::FreeSearch;
use starry_mm::syscall::mmap::{
    check_mmap, sys_mmap, DeviceMmap, FileKind, MapRequest, MmapPlan, MmapReply, MmapStep,
};

const ANON: u32 = MAP_PRIVATE | MAP_ANONYMOUS;
const RW: MappingFlags = MappingFlags { bits: MAPPING_USER | MAPPING_READ | MAPPING_WRITE };

fn refused(step: MmapStep) -> AxError {
    match step {
        MmapStep::Done(Err(e)) => e,
        other => panic!("not refused: {other:?}"),
    }
}

fn added(step: MmapStep) -> MapRequest {
    match step {
        MmapStep::AddMapping(req) => req,
        other => panic!("no mapping: {other:?}"),
    }
}

fn result(step: MmapStep) -> AxResult<isize> {
    match step {
        MmapStep::Done(r) => r,
        other => panic!("not over: {other:?}"),
    }
}

fn plan(step: &MmapStep) -> MmapPlan {
    match step {
        MmapStep::FindFree(p) | MmapStep::Unmap(p) | MmapStep::OpenFile(p) => *p,
        other => panic!("no plan: {other:?}"),
    }
}

#[test]
fn bad_arguments_are_refused() {
    let cases = vec![
        sys_mmap(0, 0, 3, ANON, -1, 0),
        sys_mmap(0, 0x1000, 3, MAP_ANONYMOUS, -1, 0),
        sys_mmap(0, 0x1000, 3, MAP_ANONYMOUS | 4, -1, 0),
        sys_mmap(0, 0x1000, 3, MAP_PRIVATE, -1, 0),
        sys_mmap(0, 0x1000, 3, ANON, 5, 0),
        sys_mmap(0, 0x1000, 3, MAP_PRIVATE, 0, 0),
        sys_mmap(0, 0x1000, 3, ANON, -1, 0x1000),
        sys_mmap(0, 0x1000, 3, ANON | MAP_FIXED, -1, 0),
        sys_mmap(0, 0x1000, 3, ANON | MAP_FIXED_NOREPLACE, -1, 0),
        sys_mmap(0x1001, 0x1000, 1, ANON | MAP_FIXED, -1, 0),
        sys_mmap(0x1001, 0x1000, 1, ANON | MAP_FIXED_NOREPLACE, -1, 0),
        sys_mmap(0x30_0000, 0x1000, 1, ANON | MAP_FIXED | MAP_HUGETLB, -1, 0),
        sys_mmap(0, 0x1000, 3, MAP_PRIVATE, 5, -0x1000),
        sys_mmap(0, 0x1000, 3, MAP_PRIVATE, 5, 0x800),
    ];
    for step in cases {
        assert_eq!(refused(step), AxError::InvalidInput);
    }
}

#[test]
fn unknown_flags_matter_to_a_validated_mapping_only() {
    let unknown = 0x100;
    let step = sys_mmap(0, 0x1000, 3, MAP_SHARED_VALIDATE | MAP_ANONYMOUS | unknown, -1, 0);
    assert_eq!(refused(step), AxError::OperationNotSupported);
    assert!(!plan(&sys_mmap(0, 0x1000, 3, ANON | unknown, -1, 0)).shared);
    assert!(plan(&sys_mmap(0, 0x1000, 3, MAP_SHARED_VALIDATE | MAP_ANONYMOUS, -1, 0)).shared);
}

#[test]
fn validated_flags_share_like_shared() {
    let first = |flags| sys_mmap(0x5000, 0x2000, 3, flags | MAP_ANONYMOUS | MAP_POPULATE, -1, 0);
    assert_eq!(plan(&first(MAP_SHARED_VALIDATE)), plan(&first(MAP_SHARED)));
}

#[test]
fn unknown_flags_leave_the_plan() {
    let first = |unknown| sys_mmap(0x5000, 0x2000, 3, ANON | unknown, -1, 0);
    assert_eq!(plan(&first(0x8000_0000)), plan(&first(0)));
}

#[test]
fn arguments_are_checked_without_a_start() {
    assert_eq!(check_mmap(0, 0x1000, ANON, -1, 0), Ok(PageSize::Size4K));
    assert_eq!(check_mmap(usize::MAX, usize::MAX, ANON | MAP_HUGETLB, -1, 0), Ok(PageSize::Size2M));
    assert_eq!(check_mmap(0, 0, ANON, -1, 0), Err(AxError::InvalidInput));
    assert_eq!(
        check_mmap(0, 1, MAP_SHARED_VALIDATE | MAP_ANONYMOUS | 0x100, -1, 0),
        Err(AxError::OperationNotSupported)
    );
}

#[test]
fn free_addresses_are_searched_near_and_anywhere() {
    let p = plan(&sys_mmap(0x30_0000, 1, 0, ANON | MAP_HUGETLB, -1, 0));
    let (near, anywhere) = p.searches(0x1000, 0x8000_0000);
    let limit = VirtAddrRange { start: 0x1000, end: 0x8000_0000 };
    assert_eq!(near, FreeSearch { hint: 0x20_0000, size: 0x20_0000, limit, align: 0x20_0000 });
    assert_eq!(anywhere, FreeSearch { hint: 0x1000, ..near });
}

#[test]
fn a_plan_covers_the_pages_that_are_touched() {
    let p = plan(&sys_mmap(0x1234, 0x1000, PROT_READ | PROT_WRITE, ANON | MAP_POPULATE, -1, 0));
    assert_eq!(
        p,
        MmapPlan {
            start: 0x1000,
            length: 0x2000,
            page_size: PageSize::Size4K,
            shared: false,
            flags: RW,
            fixed: false,
            replace: true,
            populate: true,
            fd: -1,
            offset: 0,
        }
    );
    let p = plan(&sys_mmap(0x30_0000, 1, 0, ANON | MAP_HUGETLB, -1, 0));
    assert_eq!((p.start, p.length, p.page_size), (0x20_0000, 0x20_0000, PageSize::Size2M));
    let p = plan(&sys_mmap(0x30_0000, 1, 0, ANON | MAP_HUGETLB_1GB, -1, 0));
    assert_eq!((p.start, p.length, p.page_size), (0, 0x4000_0000, PageSize::Size1G));
}

#[test]
fn a_mapping_anywhere_goes_where_there_is_room() {
    let start = || sys_mmap(0x5000, 0x2000, 3, ANON, -1, 0);
    assert!(matches!(start(), MmapStep::FindFree(_)));
    let req = added(start().resume(MmapReply::Free { near: Some(0x9000), anywhere: Some(0x1000) }));
    assert_eq!((req.start, req.length, req.flags, req.populate), (0x9000, 0x2000, RW, false));
    assert!(matches!(req.backend, Backend::Cow(ref b) if b.start == 0x9000 && b.file.is_none()));
    let req = added(start().resume(MmapReply::Free { near: None, anywhere: Some(0x1000) }));
    assert_eq!(req.start, 0x1000);
    let step = start().resume(MmapReply::Free { near: None, anywhere: None });
    assert_eq!(refused(step), AxError::NoMemory);
}

#[test]
fn a_fixed_mapping_replaces_what_is_there() {
    let step = sys_mmap(0x5000, 0x2000, 3, ANON | MAP_FIXED, -1, 0);
    assert!(matches!(step, MmapStep::Unmap(p) if p.start == 0x5000 && p.length == 0x2000));
    let step = step.resume(MmapReply::Unmapped(Ok(())));
    let step = match step {
        MmapStep::AddMapping(ref req) => {
            assert_eq!(req.start, 0x5000);
            step.resume(MmapReply::Mapped(Ok(())))
        }
        other => panic!("no mapping: {other:?}"),
    };
    assert_eq!(result(step), Ok(0x5000));
    let step = sys_mmap(0x5000, 0x2000, 3, ANON | MAP_FIXED, -1, 0);
    let step = step.resume(MmapReply::Unmapped(Err(AxError::InvalidInput)));
    assert_eq!(refused(step), AxError::InvalidInput);
}

#[test]
fn nothing_is_unmapped_with_noreplace() {
    let step = sys_mmap(0x5000, 0x2000, 3, ANON | MAP_FIXED | MAP_FIXED_NOREPLACE, -1, 0);
    assert_eq!(added(step).start, 0x5000);
    let step = sys_mmap(0x5000, 0x2000, 3, ANON | MAP_FIXED_NOREPLACE, -1, 0);
    let step = step.resume(MmapReply::Mapped(Err(AxError::NoMemory)));
    assert_eq!(result(step), Err(AxError::NoMemory));
}

#[test]
fn shared_memory_is_allocated_at_once() {
    let flags = MAP_SHARED | MAP_ANONYMOUS | MAP_FIXED_NOREPLACE;
    let step = sys_mmap(0x5000, 0x2000, 3, flags, -1, 0);
    let length = match step {
        MmapStep::AllocShared(p) => p.length,
        ref other => panic!("no allocation: {other:?}"),
    };
    let mut alloc = SharedPages::new(length, PageSize::Size4K);
    alloc.resume(Reply::Frame(Ok(0x1000)));
    alloc.resume(Reply::Frame(Ok(0x2000)));
    let req = added(step.resume(MmapReply::Allocated(Ok(alloc.finish().unwrap()))));
    match req.backend {
        Backend::Shared(b) => {
            assert_eq!(b.start, 0x5000);
            assert_eq!(b.pages().phys_pages, vec![0x1000, 0x2000]);
            assert_eq!(b.vm_flags().bits(), VM_SHARED);
        }
        other => panic!("not shared: {other:?}"),
    }
    let step = sys_mmap(0x5000, 0x2000, 3, flags, -1, 0);
    assert_eq!(refused(step.resume(MmapReply::Allocated(Err(AxError::NoMemory)))), AxError::NoMemory);
}

#[test]
fn a_private_file_mapping_copies_on_write() {
    let open = || sys_mmap(0x5000, 0x2000, 3, MAP_PRIVATE | MAP_FIXED_NOREPLACE, 5, 0x3000);
    assert!(matches!(open(), MmapStep::OpenFile(p) if p.fd == 5));
    let file = FileRef { id: 9 };
    let step = open().resume(MmapReply::Opened(Ok(file)));
    assert!(matches!(step, MmapStep::CheckFile(_, f) if f == file));
    let req = added(step.resume(MmapReply::Checked(Ok(()))));
    match req.backend {
        Backend::Cow(b) => assert_eq!(b.file, Some(CowFile { file, start: 0x3000, end: None })),
        other => panic!("not copy-on-write: {other:?}"),
    }
    let step = open().resume(MmapReply::Opened(Err(AxError::Other(-9))));
    assert_eq!(refused(step), AxError::Other(-9));
    let step = open().resume(MmapReply::Opened(Ok(file)));
    assert_eq!(refused(step.resume(MmapReply::Checked(Err(AxError::BadAddress)))), AxError::BadAddress);
}

fn inspected(kind: FileKind) -> MmapStep {
    sys_mmap(0x50_0000, 0x3000, 3, MAP_SHARED | MAP_FIXED_NOREPLACE, 5, 0x1000)
        .resume(MmapReply::Opened(Ok(FileRef { id: 9 })))
        .resume(MmapReply::Inspected(Ok(kind)))
}

#[test]
fn a_shared_file_mapping_depends_on_the_file() {
    let file = FileRef { id: 9 };
    for kind in [FileKind::Cached, FileKind::Device(DeviceMmap::Cache)] {
        let req = added(inspected(kind));
        assert_eq!(req.length, 0x3000);
        match req.backend {
            Backend::File(b) => {
                assert_eq!(b, FileBackend { start: 0x50_0000, file, offset: 0x1000 })
            }
            other => panic!("not a file: {other:?}"),
        }
    }
    for kind in [FileKind::Direct, FileKind::Device(DeviceMmap::Unsupported)] {
        assert_eq!(refused(inspected(kind)), AxError::NoSuchDevice);
    }
    let req = added(inspected(FileKind::Device(DeviceMmap::ReadOnly)));
    assert!(matches!(req.backend, Backend::Cow(ref b) if b.file.is_some()));
}

#[test]
fn device_memory_is_mapped_as_far_as_it_goes() {
    let physical = |start, end| FileKind::Device(DeviceMmap::Physical { start, end });
    let req = added(inspected(physical(0x10_0000, 0x20_0000)));
    assert_eq!(req.length, 0x3000);
    match req.backend {
        Backend::Linear(b) => assert_eq!(b, LinearBackend { offset: 0x50_0000 - 0x10_1000 }),
        other => panic!("not linear: {other:?}"),
    }
    let req = added(inspected(physical(0x60_0000, 0x60_2800)));
    assert_eq!(req.length, 0x1000);
    match req.backend {
        Backend::Linear(b) => assert_eq!(b.offset, 0x50_0000 - 0x60_1000),
        other => panic!("not linear: {other:?}"),
    }
    assert_eq!(refused(inspected(physical(0x10_0000, 0x10_1000))), AxError::InvalidInput);
}

#[test]
fn a_result_of_another_kind_leaves_the_step() {
    let step = sys_mmap(0x5000, 0x2000, 3, ANON, -1, 0).resume(MmapReply::Mapped(Ok(())));
    assert!(matches!(step, MmapStep::FindFree(_)));
    let step = MmapStep::Done(Ok(1)).resume(MmapReply::Unmapped(Err(AxError::NoMemory)));
    assert_eq!(result(step), Ok(1));
}
