use starry_mm::addr::{PageSize, VirtAddrRange};
use starry_mm::backend::Backend;
use starry_mm::error::{AxError, AxResult};
use starry_mm::flags::{MappingFlags, MAPPING_READ, MAPPING_USER};
use starry_mm::syscall::area::FreeSearch;
use starry_mm::syscall::mremap::{
    sys_mremap, MremapReply, MremapStep, MremapWork, MREMAP_FIXED, MREMAP_MAYMOVE,
};

const RO: MappingFlags = MappingFlags { bits: MAPPING_USER | MAPPING_READ };

fn end(step: MremapStep) -> AxResult<isize> {
    match step {
        MremapStep::Done(r) => r,
        other => panic!("not over: {other:?}"),
    }
}

#[test]
fn bad_sizes_and_flags_are_refused() {
    assert_eq!(end(sys_mremap(0x1001, 0x1000, 0x2000, 0)), Err(AxError::InvalidInput));
    assert_eq!(end(sys_mremap(0x1000, 0x1000, 0, 0)), Err(AxError::InvalidInput));
    assert_eq!(
        end(sys_mremap(0x1000, 0x1000, 0x2000, MREMAP_FIXED)),
        Err(AxError::InvalidInput)
    );
    let moving = sys_mremap(0x1000, 0x1000, 0x2000, MREMAP_FIXED | MREMAP_MAYMOVE);
    assert!(matches!(moving, MremapStep::FindArea(_)));
}

#[test]
fn the_same_number_of_pages_needs_nothing() {
    assert_eq!(end(sys_mremap(0x8000, 0x1800, 0x1001, 0)), Ok(0x8000));
}

#[test]
fn shrinking_unmaps_the_tail() {
    let step = sys_mremap(0x8000, 0x4000, 0x1001, 0);
    match &step {
        MremapStep::Shrink(p) => assert_eq!((p.edge(), p.change()), (0xa000, 0x2000)),
        other => panic!("does not shrink: {other:?}"),
    }
    assert_eq!(end(step.resume(MremapReply::Result(Ok(())))), Ok(0x8000));
    let step = sys_mremap(0x8000, 0x4000, 0x1001, 0);
    let step = step.resume(MremapReply::Result(Err(AxError::BadAddress)));
    assert_eq!(end(step), Err(AxError::BadAddress));
}

#[test]
fn growing_in_place_adds_memory_behind() {
    let step = sys_mremap(0x8000, 0x2000, 0x5000, 0).resume(MremapReply::Area(Some(RO)));
    match &step {
        MremapStep::FindRoom(p, flags) => {
            assert_eq!((p.edge(), p.change(), *flags), (0xa000, 0x3000, RO))
        }
        other => panic!("does not look for room: {other:?}"),
    }
    let step = step.resume(MremapReply::Free(Some(0xa000)));
    match &step {
        MremapStep::Grow(_, req) => {
            assert_eq!((req.start, req.length, req.flags), (0xa000, 0x3000, RO));
            assert!(!req.populate);
            match &req.backend {
                Backend::Cow(b) => {
                    assert_eq!((b.start, b.size, b.file), (0xa000, PageSize::Size4K, None))
                }
                other => panic!("not copy-on-write: {other:?}"),
            }
        }
        other => panic!("does not grow: {other:?}"),
    }
    assert_eq!(end(step.resume(MremapReply::Result(Ok(())))), Ok(0x8000));
}

#[test]
fn a_mapping_that_may_not_move_needs_room() {
    let step = sys_mremap(0x8000, 0x2000, 0x5000, 0)
        .resume(MremapReply::Area(Some(RO)))
        .resume(MremapReply::Free(None));
    assert_eq!(end(step), Err(AxError::NoMemory));
    let step = sys_mremap(0x8000, 0x2000, 0x5000, 0).resume(MremapReply::Area(None));
    assert_eq!(end(step), Err(AxError::NoMemory));
}

fn moving() -> MremapStep {
    sys_mremap(0x8000, 0x2000, 0x5000, MREMAP_MAYMOVE)
        .resume(MremapReply::Area(Some(RO)))
        .resume(MremapReply::Free(None))
}

#[test]
fn moving_copies_before_the_old_place_is_unmapped() {
    let step = moving();
    assert!(matches!(step, MremapStep::FindNew(p, RO) if p.new_size == 0x5000));
    let step = step.resume(MremapReply::Free(Some(0x4_0000)));
    match &step {
        MremapStep::MapNew(_, req) => {
            assert_eq!((req.start, req.length, req.flags), (0x4_0000, 0x5000, RO))
        }
        other => panic!("maps nothing: {other:?}"),
    }
    let step = step.resume(MremapReply::Result(Ok(())));
    assert!(matches!(step, MremapStep::CopyData(p, 0x4_0000) if p.old_size == 0x2000));
    let step = step.resume(MremapReply::Result(Ok(())));
    assert!(matches!(step, MremapStep::UnmapOld(p, 0x4_0000) if p.addr == 0x8000));
    assert_eq!(end(step.resume(MremapReply::Result(Ok(())))), Ok(0x4_0000));
}

#[test]
fn every_step_says_what_to_do() {
    let work = |step: &MremapStep| step.work(0x1000, 0x8_0000).unwrap();
    let shrink = sys_mremap(0x8000, 0x4000, 0x1001, 0);
    assert_eq!(work(&shrink), MremapWork::Unmap { start: 0xa000, length: 0x2000 });
    let step = sys_mremap(0x8000, 0x2000, 0x5000, MREMAP_MAYMOVE);
    assert_eq!(work(&step), MremapWork::FindArea { addr: 0x8000 });
    let step = step.resume(MremapReply::Area(Some(RO)));
    let limit = VirtAddrRange { start: 0xa000, end: 0xd000 };
    assert_eq!(
        work(&step),
        MremapWork::FindFree(FreeSearch { hint: 0xa000, size: 0x3000, limit, align: 0x1000 })
    );
    let step = step.resume(MremapReply::Free(None));
    let limit = VirtAddrRange { start: 0x1000, end: 0x8_0000 };
    assert_eq!(
        work(&step),
        MremapWork::FindFree(FreeSearch { hint: 0x1000, size: 0x5000, limit, align: 0x1000 })
    );
    let step = step.resume(MremapReply::Free(Some(0x4_0000)));
    assert_eq!(work(&step), MremapWork::AddMapping);
    let step = step.resume(MremapReply::Result(Ok(())));
    assert_eq!(work(&step), MremapWork::Copy { from: 0x8000, to: 0x4_0000, len: 0x2000 });
    let step = step.resume(MremapReply::Result(Ok(())));
    assert_eq!(work(&step), MremapWork::Unmap { start: 0x8000, length: 0x2000 });
    assert_eq!(step.resume(MremapReply::Result(Ok(()))).work(0x1000, 0x8_0000), None);
}

#[test]
fn errors_end_a_move() {
    assert_eq!(end(moving().resume(MremapReply::Free(None))), Err(AxError::NoMemory));
    for good in 0..3 {
        let mut step = moving().resume(MremapReply::Free(Some(0x4_0000)));
        for _ in 0..good {
            step = step.resume(MremapReply::Result(Ok(())));
        }
        let step = step.resume(MremapReply::Result(Err(AxError::BadAddress)));
        assert_eq!(end(step), Err(AxError::BadAddress));
    }
}

#[test]
fn another_kind_of_result_changes_nothing() {
    let step = moving().resume(MremapReply::Area(None));
    assert!(matches!(step, MremapStep::FindNew(_, _)));
}
