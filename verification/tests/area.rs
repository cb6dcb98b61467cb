use linux_raw_sys::general as linux;
use starry_mm::error::AxError;
use starry_mm::flags::{
    MappingFlags, MAPPING_EXECUTE, MAPPING_READ, MAPPING_USER, MAPPING_WRITE, PROT_EXEC,
    PROT_GROWSDOWN, PROT_GROWSUP, PROT_READ, PROT_WRITE,
};
use starry_mm::syscall::area::{
    classify, sys_madvise, sys_mlock, sys_mlock2, sys_mlockall, sys_mprotect, sys_msync,
    sys_munlock, sys_munlockall, sys_munmap, Advice, AreaStep, MADV_COLD, MADV_COLLAPSE,
    MADV_DODUMP, MADV_DOFORK, MADV_DONTDUMP, MADV_DONTFORK, MADV_DONTNEED, MADV_DONTNEED_LOCKED,
    MADV_FREE, MADV_GUARD_INSTALL, MADV_GUARD_REMOVE, MADV_HUGEPAGE, MADV_HWPOISON,
    MADV_KEEPONFORK, MADV_MERGEABLE, MADV_NOHUGEPAGE, MADV_NORMAL, MADV_PAGEOUT,
    MADV_POPULATE_READ, MADV_POPULATE_WRITE, MADV_RANDOM, MADV_REMOVE, MADV_SEQUENTIAL,
    MADV_SOFT_OFFLINE, MADV_UNMERGEABLE, MADV_WILLNEED, MADV_WIPEONFORK, MS_ASYNC, MS_SYNC,
};

#[test]
fn advice_constants_are_those_of_linux() {
    let pairs = vec![
        (MADV_NORMAL, linux::MADV_NORMAL),
        (MADV_RANDOM, linux::MADV_RANDOM),
        (MADV_SEQUENTIAL, linux::MADV_SEQUENTIAL),
        (MADV_WILLNEED, linux::MADV_WILLNEED),
        (MADV_DONTNEED, linux::MADV_DONTNEED),
        (MADV_FREE, linux::MADV_FREE),
        (MADV_REMOVE, linux::MADV_REMOVE),
        (MADV_DONTFORK, linux::MADV_DONTFORK),
        (MADV_DOFORK, linux::MADV_DOFORK),
        (MADV_MERGEABLE, linux::MADV_MERGEABLE),
        (MADV_UNMERGEABLE, linux::MADV_UNMERGEABLE),
        (MADV_HUGEPAGE, linux::MADV_HUGEPAGE),
        (MADV_NOHUGEPAGE, linux::MADV_NOHUGEPAGE),
        (MADV_DONTDUMP, linux::MADV_DONTDUMP),
        (MADV_DODUMP, linux::MADV_DODUMP),
        (MADV_WIPEONFORK, linux::MADV_WIPEONFORK),
        (MADV_KEEPONFORK, linux::MADV_KEEPONFORK),
        (MADV_COLD, linux::MADV_COLD),
        (MADV_PAGEOUT, linux::MADV_PAGEOUT),
        (MADV_POPULATE_READ, linux::MADV_POPULATE_READ),
        (MADV_POPULATE_WRITE, linux::MADV_POPULATE_WRITE),
        (MADV_DONTNEED_LOCKED, linux::MADV_DONTNEED_LOCKED),
        (MADV_COLLAPSE, linux::MADV_COLLAPSE),
        (MADV_HWPOISON, linux::MADV_HWPOISON),
        (MADV_SOFT_OFFLINE, linux::MADV_SOFT_OFFLINE),
        (MADV_GUARD_INSTALL, linux::MADV_GUARD_INSTALL),
        (MADV_GUARD_REMOVE, linux::MADV_GUARD_REMOVE),
        (MS_ASYNC, linux::MS_ASYNC),
        (MS_SYNC, linux::MS_SYNC),
    ];
    for (ours, theirs) in pairs {
        assert_eq!(ours, theirs);
    }
}

#[test]
fn munmap_rounds_the_length_up() {
    assert_eq!(sys_munmap(0x1234, 1), AreaStep::Unmap { start: 0x1234, length: 0x1000 });
    assert_eq!(sys_munmap(0x1000, 0x2000), AreaStep::Unmap { start: 0x1000, length: 0x2000 });
    assert_eq!(sys_munmap(0x1000, 0), AreaStep::Unmap { start: 0x1000, length: 0 });
}

#[test]
fn mprotect_changes_permissions() {
    let bits = MAPPING_USER | MAPPING_READ | MAPPING_EXECUTE;
    assert_eq!(
        sys_mprotect(0x1000, 0x1001, PROT_READ | PROT_EXEC),
        AreaStep::Protect { start: 0x1000, length: 0x2000, flags: MappingFlags { bits } }
    );
    let bits = MAPPING_USER | MAPPING_WRITE;
    assert_eq!(
        sys_mprotect(0x1000, 0x1000, PROT_WRITE | PROT_GROWSUP),
        AreaStep::Protect { start: 0x1000, length: 0x1000, flags: MappingFlags { bits } }
    );
}

#[test]
fn mprotect_refuses_bad_protections() {
    let refused = AreaStep::Done(Err(AxError::InvalidInput));
    assert_eq!(sys_mprotect(0x1000, 0x1000, 0x8), refused);
    assert_eq!(sys_mprotect(0x1000, 0x1000, PROT_GROWSDOWN | PROT_GROWSUP), refused);
    assert_eq!(sys_mprotect(0x1000, 0x1000, PROT_READ | 0x4000_0000), refused);
}

#[test]
fn advice_classes() {
    for advice in [0, 1, 2, 10, 11, 12, 13, 14, 15, 16, 17, 18, 19, 20, 21, 25, 102, 103] {
        assert_eq!(classify(advice), Advice::Hint);
    }
    for advice in [4, 8, 24] {
        assert_eq!(classify(advice), Advice::Discard);
    }
    assert_eq!(classify(3), Advice::WillNeed);
    assert_eq!(classify(22), Advice::PopulateRead);
    assert_eq!(classify(23), Advice::PopulateWrite);
    assert_eq!(classify(100), Advice::Privileged);
    assert_eq!(classify(101), Advice::Privileged);
    for advice in [5, 6, 7, 9, 26, 99, 104, u32::MAX] {
        assert_eq!(classify(advice), Advice::Unsupported);
    }
}

#[test]
fn madvise_acts_on_whole_pages() {
    let read = MappingFlags { bits: MAPPING_READ };
    let write = MappingFlags { bits: MAPPING_READ | MAPPING_WRITE };
    let populate = |access, strict| AreaStep::Populate { start: 0x2000, length: 0x1000, access, strict };
    assert_eq!(sys_madvise(0x2000, 5, 0), AreaStep::Done(Ok(0)));
    assert_eq!(sys_madvise(0x2000, 5, 3), populate(read, false));
    assert_eq!(sys_madvise(0x2000, 5, 22), populate(read, true));
    assert_eq!(sys_madvise(0x2000, 5, 23), populate(write, true));
    let zap = AreaStep::Zap { start: 0x2000, length: 0x1000 };
    for advice in [4, 8, 24] {
        assert_eq!(sys_madvise(0x2000, 5, advice), zap);
    }
}

#[test]
fn madvise_errors() {
    let invalid = AreaStep::Done(Err(AxError::InvalidInput));
    assert_eq!(sys_madvise(0x2001, 0x1000, 0), invalid);
    assert_eq!(sys_madvise(0x2000, 0x1000, 9), invalid);
    assert_eq!(sys_madvise(0x2000, 0x1000, -1), invalid);
    assert_eq!(sys_madvise(0x2000, 0x1000, 100), AreaStep::Done(Err(AxError::PermissionDenied)));
    // Nothing to advise on: the advice does not matter.
    assert_eq!(sys_madvise(0x2000, 0, -1), AreaStep::Done(Ok(0)));
    assert_eq!(sys_madvise(0x2001, 0, 0), invalid);
}

#[test]
fn only_strict_populating_reports_its_error() {
    let failed = Err(AxError::NoMemory);
    assert_eq!(sys_madvise(0x2000, 5, 3).resume(failed), Ok(0));
    assert_eq!(sys_madvise(0x2000, 5, 22).resume(failed), Err(AxError::NoMemory));
    assert_eq!(sys_madvise(0x2000, 5, 4).resume(failed), Err(AxError::NoMemory));
    assert_eq!(sys_madvise(0x2000, 5, 4).resume(Ok(())), Ok(0));
    assert_eq!(sys_munmap(0x1000, 1).resume(Err(AxError::BadAddress)), Err(AxError::BadAddress));
    assert_eq!(sys_munmap(0x1000, 1).resume(Ok(())), Ok(0));
    assert_eq!(sys_madvise(0x2000, 5, 100).resume(Ok(())), Err(AxError::PermissionDenied));
}

#[test]
fn lengths_up_to_the_limit_are_rounded() {
    let length = usize::MAX - 0x1000;
    assert_eq!(
        sys_munmap(0, length),
        AreaStep::Unmap { start: 0, length: usize::MAX - 0xfff }
    );
}

#[test]
fn msync_flags() {
    let sync = AreaStep::Sync { start: 0x3000, length: 0x2000 };
    assert_eq!(sys_msync(0x3000, 0x1800, MS_SYNC), sync);
    assert_eq!(sys_msync(0x3000, 0x1800, MS_SYNC | 2), sync);
    assert_eq!(sys_msync(0x3000, 0x1800, MS_ASYNC), AreaStep::Done(Ok(0)));
    let invalid = AreaStep::Done(Err(AxError::InvalidInput));
    assert_eq!(sys_msync(0x3000, 0x1800, MS_ASYNC | MS_SYNC), invalid);
    assert_eq!(sys_msync(0x1000, 0x1000, 0), invalid);
    assert_eq!(sys_msync(0x3800, 0x1800, MS_SYNC), invalid);
}

#[test]
fn locking_always_succeeds() {
    assert_eq!(sys_mlock(0x1001, 7), Ok(0));
    assert_eq!(sys_mlock2(0x1001, 7, 1), Ok(0));
    assert_eq!(sys_munlock(0x1001, 7), Ok(0));
    assert_eq!(sys_mlockall(3), Ok(0));
    assert_eq!(sys_munlockall(), Ok(0));
}
