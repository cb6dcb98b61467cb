//! System calls that work on a range of the address space at once: `munmap`, `mprotect`,
//! `madvise`, `msync` and the `mlock` family.
use vstd::prelude::*;

use crate::addr::{align_up_to, VirtAddrRange};
use crate::error::{AxError, AxResult};
use crate::flags::{
    MappingFlags, MmapProt, MAPPING_READ, MAPPING_WRITE, PROT_ALL, PROT_GROWSDOWN, PROT_GROWSUP,
};

verus! {

/// The work that a call asks for, or its result.
#[derive(Clone, Copy, PartialEq, Eq, Debug)]
pub enum AreaStep {
    /// Unmap a range.
    Unmap { start: usize, length: usize },
    /// Change the permissions of a range.
    Protect { start: usize, length: usize, flags: MappingFlags },
    /// Fault the pages of a range in for an access. If the call is not strict, it succeeds
    /// even if this fails.
    Populate { start: usize, length: usize, access: MappingFlags, strict: bool },
    /// Discard the physical pages of a range.
    Zap { start: usize, length: usize },
    /// Write the dirty pages of a range back.
    Sync { start: usize, length: usize },
    /// There is nothing to do.
    Done(AxResult<isize>),
}

impl AreaStep {
    /// The result of the call when the work had the result `reply`.
    pub open spec fn result(self, reply: AxResult<()>) -> AxResult<isize> {
        match self {
            AreaStep::Done(result) => result,
            AreaStep::Populate { strict: false, .. } => Ok(0),
            _ => match reply {
                Ok(()) => Ok(0),
                Err(e) => Err(e),
            },
        }
    }

    /// The result of the call when the work had the result `reply`.
    pub fn resume(self, reply: AxResult<()>) -> (r: AxResult<isize>)
        ensures
            r == self.result(reply),
    {
        match self {
            AreaStep::Done(result) => result,
            AreaStep::Populate { strict: false, .. } => Ok(0),
            _ => match reply {
                Ok(()) => Ok(0),
                Err(e) => Err(e),
            },
        }
    }
}

/// A search for free addresses.
#[derive(Clone, Copy, PartialEq, Eq, Structural, Debug)]
pub struct FreeSearch {
    /// Where to look first.
    pub hint: usize,
    /// Number of bytes to find.
    pub size: usize,
    /// The addresses that the bytes have to be in.
    pub limit: VirtAddrRange,
    /// Alignment of the first byte.
    pub align: usize,
}

/// The length of a range in whole pages.
pub open spec fn whole_pages(length: usize) -> usize {
    align_up_to(length as int, 0x1000) as usize
}

/// Whether rounding a length up to whole pages stays in range.
pub open spec fn length_fits(length: usize) -> bool {
    length + 0x1000 <= usize::MAX
}

/// What `munmap` does for a range.
pub open spec fn munmap_step(addr: usize, length: usize) -> AreaStep {
    AreaStep::Unmap { start: addr, length: whole_pages(length) }
}

/// Removes the mappings in a range.
pub fn sys_munmap(addr: usize, length: usize) -> (r: AreaStep)
    requires
        length_fits(length),
    ensures
        r == (AreaStep::Unmap { start: addr, length: whole_pages(length) }),
        r == munmap_step(addr, length),
{
    AreaStep::Unmap { start: addr, length: memory_addr::align_up_4k(length) }
}

/// Why `mprotect` refuses a protection, if it does: an unknown flag, or both directions to
/// grow.
pub open spec fn mprotect_refused(prot: u32) -> bool {
    ||| prot & PROT_ALL != prot
    ||| prot & PROT_GROWSDOWN == PROT_GROWSDOWN && prot & PROT_GROWSUP == PROT_GROWSUP
}

/// What `mprotect` does for a range.
pub open spec fn mprotect_step(addr: usize, length: usize, prot: u32) -> AreaStep {
    if mprotect_refused(prot) {
        AreaStep::Done(Err(AxError::InvalidInput))
    } else {
        AreaStep::Protect {
            start: addr,
            length: whole_pages(length),
            flags: MmapProt { bits: prot }.to_mapping(),
        }
    }
}

/// Changes the permissions of a range.
pub fn sys_mprotect(addr: usize, length: usize, prot: u32) -> (r: AreaStep)
    requires
        !mprotect_refused(prot) ==> length_fits(length),
    ensures
        mprotect_refused(prot) ==> r == AreaStep::Done(Err(AxError::InvalidInput)),
        !mprotect_refused(prot) ==> r == (AreaStep::Protect {
            start: addr,
            length: whole_pages(length),
            flags: MmapProt { bits: prot }.to_mapping(),
        }),
        r == mprotect_step(addr, length, prot),
{
    assert((prot & 0x0300_0000u32 == 0x0300_0000u32) <==> (prot & 0x0100_0000u32 == 0x0100_0000u32
        && prot & 0x0200_0000u32 == 0x0200_0000u32)) by (bit_vector);
    assert(0x0100_0000u32 | 0x0200_0000u32 == 0x0300_0000u32) by (bit_vector);
    match MmapProt::from_bits(prot) {
        None => AreaStep::Done(Err(AxError::InvalidInput)),
        Some(permission_flags) => {
            if permission_flags.has(PROT_GROWSDOWN | PROT_GROWSUP) {
                return AreaStep::Done(Err(AxError::InvalidInput));
            }
            AreaStep::Protect {
                start: addr,
                length: memory_addr::align_up_4k(length),
                flags: MappingFlags::from(permission_flags),
            }
        },
    }
}

/// No special treatment.
pub const MADV_NORMAL: u32 = 0;

/// Expect random page references.
pub const MADV_RANDOM: u32 = 1;

/// Expect sequential page references.
pub const MADV_SEQUENTIAL: u32 = 2;

/// Expect access in the near future.
pub const MADV_WILLNEED: u32 = 3;

/// Do not expect access in the near future.
pub const MADV_DONTNEED: u32 = 4;

/// The pages can be freed.
pub const MADV_FREE: u32 = 8;

/// Free a range and its backing store.
pub const MADV_REMOVE: u32 = 9;

/// Do not make the pages available to a child.
pub const MADV_DONTFORK: u32 = 10;

/// Undo `MADV_DONTFORK`.
pub const MADV_DOFORK: u32 = 11;

/// Merging of identical pages.
pub const MADV_MERGEABLE: u32 = 12;

/// Undo `MADV_MERGEABLE`.
pub const MADV_UNMERGEABLE: u32 = 13;

/// Transparent huge pages.
pub const MADV_HUGEPAGE: u32 = 14;

/// Undo `MADV_HUGEPAGE`.
pub const MADV_NOHUGEPAGE: u32 = 15;

/// Exclude from core dumps.
pub const MADV_DONTDUMP: u32 = 16;

/// Undo `MADV_DONTDUMP`.
pub const MADV_DODUMP: u32 = 17;

/// Give a child zeroed memory.
pub const MADV_WIPEONFORK: u32 = 18;

/// Undo `MADV_WIPEONFORK`.
pub const MADV_KEEPONFORK: u32 = 19;

/// Deactivate the pages.
pub const MADV_COLD: u32 = 20;

/// Reclaim the pages.
pub const MADV_PAGEOUT: u32 = 21;

/// Fault pages in for reading.
pub const MADV_POPULATE_READ: u32 = 22;

/// Fault pages in for writing.
pub const MADV_POPULATE_WRITE: u32 = 23;

/// Like `MADV_DONTNEED`, also for locked pages.
pub const MADV_DONTNEED_LOCKED: u32 = 24;

/// Collapse the pages into huge pages.
pub const MADV_COLLAPSE: u32 = 25;

/// Poison the pages.
pub const MADV_HWPOISON: u32 = 100;

/// Take the pages offline.
pub const MADV_SOFT_OFFLINE: u32 = 101;

/// Install guard pages.
pub const MADV_GUARD_INSTALL: u32 = 102;

/// Remove guard pages.
pub const MADV_GUARD_REMOVE: u32 = 103;

/// What an advice asks for.
#[derive(Clone, Copy, PartialEq, Eq, Structural, Debug)]
pub enum Advice {
    /// A hint that is not acted on.
    Hint,
    /// The pages will be needed: fault them in if that is possible.
    WillNeed,
    /// The contents are not needed: discard the physical pages.
    Discard,
    /// Fault pages in for reading.
    PopulateRead,
    /// Fault pages in for writing.
    PopulateWrite,
    /// Something that only a privileged caller could do.
    Privileged,
    /// Not supported, or unknown.
    Unsupported,
}

/// What an advice asks for.
pub open spec fn spec_classify(advice: u32) -> Advice {
    if advice == MADV_WILLNEED {
        Advice::WillNeed
    } else if advice == MADV_DONTNEED || advice == MADV_DONTNEED_LOCKED || advice == MADV_FREE {
        Advice::Discard
    } else if advice == MADV_POPULATE_READ {
        Advice::PopulateRead
    } else if advice == MADV_POPULATE_WRITE {
        Advice::PopulateWrite
    } else if advice == MADV_HWPOISON || advice == MADV_SOFT_OFFLINE {
        Advice::Privileged
    } else if advice <= MADV_SEQUENTIAL || MADV_DONTFORK <= advice <= MADV_COLLAPSE || advice
        == MADV_GUARD_INSTALL || advice == MADV_GUARD_REMOVE {
        Advice::Hint
    } else {
        Advice::Unsupported
    }
}

/// What an advice asks for.
pub fn classify(advice: u32) -> (r: Advice)
    ensures
        r == spec_classify(advice),
{
    match advice {
        // Hints on access patterns.
        MADV_NORMAL | MADV_RANDOM | MADV_SEQUENTIAL | MADV_COLD | MADV_PAGEOUT => Advice::Hint,
        MADV_WILLNEED => Advice::WillNeed,
        MADV_DONTNEED | MADV_DONTNEED_LOCKED => Advice::Discard,
        // There is no page reclaim that could be lazy.
        MADV_FREE => Advice::Discard,
        // Hints on fork, dumps, page merging and huge pages.
        MADV_DONTFORK | MADV_DOFORK | MADV_MERGEABLE | MADV_UNMERGEABLE | MADV_HUGEPAGE
        | MADV_NOHUGEPAGE | MADV_DONTDUMP | MADV_DODUMP | MADV_WIPEONFORK | MADV_KEEPONFORK
        | MADV_COLLAPSE => Advice::Hint,
        MADV_POPULATE_READ => Advice::PopulateRead,
        MADV_POPULATE_WRITE => Advice::PopulateWrite,
        MADV_GUARD_INSTALL | MADV_GUARD_REMOVE => Advice::Hint,
        MADV_HWPOISON | MADV_SOFT_OFFLINE => Advice::Privileged,
        _ => Advice::Unsupported,
    }
}

/// What `madvise` does for a range.
pub open spec fn madvise_step(addr: usize, length: usize, advice: Advice) -> AreaStep {
    let pages = whole_pages(length);
    if addr % 0x1000 != 0 {
        AreaStep::Done(Err(AxError::InvalidInput))
    } else if length == 0 {
        AreaStep::Done(Ok(0))
    } else {
        match advice {
            Advice::Hint => AreaStep::Done(Ok(0)),
            Advice::WillNeed => AreaStep::Populate {
                start: addr,
                length: pages,
                access: MappingFlags { bits: MAPPING_READ },
                strict: false,
            },
            Advice::Discard => AreaStep::Zap { start: addr, length: pages },
            Advice::PopulateRead => AreaStep::Populate {
                start: addr,
                length: pages,
                access: MappingFlags { bits: MAPPING_READ },
                strict: true,
            },
            Advice::PopulateWrite => AreaStep::Populate {
                start: addr,
                length: pages,
                access: MappingFlags { bits: MAPPING_READ | MAPPING_WRITE },
                strict: true,
            },
            Advice::Privileged => AreaStep::Done(Err(AxError::PermissionDenied)),
            Advice::Unsupported => AreaStep::Done(Err(AxError::InvalidInput)),
        }
    }
}

/// Gives advice on the use of a range.
pub fn sys_madvise(addr: usize, length: usize, advice: i32) -> (r: AreaStep)
    requires
        !(madvise_step(addr, length, spec_classify(advice as u32)) is Done) ==> length_fits(length),
    ensures
        r == madvise_step(addr, length, spec_classify(advice as u32)),
{
    if !memory_addr::is_aligned_4k(addr) {
        return AreaStep::Done(Err(AxError::InvalidInput));
    }
    if length == 0 {
        return AreaStep::Done(Ok(0));
    }
    match classify(advice as u32) {
        Advice::Hint => AreaStep::Done(Ok(0)),
        Advice::WillNeed => AreaStep::Populate {
            start: addr,
            length: memory_addr::align_up_4k(length),
            access: MappingFlags { bits: MAPPING_READ },
            strict: false,
        },
        Advice::Discard => AreaStep::Zap { start: addr, length: memory_addr::align_up_4k(length) },
        Advice::PopulateRead => AreaStep::Populate {
            start: addr,
            length: memory_addr::align_up_4k(length),
            access: MappingFlags { bits: MAPPING_READ },
            strict: true,
        },
        Advice::PopulateWrite => AreaStep::Populate {
            start: addr,
            length: memory_addr::align_up_4k(length),
            access: MappingFlags { bits: MAPPING_READ | MAPPING_WRITE },
            strict: true,
        },
        Advice::Privileged => AreaStep::Done(Err(AxError::PermissionDenied)),
        Advice::Unsupported => AreaStep::Done(Err(AxError::InvalidInput)),
    }
}

/// Write back asynchronously.
pub const MS_ASYNC: u32 = 1;

/// Write back synchronously.
pub const MS_SYNC: u32 = 4;

/// What `msync` does for a range. Exactly one way to write back has to be asked for. Dirty
/// pages are tracked anyway, so that writing back asynchronously needs nothing.
pub open spec fn msync_step(addr: usize, length: usize, flags: u32) -> AreaStep {
    let has_async = flags & MS_ASYNC != 0;
    let has_sync = flags & MS_SYNC != 0;
    if addr % 0x1000 != 0 || has_async == has_sync {
        AreaStep::Done(Err(AxError::InvalidInput))
    } else if has_async {
        AreaStep::Done(Ok(0))
    } else {
        AreaStep::Sync { start: addr, length: whole_pages(length) }
    }
}

/// Writes the dirty pages of a range back.
pub fn sys_msync(addr: usize, length: usize, flags: u32) -> (r: AreaStep)
    requires
        !(msync_step(addr, length, flags) is Done) ==> length_fits(length),
    ensures
        r == msync_step(addr, length, flags),
{
    if !memory_addr::is_aligned_4k(addr) {
        return AreaStep::Done(Err(AxError::InvalidInput));
    }
    let has_async: bool = flags & MS_ASYNC != 0;
    let has_sync: bool = flags & MS_SYNC != 0;
    if has_async == has_sync {
        return AreaStep::Done(Err(AxError::InvalidInput));
    }
    if has_async {
        return AreaStep::Done(Ok(0));
    }
    AreaStep::Sync { start: addr, length: memory_addr::align_up_4k(length) }
}

/// What locking or unlocking a range returns.
pub open spec fn lock_result(addr: usize, length: usize, flags: u32) -> AxResult<isize> {
    Ok(0)
}

/// What locking or unlocking all pages returns.
pub open spec fn lock_all_result(flags: u32) -> AxResult<isize> {
    Ok(0)
}

/// Locks a range in memory. Pages are never taken away, so that nothing has to be done.
pub fn sys_mlock(addr: usize, length: usize) -> (r: AxResult<isize>)
    ensures
        r == lock_result(addr, length, 0),
        r == Ok::<isize, AxError>(0),
{
    sys_mlock2(addr, length, 0)
}

/// Locks a range in memory, with flags.
pub fn sys_mlock2(_addr: usize, _length: usize, _flags: u32) -> (r: AxResult<isize>)
    ensures
        r == lock_result(_addr, _length, _flags),
        r == Ok::<isize, AxError>(0),
{
    Ok(0)
}

/// Unlocks a range.
pub fn sys_munlock(_addr: usize, _length: usize) -> (r: AxResult<isize>)
    ensures
        r == lock_result(_addr, _length, 0),
        r == Ok::<isize, AxError>(0),
{
    Ok(0)
}

/// Locks all pages in memory.
pub fn sys_mlockall(_flags: u32) -> (r: AxResult<isize>)
    ensures
        r == lock_all_result(_flags),
        r == Ok::<isize, AxError>(0),
{
    Ok(0)
}

/// Unlocks all pages.
pub fn sys_munlockall() -> (r: AxResult<isize>)
    ensures
        r == lock_all_result(0),
        r == Ok::<isize, AxError>(0),
{
    Ok(0)
}

/// A range that a call works on covers the bytes that were asked for, in whole pages, and
/// no page more.
pub proof fn law_whole_pages(length: usize)
    requires
        length_fits(length),
    ensures
        whole_pages(length) % 0x1000 == 0,
        length <= whole_pages(length) < length + 0x1000,
{
}

/// An advice fails the call only where that is promised: a hint and `MADV_WILLNEED` on an
/// aligned range always succeed.
pub proof fn law_hints_succeed(addr: usize, length: usize, advice: i32)
    requires
        addr % 0x1000 == 0,
        spec_classify(advice as u32) is Hint || spec_classify(advice as u32) is WillNeed,
    ensures
        match madvise_step(addr, length, spec_classify(advice as u32)) {
            AreaStep::Done(r) => r == Ok::<isize, AxError>(0),
            AreaStep::Populate { strict, .. } => !strict,
            _ => false,
        },
{
}

/// On an aligned range that is not empty, `MADV_WILLNEED` and `MADV_POPULATE_READ` ask for
/// the same pages for the same access. Whatever comes of it, `MADV_WILLNEED` succeeds;
/// `MADV_POPULATE_READ` succeeds exactly if populating does, and hands its error on
/// otherwise. So does `MADV_POPULATE_WRITE`, for writing.
pub proof fn law_willneed_and_populate(addr: usize, length: usize, outcome: AxResult<()>)
    requires
        addr % 0x1000 == 0,
        length > 0,
    ensures
        ({
            let will_need = madvise_step(addr, length, spec_classify(MADV_WILLNEED));
            let read = madvise_step(addr, length, spec_classify(MADV_POPULATE_READ));
            let write = madvise_step(addr, length, spec_classify(MADV_POPULATE_WRITE));
            let pages = whole_pages(length);
            let for_reading = MappingFlags { bits: MAPPING_READ };
            let for_writing = MappingFlags { bits: MAPPING_READ | MAPPING_WRITE };
            let passed_on = match outcome {
                Ok(()) => Ok::<isize, AxError>(0),
                Err(e) => Err::<isize, AxError>(e),
            };
            &&& will_need == (AreaStep::Populate {
                start: addr,
                length: pages,
                access: for_reading,
                strict: false,
            })
            &&& read == (AreaStep::Populate {
                start: addr,
                length: pages,
                access: for_reading,
                strict: true,
            })
            &&& write == (AreaStep::Populate {
                start: addr,
                length: pages,
                access: for_writing,
                strict: true,
            })
            &&& will_need.result(outcome) == Ok::<isize, AxError>(0)
            &&& read.result(outcome) == passed_on
            &&& write.result(outcome) == passed_on
        }),
{
}

} // verus!
