//! What the system calls on ranges ask for, and what they return.
use vstd::prelude::*;

use crate::error::{AxError, AxResult};
use crate::flags::{permits, MmapProt};
use crate::syscall::area::{
    lock_all_result, lock_result, madvise_step, mprotect_step, msync_step, munmap_step,
    spec_classify, AreaStep,
};

verus! {

/// The bytes of a range in whole pages, and no page more.
pub open spec fn rounded(length: usize, pages: usize) -> bool {
    pages % 0x1000 == 0 && length <= pages && pages < length + 0x1000
}

/// The bytes of a range in whole pages, if the length can be rounded up.
pub open spec fn covers(length: usize, pages: usize) -> bool {
    length + 0x1000 <= usize::MAX ==> rounded(length, pages)
}

/// `munmap` unmaps from the given address on, all pages of the given length.
pub proof fn law_munmap(addr: usize, length: usize)
    requires
        length + 0x1000 <= usize::MAX,
    ensures
        munmap_step(addr, length) matches AreaStep::Unmap { start, length: pages } && start == addr
            && rounded(length, pages),
{
}

/// `mprotect` refuses exactly the words with an unknown bit and those with both directions
/// to grow. For any other word it protects all pages of the range, from the given address
/// on, with exactly the permissions that the word asks for.
pub proof fn law_mprotect(addr: usize, length: usize, prot: u32)
    ensures
        if prot & !0x0300_0007u32 != 0 || prot & 0x0300_0000 == 0x0300_0000 {
            mprotect_step(addr, length, prot) == AreaStep::Done(Err(AxError::InvalidInput))
        } else {
            mprotect_step(addr, length, prot) matches AreaStep::Protect {
                start,
                length: pages,
                flags,
            } && start == addr && covers(length, pages) && permits(flags, prot)
        },
{
    assert((prot & 0x0300_0007u32 != prot) <==> (prot & !0x0300_0007u32 != 0)) by (bit_vector);
    assert((prot & 0x0300_0000u32 == 0x0300_0000u32) <==> (prot & 0x0100_0000u32 == 0x0100_0000u32
        && prot & 0x0200_0000u32 == 0x0200_0000u32)) by (bit_vector);
    MmapProt { bits: prot }.law_to_mapping();
}

/// `mprotect` takes every word made of reading, writing and executing, also the one with
/// none of them.
pub proof fn law_mprotect_accepts(addr: usize, length: usize, prot: u32)
    requires
        length + 0x1000 <= usize::MAX,
        prot <= 7,
    ensures
        mprotect_step(addr, length, prot) matches AreaStep::Protect {
            start,
            length: pages,
            flags,
        } && start == addr && rounded(length, pages) && permits(flags, prot),
{
    assert(prot & !0x0300_0007u32 == 0 && prot & 0x0300_0000u32 != 0x0300_0000u32) by (bit_vector)
        requires
            prot <= 7u32,
    ;
    law_mprotect(addr, length, prot);
}

/// Whether an advice is a hint that nothing is done about.
pub open spec fn is_hint(advice: i32) -> bool {
    ||| 0 <= advice <= 2
    ||| 10 <= advice <= 21
    ||| advice == 25
    ||| advice == 102
    ||| advice == 103
}

/// `madvise` on a range that is not aligned is refused, and on an empty one does nothing.
/// On any other range, hints do nothing; 4, 8 and 24 discard all pages of it; 3 and 22 fault
/// all pages in for reading and 23 for writing, of which only 3 ignores errors; 100 and 101
/// are not permitted; and no other advice is known.
pub proof fn law_madvise(addr: usize, length: usize, advice: i32)
    ensures
        ({
            let step = madvise_step(addr, length, spec_classify(advice as u32));
            if addr % 0x1000 != 0 {
                step == AreaStep::Done(Err(AxError::InvalidInput))
            } else if length == 0 || is_hint(advice) {
                step == AreaStep::Done(Ok(0))
            } else if advice == 4 || advice == 8 || advice == 24 {
                step matches AreaStep::Zap { start, length: pages } && start == addr && covers(
                    length,
                    pages,
                )
            } else if advice == 3 || advice == 22 || advice == 23 {
                step matches AreaStep::Populate { start, length: pages, access, strict } && start
                    == addr && covers(length, pages) && access.bits == (if advice == 23 {
                    3usize
                } else {
                    1usize
                }) && strict == (advice != 3)
            } else if advice == 100 || advice == 101 {
                step == AreaStep::Done(Err(AxError::PermissionDenied))
            } else {
                step == AreaStep::Done(Err(AxError::InvalidInput))
            }
        }),
{
    assert(1usize | 2usize == 3usize) by (bit_vector);
    assert(advice < 0i32 ==> (advice as u32) >= 0x8000_0000u32) by (bit_vector);
}

/// `msync` is refused on a range that is not aligned, and unless exactly one of `MS_ASYNC`
/// and `MS_SYNC` is set. With the first nothing is done; with the second all pages of the
/// range are written back.
pub proof fn law_msync(addr: usize, length: usize, flags: u32)
    ensures
        ({
            let step = msync_step(addr, length, flags);
            if addr % 0x1000 != 0 || (flags & 1 == 0 && flags & 4 == 0) || (flags & 1 == 1 && flags
                & 4 == 4) {
                step == AreaStep::Done(Err(AxError::InvalidInput))
            } else if flags & 1 == 1 {
                step == AreaStep::Done(Ok(0))
            } else {
                step matches AreaStep::Sync { start, length: pages } && start == addr && covers(
                    length,
                    pages,
                )
            }
        }),
{
    assert((flags & 1u32 == 0 || flags & 1u32 == 1u32) && (flags & 4u32 == 0 || flags & 4u32 == 4u32))
        by (bit_vector);
}

/// A call that asked for work succeeds with zero if the work did, and hands its error on;
/// only faulting in that is not strict succeeds in any case. A call that was over before
/// keeps its result.
pub proof fn law_area_result(step: AreaStep, reply: AxResult<()>)
    ensures
        match step {
            AreaStep::Done(result) => step.result(reply) == result,
            AreaStep::Populate { strict, .. } => if strict {
                passed_on(reply, step.result(reply))
            } else {
                step.result(reply) == Ok::<isize, AxError>(0)
            },
            _ => passed_on(reply, step.result(reply)),
        },
{
}

/// Success is zero, and an error stays what it is.
pub open spec fn passed_on(reply: AxResult<()>, result: AxResult<isize>) -> bool {
    &&& reply is Ok ==> result == Ok::<isize, AxError>(0)
    &&& reply matches Err(e) ==> result == Err::<isize, AxError>(e)
}

/// Locking and unlocking succeed for every range, also an empty one or one where nothing is
/// mapped, and so do locking and unlocking everything.
pub proof fn law_locks(addr: usize, length: usize, flags: u32)
    ensures
        lock_result(addr, length, flags) == Ok::<isize, AxError>(0),
        lock_all_result(flags) == Ok::<isize, AxError>(0),
{
}

} // verus!
