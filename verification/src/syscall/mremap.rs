//! The `mremap` system call.
use vstd::prelude::*;

use crate::addr::{PageSize, VirtAddrRange, PAGE_SIZE_4K};
use crate::backend::Backend;
use crate::error::{AxError, AxResult};
use crate::flags::MappingFlags;
use crate::syscall::area::{length_fits, whole_pages, FreeSearch};
use crate::syscall::mmap::{is_alloc, MapRequest};

verus! {

/// The mapping may move.
pub const MREMAP_MAYMOVE: u32 = 1;

/// The mapping is to move to a given address.
pub const MREMAP_FIXED: u32 = 2;

/// A change of size, in whole pages.
#[derive(Clone, Copy, PartialEq, Eq, Structural, Debug)]
pub struct MremapPlan {
    /// Where the mapping begins.
    pub addr: usize,
    /// Its size.
    pub old_size: usize,
    /// The size that it gets.
    pub new_size: usize,
    /// Whether it may move.
    pub may_move: bool,
}

/// The next step of a call.
#[derive(Debug)]
pub enum MremapStep {
    /// Unmap the tail: from the new end up to the old one.
    Shrink(MremapPlan),
    /// Find the area that the mapping is in, and its permissions.
    FindArea(MremapPlan),
    /// Look whether the range behind the mapping is free, up to the new end.
    FindRoom(MremapPlan, MappingFlags),
    /// Add memory behind the mapping.
    Grow(MremapPlan, MapRequest),
    /// Look for a free range of the new size anywhere.
    FindNew(MremapPlan, MappingFlags),
    /// Add memory at the new place.
    MapNew(MremapPlan, MapRequest),
    /// Copy the bytes of the mapping to the new place.
    CopyData(MremapPlan, usize),
    /// Unmap the old place.
    UnmapOld(MremapPlan, usize),
    /// The call is over.
    Done(AxResult<isize>),
}

/// The work of a step.
#[derive(Clone, Copy, PartialEq, Eq, Structural, Debug)]
pub enum MremapWork {
    /// Unmap `length` bytes from `start` on.
    Unmap { start: usize, length: usize },
    /// Find the area that `addr` is in, and its permissions.
    FindArea { addr: usize },
    /// Look for a free range.
    FindFree(FreeSearch),
    /// Add the mapping that the step holds.
    AddMapping,
    /// Copy `len` bytes.
    Copy { from: usize, to: usize, len: usize },
}

/// The result of a step.
#[derive(Clone, Copy, PartialEq, Eq, Debug)]
pub enum MremapReply {
    /// Of `FindArea`: the permissions of the area, if there is one.
    Area(Option<MappingFlags>),
    /// Of `FindRoom` and `FindNew`: the free range, if there is one.
    Free(Option<usize>),
    /// Of all other steps.
    Result(AxResult<()>),
}

/// Whether the arguments are refused: an address that is not aligned, no new size, or an
/// address to move to without the permission to move.
pub open spec fn mremap_refused(addr: usize, new_size: usize, flags: u32) -> bool {
    ||| addr % 0x1000 != 0
    ||| new_size == 0
    ||| flags & MREMAP_FIXED != 0 && flags & MREMAP_MAYMOVE == 0
}

/// The change of size that a call asks for.
pub open spec fn mremap_plan(addr: usize, old_size: usize, new_size: usize, flags: u32) -> MremapPlan {
    MremapPlan {
        addr,
        old_size: whole_pages(old_size),
        new_size: whole_pages(new_size),
        may_move: flags & MREMAP_MAYMOVE != 0,
    }
}

/// Whether a request adds anonymous memory with the given permissions, not populated.
pub open spec fn adds_memory(
    req: MapRequest,
    start: usize,
    length: usize,
    flags: MappingFlags,
) -> bool {
    &&& req.start == start
    &&& req.length == length
    &&& req.flags == flags
    &&& !req.populate
    &&& is_alloc(req.backend, start, PageSize::Size4K)
}

impl MremapPlan {
    /// The addresses that the first step needs stay in range.
    pub open spec fn fits(self) -> bool {
        &&& self.new_size < self.old_size ==> self.addr + self.new_size <= usize::MAX
        &&& self.new_size > self.old_size ==> self.addr + self.old_size <= usize::MAX
    }

    /// The first address to unmap, or to add.
    pub open spec fn spec_edge(self) -> usize {
        (self.addr + if self.new_size < self.old_size {
            self.new_size
        } else {
            self.old_size
        }) as usize
    }

    /// Number of bytes to unmap, or to add.
    pub open spec fn spec_change(self) -> usize {
        (if self.new_size < self.old_size {
            self.old_size - self.new_size
        } else {
            self.new_size - self.old_size
        }) as usize
    }

    /// The first address to unmap, or to add: the lower one of the old and the new end.
    #[verifier::when_used_as_spec(spec_edge)]
    pub fn edge(self) -> (r: usize)
        requires
            self.fits(),
            self.new_size != self.old_size,
        ensures
            r == self.edge(),
    {
        self.addr + if self.new_size < self.old_size {
            self.new_size
        } else {
            self.old_size
        }
    }

    /// Number of bytes to unmap, or to add.
    #[verifier::when_used_as_spec(spec_change)]
    pub fn change(self) -> (r: usize)
        ensures
            r == self.change(),
    {
        if self.new_size < self.old_size {
            self.old_size - self.new_size
        } else {
            self.new_size - self.old_size
        }
    }
}

impl MremapStep {
    /// The addresses of the step stay in range, and the step fits the change of size.
    pub open spec fn wf(self) -> bool {
        match self {
            MremapStep::Shrink(p) => p.fits() && p.new_size < p.old_size,
            MremapStep::FindArea(p) => p.fits() && p.new_size > p.old_size,
            MremapStep::FindRoom(p, _) => p.addr + p.new_size <= usize::MAX && p.new_size
                > p.old_size,
            MremapStep::Grow(p, _) => p.new_size > p.old_size,
            MremapStep::FindNew(p, _) => p.new_size > p.old_size && p.may_move,
            MremapStep::MapNew(p, _) => p.new_size > p.old_size && p.may_move,
            MremapStep::CopyData(p, _) => p.new_size > p.old_size && p.may_move,
            MremapStep::UnmapOld(p, _) => p.new_size > p.old_size && p.may_move,
            MremapStep::Done(_) => true,
        }
    }

    /// The work of the step, in an address space from `base` up to `end`; none when the
    /// call is over.
    ///
    /// A mapping that grows in place needs exactly the bytes behind it. A new place can be
    /// anywhere, and the whole old mapping is copied there before it is unmapped.
    pub open spec fn spec_work(self, base: usize, end: usize) -> Option<MremapWork> {
        match self {
            MremapStep::Shrink(p) => Some(
                MremapWork::Unmap { start: p.edge(), length: p.change() },
            ),
            MremapStep::FindArea(p) => Some(MremapWork::FindArea { addr: p.addr }),
            MremapStep::FindRoom(p, _) => Some(
                MremapWork::FindFree(
                    FreeSearch {
                        hint: p.edge(),
                        size: p.change(),
                        limit: VirtAddrRange {
                            start: p.edge(),
                            end: (p.addr + p.new_size) as usize,
                        },
                        align: PAGE_SIZE_4K,
                    },
                ),
            ),
            MremapStep::FindNew(p, _) => Some(
                MremapWork::FindFree(
                    FreeSearch {
                        hint: base,
                        size: p.new_size,
                        limit: VirtAddrRange { start: base, end },
                        align: PAGE_SIZE_4K,
                    },
                ),
            ),
            MremapStep::Grow(_, _) | MremapStep::MapNew(_, _) => Some(MremapWork::AddMapping),
            MremapStep::CopyData(p, new_addr) => Some(
                MremapWork::Copy { from: p.addr, to: new_addr, len: p.old_size },
            ),
            MremapStep::UnmapOld(p, _) => Some(
                MremapWork::Unmap { start: p.addr, length: p.old_size },
            ),
            MremapStep::Done(_) => None,
        }
    }

    /// The work of the step, in an address space from `base` up to `end`; none when the
    /// call is over.
    pub fn work(&self, base: usize, end: usize) -> (r: Option<MremapWork>)
        requires
            self.wf(),
        ensures
            r == self.spec_work(base, end),
    {
        match self {
            MremapStep::Shrink(p) => Some(
                MremapWork::Unmap { start: p.edge(), length: p.change() },
            ),
            MremapStep::FindArea(p) => Some(MremapWork::FindArea { addr: p.addr }),
            MremapStep::FindRoom(p, _) => {
                let hint: usize = p.edge();
                let size: usize = p.change();
                Some(
                    MremapWork::FindFree(
                        FreeSearch {
                            hint,
                            size,
                            limit: VirtAddrRange::from_start_size(hint, size),
                            align: PAGE_SIZE_4K,
                        },
                    ),
                )
            },
            MremapStep::FindNew(p, _) => Some(
                MremapWork::FindFree(
                    FreeSearch {
                        hint: base,
                        size: p.new_size,
                        limit: VirtAddrRange { start: base, end },
                        align: PAGE_SIZE_4K,
                    },
                ),
            ),
            MremapStep::Grow(_, _) | MremapStep::MapNew(_, _) => Some(MremapWork::AddMapping),
            MremapStep::CopyData(p, new_addr) => Some(
                MremapWork::Copy { from: p.addr, to: *new_addr, len: p.old_size },
            ),
            MremapStep::UnmapOld(p, _) => Some(
                MremapWork::Unmap { start: p.addr, length: p.old_size },
            ),
            MremapStep::Done(_) => None,
        }
    }

    /// The new end of a mapping that grows stays in range.
    pub open spec fn accepts(self, reply: MremapReply) -> bool {
        match (self, reply) {
            (MremapStep::FindArea(p), MremapReply::Area(Some(_))) => p.addr + p.new_size
                <= usize::MAX,
            _ => true,
        }
    }

    /// The first step: shrink, nothing, or look for a way to grow.
    pub open spec fn first(plan: MremapPlan) -> MremapStep {
        if plan.new_size < plan.old_size {
            MremapStep::Shrink(plan)
        } else if plan.new_size == plan.old_size {
            MremapStep::Done(Ok(plan.addr as isize))
        } else {
            MremapStep::FindArea(plan)
        }
    }

    /// Whether `next` is the step after `reply`.
    pub open spec fn leads_to(self, reply: MremapReply, next: MremapStep) -> bool {
        match (self, reply) {
            (MremapStep::Shrink(p), MremapReply::Result(Ok(()))) => next == MremapStep::Done(
                Ok(p.addr as isize),
            ),
            (MremapStep::FindArea(p), MremapReply::Area(area)) => match area {
                Some(flags) => next == MremapStep::FindRoom(p, flags),
                None => next == MremapStep::Done(Err(AxError::NoMemory)),
            },
            (MremapStep::FindRoom(p, flags), MremapReply::Free(free)) => if free is Some {
                next matches MremapStep::Grow(p2, req) && p2 == p && adds_memory(
                    req,
                    p.edge(),
                    p.change(),
                    flags,
                )
            } else if p.may_move {
                next == MremapStep::FindNew(p, flags)
            } else {
                next == MremapStep::Done(Err(AxError::NoMemory))
            },
            (MremapStep::Grow(p, _), MremapReply::Result(Ok(()))) => next == MremapStep::Done(
                Ok(p.addr as isize),
            ),
            (MremapStep::FindNew(p, flags), MremapReply::Free(free)) => match free {
                Some(new_addr) => next matches MremapStep::MapNew(p2, req) && p2 == p
                    && adds_memory(req, new_addr, p.new_size, flags),
                None => next == MremapStep::Done(Err(AxError::NoMemory)),
            },
            (MremapStep::MapNew(p, req), MremapReply::Result(Ok(()))) => next
                == MremapStep::CopyData(p, req.start),
            (MremapStep::CopyData(p, new_addr), MremapReply::Result(Ok(()))) => next
                == MremapStep::UnmapOld(p, new_addr),
            (MremapStep::UnmapOld(_, new_addr), MremapReply::Result(Ok(()))) => next
                == MremapStep::Done(Ok(new_addr as isize)),
            (MremapStep::Shrink(_), MremapReply::Result(Err(e)))
            | (MremapStep::Grow(_, _), MremapReply::Result(Err(e)))
            | (MremapStep::MapNew(_, _), MremapReply::Result(Err(e)))
            | (MremapStep::CopyData(_, _), MremapReply::Result(Err(e)))
            | (MremapStep::UnmapOld(_, _), MremapReply::Result(Err(e))) => next
                == MremapStep::Done(Err(e)),
            _ => next == self,
        }
    }

    /// Anonymous memory with the permissions of the mapping.
    fn memory(start: usize, length: usize, flags: MappingFlags) -> (r: MapRequest)
        ensures
            adds_memory(r, start, length, flags),
    {
        MapRequest {
            start,
            length,
            flags,
            populate: false,
            backend: Backend::new_alloc(start, PageSize::Size4K),
        }
    }

    /// Goes on after a step.
    pub fn resume(self, reply: MremapReply) -> (r: MremapStep)
        requires
            self.wf(),
            self.accepts(reply),
        ensures
            r.wf(),
            self.leads_to(reply, r),
    {
        match (self, reply) {
            (MremapStep::Shrink(p), MremapReply::Result(Ok(())))
            | (MremapStep::Grow(p, _), MremapReply::Result(Ok(()))) => MremapStep::Done(
                Ok(p.addr as isize),
            ),
            (MremapStep::FindArea(p), MremapReply::Area(Some(flags))) => MremapStep::FindRoom(
                p,
                flags,
            ),
            (MremapStep::FindRoom(p, flags), MremapReply::Free(Some(_))) => MremapStep::Grow(
                p,
                MremapStep::memory(p.edge(), p.change(), flags),
            ),
            (MremapStep::FindRoom(p, flags), MremapReply::Free(None)) => {
                if p.may_move {
                    MremapStep::FindNew(p, flags)
                } else {
                    MremapStep::Done(Err(AxError::NoMemory))
                }
            },
            (MremapStep::FindNew(p, flags), MremapReply::Free(Some(new_addr))) => MremapStep::MapNew(
                p,
                MremapStep::memory(new_addr, p.new_size, flags),
            ),
            (MremapStep::FindArea(_), MremapReply::Area(None))
            | (MremapStep::FindNew(_, _), MremapReply::Free(None)) => MremapStep::Done(
                Err(AxError::NoMemory),
            ),
            (MremapStep::MapNew(p, req), MremapReply::Result(Ok(()))) => MremapStep::CopyData(
                p,
                req.start,
            ),
            (MremapStep::CopyData(p, new_addr), MremapReply::Result(Ok(()))) => MremapStep::UnmapOld(
                p,
                new_addr,
            ),
            (MremapStep::UnmapOld(_, new_addr), MremapReply::Result(Ok(()))) => MremapStep::Done(
                Ok(new_addr as isize),
            ),
            (MremapStep::Shrink(_), MremapReply::Result(Err(e)))
            | (MremapStep::Grow(_, _), MremapReply::Result(Err(e)))
            | (MremapStep::MapNew(_, _), MremapReply::Result(Err(e)))
            | (MremapStep::CopyData(_, _), MremapReply::Result(Err(e)))
            | (MremapStep::UnmapOld(_, _), MremapReply::Result(Err(e))) => MremapStep::Done(
                Err(e),
            ),
            (step, _) => step,
        }
    }
}

/// The first step of an `mremap` call.
pub open spec fn mremap_step(addr: usize, old_size: usize, new_size: usize, flags: u32) -> MremapStep {
    if mremap_refused(addr, new_size, flags) {
        MremapStep::Done(Err(AxError::InvalidInput))
    } else {
        MremapStep::first(mremap_plan(addr, old_size, new_size, flags))
    }
}

/// Starts an `mremap` call.
pub fn sys_mremap(addr: usize, old_size: usize, new_size: usize, flags: u32) -> (r: MremapStep)
    requires
        !mremap_refused(addr, new_size, flags) ==> length_fits(old_size) && length_fits(new_size)
            && mremap_plan(addr, old_size, new_size, flags).fits(),
    ensures
        r.wf(),
        r == mremap_step(addr, old_size, new_size, flags),
        mremap_refused(addr, new_size, flags) ==> r == MremapStep::Done(Err(AxError::InvalidInput)),
        !mremap_refused(addr, new_size, flags) ==> r == MremapStep::first(
            mremap_plan(addr, old_size, new_size, flags),
        ),
{
    if !PageSize::Size4K.is_aligned(addr) {
        return MremapStep::Done(Err(AxError::InvalidInput));
    }
    if new_size == 0 {
        return MremapStep::Done(Err(AxError::InvalidInput));
    }
    if flags & MREMAP_FIXED != 0 && flags & MREMAP_MAYMOVE == 0 {
        return MremapStep::Done(Err(AxError::InvalidInput));
    }
    let plan = MremapPlan {
        addr,
        old_size: memory_addr::align_up_4k(old_size),
        new_size: memory_addr::align_up_4k(new_size),
        may_move: flags & MREMAP_MAYMOVE != 0,
    };
    if plan.new_size < plan.old_size {
        MremapStep::Shrink(plan)
    } else if plan.new_size == plan.old_size {
        MremapStep::Done(Ok(plan.addr as isize))
    } else {
        MremapStep::FindArea(plan)
    }
}

/// The old place of a mapping that moves is unmapped only after its bytes were copied to
/// memory that was mapped for them.
pub proof fn law_unmaps_after_copy(step: MremapStep, reply: MremapReply, next: MremapStep)
    requires
        step.leads_to(reply, next),
        next is UnmapOld,
        next != step,
    ensures
        step is CopyData,
        reply matches MremapReply::Result(Ok(_)),
        step->CopyData_0 == next->UnmapOld_0,
        step->CopyData_1 == next->UnmapOld_1,
{
}

/// Bytes are copied only to memory that was just mapped.
pub proof fn law_copies_to_mapped(step: MremapStep, reply: MremapReply, next: MremapStep)
    requires
        step.leads_to(reply, next),
        next is CopyData,
        next != step,
    ensures
        step is MapNew,
        reply matches MremapReply::Result(Ok(_)),
        step->MapNew_1.start == next->CopyData_1,
{
}

/// The mapping keeps its address if it shrinks, keeps its size, grows in place, or may not
/// move; it can move only when it grows and may move.
pub proof fn law_address_kept(step: MremapStep, reply: MremapReply, next: MremapStep)
    requires
        step.wf(),
        !(step is Done),
        step.leads_to(reply, next),
        next matches MremapStep::Done(Ok(_)),
    ensures
        match step {
            MremapStep::Shrink(p) | MremapStep::Grow(p, _) => next == MremapStep::Done(
                Ok(p.addr as isize),
            ),
            MremapStep::UnmapOld(p, new_addr) => next == MremapStep::Done(Ok(new_addr as isize))
                && p.may_move && p.new_size > p.old_size,
            _ => false,
        },
{
}

} // verus!
