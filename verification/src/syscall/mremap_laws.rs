//! What `mremap` refuses, asks for and adds, said of its arguments and of the results of its
//! steps.
use vstd::prelude::*;

use crate::backend::Backend;
use crate::error::AxError;
use crate::flags::MappingFlags;
use crate::syscall::area_laws::rounded;
use crate::syscall::mmap::MapRequest;
use crate::syscall::mremap::{
    mremap_plan, mremap_refused, mremap_step, MremapPlan, MremapReply, MremapStep, MremapWork,
};

verus! {

/// `mremap` refuses exactly an address that is not aligned, a new size of zero, and an
/// address to move to without the permission to move. For any other call the sizes are
/// those that were asked for, in whole pages, and it may move exactly if the flags say so.
pub proof fn law_mremap_plan(addr: usize, old_size: usize, new_size: usize, flags: u32)
    requires
        old_size + 0x1000 <= usize::MAX,
        new_size + 0x1000 <= usize::MAX,
    ensures
        mremap_refused(addr, new_size, flags) <==> addr % 4096 != 0 || new_size == 0 || (flags & 2
            != 0 && flags & 1 == 0),
        ({
            let plan = mremap_plan(addr, old_size, new_size, flags);
            &&& plan.addr == addr
            &&& rounded(old_size, plan.old_size)
            &&& rounded(new_size, plan.new_size)
            &&& plan.may_move <==> flags & 1 != 0
        }),
{
}

/// A mapping that gets smaller shrinks, one that keeps its size is left alone, and one that
/// gets larger needs its area first.
pub proof fn law_mremap_begins(plan: MremapPlan)
    ensures
        plan.new_size < plan.old_size ==> MremapStep::first(plan) == MremapStep::Shrink(plan),
        plan.new_size == plan.old_size ==> MremapStep::first(plan) == MremapStep::Done(
            Ok(plan.addr as isize),
        ),
        plan.new_size > plan.old_size ==> MremapStep::first(plan) == MremapStep::FindArea(plan),
{
}

/// The number of pages of 4K that a size takes up.
pub open spec fn pages_of(size: usize) -> int {
    (size + 4095) / 4096
}

/// A call that is refused is an invalid input, and no other call is. A call that leaves the
/// number of pages as it is returns the address at once. One that makes it smaller unmaps,
/// and one that makes it larger looks the area up, each for the mapping at the address and
/// with both sizes in whole pages.
pub proof fn law_mremap_starts(addr: usize, old_size: usize, new_size: usize, flags: u32)
    ensures
        ({
            let step = mremap_step(addr, old_size, new_size, flags);
            if addr % 4096 != 0 || new_size == 0 || (flags & 2 != 0 && flags & 1 == 0) {
                step == MremapStep::Done(Err(AxError::InvalidInput))
            } else if old_size + 0x1000 > usize::MAX || new_size + 0x1000 > usize::MAX {
                true
            } else if pages_of(new_size) == pages_of(old_size) {
                step == MremapStep::Done(Ok(addr as isize))
            } else if pages_of(new_size) < pages_of(old_size) {
                step matches MremapStep::Shrink(p) && p.addr == addr && p.old_size == pages_of(
                    old_size,
                ) * 4096 && p.new_size == pages_of(new_size) * 4096
            } else {
                step matches MremapStep::FindArea(p) && p.addr == addr && p.old_size == pages_of(
                    old_size,
                ) * 4096 && p.new_size == pages_of(new_size) * 4096 && (p.may_move <==> flags & 1
                    != 0)
            }
        }),
{
}

/// The request is for anonymous memory in pages of 4K, not populated.
pub open spec fn is_memory(req: MapRequest, start: int, length: int) -> bool {
    &&& req.start == start
    &&& req.length == length
    &&& !req.populate
    &&& (req.backend matches Backend::Cow(b) && b.start == start && b.size.bytes() == 4096
        && b.file is None && b.vm_flags@ == 0)
}

/// Memory that is added has the permissions that the step before it had. In place it is the
/// difference of the sizes, right behind the mapping; at a new place it is the whole new
/// size.
pub proof fn law_mremap_adds(
    plan: MremapPlan,
    flags: MappingFlags,
    free: Option<usize>,
    next: MremapStep,
)
    requires
        plan.new_size > plan.old_size,
        plan.addr + plan.new_size <= usize::MAX,
    ensures
        MremapStep::FindRoom(plan, flags).leads_to(MremapReply::Free(free), next) ==> {
            &&& free is Some ==> (next matches MremapStep::Grow(p, req) && p == plan && is_memory(
                req,
                plan.addr + plan.old_size,
                plan.new_size - plan.old_size,
            ) && req.flags == flags)
            &&& free is None && plan.may_move ==> next == MremapStep::FindNew(plan, flags)
            &&& free is None && !plan.may_move ==> next == MremapStep::Done(
                Err(AxError::NoMemory),
            )
        },
        MremapStep::FindNew(plan, flags).leads_to(MremapReply::Free(free), next) ==> {
            &&& free matches Some(place) ==> (next matches MremapStep::MapNew(p, req) && p == plan
                && is_memory(req, place as int, plan.new_size as int) && req.flags == flags)
            &&& free is None ==> next == MremapStep::Done(Err(AxError::NoMemory))
        },
{
}

/// The area gives the permissions; without one there is no memory. Memory at a new place is
/// filled before the old place is unmapped. A call ends with the address of the mapping, or
/// with the error of a step, and a result of another kind than the step asks for changes
/// nothing.
pub proof fn law_mremap_goes_on(step: MremapStep, reply: MremapReply, next: MremapStep)
    requires
        step.leads_to(reply, next),
    ensures
        step matches MremapStep::FindArea(p) ==> (reply matches MremapReply::Area(area)
            ==> match area {
            Some(flags) => next == MremapStep::FindRoom(p, flags),
            None => next == MremapStep::Done(Err(AxError::NoMemory)),
        }),
        reply matches MremapReply::Result(Ok(_)) ==> match step {
            MremapStep::Shrink(p) => next == MremapStep::Done(Ok(p.addr as isize)),
            MremapStep::Grow(p, _) => next == MremapStep::Done(Ok(p.addr as isize)),
            MremapStep::MapNew(p, req) => next == MremapStep::CopyData(p, req.start),
            MremapStep::CopyData(p, a) => next == MremapStep::UnmapOld(p, a),
            MremapStep::UnmapOld(_, a) => next == MremapStep::Done(Ok(a as isize)),
            _ => next == step,
        },
        reply matches MremapReply::Result(Err(e)) ==> match step {
            MremapStep::Shrink(_)
            | MremapStep::Grow(_, _)
            | MremapStep::MapNew(_, _)
            | MremapStep::CopyData(_, _)
            | MremapStep::UnmapOld(_, _) => next == MremapStep::Done(Err(e)),
            _ => next == step,
        },
        reply is Area && !(step is FindArea) ==> next == step,
        reply is Free && !(step is FindRoom) && !(step is FindNew) ==> next == step,
        step is Done ==> next == step,
{
}

/// The work of each step. A mapping that shrinks loses the bytes from its new end up to its
/// old one. One that grows in place needs exactly the bytes behind it, up to its new end.
/// A new place can be anywhere in the address space; all old bytes are copied there, and
/// all of them are unmapped at the old place.
pub proof fn law_mremap_work(step: MremapStep, base: usize, end: usize)
    requires
        step.wf(),
    ensures
        match step {
            MremapStep::Shrink(p) => step.spec_work(base, end) matches Some(
                MremapWork::Unmap { start, length },
            ) && start == p.addr + p.new_size && start + length == p.addr + p.old_size,
            MremapStep::FindArea(p) => step.spec_work(base, end) == Some(
                MremapWork::FindArea { addr: p.addr },
            ),
            MremapStep::FindRoom(p, _) => step.spec_work(base, end) matches Some(
                MremapWork::FindFree(s),
            ) && s.hint == p.addr + p.old_size && s.hint + s.size == p.addr + p.new_size
                && s.limit.start == s.hint && s.limit.end == p.addr + p.new_size && s.align == 4096,
            MremapStep::FindNew(p, _) => step.spec_work(base, end) matches Some(
                MremapWork::FindFree(s),
            ) && s.hint == base && s.size == p.new_size && s.limit.start == base && s.limit.end
                == end && s.align == 4096,
            MremapStep::Grow(_, _) | MremapStep::MapNew(_, _) => step.spec_work(base, end) == Some(
                MremapWork::AddMapping,
            ),
            MremapStep::CopyData(p, a) => step.spec_work(base, end) == Some(
                MremapWork::Copy { from: p.addr, to: a, len: p.old_size },
            ),
            MremapStep::UnmapOld(p, _) => step.spec_work(base, end) == Some(
                MremapWork::Unmap { start: p.addr, length: p.old_size },
            ),
            MremapStep::Done(_) => step.spec_work(base, end) is None,
        },
{
}

/// The steps of a call that was not refused, with the result of each.
pub open spec fn is_run(steps: Seq<MremapStep>, replies: Seq<MremapReply>, plan: MremapPlan) -> bool {
    &&& steps.len() == replies.len() + 1
    &&& steps[0] == MremapStep::first(plan)
    &&& steps[0].wf()
    &&& forall|i: int|
        0 <= i < replies.len() ==> #[trigger] steps[i].accepts(replies[i]) && steps[i].leads_to(
            replies[i],
            steps[i + 1],
        ) && steps[i + 1].wf()
}

/// Every step is about the plan.
spec fn about(step: MremapStep, plan: MremapPlan) -> bool {
    match step {
        MremapStep::Shrink(p) => p == plan && p.new_size < p.old_size,
        MremapStep::FindArea(p) | MremapStep::FindRoom(p, _) | MremapStep::FindNew(p, _) => p
            == plan && p.new_size > p.old_size,
        MremapStep::Grow(p, req) => p == plan && is_memory(
            req,
            p.addr + p.old_size,
            p.new_size - p.old_size,
        ),
        MremapStep::MapNew(p, req) => p == plan && p.may_move && is_memory(
            req,
            req.start as int,
            p.new_size as int,
        ),
        MremapStep::CopyData(p, _) | MremapStep::UnmapOld(p, _) => p == plan && p.may_move,
        MremapStep::Done(r) => r matches Ok(a) ==> a == plan.addr as isize || (plan.may_move
            && plan.new_size > plan.old_size),
    }
}

/// The step hands the permissions of the area on.
spec fn carries(step: MremapStep, flags: MappingFlags) -> bool {
    match step {
        MremapStep::FindRoom(_, f) | MremapStep::FindNew(_, f) => f == flags,
        MremapStep::Grow(_, req) | MremapStep::MapNew(_, req) => req.flags == flags,
        MremapStep::Shrink(_) | MremapStep::FindArea(_) => false,
        _ => true,
    }
}

proof fn lemma_run_about(
    steps: Seq<MremapStep>,
    replies: Seq<MremapReply>,
    plan: MremapPlan,
    i: int,
)
    requires
        is_run(steps, replies, plan),
        0 <= i < steps.len(),
    ensures
        about(steps[i], plan),
    decreases i,
{
    if i > 0 {
        lemma_run_about(steps, replies, plan, i - 1);
        assert(steps[i - 1].accepts(replies[i - 1]));
        assert(steps[i - 1].leads_to(replies[i - 1], steps[i - 1 + 1]));
        if i > 1 {
            assert(steps[i - 2].accepts(replies[i - 2]));
            assert(steps[i - 2 + 1].wf());
        }
    }
}

proof fn lemma_run_carries(
    steps: Seq<MremapStep>,
    replies: Seq<MremapReply>,
    plan: MremapPlan,
    flags: MappingFlags,
    i: int,
    j: int,
)
    requires
        is_run(steps, replies, plan),
        0 <= i < j < steps.len(),
        steps[i] is FindArea,
        replies[i] == MremapReply::Area(Some(flags)),
    ensures
        carries(steps[j], flags),
    decreases j,
{
    assert(steps[j - 1].accepts(replies[j - 1]));
    assert(steps[j - 1].leads_to(replies[j - 1], steps[j - 1 + 1]));
    if j > i + 1 {
        lemma_run_carries(steps, replies, plan, flags, i, j - 1);
    }
}

/// Whatever the results of its steps, memory that a call adds has exactly the permissions
/// that the area of the mapping was found to have. In place it is the difference of the
/// sizes, right behind the mapping; at a new place, which takes the permission to move, it
/// is the whole new size.
pub proof fn law_mremap_keeps_permissions(
    steps: Seq<MremapStep>,
    replies: Seq<MremapReply>,
    plan: MremapPlan,
    flags: MappingFlags,
    i: int,
    j: int,
)
    requires
        is_run(steps, replies, plan),
        0 <= i < j < steps.len(),
        steps[i] is FindArea,
        replies[i] == MremapReply::Area(Some(flags)),
    ensures
        steps[j] matches MremapStep::Grow(_, req) ==> {
            &&& req.flags == flags
            &&& is_memory(req, plan.addr + plan.old_size, plan.new_size - plan.old_size)
        },
        steps[j] matches MremapStep::MapNew(_, req) ==> {
            &&& req.flags == flags
            &&& plan.may_move
            &&& is_memory(req, req.start as int, plan.new_size as int)
        },
{
    lemma_run_about(steps, replies, plan, j);
    lemma_run_carries(steps, replies, plan, flags, i, j);
}

/// Whatever the results of its steps, a call that succeeds returns the address of the
/// mapping, unless the mapping gets larger and may move.
pub proof fn law_mremap_returns(
    steps: Seq<MremapStep>,
    replies: Seq<MremapReply>,
    plan: MremapPlan,
    i: int,
)
    requires
        is_run(steps, replies, plan),
        0 <= i < steps.len(),
    ensures
        steps[i] matches MremapStep::Done(Ok(a)) ==> a == plan.addr as isize || (plan.may_move
            && plan.new_size > plan.old_size),
{
    lemma_run_about(steps, replies, plan, i);
}

} // verus!
