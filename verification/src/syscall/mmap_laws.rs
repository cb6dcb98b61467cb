//! What `mmap` refuses, asks for and adds, said of its arguments and of the results of its
//! steps.
use vstd::prelude::*;

use crate::addr::{law_align, PageSize};
use crate::backend::cow::FileRef;
use crate::backend::shared::SharedPages;
use crate::backend::Backend;
use crate::error::AxError;
use crate::flags::{permits, MmapProt};
use crate::syscall::mmap::{
    law_plan_covers_request, mmap_check, mmap_error, mmap_plan, mmap_starts, DeviceMmap, FileKind,
    MapRequest, MmapPlan, MmapReply, MmapStep,
};

verus! {

/// The size in bytes of the pages that the flags ask for.
pub open spec fn asked_page(flags: u32) -> int {
    if flags & 0x7804_0000 == 0x7804_0000 {
        0x4000_0000
    } else if flags & 0x4_0000 != 0 {
        0x20_0000
    } else {
        0x1000
    }
}

/// Whether the flags insist on the address.
pub open spec fn asks_fixed(flags: u32) -> bool {
    flags & 0x10 != 0 || flags & 0x10_0000 != 0
}

/// Whether an unknown flag is set.
pub open spec fn asks_unknown(flags: u32) -> bool {
    flags & !0x7816_c83fu32 != 0
}

proof fn lemma_flag_bits(flags: u32)
    ensures
        (flags & 0x10 == 0x10) <==> (flags & 0x10 != 0),
        (flags & 0x10_0000 == 0x10_0000) <==> (flags & 0x10_0000 != 0),
        (flags & 0x20 == 0x20) <==> (flags & 0x20 != 0),
        (flags & 0x8000 == 0x8000) <==> (flags & 0x8000 != 0),
        (flags & 0x4_0000 == 0x4_0000) <==> (flags & 0x4_0000 != 0),
        (flags & 0x7816_c83f == flags) <==> (flags & !0x7816_c83fu32 == 0),
{
    assert(((flags & 0x10u32 == 0x10u32) <==> (flags & 0x10u32 != 0)) && ((flags & 0x10_0000u32
        == 0x10_0000u32) <==> (flags & 0x10_0000u32 != 0)) && ((flags & 0x20u32 == 0x20u32) <==> (
    flags & 0x20u32 != 0)) && ((flags & 0x8000u32 == 0x8000u32) <==> (flags & 0x8000u32 != 0)) && ((
    flags & 0x4_0000u32 == 0x4_0000u32) <==> (flags & 0x4_0000u32 != 0)) && ((flags
        & 0x7816_c83fu32 == flags) <==> (flags & !0x7816_c83fu32 == 0))) by (bit_vector);
}

/// `mmap` takes exactly the calls with a length, one of the three types, either a file or
/// the flag for none, a position that is not negative, a multiple of 4K and zero without a
/// file, and, if they insist on an address, one that is not zero and a multiple of the page
/// size. An unknown flag is not supported with the type that validates flags, whatever else
/// is wrong with the call but its length. Everything else is an invalid input.
pub proof fn law_mmap_refuses(addr: usize, length: usize, flags: u32, fd: i32, offset: isize)
    ensures
        ({
            let error = mmap_error(addr, length, flags, fd, offset);
            let kind = flags & 0xf;
            if length == 0 {
                error == Some(AxError::InvalidInput)
            } else if kind == 3 && asks_unknown(flags) {
                error == Some(AxError::OperationNotSupported)
            } else if (kind == 1 || kind == 2 || kind == 3) && (flags & 0x20 != 0 <==> fd <= 0)
                && offset >= 0 && offset as int % 4096 == 0 && (fd <= 0 ==> offset == 0) && (
            asks_fixed(flags) ==> addr != 0 && addr as int % asked_page(flags) == 0) {
                error is None
            } else {
                error == Some(AxError::InvalidInput)
            }
        }),
{
    lemma_flag_bits(flags);
}

/// The plan of a call covers the bytes that were asked for, in whole pages and no page more.
/// Its permissions are exactly those of the protection word, and it shares changes, insists
/// on its address, replaces what is there and is populated exactly if the flags say so.
pub proof fn law_mmap_plan(
    addr: usize,
    length: usize,
    prot: u32,
    flags: u32,
    fd: i32,
    offset: isize,
)
    requires
        mmap_error(addr, length, flags, fd, offset) is None,
        addr + length + asked_page(flags) <= usize::MAX,
    ensures
        ({
            let plan = mmap_plan(addr, length, prot, flags, fd, offset);
            &&& plan.page_size.bytes() == asked_page(flags)
            &&& plan.start as int % asked_page(flags) == 0
            &&& plan.length as int % asked_page(flags) == 0
            &&& plan.start <= addr < plan.start + asked_page(flags)
            &&& addr + length <= plan.start + plan.length < addr + length + asked_page(flags)
            &&& asks_fixed(flags) ==> plan.start == addr
            &&& permits(plan.flags, prot)
            &&& plan.shared <==> flags & 0xf != 2
            &&& plan.fixed <==> asks_fixed(flags)
            &&& plan.replace <==> flags & 0x10_0000 == 0
            &&& plan.populate <==> flags & 0x8000 != 0
            &&& plan.fd == fd
            &&& plan.offset == offset
        }),
{
    lemma_flag_bits(flags);
    law_mmap_refuses(addr, length, flags, fd, offset);
    law_plan_covers_request(addr, length, prot, flags, fd, offset);
    MmapProt { bits: prot & 0x0300_0007 }.law_to_mapping();
    assert((prot & 0x0300_0007u32) & 1u32 == prot & 1u32 && (prot & 0x0300_0007u32) & 2u32 == prot
        & 2u32 && (prot & 0x0300_0007u32) & 4u32 == prot & 4u32) by (bit_vector);
}

/// Checking the arguments gives the error of a call that is refused, and of any other call
/// the size of the pages that its flags ask for. A call that is refused ends with its error.
/// Any other call looks for a place if it does not insist on an address; if it does, it
/// unmaps what is there, or opens its file, or allocates shared memory, or adds private
/// memory, with exactly the permissions of the protection word.
pub proof fn law_mmap_starts(
    addr: usize,
    length: usize,
    prot: u32,
    flags: u32,
    fd: i32,
    offset: isize,
    step: MmapStep,
)
    requires
        mmap_starts(addr, length, prot, flags, fd, offset, step),
        mmap_error(addr, length, flags, fd, offset) is None ==> addr + length + asked_page(flags)
            <= usize::MAX,
    ensures
        mmap_error(addr, length, flags, fd, offset) matches Some(e) ==> {
            &&& mmap_check(addr, length, flags, fd, offset) == Err::<PageSize, AxError>(e)
            &&& step == MmapStep::Done(Err(e))
        },
        mmap_error(addr, length, flags, fd, offset) is None ==> {
            &&& mmap_check(addr, length, flags, fd, offset) matches Ok(size) && size.bytes()
                == asked_page(flags)
            &&& !asks_fixed(flags) ==> (step matches MmapStep::FindFree(p) && permits(p.flags, prot)
                && addr + length <= p.start + p.length)
            &&& asks_fixed(flags) && flags & 0x10_0000 == 0 ==> (step matches MmapStep::Unmap(p)
                && permits(p.flags, prot) && p.start == addr && addr + length <= p.start + p.length)
            &&& asks_fixed(flags) && flags & 0x10_0000 != 0 ==> match step {
                MmapStep::OpenFile(p) => fd > 0 && permits(p.flags, prot) && p.start == addr,
                MmapStep::AllocShared(p) => fd <= 0 && flags & 0xf != 2 && permits(p.flags, prot)
                    && p.start == addr,
                MmapStep::AddMapping(req) => fd <= 0 && flags & 0xf == 2 && permits(req.flags, prot)
                    && req.start == addr && req.length >= length,
                _ => false,
            }
        },
{
    if mmap_error(addr, length, flags, fd, offset) is None {
        law_mmap_plan(addr, length, prot, flags, fd, offset);
    }
}

/// Both searches are for the planned length within the address space, aligned to the pages:
/// one from the planned address on, one from the lowest address on.
pub proof fn law_mmap_searches(plan: MmapPlan, base: usize, end: usize)
    ensures
        ({
            let (near, anywhere) = plan.spec_searches(base, end);
            &&& near.hint == plan.start && anywhere.hint == base
            &&& near.size == plan.length && anywhere.size == plan.length
            &&& near.limit.start == base && anywhere.limit.start == base
            &&& near.limit.end == end && anywhere.limit.end == end
            &&& near.align == plan.page_size.bytes() && anywhere.align == plan.page_size.bytes()
        }),
{
}

/// A request for private memory without a file: pages of the given size that begin with the
/// mapping.
pub open spec fn anonymous(req: MapRequest, size: PageSize) -> bool {
    req.backend matches Backend::Cow(b) && b.start == req.start && b.size == size && b.file is None
        && b.vm_flags@ == 0
}

/// A request for a private mapping of a file from a position on.
pub open spec fn private_file(req: MapRequest, size: PageSize, file: FileRef, offset: usize) -> bool {
    req.backend matches Backend::Cow(b) && b.start == req.start && b.size == size && (
    b.file matches Some(f) && f.file == file && f.start == offset && f.end is None)
        && b.vm_flags@ == 0
}

/// A request for a shared mapping of a file from a position on.
pub open spec fn shared_file(req: MapRequest, file: FileRef, offset: usize) -> bool {
    req.backend matches Backend::File(b) && b.start == req.start && b.file == file && b.offset
        == offset
}

/// A request for shared memory behind the given pages.
pub open spec fn shared_memory(req: MapRequest, pages: SharedPages) -> bool {
    req.backend matches Backend::Shared(b) && b.start == req.start && *b.pages == pages
        && b.vm_flags@ == 1
}

/// The request is for the planned mapping, with `length` bytes.
pub open spec fn as_planned(req: MapRequest, plan: MmapPlan, length: int) -> bool {
    &&& req.start == plan.start
    &&& req.length == length
    &&& req.flags == plan.flags
    &&& req.populate == plan.populate
}

/// When the place is known, a call with a file opens it; shared memory is allocated; and
/// private memory is added as planned.
pub open spec fn goes_on_at(next: MmapStep, plan: MmapPlan) -> bool {
    if plan.fd > 0 {
        next matches MmapStep::OpenFile(p) && p == plan
    } else if plan.shared {
        next matches MmapStep::AllocShared(p) && p == plan
    } else {
        next matches MmapStep::AddMapping(req) && as_planned(req, plan, plan.length as int)
            && anonymous(req, plan.page_size)
    }
}

/// A call that does not insist on an address looks for a place. One that does is there:
/// without `MAP_FIXED_NOREPLACE` it first unmaps exactly the planned range.
pub proof fn law_mmap_begins(first: MmapStep, plan: MmapPlan)
    requires
        first.is_first(plan),
    ensures
        !plan.fixed ==> (first matches MmapStep::FindFree(p) && p == plan),
        plan.fixed && plan.replace ==> (first matches MmapStep::Unmap(p) && p == plan),
        plan.fixed && !plan.replace ==> goes_on_at(first, plan),
{
}

/// A free place near the asked-for address is taken before one anywhere; without any there
/// is no memory. After unmapping, the call goes on at the planned place.
pub proof fn law_mmap_places(plan: MmapPlan, reply: MmapReply, next: MmapStep)
    ensures
        MmapStep::Unmap(plan).leads_to(reply, next) && (reply matches MmapReply::Unmapped(Ok(_)))
            ==> goes_on_at(next, plan),
        MmapStep::FindFree(plan).leads_to(reply, next) ==> (reply matches MmapReply::Free {
            near,
            anywhere,
        } ==> {
            &&& near matches Some(a) ==> goes_on_at(next, (MmapPlan { start: a, ..plan }))
            &&& near is None && anywhere is Some ==> goes_on_at(
                next,
                (MmapPlan { start: anywhere.unwrap(), ..plan }),
            )
            &&& near is None && anywhere is None ==> next == MmapStep::Done(
                Err(AxError::NoMemory),
            )
        }),
{
}

/// A private mapping of a file is a copy-on-write mapping of it from the asked-for position
/// on. A shared one depends on the file: a cached file or device is mapped itself, one that
/// is read only privately, and one without anything to map is no device to map.
pub proof fn law_mmap_files(plan: MmapPlan, file: FileRef, reply: MmapReply, next: MmapStep)
    ensures
        MmapStep::OpenFile(plan).leads_to(reply, next) ==> (reply matches MmapReply::Opened(
            Ok(opened),
        ) ==> if plan.shared {
            next matches MmapStep::Inspect(p, f) && p == plan && f == opened
        } else {
            next matches MmapStep::CheckFile(p, f) && p == plan && f == opened
        }),
        MmapStep::CheckFile(plan, file).leads_to(reply, next) && (
        reply matches MmapReply::Checked(Ok(_))) ==> (next matches MmapStep::AddMapping(req)
            && as_planned(req, plan, plan.length as int) && private_file(
            req,
            plan.page_size,
            file,
            plan.offset,
        )),
        MmapStep::Inspect(plan, file).leads_to(reply, next) ==> (reply
            matches MmapReply::Inspected(Ok(kind)) ==> match kind {
            FileKind::Cached => {
                next matches MmapStep::AddMapping(req) && as_planned(req, plan, plan.length as int)
                    && shared_file(req, file, plan.offset)
            },
            FileKind::Direct => next == MmapStep::Done(Err(AxError::NoSuchDevice)),
            FileKind::Device(DeviceMmap::Unsupported) => next == MmapStep::Done(
                Err(AxError::NoSuchDevice),
            ),
            FileKind::Device(DeviceMmap::Cache) => {
                next matches MmapStep::AddMapping(req) && as_planned(req, plan, plan.length as int)
                    && shared_file(req, file, plan.offset)
            },
            FileKind::Device(DeviceMmap::ReadOnly) => {
                next matches MmapStep::AddMapping(req) && as_planned(req, plan, plan.length as int)
                    && private_file(req, plan.page_size, file, plan.offset)
            },
            FileKind::Device(DeviceMmap::Physical { .. }) => true,
        }),
{
    assert(plan.offset as u64 == plan.offset);
}

/// Device memory is mapped from the asked-for position on: the mapping is as long as
/// planned, or as many whole pages as the device has left, and the byte at its beginning is
/// the one of the device at that position. A position behind the device is an invalid input.
pub proof fn law_mmap_device(
    plan: MmapPlan,
    file: FileRef,
    start: usize,
    end: usize,
    next: MmapStep,
)
    requires
        ({
            let reply = MmapReply::Inspected(
                Ok(FileKind::Device(DeviceMmap::Physical { start, end })),
            );
            let step = MmapStep::Inspect(plan, file);
            step.accepts(reply) && step.leads_to(reply, next)
        }),
    ensures
        ({
            let first = start + plan.offset;
            let size = plan.page_size.bytes() as int;
            if first >= end {
                next == MmapStep::Done(Err(AxError::InvalidInput))
            } else {
                next matches MmapStep::AddMapping(req) && as_planned(
                    req,
                    plan,
                    req.length as int,
                ) && req.length <= plan.length && req.length <= end - first && (req.length
                    < plan.length ==> req.length as int % size == 0 && end - first < req.length
                    + size) && (req.backend matches Backend::Linear(b) && (plan.start <= isize::MAX
                    && first <= isize::MAX ==> plan.start - b.offset == first))
            }
        }),
{
    if start + plan.offset < end {
        law_align(end - (start + plan.offset), plan.page_size.bytes() as int);
    }
}

/// Shared memory is added as planned, with the pages that were allocated for it.
pub proof fn law_mmap_shares(plan: MmapPlan, pages: SharedPages, next: MmapStep)
    requires
        MmapStep::AllocShared(plan).leads_to(MmapReply::Allocated(Ok(pages)), next),
    ensures
        next matches MmapStep::AddMapping(req) && as_planned(req, plan, plan.length as int)
            && shared_memory(req, pages),
{
}

/// A call that has added its mapping returns where it begins. An error of any step is the
/// result of the call, and a result of another kind than the step asks for changes nothing.
pub proof fn law_mmap_ends(step: MmapStep, reply: MmapReply, next: MmapStep)
    requires
        step.leads_to(reply, next),
    ensures
        step matches MmapStep::AddMapping(req) ==> (reply matches MmapReply::Mapped(Ok(_))
            ==> next == MmapStep::Done(Ok(req.start as isize))),
        step is AddMapping ==> (reply matches MmapReply::Mapped(Err(e)) ==> next
            == MmapStep::Done(Err(e))),
        step is Unmap ==> (reply matches MmapReply::Unmapped(Err(e)) ==> next == MmapStep::Done(
            Err(e),
        )),
        step is OpenFile ==> (reply matches MmapReply::Opened(Err(e)) ==> next == MmapStep::Done(
            Err(e),
        )),
        step is Inspect ==> (reply matches MmapReply::Inspected(Err(e)) ==> next
            == MmapStep::Done(Err(e))),
        step is CheckFile ==> (reply matches MmapReply::Checked(Err(e)) ==> next
            == MmapStep::Done(Err(e))),
        step is AllocShared ==> (reply matches MmapReply::Allocated(Err(e)) ==> next
            == MmapStep::Done(Err(e))),
        step is Done ==> next == step,
        step is Unmap && !(reply is Unmapped) ==> next == step,
        step is FindFree && !(reply is Free) ==> next == step,
        step is OpenFile && !(reply is Opened) ==> next == step,
        step is Inspect && !(reply is Inspected) ==> next == step,
        step is CheckFile && !(reply is Checked) ==> next == step,
        step is AllocShared && !(reply is Allocated) ==> next == step,
        step is AddMapping && !(reply is Mapped) ==> next == step,
{
}

/// The steps of a call that was not refused, with the result of each.
pub open spec fn is_run(steps: Seq<MmapStep>, replies: Seq<MmapReply>, plan: MmapPlan) -> bool {
    &&& steps.len() == replies.len() + 1
    &&& steps[0].is_first(plan)
    &&& forall|i: int|
        0 <= i < replies.len() ==> #[trigger] steps[i].accepts(replies[i]) && steps[i].leads_to(
            replies[i],
            steps[i + 1],
        )
}

/// What holds of every step of a call.
spec fn in_plan(step: MmapStep, plan: MmapPlan) -> bool {
    match step {
        MmapStep::Unmap(p) => p == plan && plan.fixed && plan.replace,
        MmapStep::FindFree(p) => p == plan && !plan.fixed,
        MmapStep::OpenFile(p) | MmapStep::Inspect(p, _) | MmapStep::CheckFile(p, _) => {
            &&& plan.fd > 0
            &&& p == MmapPlan { start: p.start, ..plan }
            &&& plan.fixed ==> p.start == plan.start
            &&& step is Inspect ==> plan.shared
            &&& step is CheckFile ==> !plan.shared
        },
        MmapStep::AllocShared(p) => {
            &&& plan.fd <= 0 && plan.shared
            &&& p == MmapPlan { start: p.start, ..plan }
            &&& plan.fixed ==> p.start == plan.start
        },
        MmapStep::AddMapping(req) => added_for(req, plan),
        MmapStep::Done(r) => r matches Ok(a) ==> (plan.fixed ==> a == plan.start as isize),
    }
}

/// The mapping that a call with the plan adds.
spec fn added_for(req: MapRequest, plan: MmapPlan) -> bool {
    &&& plan.fixed ==> req.start == plan.start
    &&& req.flags == plan.flags
    &&& req.populate == plan.populate
    &&& req.length <= plan.length
    &&& !(req.backend is Linear) ==> req.length == plan.length
    &&& plan.fd <= 0 && !plan.shared ==> anonymous(req, plan.page_size)
    &&& plan.fd <= 0 && plan.shared ==> {
        req.backend matches Backend::Shared(b) && b.start == req.start && b.pages.size
            == PageSize::Size4K && b.pages@.len() * 0x1000 == req.length && b.vm_flags@ == 1
    }
    &&& plan.fd > 0 && !plan.shared ==> from_file(req, plan)
    &&& plan.fd > 0 && plan.shared ==> (req.backend matches Backend::File(b) && b.start == req.start
        && b.offset == plan.offset) || req.backend is Linear || from_file(req, plan)
}

spec fn from_file(req: MapRequest, plan: MmapPlan) -> bool {
    req.backend matches Backend::Cow(b) && b.start == req.start && b.size == plan.page_size && (
    b.file matches Some(f) && f.start == plan.offset && f.end is None) && b.vm_flags@ == 0
}

proof fn lemma_in_plan(step: MmapStep, reply: MmapReply, next: MmapStep, plan: MmapPlan)
    requires
        in_plan(step, plan),
        step.accepts(reply),
        step.leads_to(reply, next),
    ensures
        in_plan(next, plan),
{
    assert(plan.offset as u64 == plan.offset);
    if let MmapStep::Inspect(p, _) = step {
        if let MmapReply::Inspected(Ok(FileKind::Device(DeviceMmap::Physical { start, end }))) =
            reply {
            if start + p.offset < end {
                law_align(end - (start + p.offset), p.page_size.bytes() as int);
            }
        }
    }
}

proof fn lemma_run_in_plan(
    steps: Seq<MmapStep>,
    replies: Seq<MmapReply>,
    plan: MmapPlan,
    i: int,
)
    requires
        is_run(steps, replies, plan),
        0 <= i < steps.len(),
    ensures
        in_plan(steps[i], plan),
    decreases i,
{
    if i > 0 {
        lemma_run_in_plan(steps, replies, plan, i - 1);
        assert(steps[i - 1].accepts(replies[i - 1]));
        lemma_in_plan(steps[i - 1], replies[i - 1], steps[i - 1 + 1], plan);
    }
}

/// Whatever the results of its steps, a call that adds a mapping adds it with exactly the
/// permissions that the protection word asks for, populated exactly if the flags say so, and
/// where it insists on an address, there. It is all bytes that were asked for, unless a
/// device has fewer. Without a file it is anonymous memory: private, or shared pages of the
/// whole length. With one it is a mapping of it from the asked-for position on, or memory
/// of a device. Only a call that insists on its address and may replace what is there
/// unmaps anything, and that is the range that it maps.
pub proof fn law_mmap_run(
    addr: usize,
    length: usize,
    prot: u32,
    flags: u32,
    fd: i32,
    offset: isize,
    steps: Seq<MmapStep>,
    replies: Seq<MmapReply>,
    i: int,
)
    requires
        mmap_error(addr, length, flags, fd, offset) is None,
        addr + length + asked_page(flags) <= usize::MAX,
        is_run(steps, replies, mmap_plan(addr, length, prot, flags, fd, offset)),
        0 <= i < steps.len(),
    ensures
        steps[i] matches MmapStep::AddMapping(req) ==> {
            &&& permits(req.flags, prot)
            &&& req.populate <==> flags & 0x8000 != 0
            &&& asks_fixed(flags) ==> req.start == addr
            &&& !(req.backend is Linear) ==> req.length >= length && req.length as int
                % asked_page(flags) == 0 && req.length < length + 2 * asked_page(flags)
            &&& fd <= 0 && flags & 0xf == 2 ==> (req.backend matches Backend::Cow(b) && b.start
                == req.start && b.size.bytes() == asked_page(flags) && b.file is None
                && b.vm_flags@ == 0)
            &&& fd <= 0 && flags & 0xf != 2 ==> (req.backend matches Backend::Shared(b) && b.start
                == req.start && b.pages.size is Size4K && b.pages@.len() * 4096 == req.length
                && b.vm_flags@ == 1)
            &&& fd > 0 && flags & 0xf == 2 ==> (req.backend matches Backend::Cow(b) && b.start
                == req.start && b.size.bytes() == asked_page(flags) && (b.file matches Some(f)
                && f.start == offset && f.end is None) && b.vm_flags@ == 0)
            &&& fd > 0 && flags & 0xf != 2 ==> match req.backend {
                Backend::File(b) => b.start == req.start && b.offset == offset,
                Backend::Cow(b) => b.start == req.start && (b.file matches Some(f) && f.start
                    == offset && f.end is None),
                Backend::Linear(_) => true,
                Backend::Shared(_) => false,
            }
        },
        steps[i] matches MmapStep::Unmap(p) ==> {
            &&& flags & 0x10 != 0
            &&& flags & 0x10_0000 == 0
            &&& p.start == addr
            &&& addr + length <= p.start + p.length < addr + length + asked_page(flags)
        },
        steps[i] matches MmapStep::Done(Ok(a)) ==> {
            &&& asks_fixed(flags) ==> a == addr as isize
            &&& i > 0
            &&& exists|j: int|
                0 <= j < i && (#[trigger] steps[j] matches MmapStep::AddMapping(req) && a
                    == req.start as isize && (replies[j] matches MmapReply::Mapped(Ok(_))))
        },
    decreases i,
{
    let plan = mmap_plan(addr, length, prot, flags, fd, offset);
    law_mmap_plan(addr, length, prot, flags, fd, offset);
    lemma_run_in_plan(steps, replies, plan, i);
    if steps[i] matches MmapStep::Done(Ok(_)) {
        if i > 0 {
            lemma_run_in_plan(steps, replies, plan, i - 1);
            assert(steps[i - 1].accepts(replies[i - 1]));
            assert(steps[i - 1].leads_to(replies[i - 1], steps[i - 1 + 1]));
            if steps[i - 1] is Done {
                law_mmap_run(addr, length, prot, flags, fd, offset, steps, replies, i - 1);
            } else {
                assert(steps[i - 1] is AddMapping);
            }
        }
    }
}

} // verus!
