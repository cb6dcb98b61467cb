//! The `mmap` system call.
use std::sync::Arc;

use vstd::prelude::*;

use crate::addr::{align_down_to, align_up_to, PageSize, VirtAddrRange};
use crate::backend::cow::{CowFile, FileRef};
use crate::backend::shared::SharedPages;
use crate::backend::vm_flags::VM_SHARED;
use crate::backend::{Backend, FileBackend, LinearBackend};
use crate::error::{AxError, AxResult};
use crate::flags::{
    lemma_truncate_keeps_known, MappingFlags, MmapFlags, MmapProt, MAP_ALL, MAP_ANONYMOUS,
    MAP_FIXED, MAP_FIXED_NOREPLACE, MAP_HUGETLB, MAP_HUGETLB_1GB, MAP_POPULATE, MAP_PRIVATE,
    MAP_SHARED, MAP_SHARED_VALIDATE, MAP_TYPE, PROT_ALL,
};
use crate::syscall::area::FreeSearch;

verus! {

/// A mapping that a call asks for, once its arguments are checked.
#[derive(Clone, Copy, PartialEq, Eq, Structural, Debug)]
pub struct MmapPlan {
    /// Where the mapping begins, or where to look for room first.
    pub start: usize,
    /// Length of the mapping in bytes.
    pub length: usize,
    /// Size of its pages.
    pub page_size: PageSize,
    /// Whether changes are shared.
    pub shared: bool,
    /// Permissions of its pages.
    pub flags: MappingFlags,
    /// Whether the mapping has to begin at `start`.
    pub fixed: bool,
    /// Whether a fixed mapping takes the place of what is there.
    pub replace: bool,
    /// Whether the pages are to be populated at once.
    pub populate: bool,
    /// The file to map; none if not positive.
    pub fd: i32,
    /// Position in the file of the first byte of the mapping.
    pub offset: usize,
}

/// A request to add a mapping to the address space.
#[derive(Debug)]
pub struct MapRequest {
    /// Where the mapping begins.
    pub start: usize,
    /// Length of the mapping in bytes.
    pub length: usize,
    /// Permissions of its pages.
    pub flags: MappingFlags,
    /// Whether the pages are to be populated at once.
    pub populate: bool,
    /// What is behind the mapping.
    pub backend: Backend,
}

/// What a device offers to map.
#[derive(Clone, Copy, PartialEq, Eq, Structural, Debug)]
pub enum DeviceMmap {
    /// The device cannot be mapped.
    Unsupported,
    /// The device can be mapped for reading only.
    ReadOnly,
    /// The device gives out physical memory from `start` up to `end`.
    Physical { start: usize, end: usize },
    /// The device is mapped like a cached file.
    Cache,
}

/// What is behind an open file.
#[derive(Clone, Copy, PartialEq, Eq, Structural, Debug)]
pub enum FileKind {
    /// A file with a page cache.
    Cached,
    /// A file without a page cache that is not a device.
    Direct,
    /// A device.
    Device(DeviceMmap),
}

/// The next step of a call.
#[derive(Debug)]
pub enum MmapStep {
    /// Unmap `length` bytes from `start` on.
    Unmap(MmapPlan),
    /// Look for `length` free bytes in the address space, aligned to the page size: from
    /// `start` on, and from the beginning.
    FindFree(MmapPlan),
    /// Open the file.
    OpenFile(MmapPlan),
    /// Find out what is behind the file, for a shared mapping.
    Inspect(MmapPlan, FileRef),
    /// Make sure that the file has contents, for a private mapping.
    CheckFile(MmapPlan, FileRef),
    /// Allocate shared pages of 4K for `length` bytes.
    AllocShared(MmapPlan),
    /// Add the mapping.
    AddMapping(MapRequest),
    /// The call is over.
    Done(AxResult<isize>),
}

/// The result of a step.
#[derive(Debug)]
pub enum MmapReply {
    /// Of `Unmap`.
    Unmapped(AxResult<()>),
    /// Of `FindFree`: the free area from `start` on, and from the beginning.
    Free { near: Option<usize>, anywhere: Option<usize> },
    /// Of `OpenFile`.
    Opened(AxResult<FileRef>),
    /// Of `Inspect`.
    Inspected(AxResult<FileKind>),
    /// Of `CheckFile`.
    Checked(AxResult<()>),
    /// Of `AllocShared`.
    Allocated(AxResult<SharedPages>),
    /// Of `AddMapping`.
    Mapped(AxResult<()>),
}

/// Whether every bit of a mask is set in a word.
pub open spec fn flag_set(flags: u32, mask: u32) -> bool {
    flags & mask == mask
}

/// Whether the mapping has to be at the given address.
pub open spec fn is_fixed(flags: u32) -> bool {
    flag_set(flags, MAP_FIXED) || flag_set(flags, MAP_FIXED_NOREPLACE)
}

/// Why a call is refused, if it is.
///
/// A call needs a length, a type of mapping, either a file or the flag for none, a position
/// of zero without a file, a position that is a multiple of 4K, and an address that is not
/// zero and begins a page if it insists on one: the mapping could not begin there
/// otherwise. The type `MAP_SHARED_VALIDATE` does not take unknown flags.
pub open spec fn mmap_error(
    addr: usize,
    length: usize,
    flags: u32,
    fd: i32,
    offset: isize,
) -> Option<AxError> {
    let map_type = flags & MAP_TYPE;
    if length == 0 {
        Some(AxError::InvalidInput)
    } else if flags & MAP_ALL != flags && map_type == MAP_SHARED_VALIDATE {
        Some(AxError::OperationNotSupported)
    } else if {
        &&& map_type == MAP_PRIVATE || map_type == MAP_SHARED || map_type == MAP_SHARED_VALIDATE
        &&& flag_set(flags, MAP_ANONYMOUS) <==> fd <= 0
        &&& fd <= 0 ==> offset == 0
        &&& is_fixed(flags) ==> addr != 0 && addr % mmap_page_size(flags).bytes() == 0
        &&& offset >= 0
        &&& offset % 0x1000 == 0
    } {
        None
    } else {
        Some(AxError::InvalidInput)
    }
}

/// The page size that the flags ask for.
pub open spec fn mmap_page_size(flags: u32) -> PageSize {
    if flag_set(flags, MAP_HUGETLB_1GB) {
        PageSize::Size1G
    } else if flag_set(flags, MAP_HUGETLB) {
        PageSize::Size2M
    } else {
        PageSize::Size4K
    }
}

/// The mapping that a call asks for: all pages that the bytes from `addr` on touch.
pub open spec fn mmap_plan(
    addr: usize,
    length: usize,
    prot: u32,
    flags: u32,
    fd: i32,
    offset: isize,
) -> MmapPlan {
    let page_size = mmap_page_size(flags);
    let start = align_down_to(addr as int, page_size.bytes() as int);
    let end = align_up_to(addr + length, page_size.bytes() as int);
    MmapPlan {
        start: start as usize,
        length: (end - start) as usize,
        page_size,
        shared: flags & MAP_TYPE != MAP_PRIVATE,
        flags: MmapProt { bits: prot & PROT_ALL }.to_mapping(),
        fixed: is_fixed(flags),
        replace: !flag_set(flags, MAP_FIXED_NOREPLACE),
        populate: flag_set(flags, MAP_POPULATE),
        fd,
        offset: offset as usize,
    }
}

/// Whether `backend` is private anonymous memory.
pub open spec fn is_alloc(backend: Backend, start: usize, size: PageSize) -> bool {
    backend matches Backend::Cow(b) && b.start == start && b.size == size && b.file is None
        && b.vm_flags@ == 0
}

/// Whether `backend` is a private mapping of a file from `offset` on.
pub open spec fn is_private_file(
    backend: Backend,
    start: usize,
    size: PageSize,
    file: FileRef,
    offset: usize,
) -> bool {
    backend matches Backend::Cow(b) && b.start == start && b.size == size && b.file == Some(
        CowFile { file, start: offset as u64, end: None },
    ) && b.vm_flags@ == 0
}

/// Whether `backend` is shared anonymous memory.
pub open spec fn is_shared_memory(backend: Backend, start: usize, pages: SharedPages) -> bool {
    backend matches Backend::Shared(b) && b.start == start && *b.pages == pages && b.vm_flags@
        == VM_SHARED
}

impl MmapPlan {
    /// The searches for a place in an address space from `base` up to `end`: from the
    /// planned address on, and from the beginning.
    pub open spec fn spec_searches(self, base: usize, end: usize) -> (FreeSearch, FreeSearch) {
        let near = FreeSearch {
            hint: self.start,
            size: self.length,
            limit: VirtAddrRange { start: base, end },
            align: self.page_size.bytes(),
        };
        (near, FreeSearch { hint: base, ..near })
    }

    /// The searches for a place in an address space from `base` up to `end`: from the
    /// planned address on, and from the beginning.
    pub fn searches(self, base: usize, end: usize) -> (r: (FreeSearch, FreeSearch))
        ensures
            r.0 == (FreeSearch {
                hint: self.start,
                size: self.length,
                limit: VirtAddrRange { start: base, end },
                align: self.page_size.bytes(),
            }),
            r.1 == (FreeSearch { hint: base, ..r.0 }),
            r == self.spec_searches(base, end),
    {
        let limit = VirtAddrRange { start: base, end };
        let align: usize = self.page_size.bytes();
        (
            FreeSearch { hint: self.start, size: self.length, limit, align },
            FreeSearch { hint: base, size: self.length, limit, align },
        )
    }
}

impl MmapStep {
    /// Whether the step adds the planned mapping, with `length` bytes.
    pub open spec fn adds(self, plan: MmapPlan, length: usize) -> bool {
        self matches MmapStep::AddMapping(req) && req.start == plan.start && req.length == length
            && req.flags == plan.flags && req.populate == plan.populate
    }

    /// What is behind the mapping that the step adds.
    pub open spec fn backend(self) -> Backend {
        self->AddMapping_0.backend
    }

    /// The step when the place of the mapping is known: open the file, or make anonymous
    /// memory.
    pub open spec fn is_placed(self, plan: MmapPlan) -> bool {
        if plan.fd > 0 {
            self == MmapStep::OpenFile(plan)
        } else if plan.shared {
            self == MmapStep::AllocShared(plan)
        } else {
            self.adds(plan, plan.length) && is_alloc(self.backend(), plan.start, plan.page_size)
        }
    }

    /// The first step: a fixed mapping has its place, and first removes what is there if
    /// it may; any other mapping needs a place.
    pub open spec fn is_first(self, plan: MmapPlan) -> bool {
        if !plan.fixed {
            self == MmapStep::FindFree(plan)
        } else if plan.replace {
            self == MmapStep::Unmap(plan)
        } else {
            self.is_placed(plan)
        }
    }

    /// The step when the kind of the file behind a shared mapping is known.
    pub open spec fn is_shared_file(self, plan: MmapPlan, file: FileRef, kind: FileKind) -> bool {
        match kind {
            FileKind::Cached | FileKind::Device(DeviceMmap::Cache) => {
                &&& self.adds(plan, plan.length)
                &&& self.backend() == Backend::File(
                    FileBackend { start: plan.start, file, offset: plan.offset },
                )
            },
            FileKind::Direct | FileKind::Device(DeviceMmap::Unsupported) => self == MmapStep::Done(
                Err(AxError::NoSuchDevice),
            ),
            FileKind::Device(DeviceMmap::ReadOnly) => {
                &&& self.adds(plan, plan.length)
                &&& is_private_file(self.backend(), plan.start, plan.page_size, file, plan.offset)
            },
            FileKind::Device(DeviceMmap::Physical { start, end }) => {
                let first = start + plan.offset;
                if first >= end {
                    self == MmapStep::Done(Err(AxError::InvalidInput))
                } else {
                    let room = align_down_to(end - first, plan.page_size.bytes() as int);
                    let length = if plan.length <= room {
                        plan.length as int
                    } else {
                        room
                    };
                    &&& self.adds(plan, length as usize)
                    &&& self.backend() == Backend::Linear(
                        LinearBackend {
                            offset: ((plan.start as isize) - (first as usize as isize)) as isize,
                        },
                    )
                }
            },
        }
    }

    /// Physical memory that a device offers has addresses that fit, from the position in
    /// the file on and relative to the mapping. Shared pages are pages of 4K, as many as
    /// the mapping has.
    pub open spec fn accepts(self, reply: MmapReply) -> bool {
        match (self, reply) {
            (
                MmapStep::Inspect(plan, _),
                MmapReply::Inspected(Ok(FileKind::Device(DeviceMmap::Physical { start, end }))),
            ) => {
                let first = start + plan.offset;
                &&& first <= usize::MAX
                &&& first < end ==> isize::MIN <= (plan.start as isize) - (first as usize as isize)
                    <= isize::MAX
            },
            (MmapStep::AllocShared(plan), MmapReply::Allocated(Ok(pages))) => {
                &&& pages.size == PageSize::Size4K
                &&& pages@.len() * 0x1000 == plan.length
            },
            _ => true,
        }
    }

    /// Whether `next` is the step after `reply`.
    pub open spec fn leads_to(self, reply: MmapReply, next: MmapStep) -> bool {
        match (self, reply) {
            (MmapStep::Unmap(plan), MmapReply::Unmapped(Ok(()))) => next.is_placed(plan),
            (MmapStep::FindFree(plan), MmapReply::Free { near, anywhere }) => match (
                near,
                anywhere,
            ) {
                (Some(start), _) => next.is_placed(MmapPlan { start, ..plan }),
                (None, Some(start)) => next.is_placed(MmapPlan { start, ..plan }),
                (None, None) => next == MmapStep::Done(Err(AxError::NoMemory)),
            },
            (MmapStep::OpenFile(plan), MmapReply::Opened(Ok(file))) => next == if plan.shared {
                MmapStep::Inspect(plan, file)
            } else {
                MmapStep::CheckFile(plan, file)
            },
            (MmapStep::Inspect(plan, file), MmapReply::Inspected(Ok(kind))) => next.is_shared_file(
                plan,
                file,
                kind,
            ),
            (MmapStep::CheckFile(plan, file), MmapReply::Checked(Ok(()))) => {
                &&& next.adds(plan, plan.length)
                &&& is_private_file(next.backend(), plan.start, plan.page_size, file, plan.offset)
            },
            (MmapStep::AllocShared(plan), MmapReply::Allocated(Ok(pages))) => {
                &&& next.adds(plan, plan.length)
                &&& is_shared_memory(next.backend(), plan.start, pages)
            },
            (MmapStep::AddMapping(req), MmapReply::Mapped(Ok(()))) => next == MmapStep::Done(
                Ok(req.start as isize),
            ),
            (MmapStep::Unmap(_), MmapReply::Unmapped(Err(e)))
            | (MmapStep::OpenFile(_), MmapReply::Opened(Err(e)))
            | (MmapStep::Inspect(_, _), MmapReply::Inspected(Err(e)))
            | (MmapStep::CheckFile(_, _), MmapReply::Checked(Err(e)))
            | (MmapStep::AllocShared(_), MmapReply::Allocated(Err(e)))
            | (MmapStep::AddMapping(_), MmapReply::Mapped(Err(e))) => next == MmapStep::Done(
                Err(e),
            ),
            _ => next == self,
        }
    }

    /// The step that adds the planned mapping.
    fn add_mapping(plan: MmapPlan, length: usize, backend: Backend) -> (r: MmapStep)
        ensures
            r.adds(plan, length),
            r.backend() == backend,
    {
        MmapStep::AddMapping(
            MapRequest {
                start: plan.start,
                length,
                flags: plan.flags,
                populate: plan.populate,
                backend,
            },
        )
    }

    /// The step when the place of the mapping is known.
    fn place(plan: MmapPlan) -> (r: MmapStep)
        ensures
            r.is_placed(plan),
    {
        if plan.fd > 0 {
            MmapStep::OpenFile(plan)
        } else if plan.shared {
            MmapStep::AllocShared(plan)
        } else {
            MmapStep::add_mapping(
                plan,
                plan.length,
                Backend::new_alloc(plan.start, plan.page_size),
            )
        }
    }

    /// The step when the kind of the file behind a shared mapping is known.
    fn share_file(plan: MmapPlan, file: FileRef, kind: FileKind) -> (r: MmapStep)
        requires
            MmapStep::Inspect(plan, file).accepts(MmapReply::Inspected(Ok(kind))),
        ensures
            r.is_shared_file(plan, file, kind),
    {
        match kind {
            FileKind::Cached | FileKind::Device(DeviceMmap::Cache) => MmapStep::add_mapping(
                plan,
                plan.length,
                Backend::new_file(plan.start, file, plan.offset),
            ),
            FileKind::Direct | FileKind::Device(DeviceMmap::Unsupported) => MmapStep::Done(
                Err(AxError::NoSuchDevice),
            ),
            FileKind::Device(DeviceMmap::ReadOnly) => MmapStep::add_mapping(
                plan,
                plan.length,
                Backend::new_cow(plan.start, plan.page_size, file, plan.offset as u64, None),
            ),
            FileKind::Device(DeviceMmap::Physical { start, end }) => {
                let first: usize = start + plan.offset;
                if first >= end {
                    return MmapStep::Done(Err(AxError::InvalidInput));
                }
                proof {
                    plan.page_size.lemma_bytes();
                }
                let room: usize = memory_addr::align_down(end - first, plan.page_size.bytes());
                let length: usize = if plan.length <= room {
                    plan.length
                } else {
                    room
                };
                MmapStep::add_mapping(
                    plan,
                    length,
                    Backend::new_linear(plan.start as isize - first as isize),
                )
            },
        }
    }

    /// Goes on after a step.
    pub fn resume(self, reply: MmapReply) -> (r: MmapStep)
        requires
            self.accepts(reply),
        ensures
            self.leads_to(reply, r),
    {
        match (self, reply) {
            (MmapStep::Unmap(plan), MmapReply::Unmapped(Ok(()))) => MmapStep::place(plan),
            (MmapStep::FindFree(plan), MmapReply::Free { near, anywhere }) => {
                let mut placed = plan;
                match (near, anywhere) {
                    (Some(start), _) | (None, Some(start)) => {
                        placed.start = start;
                        MmapStep::place(placed)
                    },
                    (None, None) => MmapStep::Done(Err(AxError::NoMemory)),
                }
            },
            (MmapStep::OpenFile(plan), MmapReply::Opened(Ok(file))) => {
                if plan.shared {
                    MmapStep::Inspect(plan, file)
                } else {
                    MmapStep::CheckFile(plan, file)
                }
            },
            (MmapStep::Inspect(plan, file), MmapReply::Inspected(Ok(kind))) => MmapStep::share_file(
                plan,
                file,
                kind,
            ),
            (MmapStep::CheckFile(plan, file), MmapReply::Checked(Ok(()))) => MmapStep::add_mapping(
                plan,
                plan.length,
                Backend::new_cow(plan.start, plan.page_size, file, plan.offset as u64, None),
            ),
            (MmapStep::AllocShared(plan), MmapReply::Allocated(Ok(pages))) => MmapStep::add_mapping(
                plan,
                plan.length,
                Backend::new_shared(plan.start, Arc::new(pages)),
            ),
            (MmapStep::AddMapping(req), MmapReply::Mapped(Ok(()))) => MmapStep::Done(
                Ok(req.start as isize),
            ),
            (MmapStep::Unmap(_), MmapReply::Unmapped(Err(e)))
            | (MmapStep::OpenFile(_), MmapReply::Opened(Err(e)))
            | (MmapStep::Inspect(_, _), MmapReply::Inspected(Err(e)))
            | (MmapStep::CheckFile(_, _), MmapReply::Checked(Err(e)))
            | (MmapStep::AllocShared(_), MmapReply::Allocated(Err(e)))
            | (MmapStep::AddMapping(_), MmapReply::Mapped(Err(e))) => MmapStep::Done(Err(e)),
            (step, _) => step,
        }
    }
}

/// Known flags are found in the known part of a word.
proof fn lemma_known_flags(flags: u32)
    ensures
        flag_set(flags & MAP_ALL, MAP_FIXED) == flag_set(flags, MAP_FIXED),
        flag_set(flags & MAP_ALL, MAP_FIXED_NOREPLACE) == flag_set(flags, MAP_FIXED_NOREPLACE),
        flag_set(flags & MAP_ALL, MAP_ANONYMOUS) == flag_set(flags, MAP_ANONYMOUS),
        flag_set(flags & MAP_ALL, MAP_POPULATE) == flag_set(flags, MAP_POPULATE),
        flag_set(flags & MAP_ALL, MAP_HUGETLB) == flag_set(flags, MAP_HUGETLB),
        flag_set(flags & MAP_ALL, MAP_HUGETLB_1GB) == flag_set(flags, MAP_HUGETLB_1GB),
        (flags & MAP_ALL) & MAP_TYPE == flags & MAP_TYPE,
        (flags & MAP_ALL) & MAP_ALL == flags & MAP_ALL,
{
    assert(0x10u32 & 0x7816_c83fu32 == 0x10u32 && 0x20u32 & 0x7816_c83fu32 == 0x20u32
        && 0x8000u32 & 0x7816_c83fu32 == 0x8000u32 && 0x4_0000u32 & 0x7816_c83fu32 == 0x4_0000u32
        && 0x10_0000u32 & 0x7816_c83fu32 == 0x10_0000u32 && 0x7804_0000u32 & 0x7816_c83fu32
        == 0x7804_0000u32) by (bit_vector);
    assert((flags & 0x7816_c83fu32) & 0xfu32 == flags & 0xfu32 && (flags & 0x7816_c83fu32)
        & 0x7816_c83fu32 == flags & 0x7816_c83fu32) by (bit_vector);
    lemma_truncate_keeps_known(flags, MAP_FIXED);
    lemma_truncate_keeps_known(flags, MAP_FIXED_NOREPLACE);
    lemma_truncate_keeps_known(flags, MAP_ANONYMOUS);
    lemma_truncate_keeps_known(flags, MAP_POPULATE);
    lemma_truncate_keeps_known(flags, MAP_HUGETLB);
    lemma_truncate_keeps_known(flags, MAP_HUGETLB_1GB);
}

/// Why an `mmap` call is refused, or the size of its pages.
pub open spec fn mmap_check(
    addr: usize,
    length: usize,
    flags: u32,
    fd: i32,
    offset: isize,
) -> AxResult<PageSize> {
    match mmap_error(addr, length, flags, fd, offset) {
        Some(e) => Err(e),
        None => Ok(mmap_page_size(flags)),
    }
}

/// Whether an `mmap` call starts with a step.
pub open spec fn mmap_starts(
    addr: usize,
    length: usize,
    prot: u32,
    flags: u32,
    fd: i32,
    offset: isize,
    step: MmapStep,
) -> bool {
    match mmap_error(addr, length, flags, fd, offset) {
        Some(e) => step == MmapStep::Done(Err(e)),
        None => step.is_first(mmap_plan(addr, length, prot, flags, fd, offset)),
    }
}

/// Checks the arguments of an `mmap` call: why it is refused, or the size of its pages.
pub fn check_mmap(addr: usize, length: usize, flags: u32, fd: i32, offset: isize) -> (r: AxResult<
    PageSize,
>)
    ensures
        r == mmap_check(addr, length, flags, fd, offset),
        r == match mmap_error(addr, length, flags, fd, offset) {
            Some(e) => Err::<PageSize, AxError>(e),
            None => Ok::<PageSize, AxError>(mmap_page_size(flags)),
        },
{
    if length == 0 {
        return Err(AxError::InvalidInput);
    }
    let map_flags = match MmapFlags::from_bits(flags) {
        Some(map_flags) => map_flags,
        None => {
            if flags & MAP_TYPE == MAP_SHARED_VALIDATE {
                // All flags have to be known.
                return Err(AxError::OperationNotSupported);
            }
            MmapFlags::from_bits_truncate(flags)
        },
    };
    proof {
        lemma_known_flags(flags);
    }
    let map_type: u32 = map_flags.bits & MAP_TYPE;
    if map_type != MAP_PRIVATE && map_type != MAP_SHARED && map_type != MAP_SHARED_VALIDATE {
        return Err(AxError::InvalidInput);
    }
    if map_flags.has(MAP_ANONYMOUS) != (fd <= 0) {
        return Err(AxError::InvalidInput);
    }
    if fd <= 0 && offset != 0 {
        return Err(AxError::InvalidInput);
    }
    let page_size = if map_flags.has(MAP_HUGETLB_1GB) {
        PageSize::Size1G
    } else if map_flags.has(MAP_HUGETLB) {
        PageSize::Size2M
    } else {
        PageSize::Size4K
    };
    let fixed: bool = map_flags.has(MAP_FIXED) || map_flags.has(MAP_FIXED_NOREPLACE);
    if fixed && (addr == 0 || !page_size.is_aligned(addr)) {
        return Err(AxError::InvalidInput);
    }
    if offset < 0 {
        return Err(AxError::InvalidInput);
    }
    if !PageSize::Size4K.is_aligned(offset as usize) {
        return Err(AxError::InvalidInput);
    }
    Ok(page_size)
}

/// Starts an `mmap` call.
pub fn sys_mmap(
    addr: usize,
    length: usize,
    prot: u32,
    flags: u32,
    fd: i32,
    offset: isize,
) -> (r: MmapStep)
    requires
        mmap_error(addr, length, flags, fd, offset) is None ==> addr + length + mmap_page_size(
            flags,
        ).bytes() <= usize::MAX,
    ensures
        mmap_starts(addr, length, prot, flags, fd, offset, r),
        match mmap_error(addr, length, flags, fd, offset) {
            Some(e) => r == MmapStep::Done(Err(e)),
            None => r.is_first(mmap_plan(addr, length, prot, flags, fd, offset)),
        },
{
    let page_size = match check_mmap(addr, length, flags, fd, offset) {
        Ok(page_size) => page_size,
        Err(e) => {
            return MmapStep::Done(Err(e));
        },
    };
    let permission_flags = MmapProt::from_bits_truncate(prot);
    let map_flags = MmapFlags::from_bits_truncate(flags);
    proof {
        lemma_known_flags(flags);
        page_size.lemma_bytes();
    }
    let start: usize = memory_addr::align_down(addr, page_size.bytes());
    let end: usize = memory_addr::align_up(addr + length, page_size.bytes());
    let plan = MmapPlan {
        start,
        length: end - start,
        page_size,
        shared: map_flags.bits & MAP_TYPE != MAP_PRIVATE,
        flags: MappingFlags::from(permission_flags),
        fixed: map_flags.has(MAP_FIXED) || map_flags.has(MAP_FIXED_NOREPLACE),
        replace: !map_flags.has(MAP_FIXED_NOREPLACE),
        populate: map_flags.has(MAP_POPULATE),
        fd,
        offset: offset as usize,
    };
    if !plan.fixed {
        MmapStep::FindFree(plan)
    } else if plan.replace {
        MmapStep::Unmap(plan)
    } else {
        MmapStep::place(plan)
    }
}

/// A mapping covers the bytes that were asked for, in whole pages, and no page more.
pub proof fn law_plan_covers_request(
    addr: usize,
    length: usize,
    prot: u32,
    flags: u32,
    fd: i32,
    offset: isize,
)
    requires
        mmap_error(addr, length, flags, fd, offset) is None,
        addr + length + mmap_page_size(flags).bytes() <= usize::MAX,
    ensures
        ({
            let plan = mmap_plan(addr, length, prot, flags, fd, offset);
            let size = plan.page_size.bytes();
            &&& plan.start % size == 0
            &&& plan.length % size == 0
            &&& plan.length > 0
            &&& plan.start <= addr < plan.start + size
            &&& addr + length <= plan.start + plan.length < addr + length + size
        }),
{
    let size = mmap_page_size(flags).bytes() as int;
    let a = addr as int;
    let b = addr + length;
    let start = align_down_to(a, size);
    let end = align_up_to(b, size);
    assert(start % size == 0 && end % size == 0 && (end - start) % size == 0) by (nonlinear_arith)
        requires
            size == 0x1000 || size == 0x20_0000 || size == 0x4000_0000,
            start == a - a % size,
            end == if b % size == 0 {
                b
            } else {
                b - b % size + size
            },
    ;
}

impl MmapStep {
    /// The step belongs to a call with this plan. Only the place of a mapping that is not
    /// fixed is open, and a device can offer less than the length.
    pub open spec fn follows(self, plan: MmapPlan) -> bool {
        match self {
            MmapStep::Unmap(p) => p == plan && plan.fixed && plan.replace,
            MmapStep::FindFree(p) => p == plan && !plan.fixed,
            MmapStep::OpenFile(p) | MmapStep::Inspect(p, _) | MmapStep::CheckFile(p, _) => {
                &&& plan.fd > 0
                &&& p == MmapPlan { start: p.start, ..plan }
                &&& plan.fixed ==> p == plan
            },
            MmapStep::AllocShared(p) => {
                &&& plan.fd <= 0 && plan.shared
                &&& p == MmapPlan { start: p.start, ..plan }
                &&& plan.fixed ==> p == plan
            },
            MmapStep::AddMapping(req) => {
                &&& plan.fixed ==> req.start == plan.start
                &&& req.length <= plan.length
                &&& !(req.backend is Linear) ==> req.length == plan.length
                &&& req.flags == plan.flags
                &&& req.populate == plan.populate
                &&& plan.fd <= 0 ==> if plan.shared {
                    req.backend is Shared
                } else {
                    is_alloc(req.backend, req.start, plan.page_size)
                }
            },
            MmapStep::Done(r) => r matches Ok(a) ==> (plan.fixed ==> a == plan.start as isize),
        }
    }
}

/// The first step of a call belongs to its plan. With `MAP_FIXED_NOREPLACE` nothing is
/// unmapped, and without an address to insist on neither.
pub proof fn law_first_step(step: MmapStep, plan: MmapPlan)
    requires
        step.is_first(plan),
    ensures
        step.follows(plan),
        step is Unmap ==> plan.fixed && plan.replace,
{
}

/// Whatever the replies, every step of a call belongs to its plan: a fixed mapping begins
/// where the plan says and an anonymous one never opens a file; permissions and length
/// are those of the plan.
pub proof fn law_steps_follow_plan(step: MmapStep, reply: MmapReply, next: MmapStep, plan: MmapPlan)
    requires
        step.follows(plan),
        step.accepts(reply),
        step.leads_to(reply, next),
    ensures
        next.follows(plan),
        next is Unmap ==> next == step,
{
    if let MmapStep::Inspect(p, _) = step {
        if let MmapReply::Inspected(Ok(FileKind::Device(DeviceMmap::Physical { start, end }))) =
            reply {
            let d = end - (start + p.offset);
            let size = p.page_size.bytes() as int;
            if d > 0 {
                assert(0 <= align_down_to(d, size) <= d) by (nonlinear_arith)
                    requires
                        d > 0,
                        size > 0,
                        align_down_to(d, size) == d - d % size,
                ;
            }
        }
    }
}

/// A call succeeds only by adding a mapping, and returns the address of it.
pub proof fn law_success_is_a_mapping(step: MmapStep, reply: MmapReply, next: MmapStep)
    requires
        !(step is Done),
        step.leads_to(reply, next),
        next matches MmapStep::Done(Ok(_)),
    ensures
        step is AddMapping,
        reply matches MmapReply::Mapped(Ok(_)),
        next == MmapStep::Done(Ok(step->AddMapping_0.start as isize)),
{
}

/// A fixed mapping is at the address that was asked for. With `MAP_FIXED` alone, what is
/// mapped at the bytes that were asked for is unmapped first; a call that follows its plan
/// and succeeds returns the address.
pub proof fn law_fixed_address(
    addr: usize,
    length: usize,
    prot: u32,
    flags: u32,
    fd: i32,
    offset: isize,
    first: MmapStep,
    last: MmapStep,
)
    requires
        is_fixed(flags),
        mmap_error(addr, length, flags, fd, offset) is None,
        addr + length + mmap_page_size(flags).bytes() <= usize::MAX,
        first.is_first(mmap_plan(addr, length, prot, flags, fd, offset)),
        last.follows(mmap_plan(addr, length, prot, flags, fd, offset)),
    ensures
        ({
            let plan = mmap_plan(addr, length, prot, flags, fd, offset);
            &&& plan.start == addr
            &&& addr + length <= plan.start + plan.length
            &&& !flag_set(flags, MAP_FIXED_NOREPLACE) ==> first == MmapStep::Unmap(plan)
            &&& flag_set(flags, MAP_FIXED_NOREPLACE) ==> !(first is Unmap)
            &&& last matches MmapStep::AddMapping(req) ==> req.start == addr
            &&& last matches MmapStep::Done(Ok(a)) ==> a == addr as isize
        }),
{
    law_plan_covers_request(addr, length, prot, flags, fd, offset);
}

/// With known flags only, `MAP_SHARED_VALIDATE` is `MAP_SHARED`: the same calls are
/// refused, and the others have the same plan and the same first step.
pub proof fn law_validate_is_shared(
    addr: usize,
    length: usize,
    prot: u32,
    flags: u32,
    fd: i32,
    offset: isize,
)
    requires
        flags & MAP_TYPE == MAP_SHARED_VALIDATE,
        flags & MAP_ALL == flags,
    ensures
        ({
            let shared = (flags & !MAP_TYPE) | MAP_SHARED;
            let plan = mmap_plan(addr, length, prot, flags, fd, offset);
            let shared_plan = mmap_plan(addr, length, prot, shared, fd, offset);
            &&& shared & MAP_TYPE == MAP_SHARED
            &&& mmap_error(addr, length, flags, fd, offset) == mmap_error(
                addr,
                length,
                shared,
                fd,
                offset,
            )
            &&& plan == shared_plan
            &&& forall|step: MmapStep| #[trigger]
                step.is_first(plan) <==> step.is_first(shared_plan)
        }),
{
    let shared = (flags & !MAP_TYPE) | MAP_SHARED;
    assert(shared & 0xfu32 == 1u32 && shared & 0x7816_c83fu32 == shared && (shared & 0x10u32
        == flags & 0x10u32) && (shared & 0x10_0000u32 == flags & 0x10_0000u32) && (shared & 0x20u32
        == flags & 0x20u32) && (shared & 0x8000u32 == flags & 0x8000u32) && (shared & 0x4_0000u32
        == flags & 0x4_0000u32) && (shared & 0x7804_0000u32 == flags & 0x7804_0000u32))
        by (bit_vector)
        requires
            shared == (flags & !0xfu32) | 1u32,
            flags & 0x7816_c83fu32 == flags,
    ;
}

/// Unknown flags make a difference to `MAP_SHARED_VALIDATE` only: a call of any other type
/// is refused, planned and begun as without them.
pub proof fn law_unknown_flags(
    addr: usize,
    length: usize,
    prot: u32,
    flags: u32,
    fd: i32,
    offset: isize,
)
    requires
        flags & MAP_TYPE != MAP_SHARED_VALIDATE,
    ensures
        ({
            let known = flags & MAP_ALL;
            let plan = mmap_plan(addr, length, prot, flags, fd, offset);
            let known_plan = mmap_plan(addr, length, prot, known, fd, offset);
            &&& mmap_error(addr, length, flags, fd, offset) == mmap_error(
                addr,
                length,
                known,
                fd,
                offset,
            )
            &&& mmap_error(addr, length, flags, fd, offset) != Some(AxError::OperationNotSupported)
            &&& plan == known_plan
            &&& forall|step: MmapStep| #[trigger]
                step.is_first(plan) <==> step.is_first(known_plan)
        }),
{
    lemma_known_flags(flags);
}

} // verus!
