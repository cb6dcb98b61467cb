//! What a backend operation asks of the machine, and what the machine answers.
//!
//! A backend operation never touches a page table, a frame or a file itself. It is a
//! value that names the next piece of work as a [`Request`]; its driver performs the work
//! and hands back a [`Reply`], until the operation is done. A reply of another kind than
//! the request asks for leaves an operation as it is.
use vstd::prelude::*;

use crate::addr::{PageSize, PAGE_SIZE_4K};
use crate::error::{AxResult, PagingError, PagingResult};
use crate::flags::MappingFlags;

verus! {

/// A present page table entry.
#[derive(Clone, Copy, PartialEq, Eq, Structural, Debug)]
pub struct Pte {
    /// The frame that is mapped.
    pub paddr: usize,
    /// Permissions of the page.
    pub flags: MappingFlags,
    /// Size of the page.
    pub size: PageSize,
}

/// The pages to ask the allocator for, or to give back to it, for one frame.
#[derive(Clone, Copy, PartialEq, Eq, Structural, Debug)]
pub struct FrameLayout {
    /// Number of 4K pages of the frame.
    pub num_pages: usize,
    /// Alignment of the frame in bytes.
    pub align: usize,
}

/// The layout of a frame of the given size: as many 4K pages as make up the size, aligned
/// to it.
pub open spec fn spec_frame_layout(size: PageSize) -> FrameLayout {
    FrameLayout {
        num_pages: (size.bytes() / PAGE_SIZE_4K) as usize,
        align: size.bytes(),
    }
}

/// The layout of a frame of the given size.
#[verifier::when_used_as_spec(spec_frame_layout)]
pub fn frame_layout(size: PageSize) -> (r: FrameLayout)
    ensures
        r == frame_layout(size),
        r.num_pages * PAGE_SIZE_4K == size.bytes(),
{
    FrameLayout { num_pages: size.bytes() / PAGE_SIZE_4K, align: size.bytes() }
}

/// Bytes of a file that go into a frame.
#[derive(Clone, Copy, PartialEq, Eq, Structural, Debug)]
pub struct FileRead {
    /// Position of the first byte in the frame.
    pub start: usize,
    /// Number of bytes, at most.
    pub len: usize,
    /// Position of the first byte in the file.
    pub offset: u64,
}

/// The next piece of work of an operation.
#[derive(Clone, Copy, PartialEq, Eq, Structural, Debug)]
pub enum Request {
    /// Look the entry of a page up.
    Query { vaddr: usize },
    /// Remove the entry of a page and return it.
    Unmap { vaddr: usize },
    /// Map a page that has no entry.
    MapPage { vaddr: usize, paddr: usize, size: PageSize, flags: MappingFlags },
    /// Change the permissions of a mapped page.
    Protect { vaddr: usize, flags: MappingFlags },
    /// Change the frame and the permissions of a mapped page.
    Remap { vaddr: usize, paddr: usize, flags: MappingFlags },
    /// Map a page that has no entry in the page table of the new address space.
    MapNew { vaddr: usize, paddr: usize, size: PageSize, flags: MappingFlags },
    /// Allocate a frame, filled with zeros if asked for.
    AllocFrame { zeroed: bool, layout: FrameLayout },
    /// Give a frame back.
    FreeFrame { paddr: usize, layout: FrameLayout },
    /// Copy the contents of one frame to another.
    CopyFrame { from: usize, to: usize, len: usize },
    /// Read bytes of the mapped file into a frame.
    ReadFile { frame: usize, read: FileRead },
}

/// The answer to a request.
#[derive(Clone, Copy, PartialEq, Eq, Debug)]
pub enum Reply {
    /// To `Query` and `Unmap`: the entry, or why there is none.
    Entry(PagingResult<Pte>),
    /// To `MapPage`, `MapNew`, `Protect` and `Remap`.
    Paging(PagingResult<()>),
    /// To `AllocFrame`: the address of the frame.
    Frame(AxResult<usize>),
    /// To `ReadFile`.
    File(AxResult<()>),
    /// To `FreeFrame` and `CopyFrame`, which do not fail.
    Done,
}

/// A page in an address space.
pub type PageKey = (int, usize);

/// The state that requests work on: the entries of all page tables.
pub type Entries = Map<PageKey, Pte>;

/// How a page table, an allocator and a file that do not fail serve a request.
///
/// `space` is the address space of the operation, `new_space` the one that `MapNew` is
/// about, and `fresh` the frame that the allocator gives out.
pub open spec fn serve(
    req: Request,
    entries: Entries,
    space: int,
    new_space: int,
    fresh: usize,
) -> (Reply, Entries) {
    match req {
        Request::Query { vaddr } => (
            if entries.contains_key((space, vaddr)) {
                Reply::Entry(Ok(entries[(space, vaddr)]))
            } else {
                Reply::Entry(Err(PagingError::NotMapped))
            },
            entries,
        ),
        Request::Unmap { vaddr } => if entries.contains_key((space, vaddr)) {
            (Reply::Entry(Ok(entries[(space, vaddr)])), entries.remove((space, vaddr)))
        } else {
            (Reply::Entry(Err(PagingError::NotMapped)), entries)
        },
        Request::MapPage { vaddr, paddr, size, flags } => serve_map(
            entries,
            (space, vaddr),
            Pte { paddr, flags, size },
        ),
        Request::MapNew { vaddr, paddr, size, flags } => serve_map(
            entries,
            (new_space, vaddr),
            Pte { paddr, flags, size },
        ),
        Request::Protect { vaddr, flags } => if entries.contains_key((space, vaddr)) {
            let pte = entries[(space, vaddr)];
            (
                Reply::Paging(Ok(())),
                entries.insert((space, vaddr), Pte { paddr: pte.paddr, flags, size: pte.size }),
            )
        } else {
            (Reply::Paging(Err(PagingError::NotMapped)), entries)
        },
        Request::Remap { vaddr, paddr, flags } => if entries.contains_key((space, vaddr)) {
            let pte = entries[(space, vaddr)];
            (
                Reply::Paging(Ok(())),
                entries.insert((space, vaddr), Pte { paddr, flags, size: pte.size }),
            )
        } else {
            (Reply::Paging(Err(PagingError::NotMapped)), entries)
        },
        Request::AllocFrame { .. } => (Reply::Frame(Ok(fresh)), entries),
        Request::FreeFrame { .. } => (Reply::Done, entries),
        Request::CopyFrame { .. } => (Reply::Done, entries),
        Request::ReadFile { .. } => (Reply::File(Ok(())), entries),
    }
}

/// How a page table serves a request to map a page.
pub open spec fn serve_map(entries: Entries, key: PageKey, pte: Pte) -> (Reply, Entries) {
    if entries.contains_key(key) {
        (Reply::Paging(Err(PagingError::AlreadyMapped)), entries)
    } else {
        (Reply::Paging(Ok(())), entries.insert(key, pte))
    }
}

} // verus!
