//! Faulting pages of a copy-on-write mapping in.
use vstd::prelude::*;

use crate::addr::{spec_pages_in, Pages, VirtAddrRange};
use crate::backend::cow::{CowBackend, CowFile};
use crate::backend::frames::{count_of, released, FrameTableRefCount, INITIAL_CNT};
use crate::backend::ops::{frame_layout, Reply, Request};
use crate::error::{AxError, AxResult, PagingError};
use crate::flags::MappingFlags;

verus! {

/// Where a populate operation stands with its page.
#[derive(Clone, Copy, PartialEq, Eq, Debug)]
pub enum PopulateState {
    /// The entry of the page is to be looked up.
    Query,
    /// The page is not mapped: it needs a frame.
    Alloc,
    /// The frame is to be filled from the file.
    Read { frame: usize },
    /// The frame is to be mapped.
    MapFrame { frame: usize },
    /// The frame belongs to this page alone: the permissions are to be raised.
    Protect,
    /// The frame `shared` is shared: the page needs a frame of its own.
    CopyAlloc { shared: usize },
    /// The contents are to be copied.
    Copy { shared: usize, copy: usize },
    /// The page is to be moved to its own frame.
    Remap { shared: usize, copy: usize },
    /// The shared frame lost its last reference meanwhile and is to be given back.
    Free { shared: usize },
    /// The operation is over; on success it tells how many pages satisfy the access.
    Done(AxResult<usize>),
}

/// Faults the pages of a range in for an access.
#[derive(Clone, Copy, PartialEq, Eq, Debug)]
pub struct CowPopulate {
    /// Address at which the mapping begins.
    pub start: usize,
    /// The file behind the mapping, if there is one.
    pub file: Option<CowFile>,
    /// Permissions of the mapping.
    pub flags: MappingFlags,
    /// Permissions that the access needs.
    pub access: MappingFlags,
    /// The pages left, the one in progress first.
    pub pages: Pages,
    /// Number of pages so far that satisfy the access.
    pub count: usize,
    /// Where the operation stands.
    pub state: PopulateState,
}

impl CowPopulate {
    /// The range is aligned, there is a page in progress until the operation is over, and
    /// the number of pages fits.
    pub open spec fn wf(self) -> bool {
        &&& self.pages.wf()
        &&& !(self.state is Done) ==> !self.pages.is_empty()
        &&& self.count + self.pages.count() <= usize::MAX
        &&& self.state is Read ==> self.file is Some && self.file.unwrap().fits(
            self.start,
            self.pages.next,
            self.pages.size,
        )
    }

    /// The same operation in another state.
    pub open spec fn at(self, state: PopulateState) -> CowPopulate {
        CowPopulate { state, ..self }
    }

    /// The operation with `count` pages counted and `pages` left.
    pub open spec fn going_on(self, pages: Pages, count: int) -> CowPopulate {
        CowPopulate {
            pages,
            count: count as usize,
            state: if pages.is_empty() {
                PopulateState::Done(Ok(count as usize))
            } else {
                PopulateState::Query
            },
            ..self
        }
    }

    /// The operation once its page is served: the page counts if it satisfies the access.
    pub open spec fn page_done(self, satisfied: bool) -> CowPopulate {
        self.going_on(
            self.pages.spec_rest(),
            if satisfied {
                self.count + 1
            } else {
                self.count as int
            },
        )
    }

    /// The operation that populates a range of a mapping.
    pub open spec fn of(
        backend: CowBackend,
        range: VirtAddrRange,
        flags: MappingFlags,
        access: MappingFlags,
    ) -> CowPopulate {
        let op = CowPopulate {
            start: backend.start,
            file: backend.file,
            flags,
            access,
            pages: Pages { next: 0, end: 0, size: backend.size },
            count: 0,
            state: PopulateState::Done(Err(AxError::InvalidInput)),
        };
        match spec_pages_in(range, backend.size) {
            Ok(pages) => op.going_on(pages, 0),
            Err(e) => op.at(PopulateState::Done(Err(e))),
        }
    }

    /// The work to do next; none when the operation is over.
    pub open spec fn spec_request(self) -> Option<Request> {
        let vaddr = self.pages.next;
        let size = self.pages.size;
        match self.state {
            PopulateState::Query => Some(Request::Query { vaddr }),
            PopulateState::Alloc => Some(
                Request::AllocFrame { zeroed: true, layout: frame_layout(size) },
            ),
            PopulateState::Read { frame } => Some(
                Request::ReadFile {
                    frame,
                    read: self.file.unwrap().spec_window(self.start, vaddr, size),
                },
            ),
            PopulateState::MapFrame { frame } => Some(
                Request::MapPage { vaddr, paddr: frame, size, flags: self.flags },
            ),
            PopulateState::Protect => Some(Request::Protect { vaddr, flags: self.flags }),
            PopulateState::CopyAlloc { .. } => Some(
                Request::AllocFrame { zeroed: false, layout: frame_layout(size) },
            ),
            PopulateState::Copy { shared, copy } => Some(
                Request::CopyFrame { from: shared, to: copy, len: size.bytes() },
            ),
            PopulateState::Remap { copy, .. } => Some(
                Request::Remap { vaddr, paddr: copy, flags: self.flags },
            ),
            PopulateState::Free { shared } => Some(
                Request::FreeFrame { paddr: shared, layout: frame_layout(size) },
            ),
            PopulateState::Done(_) => None,
        }
    }

    /// The work to do next; none when the operation is over.
    pub fn request(&self) -> (r: Option<Request>)
        requires
            self.wf(),
        ensures
            r == self.spec_request(),
    {
        let vaddr: usize = self.pages.next;
        let size = self.pages.size;
        match self.state {
            PopulateState::Query => Some(Request::Query { vaddr }),
            PopulateState::Alloc => Some(
                Request::AllocFrame { zeroed: true, layout: frame_layout(size) },
            ),
            PopulateState::Read { frame } => match self.file {
                Some(file) => Some(
                    Request::ReadFile { frame, read: file.window(self.start, vaddr, size) },
                ),
                None => None,
            },
            PopulateState::MapFrame { frame } => Some(
                Request::MapPage { vaddr, paddr: frame, size, flags: self.flags },
            ),
            PopulateState::Protect => Some(Request::Protect { vaddr, flags: self.flags }),
            PopulateState::CopyAlloc { .. } => Some(
                Request::AllocFrame { zeroed: false, layout: frame_layout(size) },
            ),
            PopulateState::Copy { shared, copy } => Some(
                Request::CopyFrame { from: shared, to: copy, len: size.bytes() },
            ),
            PopulateState::Remap { copy, .. } => Some(
                Request::Remap { vaddr, paddr: copy, flags: self.flags },
            ),
            PopulateState::Free { shared } => Some(
                Request::FreeFrame { paddr: shared, layout: frame_layout(size) },
            ),
            PopulateState::Done(_) => None,
        }
    }

    /// An entry has the page size of the mapping, a new frame is not in use, a page that is
    /// filled from a file lies at most a page before the mapping, and the shared frame is
    /// still referenced when the page leaves it.
    pub open spec fn accepts(self, reply: Reply, counts: Map<usize, u32>) -> bool {
        match (self.state, reply) {
            (PopulateState::Query, Reply::Entry(Ok(pte))) => pte.size == self.pages.size,
            (PopulateState::Alloc, Reply::Frame(Ok(frame))) => {
                &&& !counts.contains_key(frame)
                &&& self.file matches Some(file) ==> file.fits(
                    self.start,
                    self.pages.next,
                    self.pages.size,
                )
            },
            (PopulateState::CopyAlloc { .. }, Reply::Frame(Ok(frame))) => !counts.contains_key(
                frame,
            ),
            (PopulateState::Remap { shared, .. }, Reply::Paging(Ok(()))) => counts.contains_key(shared),
            _ => true,
        }
    }

    /// The operation after its page turned out to be mapped by `paddr` without the
    /// permission to write that the access needs.
    ///
    /// The only page that maps a frame is given the permissions of the mapping. Any other
    /// page gets a copy of the frame.
    pub open spec fn cow_fault(self, paddr: usize, counts: Map<usize, u32>) -> CowPopulate {
        match count_of(counts, paddr) {
            None => self.at(PopulateState::Done(Err(AxError::BadAddress))),
            Some(count) => if count == 1 {
                self.at(PopulateState::Protect)
            } else {
                self.at(PopulateState::CopyAlloc { shared: paddr })
            },
        }
    }

    /// The operation and the frame counts after a reply.
    pub open spec fn step(self, reply: Reply, counts: Map<usize, u32>) -> (
        CowPopulate,
        Map<usize, u32>,
    ) {
        let served = self.flags.contains(self.access);
        match (self.state, reply) {
            (PopulateState::Query, Reply::Entry(Ok(pte))) => (
                if self.access.writable() && !pte.flags.writable() {
                    self.cow_fault(pte.paddr, counts)
                } else {
                    self.page_done(pte.flags.contains(self.access))
                },
                counts,
            ),
            (PopulateState::Query, Reply::Entry(Err(e))) => (
                self.at(
                    if e is NotMapped {
                        PopulateState::Alloc
                    } else {
                        PopulateState::Done(Err(AxError::BadAddress))
                    },
                ),
                counts,
            ),
            (PopulateState::Alloc, Reply::Frame(Ok(frame))) => (
                self.at(
                    if self.file is Some {
                        PopulateState::Read { frame }
                    } else {
                        PopulateState::MapFrame { frame }
                    },
                ),
                counts.insert(frame, INITIAL_CNT),
            ),
            (PopulateState::Read { frame }, Reply::File(Ok(()))) => (
                self.at(PopulateState::MapFrame { frame }),
                counts,
            ),
            (PopulateState::CopyAlloc { shared }, Reply::Frame(Ok(copy))) => (
                self.at(PopulateState::Copy { shared, copy }),
                counts.insert(copy, INITIAL_CNT),
            ),
            (PopulateState::Copy { shared, copy }, Reply::Done) => (
                self.at(PopulateState::Remap { shared, copy }),
                counts,
            ),
            (PopulateState::Remap { shared, .. }, Reply::Paging(Ok(()))) => (
                if counts[shared] == 1 {
                    self.at(PopulateState::Free { shared })
                } else {
                    self.page_done(served)
                },
                released(counts, shared),
            ),
            (PopulateState::MapFrame { .. }, Reply::Paging(Ok(()))) => (
                self.page_done(served),
                counts,
            ),
            (PopulateState::Protect, Reply::Paging(Ok(()))) => (self.page_done(served), counts),
            (PopulateState::Free { .. }, Reply::Done) => (self.page_done(served), counts),
            (PopulateState::Alloc, Reply::Frame(Err(e))) => (
                self.at(PopulateState::Done(Err(e))),
                counts,
            ),
            (PopulateState::CopyAlloc { .. }, Reply::Frame(Err(e))) => (
                self.at(PopulateState::Done(Err(e))),
                counts,
            ),
            (PopulateState::Read { .. }, Reply::File(Err(e))) => (
                self.at(PopulateState::Done(Err(e))),
                counts,
            ),
            (PopulateState::MapFrame { .. }, Reply::Paging(Err(e))) => (
                self.at(PopulateState::Done(Err(e.spec_to_ax()))),
                counts,
            ),
            (PopulateState::Protect, Reply::Paging(Err(e))) => (
                self.at(PopulateState::Done(Err(e.spec_to_ax()))),
                counts,
            ),
            (PopulateState::Remap { .. }, Reply::Paging(Err(e))) => (
                self.at(PopulateState::Done(Err(e.spec_to_ax()))),
                counts,
            ),
            _ => (self, counts),
        }
    }

    /// Moves on to the next page; the page that is done counts if it satisfies the access.
    fn finish_page(&mut self, satisfied: bool)
        requires
            old(self).wf(),
            !old(self).pages.is_empty(),
        ensures
            final(self).wf(),
            *final(self) == old(self).page_done(satisfied),
    {
        proof {
            self.pages.lemma_rest();
        }
        self.pages = self.pages.rest();
        if satisfied {
            self.count = self.count + 1;
        }
        self.state = if self.pages.is_empty() {
            PopulateState::Done(Ok(self.count))
        } else {
            PopulateState::Query
        };
    }

    /// Puts a new frame for the page into use, and fills it from the file if there is one.
    fn alloc_new_at(&mut self, frame: usize, frames: &mut FrameTableRefCount)
        requires
            old(self).wf(),
            old(self).state is Alloc,
            old(self).accepts(Reply::Frame(Ok(frame)), old(frames)@),
            old(frames).wf(),
        ensures
            final(self).wf(),
            final(frames).wf(),
            *final(self) == old(self).step(Reply::Frame(Ok(frame)), old(frames)@).0,
            final(frames)@ == old(frames)@.insert(frame, INITIAL_CNT),
    {
        frames.init_frame(frame);
        self.state = match self.file {
            Some(_) => PopulateState::Read { frame },
            None => PopulateState::MapFrame { frame },
        };
    }

    /// Serves a write to a page that is mapped without the permission to write.
    fn handle_cow_fault(&mut self, paddr: usize, frames: &FrameTableRefCount)
        requires
            old(self).wf(),
            old(self).state is Query,
        ensures
            final(self).wf(),
            *final(self) == old(self).cow_fault(paddr, frames@),
    {
        self.state = match frames.get_frame_ref(paddr) {
            None => PopulateState::Done(Err(AxError::BadAddress)),
            // Only one reference, just upgrade the permissions.
            Some(1) => PopulateState::Protect,
            // Multiple references, need to copy the frame.
            Some(_) => PopulateState::CopyAlloc { shared: paddr },
        };
    }

    /// Goes on after a reply.
    pub fn resume(&mut self, reply: Reply, frames: &mut FrameTableRefCount)
        requires
            old(self).wf(),
            old(self).accepts(reply, old(frames)@),
            old(frames).wf(),
        ensures
            final(self).wf(),
            final(frames).wf(),
            *final(self) == old(self).step(reply, old(frames)@).0,
            final(frames)@ == old(self).step(reply, old(frames)@).1,
    {
        let served: bool = self.flags.contains(self.access);
        match (self.state, reply) {
            (PopulateState::Query, Reply::Entry(Ok(pte))) => {
                if self.access.writable() && !pte.flags.writable() {
                    self.handle_cow_fault(pte.paddr, frames);
                } else {
                    self.finish_page(pte.flags.contains(self.access));
                }
            },
            (PopulateState::Query, Reply::Entry(Err(PagingError::NotMapped))) => {
                self.state = PopulateState::Alloc;
            },
            (PopulateState::Query, Reply::Entry(Err(_))) => {
                self.state = PopulateState::Done(Err(AxError::BadAddress));
            },
            (PopulateState::Alloc, Reply::Frame(Ok(frame))) => {
                self.alloc_new_at(frame, frames);
            },
            (PopulateState::Read { frame }, Reply::File(Ok(()))) => {
                self.state = PopulateState::MapFrame { frame };
            },
            (PopulateState::CopyAlloc { shared }, Reply::Frame(Ok(copy))) => {
                frames.init_frame(copy);
                self.state = PopulateState::Copy { shared, copy };
            },
            (PopulateState::Copy { shared, copy }, Reply::Done) => {
                self.state = PopulateState::Remap { shared, copy };
            },
            (PopulateState::Remap { shared, .. }, Reply::Paging(Ok(()))) => {
                if frames.drop_frame(shared) {
                    self.state = PopulateState::Free { shared };
                } else {
                    self.finish_page(served);
                }
            },
            (PopulateState::MapFrame { .. }, Reply::Paging(Ok(())))
            | (PopulateState::Protect, Reply::Paging(Ok(())))
            | (PopulateState::Free { .. }, Reply::Done) => {
                self.finish_page(served);
            },
            (PopulateState::Alloc, Reply::Frame(Err(e)))
            | (PopulateState::CopyAlloc { .. }, Reply::Frame(Err(e)))
            | (PopulateState::Read { .. }, Reply::File(Err(e))) => {
                self.state = PopulateState::Done(Err(e));
            },
            (PopulateState::MapFrame { .. }, Reply::Paging(Err(e)))
            | (PopulateState::Protect, Reply::Paging(Err(e)))
            | (PopulateState::Remap { .. }, Reply::Paging(Err(e))) => {
                self.state = PopulateState::Done(Err(e.to_ax()));
            },
            _ => {},
        }
    }
}

} // verus!
