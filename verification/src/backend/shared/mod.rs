//! Shared anonymous mappings.
//!
//! The frames are allocated when the mapping is made and belong to a [`SharedPages`] that
//! every address space with the mapping holds on to. Page tables only refer to them.
use std::ops::Deref;
use std::sync::Arc;

use vstd::prelude::*;

use crate::addr::{divide_page, spec_pages_in, PageSize, Pages, VirtAddrRange};
use crate::backend::ops::{frame_layout, FrameLayout, Reply, Request};
use crate::backend::vm_flags::AtomicVmFlags;
use crate::error::{AxError, AxResult, PagingError};
use crate::flags::MappingFlags;

pub mod laws;
pub mod outcome;

verus! {

/// The frames behind a shared mapping.
#[derive(Debug)]
pub struct SharedPages {
    /// The frames, in the order of the pages.
    pub phys_pages: Vec<usize>,
    /// Size of each frame.
    pub size: PageSize,
}

impl View for SharedPages {
    type V = Seq<usize>;

    open spec fn view(&self) -> Seq<usize> {
        self.phys_pages@
    }
}

/// The number of frames for `size` bytes.
pub open spec fn frames_for(size: usize, page_size: PageSize) -> usize {
    size / page_size.bytes()
}

/// The work to do next for frames that are allocated one by one: zeroed frames until all are
/// there or an error came.
pub open spec fn alloc_request(
    frames: Seq<usize>,
    wanted: usize,
    error: Option<AxError>,
    size: PageSize,
) -> Option<Request> {
    if error is None && frames.len() < wanted {
        Some(Request::AllocFrame { zeroed: true, layout: frame_layout(size) })
    } else {
        None
    }
}

/// The frames and the error after a reply: a frame is kept, an error ends the allocation.
pub open spec fn alloc_step(
    frames: Seq<usize>,
    wanted: usize,
    error: Option<AxError>,
    reply: Reply,
) -> (Seq<usize>, Option<AxError>) {
    if error is None && frames.len() < wanted {
        match reply {
            Reply::Frame(Ok(frame)) => (frames.push(frame), None),
            Reply::Frame(Err(e)) => (frames, Some(e)),
            _ => (frames, error),
        }
    } else {
        (frames, error)
    }
}

/// What an allocation that is over comes to: all frames, or the error with the frames to give
/// back.
pub open spec fn alloc_result(frames: Seq<usize>, error: Option<AxError>) -> Result<
    Seq<usize>,
    (AxError, Seq<usize>),
> {
    match error {
        None => Ok(frames),
        Some(e) => Err((e, frames)),
    }
}

/// The frames that are given back when nobody holds them any more.
pub open spec fn given_back(frames: Seq<usize>) -> Seq<usize> {
    frames
}

impl SharedPages {
    /// Whether there are no frames.
    pub open spec fn spec_is_empty(&self) -> bool {
        self@.len() == 0
    }

    /// Starts to allocate the frames for `size` bytes.
    pub fn new(size: usize, page_size: PageSize) -> (r: SharedAlloc)
        requires
            size % page_size.bytes() == 0,
        ensures
            r.wf(),
            r.pages@ == Seq::<usize>::empty(),
            r.pages.size == page_size,
            r.wanted == frames_for(size, page_size),
            r.wanted == size / page_size.bytes(),
            r.error is None,
    {
        let wanted: usize = divide_page(size, page_size);
        SharedAlloc {
            pages: SharedPages { phys_pages: Vec::new(), size: page_size },
            wanted,
            error: None,
        }
    }

    /// Number of frames.
    pub fn len(&self) -> (r: usize)
        ensures
            r == self@.len(),
    {
        self.phys_pages.len()
    }

    /// Whether there are no frames.
    pub fn is_empty(&self) -> (r: bool)
        ensures
            r == self.spec_is_empty(),
            r == (self@.len() == 0),
    {
        self.phys_pages.len() == 0
    }

    /// Takes the frames apart when nobody holds them any more: the frames to give back,
    /// and the layout of each.
    pub fn release(self) -> (r: (Vec<usize>, FrameLayout))
        ensures
            r.0@ == given_back(self@),
            r.0@ == self@,
            r.1 == frame_layout(self.size),
    {
        let layout = frame_layout(self.size);
        (self.phys_pages, layout)
    }
}

impl Deref for SharedPages {
    type Target = [usize];

    /// The frames as a slice.
    fn deref(&self) -> (r: &[usize])
        ensures
            r@ == self@,
    {
        self.phys_pages.as_slice()
    }
}

/// Frames that are being allocated one by one.
#[derive(Debug)]
pub struct SharedAlloc {
    /// The frames so far.
    pub pages: SharedPages,
    /// Number of frames in the end.
    pub wanted: usize,
    /// The error that ended the allocation.
    pub error: Option<AxError>,
}

impl SharedAlloc {
    /// There are not more frames than wanted, and an error leaves some of them out.
    pub open spec fn wf(self) -> bool {
        &&& self.pages@.len() <= self.wanted
        &&& self.error is Some ==> self.pages@.len() < self.wanted
    }

    /// The work to do next: zeroed frames until all are there or an error came.
    pub fn request(&self) -> (r: Option<Request>)
        ensures
            r == alloc_request(self.pages@, self.wanted, self.error, self.pages.size),
            self.error is None && self.pages@.len() < self.wanted ==> r == Some(
                Request::AllocFrame { zeroed: true, layout: frame_layout(self.pages.size) },
            ),
            self.error is Some || self.pages@.len() >= self.wanted ==> r is None,
    {
        if self.error.is_none() && self.pages.len() < self.wanted {
            Some(Request::AllocFrame { zeroed: true, layout: frame_layout(self.pages.size) })
        } else {
            None
        }
    }

    /// Goes on after a reply: a frame is kept, an error ends the allocation.
    pub fn resume(&mut self, reply: Reply)
        requires
            old(self).wf(),
        ensures
            final(self).wf(),
            final(self).wanted == old(self).wanted,
            final(self).pages.size == old(self).pages.size,
            (final(self).pages@, final(self).error) == alloc_step(
                old(self).pages@,
                old(self).wanted,
                old(self).error,
                reply,
            ),
            old(self).error is None && old(self).pages@.len() < old(self).wanted ==> match reply {
                Reply::Frame(Ok(frame)) => final(self).pages@ == old(self).pages@.push(frame)
                    && final(self).error is None,
                Reply::Frame(Err(e)) => final(self).pages@ == old(self).pages@
                    && final(self).error == Some(e),
                _ => *final(self) == *old(self),
            },
            old(self).error is Some || old(self).pages@.len() >= old(self).wanted
                ==> *final(self) == *old(self),
    {
        if self.error.is_none() && self.pages.len() < self.wanted {
            match reply {
                Reply::Frame(Ok(frame)) => {
                    self.pages.phys_pages.push(frame);
                },
                Reply::Frame(Err(e)) => {
                    self.error = Some(e);
                },
                _ => {},
            }
        }
    }

    /// The allocation is over.
    pub open spec fn over(self) -> bool {
        self.error is Some || self.pages@.len() == self.wanted
    }

    /// Ends the allocation: all frames, or the error with the frames to give back.
    pub fn finish(self) -> (r: Result<SharedPages, (AxError, SharedPages)>)
        requires
            self.wf(),
            self.over(),
        ensures
            (match r {
                Ok(pages) => Ok(pages@),
                Err((e, pages)) => Err((e, pages@)),
            }) == alloc_result(self.pages@, self.error),
            self.error is None ==> r == Ok::<SharedPages, (AxError, SharedPages)>(self.pages),
            self.error matches Some(e) ==> r == Err::<SharedPages, (AxError, SharedPages)>(
                (e, self.pages),
            ),
    {
        match self.error {
            None => Ok(self.pages),
            Some(e) => Err((e, self.pages)),
        }
    }
}

/// Calls `Arc::clone`: another handle on the same frames.
#[verifier::external_body]
fn share_handle(pages: &Arc<SharedPages>) -> (r: Arc<SharedPages>)
    ensures
        r == *pages,
{
    Arc::clone(pages)
}

/// Shared mapping backend.
///
/// It does not allow to map or unmap partial ranges.
#[derive(Debug)]
pub struct SharedBackend {
    /// Address at which the mapping begins.
    pub start: usize,
    /// The frames behind it.
    pub pages: Arc<SharedPages>,
    /// Metadata flags.
    pub vm_flags: AtomicVmFlags,
}

impl Clone for SharedBackend {
    fn clone(&self) -> (r: SharedBackend)
        ensures
            r == *self,
    {
        SharedBackend {
            start: self.start,
            pages: share_handle(&self.pages),
            vm_flags: self.vm_flags.clone(),
        }
    }
}

impl SharedBackend {
    /// The frames behind the mapping.
    pub fn pages(&self) -> (r: &Arc<SharedPages>)
        ensures
            *r == self.pages,
    {
        &self.pages
    }

    /// `start` is a page of the mapping, or the end of it.
    pub open spec fn reaches(&self, start: usize) -> bool {
        &&& start >= self.start
        &&& (start - self.start) % (self.pages.size.bytes() as int) == 0
        &&& self.index_of(start) <= self.pages@.len()
    }

    /// The index of the frame behind a page.
    pub open spec fn index_of(&self, start: usize) -> int {
        (start - self.start) / (self.pages.size.bytes() as int)
    }

    /// The index of the frame behind a page.
    pub fn start_index(&self, start: usize) -> (r: usize)
        requires
            self.reaches(start),
        ensures
            r == self.index_of(start),
            r <= self.pages@.len(),
    {
        divide_page(start - self.start, self.pages.size)
    }

    /// The frames from the one behind the page at `start` on.
    pub fn pages_starting_from(&self, start: usize) -> (r: &[usize])
        requires
            self.reaches(start),
        ensures
            r@ == self.pages@.skip(self.index_of(start)),
    {
        let start_index: usize = self.start_index(start);
        let shared: &SharedPages = &self.pages;
        let pages = shared.deref();
        vstd::slice::slice_subrange(pages, start_index, pages.len())
    }
}

/// Where an operation that maps or unmaps pages stands.
#[derive(Clone, Copy, PartialEq, Eq, Debug)]
pub enum SharedState {
    /// The next page is to be mapped or unmapped.
    Next,
    /// The operation is over.
    Done(AxResult<()>),
}

/// Maps the pages of a range to the frames behind them.
#[derive(Debug)]
pub struct SharedMap {
    /// The frames.
    pub frames: Arc<SharedPages>,
    /// Permissions of the pages.
    pub flags: MappingFlags,
    /// The pages left.
    pub pages: Pages,
    /// The index of the frame of the next page.
    pub index: usize,
    /// Where the operation stands.
    pub state: SharedState,
}

impl SharedMap {
    /// The range is aligned, and there are a page and a frame where one is to be mapped.
    pub open spec fn wf(self) -> bool {
        &&& self.pages.wf()
        &&& self.index <= self.frames@.len()
        &&& self.state is Next ==> !self.pages.is_empty() && self.index < self.frames@.len()
    }

    /// The operation with `pages` left, the first of them for frame `index`. It is over
    /// with the last page or the last frame.
    pub open spec fn going_on(self, pages: Pages, index: int) -> SharedMap {
        SharedMap {
            pages,
            index: index as usize,
            state: if pages.is_empty() || index >= self.frames@.len() {
                SharedState::Done(Ok(()))
            } else {
                SharedState::Next
            },
            ..self
        }
    }

    /// The operation that maps a range of a mapping.
    pub open spec fn of(backend: SharedBackend, range: VirtAddrRange, flags: MappingFlags) -> SharedMap {
        let op = SharedMap {
            frames: backend.pages,
            flags,
            pages: Pages { next: 0, end: 0, size: backend.pages.size },
            index: 0,
            state: SharedState::Done(Ok(())),
        };
        match spec_pages_in(range, backend.pages.size) {
            Ok(pages) => op.going_on(pages, backend.index_of(range.start)),
            Err(e) => SharedMap { state: SharedState::Done(Err(e)), ..op },
        }
    }

    /// The work to do next; none when the operation is over.
    pub open spec fn spec_request(self) -> Option<Request> {
        match self.state {
            SharedState::Next => Some(
                Request::MapPage {
                    vaddr: self.pages.next,
                    paddr: self.frames@[self.index as int],
                    size: self.pages.size,
                    flags: self.flags,
                },
            ),
            SharedState::Done(_) => None,
        }
    }

    /// The work to do next; none when the operation is over.
    pub fn request(&self) -> (r: Option<Request>)
        requires
            self.wf(),
        ensures
            r == self.spec_request(),
    {
        match self.state {
            SharedState::Next => Some(
                Request::MapPage {
                    vaddr: self.pages.next,
                    paddr: self.frames.phys_pages[self.index],
                    size: self.pages.size,
                    flags: self.flags,
                },
            ),
            SharedState::Done(_) => None,
        }
    }

    /// The operation after a reply.
    pub open spec fn step(self, reply: Reply) -> SharedMap {
        match (self.state, reply) {
            (SharedState::Next, Reply::Paging(Ok(()))) => self.going_on(
                self.pages.spec_rest(),
                self.index + 1,
            ),
            (SharedState::Next, Reply::Paging(Err(e))) => SharedMap {
                state: SharedState::Done(Err(e.spec_to_ax())),
                ..self
            },
            _ => self,
        }
    }

    /// Goes on after a reply.
    pub fn resume(&mut self, reply: Reply)
        requires
            old(self).wf(),
        ensures
            final(self).wf(),
            *final(self) == old(self).step(reply),
    {
        match (self.state, reply) {
            (SharedState::Next, Reply::Paging(Ok(()))) => {
                let frame_count: usize = self.frames.len();
                self.pages = self.pages.rest();
                self.index = self.index + 1;
                self.state = if self.pages.is_empty() || self.index >= frame_count {
                    SharedState::Done(Ok(()))
                } else {
                    SharedState::Next
                };
            },
            (SharedState::Next, Reply::Paging(Err(e))) => {
                self.state = SharedState::Done(Err(e.to_ax()));
            },
            _ => {},
        }
    }
}

/// Removes the entries of the pages of a range. The frames stay where they are.
#[derive(Clone, Copy, PartialEq, Eq, Debug)]
pub struct SharedUnmap {
    /// The pages left.
    pub pages: Pages,
    /// Where the operation stands.
    pub state: SharedState,
}

impl SharedUnmap {
    /// The range is aligned, and there is a page where one is to be removed.
    pub open spec fn wf(self) -> bool {
        &&& self.pages.wf()
        &&& self.state is Next ==> !self.pages.is_empty()
    }

    /// The operation that still has to remove `pages`.
    pub open spec fn spec_from(pages: Pages) -> SharedUnmap {
        SharedUnmap {
            pages,
            state: if pages.is_empty() {
                SharedState::Done(Ok(()))
            } else {
                SharedState::Next
            },
        }
    }

    /// The operation that still has to remove `pages`.
    #[verifier::when_used_as_spec(spec_from)]
    pub fn from(pages: Pages) -> (r: SharedUnmap)
        requires
            pages.wf(),
        ensures
            r == SharedUnmap::from(pages),
            r.wf(),
    {
        SharedUnmap {
            pages,
            state: if pages.is_empty() {
                SharedState::Done(Ok(()))
            } else {
                SharedState::Next
            },
        }
    }

    /// The operation that removes a range.
    pub open spec fn of(range: VirtAddrRange, size: PageSize) -> SharedUnmap {
        match spec_pages_in(range, size) {
            Ok(pages) => SharedUnmap::from(pages),
            Err(e) => SharedUnmap {
                pages: Pages { next: 0, end: 0, size },
                state: SharedState::Done(Err(e)),
            },
        }
    }

    /// The work to do next; none when the operation is over.
    pub open spec fn spec_request(self) -> Option<Request> {
        match self.state {
            SharedState::Next => Some(Request::Unmap { vaddr: self.pages.next }),
            SharedState::Done(_) => None,
        }
    }

    /// The work to do next; none when the operation is over.
    pub fn request(&self) -> (r: Option<Request>)
        ensures
            r == self.spec_request(),
    {
        match self.state {
            SharedState::Next => Some(Request::Unmap { vaddr: self.pages.next }),
            SharedState::Done(_) => None,
        }
    }

    /// The operation after a reply: a page that has no entry ends it.
    pub open spec fn step(self, reply: Reply) -> SharedUnmap {
        match (self.state, reply) {
            (SharedState::Next, Reply::Entry(Ok(_))) => SharedUnmap::from(self.pages.spec_rest()),
            (SharedState::Next, Reply::Entry(Err(e))) => SharedUnmap {
                state: SharedState::Done(Err(e.spec_to_ax())),
                ..self
            },
            _ => self,
        }
    }

    /// Goes on after a reply.
    pub fn resume(&mut self, reply: Reply)
        requires
            old(self).wf(),
        ensures
            final(self).wf(),
            *final(self) == old(self).step(reply),
    {
        match (self.state, reply) {
            (SharedState::Next, Reply::Entry(Ok(_))) => {
                *self = SharedUnmap::from(self.pages.rest());
            },
            (SharedState::Next, Reply::Entry(Err(e))) => {
                self.state = SharedState::Done(Err(e.to_ax()));
            },
            _ => {},
        }
    }
}

/// Where an operation that discards pages stands.
#[derive(Clone, Copy, PartialEq, Eq, Debug)]
pub enum SharedZapState {
    /// The entry of the next page is to be cleared.
    Next,
    /// The operation is over; on success it tells the number of entries cleared.
    Done(AxResult<usize>),
}

/// Clears the entries of the pages of a range and counts them. The frames still belong to
/// the shared pages.
#[derive(Clone, Copy, PartialEq, Eq, Debug)]
pub struct SharedZap {
    /// The pages left.
    pub pages: Pages,
    /// Number of entries cleared so far.
    pub count: usize,
    /// Where the operation stands.
    pub state: SharedZapState,
}

impl SharedZap {
    /// The range is aligned, there is a page where one is to be cleared, and the number of
    /// pages fits.
    pub open spec fn wf(self) -> bool {
        &&& self.pages.wf()
        &&& self.state is Next ==> !self.pages.is_empty()
        &&& self.count + self.pages.count() <= usize::MAX
    }

    /// The operation that has cleared `count` entries and still has to visit `pages`.
    pub open spec fn spec_from(pages: Pages, count: usize) -> SharedZap {
        SharedZap {
            pages,
            count,
            state: if pages.is_empty() {
                SharedZapState::Done(Ok(count))
            } else {
                SharedZapState::Next
            },
        }
    }

    /// The operation that has cleared `count` entries and still has to visit `pages`.
    #[verifier::when_used_as_spec(spec_from)]
    pub fn from(pages: Pages, count: usize) -> (r: SharedZap)
        requires
            pages.wf(),
            count + pages.count() <= usize::MAX,
        ensures
            r == SharedZap::from(pages, count),
            r.wf(),
    {
        SharedZap {
            pages,
            count,
            state: if pages.is_empty() {
                SharedZapState::Done(Ok(count))
            } else {
                SharedZapState::Next
            },
        }
    }

    /// The operation that clears a range.
    pub open spec fn of(range: VirtAddrRange, size: PageSize) -> SharedZap {
        match spec_pages_in(range, size) {
            Ok(pages) => SharedZap::from(pages, 0),
            Err(e) => SharedZap {
                pages: Pages { next: 0, end: 0, size },
                count: 0,
                state: SharedZapState::Done(Err(e)),
            },
        }
    }

    /// The work to do next; none when the operation is over.
    pub open spec fn spec_request(self) -> Option<Request> {
        match self.state {
            SharedZapState::Next => Some(Request::Unmap { vaddr: self.pages.next }),
            SharedZapState::Done(_) => None,
        }
    }

    /// The work to do next; none when the operation is over.
    pub fn request(&self) -> (r: Option<Request>)
        ensures
            r == self.spec_request(),
    {
        match self.state {
            SharedZapState::Next => Some(Request::Unmap { vaddr: self.pages.next }),
            SharedZapState::Done(_) => None,
        }
    }

    /// The operation after a reply: a page that has no entry is passed over.
    pub open spec fn step(self, reply: Reply) -> SharedZap {
        match (self.state, reply) {
            (SharedZapState::Next, Reply::Entry(Ok(_))) => SharedZap::from(
                self.pages.spec_rest(),
                (self.count + 1) as usize,
            ),
            (SharedZapState::Next, Reply::Entry(Err(_))) => SharedZap::from(
                self.pages.spec_rest(),
                self.count,
            ),
            _ => self,
        }
    }

    /// Goes on after a reply.
    pub fn resume(&mut self, reply: Reply)
        requires
            old(self).wf(),
        ensures
            final(self).wf(),
            *final(self) == old(self).step(reply),
    {
        match (self.state, reply) {
            (SharedZapState::Next, Reply::Entry(entry)) => {
                proof {
                    self.pages.lemma_rest();
                }
                let count: usize = match entry {
                    Ok(_) => self.count + 1,
                    Err(_) => self.count,
                };
                *self = SharedZap::from(self.pages.rest(), count);
            },
            _ => {},
        }
    }
}

/// Where a populate operation stands with its page.
#[derive(Clone, Copy, PartialEq, Eq, Debug)]
pub enum SharedPopulateState {
    /// The entry of the next page is to be looked up.
    Next,
    /// The next page is not mapped and is to be mapped.
    MapFrame,
    /// The operation is over; on success it tells how many pages satisfy the access.
    Done(AxResult<usize>),
}

/// Maps the pages of a range that are not mapped yet, and counts those that satisfy an
/// access.
#[derive(Debug)]
pub struct SharedPopulate {
    /// The frames.
    pub frames: Arc<SharedPages>,
    /// Permissions of the mapping.
    pub flags: MappingFlags,
    /// Permissions that the access needs.
    pub access: MappingFlags,
    /// The pages left, the one in progress first.
    pub pages: Pages,
    /// The index of the frame of the page in progress.
    pub index: usize,
    /// Number of pages so far that satisfy the access.
    pub count: usize,
    /// Where the operation stands.
    pub state: SharedPopulateState,
}

impl SharedPopulate {
    /// The range is aligned, there are a page and a frame in progress until the operation
    /// is over, and the number of pages fits.
    pub open spec fn wf(self) -> bool {
        &&& self.pages.wf()
        &&& self.index <= self.frames@.len()
        &&& !(self.state is Done) ==> !self.pages.is_empty() && self.index < self.frames@.len()
        &&& self.count + self.pages.count() <= usize::MAX
    }

    /// The same operation in another state.
    pub open spec fn at(self, state: SharedPopulateState) -> SharedPopulate {
        SharedPopulate { state, ..self }
    }

    /// The operation with `count` pages counted and `pages` left, the first of them for
    /// frame `index`. It is over with the last page or the last frame.
    pub open spec fn going_on(self, pages: Pages, index: int, count: int) -> SharedPopulate {
        SharedPopulate {
            pages,
            index: index as usize,
            count: count as usize,
            state: if pages.is_empty() || index >= self.frames@.len() {
                SharedPopulateState::Done(Ok(count as usize))
            } else {
                SharedPopulateState::Next
            },
            ..self
        }
    }

    /// The operation once its page is served: the page counts if it satisfies the access.
    pub open spec fn page_done(self, satisfied: bool) -> SharedPopulate {
        self.going_on(
            self.pages.spec_rest(),
            self.index + 1,
            if satisfied {
                self.count + 1
            } else {
                self.count as int
            },
        )
    }

    /// The operation that populates a range of a mapping.
    pub open spec fn of(
        backend: SharedBackend,
        range: VirtAddrRange,
        flags: MappingFlags,
        access: MappingFlags,
    ) -> SharedPopulate {
        let op = SharedPopulate {
            frames: backend.pages,
            flags,
            access,
            pages: Pages { next: 0, end: 0, size: backend.pages.size },
            index: 0,
            count: 0,
            state: SharedPopulateState::Done(Ok(0)),
        };
        match spec_pages_in(range, backend.pages.size) {
            Ok(pages) => op.going_on(pages, backend.index_of(range.start), 0),
            Err(e) => op.at(SharedPopulateState::Done(Err(e))),
        }
    }

    /// The work to do next; none when the operation is over.
    pub open spec fn spec_request(self) -> Option<Request> {
        match self.state {
            SharedPopulateState::Next => Some(Request::Query { vaddr: self.pages.next }),
            SharedPopulateState::MapFrame => Some(
                Request::MapPage {
                    vaddr: self.pages.next,
                    paddr: self.frames@[self.index as int],
                    size: self.pages.size,
                    flags: self.flags,
                },
            ),
            SharedPopulateState::Done(_) => None,
        }
    }

    /// The work to do next; none when the operation is over.
    pub fn request(&self) -> (r: Option<Request>)
        requires
            self.wf(),
        ensures
            r == self.spec_request(),
    {
        match self.state {
            SharedPopulateState::Next => Some(Request::Query { vaddr: self.pages.next }),
            SharedPopulateState::MapFrame => Some(
                Request::MapPage {
                    vaddr: self.pages.next,
                    paddr: self.frames.phys_pages[self.index],
                    size: self.pages.size,
                    flags: self.flags,
                },
            ),
            SharedPopulateState::Done(_) => None,
        }
    }

    /// The operation after a reply.
    pub open spec fn step(self, reply: Reply) -> SharedPopulate {
        match (self.state, reply) {
            (SharedPopulateState::Next, Reply::Entry(Ok(pte))) => self.page_done(
                pte.flags.contains(self.access),
            ),
            (SharedPopulateState::Next, Reply::Entry(Err(e))) => self.at(
                if e is NotMapped {
                    SharedPopulateState::MapFrame
                } else {
                    SharedPopulateState::Done(Err(AxError::BadAddress))
                },
            ),
            (SharedPopulateState::MapFrame, Reply::Paging(Ok(()))) => self.page_done(
                self.flags.contains(self.access),
            ),
            (SharedPopulateState::MapFrame, Reply::Paging(Err(e))) => self.at(
                SharedPopulateState::Done(Err(e.spec_to_ax())),
            ),
            _ => self,
        }
    }

    /// Moves on to the next page; the page that is done counts if it satisfies the access.
    fn finish_page(&mut self, satisfied: bool)
        requires
            old(self).wf(),
            !(old(self).state is Done),
        ensures
            final(self).wf(),
            *final(self) == old(self).page_done(satisfied),
    {
        proof {
            self.pages.lemma_rest();
        }
        let frame_count: usize = self.frames.len();
        self.pages = self.pages.rest();
        self.index = self.index + 1;
        if satisfied {
            self.count = self.count + 1;
        }
        self.state = if self.pages.is_empty() || self.index >= frame_count {
            SharedPopulateState::Done(Ok(self.count))
        } else {
            SharedPopulateState::Next
        };
    }

    /// Goes on after a reply.
    pub fn resume(&mut self, reply: Reply)
        requires
            old(self).wf(),
        ensures
            final(self).wf(),
            *final(self) == old(self).step(reply),
    {
        match (self.state, reply) {
            (SharedPopulateState::Next, Reply::Entry(Ok(pte))) => {
                self.finish_page(pte.flags.contains(self.access));
            },
            (SharedPopulateState::Next, Reply::Entry(Err(PagingError::NotMapped))) => {
                self.state = SharedPopulateState::MapFrame;
            },
            (SharedPopulateState::Next, Reply::Entry(Err(_))) => {
                self.state = SharedPopulateState::Done(Err(AxError::BadAddress));
            },
            (SharedPopulateState::MapFrame, Reply::Paging(Ok(()))) => {
                self.finish_page(self.flags.contains(self.access));
            },
            (SharedPopulateState::MapFrame, Reply::Paging(Err(e))) => {
                self.state = SharedPopulateState::Done(Err(e.to_ax()));
            },
            _ => {},
        }
    }
}

} // verus!
