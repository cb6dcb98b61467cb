//! Unmapping a range of a copy-on-write mapping.
use vstd::prelude::*;

use crate::addr::{spec_pages_in, PageSize, Pages, VirtAddrRange};
use crate::backend::frames::{count_of, released, FrameTableRefCount};
use crate::backend::ops::{frame_layout, Reply, Request};
use crate::error::{AxError, AxResult};

verus! {

/// Where an unmap operation stands.
#[derive(Clone, Copy, PartialEq, Eq, Debug)]
pub enum UnmapState {
    /// The entry of the next page is to be removed.
    Unmap,
    /// A frame that nobody references any more is to be given back.
    Free { frame: usize },
    /// The operation is over.
    Done(AxResult<()>),
}

/// Removes the pages of a range and drops their references.
#[derive(Clone, Copy, PartialEq, Eq, Debug)]
pub struct CowUnmap {
    /// The pages left.
    pub pages: Pages,
    /// Where the operation stands.
    pub state: UnmapState,
}

impl CowUnmap {
    /// The range is aligned, and there is a page to remove where one is asked for.
    pub open spec fn wf(self) -> bool {
        &&& self.pages.wf()
        &&& self.state is Unmap ==> !self.pages.is_empty()
    }

    /// The operation that still has to remove `pages`.
    pub open spec fn spec_from(pages: Pages) -> CowUnmap {
        CowUnmap {
            pages,
            state: if pages.is_empty() {
                UnmapState::Done(Ok(()))
            } else {
                UnmapState::Unmap
            },
        }
    }

    /// The operation that still has to remove `pages`.
    #[verifier::when_used_as_spec(spec_from)]
    pub fn from(pages: Pages) -> (r: CowUnmap)
        requires
            pages.wf(),
        ensures
            r == CowUnmap::from(pages),
            r.wf(),
    {
        CowUnmap {
            pages,
            state: if pages.is_empty() {
                UnmapState::Done(Ok(()))
            } else {
                UnmapState::Unmap
            },
        }
    }

    /// The operation that removes a range.
    pub open spec fn of(range: VirtAddrRange, size: PageSize) -> CowUnmap {
        match spec_pages_in(range, size) {
            Ok(pages) => CowUnmap::from(pages),
            Err(e) => CowUnmap {
                pages: Pages { next: 0, end: 0, size },
                state: UnmapState::Done(Err(e)),
            },
        }
    }

    /// The work to do next; none when the operation is over.
    pub open spec fn spec_request(self) -> Option<Request> {
        match self.state {
            UnmapState::Unmap => Some(Request::Unmap { vaddr: self.pages.next }),
            UnmapState::Free { frame } => Some(
                Request::FreeFrame { paddr: frame, layout: frame_layout(self.pages.size) },
            ),
            UnmapState::Done(_) => None,
        }
    }

    /// The work to do next; none when the operation is over.
    pub fn request(&self) -> (r: Option<Request>)
        ensures
            r == self.spec_request(),
    {
        match self.state {
            UnmapState::Unmap => Some(Request::Unmap { vaddr: self.pages.next }),
            UnmapState::Free { frame } => Some(
                Request::FreeFrame { paddr: frame, layout: frame_layout(self.pages.size) },
            ),
            UnmapState::Done(_) => None,
        }
    }

    /// An entry that was removed has the page size of the mapping.
    pub open spec fn accepts(self, reply: Reply) -> bool {
        self.state is Unmap ==> (reply matches Reply::Entry(Ok(pte)) ==> pte.size
            == self.pages.size)
    }

    /// The operation and the frame counts after a reply.
    ///
    /// A page without an entry is passed over. The frame of a removed entry loses a
    /// reference, and is given back with the last one. A frame that is not in the table
    /// ends the operation.
    pub open spec fn step(self, reply: Reply, counts: Map<usize, u32>) -> (
        CowUnmap,
        Map<usize, u32>,
    ) {
        match (self.state, reply) {
            (UnmapState::Unmap, Reply::Entry(Ok(pte))) => match count_of(counts, pte.paddr) {
                None => (
                    CowUnmap {
                        pages: self.pages.spec_rest(),
                        state: UnmapState::Done(Err(AxError::BadAddress)),
                    },
                    counts,
                ),
                Some(count) => (
                    if count == 1 {
                        CowUnmap {
                            pages: self.pages.spec_rest(),
                            state: UnmapState::Free { frame: pte.paddr },
                        }
                    } else {
                        CowUnmap::from(self.pages.spec_rest())
                    },
                    released(counts, pte.paddr),
                ),
            },
            (UnmapState::Unmap, Reply::Entry(Err(_))) => (
                CowUnmap::from(self.pages.spec_rest()),
                counts,
            ),
            (UnmapState::Free { .. }, Reply::Done) => (CowUnmap::from(self.pages), counts),
            _ => (self, counts),
        }
    }

    /// Goes on after a reply.
    pub fn resume(&mut self, reply: Reply, frames: &mut FrameTableRefCount)
        requires
            old(self).wf(),
            old(self).accepts(reply),
            old(frames).wf(),
        ensures
            final(self).wf(),
            final(frames).wf(),
            *final(self) == old(self).step(reply, old(frames)@).0,
            final(frames)@ == old(self).step(reply, old(frames)@).1,
    {
        match (self.state, reply) {
            (UnmapState::Unmap, Reply::Entry(entry)) => {
                let rest = self.pages.rest();
                *self = CowUnmap::from(rest);
                if let Ok(pte) = entry {
                    match frames.get_frame_ref(pte.paddr) {
                        None => {
                            self.state = UnmapState::Done(Err(AxError::BadAddress));
                        },
                        Some(_) => {
                            if frames.drop_frame(pte.paddr) {
                                self.state = UnmapState::Free { frame: pte.paddr };
                            }
                        },
                    }
                }
            },
            (UnmapState::Free { .. }, Reply::Done) => {
                *self = CowUnmap::from(self.pages);
            },
            _ => {},
        }
    }
}

} // verus!
