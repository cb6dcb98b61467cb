//! Discarding the pages of a copy-on-write mapping.
use vstd::prelude::*;

use crate::addr::{spec_pages_in, PageSize, Pages, VirtAddrRange};
use crate::backend::frames::{count_of, released, FrameTableRefCount};
use crate::backend::ops::{frame_layout, Reply, Request};
use crate::error::AxResult;

verus! {

/// Where an operation that discards pages stands.
#[derive(Clone, Copy, PartialEq, Eq, Debug)]
pub enum ZapState {
    /// The entry of the next page is to be removed.
    Unmap,
    /// A frame that nobody references any more is to be given back.
    Free { frame: usize },
    /// The operation is over; on success it tells how many pages were discarded.
    Done(AxResult<usize>),
}

/// Discards the physical pages of a range and counts them. The mapping itself stays.
#[derive(Clone, Copy, PartialEq, Eq, Debug)]
pub struct CowZap {
    /// The pages left.
    pub pages: Pages,
    /// Number of pages discarded so far.
    pub count: usize,
    /// Where the operation stands.
    pub state: ZapState,
}

impl CowZap {
    /// The range is aligned, there is a page to remove where one is asked for, and the
    /// number of pages fits.
    pub open spec fn wf(self) -> bool {
        &&& self.pages.wf()
        &&& self.state is Unmap ==> !self.pages.is_empty()
        &&& self.count + self.pages.count() <= usize::MAX
    }

    /// The operation that has discarded `count` pages and still has to visit `pages`.
    pub open spec fn spec_from(pages: Pages, count: usize) -> CowZap {
        CowZap {
            pages,
            count,
            state: if pages.is_empty() {
                ZapState::Done(Ok(count))
            } else {
                ZapState::Unmap
            },
        }
    }

    /// The operation that has discarded `count` pages and still has to visit `pages`.
    #[verifier::when_used_as_spec(spec_from)]
    pub fn from(pages: Pages, count: usize) -> (r: CowZap)
        requires
            pages.wf(),
            count + pages.count() <= usize::MAX,
        ensures
            r == CowZap::from(pages, count),
            r.wf(),
    {
        CowZap {
            pages,
            count,
            state: if pages.is_empty() {
                ZapState::Done(Ok(count))
            } else {
                ZapState::Unmap
            },
        }
    }

    /// The operation that discards the pages of a range.
    pub open spec fn of(range: VirtAddrRange, size: PageSize) -> CowZap {
        match spec_pages_in(range, size) {
            Ok(pages) => CowZap::from(pages, 0),
            Err(e) => CowZap {
                pages: Pages { next: 0, end: 0, size },
                count: 0,
                state: ZapState::Done(Err(e)),
            },
        }
    }

    /// The work to do next; none when the operation is over.
    pub open spec fn spec_request(self) -> Option<Request> {
        match self.state {
            ZapState::Unmap => Some(Request::Unmap { vaddr: self.pages.next }),
            ZapState::Free { frame } => Some(
                Request::FreeFrame { paddr: frame, layout: frame_layout(self.pages.size) },
            ),
            ZapState::Done(_) => None,
        }
    }

    /// The work to do next; none when the operation is over.
    pub fn request(&self) -> (r: Option<Request>)
        ensures
            r == self.spec_request(),
    {
        match self.state {
            ZapState::Unmap => Some(Request::Unmap { vaddr: self.pages.next }),
            ZapState::Free { frame } => Some(
                Request::FreeFrame { paddr: frame, layout: frame_layout(self.pages.size) },
            ),
            ZapState::Done(_) => None,
        }
    }

    /// An entry that was removed has the page size of the mapping.
    pub open spec fn accepts(self, reply: Reply) -> bool {
        self.state is Unmap ==> (reply matches Reply::Entry(Ok(pte)) ==> pte.size
            == self.pages.size)
    }

    /// The operation and the frame counts after a reply.
    ///
    /// A page without an entry is passed over, and every removed entry counts. The frame
    /// of a removed entry loses a reference, and is given back with the last one; a frame
    /// that is not in the table is left alone.
    pub open spec fn step(self, reply: Reply, counts: Map<usize, u32>) -> (
        CowZap,
        Map<usize, u32>,
    ) {
        let rest = self.pages.spec_rest();
        match (self.state, reply) {
            (ZapState::Unmap, Reply::Entry(Ok(pte))) => {
                let count = (self.count + 1) as usize;
                match count_of(counts, pte.paddr) {
                    None => (CowZap::from(rest, count), counts),
                    Some(refs) => (
                        if refs == 1 {
                            CowZap { pages: rest, count, state: ZapState::Free { frame: pte.paddr } }
                        } else {
                            CowZap::from(rest, count)
                        },
                        released(counts, pte.paddr),
                    ),
                }
            },
            (ZapState::Unmap, Reply::Entry(Err(_))) => (CowZap::from(rest, self.count), counts),
            (ZapState::Free { .. }, Reply::Done) => (CowZap::from(self.pages, self.count), counts),
            _ => (self, counts),
        }
    }

    /// Goes on after a reply.
    pub fn resume(&mut self, reply: Reply, frames: &mut FrameTableRefCount)
        requires
            old(self).wf(),
            old(self).accepts(reply),
            old(frames).wf(),
        ensures
            final(self).wf(),
            final(frames).wf(),
            *final(self) == old(self).step(reply, old(frames)@).0,
            final(frames)@ == old(self).step(reply, old(frames)@).1,
    {
        match (self.state, reply) {
            (ZapState::Unmap, Reply::Entry(entry)) => {
                proof {
                    self.pages.lemma_rest();
                }
                let rest = self.pages.rest();
                match entry {
                    Ok(pte) => {
                        *self = CowZap::from(rest, self.count + 1);
                        if let Some(_) = frames.get_frame_ref(pte.paddr) {
                            if frames.drop_frame(pte.paddr) {
                                self.state = ZapState::Free { frame: pte.paddr };
                            }
                        }
                    },
                    Err(_) => {
                        *self = CowZap::from(rest, self.count);
                    },
                }
            },
            (ZapState::Free { .. }, Reply::Done) => {
                *self = CowZap::from(self.pages, self.count);
            },
            _ => {},
        }
    }
}

} // verus!
