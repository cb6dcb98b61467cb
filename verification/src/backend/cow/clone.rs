//! Duplicating a copy-on-write mapping for another address space.
use vstd::prelude::*;

use crate::addr::{spec_pages_in, PageSize, Pages, VirtAddrRange};
use crate::backend::cow::CowBackend;
use crate::backend::frames::{retained, FrameTableRefCount};
use crate::backend::ops::{Reply, Request};
use crate::error::{AxError, AxResult, PagingError};
use crate::flags::MappingFlags;

verus! {

/// Where an operation that duplicates a mapping stands.
#[derive(Clone, Copy, PartialEq, Eq, Debug)]
pub enum CloneState {
    /// The entry of the next page is to be looked up.
    Query,
    /// Page `index` has one more reference; its entry is to be made read-only.
    Protect { index: usize },
    /// Page `index` is to be mapped in the new address space.
    MapNew { index: usize },
    /// The operation is over.
    Done(AxResult<()>),
}

/// Duplicates the pages of a range for another address space.
///
/// Phase 1 collects the mapped pages. Phase 2 checks that all their frames are counted.
/// Phase 3 shares page by page: one more reference, read-only in the old address space,
/// mapped read-only in the new one.
#[derive(Debug)]
pub struct CowClone {
    /// The mapping that is duplicated.
    pub backend: CowBackend,
    /// Permissions of the shared pages.
    pub cow_flags: MappingFlags,
    /// The pages left to look up.
    pub pages: Pages,
    /// The mapped pages with their frames.
    pub mapped: Vec<(usize, usize)>,
    /// Where the operation stands.
    pub state: CloneState,
}

/// What a clone operation is about, with the mapped pages as a sequence.
#[verifier::ext_equal]
pub struct CloneView {
    /// Permissions of the shared pages.
    pub cow_flags: MappingFlags,
    /// The pages left to look up.
    pub pages: Pages,
    /// The mapped pages with their frames.
    pub mapped: Seq<(usize, usize)>,
    /// Where the operation stands.
    pub state: CloneState,
}

/// Whether all frames of the pages are in the table.
pub open spec fn all_counted(mapped: Seq<(usize, usize)>, counts: Map<usize, u32>) -> bool {
    forall|i: int| 0 <= i < mapped.len() ==> counts.contains_key((#[trigger] mapped[i]).1)
}

impl CloneView {
    /// The range is aligned, and the state speaks of a page that there is.
    pub open spec fn wf(self) -> bool {
        &&& self.pages.wf()
        &&& match self.state {
            CloneState::Query => !self.pages.is_empty(),
            CloneState::Protect { index } => index < self.mapped.len(),
            CloneState::MapNew { index } => index < self.mapped.len(),
            CloneState::Done(_) => true,
        }
    }

    /// The same operation in another state.
    pub open spec fn at(self, state: CloneState) -> CloneView {
        CloneView { state, ..self }
    }

    /// The operation and the counts when page `index` is the next one to share: its frame
    /// gets a reference, unless the count is at its limit.
    pub open spec fn share_from(self, index: int, counts: Map<usize, u32>) -> (
        CloneView,
        Map<usize, u32>,
    ) {
        if index >= self.mapped.len() {
            (self.at(CloneState::Done(Ok(()))), counts)
        } else if counts[self.mapped[index].1] == u32::MAX {
            (self.at(CloneState::Done(Err(AxError::NoMemory))), counts)
        } else {
            (
                self.at(CloneState::Protect { index: index as usize }),
                retained(counts, self.mapped[index].1),
            )
        }
    }

    /// The operation with `pages` left to look up and `mapped` collected.
    pub open spec fn collected(
        self,
        pages: Pages,
        mapped: Seq<(usize, usize)>,
        counts: Map<usize, u32>,
    ) -> (CloneView, Map<usize, u32>) {
        let op = CloneView { pages, mapped, ..self };
        if !pages.is_empty() {
            (op.at(CloneState::Query), counts)
        } else if !all_counted(mapped, counts) {
            (op.at(CloneState::Done(Err(AxError::BadAddress))), counts)
        } else {
            op.share_from(0, counts)
        }
    }

    /// The work to do next; none when the operation is over.
    pub open spec fn request(self) -> Option<Request> {
        match self.state {
            CloneState::Query => Some(Request::Query { vaddr: self.pages.next }),
            CloneState::Protect { index } => Some(
                Request::Protect { vaddr: self.mapped[index as int].0, flags: self.cow_flags },
            ),
            CloneState::MapNew { index } => Some(
                Request::MapNew {
                    vaddr: self.mapped[index as int].0,
                    paddr: self.mapped[index as int].1,
                    size: self.pages.size,
                    flags: self.cow_flags,
                },
            ),
            CloneState::Done(_) => None,
        }
    }

    /// An entry has the page size of the mapping, and the frames of the pages that are
    /// still to be shared are referenced.
    pub open spec fn accepts(self, reply: Reply, counts: Map<usize, u32>) -> bool {
        match (self.state, reply) {
            (CloneState::Query, Reply::Entry(Ok(pte))) => pte.size == self.pages.size,
            (CloneState::MapNew { index }, Reply::Paging(Ok(()))) => index + 1 < self.mapped.len()
                ==> counts.contains_key(self.mapped[index + 1].1),
            _ => true,
        }
    }

    /// The operation and the frame counts after a reply.
    pub open spec fn step(self, reply: Reply, counts: Map<usize, u32>) -> (
        CloneView,
        Map<usize, u32>,
    ) {
        let rest = self.pages.spec_rest();
        match (self.state, reply) {
            (CloneState::Query, Reply::Entry(Ok(pte))) => self.collected(
                rest,
                self.mapped.push((self.pages.next, pte.paddr)),
                counts,
            ),
            (CloneState::Query, Reply::Entry(Err(e))) => if e is NotMapped {
                self.collected(rest, self.mapped, counts)
            } else {
                (self.at(CloneState::Done(Err(AxError::BadAddress))), counts)
            },
            (CloneState::Protect { index }, Reply::Paging(Ok(()))) => (
                self.at(CloneState::MapNew { index }),
                counts,
            ),
            (CloneState::MapNew { index }, Reply::Paging(Ok(()))) => self.share_from(
                index + 1,
                counts,
            ),
            (CloneState::Protect { .. }, Reply::Paging(Err(e))) => (
                self.at(CloneState::Done(Err(e.spec_to_ax()))),
                counts,
            ),
            (CloneState::MapNew { .. }, Reply::Paging(Err(e))) => (
                self.at(CloneState::Done(Err(e.spec_to_ax()))),
                counts,
            ),
            _ => (self, counts),
        }
    }
}

impl View for CowClone {
    type V = CloneView;

    open spec fn view(&self) -> CloneView {
        CloneView {
            cow_flags: self.cow_flags,
            pages: self.pages,
            mapped: self.mapped@,
            state: self.state,
        }
    }
}

impl CowClone {
    /// The view of the operation that duplicates a range, and the counts after its start.
    pub open spec fn of(
        range: VirtAddrRange,
        size: PageSize,
        flags: MappingFlags,
        counts: Map<usize, u32>,
    ) -> (CloneView, Map<usize, u32>) {
        let op = CloneView {
            cow_flags: flags.read_only(),
            pages: Pages { next: 0, end: 0, size },
            mapped: Seq::empty(),
            state: CloneState::Done(Ok(())),
        };
        match spec_pages_in(range, size) {
            Ok(pages) => op.collected(pages, Seq::empty(), counts),
            Err(e) => (op.at(CloneState::Done(Err(e))), counts),
        }
    }

    /// The work to do next; none when the operation is over.
    pub fn request(&self) -> (r: Option<Request>)
        requires
            self@.wf(),
        ensures
            r == self@.request(),
    {
        match self.state {
            CloneState::Query => Some(Request::Query { vaddr: self.pages.next }),
            CloneState::Protect { index } => Some(
                Request::Protect { vaddr: self.mapped[index].0, flags: self.cow_flags },
            ),
            CloneState::MapNew { index } => Some(
                Request::MapNew {
                    vaddr: self.mapped[index].0,
                    paddr: self.mapped[index].1,
                    size: self.pages.size,
                    flags: self.cow_flags,
                },
            ),
            CloneState::Done(_) => None,
        }
    }

    /// Adds a reference for page `index`, or ends the operation behind the last page.
    fn share(&mut self, index: usize, frames: &mut FrameTableRefCount)
        requires
            old(self).pages.wf(),
            old(frames).wf(),
            index <= old(self).mapped.len(),
            index < old(self).mapped.len() ==> old(frames)@.contains_key(
                old(self).mapped[index as int].1,
            ),
        ensures
            final(self)@.wf(),
            final(frames).wf(),
            final(self).backend == old(self).backend,
            final(self)@ == old(self)@.share_from(index as int, old(frames)@).0,
            final(frames)@ == old(self)@.share_from(index as int, old(frames)@).1,
    {
        if index >= self.mapped.len() {
            self.state = CloneState::Done(Ok(()));
        } else if frames.add_ref(self.mapped[index].1) {
            self.state = CloneState::Protect { index };
        } else {
            self.state = CloneState::Done(Err(AxError::NoMemory));
        }
    }

    /// Goes on with the pages that are left to look up, or with sharing if there are none.
    pub fn collect(&mut self, frames: &mut FrameTableRefCount)
        requires
            old(self).pages.wf(),
            old(frames).wf(),
        ensures
            final(self)@.wf(),
            final(frames).wf(),
            final(self).backend == old(self).backend,
            final(self)@ == old(self)@.collected(
                old(self).pages,
                old(self).mapped@,
                old(frames)@,
            ).0,
            final(frames)@ == old(self)@.collected(
                old(self).pages,
                old(self).mapped@,
                old(frames)@,
            ).1,
    {
        if !self.pages.is_empty() {
            self.state = CloneState::Query;
            return;
        }
        let mut i: usize = 0;
        while i < self.mapped.len()
            invariant
                i <= self.mapped.len(),
                *self == *old(self),
                *frames == *old(frames),
                self.pages.wf(),
                self.pages.is_empty(),
                frames.wf(),
                forall|j: int|
                    0 <= j < i ==> frames@.contains_key((#[trigger] self.mapped@[j]).1),
            decreases self.mapped.len() - i,
        {
            if frames.get_frame_ref(self.mapped[i].1).is_none() {
                assert(!frames@.contains_key(self.mapped@[i as int].1));
                self.state = CloneState::Done(Err(AxError::BadAddress));
                return;
            }
            i += 1;
        }
        assert(all_counted(self.mapped@, frames@));
        self.share(0, frames);
    }

    /// Goes on after a reply.
    pub fn resume(&mut self, reply: Reply, frames: &mut FrameTableRefCount)
        requires
            old(self)@.wf(),
            old(self)@.accepts(reply, old(frames)@),
            old(frames).wf(),
        ensures
            final(self)@.wf(),
            final(frames).wf(),
            final(self).backend == old(self).backend,
            final(self)@ == old(self)@.step(reply, old(frames)@).0,
            final(frames)@ == old(self)@.step(reply, old(frames)@).1,
    {
        match (self.state, reply) {
            (CloneState::Query, Reply::Entry(Ok(pte))) => {
                self.mapped.push((self.pages.next, pte.paddr));
                self.pages = self.pages.rest();
                self.collect(frames);
            },
            (CloneState::Query, Reply::Entry(Err(PagingError::NotMapped))) => {
                self.pages = self.pages.rest();
                self.collect(frames);
            },
            (CloneState::Query, Reply::Entry(Err(_))) => {
                self.state = CloneState::Done(Err(AxError::BadAddress));
            },
            (CloneState::Protect { index }, Reply::Paging(Ok(()))) => {
                self.state = CloneState::MapNew { index };
            },
            (CloneState::MapNew { index }, Reply::Paging(Ok(()))) => {
                assert(index < self.mapped.len());
                self.share(index + 1, frames);
            },
            (CloneState::Protect { .. }, Reply::Paging(Err(e)))
            | (CloneState::MapNew { .. }, Reply::Paging(Err(e))) => {
                self.state = CloneState::Done(Err(e.to_ax()));
            },
            _ => {},
        }
    }
}

} // verus!
