//! Memory mapping backends.
//!
//! A backend decides what a mapping does with its pages. Its operations are described by
//! [`BackendOps`]; the work on page tables, frames and files that they ask for is
//! described in [`ops`].
use std::sync::Arc;

use vstd::prelude::*;

use crate::addr::{pages_in, PageSize, Pages, VirtAddrRange};
use crate::backend::cow::clone::{CloneState, CowClone};
use crate::backend::cow::populate::{CowPopulate, PopulateState};
use crate::backend::cow::unmap::{CowUnmap, UnmapState};
use crate::backend::cow::zap::{CowZap, ZapState};
use crate::backend::cow::{CowBackend, CowFile, FileRef};
use crate::backend::frames::FrameTableRefCount;
use crate::backend::shared::{
    SharedBackend, SharedMap, SharedPages, SharedPopulate, SharedPopulateState, SharedState,
    SharedUnmap, SharedZap, SharedZapState,
};
use crate::backend::vm_flags::{
    word_with, word_without, AtomicVmFlags, VmFlags, VM_ALL, VM_SHARED,
};
use crate::error::{AxError, AxResult};
use crate::flags::MappingFlags;

pub mod cow;
pub mod frames;
pub mod laws;
pub mod ops;
pub mod shared;
pub mod vm_flags;

verus! {

/// An operation that maps a range.
#[derive(Debug)]
pub enum MapOp {
    /// Nothing has to be done; pages are mapped when they are used.
    Ready(AxResult<()>),
    /// The pages of a shared mapping are mapped at once.
    Shared(SharedMap),
}

/// An operation that unmaps a range.
#[derive(Debug)]
pub enum UnmapOp {
    /// In a copy-on-write mapping.
    Cow(CowUnmap),
    /// In a shared mapping.
    Shared(SharedUnmap),
}

/// An operation that populates a range.
#[derive(Debug)]
pub enum PopulateOp {
    /// Nothing has to be done.
    Ready(AxResult<usize>),
    /// In a copy-on-write mapping.
    Cow(CowPopulate),
    /// In a shared mapping.
    Shared(SharedPopulate),
}

/// An operation that discards the pages of a range.
#[derive(Debug)]
pub enum ZapOp {
    /// Nothing has to be done.
    Ready(AxResult<usize>),
    /// In a copy-on-write mapping.
    Cow(CowZap),
    /// In a shared mapping.
    Shared(SharedZap),
}

/// An operation that duplicates a mapping for another address space.
#[derive(Debug)]
pub enum CloneOp {
    /// The pages of a copy-on-write mapping become shared.
    Cow(CowClone),
    /// The duplicate is ready.
    Ready(Backend),
}

/// What every backend can do.
pub trait BackendOps: Sized {
    /// Whether the range is one that the backend can map.
    spec fn serves(&self, range: VirtAddrRange) -> bool;

    /// Returns the page size of the backend.
    fn page_size(&self) -> PageSize;

    /// Map a memory region.
    fn map(&self, range: VirtAddrRange, flags: MappingFlags) -> MapOp
        requires
            self.serves(range),
    ;

    /// Unmap a memory region.
    fn unmap(&self, range: VirtAddrRange) -> UnmapOp;

    /// Called before a memory region is protected.
    fn on_protect(&self, _range: VirtAddrRange, _new_flags: MappingFlags) -> (r: AxResult<()>)
        default_ensures
            r == Ok::<(), AxError>(()),
    {
        Ok(())
    }

    /// Populate a memory region and count the pages that then satisfy `access_flags`.
    ///
    /// A page that is already mapped with sufficient permissions counts as populated.
    fn populate(
        &self,
        range: VirtAddrRange,
        flags: MappingFlags,
        access_flags: MappingFlags,
    ) -> (r: PopulateOp)
        requires
            self.serves(range),
        default_ensures
            r == PopulateOp::Ready(Ok(0)),
    {
        PopulateOp::Ready(Ok(0))
    }

    /// Duplicates this mapping for use in a different page table.
    ///
    /// This differs from `clone`, which is designed for splitting a mapping within the same
    /// table.
    fn clone_map(
        &self,
        range: VirtAddrRange,
        flags: MappingFlags,
        frames: &mut FrameTableRefCount,
    ) -> (r: CloneOp)
        requires
            old(frames).wf(),
        ensures
            final(frames).wf(),
    ;

    /// Discard physical pages in the given range without removing the mapping, and count
    /// them.
    ///
    /// After that, accessing the range triggers a page fault which populates it again.
    fn zap(&self, range: VirtAddrRange) -> (r: ZapOp)
        default_ensures
            r == ZapOp::Ready(Ok(0)),
    {
        ZapOp::Ready(Ok(0))
    }

    /// Synchronize dirty pages in the given range to the backing store.
    ///
    /// Only meaningful for file-backed mappings; default is a no-op.
    fn sync(&self, _range: VirtAddrRange) -> (r: AxResult<()>)
        default_ensures
            r == Ok::<(), AxError>(()),
    {
        Ok(())
    }

    /// Returns the metadata flags.
    fn vm_flags(&self) -> (r: VmFlags)
        default_ensures
            r.bits == 0,
    {
        VmFlags::empty()
    }

    /// Sets or clears metadata flags.
    fn set_vm_flags(&mut self, flags: VmFlags, set: bool)
        default_ensures
            *final(self) == *old(self),
    {
    }
}

impl BackendOps for CowBackend {
    open spec fn serves(&self, range: VirtAddrRange) -> bool {
        true
    }

    fn page_size(&self) -> (r: PageSize)
        ensures
            r == self.size,
    {
        self.size
    }

    fn map(&self, range: VirtAddrRange, flags: MappingFlags) -> (r: MapOp)
        ensures
            r == MapOp::Ready(Ok(())),
    {
        MapOp::Ready(Ok(()))
    }

    fn unmap(&self, range: VirtAddrRange) -> (r: UnmapOp)
        ensures
            r == UnmapOp::Cow(CowUnmap::of(range, self.size)),
            r matches UnmapOp::Cow(op) && op.wf(),
    {
        UnmapOp::Cow(
            match pages_in(range, self.size) {
                Ok(pages) => CowUnmap::from(pages),
                Err(e) => CowUnmap {
                    pages: Pages { next: 0, end: 0, size: self.size },
                    state: UnmapState::Done(Err(e)),
                },
            },
        )
    }

    fn populate(
        &self,
        range: VirtAddrRange,
        flags: MappingFlags,
        access_flags: MappingFlags,
    ) -> (r: PopulateOp)
        ensures
            r == PopulateOp::Cow(CowPopulate::of(*self, range, flags, access_flags)),
            r matches PopulateOp::Cow(op) && op.wf(),
    {
        let mut op = CowPopulate {
            start: self.start,
            file: self.file,
            flags,
            access: access_flags,
            pages: Pages { next: 0, end: 0, size: self.size },
            count: 0,
            state: PopulateState::Done(Ok(0)),
        };
        match pages_in(range, self.size) {
            Ok(pages) => {
                proof {
                    pages.lemma_count();
                }
                op.pages = pages;
                if !pages.is_empty() {
                    op.state = PopulateState::Query;
                }
            },
            Err(e) => {
                op.state = PopulateState::Done(Err(e));
            },
        }
        PopulateOp::Cow(op)
    }

    fn clone_map(
        &self,
        range: VirtAddrRange,
        flags: MappingFlags,
        frames: &mut FrameTableRefCount,
    ) -> (r: CloneOp)
        ensures
            r matches CloneOp::Cow(op) && op@.wf() && op.backend == *self && op@ == CowClone::of(
                range,
                self.size,
                flags,
                old(frames)@,
            ).0,
            final(frames)@ == CowClone::of(range, self.size, flags, old(frames)@).1,
    {
        let mut op = CowClone {
            backend: self.clone(),
            cow_flags: flags.read_only(),
            pages: Pages { next: 0, end: 0, size: self.size },
            mapped: Vec::new(),
            state: CloneState::Done(Ok(())),
        };
        match pages_in(range, self.size) {
            Ok(pages) => {
                op.pages = pages;
                op.collect(frames);
            },
            Err(e) => {
                op.state = CloneState::Done(Err(e));
            },
        }
        CloneOp::Cow(op)
    }

    fn zap(&self, range: VirtAddrRange) -> (r: ZapOp)
        ensures
            r == ZapOp::Cow(CowZap::of(range, self.size)),
            r matches ZapOp::Cow(op) && op.wf(),
    {
        ZapOp::Cow(
            match pages_in(range, self.size) {
                Ok(pages) => {
                    proof {
                        pages.lemma_count();
                    }
                    CowZap::from(pages, 0)
                },
                Err(e) => CowZap {
                    pages: Pages { next: 0, end: 0, size: self.size },
                    count: 0,
                    state: ZapState::Done(Err(e)),
                },
            },
        )
    }

    fn vm_flags(&self) -> (r: VmFlags)
        ensures
            r.bits == self.vm_flags@ & VM_ALL,
    {
        self.vm_flags.load()
    }

    fn set_vm_flags(&mut self, flags: VmFlags, set: bool)
        ensures
            final(self).start == old(self).start,
            final(self).size == old(self).size,
            final(self).file == old(self).file,
            final(self).vm_flags@ == if set {
                old(self).vm_flags@ | flags.bits
            } else {
                old(self).vm_flags@ & !flags.bits
            },
    {
        if set {
            self.vm_flags.insert(flags);
        } else {
            self.vm_flags.remove(flags);
        }
    }
}

impl BackendOps for SharedBackend {
    open spec fn serves(&self, range: VirtAddrRange) -> bool {
        let size = self.pages.size.bytes();
        range.start % size == 0 && range.end % size == 0 ==> self.reaches(range.start)
    }

    fn page_size(&self) -> (r: PageSize)
        ensures
            r == self.pages.size,
    {
        self.pages.size
    }

    fn map(&self, range: VirtAddrRange, flags: MappingFlags) -> (r: MapOp)
        ensures
            r == MapOp::Shared(SharedMap::of(*self, range, flags)),
            r matches MapOp::Shared(op) && op.wf(),
    {
        let this = self.clone();
        let mut op = SharedMap {
            frames: this.pages,
            flags,
            pages: Pages { next: 0, end: 0, size: self.pages.size },
            index: 0,
            state: SharedState::Done(Ok(())),
        };
        match pages_in(range, self.pages.size) {
            Ok(pages) => {
                let index: usize = self.start_index(range.start);
                op.pages = pages;
                op.index = index;
                if !pages.is_empty() && index < self.pages.len() {
                    op.state = SharedState::Next;
                }
            },
            Err(e) => {
                op.state = SharedState::Done(Err(e));
            },
        }
        MapOp::Shared(op)
    }

    fn unmap(&self, range: VirtAddrRange) -> (r: UnmapOp)
        ensures
            r == UnmapOp::Shared(SharedUnmap::of(range, self.pages.size)),
            r matches UnmapOp::Shared(op) && op.wf(),
    {
        UnmapOp::Shared(
            match pages_in(range, self.pages.size) {
                Ok(pages) => SharedUnmap::from(pages),
                Err(e) => SharedUnmap {
                    pages: Pages { next: 0, end: 0, size: self.pages.size },
                    state: SharedState::Done(Err(e)),
                },
            },
        )
    }

    fn populate(
        &self,
        range: VirtAddrRange,
        flags: MappingFlags,
        access_flags: MappingFlags,
    ) -> (r: PopulateOp)
        ensures
            r == PopulateOp::Shared(SharedPopulate::of(*self, range, flags, access_flags)),
            r matches PopulateOp::Shared(op) && op.wf(),
    {
        let this = self.clone();
        let mut op = SharedPopulate {
            frames: this.pages,
            flags,
            access: access_flags,
            pages: Pages { next: 0, end: 0, size: self.pages.size },
            index: 0,
            count: 0,
            state: SharedPopulateState::Done(Ok(0)),
        };
        match pages_in(range, self.pages.size) {
            Ok(pages) => {
                proof {
                    pages.lemma_count();
                }
                let index: usize = self.start_index(range.start);
                op.pages = pages;
                op.index = index;
                if !pages.is_empty() && index < self.pages.len() {
                    op.state = SharedPopulateState::Next;
                }
            },
            Err(e) => {
                op.state = SharedPopulateState::Done(Err(e));
            },
        }
        PopulateOp::Shared(op)
    }

    fn clone_map(
        &self,
        range: VirtAddrRange,
        flags: MappingFlags,
        frames: &mut FrameTableRefCount,
    ) -> (r: CloneOp)
        ensures
            r == CloneOp::Ready(Backend::Shared(*self)),
            final(frames)@ == old(frames)@,
    {
        CloneOp::Ready(Backend::Shared(self.clone()))
    }

    fn zap(&self, range: VirtAddrRange) -> (r: ZapOp)
        ensures
            r == ZapOp::Shared(SharedZap::of(range, self.pages.size)),
            r matches ZapOp::Shared(op) && op.wf(),
    {
        ZapOp::Shared(
            match pages_in(range, self.pages.size) {
                Ok(pages) => {
                    proof {
                        pages.lemma_count();
                    }
                    SharedZap::from(pages, 0)
                },
                Err(e) => SharedZap {
                    pages: Pages { next: 0, end: 0, size: self.pages.size },
                    count: 0,
                    state: SharedZapState::Done(Err(e)),
                },
            },
        )
    }

    fn vm_flags(&self) -> (r: VmFlags)
        ensures
            r.bits == self.vm_flags@ & VM_ALL,
    {
        self.vm_flags.load()
    }

    fn set_vm_flags(&mut self, flags: VmFlags, set: bool)
        ensures
            final(self).start == old(self).start,
            final(self).pages == old(self).pages,
            final(self).vm_flags@ == if set {
                old(self).vm_flags@ | flags.bits
            } else {
                old(self).vm_flags@ & !flags.bits
            },
    {
        if set {
            self.vm_flags.insert(flags);
        } else {
            self.vm_flags.remove(flags);
        }
    }
}

/// A mapping of contiguous physical memory: a virtual address is a physical one plus an
/// offset.
#[derive(Clone, Copy, PartialEq, Eq, Structural, Debug)]
pub struct LinearBackend {
    /// Virtual minus physical address.
    pub offset: isize,
}

/// A shared mapping of a cached file.
#[derive(Clone, Copy, PartialEq, Eq, Structural, Debug)]
pub struct FileBackend {
    /// Address at which the mapping begins.
    pub start: usize,
    /// The file.
    pub file: FileRef,
    /// Position in the file of the first byte of the mapping.
    pub offset: usize,
}

/// A unified enum type for different memory mapping backends.
#[derive(Debug)]
pub enum Backend {
    /// Contiguous physical memory.
    Linear(LinearBackend),
    /// Private memory that is copied on write.
    Cow(CowBackend),
    /// Shared anonymous memory.
    Shared(SharedBackend),
    /// A shared file.
    File(FileBackend),
}

impl Clone for Backend {
    fn clone(&self) -> (r: Backend)
        ensures
            r == *self,
    {
        match self {
            Backend::Linear(b) => Backend::Linear(*b),
            Backend::Cow(b) => Backend::Cow(b.clone()),
            Backend::Shared(b) => Backend::Shared(b.clone()),
            Backend::File(b) => Backend::File(*b),
        }
    }
}

impl Backend {
    /// Private memory with pages of a size, from `start` on, with a file behind it or none,
    /// that has no metadata flags yet.
    pub open spec fn is_new_cow(self, start: usize, size: PageSize, file: Option<CowFile>) -> bool {
        &&& self matches Backend::Cow(b)
        &&& b.start == start
        &&& b.size == size
        &&& b.file == file
        &&& b.vm_flags@ == 0
    }

    /// Shared memory from `start` on, with the flag that says so.
    pub open spec fn is_new_shared(self, start: usize, pages: Arc<SharedPages>) -> bool {
        &&& self matches Backend::Shared(b)
        &&& b.start == start
        &&& b.pages == pages
        &&& b.vm_flags@ == VM_SHARED
    }

    /// The duplicate of shared memory for another page table.
    pub open spec fn spec_duplicate(self) -> Backend {
        self
    }

    /// The operation that maps `size` bytes from `start` on.
    pub open spec fn spec_map(self, start: usize, size: usize, flags: MappingFlags) -> Option<MapOp> {
        match self {
            Backend::Cow(_) => Some(MapOp::Ready(Ok(()))),
            Backend::Shared(b) => Some(
                MapOp::Shared(
                    SharedMap::of(
                        b,
                        VirtAddrRange { start, end: (start + size) as usize },
                        flags,
                    ),
                ),
            ),
            _ => None,
        }
    }

    /// The operation that unmaps `size` bytes from `start` on.
    pub open spec fn spec_unmap(self, start: usize, size: usize) -> Option<UnmapOp> {
        let range = VirtAddrRange { start, end: (start + size) as usize };
        match self {
            Backend::Cow(b) => Some(UnmapOp::Cow(CowUnmap::of(range, b.size))),
            Backend::Shared(b) => Some(UnmapOp::Shared(SharedUnmap::of(range, b.pages.size))),
            _ => None,
        }
    }

    /// The result of a hook that private and shared memory have nothing to do for.
    pub open spec fn spec_nothing_to_do(self) -> Option<AxResult<()>> {
        match self {
            Backend::Cow(_) | Backend::Shared(_) => Some(Ok(())),
            _ => None,
        }
    }

    /// The page size.
    pub open spec fn spec_page_size(self) -> Option<PageSize> {
        match self {
            Backend::Cow(b) => Some(b.size),
            Backend::Shared(b) => Some(b.pages.size),
            _ => None,
        }
    }

    /// The operation that populates a range.
    pub open spec fn spec_populate(
        self,
        range: VirtAddrRange,
        flags: MappingFlags,
        access_flags: MappingFlags,
    ) -> Option<PopulateOp> {
        match self {
            Backend::Cow(b) => Some(
                PopulateOp::Cow(CowPopulate::of(b, range, flags, access_flags)),
            ),
            Backend::Shared(b) => Some(
                PopulateOp::Shared(SharedPopulate::of(b, range, flags, access_flags)),
            ),
            _ => None,
        }
    }

    /// The operation that discards the pages of a range.
    pub open spec fn spec_zap(self, range: VirtAddrRange) -> Option<ZapOp> {
        match self {
            Backend::Cow(b) => Some(ZapOp::Cow(CowZap::of(range, b.size))),
            Backend::Shared(b) => Some(ZapOp::Shared(SharedZap::of(range, b.pages.size))),
            _ => None,
        }
    }

    /// The metadata flags.
    pub open spec fn spec_vm_flags(self) -> Option<VmFlags> {
        match self {
            Backend::Cow(b) => Some(VmFlags::spec_truncate(b.vm_flags@)),
            Backend::Shared(b) => Some(VmFlags::spec_truncate(b.vm_flags@)),
            _ => None,
        }
    }

    /// The word of metadata flags after some of them are set or cleared.
    pub open spec fn spec_new_word(word: u32, flags: VmFlags, set: bool) -> u32 {
        if set {
            word_with(word, flags)
        } else {
            word_without(word, flags)
        }
    }

    /// A private mapping of a file.
    pub fn new_cow(
        start: usize,
        size: PageSize,
        file: FileRef,
        file_start: u64,
        file_end: Option<u64>,
    ) -> (r: Backend)
        ensures
            r.is_new_cow(start, size, Some(CowFile { file, start: file_start, end: file_end })),
            r matches Backend::Cow(b) && b.start == start && b.size == size && b.file == Some(
                CowFile { file, start: file_start, end: file_end },
            ) && b.vm_flags@ == 0,
    {
        Backend::Cow(
            CowBackend {
                start,
                size,
                file: Some(CowFile { file, start: file_start, end: file_end }),
                vm_flags: AtomicVmFlags::default(),
            },
        )
    }

    /// Private anonymous memory.
    pub fn new_alloc(start: usize, size: PageSize) -> (r: Backend)
        ensures
            r.is_new_cow(start, size, None),
            r matches Backend::Cow(b) && b.start == start && b.size == size && b.file is None
                && b.vm_flags@ == 0,
    {
        Backend::Cow(CowBackend { start, size, file: None, vm_flags: AtomicVmFlags::default() })
    }

    /// Shared anonymous memory.
    pub fn new_shared(start: usize, pages: Arc<SharedPages>) -> (r: Backend)
        ensures
            r.is_new_shared(start, pages),
            r matches Backend::Shared(b) && b.start == start && b.pages == pages && b.vm_flags@
                == VM_SHARED,
    {
        Backend::Shared(
            SharedBackend {
                start,
                pages,
                vm_flags: AtomicVmFlags::new(VmFlags { bits: VM_SHARED }),
            },
        )
    }

    /// Maps `size` bytes from `start` on. Linear and file mappings have their own modules.
    pub fn map(&self, start: usize, size: usize, flags: MappingFlags) -> (r: Option<MapOp>)
        requires
            start + size <= usize::MAX,
            self matches Backend::Shared(b) ==> b.serves(
                VirtAddrRange { start, end: (start + size) as usize },
            ),
        ensures
            r == self.spec_map(start, size, flags),
            ({
                let range = VirtAddrRange { start, end: (start + size) as usize };
                match *self {
                    Backend::Cow(_) => r == Some(MapOp::Ready(Ok(()))),
                    Backend::Shared(b) => r == Some(
                        MapOp::Shared(SharedMap::of(b, range, flags)),
                    ) && SharedMap::of(b, range, flags).wf(),
                    _ => r is None,
                }
            }),
    {
        let range = VirtAddrRange::from_start_size(start, size);
        match self {
            Backend::Cow(b) => Some(b.map(range, flags)),
            Backend::Shared(b) => Some(b.map(range, flags)),
            _ => None,
        }
    }

    /// Unmaps `size` bytes from `start` on. Linear and file mappings have their own modules.
    pub fn unmap(&self, start: usize, size: usize) -> (r: Option<UnmapOp>)
        requires
            start + size <= usize::MAX,
        ensures
            r == self.spec_unmap(start, size),
            ({
                let range = VirtAddrRange { start, end: (start + size) as usize };
                match *self {
                    Backend::Cow(b) => r == Some(UnmapOp::Cow(CowUnmap::of(range, b.size)))
                        && CowUnmap::of(range, b.size).wf(),
                    Backend::Shared(b) => r == Some(
                        UnmapOp::Shared(SharedUnmap::of(range, b.pages.size)),
                    ) && SharedUnmap::of(range, b.pages.size).wf(),
                    _ => r is None,
                }
            }),
    {
        let range = VirtAddrRange::from_start_size(start, size);
        match self {
            Backend::Cow(b) => Some(b.unmap(range)),
            Backend::Shared(b) => Some(b.unmap(range)),
            _ => None,
        }
    }

    /// Prepares to change the permissions of `size` bytes from `start` on. Linear and file
    /// mappings have their own modules.
    pub fn protect(&self, start: usize, size: usize, new_flags: MappingFlags) -> (r: Option<
        AxResult<()>,
    >)
        requires
            start + size <= usize::MAX,
        ensures
            r == self.spec_nothing_to_do(),
            r == match *self {
                Backend::Cow(_) | Backend::Shared(_) => Some(Ok::<(), AxError>(())),
                _ => None,
            },
    {
        let range = VirtAddrRange::from_start_size(start, size);
        match self {
            Backend::Cow(b) => Some(b.on_protect(range, new_flags)),
            Backend::Shared(b) => Some(b.on_protect(range, new_flags)),
            _ => None,
        }
    }

    /// Returns the page size of the backend. Linear and file mappings have their own modules.
    pub fn page_size(&self) -> (r: Option<PageSize>)
        ensures
            r == self.spec_page_size(),
            r == match *self {
                Backend::Cow(b) => Some(b.size),
                Backend::Shared(b) => Some(b.pages.size),
                _ => None,
            },
    {
        match self {
            Backend::Cow(b) => Some(b.page_size()),
            Backend::Shared(b) => Some(b.page_size()),
            _ => None,
        }
    }

    /// Populates a range. Linear and file mappings have their own modules.
    pub fn populate(
        &self,
        range: VirtAddrRange,
        flags: MappingFlags,
        access_flags: MappingFlags,
    ) -> (r: Option<PopulateOp>)
        requires
            self matches Backend::Shared(b) ==> b.serves(range),
        ensures
            r == self.spec_populate(range, flags, access_flags),
            match *self {
                Backend::Cow(b) => {
                    let op = CowPopulate::of(b, range, flags, access_flags);
                    r == Some(PopulateOp::Cow(op)) && op.wf()
                },
                Backend::Shared(b) => {
                    let op = SharedPopulate::of(b, range, flags, access_flags);
                    r == Some(PopulateOp::Shared(op)) && op.wf()
                },
                _ => r is None,
            },
    {
        match self {
            Backend::Cow(b) => Some(b.populate(range, flags, access_flags)),
            Backend::Shared(b) => Some(b.populate(range, flags, access_flags)),
            _ => None,
        }
    }

    /// Duplicates a range for another page table. Linear and file mappings have their own
    /// modules.
    pub fn clone_map(
        &self,
        range: VirtAddrRange,
        flags: MappingFlags,
        frames: &mut FrameTableRefCount,
    ) -> (r: Option<CloneOp>)
        requires
            old(frames).wf(),
        ensures
            final(frames).wf(),
            *self is Shared ==> r == Some(CloneOp::Ready(self.spec_duplicate())),
            match *self {
                Backend::Cow(b) => {
                    let (op, counts) = CowClone::of(range, b.size, flags, old(frames)@);
                    &&& r matches Some(CloneOp::Cow(c)) && c@ == op && c@.wf() && c.backend == b
                    &&& final(frames)@ == counts
                },
                Backend::Shared(_) => r == Some(CloneOp::Ready(*self)) && final(frames)@ == old(
                    frames,
                )@,
                _ => r is None && final(frames)@ == old(frames)@,
            },
    {
        match self {
            Backend::Cow(b) => Some(b.clone_map(range, flags, frames)),
            Backend::Shared(b) => Some(b.clone_map(range, flags, frames)),
            _ => None,
        }
    }

    /// Discards the physical pages of a range. Linear and file mappings have their own
    /// modules.
    pub fn zap(&self, range: VirtAddrRange) -> (r: Option<ZapOp>)
        ensures
            r == self.spec_zap(range),
            match *self {
                Backend::Cow(b) => {
                    let op = CowZap::of(range, b.size);
                    r == Some(ZapOp::Cow(op)) && op.wf()
                },
                Backend::Shared(b) => {
                    let op = SharedZap::of(range, b.pages.size);
                    r == Some(ZapOp::Shared(op)) && op.wf()
                },
                _ => r is None,
            },
    {
        match self {
            Backend::Cow(b) => Some(b.zap(range)),
            Backend::Shared(b) => Some(b.zap(range)),
            _ => None,
        }
    }

    /// Writes the dirty pages of a range back. Linear and file mappings have their own
    /// modules.
    pub fn sync(&self, range: VirtAddrRange) -> (r: Option<AxResult<()>>)
        ensures
            r == self.spec_nothing_to_do(),
            r == match *self {
                Backend::Cow(_) | Backend::Shared(_) => Some(Ok::<(), AxError>(())),
                _ => None,
            },
    {
        match self {
            Backend::Cow(b) => Some(b.sync(range)),
            Backend::Shared(b) => Some(b.sync(range)),
            _ => None,
        }
    }

    /// Returns the metadata flags. Linear and file mappings have their own modules.
    pub fn vm_flags(&self) -> (r: Option<VmFlags>)
        ensures
            r == self.spec_vm_flags(),
            r == match *self {
                Backend::Cow(b) => Some(VmFlags { bits: b.vm_flags@ & VM_ALL }),
                Backend::Shared(b) => Some(VmFlags { bits: b.vm_flags@ & VM_ALL }),
                _ => None,
            },
    {
        match self {
            Backend::Cow(b) => Some(b.vm_flags()),
            Backend::Shared(b) => Some(b.vm_flags()),
            _ => None,
        }
    }

    /// Sets or clears metadata flags. Linear and file mappings have their own modules; for
    /// them nothing is done and `None` is returned.
    pub fn set_vm_flags(&mut self, flags: VmFlags, set: bool) -> (r: Option<()>)
        ensures
            *old(self) matches Backend::Cow(b) ==> *final(self) matches Backend::Cow(b2)
                && b2.vm_flags@ == Backend::spec_new_word(b.vm_flags@, flags, set),
            *old(self) matches Backend::Shared(b) ==> *final(self) matches Backend::Shared(b2)
                && b2.vm_flags@ == Backend::spec_new_word(b.vm_flags@, flags, set),
            match *old(self) {
                Backend::Cow(b) => {
                    &&& r is Some
                    &&& *final(self) matches Backend::Cow(b2) && b2.start == b.start && b2.size
                        == b.size && b2.file == b.file && b2.vm_flags@ == if set {
                        b.vm_flags@ | flags.bits
                    } else {
                        b.vm_flags@ & !flags.bits
                    }
                },
                Backend::Shared(b) => {
                    &&& r is Some
                    &&& *final(self) matches Backend::Shared(b2) && b2.start == b.start && b2.pages
                        == b.pages && b2.vm_flags@ == if set {
                        b.vm_flags@ | flags.bits
                    } else {
                        b.vm_flags@ & !flags.bits
                    }
                },
                _ => r is None && *final(self) == *old(self),
            },
    {
        match self {
            Backend::Cow(b) => Some(b.set_vm_flags(flags, set)),
            Backend::Shared(b) => Some(b.set_vm_flags(flags, set)),
            _ => None,
        }
    }

    /// Contiguous physical memory at an offset.
    pub fn new_linear(offset: isize) -> (r: Backend)
        ensures
            r == Backend::Linear(LinearBackend { offset }),
    {
        Backend::Linear(LinearBackend { offset })
    }

    /// A shared file.
    pub fn new_file(start: usize, file: FileRef, offset: usize) -> (r: Backend)
        ensures
            r == Backend::File(FileBackend { start, file, offset }),
    {
        Backend::File(FileBackend { start, file, offset })
    }
}

} // verus!
