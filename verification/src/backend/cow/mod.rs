//! Copy-on-write mappings.
//!
//! This corresponds to the `MAP_PRIVATE` flag. Frames are shared between address spaces
//! until one of them writes; the frame table counts the pages that map each frame.
use vstd::prelude::*;

use crate::addr::PageSize;
use crate::backend::ops::FileRead;
use crate::backend::vm_flags::AtomicVmFlags;

pub mod accounting;
pub mod clone;
pub mod contents;
pub mod laws;
pub mod outcome;
pub mod populate;
pub mod unmap;
pub mod zap;

verus! {

/// An open file, by the number under which its owner keeps it.
#[derive(Clone, Copy, PartialEq, Eq, Structural, Debug)]
pub struct FileRef {
    /// The number.
    pub id: usize,
}

/// The part of a file behind a mapping.
#[derive(Clone, Copy, PartialEq, Eq, Debug)]
pub struct CowFile {
    /// The file.
    pub file: FileRef,
    /// Position in the file of the first byte of the mapping.
    pub start: u64,
    /// Position in the file behind the last byte of the mapping, if it is limited.
    pub end: Option<u64>,
}

impl CowFile {
    /// Position in the file of the byte at `addr`, for a mapping that starts at `base`.
    pub open spec fn pos(self, base: usize, addr: int) -> int {
        self.start + (addr - base)
    }

    /// Whether the byte at `addr` comes from the file.
    pub open spec fn backs(self, base: usize, addr: int) -> bool {
        &&& addr >= base
        &&& self.end matches Some(end) ==> self.pos(base, addr) < end
    }

    /// The page at `vaddr` begins less than a page before the mapping, and its position in
    /// the file can be computed.
    pub open spec fn fits(self, base: usize, vaddr: usize, size: PageSize) -> bool {
        &&& base - vaddr < size.bytes()
        &&& vaddr >= base ==> self.pos(base, vaddr as int) <= u64::MAX
    }

    /// The bytes of the file that go into the page at `vaddr`.
    pub open spec fn spec_window(self, base: usize, vaddr: usize, size: PageSize) -> FileRead {
        let start: int = if base >= vaddr {
            base - vaddr
        } else {
            0
        };
        let offset: int = if vaddr >= base {
            self.start + (vaddr - base)
        } else {
            self.start as int
        };
        let room = size.bytes() - start;
        let len: int = match self.end {
            Some(end) => if end <= offset {
                0
            } else if end - offset < room {
                end - offset
            } else {
                room
            },
            None => room,
        };
        FileRead { start: start as usize, len: len as usize, offset: offset as u64 }
    }

    /// The bytes that go into the page are those that come from the file, each from its
    /// position.
    pub proof fn lemma_window(self, base: usize, vaddr: usize, size: PageSize)
        requires
            self.fits(base, vaddr, size),
        ensures
            ({
                let r = self.spec_window(base, vaddr, size);
                &&& r.start + r.len <= size.bytes()
                &&& r.offset == self.pos(base, vaddr + r.start)
                &&& forall|i: int|
                    0 <= i < size.bytes() ==> (r.start <= i < r.start + r.len <==>
                        #[trigger] self.backs(base, vaddr + i))
            }),
    {
    }

    /// The bytes of the file that go into the page at `vaddr`.
    ///
    /// The page can begin before the mapping, by less than a page: the gap stays clean.
    pub fn window(&self, base: usize, vaddr: usize, size: PageSize) -> (r: FileRead)
        requires
            self.fits(base, vaddr, size),
        ensures
            r == self.spec_window(base, vaddr, size),
            r.start + r.len <= size.bytes(),
            r.offset == self.pos(base, vaddr + r.start),
            forall|i: int|
                0 <= i < size.bytes() ==> (r.start <= i < r.start + r.len <==>
                    #[trigger] self.backs(base, vaddr + i)),
    {
        let start: usize = base.saturating_sub(vaddr);
        let offset: u64 = self.start + vaddr.saturating_sub(base) as u64;
        let room: u64 = (size.bytes() - start) as u64;
        let available: u64 = match self.end {
            Some(end) => end.saturating_sub(offset),
            None => u64::MAX,
        };
        let len: usize = (if available < room {
            available
        } else {
            room
        }) as usize;
        FileRead { start, len, offset }
    }
}

/// Copy-on-write mapping backend.
#[derive(Debug)]
pub struct CowBackend {
    /// Address at which the mapping begins.
    pub start: usize,
    /// Size of its pages.
    pub size: PageSize,
    /// The file behind it; an anonymous mapping has none.
    pub file: Option<CowFile>,
    /// Metadata flags.
    pub vm_flags: AtomicVmFlags,
}

impl Clone for CowBackend {
    fn clone(&self) -> (r: CowBackend)
        ensures
            r == *self,
    {
        CowBackend {
            start: self.start,
            size: self.size,
            file: self.file,
            vm_flags: self.vm_flags.clone(),
        }
    }
}

} // verus!
