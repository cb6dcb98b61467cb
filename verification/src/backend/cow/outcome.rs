//! What operations on copy-on-write mappings come to, said of their arguments: which
//! entries, permissions and bytes the pages of a range have in the end, and what is
//! returned.
use vstd::prelude::*;

use crate::addr::{aligned, in_range, law_pages, page_count, PageSize, Pages, VirtAddrRange};
use crate::backend::cow::clone::{CloneState, CloneView, CowClone};
use crate::backend::cow::contents::{
    law_populate_contents, page_byte, populate_memory, Memory,
};
use crate::backend::cow::laws::{
    clone_turns, files_fit, law_clone, law_populate, law_unmap, law_zap, mapped_count,
    page_populated, populate_turns, room_for, satisfying, unmap_turns, unused, zap_turns, World,
};
use crate::backend::cow::populate::{CowPopulate, PopulateState};
use crate::backend::cow::unmap::{CowUnmap, UnmapState};
use crate::backend::cow::zap::{CowZap, ZapState};
use crate::backend::cow::{CowBackend, CowFile};
use crate::backend::ops::{Entries, PageKey, Pte, Reply, Request};
use crate::error::{AxError, PagingError};
use crate::flags::{law_contains, MappingFlags};

verus! {

/// The pages of a range that have an entry.
pub open spec fn mapped_pages(
    entries: Entries,
    space: int,
    range: VirtAddrRange,
    size: PageSize,
) -> Set<usize> {
    Set::new(|v: usize| in_range(range, size, v) && entries.contains_key((space, v)))
}

/// The pages of a range whose entries allow an access.
pub open spec fn allowing_pages(
    entries: Entries,
    space: int,
    range: VirtAddrRange,
    size: PageSize,
    access: MappingFlags,
) -> Set<usize> {
    Set::new(
        |v: usize|
            in_range(range, size, v) && entries.contains_key((space, v)) && access.bits & !entries[(
                space,
                v,
            )].flags.bits == 0,
    )
}

spec fn mapped_in(entries: Entries, space: int, pages: Pages) -> Set<usize> {
    Set::new(|v: usize| pages.has(v) && entries.contains_key((space, v)))
}

spec fn allowing_in(entries: Entries, space: int, pages: Pages, access: MappingFlags) -> Set<usize> {
    Set::new(
        |v: usize|
            pages.has(v) && entries.contains_key((space, v)) && entries[(space, v)].flags.contains(
                access,
            ),
    )
}

proof fn lemma_mapped_in(entries: Entries, space: int, pages: Pages)
    requires
        pages.wf(),
    ensures
        mapped_in(entries, space, pages).finite(),
        mapped_in(entries, space, pages).len() == mapped_count(entries, space, pages),
    decreases pages.count(),
{
    let all = mapped_in(entries, space, pages);
    if pages.is_empty() {
        assert(all =~= Set::empty());
    } else {
        pages.lemma_rest();
        let rest = mapped_in(entries, space, pages.spec_rest());
        lemma_mapped_in(entries, space, pages.spec_rest());
        if entries.contains_key((space, pages.next)) {
            assert(all =~= rest.insert(pages.next));
        } else {
            assert(all =~= rest);
        }
    }
}

proof fn lemma_allowing_in(entries: Entries, space: int, pages: Pages, access: MappingFlags)
    requires
        pages.wf(),
    ensures
        allowing_in(entries, space, pages, access).finite(),
        allowing_in(entries, space, pages, access).len() == satisfying(
            entries,
            space,
            pages,
            access,
        ),
    decreases pages.count(),
{
    let all = allowing_in(entries, space, pages, access);
    if pages.is_empty() {
        assert(all =~= Set::empty());
    } else {
        pages.lemma_rest();
        let rest = allowing_in(entries, space, pages.spec_rest(), access);
        lemma_allowing_in(entries, space, pages.spec_rest(), access);
        if entries.contains_key((space, pages.next)) && entries[(
            space,
            pages.next,
        )].flags.contains(access) {
            assert(all =~= rest.insert(pages.next));
        } else {
            assert(all =~= rest);
        }
    }
}

/// The number of mapped pages is that of the set of them.
pub proof fn lemma_count_mapped(
    entries: Entries,
    space: int,
    range: VirtAddrRange,
    size: PageSize,
    pages: Pages,
)
    requires
        pages.wf(),
        forall|v: usize| #[trigger] pages.has(v) <==> in_range(range, size, v),
    ensures
        mapped_pages(entries, space, range, size).finite(),
        mapped_pages(entries, space, range, size).len() == mapped_count(entries, space, pages),
{
    lemma_mapped_in(entries, space, pages);
    assert(mapped_pages(entries, space, range, size) =~= mapped_in(entries, space, pages)) by {
        assert forall|v: usize| in_range(range, size, v) <==> pages.has(v) by {
            assert(pages.has(v) <==> in_range(range, size, v));
        }
    }
}

/// The number of pages that allow an access is that of the set of them.
pub proof fn lemma_count_allowing(
    entries: Entries,
    space: int,
    range: VirtAddrRange,
    size: PageSize,
    pages: Pages,
    access: MappingFlags,
)
    requires
        pages.wf(),
        forall|v: usize| #[trigger] pages.has(v) <==> in_range(range, size, v),
    ensures
        allowing_pages(entries, space, range, size, access).finite(),
        allowing_pages(entries, space, range, size, access).len() == satisfying(
            entries,
            space,
            pages,
            access,
        ),
{
    lemma_allowing_in(entries, space, pages, access);
    let a = allowing_pages(entries, space, range, size, access);
    let b = allowing_in(entries, space, pages, access);
    assert forall|v: usize| a.contains(v) <==> b.contains(v) by {
        assert(pages.has(v) <==> in_range(range, size, v));
        law_contains(entries[(space, v)].flags, access);
    }
    assert(a =~= b);
}

/// If every page allows the access, all of them are counted.
pub proof fn lemma_all_satisfying(entries: Entries, space: int, pages: Pages, access: MappingFlags)
    requires
        pages.wf(),
        forall|v: usize| #[trigger]
            pages.has(v) ==> entries.contains_key((space, v)) && entries[(
                space,
                v,
            )].flags.contains(access),
    ensures
        satisfying(entries, space, pages, access) == pages.count(),
    decreases pages.count(),
{
    if !pages.is_empty() {
        pages.lemma_rest();
        assert(pages.has(pages.next));
        assert forall|v: usize| #[trigger] pages.spec_rest().has(v) implies entries.contains_key(
            (space, v),
        ) && entries[(space, v)].flags.contains(access) by {
            assert(pages.has(v));
        }
        lemma_all_satisfying(entries, space, pages.spec_rest(), access);
    }
}

/// A range that is not aligned is an invalid input for every operation, and nothing is
/// asked for.
pub proof fn law_unaligned(
    backend: CowBackend,
    range: VirtAddrRange,
    flags: MappingFlags,
    access: MappingFlags,
    counts: Map<usize, u32>,
)
    requires
        !aligned(range, backend.size),
    ensures
        CowUnmap::of(range, backend.size).state == UnmapState::Done(Err(AxError::InvalidInput)),
        CowUnmap::of(range, backend.size).spec_request() is None,
        CowZap::of(range, backend.size).state == ZapState::Done(Err(AxError::InvalidInput)),
        CowZap::of(range, backend.size).spec_request() is None,
        CowPopulate::of(backend, range, flags, access).state == PopulateState::Done(
            Err(AxError::InvalidInput),
        ),
        CowPopulate::of(backend, range, flags, access).spec_request() is None,
        CowClone::of(range, backend.size, flags, counts).0.state == CloneState::Done(
            Err(AxError::InvalidInput),
        ),
        CowClone::of(range, backend.size, flags, counts).0.request() is None,
        CowClone::of(range, backend.size, flags, counts).1 == counts,
{
}

/// The entries of the pages of a range, where there are any, are of the page size.
pub open spec fn sizes_agree(entries: Entries, space: int, range: VirtAddrRange, size: PageSize) -> bool {
    forall|v: usize|
        #[trigger] in_range(range, size, v) && entries.contains_key((space, v)) ==> entries[(
            space,
            v,
        )].size == size
}

/// Nothing but the pages of a range in some address spaces has changed.
pub open spec fn only_range(
    before: Entries,
    after: Entries,
    space: int,
    other: int,
    range: VirtAddrRange,
    size: PageSize,
) -> bool {
    forall|k: PageKey|
        !((k.0 == space || k.0 == other) && in_range(range, size, k.1)) ==> {
            &&& #[trigger] after.contains_key(k) <==> before.contains_key(k)
            &&& after.contains_key(k) ==> after[k] == before[k]
        }
}

/// Unmapping succeeds on every aligned range. In the end no page of the range has an entry,
/// and every other page has the entry that it had. Each frame is counted once for each page
/// that maps it, as before.
pub proof fn law_unmap_outcome(range: VirtAddrRange, size: PageSize, w: World, space: int, n: nat)
    requires
        aligned(range, size),
        w.sound(),
        sizes_agree(w.entries, space, range, size),
        n >= 2 * page_count(range, size),
    ensures
        ({
            let (op2, w2) = unmap_turns(CowUnmap::of(range, size), w, space, n);
            &&& op2.state == UnmapState::Done(Ok(()))
            &&& forall|v: usize| #[trigger]
                in_range(range, size, v) ==> !w2.entries.contains_key((space, v))
            &&& only_range(w.entries, w2.entries, space, space, range, size)
            &&& w2.sound()
        }),
{
    law_pages(range, size);
    let pages = Pages { next: range.start, end: range.end, size };
    assert forall|v: usize|
        #[trigger] pages.has(v) && w.entries.contains_key((space, v)) implies w.entries[(
        space,
        v,
    )].size == size by {
        assert(in_range(range, size, v));
    }
    law_unmap(range, size, w, space, n);
    let w2 = unmap_turns(CowUnmap::of(range, size), w, space, n).1;
    assert forall|v: usize| #[trigger] in_range(range, size, v) implies !w2.entries.contains_key(
        (space, v),
    ) by {
        assert(pages.has(v));
    }
    assert forall|k: PageKey| !(k.0 == space && in_range(range, size, k.1)) implies {
        &&& #[trigger] w2.entries.contains_key(k) <==> w.entries.contains_key(k)
        &&& w2.entries.contains_key(k) ==> w2.entries[k] == w.entries[k]
    } by {
        assert(pages.has(k.1) <==> in_range(range, size, k.1));
    }
}

/// Discarding succeeds on every aligned range and tells how many pages of it were mapped. In
/// the end none of them has an entry, and every other page has the entry that it had.
pub proof fn law_zap_outcome(range: VirtAddrRange, size: PageSize, w: World, space: int, n: nat)
    requires
        aligned(range, size),
        w.sound(),
        sizes_agree(w.entries, space, range, size),
        n >= 2 * page_count(range, size),
    ensures
        ({
            let (op2, w2) = zap_turns(CowZap::of(range, size), w, space, n);
            &&& op2.state matches ZapState::Done(Ok(count)) && count == mapped_pages(
                w.entries,
                space,
                range,
                size,
            ).len()
            &&& forall|v: usize| #[trigger]
                in_range(range, size, v) ==> !w2.entries.contains_key((space, v))
            &&& only_range(w.entries, w2.entries, space, space, range, size)
            &&& w2.sound()
        }),
{
    law_pages(range, size);
    let pages = Pages { next: range.start, end: range.end, size };
    assert forall|v: usize|
        #[trigger] pages.has(v) && w.entries.contains_key((space, v)) implies w.entries[(
        space,
        v,
    )].size == size by {
        assert(in_range(range, size, v));
    }
    law_zap(range, size, w, space, n);
    lemma_count_mapped(w.entries, space, range, size, pages);
    let w2 = zap_turns(CowZap::of(range, size), w, space, n).1;
    assert forall|v: usize| #[trigger] in_range(range, size, v) implies !w2.entries.contains_key(
        (space, v),
    ) by {
        assert(pages.has(v));
    }
    assert forall|k: PageKey| !(k.0 == space && in_range(range, size, k.1)) implies {
        &&& #[trigger] w2.entries.contains_key(k) <==> w.entries.contains_key(k)
        &&& w2.entries.contains_key(k) ==> w2.entries[k] == w.entries[k]
    } by {
        assert(pages.has(k.1) <==> in_range(range, size, k.1));
    }
}

/// The position in the file of every page that is filled from it can be computed.
pub open spec fn file_reaches(backend: CowBackend, range: VirtAddrRange) -> bool {
    backend.file matches Some(f) ==> forall|v: usize| #[trigger]
        in_range(range, backend.size, v) ==> backend.start - v < backend.size.bytes() && (v
            >= backend.start ==> f.start + (v - backend.start) <= u64::MAX)
}

/// Byte `i` of a page that is used for the first time. Without a file it is zero. With one
/// it is the byte of the file that is as far behind the position of the mapping as the byte
/// is behind its address, if the mapping and the file go that far; else it is zero.
pub open spec fn initial_byte(backend: CowBackend, vaddr: usize, file: Seq<u8>, i: int) -> u8 {
    match backend.file {
        None => 0,
        Some(f) => {
            let pos = f.start + (vaddr + i - backend.start);
            if vaddr + i < backend.start {
                0
            } else if f.end is Some && pos >= f.end.unwrap() {
                0
            } else if pos >= file.len() {
                0
            } else {
                file[pos]
            }
        },
    }
}

/// Populating succeeds on every aligned range, for every access. In the end every page of
/// the range is mapped. A page that was not mapped, or that could not be written and has to
/// be, has exactly the permissions that were given; any other page has the entry that it
/// had, and so has every page outside the range. What is returned is the number of pages
/// whose entries then allow the access.
///
/// No byte that a page holds has changed, and a page that was not mapped holds the bytes of
/// the file that belong there and zeros. Each frame is counted once for each page that maps
/// it, and a page that can be written is the only one that maps its frame, as before.
pub proof fn law_populate_outcome(
    backend: CowBackend,
    range: VirtAddrRange,
    flags: MappingFlags,
    access: MappingFlags,
    w: World,
    mem: Memory,
    space: int,
    fresh: Seq<usize>,
    file: Seq<u8>,
    n: nat,
)
    requires
        aligned(range, backend.size),
        w.sound(),
        sizes_agree(w.entries, space, range, backend.size),
        unused(fresh, w.counts),
        fresh.len() >= page_count(range, backend.size),
        file_reaches(backend, range),
        n >= 4 * page_count(range, backend.size),
    ensures
        ({
            let op = CowPopulate::of(backend, range, flags, access);
            let (op2, w2) = populate_turns(op, w, space, fresh, n);
            let mem2 = populate_memory(op, w, mem, space, fresh, file, n);
            &&& op2.state matches PopulateState::Done(Ok(count)) && count == allowing_pages(
                w2.entries,
                space,
                range,
                backend.size,
                access,
            ).len()
            &&& forall|v: usize| #[trigger]
                in_range(range, backend.size, v) ==> {
                    let key = (space, v);
                    &&& w2.entries.contains_key(key)
                    &&& w2.entries[key].size == backend.size
                    &&& if w.entries.contains_key(key) && (access.bits & 2 == 0
                        || w.entries[key].flags.bits & 2 != 0) {
                        w2.entries[key] == w.entries[key]
                    } else {
                        w2.entries[key].flags == flags
                    }
                }
            &&& only_range(w.entries, w2.entries, space, space, range, backend.size)
            &&& forall|k: PageKey, i: int|
                w.entries.contains_key(k) && 0 <= i < w.entries[k].size.bytes() ==> #[trigger]
                page_byte(w2.entries, mem2, k, i) == page_byte(w.entries, mem, k, i)
            &&& forall|v: usize, i: int|
                in_range(range, backend.size, v) && !w.entries.contains_key((space, v)) && 0 <= i
                    < backend.size.bytes() ==> #[trigger] page_byte(
                    w2.entries,
                    mem2,
                    (space, v),
                    i,
                ) == initial_byte(backend, v, file, i)
            &&& w2.sound()
            &&& w.exclusive() ==> w2.exclusive()
        }),
{
    let size = backend.size;
    let op = CowPopulate::of(backend, range, flags, access);
    let pages = Pages { next: range.start, end: range.end, size };
    law_pages(range, size);
    assert forall|v: usize|
        #[trigger] pages.has(v) && w.entries.contains_key((space, v)) implies w.entries[(
        space,
        v,
    )].size == size by {
        assert(in_range(range, size, v));
    }
    if backend.file is Some {
        assert forall|v: usize| #[trigger] pages.has(v) implies backend.file.unwrap().fits(
            backend.start,
            v,
            size,
        ) by {
            assert(in_range(range, size, v));
        }
    }
    assert(files_fit(op));
    law_populate(backend, range, flags, access, w, space, fresh, n);
    law_populate_contents(backend, range, flags, access, w, mem, space, fresh, file, n);
    let (op2, w2) = populate_turns(op, w, space, fresh, n);
    let mem2 = populate_memory(op, w, mem, space, fresh, file, n);
    lemma_count_allowing(w2.entries, space, range, size, pages, access);
    law_contains(access, access);
    assert forall|v: usize| #[trigger] in_range(range, size, v) implies ({
        let key = (space, v);
        &&& w2.entries.contains_key(key)
        &&& w2.entries[key].size == size
        &&& if w.entries.contains_key(key) && (access.bits & 2 == 0 || w.entries[key].flags.bits
            & 2 != 0) {
            w2.entries[key] == w.entries[key]
        } else {
            w2.entries[key].flags == flags
        }
    }) by {
        assert(pages.has(v));
        assert(page_populated(op, w.entries, w2.entries, (space, v)));
        law_contains(w.entries[(space, v)].flags, access);
    }
    assert forall|k: PageKey| !(k.0 == space && in_range(range, size, k.1)) implies {
        &&& #[trigger] w2.entries.contains_key(k) <==> w.entries.contains_key(k)
        &&& w2.entries.contains_key(k) ==> w2.entries[k] == w.entries[k]
    } by {
        assert(pages.has(k.1) <==> in_range(range, size, k.1));
    }
    assert forall|v: usize, i: int|
        in_range(range, size, v) && !w.entries.contains_key((space, v)) && 0 <= i
            < size.bytes() implies #[trigger] page_byte(w2.entries, mem2, (space, v), i)
        == initial_byte(backend, v, file, i) by {
        assert(pages.has(v));
    }
}

/// If the given permissions allow the access, and so does every page of the range that was
/// mapped, unless it has to be made writable, then all pages of the range are counted.
pub proof fn law_populate_counts_all(
    backend: CowBackend,
    range: VirtAddrRange,
    flags: MappingFlags,
    access: MappingFlags,
    w: World,
    space: int,
    fresh: Seq<usize>,
    n: nat,
)
    requires
        aligned(range, backend.size),
        w.sound(),
        sizes_agree(w.entries, space, range, backend.size),
        unused(fresh, w.counts),
        fresh.len() >= page_count(range, backend.size),
        file_reaches(backend, range),
        n >= 4 * page_count(range, backend.size),
        access.bits & !flags.bits == 0,
        forall|v: usize|
            #[trigger] in_range(range, backend.size, v) && w.entries.contains_key((space, v)) ==> (
            access.bits & 2 != 0 && w.entries[(space, v)].flags.bits & 2 == 0) || access.bits
                & !w.entries[(space, v)].flags.bits == 0,
    ensures
        ({
            let op = CowPopulate::of(backend, range, flags, access);
            populate_turns(op, w, space, fresh, n).0.state == PopulateState::Done(
                Ok(page_count(range, backend.size) as usize),
            )
        }),
{
    let size = backend.size;
    let pages = Pages { next: range.start, end: range.end, size };
    let op = CowPopulate::of(backend, range, flags, access);
    let (op2, w2) = populate_turns(op, w, space, fresh, n);
    let mem: Memory = |p: usize, i: int| 0u8;
    law_pages(range, size);
    pages.lemma_count();
    law_populate_outcome(backend, range, flags, access, w, mem, space, fresh, Seq::empty(), n);
    assert forall|v: usize| #[trigger] pages.has(v) implies w2.entries.contains_key((space, v))
        && w2.entries[(space, v)].flags.contains(access) by {
        assert(in_range(range, size, v));
        law_contains(w2.entries[(space, v)].flags, access);
    }
    lemma_all_satisfying(w2.entries, space, pages, access);
    lemma_count_allowing(w2.entries, space, range, size, pages, access);
}

/// Duplicating succeeds on every aligned range that is free in the new address space, if the
/// counts leave room. In the end every page of the range that was mapped maps the frame that
/// it mapped, in both address spaces, with exactly the given permissions but writing. No
/// other page of the range is mapped in either, and every page outside it has the entry that
/// it had. Each frame is counted once for each page that maps it, and a page that can be
/// written is the only one that maps its frame, as before.
pub proof fn law_clone_outcome(
    range: VirtAddrRange,
    size: PageSize,
    flags: MappingFlags,
    w: World,
    space: int,
    new_space: int,
    n: nat,
)
    requires
        aligned(range, size),
        space != new_space,
        w.sound(),
        sizes_agree(w.entries, space, range, size),
        forall|v: usize| #[trigger]
            in_range(range, size, v) ==> !w.entries.contains_key((new_space, v)),
        room_for(w, space, (Pages { next: range.start, end: range.end, size })),
        n >= 3 * page_count(range, size),
    ensures
        ({
            let (op, counts) = CowClone::of(range, size, flags, w.counts);
            let (op2, w2) = clone_turns(
                op,
                World { entries: w.entries, counts },
                space,
                new_space,
                n,
            );
            &&& op2.state == CloneState::Done(Ok(()))
            &&& forall|v: usize| #[trigger]
                in_range(range, size, v) ==> {
                    let (old_key, new_key) = ((space, v), (new_space, v));
                    if w.entries.contains_key(old_key) {
                        &&& w2.entries.contains_key(old_key) && w2.entries.contains_key(new_key)
                        &&& w2.entries[old_key].paddr == w.entries[old_key].paddr
                        &&& w2.entries[new_key].paddr == w.entries[old_key].paddr
                        &&& w2.entries[old_key].flags.bits == flags.bits & !2usize
                        &&& w2.entries[new_key].flags.bits == flags.bits & !2usize
                        &&& w2.entries[old_key].size == size && w2.entries[new_key].size == size
                    } else {
                        !w2.entries.contains_key(old_key) && !w2.entries.contains_key(new_key)
                    }
                }
            &&& only_range(w.entries, w2.entries, space, new_space, range, size)
            &&& w2.sound()
            &&& w.exclusive() ==> w2.exclusive()
        }),
{
    let pages = Pages { next: range.start, end: range.end, size };
    law_pages(range, size);
    assert forall|v: usize|
        #[trigger] pages.has(v) && w.entries.contains_key((space, v)) implies w.entries[(
        space,
        v,
    )].size == size by {
        assert(in_range(range, size, v));
    }
    assert forall|v: usize| #[trigger] pages.has(v) implies !w.entries.contains_key(
        (new_space, v),
    ) by {
        assert(in_range(range, size, v));
    }
    law_clone(range, size, flags, w, space, new_space, n);
    let (op, counts) = CowClone::of(range, size, flags, w.counts);
    let w2 = clone_turns(op, World { entries: w.entries, counts }, space, new_space, n).1;
    assert forall|v: usize| #[trigger] in_range(range, size, v) implies ({
        let (old_key, new_key) = ((space, v), (new_space, v));
        if w.entries.contains_key(old_key) {
            &&& w2.entries.contains_key(old_key) && w2.entries.contains_key(new_key)
            &&& w2.entries[old_key].paddr == w.entries[old_key].paddr
            &&& w2.entries[new_key].paddr == w.entries[old_key].paddr
            &&& w2.entries[old_key].flags.bits == flags.bits & !2usize
            &&& w2.entries[new_key].flags.bits == flags.bits & !2usize
            &&& w2.entries[old_key].size == size && w2.entries[new_key].size == size
        } else {
            !w2.entries.contains_key(old_key) && !w2.entries.contains_key(new_key)
        }
    }) by {
        assert(pages.has(v));
    }
    assert forall|k: PageKey|
        !((k.0 == space || k.0 == new_space) && in_range(range, size, k.1)) implies {
        &&& #[trigger] w2.entries.contains_key(k) <==> w.entries.contains_key(k)
        &&& w2.entries.contains_key(k) ==> w2.entries[k] == w.entries[k]
    } by {
        assert(pages.has(k.1) <==> in_range(range, size, k.1));
    }
}

/// What a caller sees of a page table error.
pub open spec fn seen(e: PagingError) -> AxError {
    if e == PagingError::NoMemory {
        AxError::NoMemory
    } else {
        AxError::InvalidInput
    }
}

/// When something fails: unmapping a page that maps a frame out of the table is a bad
/// address, while a page without an entry is passed over, whatever the page table says. When
/// pages are discarded, a frame out of the table is left alone.
pub proof fn law_unmap_errors(
    unmap: CowUnmap,
    zap: CowZap,
    reply: Reply,
    counts: Map<usize, u32>,
)
    requires
        unmap.state is Unmap,
        zap.state is Unmap,
        zap.count < usize::MAX,
    ensures
        reply matches Reply::Entry(Ok(pte)) ==> !counts.contains_key(pte.paddr) ==> {
            &&& unmap.step(reply, counts).0.state == UnmapState::Done(Err(AxError::BadAddress))
            &&& unmap.step(reply, counts).1 == counts
            &&& zap.step(reply, counts).1 == counts
            &&& zap.step(reply, counts).0.count == zap.count + 1
            &&& !(zap.step(reply, counts).0.state matches ZapState::Done(Err(_)))
        },
        reply matches Reply::Entry(Err(_)) ==> {
            &&& unmap.step(reply, counts).1 == counts
            &&& !(unmap.step(reply, counts).0.state matches UnmapState::Done(Err(_)))
            &&& zap.step(reply, counts).1 == counts
            &&& zap.step(reply, counts).0.count == zap.count
            &&& !(zap.step(reply, counts).0.state matches ZapState::Done(Err(_)))
        },
        !(reply is Entry) ==> unmap.step(reply, counts) == (unmap, counts) && zap.step(
            reply,
            counts,
        ) == (zap, counts),
{
}

/// When something fails while a page is populated: a lookup that fails for another reason
/// than that the page is not mapped, and a write to a page whose frame is not in the table,
/// are a bad address. An error of the allocator or of the file is the result; so is one of
/// the page table, as callers see it. The counts stay as they are.
pub proof fn law_populate_errors(op: CowPopulate, reply: Reply, counts: Map<usize, u32>)
    ensures
        ({
            let (op2, counts2) = op.step(reply, counts);
            &&& op.state is Query ==> {
                &&& reply matches Reply::Entry(Err(e)) ==> op2.state == if e
                    == PagingError::NotMapped {
                    PopulateState::Alloc
                } else {
                    PopulateState::Done(Err(AxError::BadAddress))
                }
                &&& reply matches Reply::Entry(Ok(pte)) ==> op.access.bits & 2 != 0
                    && pte.flags.bits & 2 == 0 && !counts.contains_key(pte.paddr) ==> op2.state
                    == PopulateState::Done(Err(AxError::BadAddress))
                &&& counts2 == counts
            }
            &&& op.state is Alloc || op.state is CopyAlloc ==> (reply matches Reply::Frame(Err(e))
                ==> op2.state == PopulateState::Done(Err(e)) && counts2 == counts)
            &&& op.state is Read ==> (reply matches Reply::File(Err(e)) ==> op2.state
                == PopulateState::Done(Err(e)) && counts2 == counts)
            &&& op.state is MapFrame || op.state is Protect || op.state is Remap ==> (
            reply matches Reply::Paging(Err(e)) ==> op2.state == PopulateState::Done(Err(seen(e)))
                && counts2 == counts)
            &&& op.state is Done ==> op2 == op && counts2 == counts
        }),
{
    if let Reply::Entry(Ok(pte)) = reply {
        law_contains(op.access, op.access);
        law_contains(pte.flags, op.access);
    }
}

/// When something fails while a mapping is duplicated: a lookup that fails for another
/// reason than that the page is not mapped is a bad address, and so is a frame that is not
/// in the table. A count at its limit is a lack of memory. An error of a page table is the
/// result, as callers see it.
pub proof fn law_clone_errors(op: CloneView, reply: Reply, counts: Map<usize, u32>)
    ensures
        ({
            let (op2, counts2) = op.step(reply, counts);
            &&& op.state is Query ==> (reply matches Reply::Entry(Err(e)) ==> e
                != PagingError::NotMapped ==> op2.state == CloneState::Done(
                Err(AxError::BadAddress),
            ) && counts2 == counts)
            &&& op.state is Protect || op.state is MapNew ==> (reply matches Reply::Paging(Err(e))
                ==> op2.state == CloneState::Done(Err(seen(e))) && counts2 == counts)
            &&& op.state is Done ==> op2 == op && counts2 == counts
        }),
        forall|i: int|
            op.pages.is_empty() && 0 <= i < op.mapped.len() && !counts.contains_key(
                (#[trigger] op.mapped[i]).1,
            ) ==> op.collected(op.pages, op.mapped, counts).0.state == CloneState::Done(
                Err(AxError::BadAddress),
            ) && op.collected(op.pages, op.mapped, counts).1 == counts,
        forall|i: int|
            0 <= i < op.mapped.len() && counts[(#[trigger] op.mapped[i]).1] == u32::MAX
                ==> op.share_from(i, counts).0.state == CloneState::Done(Err(AxError::NoMemory))
                && op.share_from(i, counts).1 == counts,
{
}

/// Frames are asked for and given back as a whole: as many pages of 4K as make up the page
/// size of the mapping, aligned to it. A page that was not mapped gets a zeroed frame.
pub proof fn law_frame_layouts(unmap: CowUnmap, zap: CowZap, populate: CowPopulate)
    ensures
        unmap.spec_request() matches Some(Request::FreeFrame { layout, .. }) ==> layout.num_pages
            * 4096 == unmap.pages.size.bytes() && layout.align == unmap.pages.size.bytes(),
        zap.spec_request() matches Some(Request::FreeFrame { layout, .. }) ==> layout.num_pages
            * 4096 == zap.pages.size.bytes() && layout.align == zap.pages.size.bytes(),
        populate.spec_request() matches Some(Request::FreeFrame { layout, .. })
            ==> layout.num_pages * 4096 == populate.pages.size.bytes() && layout.align
            == populate.pages.size.bytes(),
        populate.spec_request() matches Some(Request::AllocFrame { zeroed, layout }) ==> {
            &&& layout.num_pages * 4096 == populate.pages.size.bytes()
            &&& layout.align == populate.pages.size.bytes()
            &&& populate.state is Alloc ==> zeroed
        },
{
}

/// A page that is mapped but cannot be written, and has to be, keeps its frame if no other
/// page maps it, and only its permissions change. Otherwise a new frame is asked for and
/// counted once, all bytes of the old frame are copied to it, and the page is moved to it
/// with exactly the given permissions; the old frame loses a reference.
pub proof fn law_write_fault(
    op: CowPopulate,
    pte: Pte,
    copy: usize,
    counts: Map<usize, u32>,
)
    requires
        op.state is Query,
        op.access.bits & 2 != 0,
        pte.flags.bits & 2 == 0,
        counts.contains_key(pte.paddr),
        copy != pte.paddr,
    ensures
        ({
            let (op1, counts1) = op.step(Reply::Entry(Ok(pte)), counts);
            let (op2, counts2) = op1.step(Reply::Frame(Ok(copy)), counts1);
            let (op3, counts3) = op2.step(Reply::Done, counts2);
            let (op4, counts4) = op3.step(Reply::Paging(Ok(())), counts3);
            &&& counts1 == counts
            &&& counts[pte.paddr] == 1 ==> op1.spec_request() == Some(
                Request::Protect { vaddr: op.pages.next, flags: op.flags },
            )
            &&& counts[pte.paddr] != 1 ==> {
                &&& op1.spec_request() is Some
                &&& op1.spec_request().unwrap() is AllocFrame
                &&& op2.spec_request() == Some(
                    Request::CopyFrame { from: pte.paddr, to: copy, len: op.pages.size.bytes() },
                )
                &&& counts2 == counts.insert(copy, 1)
                &&& op3.spec_request() == Some(
                    Request::Remap { vaddr: op.pages.next, paddr: copy, flags: op.flags },
                )
                &&& counts3 == counts2
                &&& counts4.dom() == counts2.dom()
                &&& counts[pte.paddr] > 1 ==> counts4[pte.paddr] == counts[pte.paddr] - 1
                &&& forall|p: usize|
                    p != pte.paddr && counts2.contains_key(p) ==> #[trigger] counts4[p]
                        == counts2[p]
            }
        }),
{
    law_contains(op.access, op.access);
    law_contains(pte.flags, op.access);
}

/// What an operation is told that it did not ask for changes nothing.
pub proof fn law_other_replies(
    populate: CowPopulate,
    clone: CloneView,
    reply: Reply,
    counts: Map<usize, u32>,
)
    ensures
        populate.spec_request() matches Some(req) ==> match req {
            Request::Query { .. } => !(reply is Entry),
            Request::AllocFrame { .. } => !(reply is Frame),
            Request::ReadFile { .. } => !(reply is File),
            Request::CopyFrame { .. } | Request::FreeFrame { .. } => !(reply is Done),
            _ => !(reply is Paging),
        } ==> populate.step(reply, counts) == (populate, counts),
        clone.request() matches Some(req) ==> match req {
            Request::Query { .. } => !(reply is Entry),
            _ => !(reply is Paging),
        } ==> clone.step(reply, counts) == (clone, counts),
{
}

/// The bytes of a page that are read from the file are exactly those that lie in the mapping
/// and in front of the end of its part of the file; each is read from the position that is
/// as far behind the start of that part as the byte is behind the start of the mapping.
pub proof fn law_window(file: CowFile, base: usize, vaddr: usize, size: PageSize, i: int)
    requires
        base - vaddr < size.bytes(),
        vaddr >= base ==> file.start + (vaddr - base) <= u64::MAX,
        0 <= i < size.bytes(),
    ensures
        ({
            let r = file.spec_window(base, vaddr, size);
            let pos = file.start + (vaddr + i - base);
            &&& r.start <= i < r.start + r.len <==> vaddr + i >= base && (file.end is None || pos
                < file.end.unwrap())
            &&& r.start <= i < r.start + r.len ==> r.offset + (i - r.start) == pos
            &&& r.start + r.len <= size.bytes()
        }),
{
    file.lemma_window(base, vaddr, size);
    assert(file.fits(base, vaddr, size));
    assert(file.backs(base, vaddr + i) <==> vaddr + i >= base && (file.end is None || file.start + (
    vaddr + i - base) < file.end.unwrap()));
}

} // verus!
