//! What operations on shared mappings come to, said of their arguments.
use vstd::prelude::*;

use crate::addr::{aligned, in_range, law_pages, page_count, PageSize, Pages, VirtAddrRange};
use crate::backend::cow::outcome::{lemma_count_mapped, mapped_pages, only_range, seen};
use crate::backend::ops::{frame_layout, Entries, PageKey, Reply, Request};
use crate::backend::shared::laws::{
    frame_index, law_map, law_unmap, law_zap, lemma_index_bound, lemma_index_of,
    lemma_run_populate_frames, lemma_served, map_turns, populate_turns, served_pages, unmap_turns,
    zap_turns,
};
use crate::backend::shared::{
    alloc_request, alloc_result, alloc_step, frames_for, given_back, SharedBackend, SharedMap,
    SharedPages, SharedPopulate, SharedPopulateState, SharedState, SharedUnmap, SharedZap,
    SharedZapState,
};
use crate::error::{AxError, PagingError};
use crate::flags::{law_contains, MappingFlags};

verus! {

/// The number of frames for a multiple of the page size takes up exactly that many bytes.
pub proof fn law_frames_for(size: usize, page_size: PageSize)
    requires
        size % page_size.bytes() == 0,
    ensures
        frames_for(size, page_size) * page_size.bytes() == size,
{
    let (a, b) = (size as int, page_size.bytes() as int);
    assert((a / b) * b == a) by (nonlinear_arith)
        requires
            a % b == 0,
            b > 0,
    ;
}

/// The frames and the error after some replies.
pub open spec fn alloc_run(
    frames: Seq<usize>,
    wanted: usize,
    error: Option<AxError>,
    replies: Seq<Reply>,
) -> (Seq<usize>, Option<AxError>)
    decreases replies.len(),
{
    if replies.len() == 0 {
        (frames, error)
    } else {
        let (frames2, error2) = alloc_step(frames, wanted, error, replies[0]);
        alloc_run(frames2, wanted, error2, replies.drop_first())
    }
}

proof fn lemma_alloc_over(
    frames: Seq<usize>,
    wanted: usize,
    error: Option<AxError>,
    replies: Seq<Reply>,
)
    requires
        error is Some || frames.len() >= wanted,
    ensures
        alloc_run(frames, wanted, error, replies) == (frames, error),
    decreases replies.len(),
{
    if replies.len() > 0 {
        lemma_alloc_over(frames, wanted, error, replies.drop_first());
    }
}

/// As long as frames come, exactly the wanted number of them is kept, in the order in which
/// they came. All of them are asked for zeroed, of the page size and aligned to it, and
/// nothing is asked for any more once they are there.
pub proof fn law_alloc_frames(
    frames: Seq<usize>,
    wanted: usize,
    size: PageSize,
    given: Seq<usize>,
    replies: Seq<Reply>,
)
    requires
        replies.len() == given.len(),
        forall|i: int| 0 <= i < given.len() ==> #[trigger] replies[i] == Reply::Frame(Ok(given[i])),
        frames.len() <= wanted,
    ensures
        ({
            let (frames2, error) = alloc_run(frames, wanted, None, replies);
            &&& error is None
            &&& frames2.len() == if frames.len() + given.len() <= wanted {
                frames.len() + given.len()
            } else {
                wanted as nat
            }
            &&& forall|i: int|
                0 <= i < frames2.len() ==> #[trigger] frames2[i] == if i < frames.len() {
                    frames[i]
                } else {
                    given[i - frames.len()]
                }
            &&& alloc_request(frames2, wanted, error, size) is None <==> frames2.len() == wanted
            &&& alloc_request(frames2, wanted, error, size) matches Some(req) ==> {
                &&& req matches Request::AllocFrame { zeroed: true, layout }
                &&& layout.num_pages * 4096 == size.bytes()
                &&& layout.align == size.bytes()
            }
        }),
    decreases given.len(),
{
    if given.len() > 0 {
        if frames.len() < wanted {
            let rest = given.drop_first();
            assert forall|i: int| 0 <= i < rest.len() implies #[trigger] replies.drop_first()[i]
                == Reply::Frame(Ok(rest[i])) by {
                assert(replies[i + 1] == Reply::Frame(Ok(given[i + 1])));
            }
            assert(replies[0] == Reply::Frame(Ok(given[0])));
            law_alloc_frames(frames.push(given[0]), wanted, size, rest, replies.drop_first());
        } else {
            lemma_alloc_over(frames, wanted, None, replies);
        }
    }
}

/// An error of the allocator ends the allocation with the frames that came before it, and a
/// reply of another kind changes nothing. Nothing is asked for after an error, and nothing
/// changes any more.
pub proof fn law_alloc_error(
    frames: Seq<usize>,
    wanted: usize,
    size: PageSize,
    e: AxError,
    reply: Reply,
    later: Seq<Reply>,
)
    requires
        frames.len() < wanted,
    ensures
        alloc_step(frames, wanted, None, Reply::Frame(Err(e))) == (frames, Some(e)),
        !(reply is Frame) ==> alloc_step(frames, wanted, None, reply) == (frames, None::<AxError>),
        alloc_request(frames, wanted, Some(e), size) is None,
        alloc_run(frames, wanted, Some(e), later) == (frames, Some(e)),
{
    lemma_alloc_over(frames, wanted, Some(e), later);
}

/// If the allocator gives out as many frames as are wanted, they are the result, in order. If
/// it fails before that, the result is its error, with all frames that came before it.
pub proof fn law_alloc_result(
    wanted: usize,
    given: Seq<usize>,
    replies: Seq<Reply>,
    e: AxError,
)
    requires
        replies.len() == given.len(),
        forall|i: int| 0 <= i < given.len() ==> #[trigger] replies[i] == Reply::Frame(Ok(given[i])),
    ensures
        given.len() == wanted ==> ({
            let (frames, error) = alloc_run(Seq::empty(), wanted, None, replies);
            alloc_result(frames, error) == Ok::<Seq<usize>, (AxError, Seq<usize>)>(given)
        }),
        given.len() < wanted ==> ({
            let (frames, error) = alloc_run(Seq::empty(), wanted, None, replies);
            let (frames2, error2) = alloc_step(frames, wanted, error, Reply::Frame(Err(e)));
            alloc_result(frames2, error2) == Err::<Seq<usize>, (AxError, Seq<usize>)>((e, given))
        }),
{
    if given.len() <= wanted {
        law_alloc_frames(Seq::empty(), wanted, PageSize::Size4K, given, replies);
        assert(alloc_run(Seq::empty(), wanted, None, replies).0 =~= given);
    }
}

/// Every frame is given back, and each as often as it is there.
pub proof fn law_release(pages: SharedPages, paddr: usize)
    ensures
        given_back(pages@).to_multiset().count(paddr) == pages@.to_multiset().count(paddr),
        pages.spec_is_empty() <==> forall|p: usize| !#[trigger] pages@.contains(p),
{
    if !pages.spec_is_empty() {
        assert(pages@.contains(pages@[0]));
    }
}

/// A frame is made of as many pages of 4K as make up its size, and aligned to it.
pub proof fn law_layout(size: PageSize)
    ensures
        frame_layout(size).num_pages * 4096 == size.bytes(),
        frame_layout(size).align == size.bytes(),
{
}

/// A range begins at a page of the mapping, or at its end.
pub open spec fn begins_in(backend: SharedBackend, range: VirtAddrRange) -> bool {
    let size = backend.pages.size.bytes() as int;
    &&& range.start >= backend.start
    &&& (range.start - backend.start) % size == 0
    &&& (range.start - backend.start) / size <= backend.pages@.len()
}

/// The number of pages in front of a page of the mapping.
pub open spec fn pages_before(backend: SharedBackend, v: usize) -> int {
    (v - backend.start) / (backend.pages.size.bytes() as int)
}

/// The index of the frame behind a page is the number of pages in front of it: so many pages
/// behind the start of the mapping the page begins.
pub proof fn law_index(backend: SharedBackend, range: VirtAddrRange)
    requires
        begins_in(backend, range),
    ensures
        backend.reaches(range.start),
        backend.start + backend.index_of(range.start) * backend.pages.size.bytes() == range.start,
{
    let s = backend.pages.size.bytes() as int;
    let d = range.start - backend.start;
    assert((d / s) * s == d) by (nonlinear_arith)
        requires
            d % s == 0,
            s > 0,
    ;
}

/// A range that is not aligned is an invalid input for every operation, and nothing is
/// asked for.
pub proof fn law_unaligned(
    backend: SharedBackend,
    range: VirtAddrRange,
    flags: MappingFlags,
    access: MappingFlags,
)
    requires
        !aligned(range, backend.pages.size),
    ensures
        SharedMap::of(backend, range, flags).state == SharedState::Done(Err(AxError::InvalidInput)),
        SharedMap::of(backend, range, flags).spec_request() is None,
        SharedUnmap::of(range, backend.pages.size).state == SharedState::Done(
            Err(AxError::InvalidInput),
        ),
        SharedUnmap::of(range, backend.pages.size).spec_request() is None,
        SharedZap::of(range, backend.pages.size).state == SharedZapState::Done(
            Err(AxError::InvalidInput),
        ),
        SharedZap::of(range, backend.pages.size).spec_request() is None,
        SharedPopulate::of(backend, range, flags, access).state == SharedPopulateState::Done(
            Err(AxError::InvalidInput),
        ),
        SharedPopulate::of(backend, range, flags, access).spec_request() is None,
{
}

/// Mapping an aligned range that is free succeeds. In the end each page that has a frame
/// maps it with exactly the given permissions: the frame that as many frames come before as
/// pages of the mapping come before the page. No other page of the range is mapped, and
/// every page outside it has the entry that it had.
pub proof fn law_map_outcome(
    backend: SharedBackend,
    range: VirtAddrRange,
    flags: MappingFlags,
    entries: Entries,
    space: int,
    n: nat,
)
    requires
        aligned(range, backend.pages.size),
        begins_in(backend, range),
        forall|v: usize| #[trigger]
            in_range(range, backend.pages.size, v) ==> !entries.contains_key((space, v)),
        n >= page_count(range, backend.pages.size),
    ensures
        ({
            let size = backend.pages.size;
            let (op2, entries2) = map_turns(SharedMap::of(backend, range, flags), entries, space, n);
            &&& op2.state == SharedState::Done(Ok(()))
            &&& forall|v: usize| #[trigger]
                in_range(range, size, v) ==> if pages_before(backend, v) < backend.pages@.len() {
                    &&& entries2.contains_key((space, v))
                    &&& entries2[(space, v)].paddr == backend.pages@[pages_before(backend, v)]
                    &&& entries2[(space, v)].flags == flags
                    &&& entries2[(space, v)].size == size
                } else {
                    !entries2.contains_key((space, v))
                }
            &&& only_range(entries, entries2, space, space, range, size)
        }),
{
    let size = backend.pages.size;
    let pages = Pages { next: range.start, end: range.end, size };
    law_pages(range, size);
    law_index(backend, range);
    assert forall|v: usize| #[trigger] pages.has(v) implies !entries.contains_key((space, v)) by {
        assert(in_range(range, size, v));
    }
    law_map(backend, range, flags, entries, space, n);
    let entries2 = map_turns(SharedMap::of(backend, range, flags), entries, space, n).1;
    assert forall|v: usize| #[trigger] in_range(range, size, v) implies if pages_before(backend, v)
        < backend.pages@.len() {
        &&& entries2.contains_key((space, v))
        &&& entries2[(space, v)].paddr == backend.pages@[pages_before(backend, v)]
        &&& entries2[(space, v)].flags == flags
        &&& entries2[(space, v)].size == size
    } else {
        !entries2.contains_key((space, v))
    } by {
        assert(pages.has(v));
        assert(backend.index_of(v) == pages_before(backend, v));
    }
    assert forall|k: PageKey| !(k.0 == space && in_range(range, size, k.1)) implies {
        &&& #[trigger] entries2.contains_key(k) <==> entries.contains_key(k)
        &&& entries2.contains_key(k) ==> entries2[k] == entries[k]
    } by {
        assert(pages.has(k.1) <==> in_range(range, size, k.1));
    }
}

/// Unmapping an aligned range whose pages are all mapped succeeds. In the end none of them
/// is, and every page outside the range has the entry that it had.
pub proof fn law_unmap_outcome(
    range: VirtAddrRange,
    size: PageSize,
    entries: Entries,
    space: int,
    n: nat,
)
    requires
        aligned(range, size),
        forall|v: usize| #[trigger]
            in_range(range, size, v) ==> entries.contains_key((space, v)),
        n >= page_count(range, size),
    ensures
        ({
            let (op2, entries2) = unmap_turns(SharedUnmap::of(range, size), entries, space, n);
            &&& op2.state == SharedState::Done(Ok(()))
            &&& forall|v: usize| #[trigger]
                in_range(range, size, v) ==> !entries2.contains_key((space, v))
            &&& only_range(entries, entries2, space, space, range, size)
        }),
{
    let pages = Pages { next: range.start, end: range.end, size };
    law_pages(range, size);
    assert forall|v: usize| #[trigger] pages.has(v) implies entries.contains_key((space, v)) by {
        assert(in_range(range, size, v));
    }
    law_unmap(range, size, entries, space, n);
    let entries2 = unmap_turns(SharedUnmap::of(range, size), entries, space, n).1;
    assert forall|v: usize| #[trigger] in_range(range, size, v) implies !entries2.contains_key(
        (space, v),
    ) by {
        assert(pages.has(v));
    }
    assert forall|k: PageKey| !(k.0 == space && in_range(range, size, k.1)) implies {
        &&& #[trigger] entries2.contains_key(k) <==> entries.contains_key(k)
        &&& entries2.contains_key(k) ==> entries2[k] == entries[k]
    } by {
        assert(pages.has(k.1) <==> in_range(range, size, k.1));
    }
}

/// Discarding succeeds on every aligned range and tells how many pages of it were mapped. In
/// the end none of them is, and every page outside the range has the entry that it had.
pub proof fn law_zap_outcome(
    range: VirtAddrRange,
    size: PageSize,
    entries: Entries,
    space: int,
    n: nat,
)
    requires
        aligned(range, size),
        n >= page_count(range, size),
    ensures
        ({
            let (op2, entries2) = zap_turns(SharedZap::of(range, size), entries, space, n);
            &&& op2.state matches SharedZapState::Done(Ok(count)) && count == mapped_pages(
                entries,
                space,
                range,
                size,
            ).len()
            &&& forall|v: usize| #[trigger]
                in_range(range, size, v) ==> !entries2.contains_key((space, v))
            &&& only_range(entries, entries2, space, space, range, size)
        }),
{
    let pages = Pages { next: range.start, end: range.end, size };
    law_pages(range, size);
    law_zap(range, size, entries, space, n);
    lemma_count_mapped(entries, space, range, size, pages);
    let entries2 = zap_turns(SharedZap::of(range, size), entries, space, n).1;
    assert forall|v: usize| #[trigger] in_range(range, size, v) implies !entries2.contains_key(
        (space, v),
    ) by {
        assert(pages.has(v));
    }
    assert forall|k: PageKey| !(k.0 == space && in_range(range, size, k.1)) implies {
        &&& #[trigger] entries2.contains_key(k) <==> entries.contains_key(k)
        &&& entries2.contains_key(k) ==> entries2[k] == entries[k]
    } by {
        assert(pages.has(k.1) <==> in_range(range, size, k.1));
    }
}

/// The pages of a range that have frames and whose entries allow an access.
pub open spec fn allowing_pages(
    backend: SharedBackend,
    range: VirtAddrRange,
    entries: Entries,
    space: int,
    access: MappingFlags,
) -> Set<usize> {
    Set::new(
        |v: usize|
            in_range(range, backend.pages.size, v) && pages_before(backend, v)
                < backend.pages@.len() && entries.contains_key((space, v)) && access.bits
                & !entries[(space, v)].flags.bits == 0,
    )
}

/// Populating succeeds on every aligned range, for every access. In the end every page of
/// the range that has a frame is mapped: as it was, if it was mapped, and else to the frame
/// at its place, with exactly the given permissions. Every other page has the entry that it
/// had. What is returned is the number of pages with frames whose entries then allow the
/// access.
pub proof fn law_populate_outcome(
    backend: SharedBackend,
    range: VirtAddrRange,
    flags: MappingFlags,
    access: MappingFlags,
    entries: Entries,
    space: int,
    n: nat,
)
    requires
        aligned(range, backend.pages.size),
        begins_in(backend, range),
        n >= 2 * page_count(range, backend.pages.size),
    ensures
        ({
            let size = backend.pages.size;
            let (op2, entries2) = populate_turns(
                SharedPopulate::of(backend, range, flags, access),
                entries,
                space,
                n,
            );
            &&& op2.state matches SharedPopulateState::Done(Ok(count)) && count == allowing_pages(
                backend,
                range,
                entries2,
                space,
                access,
            ).len()
            &&& forall|v: usize| #[trigger]
                in_range(range, size, v) ==> {
                    let key = (space, v);
                    if entries.contains_key(key) {
                        entries2.contains_key(key) && entries2[key] == entries[key]
                    } else if pages_before(backend, v) < backend.pages@.len() {
                        &&& entries2.contains_key(key)
                        &&& entries2[key].paddr == backend.pages@[pages_before(backend, v)]
                        &&& entries2[key].flags == flags
                        &&& entries2[key].size == size
                    } else {
                        !entries2.contains_key(key)
                    }
                }
            &&& only_range(entries, entries2, space, space, range, size)
        }),
{
    let size = backend.pages.size;
    let op = SharedPopulate::of(backend, range, flags, access);
    let pages = Pages { next: range.start, end: range.end, size };
    law_pages(range, size);
    law_index(backend, range);
    pages.lemma_count();
    lemma_index_bound(backend, range.start);
    assert(backend.pages.phys_pages.len() == backend.pages@.len());
    lemma_run_populate_frames(op, entries, space, n);
    let entries2 = populate_turns(op, entries, space, n).1;
    let index = op.index as int;
    let left = backend.pages@.len() - index;
    lemma_served(entries2, space, pages, access, index, left);
    assert forall|v: usize| #[trigger] pages.has(v) implies pages_before(backend, v) == frame_index(
        pages,
        index,
        v,
    ) by {
        lemma_index_of(backend, pages, v);
    }
    let counted = served_pages(entries2, space, pages, access, index, left);
    let allowing = allowing_pages(backend, range, entries2, space, access);
    assert forall|v: usize| counted.contains(v) <==> allowing.contains(v) by {
        assert(pages.has(v) <==> in_range(range, size, v));
        law_contains(entries2[(space, v)].flags, access);
    }
    assert(counted =~= allowing);
    assert forall|v: usize| #[trigger] in_range(range, size, v) implies ({
        let key = (space, v);
        if entries.contains_key(key) {
            entries2.contains_key(key) && entries2[key] == entries[key]
        } else if pages_before(backend, v) < backend.pages@.len() {
            &&& entries2.contains_key(key)
            &&& entries2[key].paddr == backend.pages@[pages_before(backend, v)]
            &&& entries2[key].flags == flags
            &&& entries2[key].size == size
        } else {
            !entries2.contains_key(key)
        }
    }) by {
        assert(pages.has(v));
    }
    assert forall|k: PageKey| !(k.0 == space && in_range(range, size, k.1)) implies {
        &&& #[trigger] entries2.contains_key(k) <==> entries.contains_key(k)
        &&& entries2.contains_key(k) ==> entries2[k] == entries[k]
    } by {
        assert(pages.has(k.1) <==> in_range(range, size, k.1));
    }
}

/// When something fails: an error of the page table is the result of mapping and unmapping,
/// as callers see it. A page without an entry is passed over when pages are discarded. A
/// lookup for populating that fails for another reason than that the page is not mapped is a
/// bad address. A reply of another kind than was asked for changes nothing.
pub proof fn law_errors(
    map: SharedMap,
    unmap: SharedUnmap,
    zap: SharedZap,
    populate: SharedPopulate,
    reply: Reply,
)
    requires
        map.state is Next,
        unmap.state is Next,
        zap.state is Next,
    ensures
        reply matches Reply::Paging(Err(e)) ==> {
            &&& map.step(reply).state == SharedState::Done(Err(seen(e)))
            &&& populate.state is MapFrame ==> populate.step(reply).state
                == SharedPopulateState::Done(Err(seen(e)))
        },
        reply matches Reply::Entry(Err(e)) ==> {
            &&& unmap.step(reply).state == SharedState::Done(Err(seen(e)))
            &&& !(zap.step(reply).state matches SharedZapState::Done(Err(_)))
            &&& zap.step(reply).count == zap.count
            &&& populate.state is Next ==> populate.step(reply).state == if e
                == PagingError::NotMapped {
                SharedPopulateState::MapFrame
            } else {
                SharedPopulateState::Done(Err(AxError::BadAddress))
            }
        },
        !(reply is Paging) ==> map.step(reply) == map,
        !(reply is Entry) ==> unmap.step(reply) == unmap && zap.step(reply) == zap,
        populate.state is Next && !(reply is Entry) ==> populate.step(reply) == populate,
        populate.state is MapFrame && !(reply is Paging) ==> populate.step(reply) == populate,
        populate.state is Done ==> populate.step(reply) == populate,
{
}

} // verus!
