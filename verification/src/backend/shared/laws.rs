//! What complete operations on shared mappings do.
//!
//! An operation is driven turn by turn, as one on a copy-on-write mapping is: its requests
//! are served by page tables that do not fail.
use vstd::prelude::*;

use crate::addr::{spec_pages_in, PageSize, Pages, VirtAddrRange};
use crate::backend::cow::laws::{mapped_count, same_elsewhere, satisfying, without};
use crate::backend::ops::{serve, Entries, PageKey, Pte};
use crate::backend::shared::{
    SharedBackend, SharedMap, SharedPopulate, SharedPopulateState, SharedState, SharedUnmap,
    SharedZap, SharedZapState,
};
use crate::flags::MappingFlags;

verus! {

/// `n` turns of an operation that maps pages.
pub open spec fn map_turns(op: SharedMap, entries: Entries, space: int, n: nat) -> (
    SharedMap,
    Entries,
)
    decreases n,
{
    match op.spec_request() {
        Some(req) if n > 0 => {
            let (reply, entries2) = serve(req, entries, space, space, 0);
            map_turns(op.step(reply), entries2, space, (n - 1) as nat)
        },
        _ => (op, entries),
    }
}

/// The frame for page `v` when the pages are `pages` and the first of them is for frame
/// `index`.
pub open spec fn frame_index(pages: Pages, index: int, v: usize) -> int {
    index + (v - pages.next) / (pages.size.bytes() as int)
}

proof fn lemma_frame_index(pages: Pages, index: int, v: usize)
    requires
        pages.wf(),
        pages.has(v),
    ensures
        frame_index(pages, index, v) >= index,
        frame_index(pages, index, v) == index <==> v == pages.next,
        v != pages.next ==> frame_index(pages.spec_rest(), index + 1, v) == frame_index(
            pages,
            index,
            v,
        ),
{
    pages.lemma_rest();
    let s = pages.size.bytes() as int;
    let d = v - pages.next;
    assert(d % s == 0) by (nonlinear_arith)
        requires
            s == 0x1000 || s == 0x10_0000 || s == 0x20_0000 || s == 0x4000_0000,
            d == v - pages.next,
            v as int % s == 0,
            pages.next as int % s == 0,
    ;
    assert(d / s >= 0 && (d / s == 0 <==> d == 0) && (d >= s ==> (d - s) / s == d / s - 1))
        by (nonlinear_arith)
        requires
            s == 0x1000 || s == 0x10_0000 || s == 0x20_0000 || s == 0x4000_0000,
            d % s == 0,
            d >= 0,
    ;
    if v != pages.next {
        assert(pages.spec_rest().has(v));
    }
}

/// The entry that a page of a shared mapping gets.
pub open spec fn shared_pte(frames: Seq<usize>, index: int, flags: MappingFlags, size: PageSize) -> Pte {
    Pte { paddr: frames[index], flags, size }
}

/// From any page on, mapping maps the pages left that have frames.
proof fn lemma_run_map(op: SharedMap, entries: Entries, space: int, n: nat)
    requires
        op.wf(),
        op.state is Next || op.state == SharedState::Done(Ok(())),
        op.state is Done ==> op.pages.is_empty() || op.index == op.frames@.len(),
        op.pages.size == op.frames.size,
        forall|v: usize| #[trigger] op.pages.has(v) ==> !entries.contains_key((space, v)),
        n >= op.pages.count(),
    ensures
        ({
            let (op2, entries2) = map_turns(op, entries, space, n);
            &&& op2.state == SharedState::Done(Ok(()))
            &&& forall|v: usize| #[trigger]
                op.pages.has(v) ==> {
                    let i = frame_index(op.pages, op.index as int, v);
                    if i < op.frames@.len() {
                        entries2.contains_key((space, v)) && entries2[(space, v)] == shared_pte(
                            op.frames@,
                            i,
                            op.flags,
                            op.pages.size,
                        )
                    } else {
                        !entries2.contains_key((space, v))
                    }
                }
            &&& same_elsewhere(entries, entries2, space, op.pages)
        }),
    decreases n,
{
    assert(op.frames.phys_pages.len() == op.frames@.len());
    if op.state is Done {
        assert forall|v: usize| #[trigger] op.pages.has(v) implies frame_index(
            op.pages,
            op.index as int,
            v,
        ) >= op.frames@.len() by {
            lemma_frame_index(op.pages, op.index as int, v);
        }
    } else {
        op.pages.lemma_rest();
        let key = (space, op.pages.next);
        assert(op.pages.has(op.pages.next));
        assert(!entries.contains_key(key));
        let (reply, entries1) = serve(op.spec_request().unwrap(), entries, space, space, 0);
        let op1 = op.step(reply);
        assert forall|v: usize| #[trigger] op1.pages.has(v) implies !entries1.contains_key(
            (space, v),
        ) by {
            assert(op.pages.has(v));
        }
        lemma_run_map(op1, entries1, space, (n - 1) as nat);
        let (op2, entries2) = map_turns(op, entries, space, n);
        assert(!op1.pages.has(op.pages.next));
        assert(entries2.contains_key(key) <==> entries1.contains_key(key));
        assert forall|v: usize| #[trigger] op.pages.has(v) implies ({
            let i = frame_index(op.pages, op.index as int, v);
            if i < op.frames@.len() {
                entries2.contains_key((space, v)) && entries2[(space, v)] == shared_pte(
                    op.frames@,
                    i,
                    op.flags,
                    op.pages.size,
                )
            } else {
                !entries2.contains_key((space, v))
            }
        }) by {
            lemma_frame_index(op.pages, op.index as int, v);
            if v != op.pages.next {
                assert(op1.pages.has(v));
            }
        }
        assert forall|k: PageKey| !(k.0 == space && op.pages.has(k.1)) implies {
            &&& #[trigger] entries2.contains_key(k) <==> entries.contains_key(k)
            &&& entries2.contains_key(k) ==> entries2[k] == entries[k]
        } by {
            assert(!(k.0 == space && op1.pages.has(k.1)));
            assert(entries1.contains_key(k) <==> entries.contains_key(k));
        }
    }
}

/// Mapping an aligned range at which nothing is mapped succeeds: each page maps the frame
/// at its place in the shared pages, as long as there are frames, and no other page
/// changes. One turn for each page is enough.
pub proof fn law_map(
    backend: SharedBackend,
    range: VirtAddrRange,
    flags: MappingFlags,
    entries: Entries,
    space: int,
    n: nat,
)
    requires
        spec_pages_in(range, backend.pages.size) is Ok,
        backend.reaches(range.start),
        forall|v: usize| #[trigger]
            spec_pages_in(range, backend.pages.size)->Ok_0.has(v) ==> !entries.contains_key(
                (space, v),
            ),
        n >= spec_pages_in(range, backend.pages.size)->Ok_0.count(),
    ensures
        ({
            let pages = spec_pages_in(range, backend.pages.size)->Ok_0;
            let (op2, entries2) = map_turns(
                SharedMap::of(backend, range, flags),
                entries,
                space,
                n,
            );
            &&& op2.state == SharedState::Done(Ok(()))
            &&& forall|v: usize| #[trigger]
                pages.has(v) ==> if backend.index_of(v) < backend.pages@.len() {
                    entries2.contains_key((space, v)) && entries2[(space, v)] == shared_pte(
                        backend.pages@,
                        backend.index_of(v),
                        flags,
                        pages.size,
                    )
                } else {
                    !entries2.contains_key((space, v))
                }
            &&& same_elsewhere(entries, entries2, space, pages)
        }),
{
    let pages = spec_pages_in(range, backend.pages.size)->Ok_0;
    let op = SharedMap::of(backend, range, flags);
    lemma_index_bound(backend, range.start);
    lemma_run_map(op, entries, space, n);
    assert forall|v: usize| #[trigger] pages.has(v) implies backend.index_of(v) == frame_index(
        pages,
        op.index as int,
        v,
    ) by {
        lemma_index_of(backend, pages, v);
    }
}

/// The index of a page fits in an address.
pub proof fn lemma_index_bound(backend: SharedBackend, start: usize)
    requires
        backend.reaches(start),
    ensures
        0 <= backend.index_of(start) <= usize::MAX,
{
    let s = backend.pages.size.bytes() as int;
    let d = start - backend.start;
    assert(0 <= d / s <= d) by (nonlinear_arith)
        requires
            d >= 0,
            s > 0,
    ;
}

/// Counting pages from the start of a range is counting them from the start of the mapping.
pub proof fn lemma_index_of(backend: SharedBackend, pages: Pages, v: usize)
    requires
        pages.wf(),
        pages.size == backend.pages.size,
        pages.has(v),
        backend.reaches(pages.next),
    ensures
        backend.index_of(v) == frame_index(pages, backend.index_of(pages.next), v),
{
    let s = pages.size.bytes() as int;
    let a = pages.next - backend.start;
    let b = v - pages.next;
    assert((a + b) / s == a / s + b / s) by (nonlinear_arith)
        requires
            s > 0,
            a % s == 0,
    ;
    assert(v - backend.start == a + b);
}

/// `n` turns of an operation that unmaps pages.
pub open spec fn unmap_turns(op: SharedUnmap, entries: Entries, space: int, n: nat) -> (
    SharedUnmap,
    Entries,
)
    decreases n,
{
    match op.spec_request() {
        Some(req) if n > 0 => {
            let (reply, entries2) = serve(req, entries, space, space, 0);
            unmap_turns(op.step(reply), entries2, space, (n - 1) as nat)
        },
        _ => (op, entries),
    }
}

/// From any page on, unmapping removes exactly the pages left.
proof fn lemma_run_unmap(op: SharedUnmap, entries: Entries, space: int, n: nat)
    requires
        op.wf(),
        op.state is Next || op.state == SharedState::Done(Ok(())),
        op.state is Done ==> op.pages.is_empty(),
        forall|v: usize| #[trigger] op.pages.has(v) ==> entries.contains_key((space, v)),
        n >= op.pages.count(),
    ensures
        ({
            let (op2, entries2) = unmap_turns(op, entries, space, n);
            &&& op2.state == SharedState::Done(Ok(()))
            &&& entries2 == without(entries, space, op.pages)
        }),
    decreases n,
{
    if op.state is Done {
        assert(without(entries, space, op.pages) =~= entries);
    } else {
        op.pages.lemma_rest();
        let key = (space, op.pages.next);
        assert(op.pages.has(op.pages.next));
        let op1 = SharedUnmap::from(op.pages.spec_rest());
        let entries1 = entries.remove(key);
        assert forall|v: usize| #[trigger] op1.pages.has(v) implies entries1.contains_key(
            (space, v),
        ) by {
            assert(op.pages.has(v));
        }
        lemma_run_unmap(op1, entries1, space, (n - 1) as nat);
        assert(without(entries1, space, op1.pages) =~= without(entries, space, op.pages));
    }
}

/// Unmapping an aligned range whose pages are all mapped succeeds and removes exactly its
/// pages. One turn for each page is enough.
pub proof fn law_unmap(range: VirtAddrRange, size: PageSize, entries: Entries, space: int, n: nat)
    requires
        spec_pages_in(range, size) is Ok,
        forall|v: usize| #[trigger]
            spec_pages_in(range, size)->Ok_0.has(v) ==> entries.contains_key((space, v)),
        n >= spec_pages_in(range, size)->Ok_0.count(),
    ensures
        ({
            let (op2, entries2) = unmap_turns(SharedUnmap::of(range, size), entries, space, n);
            &&& op2.state == SharedState::Done(Ok(()))
            &&& entries2 == without(entries, space, spec_pages_in(range, size)->Ok_0)
        }),
{
    lemma_run_unmap(SharedUnmap::of(range, size), entries, space, n);
}

/// Unmapping a range of a shared mapping undoes mapping it, where every page has a frame.
pub proof fn law_unmap_undoes_map(
    backend: SharedBackend,
    range: VirtAddrRange,
    flags: MappingFlags,
    entries: Entries,
    space: int,
    n: nat,
)
    requires
        spec_pages_in(range, backend.pages.size) is Ok,
        backend.reaches(range.start),
        forall|v: usize| #[trigger]
            spec_pages_in(range, backend.pages.size)->Ok_0.has(v) ==> !entries.contains_key(
                (space, v),
            ) && backend.index_of(v) < backend.pages@.len(),
        n >= spec_pages_in(range, backend.pages.size)->Ok_0.count(),
    ensures
        ({
            let (_, mapped) = map_turns(SharedMap::of(backend, range, flags), entries, space, n);
            unmap_turns(SharedUnmap::of(range, backend.pages.size), mapped, space, n).1 == entries
        }),
{
    let pages = spec_pages_in(range, backend.pages.size)->Ok_0;
    law_map(backend, range, flags, entries, space, n);
    let (_, mapped) = map_turns(SharedMap::of(backend, range, flags), entries, space, n);
    law_unmap(range, backend.pages.size, mapped, space, n);
    assert(without(mapped, space, pages) =~= entries);
}

/// `n` turns of an operation that discards pages.
pub open spec fn zap_turns(op: SharedZap, entries: Entries, space: int, n: nat) -> (
    SharedZap,
    Entries,
)
    decreases n,
{
    match op.spec_request() {
        Some(req) if n > 0 => {
            let (reply, entries2) = serve(req, entries, space, space, 0);
            zap_turns(op.step(reply), entries2, space, (n - 1) as nat)
        },
        _ => (op, entries),
    }
}

/// From any page on, discarding removes exactly the pages left and counts them.
proof fn lemma_run_zap(op: SharedZap, entries: Entries, space: int, n: nat)
    requires
        op.wf(),
        op.state is Next || op.state == SharedZapState::Done(Ok(op.count)),
        op.state is Done ==> op.pages.is_empty(),
        n >= op.pages.count(),
    ensures
        ({
            let (op2, entries2) = zap_turns(op, entries, space, n);
            &&& op2.state matches SharedZapState::Done(Ok(count)) && count == op.count
                + mapped_count(entries, space, op.pages)
            &&& entries2 == without(entries, space, op.pages)
        }),
    decreases n,
{
    if op.state is Done {
        assert(without(entries, space, op.pages) =~= entries);
    } else {
        op.pages.lemma_rest();
        let key = (space, op.pages.next);
        let (reply, entries1) = serve(op.spec_request().unwrap(), entries, space, space, 0);
        let op1 = op.step(reply);
        lemma_run_zap(op1, entries1, space, (n - 1) as nat);
        assert(entries1 =~= entries.remove(key));
        assert(without(entries1, space, op1.pages) =~= without(entries, space, op.pages));
        crate::backend::cow::laws::lemma_mapped_count_frame(entries, entries1, space, op1.pages);
    }
}

/// Discarding the pages of an aligned range succeeds, removes exactly their entries and
/// tells how many pages were mapped. One turn for each page is enough.
pub proof fn law_zap(range: VirtAddrRange, size: PageSize, entries: Entries, space: int, n: nat)
    requires
        spec_pages_in(range, size) is Ok,
        n >= spec_pages_in(range, size)->Ok_0.count(),
    ensures
        ({
            let pages = spec_pages_in(range, size)->Ok_0;
            let (op2, entries2) = zap_turns(SharedZap::of(range, size), entries, space, n);
            &&& op2.state matches SharedZapState::Done(Ok(count)) && count == mapped_count(
                entries,
                space,
                pages,
            )
            &&& entries2 == without(entries, space, pages)
        }),
{
    spec_pages_in(range, size)->Ok_0.lemma_count();
    lemma_run_zap(SharedZap::of(range, size), entries, space, n);
}

/// `n` turns of a populate operation.
pub open spec fn populate_turns(op: SharedPopulate, entries: Entries, space: int, n: nat) -> (
    SharedPopulate,
    Entries,
)
    decreases n,
{
    match op.spec_request() {
        Some(req) if n > 0 => {
            let (reply, entries2) = serve(req, entries, space, space, 0);
            populate_turns(op.step(reply), entries2, space, (n - 1) as nat)
        },
        _ => (op, entries),
    }
}

/// What populating leaves of one page: a mapped page stays as it is; any other page maps
/// its frame.
pub open spec fn page_populated(
    before: Entries,
    after: Entries,
    key: PageKey,
    pte: Pte,
) -> bool {
    &&& after.contains_key(key)
    &&& after[key] == if before.contains_key(key) {
        before[key]
    } else {
        pte
    }
}

/// The page in progress is served in one turn if it is mapped, else in two.
proof fn lemma_populate_one(op: SharedPopulate, entries: Entries, space: int, n: nat)
    requires
        op.wf(),
        op.state is Next,
        n >= 2,
    ensures
        ({
            let key = (space, op.pages.next);
            let pte = shared_pte(op.frames@, op.index as int, op.flags, op.pages.size);
            populate_turns(op, entries, space, n) == if entries.contains_key(key) {
                populate_turns(
                    op.page_done(entries[key].flags.contains(op.access)),
                    entries,
                    space,
                    (n - 1) as nat,
                )
            } else {
                populate_turns(
                    op.page_done(op.flags.contains(op.access)),
                    entries.insert(key, pte),
                    space,
                    (n - 2) as nat,
                )
            }
        }),
{
    let key = (space, op.pages.next);
    let pte = shared_pte(op.frames@, op.index as int, op.flags, op.pages.size);
    if !entries.contains_key(key) {
        let waiting = op.at(SharedPopulateState::MapFrame);
        assert(populate_turns(op, entries, space, n) == populate_turns(
            waiting,
            entries,
            space,
            (n - 1) as nat,
        ));
        assert(populate_turns(waiting, entries, space, (n - 1) as nat) == populate_turns(
            op.page_done(op.flags.contains(op.access)),
            entries.insert(key, pte),
            space,
            (n - 2) as nat,
        ));
    }
}

/// From any page on, populating serves the pages left.
#[verifier::rlimit(40)]
proof fn lemma_run_populate(op: SharedPopulate, entries: Entries, space: int, n: nat)
    requires
        op.wf(),
        op.state is Next || op.state == SharedPopulateState::Done(Ok(op.count)),
        op.state is Done ==> op.pages.is_empty(),
        op.index + op.pages.count() <= op.frames@.len(),
        n >= 2 * op.pages.count(),
    ensures
        ({
            let (op2, entries2) = populate_turns(op, entries, space, n);
            &&& op2.state matches SharedPopulateState::Done(Ok(count)) && count == op.count
                + satisfying(entries2, space, op.pages, op.access)
            &&& forall|v: usize| #[trigger]
                op.pages.has(v) ==> page_populated(
                    entries,
                    entries2,
                    (space, v),
                    shared_pte(
                        op.frames@,
                        frame_index(op.pages, op.index as int, v),
                        op.flags,
                        op.pages.size,
                    ),
                )
            &&& same_elsewhere(entries, entries2, space, op.pages)
        }),
    decreases n,
{
    if !(op.state is Done) {
        assert(op.frames.phys_pages.len() == op.frames@.len());
        op.pages.lemma_rest();
        let key = (space, op.pages.next);
        let pte = shared_pte(op.frames@, op.index as int, op.flags, op.pages.size);
        let hit = entries.contains_key(key);
        let entries1 = if hit {
            entries
        } else {
            entries.insert(key, pte)
        };
        let op1 = op.page_done(entries1[key].flags.contains(op.access));
        let turns: nat = if hit {
            1
        } else {
            2
        };
        lemma_populate_one(op, entries, space, n);
        lemma_run_populate(op1, entries1, space, (n - turns) as nat);
        let (op2, entries2) = populate_turns(op, entries, space, n);
        assert(!op1.pages.has(op.pages.next));
        assert(entries2.contains_key(key) <==> entries1.contains_key(key));
        assert forall|v: usize| #[trigger] op.pages.has(v) implies page_populated(
            entries,
            entries2,
            (space, v),
            shared_pte(
                op.frames@,
                frame_index(op.pages, op.index as int, v),
                op.flags,
                op.pages.size,
            ),
        ) by {
            lemma_frame_index(op.pages, op.index as int, v);
            if v != op.pages.next {
                assert(op1.pages.has(v));
            }
        }
        assert forall|k: PageKey| !(k.0 == space && op.pages.has(k.1)) implies {
            &&& #[trigger] entries2.contains_key(k) <==> entries.contains_key(k)
            &&& entries2.contains_key(k) ==> entries2[k] == entries[k]
        } by {
            assert(op.pages.has(op.pages.next));
            assert(!(k.0 == space && op1.pages.has(k.1)));
            assert(entries1.contains_key(k) <==> entries.contains_key(k));
        }
    }
}

/// Populating an aligned range whose pages all have frames succeeds and tells how many
/// pages then allow the access. A page that was mapped stays as it is, any other page maps
/// the frame at its place in the shared pages, and no page outside the range changes. Two
/// turns for each page are enough.
pub proof fn law_populate(
    backend: SharedBackend,
    range: VirtAddrRange,
    flags: MappingFlags,
    access: MappingFlags,
    entries: Entries,
    space: int,
    n: nat,
)
    requires
        spec_pages_in(range, backend.pages.size) is Ok,
        backend.reaches(range.start),
        backend.index_of(range.start) + spec_pages_in(range, backend.pages.size)->Ok_0.count()
            <= backend.pages@.len(),
        n >= 2 * spec_pages_in(range, backend.pages.size)->Ok_0.count(),
    ensures
        ({
            let pages = spec_pages_in(range, backend.pages.size)->Ok_0;
            let (op2, entries2) = populate_turns(
                SharedPopulate::of(backend, range, flags, access),
                entries,
                space,
                n,
            );
            &&& op2.state matches SharedPopulateState::Done(Ok(count)) && count == satisfying(
                entries2,
                space,
                pages,
                access,
            )
            &&& forall|v: usize| #[trigger]
                pages.has(v) ==> page_populated(
                    entries,
                    entries2,
                    (space, v),
                    shared_pte(backend.pages@, backend.index_of(v), flags, pages.size),
                )
            &&& same_elsewhere(entries, entries2, space, pages)
        }),
{
    let pages = spec_pages_in(range, backend.pages.size)->Ok_0;
    let op = SharedPopulate::of(backend, range, flags, access);
    pages.lemma_count();
    if !pages.is_empty() {
        pages.lemma_rest();
    }
    lemma_index_bound(backend, range.start);
    lemma_run_populate(op, entries, space, n);
    assert forall|v: usize| #[trigger] pages.has(v) implies backend.index_of(v) == frame_index(
        pages,
        op.index as int,
        v,
    ) by {
        lemma_index_of(backend, pages, v);
    }
}

/// Number of the first `left` pages whose entries allow an access.
pub open spec fn served(
    entries: Entries,
    space: int,
    pages: Pages,
    access: MappingFlags,
    left: int,
) -> nat
    decreases pages.count(),
    when pages.wf()
    via served_decreases
{
    if pages.is_empty() || left <= 0 {
        0
    } else {
        (if entries.contains_key((space, pages.next)) && entries[(
            space,
            pages.next,
        )].flags.contains(access) {
            1nat
        } else {
            0
        }) + served(entries, space, pages.spec_rest(), access, left - 1)
    }
}

#[via_fn]
proof fn served_decreases(
    entries: Entries,
    space: int,
    pages: Pages,
    access: MappingFlags,
    left: int,
) {
    if !pages.is_empty() {
        pages.lemma_rest();
    }
}

/// The first pages that allow an access.
pub open spec fn served_pages(
    entries: Entries,
    space: int,
    pages: Pages,
    access: MappingFlags,
    index: int,
    left: int,
) -> Set<usize> {
    Set::new(
        |v: usize|
            pages.has(v) && frame_index(pages, index, v) < index + left && entries.contains_key(
                (space, v),
            ) && entries[(space, v)].flags.contains(access),
    )
}

/// Counting the first pages that allow an access one by one gives the size of their set.
pub proof fn lemma_served(
    entries: Entries,
    space: int,
    pages: Pages,
    access: MappingFlags,
    index: int,
    left: int,
)
    requires
        pages.wf(),
    ensures
        served_pages(entries, space, pages, access, index, left).finite(),
        served_pages(entries, space, pages, access, index, left).len() == served(
            entries,
            space,
            pages,
            access,
            left,
        ),
    decreases pages.count(),
{
    let all = served_pages(entries, space, pages, access, index, left);
    assert forall|v: usize| #[trigger] pages.has(v) implies frame_index(pages, index, v) >= index
        && (frame_index(pages, index, v) == index <==> v == pages.next) && (v != pages.next
        ==> frame_index(pages.spec_rest(), index + 1, v) == frame_index(pages, index, v)) by {
        lemma_frame_index(pages, index, v);
    }
    if pages.is_empty() || left <= 0 {
        assert(all =~= Set::empty());
    } else {
        pages.lemma_rest();
        let rest = served_pages(entries, space, pages.spec_rest(), access, index + 1, left - 1);
        lemma_served(entries, space, pages.spec_rest(), access, index + 1, left - 1);
        if entries.contains_key((space, pages.next)) && entries[(
            space,
            pages.next,
        )].flags.contains(access) {
            assert(all =~= rest.insert(pages.next));
        } else {
            assert(all =~= rest);
        }
    }
}

/// From any page on, populating serves the pages left that have frames and leaves the others
/// as they are.
#[verifier::rlimit(40)]
pub proof fn lemma_run_populate_frames(op: SharedPopulate, entries: Entries, space: int, n: nat)
    requires
        op.wf(),
        op.state is Next || op.state == SharedPopulateState::Done(Ok(op.count)),
        op.state is Done ==> op.pages.is_empty() || op.index == op.frames@.len(),
        n >= 2 * op.pages.count(),
    ensures
        ({
            let (op2, entries2) = populate_turns(op, entries, space, n);
            &&& op2.state matches SharedPopulateState::Done(Ok(count)) && count == op.count
                + served(entries2, space, op.pages, op.access, op.frames@.len() - op.index)
            &&& forall|v: usize| #[trigger]
                op.pages.has(v) ==> {
                    let i = frame_index(op.pages, op.index as int, v);
                    let key = (space, v);
                    if i < op.frames@.len() {
                        page_populated(
                            entries,
                            entries2,
                            key,
                            shared_pte(op.frames@, i, op.flags, op.pages.size),
                        )
                    } else {
                        &&& entries2.contains_key(key) <==> entries.contains_key(key)
                        &&& entries2.contains_key(key) ==> entries2[key] == entries[key]
                    }
                }
            &&& same_elsewhere(entries, entries2, space, op.pages)
        }),
    decreases n,
{
    assert(op.frames.phys_pages.len() == op.frames@.len());
    if op.state is Done {
        assert forall|v: usize| #[trigger] op.pages.has(v) implies frame_index(
            op.pages,
            op.index as int,
            v,
        ) >= op.frames@.len() by {
            lemma_frame_index(op.pages, op.index as int, v);
        }
    } else {
        op.pages.lemma_rest();
        let key = (space, op.pages.next);
        let pte = shared_pte(op.frames@, op.index as int, op.flags, op.pages.size);
        let hit = entries.contains_key(key);
        let entries1 = if hit {
            entries
        } else {
            entries.insert(key, pte)
        };
        let op1 = op.page_done(entries1[key].flags.contains(op.access));
        let turns: nat = if hit {
            1
        } else {
            2
        };
        lemma_populate_one(op, entries, space, n);
        lemma_run_populate_frames(op1, entries1, space, (n - turns) as nat);
        let (op2, entries2) = populate_turns(op, entries, space, n);
        assert(!op1.pages.has(op.pages.next));
        assert(entries2.contains_key(key) <==> entries1.contains_key(key));
        assert forall|v: usize| #[trigger] op.pages.has(v) implies ({
            let i = frame_index(op.pages, op.index as int, v);
            let key = (space, v);
            if i < op.frames@.len() {
                page_populated(
                    entries,
                    entries2,
                    key,
                    shared_pte(op.frames@, i, op.flags, op.pages.size),
                )
            } else {
                &&& entries2.contains_key(key) <==> entries.contains_key(key)
                &&& entries2.contains_key(key) ==> entries2[key] == entries[key]
            }
        }) by {
            lemma_frame_index(op.pages, op.index as int, v);
            if v != op.pages.next {
                assert(op1.pages.has(v));
            }
        }
        assert forall|k: PageKey| !(k.0 == space && op.pages.has(k.1)) implies {
            &&& #[trigger] entries2.contains_key(k) <==> entries.contains_key(k)
            &&& entries2.contains_key(k) ==> entries2[k] == entries[k]
        } by {
            assert(op.pages.has(op.pages.next));
            assert(!(k.0 == space && op1.pages.has(k.1)));
            assert(entries1.contains_key(k) <==> entries.contains_key(k));
        }
    }
}

} // verus!
