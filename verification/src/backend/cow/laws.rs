//! What complete operations on copy-on-write mappings do.
//!
//! An operation is driven turn by turn: its request is served by page tables, an allocator
//! and files that do not fail, and the reply is handed back to it.
use vstd::prelude::*;

use crate::addr::{spec_pages_in, PageSize, Pages, VirtAddrRange};
use crate::backend::cow::clone::{all_counted, CloneState, CloneView, CowClone};
use crate::backend::cow::populate::{CowPopulate, PopulateState};
use crate::backend::cow::unmap::{CowUnmap, UnmapState};
use crate::backend::cow::zap::{CowZap, ZapState};
use crate::backend::cow::CowBackend;
use crate::backend::frames::{
    accounts_for, holders, lemma_map_fresh, lemma_map_shared,
    lemma_mapped_frame_in_table, lemma_protect, lemma_two_holders, lemma_unmap, no_counts, refs_to,
    released, retained, writers_exclusive, INITIAL_CNT,
};
use crate::backend::ops::{serve, Entries, PageKey, Pte};
use crate::flags::MappingFlags;

verus! {

/// The page tables of all address spaces and the frame counts.
#[verifier::ext_equal]
pub struct World {
    /// The entries of the page tables.
    pub entries: Entries,
    /// The counts of the frame table.
    pub counts: Map<usize, u32>,
}

impl World {
    /// Each frame is counted once for each page that maps it.
    pub open spec fn sound(self) -> bool {
        accounts_for(self.entries, self.counts)
    }

    /// A page that can be written is the only one that maps its frame.
    pub open spec fn exclusive(self) -> bool {
        writers_exclusive(self.entries, self.counts)
    }

    /// The entries of the pages have the page size of the mapping.
    pub open spec fn sizes_fit(self, space: int, pages: Pages) -> bool {
        forall|v: usize|
            #[trigger] pages.has(v) && self.entries.contains_key((space, v)) ==> self.entries[(
                space,
                v,
            )].size == pages.size
    }
}

/// The entries without those of the pages in an address space.
pub open spec fn without(entries: Entries, space: int, pages: Pages) -> Entries {
    Map::new(
        |k: PageKey| entries.contains_key(k) && !(k.0 == space && pages.has(k.1)),
        |k: PageKey| entries[k],
    )
}

proof fn lemma_without_empty(entries: Entries, space: int, pages: Pages)
    requires
        pages.is_empty(),
    ensures
        without(entries, space, pages) == entries,
{
    assert(without(entries, space, pages) =~= entries);
}

proof fn lemma_without_rest(entries: Entries, space: int, pages: Pages)
    requires
        pages.wf(),
        !pages.is_empty(),
    ensures
        without(entries.remove((space, pages.next)), space, pages.spec_rest()) == without(
            entries,
            space,
            pages,
        ),
        !entries.contains_key((space, pages.next)) ==> without(entries, space, pages.spec_rest())
            == without(entries, space, pages),
{
    pages.lemma_rest();
    assert(without(entries.remove((space, pages.next)), space, pages.spec_rest()) =~= without(
        entries,
        space,
        pages,
    ));
    if !entries.contains_key((space, pages.next)) {
        assert(without(entries, space, pages.spec_rest()) =~= without(entries, space, pages));
    }
}

/// One turn of an unmap operation.
pub open spec fn unmap_turn(op: CowUnmap, w: World, space: int) -> (CowUnmap, World) {
    match op.spec_request() {
        None => (op, w),
        Some(req) => {
            let (reply, entries) = serve(req, w.entries, space, space, 0);
            let (op2, counts) = op.step(reply, w.counts);
            (op2, World { entries, counts })
        },
    }
}

/// `n` turns of an unmap operation.
pub open spec fn unmap_turns(op: CowUnmap, w: World, space: int, n: nat) -> (CowUnmap, World)
    decreases n,
{
    if n == 0 {
        (op, w)
    } else {
        let (op2, w2) = unmap_turn(op, w, space);
        unmap_turns(op2, w2, space, (n - 1) as nat)
    }
}

/// From any state on, unmapping removes exactly the pages left.
proof fn lemma_run_unmap(op: CowUnmap, w: World, space: int, n: nat)
    requires
        op.wf(),
        op.state is Unmap || op.state is Free || op.state == UnmapState::Done(Ok(())),
        op.state is Done ==> op.pages.is_empty(),
        w.sound(),
        w.sizes_fit(space, op.pages),
        n >= 2 * op.pages.count() + (if op.state is Free {
            1int
        } else {
            0
        }),
    ensures
        ({
            let (op2, w2) = unmap_turns(op, w, space, n);
            &&& op2.state == UnmapState::Done(Ok(()))
            &&& w2.entries == without(w.entries, space, op.pages)
            &&& w2.sound()
            &&& w.exclusive() ==> w2.exclusive()
        }),
    decreases n,
{
    if op.state is Done {
        lemma_without_empty(w.entries, space, op.pages);
        if n > 0 {
            lemma_run_unmap(op, w, space, (n - 1) as nat);
        }
    } else {
        let (op2, w2) = unmap_turn(op, w, space);
        if op.state is Unmap {
            let key = (space, op.pages.next);
            op.pages.lemma_rest();
            lemma_without_rest(w.entries, space, op.pages);
            if w.entries.contains_key(key) {
                lemma_unmap(w.entries, w.counts, key);
            }
            assert forall|v: usize|
                #[trigger] op2.pages.has(v) && w2.entries.contains_key((space, v)) implies
                w2.entries[(space, v)].size == op2.pages.size by {
                assert(op.pages.has(v));
            }
        }
        lemma_run_unmap(op2, w2, space, (n - 1) as nat);
    }
}

/// One turn of an operation that discards pages.
pub open spec fn zap_turn(op: CowZap, w: World, space: int) -> (CowZap, World) {
    match op.spec_request() {
        None => (op, w),
        Some(req) => {
            let (reply, entries) = serve(req, w.entries, space, space, 0);
            let (op2, counts) = op.step(reply, w.counts);
            (op2, World { entries, counts })
        },
    }
}

/// `n` turns of an operation that discards pages.
pub open spec fn zap_turns(op: CowZap, w: World, space: int, n: nat) -> (CowZap, World)
    decreases n,
{
    if n == 0 {
        (op, w)
    } else {
        let (op2, w2) = zap_turn(op, w, space);
        zap_turns(op2, w2, space, (n - 1) as nat)
    }
}

/// Number of pages that are mapped in an address space.
pub open spec fn mapped_count(entries: Entries, space: int, pages: Pages) -> nat
    decreases pages.count(),
    when pages.wf()
    via mapped_count_decreases
{
    if pages.is_empty() {
        0
    } else {
        (if entries.contains_key((space, pages.next)) {
            1nat
        } else {
            0
        }) + mapped_count(entries, space, pages.spec_rest())
    }
}

#[via_fn]
proof fn mapped_count_decreases(entries: Entries, space: int, pages: Pages) {
    if !pages.is_empty() {
        pages.lemma_rest();
    }
}

pub proof fn lemma_mapped_count_frame(a: Entries, b: Entries, space: int, pages: Pages)
    requires
        pages.wf(),
        forall|v: usize|
            #[trigger] pages.has(v) ==> (a.contains_key((space, v)) <==> b.contains_key((space, v))),
    ensures
        mapped_count(a, space, pages) == mapped_count(b, space, pages),
    decreases pages.count(),
{
    if !pages.is_empty() {
        pages.lemma_rest();
        assert forall|v: usize| #[trigger] pages.spec_rest().has(v) implies (a.contains_key(
            (space, v),
        ) <==> b.contains_key((space, v))) by {
            assert(pages.has(v));
        }
        lemma_mapped_count_frame(a, b, space, pages.spec_rest());
    }
}

/// From any state on, discarding removes exactly the pages left and counts them.
proof fn lemma_run_zap(op: CowZap, w: World, space: int, n: nat)
    requires
        op.wf(),
        op.state is Unmap || op.state is Free || op.state == ZapState::Done(Ok(op.count)),
        op.state is Done ==> op.pages.is_empty(),
        w.sound(),
        w.sizes_fit(space, op.pages),
        n >= 2 * op.pages.count() + (if op.state is Free {
            1int
        } else {
            0
        }),
    ensures
        ({
            let (op2, w2) = zap_turns(op, w, space, n);
            &&& op2.state matches ZapState::Done(Ok(count)) && count == op.count + mapped_count(
                w.entries,
                space,
                op.pages,
            )
            &&& w2.entries == without(w.entries, space, op.pages)
            &&& w2.sound()
            &&& w.exclusive() ==> w2.exclusive()
        }),
    decreases n,
{
    if op.state is Done {
        lemma_without_empty(w.entries, space, op.pages);
        if n > 0 {
            lemma_run_zap(op, w, space, (n - 1) as nat);
        }
    } else {
        let (op2, w2) = zap_turn(op, w, space);
        if op.state is Unmap {
            let key = (space, op.pages.next);
            op.pages.lemma_rest();
            lemma_without_rest(w.entries, space, op.pages);
            if w.entries.contains_key(key) {
                lemma_unmap(w.entries, w.counts, key);
            }
            assert forall|v: usize|
                #[trigger] op2.pages.has(v) && w2.entries.contains_key((space, v)) implies
                w2.entries[(space, v)].size == op2.pages.size by {
                assert(op.pages.has(v));
            }
            lemma_mapped_count_frame(w.entries, w2.entries, space, op.pages.spec_rest());
        }
        lemma_run_zap(op2, w2, space, (n - 1) as nat);
    }
}

/// One turn of a populate operation; `frame` is what the allocator would give out.
pub open spec fn populate_turn(op: CowPopulate, w: World, space: int, frame: usize) -> (
    CowPopulate,
    World,
) {
    match op.spec_request() {
        None => (op, w),
        Some(req) => {
            let (reply, entries) = serve(req, w.entries, space, space, frame);
            let (op2, counts) = op.step(reply, w.counts);
            (op2, World { entries, counts })
        },
    }
}

/// `n` turns of a populate operation. The allocator gives out the frames of `fresh`, in
/// their order.
pub open spec fn populate_turns(
    op: CowPopulate,
    w: World,
    space: int,
    fresh: Seq<usize>,
    n: nat,
) -> (CowPopulate, World)
    decreases n,
{
    if n == 0 {
        (op, w)
    } else {
        let (op2, w2) = populate_turn(op, w, space, fresh[0]);
        let left = if op.state is Alloc || op.state is CopyAlloc {
            fresh.drop_first()
        } else {
            fresh
        };
        populate_turns(op2, w2, space, left, (n - 1) as nat)
    }
}

/// The frames are not in use and differ from each other.
pub open spec fn unused(fresh: Seq<usize>, counts: Map<usize, u32>) -> bool {
    &&& fresh.no_duplicates()
    &&& forall|i: int| 0 <= i < fresh.len() ==> !counts.contains_key(#[trigger] fresh[i])
}

/// The frames behind the first one are still unused when that one is put into use.
pub proof fn lemma_unused_drop_first(fresh: Seq<usize>, counts: Map<usize, u32>)
    requires
        unused(fresh, counts),
        fresh.len() > 0,
    ensures
        unused(fresh.drop_first(), counts.insert(fresh[0], INITIAL_CNT)),
{
    let rest = fresh.drop_first();
    assert forall|i: int| 0 <= i < rest.len() implies !counts.insert(
        fresh[0],
        INITIAL_CNT,
    ).contains_key(#[trigger] rest[i]) by {
        assert(rest[i] == fresh[i + 1]);
    }
    assert forall|i: int, j: int| 0 <= i < rest.len() && 0 <= j < rest.len() && i != j implies
        rest[i] != rest[j] by {
        assert(rest[i] == fresh[i + 1] && rest[j] == fresh[j + 1]);
    }
}

/// Number of pages whose entries allow an access.
pub open spec fn satisfying(
    entries: Entries,
    space: int,
    pages: Pages,
    access: MappingFlags,
) -> nat
    decreases pages.count(),
    when pages.wf()
    via satisfying_decreases
{
    if pages.is_empty() {
        0
    } else {
        (if entries.contains_key((space, pages.next)) && entries[(
            space,
            pages.next,
        )].flags.contains(access) {
            1nat
        } else {
            0
        }) + satisfying(entries, space, pages.spec_rest(), access)
    }
}

#[via_fn]
proof fn satisfying_decreases(
    entries: Entries,
    space: int,
    pages: Pages,
    access: MappingFlags,
) {
    if !pages.is_empty() {
        pages.lemma_rest();
    }
}

/// The files behind all pages can be read.
pub open spec fn files_fit(op: CowPopulate) -> bool {
    op.file matches Some(file) ==> forall|v: usize| #[trigger]
        op.pages.has(v) ==> file.fits(op.start, v, op.pages.size)
}

/// What a populate operation leaves of one page: a page that was mapped with enough
/// permissions stays as it is; any other page has the permissions of the mapping.
pub open spec fn page_populated(op: CowPopulate, before: Entries, after: Entries, key: PageKey) -> bool {
    &&& after.contains_key(key)
    &&& after[key].size == op.pages.size
    &&& if before.contains_key(key) && !(op.access.writable() && !before[key].flags.writable()) {
        after[key] == before[key]
    } else {
        after[key].flags == op.flags
    }
}

/// Both worlds have the same entries, but for the pages in an address space.
pub open spec fn same_elsewhere(before: Entries, after: Entries, space: int, pages: Pages) -> bool {
    forall|k: PageKey|
        !(k.0 == space && pages.has(k.1)) ==> {
            &&& #[trigger] after.contains_key(k) <==> before.contains_key(k)
            &&& after.contains_key(k) ==> after[k] == before[k]
        }
}

/// The operation went from the page in progress to the next one in `turns` turns, with
/// `used` new frames.
spec fn page_served(
    op: CowPopulate,
    w: World,
    space: int,
    fresh: Seq<usize>,
    res: (CowPopulate, World, nat, nat),
) -> bool {
    let (op2, w2, used, turns) = res;
    let key = (space, op.pages.next);
    &&& used <= 1
    &&& 1 <= turns <= 4
    &&& op2 == op.page_done(
        w2.entries.contains_key(key) && w2.entries[key].flags.contains(op.access),
    )
    &&& w2.sound()
    &&& w.exclusive() ==> w2.exclusive()
    &&& unused(fresh.skip(used as int), w2.counts)
    &&& page_populated(op, w.entries, w2.entries, key)
    &&& forall|k: PageKey|
        k != key ==> (#[trigger] w2.entries.contains_key(k) <==> w.entries.contains_key(k)) && (
        w2.entries.contains_key(k) ==> w2.entries[k] == w.entries[k])
    &&& forall|n: nat|
        n >= turns ==> #[trigger] populate_turns(op, w, space, fresh, n) == populate_turns(
            op2,
            w2,
            space,
            fresh.skip(used as int),
            (n - turns) as nat,
        )
}

/// What holds before a page is served.
spec fn ready(op: CowPopulate, w: World, space: int, fresh: Seq<usize>) -> bool {
    &&& op.wf()
    &&& op.state is Query
    &&& w.sound()
    &&& w.sizes_fit(space, op.pages)
    &&& unused(fresh, w.counts)
    &&& fresh.len() > 0
    &&& files_fit(op)
}

/// The page is mapped well enough.
proof fn lemma_page_hit(op: CowPopulate, w: World, space: int, fresh: Seq<usize>) -> (res: (
    CowPopulate,
    World,
    nat,
    nat,
))
    requires
        ready(op, w, space, fresh),
        w.entries.contains_key((space, op.pages.next)),
        !(op.access.writable() && !w.entries[(space, op.pages.next)].flags.writable()),
    ensures
        page_served(op, w, space, fresh, res),
{
    op.pages.lemma_rest();
    assert(op.pages.has(op.pages.next));
    let (op1, w1) = populate_turn(op, w, space, fresh[0]);
    assert(fresh.skip(0) =~= fresh);
    (op1, w1, 0, 1)
}

/// The page cannot be written and is the only one that maps its frame.
proof fn lemma_page_sole(op: CowPopulate, w: World, space: int, fresh: Seq<usize>) -> (res: (
    CowPopulate,
    World,
    nat,
    nat,
))
    requires
        ready(op, w, space, fresh),
        w.entries.contains_key((space, op.pages.next)),
        op.access.writable(),
        !w.entries[(space, op.pages.next)].flags.writable(),
        refs_to(w.counts, w.entries[(space, op.pages.next)].paddr) == 1,
    ensures
        page_served(op, w, space, fresh, res),
{
    let key = (space, op.pages.next);
    let pte = w.entries[key];
    op.pages.lemma_rest();
    assert(op.pages.has(op.pages.next));
    let (op1, w1) = populate_turn(op, w, space, fresh[0]);
    let (op2, w2) = populate_turn(op1, w1, space, fresh[0]);
    let pte2 = Pte { paddr: pte.paddr, flags: op.flags, size: pte.size };
    lemma_protect(w.entries, w.counts, key, pte2);
    assert(w2.entries == w.entries.insert(key, pte2));
    assert(fresh.skip(0) =~= fresh);
    assert forall|n: nat| n >= 2 implies #[trigger] populate_turns(op, w, space, fresh, n)
        == populate_turns(op2, w2, space, fresh.skip(0), (n - 2) as nat) by {
        assert(populate_turns(op1, w1, space, fresh, (n - 1) as nat) == populate_turns(
            op2,
            w2,
            space,
            fresh,
            (n - 2) as nat,
        ));
    }
    (op2, w2, 0, 2)
}

/// The page cannot be written and shares its frame: it gets a copy.
proof fn lemma_page_copied(op: CowPopulate, w: World, space: int, fresh: Seq<usize>) -> (res: (
    CowPopulate,
    World,
    nat,
    nat,
))
    requires
        ready(op, w, space, fresh),
        w.entries.contains_key((space, op.pages.next)),
        op.access.writable(),
        !w.entries[(space, op.pages.next)].flags.writable(),
        refs_to(w.counts, w.entries[(space, op.pages.next)].paddr) > 1,
    ensures
        page_served(op, w, space, fresh, res),
{
    let key = (space, op.pages.next);
    let pte = w.entries[key];
    op.pages.lemma_rest();
    assert(op.pages.has(op.pages.next));
    let left = fresh.drop_first();
    assert(fresh.skip(1) =~= left);
    let (op1, w1) = populate_turn(op, w, space, fresh[0]);
    let (op2, w2) = populate_turn(op1, w1, space, fresh[0]);
    let (op3, w3) = populate_turn(op2, w2, space, left[0]);
    let (op4, w4) = populate_turn(op3, w3, space, left[0]);
    lemma_unused_drop_first(fresh, w.counts);
    // The page leaves the shared frame and then takes its own.
    lemma_unmap(w.entries, w.counts, key);
    let gone = w.entries.remove(key);
    let dropped = released(w.counts, pte.paddr);
    let pte2 = Pte { paddr: fresh[0], flags: op.flags, size: pte.size };
    lemma_map_fresh(gone, dropped, key, pte2);
    assert(w4.entries =~= gone.insert(key, pte2));
    assert(w4.counts =~= dropped.insert(fresh[0], INITIAL_CNT));
    assert forall|n: nat| n >= 4 implies #[trigger] populate_turns(op, w, space, fresh, n)
        == populate_turns(op4, w4, space, fresh.skip(1), (n - 4) as nat) by {
        assert(populate_turns(op1, w1, space, fresh, (n - 1) as nat) == populate_turns(
            op2,
            w2,
            space,
            left,
            (n - 2) as nat,
        ));
        assert(populate_turns(op2, w2, space, left, (n - 2) as nat) == populate_turns(
            op3,
            w3,
            space,
            left,
            (n - 3) as nat,
        ));
        assert(populate_turns(op3, w3, space, left, (n - 3) as nat) == populate_turns(
            op4,
            w4,
            space,
            left,
            (n - 4) as nat,
        ));
    }
    (op4, w4, 1, 4)
}

/// The page is not mapped: it gets a new frame.
proof fn lemma_page_new(op: CowPopulate, w: World, space: int, fresh: Seq<usize>) -> (res: (
    CowPopulate,
    World,
    nat,
    nat,
))
    requires
        ready(op, w, space, fresh),
        !w.entries.contains_key((space, op.pages.next)),
    ensures
        page_served(op, w, space, fresh, res),
{
    let key = (space, op.pages.next);
    op.pages.lemma_rest();
    assert(op.pages.has(op.pages.next));
    let left = fresh.drop_first();
    assert(fresh.skip(1) =~= left);
    let (op1, w1) = populate_turn(op, w, space, fresh[0]);
    let (op2, w2) = populate_turn(op1, w1, space, fresh[0]);
    let (op3, w3) = populate_turn(op2, w2, space, left[0]);
    lemma_unused_drop_first(fresh, w.counts);
    let pte2 = Pte { paddr: fresh[0], flags: op.flags, size: op.pages.size };
    lemma_map_fresh(w.entries, w.counts, key, pte2);
    if op.file is Some {
        let (op4, w4) = populate_turn(op3, w3, space, left[0]);
        assert(w4.entries =~= w.entries.insert(key, pte2));
        assert forall|n: nat| n >= 4 implies #[trigger] populate_turns(op, w, space, fresh, n)
            == populate_turns(op4, w4, space, fresh.skip(1), (n - 4) as nat) by {
            assert(populate_turns(op1, w1, space, fresh, (n - 1) as nat) == populate_turns(
                op2,
                w2,
                space,
                left,
                (n - 2) as nat,
            ));
            assert(populate_turns(op2, w2, space, left, (n - 2) as nat) == populate_turns(
                op3,
                w3,
                space,
                left,
                (n - 3) as nat,
            ));
            assert(populate_turns(op3, w3, space, left, (n - 3) as nat) == populate_turns(
                op4,
                w4,
                space,
                left,
                (n - 4) as nat,
            ));
        }
        (op4, w4, 1, 4)
    } else {
        assert(w3.entries =~= w.entries.insert(key, pte2));
        assert forall|n: nat| n >= 3 implies #[trigger] populate_turns(op, w, space, fresh, n)
            == populate_turns(op3, w3, space, fresh.skip(1), (n - 3) as nat) by {
            assert(populate_turns(op1, w1, space, fresh, (n - 1) as nat) == populate_turns(
                op2,
                w2,
                space,
                left,
                (n - 2) as nat,
            ));
            assert(populate_turns(op2, w2, space, left, (n - 2) as nat) == populate_turns(
                op3,
                w3,
                space,
                left,
                (n - 3) as nat,
            ));
        }
        (op3, w3, 1, 3)
    }
}

/// Whatever its state, the page in progress is served.
proof fn lemma_populate_page(op: CowPopulate, w: World, space: int, fresh: Seq<usize>) -> (res: (
    CowPopulate,
    World,
    nat,
    nat,
))
    requires
        ready(op, w, space, fresh),
    ensures
        page_served(op, w, space, fresh, res),
{
    let key = (space, op.pages.next);
    if !w.entries.contains_key(key) {
        lemma_page_new(op, w, space, fresh)
    } else {
        lemma_mapped_frame_in_table(w.entries, w.counts, key);
        if !op.access.writable() || w.entries[key].flags.writable() {
            lemma_page_hit(op, w, space, fresh)
        } else if w.counts[w.entries[key].paddr] == 1 {
            lemma_page_sole(op, w, space, fresh)
        } else {
            lemma_page_copied(op, w, space, fresh)
        }
    }
}

/// From any page on, populating serves the pages left.
proof fn lemma_run_populate(op: CowPopulate, w: World, space: int, fresh: Seq<usize>, n: nat)
    requires
        op.wf(),
        op.state is Query || op.state == PopulateState::Done(Ok(op.count)),
        op.state is Done ==> op.pages.is_empty(),
        w.sound(),
        w.sizes_fit(space, op.pages),
        unused(fresh, w.counts),
        fresh.len() >= op.pages.count(),
        files_fit(op),
        n >= 4 * op.pages.count(),
    ensures
        ({
            let (op2, w2) = populate_turns(op, w, space, fresh, n);
            &&& op2.state matches PopulateState::Done(Ok(count)) && count == op.count + satisfying(
                w2.entries,
                space,
                op.pages,
                op.access,
            )
            &&& forall|v: usize| #[trigger]
                op.pages.has(v) ==> page_populated(op, w.entries, w2.entries, (space, v))
            &&& same_elsewhere(w.entries, w2.entries, space, op.pages)
            &&& w2.sound()
            &&& w.exclusive() ==> w2.exclusive()
        }),
    decreases n, op.pages.count(),
{
    if op.state is Done {
        if n > 0 {
            lemma_run_populate(op, w, space, fresh, (n - 1) as nat);
            assert(populate_turn(op, w, space, fresh[0]) == (op, w));
        }
    } else {
        op.pages.lemma_rest();
        let key = (space, op.pages.next);
        let rest = op.pages.spec_rest();
        let (op1, w1, used, turns) = lemma_populate_page(op, w, space, fresh);
        let left = fresh.skip(used as int);
        assert forall|v: usize|
            #[trigger] rest.has(v) && w1.entries.contains_key((space, v)) implies w1.entries[(
            space,
            v,
        )].size == rest.size by {
            assert(op.pages.has(v));
        }
        assert(files_fit(op1)) by {
            if let Some(file) = op.file {
                assert forall|v: usize| #[trigger] op1.pages.has(v) implies file.fits(
                    op1.start,
                    v,
                    op1.pages.size,
                ) by {
                    assert(op.pages.has(v));
                }
            }
        }
        assert(n >= turns);
        lemma_run_populate(op1, w1, space, left, (n - turns) as nat);
        let (op2, w2) = populate_turns(op, w, space, fresh, n);
        assert((op2, w2) == populate_turns(op1, w1, space, left, (n - turns) as nat));
        assert(!rest.has(op.pages.next));
        assert(w2.entries.contains_key(key) <==> w1.entries.contains_key(key));
        assert(w2.entries[key] == w1.entries[key]);
        assert forall|v: usize| #[trigger] op.pages.has(v) implies page_populated(
            op,
            w.entries,
            w2.entries,
            (space, v),
        ) by {
            if v != op.pages.next {
                assert(rest.has(v));
                assert(page_populated(op1, w1.entries, w2.entries, (space, v)));
                assert(w1.entries.contains_key((space, v)) <==> w.entries.contains_key((space, v)));
            }
        }
        assert forall|k: PageKey| !(k.0 == space && op.pages.has(k.1)) implies {
            &&& #[trigger] w2.entries.contains_key(k) <==> w.entries.contains_key(k)
            &&& w2.entries.contains_key(k) ==> w2.entries[k] == w.entries[k]
        } by {
            assert(k != key);
            assert(!(k.0 == space && rest.has(k.1)));
            assert(w1.entries.contains_key(k) <==> w.entries.contains_key(k));
        }
    }
}

/// One turn of a clone operation.
pub open spec fn clone_turn(op: CloneView, w: World, space: int, new_space: int) -> (
    CloneView,
    World,
) {
    match op.request() {
        None => (op, w),
        Some(req) => {
            let (reply, entries) = serve(req, w.entries, space, new_space, 0);
            let (op2, counts) = op.step(reply, w.counts);
            (op2, World { entries, counts })
        },
    }
}

/// `n` turns of a clone operation.
pub open spec fn clone_turns(op: CloneView, w: World, space: int, new_space: int, n: nat) -> (
    CloneView,
    World,
)
    decreases n,
{
    if n == 0 {
        (op, w)
    } else {
        let (op2, w2) = clone_turn(op, w, space, new_space);
        clone_turns(op2, w2, space, new_space, (n - 1) as nat)
    }
}

/// The collected pages are exactly the mapped ones among those of `all` that are not left,
/// each once.
pub open spec fn collected_from(
    mapped: Seq<(usize, usize)>,
    entries: Entries,
    space: int,
    all: Pages,
    left: Pages,
) -> bool {
    &&& forall|i: int|
        0 <= i < mapped.len() ==> {
            let v = (#[trigger] mapped[i]).0;
            &&& all.has(v)
            &&& !left.has(v)
            &&& entries.contains_key((space, v))
            &&& entries[(space, v)].paddr == mapped[i].1
        }
    &&& forall|v: usize|
        #[trigger] all.has(v) && !left.has(v) && entries.contains_key((space, v)) ==> exists|i: int|

            0 <= i < mapped.len() && (#[trigger] mapped[i]).0 == v
    &&& forall|i: int, j: int|
        0 <= i < mapped.len() && 0 <= j < mapped.len() && i != j ==> (#[trigger] mapped[i]).0 != (
        #[trigger] mapped[j]).0
}

/// Page `v` is shared: it maps the frame that it mapped before, with the permissions for
/// sharing, in both address spaces.
pub open spec fn page_shared(
    before: Entries,
    after: Entries,
    space: int,
    new_space: int,
    v: usize,
    flags: MappingFlags,
) -> bool {
    let pte = Pte { paddr: before[(space, v)].paddr, flags, size: before[(space, v)].size };
    &&& after.contains_key((space, v))
    &&& after[(space, v)] == pte
    &&& after.contains_key((new_space, v))
    &&& after[(new_space, v)] == pte
}

/// Whether a page is one of the collected pages, in either address space.
pub open spec fn among(
    mapped: Seq<(usize, usize)>,
    key: PageKey,
    space: int,
    new_space: int,
) -> bool {
    exists|i: int|
        0 <= i < mapped.len() && (key == (space, (#[trigger] mapped[i]).0) || key == (
            new_space,
            mapped[i].0,
        ))
}

/// All other pages have the same entries.
pub open spec fn others_same(
    mapped: Seq<(usize, usize)>,
    before: Entries,
    after: Entries,
    space: int,
    new_space: int,
) -> bool {
    forall|k: PageKey|
        !among(mapped, k, space, new_space) ==> {
            &&& #[trigger] after.contains_key(k) <==> before.contains_key(k)
            &&& after.contains_key(k) ==> after[k] == before[k]
        }
}

/// Number of pages that map a frame in an address space.
pub open spec fn times_mapped(entries: Entries, space: int, pages: Pages, paddr: usize) -> nat
    decreases pages.count(),
    when pages.wf()
    via times_mapped_decreases
{
    if pages.is_empty() {
        0
    } else {
        (if entries.contains_key((space, pages.next)) && entries[(space, pages.next)].paddr
            == paddr {
            1nat
        } else {
            0
        }) + times_mapped(entries, space, pages.spec_rest(), paddr)
    }
}

#[via_fn]
proof fn times_mapped_decreases(entries: Entries, space: int, pages: Pages, paddr: usize) {
    if !pages.is_empty() {
        pages.lemma_rest();
    }
}

/// Each count leaves room for one more reference from every page that maps the frame.
pub open spec fn room_for(w: World, space: int, pages: Pages) -> bool {
    forall|p: usize| #[trigger]
        w.counts.contains_key(p) ==> w.counts[p] + times_mapped(w.entries, space, pages, p)
            <= u32::MAX
}

/// How often a frame occurs among the collected pages from `index` on.
spec fn uses(mapped: Seq<(usize, usize)>, index: int, paddr: usize) -> nat
    decreases mapped.len() - index,
{
    if index < 0 || index >= mapped.len() {
        0
    } else {
        (if mapped[index].1 == paddr {
            1nat
        } else {
            0
        }) + uses(mapped, index + 1, paddr)
    }
}

proof fn lemma_uses_push(mapped: Seq<(usize, usize)>, page: (usize, usize), index: int, paddr: usize)
    requires
        0 <= index <= mapped.len(),
    ensures
        uses(mapped.push(page), index, paddr) == uses(mapped, index, paddr) + (if page.1 == paddr {
            1nat
        } else {
            0
        }),
    decreases mapped.len() - index,
{
    let all = mapped.push(page);
    if index < mapped.len() {
        lemma_uses_push(mapped, page, index + 1, paddr);
        assert(all[index] == mapped[index]);
    } else {
        assert(uses(all, index + 1, paddr) == 0);
    }
}

/// Each count leaves room for the collected pages from `index` on.
spec fn room_left(counts: Map<usize, u32>, mapped: Seq<(usize, usize)>, index: int) -> bool {
    forall|p: usize| #[trigger]
        counts.contains_key(p) ==> counts[p] + uses(mapped, index, p) <= u32::MAX
}

/// Each count leaves room for the collected pages and for those left.
spec fn room_all(w: World, mapped: Seq<(usize, usize)>, space: int, pages: Pages) -> bool {
    forall|p: usize| #[trigger]
        w.counts.contains_key(p) ==> w.counts[p] + uses(mapped, 0, p) + times_mapped(
            w.entries,
            space,
            pages,
            p,
        ) <= u32::MAX
}

/// Page `index` of the collected pages is shared in two turns.
proof fn lemma_share_one(op: CloneView, index: int, w: World, space: int, new_space: int) -> (res: (
    World,
))
    requires
        0 <= index < op.mapped.len() <= usize::MAX,
        space != new_space,
        !op.cow_flags.writable(),
        w.sound(),
        room_left(w.counts, op.mapped, index),
        w.entries.contains_key((space, op.mapped[index].0)),
        w.entries[(space, op.mapped[index].0)].paddr == op.mapped[index].1,
        w.entries[(space, op.mapped[index].0)].size == op.pages.size,
        !w.entries.contains_key((new_space, op.mapped[index].0)),
    ensures
        ({
            let (v, p) = op.mapped[index];
            let pte = Pte { paddr: p, flags: op.cow_flags, size: op.pages.size };
            let w2 = res.0;
            let (op1, counts1) = op.share_from(index, w.counts);
            let (op2, counts2) = op.share_from(index + 1, w2.counts);
            &&& w2.sound()
            &&& w.exclusive() ==> w2.exclusive()
            &&& w2.counts == retained(w.counts, p)
            &&& w2.entries == w.entries.insert((space, v), pte).insert((new_space, v), pte)
            &&& room_left(w2.counts, op.mapped, index + 1)
            &&& forall|n: nat|
                n >= 2 ==> #[trigger] clone_turns(
                    op1,
                    World { entries: w.entries, counts: counts1 },
                    space,
                    new_space,
                    n,
                ) == clone_turns(
                    op2,
                    World { entries: w2.entries, counts: counts2 },
                    space,
                    new_space,
                    (n - 2) as nat,
                )
        }),
{
    let (v, p) = op.mapped[index];
    let pte = Pte { paddr: p, flags: op.cow_flags, size: op.pages.size };
    let key = (space, v);
    let new_key = (new_space, v);
    lemma_mapped_frame_in_table(w.entries, w.counts, key);
    let e1 = w.entries.insert(key, pte);
    let e2 = e1.insert(new_key, pte);
    lemma_protect(w.entries, w.counts, key, pte);
    lemma_map_shared(e1, w.counts, new_key, pte);
    let w2 = World { entries: e2, counts: retained(w.counts, p) };
    assert forall|q: usize| #[trigger] w2.counts.contains_key(q) implies w2.counts[q] + uses(
        op.mapped,
        index + 1,
        q,
    ) <= u32::MAX by {
        assert(w.counts.contains_key(q));
    }
    if w.exclusive() {
        assert forall|k: PageKey|
            #[trigger] e2.contains_key(k) && e2[k].flags.writable() implies refs_to(
            w2.counts,
            e2[k].paddr,
        ) == 1 by {
            assert(k != key && k != new_key);
            assert(e1.contains_key(k) && w.entries.contains_key(k));
            if w.entries[k].paddr == p {
                lemma_two_holders(w.entries, w.counts, k, key);
            }
        }
    }
    let (op1, counts1) = op.share_from(index, w.counts);
    let wa = World { entries: w.entries, counts: counts1 };
    let (opb, wb) = clone_turn(op1, wa, space, new_space);
    assert(opb == op.at(CloneState::MapNew { index: index as usize }));
    assert(wb == World { entries: e1, counts: counts1 });
    let (opc, wc) = clone_turn(opb, wb, space, new_space);
    let (op2, counts2) = op.share_from(index + 1, w2.counts);
    assert(opc == op2);
    assert(wc == World { entries: e2, counts: counts2 });
    assert forall|n: nat| n >= 2 implies #[trigger] clone_turns(op1, wa, space, new_space, n)
        == clone_turns(op2, wc, space, new_space, (n - 2) as nat) by {
        assert(clone_turns(opb, wb, space, new_space, (n - 1) as nat) == clone_turns(
            opc,
            wc,
            space,
            new_space,
            (n - 2) as nat,
        ));
    }
    (w2,)
}

/// The collected pages from `index` on are shared one after the other.
proof fn lemma_share_all(
    op: CloneView,
    index: int,
    w: World,
    space: int,
    new_space: int,
    all: Pages,
    left: Pages,
    before: Entries,
    n: nat,
)
    requires
        0 <= index <= op.mapped.len() <= usize::MAX,
        space != new_space,
        !op.cow_flags.writable(),
        w.sound(),
        room_left(w.counts, op.mapped, index),
        collected_from(op.mapped, before, space, all, left),
        all.size == op.pages.size,
        forall|v: usize|
            #[trigger] all.has(v) && before.contains_key((space, v)) ==> before[(space, v)].size
                == all.size,
        forall|v: usize| #[trigger] all.has(v) ==> !before.contains_key((new_space, v)),
        forall|i: int|
            0 <= i < index ==> page_shared(
                before,
                w.entries,
                space,
                new_space,
                (#[trigger] op.mapped[i]).0,
                op.cow_flags,
            ),
        others_same(op.mapped.take(index), before, w.entries, space, new_space),
        n >= 2 * (op.mapped.len() - index),
    ensures
        ({
            let (op1, counts1) = op.share_from(index, w.counts);
            let (op2, w2) = clone_turns(
                op1,
                World { entries: w.entries, counts: counts1 },
                space,
                new_space,
                n,
            );
            &&& op2.state == CloneState::Done(Ok(()))
            &&& w2.sound()
            &&& w.exclusive() ==> w2.exclusive()
            &&& forall|i: int|
                0 <= i < op.mapped.len() ==> page_shared(
                    before,
                    w2.entries,
                    space,
                    new_space,
                    (#[trigger] op.mapped[i]).0,
                    op.cow_flags,
                )
            &&& others_same(op.mapped, before, w2.entries, space, new_space)
        }),
    decreases op.mapped.len() - index,
{
    let (op1, counts1) = op.share_from(index, w.counts);
    let wa = World { entries: w.entries, counts: counts1 };
    if index == op.mapped.len() {
        assert(op.mapped.take(index) =~= op.mapped);
        lemma_clone_done(op1, wa, space, new_space, n);
    } else {
        let (v, p) = op.mapped[index];
        assert(all.has(v));
        assert(!among(op.mapped.take(index), (space, v), space, new_space)) by {
            assert forall|i: int| 0 <= i < index implies (#[trigger] op.mapped.take(index)[i]).0
                != v by {
                assert(op.mapped.take(index)[i] == op.mapped[i]);
            }
        }
        assert(!among(op.mapped.take(index), (new_space, v), space, new_space)) by {
            assert forall|i: int| 0 <= i < index implies (#[trigger] op.mapped.take(index)[i]).0
                != v by {
                assert(op.mapped.take(index)[i] == op.mapped[i]);
            }
        }
        assert(op.mapped[index].0 == v && before.contains_key((space, v)));
        assert(w.entries.contains_key((space, v)));
        assert(w.entries[(space, v)] == before[(space, v)]);
        assert(w.entries.contains_key((new_space, v)) <==> before.contains_key((new_space, v)));
        let (w2,) = lemma_share_one(op, index, w, space, new_space);
        assert forall|i: int| 0 <= i < index + 1 implies page_shared(
            before,
            w2.entries,
            space,
            new_space,
            (#[trigger] op.mapped[i]).0,
            op.cow_flags,
        ) by {
            if i < index {
                assert(op.mapped[i].0 != v);
            }
        }
        assert(others_same(op.mapped.take(index + 1), before, w2.entries, space, new_space)) by {
            assert forall|k: PageKey|
                !among(op.mapped.take(index + 1), k, space, new_space) implies {
                &&& #[trigger] w2.entries.contains_key(k) <==> before.contains_key(k)
                &&& w2.entries.contains_key(k) ==> w2.entries[k] == before[k]
            } by {
                let taken = op.mapped.take(index + 1);
                assert(taken[index] == op.mapped[index]);
                if among(op.mapped.take(index), k, space, new_space) {
                    let i = choose|i: int|
                        0 <= i < index && (k == (space, (#[trigger] op.mapped.take(index)[i]).0)
                            || k == (new_space, op.mapped.take(index)[i].0));
                    assert(taken[i] == op.mapped.take(index)[i]);
                }
                assert(w.entries.contains_key(k) <==> before.contains_key(k));
            }
        }
        lemma_share_all(
            op,
            index + 1,
            w2,
            space,
            new_space,
            all,
            left,
            before,
            (n - 2) as nat,
        );
        let (op2, counts2) = op.share_from(index + 1, w2.counts);
        assert(clone_turns(op1, wa, space, new_space, n) == clone_turns(
            op2,
            World { entries: w2.entries, counts: counts2 },
            space,
            new_space,
            (n - 2) as nat,
        ));
    }
}

proof fn lemma_clone_done(op: CloneView, w: World, space: int, new_space: int, n: nat)
    requires
        op.state is Done,
    ensures
        clone_turns(op, w, space, new_space, n) == (op, w),
    decreases n,
{
    if n > 0 {
        lemma_clone_done(op, w, space, new_space, (n - 1) as nat);
    }
}

/// From any page on, duplicating collects the pages left and shares all of them.
proof fn lemma_run_clone(
    op: CloneView,
    w: World,
    space: int,
    new_space: int,
    all: Pages,
    n: nat,
)
    requires
        op.state is Query,
        op.wf(),
        all.wf(),
        op.pages.size == all.size,
        op.pages.end == all.end,
        op.pages.next >= all.next,
        space != new_space,
        !op.cow_flags.writable(),
        w.sound(),
        w.sizes_fit(space, all),
        forall|v: usize| #[trigger] all.has(v) ==> !w.entries.contains_key((new_space, v)),
        collected_from(op.mapped, w.entries, space, all, op.pages),
        op.mapped.len() + op.pages.count() <= all.count(),
        room_all(w, op.mapped, space, op.pages),
        n >= op.pages.count() + 2 * all.count(),
    ensures
        ({
            let (op2, w2) = clone_turns(op, w, space, new_space, n);
            &&& op2.state == CloneState::Done(Ok(()))
            &&& forall|v: usize|
                #[trigger] all.has(v) ==> if w.entries.contains_key((space, v)) {
                    page_shared(w.entries, w2.entries, space, new_space, v, op.cow_flags)
                } else {
                    !w2.entries.contains_key((space, v)) && !w2.entries.contains_key((new_space, v))
                }
            &&& forall|k: PageKey|
                !((k.0 == space || k.0 == new_space) && all.has(k.1)) ==> {
                    &&& #[trigger] w2.entries.contains_key(k) <==> w.entries.contains_key(k)
                    &&& w2.entries.contains_key(k) ==> w2.entries[k] == w.entries[k]
                }
            &&& w2.sound()
            &&& w.exclusive() ==> w2.exclusive()
        }),
    decreases op.pages.count(),
{
    let v = op.pages.next;
    let key = (space, v);
    op.pages.lemma_rest();
    let rest = op.pages.spec_rest();
    assert(op.pages.has(v));
    assert(all.has(v));
    let mapped = if w.entries.contains_key(key) {
        op.mapped.push((v, w.entries[key].paddr))
    } else {
        op.mapped
    };
    let op1 = CloneView { pages: rest, mapped, ..op };
    let (op2, w2) = clone_turn(op, w, space, new_space);
    assert(collected_from(mapped, w.entries, space, all, rest)) by {
        assert forall|i: int| 0 <= i < mapped.len() implies {
            let x = (#[trigger] mapped[i]).0;
            &&& all.has(x)
            &&& !rest.has(x)
            &&& w.entries.contains_key((space, x))
            &&& w.entries[(space, x)].paddr == mapped[i].1
        } by {
            if i < op.mapped.len() {
                assert(mapped[i] == op.mapped[i]);
                assert(!op.pages.has(mapped[i].0));
            }
        }
        assert forall|x: usize|
            #[trigger] all.has(x) && !rest.has(x) && w.entries.contains_key((space, x)) implies exists|
            i: int,
        |
            0 <= i < mapped.len() && (#[trigger] mapped[i]).0 == x by {
            if x == v {
                assert(mapped[mapped.len() - 1].0 == x);
            } else {
                assert(!op.pages.has(x));
                let i = choose|i: int| 0 <= i < op.mapped.len() && (#[trigger] op.mapped[i]).0 == x;
                assert(mapped[i].0 == x);
            }
        }
        assert forall|i: int, j: int|
            0 <= i < mapped.len() && 0 <= j < mapped.len() && i != j implies (
        #[trigger] mapped[i]).0 != (#[trigger] mapped[j]).0 by {
            if i < op.mapped.len() {
                assert(mapped[i] == op.mapped[i]);
                assert(!op.pages.has(op.mapped[i].0));
            }
            if j < op.mapped.len() {
                assert(mapped[j] == op.mapped[j]);
                assert(!op.pages.has(op.mapped[j].0));
            }
        }
    }
    assert((op2, w2.counts) == op.collected(rest, mapped, w.counts));
    assert(w2.entries == w.entries);
    assert(room_all(w, mapped, space, rest)) by {
        assert forall|p: usize| #[trigger] w.counts.contains_key(p) implies w.counts[p] + uses(
            mapped,
            0,
            p,
        ) + times_mapped(w.entries, space, rest, p) <= u32::MAX by {
            if w.entries.contains_key(key) {
                lemma_uses_push(op.mapped, (v, w.entries[key].paddr), 0, p);
            }
        }
    }
    if !rest.is_empty() {
        lemma_run_clone(op2, w2, space, new_space, all, (n - 1) as nat);
    } else {
        all.lemma_count();
        assert(all_counted(mapped, w.counts)) by {
            assert forall|i: int| 0 <= i < mapped.len() implies w.counts.contains_key(
                (#[trigger] mapped[i]).1,
            ) by {
                lemma_mapped_frame_in_table(w.entries, w.counts, (space, mapped[i].0));
            }
        }
        assert(op1.mapped.take(0) =~= Seq::empty());
        lemma_share_all(
            op1,
            0,
            w,
            space,
            new_space,
            all,
            rest,
            w.entries,
            (n - 1) as nat,
        );
        let (op3, w3) = clone_turns(op, w, space, new_space, n);
        assert((op3, w3) == clone_turns(op2, w2, space, new_space, (n - 1) as nat));
        assert forall|x: usize| #[trigger] all.has(x) implies if w.entries.contains_key((space, x)) {
            page_shared(w.entries, w3.entries, space, new_space, x, op.cow_flags)
        } else {
            !w3.entries.contains_key((space, x)) && !w3.entries.contains_key((new_space, x))
        } by {
            assert(!rest.has(x));
            if w.entries.contains_key((space, x)) {
                let i = choose|i: int| 0 <= i < mapped.len() && (#[trigger] mapped[i]).0 == x;
                assert(page_shared(
                    w.entries,
                    w3.entries,
                    space,
                    new_space,
                    op1.mapped[i].0,
                    op.cow_flags,
                ));
            } else {
                assert forall|i: int| 0 <= i < op1.mapped.len() implies (
                #[trigger] op1.mapped[i]).0 != x by {
                    assert(w.entries.contains_key((space, mapped[i].0)));
                }
                assert(w3.entries.contains_key((space, x)) <==> w.entries.contains_key((space, x)));
                assert(w3.entries.contains_key((new_space, x)) <==> w.entries.contains_key(
                    (new_space, x),
                ));
            }
        }
        assert forall|k: PageKey|
            !((k.0 == space || k.0 == new_space) && all.has(k.1)) implies {
            &&& #[trigger] w3.entries.contains_key(k) <==> w.entries.contains_key(k)
            &&& w3.entries.contains_key(k) ==> w3.entries[k] == w.entries[k]
        } by {
            assert(!among(op1.mapped, k, space, new_space)) by {
                assert forall|i: int| 0 <= i < op1.mapped.len() implies k != (
                    space,
                    (#[trigger] op1.mapped[i]).0,
                ) && k != (new_space, op1.mapped[i].0) by {
                    assert(all.has(mapped[i].0));
                }
            }
        }
    }
}

/// Without pages and frames the counts are right, and no two pages share a frame.
pub proof fn law_start()
    ensures
        (World { entries: Map::empty(), counts: no_counts() }).sound(),
        (World { entries: Map::empty(), counts: no_counts() }).exclusive(),
{
    let entries: Entries = Map::empty();
    assert forall|p: usize| (#[trigger] holders(entries, p)).len() == refs_to(no_counts(), p) by {
        assert(holders(entries, p) =~= Set::empty());
    }
}

/// Unmapping an aligned range succeeds, removes exactly its pages from the address space,
/// and keeps the counts right: each removed page gives its reference back. Two turns for
/// each page are enough.
pub proof fn law_unmap(range: VirtAddrRange, size: PageSize, w: World, space: int, n: nat)
    requires
        spec_pages_in(range, size) is Ok,
        w.sound(),
        w.sizes_fit(space, spec_pages_in(range, size)->Ok_0),
        n >= 2 * spec_pages_in(range, size)->Ok_0.count(),
    ensures
        ({
            let pages = spec_pages_in(range, size)->Ok_0;
            let (op2, w2) = unmap_turns(CowUnmap::of(range, size), w, space, n);
            &&& op2.state == UnmapState::Done(Ok(()))
            &&& w2.entries == without(w.entries, space, pages)
            &&& w2.sound()
            &&& w.exclusive() ==> w2.exclusive()
        }),
{
    lemma_run_unmap(CowUnmap::of(range, size), w, space, n);
}

/// Discarding the pages of an aligned range succeeds, removes exactly their entries, tells
/// how many pages were mapped, and keeps the counts right. Two turns for each page are
/// enough.
pub proof fn law_zap(range: VirtAddrRange, size: PageSize, w: World, space: int, n: nat)
    requires
        spec_pages_in(range, size) is Ok,
        w.sound(),
        w.sizes_fit(space, spec_pages_in(range, size)->Ok_0),
        n >= 2 * spec_pages_in(range, size)->Ok_0.count(),
    ensures
        ({
            let pages = spec_pages_in(range, size)->Ok_0;
            let (op2, w2) = zap_turns(CowZap::of(range, size), w, space, n);
            &&& op2.state matches ZapState::Done(Ok(count)) && count == mapped_count(
                w.entries,
                space,
                pages,
            )
            &&& w2.entries == without(w.entries, space, pages)
            &&& w2.sound()
            &&& w.exclusive() ==> w2.exclusive()
        }),
{
    spec_pages_in(range, size)->Ok_0.lemma_count();
    lemma_run_zap(CowZap::of(range, size), w, space, n);
}

/// Populating an aligned range succeeds and tells how many pages then allow the access.
/// Every page of the range is mapped in the end: those that could not be written and have
/// to be, and those that were not mapped, with the permissions of the mapping; the others
/// as they were. No other page changes, in this or in another address space. The counts
/// stay right, and a page that can be written stays the only one that maps its frame. One
/// new frame and four turns for each page are enough.
pub proof fn law_populate(
    backend: CowBackend,
    range: VirtAddrRange,
    flags: MappingFlags,
    access: MappingFlags,
    w: World,
    space: int,
    fresh: Seq<usize>,
    n: nat,
)
    requires
        spec_pages_in(range, backend.size) is Ok,
        w.sound(),
        w.sizes_fit(space, spec_pages_in(range, backend.size)->Ok_0),
        unused(fresh, w.counts),
        fresh.len() >= spec_pages_in(range, backend.size)->Ok_0.count(),
        files_fit(CowPopulate::of(backend, range, flags, access)),
        n >= 4 * spec_pages_in(range, backend.size)->Ok_0.count(),
    ensures
        ({
            let pages = spec_pages_in(range, backend.size)->Ok_0;
            let op = CowPopulate::of(backend, range, flags, access);
            let (op2, w2) = populate_turns(op, w, space, fresh, n);
            &&& op2.state matches PopulateState::Done(Ok(count)) && count == satisfying(
                w2.entries,
                space,
                pages,
                access,
            )
            &&& forall|v: usize| #[trigger]
                pages.has(v) ==> page_populated(op, w.entries, w2.entries, (space, v))
            &&& same_elsewhere(w.entries, w2.entries, space, pages)
            &&& w2.sound()
            &&& w.exclusive() ==> w2.exclusive()
        }),
{
    spec_pages_in(range, backend.size)->Ok_0.lemma_count();
    lemma_run_populate(CowPopulate::of(backend, range, flags, access), w, space, fresh, n);
}

/// Duplicating an aligned range for an address space that has nothing there succeeds. Every
/// mapped page of the range is then mapped to the same frame in both address spaces,
/// without the permission to write; the frames have one reference more for each such page.
/// No other page changes. The counts stay right, and a page that can be written stays the
/// only one that maps its frame. Three turns for each page are enough.
pub proof fn law_clone(
    range: VirtAddrRange,
    size: PageSize,
    flags: MappingFlags,
    w: World,
    space: int,
    new_space: int,
    n: nat,
)
    requires
        spec_pages_in(range, size) is Ok,
        space != new_space,
        w.sound(),
        w.sizes_fit(space, spec_pages_in(range, size)->Ok_0),
        forall|v: usize| #[trigger]
            spec_pages_in(range, size)->Ok_0.has(v) ==> !w.entries.contains_key((new_space, v)),
        room_for(w, space, spec_pages_in(range, size)->Ok_0),
        n >= 3 * spec_pages_in(range, size)->Ok_0.count(),
    ensures
        ({
            let pages = spec_pages_in(range, size)->Ok_0;
            let (op, counts) = CowClone::of(range, size, flags, w.counts);
            let (op2, w2) = clone_turns(
                op,
                World { entries: w.entries, counts },
                space,
                new_space,
                n,
            );
            &&& op2.state == CloneState::Done(Ok(()))
            &&& forall|v: usize|
                #[trigger] pages.has(v) ==> if w.entries.contains_key((space, v)) {
                    page_shared(w.entries, w2.entries, space, new_space, v, flags.read_only())
                } else {
                    !w2.entries.contains_key((space, v)) && !w2.entries.contains_key((new_space, v))
                }
            &&& forall|k: PageKey|
                !((k.0 == space || k.0 == new_space) && pages.has(k.1)) ==> {
                    &&& #[trigger] w2.entries.contains_key(k) <==> w.entries.contains_key(k)
                    &&& w2.entries.contains_key(k) ==> w2.entries[k] == w.entries[k]
                }
            &&& w2.sound()
            &&& w.exclusive() ==> w2.exclusive()
        }),
{
    let pages = spec_pages_in(range, size)->Ok_0;
    let (op, counts) = CowClone::of(range, size, flags, w.counts);
    flags.lemma_read_only();
    if pages.is_empty() {
        lemma_clone_done(op, w, space, new_space, n);
    } else {
        lemma_run_clone(op, w, space, new_space, pages, n);
    }
}

} // verus!
