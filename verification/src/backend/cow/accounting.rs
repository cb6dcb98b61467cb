//! Which frames operations on copy-on-write mappings give back, and what happens when a
//! range is populated twice.
use vstd::prelude::*;

use crate::addr::{spec_pages_in, PageSize, VirtAddrRange};
use crate::backend::cow::contents::{populate_memory, turn_fresh, Memory};
use crate::backend::cow::laws::{
    files_fit, law_populate, law_unmap, law_zap, lemma_unused_drop_first, page_populated,
    populate_turn, populate_turns, satisfying, unmap_turn, unmap_turns, unused, zap_turn,
    zap_turns, World,
};
use crate::backend::cow::populate::{CowPopulate, PopulateState};
use crate::backend::cow::unmap::{CowUnmap, UnmapState};
use crate::backend::cow::zap::{CowZap, ZapState};
use crate::backend::cow::CowBackend;
use crate::backend::frames::counts_wf;
use crate::backend::ops::Request;
use crate::flags::MappingFlags;

verus! {

/// The frame that a request gives back, if it gives one back.
pub open spec fn freed_by(req: Option<Request>) -> Seq<usize> {
    match req {
        Some(Request::FreeFrame { paddr, .. }) => seq![paddr],
        _ => Seq::empty(),
    }
}

/// The frames that `n` turns of an unmap operation give back, in order.
pub open spec fn unmap_freed(op: CowUnmap, w: World, space: int, n: nat) -> Seq<usize>
    decreases n,
{
    if n == 0 {
        Seq::empty()
    } else {
        let (op2, w2) = unmap_turn(op, w, space);
        freed_by(op.spec_request()) + unmap_freed(op2, w2, space, (n - 1) as nat)
    }
}

/// The frames that `n` turns of an operation that discards pages give back, in order.
pub open spec fn zap_freed(op: CowZap, w: World, space: int, n: nat) -> Seq<usize>
    decreases n,
{
    if n == 0 {
        Seq::empty()
    } else {
        let (op2, w2) = zap_turn(op, w, space);
        freed_by(op.spec_request()) + zap_freed(op2, w2, space, (n - 1) as nat)
    }
}

/// The frames that `n` turns of a populate operation give back, in order.
pub open spec fn populate_freed(
    op: CowPopulate,
    w: World,
    space: int,
    fresh: Seq<usize>,
    n: nat,
) -> Seq<usize>
    decreases n,
{
    if n == 0 {
        Seq::empty()
    } else {
        let (op2, w2) = populate_turn(op, w, space, fresh[0]);
        freed_by(op.spec_request()) + populate_freed(
            op2,
            w2,
            space,
            turn_fresh(op, fresh),
            (n - 1) as nat,
        )
    }
}

/// The frames given back are exactly those that left the table, each of them once.
pub open spec fn gave_back(
    freed: Seq<usize>,
    before: Map<usize, u32>,
    after: Map<usize, u32>,
) -> bool {
    &&& freed.no_duplicates()
    &&& forall|p: usize| #[trigger]
        freed.contains(p) <==> before.contains_key(p) && !after.contains_key(p)
}

/// What the rest of a run gives back: first the frame that is to be given back, if there is
/// one, and then those that leave the table from now on.
spec fn rest_gives_back(
    freed: Seq<usize>,
    pending: Option<usize>,
    before: Map<usize, u32>,
    after: Map<usize, u32>,
) -> bool {
    &&& forall|p: usize| #[trigger] after.contains_key(p) ==> before.contains_key(p)
    &&& match pending {
        Some(frame) => freed.len() > 0 && freed[0] == frame && gave_back(
            freed.drop_first(),
            before,
            after,
        ),
        None => gave_back(freed, before, after),
    }
}

/// A frame leaves the table and is given back next.
proof fn lemma_leaves(freed: Seq<usize>, frame: usize, before: Map<usize, u32>, after: Map<usize, u32>)
    requires
        before.contains_key(frame),
        rest_gives_back(freed, Some(frame), before.remove(frame), after),
    ensures
        rest_gives_back(freed, None, before, after),
{
    let rest = freed.drop_first();
    assert(!rest.contains(frame));
    assert forall|i: int, j: int| 0 <= i < freed.len() && 0 <= j < freed.len() && i != j implies
        freed[i] != freed[j] by {
        if i > 0 {
            assert(freed[i] == rest[i - 1]);
            assert(rest.contains(rest[i - 1]));
        }
        if j > 0 {
            assert(freed[j] == rest[j - 1]);
            assert(rest.contains(rest[j - 1]));
        }
    }
    assert forall|p: usize| #[trigger] freed.contains(p) <==> before.contains_key(p)
        && !after.contains_key(p) by {
        if p == frame {
            assert(freed.contains(freed[0]));
        } else {
            if freed.contains(p) {
                let i = choose|i: int| 0 <= i < freed.len() && freed[i] == p;
                assert(rest[i - 1] == p);
                assert(rest.contains(p));
            }
            if rest.contains(p) {
                let i = choose|i: int| 0 <= i < rest.len() && rest[i] == p;
                assert(freed[i + 1] == p);
            }
            assert(rest.contains(p) <==> before.remove(frame).contains_key(p)
                && !after.contains_key(p));
        }
    }
}

/// The pending frame is given back.
proof fn lemma_given(freed: Seq<usize>, frame: usize, before: Map<usize, u32>, after: Map<usize, u32>)
    requires
        rest_gives_back(freed, None, before, after),
    ensures
        rest_gives_back(seq![frame] + freed, Some(frame), before, after),
{
    assert((seq![frame] + freed).drop_first() =~= freed);
}

/// The frame that an unmap operation is about to give back.
spec fn unmap_pending(op: CowUnmap) -> Option<usize> {
    match op.state {
        UnmapState::Free { frame } => Some(frame),
        _ => None,
    }
}

/// What a run of an unmap operation gives back.
proof fn lemma_unmap_freed(op: CowUnmap, w: World, space: int, n: nat)
    requires
        unmap_turns(op, w, space, n).0.state is Done,
    ensures
        rest_gives_back(
            unmap_freed(op, w, space, n),
            unmap_pending(op),
            w.counts,
            unmap_turns(op, w, space, n).1.counts,
        ),
    decreases n,
{
    if n > 0 {
        let (op2, w2) = unmap_turn(op, w, space);
        let later = unmap_freed(op2, w2, space, (n - 1) as nat);
        let after = unmap_turns(op, w, space, n).1.counts;
        lemma_unmap_freed(op2, w2, space, (n - 1) as nat);
        match op.state {
            UnmapState::Free { frame } => {
                lemma_given(later, frame, w.counts, after);
            },
            UnmapState::Unmap => {
                assert(Seq::<usize>::empty() + later =~= later);
                if let UnmapState::Free { frame } = op2.state {
                    lemma_leaves(later, frame, w.counts, after);
                }
            },
            UnmapState::Done(_) => {
                assert(Seq::<usize>::empty() + later =~= later);
            },
        }
    }
}

/// The frame that an operation that discards pages is about to give back.
spec fn zap_pending(op: CowZap) -> Option<usize> {
    match op.state {
        ZapState::Free { frame } => Some(frame),
        _ => None,
    }
}

/// What a run of an operation that discards pages gives back.
proof fn lemma_zap_freed(op: CowZap, w: World, space: int, n: nat)
    requires
        zap_turns(op, w, space, n).0.state is Done,
    ensures
        rest_gives_back(
            zap_freed(op, w, space, n),
            zap_pending(op),
            w.counts,
            zap_turns(op, w, space, n).1.counts,
        ),
    decreases n,
{
    if n > 0 {
        let (op2, w2) = zap_turn(op, w, space);
        let later = zap_freed(op2, w2, space, (n - 1) as nat);
        let after = zap_turns(op, w, space, n).1.counts;
        lemma_zap_freed(op2, w2, space, (n - 1) as nat);
        match op.state {
            ZapState::Free { frame } => {
                lemma_given(later, frame, w.counts, after);
            },
            ZapState::Unmap => {
                assert(Seq::<usize>::empty() + later =~= later);
                if let ZapState::Free { frame } = op2.state {
                    lemma_leaves(later, frame, w.counts, after);
                }
            },
            ZapState::Done(_) => {
                assert(Seq::<usize>::empty() + later =~= later);
            },
        }
    }
}

/// Unmapping gives exactly the frames back that leave the table, each of them once.
pub proof fn law_unmap_gives_back(
    range: VirtAddrRange,
    size: PageSize,
    w: World,
    space: int,
    n: nat,
)
    requires
        spec_pages_in(range, size) is Ok,
        w.sound(),
        w.sizes_fit(space, spec_pages_in(range, size)->Ok_0),
        n >= 2 * spec_pages_in(range, size)->Ok_0.count(),
    ensures
        gave_back(
            unmap_freed(CowUnmap::of(range, size), w, space, n),
            w.counts,
            unmap_turns(CowUnmap::of(range, size), w, space, n).1.counts,
        ),
{
    law_unmap(range, size, w, space, n);
    lemma_unmap_freed(CowUnmap::of(range, size), w, space, n);
}

/// Discarding pages gives exactly the frames back that leave the table, each of them once.
pub proof fn law_zap_gives_back(
    range: VirtAddrRange,
    size: PageSize,
    w: World,
    space: int,
    n: nat,
)
    requires
        spec_pages_in(range, size) is Ok,
        w.sound(),
        w.sizes_fit(space, spec_pages_in(range, size)->Ok_0),
        n >= 2 * spec_pages_in(range, size)->Ok_0.count(),
    ensures
        gave_back(
            zap_freed(CowZap::of(range, size), w, space, n),
            w.counts,
            zap_turns(CowZap::of(range, size), w, space, n).1.counts,
        ),
{
    law_zap(range, size, w, space, n);
    lemma_zap_freed(CowZap::of(range, size), w, space, n);
}

/// What holds before every turn of a populate operation: a shared frame that a page is
/// about to leave has another reference, and there is a new frame for every page left.
spec fn keeps_frames(op: CowPopulate, w: World, fresh: Seq<usize>) -> bool {
    &&& op.pages.wf()
    &&& counts_wf(w.counts)
    &&& unused(fresh, w.counts)
    &&& !(op.state is Done) ==> !op.pages.is_empty()
    &&& match op.state {
        PopulateState::Query | PopulateState::Protect | PopulateState::Alloc => fresh.len()
            >= op.pages.count(),
        PopulateState::CopyAlloc { shared } => {
            &&& fresh.len() >= op.pages.count()
            &&& w.counts.contains_key(shared)
            &&& w.counts[shared] >= 2
        },
        PopulateState::Read { .. } | PopulateState::MapFrame { .. } => fresh.len() + 1
            >= op.pages.count(),
        PopulateState::Copy { shared, .. } | PopulateState::Remap { shared, .. } => {
            &&& fresh.len() + 1 >= op.pages.count()
            &&& w.counts.contains_key(shared)
            &&& w.counts[shared] >= 2
        },
        PopulateState::Free { .. } => false,
        PopulateState::Done(_) => true,
    }
}

/// One turn of a populate operation takes no frame out of the table.
proof fn lemma_keeps_frames(op: CowPopulate, w: World, space: int, fresh: Seq<usize>)
    requires
        keeps_frames(op, w, fresh),
    ensures
        ({
            let (op2, w2) = populate_turn(op, w, space, fresh[0]);
            &&& keeps_frames(op2, w2, turn_fresh(op, fresh))
            &&& forall|p: usize| #[trigger] w.counts.contains_key(p) ==> w2.counts.contains_key(p)
        }),
{
    if !(op.state is Done) {
        op.pages.lemma_rest();
        if op.state is Alloc || op.state is CopyAlloc {
            assert(!w.counts.contains_key(fresh[0]));
            lemma_unused_drop_first(fresh, w.counts);
        }
    }
}

/// A run of a populate operation gives nothing back.
proof fn lemma_populate_freed(op: CowPopulate, w: World, space: int, fresh: Seq<usize>, n: nat)
    requires
        keeps_frames(op, w, fresh),
    ensures
        populate_freed(op, w, space, fresh, n) == Seq::<usize>::empty(),
        forall|p: usize| #[trigger]
            w.counts.contains_key(p) ==> populate_turns(
                op,
                w,
                space,
                fresh,
                n,
            ).1.counts.contains_key(p),
    decreases n,
{
    if n > 0 {
        let (op2, w2) = populate_turn(op, w, space, fresh[0]);
        lemma_keeps_frames(op, w, space, fresh);
        lemma_populate_freed(op2, w2, space, turn_fresh(op, fresh), (n - 1) as nat);
        assert(populate_freed(op, w, space, fresh, n) =~= Seq::<usize>::empty());
    }
}

/// Populating gives no frame back, and none leaves the table: a page leaves a frame only
/// if another page still maps it.
pub proof fn law_populate_gives_back(
    backend: CowBackend,
    range: VirtAddrRange,
    flags: MappingFlags,
    access: MappingFlags,
    w: World,
    space: int,
    fresh: Seq<usize>,
    n: nat,
)
    requires
        spec_pages_in(range, backend.size) is Ok,
        w.sound(),
        unused(fresh, w.counts),
        fresh.len() >= spec_pages_in(range, backend.size)->Ok_0.count(),
    ensures
        ({
            let op = CowPopulate::of(backend, range, flags, access);
            let freed = populate_freed(op, w, space, fresh, n);
            &&& freed == Seq::<usize>::empty()
            &&& gave_back(freed, w.counts, populate_turns(op, w, space, fresh, n).1.counts)
        }),
{
    lemma_populate_freed(
        CowPopulate::of(backend, range, flags, access),
        w,
        space,
        fresh,
        n,
    );
}

/// Pages that need no work are only counted.
proof fn lemma_run_hits(
    op: CowPopulate,
    w: World,
    mem: Memory,
    space: int,
    fresh: Seq<usize>,
    file: Seq<u8>,
    n: nat,
)
    requires
        op.wf(),
        op.state is Query || op.state == PopulateState::Done(Ok(op.count)),
        op.state is Done ==> op.pages.is_empty(),
        forall|v: usize| #[trigger]
            op.pages.has(v) ==> w.entries.contains_key((space, v)) && (op.access.writable()
                ==> w.entries[(space, v)].flags.writable()),
        n >= op.pages.count(),
    ensures
        ({
            let (op2, w2) = populate_turns(op, w, space, fresh, n);
            &&& op2.state matches PopulateState::Done(Ok(count)) && count == op.count + satisfying(
                w.entries,
                space,
                op.pages,
                op.access,
            )
            &&& w2 == w
            &&& populate_memory(op, w, mem, space, fresh, file, n) == mem
        }),
    decreases n,
{
    if op.state is Query {
        op.pages.lemma_rest();
    }
    if n > 0 {
        let (op2, w2) = populate_turn(op, w, space, fresh[0]);
        if op.state is Query {
            assert(op.pages.has(op.pages.next));
            assert forall|v: usize| #[trigger] op2.pages.has(v) implies w2.entries.contains_key(
                (space, v),
            ) && (op2.access.writable() ==> w2.entries[(space, v)].flags.writable()) by {
                assert(op.pages.has(v));
            }
        }
        lemma_run_hits(op2, w2, mem, space, fresh, file, (n - 1) as nat);
    }
}

/// Populating a range again for an access that its permissions allow changes nothing: the
/// same number is returned, and no entry, no count and no byte of a frame changes. No new
/// frame is needed for that, and one turn for each page is enough.
pub proof fn law_populate_twice(
    backend: CowBackend,
    range: VirtAddrRange,
    flags: MappingFlags,
    access: MappingFlags,
    w: World,
    mem: Memory,
    space: int,
    fresh: Seq<usize>,
    again: Seq<usize>,
    file: Seq<u8>,
    n: nat,
    m: nat,
)
    requires
        spec_pages_in(range, backend.size) is Ok,
        flags.contains(access),
        w.sound(),
        w.sizes_fit(space, spec_pages_in(range, backend.size)->Ok_0),
        unused(fresh, w.counts),
        fresh.len() >= spec_pages_in(range, backend.size)->Ok_0.count(),
        files_fit(CowPopulate::of(backend, range, flags, access)),
        n >= 4 * spec_pages_in(range, backend.size)->Ok_0.count(),
        m >= spec_pages_in(range, backend.size)->Ok_0.count(),
    ensures
        ({
            let pages = spec_pages_in(range, backend.size)->Ok_0;
            let op = CowPopulate::of(backend, range, flags, access);
            let (op1, w1) = populate_turns(op, w, space, fresh, n);
            let (op2, w2) = populate_turns(op, w1, space, again, m);
            &&& op1.state matches PopulateState::Done(Ok(_))
            &&& forall|v: usize| #[trigger] pages.has(v) ==> w1.entries.contains_key((space, v))
            &&& op2.state == op1.state
            &&& w2 == w1
            &&& populate_memory(op, w1, mem, space, again, file, m) == mem
        }),
{
    let pages = spec_pages_in(range, backend.size)->Ok_0;
    let op = CowPopulate::of(backend, range, flags, access);
    let (op1, w1) = populate_turns(op, w, space, fresh, n);
    pages.lemma_count();
    law_populate(backend, range, flags, access, w, space, fresh, n);
    let f = flags.bits;
    let a = access.bits;
    assert(f & a == a && a & 2usize == 2usize ==> f & 2usize == 2usize) by (bit_vector);
    assert forall|v: usize| #[trigger] pages.has(v) implies w1.entries.contains_key((space, v)) && (
    op.access.writable() ==> w1.entries[(space, v)].flags.writable()) by {
        assert(page_populated(op, w.entries, w1.entries, (space, v)));
    }
    lemma_run_hits(op, w1, mem, space, again, file, m);
}

} // verus!
