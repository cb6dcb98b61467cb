//! What the pages of copy-on-write mappings hold.
//!
//! The laws in [`laws`](crate::backend::cow::laws) say which frames the pages map. Those
//! here say what is in the frames: a page keeps its contents whatever happens to the frame
//! behind it, and nobody else sees what is written to it.
use vstd::prelude::*;

use crate::addr::{spec_pages_in, PageSize, VirtAddrRange};
use crate::backend::cow::clone::CowClone;
use crate::backend::cow::laws::{
    clone_turns, files_fit, law_clone, law_populate, law_zap, populate_turn, populate_turns,
    room_for, unused, zap_turns, World,
};
use crate::backend::cow::populate::{CowPopulate, PopulateState};
use crate::backend::cow::zap::CowZap;
use crate::backend::cow::CowBackend;
use crate::backend::frames::{lemma_mapped_frame_in_table, lemma_two_holders};
use crate::backend::ops::{Entries, PageKey, Pte, Request};
use crate::flags::MappingFlags;

verus! {

/// The bytes of all frames: byte `i` of the frame at `paddr`.
pub type Memory = spec_fn(usize, int) -> u8;

/// Byte `i` of a page.
pub open spec fn page_byte(entries: Entries, mem: Memory, key: PageKey, i: int) -> u8 {
    mem(entries[key].paddr, i)
}

/// How a request changes the bytes of frames.
///
/// `fresh` is the frame that the allocator gives out; its bytes are what they were, unless
/// zeros are asked for. `file` is what the mapped file holds; a read ends with it.
pub open spec fn serve_memory(req: Request, mem: Memory, fresh: usize, file: Seq<u8>) -> Memory {
    match req {
        Request::AllocFrame { zeroed: true, layout } => |p: usize, i: int|
            if p == fresh && 0 <= i < layout.align {
                0u8
            } else {
                mem(p, i)
            },
        Request::CopyFrame { from, to, len } => |p: usize, i: int|
            if p == to && 0 <= i < len {
                mem(from, i)
            } else {
                mem(p, i)
            },
        Request::ReadFile { frame, read } => |p: usize, i: int|
            if p == frame && read.start <= i < read.start + read.len && read.offset + (i
                - read.start) < file.len() {
                file[read.offset + (i - read.start)]
            } else {
                mem(p, i)
            },
        _ => mem,
    }
}

/// The bytes of frames after `n` turns of a populate operation.
pub open spec fn populate_memory(
    op: CowPopulate,
    w: World,
    mem: Memory,
    space: int,
    fresh: Seq<usize>,
    file: Seq<u8>,
    n: nat,
) -> Memory
    decreases n,
{
    if n == 0 {
        mem
    } else {
        let (op2, w2) = populate_turn(op, w, space, fresh[0]);
        let mem2 = match op.spec_request() {
            None => mem,
            Some(req) => serve_memory(req, mem, fresh[0], file),
        };
        let left = if op.state is Alloc || op.state is CopyAlloc {
            fresh.drop_first()
        } else {
            fresh
        };
        populate_memory(op2, w2, mem2, space, left, file, (n - 1) as nat)
    }
}

impl CowBackend {
    /// Byte `i` of the page at `vaddr` when it is first used: it comes from the file if
    /// the mapping has one and the file goes that far, and is zero otherwise.
    pub open spec fn first_byte(self, vaddr: usize, file: Seq<u8>, i: int) -> u8 {
        if self.file is Some && self.file.unwrap().backs(self.start, vaddr + i)
            && self.file.unwrap().pos(self.start, vaddr + i) < file.len() {
            file[self.file.unwrap().pos(self.start, vaddr + i)]
        } else {
            0u8
        }
    }
}

/// No page maps the frame.
spec fn nowhere(frame: usize, entries: Entries) -> bool {
    forall|k: PageKey| #[trigger] entries.contains_key(k) ==> entries[k].paddr != frame
}

/// The frames that the allocator will give out differ, and no page maps them.
spec fn all_nowhere(fresh: Seq<usize>, entries: Entries) -> bool {
    &&& fresh.no_duplicates()
    &&& forall|i: int| 0 <= i < fresh.len() ==> nowhere(#[trigger] fresh[i], entries)
}

/// All pages of `before` are there and hold what they held.
spec fn kept(before: Entries, old_mem: Memory, after: Entries, mem: Memory) -> bool {
    &&& forall|k: PageKey| #[trigger]
        before.contains_key(k) ==> after.contains_key(k) && after[k].size == before[k].size
    &&& forall|k: PageKey, i: int|
        before.contains_key(k) && 0 <= i < before[k].size.bytes() ==> #[trigger] page_byte(
            after,
            mem,
            k,
            i,
        ) == page_byte(before, old_mem, k, i)
}

/// The new pages hold what a page holds when it is first used.
spec fn filled(
    b: CowBackend,
    file: Seq<u8>,
    before: Entries,
    after: Entries,
    mem: Memory,
    space: int,
) -> bool {
    forall|v: usize, i: int|
        !before.contains_key((space, v)) && after.contains_key((space, v)) && 0 <= i
            < b.size.bytes() ==> #[trigger] page_byte(after, mem, (space, v), i) == b.first_byte(
            v,
            file,
            i,
        )
}

/// What a run starts from.
struct Start {
    backend: CowBackend,
    entries: Entries,
    mem: Memory,
    file: Seq<u8>,
    space: int,
}

/// What holds before every turn.
spec fn holds(s: Start, op: CowPopulate, w: World, mem: Memory, fresh: Seq<usize>) -> bool {
    let e = w.entries;
    &&& op.wf()
    &&& op.start == s.backend.start
    &&& op.file == s.backend.file
    &&& op.pages.size == s.backend.size
    &&& w.sizes_fit(s.space, op.pages)
    &&& files_fit(op)
    &&& kept(s.entries, s.mem, e, mem)
    &&& filled(s.backend, s.file, s.entries, e, mem, s.space)
    &&& all_nowhere(fresh, e)
    &&& in_page(s, op, e, mem, fresh)
}

/// What holds of the page in progress.
spec fn in_page(s: Start, op: CowPopulate, e: Entries, mem: Memory, fresh: Seq<usize>) -> bool {
    let key = (s.space, op.pages.next);
    let size = op.pages.size.bytes();
    match op.state {
        PopulateState::Query => fresh.len() >= op.pages.count(),
        PopulateState::Protect => fresh.len() >= op.pages.count() && e.contains_key(key),
        PopulateState::Alloc => fresh.len() >= op.pages.count() && !e.contains_key(key),
        PopulateState::Read { frame } => {
            &&& fresh.len() + 1 >= op.pages.count()
            &&& !e.contains_key(key)
            &&& nowhere(frame, e)
            &&& !fresh.contains(frame)
            &&& forall|i: int| 0 <= i < size ==> #[trigger] mem(frame, i) == 0
        },
        PopulateState::MapFrame { frame } => {
            &&& fresh.len() + 1 >= op.pages.count()
            &&& !e.contains_key(key)
            &&& !fresh.contains(frame)
            &&& forall|i: int|
                0 <= i < size ==> #[trigger] mem(frame, i) == s.backend.first_byte(
                    op.pages.next,
                    s.file,
                    i,
                )
        },
        PopulateState::CopyAlloc { shared } => {
            &&& fresh.len() >= op.pages.count()
            &&& in_shared(e, key, shared, op.pages.size)
        },
        PopulateState::Copy { shared, copy } => {
            &&& fresh.len() + 1 >= op.pages.count()
            &&& in_shared(e, key, shared, op.pages.size)
            &&& nowhere(copy, e)
            &&& !fresh.contains(copy)
        },
        PopulateState::Remap { shared, copy } => {
            &&& fresh.len() + 1 >= op.pages.count()
            &&& in_shared(e, key, shared, op.pages.size)
            &&& !fresh.contains(copy)
            &&& forall|i: int| 0 <= i < size ==> #[trigger] mem(copy, i) == mem(shared, i)
        },
        PopulateState::Free { .. } => fresh.len() + 1 >= op.pages.count(),
        PopulateState::Done(_) => true,
    }
}

/// The page maps the shared frame.
spec fn in_shared(e: Entries, key: PageKey, shared: usize, size: PageSize) -> bool {
    e.contains_key(key) && e[key].paddr == shared && e[key].size == size
}

/// Changing a frame that no page maps changes no page.
proof fn lemma_elsewhere(s: Start, e: Entries, mem: Memory, mem2: Memory, frame: usize)
    requires
        kept(s.entries, s.mem, e, mem),
        filled(s.backend, s.file, s.entries, e, mem, s.space),
        nowhere(frame, e),
        forall|p: usize, i: int| p != frame ==> #[trigger] mem2(p, i) == mem(p, i),
    ensures
        kept(s.entries, s.mem, e, mem2),
        filled(s.backend, s.file, s.entries, e, mem2, s.space),
{
    assert forall|k: PageKey, i: int|
        s.entries.contains_key(k) && 0 <= i < s.entries[k].size.bytes() implies #[trigger] page_byte(
        e,
        mem2,
        k,
        i,
    ) == page_byte(s.entries, s.mem, k, i) by {
        assert(e.contains_key(k));
        assert(page_byte(e, mem, k, i) == page_byte(s.entries, s.mem, k, i));
        assert(mem2(e[k].paddr, i) == mem(e[k].paddr, i));
    }
    assert forall|v: usize, i: int|
        !s.entries.contains_key((s.space, v)) && e.contains_key((s.space, v)) && 0 <= i
            < s.backend.size.bytes() implies #[trigger] page_byte(e, mem2, (s.space, v), i)
        == s.backend.first_byte(v, s.file, i) by {
        assert(page_byte(e, mem, (s.space, v), i) == s.backend.first_byte(v, s.file, i));
        assert(mem2(e[(s.space, v)].paddr, i) == mem(e[(s.space, v)].paddr, i));
    }
}

/// The frames behind the first one differ from it.
proof fn lemma_take_fresh(fresh: Seq<usize>, e: Entries)
    requires
        all_nowhere(fresh, e),
        fresh.len() > 0,
    ensures
        all_nowhere(fresh.drop_first(), e),
        nowhere(fresh[0], e),
        !fresh.drop_first().contains(fresh[0]),
{
    let rest = fresh.drop_first();
    assert forall|i: int| 0 <= i < rest.len() implies nowhere(#[trigger] rest[i], e) && rest[i]
        != fresh[0] by {
        assert(rest[i] == fresh[i + 1]);
    }
    assert forall|i: int, j: int| 0 <= i < rest.len() && 0 <= j < rest.len() && i != j implies
        rest[i] != rest[j] by {
        assert(rest[i] == fresh[i + 1] && rest[j] == fresh[j + 1]);
    }
}

/// The page in progress gets an entry for a frame with the right contents, and the
/// operation moves on.
proof fn lemma_entry(
    s: Start,
    op: CowPopulate,
    w: World,
    mem: Memory,
    fresh: Seq<usize>,
    op2: CowPopulate,
    w2: World,
    pte: Pte,
    satisfied: bool,
)
    requires
        holds(s, op, w, mem, fresh),
        !(op.state is Done),
        fresh.len() + 1 >= op.pages.count(),
        !fresh.contains(pte.paddr),
        pte.size == op.pages.size,
        w2.entries == w.entries.insert((s.space, op.pages.next), pte),
        w.entries.contains_key((s.space, op.pages.next)) ==> in_shared(
            w.entries,
            (s.space, op.pages.next),
            w.entries[(s.space, op.pages.next)].paddr,
            op.pages.size,
        ) && forall|i: int|
            0 <= i < op.pages.size.bytes() ==> #[trigger] mem(pte.paddr, i) == mem(
                w.entries[(s.space, op.pages.next)].paddr,
                i,
            ),
        !w.entries.contains_key((s.space, op.pages.next)) ==> forall|i: int|
            0 <= i < op.pages.size.bytes() ==> #[trigger] mem(pte.paddr, i)
                == s.backend.first_byte(op.pages.next, s.file, i),
        op2 == op.page_done(satisfied) || (op2.state is Free && op2 == op.at(op2.state)),
    ensures
        holds(s, op2, w2, mem, fresh),
{
    let key = (s.space, op.pages.next);
    let e = w.entries;
    let e2 = w2.entries;
    op.pages.lemma_rest();
    assert forall|k: PageKey| #[trigger] s.entries.contains_key(k) implies e2.contains_key(k)
        && e2[k].size == s.entries[k].size by {
        assert(e.contains_key(k));
    }
    assert forall|k: PageKey, i: int|
        s.entries.contains_key(k) && 0 <= i < s.entries[k].size.bytes() implies #[trigger] page_byte(
        e2,
        mem,
        k,
        i,
    ) == page_byte(s.entries, s.mem, k, i) by {
        assert(e.contains_key(k));
        assert(page_byte(e, mem, k, i) == page_byte(s.entries, s.mem, k, i));
        if k == key {
            assert(mem(pte.paddr, i) == mem(e[key].paddr, i));
        }
    }
    assert forall|v: usize, i: int|
        !s.entries.contains_key((s.space, v)) && e2.contains_key((s.space, v)) && 0 <= i
            < s.backend.size.bytes() implies #[trigger] page_byte(e2, mem, (s.space, v), i)
        == s.backend.first_byte(v, s.file, i) by {
        if v == op.pages.next {
            if e.contains_key(key) {
                assert(page_byte(e, mem, key, i) == s.backend.first_byte(v, s.file, i));
                assert(mem(pte.paddr, i) == mem(e[key].paddr, i));
            } else {
                assert(mem(pte.paddr, i) == s.backend.first_byte(op.pages.next, s.file, i));
            }
        } else {
            assert(page_byte(e, mem, (s.space, v), i) == s.backend.first_byte(v, s.file, i));
        }
    }
    assert forall|i: int| 0 <= i < fresh.len() implies nowhere(#[trigger] fresh[i], e2) by {
        assert(nowhere(fresh[i], e));
        assert(fresh.contains(fresh[i]));
        assert forall|k: PageKey| #[trigger] e2.contains_key(k) implies e2[k].paddr != fresh[i] by {
            if k != key {
                assert(e.contains_key(k));
            }
        }
    }
    assert forall|v: usize|
        #[trigger] op2.pages.has(v) && e2.contains_key((s.space, v)) implies e2[(
        s.space,
        v,
    )].size == op2.pages.size by {
        assert(op.pages.has(v));
    }
    if op.file is Some {
        assert forall|v: usize| #[trigger] op2.pages.has(v) implies op.file.unwrap().fits(
            op.start,
            v,
            op.pages.size,
        ) by {
            assert(op.pages.has(v));
        }
    }
}

/// The operation moves on without touching an entry.
proof fn lemma_move_on(
    s: Start,
    op: CowPopulate,
    w: World,
    mem: Memory,
    fresh: Seq<usize>,
    op2: CowPopulate,
    w2: World,
    satisfied: bool,
)
    requires
        holds(s, op, w, mem, fresh),
        !(op.state is Done),
        fresh.len() + 1 >= op.pages.count(),
        w2.entries == w.entries,
        op2 == op.page_done(satisfied),
    ensures
        holds(s, op2, w2, mem, fresh),
{
    op.pages.lemma_rest();
    assert forall|v: usize|
        #[trigger] op2.pages.has(v) && w2.entries.contains_key((s.space, v)) implies w2.entries[(
        s.space,
        v,
    )].size == op2.pages.size by {
        assert(op.pages.has(v));
    }
    if op.file is Some {
        assert forall|v: usize| #[trigger] op2.pages.has(v) implies op.file.unwrap().fits(
            op.start,
            v,
            op.pages.size,
        ) by {
            assert(op.pages.has(v));
        }
    }
}

/// The bytes of frames after one turn.
spec fn turn_memory(op: CowPopulate, mem: Memory, frame: usize, file: Seq<u8>) -> Memory {
    match op.spec_request() {
        None => mem,
        Some(req) => serve_memory(req, mem, frame, file),
    }
}

/// The frames that are left to the allocator after one turn.
pub open spec fn turn_fresh(op: CowPopulate, fresh: Seq<usize>) -> Seq<usize> {
    if op.state is Alloc || op.state is CopyAlloc {
        fresh.drop_first()
    } else {
        fresh
    }
}

/// A new frame: allocated, or filled from the file.
proof fn lemma_turn_new(s: Start, op: CowPopulate, w: World, mem: Memory, fresh: Seq<usize>)
    requires
        holds(s, op, w, mem, fresh),
        op.state is Alloc || op.state is Read,
    ensures
        ({
            let (op2, w2) = populate_turn(op, w, s.space, fresh[0]);
            holds(s, op2, w2, turn_memory(op, mem, fresh[0], s.file), turn_fresh(op, fresh))
        }),
{
    let (op2, w2) = populate_turn(op, w, s.space, fresh[0]);
    let mem2 = turn_memory(op, mem, fresh[0], s.file);
    let vaddr = op.pages.next;
    op.pages.lemma_rest();
    if op.state is Alloc {
        lemma_take_fresh(fresh, w.entries);
        lemma_elsewhere(s, w.entries, mem, mem2, fresh[0]);
        if op.file is Some {
            assert(op.pages.has(vaddr));
        }
    } else {
        let frame = op.state->Read_frame;
        lemma_elsewhere(s, w.entries, mem, mem2, frame);
        let file = op.file.unwrap();
        file.lemma_window(op.start, vaddr, op.pages.size);
        let read = file.spec_window(op.start, vaddr, op.pages.size);
        assert forall|i: int| 0 <= i < op.pages.size.bytes() implies #[trigger] mem2(frame, i)
            == s.backend.first_byte(vaddr, s.file, i) by {
            assert(mem(frame, i) == 0);
            assert(read.start <= i < read.start + read.len <==> file.backs(op.start, vaddr + i));
            if read.start <= i < read.start + read.len {
                assert(read.offset + (i - read.start) == file.pos(op.start, vaddr + i));
            }
        }
    }
}

/// A copy: allocated, or filled from the shared frame.
proof fn lemma_turn_copy(s: Start, op: CowPopulate, w: World, mem: Memory, fresh: Seq<usize>)
    requires
        holds(s, op, w, mem, fresh),
        op.state is CopyAlloc || op.state is Copy,
    ensures
        ({
            let (op2, w2) = populate_turn(op, w, s.space, fresh[0]);
            holds(s, op2, w2, turn_memory(op, mem, fresh[0], s.file), turn_fresh(op, fresh))
        }),
{
    let (op2, w2) = populate_turn(op, w, s.space, fresh[0]);
    let mem2 = turn_memory(op, mem, fresh[0], s.file);
    let key = (s.space, op.pages.next);
    op.pages.lemma_rest();
    if op.state is CopyAlloc {
        lemma_take_fresh(fresh, w.entries);
    } else {
        let copy = op.state->Copy_copy;
        let shared = op.state->Copy_shared;
        lemma_elsewhere(s, w.entries, mem, mem2, copy);
        assert(w.entries.contains_key(key));
        assert(shared != copy);
    }
}

/// Any other turn.
proof fn lemma_turn_entry(s: Start, op: CowPopulate, w: World, mem: Memory, fresh: Seq<usize>)
    requires
        holds(s, op, w, mem, fresh),
        !(op.state is Alloc || op.state is Read || op.state is CopyAlloc || op.state is Copy),
    ensures
        ({
            let (op2, w2) = populate_turn(op, w, s.space, fresh[0]);
            holds(s, op2, w2, turn_memory(op, mem, fresh[0], s.file), turn_fresh(op, fresh))
        }),
{
    let (op2, w2) = populate_turn(op, w, s.space, fresh[0]);
    let key = (s.space, op.pages.next);
    let served = op.flags.contains(op.access);
    match op.state {
        PopulateState::Query => {
            op.pages.lemma_rest();
            if w.entries.contains_key(key) {
                let pte = w.entries[key];
                if !(op.access.writable() && !pte.flags.writable()) {
                    lemma_move_on(s, op, w, mem, fresh, op2, w2, pte.flags.contains(op.access));
                }
            }
        },
        PopulateState::MapFrame { frame } => {
            let pte = Pte { paddr: frame, flags: op.flags, size: op.pages.size };
            lemma_entry(s, op, w, mem, fresh, op2, w2, pte, served);
        },
        PopulateState::Protect => {
            op.pages.lemma_rest();
            let old_pte = w.entries[key];
            let pte = Pte { paddr: old_pte.paddr, flags: op.flags, size: old_pte.size };
            if fresh.contains(pte.paddr) {
                let i = choose|i: int| 0 <= i < fresh.len() && fresh[i] == pte.paddr;
                assert(nowhere(fresh[i], w.entries));
            }
            lemma_entry(s, op, w, mem, fresh, op2, w2, pte, served);
        },
        PopulateState::Remap { shared, copy } => {
            let pte = Pte { paddr: copy, flags: op.flags, size: w.entries[key].size };
            lemma_entry(s, op, w, mem, fresh, op2, w2, pte, served);
        },
        PopulateState::Free { .. } => {
            lemma_move_on(s, op, w, mem, fresh, op2, w2, served);
        },
        _ => {},
    }
}

/// What holds before a run holds behind it.
proof fn lemma_run(s: Start, op: CowPopulate, w: World, mem: Memory, fresh: Seq<usize>, n: nat)
    requires
        holds(s, op, w, mem, fresh),
    ensures
        ({
            let (op2, w2) = populate_turns(op, w, s.space, fresh, n);
            let mem2 = populate_memory(op, w, mem, s.space, fresh, s.file, n);
            &&& kept(s.entries, s.mem, w2.entries, mem2)
            &&& filled(s.backend, s.file, s.entries, w2.entries, mem2, s.space)
        }),
    decreases n,
{
    if n > 0 {
        let (op2, w2) = populate_turn(op, w, s.space, fresh[0]);
        let mem2 = turn_memory(op, mem, fresh[0], s.file);
        let left = turn_fresh(op, fresh);
        if op.state is Alloc || op.state is Read {
            lemma_turn_new(s, op, w, mem, fresh);
        } else if op.state is CopyAlloc || op.state is Copy {
            lemma_turn_copy(s, op, w, mem, fresh);
        } else {
            lemma_turn_entry(s, op, w, mem, fresh);
        }
        lemma_run(s, op2, w2, mem2, left, (n - 1) as nat);
    }
}

/// Populating changes no byte that a page holds, in this or in another address space: a
/// page that leaves a shared frame takes the contents along. A page that was not mapped
/// holds the bytes of the file that belong there, and zeros everywhere else.
pub proof fn law_populate_contents(
    backend: CowBackend,
    range: VirtAddrRange,
    flags: MappingFlags,
    access: MappingFlags,
    w: World,
    mem: Memory,
    space: int,
    fresh: Seq<usize>,
    file: Seq<u8>,
    n: nat,
)
    requires
        spec_pages_in(range, backend.size) is Ok,
        w.sound(),
        w.sizes_fit(space, spec_pages_in(range, backend.size)->Ok_0),
        unused(fresh, w.counts),
        fresh.len() >= spec_pages_in(range, backend.size)->Ok_0.count(),
        files_fit(CowPopulate::of(backend, range, flags, access)),
        n >= 4 * spec_pages_in(range, backend.size)->Ok_0.count(),
    ensures
        ({
            let pages = spec_pages_in(range, backend.size)->Ok_0;
            let op = CowPopulate::of(backend, range, flags, access);
            let (op2, w2) = populate_turns(op, w, space, fresh, n);
            let mem2 = populate_memory(op, w, mem, space, fresh, file, n);
            &&& op2.state matches PopulateState::Done(Ok(_))
            &&& forall|k: PageKey, i: int|
                w.entries.contains_key(k) && 0 <= i < w.entries[k].size.bytes() ==> #[trigger]
                page_byte(w2.entries, mem2, k, i) == page_byte(w.entries, mem, k, i)
            &&& forall|v: usize, i: int|
                pages.has(v) && !w.entries.contains_key((space, v)) && 0 <= i
                    < backend.size.bytes() ==> #[trigger] page_byte(
                    w2.entries,
                    mem2,
                    (space, v),
                    i,
                ) == backend.first_byte(v, file, i)
        }),
{
    let pages = spec_pages_in(range, backend.size)->Ok_0;
    let op = CowPopulate::of(backend, range, flags, access);
    let s = Start { backend, entries: w.entries, mem, file, space };
    pages.lemma_count();
    assert forall|i: int| 0 <= i < fresh.len() implies nowhere(#[trigger] fresh[i], w.entries) by {
        assert forall|k: PageKey| #[trigger] w.entries.contains_key(k) implies w.entries[k].paddr
            != fresh[i] by {
            lemma_mapped_frame_in_table(w.entries, w.counts, k);
        }
    }
    law_populate(backend, range, flags, access, w, space, fresh, n);
    lemma_run(s, op, w, mem, fresh, n);
}

/// Writing one byte of a page.
pub open spec fn write_byte(entries: Entries, mem: Memory, key: PageKey, at: int, byte: u8) -> Memory {
    |p: usize, i: int|
        if p == entries[key].paddr && i == at {
            byte
        } else {
            mem(p, i)
        }
}

/// Changes are private: what is written to a page that can be written is read back from
/// it, and no other page, in this or in another address space, holds anything else than
/// before.
pub proof fn law_writes_are_private(w: World, mem: Memory, key: PageKey, at: int, byte: u8)
    requires
        w.sound(),
        w.exclusive(),
        w.entries.contains_key(key),
        w.entries[key].flags.writable(),
    ensures
        ({
            let mem2 = write_byte(w.entries, mem, key, at, byte);
            &&& page_byte(w.entries, mem2, key, at) == byte
            &&& forall|k: PageKey, i: int|
                w.entries.contains_key(k) && (k != key || i != at) ==> #[trigger] page_byte(
                    w.entries,
                    mem2,
                    k,
                    i,
                ) == page_byte(w.entries, mem, k, i)
        }),
{
    let mem2 = write_byte(w.entries, mem, key, at, byte);
    assert forall|k: PageKey, i: int|
        w.entries.contains_key(k) && (k != key || i != at) implies #[trigger] page_byte(
        w.entries,
        mem2,
        k,
        i,
    ) == page_byte(w.entries, mem, k, i) by {
        if k != key && w.entries[k].paddr == w.entries[key].paddr {
            lemma_two_holders(w.entries, w.counts, key, k);
        }
    }
}

/// A page that is discarded and used again begins anew: it holds the bytes of the file
/// that belong there, and zeros everywhere else.
pub proof fn law_zap_then_populate(
    backend: CowBackend,
    range: VirtAddrRange,
    flags: MappingFlags,
    access: MappingFlags,
    w: World,
    mem: Memory,
    space: int,
    fresh: Seq<usize>,
    file: Seq<u8>,
    n: nat,
)
    requires
        spec_pages_in(range, backend.size) is Ok,
        w.sound(),
        w.sizes_fit(space, spec_pages_in(range, backend.size)->Ok_0),
        fresh.len() >= spec_pages_in(range, backend.size)->Ok_0.count(),
        files_fit(CowPopulate::of(backend, range, flags, access)),
        n >= 4 * spec_pages_in(range, backend.size)->Ok_0.count(),
        unused(fresh, zap_turns(CowZap::of(range, backend.size), w, space, n).1.counts),
    ensures
        ({
            let pages = spec_pages_in(range, backend.size)->Ok_0;
            let (_, w1) = zap_turns(CowZap::of(range, backend.size), w, space, n);
            let op = CowPopulate::of(backend, range, flags, access);
            let (op2, w2) = populate_turns(op, w1, space, fresh, n);
            let mem2 = populate_memory(op, w1, mem, space, fresh, file, n);
            &&& op2.state matches PopulateState::Done(Ok(_))
            &&& forall|v: usize, i: int|
                pages.has(v) && 0 <= i < backend.size.bytes() ==> #[trigger] page_byte(
                    w2.entries,
                    mem2,
                    (space, v),
                    i,
                ) == backend.first_byte(v, file, i)
        }),
{
    let (_, w1) = zap_turns(CowZap::of(range, backend.size), w, space, n);
    law_zap(range, backend.size, w, space, n);
    law_populate_contents(backend, range, flags, access, w1, mem, space, fresh, file, n);
}

/// A duplicate holds what the mapping holds: each mapped page of the range has the same
/// bytes in both address spaces as before.
pub proof fn law_clone_contents(
    range: VirtAddrRange,
    size: PageSize,
    flags: MappingFlags,
    w: World,
    mem: Memory,
    space: int,
    new_space: int,
    n: nat,
)
    requires
        spec_pages_in(range, size) is Ok,
        space != new_space,
        w.sound(),
        w.sizes_fit(space, spec_pages_in(range, size)->Ok_0),
        forall|v: usize| #[trigger]
            spec_pages_in(range, size)->Ok_0.has(v) ==> !w.entries.contains_key((new_space, v)),
        room_for(w, space, spec_pages_in(range, size)->Ok_0),
        n >= 3 * spec_pages_in(range, size)->Ok_0.count(),
    ensures
        ({
            let pages = spec_pages_in(range, size)->Ok_0;
            let (op, counts) = CowClone::of(range, size, flags, w.counts);
            let (_, w2) = clone_turns(
                op,
                World { entries: w.entries, counts },
                space,
                new_space,
                n,
            );
            forall|v: usize, i: int|
                pages.has(v) && w.entries.contains_key((space, v)) ==> {
                    &&& page_byte(w2.entries, mem, (space, v), i) == page_byte(
                        w.entries,
                        mem,
                        (space, v),
                        i,
                    )
                    &&& #[trigger] page_byte(w2.entries, mem, (new_space, v), i) == page_byte(
                        w.entries,
                        mem,
                        (space, v),
                        i,
                    )
                }
        }),
{
    law_clone(range, size, flags, w, space, new_space, n);
}

} // verus!
