//! Reference counts of the physical frames behind copy-on-write mappings.
use vstd::prelude::*;

use crate::backend::ops::{Entries, PageKey, Pte};

verus! {

/// A hash map from the address of a frame to its reference count.
#[verifier::external_body]
pub struct FrameMap {
    inner: hashbrown::HashMap<usize, u32>,
}

/// The counts that a frame map holds.
pub uninterp spec fn frame_counts(map: FrameMap) -> Map<usize, u32>;

/// No counts at all.
pub open spec fn no_counts() -> Map<usize, u32> {
    Map::empty()
}

/// The count stored for a frame, if there is one.
pub open spec fn count_of(counts: Map<usize, u32>, paddr: usize) -> Option<u32> {
    if counts.contains_key(paddr) {
        Some(counts[paddr])
    } else {
        None
    }
}

impl FrameMap {
    /// Calls `hashbrown::HashMap::new`, which makes an empty map.
    #[verifier::external_body]
    fn new() -> (r: FrameMap)
        ensures
            frame_counts(r) == no_counts(),
    {
        FrameMap { inner: hashbrown::HashMap::new() }
    }

    /// Calls `hashbrown::HashMap::get`: the value stored under the key, copied out.
    #[verifier::external_body]
    fn get(&self, paddr: usize) -> (r: Option<u32>)
        ensures
            r == count_of(frame_counts(*self), paddr),
    {
        self.inner.get(&paddr).copied()
    }

    /// Calls `hashbrown::HashMap::insert`: stores the value under the key, in place of any
    /// value that was there.
    #[verifier::external_body]
    fn insert(&mut self, paddr: usize, count: u32)
        ensures
            frame_counts(*final(self)) == frame_counts(*old(self)).insert(paddr, count),
    {
        self.inner.insert(paddr, count);
    }

    /// Calls `hashbrown::HashMap::remove`: takes the key out, if it is there.
    #[verifier::external_body]
    fn remove(&mut self, paddr: usize)
        ensures
            frame_counts(*final(self)) == frame_counts(*old(self)).remove(paddr),
    {
        self.inner.remove(&paddr);
    }
}

/// Every frame in the table is referenced.
pub open spec fn counts_wf(counts: Map<usize, u32>) -> bool {
    forall|p: usize| #[trigger] counts.contains_key(p) ==> counts[p] > 0
}

/// The counts after one more reference to `paddr`.
pub open spec fn retained(counts: Map<usize, u32>, paddr: usize) -> Map<usize, u32> {
    counts.insert(paddr, (counts[paddr] + 1) as u32)
}

/// The counts after one reference to `paddr` less; the last one takes the frame out.
pub open spec fn released(counts: Map<usize, u32>, paddr: usize) -> Map<usize, u32> {
    if counts[paddr] == 1 {
        counts.remove(paddr)
    } else {
        counts.insert(paddr, (counts[paddr] - 1) as u32)
    }
}

/// The reference counts of all frames in use by copy-on-write mappings.
pub struct FrameTableRefCount {
    table: FrameMap,
}

impl View for FrameTableRefCount {
    type V = Map<usize, u32>;

    closed spec fn view(&self) -> Map<usize, u32> {
        frame_counts(self.table)
    }
}

/// Count of a frame that has just been put into use.
pub const INITIAL_CNT: u32 = 1;

impl FrameTableRefCount {
    /// Every frame in the table is referenced.
    pub open spec fn wf(&self) -> bool {
        counts_wf(self@)
    }

    /// A table without frames.
    pub fn new() -> (r: FrameTableRefCount)
        ensures
            r.wf(),
            r@ == no_counts(),
    {
        FrameTableRefCount { table: FrameMap::new() }
    }

    /// The number of references to a frame, if the frame is in the table.
    pub fn get_frame_ref(&self, paddr: usize) -> (r: Option<u32>)
        ensures
            r == count_of(self@, paddr),
    {
        self.table.get(paddr)
    }

    /// Puts a frame into use, with one reference.
    pub fn init_frame(&mut self, paddr: usize)
        requires
            old(self).wf(),
            !old(self)@.contains_key(paddr),
        ensures
            final(self).wf(),
            final(self)@ == old(self)@.insert(paddr, INITIAL_CNT),
    {
        self.table.insert(paddr, INITIAL_CNT);
    }

    /// Takes a frame out of the table.
    pub fn remove_frame(&mut self, paddr: usize)
        requires
            old(self).wf(),
            old(self)@.contains_key(paddr),
        ensures
            final(self).wf(),
            final(self)@ == old(self)@.remove(paddr),
    {
        self.table.remove(paddr);
    }

    /// Adds a reference to a frame in use. Does nothing and returns `false` where the
    /// count is at its limit.
    pub fn add_ref(&mut self, paddr: usize) -> (r: bool)
        requires
            old(self).wf(),
            old(self)@.contains_key(paddr),
        ensures
            final(self).wf(),
            r == (old(self)@[paddr] < u32::MAX),
            r ==> final(self)@ == retained(old(self)@, paddr),
            !r ==> final(self)@ == old(self)@,
    {
        match self.table.get(paddr) {
            Some(count) if count < u32::MAX => {
                self.table.insert(paddr, count + 1);
                true
            },
            _ => false,
        }
    }

    /// Drops a reference to a frame in use. With the last one the frame leaves the table
    /// and `true` is returned: its memory is then to be given back.
    pub fn drop_frame(&mut self, paddr: usize) -> (r: bool)
        requires
            old(self).wf(),
            old(self)@.contains_key(paddr),
        ensures
            final(self).wf(),
            final(self)@ == released(old(self)@, paddr),
            r == (old(self)@[paddr] == 1),
    {
        match self.table.get(paddr) {
            Some(count) if count > 1 => {
                self.table.insert(paddr, count - 1);
                false
            },
            _ => {
                self.remove_frame(paddr);
                true
            },
        }
    }
}

/// The pages that map a frame.
pub open spec fn holders(entries: Entries, paddr: usize) -> Set<PageKey> {
    entries.dom().filter(|k: PageKey| entries[k].paddr == paddr)
}

/// The count of a frame as a number: zero for a frame that is not in the table.
pub open spec fn refs_to(counts: Map<usize, u32>, paddr: usize) -> nat {
    if counts.contains_key(paddr) {
        counts[paddr] as nat
    } else {
        0
    }
}

/// The counts are those of the page tables: each frame is counted once for each page that
/// maps it.
pub open spec fn accounts_for(entries: Entries, counts: Map<usize, u32>) -> bool {
    &&& entries.dom().finite()
    &&& counts_wf(counts)
    &&& forall|p: usize| (#[trigger] holders(entries, p)).len() == refs_to(counts, p)
}

/// A page that can be written is the only one that maps its frame.
pub open spec fn writers_exclusive(entries: Entries, counts: Map<usize, u32>) -> bool {
    forall|k: PageKey|
        #[trigger] entries.contains_key(k) && entries[k].flags.writable() ==> refs_to(
            counts,
            entries[k].paddr,
        ) == 1
}

proof fn lemma_holders_finite(entries: Entries, p: usize)
    requires
        entries.dom().finite(),
    ensures
        holders(entries, p).finite(),
{
    entries.dom().lemma_len_filter(|k: PageKey| entries[k].paddr == p);
}

/// A mapped frame is in the table.
pub proof fn lemma_mapped_frame_in_table(entries: Entries, counts: Map<usize, u32>, key: PageKey)
    requires
        accounts_for(entries, counts),
        entries.contains_key(key),
    ensures
        counts.contains_key(entries[key].paddr),
{
    let p = entries[key].paddr;
    lemma_holders_finite(entries, p);
    assert(holders(entries, p).contains(key));
    assert(holders(entries, p).len() > 0);
}

/// Two pages that map the same frame are both counted.
pub proof fn lemma_two_holders(entries: Entries, counts: Map<usize, u32>, a: PageKey, b: PageKey)
    requires
        accounts_for(entries, counts),
        entries.contains_key(a),
        entries.contains_key(b),
        a != b,
        entries[a].paddr == entries[b].paddr,
    ensures
        refs_to(counts, entries[a].paddr) >= 2,
{
    let p = entries[a].paddr;
    let h = holders(entries, p);
    lemma_holders_finite(entries, p);
    assert(h.contains(a));
    assert(h.remove(a).contains(b));
    assert(h.remove(a).len() > 0);
}

/// Mapping a fresh frame at an unmapped page keeps the accounts, and no other page can
/// write to the frame.
pub proof fn lemma_map_fresh(entries: Entries, counts: Map<usize, u32>, key: PageKey, pte: Pte)
    requires
        accounts_for(entries, counts),
        !entries.contains_key(key),
        !counts.contains_key(pte.paddr),
    ensures
        accounts_for(entries.insert(key, pte), counts.insert(pte.paddr, INITIAL_CNT)),
        writers_exclusive(entries, counts) ==> writers_exclusive(
            entries.insert(key, pte),
            counts.insert(pte.paddr, INITIAL_CNT),
        ),
{
    let entries2 = entries.insert(key, pte);
    let counts2 = counts.insert(pte.paddr, INITIAL_CNT);
    assert forall|p: usize| (#[trigger] holders(entries2, p)).len() == refs_to(counts2, p) by {
        lemma_holders_finite(entries, p);
        assert(holders(entries, p).len() == refs_to(counts, p));
        if p == pte.paddr {
            assert(holders(entries2, p) =~= holders(entries, p).insert(key));
        } else {
            assert(holders(entries2, p) =~= holders(entries, p));
        }
    }
    if writers_exclusive(entries, counts) {
        assert forall|k: PageKey|
            #[trigger] entries2.contains_key(k) && entries2[k].flags.writable() implies refs_to(
            counts2,
            entries2[k].paddr,
        ) == 1 by {
            if k != key {
                assert(entries.contains_key(k));
                lemma_mapped_frame_in_table(entries, counts, k);
            }
        }
    }
}

/// Mapping a frame in use at one more page, and counting the reference, keeps the
/// accounts.
pub proof fn lemma_map_shared(entries: Entries, counts: Map<usize, u32>, key: PageKey, pte: Pte)
    requires
        accounts_for(entries, counts),
        !entries.contains_key(key),
        counts.contains_key(pte.paddr),
        counts[pte.paddr] < u32::MAX,
    ensures
        accounts_for(entries.insert(key, pte), retained(counts, pte.paddr)),
{
    let entries2 = entries.insert(key, pte);
    let counts2 = retained(counts, pte.paddr);
    assert forall|p: usize| (#[trigger] holders(entries2, p)).len() == refs_to(counts2, p) by {
        lemma_holders_finite(entries, p);
        assert(holders(entries, p).len() == refs_to(counts, p));
        if p == pte.paddr {
            assert(holders(entries2, p) =~= holders(entries, p).insert(key));
        } else {
            assert(holders(entries2, p) =~= holders(entries, p));
        }
    }
}

/// Changing the permissions of a page keeps the accounts.
pub proof fn lemma_protect(entries: Entries, counts: Map<usize, u32>, key: PageKey, pte: Pte)
    requires
        accounts_for(entries, counts),
        entries.contains_key(key),
        pte.paddr == entries[key].paddr,
    ensures
        accounts_for(entries.insert(key, pte), counts),
        writers_exclusive(entries, counts) && (pte.flags.writable() ==> counts[pte.paddr] == 1)
            ==> writers_exclusive(entries.insert(key, pte), counts),
{
    let entries2 = entries.insert(key, pte);
    lemma_mapped_frame_in_table(entries, counts, key);
    assert(entries2.dom() =~= entries.dom());
    assert forall|p: usize| (#[trigger] holders(entries2, p)).len() == refs_to(counts, p) by {
        assert(holders(entries, p).len() == refs_to(counts, p));
        assert(holders(entries2, p) =~= holders(entries, p));
    }
    if writers_exclusive(entries, counts) && (pte.flags.writable() ==> counts[pte.paddr] == 1) {
        assert forall|k: PageKey|
            #[trigger] entries2.contains_key(k) && entries2[k].flags.writable() implies refs_to(
            counts,
            entries2[k].paddr,
        ) == 1 by {
            assert(entries.contains_key(k));
        }
    }
}

/// Unmapping a page, and dropping its reference, keeps the accounts.
pub proof fn lemma_unmap(entries: Entries, counts: Map<usize, u32>, key: PageKey)
    requires
        accounts_for(entries, counts),
        entries.contains_key(key),
    ensures
        counts.contains_key(entries[key].paddr),
        accounts_for(entries.remove(key), released(counts, entries[key].paddr)),
        writers_exclusive(entries, counts) ==> writers_exclusive(
            entries.remove(key),
            released(counts, entries[key].paddr),
        ),
{
    let paddr = entries[key].paddr;
    let entries2 = entries.remove(key);
    let counts2 = released(counts, paddr);
    lemma_mapped_frame_in_table(entries, counts, key);
    assert forall|p: usize| (#[trigger] holders(entries2, p)).len() == refs_to(counts2, p) by {
        lemma_holders_finite(entries, p);
        assert(holders(entries, p).len() == refs_to(counts, p));
        if p == paddr {
            assert(holders(entries2, p) =~= holders(entries, p).remove(key));
        } else {
            assert(holders(entries2, p) =~= holders(entries, p));
        }
    }
    if writers_exclusive(entries, counts) {
        assert forall|k: PageKey|
            #[trigger] entries2.contains_key(k) && entries2[k].flags.writable() implies refs_to(
            counts2,
            entries2[k].paddr,
        ) == 1 by {
            assert(entries.contains_key(k));
            if entries[k].paddr == paddr {
                lemma_two_holders(entries, counts, key, k);
            }
        }
    }
}

/// Putting a frame into use and dropping its only reference gives the table back as it was.
pub proof fn law_drop_undoes_init(counts: Map<usize, u32>, paddr: usize)
    requires
        !counts.contains_key(paddr),
    ensures
        released(counts.insert(paddr, INITIAL_CNT), paddr) == counts,
{
    assert(released(counts.insert(paddr, INITIAL_CNT), paddr) =~= counts);
}

/// Adding a reference and dropping it again gives the table back as it was.
pub proof fn law_drop_undoes_retain(counts: Map<usize, u32>, paddr: usize)
    requires
        counts_wf(counts),
        counts.contains_key(paddr),
        counts[paddr] < u32::MAX,
    ensures
        released(retained(counts, paddr), paddr) == counts,
{
    assert(released(retained(counts, paddr), paddr) =~= counts);
}

/// What the table says of a frame `other` when a frame is put into use, gets a reference or
/// loses one: of the frame itself one, one more, or one less and nothing after the last; of
/// any other frame what it said before.
pub proof fn law_counts(counts: Map<usize, u32>, paddr: usize, other: usize)
    ensures
        count_of(no_counts(), other) is None,
        count_of(counts.insert(paddr, INITIAL_CNT), paddr) == Some(1u32),
        counts.contains_key(paddr) && counts[paddr] < u32::MAX ==> (count_of(
            retained(counts, paddr),
            paddr,
        ) matches Some(count) && count == counts[paddr] + 1),
        counts.contains_key(paddr) && counts[paddr] == 1 ==> count_of(
            released(counts, paddr),
            paddr,
        ) is None,
        counts.contains_key(paddr) && counts[paddr] > 1 ==> (count_of(
            released(counts, paddr),
            paddr,
        ) matches Some(count) && count + 1 == counts[paddr]),
        other != paddr ==> count_of(counts.insert(paddr, INITIAL_CNT), other) == count_of(
            counts,
            other,
        ),
        other != paddr ==> count_of(retained(counts, paddr), other) == count_of(counts, other),
        other != paddr ==> count_of(released(counts, paddr), other) == count_of(counts, other),
        count_of(counts, other) is Some <==> counts.contains_key(other),
        count_of(counts, other) matches Some(count) ==> count == counts[other],
{
}

} // verus!
