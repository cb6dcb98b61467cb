//! Scattered memory: arrays of I/O vectors and positions in them.
use vstd::prelude::*;

use crate::error::{AxError, AxResult};

verus! {

/// A region of user memory.
#[derive(Clone, Copy, PartialEq, Eq, Structural, Debug)]
pub struct IoVec {
    /// Address of the first byte.
    pub iov_base: usize,
    /// Number of bytes.
    pub iov_len: isize,
}

impl IoVec {
    /// The number of bytes is not negative.
    pub open spec fn ok(self) -> bool {
        self.iov_len >= 0
    }

    /// The addresses of the bytes, in order.
    pub open spec fn bytes(self) -> Seq<usize> {
        Seq::new(self.iov_len as nat, |i: int| addr_at(self.iov_base, i))
    }
}

/// The address `i` bytes behind `base`, for `i` up to the highest address; addresses wrap
/// around.
pub open spec fn addr_at(base: usize, i: int) -> usize {
    (if base + i <= usize::MAX {
        base + i
    } else {
        base + i - (usize::MAX + 1)
    }) as usize
}

/// No region has a negative length.
pub open spec fn iovs_ok(iovs: Seq<IoVec>) -> bool {
    forall|i: int| 0 <= i < iovs.len() ==> (#[trigger] iovs[i]).ok()
}

/// The addresses of all bytes from region `i` on, in order.
pub open spec fn bytes_from(iovs: Seq<IoVec>, i: int) -> Seq<usize>
    decreases iovs.len() - i,
{
    if i < 0 || i >= iovs.len() {
        Seq::empty()
    } else {
        iovs[i].bytes() + bytes_from(iovs, i + 1)
    }
}

/// The number of bytes in the regions before region `i`.
pub open spec fn length_before(iovs: Seq<IoVec>, i: int) -> int
    decreases i,
{
    if i <= 0 {
        0
    } else {
        length_before(iovs, i - 1) + iovs[i - 1].iov_len
    }
}

/// What is left of a sequence behind its first `n` elements.
pub open spec fn behind(s: Seq<usize>, n: int) -> Seq<usize> {
    if n <= s.len() {
        s.skip(n)
    } else {
        Seq::empty()
    }
}

/// The bytes behind position `off` of region `i`. A position behind the end of a region is
/// one in the regions after it.
pub open spec fn bytes_at(iovs: Seq<IoVec>, i: int, off: int) -> Seq<usize> {
    behind(bytes_from(iovs, i), off)
}

/// The first region from `i` on that is not empty; the number of regions if there is none.
pub open spec fn first_filled(iovs: Seq<IoVec>, i: int) -> int
    decreases iovs.len() - i,
{
    if i < 0 || i >= iovs.len() {
        iovs.len() as int
    } else if iovs[i].iov_len > 0 {
        i
    } else {
        first_filled(iovs, i + 1)
    }
}

/// Regions without bytes can be passed over.
pub proof fn lemma_first_filled(iovs: Seq<IoVec>, i: int)
    requires
        iovs_ok(iovs),
        0 <= i <= iovs.len(),
    ensures
        i <= first_filled(iovs, i) <= iovs.len(),
        bytes_from(iovs, first_filled(iovs, i)) == bytes_from(iovs, i),
        first_filled(iovs, i) < iovs.len() ==> iovs[first_filled(iovs, i)].iov_len > 0,
    decreases iovs.len() - i,
{
    if i < iovs.len() && iovs[i].iov_len <= 0 {
        assert(iovs[i].ok());
        lemma_first_filled(iovs, i + 1);
        assert(iovs[i].bytes() + bytes_from(iovs, i + 1) =~= bytes_from(iovs, i + 1));
    }
}

/// A position behind the end of a region is one in the next region.
proof fn lemma_next_region(iovs: Seq<IoVec>, i: int, off: int)
    requires
        iovs_ok(iovs),
        0 <= i < iovs.len(),
        off >= iovs[i].iov_len,
    ensures
        bytes_at(iovs, i, off) == bytes_at(iovs, i + 1, off - iovs[i].iov_len),
{
    assert(iovs[i].ok());
    let len = iovs[i].iov_len as int;
    let rest = bytes_from(iovs, i + 1);
    assert(bytes_from(iovs, i).len() == len + rest.len());
    if off <= bytes_from(iovs, i).len() {
        assert(bytes_from(iovs, i).skip(off) =~= rest.skip(off - len));
    }
}

/// Checks an array of regions that was read from user memory.
pub fn read_iovecs(loaded: AxResult<Vec<IoVec>>) -> (r: AxResult<Vec<IoVec>>)
    ensures
        match loaded {
            Err(e) => r == Err::<Vec<IoVec>, AxError>(e),
            Ok(iovecs) => if iovs_ok(iovecs@) {
                r == Ok::<Vec<IoVec>, AxError>(iovecs)
            } else {
                r == Err::<Vec<IoVec>, AxError>(AxError::InvalidInput)
            },
        },
{
    let iovecs = match loaded {
        Ok(iovecs) => iovecs,
        Err(e) => {
            return Err(e);
        },
    };
    let mut i: usize = 0;
    while i < iovecs.len()
        invariant
            i <= iovecs.len(),
            loaded == Ok::<Vec<IoVec>, AxError>(iovecs),
            forall|j: int| 0 <= j < i ==> (#[trigger] iovecs@[j]).ok(),
        decreases iovecs.len() - i,
    {
        if iovecs[i].iov_len < 0 {
            assert(!iovecs@[i as int].ok());
            return Err(AxError::InvalidInput);
        }
        i += 1;
    }
    Ok(iovecs)
}

/// Iterator over a slice of regions, tracking the current position.
#[derive(Clone, Copy, Debug)]
pub struct IovecIter<'a> {
    /// The regions.
    pub iovs: &'a [IoVec],
    /// The current region.
    pub idx: usize,
    /// The position in it.
    pub off: usize,
}

impl<'a> IovecIter<'a> {
    /// No region has a negative length, and the position is in some region or at the end.
    pub open spec fn wf(&self) -> bool {
        &&& iovs_ok(self.iovs@)
        &&& self.idx <= self.iovs@.len()
        &&& self.idx < self.iovs@.len() ==> self.off <= self.iovs@[self.idx as int].iov_len
    }

    /// The addresses of the bytes left, in order.
    pub open spec fn left(&self) -> Seq<usize> {
        bytes_at(self.iovs@, self.idx as int, self.off as int)
    }

    /// The position as a number of bytes: those of the regions passed, and those passed in
    /// the current one. Behind the last region it can exceed the number of all bytes.
    pub open spec fn pos(&self) -> int {
        length_before(self.iovs@, self.idx as int) + self.off
    }

    /// What advancing by `n` bytes makes of a position.
    pub open spec fn advanced(&self, n: int, after: &IovecIter) -> bool {
        &&& after.wf()
        &&& after.settled()
        &&& after.iovs@ == self.iovs@
        &&& after.idx >= self.idx
        &&& after.pos() == self.pos() + n
    }

    /// The position is at a byte, or at the end.
    pub open spec fn settled(&self) -> bool {
        self.idx < self.iovs@.len() ==> self.off < self.iovs@[self.idx as int].iov_len
    }

    /// A position before the first byte.
    pub fn new(iovs: &'a [IoVec]) -> (r: IovecIter<'a>)
        requires
            iovs_ok(iovs@),
        ensures
            r.wf(),
            r.iovs == iovs,
            r.idx == 0,
            r.off == 0,
            r.left() == bytes_from(iovs@, 0),
    {
        proof {
            assert(bytes_from(iovs@, 0).skip(0) =~= bytes_from(iovs@, 0));
            if iovs@.len() > 0 {
                assert(iovs@[0].ok());
            }
        }
        IovecIter { iovs, idx: 0, off: 0 }
    }

    /// Where the next byte is: a region and a position in it.
    pub open spec fn place(&self) -> (int, int) {
        if self.idx < self.iovs@.len() && self.off < self.iovs@[self.idx as int].iov_len {
            (self.idx as int, self.off as int)
        } else {
            (first_filled(self.iovs@, self.idx + 1), 0)
        }
    }

    /// Returns the address of the next byte and the number of bytes that follow in its
    /// region, or nothing if no byte is left.
    pub fn next_chunk(&self) -> (r: Option<(usize, usize)>)
        requires
            self.wf(),
        ensures
            r is None <==> self.left().len() == 0,
            r matches Some((addr, avail)) ==> {
                let (i, off) = self.place();
                &&& 0 <= i < self.iovs@.len()
                &&& addr == addr_at(self.iovs@[i].iov_base, off)
                &&& avail == self.iovs@[i].iov_len - off
                &&& 0 < avail <= self.left().len()
                &&& forall|j: int| 0 <= j < avail ==> #[trigger] self.left()[j] == addr_at(addr, j)
            },
    {
        let mut idx: usize = self.idx;
        let mut off: usize = self.off;
        while idx < self.iovs.len()
            invariant
                self.wf(),
                self.idx <= idx <= self.iovs@.len(),
                idx == self.idx ==> off == self.off,
                idx > self.idx ==> off == 0 && self.place() == (
                    first_filled(self.iovs@, idx as int),
                    0int,
                ),
                self.left() == bytes_at(self.iovs@, idx as int, off as int),
                idx < self.iovs@.len() ==> off <= self.iovs@[idx as int].iov_len,
            decreases self.iovs@.len() - idx,
        {
            let iov = self.iovs[idx];
            assert(self.iovs@[idx as int].ok());
            let len: usize = iov.iov_len as usize;
            if off < len {
                proof {
                    assert(bytes_from(self.iovs@, idx as int) == iov.bytes() + bytes_from(
                        self.iovs@,
                        idx + 1,
                    ));
                    assert forall|j: int| 0 <= j < len - off implies #[trigger] self.left()[j]
                        == addr_at(addr_at(iov.iov_base, off as int), j) by {
                        assert(self.left()[j] == iov.bytes()[off + j]);
                        lemma_addr_add(iov.iov_base, off as int, j);
                    }
                }
                return Some((iov.iov_base.wrapping_add(off), len - off));
            }
            proof {
                lemma_next_region(self.iovs@, idx as int, off as int);
                if idx + 1 < self.iovs@.len() {
                    assert(self.iovs@[idx + 1].ok());
                }
            }
            idx += 1;
            off = 0;
        }
        None
    }

    /// Advance the position by `n` bytes.
    pub fn advance(&mut self, n: usize)
        requires
            iovs_ok(old(self).iovs@),
            old(self).idx <= old(self).iovs@.len(),
            old(self).off + n <= usize::MAX,
        ensures
            old(self).advanced(n as int, final(self)),
            final(self).iovs == old(self).iovs,
            final(self).left() == behind(old(self).left(), n as int),
    {
        let ghost start = *self;
        proof {
            let all = bytes_from(self.iovs@, self.idx as int);
            let off = self.off as int;
            if off + n <= all.len() {
                assert(all.skip(off).skip(n as int) =~= all.skip(off + n));
            } else if off <= all.len() {
                assert(all.skip(off).len() == all.len() - off);
            }
        }
        self.off = self.off + n;
        while self.idx < self.iovs.len()
            invariant_except_break
                iovs_ok(self.iovs@),
                self.iovs == start.iovs,
                start.idx <= self.idx <= self.iovs@.len(),
                self.pos() == start.pos() + n,
                self.left() == behind(start.left(), n as int),
            ensures
                iovs_ok(self.iovs@),
                self.iovs == start.iovs,
                start.idx <= self.idx <= self.iovs@.len(),
                self.pos() == start.pos() + n,
                self.left() == behind(start.left(), n as int),
                self.settled(),
            decreases self.iovs@.len() - self.idx,
        {
            assert(self.iovs@[self.idx as int].ok());
            let len: usize = self.iovs[self.idx].iov_len as usize;
            if self.off < len {
                break;
            }
            proof {
                lemma_next_region(self.iovs@, self.idx as int, self.off as int);
            }
            self.off = self.off - len;
            self.idx = self.idx + 1;
        }
    }
}

/// Going on twice is going on by the sum.
pub proof fn lemma_addr_add(base: usize, a: int, b: int)
    requires
        a >= 0,
        b >= 0,
        a + b <= usize::MAX,
    ensures
        addr_at(addr_at(base, a), b) == addr_at(base, a + b),
{
}

/// More regions have no fewer bytes.
proof fn lemma_length_before(iovs: Seq<IoVec>, i: int, j: int)
    requires
        iovs_ok(iovs),
        0 <= i <= j <= iovs.len(),
    ensures
        length_before(iovs, i) <= length_before(iovs, j),
    decreases j - i,
{
    if i < j {
        lemma_length_before(iovs, i, j - 1);
        assert(iovs[j - 1].ok());
    }
}

/// The bytes before a region and those from it on are all bytes.
proof fn lemma_length_from(iovs: Seq<IoVec>, i: int)
    requires
        iovs_ok(iovs),
        0 <= i <= iovs.len(),
    ensures
        length_before(iovs, i) + bytes_from(iovs, i).len() == bytes_from(iovs, 0).len(),
    decreases i,
{
    if i > 0 {
        lemma_length_from(iovs, i - 1);
        assert(iovs[i - 1].ok());
    }
}

/// A settled position is given by its number of bytes.
proof fn lemma_settled(x: &IovecIter, y: &IovecIter)
    requires
        x.wf(),
        y.wf(),
        x.settled(),
        y.settled(),
        x.iovs@ == y.iovs@,
        x.pos() == y.pos(),
        x.idx <= y.idx,
    ensures
        x.idx == y.idx,
        x.off == y.off,
{
    if x.idx < y.idx {
        lemma_length_before(x.iovs@, x.idx + 1, y.idx as int);
    }
}

/// Advancing twice is advancing by the sum, and advancing by nothing after that changes
/// nothing.
pub proof fn law_advance_twice(
    start: &IovecIter,
    once: &IovecIter,
    twice: &IovecIter,
    sum: &IovecIter,
    a: int,
    b: int,
)
    requires
        a >= 0,
        b >= 0,
        start.advanced(a, once),
        once.advanced(b, twice),
        start.advanced(a + b, sum),
    ensures
        twice.idx == sum.idx,
        twice.off == sum.off,
        b == 0 ==> twice.idx == once.idx && twice.off == once.off,
{
    if twice.idx <= sum.idx {
        lemma_settled(twice, sum);
    } else {
        lemma_settled(sum, twice);
    }
    if b == 0 {
        lemma_settled(once, twice);
    }
}

/// No byte is left exactly if the position is behind all bytes.
pub proof fn law_exhausted(iter: &IovecIter)
    requires
        iter.wf(),
    ensures
        iter.left().len() == 0 <==> iter.pos() >= bytes_from(iter.iovs@, 0).len(),
{
    lemma_length_from(iter.iovs@, iter.idx as int);
}

/// One region more has its bytes behind those of the others.
proof fn lemma_bytes_push(iovs: Seq<IoVec>, last: IoVec, i: int)
    requires
        0 <= i <= iovs.len(),
    ensures
        bytes_from(iovs.push(last), i) == bytes_from(iovs, i) + last.bytes(),
    decreases iovs.len() - i,
{
    let all = iovs.push(last);
    if i < iovs.len() {
        lemma_bytes_push(iovs, last, i + 1);
        assert(all[i] == iovs[i]);
        assert(iovs[i].bytes() + (bytes_from(iovs, i + 1) + last.bytes()) =~= (iovs[i].bytes()
            + bytes_from(iovs, i + 1)) + last.bytes());
    } else {
        assert(bytes_from(all, i + 1) =~= Seq::empty());
        assert(bytes_from(all, i) =~= last.bytes());
        assert(bytes_from(iovs, i) + last.bytes() =~= last.bytes());
    }
}

/// The regions that are not empty.
pub open spec fn without_empty(iovs: Seq<IoVec>) -> Seq<IoVec> {
    iovs.filter(|v: IoVec| v.iov_len != 0)
}

/// Leaving empty regions out leaves all bytes, in their order.
pub proof fn law_empty_regions(iovs: Seq<IoVec>)
    requires
        iovs_ok(iovs),
    ensures
        iovs_ok(without_empty(iovs)),
        bytes_from(without_empty(iovs), 0) == bytes_from(iovs, 0),
        without_empty(iovs).len() <= iovs.len(),
    decreases iovs.len(),
{
    reveal(Seq::filter);
    if iovs.len() > 0 {
        let most = iovs.drop_last();
        let last = iovs.last();
        assert(last.ok());
        assert forall|i: int| 0 <= i < most.len() implies (#[trigger] most[i]).ok() by {
            assert(iovs[i].ok());
        }
        law_empty_regions(most);
        lemma_bytes_push(most, last, 0);
        assert(most.push(last) =~= iovs);
        let kept = without_empty(most);
        if last.iov_len != 0 {
            lemma_bytes_push(kept, last, 0);
            assert(without_empty(iovs) == kept.push(last));
            assert forall|i: int| 0 <= i < kept.push(last).len() implies (
            #[trigger] kept.push(last)[i]).ok() by {
                if i < kept.len() {
                    assert(kept[i].ok());
                }
            }
        } else {
            assert(last.bytes() =~= Seq::empty());
            assert(bytes_from(most, 0) + last.bytes() =~= bytes_from(most, 0));
        }
    }
}

/// The bytes of a region are as many as its length says, one address after the other from
/// its base on; behind the highest address they go on at the lowest.
pub proof fn law_region(region: IoVec, j: int)
    requires
        0 <= j < region.iov_len,
    ensures
        region.bytes().len() == region.iov_len,
        region.iov_base + j <= usize::MAX ==> region.bytes()[j] == region.iov_base + j,
        region.iov_base + j > usize::MAX ==> region.bytes()[j] == region.iov_base + j - usize::MAX
            - 1,
{
}

/// The bytes of all regions are those of the first one, then those of the second, and so
/// on: byte `o` of region `r` is behind all bytes of the regions before it.
pub proof fn law_bytes(iovs: Seq<IoVec>, r: int, o: int)
    requires
        forall|i: int| 0 <= i < iovs.len() ==> (#[trigger] iovs[i]).iov_len >= 0,
        0 <= r < iovs.len(),
        0 <= o < iovs[r].iov_len,
    ensures
        iovs_ok(iovs),
        length_before(iovs, r) + o < bytes_from(iovs, 0).len(),
        bytes_from(iovs, 0)[length_before(iovs, r) + o] == iovs[r].bytes()[o],
        bytes_from(iovs, 0).len() == length_before(iovs, iovs.len() as int),
{
    assert forall|i: int| 0 <= i < iovs.len() implies (#[trigger] iovs[i]).ok() by {
        assert(iovs[i].iov_len >= 0);
    }
    lemma_length_from(iovs, iovs.len() as int);
    lemma_length_from(iovs, r);
    lemma_bytes_behind(iovs, r);
    let b = length_before(iovs, r);
    lemma_length_before(iovs, 0, r);
    assert(bytes_from(iovs, r)[o] == bytes_from(iovs, 0).skip(b)[o]);
}

/// Leaving out the bytes before a region leaves those from it on.
proof fn lemma_bytes_behind(iovs: Seq<IoVec>, i: int)
    requires
        iovs_ok(iovs),
        0 <= i <= iovs.len(),
    ensures
        0 <= length_before(iovs, i) <= bytes_from(iovs, 0).len(),
        bytes_from(iovs, i) == bytes_from(iovs, 0).skip(length_before(iovs, i)),
    decreases i,
{
    lemma_length_from(iovs, i);
    lemma_length_before(iovs, 0, i);
    let all = bytes_from(iovs, 0);
    if i > 0 {
        lemma_bytes_behind(iovs, i - 1);
        lemma_length_from(iovs, i - 1);
        assert(iovs[i - 1].ok());
        let b = length_before(iovs, i - 1);
        let len = iovs[i - 1].iov_len as int;
        assert(bytes_from(iovs, i - 1).skip(len) =~= bytes_from(iovs, i));
        assert(all.skip(b).skip(len) =~= all.skip(b + len));
    } else {
        assert(all.skip(0) =~= all);
    }
}

/// The number of bytes before a region is that before the one in front of it and the length
/// of that one.
pub proof fn law_length_before(iovs: Seq<IoVec>, i: int)
    requires
        0 <= i < iovs.len(),
    ensures
        length_before(iovs, 0) == 0,
        length_before(iovs, i + 1) == length_before(iovs, i) + iovs[i].iov_len,
{
}

/// What is left at a position is all bytes from that position on, and the next byte is in a
/// region that is not empty, at the place that has as many bytes before it.
pub proof fn law_left(iter: &IovecIter)
    requires
        iter.wf(),
    ensures
        ({
            let all = bytes_from(iter.iovs@, 0);
            let pos = iter.pos();
            if pos < all.len() {
                &&& pos >= 0
                &&& iter.left() == all.skip(pos)
                &&& ({
                    let (i, off) = iter.place();
                    &&& 0 <= i < iter.iovs@.len()
                    &&& 0 <= off < iter.iovs@[i].iov_len
                    &&& length_before(iter.iovs@, i) + off == pos
                })
            } else {
                iter.left().len() == 0
            }
        }),
{
    let iovs = iter.iovs@;
    let i = iter.idx as int;
    let off = iter.off as int;
    let all = bytes_from(iovs, 0);
    let b = length_before(iovs, i);
    lemma_length_from(iovs, i);
    lemma_bytes_behind(iovs, i);
    if b + off < all.len() {
        assert(all.skip(b).skip(off) =~= all.skip(b + off));
        if i < iovs.len() && off >= iovs[i].iov_len {
            lemma_first_filled(iovs, i + 1);
            let f = first_filled(iovs, i + 1);
            lemma_length_from(iovs, i + 1);
            lemma_length_from(iovs, f);
            assert(iovs[i].ok());
        }
    }
}

/// The first region that is not empty: all regions before it are.
pub proof fn law_first_filled(iovs: Seq<IoVec>, i: int)
    requires
        iovs_ok(iovs),
        0 <= i <= iovs.len(),
    ensures
        i <= first_filled(iovs, i) <= iovs.len(),
        forall|j: int| i <= j < first_filled(iovs, i) ==> (#[trigger] iovs[j]).iov_len == 0,
        first_filled(iovs, i) < iovs.len() ==> iovs[first_filled(iovs, i)].iov_len > 0,
    decreases iovs.len() - i,
{
    if i < iovs.len() && iovs[i].iov_len <= 0 {
        assert(iovs[i].ok());
        law_first_filled(iovs, i + 1);
    }
}

} // verus!
