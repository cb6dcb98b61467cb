//! The `process_vm_readv` and `process_vm_writev` system calls.
//!
//! Both copy bytes between the caller and another process, the target. The regions of
//! either side are one sequence of bytes: byte `k` of the one goes with byte `k` of the
//! other.
use vstd::prelude::*;

use crate::error::{AxError, AxResult};
use crate::syscall::iovec::{
    addr_at, bytes_at, bytes_from, first_filled, iovs_ok, lemma_first_filled, read_iovecs,
    IoVec, IovecIter,
};

verus! {

/// The most regions on either side.
pub const IOV_MAX: usize = 1024;

/// Whether the caller may access the address space of the target.
pub open spec fn access_result(pid: u32, caller_pid: u32) -> AxResult<()> {
    Ok(())
}

/// Check whether the caller has permission to access the address space of the target.
/// Currently all processes run as root so the check always passes.
pub fn check_process_vm_access(pid: u32, caller_pid: u32) -> (r: AxResult<()>)
    ensures
        r is Ok,
        r == access_result(pid, caller_pid),
{
    if pid == caller_pid {
        return Ok(());
    }
    Ok(())
}

/// A piece of a buffer and the memory of the caller that goes with it.
#[derive(Clone, Copy, PartialEq, Eq, Structural, Debug)]
pub struct CopyChunk {
    /// Address of the first byte in the memory of the caller.
    pub addr: usize,
    /// Position of the first byte in the buffer.
    pub offset: usize,
    /// Number of bytes.
    pub len: usize,
}

/// The pieces cut a buffer up, in order and without gaps, so that byte `k` of the buffer
/// goes with address `bytes[k]`.
pub open spec fn chunks_cover(chunks: Seq<CopyChunk>, bytes: Seq<usize>) -> bool
    decreases chunks.len(),
{
    if chunks.len() == 0 {
        bytes.len() == 0
    } else {
        let last = chunks.last();
        &&& last.len > 0
        &&& last.offset + last.len == bytes.len()
        &&& forall|j: int|
            0 <= j < last.len ==> #[trigger] bytes[last.offset + j] == addr_at(last.addr, j)
        &&& chunks_cover(chunks.drop_last(), bytes.take(last.offset as int))
    }
}

/// Cuts a buffer of `len` bytes up along the memory of the caller from the position of the
/// iterator on, and moves the position. Returns the pieces and how many bytes they have
/// together.
pub fn cut_buffer(iter: &mut IovecIter, len: usize) -> (r: (Vec<CopyChunk>, usize))
    requires
        old(iter).wf(),
        len <= isize::MAX,
    ensures
        final(iter).wf(),
        final(iter).iovs == old(iter).iovs,
        r.1 == if len <= old(iter).left().len() {
            len as int
        } else {
            old(iter).left().len() as int
        },
        chunks_cover(r.0@, old(iter).left().take(r.1 as int)),
        final(iter).left() == old(iter).left().skip(r.1 as int),
{
    let ghost bytes = iter.left();
    let mut chunks: Vec<CopyChunk> = Vec::new();
    let mut offset: usize = 0;
    assert(bytes.skip(0) =~= bytes);
    assert(bytes.take(0).len() == 0);
    while offset < len
        invariant_except_break
            iter.left() == bytes.skip(offset as int),
        invariant
            iter.wf(),
            iter.iovs == old(iter).iovs,
            bytes == old(iter).left(),
            offset <= len <= isize::MAX,
            offset <= bytes.len(),
            chunks_cover(chunks@, bytes.take(offset as int)),
        ensures
            offset == len || offset == bytes.len(),
            iter.left() == bytes.skip(offset as int),
        decreases len - offset,
    {
        match iter.next_chunk() {
            None => {
                break;
            },
            Some((addr, avail)) => {
                let n: usize = if avail < len - offset {
                    avail
                } else {
                    len - offset
                };
                let chunk = CopyChunk { addr, offset, len: n };
                proof {
                    let taken = bytes.take(offset + n);
                    assert(chunks@.push(chunk).drop_last() =~= chunks@);
                    assert(taken.take(offset as int) =~= bytes.take(offset as int));
                    assert forall|j: int| 0 <= j < n implies #[trigger] taken[offset + j]
                        == addr_at(addr, j) by {
                        assert(iter.left()[j] == bytes[offset + j]);
                    }
                    assert(bytes.skip(offset as int).skip(n as int) =~= bytes.skip(offset + n));
                }
                chunks.push(chunk);
                iter.advance(n);
                offset += n;
            },
        }
    }
    (chunks, offset)
}

/// Where a transfer stands with its region of the target.
#[derive(Clone, Copy, PartialEq, Eq, Debug)]
pub enum TransferState {
    /// The region is to be read into a buffer.
    ReadTarget,
    /// `count` bytes are to be copied between the buffer and the memory of the caller.
    CopyLocal { count: usize },
    /// `count` bytes are to be written from the buffer to the region.
    WriteTarget { count: usize },
    /// The transfer is over; on success it tells the number of bytes.
    Done(AxResult<isize>),
}

/// A transfer between the caller and the target.
#[derive(Debug)]
pub struct Transfer {
    /// Whether bytes go to the target.
    pub write: bool,
    /// The regions of the caller.
    pub local: Vec<IoVec>,
    /// The regions of the target.
    pub remote: Vec<IoVec>,
    /// The region of the target in progress.
    pub next: usize,
    /// The region of the caller in progress.
    pub idx: usize,
    /// The position in it.
    pub off: usize,
    /// Number of bytes transferred.
    pub total: usize,
    /// The pieces of the buffer that are to be copied.
    pub chunks: Vec<CopyChunk>,
    /// Where the transfer stands.
    pub state: TransferState,
}

/// The progress of a transfer.
#[verifier::ext_equal]
pub struct TransferView {
    /// Whether bytes go to the target.
    pub write: bool,
    /// The regions of the caller.
    pub local: Seq<IoVec>,
    /// The regions of the target.
    pub remote: Seq<IoVec>,
    /// The region of the target in progress.
    pub next: int,
    /// Number of bytes transferred.
    pub total: int,
    /// Where the transfer stands.
    pub state: TransferState,
}

/// The smaller one of two numbers.
pub open spec fn smaller(a: int, b: int) -> int {
    if a <= b {
        a
    } else {
        b
    }
}

impl TransferView {
    /// The addresses of all bytes of the caller.
    pub open spec fn local_bytes(self) -> Seq<usize> {
        bytes_from(self.local, 0)
    }

    /// The addresses of all bytes of the target.
    pub open spec fn remote_bytes(self) -> Seq<usize> {
        bytes_from(self.remote, 0)
    }

    /// The number of bytes of the region in progress for which the caller has memory.
    pub open spec fn room(self) -> int {
        smaller(self.remote[self.next].iov_len as int, self.local_bytes().len() - self.total)
    }

    /// The same transfer in another state.
    pub open spec fn at(self, state: TransferState) -> TransferView {
        TransferView { state, ..self }
    }

    /// The transfer is over, with the number of bytes so far.
    pub open spec fn finished(self) -> TransferView {
        self.at(TransferState::Done(Ok(self.total as usize as isize)))
    }

    /// The transfer when it comes to the regions of the target from `next` on, with `total`
    /// bytes done. Empty regions are passed over. It is over behind the last region, and,
    /// for a write, when the caller has no bytes left.
    pub open spec fn going_on(self, next: int, total: int) -> TransferView {
        let i = first_filled(self.remote, next);
        let t = TransferView { next: i, total, ..self };
        if i >= self.remote.len() {
            t.finished()
        } else if !self.write {
            t.at(TransferState::ReadTarget)
        } else if t.room() == 0 {
            t.finished()
        } else {
            t.at(TransferState::CopyLocal { count: t.room() as usize })
        }
    }

    /// The transfer after `count` more bytes. It is over if that was not the whole region:
    /// the caller has no bytes left.
    pub open spec fn moved(self, count: usize) -> TransferView {
        if count < self.remote[self.next].iov_len {
            TransferView { total: self.total + count, ..self }.finished()
        } else {
            self.going_on(self.next + 1, self.total + count)
        }
    }

    /// The work to do next; none when the transfer is over.
    pub open spec fn spec_request(self) -> Option<TransferRequest> {
        let region = self.remote[self.next];
        match self.state {
            TransferState::ReadTarget => Some(
                TransferRequest::ReadTarget { base: region.iov_base, len: region.iov_len as usize },
            ),
            TransferState::CopyLocal { .. } => Some(
                if self.write {
                    TransferRequest::CopyIn { len: region.iov_len as usize }
                } else {
                    TransferRequest::CopyOut
                },
            ),
            TransferState::WriteTarget { count } => Some(
                TransferRequest::WriteTarget { base: region.iov_base, len: count },
            ),
            TransferState::Done(_) => None,
        }
    }

    /// The number of bytes can be counted.
    pub open spec fn accepts(self, reply: TransferReply) -> bool {
        match (self.state, reply) {
            (TransferState::CopyLocal { count }, TransferReply::Copied) => !self.write ==> self.total
                + count <= usize::MAX,
            (TransferState::WriteTarget { count }, TransferReply::Target(Ok(()))) => self.total
                + count <= usize::MAX,
            _ => true,
        }
    }

    /// The transfer after a reply.
    pub open spec fn step(self, reply: TransferReply) -> TransferView {
        match (self.state, reply) {
            (TransferState::ReadTarget, TransferReply::Target(Ok(()))) => if self.room() == 0 {
                self.finished()
            } else {
                self.at(TransferState::CopyLocal { count: self.room() as usize })
            },
            (TransferState::CopyLocal { count }, TransferReply::Copied) => if self.write {
                self.at(TransferState::WriteTarget { count })
            } else {
                self.moved(count)
            },
            (TransferState::WriteTarget { count }, TransferReply::Target(Ok(()))) => self.moved(
                count,
            ),
            (TransferState::ReadTarget, TransferReply::Target(Err(e))) => self.at(
                TransferState::Done(Err(e)),
            ),
            (TransferState::WriteTarget { .. }, TransferReply::Target(Err(e))) => self.at(
                TransferState::Done(Err(e)),
            ),
            _ => self,
        }
    }

    /// The bytes so far are the first ones on either side, and those in progress follow.
    pub open spec fn wf(self) -> bool {
        &&& iovs_ok(self.local)
        &&& iovs_ok(self.remote)
        &&& 0 <= self.next <= self.remote.len()
        &&& 0 <= self.total <= self.local_bytes().len()
        &&& match self.state {
            TransferState::ReadTarget => {
                &&& !self.write
                &&& self.in_region()
            },
            TransferState::CopyLocal { count } | TransferState::WriteTarget { count } => {
                &&& self.in_region()
                &&& count > 0
                &&& count == self.room()
                &&& self.state is WriteTarget ==> self.write
            },
            TransferState::Done(r) => r is Ok ==> {
                &&& self.total == smaller(
                    self.local_bytes().len() as int,
                    self.remote_bytes().len() as int,
                )
                &&& r == Ok::<isize, AxError>(self.total as usize as isize)
            },
        }
    }

    /// The region in progress is not empty, and its bytes come next.
    pub open spec fn in_region(self) -> bool {
        &&& self.next < self.remote.len()
        &&& self.remote[self.next].iov_len > 0
        &&& self.total <= self.remote_bytes().len()
        &&& bytes_from(self.remote, self.next) == self.remote_bytes().skip(self.total)
    }
}

/// The work that a transfer asks for.
#[derive(Clone, Copy, PartialEq, Eq, Structural, Debug)]
pub enum TransferRequest {
    /// Read `len` bytes of the target at `base` into a new buffer.
    ReadTarget { base: usize, len: usize },
    /// Copy the pieces of the buffer to the memory of the caller.
    CopyOut,
    /// Copy the memory of the caller to the pieces of a new buffer of `len` bytes.
    CopyIn { len: usize },
    /// Write the first `len` bytes of the buffer to the target at `base`.
    WriteTarget { base: usize, len: usize },
}

/// The result of the work.
#[derive(Clone, Copy, PartialEq, Eq, Debug)]
pub enum TransferReply {
    /// Of `ReadTarget` and `WriteTarget`.
    Target(AxResult<()>),
    /// Of `CopyOut` and `CopyIn`.
    Copied,
}

impl View for Transfer {
    type V = TransferView;

    open spec fn view(&self) -> TransferView {
        TransferView {
            write: self.write,
            local: self.local@,
            remote: self.remote@,
            next: self.next as int,
            total: self.total as int,
            state: self.state,
        }
    }
}

impl Transfer {
    /// The progress makes sense, and the position in the memory of the caller and the pieces
    /// of the buffer go with it: the pieces are for the bytes that come next.
    pub open spec fn wf(&self) -> bool {
        let bytes = self@.local_bytes();
        &&& self@.wf()
        &&& self.idx <= self.local@.len()
        &&& self.idx < self.local@.len() ==> self.off <= self.local@[self.idx as int].iov_len
        &&& match self.state {
            TransferState::ReadTarget => self.left() == bytes.skip(self.total as int),
            TransferState::CopyLocal { count } | TransferState::WriteTarget { count } => {
                &&& self.total + count <= bytes.len()
                &&& self.left() == bytes.skip(self.total + count)
                &&& chunks_cover(
                    self.chunks@,
                    bytes.subrange(self.total as int, self.total + count),
                )
            },
            TransferState::Done(_) => true,
        }
    }

    /// The bytes of the caller behind the position.
    pub open spec fn left(&self) -> Seq<usize> {
        bytes_at(self.local@, self.idx as int, self.off as int)
    }

    /// The work to do next; none when the transfer is over.
    pub fn request(&self) -> (r: Option<TransferRequest>)
        requires
            self.wf(),
        ensures
            ({
                let region = self.remote@[self.next as int];
                match self.state {
                    TransferState::ReadTarget => r == Some(
                        TransferRequest::ReadTarget {
                            base: region.iov_base,
                            len: region.iov_len as usize,
                        },
                    ),
                    TransferState::CopyLocal { .. } => r == Some(
                        if self.write {
                            TransferRequest::CopyIn { len: region.iov_len as usize }
                        } else {
                            TransferRequest::CopyOut
                        },
                    ),
                    TransferState::WriteTarget { count } => r == Some(
                        TransferRequest::WriteTarget { base: region.iov_base, len: count },
                    ),
                    TransferState::Done(_) => r is None,
                }
            }),
            r == self@.spec_request(),
    {
        match self.state {
            TransferState::ReadTarget => {
                let region = self.remote[self.next];
                Some(
                    TransferRequest::ReadTarget {
                        base: region.iov_base,
                        len: region.iov_len as usize,
                    },
                )
            },
            TransferState::CopyLocal { .. } => {
                if self.write {
                    let region = self.remote[self.next];
                    Some(TransferRequest::CopyIn { len: region.iov_len as usize })
                } else {
                    Some(TransferRequest::CopyOut)
                }
            },
            TransferState::WriteTarget { count } => {
                let region = self.remote[self.next];
                Some(TransferRequest::WriteTarget { base: region.iov_base, len: count })
            },
            TransferState::Done(_) => None,
        }
    }

    /// Starts a transfer.
    pub fn new(write: bool, local: Vec<IoVec>, remote: Vec<IoVec>) -> (r: Transfer)
        requires
            iovs_ok(local@),
            iovs_ok(remote@),
        ensures
            r.wf(),
            ({
                let t = TransferView {
                    write,
                    local: local@,
                    remote: remote@,
                    next: 0,
                    total: 0,
                    state: TransferState::ReadTarget,
                };
                r@ == t.going_on(0, 0)
            }),
    {
        let mut t = Transfer {
            write,
            local,
            remote,
            next: 0,
            idx: 0,
            off: 0,
            total: 0,
            chunks: Vec::new(),
            state: TransferState::ReadTarget,
        };
        proof {
            let bytes = bytes_from(local@, 0);
            assert(bytes.skip(0) =~= bytes);
            assert(bytes_from(remote@, 0).skip(0) =~= bytes_from(remote@, 0));
            if local@.len() > 0 {
                assert(local@[0].ok());
            }
        }
        t.enter(0);
        t
    }

    /// Cuts a buffer for the region in progress up. The transfer is over if there is no
    /// memory of the caller for it.
    fn cut(&mut self)
        requires
            old(self)@.at(TransferState::ReadTarget).at_region(),
            old(self).idx <= old(self).local@.len(),
            old(self).idx < old(self).local@.len() ==> old(self).off
                <= old(self).local@[old(self).idx as int].iov_len,
            old(self).left() == old(self)@.local_bytes().skip(old(self).total as int),
        ensures
            final(self).wf(),
            final(self)@ == if old(self)@.room() == 0 {
                old(self)@.finished()
            } else {
                old(self)@.at(TransferState::CopyLocal { count: old(self)@.room() as usize })
            },
    {
        let len: usize = self.remote[self.next].iov_len as usize;
        let mut iter = IovecIter { iovs: self.local.as_slice(), idx: self.idx, off: self.off };
        let ghost before = iter.left();
        let (chunks, count) = cut_buffer(&mut iter, len);
        let idx: usize = iter.idx;
        let off: usize = iter.off;
        proof {
            let bytes = self@.local_bytes();
            let t = self.total as int;
            assert(before == bytes.skip(t));
            assert(before.take(count as int) =~= bytes.subrange(t, t + count));
            assert(before.skip(count as int) =~= bytes.skip(t + count));
            self@.lemma_region_in_remote();
        }
        self.chunks = chunks;
        self.idx = idx;
        self.off = off;
        self.state = if count == 0 {
            TransferState::Done(Ok(self.total as isize))
        } else {
            TransferState::CopyLocal { count }
        };
    }

    /// Comes to the regions of the target from `next` on.
    fn enter(&mut self, next: usize)
        requires
            iovs_ok(old(self).local@),
            iovs_ok(old(self).remote@),
            next <= old(self).remote@.len(),
            old(self).total <= old(self)@.local_bytes().len(),
            old(self).total <= old(self)@.remote_bytes().len(),
            bytes_from(old(self).remote@, next as int) == old(self)@.remote_bytes().skip(
                old(self).total as int,
            ),
            old(self).idx <= old(self).local@.len(),
            old(self).idx < old(self).local@.len() ==> old(self).off
                <= old(self).local@[old(self).idx as int].iov_len,
            old(self).left() == old(self)@.local_bytes().skip(old(self).total as int),
        ensures
            final(self).wf(),
            final(self)@ == old(self)@.going_on(next as int, old(self).total as int),
    {
        let mut i: usize = next;
        while i < self.remote.len() && self.remote[i].iov_len == 0
            invariant
                *self == *old(self),
                next <= i <= self.remote@.len(),
                iovs_ok(self.remote@),
                first_filled(self.remote@, i as int) == first_filled(self.remote@, next as int),
            decreases self.remote@.len() - i,
        {
            i += 1;
        }
        proof {
            lemma_first_filled(self.remote@, next as int);
            if i < self.remote@.len() {
                assert(self.remote@[i as int].ok());
            }
        }
        self.next = i;
        if i >= self.remote.len() {
            assert(bytes_from(self.remote@, i as int).len() == 0);
            self.state = TransferState::Done(Ok(self.total as isize));
        } else if !self.write {
            self.state = TransferState::ReadTarget;
        } else {
            self.cut();
        }
    }

    /// Counts the bytes that were moved and goes on.
    fn finish_region(&mut self, count: usize)
        requires
            old(self).wf(),
            old(self).state == (TransferState::CopyLocal { count }) || old(self).state == (
            TransferState::WriteTarget { count }),
            old(self).total + count <= usize::MAX,
        ensures
            final(self).wf(),
            final(self)@ == old(self)@.moved(count),
    {
        let len: usize = self.remote[self.next].iov_len as usize;
        proof {
            self@.lemma_region_in_remote();
            let remote = self@.remote_bytes();
            let t = self.total as int;
            assert(remote.skip(t).skip(len as int) =~= remote.skip(t + len));
        }
        self.total = self.total + count;
        if count < len {
            self.state = TransferState::Done(Ok(self.total as isize));
        } else {
            assert(self.next < self.remote.len());
            self.enter(self.next + 1);
        }
    }

    /// Goes on after a reply.
    pub fn resume(&mut self, reply: TransferReply)
        requires
            old(self).wf(),
            old(self)@.accepts(reply),
        ensures
            final(self).wf(),
            final(self)@ == old(self)@.step(reply),
    {
        match (self.state, reply) {
            (TransferState::ReadTarget, TransferReply::Target(Ok(()))) => {
                self.cut();
            },
            (TransferState::CopyLocal { count }, TransferReply::Copied) => {
                if self.write {
                    self.state = TransferState::WriteTarget { count };
                } else {
                    self.finish_region(count);
                }
            },
            (TransferState::WriteTarget { count }, TransferReply::Target(Ok(()))) => {
                self.finish_region(count);
            },
            (TransferState::ReadTarget, TransferReply::Target(Err(e)))
            | (TransferState::WriteTarget { .. }, TransferReply::Target(Err(e))) => {
                self.state = TransferState::Done(Err(e));
            },
            _ => {},
        }
    }
}

impl TransferView {
    /// A region of the target is in progress.
    pub open spec fn at_region(self) -> bool {
        &&& iovs_ok(self.local)
        &&& iovs_ok(self.remote)
        &&& 0 <= self.next
        &&& 0 <= self.total <= self.local_bytes().len()
        &&& self.in_region()
    }

    /// The bytes of the region in progress are those of the target that come next.
    pub proof fn lemma_region_in_remote(self)
        requires
            iovs_ok(self.remote),
            0 <= self.next,
            0 <= self.total,
            self.in_region(),
        ensures
            ({
                let len = self.remote[self.next].iov_len as int;
                &&& self.total + len <= self.remote_bytes().len()
                &&& self.remote_bytes().subrange(self.total, self.total + len)
                    == self.remote[self.next].bytes()
                &&& bytes_from(self.remote, self.next + 1) == self.remote_bytes().skip(
                    self.total,
                ).skip(len)
            }),
    {
        let region = self.remote[self.next];
        let len = region.iov_len as int;
        assert(region.ok());
        let rest = bytes_from(self.remote, self.next + 1);
        let here = self.remote_bytes().skip(self.total);
        assert(here == region.bytes() + rest);
        assert(here.len() == len + rest.len());
        assert(here.skip(len) =~= rest);
        assert(self.remote_bytes().subrange(self.total, self.total + len) =~= here.take(len));
        assert(here.take(len) =~= region.bytes());
    }
}

/// An array of regions in the memory of the caller.
#[derive(Clone, Copy, PartialEq, Eq, Structural, Debug)]
pub struct UserArray {
    /// Its address.
    pub addr: usize,
    /// Number of regions.
    pub count: usize,
}

/// A call, once its arguments are checked.
#[derive(Clone, Copy, PartialEq, Eq, Structural, Debug)]
pub struct ProcessVmCall {
    /// Whether bytes go to the target.
    pub write: bool,
    /// The target.
    pub pid: u32,
    /// The regions of the caller.
    pub local: UserArray,
    /// The regions of the target.
    pub remote: UserArray,
}

/// The next step of a call.
#[derive(Debug)]
pub enum ProcessVmStep {
    /// Read the array of the regions of the caller.
    LoadLocal(ProcessVmCall),
    /// Read the array of the regions of the target.
    LoadRemote(ProcessVmCall, Vec<IoVec>),
    /// Find the target.
    FindTarget(ProcessVmCall, Vec<IoVec>, Vec<IoVec>),
    /// Go on with the transfer.
    Transfer(Transfer),
    /// The call is over before a transfer.
    Done(AxResult<isize>),
}

/// The result of a step.
#[derive(Debug)]
pub enum ProcessVmReply {
    /// Of `LoadLocal` and `LoadRemote`: as many regions as the array has.
    Loaded(AxResult<Vec<IoVec>>),
    /// Of `FindTarget`.
    Found(AxResult<()>),
    /// Of the work that a transfer asks for.
    Moved(TransferReply),
}

impl ProcessVmStep {
    /// The regions have been checked, and the transfer makes sense.
    pub open spec fn wf(self) -> bool {
        match self {
            ProcessVmStep::LoadLocal(_) => true,
            ProcessVmStep::LoadRemote(_, local) => iovs_ok(local@),
            ProcessVmStep::FindTarget(_, local, remote) => iovs_ok(local@) && iovs_ok(remote@),
            ProcessVmStep::Transfer(t) => t.wf(),
            ProcessVmStep::Done(_) => true,
        }
    }

    /// The number of bytes of a transfer can be counted.
    pub open spec fn accepts(self, reply: ProcessVmReply) -> bool {
        match (self, reply) {
            (ProcessVmStep::Transfer(t), ProcessVmReply::Moved(reply)) => t@.accepts(reply),
            _ => true,
        }
    }

    /// Whether `next` is the step after `reply`.
    pub open spec fn leads_to(self, reply: ProcessVmReply, next: ProcessVmStep) -> bool {
        match (self, reply) {
            (ProcessVmStep::LoadLocal(call), ProcessVmReply::Loaded(Ok(local))) => if iovs_ok(
                local@,
            ) {
                next == ProcessVmStep::LoadRemote(call, local)
            } else {
                next == ProcessVmStep::Done(Err(AxError::InvalidInput))
            },
            (ProcessVmStep::LoadRemote(call, local), ProcessVmReply::Loaded(Ok(remote))) => if iovs_ok(
                remote@,
            ) {
                next == ProcessVmStep::FindTarget(call, local, remote)
            } else {
                next == ProcessVmStep::Done(Err(AxError::InvalidInput))
            },
            (ProcessVmStep::FindTarget(call, local, remote), ProcessVmReply::Found(Ok(()))) => {
                let t = TransferView {
                    write: call.write,
                    local: local@,
                    remote: remote@,
                    next: 0,
                    total: 0,
                    state: TransferState::ReadTarget,
                };
                next matches ProcessVmStep::Transfer(t2) && t2@ == t.going_on(0, 0)
            },
            (ProcessVmStep::Transfer(t), ProcessVmReply::Moved(reply)) => {
                next matches ProcessVmStep::Transfer(t2) && t2@ == t@.step(reply)
            },
            (ProcessVmStep::LoadLocal(_), ProcessVmReply::Loaded(Err(e)))
            | (ProcessVmStep::LoadRemote(_, _), ProcessVmReply::Loaded(Err(e)))
            | (ProcessVmStep::FindTarget(_, _, _), ProcessVmReply::Found(Err(e))) => next
                == ProcessVmStep::Done(Err(e)),
            _ => next == self,
        }
    }

    /// Goes on after a step.
    pub fn resume(self, reply: ProcessVmReply) -> (r: ProcessVmStep)
        requires
            self.wf(),
            self.accepts(reply),
        ensures
            r.wf(),
            self.leads_to(reply, r),
    {
        match (self, reply) {
            (ProcessVmStep::LoadLocal(call), ProcessVmReply::Loaded(loaded)) => match read_iovecs(
                loaded,
            ) {
                Ok(local) => ProcessVmStep::LoadRemote(call, local),
                Err(e) => ProcessVmStep::Done(Err(e)),
            },
            (ProcessVmStep::LoadRemote(call, local), ProcessVmReply::Loaded(loaded)) => {
                match read_iovecs(loaded) {
                    Ok(remote) => ProcessVmStep::FindTarget(call, local, remote),
                    Err(e) => ProcessVmStep::Done(Err(e)),
                }
            },
            (ProcessVmStep::FindTarget(call, local, remote), ProcessVmReply::Found(found)) => {
                match found {
                    Ok(()) => ProcessVmStep::Transfer(Transfer::new(call.write, local, remote)),
                    Err(e) => ProcessVmStep::Done(Err(e)),
                }
            },
            (ProcessVmStep::Transfer(t), ProcessVmReply::Moved(moved)) => {
                let mut t2 = t;
                t2.resume(moved);
                ProcessVmStep::Transfer(t2)
            },
            (step, _) => step,
        }
    }
}

/// The first step of a call: too many regions on either side are refused.
pub open spec fn process_vm_first(call: ProcessVmCall) -> ProcessVmStep {
    if call.local.count > IOV_MAX || call.remote.count > IOV_MAX {
        ProcessVmStep::Done(Err(AxError::InvalidInput))
    } else {
        ProcessVmStep::LoadLocal(call)
    }
}

/// The first step of a call.
fn start(call: ProcessVmCall, caller_pid: u32) -> (r: ProcessVmStep)
    ensures
        r == process_vm_first(call),
        r.wf(),
{
    if call.local.count > IOV_MAX || call.remote.count > IOV_MAX {
        return ProcessVmStep::Done(Err(AxError::InvalidInput));
    }
    match check_process_vm_access(call.pid, caller_pid) {
        Ok(()) => ProcessVmStep::LoadLocal(call),
        Err(e) => ProcessVmStep::Done(Err(e)),
    }
}

/// The first step of a call that reads from or writes to a process.
pub open spec fn process_vm_step(
    write: bool,
    pid: u32,
    local_iov: usize,
    liovcnt: usize,
    remote_iov: usize,
    riovcnt: usize,
) -> ProcessVmStep {
    process_vm_first(
        ProcessVmCall {
            write,
            pid,
            local: UserArray { addr: local_iov, count: liovcnt },
            remote: UserArray { addr: remote_iov, count: riovcnt },
        },
    )
}

/// Read data from the address space of another process.
///
/// Each entry of `remote_iov` describes a contiguous region in the address space of the
/// process `pid`, while each entry of `local_iov` describes where to place the data.
pub fn sys_process_vm_readv(
    pid: u32,
    local_iov: usize,
    liovcnt: usize,
    remote_iov: usize,
    riovcnt: usize,
    _flags: u32,
    caller_pid: u32,
) -> (r: ProcessVmStep)
    ensures
        r == process_vm_first(
            (ProcessVmCall {
                write: false,
                pid,
                local: UserArray { addr: local_iov, count: liovcnt },
                remote: UserArray { addr: remote_iov, count: riovcnt },
            }),
        ),
        r == process_vm_step(false, pid, local_iov, liovcnt, remote_iov, riovcnt),
        r.wf(),
{
    start(
        ProcessVmCall {
            write: false,
            pid,
            local: UserArray { addr: local_iov, count: liovcnt },
            remote: UserArray { addr: remote_iov, count: riovcnt },
        },
        caller_pid,
    )
}

/// Write data into the address space of another process, the process `pid`.
pub fn sys_process_vm_writev(
    pid: u32,
    local_iov: usize,
    liovcnt: usize,
    remote_iov: usize,
    riovcnt: usize,
    _flags: u32,
    caller_pid: u32,
) -> (r: ProcessVmStep)
    ensures
        r == process_vm_first(
            (ProcessVmCall {
                write: true,
                pid,
                local: UserArray { addr: local_iov, count: liovcnt },
                remote: UserArray { addr: remote_iov, count: riovcnt },
            }),
        ),
        r == process_vm_step(true, pid, local_iov, liovcnt, remote_iov, riovcnt),
        r.wf(),
{
    start(
        ProcessVmCall {
            write: true,
            pid,
            local: UserArray { addr: local_iov, count: liovcnt },
            remote: UserArray { addr: remote_iov, count: riovcnt },
        },
        caller_pid,
    )
}

/// The buffer of a transfer is for the bytes of the target from `total` on, and its pieces
/// are for the bytes of the caller from `total` on: byte `k` of the one side goes with byte
/// `k` of the other.
pub proof fn law_bytes_in_step(t: Transfer)
    requires
        t.wf(),
        t.state is CopyLocal || t.state is WriteTarget,
    ensures
        ({
            let total = t.total as int;
            let count = t@.room();
            let region = t.remote@[t.next as int];
            &&& 0 < count <= region.iov_len
            &&& t@.remote_bytes().subrange(total, total + region.iov_len) == region.bytes()
            &&& chunks_cover(t.chunks@, t@.local_bytes().subrange(total, total + count))
        }),
{
    t@.lemma_region_in_remote();
}

/// A transfer that succeeds has moved as many bytes as both sides have.
pub proof fn law_transfer_is_complete(t: TransferView)
    requires
        t.wf(),
        t.state matches TransferState::Done(Ok(_)),
    ensures
        t.total == smaller(t.local_bytes().len() as int, t.remote_bytes().len() as int),
        t.state == TransferState::Done(Ok(t.total as usize as isize)),
{
}

impl TransferView {
    /// Number of turns that are left at most.
    pub open spec fn turns_left(self) -> int {
        let regions = self.remote.len() - self.next;
        match self.state {
            TransferState::ReadTarget => 2 * regions,
            TransferState::CopyLocal { .. } => if self.write {
                2 * regions
            } else {
                2 * regions - 1
            },
            TransferState::WriteTarget { .. } => 2 * regions - 1,
            TransferState::Done(_) => 0,
        }
    }

    /// The reply to the work that the transfer asks for when nothing fails.
    pub open spec fn good_reply(self) -> TransferReply {
        if self.state is CopyLocal {
            TransferReply::Copied
        } else {
            TransferReply::Target(Ok(()))
        }
    }

    /// Coming to the next region leaves the bytes so far the first ones on either side.
    pub proof fn lemma_going_on(self, next: int, total: int)
        requires
            iovs_ok(self.local),
            iovs_ok(self.remote),
            0 <= next <= self.remote.len(),
            0 <= total <= self.local_bytes().len(),
            total <= self.remote_bytes().len(),
            bytes_from(self.remote, next) == self.remote_bytes().skip(total),
        ensures
            self.going_on(next, total).wf(),
            self.going_on(next, total).next >= next,
            self.going_on(next, total).turns_left() <= 2 * (self.remote.len() - next),
            !(self.going_on(next, total).state matches TransferState::Done(Err(_))),
    {
        lemma_first_filled(self.remote, next);
        let i = first_filled(self.remote, next);
        let t = TransferView { next: i, total, ..self };
        if i < self.remote.len() {
            t.lemma_region_in_remote();
            assert(t.room() <= t.remote[i].iov_len <= isize::MAX);
        } else {
            assert(bytes_from(self.remote, i).len() == 0);
        }
    }

    /// When nothing fails, a transfer goes on and comes closer to its end.
    pub proof fn lemma_good_step(self)
        requires
            self.wf(),
            !(self.state is Done),
            smaller(self.local_bytes().len() as int, self.remote_bytes().len() as int)
                <= usize::MAX,
        ensures
            self.accepts(self.good_reply()),
            self.step(self.good_reply()).wf(),
            self.step(self.good_reply()).turns_left() < self.turns_left(),
            self.step(self.good_reply()).local == self.local,
            self.step(self.good_reply()).remote == self.remote,
            !(self.step(self.good_reply()).state matches TransferState::Done(Err(_))),
    {
        self.lemma_region_in_remote();
        let len = self.remote[self.next].iov_len as int;
        let remote = self.remote_bytes();
        assert(remote.skip(self.total).skip(len) =~= remote.skip(self.total + len));
        if self.room() == len {
            self.lemma_going_on(self.next + 1, self.total + len);
        }
    }
}

/// `n` turns of a transfer when nothing fails.
pub open spec fn transfer_turns(t: TransferView, n: nat) -> TransferView
    decreases n,
{
    if n == 0 || t.state is Done {
        t
    } else {
        transfer_turns(t.step(t.good_reply()), (n - 1) as nat)
    }
}

proof fn lemma_transfer_turns(t: TransferView, n: nat)
    requires
        t.wf(),
        !(t.state matches TransferState::Done(Err(_))),
        smaller(t.local_bytes().len() as int, t.remote_bytes().len() as int) <= usize::MAX,
        n >= t.turns_left(),
    ensures
        ({
            let end = transfer_turns(t, n);
            &&& end.wf()
            &&& end.state matches TransferState::Done(Ok(_))
            &&& end.local == t.local
            &&& end.remote == t.remote
        }),
    decreases n,
{
    if !(t.state is Done) {
        t.lemma_good_step();
        lemma_transfer_turns(t.step(t.good_reply()), (n - 1) as nat);
    }
}

/// If nothing fails, a transfer ends with success and has moved as many bytes as both sides
/// have. Two turns for each region of the target are enough.
pub proof fn law_transfer_succeeds(write: bool, local: Seq<IoVec>, remote: Seq<IoVec>, n: nat)
    requires
        iovs_ok(local),
        iovs_ok(remote),
        smaller(bytes_from(local, 0).len() as int, bytes_from(remote, 0).len() as int)
            <= usize::MAX,
        n >= 2 * remote.len(),
    ensures
        ({
            let t = TransferView {
                write,
                local,
                remote,
                next: 0,
                total: 0,
                state: TransferState::ReadTarget,
            };
            let end = transfer_turns(t.going_on(0, 0), n);
            let bytes = smaller(bytes_from(local, 0).len() as int, bytes_from(remote, 0).len() as int);
            end.total == bytes && end.state == TransferState::Done(Ok(bytes as usize as isize))
        }),
{
    let t = TransferView {
        write,
        local,
        remote,
        next: 0,
        total: 0,
        state: TransferState::ReadTarget,
    };
    assert(bytes_from(remote, 0).skip(0) =~= bytes_from(remote, 0));
    t.lemma_going_on(0, 0);
    lemma_transfer_turns(t.going_on(0, 0), n);
}

} // verus!
