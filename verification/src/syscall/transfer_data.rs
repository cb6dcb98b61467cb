//! What `process_vm_readv` and `process_vm_writev` do to memory.
use vstd::prelude::*;

use crate::syscall::iovec::{
    addr_at, bytes_from, iovs_ok, law_empty_regions, without_empty, IoVec,
};
use crate::syscall::process_vm::{
    chunks_cover, law_transfer_succeeds, smaller, transfer_turns, CopyChunk, TransferRequest,
    TransferState, TransferView,
};

verus! {

/// The memory of a process: the byte at each address.
pub type Bytes = spec_fn(usize) -> u8;

/// A buffer: the byte at each position.
pub type Buffer = spec_fn(int) -> u8;

/// Memory after the bytes of a buffer were stored at addresses, one after the other.
pub open spec fn scatter(mem: Bytes, addrs: Seq<usize>, buf: Buffer) -> Bytes
    decreases addrs.len(),
{
    if addrs.len() == 0 {
        mem
    } else {
        let before = scatter(mem, addrs.drop_last(), buf);
        |a: usize|
            if a == addrs.last() {
                buf(addrs.len() - 1)
            } else {
                before(a)
            }
    }
}

impl CopyChunk {
    /// The addresses of the piece in the memory of the caller.
    pub open spec fn addrs(self) -> Seq<usize> {
        Seq::new(self.len as nat, |j: int| addr_at(self.addr, j))
    }
}

/// Memory after the pieces of a buffer were copied to it, in order.
pub open spec fn copy_out(chunks: Seq<CopyChunk>, buf: Buffer, mem: Bytes) -> Bytes
    decreases chunks.len(),
{
    if chunks.len() == 0 {
        mem
    } else {
        let c = chunks.last();
        scatter(copy_out(chunks.drop_last(), buf, mem), c.addrs(), |j: int| buf(c.offset + j))
    }
}

/// A buffer after the pieces were copied from memory to it, in order.
pub open spec fn copy_in(chunks: Seq<CopyChunk>, buf: Buffer, mem: Bytes) -> Buffer
    decreases chunks.len(),
{
    if chunks.len() == 0 {
        buf
    } else {
        let c = chunks.last();
        let before = copy_in(chunks.drop_last(), buf, mem);
        |i: int|
            if c.offset <= i < c.offset + c.len {
                mem(addr_at(c.addr, i - c.offset))
            } else {
                before(i)
            }
    }
}

/// Buffers that agree store the same.
proof fn lemma_scatter_agree(mem: Bytes, addrs: Seq<usize>, a: Buffer, b: Buffer)
    requires
        forall|i: int| 0 <= i < addrs.len() ==> #[trigger] a(i) == b(i),
    ensures
        scatter(mem, addrs, a) == scatter(mem, addrs, b),
    decreases addrs.len(),
{
    if addrs.len() > 0 {
        lemma_scatter_agree(mem, addrs.drop_last(), a, b);
        assert(a(addrs.len() - 1) == b(addrs.len() - 1));
        assert(scatter(mem, addrs, a) =~= scatter(mem, addrs, b));
    }
}

/// Storing can be split.
proof fn lemma_scatter_split(mem: Bytes, first: Seq<usize>, second: Seq<usize>, buf: Buffer)
    ensures
        scatter(mem, first + second, buf) == scatter(
            scatter(mem, first, buf),
            second,
            |j: int| buf(first.len() + j),
        ),
    decreases second.len(),
{
    let all = first + second;
    let shifted = |j: int| buf(first.len() + j);
    if second.len() == 0 {
        assert(all =~= first);
    } else {
        lemma_scatter_split(mem, first, second.drop_last(), buf);
        assert(all.drop_last() =~= first + second.drop_last());
        assert(scatter(mem, all, buf) =~= scatter(scatter(mem, first, buf), second, shifted));
    }
}

/// Copying the pieces of a buffer out stores its bytes at the addresses that the pieces
/// are for, one after the other.
pub proof fn law_copy_out(chunks: Seq<CopyChunk>, addrs: Seq<usize>, buf: Buffer, mem: Bytes)
    requires
        chunks_cover(chunks, addrs),
    ensures
        copy_out(chunks, buf, mem) == scatter(mem, addrs, buf),
    decreases chunks.len(),
{
    if chunks.len() > 0 {
        let c = chunks.last();
        let first = addrs.take(c.offset as int);
        law_copy_out(chunks.drop_last(), first, buf, mem);
        assert forall|j: int| 0 <= j < c.len implies c.addrs()[j] == addrs[c.offset + j] by {}
        assert(first + c.addrs() =~= addrs);
        lemma_scatter_split(mem, first, c.addrs(), buf);
        assert(first.len() == c.offset);
    }
}

/// Copying the pieces of a buffer in fetches each byte from the address that its piece is
/// for.
pub proof fn law_copy_in(chunks: Seq<CopyChunk>, addrs: Seq<usize>, buf: Buffer, mem: Bytes)
    requires
        chunks_cover(chunks, addrs),
    ensures
        forall|i: int|
            0 <= i < addrs.len() ==> #[trigger] copy_in(chunks, buf, mem)(i) == mem(addrs[i]),
    decreases chunks.len(),
{
    if chunks.len() > 0 {
        let c = chunks.last();
        let first = addrs.take(c.offset as int);
        law_copy_in(chunks.drop_last(), first, buf, mem);
        assert forall|i: int| 0 <= i < addrs.len() implies #[trigger] copy_in(chunks, buf, mem)(i)
            == mem(addrs[i]) by {
            if i < c.offset {
                assert(copy_in(chunks.drop_last(), buf, mem)(i) == mem(first[i]));
            } else {
                assert(addrs[c.offset + (i - c.offset)] == addr_at(c.addr, i - c.offset));
            }
        }
    }
}

/// The memory of both sides and the buffer of a transfer.
pub struct Data {
    /// The memory of the caller.
    pub local: Bytes,
    /// The memory of the target.
    pub target: Bytes,
    /// The buffer.
    pub buf: Buffer,
}

impl TransferView {
    /// The addresses of the bytes of the caller that are in progress.
    pub open spec fn local_part(self, count: int) -> Seq<usize> {
        self.local_bytes().subrange(self.total, self.total + count)
    }

    /// Memory after the work that the transfer asks for.
    pub open spec fn work(self, d: Data) -> Data {
        let count = match self.state {
            TransferState::CopyLocal { count } => count as int,
            _ => 0,
        };
        match self.spec_request() {
            Some(req) => serve_transfer(req, self.local_part(count), d),
            None => d,
        }
    }
}

/// How a request changes memory and the buffer. `part` are the addresses of the caller that
/// the pieces of the buffer are for: by `law_copy_out` and `law_copy_in`, copying the pieces
/// is what stands here.
pub open spec fn serve_transfer(req: TransferRequest, part: Seq<usize>, d: Data) -> Data {
    match req {
        TransferRequest::ReadTarget { base, len } => Data {
            buf: |i: int|
                if 0 <= i < len {
                    (d.target)(addr_at(base, i))
                } else {
                    0u8
                },
            ..d
        },
        TransferRequest::CopyOut => Data { local: scatter(d.local, part, d.buf), ..d },
        TransferRequest::CopyIn { len } => Data {
            buf: |i: int|
                if 0 <= i < part.len() {
                    (d.local)(part[i])
                } else {
                    0u8
                },
            ..d
        },
        TransferRequest::WriteTarget { base, len } => Data {
            target: scatter(d.target, Seq::new(len as nat, |i: int| addr_at(base, i)), d.buf),
            ..d
        },
    }
}

/// Memory after `n` turns of a transfer when nothing fails.
pub open spec fn transfer_data(t: TransferView, d: Data, n: nat) -> Data
    decreases n,
{
    if n == 0 || t.state is Done {
        d
    } else {
        transfer_data(t.step(t.good_reply()), t.work(d), (n - 1) as nat)
    }
}

/// The bytes of one side, as a buffer.
pub open spec fn gather(mem: Bytes, addrs: Seq<usize>) -> Buffer {
    |i: int| mem(addrs[i])
}

/// What holds of memory before every turn: the bytes counted so far are stored, and the
/// buffer holds those in progress.
spec fn stored(t: TransferView, d: Data, start: Data) -> bool {
    let from = if t.write {
        gather(start.local, t.local_bytes())
    } else {
        gather(start.target, t.remote_bytes())
    };
    if t.write {
        &&& d.local == start.local
        &&& d.target == scatter(start.target, t.remote_bytes().take(t.total), from)
        &&& t.state matches TransferState::WriteTarget { count } ==> forall|i: int|
            0 <= i < count ==> #[trigger] (d.buf)(i) == from(t.total + i)
    } else {
        &&& d.target == start.target
        &&& d.local == scatter(start.local, t.local_bytes().take(t.total), from)
        &&& t.state matches TransferState::CopyLocal { count } ==> forall|i: int|
            0 <= i < count ==> #[trigger] (d.buf)(i) == from(t.total + i)
    }
}

/// Storing the part in progress behind the bytes so far.
proof fn lemma_store_part(mem: Bytes, addrs: Seq<usize>, total: int, count: int, from: Buffer, buf: Buffer)
    requires
        0 <= total,
        0 <= count,
        total + count <= addrs.len(),
        forall|i: int| 0 <= i < count ==> #[trigger] buf(i) == from(total + i),
    ensures
        scatter(scatter(mem, addrs.take(total), from), addrs.subrange(total, total + count), buf)
            == scatter(mem, addrs.take(total + count), from),
{
    let first = addrs.take(total);
    let part = addrs.subrange(total, total + count);
    assert(first + part =~= addrs.take(total + count));
    lemma_scatter_split(mem, first, part, from);
    let shifted = |j: int| from(first.len() + j);
    assert forall|i: int| 0 <= i < part.len() implies #[trigger] buf(i) == shifted(i) by {}
    lemma_scatter_agree(scatter(mem, first, from), part, buf, shifted);
}

/// One turn of a transfer keeps what holds of memory.
proof fn lemma_work(t: TransferView, d: Data, start: Data)
    requires
        t.wf(),
        !(t.state is Done),
        stored(t, d, start),
    ensures
        stored(t.step(t.good_reply()), t.work(d), start),
{
    t.lemma_region_in_remote();
    let local = t.local_bytes();
    let remote = t.remote_bytes();
    let region = t.remote[t.next].bytes();
    let len = t.remote[t.next].iov_len as int;
    let t2 = t.step(t.good_reply());
    let d2 = t.work(d);
    assert(t2.local == t.local && t2.remote == t.remote && t2.write == t.write);
    match t.state {
        TransferState::ReadTarget => {
            assert forall|i: int| 0 <= i < len implies #[trigger] (d2.buf)(i) == (start.target)(
                remote[t.total + i],
            ) by {
                assert(region[i] == remote.subrange(t.total, t.total + len)[i]);
            }
        },
        TransferState::CopyLocal { count } => {
            if t.write {
                assert forall|i: int| 0 <= i < count implies #[trigger] (d2.buf)(i) == (
                start.local)(local[t.total + i]) by {}
            } else {
                lemma_store_part(
                    start.local,
                    local,
                    t.total,
                    count as int,
                    gather(start.target, remote),
                    d.buf,
                );
                assert(t2.total == t.total + count);
            }
        },
        TransferState::WriteTarget { count } => {
            let base = t.remote[t.next].iov_base;
            let stored_at = Seq::new(count as nat, |i: int| addr_at(base, i));
            assert(stored_at =~= remote.subrange(t.total, t.total + count)) by {
                assert forall|i: int| 0 <= i < count implies stored_at[i] == remote[t.total + i] by {
                    assert(region[i] == remote.subrange(t.total, t.total + len)[i]);
                }
            }
            lemma_store_part(
                start.target,
                remote,
                t.total,
                count as int,
                gather(start.local, local),
                d.buf,
            );
            assert(t2.total == t.total + count);
        },
        TransferState::Done(_) => {},
    }
}

/// What holds of memory before a run holds behind it.
proof fn lemma_run(t: TransferView, d: Data, start: Data, n: nat)
    requires
        t.wf(),
        stored(t, d, start),
        smaller(t.local_bytes().len() as int, t.remote_bytes().len() as int) <= usize::MAX,
    ensures
        stored(transfer_turns(t, n), transfer_data(t, d, n), start),
        transfer_turns(t, n).local == t.local,
        transfer_turns(t, n).remote == t.remote,
        transfer_turns(t, n).write == t.write,
    decreases n,
{
    if n > 0 && !(t.state is Done) {
        t.lemma_good_step();
        lemma_work(t, d, start);
        lemma_run(t.step(t.good_reply()), t.work(d), start, (n - 1) as nat);
    }
}

/// If nothing fails, reading stores the bytes of the target at the addresses of the caller,
/// byte `k` of the one side at byte `k` of the other, as many as both have; writing does
/// the same in the other direction. The memory of the other side stays as it is.
pub proof fn law_transfer_copies(
    write: bool,
    local: Seq<IoVec>,
    remote: Seq<IoVec>,
    start: Data,
    n: nat,
)
    requires
        iovs_ok(local),
        iovs_ok(remote),
        smaller(bytes_from(local, 0).len() as int, bytes_from(remote, 0).len() as int)
            <= usize::MAX,
        n >= 2 * remote.len(),
    ensures
        ({
            let t = TransferView {
                write,
                local,
                remote,
                next: 0,
                total: 0,
                state: TransferState::ReadTarget,
            };
            let end = transfer_data(t.going_on(0, 0), start, n);
            let here = bytes_from(local, 0);
            let there = bytes_from(remote, 0);
            let count = smaller(here.len() as int, there.len() as int);
            if write {
                &&& end.local == start.local
                &&& end.target == scatter(
                    start.target,
                    there.take(count),
                    gather(start.local, here),
                )
            } else {
                &&& end.target == start.target
                &&& end.local == scatter(start.local, here.take(count), gather(start.target, there))
            }
        }),
{
    let t = TransferView {
        write,
        local,
        remote,
        next: 0,
        total: 0,
        state: TransferState::ReadTarget,
    };
    let here = bytes_from(local, 0);
    let there = bytes_from(remote, 0);
    assert(there.skip(0) =~= there);
    t.lemma_going_on(0, 0);
    assert(here.take(0).len() == 0 && there.take(0).len() == 0);
    let first = t.going_on(0, 0);
    assert(stored(first, start, start));
    lemma_run(first, start, start, n);
    law_transfer_succeeds(write, local, remote, n);
}

/// The first state of a transfer.
pub open spec fn begun(write: bool, local: Seq<IoVec>, remote: Seq<IoVec>) -> TransferView {
    let t = TransferView {
        write,
        local,
        remote,
        next: 0,
        total: 0,
        state: TransferState::ReadTarget,
    };
    t.going_on(0, 0)
}

/// Empty regions make no difference: leaving them out of both lists, the transfer ends with
/// the same number of bytes and leaves the same memory on both sides.
pub proof fn law_transfer_ignores_empty(
    write: bool,
    local: Seq<IoVec>,
    remote: Seq<IoVec>,
    start: Data,
    n: nat,
)
    requires
        iovs_ok(local),
        iovs_ok(remote),
        smaller(bytes_from(local, 0).len() as int, bytes_from(remote, 0).len() as int)
            <= usize::MAX,
        n >= 2 * remote.len(),
    ensures
        ({
            let all = begun(write, local, remote);
            let filled = begun(write, without_empty(local), without_empty(remote));
            &&& transfer_turns(all, n).state == transfer_turns(filled, n).state
            &&& transfer_turns(all, n).total == transfer_turns(filled, n).total
            &&& transfer_data(all, start, n).local == transfer_data(filled, start, n).local
            &&& transfer_data(all, start, n).target == transfer_data(filled, start, n).target
        }),
{
    law_empty_regions(local);
    law_empty_regions(remote);
    law_transfer_succeeds(write, local, remote, n);
    law_transfer_copies(write, local, remote, start, n);
    law_transfer_succeeds(write, without_empty(local), without_empty(remote), n);
    law_transfer_copies(write, without_empty(local), without_empty(remote), start, n);
}

/// A byte that is stored at an address of its own is found there.
proof fn lemma_scatter_at(mem: Bytes, addrs: Seq<usize>, buf: Buffer, k: int)
    requires
        addrs.no_duplicates(),
        0 <= k < addrs.len(),
    ensures
        scatter(mem, addrs, buf)(addrs[k]) == buf(k),
    decreases addrs.len(),
{
    if k < addrs.len() - 1 {
        let most = addrs.drop_last();
        assert forall|i: int, j: int| 0 <= i < most.len() && 0 <= j < most.len() && i != j implies
            most[i] != most[j] by {
            assert(addrs[i] != addrs[j]);
        }
        lemma_scatter_at(mem, most, buf, k);
        assert(addrs[k] != addrs.last());
        assert(most[k] == addrs[k]);
    }
}

/// Reading back through the lists of a write returns what was written: both calls move the
/// same number of bytes, and afterwards the caller has those bytes again, whatever its
/// memory was overwritten with in between. The addresses of those bytes differ from each
/// other on either side.
pub proof fn law_read_back(
    local: Seq<IoVec>,
    remote: Seq<IoVec>,
    start: Data,
    overwritten: Data,
    n: nat,
)
    requires
        iovs_ok(local),
        iovs_ok(remote),
        smaller(bytes_from(local, 0).len() as int, bytes_from(remote, 0).len() as int)
            <= usize::MAX,
        ({
            let count = smaller(
                bytes_from(local, 0).len() as int,
                bytes_from(remote, 0).len() as int,
            );
            &&& bytes_from(local, 0).take(count).no_duplicates()
            &&& bytes_from(remote, 0).take(count).no_duplicates()
        }),
        n >= 2 * remote.len(),
        overwritten.target == transfer_data(begun(true, local, remote), start, n).target,
    ensures
        ({
            let here = bytes_from(local, 0);
            let count = smaller(here.len() as int, bytes_from(remote, 0).len() as int);
            let write = transfer_turns(begun(true, local, remote), n);
            let read = transfer_turns(begun(false, local, remote), n);
            let end = transfer_data(begun(false, local, remote), overwritten, n);
            &&& write.state == TransferState::Done(Ok(count as usize as isize))
            &&& read.state == write.state
            &&& forall|k: int|
                0 <= k < count ==> (end.local)(#[trigger] here[k]) == (start.local)(here[k])
        }),
{
    let here = bytes_from(local, 0);
    let there = bytes_from(remote, 0);
    let count = smaller(here.len() as int, there.len() as int);
    law_transfer_succeeds(true, local, remote, n);
    law_transfer_copies(true, local, remote, start, n);
    law_transfer_succeeds(false, local, remote, n);
    law_transfer_copies(false, local, remote, overwritten, n);
    let end = transfer_data(begun(false, local, remote), overwritten, n);
    assert forall|k: int| 0 <= k < count implies (end.local)(#[trigger] here[k]) == (start.local)(
        here[k],
    ) by {
        lemma_scatter_at(
            overwritten.local,
            here.take(count),
            gather(overwritten.target, there),
            k,
        );
        lemma_scatter_at(start.target, there.take(count), gather(start.local, here), k);
        assert(here.take(count)[k] == here[k]);
        assert(there.take(count)[k] == there[k]);
    }
}

} // verus!
