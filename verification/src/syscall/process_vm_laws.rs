//! What `process_vm_readv` and `process_vm_writev` refuse, ask for and return, said of their
//! arguments and of the results of their steps. What they do to memory is said in
//! [`transfer_data`](crate::syscall::transfer_data).
use vstd::prelude::*;

use crate::error::{AxError, AxResult};
use crate::syscall::iovec::IoVec;
use crate::syscall::process_vm::{
    access_result, process_vm_step, ProcessVmCall, ProcessVmReply, ProcessVmStep, Transfer,
    TransferReply, TransferRequest, TransferState, TransferView,
};
use crate::syscall::transfer_data::begun;

verus! {

/// More than 1024 regions on either side are refused. Any other call first reads the
/// regions of the caller, and keeps all its arguments.
pub proof fn law_process_vm_begins(
    write: bool,
    pid: u32,
    local_iov: usize,
    liovcnt: usize,
    remote_iov: usize,
    riovcnt: usize,
)
    ensures
        ({
            let step = process_vm_step(write, pid, local_iov, liovcnt, remote_iov, riovcnt);
            if liovcnt > 1024 || riovcnt > 1024 {
                step == ProcessVmStep::Done(Err(AxError::InvalidInput))
            } else {
                step matches ProcessVmStep::LoadLocal(call) && call.write == write && call.pid
                    == pid && call.local.addr == local_iov && call.local.count == liovcnt
                    && call.remote.addr == remote_iov && call.remote.count == riovcnt
            }
        }),
{
}

/// Every process may access every other one, and itself.
pub proof fn law_access(pid: u32, caller_pid: u32)
    ensures
        access_result(pid, caller_pid) is Ok,
{
}

/// No region has a negative length.
pub open spec fn no_negative(iovs: Seq<IoVec>) -> bool {
    forall|i: int| 0 <= i < iovs.len() ==> (#[trigger] iovs[i]).iov_len >= 0
}

proof fn lemma_no_negative(iovs: Seq<IoVec>)
    ensures
        no_negative(iovs) <==> crate::syscall::iovec::iovs_ok(iovs),
{
    if no_negative(iovs) {
        assert forall|i: int| 0 <= i < iovs.len() implies (#[trigger] iovs[i]).ok() by {
            assert(iovs[i].iov_len >= 0);
        }
    }
    if crate::syscall::iovec::iovs_ok(iovs) {
        assert forall|i: int| 0 <= i < iovs.len() implies (#[trigger] iovs[i]).iov_len >= 0 by {
            assert(iovs[i].ok());
        }
    }
}

/// The regions of the caller come first, then those of the target, then the target itself,
/// and then the transfer begins between exactly those regions. A negative length on either
/// side is an invalid input. An error of any step is the result of the call, and a result of
/// another kind than the step asks for changes nothing.
pub proof fn law_process_vm_goes_on(
    call: ProcessVmCall,
    local: Vec<IoVec>,
    remote: Vec<IoVec>,
    reply: ProcessVmReply,
    next: ProcessVmStep,
)
    ensures
        ProcessVmStep::LoadLocal(call).leads_to(reply, next) ==> match reply {
            ProcessVmReply::Loaded(Ok(iovs)) => if no_negative(iovs@) {
                next == ProcessVmStep::LoadRemote(call, iovs)
            } else {
                next == ProcessVmStep::Done(Err(AxError::InvalidInput))
            },
            ProcessVmReply::Loaded(Err(e)) => next == ProcessVmStep::Done(Err(e)),
            _ => next == ProcessVmStep::LoadLocal(call),
        },
        ProcessVmStep::LoadRemote(call, local).leads_to(reply, next) ==> match reply {
            ProcessVmReply::Loaded(Ok(iovs)) => if no_negative(iovs@) {
                next == ProcessVmStep::FindTarget(call, local, iovs)
            } else {
                next == ProcessVmStep::Done(Err(AxError::InvalidInput))
            },
            ProcessVmReply::Loaded(Err(e)) => next == ProcessVmStep::Done(Err(e)),
            _ => next == ProcessVmStep::LoadRemote(call, local),
        },
        ProcessVmStep::FindTarget(call, local, remote).leads_to(reply, next) ==> match reply {
            ProcessVmReply::Found(Ok(_)) => next matches ProcessVmStep::Transfer(t) && t@ == begun(
                call.write,
                local@,
                remote@,
            ),
            ProcessVmReply::Found(Err(e)) => next == ProcessVmStep::Done(Err(e)),
            _ => next == ProcessVmStep::FindTarget(call, local, remote),
        },
{
    if let ProcessVmReply::Loaded(Ok(iovs)) = reply {
        lemma_no_negative(iovs@);
    }
}

/// A transfer goes on by its own steps, and a call that is over stays so.
pub proof fn law_process_vm_transfers(
    t: Transfer,
    result: AxResult<isize>,
    reply: ProcessVmReply,
    next: ProcessVmStep,
)
    ensures
        ProcessVmStep::Transfer(t).leads_to(reply, next) ==> match reply {
            ProcessVmReply::Moved(moved) => next matches ProcessVmStep::Transfer(t2) && t2@
                == t@.step(moved),
            _ => next == ProcessVmStep::Transfer(t),
        },
        ProcessVmStep::Done(result).leads_to(reply, next) ==> next == ProcessVmStep::Done(result),
{
}

/// An error of the target ends a transfer with that error; nothing else does. The region in
/// progress is read or written from its base on, and never more of it than its length.
pub proof fn law_transfer_steps(t: TransferView, reply: TransferReply)
    requires
        t.wf(),
    ensures
        t.state is ReadTarget || t.state is WriteTarget ==> (reply matches TransferReply::Target(
            Err(e),
        ) ==> t.step(reply).state == TransferState::Done(Err(e))),
        t.step(reply).state matches TransferState::Done(Err(e)) ==> t.state
            == TransferState::Done(Err(e)) || reply == TransferReply::Target(Err(e)),
        t.state is Done ==> t.step(reply) == t,
        t.state is CopyLocal && !(reply is Copied) ==> t.step(reply) == t,
        (t.state is ReadTarget || t.state is WriteTarget) && !(reply is Target) ==> t.step(reply)
            == t,
        t.step(reply).local == t.local && t.step(reply).remote == t.remote && t.step(reply).write
            == t.write,
        match t.spec_request() {
            None => t.state is Done,
            Some(TransferRequest::ReadTarget { base, len }) => !t.write && base
                == t.remote[t.next].iov_base && len == t.remote[t.next].iov_len,
            Some(TransferRequest::CopyOut) => !t.write,
            Some(TransferRequest::CopyIn { len }) => t.write && len == t.remote[t.next].iov_len,
            Some(TransferRequest::WriteTarget { base, len }) => t.write && base
                == t.remote[t.next].iov_base && 0 < len <= t.remote[t.next].iov_len,
        },
{
}

} // verus!
