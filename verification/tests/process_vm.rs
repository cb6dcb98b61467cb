use std::collections::BTreeMap;

use starry_mm::error::{AxError, AxResult};
use starry_mm::syscall::iovec::{read_iovecs, IoVec, IovecIter};
use starry_mm::syscall::process_vm::{
    check_process_vm_access, cut_buffer, sys_process_vm_readv, sys_process_vm_writev, CopyChunk,
    ProcessVmReply, ProcessVmStep, Transfer, TransferReply, TransferRequest, TransferState,
};

fn iov(iov_base: usize, iov_len: isize) -> IoVec {
    IoVec { iov_base, iov_len }
}

type Memory = BTreeMap<usize, u8>;

fn memory(start: usize, bytes: &[u8]) -> Memory {
    bytes.iter().enumerate().map(|(i, b)| (start + i, *b)).collect()
}

fn bytes(m: &Memory, start: usize, len: usize) -> Vec<u8> {
    (start..start + len).map(|a| m.get(&a).copied().unwrap_or(0)).collect()
}

fn serve(t: &Transfer, req: TransferRequest, buf: &mut Vec<u8>, local: &mut Memory, target: &mut Memory) -> TransferReply {
    match req {
        TransferRequest::ReadTarget { base, len } => {
            *buf = bytes(target, base, len);
            TransferReply::Target(Ok(()))
        }
        TransferRequest::CopyOut => {
            for c in &t.chunks {
                for i in 0..c.len {
                    local.insert(c.addr + i, buf[c.offset + i]);
                }
            }
            TransferReply::Copied
        }
        TransferRequest::CopyIn { len } => {
            *buf = vec![0; len];
            for c in &t.chunks {
                for i in 0..c.len {
                    buf[c.offset + i] = local[&(c.addr + i)];
                }
            }
            TransferReply::Copied
        }
        TransferRequest::WriteTarget { base, len } => {
            for i in 0..len {
                target.insert(base + i, buf[i]);
            }
            TransferReply::Target(Ok(()))
        }
    }
}

fn run(first: ProcessVmStep, local_iov: Vec<IoVec>, remote_iov: Vec<IoVec>, local: &mut Memory, target: &mut Memory) -> AxResult<isize> {
    let mut step = first
        .resume(ProcessVmReply::Loaded(Ok(local_iov)))
        .resume(ProcessVmReply::Loaded(Ok(remote_iov)))
        .resume(ProcessVmReply::Found(Ok(())));
    let mut buf = Vec::new();
    loop {
        let reply = match &step {
            ProcessVmStep::Transfer(t) => match t.request() {
                Some(req) => serve(t, req, &mut buf, local, target),
                None => match t.state {
                    TransferState::Done(r) => return r,
                    _ => panic!("nothing to do"),
                },
            },
            ProcessVmStep::Done(r) => return *r,
            other => panic!("no transfer: {other:?}"),
        };
        step = step.resume(ProcessVmReply::Moved(reply));
    }
}

fn readv() -> ProcessVmStep {
    sys_process_vm_readv(7, 0x100, 2, 0x200, 2, 0, 1)
}

fn writev() -> ProcessVmStep {
    sys_process_vm_writev(7, 0x100, 2, 0x200, 2, 0, 1)
}

#[test]
fn reading_scatters_the_bytes_in_order() {
    let mut local = Memory::new();
    let mut target = memory(0x9000, b"abcdefgh");
    let l = vec![iov(0x1000, 3), iov(0x2000, 0), iov(0x3000, 5)];
    let r = vec![iov(0x9000, 2), iov(0x9002, 0), iov(0x9002, 6)];
    assert_eq!(run(readv(), l, r, &mut local, &mut target), Ok(8));
    assert_eq!(bytes(&local, 0x1000, 3), b"abc");
    assert_eq!(bytes(&local, 0x3000, 5), b"defgh");
    assert_eq!(local.len(), 8);
}

#[test]
fn writing_gathers_the_bytes_in_order() {
    let mut local = memory(0x1000, b"abc");
    local.extend(memory(0x3000, b"defgh"));
    let mut target = Memory::new();
    let l = vec![iov(0x1000, 3), iov(0x2000, 0), iov(0x3000, 5)];
    let r = vec![iov(0x9000, 2), iov(0xa000, 0), iov(0xb000, 6)];
    assert_eq!(run(writev(), l, r, &mut local, &mut target), Ok(8));
    assert_eq!(bytes(&target, 0x9000, 2), b"ab");
    assert_eq!(bytes(&target, 0xb000, 6), b"cdefgh");
    assert_eq!(target.len(), 8);
}

#[test]
fn a_transfer_moves_as_many_bytes_as_both_sides_have() {
    let mut local = Memory::new();
    let mut target = memory(0x9000, b"abcdefgh");
    let r = || vec![iov(0x9000, 4), iov(0x9004, 4)];
    assert_eq!(run(readv(), vec![iov(0x1000, 5)], r(), &mut local, &mut target), Ok(5));
    assert_eq!(bytes(&local, 0x1000, 6), b"abcde\0");
    assert_eq!(run(readv(), vec![iov(0x1000, 4)], r(), &mut local, &mut target), Ok(4));
    assert_eq!(run(readv(), vec![iov(0x1000, 50)], r(), &mut local, &mut target), Ok(8));
    assert_eq!(run(readv(), vec![], r(), &mut local, &mut target), Ok(0));
    assert_eq!(run(readv(), vec![iov(0x1000, 5)], vec![], &mut local, &mut target), Ok(0));
    let mut source = memory(0x1000, b"12345");
    assert_eq!(run(writev(), vec![iov(0x1000, 5)], r(), &mut source, &mut target), Ok(5));
    assert_eq!(bytes(&target, 0x9000, 8), b"12345fgh");
    assert_eq!(run(writev(), vec![], r(), &mut source, &mut target), Ok(0));
}

#[test]
fn empty_regions_in_front_are_passed_over() {
    let mut local = Memory::new();
    let mut target = memory(0x9000, b"ab");
    let l = vec![iov(0x1000, 0), iov(0x2000, 2)];
    let r = vec![iov(0x9000, 0), iov(0x9000, 2)];
    assert_eq!(run(readv(), l, r, &mut local, &mut target), Ok(2));
    assert_eq!(bytes(&local, 0x2000, 2), b"ab");
}

#[test]
fn too_many_regions_are_refused() {
    for step in [
        sys_process_vm_readv(7, 0, 1025, 0, 1, 0, 7),
        sys_process_vm_readv(7, 0, 1, 0, 1025, 0, 7),
        sys_process_vm_writev(7, 0, 1025, 0, 1, 0, 7),
        sys_process_vm_writev(7, 0, 1, 0, 1025, 0, 7),
    ] {
        assert!(matches!(step, ProcessVmStep::Done(Err(AxError::InvalidInput))));
    }
    let step = sys_process_vm_writev(7, 0x10, 1024, 0x20, 1024, 0, 7);
    match step {
        ProcessVmStep::LoadLocal(call) => {
            assert!(call.write);
            assert_eq!((call.pid, call.local.addr, call.remote.count), (7, 0x10, 1024));
        }
        other => panic!("refused: {other:?}"),
    }
}

#[test]
fn errors_end_a_call() {
    let bad = || vec![iov(0x1000, 1), iov(0x2000, -1)];
    let step = readv().resume(ProcessVmReply::Loaded(Ok(bad())));
    assert!(matches!(step, ProcessVmStep::Done(Err(AxError::InvalidInput))));
    let step = readv()
        .resume(ProcessVmReply::Loaded(Ok(vec![])))
        .resume(ProcessVmReply::Loaded(Ok(bad())));
    assert!(matches!(step, ProcessVmStep::Done(Err(AxError::InvalidInput))));
    let step = readv().resume(ProcessVmReply::Loaded(Err(AxError::BadAddress)));
    assert!(matches!(step, ProcessVmStep::Done(Err(AxError::BadAddress))));
    let step = readv()
        .resume(ProcessVmReply::Loaded(Ok(vec![])))
        .resume(ProcessVmReply::Loaded(Ok(vec![])))
        .resume(ProcessVmReply::Found(Err(AxError::Other(-3))));
    assert!(matches!(step, ProcessVmStep::Done(Err(AxError::Other(-3)))));
}

#[test]
fn an_error_of_the_target_ends_a_transfer() {
    let mut t = Transfer::new(false, vec![iov(0x1000, 8)], vec![iov(0x9000, 8)]);
    assert_eq!(t.request(), Some(TransferRequest::ReadTarget { base: 0x9000, len: 8 }));
    t.resume(TransferReply::Target(Err(AxError::BadAddress)));
    assert_eq!(t.state, TransferState::Done(Err(AxError::BadAddress)));
    assert_eq!(t.request(), None);
    let mut t = Transfer::new(true, vec![iov(0x1000, 3)], vec![iov(0x9000, 8)]);
    assert_eq!(t.request(), Some(TransferRequest::CopyIn { len: 8 }));
    t.resume(TransferReply::Copied);
    assert_eq!(t.request(), Some(TransferRequest::WriteTarget { base: 0x9000, len: 3 }));
    t.resume(TransferReply::Target(Err(AxError::BadAddress)));
    assert_eq!(t.state, TransferState::Done(Err(AxError::BadAddress)));
}

#[test]
fn access_is_always_granted() {
    assert_eq!(check_process_vm_access(7, 7), Ok(()));
    assert_eq!(check_process_vm_access(7, 1), Ok(()));
}

#[test]
fn regions_are_checked() {
    let good = vec![iov(0x1000, 0), iov(0x2000, 5)];
    assert_eq!(read_iovecs(Ok(good.clone())), Ok(good));
    assert_eq!(read_iovecs(Ok(vec![iov(0, -1)])), Err(AxError::InvalidInput));
    assert_eq!(read_iovecs(Err(AxError::BadAddress)), Err(AxError::BadAddress));
}

#[test]
fn a_position_moves_over_regions() {
    let iovs = vec![iov(0x1000, 0), iov(0x2000, 4), iov(0x3000, 0), iov(0x4000, 3)];
    let mut iter = IovecIter::new(&iovs);
    assert_eq!(iter.next_chunk(), Some((0x2000, 4)));
    iter.advance(1);
    assert_eq!(iter.next_chunk(), Some((0x2001, 3)));
    iter.advance(3);
    assert_eq!(iter.next_chunk(), Some((0x4000, 3)));
    iter.advance(5);
    assert_eq!(iter.next_chunk(), None);
    let empty: Vec<IoVec> = vec![iov(0x1000, 0)];
    assert_eq!(IovecIter::new(&empty).next_chunk(), None);
}

#[test]
fn advancing_twice_is_advancing_by_the_sum() {
    let iovs = vec![iov(0x1000, 0), iov(0x2000, 4), iov(0x3000, 0), iov(0x4000, 3)];
    for a in 0..10 {
        for b in 0..10 {
            let mut twice = IovecIter::new(&iovs);
            twice.advance(a);
            twice.advance(b);
            let mut sum = IovecIter::new(&iovs);
            sum.advance(a + b);
            assert_eq!((twice.idx, twice.off), (sum.idx, sum.off));
            assert_eq!(sum.next_chunk().is_none(), a + b >= 7);
        }
    }
    let mut past = IovecIter::new(&iovs);
    past.advance(9);
    assert_eq!((past.idx, past.off), (4, 2));
}

#[test]
fn reading_back_returns_what_was_written() {
    let mut local = memory(0x1000, b"abc");
    local.extend(memory(0x3000, b"defgh"));
    let before = local.clone();
    let mut target = Memory::new();
    let l = || vec![iov(0x1000, 3), iov(0x2000, 0), iov(0x3000, 5)];
    let r = || vec![iov(0x9000, 2), iov(0xb000, 5)];
    assert_eq!(run(writev(), l(), r(), &mut local, &mut target), Ok(7));
    for byte in local.values_mut() {
        *byte = b'x';
    }
    assert_eq!(run(readv(), l(), r(), &mut local, &mut target), Ok(7));
    assert_eq!(bytes(&local, 0x1000, 3), bytes(&before, 0x1000, 3));
    assert_eq!(bytes(&local, 0x3000, 5), b"defgx");
}

#[test]
fn empty_regions_make_no_difference() {
    let mut target = memory(0x9000, b"abcd");
    let (mut all, mut filled) = (Memory::new(), Memory::new());
    let l = vec![iov(0x1000, 0), iov(0x2000, 1), iov(0x2800, 0), iov(0x3000, 9)];
    let r = vec![iov(0x9000, 3), iov(0x9003, 0), iov(0x9003, 1), iov(0x9004, 0)];
    let some = |v: &Vec<IoVec>| v.iter().copied().filter(|i| i.iov_len != 0).collect::<Vec<_>>();
    let (l2, r2) = (some(&l), some(&r));
    assert_eq!(run(readv(), l, r, &mut all, &mut target), Ok(4));
    assert_eq!(run(readv(), l2, r2, &mut filled, &mut target), Ok(4));
    assert_eq!(all, filled);
}

#[test]
fn a_buffer_is_cut_along_the_regions() {
    let iovs = vec![iov(0x2000, 4), iov(0x3000, 0), iov(0x4000, 3)];
    let mut iter = IovecIter::new(&iovs);
    let (chunks, count) = cut_buffer(&mut iter, 6);
    assert_eq!(count, 6);
    assert_eq!(
        chunks,
        vec![
            CopyChunk { addr: 0x2000, offset: 0, len: 4 },
            CopyChunk { addr: 0x4000, offset: 4, len: 2 },
        ]
    );
    let (chunks, count) = cut_buffer(&mut iter, 6);
    assert_eq!((chunks, count), (vec![CopyChunk { addr: 0x4002, offset: 0, len: 1 }], 1));
    assert_eq!(cut_buffer(&mut iter, 6), (vec![], 0));
}
