use monkeyos::fd_select::{
    pselect_deadline, pselect_limit, pselect_round, select_update, FdPoll, PselectAction,
    PselectResults, PselectSets, SelectKind,
};
use monkeyos::fd_table::{FcntlOutcome, FdError, FdTable};
use monkeyos::fd_types::{FcntlCmd, FutexFlags, SpliceFlags, AT_CWD};
use monkeyos::splice::{splice_advance, splice_check, splice_io, splice_write_len, SpliceError, SpliceIo, SPLICE_MAX};

fn table(slots: &[Option<u64>], nofile: usize) -> FdTable {
    let mut t = FdTable::new(nofile);
    t.files = slots.to_vec();
    t
}

#[test]
fn set_then_get_reads_back() {
    let mut t = table(&[None, None, None], 3);
    t.set_fd(1, 77);
    assert_eq!(t.get_fd(1), Some(77));
    assert_eq!(t.get_fd(0), None);
    // at or above the limit nothing is stored and nothing is read
    t.set_fd(3, 5);
    assert_eq!(t.files.len(), 3);
    assert_eq!(t.get_fd(3), None);
    t.clear_fd(1);
    assert_eq!(t.get_fd(1), None);
    t.clear_fd(10);
    assert_eq!(t.files.len(), 3);
}

#[test]
fn alloc_takes_lowest_free_then_grows_to_the_limit() {
    let mut t = table(&[Some(1), None, Some(2)], 4);
    assert_eq!(t.alloc_fd(), Some(1));
    t.set_fd(1, 9);
    assert_eq!(t.alloc_fd(), Some(3));
    assert_eq!(t.files.len(), 4);
    t.set_fd(3, 8);
    assert_eq!(t.alloc_fd(), None);
}

#[test]
fn dup_dup3_and_close() {
    let mut t = table(&[Some(10), None], 4);
    assert_eq!(t.dup(0), Ok(1));
    assert_eq!(t.get_fd(1), Some(10));
    assert_eq!(t.dup3(0, 1), Ok(1));
    let mut t2 = table(&[Some(10), None, None, None], 4);
    assert_eq!(t2.dup3(0, 3), Ok(3));
    assert_eq!(t2.get_fd(3), Some(10));
    assert_eq!(t2.dup3(2, 1), Err(FdError::EBADF));
    assert_eq!(t2.close(3), Ok(0));
    assert_eq!(t2.get_fd(3), None);
    let mut full = table(&[Some(1), Some(2)], 2);
    assert_eq!(full.dup(0), Err(FdError::EMFILE));
    assert_eq!(FdError::EBADF.errno(), 9);
    assert_eq!(FdError::EMFILE.errno(), 24);
    assert_eq!(FdError::EINVAL.errno(), 22);
}

#[test]
fn fcntl_commands() {
    let mut t = table(&[Some(10), None, None], 3);
    assert!(matches!(t.fcntl(0, 1), Ok(FcntlOutcome::Done(1))));
    assert!(matches!(t.fcntl(0, 3), Ok(FcntlOutcome::GetFlags(10))));
    assert!(matches!(t.fcntl(0, 4), Ok(FcntlOutcome::SetFlags(10))));
    assert!(matches!(t.fcntl(0, 2), Ok(FcntlOutcome::Done(0))));
    assert!(matches!(t.fcntl(0, 0), Ok(FcntlOutcome::Done(1))));
    assert_eq!(t.get_fd(1), Some(10));
    assert!(matches!(t.fcntl(0, 0x406), Ok(FcntlOutcome::Done(2))));
    assert!(matches!(t.fcntl(0, 0x406), Err(FdError::EMFILE)));
    assert!(matches!(t.fcntl(0, 99), Err(FdError::EINVAL)));
    let mut e = table(&[None], 1);
    assert!(matches!(e.fcntl(0, 1), Err(FdError::EBADF)));
}

#[test]
fn command_and_flag_numbers() {
    assert_eq!(AT_CWD, -100);
    assert_eq!(FcntlCmd::from_usize(0x406), Some(FcntlCmd::DUPFDCLOEXEC));
    assert_eq!(FcntlCmd::SETLKW.code(), 7);
    assert_eq!(FcntlCmd::from_usize(8), None);
    assert_eq!(FutexFlags::from_usize(9), Some(FutexFlags::WaitBitset));
    assert_eq!(FutexFlags::from_usize(10), None);
    let f = SpliceFlags::from_bits_truncate(0xff);
    assert_eq!(f.bits, 0xf);
    assert!(f.contains(SpliceFlags::SPLICE_F_NONBLOCK));
    assert!(!SpliceFlags::empty().contains(SpliceFlags::SPLICE_F_MORE));
}

#[test]
fn select_pass_sets_ready_bits() {
    // descriptors 1, 3 and 65 requested
    let set = [0b1010u64, 0b10, 0, 0];
    let mut result = [u64::MAX; 4];
    let mut polls = vec![FdPoll::NotReady; 70];
    polls[1] = FdPoll::Ready;
    polls[3] = FdPoll::NoFile;
    polls[65] = FdPoll::Ready;
    let n = select_update(SelectKind::Read, &set, &mut result, 70, &polls);
    assert_eq!(n, 2);
    // read: unrequested bits below 70 are cleared, requested ones show readiness
    assert_eq!(result[0], 0b10);
    assert_eq!(result[1], 0b10 | !((1u64 << 6) - 1));
    assert_eq!(result[2], u64::MAX);
    let mut wresult = [u64::MAX; 4];
    let n = select_update(SelectKind::Write, &set, &mut wresult, 70, &polls);
    assert_eq!(n, 2);
    // write: unrequested bits are left alone
    assert_eq!(wresult[0], !0b1000u64);
    assert_eq!(wresult[1], u64::MAX);
}

#[test]
fn pselect_rounds_return_or_wait() {
    assert_eq!(pselect_limit(1000), 255);
    assert_eq!(pselect_limit(7), 7);
    assert_eq!(pselect_deadline(100, Some(50)), 150);
    assert_eq!(pselect_deadline(100, None), u64::MAX);
    let sets = PselectSets { read: Some(vec![0b1, 0, 0, 0]), write: None, except: Some(vec![0b1, 0, 0, 0]) };
    let mut results = PselectResults { read: vec![0; 4], write: vec![0; 4], except: vec![0; 4] };
    let idle = vec![FdPoll::NotReady; 8];
    assert_eq!(pselect_round(&sets, &mut results, 8, &idle, &idle, &idle, 10, 20), PselectAction::Wait);
    assert_eq!(pselect_round(&sets, &mut results, 8, &idle, &idle, &idle, 21, 20), PselectAction::Return(0));
    let mut ready = idle.clone();
    ready[0] = FdPoll::Ready;
    assert_eq!(pselect_round(&sets, &mut results, 8, &ready, &idle, &ready, 10, 20), PselectAction::Return(2));
    assert_eq!(results.read[0], 1);
    assert_eq!(results.except[0], 1);
    assert_eq!(results.write, vec![0; 4]);
}

#[test]
fn splice_checks_and_io() {
    assert_eq!(splice_check(false, true, 3, 4, true, true, false, false, 10), Err(SpliceError::EBADF));
    assert_eq!(splice_check(true, false, 3, 4, true, true, false, false, 10), Err(SpliceError::EBADF));
    assert_eq!(splice_write_len(0), None);
    assert_eq!(splice_write_len(12), Some(12));
    assert_eq!(splice_check(true, true, 3, 4, false, false, false, false, 10), Err(SpliceError::EINVAL));
    assert_eq!(splice_check(true, true, 3, 4, true, false, true, false, 10), Err(SpliceError::ESPIPE));
    assert_eq!(splice_check(true, true, 3, 4, false, true, false, true, 10), Err(SpliceError::ESPIPE));
    assert_eq!(splice_check(true, true, 3, 3, true, true, false, false, 10), Err(SpliceError::EINVAL));
    assert_eq!(splice_check(true, true, 3, 4, true, false, false, true, 10), Ok(10));
    assert_eq!(splice_check(true, true, 3, 4, true, false, false, false, 1 << 20), Ok(SPLICE_MAX));
    let nb = SpliceFlags::from_bits_truncate(2);
    assert_eq!(splice_io(true, &nb, None), SpliceIo::PipeNonblocking);
    assert_eq!(splice_io(true, &SpliceFlags::empty(), None), SpliceIo::PipeBlocking);
    assert_eq!(splice_io(false, &nb, Some(40)), SpliceIo::At(40));
    assert_eq!(splice_io(false, &nb, None), SpliceIo::Sequential);
    assert_eq!(splice_advance(40, 12), 52);
}
