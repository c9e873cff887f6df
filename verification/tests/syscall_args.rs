use monkeyos::ext4_file::FileType;
use monkeyos::fd_calls::{
    dev_major, dev_minor, epoll_deadline, epoll_round, fchownat_nofollow, flock_check,
    lseek_origin, mkdir_components, mount_action, poll_deadline, poll_round, ppoll_round,
    readlink_len, rename_action, sendfile_len, umount_target, utimensat_times, FlockOp,
    MountAction, RenameAction, SeekFrom, TimeSpec, UmountTarget, UTIME_NOW,
};
use monkeyos::fd_table::FdError;
use monkeyos::task_mem::{
    get_robust_list_plan, syscall_flow, syscall_ret, MemError, UserTaskControlFlow,
};
use monkeyos::fd_calls::{resolve_base, ResolveBase, AT_CWD};

#[test]
fn seek_origins() {
    assert_eq!(lseek_origin(10, 0), Some(SeekFrom::SET(10)));
    assert_eq!(lseek_origin(u64::MAX, 1), Some(SeekFrom::CURRENT(-1)));
    assert_eq!(lseek_origin(5, 2), Some(SeekFrom::END(5)));
    assert_eq!(lseek_origin(5, 3), None);
}

#[test]
fn ppoll_counts_ready_descriptors() {
    assert_eq!(ppoll_round(&[0, 1, 0, 4], 0, 100), (2, true));
    assert_eq!(ppoll_round(&[0, 0], 50, 100), (0, false));
    assert_eq!(ppoll_round(&[0, 0], 100, 100), (0, true));
    assert_eq!(ppoll_round(&[], 0, 0), (0, true));
}

#[test]
fn utimensat_fills_current_time() {
    let now = TimeSpec { sec: 7, nsec: 8 };
    assert_eq!(utimensat_times(None, now), [now, now]);
    let a = TimeSpec { sec: 1, nsec: 2 };
    let b = TimeSpec { sec: 3, nsec: UTIME_NOW };
    assert_eq!(utimensat_times(Some([a, b]), now), [a, now]);
    assert_eq!(utimensat_times(Some([b, a]), now), [now, a]);
}

#[test]
fn transfer_lengths() {
    assert_eq!(sendfile_len(100, 30, 50), 50);
    assert_eq!(sendfile_len(100, 80, 50), 20);
    assert_eq!(sendfile_len(100, 100, 50), 0);
    assert_eq!(readlink_len(12, 5), 5);
    assert_eq!(readlink_len(3, 5), 3);
}

#[test]
fn mkdir_walks_components() {
    assert_eq!(mkdir_components(b"/a//b/"), Some((true, vec![(1, 2), (4, 5)])));
    assert_eq!(mkdir_components(b"usr/lib"), Some((false, vec![(0, 3), (4, 7)])));
    assert_eq!(mkdir_components(b"/"), None);
    assert_eq!(mkdir_components(b""), None);
}

#[test]
fn mount_kinds() {
    assert_eq!(mount_action(b"none", b"tmpfs"), MountAction::Virtual);
    assert_eq!(mount_action(b"/dev/sda", b"proc"), MountAction::Virtual);
    assert_eq!(mount_action(b"none", b"ext4"), MountAction::NoDevice);
    assert_eq!(mount_action(b"", b"vfat"), MountAction::NoDevice);
    assert_eq!(mount_action(b"/dev/sda2", b"vfat"), MountAction::Device);
}

#[test]
fn statx_device_numbers() {
    // makedev(8, 1) and makedev(0x12345, 0x6789a)
    assert_eq!(dev_major(0x801), 8);
    assert_eq!(dev_minor(0x801), 1);
    let dev: u64 = ((0x12345u64 & 0xffff_f000) << 32)
        | ((0x12345u64 & 0xfff) << 8)
        | ((0x6789au64 & 0xffff_ff00) << 12)
        | (0x6789au64 & 0xff);
    assert_eq!(dev_major(dev), 0x12345);
    assert_eq!(dev_minor(dev), 0x6789a);
}

#[test]
fn umount_targets() {
    assert_eq!(umount_target(b""), Err(FdError::EINVAL));
    assert_eq!(umount_target(b"/dev/sda1"), Ok(UmountTarget::Device));
    assert_eq!(umount_target(b"/mnt"), Ok(UmountTarget::Path));
    assert_eq!(umount_target(b"/de"), Ok(UmountTarget::Path));
}

#[test]
fn flock_operations() {
    assert_eq!(flock_check(false, 1), Err(FdError::EBADF));
    assert_eq!(flock_check(true, 1), Ok(FlockOp::Shared));
    assert_eq!(flock_check(true, 6), Ok(FlockOp::Exclusive));
    assert_eq!(flock_check(true, 12), Ok(FlockOp::Unlock));
    assert_eq!(flock_check(true, 3), Err(FdError::EINVAL));
    assert_eq!(flock_check(true, 4), Err(FdError::EINVAL));
}

#[test]
fn poll_and_epoll_rounds() {
    assert_eq!(poll_deadline(100, 2), Some(100 + 2 * 0x100_0000));
    assert_eq!(poll_deadline(100, 0), None);
    assert_eq!(poll_deadline(100, -1), None);
    assert_eq!(poll_round(&[0, 0], 5, None), (0, false));
    assert_eq!(poll_round(&[0, 0], 5, Some(5)), (0, true));
    assert_eq!(poll_round(&[0, 3], 0, None), (1, true));
    assert_eq!(epoll_deadline(7, u64::MAX), u64::MAX);
    assert_eq!(epoll_deadline(7, 1), 7 + 0x100_0000);
    assert_eq!(epoll_round(&[false, true, false, true], 4, 0, 10), (vec![1, 3], true));
    assert_eq!(epoll_round(&[false, false], 4, 0, 10), (vec![], false));
    assert_eq!(epoll_round(&[false], 4, 10, 10), (vec![], true));
}

#[test]
fn chown_and_rename_decisions() {
    assert!(fchownat_nofollow(0x100));
    assert!(!fchownat_nofollow(0x200));
    assert_eq!(rename_action(FileType::File), RenameAction::CopyFile);
    assert_eq!(rename_action(FileType::Directory), RenameAction::MakeDirectory);
}

#[test]
fn syscall_returns_and_robust_list() {
    assert_eq!(syscall_ret(Ok(5)), 5);
    assert_eq!(syscall_ret(Err(22)), (-22isize) as usize);
    assert_eq!(syscall_flow(true, 139, 139), UserTaskControlFlow::Break);
    assert_eq!(syscall_flow(true, 64, 139), UserTaskControlFlow::Continue);
    assert_eq!(syscall_flow(false, 139, 139), UserTaskControlFlow::Continue);
    let p = get_robust_list_plan(0x1000, true, 0x2000, true);
    assert!(p.write_head && p.write_len && p.result == Ok(()));
    let p = get_robust_list_plan(0x1000, true, 0x2000, false);
    assert!(p.write_head && !p.write_len && p.result == Err(MemError::EFAULT));
    let p = get_robust_list_plan(0x8000_0000_0000_0000, true, 0, true);
    assert!(!p.write_head && !p.write_len && p.result == Err(MemError::EFAULT));
    let p = get_robust_list_plan(0, false, 0, false);
    assert!(!p.write_head && !p.write_len && p.result == Ok(()));
}

#[test]
fn path_bases() {
    assert_eq!(resolve_base(AT_CWD, b"/etc/passwd"), ResolveBase::Absolute);
    assert_eq!(resolve_base(3, b"/etc"), ResolveBase::Absolute);
    assert_eq!(resolve_base(AT_CWD, b"a.txt"), ResolveBase::Cwd);
    assert_eq!(resolve_base(5, b"a.txt"), ResolveBase::Descriptor(5));
    assert_eq!(resolve_base(AT_CWD, b""), ResolveBase::Cwd);
}
