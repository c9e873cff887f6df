//! Argument decisions of descriptor system calls that the file layer then
//! carries out: seek origins, `ppoll` rounds, `utimensat` times, the length
//! `sendfile` and `readlinkat` move, the directories `mkdirat` walks, and
//! what `mount` does for a file-system type.

use vstd::prelude::*;
use crate::ext4_file::FileType;
use crate::fd_table::FdError;

verus! {

/// Where a seek counts from, with its offset.
#[derive(Copy, Clone, Debug, PartialEq, Eq, Structural)]
pub enum SeekFrom {
    /// From the start of the file.
    SET(u64),
    /// From the current position (signed).
    CURRENT(i64),
    /// From the end of the file (signed).
    END(i64),
}

/// `lseek`'s origin: `whence` 0, 1 or 2, the offset read as unsigned for
/// the start and as signed otherwise; `None` (EINVAL) for another `whence`.
pub fn lseek_origin(offset: u64, whence: u64) -> (r: Option<SeekFrom>)
    ensures
        r == if whence == 0 {
            Some(SeekFrom::SET(offset))
        } else if whence == 1 {
            Some(SeekFrom::CURRENT(offset as i64))
        } else if whence == 2 {
            Some(SeekFrom::END(offset as i64))
        } else {
            None::<SeekFrom>
        },
{
    if whence == 0 {
        Some(SeekFrom::SET(offset))
    } else if whence == 1 {
        Some(SeekFrom::CURRENT(offset as i64))
    } else if whence == 2 {
        Some(SeekFrom::END(offset as i64))
    } else {
        None
    }
}

/// Number of entries with some event among the first `n` returned event sets.
pub open spec fn events_count(revents: Seq<u16>, n: int) -> int
    decreases n,
{
    if n <= 0 {
        0
    } else {
        events_count(revents, n - 1) + if revents[n - 1] != 0 {
            1int
        } else {
            0int
        }
    }
}

/// One round of `ppoll`: the number of descriptors with events (`revents`
/// is what polling each one gave, 0 for a descriptor with no file), and
/// whether the call returns now: when some descriptor has events or the
/// deadline `etime` has come.
pub fn ppoll_round(revents: &[u16], now: u64, etime: u64) -> (r: (usize, bool))
    ensures
        r.0 == events_count(revents@, revents@.len() as int),
        r.1 == (now >= etime || r.0 > 0),
{
    let mut num: usize = 0;
    let mut i: usize = 0;
    while i < revents.len()
        invariant
            i <= revents@.len(),
            num == events_count(revents@, i as int),
            num <= i,
        decreases revents@.len() - i,
    {
        if revents[i] != 0 {
            num = num + 1;
        }
        i = i + 1;
    }
    (num, now >= etime || num > 0)
}

/// A `timespec`.
#[derive(Copy, Clone, Debug, PartialEq, Eq, Structural)]
pub struct TimeSpec {
    pub sec: u64,
    pub nsec: u64,
}

/// `tv_nsec` value asking for the current time.
pub const UTIME_NOW: u64 = 0x3fff_ffff;

/// The access and modification times `utimensat` sets: both the current
/// time when no times are given; otherwise each given time, with a time
/// whose `tv_nsec` is `UTIME_NOW` replaced by the current time.
pub fn utimensat_times(given: Option<[TimeSpec; 2]>, now: TimeSpec) -> (r: [TimeSpec; 2])
    ensures
        match given {
            None => r[0] == now && r[1] == now,
            Some(ts) => (r[0] == if ts[0].nsec == UTIME_NOW {
                now
            } else {
                ts[0]
            }) && (r[1] == if ts[1].nsec == UTIME_NOW {
                now
            } else {
                ts[1]
            }),
        },
{
    match given {
        None => [now, now],
        Some(ts) => {
            let a = if ts[0].nsec == UTIME_NOW {
                now
            } else {
                ts[0]
            };
            let b = if ts[1].nsec == UTIME_NOW {
                now
            } else {
                ts[1]
            };
            [a, b]
        },
    }
}

/// Bytes `sendfile` moves: what is left of the input file from `offset`,
/// at most `count`.
pub fn sendfile_len(file_size: u64, offset: u64, count: u64) -> (r: u64)
    requires
        offset <= file_size,
    ensures
        r == if file_size - offset < count {
            file_size - offset
        } else {
            count as int
        },
{
    let left = file_size - offset;
    if left < count {
        left
    } else {
        count
    }
}

/// Bytes of a link target `readlinkat` copies into a buffer of `size` bytes.
pub fn readlink_len(target_len: u64, size: u64) -> (r: u64)
    ensures
        r == if target_len < size {
            target_len
        } else {
            size
        },
{
    if target_len < size {
        target_len
    } else {
        size
    }
}

/// The components of `path`: the maximal runs of bytes other than `/`, as
/// `(start, end)` ranges, among the first `n` bytes.
pub open spec fn components_spec(path: Seq<u8>, n: int) -> Seq<(int, int)>
    decreases n,
{
    if n <= 0 {
        Seq::empty()
    } else {
        let prev = components_spec(path, n - 1);
        if path[n - 1] == 47 {
            prev
        } else if n >= 2 && path[n - 2] != 47 {
            prev.update(prev.len() - 1, (prev.last().0, n))
        } else {
            prev.push((n - 1, n))
        }
    }
}

proof fn lemma_components_shape(path: Seq<u8>, n: int)
    requires
        0 <= n <= path.len(),
    ensures
        n >= 1 && path[n - 1] != 47 ==> components_spec(path, n).len() > 0 && components_spec(path, n).last().1 == n,
        n >= 2 && path[n - 2] != 47 ==> components_spec(path, n - 1).len() > 0,
        forall|k: int| 0 <= k < components_spec(path, n).len() ==> 0 <= (#[trigger] components_spec(path, n)[k]).0 < components_spec(path, n)[k].1 <= n,
    decreases n,
{
    if n > 0 {
        lemma_components_shape(path, n - 1);
        if n >= 2 {
            lemma_components_shape(path, n - 1);
        }
    }
}

/// The directories `mkdirat` creates or opens in turn for `path`: whether it
/// starts at the root, and its non-empty components as byte ranges; `None`
/// (EEXIST) when there is none, as for `/`.
pub fn mkdir_components(path: &[u8]) -> (r: Option<(bool, Vec<(usize, usize)>)>)
    ensures
        match r {
            None => components_spec(path@, path@.len() as int).len() == 0,
            Some((absolute, comps)) => {
                &&& components_spec(path@, path@.len() as int).len() > 0
                &&& absolute == (path@.len() > 0 && path@[0] == 47)
                &&& comps@.len() == components_spec(path@, path@.len() as int).len()
                &&& forall|k: int|
                    0 <= k < comps@.len() ==> (#[trigger] comps@[k]).0 == components_spec(
                        path@,
                        path@.len() as int,
                    )[k].0 && comps@[k].1 == components_spec(path@, path@.len() as int)[k].1
            },
        },
{
    let mut comps: Vec<(usize, usize)> = Vec::new();
    let mut i: usize = 0;
    while i < path.len()
        invariant
            i <= path@.len(),
            comps@.len() == components_spec(path@, i as int).len(),
            forall|k: int|
                0 <= k < comps@.len() ==> (#[trigger] comps@[k]).0 == components_spec(path@, i as int)[k].0
                    && comps@[k].1 == components_spec(path@, i as int)[k].1,
        decreases path@.len() - i,
    {
        proof {
            lemma_components_shape(path@, i as int);
            lemma_components_shape(path@, i + 1);
        }
        if path[i] != 47 {
            if i >= 1 && path[i - 1] != 47 {
                let last = comps.len() - 1;
                let (s, _) = comps[last];
                comps.set(last, (s, i + 1));
            } else {
                comps.push((i, i + 1));
            }
        }
        i = i + 1;
    }
    if comps.len() == 0 {
        return None;
    }
    let absolute = path.len() > 0 && path[0] == 47;
    Some((absolute, comps))
}

/// What `mount` does for a file-system type.
#[derive(Copy, Clone, Debug, PartialEq, Eq, Structural)]
pub enum MountAction {
    /// A memory or kernel file system (`tmpfs`, `ramfs`, `proc`, `sysfs`,
    /// `devtmpfs`): nothing to attach.
    Virtual,
    /// Attach the device named by `special` at the directory.
    Device,
    /// No device named (empty or `none`): nothing to attach.
    NoDevice,
}

/// Whether `a` and `b` are equal.
fn same(a: &[u8], b: &[u8]) -> (r: bool)
    ensures
        r == (a@ == b@),
{
    if a.len() != b.len() {
        return false;
    }
    let mut i: usize = 0;
    while i < a.len()
        invariant
            i <= a@.len(),
            a@.len() == b@.len(),
            forall|k: int| 0 <= k < i ==> a@[k] == b@[k],
        decreases a@.len() - i,
    {
        if a[i] != b[i] {
            return false;
        }
        i = i + 1;
    }
    assert(a@ =~= b@);
    true
}

/// The file-system types that need no device.
pub open spec fn virtual_fs(fstype: Seq<u8>) -> bool {
    ||| fstype == seq![116u8, 109, 112, 102, 115]
    ||| fstype == seq![114u8, 97, 109, 102, 115]
    ||| fstype == seq![112u8, 114, 111, 99]
    ||| fstype == seq![115u8, 121, 115, 102, 115]
    ||| fstype == seq![100u8, 101, 118, 116, 109, 112, 102, 115]
}

/// What `mount` of `special` with type `fstype` does (the target directory
/// is created first in every case).
pub fn mount_action(special: &[u8], fstype: &[u8]) -> (r: MountAction)
    ensures
        r == if virtual_fs(fstype@) {
            MountAction::Virtual
        } else if special@.len() == 0 || special@ == seq![110u8, 111, 110, 101] {
            MountAction::NoDevice
        } else {
            MountAction::Device
        },
{
    let tmpfs: [u8; 5] = [116u8, 109, 112, 102, 115];
    let ramfs: [u8; 5] = [114u8, 97, 109, 102, 115];
    let proc_fs: [u8; 4] = [112u8, 114, 111, 99];
    let sysfs: [u8; 5] = [115u8, 121, 115, 102, 115];
    let devtmpfs: [u8; 8] = [100u8, 101, 118, 116, 109, 112, 102, 115];
    let none: [u8; 4] = [110u8, 111, 110, 101];
    assert(tmpfs@ =~= seq![116u8, 109, 112, 102, 115]);
    assert(ramfs@ =~= seq![114u8, 97, 109, 102, 115]);
    assert(proc_fs@ =~= seq![112u8, 114, 111, 99]);
    assert(sysfs@ =~= seq![115u8, 121, 115, 102, 115]);
    assert(devtmpfs@ =~= seq![100u8, 101, 118, 116, 109, 112, 102, 115]);
    assert(none@ =~= seq![110u8, 111, 110, 101]);
    if same(fstype, tmpfs.as_slice()) || same(fstype, ramfs.as_slice()) || same(fstype, proc_fs.as_slice())
        || same(fstype, sysfs.as_slice()) || same(fstype, devtmpfs.as_slice()) {
        MountAction::Virtual
    } else if special.len() == 0 || same(special, none.as_slice()) {
        MountAction::NoDevice
    } else {
        MountAction::Device
    }
}

/// The major number `statx` reports for device number `dev`: bits 8 to 19
/// and 44 to 63.
pub open spec fn dev_major_spec(dev: u64) -> u32 {
    (((dev >> 8u64) & 0xfffu64) | ((dev >> 32u64) & 0xffff_f000u64)) as u32
}

/// The minor number `statx` reports for device number `dev`: bits 0 to 7
/// and 20 to 43.
pub open spec fn dev_minor_spec(dev: u64) -> u32 {
    ((dev & 0xffu64) | ((dev >> 12u64) & 0xffff_ff00u64)) as u32
}

/// The device number made from `major` and `minor` (the encoding the two
/// decoders read).
pub open spec fn makedev_spec(major: u32, minor: u32) -> u64 {
    (((major as u64) & 0xffff_f000u64) << 32u64) | (((major as u64) & 0xfffu64) << 8u64)
        | (((minor as u64) & 0xffff_ff00u64) << 12u64) | ((minor as u64) & 0xffu64)
}

/// `statx`'s major number of a device number.
pub fn dev_major(dev: u64) -> (r: u32)
    ensures
        r == dev_major_spec(dev),
{
    (((dev >> 8) & 0xfff) | ((dev >> 32) & 0xffff_f000)) as u32
}

/// `statx`'s minor number of a device number.
pub fn dev_minor(dev: u64) -> (r: u32)
    ensures
        r == dev_minor_spec(dev),
{
    ((dev & 0xff) | ((dev >> 12) & 0xffff_ff00)) as u32
}

/// The major and minor numbers `statx` reports are those the device number
/// was made from.
pub proof fn lemma_dev_numbers_round_trip(major: u32, minor: u32)
    by (bit_vector)
    ensures
        dev_major_spec(makedev_spec(major, minor)) == major,
        dev_minor_spec(makedev_spec(major, minor)) == minor,
{
}

/// What `umount2` detaches.
#[derive(Copy, Clone, Debug, PartialEq, Eq, Structural)]
pub enum UmountTarget {
    /// A device file (the name starts with `/dev`).
    Device,
    /// A mount point.
    Path,
}

/// Whether `s` starts with `/dev`.
pub open spec fn starts_with_dev(s: Seq<u8>) -> bool {
    s.len() >= 4 && s[0] == 47 && s[1] == 100 && s[2] == 101 && s[3] == 118
}

/// `umount2`: an empty name is EINVAL; otherwise a name under `/dev` is a
/// device and anything else a mount point. The call then succeeds whatever
/// the detaching gives.
pub fn umount_target(special: &[u8]) -> (r: Result<UmountTarget, FdError>)
    ensures
        r == if special@.len() == 0 {
            Err::<UmountTarget, FdError>(FdError::EINVAL)
        } else if starts_with_dev(special@) {
            Ok(UmountTarget::Device)
        } else {
            Ok(UmountTarget::Path)
        },
{
    if special.len() == 0 {
        return Err(FdError::EINVAL);
    }
    if special.len() >= 4 && special[0] == 47 && special[1] == 100 && special[2] == 101
        && special[3] == 118 {
        Ok(UmountTarget::Device)
    } else {
        Ok(UmountTarget::Path)
    }
}

/// A `flock` operation.
#[derive(Copy, Clone, Debug, PartialEq, Eq, Structural)]
pub enum FlockOp {
    /// `LOCK_SH`.
    Shared,
    /// `LOCK_EX`.
    Exclusive,
    /// `LOCK_UN`.
    Unlock,
}

/// `flock` on a descriptor (`fd_open` says whether one is open there):
/// EBADF for no file; the operation without `LOCK_NB` (4) must be
/// `LOCK_SH` (1), `LOCK_EX` (2) or `LOCK_UN` (8), else EINVAL. Every such
/// operation succeeds at once.
pub fn flock_check(fd_open: bool, operation: u64) -> (r: Result<FlockOp, FdError>)
    ensures
        r == if !fd_open {
            Err::<FlockOp, FdError>(FdError::EBADF)
        } else if operation & !4u64 == 1 {
            Ok(FlockOp::Shared)
        } else if operation & !4u64 == 2 {
            Ok(FlockOp::Exclusive)
        } else if operation & !4u64 == 8 {
            Ok(FlockOp::Unlock)
        } else {
            Err::<FlockOp, FdError>(FdError::EINVAL)
        },
{
    if !fd_open {
        return Err(FdError::EBADF);
    }
    let base_op: u64 = operation & !4u64;
    if base_op == 1 {
        Ok(FlockOp::Shared)
    } else if base_op == 2 {
        Ok(FlockOp::Exclusive)
    } else if base_op == 8 {
        Ok(FlockOp::Unlock)
    } else {
        Err(FdError::EINVAL)
    }
}

/// `poll`'s deadline: `timeout` ticks of 2^24 ns from `now` when `timeout`
/// is positive; no deadline otherwise (the call waits for an event).
pub fn poll_deadline(now: u64, timeout: i64) -> (r: Option<u64>)
    requires
        timeout > 0 ==> now + timeout * 0x100_0000 <= u64::MAX,
    ensures
        r == if timeout > 0 {
            Some((now + timeout * 0x100_0000) as u64)
        } else {
            None::<u64>
        },
{
    if timeout > 0 {
        let t: u64 = timeout as u64;
        assert(t * 0x100_0000 <= u64::MAX - now);
        Some(now + t * 0x100_0000)
    } else {
        None
    }
}

/// One round of `poll`: the number of descriptors with events, and whether
/// the call returns now: when some descriptor has events or the deadline,
/// if any, has come.
pub fn poll_round(revents: &[u16], now: u64, deadline: Option<u64>) -> (r: (usize, bool))
    ensures
        r.0 == events_count(revents@, revents@.len() as int),
        r.1 == (r.0 > 0 || match deadline {
            Some(e) => now >= e,
            None => false,
        }),
{
    let (num, _) = ppoll_round(revents, 0, 0);
    let expired = match deadline {
        Some(e) => now >= e,
        None => false,
    };
    (num, expired || num > 0)
}

/// `epoll_wait`'s deadline: none (`u64::MAX`) for a timeout of `u64::MAX`,
/// else `timeout` ticks of 2^24 ns from `now`.
pub fn epoll_deadline(now: u64, timeout: u64) -> (r: u64)
    requires
        timeout != u64::MAX ==> now + timeout * 0x100_0000 <= u64::MAX,
    ensures
        r == if timeout == u64::MAX {
            u64::MAX as int
        } else {
            now + timeout * 0x100_0000
        },
{
    if timeout == u64::MAX {
        u64::MAX
    } else {
        now + timeout * 0x100_0000
    }
}

/// The positions, in order, of the registered entries among the first `n`
/// that are ready.
pub open spec fn ready_positions(ready: Seq<bool>, n: int) -> Seq<usize>
    decreases n,
{
    if n <= 0 {
        Seq::empty()
    } else if ready[n - 1] {
        ready_positions(ready, n - 1).push((n - 1) as usize)
    } else {
        ready_positions(ready, n - 1)
    }
}

/// One round of `epoll_wait` over the registered entries (`ready[i]`: the
/// file of entry `i` is open and polling it gave events): the positions of
/// the ready entries, in registration order, whose events are copied out, and
/// whether the call returns now (some entry ready, or the deadline `end` has
/// come). More ready entries than `max_events` overrun the caller's buffer,
/// so they are left out.
pub fn epoll_round(ready: &[bool], max_events: usize, now: u64, end: u64) -> (r: (Vec<usize>, bool))
    requires
        ready_positions(ready@, ready@.len() as int).len() <= max_events,
    ensures
        r.0@ == ready_positions(ready@, ready@.len() as int),
        r.1 == (now >= end || r.0@.len() > 0),
{
    let mut out: Vec<usize> = Vec::new();
    let mut i: usize = 0;
    while i < ready.len()
        invariant
            i <= ready@.len(),
            out@ == ready_positions(ready@, i as int),
        decreases ready@.len() - i,
    {
        if ready[i] {
            out.push(i);
        }
        i = i + 1;
    }
    let done = now >= end || out.len() > 0;
    (out, done)
}

/// `fchownat` opens the file without following a final link when
/// `AT_SYMLINK_NOFOLLOW` (0x100) is in `flags`; it then succeeds without
/// changing anything.
pub fn fchownat_nofollow(flags: u64) -> (r: bool)
    ensures
        r == (flags & 0x100u64 != 0),
{
    flags & 0x100 != 0
}

/// What `renameat2` does with the old file.
#[derive(Copy, Clone, Debug, PartialEq, Eq, Structural)]
pub enum RenameAction {
    /// Create the new file and copy the old one's bytes into it, then cut it
    /// to their length.
    CopyFile,
    /// Create the new directory.
    MakeDirectory,
}

/// `renameat2`'s action for an old file of type `ft`; only files and
/// directories are handled.
pub fn rename_action(ft: FileType) -> (r: RenameAction)
    requires
        ft == FileType::File || ft == FileType::Directory,
    ensures
        r == if ft == FileType::File {
            RenameAction::CopyFile
        } else {
            RenameAction::MakeDirectory
        },
{
    match ft {
        FileType::File => RenameAction::CopyFile,
        _ => RenameAction::MakeDirectory,
    }
}

/// The directory descriptor meaning "the current directory".
pub const AT_CWD: i64 = -100;

/// What a path given to a `*at` call is resolved against.
#[derive(Copy, Clone, Debug, PartialEq, Eq, Structural)]
pub enum ResolveBase {
    /// Nothing: the path is absolute.
    Absolute,
    /// The process's current directory.
    Cwd,
    /// The directory open on this descriptor (EBADF when none is).
    Descriptor(usize),
}

/// The base of `filename` given with directory descriptor `fd`: an absolute
/// path stands alone; otherwise `AT_CWD` means the current directory and any
/// other value a descriptor.
pub fn resolve_base(fd: i64, filename: &[u8]) -> (r: ResolveBase)
    ensures
        r == if filename@.len() > 0 && filename@[0] == 47 {
            ResolveBase::Absolute
        } else if fd == AT_CWD {
            ResolveBase::Cwd
        } else {
            ResolveBase::Descriptor(fd as usize)
        },
{
    if filename.len() > 0 && filename[0] == 47 {
        ResolveBase::Absolute
    } else if fd == AT_CWD {
        ResolveBase::Cwd
    } else {
        ResolveBase::Descriptor(fd as usize)
    }
}

/// The count of descriptors with events lies between 0 and the number
/// polled; it is 0 exactly when no descriptor has an event, and it grows by
/// one for each descriptor that has one.
pub proof fn lemma_events_count(revents: Seq<u16>, n: int)
    requires
        0 <= n <= revents.len(),
    ensures
        0 <= events_count(revents, n) <= n,
        (events_count(revents, n) == 0) <==> (forall|i: int| 0 <= i < n ==> revents[i] == 0),
        (events_count(revents, n) == n) <==> (forall|i: int| 0 <= i < n ==> revents[i] != 0),
    decreases n,
{
    if n > 0 {
        lemma_events_count(revents, n - 1);
    }
}

/// The entries `epoll_wait` copies out are exactly the ready ones, each
/// once, in registration order: every position given is ready and below
/// `n`, positions strictly increase, and every ready entry below `n` is
/// among them.
pub proof fn lemma_ready_positions(ready: Seq<bool>, n: int)
    requires
        0 <= n <= ready.len(),
        n <= usize::MAX,
    ensures
        ready_positions(ready, n).len() <= n,
        forall|k: int|
            0 <= k < ready_positions(ready, n).len() ==> (#[trigger] ready_positions(ready, n)[k]) < n
                && ready[ready_positions(ready, n)[k] as int],
        forall|k: int, m: int|
            0 <= k < m < ready_positions(ready, n).len() ==> #[trigger] ready_positions(ready, n)[k]
                < #[trigger] ready_positions(ready, n)[m],
        forall|i: int| 0 <= i < n && ready[i] ==> ready_positions(ready, n).contains(i as usize),
    decreases n,
{
    if n > 0 {
        lemma_ready_positions(ready, n - 1);
        let p = ready_positions(ready, n - 1);
        let q = ready_positions(ready, n);
        if ready[n - 1] {
            assert(q == p.push((n - 1) as usize));
            assert forall|i: int| 0 <= i < n && ready[i] implies q.contains(i as usize) by {
                if i < n - 1 {
                    assert(p.contains(i as usize));
                    let k = choose|k: int| 0 <= k < p.len() && p[k] == i as usize;
                    assert(q[k] == i as usize);
                } else {
                    assert(q[p.len() as int] == i as usize);
                }
            }
        } else {
            assert forall|i: int| 0 <= i < n && ready[i] implies q.contains(i as usize) by {
                assert(p.contains(i as usize));
            }
        }
    }
}

/// The components `mkdirat` walks are exactly the maximal runs of bytes
/// other than `/` in the path, in order: each is a non-empty run of
/// non-`/` bytes that starts at the path's start or after a `/` and ends
/// at the path's end or before a `/`; each ends before the next starts; and
/// every byte other than `/` lies in one of them.
pub proof fn lemma_components_are_runs(path: Seq<u8>, n: int)
    requires
        0 <= n <= path.len(),
    ensures
        forall|k: int|
            0 <= k < components_spec(path, n).len() ==> {
                let c = #[trigger] components_spec(path, n)[k];
                &&& 0 <= c.0 < c.1 <= n
                &&& forall|j: int| c.0 <= j < c.1 ==> path[j] != 47
                &&& c.0 == 0 || path[c.0 - 1] == 47
                &&& c.1 == n || path[c.1] == 47
            },
        forall|k: int|
            0 <= k < components_spec(path, n).len() - 1 ==> (#[trigger] components_spec(path, n)[k]).1
                < components_spec(path, n)[k + 1].0,
        forall|j: int|
            0 <= j < n && path[j] != 47 ==> exists|k: int|
                0 <= k < components_spec(path, n).len() && (#[trigger] components_spec(path, n)[k]).0 <= j
                    < components_spec(path, n)[k].1,
    decreases n,
{
    if n > 0 {
        lemma_components_are_runs(path, n - 1);
        lemma_components_shape(path, n);
        lemma_components_shape(path, n - 1);
        let p = components_spec(path, n - 1);
        let q = components_spec(path, n);
        if path[n - 1] == 47 {
            assert(q == p);
        } else if n >= 2 && path[n - 2] != 47 {
            let last = p.len() - 1;
            assert(q == p.update(last, (p.last().0, n)));
            assert forall|k: int| 0 <= k < q.len() implies {
                let c = #[trigger] q[k];
                &&& 0 <= c.0 < c.1 <= n
                &&& forall|j: int| c.0 <= j < c.1 ==> path[j] != 47
                &&& c.0 == 0 || path[c.0 - 1] == 47
                &&& c.1 == n || path[c.1] == 47
            } by {
                if k == last {
                    assert(p[last].1 == n - 1);
                } else {
                    assert(q[k] == p[k]);
                    lemma_runs_ordered(p, k, last);
                }
            }
            assert forall|k: int| 0 <= k < q.len() - 1 implies (#[trigger] q[k]).1 < q[k + 1].0 by {
                assert(q[k] == p[k]);
                if k + 1 < last {
                    assert(q[k + 1] == p[k + 1]);
                }
            }
            assert forall|j: int| 0 <= j < n && path[j] != 47 implies exists|k: int|
                0 <= k < q.len() && (#[trigger] q[k]).0 <= j < q[k].1 by {
                if j == n - 1 {
                    assert(q[last].0 <= j < q[last].1);
                } else {
                    let k = choose|k: int| 0 <= k < p.len() && (#[trigger] p[k]).0 <= j < p[k].1;
                    if k == last {
                        assert(q[last].0 <= j < q[last].1);
                    } else {
                        assert(q[k] == p[k]);
                    }
                }
            }
        } else {
            assert(q == p.push((n - 1, n)));
            assert forall|k: int| 0 <= k < q.len() implies {
                let c = #[trigger] q[k];
                &&& 0 <= c.0 < c.1 <= n
                &&& forall|j: int| c.0 <= j < c.1 ==> path[j] != 47
                &&& c.0 == 0 || path[c.0 - 1] == 47
                &&& c.1 == n || path[c.1] == 47
            } by {
                if k < p.len() {
                    assert(q[k] == p[k]);
                    if p[k].1 == n - 1 {
                        // a run ending at n - 1 holds byte n - 2, which is a '/' here
                        assert(p[k].0 <= n - 2);
                    }
                }
            }
            assert forall|k: int| 0 <= k < q.len() - 1 implies (#[trigger] q[k]).1 < q[k + 1].0 by {
                assert(q[k] == p[k]);
                if k + 1 < p.len() {
                    assert(q[k + 1] == p[k + 1]);
                } else {
                    assert(p[k].1 <= n - 1);
                    if p[k].1 == n - 1 {
                        assert(p[k].0 <= n - 2);
                    }
                }
            }
            assert forall|j: int| 0 <= j < n && path[j] != 47 implies exists|k: int|
                0 <= k < q.len() && (#[trigger] q[k]).0 <= j < q[k].1 by {
                if j == n - 1 {
                    assert(q[p.len() as int].0 <= j < q[p.len() as int].1);
                } else {
                    let k = choose|k: int| 0 <= k < p.len() && (#[trigger] p[k]).0 <= j < p[k].1;
                    assert(q[k] == p[k]);
                }
            }
        }
    }
}

proof fn lemma_runs_ordered(p: Seq<(int, int)>, k: int, m: int)
    requires
        0 <= k < m < p.len(),
        forall|i: int| 0 <= i < p.len() - 1 ==> (#[trigger] p[i]).1 < p[i + 1].0,
        forall|i: int| 0 <= i < p.len() ==> (#[trigger] p[i]).0 < p[i].1,
    ensures
        p[k].1 < p[m].0,
    decreases m - k,
{
    if m > k + 1 {
        lemma_runs_ordered(p, k, m - 1);
    }
}

} // verus!
