//! Argument types of the descriptor system calls: fcntl commands, futex
//! operations, I/O vectors, the stat record and splice flags.

use vstd::prelude::*;

verus! {

/// `dirfd` value meaning "the current working directory".
pub const AT_CWD: isize = -100;

/// Commands of `fcntl`.
#[derive(Copy, Clone, Debug, PartialEq, Eq, Structural)]
pub enum FcntlCmd {
    /// dup
    DUPFD,
    /// get close_on_exec
    GETFD,
    /// set/clear close_on_exec
    SETFD,
    /// get file->f_flags
    GETFL,
    /// set file->f_flags
    SETFL,
    /// Get record locking info.
    GETLK,
    /// Set record locking info (non-blocking).
    SETLK,
    /// Set record locking info (blocking).
    SETLKW,
    /// like F_DUPFD, but additionally set the close-on-exec flag
    DUPFDCLOEXEC,
}

impl FcntlCmd {
    /// The command's number in the system-call interface.
    pub open spec fn code_spec(self) -> u32 {
        match self {
            FcntlCmd::DUPFD => 0,
            FcntlCmd::GETFD => 1,
            FcntlCmd::SETFD => 2,
            FcntlCmd::GETFL => 3,
            FcntlCmd::SETFL => 4,
            FcntlCmd::GETLK => 5,
            FcntlCmd::SETLK => 6,
            FcntlCmd::SETLKW => 7,
            FcntlCmd::DUPFDCLOEXEC => 0x406,
        }
    }

    /// The command's number in the system-call interface.
    pub fn code(&self) -> (r: u32)
        ensures
            r == self.code_spec(),
    {
        match self {
            FcntlCmd::DUPFD => 0,
            FcntlCmd::GETFD => 1,
            FcntlCmd::SETFD => 2,
            FcntlCmd::GETFL => 3,
            FcntlCmd::SETFL => 4,
            FcntlCmd::GETLK => 5,
            FcntlCmd::SETLK => 6,
            FcntlCmd::SETLKW => 7,
            FcntlCmd::DUPFDCLOEXEC => 0x406,
        }
    }

    /// The command with number `v`, if any.
    pub fn from_usize(v: usize) -> (r: Option<FcntlCmd>)
        ensures
            match r {
                Some(c) => c.code_spec() == v,
                None => forall|c: FcntlCmd| c.code_spec() != v,
            },
    {
        match v {
            0 => Some(FcntlCmd::DUPFD),
            1 => Some(FcntlCmd::GETFD),
            2 => Some(FcntlCmd::SETFD),
            3 => Some(FcntlCmd::GETFL),
            4 => Some(FcntlCmd::SETFL),
            5 => Some(FcntlCmd::GETLK),
            6 => Some(FcntlCmd::SETLK),
            7 => Some(FcntlCmd::SETLKW),
            0x406 => Some(FcntlCmd::DUPFDCLOEXEC),
            _ => None,
        }
    }
}

/// Decoding a command's own number gives the command back.
pub proof fn lemma_fcntl_code_round_trip(c: FcntlCmd, d: FcntlCmd)
    ensures
        c.code_spec() == d.code_spec() ==> c == d,
{
}

/// Operations of `futex`.
#[derive(Copy, Clone, Debug, PartialEq, Eq, Structural)]
pub enum FutexFlags {
    Wait,
    Wake,
    Fd,
    Requeue,
    CmpRequeue,
    WakeOp,
    LockPi,
    UnlockPi,
    TrylockPi,
    WaitBitset,
}

impl FutexFlags {
    /// The operation's number in the system-call interface.
    pub open spec fn code_spec(self) -> usize {
        match self {
            FutexFlags::Wait => 0,
            FutexFlags::Wake => 1,
            FutexFlags::Fd => 2,
            FutexFlags::Requeue => 3,
            FutexFlags::CmpRequeue => 4,
            FutexFlags::WakeOp => 5,
            FutexFlags::LockPi => 6,
            FutexFlags::UnlockPi => 7,
            FutexFlags::TrylockPi => 8,
            FutexFlags::WaitBitset => 9,
        }
    }

    /// The operation with number `v`, if any.
    pub fn from_usize(v: usize) -> (r: Option<FutexFlags>)
        ensures
            match r {
                Some(c) => c.code_spec() == v,
                None => v > 9,
            },
    {
        match v {
            0 => Some(FutexFlags::Wait),
            1 => Some(FutexFlags::Wake),
            2 => Some(FutexFlags::Fd),
            3 => Some(FutexFlags::Requeue),
            4 => Some(FutexFlags::CmpRequeue),
            5 => Some(FutexFlags::WakeOp),
            6 => Some(FutexFlags::LockPi),
            7 => Some(FutexFlags::UnlockPi),
            8 => Some(FutexFlags::TrylockPi),
            9 => Some(FutexFlags::WaitBitset),
            _ => None,
        }
    }
}

/// One element of a `readv`/`writev` vector.
#[derive(Clone, Copy)]
pub struct IoVec {
    pub base: usize,
    pub len: usize,
}

/// The `kstat` record of `fstat` on LoongArch LP64.
#[derive(Debug, Default, Clone, Copy)]
pub struct KStat {
    pub st_dev: u64,
    pub st_ino: u64,
    pub st_mode: u32,
    pub st_nlink: u32,
    pub st_uid: u32,
    pub st_gid: u32,
    pub st_rdev: u64,
    pub __pad: u64,
    pub st_size: u64,
    pub st_blksize: u32,
    pub __pad2: u32,
    pub st_blocks: u64,
    pub st_atime_sec: i64,
    pub st_atime_nsec: i64,
    pub st_mtime_sec: i64,
    pub st_mtime_nsec: i64,
    pub st_ctime_sec: i64,
    pub st_ctime_nsec: i64,
    pub __unused: [u32; 2],
}

/// Flags of `splice`.
#[derive(Clone, Copy, Debug)]
pub struct SpliceFlags {
    pub bits: u32,
}

impl SpliceFlags {
    /// Attempt to move pages instead of copying.
    pub const SPLICE_F_MOVE: u32 = 1;
    /// Do not block on I/O.
    pub const SPLICE_F_NONBLOCK: u32 = 2;
    /// More data will be coming in a subsequent splice.
    pub const SPLICE_F_MORE: u32 = 4;
    /// Unused for splice(); see vmsplice(2).
    pub const SPLICE_F_GIFT: u32 = 8;

    /// No flag set.
    pub fn empty() -> (r: Self)
        ensures
            r.bits == 0,
    {
        SpliceFlags { bits: 0 }
    }

    /// The known flags of `bits`; unknown bits are dropped.
    pub fn from_bits_truncate(bits: u32) -> (r: Self)
        ensures
            r.bits == bits & 0xf,
    {
        SpliceFlags { bits: bits & 0xf }
    }

    /// Whether every flag of `other` is set.
    pub fn contains(&self, other: u32) -> (r: bool)
        ensures
            r == (self.bits & other == other),
    {
        self.bits & other == other
    }
}

impl Default for SpliceFlags {
    fn default() -> (r: Self)
        ensures
            r.bits == 0,
    {
        SpliceFlags::empty()
    }
}

} // verus!
