//! The per-process file-descriptor table and the descriptor system calls that
//! only rearrange it (dup, dup3, close). Open files are named by handles.

use vstd::prelude::*;
use crate::fd_types::FcntlCmd;

verus! {

/// Errors of the descriptor calls, with their Linux numbers.
#[derive(Copy, Clone, Debug, PartialEq, Eq, Structural)]
pub enum FdError {
    /// Bad file descriptor.
    EBADF,
    /// Too many open files.
    EMFILE,
    /// Invalid argument.
    EINVAL,
}

impl FdError {
    /// The Linux error number.
    pub fn errno(&self) -> (r: isize)
        ensures
            r == match *self {
                FdError::EBADF => 9isize,
                FdError::EMFILE => 24isize,
                FdError::EINVAL => 22isize,
            },
    {
        match self {
            FdError::EBADF => 9,
            FdError::EMFILE => 24,
            FdError::EINVAL => 22,
        }
    }
}

/// Descriptor table: slot `i` holds the handle of the file open on `i`, if
/// any. Descriptors at or above `nofile` (the process's open-file limit) are
/// never used.
pub struct FdTable {
    pub files: Vec<Option<u64>>,
    pub nofile: usize,
}

/// What `get_fd` gives for descriptor `fd` of a table.
pub open spec fn lookup(files: Seq<Option<u64>>, nofile: usize, fd: int) -> Option<u64> {
    if fd >= nofile || fd >= files.len() {
        None
    } else {
        files[fd]
    }
}

/// `i` is the lowest free descriptor below the limit among the existing slots.
pub open spec fn lowest_free(files: Seq<Option<u64>>, nofile: usize, i: int) -> bool {
    &&& 0 <= i < files.len()
    &&& i < nofile
    &&& files[i] is None
    &&& forall|j: int| 0 <= j < i ==> files[j] is Some
}

/// No existing slot below the limit is free.
pub open spec fn none_free(files: Seq<Option<u64>>, nofile: usize) -> bool {
    forall|j: int| 0 <= j < files.len() && j < nofile ==> files[j] is Some
}

impl FdTable {
    /// An empty table with the given open-file limit.
    pub fn new(nofile: usize) -> (r: Self)
        ensures
            r.files@ == Seq::<Option<u64>>::empty(),
            r.nofile == nofile,
    {
        FdTable { files: Vec::new(), nofile }
    }

    /// Whether a descriptor below the limit has a slot, so that reading or
    /// writing it is defined.
    pub open spec fn slot_ok(&self, fd: usize) -> bool {
        fd < self.nofile ==> fd < self.files@.len()
    }

    /// The file open on `index`; `None` at or above the limit.
    pub fn get_fd(&self, index: usize) -> (r: Option<u64>)
        requires
            self.slot_ok(index),
        ensures
            r == lookup(self.files@, self.nofile, index as int),
    {
        if index >= self.nofile {
            None
        } else {
            self.files[index]
        }
    }

    /// Opens `value` on descriptor `index`; nothing happens at or above the limit.
    pub fn set_fd(&mut self, index: usize, value: u64)
        requires
            old(self).slot_ok(index),
        ensures
            final(self).nofile == old(self).nofile,
            final(self).files@ == if index >= old(self).nofile {
                old(self).files@
            } else {
                old(self).files@.update(index as int, Some(value))
            },
    {
        if index < self.nofile {
            self.files.set(index, Some(value));
        }
    }

    /// Closes descriptor `index`; nothing happens past the table's end.
    pub fn clear_fd(&mut self, index: usize)
        ensures
            final(self).nofile == old(self).nofile,
            final(self).files@ == if index >= old(self).files@.len() {
                old(self).files@
            } else {
                old(self).files@.update(index as int, None)
            },
    {
        if index < self.files.len() {
            self.files.set(index, None);
        }
    }

    /// Reserves a descriptor: the lowest free slot below the limit, else a new
    /// slot at the end while the table is below the limit, else `None`.
    pub fn alloc_fd(&mut self) -> (r: Option<usize>)
        ensures
            final(self).nofile == old(self).nofile,
            match r {
                Some(i) => {
                    ||| (lowest_free(old(self).files@, old(self).nofile, i as int)
                        && final(self).files@ == old(self).files@)
                    ||| (none_free(old(self).files@, old(self).nofile) && old(self).files@.len()
                        < old(self).nofile && i == old(self).files@.len()
                        && final(self).files@ == old(self).files@.push(None))
                },
                None => none_free(old(self).files@, old(self).nofile) && old(self).files@.len()
                    >= old(self).nofile && final(self).files@ == old(self).files@,
            },
    {
        let mut i: usize = 0;
        while i < self.files.len()
            invariant
                i <= self.files@.len(),
                forall|j: int| 0 <= j < i && j < self.nofile ==> self.files@[j] is Some,
            decreases self.files@.len() - i,
        {
            if self.files[i].is_none() && i < self.nofile {
                proof {
                    assert forall|j: int| 0 <= j < i implies self.files@[j] is Some by {
                        assert(j < self.nofile);
                    }
                }
                return Some(i);
            }
            i = i + 1;
        }
        if self.files.len() < self.nofile {
            self.files.push(None);
            Some(self.files.len() - 1)
        } else {
            None
        }
    }

    /// `dup3`: opens the file of `fd_src` on `fd_dst` as well.
    pub fn dup3(&mut self, fd_src: usize, fd_dst: usize) -> (r: Result<usize, FdError>)
        requires
            old(self).slot_ok(fd_src),
            old(self).slot_ok(fd_dst),
        ensures
            final(self).nofile == old(self).nofile,
            match lookup(old(self).files@, old(self).nofile, fd_src as int) {
                None => r == Err::<usize, FdError>(FdError::EBADF) && final(self).files@ == old(
                    self,
                ).files@,
                Some(f) => r == Ok::<usize, FdError>(fd_dst) && final(self).files@ == if fd_dst
                    >= old(self).nofile {
                    old(self).files@
                } else {
                    old(self).files@.update(fd_dst as int, Some(f))
                },
            },
    {
        let file = match self.get_fd(fd_src) {
            Some(f) => f,
            None => return Err(FdError::EBADF),
        };
        self.set_fd(fd_dst, file);
        Ok(fd_dst)
    }

    /// `dup`: opens the file of `fd` on the descriptor `alloc_fd` reserves.
    pub fn dup(&mut self, fd: usize) -> (r: Result<usize, FdError>)
        requires
            old(self).slot_ok(fd),
        ensures
            final(self).nofile == old(self).nofile,
            match r {
                Ok(d) => {
                    &&& lookup(old(self).files@, old(self).nofile, fd as int) is Some
                    &&& lookup(final(self).files@, final(self).nofile, d as int) == lookup(
                        old(self).files@,
                        old(self).nofile,
                        fd as int,
                    )
                    &&& (lowest_free(old(self).files@, old(self).nofile, d as int) || (none_free(
                        old(self).files@,
                        old(self).nofile,
                    ) && d == old(self).files@.len() && d < old(self).nofile))
                    &&& forall|j: int|
                        0 <= j < old(self).files@.len() && j != d ==> final(self).files@[j] == old(
                            self,
                        ).files@[j]
                },
                Err(e) => e == FdError::EMFILE && none_free(old(self).files@, old(self).nofile)
                    && old(self).files@.len() >= old(self).nofile || e == FdError::EBADF && lookup(
                    old(self).files@,
                    old(self).nofile,
                    fd as int,
                ) is None,
            },
    {
        let fd_dst = match self.alloc_fd() {
            Some(d) => d,
            None => return Err(FdError::EMFILE),
        };
        let ghost mid = self.files@;
        assert(lookup(mid, self.nofile, fd as int) == lookup(old(self).files@, old(self).nofile, fd as int));
        self.dup3(fd, fd_dst)
    }

    /// `close`: frees descriptor `fd`; always succeeds.
    pub fn close(&mut self, fd: usize) -> (r: Result<usize, FdError>)
        ensures
            r == Ok::<usize, FdError>(0),
            final(self).nofile == old(self).nofile,
            final(self).files@ == if fd >= old(self).files@.len() {
                old(self).files@
            } else {
                old(self).files@.update(fd as int, None)
            },
    {
        self.clear_fd(fd);
        Ok(0)
    }
}

/// What `fcntl` does once the command and the descriptor are known good.
pub enum FcntlOutcome {
    /// The call returns this value.
    Done(usize),
    /// Return the open flags of the file with this handle.
    GetFlags(u64),
    /// Replace the open flags of the file with this handle by the argument.
    SetFlags(u64),
}

impl FdTable {
    /// `fcntl`: an unknown command fails with EINVAL, a descriptor with no
    /// file with EBADF; DUPFD and DUPFDCLOEXEC duplicate the descriptor as
    /// `dup` does, GETFD gives 1, GETFL and SETFL act on the file's flags,
    /// and the other commands give 0.
    pub fn fcntl(&mut self, fd: usize, cmd: usize) -> (r: Result<FcntlOutcome, FdError>)
        requires
            old(self).slot_ok(fd),
        ensures
            final(self).nofile == old(self).nofile,
            match r {
                Err(FdError::EINVAL) => forall|c: FcntlCmd| c.code_spec() != cmd,
                Err(FdError::EBADF) => lookup(old(self).files@, old(self).nofile, fd as int) is None,
                Err(FdError::EMFILE) => (cmd == 0 || cmd == 0x406) && none_free(old(self).files@, old(self).nofile) && old(self).files@.len() >= old(self).nofile,
                Ok(FcntlOutcome::Done(v)) => exists|c: FcntlCmd| #[trigger] c.code_spec() == cmd && (
                    (c == FcntlCmd::DUPFD || c == FcntlCmd::DUPFDCLOEXEC) ==> lookup(final(self).files@, final(self).nofile, v as int) == lookup(old(self).files@, old(self).nofile, fd as int))
                    && (c == FcntlCmd::GETFD ==> v == 1)
                    && (c != FcntlCmd::DUPFD && c != FcntlCmd::DUPFDCLOEXEC && c != FcntlCmd::GETFD ==> v == 0)
                    && c != FcntlCmd::GETFL && c != FcntlCmd::SETFL,
                Ok(FcntlOutcome::GetFlags(h)) => cmd == 3 && lookup(old(self).files@, old(self).nofile, fd as int) == Some(h) && final(self).files@ == old(self).files@,
                Ok(FcntlOutcome::SetFlags(h)) => cmd == 4 && lookup(old(self).files@, old(self).nofile, fd as int) == Some(h) && final(self).files@ == old(self).files@,
            },
    {
        let c = match FcntlCmd::from_usize(cmd) {
            Some(c) => c,
            None => return Err(FdError::EINVAL),
        };
        let file = match self.get_fd(fd) {
            Some(f) => f,
            None => return Err(FdError::EBADF),
        };
        match c {
            FcntlCmd::DUPFD | FcntlCmd::DUPFDCLOEXEC => match self.dup(fd) {
                Ok(d) => Ok(FcntlOutcome::Done(d)),
                Err(e) => Err(e),
            },
            FcntlCmd::GETFD => Ok(FcntlOutcome::Done(1)),
            FcntlCmd::GETFL => Ok(FcntlOutcome::GetFlags(file)),
            FcntlCmd::SETFL => {
                self.set_fd(fd, file);
                proof {
                    assert(self.files@ =~= old(self).files@);
                }
                Ok(FcntlOutcome::SetFlags(file))
            },
            _ => Ok(FcntlOutcome::Done(0)),
        }
    }
}

/// What is stored on a descriptor below the limit is what is read back from
/// it, and the other descriptors are unaffected.
pub proof fn lemma_set_then_get(files: Seq<Option<u64>>, nofile: usize, fd: int, other: int, v: u64)
    requires
        0 <= fd < files.len(),
        fd < nofile,
        0 <= other,
        other != fd,
    ensures
        lookup(files.update(fd, Some(v)), nofile, fd) == Some(v),
        lookup(files.update(fd, Some(v)), nofile, other) == lookup(files, nofile, other),
{
}

/// A closed descriptor reads back as not open.
pub proof fn lemma_clear_then_get(files: Seq<Option<u64>>, nofile: usize, fd: int)
    requires
        0 <= fd < files.len(),
    ensures
        lookup(files.update(fd, None), nofile, fd) is None,
{
}

/// A descriptor that `alloc_fd` hands out is free and below the limit, so
/// a following `set_fd` on it opens the file there.
pub proof fn lemma_allocated_slot_usable(files: Seq<Option<u64>>, nofile: usize, d: int, v: u64)
    requires
        lowest_free(files, nofile, d) || (none_free(files, nofile) && d == files.len() && d < nofile),
    ensures
        ({
            let after = if d == files.len() {
                files.push(None)
            } else {
                files
            };
            &&& lookup(after, nofile, d) is None
            &&& lookup(after.update(d, Some(v)), nofile, d) == Some(v)
        }),
{
}

} // verus!
