//! The checks and I/O choices of `splice`, which moves data between two
//! descriptors of which at least one is a pipe.

use vstd::prelude::*;
use crate::fd_types::SpliceFlags;

verus! {

/// Errors of `splice` that come before any data moves.
#[derive(Copy, Clone, Debug, PartialEq, Eq, Structural)]
pub enum SpliceError {
    /// A descriptor has no open file.
    EBADF,
    /// Neither end is a pipe, or both ends are the same descriptor.
    EINVAL,
    /// An offset was given for a pipe end.
    ESPIPE,
}

/// Largest number of bytes one `splice` call moves.
pub const SPLICE_MAX: usize = 64 * 1024;

/// Checks a `splice` request (`in_open`, `out_open`: whether a file is open
/// on each descriptor; whether each end is a pipe is only asked of open
/// files), and gives the number of bytes to move at most.
pub fn splice_check(
    in_open: bool,
    out_open: bool,
    fd_in: usize,
    fd_out: usize,
    in_is_pipe: bool,
    out_is_pipe: bool,
    off_in_given: bool,
    off_out_given: bool,
    len: usize,
) -> (r: Result<usize, SpliceError>)
    ensures
        r == if !in_open || !out_open {
            Err::<usize, SpliceError>(SpliceError::EBADF)
        } else if !in_is_pipe && !out_is_pipe {
            Err::<usize, SpliceError>(SpliceError::EINVAL)
        } else if (in_is_pipe && off_in_given) || (out_is_pipe && off_out_given) {
            Err::<usize, SpliceError>(SpliceError::ESPIPE)
        } else if fd_in == fd_out {
            Err::<usize, SpliceError>(SpliceError::EINVAL)
        } else if len < SPLICE_MAX {
            Ok(len)
        } else {
            Ok(SPLICE_MAX)
        },
{
    if !in_open || !out_open {
        return Err(SpliceError::EBADF);
    }
    if !in_is_pipe && !out_is_pipe {
        return Err(SpliceError::EINVAL);
    }
    if in_is_pipe && off_in_given {
        return Err(SpliceError::ESPIPE);
    }
    if out_is_pipe && off_out_given {
        return Err(SpliceError::ESPIPE);
    }
    if fd_in == fd_out {
        return Err(SpliceError::EINVAL);
    }
    if len < SPLICE_MAX {
        Ok(len)
    } else {
        Ok(SPLICE_MAX)
    }
}

/// How one end of a `splice` moves its data.
#[derive(Copy, Clone, Debug, PartialEq, Eq, Structural)]
pub enum SpliceIo {
    /// A pipe, without blocking (`SPLICE_F_NONBLOCK`): would-block becomes `EAGAIN`.
    PipeNonblocking,
    /// A pipe, waiting until data can move.
    PipeBlocking,
    /// A regular file at this offset; the caller's offset then moves on by
    /// the bytes moved.
    At(u64),
    /// A regular file at its own position.
    Sequential,
}

/// How an end of a `splice` moves data: pipes by the non-blocking flag,
/// other files at the caller's offset when one was given.
pub fn splice_io(is_pipe: bool, flags: &SpliceFlags, offset: Option<u64>) -> (r: SpliceIo)
    ensures
        r == if is_pipe {
            if flags.bits & SpliceFlags::SPLICE_F_NONBLOCK == SpliceFlags::SPLICE_F_NONBLOCK {
                SpliceIo::PipeNonblocking
            } else {
                SpliceIo::PipeBlocking
            }
        } else {
            match offset {
                Some(o) => SpliceIo::At(o),
                None => SpliceIo::Sequential,
            }
        },
{
    if is_pipe {
        if flags.contains(SpliceFlags::SPLICE_F_NONBLOCK) {
            SpliceIo::PipeNonblocking
        } else {
            SpliceIo::PipeBlocking
        }
    } else {
        match offset {
            Some(o) => SpliceIo::At(o),
            None => SpliceIo::Sequential,
        }
    }
}

/// What `splice` writes once `bytes_read` bytes were read from the input:
/// nothing when none were (the call then returns 0 and the output is not
/// touched), else exactly those bytes.
pub fn splice_write_len(bytes_read: usize) -> (r: Option<usize>)
    ensures
        r == if bytes_read == 0 {
            None::<usize>
        } else {
            Some(bytes_read)
        },
{
    if bytes_read == 0 {
        None
    } else {
        Some(bytes_read)
    }
}

/// The caller's offset after `moved` bytes were read or written at `offset`.
pub fn splice_advance(offset: u64, moved: u64) -> (r: u64)
    requires
        offset + moved <= u64::MAX,
    ensures
        r == offset + moved,
{
    offset + moved
}

} // verus!
