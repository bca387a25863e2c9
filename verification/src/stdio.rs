//! What a descriptor of the child is to be connected to.
use vstd::prelude::*;
use crate::error::{IoError, SysError};
use crate::sys::{close_fd, sys_dup};

verus! {

/// A descriptor that is closed when its holder goes away.
#[derive(Debug)]
pub struct Closing {
    pub fd: i32,
}

/// What one of the three standard streams of the child is connected to.
#[derive(Debug)]
pub enum Stdio {
    /// A new pipe, whose other end the parent keeps.
    Pipe,
    /// The stream of the parent.
    Inherit,
    /// `/dev/null`.
    Null,
    /// An open descriptor that the command owns.
    Fd(Closing),
}

/// What a descriptor of the child is connected to. Unlike with `Stdio`, the
/// direction of a pipe or of `/dev/null` has to be said.
#[derive(Debug)]
pub enum Fd {
    /// A new pipe that the child reads; the parent keeps the writing end.
    ReadPipe,
    /// A new pipe that the child writes; the parent keeps the reading end.
    WritePipe,
    /// The descriptor of the same number in the parent.
    Inherit,
    /// `/dev/null`, open for reading.
    ReadNull,
    /// `/dev/null`, open for writing.
    WriteNull,
    /// An open descriptor that the command owns.
    Fd(Closing),
    /// An open descriptor that the caller keeps open until the child runs.
    RawFd(i32),
}

/// What a descriptor of the child is connected to, without the descriptor
/// that may come with it.
#[derive(Debug, Clone, Copy, PartialEq, Eq, Structural)]
pub enum FdKind {
    ReadPipe,
    WritePipe,
    Inherit,
    ReadNull,
    WriteNull,
    Given,
}

impl Closing {
    /// Takes charge of the open descriptor `fd`.
    pub fn new(fd: i32) -> (r: Closing)
        ensures
            r.fd == fd,
    {
        Closing { fd }
    }

    /// The descriptor that is held.
    pub fn as_raw_fd(&self) -> (r: i32)
        ensures
            r == self.fd,
    {
        self.fd
    }
}

impl Drop for Closing {
    fn drop(&mut self)
        opens_invariants none
        no_unwind
    {
        close_fd(self.fd);
    }
}

impl Stdio {
    /// The stream that `to_fd` makes of `self`: `write` says whether the
    /// child writes to it.
    pub open spec fn spec_to_fd(self, write: bool) -> Fd {
        match self {
            Stdio::Fd(x) => Fd::Fd(x),
            Stdio::Pipe => if write {
                Fd::WritePipe
            } else {
                Fd::ReadPipe
            },
            Stdio::Inherit => Fd::Inherit,
            Stdio::Null => if write {
                Fd::WriteNull
            } else {
                Fd::ReadNull
            },
        }
    }

    /// What `dup_file` makes of the outcome of duplicating a descriptor.
    pub open spec fn spec_from_dup(r: Result<i32, SysError>) -> Result<Stdio, IoError> {
        match r {
            Ok(fd) => Ok(Stdio::Fd(Closing { fd })),
            Err(SysError::Sys(errno)) => Err(IoError::Os(errno)),
            Err(_) => Err(IoError::Other),
        }
    }

    /// A pipe is created for the child.
    pub fn piped() -> (r: Stdio)
        ensures
            r == Stdio::Pipe,
    {
        Stdio::Pipe
    }

    /// The child inherits the stream of the parent.
    pub fn inherit() -> (r: Stdio)
        ensures
            r == Stdio::Inherit,
    {
        Stdio::Inherit
    }

    /// The stream is attached to `/dev/null`.
    pub fn null() -> (r: Stdio)
        ensures
            r == Stdio::Null,
    {
        Stdio::Null
    }

    /// The same connection for a descriptor whose direction is known:
    /// `write` says whether the child writes to it.
    pub fn to_fd(self, write: bool) -> (r: Fd)
        ensures
            r == self.spec_to_fd(write),
    {
        match self {
            Stdio::Fd(x) => Fd::Fd(x),
            Stdio::Pipe => if write {
                Fd::WritePipe
            } else {
                Fd::ReadPipe
            },
            Stdio::Inherit => Fd::Inherit,
            Stdio::Null => if write {
                Fd::WriteNull
            } else {
                Fd::ReadNull
            },
        }
    }

    /// Takes charge of the open descriptor `fd`, which the caller gives up.
    pub fn from_file(fd: i32) -> (r: Stdio)
        ensures
            r == Stdio::Fd(Closing { fd }),
    {
        Stdio::Fd(Closing::new(fd))
    }

    /// The stream for the outcome `r` of duplicating a descriptor: the
    /// duplicate, owned, or the error.
    pub fn from_dup(r: Result<i32, SysError>) -> (out: Result<Stdio, IoError>)
        ensures
            out == Self::spec_from_dup(r),
    {
        match r {
            Ok(fd) => Ok(Stdio::Fd(Closing::new(fd))),
            Err(SysError::Sys(errno)) => Err(IoError::Os(errno)),
            Err(_) => Err(IoError::Other),
        }
    }

    /// Duplicates the descriptor `fd`, which stays with the caller, and
    /// takes charge of the duplicate.
    pub fn dup_file(fd: i32) -> (out: Result<Stdio, IoError>)
        ensures
            exists|r: Result<i32, SysError>| out == Self::spec_from_dup(r),
    {
        Self::from_dup(sys_dup(fd))
    }
}

impl Fd {
    /// The kind of connection, without the descriptor.
    pub open spec fn kind(self) -> FdKind {
        match self {
            Fd::ReadPipe => FdKind::ReadPipe,
            Fd::WritePipe => FdKind::WritePipe,
            Fd::Inherit => FdKind::Inherit,
            Fd::ReadNull => FdKind::ReadNull,
            Fd::WriteNull => FdKind::WriteNull,
            Fd::Fd(_) => FdKind::Given,
            Fd::RawFd(_) => FdKind::Given,
        }
    }

    /// The descriptor that comes with the connection, if one does.
    pub open spec fn given(self) -> Option<i32> {
        match self {
            Fd::Fd(c) => Some(c.fd),
            Fd::RawFd(fd) => Some(fd),
            _ => None,
        }
    }

    /// What `dup_file` makes of the outcome of duplicating a descriptor.
    pub open spec fn spec_from_dup(r: Result<i32, SysError>) -> Result<Fd, IoError> {
        match r {
            Ok(fd) => Ok(Fd::Fd(Closing { fd })),
            Err(SysError::Sys(errno)) => Err(IoError::Os(errno)),
            Err(_) => Err(IoError::Other),
        }
    }

    /// A pipe is created that the child reads.
    pub fn piped_read() -> (r: Fd)
        ensures
            r == Fd::ReadPipe,
    {
        Fd::ReadPipe
    }

    /// A pipe is created that the child writes.
    pub fn piped_write() -> (r: Fd)
        ensures
            r == Fd::WritePipe,
    {
        Fd::WritePipe
    }

    /// The child inherits the descriptor of the parent.
    pub fn inherit() -> (r: Fd)
        ensures
            r == Fd::Inherit,
    {
        Fd::Inherit
    }

    /// Reading gives end of file at once.
    pub fn read_null() -> (r: Fd)
        ensures
            r == Fd::ReadNull,
    {
        Fd::ReadNull
    }

    /// Whatever is written is thrown away.
    pub fn write_null() -> (r: Fd)
        ensures
            r == Fd::WriteNull,
    {
        Fd::WriteNull
    }

    /// Takes charge of the open descriptor `fd`, which the caller gives up.
    pub fn from_file(fd: i32) -> (r: Fd)
        ensures
            r == Fd::Fd(Closing { fd }),
    {
        Fd::Fd(Closing::new(fd))
    }

    /// The connection for the outcome `r` of duplicating a descriptor: the
    /// duplicate, owned, or the error.
    pub fn from_dup(r: Result<i32, SysError>) -> (out: Result<Fd, IoError>)
        ensures
            out == Self::spec_from_dup(r),
    {
        match r {
            Ok(fd) => Ok(Fd::Fd(Closing::new(fd))),
            Err(SysError::Sys(errno)) => Err(IoError::Os(errno)),
            Err(_) => Err(IoError::Other),
        }
    }

    /// Duplicates the descriptor `fd`, which stays with the caller, and
    /// takes charge of the duplicate.
    pub fn dup_file(fd: i32) -> (out: Result<Fd, IoError>)
        ensures
            exists|r: Result<i32, SysError>| out == Self::spec_from_dup(r),
    {
        Self::from_dup(sys_dup(fd))
    }
}

} // verus!
