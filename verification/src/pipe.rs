//! Pipes between the parent and the child, and the ends that each side
//! keeps.
use vstd::prelude::*;
use core::mem::ManuallyDrop;
use crate::error::{Error, ErrorCode, IntoError, SysError};
use crate::sys::{close_fd, pipe_cloexec};

verus! {

/// The reading end of a pipe. It is closed when the value goes away.
#[derive(Debug)]
pub struct PipeReader {
    pub fd: i32,
}

/// The writing end of a pipe. It is closed when the value goes away.
#[derive(Debug)]
pub struct PipeWriter {
    pub fd: i32,
}

/// A pipe with both ends still together.
#[derive(Debug)]
pub struct Pipe {
    pub reader: PipeReader,
    pub writer: PipeWriter,
}

/// The end of a pipe that the parent keeps for a descriptor of the child.
#[derive(Debug)]
pub enum PipeHolder {
    Reader(PipeReader),
    Writer(PipeWriter),
}

impl Drop for PipeReader {
    fn drop(&mut self)
        opens_invariants none
        no_unwind
    {
        close_fd(self.fd);
    }
}

impl Drop for PipeWriter {
    fn drop(&mut self)
        opens_invariants none
        no_unwind
    {
        close_fd(self.fd);
    }
}

impl PipeReader {
    /// The descriptor, which stays with the reader.
    pub fn as_raw_fd(&self) -> (r: i32)
        ensures
            r == self.fd,
    {
        self.fd
    }

    /// Hands out the descriptor without closing it: from now on the caller
    /// is in charge of it.
    pub fn into_fd(self) -> (r: i32)
        ensures
            r == self.fd,
    {
        let fd = self.fd;
        let _keep = ManuallyDrop::new(self);
        fd
    }
}

impl PipeWriter {
    /// The descriptor, which stays with the writer.
    pub fn as_raw_fd(&self) -> (r: i32)
        ensures
            r == self.fd,
    {
        self.fd
    }

    /// Hands out the descriptor without closing it: from now on the caller
    /// is in charge of it.
    pub fn into_fd(self) -> (r: i32)
        ensures
            r == self.fd,
    {
        let fd = self.fd;
        let _keep = ManuallyDrop::new(self);
        fd
    }
}

impl Pipe {
    /// What `new` makes of the outcome of creating a pipe.
    pub open spec fn spec_from_ends(r: Result<(i32, i32), SysError>) -> Result<Pipe, Error> {
        match r {
            Ok((rd, wr)) => Ok(
                Pipe { reader: PipeReader { fd: rd }, writer: PipeWriter { fd: wr } },
            ),
            Err(e) => Err(e.spec_into_error(ErrorCode::CreatePipe)),
        }
    }

    /// The pipe for the outcome `r` of creating one: its two ends, owned, or
    /// the error `CreatePipe`.
    pub fn from_ends(r: Result<(i32, i32), SysError>) -> (out: Result<Pipe, Error>)
        ensures
            out == Self::spec_from_ends(r),
    {
        match r {
            Ok((rd, wr)) => Ok(
                Pipe { reader: PipeReader { fd: rd }, writer: PipeWriter { fd: wr } },
            ),
            Err(e) => Err(e.into_error(ErrorCode::CreatePipe)),
        }
    }

    /// Creates a pipe whose two ends are closed on `execve`.
    pub fn new() -> (out: Result<Pipe, Error>)
        ensures
            exists|r: Result<(i32, i32), SysError>| out == Self::spec_from_ends(r),
    {
        Self::from_ends(pipe_cloexec())
    }

    /// Takes the pipe apart into its reading and its writing end.
    pub fn split(self) -> (r: (PipeReader, PipeWriter))
        ensures
            r.0 == self.reader,
            r.1 == self.writer,
    {
        (self.reader, self.writer)
    }
}

} // verus!
