//! The error numbers of Linux that the library acts on.
use vstd::prelude::*;

verus! {

/// The system call was interrupted.
pub const EINTR: i32 = 4;

/// No child processes.
pub const ECHILD: i32 = 10;

/// Try again.
pub const EAGAIN: i32 = 11;

/// Invalid argument.
pub const EINVAL: i32 = 22;

/// Too many open files.
pub const EMFILE: i32 = 24;

/// Operation not supported.
pub const ENOTSUP: i32 = 95;

} // verus!
