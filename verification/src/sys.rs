//! The system calls that the library makes itself. Nothing here is proved:
//! each function states what is taken on trust about the call it makes.
use vstd::prelude::*;
use crate::error::SysError;
use crate::wait::WaitEvent;

verus! {

/// Open for reading only.
pub const O_RDONLY: i32 = 0;

/// Open for writing only.
pub const O_WRONLY: i32 = 1;

/// Calls `nix::unistd::pipe2` with `O_CLOEXEC` and hands out the read end
/// and the write end of the new pipe, or the error with its `errno` as a
/// number. Nothing is claimed of the outcome.
#[verifier::external_body]
pub(crate) fn pipe_cloexec() -> (r: Result<(i32, i32), SysError>) {
    match nix::unistd::pipe2(nix::fcntl::OFlag::O_CLOEXEC) {
        Ok(ends) => Ok(ends),
        Err(nix::Error::Sys(errno)) => Err(SysError::Sys(errno as i32)),
        Err(nix::Error::InvalidPath) => Err(SysError::InvalidPath),
        Err(nix::Error::InvalidUtf8) => Err(SysError::InvalidUtf8),
        Err(nix::Error::UnsupportedOperation) => Err(SysError::UnsupportedOperation),
    }
}

/// Calls `nix::fcntl::open` on `path` with the access mode `access`, with
/// `O_CLOEXEC` and with no permission bits. Claimed: a descriptor that is
/// handed out is not -1, the value by which the call reports failure.
#[verifier::external_body]
pub(crate) fn open_cloexec(path: &[u8], access: i32) -> (r: Result<i32, SysError>)
    ensures
        r matches Ok(fd) ==> fd != -1,
{
    let flags = nix::fcntl::OFlag::from_bits_truncate(access) | nix::fcntl::OFlag::O_CLOEXEC;
    match nix::fcntl::open(path, flags, nix::sys::stat::Mode::empty()) {
        Ok(fd) => Ok(fd),
        Err(nix::Error::Sys(errno)) => Err(SysError::Sys(errno as i32)),
        Err(nix::Error::InvalidPath) => Err(SysError::InvalidPath),
        Err(nix::Error::InvalidUtf8) => Err(SysError::InvalidUtf8),
        Err(nix::Error::UnsupportedOperation) => Err(SysError::UnsupportedOperation),
    }
}

/// Calls `nix::fcntl::fcntl` with `F_DUPFD_CLOEXEC(min)` on `fd`: asks for a
/// duplicate of `fd` that is closed on `execve`. Claimed: a descriptor that
/// is handed out is not -1, the value by which the call reports failure.
#[verifier::external_body]
pub(crate) fn dup_cloexec(fd: i32, min: i32) -> (r: Result<i32, SysError>)
    ensures
        r matches Ok(n) ==> n != -1,
{
    match nix::fcntl::fcntl(fd, nix::fcntl::FcntlArg::F_DUPFD_CLOEXEC(min)) {
        Ok(n) => Ok(n),
        Err(nix::Error::Sys(errno)) => Err(SysError::Sys(errno as i32)),
        Err(nix::Error::InvalidPath) => Err(SysError::InvalidPath),
        Err(nix::Error::InvalidUtf8) => Err(SysError::InvalidUtf8),
        Err(nix::Error::UnsupportedOperation) => Err(SysError::UnsupportedOperation),
    }
}

/// Calls `nix::unistd::dup` on `fd`. Claimed: a descriptor that is handed
/// out is not -1, the value by which the call reports failure.
#[verifier::external_body]
pub(crate) fn sys_dup(fd: i32) -> (r: Result<i32, SysError>)
    ensures
        r matches Ok(n) ==> n != -1,
{
    match nix::unistd::dup(fd) {
        Ok(n) => Ok(n),
        Err(nix::Error::Sys(errno)) => Err(SysError::Sys(errno as i32)),
        Err(nix::Error::InvalidPath) => Err(SysError::InvalidPath),
        Err(nix::Error::InvalidUtf8) => Err(SysError::InvalidUtf8),
        Err(nix::Error::UnsupportedOperation) => Err(SysError::UnsupportedOperation),
    }
}

/// Calls `nix::unistd::close` on `fd` and drops what it returns. The call
/// does not unwind.
#[verifier::external_body]
pub(crate) fn close_fd(fd: i32)
    opens_invariants none
    no_unwind
{
    let _ = nix::unistd::close(fd);
}

/// Calls `nix::sys::signal::kill` to send `signal` to the process `pid`.
/// Nothing is claimed of the outcome.
#[verifier::external_body]
pub(crate) fn sys_kill(pid: i32, signal: nix::sys::signal::Signal) -> (r: Result<(), SysError>) {
    match nix::sys::signal::kill(nix::unistd::Pid::from_raw(pid), signal) {
        Ok(()) => Ok(()),
        Err(nix::Error::Sys(errno)) => Err(SysError::Sys(errno as i32)),
        Err(nix::Error::InvalidPath) => Err(SysError::InvalidPath),
        Err(nix::Error::InvalidUtf8) => Err(SysError::InvalidUtf8),
        Err(nix::Error::UnsupportedOperation) => Err(SysError::UnsupportedOperation),
    }
}

/// The signal type of the system layer.
#[verifier::external_type_specification]
#[verifier::external_body]
pub struct ExSignal(nix::sys::signal::Signal);

/// Calls `Signal::try_from` of `nix` on a signal number. Claimed: there is
/// a signal for the numbers from 1 to 31 and for no other, as the source of
/// the conversion shows.
#[verifier::external_body]
pub(crate) fn signal_from_number(sig: i32) -> (r: Option<nix::sys::signal::Signal>)
    ensures
        r is Some <==> 0 < sig < 32,
{
    <nix::sys::signal::Signal as std::convert::TryFrom<i32>>::try_from(sig).ok()
}

/// The status type of the system layer.
#[verifier::external_type_specification]
#[verifier::external_body]
pub struct ExWaitStatus(nix::sys::wait::WaitStatus);

/// Calls `nix::sys::wait::waitpid` for the process `pid`, or for any child
/// where `pid` is -1, with the option bits `flags`. Nothing is claimed of
/// the outcome. The call returns when the kernel has something to report;
/// it takes for granted that a status of the kernel tells of an exit, a
/// signal, a stop or a continuation.
#[verifier::external_body]
pub(crate) fn sys_waitpid(pid: i32, flags: i32) -> (r: Result<
    nix::sys::wait::WaitStatus,
    SysError,
>) {
    let options = nix::sys::wait::WaitPidFlag::from_bits_truncate(flags);
    match nix::sys::wait::waitpid(nix::unistd::Pid::from_raw(pid), Some(options)) {
        Ok(status) => Ok(status),
        Err(nix::Error::Sys(errno)) => Err(SysError::Sys(errno as i32)),
        Err(nix::Error::InvalidPath) => Err(SysError::InvalidPath),
        Err(nix::Error::InvalidUtf8) => Err(SysError::InvalidUtf8),
        Err(nix::Error::UnsupportedOperation) => Err(SysError::UnsupportedOperation),
    }
}

/// Tells the variants of `nix::sys::wait::WaitStatus` apart and hands out
/// what each holds as numbers. Nothing is claimed of the outcome.
#[verifier::external_body]
pub(crate) fn wait_event(status: nix::sys::wait::WaitStatus) -> (r: WaitEvent) {
    match status {
        nix::sys::wait::WaitStatus::Exited(p, code) => WaitEvent::Exited(p.as_raw(), code),
        nix::sys::wait::WaitStatus::Signaled(p, s, c) => WaitEvent::Signaled(p.as_raw(), s as i32, c),
        nix::sys::wait::WaitStatus::Stopped(p, s) => WaitEvent::Stopped(p.as_raw(), s as i32),
        nix::sys::wait::WaitStatus::PtraceEvent(p, s, e) => WaitEvent::PtraceEvent(p.as_raw(), s as i32, e),
        nix::sys::wait::WaitStatus::PtraceSyscall(p) => WaitEvent::PtraceSyscall(p.as_raw()),
        nix::sys::wait::WaitStatus::Continued(p) => WaitEvent::Continued(p.as_raw()),
        nix::sys::wait::WaitStatus::StillAlive => WaitEvent::StillAlive,
    }
}

/// Calls `nix::unistd::setpgid` to put the process `pid` into the process
/// group `pgid`. Nothing is claimed of the outcome.
#[verifier::external_body]
pub(crate) fn sys_setpgid(pid: i32, pgid: i32) -> (r: Result<(), SysError>) {
    match nix::unistd::setpgid(nix::unistd::Pid::from_raw(pid), nix::unistd::Pid::from_raw(pgid)) {
        Ok(()) => Ok(()),
        Err(nix::Error::Sys(errno)) => Err(SysError::Sys(errno as i32)),
        Err(nix::Error::InvalidPath) => Err(SysError::InvalidPath),
        Err(nix::Error::InvalidUtf8) => Err(SysError::InvalidUtf8),
        Err(nix::Error::UnsupportedOperation) => Err(SysError::UnsupportedOperation),
    }
}

/// Calls `nix::unistd::read` on `fd` with `buf` as the buffer. Claimed: the
/// buffer keeps its length.
#[verifier::external_body]
pub(crate) fn sys_read(fd: i32, buf: &mut [u8]) -> (r: Result<usize, SysError>)
    ensures
        final(buf)@.len() == old(buf)@.len(),
{
    match nix::unistd::read(fd, buf) {
        Ok(n) => Ok(n),
        Err(nix::Error::Sys(errno)) => Err(SysError::Sys(errno as i32)),
        Err(nix::Error::InvalidPath) => Err(SysError::InvalidPath),
        Err(nix::Error::InvalidUtf8) => Err(SysError::InvalidUtf8),
        Err(nix::Error::UnsupportedOperation) => Err(SysError::UnsupportedOperation),
    }
}

/// Calls `nix::unistd::write` on `fd` with the bytes of `buf`. Nothing is
/// claimed of the outcome.
#[verifier::external_body]
pub(crate) fn sys_write(fd: i32, buf: &[u8]) -> (r: Result<usize, SysError>) {
    match nix::unistd::write(fd, buf) {
        Ok(n) => Ok(n),
        Err(nix::Error::Sys(errno)) => Err(SysError::Sys(errno as i32)),
        Err(nix::Error::InvalidPath) => Err(SysError::InvalidPath),
        Err(nix::Error::InvalidUtf8) => Err(SysError::InvalidUtf8),
        Err(nix::Error::UnsupportedOperation) => Err(SysError::UnsupportedOperation),
    }
}

/// Whether `nix` has a name for the error number `code`: what
/// `nix::errno::from_i32` makes of it is not `UnknownErrno`.
pub uninterp spec fn errno_known(code: int) -> bool;

/// The words that `nix` has for the error number `code`: what
/// `nix::errno::Errno::desc` returns for it.
pub uninterp spec fn errno_desc(code: int) -> Seq<char>;

/// Calls `nix::errno::from_i32` on `code` and tells `UnknownErrno` from the
/// other variants. Claimed: the answer depends on `code` alone; the function
/// is a table.
#[verifier::external_body]
pub(crate) fn errno_is_known(code: i32) -> (r: bool)
    ensures
        r == errno_known(code as int),
{
    match nix::errno::from_i32(code) {
        nix::errno::Errno::UnknownErrno => false,
        _ => true,
    }
}

/// Calls `nix::errno::Errno::desc` on the error number `code`. Claimed: the
/// words depend on `code` alone; the function is a table.
#[verifier::external_body]
pub(crate) fn errno_description(code: i32) -> (r: &'static str)
    ensures
        r@ == errno_desc(code as int),
{
    nix::errno::from_i32(code).desc()
}

/// Formats `std::io::Error::from_raw_os_error(code)` for display. Nothing is
/// claimed of the text, which the system words.
#[verifier::external_body]
pub(crate) fn os_error_text(code: i32) -> (r: String) {
    format!("{}", std::io::Error::from_raw_os_error(code))
}

/// The name that `nix` has for the signal with the number `sig`: what
/// `nix::sys::signal::Signal::as_str` returns for it.
pub uninterp spec fn signal_name(sig: int) -> Seq<char>;

/// Calls `Signal::try_from` of `nix` on a signal number and
/// `Signal::as_str` on the signal. Claimed: there is a name for the numbers
/// from 1 to 31 and for no other, and the name depends on the number alone;
/// the function is a table.
#[verifier::external_body]
pub(crate) fn signal_text(sig: i32) -> (r: Option<&'static str>)
    ensures
        r is Some <==> 0 < sig < 32,
        r matches Some(name) ==> name@ == signal_name(sig as int),
{
    match <nix::sys::signal::Signal as std::convert::TryFrom<i32>>::try_from(sig) {
        Ok(signal) => Some(signal.as_str()),
        Err(_) => None,
    }
}

} // verus!
