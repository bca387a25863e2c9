//! Errors of a spawn, and the five-byte frame in which a child reports one.
use vstd::prelude::*;
use vstd::string::StringExecFns;
use crate::decimal::{push_signed_decimal_text, signed_decimal_text};
use crate::status::ExitStatus;
use crate::sys::{errno_desc, errno_description, errno_is_known, errno_known, os_error_text};

verus! {

/// The kind of failure that a child reports through the error pipe.
#[derive(Debug, Clone, Copy, PartialEq, Eq, Structural)]
pub enum ErrorCode {
    CreatePipe,
    Fork,
    Exec,
    Chdir,
    ParentDeathSignal,
    PipeError,
    StdioError,
    SetUser,
    ChangeRoot,
    SetIdMap,
    SetPGid,
    SetNs,
    CapSet,
}

/// Error running a process.
///
/// Most variants carry the `errno` of the system call that failed.
#[derive(Debug, Clone, PartialEq, Eq)]
pub enum Error {
    /// An error of the system layer that carries no `errno`.
    NixError,
    /// The child sent something that is not an error frame.
    UnknownError,
    /// A pipe, or a descriptor opened on behalf of the child, could not be
    /// created.
    CreatePipe(i32),
    /// `clone` failed.
    Fork(i32),
    /// `execve` failed.
    Exec(i32),
    /// The working directory asked for could not be entered.
    Chdir(i32),
    /// The parent-death signal could not be set.
    ParentDeathSignal(i32),
    /// Reading or writing one of the two signalling pipes failed.
    PipeError(i32),
    /// Waiting for the child failed.
    WaitError(i32),
    /// The descriptors of the child could not be put in place.
    StdioError(i32),
    /// Group id, supplementary groups or user id could not be set.
    SetUser(i32),
    /// `pivot_root`, `chroot`, the `chdir` that follows them, or unmounting
    /// the old root failed.
    ChangeRoot(i32),
    /// The uid or gid map could not be written, or the helper that writes it
    /// could not be started.
    SetIdMap(i32),
    /// A helper command ran and exited with this non-zero code.
    AuxCommandExited(i32),
    /// A helper command was killed by this signal.
    AuxCommandKilled(i32),
    /// `setpgid` failed.
    SetPGid(i32),
    /// `setns` failed.
    SetNs(i32),
    /// Capabilities could not be set.
    CapSet(i32),
    /// The callback that runs in the parent before the child is woken up
    /// failed; the text is what the callback's error said.
    BeforeUnfreeze(String),
}

/// What a failed system call hands back.
#[derive(Debug, Clone, Copy, PartialEq, Eq, Structural)]
pub enum SysError {
    /// The call failed with this `errno`.
    Sys(i32),
    InvalidPath,
    InvalidUtf8,
    UnsupportedOperation,
}

/// An error of an operation on a descriptor or on a running child.
#[derive(Debug, Clone, Copy, PartialEq, Eq, Structural)]
pub enum IoError {
    /// The operating system refused, with this `errno`.
    Os(i32),
    /// The operation makes no sense in the state the child is in.
    InvalidInput,
    /// The system layer does not support the operation.
    Other,
}

/// Number of bytes in an error frame.
pub const FRAME_LEN: usize = 5;

/// The errno sent for a callback error that carries none.
pub const NO_OS_ERROR: i32 = 10873289;

/// The first byte of the frame that a child sends when the callback that
/// runs before `execve` has failed. The table of kinds has no entry for that
/// failure, and this number is none of its thirteen: the parent reads such a
/// frame as `UnknownError`.
pub const CALLBACK_KIND: u8 = 14;

impl ErrorCode {
    /// The number that stands for the kind in an error frame.
    pub open spec fn spec_code(self) -> u8 {
        match self {
            ErrorCode::CreatePipe => 1,
            ErrorCode::Fork => 2,
            ErrorCode::Exec => 3,
            ErrorCode::Chdir => 4,
            ErrorCode::ParentDeathSignal => 5,
            ErrorCode::PipeError => 6,
            ErrorCode::StdioError => 7,
            ErrorCode::SetUser => 8,
            ErrorCode::ChangeRoot => 9,
            ErrorCode::SetIdMap => 10,
            ErrorCode::SetPGid => 11,
            ErrorCode::SetNs => 12,
            ErrorCode::CapSet => 13,
        }
    }

    /// The error of this kind with the given `errno`.
    pub open spec fn spec_wrap(self, errno: i32) -> Error {
        match self {
            ErrorCode::CreatePipe => Error::CreatePipe(errno),
            ErrorCode::Fork => Error::Fork(errno),
            ErrorCode::Exec => Error::Exec(errno),
            ErrorCode::Chdir => Error::Chdir(errno),
            ErrorCode::ParentDeathSignal => Error::ParentDeathSignal(errno),
            ErrorCode::PipeError => Error::PipeError(errno),
            ErrorCode::StdioError => Error::StdioError(errno),
            ErrorCode::SetUser => Error::SetUser(errno),
            ErrorCode::ChangeRoot => Error::ChangeRoot(errno),
            ErrorCode::SetIdMap => Error::SetIdMap(errno),
            ErrorCode::SetPGid => Error::SetPGid(errno),
            ErrorCode::SetNs => Error::SetNs(errno),
            ErrorCode::CapSet => Error::CapSet(errno),
        }
    }

    /// The kind whose number is `code`, if there is one.
    pub open spec fn spec_from_code(code: int) -> Option<ErrorCode> {
        if code == 1 {
            Some(ErrorCode::CreatePipe)
        } else if code == 2 {
            Some(ErrorCode::Fork)
        } else if code == 3 {
            Some(ErrorCode::Exec)
        } else if code == 4 {
            Some(ErrorCode::Chdir)
        } else if code == 5 {
            Some(ErrorCode::ParentDeathSignal)
        } else if code == 6 {
            Some(ErrorCode::PipeError)
        } else if code == 7 {
            Some(ErrorCode::StdioError)
        } else if code == 8 {
            Some(ErrorCode::SetUser)
        } else if code == 9 {
            Some(ErrorCode::ChangeRoot)
        } else if code == 10 {
            Some(ErrorCode::SetIdMap)
        } else if code == 11 {
            Some(ErrorCode::SetPGid)
        } else if code == 12 {
            Some(ErrorCode::SetNs)
        } else if code == 13 {
            Some(ErrorCode::CapSet)
        } else {
            None
        }
    }

    /// The error that a frame with this kind number and `errno` stands for.
    pub open spec fn spec_from_i32(code: i32, errno: i32) -> Error {
        match Self::spec_from_code(code as int) {
            Some(c) => c.spec_wrap(errno),
            None => Error::UnknownError,
        }
    }

    /// The number that stands for the kind in an error frame.
    pub fn code(self) -> (r: u8)
        ensures
            r == self.spec_code(),
            1 <= r <= 13,
    {
        match self {
            ErrorCode::CreatePipe => 1,
            ErrorCode::Fork => 2,
            ErrorCode::Exec => 3,
            ErrorCode::Chdir => 4,
            ErrorCode::ParentDeathSignal => 5,
            ErrorCode::PipeError => 6,
            ErrorCode::StdioError => 7,
            ErrorCode::SetUser => 8,
            ErrorCode::ChangeRoot => 9,
            ErrorCode::SetIdMap => 10,
            ErrorCode::SetPGid => 11,
            ErrorCode::SetNs => 12,
            ErrorCode::CapSet => 13,
        }
    }

    /// Attaches an `errno` to the kind.
    pub fn wrap(self, errno: i32) -> (r: Error)
        ensures
            r == self.spec_wrap(errno),
    {
        match self {
            ErrorCode::CreatePipe => Error::CreatePipe(errno),
            ErrorCode::Fork => Error::Fork(errno),
            ErrorCode::Exec => Error::Exec(errno),
            ErrorCode::Chdir => Error::Chdir(errno),
            ErrorCode::ParentDeathSignal => Error::ParentDeathSignal(errno),
            ErrorCode::PipeError => Error::PipeError(errno),
            ErrorCode::StdioError => Error::StdioError(errno),
            ErrorCode::SetUser => Error::SetUser(errno),
            ErrorCode::ChangeRoot => Error::ChangeRoot(errno),
            ErrorCode::SetIdMap => Error::SetIdMap(errno),
            ErrorCode::SetPGid => Error::SetPGid(errno),
            ErrorCode::SetNs => Error::SetNs(errno),
            ErrorCode::CapSet => Error::CapSet(errno),
        }
    }

    /// The error that a kind number and an `errno` received from a child
    /// stand for; `UnknownError` where the number names no kind.
    pub fn from_i32(code: i32, errno: i32) -> (r: Error)
        ensures
            r == Self::spec_from_i32(code, errno),
    {
        if code == 1 {
            Error::CreatePipe(errno)
        } else if code == 2 {
            Error::Fork(errno)
        } else if code == 3 {
            Error::Exec(errno)
        } else if code == 4 {
            Error::Chdir(errno)
        } else if code == 5 {
            Error::ParentDeathSignal(errno)
        } else if code == 6 {
            Error::PipeError(errno)
        } else if code == 7 {
            Error::StdioError(errno)
        } else if code == 8 {
            Error::SetUser(errno)
        } else if code == 9 {
            Error::ChangeRoot(errno)
        } else if code == 10 {
            Error::SetIdMap(errno)
        } else if code == 11 {
            Error::SetPGid(errno)
        } else if code == 12 {
            Error::SetNs(errno)
        } else if code == 13 {
            Error::CapSet(errno)
        } else {
            Error::UnknownError
        }
    }
}

impl Error {
    /// The `errno` that the error carries, if it carries one.
    pub open spec fn spec_raw_os_error(self) -> Option<i32> {
        match self {
            Error::UnknownError => None,
            Error::NixError => None,
            Error::CreatePipe(x) => Some(x),
            Error::Fork(x) => Some(x),
            Error::Exec(x) => Some(x),
            Error::Chdir(x) => Some(x),
            Error::ParentDeathSignal(x) => Some(x),
            Error::PipeError(x) => Some(x),
            Error::WaitError(x) => Some(x),
            Error::StdioError(x) => Some(x),
            Error::SetUser(x) => Some(x),
            Error::ChangeRoot(x) => Some(x),
            Error::SetIdMap(x) => Some(x),
            Error::AuxCommandExited(_) => None,
            Error::AuxCommandKilled(_) => None,
            Error::SetPGid(x) => Some(x),
            Error::SetNs(x) => Some(x),
            Error::CapSet(x) => Some(x),
            Error::BeforeUnfreeze(_) => None,
        }
    }

    /// The bare `errno`, for the errors that stem from a system call.
    pub fn raw_os_error(&self) -> (r: Option<i32>)
        ensures
            r == self.spec_raw_os_error(),
    {
        match self {
            Error::UnknownError => None,
            Error::NixError => None,
            Error::CreatePipe(x) => Some(*x),
            Error::Fork(x) => Some(*x),
            Error::Exec(x) => Some(*x),
            Error::Chdir(x) => Some(*x),
            Error::ParentDeathSignal(x) => Some(*x),
            Error::PipeError(x) => Some(*x),
            Error::WaitError(x) => Some(*x),
            Error::StdioError(x) => Some(*x),
            Error::SetUser(x) => Some(*x),
            Error::ChangeRoot(x) => Some(*x),
            Error::SetIdMap(x) => Some(*x),
            Error::AuxCommandExited(_) => None,
            Error::AuxCommandKilled(_) => None,
            Error::SetPGid(x) => Some(*x),
            Error::SetNs(x) => Some(*x),
            Error::CapSet(x) => Some(*x),
            Error::BeforeUnfreeze(_) => None,
        }
    }

    /// The error of a spawn whose child could not be waited for: it carries
    /// the `errno` of the failed wait, or -1 where that has none.
    pub fn from_wait(e: IoError) -> (r: Error)
        ensures
            r == Error::WaitError(or_default(e.spec_raw_os_error(), -1i32)),
    {
        match e.raw_os_error() {
            Some(x) => Error::WaitError(x),
            None => Error::WaitError(-1),
        }
    }

    /// A fixed sentence that names the kind of error.
    pub fn description(&self) -> (r: &'static str)
        ensures
            r@ == self.spec_description(),
    {
        match self {
            Error::UnknownError => "unexpected value received via signal pipe",
            Error::NixError => "some unknown nix error",
            Error::CreatePipe(_) => "can't create pipe",
            Error::Fork(_) => "error when forking",
            Error::Exec(_) => "error when executing",
            Error::Chdir(_) => "error when setting working directory",
            Error::ParentDeathSignal(_) => "error when death signal",
            Error::PipeError(_) => "error in signalling pipe",
            Error::WaitError(_) => "error in waiting for child",
            Error::StdioError(_) => "error setting up stdio for child",
            Error::SetUser(_) => "error setting user or groups",
            Error::ChangeRoot(_) => "error changing root directory",
            Error::SetIdMap(_) => "error setting uid/gid mappings",
            Error::AuxCommandExited(_) => "aux command exited with non-zero code",
            Error::AuxCommandKilled(_) => "aux command was killed by signal",
            Error::SetPGid(_) => "error when calling setpgid",
            Error::SetNs(_) => "error when calling setns",
            Error::CapSet(_) => "error when setting capabilities",
            Error::BeforeUnfreeze(_) => "error in before_unfreeze callback",
        }
    }

    /// What the error reads like to a user, given what is known of its
    /// `errno`: the description alone for an error without `errno`; else the
    /// description, a colon, and for an `errno` with a name the words `desc`
    /// for it followed by `(os error N)`, for one without a name the text
    /// `other`.
    pub open spec fn spec_message_with(self, known: bool, desc: Seq<char>, other: Seq<char>) -> Seq<
        char,
    > {
        match self.spec_raw_os_error() {
            Some(code) => if known {
                self.spec_description() + ": "@ + desc + " (os error "@ + signed_decimal_text(
                    code as int,
                ) + ")"@
            } else {
                self.spec_description() + ": "@ + other
            },
            None => self.spec_description(),
        }
    }

    /// Puts the message of the error together from what is known of its
    /// `errno`; see `spec_message_with`.
    pub fn message_with(&self, known: bool, desc: &str, other: &str) -> (r: String)
        ensures
            r@ == self.spec_message_with(known, desc@, other@),
    {
        let mut out = String::from_str(self.description());
        match self.raw_os_error() {
            Some(code) => {
                out.append(": ");
                if known {
                    out.append(desc);
                    out.append(" (os error ");
                    push_signed_decimal_text(&mut out, code);
                    out.append(")");
                } else {
                    out.append(other);
                }
            },
            None => {},
        }
        out
    }

    /// What the error reads like to a user: the description, and for an
    /// error with an `errno` a colon, the words of the system layer for the
    /// number, and `(os error N)`. For a number that the system layer has no
    /// name for, the operating system words what follows the colon.
    pub fn message(&self) -> (r: String)
        ensures
            match self.spec_raw_os_error() {
                Some(code) => if errno_known(code as int) {
                    r@ == self.spec_message_with(true, errno_desc(code as int), Seq::empty())
                } else {
                    exists|other: Seq<char>|
                        r@ == self.spec_message_with(false, Seq::empty(), other)
                },
                None => r@ == self.spec_description(),
            },
    {
        match self.raw_os_error() {
            Some(code) => {
                if errno_is_known(code) {
                    self.message_with(true, errno_description(code), "")
                } else {
                    let text = os_error_text(code);
                    let r = self.message_with(false, "", text.as_str());
                    assert(r@ == self.spec_message_with(false, Seq::empty(), text@));
                    r
                }
            },
            None => self.message_with(false, "", ""),
        }
    }

    /// The sentence that `description` returns.
    pub open spec fn spec_description(self) -> Seq<char> {
        match self {
            Error::UnknownError => "unexpected value received via signal pipe"@,
            Error::NixError => "some unknown nix error"@,
            Error::CreatePipe(_) => "can't create pipe"@,
            Error::Fork(_) => "error when forking"@,
            Error::Exec(_) => "error when executing"@,
            Error::Chdir(_) => "error when setting working directory"@,
            Error::ParentDeathSignal(_) => "error when death signal"@,
            Error::PipeError(_) => "error in signalling pipe"@,
            Error::WaitError(_) => "error in waiting for child"@,
            Error::StdioError(_) => "error setting up stdio for child"@,
            Error::SetUser(_) => "error setting user or groups"@,
            Error::ChangeRoot(_) => "error changing root directory"@,
            Error::SetIdMap(_) => "error setting uid/gid mappings"@,
            Error::AuxCommandExited(_) => "aux command exited with non-zero code"@,
            Error::AuxCommandKilled(_) => "aux command was killed by signal"@,
            Error::SetPGid(_) => "error when calling setpgid"@,
            Error::SetNs(_) => "error when calling setns"@,
            Error::CapSet(_) => "error when setting capabilities"@,
            Error::BeforeUnfreeze(_) => "error in before_unfreeze callback"@,
        }
    }
}

impl IoError {
    /// The `errno` behind the error, if the operating system raised it.
    pub open spec fn spec_raw_os_error(self) -> Option<i32> {
        match self {
            IoError::Os(x) => Some(x),
            _ => None,
        }
    }

    /// The `errno` behind the error, if the operating system raised it.
    pub fn raw_os_error(&self) -> (r: Option<i32>)
        ensures
            r == self.spec_raw_os_error(),
    {
        match self {
            IoError::Os(x) => Some(*x),
            _ => None,
        }
    }

    /// The error of a failed system call, seen as an error of an
    /// operation.
    pub open spec fn spec_from_sys(e: SysError) -> IoError {
        match e {
            SysError::Sys(x) => IoError::Os(x),
            _ => IoError::Other,
        }
    }

    /// The error of a failed system call, seen as an error of an
    /// operation.
    pub fn from_sys(e: SysError) -> (r: IoError)
        ensures
            r == Self::spec_from_sys(e),
    {
        match e {
            SysError::Sys(x) => IoError::Os(x),
            _ => IoError::Other,
        }
    }
}

/// `x`, or `d` where there is none.
pub open spec fn or_default(x: Option<i32>, d: i32) -> i32 {
    match x {
        Some(v) => v,
        None => d,
    }
}

/// A failure that can be reported as an error of a step of the spawn.
pub trait IntoError: Sized {
    /// The error that the failure becomes when the step of kind `code` fails
    /// with it.
    spec fn spec_into_error(self, code: ErrorCode) -> Error;

    fn into_error(self, code: ErrorCode) -> (r: Error)
        ensures
            r == self.spec_into_error(code),
    ;
}

impl IntoError for SysError {
    open spec fn spec_into_error(self, code: ErrorCode) -> Error {
        match self {
            SysError::Sys(x) => code.spec_wrap(x),
            _ => Error::NixError,
        }
    }

    fn into_error(self, code: ErrorCode) -> (r: Error) {
        match self {
            SysError::Sys(x) => code.wrap(x),
            _ => Error::NixError,
        }
    }
}

impl IntoError for IoError {
    open spec fn spec_into_error(self, code: ErrorCode) -> Error {
        code.spec_wrap(or_default(self.spec_raw_os_error(), -1i32))
    }

    fn into_error(self, code: ErrorCode) -> (r: Error) {
        match self.raw_os_error() {
            Some(x) => code.wrap(x),
            None => code.wrap(-1),
        }
    }
}

impl IntoError for Error {
    open spec fn spec_into_error(self, code: ErrorCode) -> Error {
        code.spec_wrap(or_default(self.spec_raw_os_error(), -1i32))
    }

    fn into_error(self, code: ErrorCode) -> (r: Error) {
        match self.raw_os_error() {
            Some(x) => code.wrap(x),
            None => code.wrap(-1),
        }
    }
}

/// Turns the failure of a step of kind `code` into an `Error`; a success
/// passes through.
pub fn result<T, E: IntoError>(code: ErrorCode, r: Result<T, E>) -> (out: Result<T, Error>)
    ensures
        match r {
            Ok(v) => out == Ok::<T, Error>(v),
            Err(e) => out == Err::<T, Error>(e.spec_into_error(code)),
        },
{
    match r {
        Ok(v) => Ok(v),
        Err(e) => Err(e.into_error(code)),
    }
}

/// What `cmd_result` makes of the outcome of a helper command.
pub open spec fn spec_cmd_result<E: IntoError>(def_code: ErrorCode, r: Result<ExitStatus, E>)
    -> Result<(), Error> {
    match r {
        Ok(ExitStatus::Exited(x)) => if x == 0 {
            Ok(())
        } else {
            Err(Error::AuxCommandExited(x as i32))
        },
        Ok(ExitStatus::Signaled(x, _)) => Err(Error::AuxCommandKilled(x)),
        Err(e) => Err(e.spec_into_error(def_code)),
    }
}

/// Judges a helper command by how it ended: only an exit with code zero is
/// a success. A helper that could not be run at all gives an error of kind
/// `def_code`.
pub fn cmd_result<E: IntoError>(def_code: ErrorCode, r: Result<ExitStatus, E>) -> (out: Result<
    (),
    Error,
>)
    ensures
        out == spec_cmd_result(def_code, r),
{
    match r {
        Ok(ExitStatus::Exited(x)) => if x == 0 {
            Ok(())
        } else {
            Err(Error::AuxCommandExited(x as i32))
        },
        Ok(ExitStatus::Signaled(x, _)) => Err(Error::AuxCommandKilled(x)),
        Err(e) => Err(e.into_error(def_code)),
    }
}

/// The bytes of a frame with the first byte `kind`: that byte, then `errno`
/// with its most significant byte first.
pub open spec fn spec_frame_of(kind: u8, errno: i32) -> Seq<u8> {
    seq![
        kind,
        (errno >> 24u32) as u8,
        (errno >> 16u32) as u8,
        (errno >> 8u32) as u8,
        errno as u8,
    ]
}

/// The bytes of an error frame: the kind number, then `errno` with its most
/// significant byte first.
pub open spec fn spec_frame(code: ErrorCode, errno: i32) -> Seq<u8> {
    spec_frame_of(code.spec_code(), errno)
}

/// The `errno` that the four bytes after the kind number spell, most
/// significant byte first.
pub open spec fn spec_frame_errno(b1: u8, b2: u8, b3: u8, b4: u8) -> i32 {
    ((b1 as i32) << 24u32) | ((b2 as i32) << 16u32) | ((b3 as i32) << 8u32) | (b4 as i32)
}

/// What the parent makes of `n` bytes read from the error pipe into `buf`:
/// nothing read is a success, five bytes are a frame, anything else is
/// unknown.
pub open spec fn spec_decode_frame(buf: Seq<u8>, n: int) -> Result<(), Error> {
    if n == 0 {
        Ok(())
    } else if n == 5 && buf.len() >= 5 {
        Err(
            ErrorCode::spec_from_i32(
                buf[0] as i32,
                spec_frame_errno(buf[1], buf[2], buf[3], buf[4]),
            ),
        )
    } else {
        Err(Error::UnknownError)
    }
}

/// Builds the frame that a child writes to the error pipe when the step of
/// kind `code` fails with `errno`.
pub fn encode_frame(code: ErrorCode, errno: i32) -> (r: [u8; 5])
    ensures
        r@ == spec_frame(code, errno),
{
    let r: [u8; 5] = [
        code.code(),
        (errno >> 24u32) as u8,
        (errno >> 16u32) as u8,
        (errno >> 8u32) as u8,
        errno as u8,
    ];
    assert(r@ =~= spec_frame(code, errno));
    r
}

/// Builds the frame that a child writes to the error pipe when the callback
/// that runs before `execve` has failed with `errno`: the first byte is
/// `CALLBACK_KIND`.
pub fn encode_callback_frame(errno: i32) -> (r: [u8; 5])
    ensures
        r@ == spec_frame_of(CALLBACK_KIND, errno),
{
    let r: [u8; 5] = [
        CALLBACK_KIND,
        (errno >> 24u32) as u8,
        (errno >> 16u32) as u8,
        (errno >> 8u32) as u8,
        errno as u8,
    ];
    assert(r@ =~= spec_frame_of(CALLBACK_KIND, errno));
    r
}

/// Reads what the child left in the error pipe: `n` is the number of bytes
/// that the read returned, `buf` the buffer it filled.
pub fn decode_frame(buf: &[u8], n: usize) -> (r: Result<(), Error>)
    ensures
        r == spec_decode_frame(buf@, n as int),
{
    if n == 0 {
        Ok(())
    } else if n == FRAME_LEN && buf.len() >= FRAME_LEN {
        let code: u8 = buf[0];
        let errno: i32 = ((buf[1] as i32) << 24u32) | ((buf[2] as i32) << 16u32) | ((buf[3] as i32)
            << 8u32) | (buf[4] as i32);
        Err(ErrorCode::from_i32(code as i32, errno))
    } else {
        Err(Error::UnknownError)
    }
}

/// The four bytes of a frame spell the `errno` that was put into them.
pub proof fn lemma_errno_bytes(errno: i32)
    ensures
        spec_frame_errno(
            (errno >> 24u32) as u8,
            (errno >> 16u32) as u8,
            (errno >> 8u32) as u8,
            errno as u8,
        ) == errno,
{
    assert(((((errno >> 24u32) as u8) as i32) << 24u32) | ((((errno >> 16u32) as u8) as i32)
        << 16u32) | ((((errno >> 8u32) as u8) as i32) << 8u32) | ((errno as u8) as i32) == errno)
        by (bit_vector);
}

/// Every kind is found again from its number.
pub proof fn lemma_code_round_trip(code: ErrorCode)
    ensures
        ErrorCode::spec_from_code(code.spec_code() as int) == Some(code),
        1 <= code.spec_code() <= 13,
{
}

/// A frame that a child encodes is decoded by the parent to the error of the
/// same kind with the same `errno`.
pub proof fn lemma_frame_round_trip(code: ErrorCode, errno: i32)
    ensures
        spec_decode_frame(spec_frame(code, errno), 5) == Err::<(), Error>(code.spec_wrap(errno)),
{
    lemma_errno_bytes(errno);
    lemma_code_round_trip(code);
    let f = spec_frame(code, errno);
    assert(f.len() == 5);
    assert(f[0] as i32 == code.spec_code() as int);
}

/// A kind number names a kind exactly if it is one of 1 to 13: a frame with
/// any other first byte is read as `UnknownError`, whatever its `errno`.
pub proof fn lemma_unknown_kinds(code: i32, errno: i32)
    ensures
        (code < 1 || code > 13) <==> ErrorCode::spec_from_code(code as int) is None,
        (code < 1 || code > 13) ==> ErrorCode::spec_from_i32(code, errno) == Error::UnknownError,
        1 <= code <= 13 ==> ErrorCode::spec_from_i32(code, errno) != Error::UnknownError,
{
}

/// The frame of a failed callback is read by the parent as `UnknownError`.
pub proof fn lemma_callback_frame_is_unknown(errno: i32)
    ensures
        spec_decode_frame(spec_frame_of(CALLBACK_KIND, errno), 5) == Err::<(), Error>(
            Error::UnknownError,
        ),
{
    let f = spec_frame_of(CALLBACK_KIND, errno);
    assert(f.len() == 5);
    assert(f[0] == 14u8);
}

} // verus!
