use unshare::error::{
    cmd_result, decode_frame, encode_callback_frame, encode_frame, result, Error, ErrorCode,
    IntoError, IoError, SysError, CALLBACK_KIND, NO_OS_ERROR,
};
use unshare::ExitStatus;

const ALL_CODES: [ErrorCode; 13] = [
    ErrorCode::CreatePipe,
    ErrorCode::Fork,
    ErrorCode::Exec,
    ErrorCode::Chdir,
    ErrorCode::ParentDeathSignal,
    ErrorCode::PipeError,
    ErrorCode::StdioError,
    ErrorCode::SetUser,
    ErrorCode::ChangeRoot,
    ErrorCode::SetIdMap,
    ErrorCode::SetPGid,
    ErrorCode::SetNs,
    ErrorCode::CapSet,
];

#[test]
fn codes_are_numbered_in_order() {
    for (i, code) in ALL_CODES.iter().enumerate() {
        assert_eq!(code.code() as usize, i + 1);
    }
}

#[test]
fn wrap_attaches_errno() {
    assert_eq!(ErrorCode::CreatePipe.wrap(24), Error::CreatePipe(24));
    assert_eq!(ErrorCode::Fork.wrap(11), Error::Fork(11));
    assert_eq!(ErrorCode::Exec.wrap(2), Error::Exec(2));
    assert_eq!(ErrorCode::Chdir.wrap(2), Error::Chdir(2));
    assert_eq!(ErrorCode::ParentDeathSignal.wrap(22), Error::ParentDeathSignal(22));
    assert_eq!(ErrorCode::PipeError.wrap(32), Error::PipeError(32));
    assert_eq!(ErrorCode::StdioError.wrap(9), Error::StdioError(9));
    assert_eq!(ErrorCode::SetUser.wrap(1), Error::SetUser(1));
    assert_eq!(ErrorCode::ChangeRoot.wrap(1), Error::ChangeRoot(1));
    assert_eq!(ErrorCode::SetIdMap.wrap(1), Error::SetIdMap(1));
    assert_eq!(ErrorCode::SetPGid.wrap(3), Error::SetPGid(3));
    assert_eq!(ErrorCode::SetNs.wrap(22), Error::SetNs(22));
    assert_eq!(ErrorCode::CapSet.wrap(1), Error::CapSet(1));
}

#[test]
fn from_i32_finds_the_kind() {
    for code in ALL_CODES.iter() {
        assert_eq!(ErrorCode::from_i32(code.code() as i32, 77), code.wrap(77));
    }
    assert_eq!(ErrorCode::from_i32(4, 2), Error::Chdir(2));
    assert_eq!(ErrorCode::from_i32(11, 5), Error::SetPGid(5));
    assert_eq!(ErrorCode::from_i32(12, 5), Error::SetNs(5));
    assert_eq!(ErrorCode::from_i32(13, -1), Error::CapSet(-1));
}

#[test]
fn from_i32_unknown_kind() {
    assert_eq!(ErrorCode::from_i32(0, 2), Error::UnknownError);
    assert_eq!(ErrorCode::from_i32(14, 2), Error::UnknownError);
    assert_eq!(ErrorCode::from_i32(15, 2), Error::UnknownError);
    assert_eq!(ErrorCode::from_i32(256 + 3, 2), Error::UnknownError);
    assert_eq!(ErrorCode::from_i32(i32::MIN, 2), Error::UnknownError);
    assert_eq!(ErrorCode::from_i32(i32::MAX, 2), Error::UnknownError);
    for code in -300..300 {
        let unknown = ErrorCode::from_i32(code, 7) == Error::UnknownError;
        assert_eq!(unknown, code < 1 || code > 13, "{}", code);
    }
    assert_eq!(ErrorCode::from_i32(-1, 2), Error::UnknownError);
    assert_eq!(ErrorCode::from_i32(255, 2), Error::UnknownError);
}

#[test]
fn raw_os_error_of_each_variant() {
    assert_eq!(Error::UnknownError.raw_os_error(), None);
    assert_eq!(Error::NixError.raw_os_error(), None);
    assert_eq!(Error::CreatePipe(1).raw_os_error(), Some(1));
    assert_eq!(Error::Fork(2).raw_os_error(), Some(2));
    assert_eq!(Error::Exec(3).raw_os_error(), Some(3));
    assert_eq!(Error::Chdir(4).raw_os_error(), Some(4));
    assert_eq!(Error::ParentDeathSignal(5).raw_os_error(), Some(5));
    assert_eq!(Error::PipeError(6).raw_os_error(), Some(6));
    assert_eq!(Error::WaitError(7).raw_os_error(), Some(7));
    assert_eq!(Error::StdioError(8).raw_os_error(), Some(8));
    assert_eq!(Error::SetUser(9).raw_os_error(), Some(9));
    assert_eq!(Error::ChangeRoot(10).raw_os_error(), Some(10));
    assert_eq!(Error::SetIdMap(11).raw_os_error(), Some(11));
    assert_eq!(Error::AuxCommandExited(12).raw_os_error(), None);
    assert_eq!(Error::AuxCommandKilled(13).raw_os_error(), None);
    assert_eq!(Error::SetPGid(14).raw_os_error(), Some(14));
    assert_eq!(Error::SetNs(15).raw_os_error(), Some(15));
    assert_eq!(Error::CapSet(16).raw_os_error(), Some(16));
    assert_eq!(Error::BeforeUnfreeze(String::from("no")).raw_os_error(), None);
}

#[test]
fn descriptions() {
    assert_eq!(Error::UnknownError.description(), "unexpected value received via signal pipe");
    assert_eq!(Error::NixError.description(), "some unknown nix error");
    assert_eq!(Error::CreatePipe(0).description(), "can't create pipe");
    assert_eq!(Error::Fork(0).description(), "error when forking");
    assert_eq!(Error::Exec(0).description(), "error when executing");
    assert_eq!(Error::Chdir(0).description(), "error when setting working directory");
    assert_eq!(Error::ParentDeathSignal(0).description(), "error when death signal");
    assert_eq!(Error::PipeError(0).description(), "error in signalling pipe");
    assert_eq!(Error::WaitError(0).description(), "error in waiting for child");
    assert_eq!(Error::StdioError(0).description(), "error setting up stdio for child");
    assert_eq!(Error::SetUser(0).description(), "error setting user or groups");
    assert_eq!(Error::ChangeRoot(0).description(), "error changing root directory");
    assert_eq!(Error::SetIdMap(0).description(), "error setting uid/gid mappings");
    assert_eq!(Error::AuxCommandExited(1).description(), "aux command exited with non-zero code");
    assert_eq!(Error::AuxCommandKilled(9).description(), "aux command was killed by signal");
    assert_eq!(Error::SetPGid(0).description(), "error when calling setpgid");
    assert_eq!(Error::SetNs(0).description(), "error when calling setns");
    assert_eq!(Error::CapSet(0).description(), "error when setting capabilities");
    assert_eq!(
        Error::BeforeUnfreeze(String::new()).description(),
        "error in before_unfreeze callback"
    );
}

#[test]
fn frame_bytes_are_big_endian() {
    assert_eq!(encode_frame(ErrorCode::Chdir, 2), [4, 0, 0, 0, 2]);
    assert_eq!(encode_frame(ErrorCode::Exec, 0x01020304), [3, 1, 2, 3, 4]);
    assert_eq!(encode_frame(ErrorCode::CapSet, -1), [13, 255, 255, 255, 255]);
    assert_eq!(NO_OS_ERROR, 10873289);
}

#[test]
fn frame_of_a_failed_callback_is_unknown_to_the_parent() {
    let frame = encode_callback_frame(NO_OS_ERROR);
    assert_eq!(frame, [CALLBACK_KIND, 0x00, 0xa5, 0xe9, 0xc9]);
    assert!(CALLBACK_KIND < 1 || CALLBACK_KIND > 13);
    assert_eq!(decode_frame(&frame, 5), Err(Error::UnknownError));
    assert_eq!(decode_frame(&encode_callback_frame(13), 5), Err(Error::UnknownError));
}

#[test]
fn frame_round_trip() {
    for code in ALL_CODES.iter() {
        for errno in [0, 1, 2, 13, 255, 256, 65536, i32::MAX, -1, i32::MIN, NO_OS_ERROR] {
            let frame = encode_frame(*code, errno);
            let mut buf = [0u8; 6];
            buf[..5].copy_from_slice(&frame);
            assert_eq!(decode_frame(&buf, 5), Err(code.wrap(errno)));
        }
    }
}

#[test]
fn decode_by_number_of_bytes() {
    let buf = [4u8, 0, 0, 0, 2, 0];
    assert_eq!(decode_frame(&buf, 0), Ok(()));
    assert_eq!(decode_frame(&buf, 5), Err(Error::Chdir(2)));
    assert_eq!(decode_frame(&buf, 1), Err(Error::UnknownError));
    assert_eq!(decode_frame(&buf, 4), Err(Error::UnknownError));
    assert_eq!(decode_frame(&buf, 6), Err(Error::UnknownError));
    assert_eq!(decode_frame(&[99u8, 0, 0, 0, 2, 0], 5), Err(Error::UnknownError));
    assert_eq!(decode_frame(&[4u8, 0, 0], 5), Err(Error::UnknownError));
    assert_eq!(decode_frame(&[], 0), Ok(()));
}

#[test]
fn error_framing_of_a_failed_chdir() {
    // ENOENT from chdir in the child
    let frame = encode_frame(ErrorCode::Chdir, 2);
    assert_eq!(decode_frame(&frame, 5), Err(Error::Chdir(2)));
}

#[test]
fn result_passes_success_and_wraps_failure() {
    let ok: Result<i32, SysError> = Ok(5);
    assert_eq!(result(ErrorCode::Fork, ok), Ok(5));
    let err: Result<i32, SysError> = Err(SysError::Sys(12));
    assert_eq!(result(ErrorCode::Fork, err), Err(Error::Fork(12)));
    let err: Result<i32, SysError> = Err(SysError::InvalidPath);
    assert_eq!(result(ErrorCode::Fork, err), Err(Error::NixError));
    let err: Result<(), IoError> = Err(IoError::Os(13));
    assert_eq!(result(ErrorCode::SetIdMap, err), Err(Error::SetIdMap(13)));
    let err: Result<(), IoError> = Err(IoError::Other);
    assert_eq!(result(ErrorCode::SetIdMap, err), Err(Error::SetIdMap(-1)));
    let err: Result<(), Error> = Err(Error::Exec(2));
    assert_eq!(result(ErrorCode::SetIdMap, err), Err(Error::SetIdMap(2)));
    let err: Result<(), Error> = Err(Error::UnknownError);
    assert_eq!(result(ErrorCode::SetIdMap, err), Err(Error::SetIdMap(-1)));
}

#[test]
fn into_error_of_each_source() {
    assert_eq!(SysError::Sys(1).into_error(ErrorCode::SetPGid), Error::SetPGid(1));
    assert_eq!(SysError::InvalidUtf8.into_error(ErrorCode::SetPGid), Error::NixError);
    assert_eq!(SysError::UnsupportedOperation.into_error(ErrorCode::SetPGid), Error::NixError);
    assert_eq!(IoError::InvalidInput.into_error(ErrorCode::PipeError), Error::PipeError(-1));
    assert_eq!(Error::AuxCommandExited(3).into_error(ErrorCode::SetIdMap), Error::SetIdMap(-1));
    assert_eq!(IoError::from_sys(SysError::Sys(7)), IoError::Os(7));
    assert_eq!(IoError::from_sys(SysError::InvalidPath), IoError::Other);
    assert_eq!(IoError::Os(7).raw_os_error(), Some(7));
    assert_eq!(IoError::InvalidInput.raw_os_error(), None);
}

#[test]
fn helper_command_results() {
    let ok: Result<ExitStatus, Error> = Ok(ExitStatus::Exited(0));
    assert_eq!(cmd_result(ErrorCode::SetIdMap, ok), Ok(()));
    let r: Result<ExitStatus, Error> = Ok(ExitStatus::Exited(1));
    assert_eq!(cmd_result(ErrorCode::SetIdMap, r), Err(Error::AuxCommandExited(1)));
    let r: Result<ExitStatus, Error> = Ok(ExitStatus::Exited(-1));
    assert_eq!(cmd_result(ErrorCode::SetIdMap, r), Err(Error::AuxCommandExited(-1)));
    let r: Result<ExitStatus, Error> = Ok(ExitStatus::Signaled(9, false));
    assert_eq!(cmd_result(ErrorCode::SetIdMap, r), Err(Error::AuxCommandKilled(9)));
    let r: Result<ExitStatus, Error> = Err(Error::Exec(2));
    assert_eq!(cmd_result(ErrorCode::SetIdMap, r), Err(Error::SetIdMap(2)));
}

#[test]
fn exit_status_getters() {
    assert!(ExitStatus::Exited(0).success());
    assert!(!ExitStatus::Exited(1).success());
    assert!(!ExitStatus::Signaled(9, false).success());
    assert_eq!(ExitStatus::Exited(3).code(), Some(3));
    assert_eq!(ExitStatus::Exited(-1).code(), Some(-1));
    assert_eq!(ExitStatus::Signaled(9, true).code(), None);
    assert_eq!(ExitStatus::Exited(3).signal(), None);
    assert_eq!(ExitStatus::Signaled(15, false).signal(), Some(15));
}

#[test]
fn messages() {
    assert_eq!(
        Error::Chdir(2).message(),
        "error when setting working directory: No such file or directory (os error 2)"
    );
    assert_eq!(Error::Exec(13).message(), "error when executing: Permission denied (os error 13)");
    assert_eq!(
        Error::CreatePipe(24).message(),
        "can't create pipe: Too many open files (os error 24)"
    );
    assert_eq!(Error::UnknownError.message(), "unexpected value received via signal pipe");
    assert_eq!(Error::NixError.message(), "some unknown nix error");
    assert_eq!(Error::AuxCommandExited(3).message(), "aux command exited with non-zero code");
    assert_eq!(
        Error::BeforeUnfreeze(String::from("no")).message(),
        "error in before_unfreeze callback"
    );
}

#[test]
fn message_of_a_number_without_a_name() {
    let text = Error::Fork(-1).message();
    assert!(text.starts_with("error when forking: "), "{}", text);
    assert!(text.len() > "error when forking: ".len());
    let text = Error::SetNs(99999).message();
    assert!(text.starts_with("error when calling setns: "), "{}", text);
}

#[test]
fn message_parts() {
    let e = Error::SetUser(1);
    assert_eq!(
        e.message_with(true, "Operation not permitted", "unused"),
        "error setting user or groups: Operation not permitted (os error 1)"
    );
    assert_eq!(e.message_with(false, "unused", "whatever"), "error setting user or groups: whatever");
    assert_eq!(
        Error::Exec(-7).message_with(true, "x", ""),
        "error when executing: x (os error -7)"
    );
    assert_eq!(
        Error::Exec(i32::MIN).message_with(true, "x", ""),
        "error when executing: x (os error -2147483648)"
    );
    assert_eq!(
        Error::Exec(i32::MAX).message_with(true, "", ""),
        "error when executing:  (os error 2147483647)"
    );
    assert_eq!(Error::UnknownError.message_with(true, "x", "y"), Error::UnknownError.description());
}

#[test]
fn exit_status_messages() {
    assert_eq!(ExitStatus::Exited(0).message(), "exited with code 0");
    assert_eq!(ExitStatus::Exited(-1).message(), "exited with code -1");
    assert_eq!(ExitStatus::Exited(127).message(), "exited with code 127");
    assert_eq!(ExitStatus::Signaled(9, false).message(), "killed by signal SIGKILL[9]");
    assert_eq!(
        ExitStatus::Signaled(11, true).message(),
        "killed by signal SIGSEGV[11] (core dumped)"
    );
    assert_eq!(ExitStatus::Signaled(15, false).message(), "killed by signal SIGTERM[15]");
    assert_eq!(ExitStatus::Signaled(77, false).message(), "killed by signal [77]");
    assert_eq!(ExitStatus::Signaled(2, true).message_with("INT"), "killed by signal INT[2] (core dumped)");
    assert_eq!(
        ExitStatus::Signaled(9, false).message(),
        format!("killed by signal {:?}[{}]", nix::sys::signal::Signal::SIGKILL, 9)
    );
}
