use nix::sched::{clone, CloneFlags};
use unshare::error::{encode_frame, Error, ErrorCode, IoError, SysError};
use unshare::pipe::Pipe;
use unshare::run::{
    abandon_child, group_result, judge_answer, kill_child, read_answer, reap_once, reaped,
    set_group_leader, wake, wake_once, wake_step, WakeStep,
};
use unshare::wait::WaitEvent;

fn start(body: &mut dyn FnMut() -> isize) -> i32 {
    let mut stack = vec![0u8; 1 << 20];
    clone(Box::new(|| body()), &mut stack, CloneFlags::empty(), Some(17)).unwrap().as_raw()
}

#[test]
fn wake_steps() {
    assert_eq!(wake_step(Ok(1)), WakeStep::Done(Ok(())));
    assert_eq!(wake_step(Ok(0)), WakeStep::Done(Err(Error::PipeError(-1))));
    assert_eq!(wake_step(Err(SysError::Sys(4))), WakeStep::Again);
    assert_eq!(wake_step(Err(SysError::Sys(32))), WakeStep::Done(Err(Error::PipeError(32))));
    assert_eq!(wake_step(Err(SysError::InvalidPath)), WakeStep::Done(Err(Error::NixError)));
}

#[test]
fn answers_of_the_child() {
    let mut buf = [0u8; 6];
    assert_eq!(judge_answer(Ok(0), &buf), Ok(()));
    buf[..5].copy_from_slice(&encode_frame(ErrorCode::Exec, 2));
    assert_eq!(judge_answer(Ok(5), &buf), Err(Error::Exec(2)));
    assert_eq!(judge_answer(Ok(3), &buf), Err(Error::UnknownError));
    assert_eq!(judge_answer(Ok(6), &buf), Err(Error::UnknownError));
    assert_eq!(judge_answer(Err(SysError::Sys(9)), &buf), Err(Error::PipeError(9)));
    assert_eq!(judge_answer(Err(SysError::InvalidUtf8), &buf), Err(Error::NixError));
}

#[test]
fn group_results() {
    assert_eq!(group_result(Ok(())), Ok(()));
    assert_eq!(group_result(Err(SysError::Sys(3))), Err(Error::SetPGid(3)));
    assert_eq!(group_result(Err(SysError::UnsupportedOperation)), Err(Error::NixError));
}

#[test]
fn wait_errors() {
    assert_eq!(Error::from_wait(IoError::Os(10)), Error::WaitError(10));
    assert_eq!(Error::from_wait(IoError::Other), Error::WaitError(-1));
    assert_eq!(Error::from_wait(IoError::InvalidInput), Error::WaitError(-1));
}

#[test]
fn reaping_goes_on_after_an_interrupt_only() {
    assert!(!reaped(Err(SysError::Sys(4))));
    assert!(reaped(Err(SysError::Sys(10))));
    assert!(reaped(Err(SysError::InvalidPath)));
    assert!(reaped(Ok(WaitEvent::Exited(5, 0))));
    assert!(reaped(Ok(WaitEvent::Signaled(5, 9, false))));
    assert!(reaped(Ok(WaitEvent::StillAlive)));
}

#[test]
fn the_wakeup_byte_goes_through_the_pipe() {
    let (rd, wr) = Pipe::new().unwrap().split();
    assert_eq!(wake_once(&wr), WakeStep::Done(Ok(())));
    let mut buf = [0u8; 4];
    assert_eq!(nix::unistd::read(rd.as_raw_fd(), &mut buf), Ok(1));
    assert_eq!(buf[0], b'x');
}

#[test]
fn a_closed_wakeup_pipe_is_a_pipe_error() {
    let (rd, wr) = Pipe::new().unwrap().split();
    let fd = wr.as_raw_fd();
    nix::unistd::close(fd).unwrap();
    assert_eq!(wake_once(&wr), WakeStep::Done(Err(Error::PipeError(9))));
    // the descriptor is gone already
    assert_eq!(wr.into_fd(), fd);
    drop(rd);
}

#[test]
fn no_byte_on_the_error_pipe_is_success() {
    let (rd, wr) = Pipe::new().unwrap().split();
    drop(wr);
    assert_eq!(read_answer(&rd), Ok(()));
}

#[test]
fn a_frame_on_the_error_pipe_is_the_error_of_the_child() {
    let (rd, wr) = Pipe::new().unwrap().split();
    nix::unistd::write(wr.as_raw_fd(), &encode_frame(ErrorCode::Chdir, 2)).unwrap();
    drop(wr);
    assert_eq!(read_answer(&rd), Err(Error::Chdir(2)));
}

#[test]
fn anything_else_on_the_error_pipe_is_unknown() {
    let (rd, wr) = Pipe::new().unwrap().split();
    nix::unistd::write(wr.as_raw_fd(), b"abc").unwrap();
    assert_eq!(read_answer(&rd), Err(Error::UnknownError));
    nix::unistd::write(wr.as_raw_fd(), b"abcdefgh").unwrap();
    assert_eq!(read_answer(&rd), Err(Error::UnknownError));
    let (rd, wr) = Pipe::new().unwrap().split();
    nix::unistd::write(wr.as_raw_fd(), &[77, 0, 0, 0, 1]).unwrap();
    assert_eq!(read_answer(&rd), Err(Error::UnknownError));
    drop(wr);
}

#[test]
fn a_child_reports_through_the_error_pipe_and_is_reaped() {
    let (wake_rd, wake_wr) = Pipe::new().unwrap().split();
    let (err_rd, err_wr) = Pipe::new().unwrap().split();
    let (wake_fd, err_fd) = (wake_rd.as_raw_fd(), err_wr.as_raw_fd());
    let parent_ends = (wake_wr.as_raw_fd(), err_rd.as_raw_fd());
    let pid = start(&mut || {
        let _ = nix::unistd::close(parent_ends.0);
        let _ = nix::unistd::close(parent_ends.1);
        let mut byte = [0u8; 1];
        if nix::unistd::read(wake_fd, &mut byte) != Ok(1) {
            return 1;
        }
        // the working directory is not there
        let errno = match nix::unistd::chdir("/no/such/directory") {
            Err(nix::Error::Sys(e)) => e as i32,
            _ => return 2,
        };
        let frame = encode_frame(ErrorCode::Chdir, errno);
        let _ = nix::unistd::write(err_fd, &frame);
        127
    });
    drop(wake_rd);
    drop(err_wr);
    assert_eq!(wake_once(&wake_wr), WakeStep::Done(Ok(())));
    assert_eq!(read_answer(&err_rd), Err(Error::Chdir(2)));
    kill_child(pid);
    while !reap_once(pid) {}
    // the child has been reaped: there is no zombie to wait for
    assert_eq!(
        nix::sys::wait::waitpid(nix::unistd::Pid::from_raw(pid), None),
        Err(nix::Error::Sys(nix::errno::Errno::ECHILD))
    );
}

#[test]
fn an_abandoned_child_is_killed_and_reaped() {
    let pid = start(&mut || {
        nix::unistd::pause();
        0
    });
    let (rd, wr) = Pipe::new().unwrap().split();
    assert_eq!(wake(&wr), Ok(()));
    assert_eq!(wake(&wr), Ok(()));
    let mut buf = [0u8; 4];
    assert_eq!(nix::unistd::read(rd.as_raw_fd(), &mut buf), Ok(2));
    assert_eq!(&buf[..2], b"xx");
    abandon_child(pid);
    assert_eq!(
        nix::sys::wait::waitpid(nix::unistd::Pid::from_raw(pid), None),
        Err(nix::Error::Sys(nix::errno::Errno::ECHILD))
    );
    let closed = wr.as_raw_fd();
    nix::unistd::close(closed).unwrap();
    assert_eq!(wake(&wr), Err(Error::PipeError(9)));
    assert_eq!(wr.into_fd(), closed);
}

#[test]
fn a_child_becomes_a_group_leader() {
    let pid = start(&mut || {
        nix::unistd::pause();
        0
    });
    assert_eq!(set_group_leader(pid), Ok(()));
    assert_eq!(nix::unistd::getpgid(Some(nix::unistd::Pid::from_raw(pid))).unwrap().as_raw(), pid);
    kill_child(pid);
    while !reap_once(pid) {}
    assert_eq!(set_group_leader(pid), Err(Error::SetPGid(3)));
}
