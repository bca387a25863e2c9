//! Whole spawns, with real processes. The plan of the child is walked here
//! with the safe calls that `nix` offers: it has none for `prctl`, for
//! `capset` or for setting a signal handler, so the death signal is not set
//! and handlers are not reset, and the steps that need privileges report
//! `ENOSYS`.
use nix::fcntl::{fcntl, FcntlArg, FdFlag};
use nix::sched::{clone, CloneFlags};
use nix::sys::signal::{sigprocmask, SigSet, SigmaskHow};
use nix::unistd::{chdir, close, dup2, execve, getpid, read};
use nix::NixPath;
use unshare::child::{
    child_plan, error_pipe_in_the_way, next_step, next_to_close, patch_pid_env, wakeup_action,
    ChildInfo, ChildOp, Next, WakeupAction,
};
use unshare::command::AnyRange;
use unshare::descriptors::{prepare_descriptors, DescriptorPlan};
use unshare::environ::Environ;
use unshare::error::{Error, IoError};
use unshare::pipe::Pipe;
use unshare::run::{
    abandon_child, clone_flags, parent_plan, read_answer, set_group_leader, wake, ParentOp,
};
use unshare::{Child, Command, ExitStatus, Fd, PipeReader, PipeWriter, Stdio};

const ENOSYS: i32 = 38;

fn errno_of<T>(r: nix::Result<T>) -> Option<i32> {
    match r {
        Ok(_) => None,
        Err(nix::Error::Sys(e)) => Some(e as i32),
        Err(_) => Some(-1),
    }
}

/// The bytes of a string of the child up to its first NUL.
fn text(s: &[u8]) -> &[u8] {
    let end = s.iter().position(|b| *b == 0).unwrap();
    &s[..end]
}

/// `execve` for at most four arguments and three environment strings;
/// returns the `errno` with which it failed.
fn exec(info: &ChildInfo) -> i32 {
    assert!(info.args.len() <= 4 && info.environ.len() <= 3);
    let arg = |i: usize| if i < info.args.len() { text(&info.args[i]) } else { &b""[..] };
    let env = |i: usize| if i < info.environ.len() { text(&info.environ[i]) } else { &b""[..] };
    let (nargs, nenv) = (info.args.len(), info.environ.len());
    text(&info.filename)
        .with_nix_path(|path| {
            arg(0).with_nix_path(|a0| {
                arg(1).with_nix_path(|a1| {
                    arg(2).with_nix_path(|a2| {
                        arg(3).with_nix_path(|a3| {
                            env(0).with_nix_path(|e0| {
                                env(1).with_nix_path(|e1| {
                                    env(2).with_nix_path(|e2| {
                                        let argv = [a0, a1, a2, a3];
                                        let envp = [e0, e1, e2];
                                        errno_of(execve(path, &argv[..nargs], &envp[..nenv]))
                                            .unwrap_or(-1)
                                    })
                                })
                            })
                        })
                    })
                })
            })
        })
        .and_then(|r| r)
        .and_then(|r| r)
        .and_then(|r| r)
        .and_then(|r| r)
        .and_then(|r| r)
        .and_then(|r| r)
        .and_then(|r| r)
        .unwrap_or(-1)
}

/// What the child does after `clone`; the value is its exit code.
fn run_child(info: &mut ChildInfo, steps: &[ChildOp]) -> isize {
    let mut epipe = info.error_pipe;
    let mut i = 0;
    while i < steps.len() {
        let outcome: Option<i32> = match steps[i] {
            ChildOp::SetDeathSignal { .. } => None,
            ChildOp::AwaitWakeup => loop {
                let mut byte = [0u8; 1];
                let (rc, errno) = match read(info.wakeup_pipe, &mut byte) {
                    Ok(n) => (n as isize, 0),
                    Err(nix::Error::Sys(e)) => (-1, e as i32),
                    Err(_) => (-1, -1),
                };
                match wakeup_action(rc, errno, info.death_sig) {
                    WakeupAction::Proceed => break None,
                    WakeupAction::Retry => continue,
                    WakeupAction::Die { sig } => {
                        let signal =
                            <nix::sys::signal::Signal as std::convert::TryFrom<i32>>::try_from(sig);
                        let _ = nix::sys::signal::kill(getpid(), signal.unwrap());
                        return 127;
                    }
                    WakeupAction::Abort { frame } => {
                        let _ = nix::unistd::write(epipe, &frame);
                        return 127;
                    }
                }
            },
            ChildOp::MoveErrorPipe => {
                let mut outcome = None;
                while error_pipe_in_the_way(epipe) {
                    match fcntl(epipe, FcntlArg::F_DUPFD_CLOEXEC(3)) {
                        Ok(fd) => epipe = fd,
                        Err(e) => {
                            outcome = errno_of::<()>(Err(e));
                            break;
                        }
                    }
                }
                outcome
            }
            ChildOp::PatchPidEnv => {
                let slots = info.pid_env_vars.clone();
                patch_pid_env(&mut info.environ, &slots, getpid().as_raw());
                None
            }
            ChildOp::Chdir => errno_of(chdir(text(info.work_dir.as_ref().unwrap()))),
            ChildOp::ClearCloexec { fd } => match fcntl(fd, FcntlArg::F_GETFD) {
                Ok(flags) => {
                    let cleared = FdFlag::from_bits_truncate(flags & !1);
                    errno_of(fcntl(fd, FcntlArg::F_SETFD(cleared)))
                }
                Err(e) => errno_of::<()>(Err(e)),
            },
            ChildOp::Dup2 { src, dst } => errno_of(dup2(src, dst)),
            ChildOp::CloseRange { start, end } => {
                let mut from = start;
                while let Some(fd) = next_to_close(&info.fds, from, end) {
                    let _ = close(fd);
                    from = fd + 1;
                }
                None
            }
            ChildOp::ResetSignals => {
                errno_of(sigprocmask(SigmaskHow::SIG_SETMASK, Some(&SigSet::empty()), None))
            }
            ChildOp::PreExec => None,
            ChildOp::Exec => Some(exec(info)),
            _ => Some(ENOSYS),
        };
        match next_step(steps, i, outcome) {
            Next::Continue { index } => i = index,
            Next::Abort { frame } => {
                let _ = nix::unistd::write(epipe, &frame);
                return 127;
            }
        }
    }
    127
}

fn after_start(
    cmd: &Command,
    pid: i32,
    wakeup: &PipeWriter,
    errpipe: &PipeReader,
    before_unfreeze: &mut dyn FnMut(i32),
) -> Result<(), Error> {
    for op in parent_plan(cmd, true) {
        match op {
            ParentOp::SetPgid => set_group_leader(pid)?,
            ParentOp::BeforeUnfreeze => before_unfreeze(pid),
            ParentOp::Wakeup => wake(wakeup)?,
            ParentOp::ReadError => read_answer(errpipe)?,
            other => panic!("{:?} is not for these tests", other),
        }
    }
    Ok(())
}

fn spawn(cmd: &mut Command) -> Result<Child, Error> {
    spawn_with(cmd, &mut |_| {})
}

/// Starts the command; `before_unfreeze` runs in the parent when the child
/// is set up and not yet woken up.
fn spawn_with(cmd: &mut Command, before_unfreeze: &mut dyn FnMut(i32)) -> Result<Child, Error> {
    start(cmd, &mut |cmd, pid, wakeup, errpipe| {
        after_start(cmd, pid, &wakeup, &errpipe, before_unfreeze)
    })
}

/// Starts the command as a parent does that goes away before it has woken
/// the child up: the wake-up pipe is closed with nothing written.
fn spawn_and_leave(cmd: &mut Command) -> Result<Child, Error> {
    start(cmd, &mut |_, _, wakeup, errpipe| {
        drop(wakeup);
        read_answer(&errpipe)
    })
}

/// Clones the child of the command; `parent` is what the parent does with
/// the pid, the wake-up pipe and the error pipe.
fn start(
    cmd: &mut Command,
    parent: &mut dyn FnMut(&Command, i32, PipeWriter, PipeReader) -> Result<(), Error>,
) -> Result<Child, Error> {
    cmd.init_env_map(Environ::new());
    let (wakeup_rd, wakeup) = Pipe::new()?.split();
    let (errpipe, errpipe_wr) = Pipe::new()?.split();
    let DescriptorPlan { inner, outer, guards, .. } = prepare_descriptors(&cmd.fds)?;
    let cwd = nix::unistd::getcwd().ok().map(|dir| dir.to_str().unwrap().as_bytes().to_vec());
    let mut info = cmd.child_info(
        &Environ::new(),
        inner,
        &cwd,
        wakeup_rd.as_raw_fd(),
        errpipe_wr.as_raw_fd(),
        false,
    );
    let steps = child_plan(&info);
    let flags = clone_flags(&cmd.config);
    let parent_ends = (wakeup.as_raw_fd(), errpipe.as_raw_fd());
    let mut stack = vec![0u8; 1 << 20];
    let cloned = clone(
        Box::new(|| {
            let _ = close(parent_ends.0);
            let _ = close(parent_ends.1);
            run_child(&mut info, &steps)
        }),
        &mut stack,
        CloneFlags::from_bits_truncate((flags & !0xff) as i32),
        Some((flags & 0xff) as i32),
    );
    let pid = match cloned {
        Ok(pid) => pid.as_raw(),
        Err(e) => return Err(Error::Fork(errno_of::<()>(Err(e)).unwrap())),
    };
    drop(wakeup_rd);
    drop(errpipe_wr);
    if let Err(e) = parent(cmd, pid, wakeup, errpipe) {
        abandon_child(pid);
        return Err(e);
    }
    drop(guards);
    Ok(Child::new(pid, outer))
}

fn wait(child: &mut Child) -> Result<ExitStatus, IoError> {
    child.wait()
}

fn status(cmd: &mut Command) -> Result<ExitStatus, Error> {
    let mut child = spawn(cmd)?;
    wait(&mut child).map_err(Error::from_wait)
}

fn read_all(fd: i32) -> Vec<u8> {
    let mut all = Vec::new();
    let mut buf = [0u8; 256];
    loop {
        match read(fd, &mut buf) {
            Ok(0) => return all,
            Ok(n) => all.extend_from_slice(&buf[..n]),
            Err(nix::Error::Sys(nix::errno::Errno::EINTR)) => continue,
            Err(e) => panic!("{:?}", e),
        }
    }
}

/// The output of a command whose standard output is a pipe, and its end.
fn output(cmd: &mut Command) -> (Vec<u8>, ExitStatus, i32) {
    cmd.stdout(Stdio::piped());
    let mut child = spawn(cmd).unwrap();
    let out = read_all(child.stdout.as_ref().unwrap().as_raw_fd());
    let status = wait(&mut child).unwrap();
    (out, status, child.pid())
}

fn is_gone(pid: i32) -> bool {
    nix::sys::wait::waitpid(nix::unistd::Pid::from_raw(pid), None)
        == Err(nix::Error::Sys(nix::errno::Errno::ECHILD))
}

#[test]
fn echo_hello_exits_with_zero() {
    let mut cmd = Command::new(b"/bin/echo");
    cmd.arg(b"hello");
    let mut child = spawn(&mut cmd).unwrap();
    assert_eq!(wait(&mut child), Ok(ExitStatus::Exited(0)));
    assert!(is_gone(child.pid()));
    assert_eq!(status(Command::new(b"/bin/echo").arg(b"hello")), Ok(ExitStatus::Exited(0)));
}

#[test]
fn echo_writes_its_argument() {
    let (out, status, _) = output(Command::new(b"/bin/echo").arg(b"hello"));
    assert_eq!(out, b"hello\n".to_vec());
    assert_eq!(status, ExitStatus::Exited(0));
}

#[test]
fn false_exits_with_one() {
    assert_eq!(status(&mut Command::new(b"/bin/false")), Ok(ExitStatus::Exited(1)));
}

#[test]
fn nonexistent_program_is_an_exec_error() {
    let r = spawn(&mut Command::new(b"/nonexistent"));
    assert_eq!(r.map(|c| c.pid()), Err(Error::Exec(2)));
}

#[test]
fn killed_sleep_is_signaled() {
    let mut cmd = Command::new(b"/bin/sleep");
    cmd.arg(b"60");
    let mut child = spawn(&mut cmd).unwrap();
    assert_eq!(child.kill(), Ok(()));
    match wait(&mut child) {
        Ok(ExitStatus::Signaled(9, _)) => {}
        other => panic!("{:?}", other),
    }
}

#[test]
fn cat_copies_its_input() {
    let mut cmd = Command::new(b"/bin/cat");
    cmd.stdin(Stdio::piped()).stdout(Stdio::piped());
    let mut child = spawn(&mut cmd).unwrap();
    let stdin = child.stdin.take().unwrap();
    assert_eq!(nix::unistd::write(stdin.as_raw_fd(), b"hi"), Ok(2));
    drop(stdin);
    assert_eq!(read_all(child.stdout.as_ref().unwrap().as_raw_fd()), b"hi".to_vec());
    assert_eq!(wait(&mut child), Ok(ExitStatus::Exited(0)));
}

#[test]
fn listen_pid_is_the_pid_of_the_child() {
    let mut cmd = Command::new(b"/bin/sh");
    cmd.arg(b"-c").arg(b"echo $LISTEN_PID");
    cmd.env_var_with_pid(b"LISTEN_PID", Environ::new());
    let (out, status, pid) = output(&mut cmd);
    assert_eq!(out, format!("{}\n", pid).into_bytes());
    assert_eq!(status, ExitStatus::Exited(0));
}

#[test]
fn pid_variable_wins_over_a_value_set_later() {
    let mut cmd = Command::new(b"/bin/sh");
    cmd.arg(b"-c").arg(b"echo $LISTEN_PID $LISTEN_FDS");
    cmd.env_var_with_pid(b"LISTEN_PID", Environ::new());
    cmd.env(b"LISTEN_FDS", b"1", Environ::new());
    cmd.env(b"LISTEN_PID", b"stale", Environ::new());
    let (out, _, pid) = output(&mut cmd);
    assert_eq!(out, format!("{} 1\n", pid).into_bytes());
}

#[test]
fn environment_round_trip() {
    let mut cmd = Command::new(b"/usr/bin/env");
    cmd.env_clear();
    cmd.env(b"A", b"B", Environ::new());
    let (out, status, _) = output(&mut cmd);
    assert_eq!(out, b"A=B\n".to_vec());
    assert_eq!(status, ExitStatus::Exited(0));
}

#[test]
fn empty_environment() {
    let mut cmd = Command::new(b"/usr/bin/env");
    cmd.env_clear();
    let (out, _, _) = output(&mut cmd);
    assert_eq!(out, Vec::<u8>::new());
}

#[test]
fn arg0_is_what_the_child_sees() {
    let mut cmd = Command::new(b"/bin/sh");
    cmd.arg0(b"x").arg(b"-c").arg(b"echo $0");
    assert_eq!(cmd.filename, b"/bin/sh\0".to_vec());
    let (out, status, _) = output(&mut cmd);
    assert_eq!(out, b"x\n".to_vec());
    assert_eq!(status, ExitStatus::Exited(0));
}

#[test]
fn swapped_descriptors_reach_the_program() {
    let one = Pipe::new().unwrap();
    let two = Pipe::new().unwrap();
    let (a, b) = (one.reader.as_raw_fd(), two.reader.as_raw_fd());
    nix::unistd::write(one.writer.as_raw_fd(), b"one").unwrap();
    nix::unistd::write(two.writer.as_raw_fd(), b"two").unwrap();
    let script = format!("cat <&{}; echo; cat <&{}", a, b);
    let mut cmd = Command::new(b"/bin/sh");
    cmd.arg(b"-c").arg(script.as_bytes());
    cmd.file_descriptor_raw(a, b).file_descriptor_raw(b, a);
    cmd.stdout(Stdio::piped());
    let mut child = spawn(&mut cmd).unwrap();
    // the parent lets go of its ends, so that the program sees the end of each pipe
    drop(one);
    drop(two);
    let out = read_all(child.stdout.as_ref().unwrap().as_raw_fd());
    assert_eq!(out, b"two\none".to_vec());
    assert_eq!(wait(&mut child), Ok(ExitStatus::Exited(0)));
}

#[test]
fn piped_descriptor_above_stdio() {
    let mut cmd = Command::new(b"/bin/sh");
    cmd.arg(b"-c").arg(b"cat <&5 >&6");
    cmd.file_descriptor(5, Fd::piped_read());
    cmd.file_descriptor(6, Fd::piped_write());
    let mut child = spawn(&mut cmd).unwrap();
    assert!(child.take_pipe_reader(5).is_none());
    // the wrong kind was asked for, so the end for 5 is gone and the program sees its end
    let rd = child.take_pipe_reader(6).unwrap();
    assert!(child.take_pipe_reader(6).is_none());
    assert_eq!(read_all(rd.as_raw_fd()), Vec::<u8>::new());
    assert_eq!(wait(&mut child), Ok(ExitStatus::Exited(0)));

    let mut child = spawn(&mut cmd).unwrap();
    let wr = child.take_pipe_writer(5).unwrap();
    let rd = child.take_pipe_reader(6).unwrap();
    nix::unistd::write(wr.as_raw_fd(), b"through").unwrap();
    drop(wr);
    assert_eq!(read_all(rd.as_raw_fd()), b"through".to_vec());
    assert_eq!(wait(&mut child), Ok(ExitStatus::Exited(0)));
}

#[test]
fn close_range_closes_what_is_not_mapped() {
    let keep = Pipe::new().unwrap();
    let lose = Pipe::new().unwrap();
    let kept = keep.reader.as_raw_fd();
    let lost = lose.reader.as_raw_fd();
    // both descriptors would be inherited: neither is closed on exec
    for fd in [kept, lost] {
        fcntl(fd, FcntlArg::F_SETFD(FdFlag::empty())).unwrap();
    }
    let script = format!(
        "for fd in {} {}; do if [ -e /proc/self/fd/$fd ]; then echo open; else echo closed; fi; done",
        kept, lost
    );
    let mut cmd = Command::new(b"/bin/sh");
    cmd.arg(b"-c").arg(script.as_bytes());
    let (out, _, _) = output(&mut cmd);
    assert_eq!(out, b"open\nopen\n".to_vec());

    let mut cmd = Command::new(b"/bin/sh");
    cmd.arg(b"-c").arg(script.as_bytes());
    cmd.file_descriptor_raw(kept, kept);
    cmd.close_fds(AnyRange::below(kept.max(lost) + 1), 1024);
    let (out, status, _) = output(&mut cmd);
    assert_eq!(out, b"open\nclosed\n".to_vec());
    assert_eq!(status, ExitStatus::Exited(0));
}

#[test]
fn unresolvable_work_dir_is_a_chdir_error_and_leaves_no_zombie() {
    let before = unshare::reap_zombies().poll();
    assert_eq!(before, unshare::zombies::Poll::Finished);
    let mut cmd = Command::new(b"/bin/echo");
    cmd.current_dir(b"/no/such/directory");
    assert_eq!(spawn(&mut cmd).map(|c| c.pid()), Err(Error::Chdir(2)));
    // the child has been reaped: this process has no child left
    assert_eq!(unshare::reap_zombies().poll(), unshare::zombies::Poll::Finished);
}

#[test]
fn work_dir_is_entered() {
    let mut cmd = Command::new(b"/bin/sh");
    cmd.arg(b"-c").arg(b"pwd");
    cmd.current_dir(b"/tmp");
    let (out, _, _) = output(&mut cmd);
    assert_eq!(out, b"/tmp\n".to_vec());
}

#[test]
fn wait_twice_gives_the_same_status() {
    let mut child = spawn(&mut Command::new(b"/bin/false")).unwrap();
    let first = wait(&mut child);
    assert_eq!(first, Ok(ExitStatus::Exited(1)));
    assert_eq!(wait(&mut child), first);
    assert!(is_gone(child.pid()));
}

#[test]
fn group_leader() {
    let mut cmd = Command::new(b"/bin/sleep");
    cmd.arg(b"60").make_group_leader(true);
    let mut child = spawn(&mut cmd).unwrap();
    let group = nix::unistd::getpgid(Some(nix::unistd::Pid::from_raw(child.pid()))).unwrap();
    assert_eq!(group.as_raw(), child.pid());
    child.kill().unwrap();
    assert_eq!(wait(&mut child), Ok(ExitStatus::Signaled(9, false)));
}

#[test]
fn null_streams() {
    let mut cmd = Command::new(b"/bin/cat");
    cmd.stdin(Stdio::null());
    let (out, status, _) = output(&mut cmd);
    assert_eq!(out, Vec::<u8>::new());
    assert_eq!(status, ExitStatus::Exited(0));
}

fn now_nanos() -> u128 {
    let t = nix::time::clock_gettime(nix::time::ClockId::CLOCK_REALTIME).unwrap();
    t.tv_sec() as u128 * 1_000_000_000 + t.tv_nsec() as u128
}

#[test]
fn the_child_does_nothing_before_it_is_woken_up() {
    let delay_ms = 300;
    let mut cmd = Command::new(b"/bin/date");
    cmd.arg(b"+%s%N").stdout(Stdio::piped());
    let mut cloned_at = 0;
    let mut child = spawn_with(&mut cmd, &mut |_| {
        cloned_at = now_nanos();
        // the child is running by now, and has to wait
        let _ = nix::poll::poll(&mut [], delay_ms);
    })
    .unwrap();
    let out = read_all(child.stdout.as_ref().unwrap().as_raw_fd());
    let started: u128 = String::from_utf8(out).unwrap().trim().parse().unwrap();
    assert!(cloned_at > 0);
    assert!(started >= cloned_at + delay_ms as u128 * 1_000_000, "{} {}", cloned_at, started);
    assert_eq!(wait(&mut child), Ok(ExitStatus::Exited(0)));
}

#[test]
fn before_unfreeze_gets_the_pid_of_the_child() {
    let mut seen = 0;
    let mut child = spawn_with(&mut Command::new(b"/bin/true"), &mut |pid| seen = pid).unwrap();
    assert_eq!(seen, child.pid());
    assert_eq!(wait(&mut child), Ok(ExitStatus::Exited(0)));
}

#[test]
fn a_child_left_alone_dies_by_its_death_signal() {
    let mut cmd = Command::new(b"/bin/sleep");
    cmd.arg(b"60");
    let mut child = spawn_and_leave(&mut cmd).unwrap();
    assert_eq!(wait(&mut child), Ok(ExitStatus::Signaled(9, false)));

    let mut cmd = Command::new(b"/bin/sleep");
    cmd.arg(b"60").set_parent_death_signal(15);
    let mut child = spawn_and_leave(&mut cmd).unwrap();
    assert_eq!(wait(&mut child), Ok(ExitStatus::Signaled(15, false)));
}

#[test]
fn a_daemon_left_alone_goes_on() {
    let mut cmd = Command::new(b"/bin/echo");
    cmd.arg(b"on my own").allow_daemonize().stdout(Stdio::piped());
    let mut child = spawn_and_leave(&mut cmd).unwrap();
    assert_eq!(read_all(child.stdout.as_ref().unwrap().as_raw_fd()), b"on my own\n".to_vec());
    assert_eq!(wait(&mut child), Ok(ExitStatus::Exited(0)));
}
