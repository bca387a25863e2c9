use nix::fcntl::{fcntl, FcntlArg, OFlag};
use nix::sched::{clone, CloneFlags};
use nix::sys::wait::{waitpid, WaitStatus};
use nix::unistd::{close, dup2, pipe2, read};
use unshare::child::{child_plan, next_to_close, ChildOp};
use unshare::command::AnyRange;
use unshare::descriptors::{
    contains_target, dup_step, is_in_the_way, null_access, opening, prepare_descriptors, set_fd,
    DescriptorPlan, DupStep, Opening,
};
use unshare::error::{Error, SysError};
use unshare::environ::Environ;
use unshare::pipe::{Pipe, PipeHolder};
use unshare::{Command, Fd, Stdio};

fn is_open(fd: i32) -> bool {
    fcntl(fd, FcntlArg::F_GETFD).is_ok()
}

fn is_cloexec(fd: i32) -> bool {
    fcntl(fd, FcntlArg::F_GETFD).unwrap() & 1 == 1
}

/// Runs `body` in a child process and returns its exit code.
fn in_child(body: &mut dyn FnMut() -> isize) -> i32 {
    let mut stack = vec![0u8; 1 << 20];
    let pid = clone(Box::new(|| body()), &mut stack, CloneFlags::empty(), Some(17)).unwrap();
    match waitpid(pid, None).unwrap() {
        WaitStatus::Exited(_, code) => code,
        other => panic!("child ended otherwise: {:?}", other),
    }
}

/// Does what the child does with its descriptors; 0 if every step worked.
fn apply(plan: &[ChildOp], fds: &[(i32, i32)]) -> isize {
    for op in plan {
        match *op {
            ChildOp::ClearCloexec { fd } => {
                let flags = match fcntl(fd, FcntlArg::F_GETFD) {
                    Ok(f) => f,
                    Err(_) => return 1,
                };
                let cleared = nix::fcntl::FdFlag::from_bits_truncate(flags & !1);
                if fcntl(fd, FcntlArg::F_SETFD(cleared)).is_err() {
                    return 1;
                }
            }
            ChildOp::Dup2 { src, dst } => {
                if dup2(src, dst).is_err() {
                    return 2;
                }
            }
            ChildOp::CloseRange { start, end } => {
                let mut from = start;
                while let Some(fd) = next_to_close(fds, from, end) {
                    let _ = close(fd);
                    from = fd + 1;
                }
            }
            _ => {}
        }
    }
    0
}

fn no_guards(plan: &DescriptorPlan) -> bool {
    plan.guards.is_empty()
}

/// The descriptors that the guards of a plan hold, in order.
fn guarded(plan: &DescriptorPlan) -> Vec<i32> {
    plan.guards.iter().map(|g| g.as_raw_fd()).collect()
}

#[test]
fn every_opened_descriptor_has_one_guard() {
    // the targets are descriptors that are open, so that duplicates are needed
    let busy = Pipe::new().unwrap();
    let (a, b) = (busy.reader.as_raw_fd(), busy.writer.as_raw_fd());
    let request =
        vec![(a, Fd::RawFd(b)), (b, Fd::ReadNull), (0, Fd::Inherit), (90, Fd::WritePipe)];
    let plan = prepare_descriptors(&request).unwrap();
    let held = guarded(&plan);
    assert_eq!(plan.opened.len(), 4);
    assert_eq!(plan.opened.iter().sum::<usize>(), held.len());
    assert_eq!(plan.opened[0], 1);
    assert!(plan.opened[1] >= 1);
    assert_eq!(plan.opened[2], 0);
    assert_eq!(plan.opened[3], 1);
    // no descriptor is guarded twice, and each source that was opened is guarded
    for (k, fd) in held.iter().enumerate() {
        assert!(!held[..k].contains(fd), "{:?}", held);
        assert!(is_open(*fd));
    }
    let mut at = 0;
    for (i, n) in plan.opened.iter().enumerate() {
        if *n > 0 {
            assert_eq!(held[at + n - 1], plan.inner[i].1);
            for fd in &held[at..at + n - 1] {
                assert!(*fd != request[i].0 && contains_target(&request, *fd));
            }
        }
        at += n;
    }
    drop(plan);
    for fd in held {
        assert!(!is_open(fd));
    }
    assert!(is_open(a) && is_open(b));
}

#[test]
fn settled_request_is_served_as_it_stands() {
    let request = vec![(0, Fd::Inherit), (1, Fd::Inherit), (2, Fd::Inherit), (7, Fd::RawFd(9))];
    let plan = prepare_descriptors(&request).unwrap();
    assert_eq!(plan.inner, vec![(0, 0), (1, 1), (2, 2), (7, 9)]);
    assert!(plan.outer.is_empty());
    assert!(no_guards(&plan));
    assert_eq!(plan.opened, vec![0, 0, 0, 0]);
    let request = vec![(5, Fd::RawFd(5))];
    let plan = prepare_descriptors(&request).unwrap();
    assert_eq!(plan.inner, vec![(5, 5)]);
    assert!(prepare_descriptors(&Vec::new()).unwrap().inner.is_empty());
}

#[test]
fn targets_are_found_by_number() {
    let mut request = vec![(0, Fd::Inherit), (4, Fd::RawFd(9))];
    assert!(contains_target(&request, 0));
    assert!(contains_target(&request, 4));
    assert!(!contains_target(&request, 9));
    set_fd(&mut request, 9, Fd::Inherit);
    assert!(contains_target(&request, 9));
    set_fd(&mut request, 4, Fd::Inherit);
    assert_eq!(request.len(), 3);
    assert_eq!(format!("{:?}", request[1]), "(4, Inherit)");
}

#[test]
fn pipes_give_the_parent_the_other_end() {
    let request = vec![(0, Fd::ReadPipe), (1, Fd::WritePipe), (2, Fd::Inherit)];
    let plan = prepare_descriptors(&request).unwrap();
    assert_eq!(plan.inner.len(), 3);
    assert_eq!(plan.inner[0].0, 0);
    assert_eq!(plan.inner[1].0, 1);
    assert_eq!(plan.inner[2], (2, 2));
    assert_eq!(plan.outer.len(), 2);
    assert_eq!(plan.opened, vec![1, 1, 0]);
    assert_eq!(guarded(&plan), vec![plan.inner[0].1, plan.inner[1].1]);
    let (child_read, child_write) = (plan.inner[0].1, plan.inner[1].1);
    assert!(child_read > 2 && child_write > 2 && child_read != child_write);
    assert!(is_cloexec(child_read) && is_cloexec(child_write));
    match (&plan.outer[0], &plan.outer[1]) {
        ((0, PipeHolder::Writer(w)), (1, PipeHolder::Reader(r))) => {
            assert!(is_cloexec(w.as_raw_fd()) && is_cloexec(r.as_raw_fd()));
            assert_eq!(nix::unistd::write(w.as_raw_fd(), b"to child").unwrap(), 8);
            let mut buf = [0u8; 16];
            assert_eq!(read(child_read, &mut buf).unwrap(), 8);
            assert_eq!(&buf[..8], b"to child");
            assert_eq!(nix::unistd::write(child_write, b"from child").unwrap(), 10);
            assert_eq!(read(r.as_raw_fd(), &mut buf).unwrap(), 10);
            assert_eq!(&buf[..10], b"from child");
        }
        other => panic!("{:?}", other),
    }
    // the descriptors that the planner opened go away with the plan
    drop(plan);
    assert!(!is_open(child_read));
    assert!(!is_open(child_write));
}

#[test]
fn null_devices() {
    let request = vec![(0, Fd::ReadNull), (1, Fd::WriteNull)];
    let plan = prepare_descriptors(&request).unwrap();
    assert!(plan.outer.is_empty());
    assert_eq!(plan.opened, vec![1, 1]);
    assert_eq!(guarded(&plan), vec![plan.inner[0].1, plan.inner[1].1]);
    let mut buf = [0u8; 4];
    assert_eq!(read(plan.inner[0].1, &mut buf).unwrap(), 0);
    assert_eq!(nix::unistd::write(plan.inner[1].1, b"gone").unwrap(), 4);
    assert!(read(plan.inner[1].1, &mut buf).is_err());
    assert!(is_cloexec(plan.inner[0].1));
}

#[test]
fn a_source_that_is_a_target_is_moved_away() {
    let (a, a_wr) = pipe2(OFlag::O_CLOEXEC).unwrap();
    let request = vec![(a, Fd::Inherit), (a_wr, Fd::RawFd(a))];
    let plan = prepare_descriptors(&request).unwrap();
    assert_eq!(plan.inner[0], (a, a));
    assert_eq!(plan.inner[1].0, a_wr);
    let moved = plan.inner[1].1;
    assert!(moved != a && moved != a_wr && moved >= 3);
    assert!(is_cloexec(moved));
    assert_eq!(plan.guards.len(), 1);
    assert_eq!(plan.opened, vec![0, 1]);
    assert_eq!(guarded(&plan), vec![moved]);
    close(a).unwrap();
    close(a_wr).unwrap();
}

#[test]
fn swapped_descriptors_are_not_clobbered() {
    // two pipes; the child gets the reading end of each under the number of the other
    let one = Pipe::new().unwrap();
    let two = Pipe::new().unwrap();
    let (a, b) = (one.reader.as_raw_fd(), two.reader.as_raw_fd());
    nix::unistd::write(one.writer.as_raw_fd(), b"one").unwrap();
    nix::unistd::write(two.writer.as_raw_fd(), b"two").unwrap();
    let mut cmd = Command::new(b"/bin/true");
    cmd.file_descriptor_raw(a, b).file_descriptor_raw(b, a);
    let plan = prepare_descriptors(&cmd.fds).unwrap();
    assert_eq!(plan.inner.len(), 5);
    for (target, source) in plan.inner.iter() {
        assert!(source == target || !contains_target(&cmd.fds, *source));
    }
    let info = cmd.child_info(&Environ::new(), plan.inner.clone(), &None, 100, 101, false);
    let steps = child_plan(&info);
    let code = in_child(&mut || {
        let done = apply(&steps, &info.fds);
        if done != 0 {
            return done;
        }
        let mut buf = [0u8; 8];
        if read(a, &mut buf) != Ok(3) || &buf[..3] != b"two" {
            return 10;
        }
        if read(b, &mut buf) != Ok(3) || &buf[..3] != b"one" {
            return 11;
        }
        if is_cloexec(a) || is_cloexec(b) || is_cloexec(0) {
            return 12;
        }
        0
    });
    assert_eq!(code, 0);
}

#[test]
fn a_rotation_of_three_descriptors() {
    let p = [Pipe::new().unwrap(), Pipe::new().unwrap(), Pipe::new().unwrap()];
    let fd = [p[0].reader.as_raw_fd(), p[1].reader.as_raw_fd(), p[2].reader.as_raw_fd()];
    for (i, pipe) in p.iter().enumerate() {
        nix::unistd::write(pipe.writer.as_raw_fd(), &[b'0' + i as u8]).unwrap();
    }
    let mut cmd = Command::new(b"/bin/true");
    // fd[0] <- fd[1], fd[1] <- fd[2], fd[2] <- fd[0]
    cmd.file_descriptor_raw(fd[0], fd[1]);
    cmd.file_descriptor_raw(fd[1], fd[2]);
    cmd.file_descriptor_raw(fd[2], fd[0]);
    let plan = prepare_descriptors(&cmd.fds).unwrap();
    let info = cmd.child_info(&Environ::new(), plan.inner.clone(), &None, 100, 101, false);
    let steps = child_plan(&info);
    let code = in_child(&mut || {
        let done = apply(&steps, &info.fds);
        if done != 0 {
            return done;
        }
        let mut buf = [0u8; 1];
        for i in 0..3 {
            if read(fd[i], &mut buf) != Ok(1) || buf[0] != b'0' + ((i + 1) % 3) as u8 {
                return 10 + i as isize;
            }
        }
        0
    });
    assert_eq!(code, 0);
}

#[test]
fn close_range_spares_the_descriptors_of_the_child() {
    let keep = Pipe::new().unwrap();
    let lose = Pipe::new().unwrap();
    let outside = Pipe::new().unwrap();
    let kept = keep.reader.as_raw_fd();
    let lost = lose.reader.as_raw_fd();
    let lost_too = lose.writer.as_raw_fd();
    let far = outside.writer.as_raw_fd();
    let top = kept.max(lost).max(lost_too) + 1;
    assert!(far >= top);
    let mut cmd = Command::new(b"/bin/true");
    cmd.file_descriptor_raw(kept, kept);
    cmd.close_fds(AnyRange::below(top), 1024);
    let plan = prepare_descriptors(&cmd.fds).unwrap();
    let info = cmd.child_info(&Environ::new(), plan.inner.clone(), &None, 100, 101, false);
    let steps = child_plan(&info);
    assert!(steps.contains(&ChildOp::CloseRange { start: 3, end: top }));
    let code = in_child(&mut || {
        let done = apply(&steps, &info.fds);
        if done != 0 {
            return done;
        }
        if is_open(lost) || is_open(lost_too) {
            return 10;
        }
        if fcntl(lost, FcntlArg::F_GETFD) != Err(nix::Error::Sys(nix::errno::Errno::EBADF)) {
            return 11;
        }
        if !is_open(kept) || !is_open(0) || !is_open(1) || !is_open(2) {
            return 12;
        }
        if !is_open(far) {
            return 13;
        }
        0
    });
    assert_eq!(code, 0);
    // the parent has lost nothing
    assert!(is_open(lost) && is_open(kept));
}

#[test]
fn stdio_from_a_duplicate() {
    let pipe = Pipe::new().unwrap();
    match Stdio::dup_file(pipe.reader.as_raw_fd()).unwrap() {
        Stdio::Fd(holder) => {
            let fd = holder.as_raw_fd();
            assert!(fd != pipe.reader.as_raw_fd());
            assert!(is_open(fd));
            drop(holder);
            assert!(!is_open(fd));
        }
        other => panic!("{:?}", other),
    }
    assert!(is_open(pipe.reader.as_raw_fd()));
    match Fd::dup_file(pipe.writer.as_raw_fd()).unwrap() {
        Fd::Fd(holder) => assert!(holder.as_raw_fd() != pipe.writer.as_raw_fd()),
        other => panic!("{:?}", other),
    }
    assert_eq!(format!("{:?}", Stdio::dup_file(-1)), "Err(Os(9))");
    assert_eq!(format!("{:?}", Fd::dup_file(-1)), "Err(Os(9))");
    assert_eq!(format!("{:?}", Stdio::from_dup(Ok(-5)).map(std::mem::forget)), "Ok(())");
    assert_eq!(
        format!("{:?}", Fd::from_dup(Err(unshare::error::SysError::InvalidPath))),
        "Err(Other)"
    );
}

#[test]
fn pipe_ends() {
    let pipe = Pipe::new().unwrap();
    let (rd, wr) = pipe.split();
    let (r, w) = (rd.as_raw_fd(), wr.as_raw_fd());
    assert!(r != w);
    assert!(is_cloexec(r) && is_cloexec(w));
    let fd = rd.into_fd();
    assert_eq!(fd, r);
    assert!(is_open(fd));
    close(fd).unwrap();
    drop(wr);
    assert!(!is_open(w));
    assert_eq!(
        format!("{:?}", Pipe::from_ends(Err(unshare::error::SysError::Sys(24))).map(|_| ())),
        "Err(CreatePipe(24))"
    );
}

#[test]
fn set_namespace_keeps_a_duplicate() {
    let pipe = Pipe::new().unwrap();
    let mut cmd = Command::new(b"/bin/true");
    cmd.set_namespace(pipe.reader.as_raw_fd(), unshare::Namespace::Net).unwrap();
    assert_eq!(cmd.config.setns_namespaces.len(), 1);
    let first = cmd.config.setns_namespaces[0].1.as_raw_fd();
    assert!(first >= 3 && first != pipe.reader.as_raw_fd());
    assert!(is_cloexec(first));
    cmd.set_namespace(pipe.writer.as_raw_fd(), unshare::Namespace::Net).unwrap();
    assert_eq!(cmd.config.setns_namespaces.len(), 1);
    cmd.set_namespace(pipe.writer.as_raw_fd(), unshare::Namespace::Pid).unwrap();
    assert_eq!(cmd.config.setns_namespaces.len(), 2);
    assert_eq!(cmd.config.setns_namespaces[0].0, unshare::Namespace::Net);
    assert_eq!(cmd.config.setns_namespaces[1].0, unshare::Namespace::Pid);
    assert_eq!(cmd.set_namespace(-1, unshare::Namespace::Uts), Err(unshare::error::IoError::Os(9)));
    assert_eq!(cmd.config.setns_namespaces.len(), 2);
    let info = cmd.child_info(&Environ::new(), vec![], &None, 100, 101, false);
    assert_eq!(info.setns_namespaces.len(), 2);
    assert_eq!(info.setns_namespaces[0].0, 0x4000_0000);
    assert_eq!(info.setns_namespaces[1].0, 0x2000_0000);
}

#[test]
fn how_a_source_comes_about() {
    assert_eq!(opening(0, &Fd::ReadPipe), Opening::Pipe { child_reads: true });
    assert_eq!(opening(1, &Fd::WritePipe), Opening::Pipe { child_reads: false });
    assert_eq!(opening(0, &Fd::ReadNull), Opening::Null { child_writes: false });
    assert_eq!(opening(2, &Fd::WriteNull), Opening::Null { child_writes: true });
    assert_eq!(opening(7, &Fd::Inherit), Opening::Named { fd: 7 });
    assert_eq!(opening(7, &Fd::RawFd(9)), Opening::Named { fd: 9 });
    let owned = Fd::from_file(-5);
    assert_eq!(opening(7, &owned), Opening::Named { fd: -5 });
    std::mem::forget(owned);
    assert_eq!(null_access(false), 0);
    assert_eq!(null_access(true), 1);
    assert_eq!(null_access(false), OFlag::O_RDONLY.bits());
    assert_eq!(null_access(true), OFlag::O_WRONLY.bits());
}

#[test]
fn ends_of_a_pipe_are_dealt_out_by_direction() {
    let (rd, wr) = pipe2(OFlag::O_CLOEXEC).unwrap();
    match unshare::descriptors::pipe_ends(Ok((rd, wr)), true) {
        Ok((child, PipeHolder::Writer(parent))) => {
            assert_eq!(child, rd);
            assert_eq!(parent.into_fd(), wr);
        }
        other => panic!("{:?}", other),
    }
    match unshare::descriptors::pipe_ends(Ok((rd, wr)), false) {
        Ok((child, PipeHolder::Reader(parent))) => {
            assert_eq!(child, wr);
            assert_eq!(parent.into_fd(), rd);
        }
        other => panic!("{:?}", other),
    }
    assert_eq!(
        format!("{:?}", unshare::descriptors::pipe_ends(Err(SysError::Sys(24)), true)),
        "Err(CreatePipe(24))"
    );
    assert_eq!(format!("{:?}", unshare::descriptors::pipe_ends(Err(SysError::InvalidPath), false)), "Err(NixError)");
    close(rd).unwrap();
    close(wr).unwrap();
}

#[test]
fn duplicates_are_judged() {
    let request = vec![(3, Fd::RawFd(4)), (4, Fd::RawFd(3)), (0, Fd::Inherit)];
    assert!(is_in_the_way(&request, 3, 4));
    assert!(is_in_the_way(&request, 4, 3));
    assert!(is_in_the_way(&request, 3, 0));
    assert!(!is_in_the_way(&request, 3, 3));
    assert!(!is_in_the_way(&request, 3, 5));
    assert_eq!(dup_step(&request, 3, Ok(5), 2), DupStep::Done(5));
    assert_eq!(dup_step(&request, 3, Ok(5), 0), DupStep::Done(5));
    assert_eq!(dup_step(&request, 3, Ok(3), 0), DupStep::Done(3));
    assert_eq!(dup_step(&request, 3, Ok(4), 2), DupStep::Again(4));
    assert_eq!(dup_step(&request, 3, Ok(0), 1), DupStep::Again(0));
    assert_eq!(dup_step(&request, 3, Ok(4), 0), DupStep::Failed(Error::CreatePipe(24)));
    assert_eq!(dup_step(&request, 3, Err(SysError::Sys(9)), 2), DupStep::Failed(Error::CreatePipe(9)));
    assert_eq!(dup_step(&request, 3, Err(SysError::InvalidUtf8), 0), DupStep::Failed(Error::NixError));
}

#[test]
fn a_duplicate_is_of_the_descriptor_that_was_named() {
    // what is written into each pipe is read from the source planned for it
    let one = Pipe::new().unwrap();
    let two = Pipe::new().unwrap();
    let (a, b) = (one.reader.as_raw_fd(), two.reader.as_raw_fd());
    nix::unistd::write(one.writer.as_raw_fd(), b"one").unwrap();
    nix::unistd::write(two.writer.as_raw_fd(), b"two").unwrap();
    let request = vec![(a, Fd::RawFd(b)), (b, Fd::RawFd(a))];
    let plan = prepare_descriptors(&request).unwrap();
    assert_eq!(plan.opened, vec![1, 1]);
    let mut buf = [0u8; 8];
    assert_eq!(read(plan.inner[0].1, &mut buf), Ok(3));
    assert_eq!(&buf[..3], b"two");
    assert_eq!(read(plan.inner[1].1, &mut buf), Ok(3));
    assert_eq!(&buf[..3], b"one");
    for (_, source) in plan.inner.iter() {
        assert!(*source >= 3 && is_cloexec(*source));
    }
}

#[test]
fn the_standard_null_streams_are_opened_for_their_direction() {
    let mut cmd = Command::new(b"/bin/true");
    cmd.stdin(Stdio::null()).stdout(Stdio::null()).stderr(Stdio::null());
    let plan = prepare_descriptors(&cmd.fds).unwrap();
    let mut buf = [0u8; 4];
    assert_eq!(read(plan.inner[0].1, &mut buf), Ok(0));
    assert!(nix::unistd::write(plan.inner[0].1, b"x").is_err());
    for i in [1, 2] {
        assert_eq!(nix::unistd::write(plan.inner[i].1, b"x"), Ok(1));
        assert!(read(plan.inner[i].1, &mut buf).is_err());
    }
}
