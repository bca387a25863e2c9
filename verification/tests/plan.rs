use unshare::child::{
    child_plan, closes, error_pipe_in_the_way, next_step, next_to_close, patch_pid_env,
    pre_exec_errno, proc_write, wakeup_action, CapsData, CapsHeader, ChildInfo, ChildOp, Next,
    OnFailure, WakeupAction, CAPS_V3, DENY, PROC_SELF_GID_MAP, PROC_SELF_SETGROUPS,
    PROC_SELF_UID_MAP,
};
use unshare::command::AnyRange;
use unshare::environ::Environ;
use unshare::error::{decode_frame, Error, ErrorCode};
use unshare::idmap::{helper_args, id_map_text};
use unshare::run::{helper_command, map_path, parent_plan, ParentOp};
use unshare::{Command, GidMap, UidMap};

fn info_of(cmd: &Command, fds: Vec<(i32, i32)>, error_pipe: i32, pre_exec: bool) -> ChildInfo {
    cmd.child_info(&Environ::new(), fds, &Some(b"/".to_vec()), 10, error_pipe, pre_exec)
}

fn stdio() -> Vec<(i32, i32)> {
    vec![(0, 0), (1, 1), (2, 2)]
}

#[test]
fn plan_of_a_plain_command() {
    let cmd = Command::new(b"/bin/echo");
    let plan = child_plan(&info_of(&cmd, stdio(), 11, false));
    assert_eq!(
        plan,
        vec![
            ChildOp::SetDeathSignal { sig: 9 },
            ChildOp::AwaitWakeup,
            ChildOp::ClearCloexec { fd: 0 },
            ChildOp::ClearCloexec { fd: 1 },
            ChildOp::ClearCloexec { fd: 2 },
            ChildOp::ResetSignals,
            ChildOp::Exec,
        ]
    );
}

#[test]
fn plan_of_a_daemon_is_shortest() {
    let mut cmd = Command::new(b"/bin/echo");
    cmd.allow_daemonize().keep_sigmask();
    let plan = child_plan(&info_of(&cmd, vec![], 11, false));
    assert_eq!(plan, vec![ChildOp::AwaitWakeup, ChildOp::Exec]);
}

#[test]
fn plan_with_everything_is_in_the_order_of_the_steps() {
    let mut cmd = Command::new(b"/bin/echo");
    cmd.set_id_maps(
        vec![UidMap { inside_uid: 0, outside_uid: 1000, count: 1 }],
        vec![GidMap { inside_gid: 0, outside_gid: 100, count: 1 }],
    );
    cmd.store_namespace(unshare::Namespace::Net, Ok(40)).unwrap();
    cmd.store_namespace(unshare::Namespace::Mount, Ok(41)).unwrap();
    cmd.env_clear();
    cmd.env_var_with_pid(b"LISTEN_PID", Environ::new());
    cmd.pivot_root(b"/new", b"/new/old", true);
    cmd.chroot_dir(b"/jail");
    cmd.keep_caps(&[3, 33]);
    cmd.gid(100).groups(vec![1, 2]).uid(1000);
    cmd.current_dir(b"/work");
    cmd.close_fds(AnyRange::between(3, 20), 0);
    cmd.close_fds(AnyRange::from_fd(100), 200);
    let info = info_of(&cmd, vec![(0, 0), (1, 8), (2, 2), (5, 9)], 1, true);
    let plan = child_plan(&info);
    // the descriptors behind the namespaces belong to the test, not to the command
    for (_, holder) in cmd.config.setns_namespaces.drain(..) {
        std::mem::forget(holder);
    }
    assert_eq!(
        plan,
        vec![
            ChildOp::SetDeathSignal { sig: 9 },
            ChildOp::AwaitWakeup,
            ChildOp::WriteUidMap,
            ChildOp::DenySetgroups,
            ChildOp::WriteGidMap,
            ChildOp::MoveErrorPipe,
            ChildOp::SetNs { fd: 40, flag: 0x4000_0000 },
            ChildOp::SetNs { fd: 41, flag: 0x0002_0000 },
            ChildOp::PatchPidEnv,
            ChildOp::PivotRoot,
            ChildOp::ChdirAfterPivot,
            ChildOp::UnmountOldRoot,
            ChildOp::Chroot,
            ChildOp::ChdirAfterChroot,
            ChildOp::KeepCaps,
            ChildOp::SetGid { gid: 100 },
            ChildOp::SetGroups,
            ChildOp::SetUid { uid: 1000 },
            ChildOp::CapSet {
                data: CapsData {
                    effective_s0: 8,
                    permitted_s0: 8,
                    inheritable_s0: 8,
                    effective_s1: 2,
                    permitted_s1: 2,
                    inheritable_s1: 2,
                },
            },
            ChildOp::RaiseAmbient { cap: 3 },
            ChildOp::RaiseAmbient { cap: 33 },
            ChildOp::Chdir,
            ChildOp::ClearCloexec { fd: 0 },
            ChildOp::Dup2 { src: 8, dst: 1 },
            ChildOp::ClearCloexec { fd: 2 },
            ChildOp::Dup2 { src: 9, dst: 5 },
            ChildOp::CloseRange { start: 3, end: 20 },
            ChildOp::CloseRange { start: 100, end: 200 },
            ChildOp::ResetSignals,
            ChildOp::PreExec,
            ChildOp::Exec,
        ]
    );
    assert_eq!(info.uid_maps, b"0 1000 1\n".to_vec());
    assert_eq!(info.gid_maps, b"0 100 1\n".to_vec());
    assert_eq!(info.pivot.as_ref().unwrap().old_inside, b"/old\0".to_vec());
    assert_eq!(info.chroot.as_ref().unwrap().root, b"/jail\0".to_vec());
    assert_eq!(info.work_dir, Some(b"/work\0".to_vec()));
    assert_eq!(info.supplementary_gids, Some(vec![1, 2]));
    assert_eq!(info.keep_caps, Some((8, 2)));
    assert_eq!(info.wakeup_pipe, 10);
    assert_eq!(info.error_pipe, 1);
}

#[test]
fn id_map_order_setgroups_is_denied_before_the_gid_map() {
    let mut cmd = Command::new(b"/bin/echo");
    cmd.set_id_maps(vec![], vec![GidMap { inside_gid: 0, outside_gid: 100, count: 1 }]);
    let plan = child_plan(&info_of(&cmd, stdio(), 11, false));
    let deny = plan.iter().position(|op| *op == ChildOp::DenySetgroups).unwrap();
    let write = plan.iter().position(|op| *op == ChildOp::WriteGidMap).unwrap();
    assert_eq!(deny + 1, write);
    assert!(!plan.contains(&ChildOp::WriteUidMap));
}

#[test]
fn helpers_take_the_maps_from_the_child() {
    let mut cmd = Command::new(b"/bin/echo");
    cmd.set_id_maps(
        vec![UidMap { inside_uid: 0, outside_uid: 1000, count: 1 }],
        vec![GidMap { inside_gid: 0, outside_gid: 100, count: 1 }],
    );
    cmd.set_id_map_commands(b"/usr/bin/newuidmap", b"/usr/bin/newgidmap");
    let info = info_of(&cmd, stdio(), 11, false);
    assert!(info.uid_maps.is_empty());
    assert!(info.gid_maps.is_empty());
    let plan = child_plan(&info);
    assert!(!plan.contains(&ChildOp::WriteUidMap));
    assert!(!plan.contains(&ChildOp::DenySetgroups));
    assert!(!plan.contains(&ChildOp::WriteGidMap));
}

#[test]
fn failure_policy_of_each_step() {
    assert_eq!(
        ChildOp::SetDeathSignal { sig: 9 }.on_failure(),
        OnFailure::Report(ErrorCode::ParentDeathSignal)
    );
    assert_eq!(ChildOp::AwaitWakeup.on_failure(), OnFailure::Report(ErrorCode::PipeError));
    assert_eq!(ChildOp::WriteUidMap.on_failure(), OnFailure::Report(ErrorCode::SetIdMap));
    assert_eq!(ChildOp::DenySetgroups.on_failure(), OnFailure::Report(ErrorCode::SetIdMap));
    assert_eq!(ChildOp::WriteGidMap.on_failure(), OnFailure::Report(ErrorCode::SetIdMap));
    assert_eq!(ChildOp::MoveErrorPipe.on_failure(), OnFailure::Report(ErrorCode::CreatePipe));
    assert_eq!(ChildOp::SetNs { fd: 3, flag: 1 }.on_failure(), OnFailure::Report(ErrorCode::SetNs));
    assert_eq!(ChildOp::PatchPidEnv.on_failure(), OnFailure::Ignore);
    assert_eq!(ChildOp::PivotRoot.on_failure(), OnFailure::Report(ErrorCode::ChangeRoot));
    assert_eq!(ChildOp::ChdirAfterPivot.on_failure(), OnFailure::Report(ErrorCode::ChangeRoot));
    assert_eq!(ChildOp::UnmountOldRoot.on_failure(), OnFailure::Report(ErrorCode::ChangeRoot));
    assert_eq!(ChildOp::Chroot.on_failure(), OnFailure::Report(ErrorCode::ChangeRoot));
    assert_eq!(ChildOp::ChdirAfterChroot.on_failure(), OnFailure::Report(ErrorCode::ChangeRoot));
    assert_eq!(ChildOp::KeepCaps.on_failure(), OnFailure::Report(ErrorCode::CapSet));
    assert_eq!(ChildOp::SetGid { gid: 1 }.on_failure(), OnFailure::Report(ErrorCode::SetUser));
    assert_eq!(ChildOp::SetGroups.on_failure(), OnFailure::Report(ErrorCode::SetUser));
    assert_eq!(ChildOp::SetUid { uid: 1 }.on_failure(), OnFailure::Report(ErrorCode::SetUser));
    assert_eq!(
        ChildOp::CapSet { data: CapsData::uniform(0, 0) }.on_failure(),
        OnFailure::Report(ErrorCode::CapSet)
    );
    assert_eq!(ChildOp::RaiseAmbient { cap: 1 }.on_failure(), OnFailure::StopRaising);
    assert_eq!(ChildOp::Chdir.on_failure(), OnFailure::Report(ErrorCode::Chdir));
    assert_eq!(ChildOp::ClearCloexec { fd: 1 }.on_failure(), OnFailure::Report(ErrorCode::StdioError));
    assert_eq!(
        ChildOp::Dup2 { src: 1, dst: 2 }.on_failure(),
        OnFailure::Report(ErrorCode::StdioError)
    );
    assert_eq!(ChildOp::CloseRange { start: 3, end: 4 }.on_failure(), OnFailure::Ignore);
    assert_eq!(ChildOp::ResetSignals.on_failure(), OnFailure::Ignore);
    assert_eq!(ChildOp::PreExec.on_failure(), OnFailure::ReportCallback);
    assert_eq!(ChildOp::Exec.on_failure(), OnFailure::Report(ErrorCode::Exec));
}

#[test]
fn next_step_after_success_and_failure() {
    let plan = vec![
        ChildOp::AwaitWakeup,
        ChildOp::CapSet { data: CapsData::uniform(6, 0) },
        ChildOp::RaiseAmbient { cap: 1 },
        ChildOp::RaiseAmbient { cap: 2 },
        ChildOp::Chdir,
        ChildOp::CloseRange { start: 3, end: 9 },
        ChildOp::Exec,
    ];
    assert_eq!(next_step(&plan, 0, None), Next::Continue { index: 1 });
    assert_eq!(next_step(&plan, 6, None), Next::Continue { index: 7 });
    // a failed chdir is reported as Chdir with the errno, big-endian
    assert_eq!(next_step(&plan, 4, Some(2)), Next::Abort { frame: [4, 0, 0, 0, 2] });
    assert_eq!(next_step(&plan, 1, Some(1)), Next::Abort { frame: [13, 0, 0, 0, 1] });
    assert_eq!(next_step(&plan, 6, Some(2)), Next::Abort { frame: [3, 0, 0, 0, 2] });
    // a capability that cannot be raised is passed over
    assert_eq!(next_step(&plan, 2, Some(1)), Next::Continue { index: 3 });
    // without ambient capabilities in the kernel the rest is left out
    assert_eq!(next_step(&plan, 2, Some(95)), Next::Continue { index: 4 });
    assert_eq!(next_step(&plan, 3, Some(95)), Next::Continue { index: 4 });
    // a failed close is ignored
    assert_eq!(next_step(&plan, 5, Some(9)), Next::Continue { index: 6 });
    // a failed callback is reported in a frame that names no kind of error
    let last = vec![ChildOp::PreExec, ChildOp::Exec];
    match next_step(&last, 0, Some(pre_exec_errno(None))) {
        Next::Abort { frame } => {
            assert_eq!(frame, [14, 0x00, 0xa5, 0xe9, 0xc9]);
            assert_eq!(decode_frame(&frame, 5), Err(Error::UnknownError));
        }
        other => panic!("{:?}", other),
    }
    let raise_last = vec![ChildOp::RaiseAmbient { cap: 1 }, ChildOp::RaiseAmbient { cap: 2 }];
    assert_eq!(next_step(&raise_last, 0, Some(95)), Next::Continue { index: 2 });
}

#[test]
fn failed_chdir_reaches_the_parent_as_chdir_enoent() {
    let mut cmd = Command::new(b"/bin/echo");
    cmd.current_dir(b"/no/such/dir");
    let plan = child_plan(&info_of(&cmd, stdio(), 11, false));
    let at = plan.iter().position(|op| *op == ChildOp::Chdir).unwrap();
    match next_step(&plan, at, Some(2)) {
        Next::Abort { frame } => {
            let mut buf = [0u8; 6];
            buf[..5].copy_from_slice(&frame);
            assert_eq!(decode_frame(&buf, 5), Err(Error::Chdir(2)));
        }
        other => panic!("the child went on: {:?}", other),
    }
}

#[test]
fn wakeup_decisions() {
    assert_eq!(wakeup_action(1, 0, Some(9)), WakeupAction::Proceed);
    assert_eq!(wakeup_action(1, 0, None), WakeupAction::Proceed);
    assert_eq!(wakeup_action(0, 0, Some(15)), WakeupAction::Die { sig: 15 });
    assert_eq!(wakeup_action(0, 0, None), WakeupAction::Proceed);
    assert_eq!(wakeup_action(-1, 4, Some(9)), WakeupAction::Retry);
    assert_eq!(wakeup_action(-1, 11, None), WakeupAction::Retry);
    assert_eq!(wakeup_action(-1, 9, Some(9)), WakeupAction::Abort { frame: [6, 0, 0, 0, 9] });
}

#[test]
fn small_decisions_of_the_child() {
    assert!(error_pipe_in_the_way(0));
    assert!(error_pipe_in_the_way(2));
    assert!(!error_pipe_in_the_way(3));
    assert_eq!(pre_exec_errno(Some(13)), 13);
    assert_eq!(pre_exec_errno(None), 10873289);
    let fds = [(0, 0), (1, 7), (5, 9)];
    assert!(!closes(&fds, 0));
    assert!(!closes(&fds, 1));
    assert!(!closes(&fds, 5));
    assert!(closes(&fds, 7));
    assert!(closes(&fds, 9));
    assert!(closes(&fds, 3));
    assert_eq!(CapsHeader::current(), CapsHeader { version: CAPS_V3, pid: 0 });
    assert_eq!(CAPS_V3, 0x20080522);
}

#[test]
fn environment_strings_and_pid_slots() {
    let mut cmd = Command::new(b"/bin/sh");
    cmd.env_clear();
    cmd.env(b"A", b"B", Environ::new());
    cmd.env(b"LISTEN_PID", b"stale", Environ::new());
    cmd.env(b"EMPTY", b"", Environ::new());
    cmd.env_var_with_pid(b"LISTEN_PID", Environ::new());
    cmd.env(b"LISTEN_PID", b"late", Environ::new());
    let mut info = info_of(&cmd, stdio(), 11, false);
    assert_eq!(
        info.environ,
        vec![b"A=B\0".to_vec(), b"EMPTY=\0".to_vec(), b"LISTEN_PID=000000000000\0".to_vec()]
    );
    assert_eq!(info.pid_env_vars, vec![(2, 11)]);
    let slots = info.pid_env_vars.clone();
    patch_pid_env(&mut info.environ, &slots, 4711);
    assert_eq!(info.environ[0], b"A=B\0".to_vec());
    assert_eq!(info.environ[2], b"LISTEN_PID=4711\x000000000\0".to_vec());
    let value: Vec<u8> = info.environ[2].iter().cloned().take_while(|b| *b != 0).collect();
    assert_eq!(value, b"LISTEN_PID=4711".to_vec());
    patch_pid_env(&mut info.environ, &slots, i32::MAX);
    let value: Vec<u8> = info.environ[2].iter().cloned().take_while(|b| *b != 0).collect();
    assert_eq!(value, b"LISTEN_PID=2147483647".to_vec());
}

#[test]
fn environment_is_inherited_when_the_command_has_none() {
    let cmd = Command::new(b"/bin/sh");
    let mut inherited = Environ::new();
    inherited.insert(b"PATH".to_vec(), b"/bin".to_vec());
    let info = cmd.child_info(&inherited, stdio(), &None, 10, 11, false);
    assert_eq!(info.environ, vec![b"PATH=/bin\0".to_vec()]);
    assert!(info.pid_env_vars.is_empty());
    assert_eq!(info.filename, b"/bin/sh\0".to_vec());
    assert_eq!(info.args, vec![b"/bin/sh\0".to_vec()]);
}

#[test]
fn argv_zero_reaches_the_child() {
    let mut cmd = Command::new(b"/bin/busybox");
    cmd.arg0(b"x").arg(b"-l");
    let info = info_of(&cmd, stdio(), 11, false);
    assert_eq!(info.filename, b"/bin/busybox\0".to_vec());
    assert_eq!(info.args, vec![b"x\0".to_vec(), b"-l\0".to_vec()]);
}

#[test]
fn steps_of_the_parent() {
    let mut cmd = Command::new(b"/bin/echo");
    assert_eq!(parent_plan(&cmd, false), vec![ParentOp::Wakeup, ParentOp::ReadError]);
    assert_eq!(
        parent_plan(&cmd, true),
        vec![ParentOp::BeforeUnfreeze, ParentOp::Wakeup, ParentOp::ReadError]
    );
    cmd.make_group_leader(true);
    cmd.set_id_maps(vec![], vec![]);
    assert_eq!(
        parent_plan(&cmd, true),
        vec![
            ParentOp::SetPgid,
            ParentOp::WriteUidMap,
            ParentOp::WriteGidMap,
            ParentOp::BeforeUnfreeze,
            ParentOp::Wakeup,
            ParentOp::ReadError
        ]
    );
    cmd.set_id_map_commands(b"/usr/bin/newuidmap", b"/usr/bin/newgidmap");
    assert_eq!(
        parent_plan(&cmd, false),
        vec![
            ParentOp::SetPgid,
            ParentOp::RunUidHelper,
            ParentOp::RunGidHelper,
            ParentOp::Wakeup,
            ParentOp::ReadError
        ]
    );
    assert_eq!(ParentOp::SetPgid.error_code(), Some(ErrorCode::SetPGid));
    assert_eq!(ParentOp::RunUidHelper.error_code(), Some(ErrorCode::SetIdMap));
    assert_eq!(ParentOp::RunGidHelper.error_code(), Some(ErrorCode::SetIdMap));
    assert_eq!(ParentOp::WriteUidMap.error_code(), Some(ErrorCode::SetIdMap));
    assert_eq!(ParentOp::WriteGidMap.error_code(), Some(ErrorCode::SetIdMap));
    assert_eq!(ParentOp::BeforeUnfreeze.error_code(), None);
    assert_eq!(ParentOp::Wakeup.error_code(), Some(ErrorCode::PipeError));
    assert_eq!(ParentOp::ReadError.error_code(), Some(ErrorCode::PipeError));
}

#[test]
fn id_map_files_and_helper_arguments() {
    let uids = vec![
        UidMap { inside_uid: 0, outside_uid: 1000, count: 1 },
        UidMap { inside_uid: 1, outside_uid: 100000, count: 65536 },
    ];
    let gids = vec![GidMap { inside_gid: 0, outside_gid: 4294967295, count: 10 }];
    assert_eq!(id_map_text(&uids), b"0 1000 1\n1 100000 65536\n".to_vec());
    assert_eq!(id_map_text(&gids), b"0 4294967295 10\n".to_vec());
    assert_eq!(id_map_text(&Vec::<UidMap>::new()), Vec::<u8>::new());
    assert_eq!(map_path(4711, false), b"/proc/4711/uid_map".to_vec());
    assert_eq!(map_path(1, true), b"/proc/1/gid_map".to_vec());
    assert_eq!(
        helper_args(4711, &uids),
        vec![
            b"4711".to_vec(),
            b"0".to_vec(),
            b"1000".to_vec(),
            b"1".to_vec(),
            b"1".to_vec(),
            b"100000".to_vec(),
            b"65536".to_vec()
        ]
    );
    let helper = helper_command(b"/usr/bin/newgidmap", 4711, &gids);
    assert_eq!(helper.filename, b"/usr/bin/newgidmap\0".to_vec());
    assert_eq!(
        helper.args,
        vec![
            b"/usr/bin/newgidmap\0".to_vec(),
            b"4711\0".to_vec(),
            b"0\0".to_vec(),
            b"4294967295\0".to_vec(),
            b"10\0".to_vec()
        ]
    );
    assert!(helper.environ.is_none());
}

#[test]
fn files_of_proc_self() {
    assert_eq!(PROC_SELF_UID_MAP, *b"/proc/self/uid_map\0");
    assert_eq!(PROC_SELF_GID_MAP, *b"/proc/self/gid_map\0");
    assert_eq!(PROC_SELF_SETGROUPS, *b"/proc/self/setgroups\0");
    assert_eq!(DENY, *b"deny");
    let mut cmd = Command::new(b"/bin/echo");
    cmd.set_id_maps(
        vec![UidMap { inside_uid: 0, outside_uid: 1000, count: 1 }],
        vec![GidMap { inside_gid: 0, outside_gid: 100, count: 2 }],
    );
    let info = info_of(&cmd, stdio(), 11, false);
    assert_eq!(
        proc_write(ChildOp::WriteUidMap, &info),
        Some((&b"/proc/self/uid_map\0"[..], &b"0 1000 1\n"[..]))
    );
    assert_eq!(
        proc_write(ChildOp::DenySetgroups, &info),
        Some((&b"/proc/self/setgroups\0"[..], &b"deny"[..]))
    );
    assert_eq!(
        proc_write(ChildOp::WriteGidMap, &info),
        Some((&b"/proc/self/gid_map\0"[..], &b"0 100 2\n"[..]))
    );
    assert_eq!(proc_write(ChildOp::Exec, &info), None);
    assert_eq!(proc_write(ChildOp::Chdir, &info), None);
}

#[test]
fn walk_over_a_close_range() {
    let fds = [(0, 0), (1, 7), (5, 9), (6, 6)];
    let mut closed = Vec::new();
    let mut from = 3;
    while let Some(fd) = next_to_close(&fds, from, 10) {
        closed.push(fd);
        from = fd + 1;
    }
    assert_eq!(closed, vec![3, 4, 7, 8, 9]);
    assert_eq!(next_to_close(&fds, 5, 7), None);
    assert_eq!(next_to_close(&fds, 5, 8), Some(7));
    assert_eq!(next_to_close(&fds, 10, 3), None);
    assert_eq!(next_to_close(&fds, 3, 3), None);
    assert_eq!(next_to_close(&fds, i32::MAX - 1, i32::MAX), Some(i32::MAX - 1));
    assert_eq!(next_to_close(&[], -2, 0), Some(-2));
    for fd in 0..12 {
        assert_eq!(closed.contains(&fd), (3..10).contains(&fd) && closes(&fds, fd));
    }
}
