//! What the child does between `clone` and `execve`.
//!
//! The parent works the steps out beforehand as a list, the plan, so that
//! the child only has to walk it: in that state it can make system calls and
//! nothing else, not even allocate memory. Every decision that depends on
//! how a system call went is a function here that allocates nothing.
use vstd::prelude::*;
use crate::chroot::{Chroot, Pivot};
use crate::decimal::{decimal, format_pid_fixed, lemma_decimal_digits, lemma_decimal_len_u32};
use crate::errno::{EAGAIN, EINTR, ENOTSUP};
use crate::error::{
    encode_callback_frame, encode_frame, spec_frame, spec_frame_of, ErrorCode, CALLBACK_KIND,
    NO_OS_ERROR,
};
use crate::ffi_util::{c_value, lemma_c_value_prefix, no_nul, views};

verus! {

/// Version 3 of the capability interface of the kernel.
pub const CAPS_V3: u32 = 0x20080522;

/// The exit code of a child that could not run the program.
pub const EXIT_FAILURE_CODE: i32 = 127;

/// Number of capabilities that the two words of a capability set can hold.
pub const CAP_COUNT: u32 = 64;

/// The header that `capset` takes.
#[derive(Debug, Clone, Copy, PartialEq, Eq, Structural)]
pub struct CapsHeader {
    pub version: u32,
    pub pid: i32,
}

/// The three capability sets that `capset` takes, each in two words.
#[derive(Debug, Clone, Copy, PartialEq, Eq, Structural)]
pub struct CapsData {
    pub effective_s0: u32,
    pub permitted_s0: u32,
    pub inheritable_s0: u32,
    pub effective_s1: u32,
    pub permitted_s1: u32,
    pub inheritable_s1: u32,
}

impl CapsHeader {
    /// The header for setting the capabilities of the calling process.
    pub fn current() -> (r: CapsHeader)
        ensures
            r == (CapsHeader { version: CAPS_V3, pid: 0 }),
    {
        CapsHeader { version: CAPS_V3, pid: 0 }
    }
}

impl CapsData {
    /// The effective, permitted and inheritable sets all equal to `caps`.
    pub open spec fn spec_uniform(lo: u32, hi: u32) -> CapsData {
        CapsData {
            effective_s0: lo,
            permitted_s0: lo,
            inheritable_s0: lo,
            effective_s1: hi,
            permitted_s1: hi,
            inheritable_s1: hi,
        }
    }

    /// The effective, permitted and inheritable sets all equal to the set
    /// whose low word is `lo` and whose high word is `hi`.
    pub fn uniform(lo: u32, hi: u32) -> (r: CapsData)
        ensures
            r == Self::spec_uniform(lo, hi),
    {
        CapsData {
            effective_s0: lo,
            permitted_s0: lo,
            inheritable_s0: lo,
            effective_s1: hi,
            permitted_s1: hi,
            inheritable_s1: hi,
        }
    }
}

/// Whether the capability number `idx` is in the set with the words `lo` and
/// `hi`.
pub open spec fn cap_bit(lo: u32, hi: u32, idx: u32) -> bool {
    if idx < 32 {
        (lo >> idx) & 1 == 1
    } else if idx < 64 {
        (hi >> ((idx - 32) as u32)) & 1 == 1
    } else {
        false
    }
}

/// Whether the capability number `idx` is in the set with the words `lo` and
/// `hi`.
pub fn has_cap(lo: u32, hi: u32, idx: u32) -> (r: bool)
    ensures
        r == cap_bit(lo, hi, idx),
{
    if idx < 32 {
        (lo >> idx) & 1 == 1
    } else if idx < 64 {
        (hi >> (idx - 32)) & 1 == 1
    } else {
        false
    }
}

/// Everything that the child reads. The parent prepares it before `clone`;
/// all strings end in a NUL.
#[derive(Debug)]
pub struct ChildInfo {
    /// The program to run.
    pub filename: Vec<u8>,
    /// Its arguments, the name it is called by first.
    pub args: Vec<Vec<u8>>,
    /// Its environment, one `NAME=VALUE` each.
    pub environ: Vec<Vec<u8>>,
    /// The signal that the child gets when the parent dies.
    pub death_sig: Option<i32>,
    /// The directory that the child is started in.
    pub work_dir: Option<Vec<u8>>,
    pub uid: Option<u32>,
    pub gid: Option<u32>,
    pub supplementary_gids: Option<Vec<u32>>,
    /// Whether the signal mask is emptied and the handlers are reset.
    pub restore_sigmask: bool,
    pub chroot: Option<Chroot>,
    pub pivot: Option<Pivot>,
    /// The end of the wake-up pipe that the child reads.
    pub wakeup_pipe: i32,
    /// The end of the error pipe that the child writes.
    pub error_pipe: i32,
    /// For each descriptor of the child: its number, and the descriptor that
    /// it is copied from.
    pub fds: Vec<(i32, i32)>,
    /// The ranges of descriptors to close, each from its first number up to
    /// but without its second.
    pub close_fds: Vec<(i32, i32)>,
    /// The namespaces to join: clone flag and descriptor of each.
    pub setns_namespaces: Vec<(u32, i32)>,
    /// The text to write to the uid map of the child; empty for none.
    pub uid_maps: Vec<u8>,
    /// The text to write to the gid map of the child; empty for none.
    pub gid_maps: Vec<u8>,
    /// Where the pid is written into the environment: the number of the
    /// string in `environ`, and the place in it where the digits start.
    pub pid_env_vars: Vec<(usize, usize)>,
    /// The capabilities to keep: low word and high word of the set.
    pub keep_caps: Option<(u32, u32)>,
    /// Whether a callback runs just before `execve`.
    pub pre_exec: bool,
}

/// One step of the child.
#[derive(Debug, Clone, Copy, PartialEq, Eq, Structural)]
pub enum ChildOp {
    /// `prctl(PR_SET_PDEATHSIG, sig)`.
    SetDeathSignal { sig: i32 },
    /// Read the wake-up pipe until the parent has written or closed it.
    AwaitWakeup,
    /// Write the uid map to `/proc/self/uid_map`.
    WriteUidMap,
    /// Write `deny` to `/proc/self/setgroups`.
    DenySetgroups,
    /// Write the gid map to `/proc/self/gid_map`.
    WriteGidMap,
    /// Duplicate the error pipe to a descriptor above the standard streams.
    MoveErrorPipe,
    /// `setns(fd, flag)`.
    SetNs { fd: i32, flag: u32 },
    /// Write the pid into the environment strings.
    PatchPidEnv,
    /// `pivot_root(new_root, put_old)`.
    PivotRoot,
    /// `chdir` to the working directory under the new root.
    ChdirAfterPivot,
    /// `umount2(old_inside, MNT_DETACH)`.
    UnmountOldRoot,
    /// `chroot(root)`.
    Chroot,
    /// `chdir` to the working directory under the new root.
    ChdirAfterChroot,
    /// `prctl(PR_SET_KEEPCAPS, 1)`.
    KeepCaps,
    /// `setgid(gid)`.
    SetGid { gid: u32 },
    /// `setgroups` with the supplementary groups.
    SetGroups,
    /// `setuid(uid)`.
    SetUid { uid: u32 },
    /// `capset` with these sets.
    CapSet { data: CapsData },
    /// `prctl(PR_CAP_AMBIENT, PR_CAP_AMBIENT_RAISE, cap)`.
    RaiseAmbient { cap: u32 },
    /// `chdir` to the working directory asked for.
    Chdir,
    /// Clear `FD_CLOEXEC` on `fd`, which is already in its place.
    ClearCloexec { fd: i32 },
    /// `dup2(src, dst)`.
    Dup2 { src: i32, dst: i32 },
    /// `close` every descriptor from `start` up to but without `end` that is
    /// not a descriptor of the child.
    CloseRange { start: i32, end: i32 },
    /// Empty the signal mask and reset the handlers of signals 1 to 31.
    ResetSignals,
    /// Run the callback of the caller.
    PreExec,
    /// `execve(filename, args, environ)`.
    Exec,
}

/// What the child does when a step fails.
#[derive(Debug, Clone, Copy, PartialEq, Eq, Structural)]
pub enum OnFailure {
    /// Report an error of this kind to the parent and exit.
    Report(ErrorCode),
    /// Report the failure of the callback to the parent and exit.
    ReportCallback,
    /// Go on with the next step.
    Ignore,
    /// Go on, but where the kernel knows no ambient capabilities leave the
    /// other ones unraised too.
    StopRaising,
}

impl ChildOp {
    /// The place of a step in the order of the child: a step with a lower
    /// rank is never made after one with a higher rank.
    pub open spec fn rank(self) -> nat {
        match self {
            ChildOp::SetDeathSignal { .. } => 10,
            ChildOp::AwaitWakeup => 20,
            ChildOp::WriteUidMap => 30,
            ChildOp::DenySetgroups => 31,
            ChildOp::WriteGidMap => 32,
            ChildOp::MoveErrorPipe => 40,
            ChildOp::SetNs { .. } => 50,
            ChildOp::PatchPidEnv => 60,
            ChildOp::PivotRoot => 70,
            ChildOp::ChdirAfterPivot => 71,
            ChildOp::UnmountOldRoot => 72,
            ChildOp::Chroot => 80,
            ChildOp::ChdirAfterChroot => 81,
            ChildOp::KeepCaps => 90,
            ChildOp::SetGid { .. } => 100,
            ChildOp::SetGroups => 101,
            ChildOp::SetUid { .. } => 102,
            ChildOp::CapSet { .. } => 110,
            ChildOp::RaiseAmbient { .. } => 111,
            ChildOp::Chdir => 120,
            ChildOp::ClearCloexec { .. } => 130,
            ChildOp::Dup2 { .. } => 130,
            ChildOp::CloseRange { .. } => 140,
            ChildOp::ResetSignals => 150,
            ChildOp::PreExec => 160,
            ChildOp::Exec => 170,
        }
    }

    /// What the child does when the step fails.
    pub open spec fn spec_on_failure(self) -> OnFailure {
        match self {
            ChildOp::SetDeathSignal { .. } => OnFailure::Report(ErrorCode::ParentDeathSignal),
            ChildOp::AwaitWakeup => OnFailure::Report(ErrorCode::PipeError),
            ChildOp::WriteUidMap => OnFailure::Report(ErrorCode::SetIdMap),
            ChildOp::DenySetgroups => OnFailure::Report(ErrorCode::SetIdMap),
            ChildOp::WriteGidMap => OnFailure::Report(ErrorCode::SetIdMap),
            ChildOp::MoveErrorPipe => OnFailure::Report(ErrorCode::CreatePipe),
            ChildOp::SetNs { .. } => OnFailure::Report(ErrorCode::SetNs),
            ChildOp::PatchPidEnv => OnFailure::Ignore,
            ChildOp::PivotRoot => OnFailure::Report(ErrorCode::ChangeRoot),
            ChildOp::ChdirAfterPivot => OnFailure::Report(ErrorCode::ChangeRoot),
            ChildOp::UnmountOldRoot => OnFailure::Report(ErrorCode::ChangeRoot),
            ChildOp::Chroot => OnFailure::Report(ErrorCode::ChangeRoot),
            ChildOp::ChdirAfterChroot => OnFailure::Report(ErrorCode::ChangeRoot),
            ChildOp::KeepCaps => OnFailure::Report(ErrorCode::CapSet),
            ChildOp::SetGid { .. } => OnFailure::Report(ErrorCode::SetUser),
            ChildOp::SetGroups => OnFailure::Report(ErrorCode::SetUser),
            ChildOp::SetUid { .. } => OnFailure::Report(ErrorCode::SetUser),
            ChildOp::CapSet { .. } => OnFailure::Report(ErrorCode::CapSet),
            ChildOp::RaiseAmbient { .. } => OnFailure::StopRaising,
            ChildOp::Chdir => OnFailure::Report(ErrorCode::Chdir),
            ChildOp::ClearCloexec { .. } => OnFailure::Report(ErrorCode::StdioError),
            ChildOp::Dup2 { .. } => OnFailure::Report(ErrorCode::StdioError),
            ChildOp::CloseRange { .. } => OnFailure::Ignore,
            ChildOp::ResetSignals => OnFailure::Ignore,
            ChildOp::PreExec => OnFailure::ReportCallback,
            ChildOp::Exec => OnFailure::Report(ErrorCode::Exec),
        }
    }

    /// What the child does when the step fails.
    pub fn on_failure(self) -> (r: OnFailure)
        ensures
            r == self.spec_on_failure(),
    {
        match self {
            ChildOp::SetDeathSignal { .. } => OnFailure::Report(ErrorCode::ParentDeathSignal),
            ChildOp::AwaitWakeup => OnFailure::Report(ErrorCode::PipeError),
            ChildOp::WriteUidMap => OnFailure::Report(ErrorCode::SetIdMap),
            ChildOp::DenySetgroups => OnFailure::Report(ErrorCode::SetIdMap),
            ChildOp::WriteGidMap => OnFailure::Report(ErrorCode::SetIdMap),
            ChildOp::MoveErrorPipe => OnFailure::Report(ErrorCode::CreatePipe),
            ChildOp::SetNs { .. } => OnFailure::Report(ErrorCode::SetNs),
            ChildOp::PatchPidEnv => OnFailure::Ignore,
            ChildOp::PivotRoot => OnFailure::Report(ErrorCode::ChangeRoot),
            ChildOp::ChdirAfterPivot => OnFailure::Report(ErrorCode::ChangeRoot),
            ChildOp::UnmountOldRoot => OnFailure::Report(ErrorCode::ChangeRoot),
            ChildOp::Chroot => OnFailure::Report(ErrorCode::ChangeRoot),
            ChildOp::ChdirAfterChroot => OnFailure::Report(ErrorCode::ChangeRoot),
            ChildOp::KeepCaps => OnFailure::Report(ErrorCode::CapSet),
            ChildOp::SetGid { .. } => OnFailure::Report(ErrorCode::SetUser),
            ChildOp::SetGroups => OnFailure::Report(ErrorCode::SetUser),
            ChildOp::SetUid { .. } => OnFailure::Report(ErrorCode::SetUser),
            ChildOp::CapSet { .. } => OnFailure::Report(ErrorCode::CapSet),
            ChildOp::RaiseAmbient { .. } => OnFailure::StopRaising,
            ChildOp::Chdir => OnFailure::Report(ErrorCode::Chdir),
            ChildOp::ClearCloexec { .. } => OnFailure::Report(ErrorCode::StdioError),
            ChildOp::Dup2 { .. } => OnFailure::Report(ErrorCode::StdioError),
            ChildOp::CloseRange { .. } => OnFailure::Ignore,
            ChildOp::ResetSignals => OnFailure::Ignore,
            ChildOp::PreExec => OnFailure::ReportCallback,
            ChildOp::Exec => OnFailure::Report(ErrorCode::Exec),
        }
    }
}

/// Whether the steps of `s` come in the order of their ranks, none below
/// `lo` and none above `hi`.
pub open spec fn in_order(s: Seq<ChildOp>, lo: nat, hi: nat) -> bool {
    &&& forall|i: int| 0 <= i < s.len() ==> lo <= (#[trigger] s[i]).rank() <= hi
    &&& forall|i: int, j: int|
        0 <= i < j < s.len() ==> (#[trigger] s[i]).rank() <= (#[trigger] s[j]).rank()
}

/// Steps in order followed by later steps in order are in order.
pub proof fn lemma_in_order_concat(a: Seq<ChildOp>, b: Seq<ChildOp>, lo: nat, mid: nat, hi: nat)
    requires
        in_order(a, lo, mid),
        in_order(b, mid, hi),
        lo <= mid <= hi,
    ensures
        in_order(a + b, lo, hi),
{
    let s = a + b;
    assert forall|i: int| 0 <= i < s.len() implies lo <= (#[trigger] s[i]).rank() <= hi by {
        if i < a.len() {
            assert(s[i] == a[i]);
        } else {
            assert(s[i] == b[i - a.len()]);
        }
    }
    assert forall|i: int, j: int| 0 <= i < j < s.len() implies (#[trigger] s[i]).rank() <= (
    #[trigger] s[j]).rank() by {
        if j < a.len() {
            assert(s[i] == a[i] && s[j] == a[j]);
        } else if i >= a.len() {
            assert(s[i] == b[i - a.len()] && s[j] == b[j - a.len()]);
        } else {
            assert(s[i] == a[i] && s[j] == b[j - a.len()]);
        }
    }
}

/// The step that sets the parent-death signal, where one is asked for.
pub open spec fn death_signal_ops(info: ChildInfo) -> Seq<ChildOp> {
    match info.death_sig {
        Some(sig) => seq![ChildOp::SetDeathSignal { sig }],
        None => Seq::empty(),
    }
}

/// The steps that write the id maps. The uid map is written where there is
/// one. Where there is a gid map, `setgroups` is denied first and the map
/// written after: the kernel takes a gid map from an unprivileged writer
/// only in that order.
pub open spec fn id_map_ops(info: ChildInfo) -> Seq<ChildOp> {
    (if info.uid_maps@.len() > 0 {
        seq![ChildOp::WriteUidMap]
    } else {
        Seq::empty()
    }) + (if info.gid_maps@.len() > 0 {
        seq![ChildOp::DenySetgroups, ChildOp::WriteGidMap]
    } else {
        Seq::empty()
    })
}

/// The step that moves the error pipe out of the way of the standard
/// streams, where it is in their way.
pub open spec fn error_pipe_ops(info: ChildInfo) -> Seq<ChildOp> {
    if info.error_pipe < 3 {
        seq![ChildOp::MoveErrorPipe]
    } else {
        Seq::empty()
    }
}

/// One `setns` for each of the first `n` namespaces to join.
pub open spec fn setns_ops(list: Seq<(u32, i32)>, n: nat) -> Seq<ChildOp>
    decreases n,
{
    if n == 0 || n > list.len() {
        Seq::empty()
    } else {
        setns_ops(list, (n - 1) as nat).push(
            ChildOp::SetNs { fd: list[n - 1].1, flag: list[n - 1].0 },
        )
    }
}

/// The step that writes the pid into the environment, where a variable
/// asks for it.
pub open spec fn pid_env_ops(info: ChildInfo) -> Seq<ChildOp> {
    if info.pid_env_vars@.len() > 0 {
        seq![ChildOp::PatchPidEnv]
    } else {
        Seq::empty()
    }
}

/// The steps of `pivot_root`: the call, the `chdir` into the new root, and
/// the unmounting of the old root where that is asked for.
pub open spec fn pivot_ops(info: ChildInfo) -> Seq<ChildOp> {
    match info.pivot {
        Some(p) => if p.unmount_old_root {
            seq![ChildOp::PivotRoot, ChildOp::ChdirAfterPivot, ChildOp::UnmountOldRoot]
        } else {
            seq![ChildOp::PivotRoot, ChildOp::ChdirAfterPivot]
        },
        None => Seq::empty(),
    }
}

/// The steps of `chroot`: the call and the `chdir` into the new root.
pub open spec fn chroot_ops(info: ChildInfo) -> Seq<ChildOp> {
    match info.chroot {
        Some(_) => seq![ChildOp::Chroot, ChildOp::ChdirAfterChroot],
        None => Seq::empty(),
    }
}

/// The step that makes capabilities survive a change of user, where
/// capabilities are to be kept.
pub open spec fn keep_caps_ops(info: ChildInfo) -> Seq<ChildOp> {
    match info.keep_caps {
        Some(_) => seq![ChildOp::KeepCaps],
        None => Seq::empty(),
    }
}

/// The steps that set the group, the supplementary groups and the user, in
/// that order, each where it is asked for.
pub open spec fn user_ops(info: ChildInfo) -> Seq<ChildOp> {
    (match info.gid {
        Some(gid) => seq![ChildOp::SetGid { gid }],
        None => Seq::empty(),
    }) + (match info.supplementary_gids {
        Some(_) => seq![ChildOp::SetGroups],
        None => Seq::empty(),
    }) + (match info.uid {
        Some(uid) => seq![ChildOp::SetUid { uid }],
        None => Seq::empty(),
    })
}

/// One step for each capability below `n` of the set `lo`, `hi`, in
/// ascending order, that raises it in the ambient set.
pub open spec fn ambient_ops(lo: u32, hi: u32, n: nat) -> Seq<ChildOp>
    decreases n,
{
    if n == 0 || n > 64 {
        Seq::empty()
    } else {
        let before = ambient_ops(lo, hi, (n - 1) as nat);
        if cap_bit(lo, hi, (n - 1) as u32) {
            before.push(ChildOp::RaiseAmbient { cap: (n - 1) as u32 })
        } else {
            before
        }
    }
}

/// The steps that install the capabilities to keep: `capset` with the
/// permitted, effective and inheritable sets all equal to the set asked
/// for, then one step for each capability of the set that raises it in the
/// ambient set.
pub open spec fn caps_ops(info: ChildInfo) -> Seq<ChildOp> {
    match info.keep_caps {
        Some((lo, hi)) => seq![ChildOp::CapSet { data: CapsData::spec_uniform(lo, hi) }]
            + ambient_ops(lo, hi, 64),
        None => Seq::empty(),
    }
}

/// The step that enters the working directory asked for.
pub open spec fn chdir_ops(info: ChildInfo) -> Seq<ChildOp> {
    match info.work_dir {
        Some(_) => seq![ChildOp::Chdir],
        None => Seq::empty(),
    }
}

/// The step that puts one descriptor of the child in place: where it is
/// already in place it is only kept open across `execve`, else it is copied
/// from its source.
pub open spec fn fd_op(entry: (i32, i32)) -> ChildOp {
    if entry.1 == entry.0 {
        ChildOp::ClearCloexec { fd: entry.1 }
    } else {
        ChildOp::Dup2 { src: entry.1, dst: entry.0 }
    }
}

/// The steps that put the first `n` descriptors of the child in place.
pub open spec fn fd_ops(fds: Seq<(i32, i32)>, n: nat) -> Seq<ChildOp>
    decreases n,
{
    if n == 0 || n > fds.len() {
        Seq::empty()
    } else {
        fd_ops(fds, (n - 1) as nat).push(fd_op(fds[n - 1]))
    }
}

/// One step for each of the first `n` ranges to close.
pub open spec fn close_ops(ranges: Seq<(i32, i32)>, n: nat) -> Seq<ChildOp>
    decreases n,
{
    if n == 0 || n > ranges.len() {
        Seq::empty()
    } else {
        close_ops(ranges, (n - 1) as nat).push(
            ChildOp::CloseRange { start: ranges[n - 1].0, end: ranges[n - 1].1 },
        )
    }
}

/// The step that resets the signals, unless the caller keeps them.
pub open spec fn signal_ops(info: ChildInfo) -> Seq<ChildOp> {
    if info.restore_sigmask {
        seq![ChildOp::ResetSignals]
    } else {
        Seq::empty()
    }
}

/// The step that runs the callback of the caller, where there is one.
pub open spec fn pre_exec_ops(info: ChildInfo) -> Seq<ChildOp> {
    if info.pre_exec {
        seq![ChildOp::PreExec]
    } else {
        Seq::empty()
    }
}

/// What the child does before the wake-up and to wait for it.
pub open spec fn plan_until_wakeup(info: ChildInfo) -> Seq<ChildOp> {
    death_signal_ops(info) + seq![ChildOp::AwaitWakeup]
}

/// What the child does, once its id maps are written, to its namespaces,
/// its root, its user and its capabilities.
pub open spec fn plan_after_id_maps(info: ChildInfo) -> Seq<ChildOp> {
    error_pipe_ops(info) + setns_ops(info.setns_namespaces@, info.setns_namespaces@.len())
        + pid_env_ops(info) + pivot_ops(info) + chroot_ops(info) + keep_caps_ops(info) + user_ops(
        info,
    ) + caps_ops(info)
}

/// What the child does to its id maps, its namespaces, its root, its user
/// and its capabilities.
pub open spec fn plan_identity(info: ChildInfo) -> Seq<ChildOp> {
    id_map_ops(info) + plan_after_id_maps(info)
}

/// What the child does to its working directory, its descriptors and its
/// signals, and how it ends.
pub open spec fn plan_exec(info: ChildInfo) -> Seq<ChildOp> {
    chdir_ops(info) + fd_ops(info.fds@, info.fds@.len()) + close_ops(
        info.close_fds@,
        info.close_fds@.len(),
    ) + signal_ops(info) + pre_exec_ops(info) + seq![ChildOp::Exec]
}

/// The steps of the child, in the order in which it makes them.
pub open spec fn spec_child_plan(info: ChildInfo) -> Seq<ChildOp> {
    plan_until_wakeup(info) + plan_identity(info) + plan_exec(info)
}

/// Appends to `plan` one `setns` for each namespace to join.
fn push_setns_ops(plan: &mut Vec<ChildOp>, list: &Vec<(u32, i32)>)
    ensures
        final(plan)@ == old(plan)@ + setns_ops(list@, list@.len()),
{
    let mut i: usize = 0;
    assert(plan@ =~= old(plan)@ + setns_ops(list@, 0));
    while i < list.len()
        invariant
            0 <= i <= list.len(),
            plan@ == old(plan)@ + setns_ops(list@, i as nat),
        decreases list.len() - i,
    {
        plan.push(ChildOp::SetNs { fd: list[i].1, flag: list[i].0 });
        assert(plan@ =~= old(plan)@ + setns_ops(list@, (i + 1) as nat));
        i = i + 1;
    }
}

/// Appends to `plan` the steps that raise the capabilities of the set `lo`,
/// `hi` in the ambient set.
fn push_ambient_ops(plan: &mut Vec<ChildOp>, lo: u32, hi: u32)
    ensures
        final(plan)@ == old(plan)@ + ambient_ops(lo, hi, 64),
{
    let mut idx: u32 = 0;
    assert(plan@ =~= old(plan)@ + ambient_ops(lo, hi, 0));
    while idx < CAP_COUNT
        invariant
            0 <= idx <= 64,
            plan@ == old(plan)@ + ambient_ops(lo, hi, idx as nat),
        decreases 64 - idx,
    {
        if has_cap(lo, hi, idx) {
            plan.push(ChildOp::RaiseAmbient { cap: idx });
        }
        assert(plan@ =~= old(plan)@ + ambient_ops(lo, hi, (idx + 1) as nat));
        idx = idx + 1;
    }
}

/// Appends to `plan` the steps that put the descriptors of the child in
/// place.
fn push_fd_ops(plan: &mut Vec<ChildOp>, fds: &Vec<(i32, i32)>)
    ensures
        final(plan)@ == old(plan)@ + fd_ops(fds@, fds@.len()),
{
    let mut i: usize = 0;
    assert(plan@ =~= old(plan)@ + fd_ops(fds@, 0));
    while i < fds.len()
        invariant
            0 <= i <= fds.len(),
            plan@ == old(plan)@ + fd_ops(fds@, i as nat),
        decreases fds.len() - i,
    {
        let (dest_fd, src_fd) = fds[i];
        if src_fd == dest_fd {
            plan.push(ChildOp::ClearCloexec { fd: src_fd });
        } else {
            plan.push(ChildOp::Dup2 { src: src_fd, dst: dest_fd });
        }
        assert(plan@ =~= old(plan)@ + fd_ops(fds@, (i + 1) as nat));
        i = i + 1;
    }
}

/// Appends to `plan` one step for each range to close.
fn push_close_ops(plan: &mut Vec<ChildOp>, ranges: &Vec<(i32, i32)>)
    ensures
        final(plan)@ == old(plan)@ + close_ops(ranges@, ranges@.len()),
{
    let mut i: usize = 0;
    assert(plan@ =~= old(plan)@ + close_ops(ranges@, 0));
    while i < ranges.len()
        invariant
            0 <= i <= ranges.len(),
            plan@ == old(plan)@ + close_ops(ranges@, i as nat),
        decreases ranges.len() - i,
    {
        plan.push(ChildOp::CloseRange { start: ranges[i].0, end: ranges[i].1 });
        assert(plan@ =~= old(plan)@ + close_ops(ranges@, (i + 1) as nat));
        i = i + 1;
    }
}

/// Appends to `plan` the steps that write the id maps.
fn push_id_map_ops(plan: &mut Vec<ChildOp>, info: &ChildInfo)
    ensures
        final(plan)@ == old(plan)@ + id_map_ops(*info),
{
    if info.uid_maps.len() > 0 {
        plan.push(ChildOp::WriteUidMap);
    }
    if info.gid_maps.len() > 0 {
        plan.push(ChildOp::DenySetgroups);
        plan.push(ChildOp::WriteGidMap);
    }
    assert(plan@ =~= old(plan)@ + id_map_ops(*info));
}

/// Appends to `plan` the step that moves the error pipe, where it is due.
fn push_error_pipe_ops(plan: &mut Vec<ChildOp>, info: &ChildInfo)
    ensures
        final(plan)@ == old(plan)@ + error_pipe_ops(*info),
{
    if info.error_pipe < 3 {
        plan.push(ChildOp::MoveErrorPipe);
    }
    assert(plan@ =~= old(plan)@ + error_pipe_ops(*info));
}

/// Appends to `plan` the step that writes the pid into the environment,
/// where it is due.
fn push_pid_env_ops(plan: &mut Vec<ChildOp>, info: &ChildInfo)
    ensures
        final(plan)@ == old(plan)@ + pid_env_ops(*info),
{
    if info.pid_env_vars.len() > 0 {
        plan.push(ChildOp::PatchPidEnv);
    }
    assert(plan@ =~= old(plan)@ + pid_env_ops(*info));
}

/// Appends to `plan` the steps of `pivot_root`.
fn push_pivot_ops(plan: &mut Vec<ChildOp>, info: &ChildInfo)
    ensures
        final(plan)@ == old(plan)@ + pivot_ops(*info),
{
    match &info.pivot {
        Some(p) => {
            plan.push(ChildOp::PivotRoot);
            plan.push(ChildOp::ChdirAfterPivot);
            if p.unmount_old_root {
                plan.push(ChildOp::UnmountOldRoot);
            }
        },
        None => {},
    }
    assert(plan@ =~= old(plan)@ + pivot_ops(*info));
}

/// Appends to `plan` the steps of `chroot`.
fn push_chroot_ops(plan: &mut Vec<ChildOp>, info: &ChildInfo)
    ensures
        final(plan)@ == old(plan)@ + chroot_ops(*info),
{
    match &info.chroot {
        Some(_) => {
            plan.push(ChildOp::Chroot);
            plan.push(ChildOp::ChdirAfterChroot);
        },
        None => {},
    }
    assert(plan@ =~= old(plan)@ + chroot_ops(*info));
}

/// Appends to `plan` the step that makes capabilities survive a change of
/// user, where it is due.
fn push_keep_caps_ops(plan: &mut Vec<ChildOp>, info: &ChildInfo)
    ensures
        final(plan)@ == old(plan)@ + keep_caps_ops(*info),
{
    match info.keep_caps {
        Some(_) => {
            plan.push(ChildOp::KeepCaps);
        },
        None => {},
    }
    assert(plan@ =~= old(plan)@ + keep_caps_ops(*info));
}

/// Appends to `plan` the steps that set group, supplementary groups and
/// user.
fn push_user_ops(plan: &mut Vec<ChildOp>, info: &ChildInfo)
    ensures
        final(plan)@ == old(plan)@ + user_ops(*info),
{
    match info.gid {
        Some(gid) => {
            plan.push(ChildOp::SetGid { gid });
        },
        None => {},
    }
    match &info.supplementary_gids {
        Some(_) => {
            plan.push(ChildOp::SetGroups);
        },
        None => {},
    }
    match info.uid {
        Some(uid) => {
            plan.push(ChildOp::SetUid { uid });
        },
        None => {},
    }
    assert(plan@ =~= old(plan)@ + user_ops(*info));
}

/// Appends to `plan` the steps that install the capabilities to keep.
fn push_caps_ops(plan: &mut Vec<ChildOp>, info: &ChildInfo)
    ensures
        final(plan)@ == old(plan)@ + caps_ops(*info),
{
    match info.keep_caps {
        Some((lo, hi)) => {
            plan.push(ChildOp::CapSet { data: CapsData::uniform(lo, hi) });
            push_ambient_ops(plan, lo, hi);
        },
        None => {},
    }
    assert(plan@ =~= old(plan)@ + caps_ops(*info));
}

/// Appends to `plan` what the child does to its id maps, its namespaces,
/// its root, its user and its capabilities.
fn push_identity(plan: &mut Vec<ChildOp>, info: &ChildInfo)
    ensures
        final(plan)@ == old(plan)@ + plan_identity(*info),
{
    let ghost start = plan@;
    push_id_map_ops(plan, info);
    let ghost base = plan@;
    push_error_pipe_ops(plan, info);
    let ghost acc2 = error_pipe_ops(*info);
    push_setns_ops(plan, &info.setns_namespaces);
    let ghost acc3 = acc2 + setns_ops(info.setns_namespaces@, info.setns_namespaces@.len());
    assert(plan@ =~= base + acc3);
    push_pid_env_ops(plan, info);
    let ghost acc4 = acc3 + pid_env_ops(*info);
    assert(plan@ =~= base + acc4);
    push_pivot_ops(plan, info);
    let ghost acc5 = acc4 + pivot_ops(*info);
    assert(plan@ =~= base + acc5);
    push_chroot_ops(plan, info);
    let ghost acc6 = acc5 + chroot_ops(*info);
    assert(plan@ =~= base + acc6);
    push_keep_caps_ops(plan, info);
    let ghost acc7 = acc6 + keep_caps_ops(*info);
    assert(plan@ =~= base + acc7);
    push_user_ops(plan, info);
    let ghost acc8 = acc7 + user_ops(*info);
    assert(plan@ =~= base + acc8);
    push_caps_ops(plan, info);
    let ghost acc9 = acc8 + caps_ops(*info);
    assert(plan@ =~= base + acc9);
    assert(plan@ =~= start + (id_map_ops(*info) + acc9));
}

/// Appends to `plan` the steps that end the child: signals, callback and
/// `execve`.
fn push_last_ops(plan: &mut Vec<ChildOp>, info: &ChildInfo)
    ensures
        final(plan)@ == old(plan)@ + signal_ops(*info) + pre_exec_ops(*info) + seq![ChildOp::Exec],
{
    if info.restore_sigmask {
        plan.push(ChildOp::ResetSignals);
    }
    if info.pre_exec {
        plan.push(ChildOp::PreExec);
    }
    plan.push(ChildOp::Exec);
    assert(plan@ =~= old(plan)@ + signal_ops(*info) + pre_exec_ops(*info) + seq![ChildOp::Exec]);
}

/// Appends to `plan` what the child does to its working directory, its
/// descriptors and its signals, and how it ends.
fn push_exec(plan: &mut Vec<ChildOp>, info: &ChildInfo)
    ensures
        final(plan)@ == old(plan)@ + plan_exec(*info),
{
    let ghost base = plan@;
    match &info.work_dir {
        Some(_) => {
            plan.push(ChildOp::Chdir);
        },
        None => {},
    }
    let ghost acc1 = chdir_ops(*info);
    assert(plan@ =~= base + acc1);
    push_fd_ops(plan, &info.fds);
    let ghost acc2 = acc1 + fd_ops(info.fds@, info.fds@.len());
    assert(plan@ =~= base + acc2);
    push_close_ops(plan, &info.close_fds);
    let ghost acc3 = acc2 + close_ops(info.close_fds@, info.close_fds@.len());
    assert(plan@ =~= base + acc3);
    push_last_ops(plan, info);
    assert(plan@ =~= base + (acc3 + signal_ops(*info) + pre_exec_ops(*info) + seq![
        ChildOp::Exec,
    ]));
}

/// Works out the steps of the child, in the order in which it makes them.
pub fn child_plan(info: &ChildInfo) -> (r: Vec<ChildOp>)
    ensures
        r@ == spec_child_plan(*info),
{
    let mut plan: Vec<ChildOp> = Vec::new();
    match info.death_sig {
        Some(sig) => {
            plan.push(ChildOp::SetDeathSignal { sig });
        },
        None => {},
    }
    plan.push(ChildOp::AwaitWakeup);
    assert(plan@ =~= plan_until_wakeup(*info));
    push_identity(&mut plan, info);
    push_exec(&mut plan, info);
    plan
}

/// How the child goes on after a step.
#[derive(Debug, Clone, Copy, PartialEq, Eq)]
pub enum Next {
    /// Make the step with this number; the plan is done when there is none.
    Continue { index: usize },
    /// Write this frame to the error pipe and exit with code 127.
    Abort { frame: [u8; 5] },
}

/// What the child does after a read of the wake-up pipe.
#[derive(Debug, Clone, Copy, PartialEq, Eq)]
pub enum WakeupAction {
    /// The parent is ready: go on with the plan.
    Proceed,
    /// Read again.
    Retry,
    /// The parent died before the child was ready: send this signal to
    /// oneself and exit with code 127.
    Die { sig: i32 },
    /// Write this frame to the error pipe and exit with code 127.
    Abort { frame: [u8; 5] },
}

/// The number of the first step from `j` on that does not raise an ambient
/// capability.
pub open spec fn after_ambient(plan: Seq<ChildOp>, j: int) -> int
    decreases plan.len() - j,
{
    if 0 <= j < plan.len() && plan[j] is RaiseAmbient {
        after_ambient(plan, j + 1)
    } else {
        j
    }
}

/// The number of the step that follows step `i` when it has ended with
/// `errno` (`None` for success), or `None` where the child gives up.
///
/// A success leads to the next step. A failure is reported if the step says
/// so. A capability that cannot be raised is passed over; where the reason
/// is that the kernel knows no ambient capabilities, so are the ones after
/// it.
pub open spec fn spec_next_index(plan: Seq<ChildOp>, i: int, errno: Option<i32>) -> Option<int> {
    match errno {
        None => Some(i + 1),
        Some(e) => match plan[i].spec_on_failure() {
            OnFailure::Report(_) => None,
            OnFailure::ReportCallback => None,
            OnFailure::Ignore => Some(i + 1),
            OnFailure::StopRaising => if e == ENOTSUP {
                Some(after_ambient(plan, i + 1))
            } else {
                Some(i + 1)
            },
        },
    }
}

/// The frame that the child sends when step `i` has failed with `errno` and
/// the failure is one to report.
pub open spec fn spec_abort_frame(plan: Seq<ChildOp>, i: int, errno: Option<i32>) -> Option<
    Seq<u8>,
> {
    match errno {
        None => None,
        Some(e) => match plan[i].spec_on_failure() {
            OnFailure::Report(code) => Some(spec_frame(code, e)),
            OnFailure::ReportCallback => Some(spec_frame_of(CALLBACK_KIND, e)),
            _ => None,
        },
    }
}

/// Decides how the child goes on after step `i` of `plan` has ended with
/// `errno`, which is `None` for a success. Nothing is allocated.
pub fn next_step(plan: &[ChildOp], i: usize, errno: Option<i32>) -> (r: Next)
    requires
        i < plan@.len(),
    ensures
        match r {
            Next::Continue { index } => {
                &&& spec_next_index(plan@, i as int, errno) == Some(index as int)
                &&& i < index <= plan@.len()
            },
            Next::Abort { frame } => {
                &&& spec_next_index(plan@, i as int, errno) is None
                &&& spec_abort_frame(plan@, i as int, errno) == Some(frame@)
            },
        },
{
    match errno {
        None => Next::Continue { index: i + 1 },
        Some(e) => match plan[i].on_failure() {
            OnFailure::Report(code) => Next::Abort { frame: encode_frame(code, e) },
            OnFailure::ReportCallback => Next::Abort { frame: encode_callback_frame(e) },
            OnFailure::Ignore => Next::Continue { index: i + 1 },
            OnFailure::StopRaising => {
                if e == ENOTSUP {
                    let mut j: usize = i + 1;
                    while j < plan.len() && is_raise(&plan[j])
                        invariant
                            i < j <= plan@.len(),
                            after_ambient(plan@, i + 1) == after_ambient(plan@, j as int),
                        decreases plan@.len() - j,
                    {
                        j = j + 1;
                    }
                    Next::Continue { index: j }
                } else {
                    Next::Continue { index: i + 1 }
                }
            },
        },
    }
}

/// Whether the step raises an ambient capability.
fn is_raise(op: &ChildOp) -> (r: bool)
    ensures
        r == (*op is RaiseAmbient),
{
    match op {
        ChildOp::RaiseAmbient { .. } => true,
        _ => false,
    }
}

/// The `errno` that is reported for a failed callback: its own, or a fixed
/// number where it has none.
pub fn pre_exec_errno(os_error: Option<i32>) -> (r: i32)
    ensures
        r == (match os_error {
            Some(e) => e,
            None => NO_OS_ERROR,
        }),
{
    match os_error {
        Some(e) => e,
        None => NO_OS_ERROR,
    }
}

/// What the child does after a read of the wake-up pipe that returned `rc`,
/// with `errno` if `rc` is negative.
///
/// A byte from the parent lets the child go on. End of file means that the
/// parent is gone: a child that has a death signal dies by it, another goes
/// on by itself. An interrupted read is made again; any other error is
/// reported as `PipeError`.
pub open spec fn spec_wakeup_action(rc: int, errno: i32, death_sig: Option<i32>) -> (
    WakeupKind,
    Option<Seq<u8>>,
) {
    if rc == 0 {
        match death_sig {
            Some(sig) => (WakeupKind::Die(sig), None),
            None => (WakeupKind::Proceed, None),
        }
    } else if rc < 0 {
        if errno == EINTR || errno == EAGAIN {
            (WakeupKind::Retry, None)
        } else {
            (WakeupKind::Abort, Some(spec_frame(ErrorCode::PipeError, errno)))
        }
    } else {
        (WakeupKind::Proceed, None)
    }
}

/// The kinds of `WakeupAction`.
pub enum WakeupKind {
    Proceed,
    Retry,
    Die(i32),
    Abort,
}

impl WakeupAction {
    /// The kind of the action and, for `Abort`, the bytes of its frame.
    pub open spec fn parts(self) -> (WakeupKind, Option<Seq<u8>>) {
        match self {
            WakeupAction::Proceed => (WakeupKind::Proceed, None),
            WakeupAction::Retry => (WakeupKind::Retry, None),
            WakeupAction::Die { sig } => (WakeupKind::Die(sig), None),
            WakeupAction::Abort { frame } => (WakeupKind::Abort, Some(frame@)),
        }
    }
}

/// Decides what the child does after a read of the wake-up pipe that
/// returned `rc`, with `errno` if `rc` is negative. Nothing is allocated.
pub fn wakeup_action(rc: isize, errno: i32, death_sig: Option<i32>) -> (r: WakeupAction)
    ensures
        r.parts() == spec_wakeup_action(rc as int, errno, death_sig),
{
    if rc == 0 {
        match death_sig {
            Some(sig) => WakeupAction::Die { sig },
            None => WakeupAction::Proceed,
        }
    } else if rc < 0 {
        if errno == EINTR || errno == EAGAIN {
            WakeupAction::Retry
        } else {
            WakeupAction::Abort { frame: encode_frame(ErrorCode::PipeError, errno) }
        }
    } else {
        WakeupAction::Proceed
    }
}

/// Whether the error pipe at descriptor `fd` is in the way of the standard
/// streams and has to be moved.
pub fn error_pipe_in_the_way(fd: i32) -> (r: bool)
    ensures
        r == (fd < 3),
{
    fd < 3
}

/// Whether `fd` is the number of a descriptor of the child in the plan
/// `fds`.
pub open spec fn is_planned(fds: Seq<(i32, i32)>, fd: i32) -> bool {
    exists|i: int| 0 <= i < fds.len() && (#[trigger] fds[i]).0 == fd
}

/// Whether the child, closing a range that holds `fd`, closes `fd`: it does
/// unless `fd` is the number of one of its own descriptors. Nothing is
/// allocated.
pub fn closes(fds: &[(i32, i32)], fd: i32) -> (r: bool)
    ensures
        r == !is_planned(fds@, fd),
{
    let mut i: usize = 0;
    while i < fds.len()
        invariant
            0 <= i <= fds.len(),
            forall|j: int| 0 <= j < i ==> (#[trigger] fds@[j]).0 != fd,
        decreases fds.len() - i,
    {
        if fds[i].0 == fd {
            return false;
        }
        i = i + 1;
    }
    true
}

/// Whether each slot lies in a string of `environ` with room for the
/// longest pid and the NUL after it.
pub open spec fn slots_fit(environ: Seq<Seq<u8>>, slots: Seq<(usize, usize)>) -> bool {
    forall|k: int|
        0 <= k < slots.len() ==> (#[trigger] slots[k]).0 < environ.len() && slots[k].1 + 13
            <= environ[slots[k].0 as int].len()
}

/// Whether no two slots lie in the same string.
pub open spec fn distinct_slots(slots: Seq<(usize, usize)>) -> bool {
    forall|a: int, b: int|
        0 <= a < b < slots.len() ==> (#[trigger] slots[a]).0 != (#[trigger] slots[b]).0
}

/// Whether the string number `j` holds one of the first `n` slots.
pub open spec fn has_slot(slots: Seq<(usize, usize)>, n: int, j: int) -> bool {
    exists|k: int| 0 <= k < n && k < slots.len() && (#[trigger] slots[k]).0 == j
}

/// The string `s` with the numeral of `pid` and a NUL written at `off`.
pub open spec fn with_pid(s: Seq<u8>, off: int, pid: i32) -> Seq<u8> {
    let d = decimal(pid as nat);
    s.subrange(0, off) + d + seq![0u8] + s.subrange(off + d.len() + 1, s.len() as int)
}

/// Whether `after` is `before` with the pid written into the first `n`
/// slots: each string with a slot has the numeral of `pid` and a NUL at the
/// place of the slot and is otherwise as it was, and the strings without a
/// slot are as they were.
pub open spec fn pid_patched(
    before: Seq<Seq<u8>>,
    after: Seq<Seq<u8>>,
    slots: Seq<(usize, usize)>,
    n: int,
    pid: i32,
) -> bool {
    &&& after.len() == before.len()
    &&& forall|k: int|
        0 <= k < n ==> after[(#[trigger] slots[k]).0 as int] == with_pid(
            before[slots[k].0 as int],
            slots[k].1 as int,
            pid,
        )
    &&& forall|j: int|
        0 <= j < before.len() && !has_slot(slots, n, j) ==> (#[trigger] after[j]) == before[j]
}

/// Writes the decimal numeral of `pid` and a NUL at each slot of the
/// environment strings. Nothing is allocated: the digits are worked out in
/// a buffer on the stack.
pub fn patch_pid_env(environ: &mut Vec<Vec<u8>>, slots: &[(usize, usize)], pid: i32)
    requires
        pid >= 0,
        slots_fit(views(old(environ)@), slots@),
        distinct_slots(slots@),
    ensures
        pid_patched(views(old(environ)@), views(final(environ)@), slots@, slots@.len() as int, pid),
{
    let mut buf: [u8; 13] = [0u8; 13];
    proof {
        lemma_decimal_len_u32(pid as nat);
    }
    let data = format_pid_fixed(&mut buf, pid);
    let ghost before = views(environ@);
    let ghost digits = decimal(pid as nat);
    let mut k: usize = 0;
    assert(views(environ@) =~= before);
    while k < slots.len()
        invariant
            0 <= k <= slots.len(),
            data@ == digits.push(0u8),
            digits == decimal(pid as nat),
            1 <= digits.len() <= 10,
            before == views(old(environ)@),
            slots_fit(before, slots@),
            distinct_slots(slots@),
            pid_patched(before, views(environ@), slots@, k as int, pid),
        decreases slots.len() - k,
    {
        let (index, offset) = slots[k];
        let ghost prev = views(environ@);
        assert(!has_slot(slots@, k as int, index as int)) by {
            if has_slot(slots@, k as int, index as int) {
                let a = choose|a: int|
                    0 <= a < k && a < slots@.len() && (#[trigger] slots@[a]).0 == index as int;
                assert(slots@[a].0 != slots@[k as int].0);
            }
        }
        assert(prev[index as int] == before[index as int]);
        let target: &mut Vec<u8> = &mut environ[index];
        let ghost untouched = target@;
        let mut i: usize = 0;
        while i < data.len()
            invariant
                0 <= i <= data.len(),
                data@ == digits.push(0u8),
                target.len() == untouched.len(),
                offset + 13 <= untouched.len(),
                digits.len() <= 10,
                target@ == untouched.subrange(0, offset as int) + data@.subrange(0, i as int)
                    + untouched.subrange(offset + i, untouched.len() as int),
            decreases data.len() - i,
        {
            target[offset + i] = data[i];
            assert(target@ =~= untouched.subrange(0, offset as int) + data@.subrange(0, i + 1)
                + untouched.subrange(offset + i + 1, untouched.len() as int));
            i = i + 1;
        }
        proof {
            assert(data@.subrange(0, data@.len() as int) =~= digits + seq![0u8]);
            assert(target@ =~= with_pid(untouched, offset as int, pid));
        }
        proof {
            let now = views(environ@);
            assert(now.len() == before.len());
            assert forall|a: int| 0 <= a < k + 1 implies now[(#[trigger] slots@[a]).0 as int]
                == with_pid(before[slots@[a].0 as int], slots@[a].1 as int, pid) by {
                if a < k {
                    assert(slots@[a].0 != slots@[k as int].0);
                    assert(now[slots@[a].0 as int] == prev[slots@[a].0 as int]);
                }
            }
            assert forall|j: int|
                0 <= j < before.len() && !has_slot(slots@, k + 1, j) implies (#[trigger] now[j])
                == before[j] by {
                assert(j != index) by {
                    if j == index {
                        assert(slots@[k as int].0 == j);
                    }
                }
                assert(!has_slot(slots@, k as int, j)) by {
                    if has_slot(slots@, k as int, j) {
                        let a = choose|a: int|
                            0 <= a < k && a < slots@.len() && (#[trigger] slots@[a]).0 == j;
                        assert(0 <= a < k + 1 && slots@[a].0 == j);
                    }
                }
                assert(now[j] == prev[j]);
            }
        }
        k = k + 1;
    }
}

/// A program that reads a patched environment string finds the pid in it:
/// where the string held no NUL before the slot, what C code reads from it
/// is what stood before the slot followed by the decimal numeral of the
/// pid.
pub proof fn lemma_pid_in_environment(s: Seq<u8>, off: int, pid: i32)
    requires
        pid >= 0,
        0 <= off,
        off + 13 <= s.len(),
        no_nul(s.subrange(0, off)),
    ensures
        c_value(with_pid(s, off, pid)) == s.subrange(0, off) + decimal(pid as nat),
{
    let d = decimal(pid as nat);
    lemma_decimal_digits(pid as nat);
    let a = s.subrange(0, off) + d;
    let b = s.subrange(off + d.len() + 1, s.len() as int);
    assert forall|i: int| 0 <= i < a.len() implies #[trigger] a[i] != 0u8 by {
        if i < off {
            assert(a[i] == s.subrange(0, off)[i]);
        } else {
            assert(a[i] == d[i - off]);
        }
    }
    lemma_c_value_prefix(a, b);
    assert(with_pid(s, off, pid) =~= a + seq![0u8] + b);
}

/// The path of the uid map of the calling process, `/proc/self/uid_map`,
/// ended by a NUL.
pub const PROC_SELF_UID_MAP: [u8; 19] = [
    47, 112, 114, 111, 99, 47, 115, 101, 108, 102, 47, 117, 105, 100, 95, 109, 97, 112, 0,
];

/// The path of the gid map of the calling process, `/proc/self/gid_map`,
/// ended by a NUL.
pub const PROC_SELF_GID_MAP: [u8; 19] = [
    47, 112, 114, 111, 99, 47, 115, 101, 108, 102, 47, 103, 105, 100, 95, 109, 97, 112, 0,
];

/// The path of the file that says whether the calling process may call
/// `setgroups`, `/proc/self/setgroups`, ended by a NUL.
pub const PROC_SELF_SETGROUPS: [u8; 21] = [
    47, 112, 114, 111, 99, 47, 115, 101, 108, 102, 47, 115, 101, 116, 103, 114, 111, 117, 112, 115, 0,
];

/// The word `deny`, which written to `/proc/self/setgroups` gives up the
/// right to call `setgroups`.
pub const DENY: [u8; 4] = [100, 101, 110, 121];

/// What a step that writes to a file of `/proc/self` writes, and where: the
/// path of the file, ended by a NUL, and the bytes written. The uid map and
/// the gid map are the texts that the parent has packed; `setgroups` gets
/// the word `deny`.
pub open spec fn spec_proc_write(op: ChildOp, info: ChildInfo) -> Option<(Seq<u8>, Seq<u8>)> {
    match op {
        ChildOp::WriteUidMap => Some((PROC_SELF_UID_MAP@, info.uid_maps@)),
        ChildOp::DenySetgroups => Some((PROC_SELF_SETGROUPS@, DENY@)),
        ChildOp::WriteGidMap => Some((PROC_SELF_GID_MAP@, info.gid_maps@)),
        _ => None,
    }
}

/// The file that the step `op` writes and the bytes that it writes there, if
/// it is one of the steps that write to a file of `/proc/self`; see
/// `spec_proc_write`. Nothing is allocated.
pub fn proc_write<'a>(op: ChildOp, info: &'a ChildInfo) -> (r: Option<(&'a [u8], &'a [u8])>)
    ensures
        match r {
            Some((path, data)) => spec_proc_write(op, *info) == Some((path@, data@)),
            None => spec_proc_write(op, *info) is None,
        },
{
    match op {
        ChildOp::WriteUidMap => {
            let path: &[u8] = &PROC_SELF_UID_MAP;
            Some((path, info.uid_maps.as_slice()))
        },
        ChildOp::DenySetgroups => {
            let path: &[u8] = &PROC_SELF_SETGROUPS;
            let data: &[u8] = &DENY;
            Some((path, data))
        },
        ChildOp::WriteGidMap => {
            let path: &[u8] = &PROC_SELF_GID_MAP;
            Some((path, info.gid_maps.as_slice()))
        },
        _ => None,
    }
}

/// The walk over a range of descriptors to close: the first descriptor from
/// `from` up to but without `end` that the child closes, which is the first
/// that is none of its own; `None` when there is none left. The child closes
/// it and goes on from the one after it. Nothing is allocated.
pub fn next_to_close(fds: &[(i32, i32)], from: i32, end: i32) -> (r: Option<i32>)
    ensures
        match r {
            Some(fd) => {
                &&& from <= fd < end
                &&& !is_planned(fds@, fd)
                &&& forall|x: i32| from <= x < fd ==> is_planned(fds@, x)
            },
            None => forall|x: i32| from <= x < end ==> is_planned(fds@, x),
        },
{
    let mut fd: i32 = from;
    while fd < end
        invariant
            from <= fd,
            forall|x: i32| from <= x < fd ==> is_planned(fds@, x),
        decreases end - fd,
    {
        if closes(fds, fd) {
            return Some(fd);
        }
        fd = fd + 1;
    }
    None
}

} // verus!
