//! The spawn pipeline of the parent: packing what the child reads, the flags
//! for `clone`, and the steps between `clone` and the answer of the child.
use vstd::prelude::*;
use crate::child::{distinct_slots, slots_fit, ChildInfo};
use crate::chroot::{option_view, Chroot, Pivot};
use crate::command::Command;
use crate::config::{Config, SIGKILL};
use crate::decimal::{decimal, lemma_decimal_digits, push_decimal};
use crate::environ::Environ;
use crate::errno::EINTR;
use crate::error::{
    decode_frame, result, spec_decode_frame, Error, ErrorCode, IntoError, SysError,
};
use crate::ffi_util::{copy_bytes, no_nul, views};
use crate::idmap::{helper_args, id_map_text, map_text, spec_helper_args, IdMapRow};
use crate::namespace::{Namespace, SIGCHLD};
use crate::pipe::{PipeReader, PipeWriter};
use crate::stdio::Closing;
use crate::sys::{
    signal_from_number, sys_kill, sys_read, sys_setpgid, sys_waitpid, sys_write, wait_event,
};
use crate::wait::{WaitEvent, RETRY_LIMIT};

verus! {

/// The byte `=`.
pub const EQUALS: u8 = 61;

/// The byte that fills the room kept for a pid: the digit zero.
pub const PID_FILL: u8 = 48;

/// The environment string of the variable `k` with the value `v`.
pub open spec fn env_entry(k: Seq<u8>, v: Seq<u8>) -> Seq<u8> {
    k + seq![EQUALS] + v + seq![0u8]
}

/// The environment string of a variable that gets the pid of the child: the
/// name, `=`, room for twelve digits, and a NUL.
pub open spec fn pid_entry(name: Seq<u8>) -> Seq<u8> {
    name + seq![EQUALS] + Seq::new(12, |i: int| PID_FILL) + seq![0u8]
}

/// The environment strings of the first `n` of `vars`, without those whose
/// name is among `pid_names`: these get the pid instead.
pub open spec fn env_strings(vars: Seq<(Vec<u8>, Vec<u8>)>, pid_names: Seq<Seq<u8>>, n: nat) -> Seq<
    Seq<u8>,
>
    decreases n,
{
    if n == 0 || n > vars.len() {
        Seq::empty()
    } else {
        let before = env_strings(vars, pid_names, (n - 1) as nat);
        if pid_names.contains(vars[n - 1].0@) {
            before
        } else {
            before.push(env_entry(vars[n - 1].0@, vars[n - 1].1@))
        }
    }
}

/// The environment strings of the first `n` variables that get the pid.
pub open spec fn pid_strings(names: Seq<Seq<u8>>, n: nat) -> Seq<Seq<u8>>
    decreases n,
{
    if n == 0 || n > names.len() {
        Seq::empty()
    } else {
        pid_strings(names, (n - 1) as nat).push(pid_entry(names[n - 1]))
    }
}

/// Where the pid goes for the first `n` variables that get it, when their
/// strings follow `base` others: the number of each string, and the place
/// after its `=`.
pub open spec fn pid_slots(base: nat, names: Seq<Seq<u8>>, n: nat) -> Seq<(usize, usize)>
    decreases n,
{
    if n == 0 || n > names.len() {
        Seq::empty()
    } else {
        pid_slots(base, names, (n - 1) as nat).push(
            ((base + n - 1) as usize, (names[n - 1].len() + 1) as usize),
        )
    }
}

/// The clone flag and the descriptor of each of the first `n` namespaces to
/// join.
pub open spec fn setns_list(list: Seq<(Namespace, Closing)>, n: nat) -> Seq<(u32, i32)>
    decreases n,
{
    if n == 0 || n > list.len() {
        Seq::empty()
    } else {
        setns_list(list, (n - 1) as nat).push((list[n - 1].0.spec_flag(), list[n - 1].1.fd))
    }
}

/// The text that the child writes to its uid map: that of the rows, where
/// there are id maps and no helper commands to write them; else none.
pub open spec fn child_uid_text(cmd: Command) -> Seq<u8> {
    match (cmd.config.id_maps, cmd.id_map_commands) {
        (Some((uids, _)), None) => map_text(uids@, uids@.len()),
        _ => Seq::empty(),
    }
}

/// The text that the child writes to its gid map: that of the rows, where
/// there are id maps and no helper commands to write them; else none.
pub open spec fn child_gid_text(cmd: Command) -> Seq<u8> {
    match (cmd.config.id_maps, cmd.id_map_commands) {
        (Some((_, gids)), None) => map_text(gids@, gids@.len()),
        _ => Seq::empty(),
    }
}

/// The new root of the `pivot_root` of a command, if it makes one.
pub open spec fn pivot_new_root(cmd: Command) -> Option<Seq<u8>> {
    match cmd.pivot_root {
        Some((new_root, _, _)) => Some(new_root@),
        None => None,
    }
}

/// The flags with which the child is cloned: those of the namespaces that
/// it leaves, and the signal that tells the parent of its end.
pub fn clone_flags(cfg: &Config) -> (r: u32)
    ensures
        r == cfg.namespaces | SIGCHLD,
{
    cfg.namespaces | SIGCHLD
}

impl Command {
    /// Whether `info` is what the child of this command reads, when the
    /// environment of the parent is `inherited`, the planner has found the
    /// sources `fds`, the parent is in the directory `cwd`, the child reads
    /// its wake-up from `wakeup_pipe` and reports to `error_pipe`, and
    /// `pre_exec` says whether a callback runs before `execve`.
    pub open spec fn packs(
        self,
        inherited: Environ,
        fds: Seq<(i32, i32)>,
        cwd: Option<Seq<u8>>,
        wakeup_pipe: i32,
        error_pipe: i32,
        pre_exec: bool,
        info: ChildInfo,
    ) -> bool {
        let vars = self.env_base(inherited).vars@;
        let names = views(self.pid_env_vars@);
        let strings = env_strings(vars, names, vars.len());
        &&& info.filename@ == self.filename@
        &&& views(info.args@) == views(self.args@)
        &&& views(info.environ@) == strings + pid_strings(names, names.len())
        &&& info.pid_env_vars@ == pid_slots(strings.len(), names, names.len())
        &&& info.death_sig == self.config.death_sig
        &&& option_view(info.work_dir) == option_view(self.config.work_dir)
        &&& info.uid == self.config.uid
        &&& info.gid == self.config.gid
        &&& match (info.supplementary_gids, self.config.supplementary_gids) {
            (Some(a), Some(b)) => a@ == b@,
            (None, None) => true,
            _ => false,
        }
        &&& info.restore_sigmask == self.config.restore_sigmask
        &&& match (info.pivot, self.pivot_root) {
            (Some(p), Some((new_root, put_old, unmount))) => Pivot::spec_resolve(
                new_root@,
                put_old@,
                unmount,
                cwd,
                p,
            ),
            (None, None) => true,
            _ => false,
        }
        &&& match (info.chroot, self.chroot_dir) {
            (Some(c), Some(dir)) => Chroot::spec_resolve(dir@, pivot_new_root(self), cwd, c),
            (None, None) => true,
            _ => false,
        }
        &&& info.wakeup_pipe == wakeup_pipe
        &&& info.error_pipe == error_pipe
        &&& info.fds@ == fds
        &&& info.close_fds@ == self.close_fds@
        &&& info.setns_namespaces@ == setns_list(
            self.config.setns_namespaces@,
            self.config.setns_namespaces@.len(),
        )
        &&& info.uid_maps@ == child_uid_text(self)
        &&& info.gid_maps@ == child_gid_text(self)
        &&& info.keep_caps == self.keep_caps
        &&& info.pre_exec == pre_exec
    }

    /// Packs what the child reads; see `packs`. Every string that the child
    /// hands to the kernel ends in a NUL, and the places kept for the pid lie
    /// within their strings, each in a string of its own.
    pub fn child_info(
        &self,
        inherited: &Environ,
        fds: Vec<(i32, i32)>,
        cwd: &Option<Vec<u8>>,
        wakeup_pipe: i32,
        error_pipe: i32,
        pre_exec: bool,
    ) -> (info: ChildInfo)
        requires
            self.wf(),
            inherited.wf(),
            cwd matches Some(c) ==> no_nul(c@),
        ensures
            self.packs(*inherited, fds@, option_view(*cwd), wakeup_pipe, error_pipe, pre_exec, info),
            slots_fit(views(info.environ@), info.pid_env_vars@),
            distinct_slots(info.pid_env_vars@),
    {
        let env = match &self.environ {
            Some(e) => e,
            None => inherited,
        };
        let (environ, pid_env_vars) = pack_environ(env, &self.pid_env_vars);
        let (uid_maps, gid_maps) = match (&self.config.id_maps, &self.id_map_commands) {
            (Some((uids, gids)), None) => (id_map_text(uids), id_map_text(gids)),
            _ => (Vec::new(), Vec::new()),
        };
        let pivot = match &self.pivot_root {
            Some((new_root, put_old, unmount)) => Some(
                Pivot::resolve(new_root.as_slice(), put_old.as_slice(), *unmount, cwd),
            ),
            None => None,
        };
        let chroot = match &self.chroot_dir {
            Some(dir) => {
                let root: Option<Vec<u8>> = match &self.pivot_root {
                    Some((new_root, _, _)) => Some(copy_bytes(new_root.as_slice())),
                    None => None,
                };
                Some(Chroot::resolve(dir.as_slice(), &root, cwd))
            },
            None => None,
        };
        let work_dir = match &self.config.work_dir {
            Some(d) => Some(copy_bytes(d.as_slice())),
            None => None,
        };
        let supplementary_gids = match &self.config.supplementary_gids {
            Some(g) => Some(copy_ids(g)),
            None => None,
        };
        ChildInfo {
            filename: copy_bytes(self.filename.as_slice()),
            args: copy_strings(&self.args),
            environ,
            death_sig: self.config.death_sig,
            work_dir,
            uid: self.config.uid,
            gid: self.config.gid,
            supplementary_gids,
            restore_sigmask: self.config.restore_sigmask,
            chroot,
            pivot,
            wakeup_pipe,
            error_pipe,
            fds,
            close_fds: copy_pairs(&self.close_fds),
            setns_namespaces: pack_setns(&self.config.setns_namespaces),
            uid_maps,
            gid_maps,
            pid_env_vars,
            keep_caps: self.keep_caps,
            pre_exec,
        }
    }
}

/// A copy of each string of `v`.
fn copy_strings(v: &Vec<Vec<u8>>) -> (r: Vec<Vec<u8>>)
    ensures
        views(r@) == views(v@),
{
    let mut out: Vec<Vec<u8>> = Vec::new();
    let mut i: usize = 0;
    while i < v.len()
        invariant
            0 <= i <= v.len(),
            views(out@) == views(v@).subrange(0, i as int),
        decreases v.len() - i,
    {
        let ghost before = views(out@);
        out.push(copy_bytes(v[i].as_slice()));
        assert(views(out@) =~= before.push(v@[i as int]@));
        assert(views(v@).subrange(0, i + 1) =~= views(v@).subrange(0, i as int).push(
            v@[i as int]@,
        ));
        i = i + 1;
    }
    assert(views(v@).subrange(0, v@.len() as int) =~= views(v@));
    out
}

/// A copy of `v`.
fn copy_ids(v: &Vec<u32>) -> (r: Vec<u32>)
    ensures
        r@ == v@,
{
    let mut out: Vec<u32> = Vec::new();
    let mut i: usize = 0;
    while i < v.len()
        invariant
            0 <= i <= v.len(),
            out@ == v@.subrange(0, i as int),
        decreases v.len() - i,
    {
        out.push(v[i]);
        assert(out@ =~= v@.subrange(0, i + 1));
        i = i + 1;
    }
    assert(v@.subrange(0, v@.len() as int) =~= v@);
    out
}

/// A copy of `v`.
fn copy_pairs(v: &Vec<(i32, i32)>) -> (r: Vec<(i32, i32)>)
    ensures
        r@ == v@,
{
    let mut out: Vec<(i32, i32)> = Vec::new();
    let mut i: usize = 0;
    while i < v.len()
        invariant
            0 <= i <= v.len(),
            out@ == v@.subrange(0, i as int),
        decreases v.len() - i,
    {
        out.push(v[i]);
        assert(out@ =~= v@.subrange(0, i + 1));
        i = i + 1;
    }
    assert(v@.subrange(0, v@.len() as int) =~= v@);
    out
}

/// The clone flag and the descriptor of each namespace to join.
fn pack_setns(list: &Vec<(Namespace, Closing)>) -> (r: Vec<(u32, i32)>)
    ensures
        r@ == setns_list(list@, list@.len()),
{
    let mut out: Vec<(u32, i32)> = Vec::new();
    let mut i: usize = 0;
    while i < list.len()
        invariant
            0 <= i <= list.len(),
            out@ == setns_list(list@, i as nat),
        decreases list.len() - i,
    {
        out.push((list[i].0.to_clone_flag(), list[i].1.as_raw_fd()));
        i = i + 1;
    }
    out
}

/// Whether `key` is one of `names`.
fn is_pid_name(names: &Vec<Vec<u8>>, key: &[u8]) -> (r: bool)
    ensures
        r == views(names@).contains(key@),
{
    crate::command::contains_name(names, key)
}

/// The environment strings of the child and the places in them where the
/// pid goes: first the variables of `env` that do not get the pid, then one
/// string with room for the pid for each name of `pid_names`.
fn pack_environ(env: &Environ, pid_names: &Vec<Vec<u8>>) -> (r: (Vec<Vec<u8>>, Vec<(usize, usize)>))
    requires
        crate::command::distinct_names(pid_names@),
    ensures
        ({
            let strings = env_strings(env.vars@, views(pid_names@), env.vars@.len());
            &&& views(r.0@) == strings + pid_strings(views(pid_names@), pid_names@.len())
            &&& r.1@ == pid_slots(strings.len(), views(pid_names@), pid_names@.len())
        }),
        slots_fit(views(r.0@), r.1@),
        distinct_slots(r.1@),
{
    let mut environ: Vec<Vec<u8>> = Vec::new();
    let ghost names = views(pid_names@);
    let mut i: usize = 0;
    assert(views(environ@) =~= env_strings(env.vars@, names, 0));
    while i < env.vars.len()
        invariant
            0 <= i <= env.vars.len(),
            names == views(pid_names@),
            views(environ@) == env_strings(env.vars@, names, i as nat),
        decreases env.vars.len() - i,
    {
        if !is_pid_name(pid_names, env.vars[i].0.as_slice()) {
            let mut pair = copy_bytes(env.vars[i].0.as_slice());
            pair.push(EQUALS);
            let v = &env.vars[i].1;
            let ghost head = pair@;
            let mut k: usize = 0;
            while k < v.len()
                invariant
                    0 <= k <= v.len(),
                    pair@ == head + v@.subrange(0, k as int),
                decreases v.len() - k,
            {
                pair.push(v[k]);
                assert(pair@ =~= head + v@.subrange(0, k + 1));
                k = k + 1;
            }
            pair.push(0u8);
            proof {
                assert(v@.subrange(0, v@.len() as int) =~= v@);
                assert(pair@ =~= env_entry(env.vars@[i as int].0@, env.vars@[i as int].1@));
            }
            let ghost before = views(environ@);
            environ.push(pair);
            assert(views(environ@) =~= before.push(
                env_entry(env.vars@[i as int].0@, env.vars@[i as int].1@),
            ));
        }
        i = i + 1;
    }
    let ghost strings = views(environ@);
    let base = environ.len();
    let mut slots: Vec<(usize, usize)> = Vec::new();
    let mut j: usize = 0;
    assert(views(environ@) =~= strings + pid_strings(names, 0));
    while j < pid_names.len()
        invariant
            0 <= j <= pid_names.len(),
            names == views(pid_names@),
            base == strings.len(),
            environ@.len() == base + j,
            views(environ@) == strings + pid_strings(names, j as nat),
            slots@ == pid_slots(strings.len(), names, j as nat),
            slots@.len() == j,
            forall|k: int| 0 <= k < j ==> (#[trigger] slots@[k]).0 == base + k,
            slots_fit(views(environ@), slots@),
        decreases pid_names.len() - j,
    {
        let name = &pid_names[j];
        let mut pair = copy_bytes(name.as_slice());
        pair.push(EQUALS);
        let offset = pair.len();
        let ghost head = pair@;
        let mut k: usize = 0;
        while k < 12
            invariant
                0 <= k <= 12,
                pair@ == head + Seq::new(k as nat, |i: int| PID_FILL),
            decreases 12 - k,
        {
            pair.push(PID_FILL);
            assert(pair@ =~= head + Seq::new((k + 1) as nat, |i: int| PID_FILL));
            k = k + 1;
        }
        pair.push(0u8);
        assert(pair@ =~= pid_entry(name@));
        let index = environ.len();
        let ghost before = views(environ@);
        let ghost slots_before = slots@;
        environ.push(pair);
        slots.push((index, offset));
        proof {
            assert(names[j as int] == name@);
            assert(views(environ@) =~= before.push(pid_entry(name@)));
            assert(views(environ@) =~= strings + pid_strings(names, (j + 1) as nat));
            assert(slots@ =~= pid_slots(strings.len(), names, (j + 1) as nat));
            assert forall|k: int| 0 <= k < slots@.len() implies (#[trigger] slots@[k]).0 < views(
                environ@,
            ).len() && slots@[k].1 + 13 <= views(environ@)[slots@[k].0 as int].len() by {
                if k < j {
                    assert(slots@[k] == slots_before[k]);
                    assert(views(environ@)[slots@[k].0 as int] == before[slots@[k].0 as int]);
                }
            }
        }
        j = j + 1;
    }
    (environ, slots)
}

/// One step of the parent between `clone` and the answer of the child.
#[derive(Debug, Clone, Copy, PartialEq, Eq, Structural)]
pub enum ParentOp {
    /// `setpgid(child, child)`.
    SetPgid,
    /// Run the helper that writes the uid map and wait for it.
    RunUidHelper,
    /// Run the helper that writes the gid map and wait for it.
    RunGidHelper,
    /// Write the uid map to `/proc/<pid>/uid_map`.
    WriteUidMap,
    /// Write the gid map to `/proc/<pid>/gid_map`.
    WriteGidMap,
    /// Call the callback of the caller with the pid of the child.
    BeforeUnfreeze,
    /// Write one byte to the wake-up pipe.
    Wakeup,
    /// Read the error pipe and judge what the child has sent.
    ReadError,
}

impl ParentOp {
    /// The kind of error that a failure of the step itself gives; the
    /// callback brings its own error.
    pub open spec fn spec_error_code(self) -> Option<ErrorCode> {
        match self {
            ParentOp::SetPgid => Some(ErrorCode::SetPGid),
            ParentOp::RunUidHelper => Some(ErrorCode::SetIdMap),
            ParentOp::RunGidHelper => Some(ErrorCode::SetIdMap),
            ParentOp::WriteUidMap => Some(ErrorCode::SetIdMap),
            ParentOp::WriteGidMap => Some(ErrorCode::SetIdMap),
            ParentOp::BeforeUnfreeze => None,
            ParentOp::Wakeup => Some(ErrorCode::PipeError),
            ParentOp::ReadError => Some(ErrorCode::PipeError),
        }
    }

    /// The kind of error that a failure of the step itself gives; the
    /// callback brings its own error.
    pub fn error_code(self) -> (r: Option<ErrorCode>)
        ensures
            r == self.spec_error_code(),
    {
        match self {
            ParentOp::SetPgid => Some(ErrorCode::SetPGid),
            ParentOp::RunUidHelper => Some(ErrorCode::SetIdMap),
            ParentOp::RunGidHelper => Some(ErrorCode::SetIdMap),
            ParentOp::WriteUidMap => Some(ErrorCode::SetIdMap),
            ParentOp::WriteGidMap => Some(ErrorCode::SetIdMap),
            ParentOp::BeforeUnfreeze => None,
            ParentOp::Wakeup => Some(ErrorCode::PipeError),
            ParentOp::ReadError => Some(ErrorCode::PipeError),
        }
    }
}

/// The step that makes the child a group leader, where that is asked for.
pub open spec fn group_ops(cmd: Command) -> Seq<ParentOp> {
    if cmd.config.make_group_leader {
        seq![ParentOp::SetPgid]
    } else {
        Seq::empty()
    }
}

/// The steps that set the id maps, where there are any: with the helper
/// commands if the command names them, else by writing the map files.
pub open spec fn parent_id_map_ops(cmd: Command) -> Seq<ParentOp> {
    match cmd.config.id_maps {
        Some(_) => match cmd.id_map_commands {
            Some(_) => seq![ParentOp::RunUidHelper, ParentOp::RunGidHelper],
            None => seq![ParentOp::WriteUidMap, ParentOp::WriteGidMap],
        },
        None => Seq::empty(),
    }
}

/// The step that calls the callback of the caller, where there is one.
pub open spec fn callback_ops(before_unfreeze: bool) -> Seq<ParentOp> {
    if before_unfreeze {
        seq![ParentOp::BeforeUnfreeze]
    } else {
        Seq::empty()
    }
}

/// The steps of the parent after `clone`, in order: the process group, the
/// id maps, the callback, the wake-up of the child, and the reading of its
/// answer.
pub open spec fn spec_parent_plan(cmd: Command, before_unfreeze: bool) -> Seq<ParentOp> {
    group_ops(cmd) + parent_id_map_ops(cmd) + callback_ops(before_unfreeze) + seq![
        ParentOp::Wakeup,
        ParentOp::ReadError,
    ]
}

/// Works out the steps of the parent after `clone`; `before_unfreeze` says
/// whether the caller has a callback to run before the child is woken up.
/// A step that fails ends the spawn: the child is killed and reaped, and the
/// error of the step is returned.
pub fn parent_plan(cmd: &Command, before_unfreeze: bool) -> (r: Vec<ParentOp>)
    ensures
        r@ == spec_parent_plan(*cmd, before_unfreeze),
{
    let mut plan: Vec<ParentOp> = Vec::new();
    if cmd.config.make_group_leader {
        plan.push(ParentOp::SetPgid);
    }
    assert(plan@ =~= group_ops(*cmd));
    match &cmd.config.id_maps {
        Some(_) => match &cmd.id_map_commands {
            Some(_) => {
                plan.push(ParentOp::RunUidHelper);
                plan.push(ParentOp::RunGidHelper);
            },
            None => {
                plan.push(ParentOp::WriteUidMap);
                plan.push(ParentOp::WriteGidMap);
            },
        },
        None => {},
    }
    assert(plan@ =~= group_ops(*cmd) + parent_id_map_ops(*cmd));
    if before_unfreeze {
        plan.push(ParentOp::BeforeUnfreeze);
    }
    assert(plan@ =~= group_ops(*cmd) + parent_id_map_ops(*cmd) + callback_ops(before_unfreeze));
    plan.push(ParentOp::Wakeup);
    plan.push(ParentOp::ReadError);
    assert(plan@ =~= spec_parent_plan(*cmd, before_unfreeze));
    plan
}

/// The parent wakes the child only when everything else is done, and reads
/// the answer of the child last: the wake-up is the last step but one, the
/// callback comes just before it, and every step before the callback sets
/// the process group or the id maps.
pub proof fn lemma_parent_order(cmd: Command, before_unfreeze: bool)
    ensures
        ({
            let plan = spec_parent_plan(cmd, before_unfreeze);
            let n = plan.len() as int;
            &&& n >= 2
            &&& plan[n - 1] == ParentOp::ReadError
            &&& plan[n - 2] == ParentOp::Wakeup
            &&& before_unfreeze ==> n >= 3 && plan[n - 3] == ParentOp::BeforeUnfreeze
            &&& forall|i: int|
                0 <= i < n - 2 - callback_ops(before_unfreeze).len() ==> (#[trigger] plan[i])
                    != ParentOp::Wakeup && plan[i] != ParentOp::ReadError && plan[i]
                    != ParentOp::BeforeUnfreeze
        }),
{
    let plan = spec_parent_plan(cmd, before_unfreeze);
    let a = group_ops(cmd);
    let b = parent_id_map_ops(cmd);
    let c = callback_ops(before_unfreeze);
    let n = plan.len() as int;
    assert(n == a.len() + b.len() + c.len() + 2);
    assert forall|i: int| 0 <= i < n - 2 - c.len() implies (#[trigger] plan[i])
        != ParentOp::Wakeup && plan[i] != ParentOp::ReadError && plan[i]
        != ParentOp::BeforeUnfreeze by {
        if i < a.len() {
            assert(plan[i] == a[i]);
        } else {
            assert(plan[i] == b[i - a.len()]);
        }
    }
}

/// The bytes `/proc/`.
pub const PROC_DIR: [u8; 6] = [47, 112, 114, 111, 99, 47];

/// The bytes `/uid_map`.
pub const UID_MAP_FILE: [u8; 8] = [47, 117, 105, 100, 95, 109, 97, 112];

/// The bytes `/gid_map`.
pub const GID_MAP_FILE: [u8; 8] = [47, 103, 105, 100, 95, 109, 97, 112];

/// The path of a map file of the process `pid`: `/proc/`, the pid in
/// decimal, and the name of the file.
pub open spec fn spec_map_path(pid: i32, file: Seq<u8>) -> Seq<u8> {
    PROC_DIR@ + decimal(pid as nat) + file
}

/// The path of the uid map (`gid` false) or the gid map (`gid` true) of the
/// process `pid`.
pub fn map_path(pid: i32, gid: bool) -> (r: Vec<u8>)
    requires
        pid >= 0,
    ensures
        r@ == spec_map_path(
            pid,
            if gid {
                GID_MAP_FILE@
            } else {
                UID_MAP_FILE@
            },
        ),
{
    let mut out: Vec<u8> = Vec::new();
    let mut i: usize = 0;
    while i < 6
        invariant
            0 <= i <= 6,
            out@ == PROC_DIR@.subrange(0, i as int),
        decreases 6 - i,
    {
        out.push(PROC_DIR[i]);
        assert(out@ =~= PROC_DIR@.subrange(0, i + 1));
        i = i + 1;
    }
    assert(PROC_DIR@.subrange(0, 6) =~= PROC_DIR@);
    push_decimal(&mut out, pid as u64);
    let ghost head = out@;
    let file = if gid {
        GID_MAP_FILE
    } else {
        UID_MAP_FILE
    };
    let mut k: usize = 0;
    while k < 8
        invariant
            0 <= k <= 8,
            out@ == head + file@.subrange(0, k as int),
        decreases 8 - k,
    {
        out.push(file[k]);
        assert(out@ =~= head + file@.subrange(0, k + 1));
        k = k + 1;
    }
    assert(file@.subrange(0, 8) =~= file@);
    out
}

/// The arguments of a helper command: its own path, then the pid of the
/// child and the rows of the map, each string ended by a NUL.
pub open spec fn spec_helper_command_args<M: IdMapRow>(path: Seq<u8>, pid: i32, rows: Seq<M>)
    -> Seq<Seq<u8>> {
    let plain = seq![path] + spec_helper_args(pid, rows);
    Seq::new(plain.len(), |i: int| plain[i].push(0u8))
}

/// The command that runs the helper at `path` for the child `pid` with the
/// rows `rows`: the arguments are the path of the helper, the pid, and
/// inside id, outside id and count of each row, all in decimal. The rest is
/// as in a new command.
pub fn helper_command<M: IdMapRow>(path: &[u8], pid: i32, rows: &Vec<M>) -> (r: Command)
    requires
        pid >= 0,
        no_nul(path@),
    ensures
        r.wf(),
        r.is_plain(path@),
        views(r.args@) == spec_helper_command_args(path@, pid, rows@),
{
    let mut cmd = Command::new(path);
    let args = helper_args(pid, rows);
    let ghost plain = spec_helper_args(pid, rows@);
    let ghost first = views(cmd.args@);
    let mut i: usize = 0;
    assert(views(cmd.args@) =~= first + Seq::new(0, |j: int| plain[j].push(0u8)));
    while i < args.len()
        invariant
            0 <= i <= args.len(),
            views(args@) == plain,
            plain == spec_helper_args(pid, rows@),
            pid >= 0,
            cmd.wf(),
            cmd.is_plain(path@),
            first == seq![path@.push(0u8)],
            views(cmd.args@) == first + Seq::new(i as nat, |j: int| plain[j].push(0u8)),
        decreases args.len() - i,
    {
        proof {
            lemma_helper_args_no_nul(pid, rows@, i as int);
            assert(views(args@)[i as int] == args@[i as int]@);
        }
        cmd.arg(args[i].as_slice());
        assert(views(cmd.args@) =~= first + Seq::new((i + 1) as nat, |j: int| plain[j].push(0u8)));
        i = i + 1;
    }
    proof {
        let whole = seq![path@] + plain;
        assert(views(cmd.args@) =~= Seq::new(whole.len(), |j: int| whole[j].push(0u8)));
    }
    cmd
}

/// The arguments of a helper command are numerals and hold no NUL.
pub proof fn lemma_helper_args_no_nul<M: IdMapRow>(pid: i32, rows: Seq<M>, i: int)
    requires
        pid >= 0,
        0 <= i < spec_helper_args(pid, rows).len(),
    ensures
        no_nul(spec_helper_args(pid, rows)[i]),
{
    lemma_decimal_digits(pid as nat);
    lemma_rows_args_no_nul(rows, rows.len(), i - 1);
}

/// The arguments made of the rows of a map are numerals and hold no NUL.
pub proof fn lemma_rows_args_no_nul<M: IdMapRow>(rows: Seq<M>, n: nat, i: int)
    requires
        n <= rows.len(),
    ensures
        0 <= i < crate::idmap::rows_args(rows, n).len() ==> no_nul(
            crate::idmap::rows_args(rows, n)[i],
        ),
    decreases n,
{
    if n > 0 {
        lemma_rows_args_no_nul(rows, (n - 1) as nat, i);
        let r = rows[n - 1].spec_row();
        lemma_decimal_digits(r.inside as nat);
        lemma_decimal_digits(r.outside as nat);
        lemma_decimal_digits(r.count as nat);
    }
}

/// Whether the child of a failed spawn is done with once `waitpid` has had
/// this outcome: it is, whatever the outcome, unless the call was
/// interrupted.
pub open spec fn spec_reaped(outcome: Result<WaitEvent, SysError>) -> bool {
    outcome != Err::<WaitEvent, SysError>(SysError::Sys(EINTR))
}

/// Whether the child of a failed spawn is done with once `waitpid` has had
/// this outcome.
pub fn reaped(outcome: Result<WaitEvent, SysError>) -> (r: bool)
    ensures
        r == spec_reaped(outcome),
{
    match outcome {
        Err(SysError::Sys(errno)) => errno != EINTR,
        _ => true,
    }
}

/// Kills the child of a spawn that has failed after `clone`. Whether the
/// signal could be sent makes no difference to what follows.
pub fn kill_child(pid: i32) {
    match signal_from_number(SIGKILL) {
        Some(signal) => {
            let _ = sys_kill(pid, signal);
        },
        None => {},
    }
}

/// One round of reaping the child of a failed spawn: `waitpid` is called
/// once for the child, and the answer says whether the child is done with.
/// The caller repeats the call for as long as the answer is `false`.
pub fn reap_once(pid: i32) -> (r: bool)
    ensures
        exists|outcome: Result<WaitEvent, SysError>| r == spec_reaped(outcome),
{
    let outcome = match sys_waitpid(pid, 0) {
        Ok(status) => Ok(wait_event(status)),
        Err(e) => Err(e),
    };
    reaped(outcome)
}

/// How the wake-up of the child goes on after a call of `write`.
#[derive(Debug, PartialEq, Eq)]
pub enum WakeStep {
    /// The wake-up is over, with this result.
    Done(Result<(), Error>),
    /// The call was interrupted: call again.
    Again,
}

/// What the parent makes of the outcome of `setpgid`: a failure is an error
/// of kind `SetPGid`.
pub open spec fn spec_group_result(r: Result<(), SysError>) -> Result<(), Error> {
    match r {
        Ok(()) => Ok(()),
        Err(e) => Err(e.spec_into_error(ErrorCode::SetPGid)),
    }
}

/// What the parent makes of the outcome of writing the wake-up byte: the
/// byte is written, or the write is made again if it was interrupted, or the
/// wake-up has failed with an error of kind `PipeError`, which has no `errno`
/// where the pipe has taken no byte.
pub open spec fn spec_wake_step(r: Result<usize, SysError>) -> WakeStep {
    match r {
        Ok(n) => if n == 0 {
            WakeStep::Done(Err(Error::PipeError(-1i32)))
        } else {
            WakeStep::Done(Ok(()))
        },
        Err(SysError::Sys(errno)) => if errno == EINTR {
            WakeStep::Again
        } else {
            WakeStep::Done(Err(Error::PipeError(errno)))
        },
        Err(_) => WakeStep::Done(Err(Error::NixError)),
    }
}

/// What the parent makes of the outcome of reading the error pipe into
/// `buf`: a failed read is an error of kind `PipeError`; no byte means that
/// the child runs the program; five bytes are the error that the child
/// reports; anything else is an unknown error.
pub open spec fn spec_answer(r: Result<usize, SysError>, buf: Seq<u8>) -> Result<(), Error> {
    match r {
        Ok(n) => spec_decode_frame(buf, n as int),
        Err(e) => Err(e.spec_into_error(ErrorCode::PipeError)),
    }
}

/// Judges the outcome of `setpgid`; see `spec_group_result`.
pub fn group_result(r: Result<(), SysError>) -> (out: Result<(), Error>)
    ensures
        out == spec_group_result(r),
{
    result(ErrorCode::SetPGid, r)
}

/// Makes the child `pid` the leader of a process group of its own.
pub fn set_group_leader(pid: i32) -> (out: Result<(), Error>)
    ensures
        exists|r: Result<(), SysError>| out == spec_group_result(r),
{
    group_result(sys_setpgid(pid, pid))
}

/// Judges the outcome of writing the wake-up byte; see `spec_wake_step`.
pub fn wake_step(r: Result<usize, SysError>) -> (out: WakeStep)
    ensures
        out == spec_wake_step(r),
{
    match r {
        Ok(n) => if n == 0 {
            WakeStep::Done(Err(Error::PipeError(-1)))
        } else {
            WakeStep::Done(Ok(()))
        },
        Err(SysError::Sys(errno)) => if errno == EINTR {
            WakeStep::Again
        } else {
            WakeStep::Done(Err(Error::PipeError(errno)))
        },
        Err(e) => WakeStep::Done(Err(e.into_error(ErrorCode::PipeError))),
    }
}

/// The byte that wakes the child up.
pub const WAKEUP_BYTE: u8 = 120;

/// One round of waking the child up: one byte is written to the wake-up
/// pipe, and `wake_step` judges the outcome. The caller repeats the call for
/// as long as the answer is `Again`.
pub fn wake_once(wakeup: &PipeWriter) -> (out: WakeStep)
    ensures
        exists|r: Result<usize, SysError>| out == spec_wake_step(r),
{
    let byte: [u8; 1] = [WAKEUP_BYTE];
    wake_step(sys_write(wakeup.as_raw_fd(), &byte))
}

/// Wakes the child up: the wake-up byte is written to the wake-up pipe until
/// `wake_step` takes the outcome of a write for the end of the wake-up: the
/// byte is written, or the write has failed otherwise than by an
/// interruption. A wake-up that is still interrupted after `RETRY_LIMIT`
/// writes gives up as such, with an error of kind `PipeError`.
pub fn wake(wakeup: &PipeWriter) -> (out: Result<(), Error>)
    ensures
        out == Err::<(), Error>(Error::PipeError(EINTR)) || exists|r: Result<usize, SysError>|
            spec_wake_step(r) == WakeStep::Done(out),
        out matches Err(e) ==> e is PipeError || e is NixError,
{
    let mut budget: u64 = RETRY_LIMIT;
    loop
        decreases budget,
    {
        let step = wake_once(wakeup);
        match step {
            WakeStep::Done(r) => {
                proof {
                    let w = choose|w: Result<usize, SysError>| step == spec_wake_step(w);
                    assert(spec_wake_step(w) == WakeStep::Done(r));
                }
                return r;
            },
            WakeStep::Again => {},
        }
        if budget == 0 {
            return Err(Error::PipeError(EINTR));
        }
        budget = budget - 1;
    }
}

/// Kills the child of a spawn that has failed after `clone` and reaps it,
/// so that it does not stay behind as a zombie: after the signal, `waitpid`
/// is called for the child until it is not interrupted, at most
/// `RETRY_LIMIT` times.
pub fn abandon_child(pid: i32) {
    kill_child(pid);
    let mut budget: u64 = RETRY_LIMIT;
    while !reap_once(pid) && budget > 0
        decreases budget,
    {
        budget = budget - 1;
    }
}

/// Judges the outcome of reading the error pipe into `buf`; see
/// `spec_answer`.
pub fn judge_answer(r: Result<usize, SysError>, buf: &[u8]) -> (out: Result<(), Error>)
    ensures
        out == spec_answer(r, buf@),
{
    match r {
        Ok(n) => decode_frame(buf, n),
        Err(e) => Err(e.into_error(ErrorCode::PipeError)),
    }
}

/// Reads the answer of the child from the error pipe, once and with room
/// for one byte more than a frame has, and judges it with `judge_answer`.
pub fn read_answer(errpipe: &PipeReader) -> (out: Result<(), Error>)
    ensures
        exists|r: Result<usize, SysError>, buf: Seq<u8>|
            buf.len() == 6 && out == spec_answer(r, buf),
{
    let mut err: [u8; 6] = [0u8; 6];
    let r = sys_read(errpipe.as_raw_fd(), &mut err);
    let out = judge_answer(r, &err);
    assert(err@.len() == 6);
    out
}

} // verus!
