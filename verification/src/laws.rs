//! What holds of a spawn from end to end: how what the builder was told
//! reaches the child, and how what goes wrong in the child reaches the
//! parent.
use vstd::prelude::*;
use crate::child::{
    is_planned, pid_patched, spec_abort_frame, spec_child_plan, with_pid, ChildInfo, ChildOp,
    OnFailure,
};
use crate::command::Command;
use crate::decimal::decimal;
use crate::descriptors::{
    distinct_targets, ends_of, guards_fit, guards_of_entry, in_the_way, is_target, kept_ends,
    opened_before, serves, settled_source, spec_dup_step, spec_opening, stdio_in_direction,
    DupStep, Opening, PipeEnd,
};
use crate::pipe::PipeHolder;
use crate::stdio::FdKind;
use crate::wait::{distinct_holders, holder_index, holds};
use crate::environ::{distinct_keys, has_key, key_index, lemma_vars_map_at, vars_map, Environ};
use crate::error::{
    lemma_callback_frame_is_unknown, lemma_frame_round_trip, spec_decode_frame, Error, ErrorCode,
};
use crate::fdtable::{child_table, clobber_free, lemma_child_descriptors, sources_open, OpenFile};
use crate::ffi_util::{c_value, lemma_c_value_of_cstring, no_nul, views};
use crate::order::lemma_exec_is_last;
use crate::run::{env_entry, env_strings, pid_entry, pid_slots, pid_strings, EQUALS};
use crate::stdio::{Closing, Fd};

verus! {

/// An environment that holds the single variable `k` with the value `v`
/// consists of that one entry.
pub proof fn lemma_single_variable(vars: Seq<(Vec<u8>, Vec<u8>)>, k: Seq<u8>, v: Seq<u8>)
    requires
        distinct_keys(vars),
        vars_map(vars) == Map::<Seq<u8>, Seq<u8>>::empty().insert(k, v),
    ensures
        vars.len() == 1,
        vars[0].0@ == k,
        vars[0].1@ == v,
{
    let m = Map::<Seq<u8>, Seq<u8>>::empty().insert(k, v);
    assert(m.dom().contains(k));
    assert(has_key(vars, k));
    let i = key_index(vars, k);
    assert(0 <= i < vars.len() && vars[i].0@ == k);
    assert forall|j: int| 0 <= j < vars.len() implies (#[trigger] vars[j]).0@ == k by {
        lemma_vars_map_at(vars, j);
        assert(m.dom().contains(vars[j].0@));
    }
    if vars.len() >= 2 {
        assert(vars[0].0@ != vars[1].0@);
    }
    lemma_vars_map_at(vars, 0);
}

/// The environment round trip: a child whose command had its environment
/// cleared and then the variable `k` set to `v` finds in its environment
/// the one string `k=v` and nothing else.
///
/// `cleared` is the command after `env_clear`, `set` the command after
/// `env(k, v)`, and `info` what is packed for the child of `set`.
pub proof fn lemma_env_round_trip(
    cleared: Command,
    set: Command,
    k: Seq<u8>,
    v: Seq<u8>,
    inherited: Environ,
    fds: Seq<(i32, i32)>,
    cwd: Option<Seq<u8>>,
    wakeup_pipe: i32,
    error_pipe: i32,
    pre_exec: bool,
    info: ChildInfo,
)
    requires
        cleared.environ is Some,
        cleared.environ.unwrap()@ == Map::<Seq<u8>, Seq<u8>>::empty(),
        cleared.pid_env_vars@.len() == 0,
        set.wf(),
        set.environ is Some,
        set.environ.unwrap()@ == cleared.env_base(inherited)@.insert(k, v),
        set.pid_env_vars == cleared.pid_env_vars,
        no_nul(k),
        no_nul(v),
        set.packs(inherited, fds, cwd, wakeup_pipe, error_pipe, pre_exec, info),
    ensures
        views(info.environ@) == seq![env_entry(k, v)],
        c_value(views(info.environ@)[0]) == k + seq![EQUALS] + v,
{
    let vars = set.environ.unwrap().vars@;
    lemma_single_variable(vars, k, v);
    let names = views(set.pid_env_vars@);
    assert(names.len() == 0);
    assert(!names.contains(k));
    assert(env_strings(vars, names, 1) == env_strings(vars, names, 0).push(env_entry(k, v)));
    assert(env_strings(vars, names, 1) =~= seq![env_entry(k, v)]);
    assert(pid_strings(names, 0) =~= Seq::<Seq<u8>>::empty());
    assert(views(info.environ@) =~= seq![env_entry(k, v)]);
    let body = k + seq![EQUALS] + v;
    assert forall|i: int| 0 <= i < body.len() implies #[trigger] body[i] != 0u8 by {
        if i < k.len() {
            assert(body[i] == k[i]);
        } else if i == k.len() {
        } else {
            assert(body[i] == v[i - k.len() - 1]);
        }
    }
    lemma_c_value_of_cstring(body);
    assert(env_entry(k, v) =~= body.push(0u8));
}

/// Every environment string of the child that is not kept for a pid is a
/// variable of the command, and every variable of the command that does not
/// get the pid has its string.
pub proof fn lemma_env_strings_exact(vars: Seq<(Vec<u8>, Vec<u8>)>, names: Seq<Seq<u8>>, n: nat)
    requires
        n <= vars.len(),
    ensures
        forall|s: Seq<u8>|
            #[trigger] env_strings(vars, names, n).contains(s) <==> exists|i: int|
                0 <= i < n && !names.contains(vars[i].0@) && s == env_entry(vars[i].0@, vars[i].1@),
    decreases n,
{
    if n > 0 {
        let m = (n - 1) as nat;
        lemma_env_strings_exact(vars, names, m);
        let before = env_strings(vars, names, m);
        let now = env_strings(vars, names, n);
        let e = env_entry(vars[n - 1].0@, vars[n - 1].1@);
        assert forall|s: Seq<u8>| #[trigger] now.contains(s) <==> exists|i: int|
            0 <= i < n && !names.contains(vars[i].0@) && s == env_entry(
                vars[i].0@,
                vars[i].1@,
            ) by {
            if now.contains(s) {
                let j = choose|j: int| 0 <= j < now.len() && now[j] == s;
                if j < before.len() {
                    assert(before[j] == s);
                    assert(before.contains(s));
                    let i = choose|i: int|
                        0 <= i < m && !names.contains(vars[i].0@) && s == env_entry(
                            vars[i].0@,
                            vars[i].1@,
                        );
                    assert(0 <= i < n);
                } else {
                    assert(s == e);
                    assert(0 <= n - 1 < n && !names.contains(vars[n - 1].0@));
                }
            }
            if exists|i: int|
                0 <= i < n && !names.contains(vars[i].0@) && s == env_entry(vars[i].0@, vars[i].1@) {
                let i = choose|i: int|
                    0 <= i < n && !names.contains(vars[i].0@) && s == env_entry(
                        vars[i].0@,
                        vars[i].1@,
                    );
                if i < m {
                    assert(before.contains(s));
                    let j = choose|j: int| 0 <= j < before.len() && before[j] == s;
                    assert(now[j] == s);
                } else {
                    assert(now[now.len() - 1] == s);
                }
            }
        }
    } else {
        assert forall|s: Seq<u8>| !(#[trigger] env_strings(vars, names, n).contains(s)) by {}
    }
}

/// Argument zero reaches the child and leaves the program alone: after
/// `arg0(x)` the first argument that the child hands to `execve` is `x`,
/// while the program that it runs is the one the command was made for.
///
/// `before` is the command before `arg0(x)`, `after` the command after it,
/// and `info` what is packed for the child of `after`.
pub proof fn lemma_arg0_reaches_child(
    before: Command,
    after: Command,
    x: Seq<u8>,
    inherited: Environ,
    fds: Seq<(i32, i32)>,
    cwd: Option<Seq<u8>>,
    wakeup_pipe: i32,
    error_pipe: i32,
    pre_exec: bool,
    info: ChildInfo,
)
    requires
        before.wf(),
        no_nul(x),
        views(after.args@) == views(before.args@).update(0, x.push(0u8)),
        after == (Command { args: after.args, ..before }),
        after.packs(inherited, fds, cwd, wakeup_pipe, error_pipe, pre_exec, info),
    ensures
        c_value(info.args@[0]@) == x,
        info.filename@ == before.filename@,
        spec_child_plan(info).last() == ChildOp::Exec,
{
    assert(views(before.args@).len() >= 1);
    assert(views(info.args@).len() == views(before.args@).len());
    assert(views(info.args@)[0] == x.push(0u8));
    assert(views(info.args@)[0] == info.args@[0]@);
    lemma_c_value_of_cstring(x);
    lemma_exec_is_last(info);
}

/// A plan that the planner has made for a request without repeated targets
/// is free of clobbering.
pub proof fn lemma_served_is_clobber_free(request: Seq<(i32, Fd)>, inner: Seq<(i32, i32)>)
    requires
        distinct_targets(request),
        serves(request, inner, request.len() as int),
    ensures
        clobber_free(inner),
        forall|fd: i32| is_planned(inner, fd) <==> is_target(request, fd),
{
    assert forall|fd: i32| is_planned(inner, fd) <==> is_target(request, fd) by {
        if is_planned(inner, fd) {
            let i = choose|i: int| 0 <= i < inner.len() && (#[trigger] inner[i]).0 == fd;
            assert(request[i].0 == fd);
        }
        if is_target(request, fd) {
            let i = choose|i: int| 0 <= i < request.len() && (#[trigger] request[i]).0 == fd;
            assert(inner[i].0 == fd);
        }
    }
    assert forall|i: int, j: int| 0 <= i < j < inner.len() implies (#[trigger] inner[i]).0 != (
    #[trigger] inner[j]).0 by {
        assert(request[i].0 != request[j].0);
    }
    assert forall|i: int| 0 <= i < inner.len() implies (#[trigger] inner[i]).1 == inner[i].0
        || !is_planned(inner, inner[i].1) by {
        if inner[i].1 != inner[i].0 {
            assert(!is_target(request, inner[i].1));
        }
    }
}

/// Descriptors are not clobbered, and ranges are closed around them: for
/// any request without repeated targets, whatever the order of its entries
/// and however targets and sources overlap, the child of a plan that the
/// planner has made finds behind each of its descriptors the file that the
/// source of that descriptor referred to in the parent; a descriptor that is
/// none of its own is open after `execve` exactly if it was open, was not
/// marked close-on-exec and lies in no range that the child closes.
///
/// `t` is the descriptor table of the child when it comes to its
/// descriptors; the sources of the plan are open in it.
pub proof fn lemma_descriptors_reach_child(
    request: Seq<(i32, Fd)>,
    inner: Seq<(i32, i32)>,
    ranges: Seq<(i32, i32)>,
    t: Map<i32, OpenFile>,
)
    requires
        distinct_targets(request),
        serves(request, inner, request.len() as int),
        sources_open(t, inner),
    ensures
        forall|i: int|
            0 <= i < request.len() ==> child_table(t, inner, ranges).dom().contains(
                (#[trigger] request[i]).0,
            ) && child_table(t, inner, ranges)[request[i].0].file == t[inner[i].1].file,
        forall|fd: i32|
            !is_target(request, fd) ==> (#[trigger] child_table(t, inner, ranges).dom().contains(fd)
                <==> (t.dom().contains(fd) && !t[fd].cloexec && !crate::fdtable::in_ranges(
                ranges,
                ranges.len(),
                fd,
            ))),
{
    lemma_served_is_clobber_free(request, inner);
    lemma_child_descriptors(t, inner, ranges);
    assert forall|i: int| 0 <= i < request.len() implies child_table(
        t,
        inner,
        ranges,
    ).dom().contains((#[trigger] request[i]).0) && child_table(t, inner, ranges)[request[i].0].file
        == t[inner[i].1].file by {
        assert(inner[i].0 == request[i].0);
    }
    assert forall|fd: i32| !is_target(request, fd) implies (#[trigger] child_table(
        t,
        inner,
        ranges,
    ).dom().contains(fd) <==> (t.dom().contains(fd) && !t[fd].cloexec && !crate::fdtable::in_ranges(
        ranges,
        ranges.len(),
        fd,
    ))) by {
        assert(!is_planned(inner, fd));
    }
}

/// A failure that the child reports reaches the parent as the error of the
/// same kind with the same `errno`: the frame that the child sends for the
/// failed step `i` is read by the parent as the error that the step stands
/// for.
pub proof fn lemma_failure_reaches_parent(plan: Seq<ChildOp>, i: int, errno: i32, code: ErrorCode)
    requires
        0 <= i < plan.len(),
        plan[i].spec_on_failure() == OnFailure::Report(code),
    ensures
        spec_abort_frame(plan, i, Some(errno)) matches Some(frame) && spec_decode_frame(frame, 5)
            == Err::<(), Error>(code.spec_wrap(errno)),
{
    lemma_frame_round_trip(code, errno);
}

/// The failure of the callback that runs before `execve` has no kind of its
/// own: the frame that the child sends for it is read by the parent as
/// `UnknownError`.
pub proof fn lemma_callback_failure_reaches_parent(plan: Seq<ChildOp>, i: int, errno: i32)
    requires
        0 <= i < plan.len(),
        plan[i].spec_on_failure() == OnFailure::ReportCallback,
    ensures
        spec_abort_frame(plan, i, Some(errno)) matches Some(frame) && spec_decode_frame(frame, 5)
            == Err::<(), Error>(Error::UnknownError),
{
    lemma_callback_frame_is_unknown(errno);
}

/// The pid reaches the environment: for each variable that is to hold the
/// pid, the string that a program started by the child reads is the name,
/// `=`, and the pid in decimal.
///
/// `names` are the variables that get the pid, `base` the number of
/// environment strings before theirs, `before` the strings as the parent
/// packed them and `after` the strings once the child has written its pid
/// `pid` into them.
pub proof fn lemma_pid_env_var(
    names: Seq<Seq<u8>>,
    base: nat,
    before: Seq<Seq<u8>>,
    after: Seq<Seq<u8>>,
    pid: i32,
    k: int,
)
    requires
        pid >= 0,
        0 <= k < names.len(),
        no_nul(names[k]),
        names[k].len() + 14 <= usize::MAX,
        base + names.len() <= usize::MAX,
        before.len() == base + names.len(),
        forall|j: int| 0 <= j < names.len() ==> before[base + j] == pid_entry(#[trigger] names[j]),
        pid_patched(before, after, pid_slots(base, names, names.len()), names.len() as int, pid),
    ensures
        c_value(after[base + k]) == names[k] + seq![EQUALS] + decimal(pid as nat),
{
    let slots = pid_slots(base, names, names.len());
    lemma_pid_slots(base, names, names.len(), k);
    assert(slots[k] == ((base + k) as usize, (names[k].len() + 1) as usize));
    let s = before[base + k];
    let off: int = (names[k].len() + 1) as int;
    assert(s == pid_entry(names[k]));
    assert(after[slots[k].0 as int] == with_pid(before[slots[k].0 as int], slots[k].1 as int, pid));
    assert(s.subrange(0, off) =~= names[k] + seq![EQUALS]);
    assert forall|i: int| 0 <= i < off implies #[trigger] s.subrange(0, off)[i] != 0u8 by {
        if i < names[k].len() {
            assert(s.subrange(0, off)[i] == names[k][i]);
        }
    }
    crate::child::lemma_pid_in_environment(s, off, pid);
}

/// The place kept for the pid of the `k`-th variable is the string of that
/// variable, just after its `=`.
pub proof fn lemma_pid_slots(base: nat, names: Seq<Seq<u8>>, n: nat, k: int)
    requires
        n <= names.len(),
        0 <= k < n,
    ensures
        pid_slots(base, names, n).len() == n,
        pid_slots(base, names, n)[k] == ((base + k) as usize, (names[k].len() + 1) as usize),
    decreases n,
{
    if n > 0 {
        lemma_pid_slots_len(base, names, (n - 1) as nat);
        if k < n - 1 {
            lemma_pid_slots(base, names, (n - 1) as nat, k);
        }
    }
}

/// There is one place for the pid for each variable that gets it.
pub proof fn lemma_pid_slots_len(base: nat, names: Seq<Seq<u8>>, n: nat)
    requires
        n <= names.len(),
    ensures
        pid_slots(base, names, n).len() == n,
    decreases n,
{
    if n > 0 {
        lemma_pid_slots_len(base, names, (n - 1) as nat);
    }
}

/// Every end that the parent keeps belongs to a pipe of the request: it is
/// the writing end of a pipe that the child reads or the reading end of a
/// pipe that the child writes.
pub proof fn lemma_kept_ends_come_from_pipes(fds: Seq<(i32, Fd)>, n: nat, k: int)
    requires
        n <= fds.len(),
        0 <= k < kept_ends(fds, n).len(),
    ensures
        exists|i: int|
            0 <= i < n && (#[trigger] fds[i]).0 == kept_ends(fds, n)[k].0 && ((fds[i].1.kind()
                == FdKind::ReadPipe && kept_ends(fds, n)[k].1 == PipeEnd::Writer) || (
            fds[i].1.kind() == FdKind::WritePipe && kept_ends(fds, n)[k].1 == PipeEnd::Reader)),
    decreases n,
{
    let m = (n - 1) as nat;
    let before = kept_ends(fds, m);
    if k < before.len() {
        lemma_kept_ends_come_from_pipes(fds, m, k);
        let i = choose|i: int|
            0 <= i < m && (#[trigger] fds[i]).0 == before[k].0 && ((fds[i].1.kind()
                == FdKind::ReadPipe && before[k].1 == PipeEnd::Writer) || (fds[i].1.kind()
                == FdKind::WritePipe && before[k].1 == PipeEnd::Reader));
        assert(0 <= i < n && fds[i].0 == kept_ends(fds, n)[k].0);
    } else {
        assert(fds[n - 1].0 == kept_ends(fds, n)[k].0);
    }
}

/// The parent keeps at most one end for each descriptor of the child.
pub proof fn lemma_kept_ends_distinct(fds: Seq<(i32, Fd)>, n: nat)
    requires
        n <= fds.len(),
        distinct_targets(fds),
    ensures
        forall|a: int, b: int|
            0 <= a < b < kept_ends(fds, n).len() ==> (#[trigger] kept_ends(fds, n)[a]).0 != (
            #[trigger] kept_ends(fds, n)[b]).0,
    decreases n,
{
    if n > 0 {
        let m = (n - 1) as nat;
        lemma_kept_ends_distinct(fds, m);
        let before = kept_ends(fds, m);
        let now = kept_ends(fds, n);
        assert forall|a: int, b: int| 0 <= a < b < now.len() implies (#[trigger] now[a]).0 != (
        #[trigger] now[b]).0 by {
            if b < before.len() {
                assert(before[a].0 != before[b].0);
            } else {
                lemma_kept_ends_come_from_pipes(fds, m, a);
                let i = choose|i: int|
                    0 <= i < m && (#[trigger] fds[i]).0 == before[a].0 && ((fds[i].1.kind()
                        == FdKind::ReadPipe && before[a].1 == PipeEnd::Writer) || (fds[i].1.kind()
                        == FdKind::WritePipe && before[a].1 == PipeEnd::Reader));
                assert(fds[i].0 != fds[n - 1].0);
            }
        }
    }
}

/// The ends that the planner hands out for a request of the builder are
/// what the handle of the child is made from: at most one for each
/// descriptor, the writing end for the standard input and the reading end
/// for the standard output and the standard error stream.
pub proof fn lemma_planned_ends_fit_child(fds: Seq<(i32, Fd)>, outer: Seq<(i32, PipeHolder)>)
    requires
        distinct_targets(fds),
        stdio_in_direction(fds),
        ends_of(outer) == kept_ends(fds, fds.len()),
    ensures
        distinct_holders(outer),
        holds(outer, 0) ==> outer[holder_index(outer, 0)].1 is Writer,
        holds(outer, 1) ==> outer[holder_index(outer, 1)].1 is Reader,
        holds(outer, 2) ==> outer[holder_index(outer, 2)].1 is Reader,
{
    let kept = kept_ends(fds, fds.len());
    lemma_kept_ends_distinct(fds, fds.len());
    assert(outer.len() == kept.len());
    assert forall|a: int, b: int| 0 <= a < b < outer.len() implies (#[trigger] outer[a]).0 != (
    #[trigger] outer[b]).0 by {
        assert(ends_of(outer)[a].0 == outer[a].0);
        assert(ends_of(outer)[b].0 == outer[b].0);
        assert(kept[a].0 != kept[b].0);
    }
    assert forall|fd: i32| holds(outer, fd) implies ({
        let k = holder_index(outer, fd);
        &&& fd == 0 ==> outer[k].1 is Writer
        &&& (fd == 1 || fd == 2) ==> outer[k].1 is Reader
    }) by {
        let k = holder_index(outer, fd);
        assert(0 <= k < outer.len() && outer[k].0 == fd);
        assert(ends_of(outer)[k] == (outer[k].0, outer[k].1.end()));
        lemma_kept_ends_come_from_pipes(fds, fds.len(), k);
    }
}

/// The guards of an entry that hold duplicates are the duplicates that
/// `dup_step` has judged: each but the last was sent back for another
/// duplicate, if one more could be made, and the last was taken for the
/// source. For a descriptor that the request names, all guards of the entry
/// hold duplicates; for a pipe or `/dev/null`, all but the first.
pub proof fn lemma_guards_are_dup_steps(
    fds: Seq<(i32, Fd)>,
    inner: Seq<(i32, i32)>,
    opened: Seq<usize>,
    guards: Seq<Closing>,
    i: int,
    j: int,
    left: usize,
)
    requires
        serves(fds, inner, fds.len() as int),
        guards_fit(fds, inner, opened, guards, fds.len() as int),
        0 <= i < fds.len(),
        opened_before(opened, i as nat) <= j < opened_before(opened, i as nat) + opened[i],
        left >= 1,
    ensures
        j < opened_before(opened, i as nat) + opened[i] - 1 ==> spec_dup_step(
            fds,
            fds[i].0,
            Ok(guards[j].fd),
            left,
        ) == DupStep::Again(guards[j].fd),
        j == opened_before(opened, i as nat) + opened[i] - 1 ==> spec_dup_step(
            fds,
            fds[i].0,
            Ok(guards[j].fd),
            left,
        ) == DupStep::Done(inner[i].1),
{
    assert(guards_of_entry(fds, inner, opened, guards, i));
    assert(inner[i].0 == fds[i].0);
    let a = opened_before(opened, i as nat);
    let k = opened[i] as int;
    if j < a + k - 1 {
        assert(in_the_way(fds, fds[i].0, guards[j].fd));
    } else {
        assert(!in_the_way(fds, fds[i].0, inner[i].1));
    }
}

/// Whether, in the descriptor table `t` of the parent, the descriptors
/// opened for the entry `i` of the request all refer to one file, and for
/// an entry that names a descriptor to the file of that descriptor. This is
/// what the system promises of a duplicate: it refers to the file of the
/// descriptor it was made of.
pub open spec fn chain_shares_file(
    t: Map<i32, OpenFile>,
    fds: Seq<(i32, Fd)>,
    opened: Seq<usize>,
    guards: Seq<Closing>,
    i: int,
) -> bool {
    let a = opened_before(opened, i as nat);
    let k = opened[i] as int;
    &&& 0 <= a
    &&& a + k <= guards.len()
    &&& forall|j: int| a <= j < a + k ==> t.dom().contains((#[trigger] guards[j]).fd)
    &&& spec_opening(fds[i]) is Named && k >= 1 ==> t.dom().contains(settled_source(fds[i]))
        && t[guards[a].fd].file == t[settled_source(fds[i])].file
    &&& forall|j: int|
        a < j < a + k ==> t[(#[trigger] guards[j]).fd].file == t[guards[j - 1].fd].file
}

/// Where duplicates refer to the file of the descriptor they were made of,
/// every guard of an entry refers to the file of the first.
pub proof fn lemma_chain_of_duplicates(
    t: Map<i32, OpenFile>,
    fds: Seq<(i32, Fd)>,
    opened: Seq<usize>,
    guards: Seq<Closing>,
    i: int,
    j: int,
)
    requires
        chain_shares_file(t, fds, opened, guards, i),
        opened_before(opened, i as nat) <= j < opened_before(opened, i as nat) + opened[i],
    ensures
        t[guards[j].fd].file == t[guards[opened_before(opened, i as nat)].fd].file,
    decreases j - opened_before(opened, i as nat),
{
    let a = opened_before(opened, i as nat);
    if j > a {
        lemma_chain_of_duplicates(t, fds, opened, guards, i, j - 1);
        assert(t[guards[j].fd].file == t[guards[j - 1].fd].file);
    }
}

/// The descriptor that the caller named reaches the child, however the
/// entries of the request are in each other's way: where duplicates refer to
/// the file of the descriptor they were made of, which is the promise of the
/// system and is taken for granted here, the child finds behind the
/// descriptor of an entry the file of the descriptor that the entry names,
/// and behind the descriptor of a pipe or of `/dev/null` the file of the
/// first descriptor that was opened for it.
///
/// `t` is the descriptor table when the child comes to its descriptors; the
/// sources of the plan are open in it.
pub proof fn lemma_named_descriptor_reaches_child(
    request: Seq<(i32, Fd)>,
    inner: Seq<(i32, i32)>,
    opened: Seq<usize>,
    guards: Seq<Closing>,
    ranges: Seq<(i32, i32)>,
    t: Map<i32, OpenFile>,
    i: int,
)
    requires
        distinct_targets(request),
        serves(request, inner, request.len() as int),
        guards_fit(request, inner, opened, guards, request.len() as int),
        sources_open(t, inner),
        0 <= i < request.len(),
        chain_shares_file(t, request, opened, guards, i),
    ensures
        child_table(t, inner, ranges).dom().contains(request[i].0),
        spec_opening(request[i]) matches Opening::Named { fd } ==> child_table(
            t,
            inner,
            ranges,
        )[request[i].0].file == t[fd].file,
        !(spec_opening(request[i]) is Named) ==> child_table(t, inner, ranges)[request[i].0].file
            == t[guards[opened_before(opened, i as nat)].fd].file,
{
    lemma_descriptors_reach_child(request, inner, ranges, t);
    assert(guards_of_entry(request, inner, opened, guards, i));
    let a = opened_before(opened, i as nat);
    let k = opened[i] as int;
    if k >= 1 {
        lemma_chain_of_duplicates(t, request, opened, guards, i, a + k - 1);
    }
}

} // verus!
