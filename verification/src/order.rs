//! The order of the steps of the child, which the kernel depends on.
use vstd::prelude::*;
use crate::child::{
    ambient_ops, caps_ops, chdir_ops, chroot_ops, close_ops, death_signal_ops, error_pipe_ops,
    fd_ops, id_map_ops, in_order, keep_caps_ops, lemma_in_order_concat, pid_env_ops, pivot_ops,
    plan_after_id_maps, plan_exec, plan_identity, plan_until_wakeup, pre_exec_ops, setns_ops, signal_ops,
    spec_child_plan, user_ops, CapsData, ChildInfo, ChildOp,
};

verus! {

/// The steps that join namespaces all have the rank of `setns`.
pub proof fn lemma_setns_ops_rank(list: Seq<(u32, i32)>, n: nat)
    ensures
        in_order(setns_ops(list, n), 50, 50),
    decreases n,
{
    if !(n == 0 || n > list.len()) {
        lemma_setns_ops_rank(list, (n - 1) as nat);
    }
}

/// The steps that raise ambient capabilities all have the same rank.
pub proof fn lemma_ambient_ops_rank(lo: u32, hi: u32, n: nat)
    ensures
        in_order(ambient_ops(lo, hi, n), 111, 111),
    decreases n,
{
    if !(n == 0 || n > 64) {
        lemma_ambient_ops_rank(lo, hi, (n - 1) as nat);
    }
}

/// The steps that put descriptors in place all have the same rank.
pub proof fn lemma_fd_ops_rank(fds: Seq<(i32, i32)>, n: nat)
    ensures
        in_order(fd_ops(fds, n), 130, 130),
    decreases n,
{
    if !(n == 0 || n > fds.len()) {
        lemma_fd_ops_rank(fds, (n - 1) as nat);
    }
}

/// The steps that close ranges all have the same rank.
pub proof fn lemma_close_ops_rank(ranges: Seq<(i32, i32)>, n: nat)
    ensures
        in_order(close_ops(ranges, n), 140, 140),
    decreases n,
{
    if !(n == 0 || n > ranges.len()) {
        lemma_close_ops_rank(ranges, (n - 1) as nat);
    }
}

/// What the child does up to the wake-up is in order.
pub proof fn lemma_until_wakeup_in_order(info: ChildInfo)
    ensures
        in_order(plan_until_wakeup(info), 10, 20),
{
}

/// What the child does after its id maps are written, up to its
/// capabilities, is in order.
pub proof fn lemma_after_id_maps_in_order(info: ChildInfo)
    ensures
        in_order(plan_after_id_maps(info), 40, 111),
{
    let a2 = error_pipe_ops(info);
    lemma_setns_ops_rank(info.setns_namespaces@, info.setns_namespaces@.len());
    let s3 = setns_ops(info.setns_namespaces@, info.setns_namespaces@.len());
    let a3 = a2 + s3;
    lemma_in_order_concat(a2, s3, 40, 50, 50);
    let a4 = a3 + pid_env_ops(info);
    lemma_in_order_concat(a3, pid_env_ops(info), 40, 60, 60);
    let a5 = a4 + pivot_ops(info);
    assert(in_order(pivot_ops(info), 70, 72));
    lemma_in_order_concat(a4, pivot_ops(info), 40, 70, 72);
    let a6 = a5 + chroot_ops(info);
    assert(in_order(chroot_ops(info), 80, 81));
    lemma_in_order_concat(a5, chroot_ops(info), 40, 80, 81);
    let a7 = a6 + keep_caps_ops(info);
    lemma_in_order_concat(a6, keep_caps_ops(info), 40, 90, 90);
    let a8 = a7 + user_ops(info);
    assert(in_order(user_ops(info), 100, 102));
    lemma_in_order_concat(a7, user_ops(info), 40, 100, 102);
    lemma_caps_in_order(info);
    lemma_in_order_concat(a8, caps_ops(info), 40, 110, 111);
}

/// What the child does to its id maps, namespaces, root, user and
/// capabilities is in order.
pub proof fn lemma_identity_in_order(info: ChildInfo)
    ensures
        in_order(plan_identity(info), 30, 111),
{
    assert(in_order(id_map_ops(info), 30, 32));
    lemma_after_id_maps_in_order(info);
    lemma_in_order_concat(id_map_ops(info), plan_after_id_maps(info), 30, 40, 111);
}

/// The steps that install capabilities are in order.
pub proof fn lemma_caps_in_order(info: ChildInfo)
    ensures
        in_order(caps_ops(info), 110, 111),
{
    match info.keep_caps {
        Some((lo, hi)) => {
            lemma_ambient_ops_rank(lo, hi, 64);
            lemma_in_order_concat(
                seq![ChildOp::CapSet { data: CapsData::spec_uniform(lo, hi) }],
                ambient_ops(lo, hi, 64),
                110,
                111,
                111,
            );
        },
        None => {},
    }
}

/// What the child does to its directory, descriptors and signals, and how
/// it ends, is in order.
pub proof fn lemma_exec_in_order(info: ChildInfo)
    ensures
        in_order(plan_exec(info), 120, 170),
{
    let a1 = chdir_ops(info);
    lemma_fd_ops_rank(info.fds@, info.fds@.len());
    let s2 = fd_ops(info.fds@, info.fds@.len());
    let a2 = a1 + s2;
    lemma_in_order_concat(a1, s2, 120, 130, 130);
    lemma_close_ops_rank(info.close_fds@, info.close_fds@.len());
    let s3 = close_ops(info.close_fds@, info.close_fds@.len());
    let a3 = a2 + s3;
    lemma_in_order_concat(a2, s3, 120, 140, 140);
    let a4 = a3 + signal_ops(info);
    lemma_in_order_concat(a3, signal_ops(info), 120, 150, 150);
    let a5 = a4 + pre_exec_ops(info);
    lemma_in_order_concat(a4, pre_exec_ops(info), 120, 160, 160);
    lemma_in_order_concat(a5, seq![ChildOp::Exec], 120, 170, 170);
}

/// The child makes its steps in the order of their ranks.
pub proof fn lemma_plan_in_order(info: ChildInfo)
    ensures
        in_order(spec_child_plan(info), 10, 170),
{
    lemma_until_wakeup_in_order(info);
    lemma_identity_in_order(info);
    lemma_exec_in_order(info);
    lemma_in_order_concat(plan_until_wakeup(info), plan_identity(info), 10, 30, 111);
    lemma_in_order_concat(
        plan_until_wakeup(info) + plan_identity(info),
        plan_exec(info),
        10,
        120,
        170,
    );
}

/// Of two steps of the plan, the one with the lower rank is made first.
///
/// So the id maps are written before the user changes, namespaces are
/// joined before the root changes, capabilities are told to survive before
/// the user changes and are set after it, and ambient capabilities are
/// raised after `capset`.
pub proof fn lemma_rank_decides_order(info: ChildInfo, i: int, j: int)
    requires
        0 <= i < spec_child_plan(info).len(),
        0 <= j < spec_child_plan(info).len(),
        spec_child_plan(info)[i].rank() < spec_child_plan(info)[j].rank(),
    ensures
        i < j,
{
    lemma_plan_in_order(info);
    let plan = spec_child_plan(info);
    if j < i {
        assert(plan[j].rank() <= plan[i].rank());
    }
}

/// The child does nothing but set its death signal before it waits for the
/// wake-up of the parent: the wait is the first step, or the second after
/// the death signal, and every other step comes after it.
pub proof fn lemma_wakeup_comes_first(info: ChildInfo)
    ensures
        ({
            let plan = spec_child_plan(info);
            let k = death_signal_ops(info).len() as int;
            &&& k <= 1
            &&& k < plan.len()
            &&& plan[k] == ChildOp::AwaitWakeup
            &&& forall|i: int| 0 <= i < k ==> (#[trigger] plan[i]) is SetDeathSignal
            &&& forall|i: int| k < i < plan.len() ==> (#[trigger] plan[i]).rank() >= 30
        }),
{
    let plan = spec_child_plan(info);
    let head = plan_until_wakeup(info);
    let k = death_signal_ops(info).len() as int;
    lemma_identity_in_order(info);
    lemma_exec_in_order(info);
    let mid = plan_identity(info);
    let tail = plan_exec(info);
    assert(head.len() == k + 1);
    assert(plan[k] == head[k]);
    assert forall|i: int| 0 <= i < k implies (#[trigger] plan[i]) is SetDeathSignal by {
        assert(plan[i] == head[i]);
    }
    assert forall|i: int| k < i < plan.len() implies (#[trigger] plan[i]).rank() >= 30 by {
        if i < head.len() + mid.len() {
            assert(plan[i] == mid[i - head.len()]);
        } else {
            assert(plan[i] == tail[i - head.len() - mid.len()]);
        }
    }
}

/// The gid map is written only after `setgroups` has been denied: the step
/// just before the one that writes the gid map denies it.
pub proof fn lemma_setgroups_denied_before_gid_map(info: ChildInfo, i: int)
    requires
        0 <= i < spec_child_plan(info).len(),
        spec_child_plan(info)[i] == ChildOp::WriteGidMap,
    ensures
        i >= 1,
        spec_child_plan(info)[i - 1] == ChildOp::DenySetgroups,
{
    let plan = spec_child_plan(info);
    let head = plan_until_wakeup(info);
    let ids = id_map_ops(info);
    let rest = plan_after_id_maps(info);
    let tail = plan_exec(info);
    lemma_exec_in_order(info);
    lemma_after_id_maps_in_order(info);
    assert(plan =~= head + ids + rest + tail);
    if i < head.len() {
        assert(plan[i] == head[i]);
    } else if i < head.len() + ids.len() {
        assert(plan[i] == ids[i - head.len()]);
        assert(plan[i - 1] == ids[i - 1 - head.len()]);
    } else if i < head.len() + ids.len() + rest.len() {
        assert(plan[i] == rest[i - head.len() - ids.len()]);
        assert(rest[i - head.len() - ids.len()].rank() >= 40);
    } else {
        assert(plan[i] == tail[i - head.len() - ids.len() - rest.len()]);
        assert(tail[i - head.len() - ids.len() - rest.len()].rank() >= 120);
    }
}

/// The plan ends with `execve`, and only there.
pub proof fn lemma_exec_is_last(info: ChildInfo)
    ensures
        spec_child_plan(info).len() >= 2,
        spec_child_plan(info).last() == ChildOp::Exec,
        forall|i: int|
            0 <= i < spec_child_plan(info).len() - 1 ==> (#[trigger] spec_child_plan(info)[i])
                != ChildOp::Exec,
{
    let plan = spec_child_plan(info);
    lemma_plan_in_order(info);
    let before = plan_until_wakeup(info) + plan_identity(info) + chdir_ops(info) + fd_ops(
        info.fds@,
        info.fds@.len(),
    ) + close_ops(info.close_fds@, info.close_fds@.len()) + signal_ops(info) + pre_exec_ops(info);
    assert(plan =~= before + seq![ChildOp::Exec]);
    lemma_until_wakeup_in_order(info);
    lemma_identity_in_order(info);
    lemma_fd_ops_rank(info.fds@, info.fds@.len());
    lemma_close_ops_rank(info.close_fds@, info.close_fds@.len());
    let b1 = plan_until_wakeup(info) + plan_identity(info);
    lemma_in_order_concat(plan_until_wakeup(info), plan_identity(info), 10, 30, 111);
    let b2 = b1 + chdir_ops(info);
    lemma_in_order_concat(b1, chdir_ops(info), 10, 120, 120);
    let b3 = b2 + fd_ops(info.fds@, info.fds@.len());
    lemma_in_order_concat(b2, fd_ops(info.fds@, info.fds@.len()), 10, 130, 130);
    let b4 = b3 + close_ops(info.close_fds@, info.close_fds@.len());
    lemma_in_order_concat(b3, close_ops(info.close_fds@, info.close_fds@.len()), 10, 140, 140);
    let b5 = b4 + signal_ops(info);
    lemma_in_order_concat(b4, signal_ops(info), 10, 150, 150);
    lemma_in_order_concat(b5, pre_exec_ops(info), 10, 160, 160);
    assert(plan_until_wakeup(info).len() >= 1);
    assert forall|i: int| 0 <= i < plan.len() - 1 implies (#[trigger] plan[i])
        != ChildOp::Exec by {
        assert(plan[i] == before[i]);
        assert(before[i].rank() <= 160);
    }
}

} // verus!
