//! A model of the descriptor table of the child, and what the steps of the
//! plan that deal with descriptors do to it.
//!
//! The model is that of the manual pages: `dup2` makes its target refer to
//! the open file of its source and clears the close-on-exec flag of the
//! target, `close` frees a descriptor, and `execve` closes the descriptors
//! whose flag is set. It speaks of the run in which every step succeeds; a
//! step that fails ends the child.
use vstd::prelude::*;
use crate::child::{close_ops, fd_op, fd_ops, is_planned, ChildOp};

verus! {

/// What a descriptor refers to.
pub struct OpenFile {
    /// The open file, by a number that tells it from every other.
    pub file: int,
    /// Whether the descriptor is closed on `execve`.
    pub cloexec: bool,
}

/// Whether `fd` lies in one of the first `n` ranges.
pub open spec fn in_ranges(ranges: Seq<(i32, i32)>, n: nat, fd: i32) -> bool {
    exists|k: int| 0 <= k < n && k < ranges.len() && (#[trigger] ranges[k]).0 <= fd < ranges[k].1
}

/// The descriptors that the child closes for the range from `start` up to
/// `end`: those in the range that are not its own.
pub open spec fn closed_by(fds: Seq<(i32, i32)>, start: i32, end: i32) -> Set<i32> {
    Set::new(|fd: i32| start <= fd < end && !is_planned(fds, fd))
}

/// The table after one step of the child whose descriptors are `fds`.
pub open spec fn after_op(t: Map<i32, OpenFile>, op: ChildOp, fds: Seq<(i32, i32)>) -> Map<
    i32,
    OpenFile,
> {
    match op {
        ChildOp::ClearCloexec { fd } => if t.dom().contains(fd) {
            t.insert(fd, OpenFile { file: t[fd].file, cloexec: false })
        } else {
            t
        },
        ChildOp::Dup2 { src, dst } => if t.dom().contains(src) {
            t.insert(dst, OpenFile { file: t[src].file, cloexec: false })
        } else {
            t
        },
        ChildOp::CloseRange { start, end } => t.remove_keys(closed_by(fds, start, end)),
        _ => t,
    }
}

/// The table after the steps `ops`, made in order.
pub open spec fn after_ops(t: Map<i32, OpenFile>, ops: Seq<ChildOp>, fds: Seq<(i32, i32)>) -> Map<
    i32,
    OpenFile,
>
    decreases ops.len(),
{
    if ops.len() == 0 {
        t
    } else {
        after_op(after_ops(t, ops.drop_last(), fds), ops.last(), fds)
    }
}

/// The table after `execve`: the descriptors that are not closed on it.
pub open spec fn after_exec(t: Map<i32, OpenFile>) -> Map<i32, OpenFile> {
    t.remove_keys(Set::new(|fd: i32| t.dom().contains(fd) && t[fd].cloexec))
}

/// Whether the child can put the descriptors `fds` in place one after the
/// other: no number is the target of two entries, and the source of an
/// entry is its own target or no target at all.
pub open spec fn clobber_free(fds: Seq<(i32, i32)>) -> bool {
    &&& forall|i: int, j: int|
        0 <= i < j < fds.len() ==> (#[trigger] fds[i]).0 != (#[trigger] fds[j]).0
    &&& forall|i: int|
        0 <= i < fds.len() ==> (#[trigger] fds[i]).1 == fds[i].0 || !is_planned(fds, fds[i].1)
}

/// Whether every source of `fds` is open in `t`.
pub open spec fn sources_open(t: Map<i32, OpenFile>, fds: Seq<(i32, i32)>) -> bool {
    forall|i: int| 0 <= i < fds.len() ==> t.dom().contains((#[trigger] fds[i]).1)
}

/// Whether `fd` is the target of one of the first `n` entries of `fds`.
pub open spec fn placed(fds: Seq<(i32, i32)>, n: nat, fd: i32) -> bool {
    exists|i: int| 0 <= i < n && i < fds.len() && (#[trigger] fds[i]).0 == fd
}

/// The table after the steps that put the descriptors of the child in
/// place, then close the ranges, and after `execve`.
pub open spec fn child_table(
    t: Map<i32, OpenFile>,
    fds: Seq<(i32, i32)>,
    ranges: Seq<(i32, i32)>,
) -> Map<i32, OpenFile> {
    after_exec(
        after_ops(
            after_ops(t, fd_ops(fds, fds.len()), fds),
            close_ops(ranges, ranges.len()),
            fds,
        ),
    )
}

/// After the first `n` descriptors are put in place, each of them refers to
/// the file of its source and stays open across `execve`, and every other
/// descriptor is as it was.
pub proof fn lemma_after_fd_ops(t: Map<i32, OpenFile>, fds: Seq<(i32, i32)>, n: nat)
    requires
        clobber_free(fds),
        sources_open(t, fds),
        n <= fds.len(),
    ensures
        ({
            let t1 = after_ops(t, fd_ops(fds, n), fds);
            &&& forall|i: int|
                0 <= i < n ==> t1.dom().contains((#[trigger] fds[i]).0) && t1[fds[i].0] == (
                OpenFile { file: t[fds[i].1].file, cloexec: false })
            &&& forall|fd: i32|
                !(#[trigger] placed(fds, n, fd)) ==> (t1.dom().contains(fd) <==> t.dom().contains(
                    fd,
                )) && (t.dom().contains(fd) ==> t1[fd] == t[fd])
        }),
    decreases n,
{
    if n > 0 {
        let m = (n - 1) as nat;
        lemma_after_fd_ops(t, fds, m);
        let prev_ops = fd_ops(fds, m);
        let ops = fd_ops(fds, n);
        let entry = fds[n - 1];
        assert(ops == prev_ops.push(fd_op(entry)));
        assert(ops.drop_last() =~= prev_ops);
        assert(ops.last() == fd_op(entry));
        let t0 = after_ops(t, prev_ops, fds);
        let t1 = after_ops(t, ops, fds);
        assert(t1 == after_op(t0, fd_op(entry), fds));
        let d = entry.0;
        let s = entry.1;
        // The source has not been touched by the steps before.
        assert(!placed(fds, m, s)) by {
            if placed(fds, m, s) {
                let k = choose|k: int| 0 <= k < m && k < fds.len() && (#[trigger] fds[k]).0 == s;
                if s == d {
                    assert(fds[k].0 != fds[n - 1].0);
                } else {
                    assert(is_planned(fds, s));
                }
            }
        }
        assert(t.dom().contains(s));
        assert(t0.dom().contains(s) && t0[s] == t[s]);
        assert(t1 == t0.insert(d, OpenFile { file: t[s].file, cloexec: false }));
        assert forall|i: int| 0 <= i < n implies t1.dom().contains((#[trigger] fds[i]).0)
            && t1[fds[i].0] == (OpenFile { file: t[fds[i].1].file, cloexec: false }) by {
            if i < m {
                assert(fds[i].0 != fds[n - 1].0);
            }
        }
        assert forall|fd: i32| !(#[trigger] placed(fds, n, fd)) implies (t1.dom().contains(fd)
            <==> t.dom().contains(fd)) && (t.dom().contains(fd) ==> t1[fd] == t[fd]) by {
            assert(fd != d) by {
                if fd == d {
                    assert(fds[n - 1].0 == fd);
                }
            }
            assert(!placed(fds, m, fd)) by {
                if placed(fds, m, fd) {
                    let k = choose|k: int|
                        0 <= k < m && k < fds.len() && (#[trigger] fds[k]).0 == fd;
                    assert(0 <= k < n && fds[k].0 == fd);
                }
            }
        }
    }
}

/// After the first `n` ranges are closed, the descriptors that lie in one of
/// them and are not the child's own are gone; the others are as they were.
pub proof fn lemma_after_close_ops(
    t: Map<i32, OpenFile>,
    fds: Seq<(i32, i32)>,
    ranges: Seq<(i32, i32)>,
    n: nat,
)
    requires
        n <= ranges.len(),
    ensures
        after_ops(t, close_ops(ranges, n), fds) == t.remove_keys(
            Set::new(|fd: i32| in_ranges(ranges, n, fd) && !is_planned(fds, fd)),
        ),
    decreases n,
{
    let gone = Set::new(|fd: i32| in_ranges(ranges, n, fd) && !is_planned(fds, fd));
    if n == 0 {
        assert(t.remove_keys(gone) =~= t);
    } else {
        let m = (n - 1) as nat;
        lemma_after_close_ops(t, fds, ranges, m);
        let prev_ops = close_ops(ranges, m);
        let ops = close_ops(ranges, n);
        let op = ChildOp::CloseRange { start: ranges[n - 1].0, end: ranges[n - 1].1 };
        assert(ops == prev_ops.push(op));
        assert(ops.drop_last() =~= prev_ops);
        assert(ops.last() == op);
        let gone_before = Set::new(|fd: i32| in_ranges(ranges, m, fd) && !is_planned(fds, fd));
        let t0 = t.remove_keys(gone_before);
        let t1 = after_ops(t, ops, fds);
        assert(t1 == t0.remove_keys(closed_by(fds, ranges[n - 1].0, ranges[n - 1].1)));
        assert forall|fd: i32| gone.contains(fd) <==> (gone_before.contains(fd) || closed_by(
            fds,
            ranges[n - 1].0,
            ranges[n - 1].1,
        ).contains(fd)) by {
            if in_ranges(ranges, n, fd) {
                let k = choose|k: int|
                    0 <= k < n && k < ranges.len() && (#[trigger] ranges[k]).0 <= fd
                        < ranges[k].1;
                if k < m {
                    assert(in_ranges(ranges, m, fd));
                }
            }
            if in_ranges(ranges, m, fd) {
                let k = choose|k: int|
                    0 <= k < m && k < ranges.len() && (#[trigger] ranges[k]).0 <= fd
                        < ranges[k].1;
                assert(0 <= k < n && ranges[k].0 <= fd < ranges[k].1);
            }
            if ranges[n - 1].0 <= fd < ranges[n - 1].1 {
                assert(in_ranges(ranges, n, fd));
            }
        }
        assert(t1 =~= t.remove_keys(gone));
    }
}

/// The descriptors of the child after `execve`, for any table `t` that the
/// steps before leave, provided that the plan is free of clobbering and its
/// sources are open:
///
/// - every descriptor of the plan is open and refers to the file that its
///   source referred to, whatever the order of the entries and whether or
///   not a close range covers it;
/// - any other descriptor is open exactly if it was open, was not marked
///   close-on-exec and lies in no close range, and then it is unchanged.
pub proof fn lemma_child_descriptors(
    t: Map<i32, OpenFile>,
    fds: Seq<(i32, i32)>,
    ranges: Seq<(i32, i32)>,
)
    requires
        clobber_free(fds),
        sources_open(t, fds),
    ensures
        forall|i: int|
            0 <= i < fds.len() ==> child_table(t, fds, ranges).dom().contains(
                (#[trigger] fds[i]).0,
            ) && child_table(t, fds, ranges)[fds[i].0].file == t[fds[i].1].file,
        forall|fd: i32|
            !is_planned(fds, fd) ==> (#[trigger] child_table(t, fds, ranges).dom().contains(fd) <==> (
            t.dom().contains(fd) && !t[fd].cloexec && !in_ranges(ranges, ranges.len(), fd))),
        forall|fd: i32|
            !is_planned(fds, fd) && child_table(t, fds, ranges).dom().contains(fd)
                ==> #[trigger] child_table(t, fds, ranges)[fd] == t[fd],
{
    let t1 = after_ops(t, fd_ops(fds, fds.len()), fds);
    let t2 = after_ops(t1, close_ops(ranges, ranges.len()), fds);
    let t3 = after_exec(t2);
    lemma_after_fd_ops(t, fds, fds.len());
    lemma_after_close_ops(t1, fds, ranges, ranges.len());
    assert forall|i: int| 0 <= i < fds.len() implies t3.dom().contains((#[trigger] fds[i]).0)
        && t3[fds[i].0].file == t[fds[i].1].file by {
        assert(is_planned(fds, fds[i].0));
        assert(t1.dom().contains(fds[i].0));
        assert(t2.dom().contains(fds[i].0));
        assert(t2[fds[i].0] == t1[fds[i].0]);
    }
    assert forall|fd: i32| !is_planned(fds, fd) implies (#[trigger] t3.dom().contains(fd) <==> (
    t.dom().contains(fd) && !t[fd].cloexec && !in_ranges(ranges, ranges.len(), fd))) by {
        assert(!placed(fds, fds.len(), fd)) by {
            if placed(fds, fds.len(), fd) {
                let k = choose|k: int|
                    0 <= k < fds.len() && (#[trigger] fds[k]).0 == fd;
                assert(is_planned(fds, fd));
            }
        }
        if t.dom().contains(fd) {
            assert(t1[fd] == t[fd]);
        }
    }
    assert forall|fd: i32| !is_planned(fds, fd) && t3.dom().contains(fd) implies #[trigger] t3[fd]
        == t[fd] by {
        assert(!placed(fds, fds.len(), fd)) by {
            if placed(fds, fds.len(), fd) {
                let k = choose|k: int|
                    0 <= k < fds.len() && (#[trigger] fds[k]).0 == fd;
                assert(is_planned(fds, fd));
            }
        }
        assert(t2.dom().contains(fd));
        assert(t1.dom().contains(fd));
        assert(t1[fd] == t[fd]);
    }
}

} // verus!
