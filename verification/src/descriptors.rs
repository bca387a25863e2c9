//! The descriptor planner: from what the caller wants each descriptor of the
//! child to be, to the descriptor of the parent that the child copies it
//! from.
use vstd::prelude::*;
use crate::errno::EMFILE;
use crate::error::{result, Error, ErrorCode, IntoError, SysError};
use crate::pipe::{PipeHolder, PipeReader, PipeWriter};
use crate::stdio::{Closing, Fd, FdKind};
use crate::sys::{dup_cloexec, open_cloexec, pipe_cloexec, O_RDONLY, O_WRONLY};

verus! {

/// The lowest descriptor that is not one of the three standard streams.
pub const FIRST_FREE_FD: i32 = 3;

/// What the planner hands to the rest of the spawn.
pub struct DescriptorPlan {
    /// For each descriptor of the child, in the order of the request: its
    /// number, and the descriptor of the parent that it is copied from.
    pub inner: Vec<(i32, i32)>,
    /// For each pipe that was asked for: the number of the descriptor of
    /// the child, and the end that the parent keeps.
    pub outer: Vec<(i32, PipeHolder)>,
    /// The descriptors opened for the child, one guard for each, in the
    /// order in which they were opened; they are closed in the parent when
    /// the plan goes away.
    pub guards: Vec<Closing>,
    /// For each entry of the request, how many descriptors were opened for
    /// it.
    pub opened: Vec<usize>,
}

/// Which end of a pipe the parent keeps.
#[derive(Debug, Clone, Copy, PartialEq, Eq, Structural)]
pub enum PipeEnd {
    Reader,
    Writer,
}

impl PipeHolder {
    /// Which end of the pipe this is.
    pub open spec fn end(self) -> PipeEnd {
        match self {
            PipeHolder::Reader(_) => PipeEnd::Reader,
            PipeHolder::Writer(_) => PipeEnd::Writer,
        }
    }
}

/// Whether `fd` is the number of a descriptor of the child in the request
/// `fds`.
pub open spec fn is_target(fds: Seq<(i32, Fd)>, fd: i32) -> bool {
    exists|i: int| 0 <= i < fds.len() && (#[trigger] fds[i]).0 == fd
}

/// Whether no number occurs twice as a descriptor of the child in `fds`.
pub open spec fn distinct_targets(fds: Seq<(i32, Fd)>) -> bool {
    forall|i: int, j: int|
        0 <= i < j < fds.len() ==> (#[trigger] fds[i]).0 != (#[trigger] fds[j]).0
}

/// Whether the request connects the three standard streams in their own
/// direction where it makes them pipes: the child reads its input and
/// writes its two outputs.
pub open spec fn stdio_in_direction(fds: Seq<(i32, Fd)>) -> bool {
    forall|i: int|
        0 <= i < fds.len() ==> {
            &&& (#[trigger] fds[i]).0 == 0 ==> fds[i].1.kind() != FdKind::WritePipe
            &&& (fds[i].0 == 1 || fds[i].0 == 2) ==> fds[i].1.kind() != FdKind::ReadPipe
        }
}

/// Whether the entry `i` of the request can be served as it stands: the
/// child inherits the descriptor, or is given one that no other entry of the
/// request would overwrite.
pub open spec fn settled(fds: Seq<(i32, Fd)>, i: int) -> bool {
    match fds[i].1.kind() {
        FdKind::Inherit => true,
        FdKind::Given => {
            let fd = fds[i].1.given().unwrap();
            fd == fds[i].0 || !is_target(fds, fd)
        },
        _ => false,
    }
}

/// The descriptor of the parent that serves a settled entry.
pub open spec fn settled_source(entry: (i32, Fd)) -> i32 {
    match entry.1.given() {
        Some(fd) => fd,
        None => entry.0,
    }
}

/// The ends that the parent keeps for the first `n` entries of the request:
/// the writing end of each pipe that the child reads, the reading end of
/// each pipe that the child writes.
pub open spec fn kept_ends(fds: Seq<(i32, Fd)>, n: nat) -> Seq<(i32, PipeEnd)>
    decreases n,
{
    if n == 0 || n > fds.len() {
        Seq::empty()
    } else {
        let before = kept_ends(fds, (n - 1) as nat);
        match fds[n - 1].1.kind() {
            FdKind::ReadPipe => before.push((fds[n - 1].0, PipeEnd::Writer)),
            FdKind::WritePipe => before.push((fds[n - 1].0, PipeEnd::Reader)),
            _ => before,
        }
    }
}

/// The ends that `outer` holds, without their descriptors.
pub open spec fn ends_of(outer: Seq<(i32, PipeHolder)>) -> Seq<(i32, PipeEnd)> {
    Seq::new(outer.len(), |i: int| (outer[i].0, outer[i].1.end()))
}

/// Whether `inner` serves the first `n` entries of the request `fds`: entry
/// by entry the same descriptor of the child; a source that is that
/// descriptor itself or else no descriptor of the child at all, so that no
/// copy made in the child overwrites a source that another entry still
/// needs; and for a settled entry the very descriptor that was asked for.
pub open spec fn serves(fds: Seq<(i32, Fd)>, inner: Seq<(i32, i32)>, n: int) -> bool {
    &&& inner.len() == n
    &&& n <= fds.len()
    &&& forall|i: int|
        0 <= i < n ==> {
            &&& (#[trigger] inner[i]).0 == fds[i].0
            &&& (inner[i].1 == inner[i].0 || !is_target(fds, inner[i].1))
            &&& (fds[i].1.kind() == FdKind::Inherit ==> inner[i].1 == fds[i].0)
            &&& (settled(fds, i) ==> inner[i].1 == settled_source(fds[i]))
        }
}

/// Whether one of `guards` holds the descriptor `fd`.
pub open spec fn guarded(guards: Seq<Closing>, fd: i32) -> bool {
    exists|k: int| 0 <= k < guards.len() && (#[trigger] guards[k]).fd == fd
}

/// Whether `guards` hold every source among the first `n` of `inner` that
/// the request did not name itself: for those the planner has opened a
/// descriptor, which is closed in the parent when the guards go away.
pub open spec fn opened_are_guarded(
    fds: Seq<(i32, Fd)>,
    inner: Seq<(i32, i32)>,
    guards: Seq<Closing>,
    n: int,
) -> bool {
    forall|i: int|
        0 <= i < n && (#[trigger] inner[i]).1 != settled_source(fds[i]) ==> guarded(
            guards,
            inner[i].1,
        )
}

/// How many descriptors were opened for the first `n` entries together.
pub open spec fn opened_before(opened: Seq<usize>, n: nat) -> int
    decreases n,
{
    if n == 0 || n > opened.len() {
        0
    } else {
        opened_before(opened, (n - 1) as nat) + opened[n - 1]
    }
}

/// Whether the descriptor `fd` of the parent is in the way of the request
/// when it serves the descriptor `dest` of the child: it is the number of
/// another descriptor of the child, so a copy made in the child would
/// overwrite it.
pub open spec fn in_the_way(fds: Seq<(i32, Fd)>, dest: i32, fd: i32) -> bool {
    fd != dest && is_target(fds, fd)
}

/// Whether the guards for the entry `i` of the request are the descriptors
/// opened for it, one guard for each and in the order of their opening.
///
/// The guards of the entry follow those of the entries before it, and there
/// are as many as `opened` says. A pipe or `/dev/null` is opened first; a
/// descriptor that is inherited or given is not. Then a duplicate is made
/// for as long as the descriptor at hand is in the way. So every guard of the
/// entry but the last holds a descriptor that was in the way, and the last
/// holds the source of the entry; where nothing was opened, the source is
/// the descriptor that was asked for; and where a given descriptor was
/// duplicated, it was in the way itself.
pub open spec fn guards_of_entry(
    fds: Seq<(i32, Fd)>,
    inner: Seq<(i32, i32)>,
    opened: Seq<usize>,
    guards: Seq<Closing>,
    i: int,
) -> bool {
    let a = opened_before(opened, i as nat);
    let k = opened[i] as int;
    let dest = fds[i].0;
    let named = fds[i].1.kind() == FdKind::Inherit || fds[i].1.kind() == FdKind::Given;
    &&& 0 <= a
    &&& a + k <= guards.len()
    &&& !named ==> k >= 1
    &&& k == 0 ==> inner[i].1 == settled_source(fds[i])
    &&& k >= 1 ==> guards[a + k - 1].fd == inner[i].1
    &&& named && k >= 1 ==> in_the_way(fds, dest, settled_source(fds[i]))
    &&& forall|j: int| a <= j < a + k - 1 ==> in_the_way(fds, dest, (#[trigger] guards[j]).fd)
}

/// Whether `guards` are exactly the descriptors opened for the first `n`
/// entries of the request: one guard for each descriptor, entry by entry;
/// see `guards_of_entry`.
pub open spec fn guards_fit(
    fds: Seq<(i32, Fd)>,
    inner: Seq<(i32, i32)>,
    opened: Seq<usize>,
    guards: Seq<Closing>,
    n: int,
) -> bool {
    &&& opened.len() == n
    &&& guards.len() == opened_before(opened, n as nat)
    &&& forall|i: int| 0 <= i < n ==> #[trigger] guards_of_entry(fds, inner, opened, guards, i)
}

/// The count of descriptors opened for the first entries does not change
/// when a later entry is added, and does not go down from entry to entry.
pub proof fn lemma_opened_before(opened: Seq<usize>, more: Seq<usize>, m: nat, n: nat)
    requires
        m <= n <= opened.len(),
        opened.len() <= more.len(),
        forall|i: int| 0 <= i < opened.len() ==> opened[i] == more[i],
    ensures
        opened_before(more, n) == opened_before(opened, n),
        0 <= opened_before(opened, m) <= opened_before(opened, n),
        m < n ==> opened_before(opened, m) + opened[m as int] <= opened_before(opened, n),
    decreases n,
{
    if n > 0 {
        if m < n {
            lemma_opened_before(opened, more, m, (n - 1) as nat);
        } else {
            lemma_opened_before(opened, more, (m - 1) as nat, (n - 1) as nat);
        }
    }
}

/// The guards of an entry stay what they are when the planner goes on to
/// later entries: what it adds comes after them.
pub proof fn lemma_guards_of_entry_stay(
    fds: Seq<(i32, Fd)>,
    inner: Seq<(i32, i32)>,
    opened: Seq<usize>,
    guards: Seq<Closing>,
    inner2: Seq<(i32, i32)>,
    opened2: Seq<usize>,
    guards2: Seq<Closing>,
    i: int,
)
    requires
        0 <= i < opened.len(),
        i < inner.len(),
        guards_of_entry(fds, inner, opened, guards, i),
        guards.len() == opened_before(opened, opened.len()),
        inner.len() <= inner2.len(),
        opened.len() <= opened2.len(),
        guards.len() <= guards2.len(),
        forall|j: int| 0 <= j < inner.len() ==> inner[j] == inner2[j],
        forall|j: int| 0 <= j < opened.len() ==> opened[j] == opened2[j],
        forall|j: int| 0 <= j < guards.len() ==> guards[j] == guards2[j],
    ensures
        guards_of_entry(fds, inner2, opened2, guards2, i),
{
    lemma_opened_before(opened, opened2, i as nat, i as nat);
    lemma_opened_before(opened, opened2, i as nat, opened.len());
    let a = opened_before(opened, i as nat);
    let k = opened[i] as int;
    assert(a + k <= guards.len());
    assert forall|j: int| a <= j < a + k - 1 implies in_the_way(
        fds,
        fds[i].0,
        (#[trigger] guards2[j]).fd,
    ) by {
        assert(guards[j] == guards2[j]);
    }
}

/// Among the guards of an entry, the source of the entry is held by exactly
/// one: the last. A descriptor that is guarded twice for one entry would be
/// closed twice.
pub proof fn lemma_one_guard_for_the_source(
    fds: Seq<(i32, Fd)>,
    inner: Seq<(i32, i32)>,
    opened: Seq<usize>,
    guards: Seq<Closing>,
    i: int,
    j: int,
)
    requires
        serves(fds, inner, fds.len() as int),
        guards_fit(fds, inner, opened, guards, fds.len() as int),
        0 <= i < fds.len(),
        opened_before(opened, i as nat) <= j < opened_before(opened, i as nat) + opened[i],
        guards[j].fd == inner[i].1,
    ensures
        j == opened_before(opened, i as nat) + opened[i] - 1,
{
    assert(guards_of_entry(fds, inner, opened, guards, i));
    assert(inner[i].0 == fds[i].0);
    assert(!in_the_way(fds, fds[i].0, inner[i].1));
    let a = opened_before(opened, i as nat);
    let k = opened[i] as int;
    if j < a + k - 1 {
        assert(in_the_way(fds, fds[i].0, guards[j].fd));
    }
}

/// An entry whose first descriptor is not in the way has no duplicate: a
/// pipe or `/dev/null` that is opened on a descriptor that no entry of the
/// request names gets exactly one guard, and a descriptor that is inherited
/// or given and not in the way gets none.
pub proof fn lemma_no_needless_guard(
    fds: Seq<(i32, Fd)>,
    inner: Seq<(i32, i32)>,
    opened: Seq<usize>,
    guards: Seq<Closing>,
    i: int,
)
    requires
        serves(fds, inner, fds.len() as int),
        guards_fit(fds, inner, opened, guards, fds.len() as int),
        0 <= i < fds.len(),
    ensures
        settled(fds, i) ==> opened[i] == 0,
        opened[i] >= 2 ==> in_the_way(
            fds,
            fds[i].0,
            guards[opened_before(opened, i as nat)].fd,
        ),
{
    assert(guards_of_entry(fds, inner, opened, guards, i));
    let a = opened_before(opened, i as nat);
    if opened[i] >= 2 {
        assert(in_the_way(fds, fds[i].0, guards[a].fd));
    }
}

/// Every source that the request did not name itself is held by a guard.
pub proof fn lemma_guards_hold_the_opened(
    fds: Seq<(i32, Fd)>,
    inner: Seq<(i32, i32)>,
    opened: Seq<usize>,
    guards: Seq<Closing>,
    n: int,
)
    requires
        guards_fit(fds, inner, opened, guards, n),
    ensures
        opened_are_guarded(fds, inner, guards, n),
{
    assert forall|i: int| 0 <= i < n && (#[trigger] inner[i]).1 != settled_source(
        fds[i],
    ) implies guarded(guards, inner[i].1) by {
        assert(guards_of_entry(fds, inner, opened, guards, i));
        let a = opened_before(opened, i as nat);
        let k = opened[i] as int;
        assert(guards[a + k - 1].fd == inner[i].1);
    }
}

/// How the source of an entry of the request comes about.
#[derive(Debug, Clone, Copy, PartialEq, Eq, Structural)]
pub enum Opening {
    /// A pipe is made; `child_reads` says which end the child gets.
    Pipe { child_reads: bool },
    /// `/dev/null` is opened; `child_writes` says for what.
    Null { child_writes: bool },
    /// The request names an open descriptor of the parent.
    Named { fd: i32 },
}

/// How the planner goes on after it has asked for a duplicate.
#[derive(Debug, PartialEq, Eq)]
pub enum DupStep {
    /// The duplicate is the source of the entry.
    Done(i32),
    /// The duplicate is in the way too: another one is made of it.
    Again(i32),
    /// The planner gives up with this error.
    Failed(Error),
}

/// How the source of the entry `entry` comes about: a pipe that the child
/// reads or writes, `/dev/null` for reading or for writing, or a descriptor
/// that the request names, which for an inherited descriptor is the one
/// with the number of the target.
pub open spec fn spec_opening(entry: (i32, Fd)) -> Opening {
    match entry.1 {
        Fd::ReadPipe => Opening::Pipe { child_reads: true },
        Fd::WritePipe => Opening::Pipe { child_reads: false },
        Fd::ReadNull => Opening::Null { child_writes: false },
        Fd::WriteNull => Opening::Null { child_writes: true },
        Fd::Inherit => Opening::Named { fd: entry.0 },
        Fd::Fd(c) => Opening::Named { fd: c.fd },
        Fd::RawFd(fd) => Opening::Named { fd },
    }
}

/// The access mode with which `/dev/null` is opened for a descriptor that
/// the child writes, or reads.
pub open spec fn spec_null_access(child_writes: bool) -> i32 {
    if child_writes {
        O_WRONLY
    } else {
        O_RDONLY
    }
}

/// What the planner makes of the outcome `r` of making a pipe, the read end
/// first: the descriptor that the child gets and the end that the parent
/// keeps are the two ends of that pipe, the read end for a child that reads
/// and the write end for one that writes; a failure is an error of kind
/// `CreatePipe`.
pub open spec fn spec_pipe_ends(r: Result<(i32, i32), SysError>, child_reads: bool) -> Result<
    (i32, PipeHolder),
    Error,
> {
    match r {
        Ok((rd, wr)) => if child_reads {
            Ok((rd, PipeHolder::Writer(PipeWriter { fd: wr })))
        } else {
            Ok((wr, PipeHolder::Reader(PipeReader { fd: rd })))
        },
        Err(e) => Err(e.spec_into_error(ErrorCode::CreatePipe)),
    }
}

/// What the planner makes of the outcome `r` of duplicating a descriptor
/// that is in the way of the entry for `dest`, when it may make `left` more
/// duplicates: a failure is an error of kind `CreatePipe`; a duplicate that
/// is not in the way is the source; one that is in the way is duplicated in
/// its turn, unless no more may be made, which is the error
/// `CreatePipe(EMFILE)`.
pub open spec fn spec_dup_step(
    fds: Seq<(i32, Fd)>,
    dest: i32,
    r: Result<i32, SysError>,
    left: usize,
) -> DupStep {
    match r {
        Err(e) => DupStep::Failed(e.spec_into_error(ErrorCode::CreatePipe)),
        Ok(n) => if !in_the_way(fds, dest, n) {
            DupStep::Done(n)
        } else if left == 0 {
            DupStep::Failed(Error::CreatePipe(EMFILE))
        } else {
            DupStep::Again(n)
        },
    }
}

/// Says how the source of the entry for the descriptor `target` with the
/// intent `intent` comes about; see `spec_opening`.
pub fn opening(target: i32, intent: &Fd) -> (r: Opening)
    ensures
        r == spec_opening((target, *intent)),
{
    match intent {
        Fd::ReadPipe => Opening::Pipe { child_reads: true },
        Fd::WritePipe => Opening::Pipe { child_reads: false },
        Fd::ReadNull => Opening::Null { child_writes: false },
        Fd::WriteNull => Opening::Null { child_writes: true },
        Fd::Inherit => Opening::Named { fd: target },
        Fd::Fd(c) => Opening::Named { fd: c.as_raw_fd() },
        Fd::RawFd(fd) => Opening::Named { fd: *fd },
    }
}

/// The access mode with which `/dev/null` is opened: for writing only if
/// the child writes to the descriptor, else for reading only.
pub fn null_access(child_writes: bool) -> (r: i32)
    ensures
        r == spec_null_access(child_writes),
{
    if child_writes {
        O_WRONLY
    } else {
        O_RDONLY
    }
}

/// Deals out the two ends of a pipe that was made, or reports the failure;
/// see `spec_pipe_ends`.
pub fn pipe_ends(r: Result<(i32, i32), SysError>, child_reads: bool) -> (out: Result<
    (i32, PipeHolder),
    Error,
>)
    ensures
        out == spec_pipe_ends(r, child_reads),
{
    match r {
        Ok((rd, wr)) => if child_reads {
            Ok((rd, PipeHolder::Writer(PipeWriter { fd: wr })))
        } else {
            Ok((wr, PipeHolder::Reader(PipeReader { fd: rd })))
        },
        Err(e) => Err(e.into_error(ErrorCode::CreatePipe)),
    }
}

/// Whether the descriptor `fd` of the parent is in the way of the request
/// when it serves the descriptor `dest` of the child.
pub fn is_in_the_way(fds: &Vec<(i32, Fd)>, dest: i32, fd: i32) -> (r: bool)
    ensures
        r == in_the_way(fds@, dest, fd),
{
    fd != dest && contains_target(fds, fd)
}

/// Judges the outcome of duplicating a descriptor that is in the way; see
/// `spec_dup_step`.
pub fn dup_step(fds: &Vec<(i32, Fd)>, dest: i32, r: Result<i32, SysError>, left: usize) -> (out:
    DupStep)
    ensures
        out == spec_dup_step(fds@, dest, r, left),
{
    match r {
        Err(e) => DupStep::Failed(e.into_error(ErrorCode::CreatePipe)),
        Ok(n) => if !is_in_the_way(fds, dest, n) {
            DupStep::Done(n)
        } else if left == 0 {
            DupStep::Failed(Error::CreatePipe(EMFILE))
        } else {
            DupStep::Again(n)
        },
    }
}

/// Whether the descriptor that the child gets for the entry `i` of the
/// request and the end that the parent keeps for it are the two ends of one
/// pipe, dealt out as `spec_pipe_ends` says, if the entry asks for a pipe.
/// The descriptor of the child is the first that was opened for the entry;
/// the end of the parent stands among the kept ends where the pipes before
/// it leave off.
pub open spec fn pipe_of_entry(
    fds: Seq<(i32, Fd)>,
    opened: Seq<usize>,
    guards: Seq<Closing>,
    outer: Seq<(i32, PipeHolder)>,
    i: int,
) -> bool {
    spec_opening(fds[i]) matches Opening::Pipe { child_reads } ==> {
        let a = opened_before(opened, i as nat);
        let k = kept_ends(fds, i as nat).len() as int;
        &&& 0 <= a < guards.len()
        &&& 0 <= k < outer.len()
        &&& exists|ends: (i32, i32)| #[trigger]
            spec_pipe_ends(Ok(ends), child_reads) == Ok::<(i32, PipeHolder), Error>(
                (guards[a].fd, outer[k].1),
            )
    }
}

/// Whether the pipes of the first `n` entries of the request are dealt out
/// as `pipe_of_entry` says.
pub open spec fn pipes_fit(
    fds: Seq<(i32, Fd)>,
    opened: Seq<usize>,
    guards: Seq<Closing>,
    outer: Seq<(i32, PipeHolder)>,
    n: int,
) -> bool {
    forall|i: int| 0 <= i < n ==> #[trigger] pipe_of_entry(fds, opened, guards, outer, i)
}

/// The ends kept for the first entries stay where they are when later
/// entries are looked at, and there is one more after an entry that asks for
/// a pipe.
pub proof fn lemma_kept_ends_grow(fds: Seq<(i32, Fd)>, m: nat, n: nat)
    requires
        m <= n <= fds.len(),
    ensures
        kept_ends(fds, m).len() <= kept_ends(fds, n).len(),
        m < n && spec_opening(fds[m as int]) is Pipe ==> kept_ends(fds, m).len() < kept_ends(
            fds,
            n,
        ).len(),
    decreases n - m,
{
    if m < n {
        lemma_kept_ends_grow(fds, (m + 1) as nat, n);
    }
}

/// The pipe of an entry stays what it is when the planner goes on to later
/// entries: what it adds comes after.
pub proof fn lemma_pipe_of_entry_stays(
    fds: Seq<(i32, Fd)>,
    opened: Seq<usize>,
    guards: Seq<Closing>,
    outer: Seq<(i32, PipeHolder)>,
    opened2: Seq<usize>,
    guards2: Seq<Closing>,
    outer2: Seq<(i32, PipeHolder)>,
    i: int,
)
    requires
        0 <= i < opened.len(),
        i < fds.len(),
        pipe_of_entry(fds, opened, guards, outer, i),
        opened.len() <= opened2.len(),
        guards.len() <= guards2.len(),
        outer.len() <= outer2.len(),
        forall|j: int| 0 <= j < opened.len() ==> opened[j] == opened2[j],
        forall|j: int| 0 <= j < guards.len() ==> guards[j] == guards2[j],
        forall|j: int| 0 <= j < outer.len() ==> outer[j] == outer2[j],
    ensures
        pipe_of_entry(fds, opened2, guards2, outer2, i),
{
    lemma_opened_before(opened, opened2, i as nat, i as nat);
    match spec_opening(fds[i]) {
        Opening::Pipe { child_reads } => {
            let a = opened_before(opened, i as nat);
            let k = kept_ends(fds, i as nat).len() as int;
            let ends = choose|ends: (i32, i32)| #[trigger]
                spec_pipe_ends(Ok(ends), child_reads) == Ok::<(i32, PipeHolder), Error>(
                    (guards[a].fd, outer[k].1),
                );
            assert(guards2[a] == guards[a]);
            assert(outer2[k] == outer[k]);
            assert(spec_pipe_ends(Ok(ends), child_reads) == Ok::<(i32, PipeHolder), Error>(
                (guards2[a].fd, outer2[k].1),
            ));
        },
        _ => {},
    }
}

/// Whether `fd` is the number of a descriptor of the child in the request
/// `fds`.
pub fn contains_target(fds: &Vec<(i32, Fd)>, fd: i32) -> (r: bool)
    ensures
        r == is_target(fds@, fd),
{
    let mut i: usize = 0;
    while i < fds.len()
        invariant
            0 <= i <= fds.len(),
            forall|j: int| 0 <= j < i ==> (#[trigger] fds@[j]).0 != fd,
        decreases fds.len() - i,
    {
        if fds[i].0 == fd {
            return true;
        }
        i = i + 1;
    }
    false
}

/// Finds for every descriptor of the child the descriptor of the parent
/// that it is copied from, creating the pipes and opening `/dev/null` where
/// the request asks for them.
///
/// How the source of an entry comes about is said by `opening`. Of a pipe
/// the child gets one end and the parent keeps the other, as `pipe_ends`
/// deals them out. `/dev/null` is opened with the access mode that
/// `null_access` gives. A source that is the number of another descriptor
/// of the child is duplicated, from descriptor 3 upwards, and so is the
/// duplicate if it is in the way again, as `dup_step` judges: otherwise a
/// copy made in the child could overwrite it before it is used. The planner
/// gives up with `CreatePipe(EMFILE)` when it has made as many duplicates for
/// one entry as the request has entries and the last is in the way too.
///
/// Whatever the system answers, a plan that is returned serves the whole
/// request, holds the parent's end of exactly the pipes asked for, each with
/// the child's end of the same pipe as the first descriptor opened for its
/// entry, and holds one guard for each descriptor that was opened, and no
/// other. A request in which every entry is settled is served without any
/// system call and cannot fail.
pub fn prepare_descriptors(fds: &Vec<(i32, Fd)>) -> (r: Result<DescriptorPlan, Error>)
    ensures
        match r {
            Ok(plan) => {
                &&& serves(fds@, plan.inner@, fds@.len() as int)
                &&& ends_of(plan.outer@) == kept_ends(fds@, fds@.len())
                &&& guards_fit(fds@, plan.inner@, plan.opened@, plan.guards@, fds@.len() as int)
                &&& pipes_fit(fds@, plan.opened@, plan.guards@, plan.outer@, fds@.len() as int)
                &&& opened_are_guarded(fds@, plan.inner@, plan.guards@, fds@.len() as int)
            },
            Err(e) => {
                &&& e is CreatePipe || e is NixError
                &&& exists|i: int| 0 <= i < fds@.len() && !settled(fds@, i)
            },
        },
{
    let mut inner: Vec<(i32, i32)> = Vec::new();
    let mut outer: Vec<(i32, PipeHolder)> = Vec::new();
    let mut guards: Vec<Closing> = Vec::new();
    let mut opened: Vec<usize> = Vec::new();
    let mut i: usize = 0;
    assert(ends_of(outer@) =~= kept_ends(fds@, 0));
    while i < fds.len()
        invariant
            0 <= i <= fds.len(),
            serves(fds@, inner@, i as int),
            ends_of(outer@) == kept_ends(fds@, i as nat),
            guards_fit(fds@, inner@, opened@, guards@, i as int),
            pipes_fit(fds@, opened@, guards@, outer@, i as int),
        decreases fds.len() - i,
    {
        let dest_fd: i32 = fds[i].0;
        let base: usize = guards.len();
        let ghost guards0 = guards@;
        let ghost inner0 = inner@;
        let ghost opened0 = opened@;
        let ghost outer0 = outer@;
        let how = opening(dest_fd, &fds[i].1);
        let first: i32 = match how {
            Opening::Pipe { child_reads } => {
                let made = pipe_cloexec();
                match pipe_ends(made, child_reads) {
                    Ok((fd, holder)) => {
                        guards.push(Closing::new(fd));
                        outer.push((dest_fd, holder));
                        proof {
                            assert(made is Ok);
                            assert(spec_pipe_ends(Ok(made->Ok_0), child_reads) == Ok::<
                                (i32, PipeHolder),
                                Error,
                            >((guards@[base as int].fd, outer@[outer0.len() as int].1)));
                        }
                        fd
                    },
                    Err(e) => {
                        assert(!settled(fds@, i as int));
                        return Err(e);
                    },
                }
            },
            Opening::Null { child_writes } => {
                let access = null_access(child_writes);
                match result(ErrorCode::CreatePipe, open_cloexec(&DEV_NULL, access)) {
                    Ok(fd) => {
                        guards.push(Closing::new(fd));
                        fd
                    },
                    Err(e) => {
                        assert(!settled(fds@, i as int));
                        return Err(e);
                    },
                }
            },
            Opening::Named { fd } => fd,
        };
        proof {
            assert(ends_of(outer@) =~= kept_ends(fds@, (i + 1) as nat));
        }
        let ghost named = how is Named;
        let mut fd: i32 = first;
        if is_in_the_way(fds, dest_fd, first) {
            assert(!settled(fds@, i as int));
            let mut left: usize = fds.len();
            loop
                invariant_except_break
                    in_the_way(fds@, dest_fd, fd),
                    left >= 1,
                invariant
                    0 <= i < fds.len(),
                    dest_fd == fds@[i as int].0,
                    named == (fds@[i as int].1.kind() == FdKind::Inherit || fds@[i as int].1.kind()
                        == FdKind::Given),
                    inner@ == inner0,
                    opened@ == opened0,
                    base == guards0.len(),
                    !settled(fds@, i as int),
                    guards@.len() >= base,
                    forall|j: int| 0 <= j < base ==> guards@[j] == guards0[j],
                    !named ==> guards@.len() >= base + 1,
                    !named ==> guards@[base as int].fd == first,
                    named ==> in_the_way(fds@, dest_fd, settled_source(fds@[i as int])),
                    guards@.len() >= base + 1 ==> guards@[guards@.len() - 1].fd == fd,
                    forall|j: int|
                        base <= j < guards@.len() - 1 ==> in_the_way(
                            fds@,
                            dest_fd,
                            (#[trigger] guards@[j]).fd,
                        ),
                ensures
                    !in_the_way(fds@, dest_fd, fd),
                    guards@.len() >= base + 1,
                decreases left,
            {
                left = left - 1;
                let made = dup_cloexec(fd, FIRST_FREE_FD);
                let ghost held = guards@;
                match dup_step(fds, dest_fd, made, left) {
                    DupStep::Done(n) => {
                        guards.push(Closing::new(n));
                        proof {
                            assert forall|j: int| base <= j < guards@.len() - 1 implies in_the_way(
                                fds@,
                                dest_fd,
                                (#[trigger] guards@[j]).fd,
                            ) by {
                                assert(guards@[j] == held[j]);
                            }
                        }
                        fd = n;
                        break ;
                    },
                    DupStep::Again(n) => {
                        guards.push(Closing::new(n));
                        proof {
                            assert forall|j: int| base <= j < guards@.len() - 1 implies in_the_way(
                                fds@,
                                dest_fd,
                                (#[trigger] guards@[j]).fd,
                            ) by {
                                assert(guards@[j] == held[j]);
                            }
                        }
                        fd = n;
                    },
                    DupStep::Failed(e) => {
                        // a duplicate that was handed out is closed with the
                        // other descriptors that were opened
                        match made {
                            Ok(n) => {
                                guards.push(Closing::new(n));
                            },
                            Err(_) => {},
                        }
                        return Err(e);
                    },
                }
            }
        }
        inner.push((dest_fd, fd));
        opened.push(guards.len() - base);
        proof {
            let n = i as int;
            lemma_opened_before(opened0, opened@, n as nat, n as nat);
            assert(opened_before(opened@, (n + 1) as nat) == opened_before(opened@, n as nat)
                + opened@[n]);
            assert(guards_of_entry(fds@, inner@, opened@, guards@, n));
            assert forall|e: int| 0 <= e < n + 1 implies #[trigger] guards_of_entry(
                fds@,
                inner@,
                opened@,
                guards@,
                e,
            ) by {
                if e < n {
                    assert(guards_of_entry(fds@, inner0, opened0, guards0, e));
                    lemma_guards_of_entry_stay(
                        fds@,
                        inner0,
                        opened0,
                        guards0,
                        inner@,
                        opened@,
                        guards@,
                        e,
                    );
                }
            }
            assert(kept_ends(fds@, n as nat).len() == outer0.len()) by {
                assert(ends_of(outer0).len() == outer0.len());
            }
            assert(pipe_of_entry(fds@, opened@, guards@, outer@, n));
            assert forall|e: int| 0 <= e < n + 1 implies #[trigger] pipe_of_entry(
                fds@,
                opened@,
                guards@,
                outer@,
                e,
            ) by {
                if e < n {
                    assert(pipe_of_entry(fds@, opened0, guards0, outer0, e));
                    lemma_pipe_of_entry_stays(
                        fds@,
                        opened0,
                        guards0,
                        outer0,
                        opened@,
                        guards@,
                        outer@,
                        e,
                    );
                }
            }
        }
        i = i + 1;
    }
    proof {
        lemma_guards_hold_the_opened(fds@, inner@, opened@, guards@, fds@.len() as int);
    }
    Ok(DescriptorPlan { inner, outer, guards, opened })
}

/// The path of the device that swallows what is written and has nothing to
/// read.
pub const DEV_NULL: [u8; 9] = [47, 100, 101, 118, 47, 110, 117, 108, 108];

/// The place of the entry for the descriptor `fd` in the request `fds`.
pub open spec fn target_index(fds: Seq<(i32, Fd)>, fd: i32) -> int {
    choose|i: int| 0 <= i < fds.len() && (#[trigger] fds[i]).0 == fd
}

/// The request `fds` with the descriptor `target` of the child connected to
/// `cfg`: in the place of the entry for `target` if there is one, else after
/// all the others.
pub open spec fn with_fd(fds: Seq<(i32, Fd)>, target: i32, cfg: Fd) -> Seq<(i32, Fd)> {
    if is_target(fds, target) {
        fds.update(target_index(fds, target), (target, cfg))
    } else {
        fds.push((target, cfg))
    }
}

/// The place of the entry for the descriptor `fd` in the request `fds`, if
/// it has one.
pub fn find_target(fds: &Vec<(i32, Fd)>, fd: i32) -> (r: Option<usize>)
    requires
        distinct_targets(fds@),
    ensures
        match r {
            Some(i) => is_target(fds@, fd) && i as int == target_index(fds@, fd) && i < fds@.len(),
            None => !is_target(fds@, fd),
        },
{
    let mut i: usize = 0;
    while i < fds.len()
        invariant
            0 <= i <= fds.len(),
            distinct_targets(fds@),
            forall|j: int| 0 <= j < i ==> (#[trigger] fds@[j]).0 != fd,
        decreases fds.len() - i,
    {
        if fds[i].0 == fd {
            proof {
                let k = target_index(fds@, fd);
                assert(0 <= k < fds@.len() && fds@[k].0 == fd);
                if k < i {
                    assert(fds@[k].0 != fds@[i as int].0);
                } else if i < k {
                    assert(fds@[i as int].0 != fds@[k].0);
                }
            }
            return Some(i);
        }
        i = i + 1;
    }
    None
}

/// Connects the descriptor `target` of the child to `cfg`; what it was
/// connected to before is given up.
pub fn set_fd(fds: &mut Vec<(i32, Fd)>, target: i32, cfg: Fd)
    requires
        distinct_targets(old(fds)@),
    ensures
        final(fds)@ == with_fd(old(fds)@, target, cfg),
        distinct_targets(final(fds)@),
        is_target(final(fds)@, target),
        forall|fd: i32| fd != target ==> (is_target(final(fds)@, fd) <==> is_target(old(fds)@, fd)),
        stdio_in_direction(old(fds)@) && stdio_in_direction(seq![(target, cfg)])
            ==> stdio_in_direction(final(fds)@),
{
    let ghost before = fds@;
    proof {
        assert(seq![(target, cfg)][0] == (target, cfg));
    }
    match find_target(fds, target) {
        Some(i) => {
            fds[i] = (target, cfg);
            proof {
                let after = fds@;
                assert(after == before.update(i as int, (target, cfg)));
                assert(after[i as int].0 == target);
                assert forall|a: int, b: int| 0 <= a < b < after.len() implies (
                #[trigger] after[a]).0 != (#[trigger] after[b]).0 by {
                    assert(before[a].0 != before[b].0);
                }
                assert forall|fd: i32| fd != target implies (is_target(after, fd) <==> is_target(
                    before,
                    fd,
                )) by {
                    if is_target(after, fd) {
                        let k = choose|k: int| 0 <= k < after.len() && (#[trigger] after[k]).0 == fd;
                        assert(before[k].0 == fd);
                    }
                    if is_target(before, fd) {
                        let k = choose|k: int|
                            0 <= k < before.len() && (#[trigger] before[k]).0 == fd;
                        assert(after[k].0 == fd);
                    }
                }
            }
        },
        None => {
            fds.push((target, cfg));
            proof {
                let after = fds@;
                let n = before.len() as int;
                assert(after[n].0 == target);
                assert forall|a: int, b: int| 0 <= a < b < after.len() implies (
                #[trigger] after[a]).0 != (#[trigger] after[b]).0 by {
                    if b < n {
                        assert(before[a].0 != before[b].0);
                    } else {
                        assert(before[a].0 != target);
                    }
                }
                assert forall|fd: i32| fd != target implies (is_target(after, fd) <==> is_target(
                    before,
                    fd,
                )) by {
                    if is_target(after, fd) {
                        let k = choose|k: int| 0 <= k < after.len() && (#[trigger] after[k]).0 == fd;
                        assert(before[k].0 == fd);
                    }
                    if is_target(before, fd) {
                        let k = choose|k: int|
                            0 <= k < before.len() && (#[trigger] before[k]).0 == fd;
                        assert(after[k].0 == fd);
                    }
                }
            }
        },
    }
}

} // verus!
