//! The handle of a running child.
use vstd::prelude::*;
use std::collections::HashMap;
use crate::config::SIGKILL;
use crate::errno::{EINTR, EINVAL};
use crate::error::{IoError, SysError};
use crate::pipe::{PipeHolder, PipeReader, PipeWriter};
use crate::status::ExitStatus;
use crate::sys::{signal_from_number, sys_kill, sys_waitpid, wait_event};

verus! {

/// How often a system call that is interrupted time and again is made
/// before the library gives up.
pub const RETRY_LIMIT: u64 = 0xffff_ffff_ffff_ffff;

/// Option of `waitpid`: return at once if no child has changed state.
pub const WNOHANG: i32 = 1;

/// Option of `waitpid`: report stopped children too.
pub const WUNTRACED: i32 = 2;

/// Option of `waitpid`: report continued children too.
pub const WCONTINUED: i32 = 8;

/// What `waitpid` reports of a child.
#[derive(Debug, Clone, Copy, PartialEq, Eq, Structural)]
pub enum WaitEvent {
    /// The process with this pid exited with this code.
    Exited(i32, i32),
    /// The process with this pid was killed by this signal; the flag says
    /// whether it dumped core.
    Signaled(i32, i32, bool),
    /// The process with this pid was stopped by this signal.
    Stopped(i32, i32),
    /// The traced process with this pid was stopped by this signal for this
    /// event.
    PtraceEvent(i32, i32, i32),
    /// The traced process with this pid was stopped at a system call.
    PtraceSyscall(i32),
    /// The process with this pid was continued.
    Continued(i32),
    /// No child has changed state.
    StillAlive,
}

/// How a wait for a child goes on after a call of `waitpid`.
#[derive(Debug, Clone, Copy, PartialEq, Eq)]
pub enum WaitStep {
    /// The wait is over, with this result.
    Done(Result<ExitStatus, IoError>),
    /// The call told nothing of the end of the child: call again.
    Again,
}

/// A running child.
#[derive(Debug)]
pub struct Child {
    pub pid: i32,
    /// How the child ended, once a wait has found out.
    pub status: Option<ExitStatus>,
    /// The ends of the pipes of the child, other than its standard streams,
    /// that the parent keeps: each by the number of the descriptor of the
    /// child.
    pub fds: HashMap<i32, PipeHolder>,
    /// The standard input of the child, if it is a pipe.
    pub stdin: Option<PipeWriter>,
    /// The standard output of the child, if it is a pipe.
    pub stdout: Option<PipeReader>,
    /// The standard error stream of the child, if it is a pipe.
    pub stderr: Option<PipeReader>,
}

/// The exit code that `waitpid` reports, as the eight bits that it is.
pub open spec fn exit_code(code: i32) -> i8 {
    code as i8
}

/// What a wait makes of the outcome of a call of `waitpid`, given what it
/// knew of the end of the child before: how it goes on, and what it knows
/// after.
///
/// An exit or a death by signal ends the wait and is remembered. An
/// interrupted call and a report that tells of no end are followed by
/// another call. Any other error ends the wait.
pub open spec fn spec_wait_step(known: Option<ExitStatus>, outcome: Result<WaitEvent, SysError>)
    -> (WaitStep, Option<ExitStatus>) {
    match outcome {
        Ok(WaitEvent::Exited(_, code)) => {
            let s = ExitStatus::Exited(exit_code(code));
            (WaitStep::Done(Ok(s)), Some(s))
        },
        Ok(WaitEvent::Signaled(_, sig, core)) => {
            let s = ExitStatus::Signaled(sig, core);
            (WaitStep::Done(Ok(s)), Some(s))
        },
        Ok(_) => (WaitStep::Again, known),
        Err(SysError::Sys(errno)) => if errno == EINTR {
            (WaitStep::Again, known)
        } else {
            (WaitStep::Done(Err(IoError::Os(errno))), known)
        },
        Err(_) => (WaitStep::Done(Err(IoError::Other)), known),
    }
}

/// What sending a signal makes of the outcome of `kill`.
pub open spec fn spec_signal_result(r: Result<(), SysError>) -> Result<(), IoError> {
    match r {
        Ok(()) => Ok(()),
        Err(e) => Err(IoError::spec_from_sys(e)),
    }
}

/// Whether no number occurs twice in `fds`.
pub open spec fn distinct_holders(fds: Seq<(i32, PipeHolder)>) -> bool {
    forall|i: int, j: int|
        0 <= i < j < fds.len() ==> (#[trigger] fds[i]).0 != (#[trigger] fds[j]).0
}

/// Whether `fds` holds an end for the descriptor `fd` of the child.
pub open spec fn holds(fds: Seq<(i32, PipeHolder)>, fd: i32) -> bool {
    exists|i: int| 0 <= i < fds.len() && (#[trigger] fds[i]).0 == fd
}

/// The place of the end for the descriptor `fd` in `fds`.
pub open spec fn holder_index(fds: Seq<(i32, PipeHolder)>, fd: i32) -> int {
    choose|i: int| 0 <= i < fds.len() && (#[trigger] fds[i]).0 == fd
}

/// The ends of `fds`, each by the number of the descriptor of the child
/// that it is kept for.
pub open spec fn holders_map(fds: Seq<(i32, PipeHolder)>) -> Map<i32, PipeHolder> {
    Map::new(|fd: i32| holds(fds, fd), |fd: i32| fds[holder_index(fds, fd)].1)
}

/// Where no number occurs twice, the end at place `i` is the one found by
/// its number.
pub proof fn lemma_holder_at(fds: Seq<(i32, PipeHolder)>, i: int)
    requires
        distinct_holders(fds),
        0 <= i < fds.len(),
    ensures
        holds(fds, fds[i].0),
        holder_index(fds, fds[i].0) == i,
{
    let k = holder_index(fds, fds[i].0);
    assert(0 <= k < fds.len() && fds[k].0 == fds[i].0);
    if k < i {
        assert(fds[k].0 != fds[i].0);
    } else if i < k {
        assert(fds[i].0 != fds[k].0);
    }
}

/// The place of the end for the descriptor `fd` in `fds`, if there is one.
fn find_holder(fds: &Vec<(i32, PipeHolder)>, fd: i32) -> (r: Option<usize>)
    requires
        distinct_holders(fds@),
    ensures
        match r {
            Some(i) => holds(fds@, fd) && i as int == holder_index(fds@, fd) && i < fds@.len(),
            None => !holds(fds@, fd),
        },
{
    let mut i: usize = 0;
    while i < fds.len()
        invariant
            0 <= i <= fds.len(),
            distinct_holders(fds@),
            forall|j: int| 0 <= j < i ==> (#[trigger] fds@[j]).0 != fd,
        decreases fds.len() - i,
    {
        if fds[i].0 == fd {
            proof {
                lemma_holder_at(fds@, i as int);
            }
            return Some(i);
        }
        i = i + 1;
    }
    None
}

/// Takes the end for the descriptor `fd` out of `fds`, if there is one.
fn take_holder(fds: &mut Vec<(i32, PipeHolder)>, fd: i32) -> (r: Option<PipeHolder>)
    requires
        distinct_holders(old(fds)@),
    ensures
        distinct_holders(final(fds)@),
        holders_map(final(fds)@) == holders_map(old(fds)@).remove(fd),
        match r {
            Some(h) => holds(old(fds)@, fd) && h == holders_map(old(fds)@)[fd],
            None => !holds(old(fds)@, fd),
        },
{
    let ghost before = fds@;
    match find_holder(fds, fd) {
        Some(i) => {
            let entry = fds.remove(i);
            proof {
                let after = fds@;
                assert(after == before.remove(i as int));
                assert forall|a: int| 0 <= a < after.len() implies (#[trigger] after[a])
                    == before[if a < i {
                    a
                } else {
                    a + 1
                }] by {}
                assert forall|a: int, b: int| 0 <= a < b < after.len() implies (
                #[trigger] after[a]).0 != (#[trigger] after[b]).0 by {
                    let a2 = if a < i {
                        a
                    } else {
                        a + 1
                    };
                    let b2 = if b < i {
                        b
                    } else {
                        b + 1
                    };
                    assert(before[a2].0 != before[b2].0);
                }
                assert forall|x: i32| holds(after, x) <==> (holds(before, x) && x != fd) by {
                    if holds(after, x) {
                        let j = holder_index(after, x);
                        let j2 = if j < i {
                            j
                        } else {
                            j + 1
                        };
                        assert(before[j2].0 == x);
                        if j2 < i {
                            assert(before[j2].0 != before[i as int].0);
                        } else {
                            assert(before[i as int].0 != before[j2].0);
                        }
                    }
                    if holds(before, x) && x != fd {
                        let j = holder_index(before, x);
                        assert(j != i);
                        let j2 = if j < i {
                            j
                        } else {
                            j - 1
                        };
                        assert(after[j2].0 == x);
                    }
                }
                assert forall|x: i32| holds(after, x) implies #[trigger] holders_map(after)[x]
                    == holders_map(before)[x] by {
                    let j = holder_index(after, x);
                    let j2 = if j < i {
                        j
                    } else {
                        j + 1
                    };
                    assert(before[j2].0 == x);
                    lemma_holder_at(before, j2);
                }
                assert(holders_map(after) =~= holders_map(before).remove(fd));
            }
            Some(entry.1)
        },
        None => {
            assert(holders_map(before) =~= holders_map(before).remove(fd));
            None
        },
    }
}

/// The ends of `fds` in a map, each by the number of the descriptor of the
/// child that it is kept for.
fn into_map(fds: Vec<(i32, PipeHolder)>) -> (r: HashMap<i32, PipeHolder>)
    requires
        distinct_holders(fds@),
    ensures
        r@ == holders_map(fds@),
{
    broadcast use vstd::std_specs::hash::group_hash_axioms;

    let mut rest = fds;
    let mut map: HashMap<i32, PipeHolder> = HashMap::new();
    while rest.len() > 0
        invariant
            distinct_holders(fds@),
            rest@.len() <= fds@.len(),
            rest@ == fds@.subrange(0, rest@.len() as int),
            forall|j: int|
                rest@.len() <= j < fds@.len() ==> map@.contains_key((#[trigger] fds@[j]).0)
                    && map@[fds@[j].0] == fds@[j].1,
            forall|fd: i32|
                map@.contains_key(fd) ==> exists|j: int|
                    rest@.len() <= j < fds@.len() && (#[trigger] fds@[j]).0 == fd,
        decreases rest.len(),
    {
        let ghost n = rest@.len() as int;
        let ghost before = map@;
        let entry = match rest.pop() {
            Some(e) => e,
            None => {
                return map;
            },
        };
        assert(entry == fds@[n - 1]);
        map.insert(entry.0, entry.1);
        proof {
            assert(rest@ =~= fds@.subrange(0, n - 1));
            assert forall|j: int| n - 1 <= j < fds@.len() implies map@.contains_key(
                (#[trigger] fds@[j]).0,
            ) && map@[fds@[j].0] == fds@[j].1 by {
                if j >= n {
                    assert(fds@[n - 1].0 != fds@[j].0);
                }
            }
            assert forall|fd: i32| map@.contains_key(fd) implies exists|j: int|
                n - 1 <= j < fds@.len() && (#[trigger] fds@[j]).0 == fd by {
                if fd == entry.0 {
                    assert(fds@[n - 1].0 == fd);
                } else {
                    assert(before.contains_key(fd));
                    let j = choose|j: int| n <= j < fds@.len() && (#[trigger] fds@[j]).0 == fd;
                    assert(n - 1 <= j < fds@.len() && fds@[j].0 == fd);
                }
            }
        }
    }
    proof {
        assert forall|fd: i32| map@.contains_key(fd) <==> holds(fds@, fd) by {
            if holds(fds@, fd) {
                let j = holder_index(fds@, fd);
                assert(map@.contains_key(fds@[j].0));
            }
        }
        assert forall|fd: i32| map@.contains_key(fd) implies #[trigger] map@[fd] == holders_map(
            fds@,
        )[fd] by {
            let j = holder_index(fds@, fd);
            assert(map@[fds@[j].0] == fds@[j].1);
        }
        assert(map@ =~= holders_map(fds@));
    }
    map
}

impl Child {
    /// The ends that a new handle keeps by number, of the ends `outer` that
    /// the planner has handed out: all but those of the three standard
    /// streams.
    pub open spec fn kept(outer: Seq<(i32, PipeHolder)>) -> Map<i32, PipeHolder> {
        holders_map(outer).remove(0).remove(1).remove(2)
    }

    /// The handle of the child `pid`, which has just been started, with the
    /// ends `outer` of its pipes. The ends for the three standard streams
    /// become `stdin`, `stdout` and `stderr`; they have to be the writing end
    /// for the input and the reading end for the two outputs. The other ends
    /// are kept by the number of their descriptor.
    pub fn new(pid: i32, outer: Vec<(i32, PipeHolder)>) -> (r: Child)
        requires
            distinct_holders(outer@),
            holds(outer@, 0) ==> outer@[holder_index(outer@, 0)].1 is Writer,
            holds(outer@, 1) ==> outer@[holder_index(outer@, 1)].1 is Reader,
            holds(outer@, 2) ==> outer@[holder_index(outer@, 2)].1 is Reader,
        ensures
            r.pid == pid,
            r.status is None,
            r.stdin is Some <==> holds(outer@, 0),
            r.stdout is Some <==> holds(outer@, 1),
            r.stderr is Some <==> holds(outer@, 2),
            r.stdin matches Some(w) ==> PipeHolder::Writer(w) == outer@[holder_index(outer@, 0)].1,
            r.stdout matches Some(x) ==> PipeHolder::Reader(x) == outer@[holder_index(outer@, 1)].1,
            r.stderr matches Some(x) ==> PipeHolder::Reader(x) == outer@[holder_index(outer@, 2)].1,
            r.fds@ == Self::kept(outer@),
    {
        let mut rest = outer;
        let ghost m0 = holders_map(rest@);
        assert(m0.contains_key(0) == holds(outer@, 0));
        assert(m0.contains_key(1) == holds(outer@, 1));
        assert(m0.contains_key(2) == holds(outer@, 2));
        let stdin = match take_holder(&mut rest, 0) {
            Some(PipeHolder::Writer(w)) => Some(w),
            _ => None,
        };
        let ghost m1 = holders_map(rest@);
        assert(m1.contains_key(1) == holds(rest@, 1));
        assert(m1.contains_key(1) == m0.contains_key(1));
        assert(m1.contains_key(1) ==> m1[1] == m0[1]);
        let stdout = match take_holder(&mut rest, 1) {
            Some(PipeHolder::Reader(x)) => Some(x),
            _ => None,
        };
        let ghost m2 = holders_map(rest@);
        assert(m2.contains_key(2) == holds(rest@, 2));
        assert(m2.contains_key(2) == m0.contains_key(2));
        assert(m2.contains_key(2) ==> m2[2] == m0[2]);
        let stderr = match take_holder(&mut rest, 2) {
            Some(PipeHolder::Reader(x)) => Some(x),
            _ => None,
        };
        Child { pid, status: None, fds: into_map(rest), stdin, stdout, stderr }
    }

    /// The pid of the child as an unsigned number.
    pub fn id(&self) -> (r: u32)
        ensures
            r == self.pid as u32,
    {
        #[verifier::truncate]
        (self.pid as u32)
    }

    /// The pid of the child.
    pub fn pid(&self) -> (r: i32)
        ensures
            r == self.pid,
    {
        self.pid
    }

    /// Takes note of the outcome of a call of `waitpid` for the child and
    /// says how the wait goes on; see `spec_wait_step`.
    pub fn wait_step(&mut self, outcome: Result<WaitEvent, SysError>) -> (r: WaitStep)
        ensures
            (r, final(self).status) == spec_wait_step(old(self).status, outcome),
            *final(self) == (Child { status: final(self).status, ..*old(self) }),
    {
        match outcome {
            Ok(WaitEvent::Exited(_, code)) => {
                let s = ExitStatus::Exited(
                    #[verifier::truncate]
                    (code as i8),
                );
                self.status = Some(s);
                WaitStep::Done(Ok(s))
            },
            Ok(WaitEvent::Signaled(_, sig, core)) => {
                let s = ExitStatus::Signaled(sig, core);
                self.status = Some(s);
                WaitStep::Done(Ok(s))
            },
            Ok(_) => WaitStep::Again,
            Err(SysError::Sys(errno)) => if errno == EINTR {
                WaitStep::Again
            } else {
                WaitStep::Done(Err(IoError::Os(errno)))
            },
            Err(_) => WaitStep::Done(Err(IoError::Other)),
        }
    }

    /// One round of waiting for the child to end. Where the end of the child
    /// is known already, it is returned and the system is not asked again.
    /// Otherwise `waitpid` is called once for the child, and `wait_step`
    /// judges the outcome. A caller that wants the exit status repeats the
    /// call for as long as the answer is `Again`.
    pub fn wait_once(&mut self) -> (r: WaitStep)
        ensures
            match old(self).status {
                Some(s) => r == WaitStep::Done(Ok(s)) && *final(self) == *old(self),
                None => exists|outcome: Result<WaitEvent, SysError>|
                    (r, final(self).status) == spec_wait_step(None, outcome),
            },
            *final(self) == (Child { status: final(self).status, ..*old(self) }),
    {
        match self.status {
            Some(s) => WaitStep::Done(Ok(s)),
            None => {
                let outcome = match sys_waitpid(self.pid, 0) {
                    Ok(status) => Ok(wait_event(status)),
                    Err(e) => Err(e),
                };
                self.wait_step(outcome)
            },
        }
    }

    /// Waits for the child to end and returns how it ended. Where the end of
    /// the child is known already, it is returned and the system is not
    /// asked again. Otherwise `waitpid` is called for the child until
    /// `wait_step` takes an outcome for the end of the wait: the end of the
    /// child, which is remembered, or a failure other than an interruption.
    /// A wait that has had no such outcome after `RETRY_LIMIT` calls gives up
    /// as an interrupted one.
    pub fn wait(&mut self) -> (r: Result<ExitStatus, IoError>)
        ensures
            old(self).status matches Some(s) ==> r == Ok::<ExitStatus, IoError>(s) && *final(self)
                == *old(self),
            old(self).status is None ==> {
                ||| r == Err::<ExitStatus, IoError>(IoError::Os(EINTR)) && final(self).status
                    is None
                ||| exists|outcome: Result<WaitEvent, SysError>|
                    (WaitStep::Done(r), final(self).status) == spec_wait_step(None, outcome)
            },
            r matches Ok(s) ==> final(self).status == Some(s),
            r is Err ==> final(self).status is None,
            *final(self) == (Child { status: final(self).status, ..*old(self) }),
    {
        let mut budget: u64 = RETRY_LIMIT;
        loop
            invariant
                *self == *old(self),
            decreases budget,
        {
            let step = self.wait_once();
            match step {
                WaitStep::Done(r) => {
                    proof {
                        if old(self).status is None {
                            let outcome = choose|outcome: Result<WaitEvent, SysError>|
                                (step, self.status) == spec_wait_step(None, outcome);
                            assert((WaitStep::Done(r), self.status) == spec_wait_step(
                                None,
                                outcome,
                            ));
                        }
                    }
                    return r;
                },
                WaitStep::Again => {
                    assert(self.status == old(self).status);
                },
            }
            if budget == 0 {
                return Err(IoError::Os(EINTR));
            }
            budget = budget - 1;
        }
    }

    /// What `signal` returns for the outcome `r` of `kill`.
    pub fn signal_result(r: Result<(), SysError>) -> (out: Result<(), IoError>)
        ensures
            out == spec_signal_result(r),
    {
        match r {
            Ok(()) => Ok(()),
            Err(e) => Err(IoError::from_sys(e)),
        }
    }

    /// Sends the signal with the number `sig` to the child. A child whose
    /// end is known gets none, so that no other process that has come to
    /// have its pid is hit: the answer is `InvalidInput`. A number that names
    /// no signal is answered with `EINVAL`.
    pub fn signal(&self, sig: i32) -> (out: Result<(), IoError>)
        ensures
            self.status is Some ==> out == Err::<(), IoError>(IoError::InvalidInput),
            self.status is None && !(0 < sig < 32) ==> out == Err::<(), IoError>(
                IoError::Os(EINVAL),
            ),
            self.status is None && 0 < sig < 32 ==> exists|r: Result<(), SysError>|
                out == spec_signal_result(r),
    {
        if self.status.is_some() {
            return Err(IoError::InvalidInput);
        }
        match signal_from_number(sig) {
            Some(signal) => Self::signal_result(sys_kill(self.pid, signal)),
            None => Err(IoError::Os(EINVAL)),
        }
    }

    /// Kills the child with `SIGKILL`.
    pub fn kill(&self) -> (out: Result<(), IoError>)
        ensures
            self.status is Some ==> out == Err::<(), IoError>(IoError::InvalidInput),
            self.status is None ==> exists|r: Result<(), SysError>| out == spec_signal_result(r),
    {
        self.signal(SIGKILL)
    }

    /// Hands out the reading end of the pipe that the child writes through
    /// its descriptor `fd`. Whatever is kept for `fd` is given up: there is
    /// nothing to take for a descriptor that is no such pipe, nor the second
    /// time.
    pub fn take_pipe_reader(&mut self, fd: i32) -> (r: Option<PipeReader>)
        ensures
            final(self).fds@ == old(self).fds@.remove(fd),
            r is Some <==> old(self).fds@.contains_key(fd) && old(self).fds@[fd] is Reader,
            r matches Some(x) ==> PipeHolder::Reader(x) == old(self).fds@[fd],
            *final(self) == (Child { fds: final(self).fds, ..*old(self) }),
    {
        broadcast use vstd::std_specs::hash::group_hash_axioms;

        match self.fds.remove(&fd) {
            Some(PipeHolder::Reader(x)) => Some(x),
            _ => None,
        }
    }

    /// Hands out the writing end of the pipe that the child reads through
    /// its descriptor `fd`. Whatever is kept for `fd` is given up: there is
    /// nothing to take for a descriptor that is no such pipe, nor the second
    /// time.
    pub fn take_pipe_writer(&mut self, fd: i32) -> (r: Option<PipeWriter>)
        ensures
            final(self).fds@ == old(self).fds@.remove(fd),
            r is Some <==> old(self).fds@.contains_key(fd) && old(self).fds@[fd] is Writer,
            r matches Some(x) ==> PipeHolder::Writer(x) == old(self).fds@[fd],
            *final(self) == (Child { fds: final(self).fds, ..*old(self) }),
    {
        broadcast use vstd::std_specs::hash::group_hash_axioms;

        match self.fds.remove(&fd) {
            Some(PipeHolder::Writer(x)) => Some(x),
            _ => None,
        }
    }
}

/// A wait that has found the end of the child remembers it: whatever
/// `waitpid` would report afterwards, the next round returns the same status
/// without asking.
pub proof fn lemma_wait_is_remembered(
    known: Option<ExitStatus>,
    outcome: Result<WaitEvent, SysError>,
    s: ExitStatus,
)
    requires
        spec_wait_step(known, outcome).0 == WaitStep::Done(Ok(s)),
    ensures
        spec_wait_step(known, outcome).1 == Some(s),
{
}

} // verus!
