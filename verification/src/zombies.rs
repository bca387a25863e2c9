//! Looking for children that have ended or changed state, without
//! blocking.
use vstd::prelude::*;
use crate::error::SysError;
use crate::status::ExitStatus;
use crate::sys::{sys_waitpid, wait_event};
use crate::errno::{ECHILD, EINTR};
use crate::wait::{exit_code, WaitEvent, WCONTINUED, WNOHANG, WUNTRACED};

verus! {

/// A walk over the children that have ended and are not yet reaped.
#[derive(Debug)]
pub struct ZombieIterator {
    /// How many children the walk has reaped so far.
    pub reaped: u64,
}

/// A walk over the children that have ended, stopped or continued.
#[derive(Debug)]
pub struct ChildEventsIterator {
    /// How many events the walk has handed out so far.
    pub seen: u64,
}

/// What happened to a child.
#[derive(Debug, Clone, Copy, PartialEq, Eq, Structural)]
pub enum ChildEvent {
    /// The child with this pid has ended.
    Death(i32, ExitStatus),
    /// The child with this pid was stopped by this signal.
    Stop(i32, i32),
    /// The child with this pid was continued.
    Continue(i32),
}

/// How a walk goes on after a call of `waitpid`.
#[derive(Debug, Clone, Copy, PartialEq, Eq)]
pub enum Poll<T> {
    /// The next item of the walk.
    Item(T),
    /// The call told nothing that the walk hands out: call again.
    Again,
    /// There is nothing more for now.
    Finished,
    /// `waitpid` failed in a way that a walk has no answer to.
    Unexpected(SysError),
}

/// What a walk over zombies makes of the outcome of `waitpid`: a child that
/// has ended is the next item; the walk ends when no child has changed state
/// or there is no child; an interrupted call and the report of a stop or a
/// continuation are followed by another call.
pub open spec fn spec_zombie_step(outcome: Result<WaitEvent, SysError>) -> Poll<(i32, ExitStatus)> {
    match outcome {
        Ok(WaitEvent::Exited(pid, code)) => Poll::Item((pid, ExitStatus::Exited(exit_code(code)))),
        Ok(WaitEvent::Signaled(pid, sig, core)) => Poll::Item(
            (pid, ExitStatus::Signaled(sig, core)),
        ),
        Ok(WaitEvent::StillAlive) => Poll::Finished,
        Ok(_) => Poll::Again,
        Err(SysError::Sys(errno)) => if errno == EINTR {
            Poll::Again
        } else if errno == ECHILD {
            Poll::Finished
        } else {
            Poll::Unexpected(SysError::Sys(errno))
        },
        Err(e) => Poll::Unexpected(e),
    }
}

/// What a walk over child events makes of the outcome of `waitpid`: an end,
/// a stop and a continuation of a child are each the next item; the walk
/// ends when no child has changed state or there is no child; an
/// interrupted call and the report of a trace stop are followed by another
/// call.
pub open spec fn spec_event_step(outcome: Result<WaitEvent, SysError>) -> Poll<ChildEvent> {
    match outcome {
        Ok(WaitEvent::Exited(pid, code)) => Poll::Item(
            ChildEvent::Death(pid, ExitStatus::Exited(exit_code(code))),
        ),
        Ok(WaitEvent::Signaled(pid, sig, core)) => Poll::Item(
            ChildEvent::Death(pid, ExitStatus::Signaled(sig, core)),
        ),
        Ok(WaitEvent::Stopped(pid, sig)) => Poll::Item(ChildEvent::Stop(pid, sig)),
        Ok(WaitEvent::Continued(pid)) => Poll::Item(ChildEvent::Continue(pid)),
        Ok(WaitEvent::StillAlive) => Poll::Finished,
        Ok(_) => Poll::Again,
        Err(SysError::Sys(errno)) => if errno == EINTR {
            Poll::Again
        } else if errno == ECHILD {
            Poll::Finished
        } else {
            Poll::Unexpected(SysError::Sys(errno))
        },
        Err(e) => Poll::Unexpected(e),
    }
}

/// `n` plus one, or `n` where that does not fit.
pub open spec fn bump(n: u64) -> u64 {
    if n < u64::MAX {
        (n + 1) as u64
    } else {
        n
    }
}

impl ZombieIterator {
    /// Judges the outcome of a call of `waitpid`; see `spec_zombie_step`.
    pub fn step(&mut self, outcome: Result<WaitEvent, SysError>) -> (r: Poll<(i32, ExitStatus)>)
        ensures
            r == spec_zombie_step(outcome),
            final(self).reaped == (if r is Item {
                bump(old(self).reaped)
            } else {
                old(self).reaped
            }),
    {
        let r = match outcome {
            Ok(WaitEvent::Exited(pid, code)) => Poll::Item(
                (
                    pid,
                    ExitStatus::Exited(
                        #[verifier::truncate]
                        (code as i8),
                    ),
                ),
            ),
            Ok(WaitEvent::Signaled(pid, sig, core)) => Poll::Item(
                (pid, ExitStatus::Signaled(sig, core)),
            ),
            Ok(WaitEvent::StillAlive) => Poll::Finished,
            Ok(_) => Poll::Again,
            Err(SysError::Sys(errno)) => if errno == EINTR {
                Poll::Again
            } else if errno == ECHILD {
                Poll::Finished
            } else {
                Poll::Unexpected(SysError::Sys(errno))
            },
            Err(e) => Poll::Unexpected(e),
        };
        match r {
            Poll::Item(_) => {
                if self.reaped < u64::MAX {
                    self.reaped = self.reaped + 1;
                }
            },
            _ => {},
        }
        r
    }

    /// Asks once, without blocking, for a child that has ended, and judges
    /// the answer with `step`. A caller that wants the next zombie repeats
    /// the call for as long as the answer is `Again`.
    pub fn poll(&mut self) -> (r: Poll<(i32, ExitStatus)>)
        ensures
            exists|outcome: Result<WaitEvent, SysError>| r == spec_zombie_step(outcome),
            final(self).reaped == (if r is Item {
                bump(old(self).reaped)
            } else {
                old(self).reaped
            }),
    {
        let outcome = match sys_waitpid(-1, WNOHANG) {
            Ok(status) => Ok(wait_event(status)),
            Err(e) => Err(e),
        };
        self.step(outcome)
    }
}

impl ChildEventsIterator {
    /// Judges the outcome of a call of `waitpid`; see `spec_event_step`.
    pub fn step(&mut self, outcome: Result<WaitEvent, SysError>) -> (r: Poll<ChildEvent>)
        ensures
            r == spec_event_step(outcome),
            final(self).seen == (if r is Item {
                bump(old(self).seen)
            } else {
                old(self).seen
            }),
    {
        let r = match outcome {
            Ok(WaitEvent::Exited(pid, code)) => Poll::Item(
                ChildEvent::Death(
                    pid,
                    ExitStatus::Exited(
                        #[verifier::truncate]
                        (code as i8),
                    ),
                ),
            ),
            Ok(WaitEvent::Signaled(pid, sig, core)) => Poll::Item(
                ChildEvent::Death(pid, ExitStatus::Signaled(sig, core)),
            ),
            Ok(WaitEvent::Stopped(pid, sig)) => Poll::Item(ChildEvent::Stop(pid, sig)),
            Ok(WaitEvent::Continued(pid)) => Poll::Item(ChildEvent::Continue(pid)),
            Ok(WaitEvent::StillAlive) => Poll::Finished,
            Ok(_) => Poll::Again,
            Err(SysError::Sys(errno)) => if errno == EINTR {
                Poll::Again
            } else if errno == ECHILD {
                Poll::Finished
            } else {
                Poll::Unexpected(SysError::Sys(errno))
            },
            Err(e) => Poll::Unexpected(e),
        };
        match r {
            Poll::Item(_) => {
                if self.seen < u64::MAX {
                    self.seen = self.seen + 1;
                }
            },
            _ => {},
        }
        r
    }

    /// Asks once, without blocking, for a child that has ended, stopped or
    /// continued, and judges the answer with `step`. A caller that wants the
    /// next event repeats the call for as long as the answer is `Again`.
    pub fn poll(&mut self) -> (r: Poll<ChildEvent>)
        ensures
            exists|outcome: Result<WaitEvent, SysError>| r == spec_event_step(outcome),
            final(self).seen == (if r is Item {
                bump(old(self).seen)
            } else {
                old(self).seen
            }),
    {
        let outcome = match sys_waitpid(-1, WNOHANG | WUNTRACED | WCONTINUED) {
            Ok(status) => Ok(wait_event(status)),
            Err(e) => Err(e),
        };
        self.step(outcome)
    }
}

/// Starts a walk over the children that have ended and are not yet reaped.
pub fn reap_zombies() -> (r: ZombieIterator)
    ensures
        r.reaped == 0,
{
    ZombieIterator { reaped: 0 }
}

/// Starts a walk over the children that have ended, stopped or continued.
pub fn child_events() -> (r: ChildEventsIterator)
    ensures
        r.seen == 0,
{
    ChildEventsIterator { seen: 0 }
}

} // verus!
