//! How a child ended.
use vstd::prelude::*;
use vstd::string::StringExecFns;
use crate::decimal::{push_signed_decimal_text, signed_decimal_text};
use crate::sys::{signal_name, signal_text};

verus! {

/// The exit status of a process.
#[derive(Debug, Clone, Copy, PartialEq, Eq, Structural)]
pub enum ExitStatus {
    /// The process exited by itself with this code.
    Exited(i8),
    /// The process was killed by the signal with this number; the flag says
    /// whether it dumped core.
    Signaled(i32, bool),
}

impl ExitStatus {
    /// Whether the process exited with code zero.
    pub fn success(&self) -> (r: bool)
        ensures
            r == (*self == ExitStatus::Exited(0)),
    {
        match self {
            ExitStatus::Exited(c) => *c == 0,
            ExitStatus::Signaled(_, _) => false,
        }
    }

    /// The exit code, if the process exited by itself.
    pub fn code(&self) -> (r: Option<i32>)
        ensures
            r == (match *self {
                ExitStatus::Exited(c) => Some(c as i32),
                ExitStatus::Signaled(_, _) => None,
            }),
    {
        match self {
            ExitStatus::Exited(c) => Some(*c as i32),
            ExitStatus::Signaled(_, _) => None,
        }
    }

    /// The number of the signal, if the process was killed by one.
    pub fn signal(&self) -> (r: Option<i32>)
        ensures
            r == (match *self {
                ExitStatus::Exited(_) => None,
                ExitStatus::Signaled(sig, _) => Some(sig),
            }),
    {
        match self {
            ExitStatus::Exited(_) => None,
            ExitStatus::Signaled(sig, _) => Some(*sig),
        }
    }

    /// What the status reads like to a user, given the name of the signal:
    /// `exited with code N`, or `killed by signal NAME[N]`, with
    /// `(core dumped)` after it where that is so.
    pub open spec fn spec_message_with(self, name: Seq<char>) -> Seq<char> {
        match self {
            ExitStatus::Exited(c) => "exited with code "@ + signed_decimal_text(c as int),
            ExitStatus::Signaled(sig, core) => {
                let head = "killed by signal "@ + name + "["@ + signed_decimal_text(sig as int)
                    + "]"@;
                if core {
                    head + " (core dumped)"@
                } else {
                    head
                }
            },
        }
    }

    /// Puts the message of the status together from the name of the signal;
    /// see `spec_message_with`.
    pub fn message_with(&self, name: &str) -> (r: String)
        ensures
            r@ == self.spec_message_with(name@),
    {
        match self {
            ExitStatus::Exited(c) => {
                let mut out = String::from_str("exited with code ");
                push_signed_decimal_text(&mut out, *c as i32);
                out
            },
            ExitStatus::Signaled(sig, core) => {
                let mut out = String::from_str("killed by signal ");
                out.append(name);
                out.append("[");
                push_signed_decimal_text(&mut out, *sig);
                out.append("]");
                if *core {
                    out.append(" (core dumped)");
                }
                out
            },
        }
    }

    /// What the status reads like to a user; see `spec_message_with`. The
    /// name of the signal is that of the system layer; a number that is no
    /// signal has none.
    pub fn message(&self) -> (r: String)
        ensures
            match *self {
                ExitStatus::Exited(_) => r@ == self.spec_message_with(Seq::empty()),
                ExitStatus::Signaled(sig, _) => if 0 < sig < 32 {
                    r@ == self.spec_message_with(signal_name(sig as int))
                } else {
                    r@ == self.spec_message_with(Seq::empty())
                },
            },
    {
        proof {
            reveal_strlit("");
        }
        match self {
            ExitStatus::Exited(_) => self.message_with(""),
            ExitStatus::Signaled(sig, _) => match signal_text(*sig) {
                Some(name) => self.message_with(name),
                None => self.message_with(""),
            },
        }
    }
}

} // verus!
