//! Spawning processes on Linux with namespaces, id maps, capabilities and
//! descriptor plumbing: the configuration of a command, the plan of what the
//! child does between `clone` and `execve`, and the decisions of the parent.
//!
//! The library works everything out and makes the system calls whose
//! outcome it can judge by itself. The caller clones the child, walks the
//! two plans and hands back what the system answered.
pub mod child;
pub mod chroot;
pub mod command;
pub mod config;
pub mod debug;
pub mod decimal;
pub mod descriptors;
pub mod environ;
pub mod errno;
pub mod error;
pub mod fdtable;
pub mod ffi_util;
pub mod idmap;
pub mod laws;
pub mod namespace;
pub mod order;
pub mod pipe;
pub mod run;
pub mod status;
pub mod stdio;
pub mod sys;
pub mod wait;
pub mod zombies;

pub use crate::command::Command;
pub use crate::debug::Style;
pub use crate::error::Error;
pub use crate::idmap::{GidMap, UidMap};
pub use crate::namespace::Namespace;
pub use crate::pipe::{PipeReader, PipeWriter};
pub use crate::status::ExitStatus;
pub use crate::stdio::{Fd, Stdio};
pub use crate::wait::Child;
pub use crate::zombies::{child_events, reap_zombies, ChildEvent};
