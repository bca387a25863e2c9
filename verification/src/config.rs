//! The part of the configuration of a command that is plain settings.
use vstd::prelude::*;
use crate::ffi_util::is_cstring;
use crate::idmap::{GidMap, UidMap};
use crate::namespace::Namespace;
use crate::stdio::Closing;

verus! {

/// The number of the signal that cannot be caught.
pub const SIGKILL: i32 = 9;

/// Settings of a command.
#[derive(Debug)]
pub struct Config {
    /// The signal that the child gets when the parent dies.
    pub death_sig: Option<i32>,
    /// The directory that the child is started in, ended by a NUL.
    pub work_dir: Option<Vec<u8>>,
    pub uid: Option<u32>,
    pub gid: Option<u32>,
    pub supplementary_gids: Option<Vec<u32>>,
    /// The uid map and the gid map of a new user namespace.
    pub id_maps: Option<(Vec<UidMap>, Vec<GidMap>)>,
    /// The clone flags of the namespaces that the child leaves.
    pub namespaces: u32,
    /// The namespaces that the child joins, each with an open descriptor
    /// that refers to it. No namespace occurs twice.
    pub setns_namespaces: Vec<(Namespace, Closing)>,
    /// Whether the signal mask is emptied and the handlers are reset.
    pub restore_sigmask: bool,
    /// Whether the child becomes the leader of a new process group.
    pub make_group_leader: bool,
}

/// Whether no namespace occurs twice in `list`.
pub open spec fn distinct_namespaces(list: Seq<(Namespace, Closing)>) -> bool {
    forall|i: int, j: int|
        0 <= i < j < list.len() ==> (#[trigger] list[i]).0 != (#[trigger] list[j]).0
}

impl Config {
    /// The working directory ends in its only NUL, and no namespace is
    /// joined twice.
    pub open spec fn wf(self) -> bool {
        &&& self.work_dir matches Some(d) ==> is_cstring(d@)
        &&& distinct_namespaces(self.setns_namespaces@)
    }

    /// Whether these are the settings that a new command starts with: the
    /// child is killed when the parent dies, its signals are reset, and
    /// nothing else is changed.
    pub open spec fn is_default(self) -> bool {
        &&& self.death_sig == Some(SIGKILL)
        &&& self.work_dir is None
        &&& self.uid is None
        &&& self.gid is None
        &&& self.supplementary_gids is None
        &&& self.id_maps is None
        &&& self.namespaces == 0
        &&& self.setns_namespaces@.len() == 0
        &&& self.restore_sigmask
        &&& !self.make_group_leader
    }
}

impl Default for Config {
    fn default() -> (r: Config)
        ensures
            r.is_default(),
            r.wf(),
    {
        Config {
            death_sig: Some(SIGKILL),
            work_dir: None,
            uid: None,
            gid: None,
            supplementary_gids: None,
            id_maps: None,
            namespaces: 0,
            setns_namespaces: Vec::new(),
            restore_sigmask: true,
            make_group_leader: false,
        }
    }
}

} // verus!
