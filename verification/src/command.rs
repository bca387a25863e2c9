//! The command builder: what to run and in what surroundings.
use vstd::prelude::*;
use crate::child::cap_bit;
use crate::chroot::{is_absolute, is_under};
use crate::config::{distinct_namespaces, Config};
use crate::descriptors::{
    distinct_targets, set_fd, stdio_in_direction, with_fd, FIRST_FREE_FD,
};
use crate::environ::Environ;
use crate::error::{IoError, SysError};
use crate::ffi_util::{all_cstrings, bytes_eq, copy_bytes, is_cstring, no_nul, views, ToCString};
use crate::idmap::{GidMap, UidMap};
use crate::namespace::{with_namespaces, Namespace, CLONE_NEWUSER};
use crate::stdio::{Closing, Fd, Stdio};
use crate::sys::dup_cloexec;

verus! {

/// A process to start, described step by step.
#[derive(Debug)]
pub struct Command {
    /// The program to run, ended by a NUL.
    pub filename: Vec<u8>,
    /// The arguments, each ended by a NUL; the first is the name that the
    /// program is called by.
    pub args: Vec<Vec<u8>>,
    /// The environment of the child; `None` for that of the parent at the
    /// time of the spawn.
    pub environ: Option<Environ>,
    pub config: Config,
    /// What each descriptor of the child is connected to. No number occurs
    /// twice.
    pub fds: Vec<(i32, Fd)>,
    /// The ranges of descriptors that the child closes, each from its first
    /// number, which is at least 3, up to but without its second.
    pub close_fds: Vec<(i32, i32)>,
    /// The directory to `chroot` to, an absolute path.
    pub chroot_dir: Option<Vec<u8>>,
    /// The new root and the place for the old root of a `pivot_root`, both
    /// absolute paths, the second under the first; and whether the old root
    /// is unmounted.
    pub pivot_root: Option<(Vec<u8>, Vec<u8>, bool)>,
    /// The helper commands that write the uid map and the gid map.
    pub id_map_commands: Option<(Vec<u8>, Vec<u8>)>,
    /// The environment variables that are set to the pid of the child. No
    /// name occurs twice.
    pub pid_env_vars: Vec<Vec<u8>>,
    /// The capabilities that the child keeps: low and high word of the set.
    pub keep_caps: Option<(u32, u32)>,
}

/// Whether no name occurs twice in `names`, and none holds a NUL.
pub open spec fn distinct_names(names: Seq<Vec<u8>>) -> bool {
    &&& forall|i: int, j: int|
        0 <= i < j < names.len() ==> (#[trigger] names[i])@ != (#[trigger] names[j])@
    &&& forall|i: int| 0 <= i < names.len() ==> no_nul((#[trigger] names[i])@)
}

/// Whether every range starts at 3 or above.
pub open spec fn ranges_spare_stdio(ranges: Seq<(i32, i32)>) -> bool {
    forall|i: int| 0 <= i < ranges.len() ==> (#[trigger] ranges[i]).0 >= 3
}

impl Command {
    /// What holds of every command that the builder makes.
    pub open spec fn wf(self) -> bool {
        &&& is_cstring(self.filename@)
        &&& self.args@.len() >= 1
        &&& all_cstrings(self.args@)
        &&& self.environ matches Some(e) ==> e.wf()
        &&& self.config.wf()
        &&& distinct_targets(self.fds@)
        &&& stdio_in_direction(self.fds@)
        &&& ranges_spare_stdio(self.close_fds@)
        &&& self.chroot_dir matches Some(d) ==> is_absolute(d@) && no_nul(d@)
        &&& self.pivot_root matches Some((new_root, put_old, _)) ==> {
            &&& is_absolute(new_root@)
            &&& is_absolute(put_old@)
            &&& no_nul(new_root@)
            &&& no_nul(put_old@)
            &&& is_under(put_old@, new_root@)
        }
        &&& self.id_map_commands matches Some((u, g)) ==> no_nul(u@) && no_nul(g@)
        &&& distinct_names(self.pid_env_vars@)
    }

    /// Whether the command runs `program` and, but for its arguments, is
    /// as `new` makes it: the environment and the working directory of the
    /// parent, the three standard streams of the parent and no other
    /// descriptor, and the default settings.
    pub open spec fn is_plain(self, program: Seq<u8>) -> bool {
        &&& self.filename@ == program.push(0u8)
        &&& self.environ is None
        &&& self.config.is_default()
        &&& self.fds@ == seq![(0i32, Fd::Inherit), (1i32, Fd::Inherit), (2i32, Fd::Inherit)]
        &&& self.close_fds@.len() == 0
        &&& self.chroot_dir is None
        &&& self.pivot_root is None
        &&& self.id_map_commands is None
        &&& self.pid_env_vars@.len() == 0
        &&& self.keep_caps is None
    }

    /// A command that runs the program at the path `program`, with no
    /// arguments but its own name; see `is_plain` for the rest.
    pub fn new(program: &[u8]) -> (r: Command)
        requires
            no_nul(program@),
        ensures
            r.wf(),
            r.is_plain(program@),
            views(r.args@) == seq![program@.push(0u8)],
    {
        let mut args: Vec<Vec<u8>> = Vec::new();
        args.push(program.to_cstring());
        assert(views(args@) =~= seq![program@.push(0u8)]);
        let mut fds: Vec<(i32, Fd)> = Vec::new();
        fds.push((0, Fd::Inherit));
        fds.push((1, Fd::Inherit));
        fds.push((2, Fd::Inherit));
        assert(fds@ =~= seq![(0i32, Fd::Inherit), (1i32, Fd::Inherit), (2i32, Fd::Inherit)]);
        Command {
            filename: program.to_cstring(),
            args,
            environ: None,
            config: Config::default(),
            fds,
            close_fds: Vec::new(),
            chroot_dir: None,
            pivot_root: None,
            id_map_commands: None,
            pid_env_vars: Vec::new(),
            keep_caps: None,
        }
    }

    /// Adds an argument to pass to the program.
    pub fn arg(&mut self, arg: &[u8]) -> (ret: &mut Command)
        requires
            old(self).wf(),
            no_nul(arg@),
        ensures
            *final(self) == *final(ret),
            ret.wf(),
            views(ret.args@) == views(old(self).args@).push(arg@.push(0u8)),
            *ret == (Command { args: ret.args, ..*old(self) }),
    {
        let ghost before = views(self.args@);
        self.args.push(arg.to_cstring());
        assert(views(self.args@) =~= before.push(arg@.push(0u8)));
        self
    }

    /// Adds several arguments to pass to the program, in order.
    pub fn args(&mut self, args: &Vec<Vec<u8>>) -> (ret: &mut Command)
        requires
            old(self).wf(),
            forall|i: int| 0 <= i < args@.len() ==> no_nul(#[trigger] args@[i]@),
        ensures
            *final(self) == *final(ret),
            ret.wf(),
            views(ret.args@) == views(old(self).args@) + Seq::new(
                args@.len(),
                |i: int| args@[i]@.push(0u8),
            ),
            *ret == (Command { args: ret.args, ..*old(self) }),
    {
        let ghost before = views(self.args@);
        let ghost added = Seq::new(args@.len(), |i: int| args@[i]@.push(0u8));
        let mut i: usize = 0;
        assert(views(self.args@) =~= before + added.subrange(0, 0));
        while i < args.len()
            invariant
                0 <= i <= args.len(),
                self.wf(),
                forall|j: int| 0 <= j < args@.len() ==> no_nul(#[trigger] args@[j]@),
                added == Seq::new(args@.len(), |j: int| args@[j]@.push(0u8)),
                views(self.args@) == before + added.subrange(0, i as int),
                *self == (Command { args: self.args, ..*old(self) }),
            decreases args.len() - i,
        {
            let ghost prev = views(self.args@);
            self.args.push(args[i].as_slice().to_cstring());
            assert(views(self.args@) =~= prev.push(args@[i as int]@.push(0u8)));
            assert(added.subrange(0, i + 1) =~= added.subrange(0, i as int).push(added[i as int]));
            assert(views(self.args@) =~= before + added.subrange(0, i + 1));
            i = i + 1;
        }
        assert(added.subrange(0, args@.len() as int) =~= added);
        self
    }

    /// Sets the name that the program is called by, which is its first
    /// argument. The program that is run stays the same.
    pub fn arg0(&mut self, arg: &[u8]) -> (ret: &mut Command)
        requires
            old(self).wf(),
            no_nul(arg@),
        ensures
            *final(self) == *final(ret),
            ret.wf(),
            views(ret.args@) == views(old(self).args@).update(0, arg@.push(0u8)),
            *ret == (Command { args: ret.args, ..*old(self) }),
    {
        let ghost before = views(self.args@);
        self.args[0] = arg.to_cstring();
        assert(views(self.args@) =~= before.update(0, arg@.push(0u8)));
        self
    }

    /// The environment that the setters start from: the one that the command
    /// has, or `inherited` where it has none yet.
    pub open spec fn env_base(self, inherited: Environ) -> Environ {
        match self.environ {
            Some(e) => e,
            None => inherited,
        }
    }

    /// Gives the command an environment of its own if it has none yet:
    /// `inherited`, which is the environment of the parent as the caller has
    /// read it.
    pub fn init_env_map(&mut self, inherited: Environ)
        requires
            old(self).wf(),
            inherited.wf(),
        ensures
            final(self).wf(),
            final(self).environ == Some(old(self).env_base(inherited)),
            *final(self) == (Command { environ: final(self).environ, ..*old(self) }),
    {
        let e = match self.environ.take() {
            Some(e) => e,
            None => inherited,
        };
        self.environ = Some(e);
    }

    /// Sets the environment variable `key` to `val`. A command that has no
    /// environment of its own yet starts from `inherited`, which is the
    /// environment of the parent as the caller has read it.
    pub fn env(&mut self, key: &[u8], val: &[u8], inherited: Environ) -> (ret: &mut Command)
        requires
            old(self).wf(),
            inherited.wf(),
            no_nul(key@),
            no_nul(val@),
        ensures
            *final(self) == *final(ret),
            ret.wf(),
            ret.environ is Some,
            ret.environ.unwrap()@ == old(self).env_base(inherited)@.insert(key@, val@),
            *ret == (Command { environ: ret.environ, ..*old(self) }),
    {
        let mut e = match self.environ.take() {
            Some(e) => e,
            None => inherited,
        };
        e.insert(copy_bytes(key), copy_bytes(val));
        self.environ = Some(e);
        self
    }

    /// Unsets the environment variable `key`. A command that has no
    /// environment of its own yet starts from `inherited`.
    pub fn env_remove(&mut self, key: &[u8], inherited: Environ) -> (ret: &mut Command)
        requires
            old(self).wf(),
            inherited.wf(),
        ensures
            *final(self) == *final(ret),
            ret.wf(),
            ret.environ is Some,
            ret.environ.unwrap()@ == old(self).env_base(inherited)@.remove(key@),
            *ret == (Command { environ: ret.environ, ..*old(self) }),
    {
        let mut e = match self.environ.take() {
            Some(e) => e,
            None => inherited,
        };
        e.remove(key);
        self.environ = Some(e);
        self
    }

    /// Gives the command an empty environment of its own.
    pub fn env_clear(&mut self) -> (ret: &mut Command)
        requires
            old(self).wf(),
        ensures
            *final(self) == *final(ret),
            ret.wf(),
            ret.environ is Some,
            ret.environ.unwrap()@ == Map::<Seq<u8>, Seq<u8>>::empty(),
            ret.environ.unwrap().vars@.len() == 0,
            *ret == (Command { environ: ret.environ, ..*old(self) }),
    {
        self.environ = Some(Environ::new());
        self
    }

    /// Makes the variable `key` of the environment hold the pid of the
    /// child: a value that the variable has is dropped, and the name is noted
    /// so that the pid is filled in when the child runs.
    pub fn env_var_with_pid(&mut self, key: &[u8], inherited: Environ) -> (ret: &mut Command)
        requires
            old(self).wf(),
            inherited.wf(),
            no_nul(key@),
        ensures
            *final(self) == *final(ret),
            ret.wf(),
            ret.environ is Some,
            ret.environ.unwrap()@ == old(self).env_base(inherited)@.remove(key@),
            views(ret.pid_env_vars@) == with_name(views(old(self).pid_env_vars@), key@),
            *ret == (Command {
                environ: ret.environ,
                pid_env_vars: ret.pid_env_vars,
                ..*old(self)
            }),
    {
        let mut e = match self.environ.take() {
            Some(e) => e,
            None => inherited,
        };
        e.remove(key);
        self.environ = Some(e);
        let ghost before = self.pid_env_vars@;
        if !contains_name(&self.pid_env_vars, key) {
            self.pid_env_vars.push(copy_bytes(key));
            proof {
                let after = self.pid_env_vars@;
                assert(views(after) =~= views(before).push(key@));
                assert forall|i: int, j: int| 0 <= i < j < after.len() implies (
                #[trigger] after[i])@ != (#[trigger] after[j])@ by {
                    if j < before.len() {
                        assert(before[i]@ != before[j]@);
                    } else {
                        assert(views(before)[i] == before[i]@);
                    }
                }
            }
        }
        self
    }

    /// Sets the working directory of the child. After `chroot` or
    /// `pivot_root` the path is one in the new root.
    pub fn current_dir(&mut self, dir: &[u8]) -> (ret: &mut Command)
        requires
            old(self).wf(),
            no_nul(dir@),
        ensures
            *final(self) == *final(ret),
            ret.wf(),
            ret.config.work_dir is Some,
            ret.config.work_dir.unwrap()@ == dir@.push(0u8),
            ret.config == (Config { work_dir: ret.config.work_dir, ..old(self).config }),
            *ret == (Command { config: ret.config, ..*old(self) }),
    {
        self.config.work_dir = Some(dir.to_cstring());
        self
    }

    /// Connects the standard input of the child.
    pub fn stdin(&mut self, cfg: Stdio) -> (ret: &mut Command)
        requires
            old(self).wf(),
        ensures
            *final(self) == *final(ret),
            ret.wf(),
            ret.fds@ == with_fd(old(self).fds@, 0, cfg.spec_to_fd(false)),
            *ret == (Command { fds: ret.fds, ..*old(self) }),
    {
        set_fd(&mut self.fds, 0, cfg.to_fd(false));
        self
    }

    /// Connects the standard output of the child.
    pub fn stdout(&mut self, cfg: Stdio) -> (ret: &mut Command)
        requires
            old(self).wf(),
        ensures
            *final(self) == *final(ret),
            ret.wf(),
            ret.fds@ == with_fd(old(self).fds@, 1, cfg.spec_to_fd(true)),
            *ret == (Command { fds: ret.fds, ..*old(self) }),
    {
        set_fd(&mut self.fds, 1, cfg.to_fd(true));
        self
    }

    /// Connects the standard error stream of the child.
    pub fn stderr(&mut self, cfg: Stdio) -> (ret: &mut Command)
        requires
            old(self).wf(),
        ensures
            *final(self) == *final(ret),
            ret.wf(),
            ret.fds@ == with_fd(old(self).fds@, 2, cfg.spec_to_fd(true)),
            *ret == (Command { fds: ret.fds, ..*old(self) }),
    {
        set_fd(&mut self.fds, 2, cfg.to_fd(true));
        self
    }

    /// Sets the user id of the child.
    pub fn uid(&mut self, id: u32) -> (ret: &mut Command)
        requires
            old(self).wf(),
        ensures
            *final(self) == *final(ret),
            ret.wf(),
            ret.config == (Config { uid: Some(id), ..old(self).config }),
            *ret == (Command { config: ret.config, ..*old(self) }),
    {
        self.config.uid = Some(id);
        self
    }

    /// Sets the group id of the child.
    pub fn gid(&mut self, id: u32) -> (ret: &mut Command)
        requires
            old(self).wf(),
        ensures
            *final(self) == *final(ret),
            ret.wf(),
            ret.config == (Config { gid: Some(id), ..old(self).config }),
            *ret == (Command { config: ret.config, ..*old(self) }),
    {
        self.config.gid = Some(id);
        self
    }

    /// Sets the supplementary groups of the child.
    pub fn groups(&mut self, ids: Vec<u32>) -> (ret: &mut Command)
        requires
            old(self).wf(),
        ensures
            *final(self) == *final(ret),
            ret.wf(),
            ret.config == (Config { supplementary_gids: Some(ids), ..old(self).config }),
            *ret == (Command { config: ret.config, ..*old(self) }),
    {
        self.config.supplementary_gids = Some(ids);
        self
    }

    /// Lets the child outlive the parent: no signal is sent to it when the
    /// parent dies.
    pub fn allow_daemonize(&mut self) -> (ret: &mut Command)
        requires
            old(self).wf(),
        ensures
            *final(self) == *final(ret),
            ret.wf(),
            ret.config == (Config { death_sig: None, ..old(self).config }),
            *ret == (Command { config: ret.config, ..*old(self) }),
    {
        self.config.death_sig = None;
        self
    }

    /// Sets the signal that the child gets when the parent dies.
    pub fn set_parent_death_signal(&mut self, sig: i32) -> (ret: &mut Command)
        requires
            old(self).wf(),
        ensures
            *final(self) == *final(ret),
            ret.wf(),
            ret.config == (Config { death_sig: Some(sig), ..old(self).config }),
            *ret == (Command { config: ret.config, ..*old(self) }),
    {
        self.config.death_sig = Some(sig);
        self
    }

    /// Sets the directory that the child makes its root with `chroot`. The
    /// path has to be absolute. After a `pivot_root` it is a path in the new
    /// root.
    pub fn chroot_dir(&mut self, dir: &[u8]) -> (ret: &mut Command)
        requires
            old(self).wf(),
            is_absolute(dir@),
            no_nul(dir@),
        ensures
            *final(self) == *final(ret),
            ret.wf(),
            ret.chroot_dir is Some,
            ret.chroot_dir.unwrap()@ == dir@,
            *ret == (Command { chroot_dir: ret.chroot_dir, ..*old(self) }),
    {
        self.chroot_dir = Some(copy_bytes(dir));
        self
    }

    /// Makes the child change its root with `pivot_root`: `new_root` becomes
    /// the root and the old root is put at `put_old`, where it is unmounted
    /// if `unmount` says so. Both paths have to be absolute, and `put_old`
    /// has to lie under `new_root`.
    pub fn pivot_root(&mut self, new_root: &[u8], put_old: &[u8], unmount: bool) -> (ret:
        &mut Command)
        requires
            old(self).wf(),
            is_absolute(new_root@),
            is_absolute(put_old@),
            no_nul(new_root@),
            no_nul(put_old@),
            is_under(put_old@, new_root@),
        ensures
            *final(self) == *final(ret),
            ret.wf(),
            ret.pivot_root matches Some((n, p, u)) && n@ == new_root@ && p@ == put_old@ && u
                == unmount,
            *ret == (Command { pivot_root: ret.pivot_root, ..*old(self) }),
    {
        self.pivot_root = Some((copy_bytes(new_root), copy_bytes(put_old), unmount));
        self
    }

    /// Makes the child leave the given namespaces for new ones.
    pub fn unshare(&mut self, namespaces: &[Namespace]) -> (ret: &mut Command)
        requires
            old(self).wf(),
        ensures
            *final(self) == *final(ret),
            ret.wf(),
            ret.config.namespaces == with_namespaces(
                old(self).config.namespaces,
                namespaces@,
                namespaces@.len(),
            ),
            ret.config == (Config { namespaces: ret.config.namespaces, ..old(self).config }),
            *ret == (Command { config: ret.config, ..*old(self) }),
    {
        let mut i: usize = 0;
        while i < namespaces.len()
            invariant
                0 <= i <= namespaces.len(),
                self.wf(),
                self.config.namespaces == with_namespaces(
                    old(self).config.namespaces,
                    namespaces@,
                    i as nat,
                ),
                self.config == (Config { namespaces: self.config.namespaces, ..old(self).config }),
                *self == (Command { config: self.config, ..*old(self) }),
            decreases namespaces.len() - i,
        {
            self.config.namespaces = self.config.namespaces | namespaces[i].to_clone_flag();
            i = i + 1;
        }
        self
    }

    /// Whether `after` and `out` are what becomes of the command `before`
    /// and what is answered when the outcome of duplicating a descriptor that
    /// refers to a namespace of kind `ns` is `r`: a duplicate becomes the
    /// descriptor through which the child joins that namespace, in place of
    /// an earlier one for `ns` or after the others, and nothing else
    /// changes; an error is answered as an error of the operation, with its
    /// `errno` where it has one, and leaves the command as it was.
    pub open spec fn stores_namespace(
        before: Command,
        after: Command,
        ns: Namespace,
        r: Result<i32, SysError>,
        out: Result<(), IoError>,
    ) -> bool {
        match r {
            Ok(fd) => {
                &&& out is Ok
                &&& after.config.setns_namespaces@ == with_namespace(
                    before.config.setns_namespaces@,
                    ns,
                    Closing { fd },
                )
                &&& after.config == (Config {
                    setns_namespaces: after.config.setns_namespaces,
                    ..before.config
                })
                &&& after == (Command { config: after.config, ..before })
            },
            Err(e) => {
                &&& out == Err::<(), IoError>(IoError::spec_from_sys(e))
                &&& after == before
            },
        }
    }

    /// Stores the outcome `r` of duplicating a descriptor that refers to a
    /// namespace of kind `ns`; see `stores_namespace`.
    pub fn store_namespace(&mut self, ns: Namespace, r: Result<i32, SysError>) -> (out: Result<
        (),
        IoError,
    >)
        requires
            old(self).wf(),
        ensures
            final(self).wf(),
            Self::stores_namespace(*old(self), *final(self), ns, r, out),
    {
        match r {
            Ok(fd) => {
                set_namespace_fd(&mut self.config.setns_namespaces, ns, Closing::new(fd));
                Ok(())
            },
            Err(e) => Err(IoError::from_sys(e)),
        }
    }

    /// Makes the child join the namespace of kind `ns` that the open
    /// descriptor `fd` refers to. The descriptor is duplicated, from
    /// descriptor 3 upwards and closed on `execve`, so the caller keeps its
    /// own; what the system answers to that is stored as `stores_namespace`
    /// says. A duplicate is never the number -1.
    pub fn set_namespace(&mut self, fd: i32, ns: Namespace) -> (out: Result<(), IoError>)
        requires
            old(self).wf(),
        ensures
            final(self).wf(),
            exists|r: Result<i32, SysError>|
                {
                    &&& r matches Ok(n) ==> n != -1
                    &&& #[trigger] Self::stores_namespace(*old(self), *final(self), ns, r, out)
                },
    {
        let r = dup_cloexec(fd, FIRST_FREE_FD);
        let out = self.store_namespace(ns, r);
        assert(Self::stores_namespace(*old(self), *self, ns, r, out));
        out
    }

    /// Gives the child a new user namespace with the given uid and gid
    /// maps.
    pub fn set_id_maps(&mut self, uid_map: Vec<UidMap>, gid_map: Vec<GidMap>) -> (ret:
        &mut Command)
        requires
            old(self).wf(),
        ensures
            *final(self) == *final(ret),
            ret.wf(),
            ret.config == (Config {
                namespaces: old(self).config.namespaces | CLONE_NEWUSER,
                id_maps: Some((uid_map, gid_map)),
                ..old(self).config
            }),
            *ret == (Command { config: ret.config, ..*old(self) }),
    {
        self.config.namespaces = self.config.namespaces | Namespace::User.to_clone_flag();
        self.config.id_maps = Some((uid_map, gid_map));
        self
    }

    /// Has the id maps written by these two helper commands, which take the
    /// arguments of `newuidmap` and `newgidmap`, instead of writing them
    /// directly.
    pub fn set_id_map_commands(&mut self, newuidmap: &[u8], newgidmap: &[u8]) -> (ret:
        &mut Command)
        requires
            old(self).wf(),
            no_nul(newuidmap@),
            no_nul(newgidmap@),
        ensures
            *final(self) == *final(ret),
            ret.wf(),
            ret.id_map_commands matches Some((u, g)) && u@ == newuidmap@ && g@ == newgidmap@,
            *ret == (Command { id_map_commands: ret.id_map_commands, ..*old(self) }),
    {
        self.id_map_commands = Some((copy_bytes(newuidmap), copy_bytes(newgidmap)));
        self
    }

    /// Leaves the signal mask and the ignored signals of the parent to the
    /// child.
    pub fn keep_sigmask(&mut self) -> (ret: &mut Command)
        requires
            old(self).wf(),
        ensures
            *final(self) == *final(ret),
            ret.wf(),
            ret.config == (Config { restore_sigmask: false, ..old(self).config }),
            *ret == (Command { config: ret.config, ..*old(self) }),
    {
        self.config.restore_sigmask = false;
        self
    }

    /// Says whether the child becomes the leader of a new process group.
    pub fn make_group_leader(&mut self, make_group_leader: bool) -> (ret: &mut Command)
        requires
            old(self).wf(),
        ensures
            *final(self) == *final(ret),
            ret.wf(),
            ret.config == (Config { make_group_leader, ..old(self).config }),
            *ret == (Command { config: ret.config, ..*old(self) }),
    {
        self.config.make_group_leader = make_group_leader;
        self
    }

    /// Makes the child drop all capabilities but those with the numbers
    /// `caps`, each of which is below 64. The set replaces an earlier one.
    pub fn keep_caps(&mut self, caps: &[u32])
        requires
            old(self).wf(),
            forall|i: int| 0 <= i < caps@.len() ==> #[trigger] caps@[i] < 64,
        ensures
            final(self).wf(),
            final(self).keep_caps == Some(caps_of(caps@, caps@.len())),
            *final(self) == (Command { keep_caps: final(self).keep_caps, ..*old(self) }),
    {
        let mut lo: u32 = 0;
        let mut hi: u32 = 0;
        let mut i: usize = 0;
        while i < caps.len()
            invariant
                0 <= i <= caps.len(),
                forall|j: int| 0 <= j < caps@.len() ==> #[trigger] caps@[j] < 64,
                (lo, hi) == caps_of(caps@, i as nat),
            decreases caps.len() - i,
        {
            let item = caps[i];
            if item < 32 {
                lo = lo | (1u32 << item);
            } else {
                hi = hi | (1u32 << (item - 32));
            }
            i = i + 1;
        }
        self.keep_caps = Some((lo, hi));
    }

    /// Connects the descriptor `target_fd` of the child, which is not one of
    /// the three standard streams.
    pub fn file_descriptor(&mut self, target_fd: i32, cfg: Fd) -> (ret: &mut Command)
        requires
            old(self).wf(),
            target_fd > 2,
        ensures
            *final(self) == *final(ret),
            ret.wf(),
            ret.fds@ == with_fd(old(self).fds@, target_fd, cfg),
            *ret == (Command { fds: ret.fds, ..*old(self) }),
    {
        set_fd(&mut self.fds, target_fd, cfg);
        self
    }

    /// Connects the descriptor `target_fd` of the child to the open
    /// descriptor `src`, which the caller keeps open until the child runs.
    pub fn file_descriptor_raw(&mut self, target_fd: i32, src: i32) -> (ret: &mut Command)
        requires
            old(self).wf(),
        ensures
            *final(self) == *final(ret),
            ret.wf(),
            ret.fds@ == with_fd(old(self).fds@, target_fd, Fd::RawFd(src)),
            *ret == (Command { fds: ret.fds, ..*old(self) }),
    {
        set_fd(&mut self.fds, target_fd, Fd::RawFd(src));
        self
    }

    /// Makes the child close the descriptors of `range` that are not its
    /// own. A range without an upper end goes up to `nofile_limit`, which is
    /// the limit on the number of open descriptors as the caller has just
    /// read it. The range has to start at 3 or above.
    pub fn close_fds(&mut self, range: AnyRange, nofile_limit: i32) -> (ret: &mut Command)
        requires
            old(self).wf(),
            range.start() >= 3,
        ensures
            *final(self) == *final(ret),
            ret.wf(),
            ret.close_fds@ == old(self).close_fds@.push(range.bounds(nofile_limit)),
            *ret == (Command { close_fds: ret.close_fds, ..*old(self) }),
    {
        let pair = match range {
            AnyRange::Range(x, y) => (x, y),
            AnyRange::RangeFrom(x) => (x, nofile_limit),
        };
        self.close_fds.push(pair);
        self
    }

    /// Puts the descriptors back to where a new command has them: the three
    /// standard streams of the parent, and no range to close.
    pub fn reset_fds(&mut self) -> (ret: &mut Command)
        requires
            old(self).wf(),
        ensures
            *final(self) == *final(ret),
            ret.wf(),
            ret.fds@ == seq![(0i32, Fd::Inherit), (1i32, Fd::Inherit), (2i32, Fd::Inherit)],
            ret.close_fds@.len() == 0,
            *ret == (Command { fds: ret.fds, close_fds: ret.close_fds, ..*old(self) }),
    {
        let mut fds: Vec<(i32, Fd)> = Vec::new();
        fds.push((0, Fd::Inherit));
        fds.push((1, Fd::Inherit));
        fds.push((2, Fd::Inherit));
        assert(fds@ =~= seq![(0i32, Fd::Inherit), (1i32, Fd::Inherit), (2i32, Fd::Inherit)]);
        self.fds = fds;
        self.close_fds.clear();
        self
    }
}

/// A range of descriptors, with or without an upper end.
#[derive(Debug, Clone, Copy, PartialEq, Eq, Structural)]
pub enum AnyRange {
    /// From this number upwards.
    RangeFrom(i32),
    /// From the first number up to but without the second.
    Range(i32, i32),
}

impl AnyRange {
    /// The first descriptor of the range.
    pub open spec fn start(self) -> i32 {
        match self {
            AnyRange::RangeFrom(x) => x,
            AnyRange::Range(x, _) => x,
        }
    }

    /// The two ends of the range, where a range without an upper end goes up
    /// to `limit`.
    pub open spec fn bounds(self, limit: i32) -> (i32, i32) {
        match self {
            AnyRange::RangeFrom(x) => (x, limit),
            AnyRange::Range(x, y) => (x, y),
        }
    }

    /// The range `start..end`.
    pub fn between(start: i32, end: i32) -> (r: AnyRange)
        ensures
            r == AnyRange::Range(start, end),
    {
        AnyRange::Range(start, end)
    }

    /// The range `..end`, which spares the three standard streams: `3..end`.
    pub fn below(end: i32) -> (r: AnyRange)
        ensures
            r == AnyRange::Range(3, end),
    {
        AnyRange::Range(3, end)
    }

    /// The range `start..`.
    pub fn from_fd(start: i32) -> (r: AnyRange)
        ensures
            r == AnyRange::RangeFrom(start),
    {
        AnyRange::RangeFrom(start)
    }

    /// The range `..`, which spares the three standard streams: `3..`.
    pub fn full() -> (r: AnyRange)
        ensures
            r == AnyRange::RangeFrom(3),
    {
        AnyRange::RangeFrom(3)
    }
}

/// The names `names` with `key` among them: as they are if `key` is one of
/// them, else with `key` after all the others.
pub open spec fn with_name(names: Seq<Seq<u8>>, key: Seq<u8>) -> Seq<Seq<u8>> {
    if names.contains(key) {
        names
    } else {
        names.push(key)
    }
}

/// Whether `key` is one of `names`.
pub fn contains_name(names: &Vec<Vec<u8>>, key: &[u8]) -> (r: bool)
    ensures
        r == views(names@).contains(key@),
{
    let mut i: usize = 0;
    while i < names.len()
        invariant
            0 <= i <= names.len(),
            forall|j: int| 0 <= j < i ==> views(names@)[j] != key@,
        decreases names.len() - i,
    {
        if bytes_eq(names[i].as_slice(), key) {
            assert(views(names@)[i as int] == key@);
            return true;
        }
        i = i + 1;
    }
    false
}

/// The place of the entry for the namespace `ns` in `list`.
pub open spec fn namespace_index(list: Seq<(Namespace, Closing)>, ns: Namespace) -> int {
    choose|i: int| 0 <= i < list.len() && (#[trigger] list[i]).0 == ns
}

/// Whether `list` has an entry for the namespace `ns`.
pub open spec fn joins(list: Seq<(Namespace, Closing)>, ns: Namespace) -> bool {
    exists|i: int| 0 <= i < list.len() && (#[trigger] list[i]).0 == ns
}

/// The list `list` with the namespace `ns` joined through `holder`: in the
/// place of the entry for `ns` if there is one, else after all the others.
pub open spec fn with_namespace(list: Seq<(Namespace, Closing)>, ns: Namespace, holder: Closing)
    -> Seq<(Namespace, Closing)> {
    if joins(list, ns) {
        list.update(namespace_index(list, ns), (ns, holder))
    } else {
        list.push((ns, holder))
    }
}

/// Makes `holder` the descriptor through which the namespace `ns` is
/// joined; an earlier one for `ns` is closed.
fn set_namespace_fd(list: &mut Vec<(Namespace, Closing)>, ns: Namespace, holder: Closing)
    requires
        distinct_namespaces(old(list)@),
    ensures
        final(list)@ == with_namespace(old(list)@, ns, holder),
        distinct_namespaces(final(list)@),
{
    let ghost before = list@;
    let mut i: usize = 0;
    while i < list.len()
        invariant
            0 <= i <= list.len(),
            list@ == before,
            before == old(list)@,
            distinct_namespaces(before),
            forall|j: int| 0 <= j < i ==> (#[trigger] before[j]).0 != ns,
        decreases list.len() - i,
    {
        if list[i].0 == ns {
            proof {
                let k = namespace_index(before, ns);
                assert(0 <= k < before.len() && before[k].0 == ns);
                if k < i {
                    assert(before[k].0 != before[i as int].0);
                } else if i < k {
                    assert(before[i as int].0 != before[k].0);
                }
                assert(k == i);
            }
            list[i] = (ns, holder);
            proof {
                let after = list@;
                assert(joins(before, ns));
                assert(i as int == namespace_index(before, ns));
                assert(after =~= before.update(i as int, (ns, holder)));
                assert forall|a: int, b: int| 0 <= a < b < after.len() implies (
                #[trigger] after[a]).0 != (#[trigger] after[b]).0 by {
                    assert(before[a].0 != before[b].0);
                }
            }
            return ;
        }
        i = i + 1;
    }
    list.push((ns, holder));
    proof {
        let after = list@;
        assert forall|a: int, b: int| 0 <= a < b < after.len() implies (#[trigger] after[a]).0 != (
        #[trigger] after[b]).0 by {
            if b < before.len() {
                assert(before[a].0 != before[b].0);
            } else {
                assert(before[a].0 != ns);
            }
        }
    }
}

/// The capability set `caps` with the capability number `item` added.
pub open spec fn with_cap(caps: (u32, u32), item: u32) -> (u32, u32) {
    if item < 32 {
        (caps.0 | (1u32 << item), caps.1)
    } else {
        (caps.0, caps.1 | (1u32 << ((item - 32) as u32)))
    }
}

/// The capability set that holds the first `n` numbers of `list`.
pub open spec fn caps_of(list: Seq<u32>, n: nat) -> (u32, u32)
    decreases n,
{
    if n == 0 || n > list.len() {
        (0u32, 0u32)
    } else {
        with_cap(caps_of(list, (n - 1) as nat), list[n - 1])
    }
}

/// Setting the bit `item` of a word sets that bit and no other.
pub proof fn lemma_set_bit(w: u32, item: u32, idx: u32)
    requires
        item < 32,
        idx < 32,
    ensures
        (((w | (1u32 << item)) >> idx) & 1 == 1) <==> (((w >> idx) & 1 == 1) || item == idx),
{
    assert((((w | (1u32 << item)) >> idx) & 1 == 1) <==> (((w >> idx) & 1 == 1) || item == idx))
        by (bit_vector)
        requires
            item < 32,
            idx < 32,
    ;
}

/// The set made of the first `n` numbers of `list` holds a capability
/// exactly if its number is among them.
pub proof fn lemma_caps_of(list: Seq<u32>, n: nat, idx: u32)
    requires
        n <= list.len(),
        forall|i: int| 0 <= i < list.len() ==> #[trigger] list[i] < 64,
        idx < 64,
    ensures
        cap_bit(caps_of(list, n).0, caps_of(list, n).1, idx) <==> exists|i: int|
            0 <= i < n && list[i] == idx,
    decreases n,
{
    if n == 0 {
        assert((0u32 >> idx) & 1 == 0) by (bit_vector);
        if idx >= 32 {
            let k = (idx - 32) as u32;
            assert((0u32 >> k) & 1 == 0) by (bit_vector);
        }
    } else {
        let prev = caps_of(list, (n - 1) as nat);
        let item = list[n - 1];
        lemma_caps_of(list, (n - 1) as nat, idx);
        if item < 32 {
            if idx < 32 {
                lemma_set_bit(prev.0, item, idx);
            }
        } else {
            if idx >= 32 {
                lemma_set_bit(prev.1, (item - 32) as u32, (idx - 32) as u32);
            }
        }
        if cap_bit(caps_of(list, n).0, caps_of(list, n).1, idx) {
            if item == idx {
                assert(0 <= n - 1 < n && list[n - 1] == idx);
            } else {
                let i = choose|i: int| 0 <= i < n - 1 && list[i] == idx;
                assert(0 <= i < n && list[i] == idx);
            }
        }
    }
}

} // verus!
