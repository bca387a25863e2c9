//! The kinds of Linux namespace and the clone flags that stand for them.
use vstd::prelude::*;

verus! {

/// A kind of namespace that a child can leave (`unshare`) or join (`setns`).
#[derive(Debug, Clone, Copy, PartialEq, Eq, Hash, Structural)]
pub enum Namespace {
    /// Mount points.
    Mount,
    /// Host and domain name.
    Uts,
    /// System V IPC and POSIX message queues.
    Ipc,
    /// User and group ids, and capabilities.
    User,
    /// Process ids: the child becomes pid 1 of the new namespace.
    Pid,
    /// Network devices, addresses and ports.
    Net,
}

pub const CLONE_NEWNS: u32 = 0x0002_0000;

pub const CLONE_NEWUTS: u32 = 0x0400_0000;

pub const CLONE_NEWIPC: u32 = 0x0800_0000;

pub const CLONE_NEWUSER: u32 = 0x1000_0000;

pub const CLONE_NEWPID: u32 = 0x2000_0000;

pub const CLONE_NEWNET: u32 = 0x4000_0000;

/// The signal that the kernel sends the parent when the child ends; `clone`
/// takes it in the low byte of its flags.
pub const SIGCHLD: u32 = 17;

impl Namespace {
    /// The clone flag of the namespace.
    pub open spec fn spec_flag(self) -> u32 {
        match self {
            Namespace::Mount => CLONE_NEWNS,
            Namespace::Uts => CLONE_NEWUTS,
            Namespace::Ipc => CLONE_NEWIPC,
            Namespace::User => CLONE_NEWUSER,
            Namespace::Pid => CLONE_NEWPID,
            Namespace::Net => CLONE_NEWNET,
        }
    }

    /// The namespace that a clone flag stands for, if it stands for one.
    pub open spec fn spec_from_flag(flag: u32) -> Option<Namespace> {
        if flag == CLONE_NEWNS {
            Some(Namespace::Mount)
        } else if flag == CLONE_NEWUTS {
            Some(Namespace::Uts)
        } else if flag == CLONE_NEWIPC {
            Some(Namespace::Ipc)
        } else if flag == CLONE_NEWUSER {
            Some(Namespace::User)
        } else if flag == CLONE_NEWPID {
            Some(Namespace::Pid)
        } else if flag == CLONE_NEWNET {
            Some(Namespace::Net)
        } else {
            None
        }
    }

    /// The flag that `clone`, `unshare` and `setns` take for the namespace.
    pub fn to_clone_flag(&self) -> (r: u32)
        ensures
            r == self.spec_flag(),
    {
        match self {
            Namespace::Mount => CLONE_NEWNS,
            Namespace::Uts => CLONE_NEWUTS,
            Namespace::Ipc => CLONE_NEWIPC,
            Namespace::User => CLONE_NEWUSER,
            Namespace::Pid => CLONE_NEWPID,
            Namespace::Net => CLONE_NEWNET,
        }
    }

    /// The namespace that a clone flag stands for, if it stands for one.
    pub fn from_clone_flag(flag: u32) -> (r: Option<Namespace>)
        ensures
            r == Self::spec_from_flag(flag),
    {
        if flag == CLONE_NEWNS {
            Some(Namespace::Mount)
        } else if flag == CLONE_NEWUTS {
            Some(Namespace::Uts)
        } else if flag == CLONE_NEWIPC {
            Some(Namespace::Ipc)
        } else if flag == CLONE_NEWUSER {
            Some(Namespace::User)
        } else if flag == CLONE_NEWPID {
            Some(Namespace::Pid)
        } else if flag == CLONE_NEWNET {
            Some(Namespace::Net)
        } else {
            None
        }
    }
}

/// Whether the set of clone flags `bits` asks for a new namespace of kind
/// `ns`.
pub open spec fn has_namespace(bits: u32, ns: Namespace) -> bool {
    bits & ns.spec_flag() != 0
}

/// The flags `bits` with the flags of the first `n` namespaces of `list`
/// added.
pub open spec fn with_namespaces(bits: u32, list: Seq<Namespace>, n: nat) -> u32
    decreases n,
{
    if n == 0 || n > list.len() {
        bits
    } else {
        with_namespaces(bits, list, (n - 1) as nat) | list[n - 1].spec_flag()
    }
}

/// Namespaces and clone flags correspond one to one.
pub proof fn lemma_flag_bijection(ns: Namespace, flag: u32)
    ensures
        Namespace::spec_from_flag(ns.spec_flag()) == Some(ns),
        Namespace::spec_from_flag(flag) matches Some(m) ==> m.spec_flag() == flag,
{
}

/// Two namespaces with the same flag are the same namespace.
pub proof fn lemma_flag_injective(a: Namespace, b: Namespace)
    requires
        a.spec_flag() == b.spec_flag(),
    ensures
        a == b,
{
}

/// Adding the flag of `a` to a set of flags adds the namespace `a` and no
/// other.
pub proof fn lemma_add_flag(bits: u32, a: Namespace, b: Namespace)
    ensures
        has_namespace(bits | a.spec_flag(), b) <==> (has_namespace(bits, b) || a == b),
        (bits | a.spec_flag()) & 0xff == bits & 0xff,
{
    let f = a.spec_flag();
    let g = b.spec_flag();
    assert(((bits | f) & g != 0) <==> ((bits & g != 0) || f == g)) by (bit_vector)
        requires
            f == 0x0002_0000u32 || f == 0x0400_0000u32 || f == 0x0800_0000u32 || f
                == 0x1000_0000u32 || f == 0x2000_0000u32 || f == 0x4000_0000u32,
            g == 0x0002_0000u32 || g == 0x0400_0000u32 || g == 0x0800_0000u32 || g
                == 0x1000_0000u32 || g == 0x2000_0000u32 || g == 0x4000_0000u32,
    ;
    assert((bits | f) & 0xff == bits & 0xff) by (bit_vector)
        requires
            f == 0x0002_0000u32 || f == 0x0400_0000u32 || f == 0x0800_0000u32 || f
                == 0x1000_0000u32 || f == 0x2000_0000u32 || f == 0x4000_0000u32,
    ;
    if f == g {
        lemma_flag_injective(a, b);
    }
}

/// After the first `n` namespaces of `list` were added to `bits`, the flags
/// ask for a namespace exactly if they did before or it is among those
/// `n`.
pub proof fn lemma_with_namespaces(bits: u32, list: Seq<Namespace>, n: nat, ns: Namespace)
    requires
        n <= list.len(),
    ensures
        has_namespace(with_namespaces(bits, list, n), ns) <==> (has_namespace(bits, ns)
            || exists|i: int| 0 <= i < n && list[i] == ns),
    decreases n,
{
    if n > 0 {
        let prev = with_namespaces(bits, list, (n - 1) as nat);
        lemma_with_namespaces(bits, list, (n - 1) as nat, ns);
        lemma_add_flag(prev, list[n - 1], ns);
        if has_namespace(with_namespaces(bits, list, n), ns) {
            if list[n - 1] == ns {
                assert(0 <= n - 1 < n && list[n - 1] == ns);
            }
        }
    }
}

} // verus!
