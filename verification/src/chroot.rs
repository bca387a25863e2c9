//! The path resolver: where the child finds itself after `pivot_root` and
//! `chroot`, worked out on paths as byte strings.
use vstd::prelude::*;
use crate::ffi_util::{bytes_eq, is_cstring, no_nul, views, ToCString};

verus! {

/// What the child needs to change its root with `pivot_root`. Every path is
/// absolute and ends in a NUL.
#[derive(Debug, Clone, PartialEq, Eq)]
pub struct Pivot {
    /// The directory that becomes the root.
    pub new_root: Vec<u8>,
    /// Where the old root is put; it lies under `new_root`.
    pub put_old: Vec<u8>,
    /// Where the old root is found once the root has changed.
    pub old_inside: Vec<u8>,
    /// The directory that the child enters once the root has changed.
    pub workdir: Vec<u8>,
    /// Whether the old root is unmounted.
    pub unmount_old_root: bool,
}

/// What the child needs to change its root with `chroot`. Every path is
/// absolute and ends in a NUL.
#[derive(Debug, Clone, PartialEq, Eq)]
pub struct Chroot {
    /// The directory that becomes the root.
    pub root: Vec<u8>,
    /// The directory that the child enters once the root has changed.
    pub workdir: Vec<u8>,
}

/// The byte `/`.
pub const SLASH: u8 = 47;

/// The byte `.`.
pub const DOT: u8 = 46;

/// Whether a path starts at the root.
pub open spec fn is_absolute(path: Seq<u8>) -> bool {
    path.len() > 0 && path[0] == SLASH
}

/// Whether a stretch between two slashes counts as a component: an empty one
/// and `.` do not.
pub open spec fn keeps(c: Seq<u8>) -> bool {
    c.len() > 0 && c != seq![DOT]
}

/// The components found in the first `n` bytes of `s`, and the stretch
/// after the last slash among them.
pub open spec fn scan(s: Seq<u8>, n: nat) -> (Seq<Seq<u8>>, Seq<u8>)
    decreases n,
{
    if n == 0 || n > s.len() {
        (Seq::empty(), Seq::empty())
    } else {
        let (done, cur) = scan(s, (n - 1) as nat);
        if s[n - 1] == SLASH {
            (
                if keeps(cur) {
                    done.push(cur)
                } else {
                    done
                },
                Seq::empty(),
            )
        } else {
            (done, cur.push(s[n - 1]))
        }
    }
}

/// The components of a path: the stretches between slashes, without the
/// empty ones and without `.`.
pub open spec fn components(path: Seq<u8>) -> Seq<Seq<u8>> {
    let (done, cur) = scan(path, path.len());
    if keeps(cur) {
        done.push(cur)
    } else {
        done
    }
}

/// The components joined by single slashes.
pub open spec fn join(cs: Seq<Seq<u8>>) -> Seq<u8>
    decreases cs.len(),
{
    if cs.len() == 0 {
        Seq::empty()
    } else if cs.len() == 1 {
        cs[0]
    } else {
        join(cs.drop_last()) + seq![SLASH] + cs.last()
    }
}

/// The path made of the components `cs`, from the root if `absolute`.
pub open spec fn path_of(cs: Seq<Seq<u8>>, absolute: bool) -> Seq<u8> {
    if absolute {
        seq![SLASH] + join(cs)
    } else {
        join(cs)
    }
}

/// Whether the path `dir` lies under the path `rel`, or is `rel` itself:
/// both start at the root or neither does, and the components of `rel` are
/// the first components of `dir`.
pub open spec fn is_under(dir: Seq<u8>, rel: Seq<u8>) -> bool {
    &&& is_absolute(dir) == is_absolute(rel)
    &&& components(rel).is_prefix_of(components(dir))
}

/// What is left of `dir` when the leading `rel` is taken off; with
/// `absolute`, as a path from the root. `None` where `dir` is not under
/// `rel`.
pub open spec fn spec_relative_to(dir: Seq<u8>, rel: Seq<u8>, absolute: bool) -> Option<Seq<u8>> {
    if is_under(dir, rel) {
        Some(path_of(components(dir).skip(components(rel).len() as int), absolute))
    } else {
        None
    }
}

/// The directory that a child enters after its root has become `root`,
/// given the directory `cwd` that the parent is in: what is left of `cwd`
/// under `root`, or the root where `cwd` is unknown or outside.
pub open spec fn spec_workdir(cwd: Option<Seq<u8>>, root: Seq<u8>) -> Seq<u8> {
    match cwd {
        Some(c) => match spec_relative_to(c, root, true) {
            Some(p) => p,
            None => seq![SLASH],
        },
        None => seq![SLASH],
    }
}

/// Whether none of the components holds a NUL.
pub open spec fn all_no_nul(cs: Seq<Seq<u8>>) -> bool {
    forall|i: int| 0 <= i < cs.len() ==> no_nul(#[trigger] cs[i])
}

/// A path without NUL has components without NUL.
pub proof fn lemma_scan_no_nul(s: Seq<u8>, n: nat)
    requires
        no_nul(s),
        n <= s.len(),
    ensures
        all_no_nul(scan(s, n).0),
        no_nul(scan(s, n).1),
    decreases n,
{
    if n > 0 {
        lemma_scan_no_nul(s, (n - 1) as nat);
    }
}

/// A path without NUL has components without NUL.
pub proof fn lemma_components_no_nul(s: Seq<u8>)
    requires
        no_nul(s),
    ensures
        all_no_nul(components(s)),
{
    lemma_scan_no_nul(s, s.len());
}

/// Components without NUL join to a path without NUL.
pub proof fn lemma_join_no_nul(cs: Seq<Seq<u8>>)
    requires
        all_no_nul(cs),
    ensures
        no_nul(join(cs)),
        no_nul(path_of(cs, true)),
        no_nul(path_of(cs, false)),
    decreases cs.len(),
{
    if cs.len() >= 2 {
        lemma_join_no_nul(cs.drop_last());
        assert(no_nul(cs.last()));
    } else if cs.len() == 1 {
        assert(no_nul(cs[0]));
    }
}

/// A component is never empty, never `.`, and holds no slash.
pub proof fn lemma_scan_components(s: Seq<u8>, n: nat)
    requires
        n <= s.len(),
    ensures
        forall|i: int|
            0 <= i < scan(s, n).0.len() ==> keeps(#[trigger] scan(s, n).0[i]) && !scan(
                s,
                n,
            ).0[i].contains(SLASH),
        !scan(s, n).1.contains(SLASH),
    decreases n,
{
    if n > 0 {
        lemma_scan_components(s, (n - 1) as nat);
        let (done, cur) = scan(s, (n - 1) as nat);
        if s[n - 1] != SLASH {
            let next = cur.push(s[n - 1]);
            assert forall|k: int| 0 <= k < next.len() implies next[k] != SLASH by {
                if k < cur.len() {
                    assert(cur.contains(cur[k]));
                }
            }
        }
    }
}

/// A component is never empty, never `.`, and holds no slash.
pub proof fn lemma_components_shape(path: Seq<u8>)
    ensures
        forall|i: int|
            0 <= i < components(path).len() ==> keeps(#[trigger] components(path)[i])
                && !components(path)[i].contains(SLASH),
{
    lemma_scan_components(path, path.len());
}

/// The components of `path`, in order.
pub fn split_components(path: &[u8]) -> (r: Vec<Vec<u8>>)
    ensures
        views(r@) == components(path@),
{
    let mut done: Vec<Vec<u8>> = Vec::new();
    let mut cur: Vec<u8> = Vec::new();
    let mut i: usize = 0;
    assert(views(done@) =~= scan(path@, 0).0);
    while i < path.len()
        invariant
            0 <= i <= path.len(),
            views(done@) == scan(path@, i as nat).0,
            cur@ == scan(path@, i as nat).1,
        decreases path.len() - i,
    {
        let b = path[i];
        if b == SLASH {
            if keeps_component(&cur) {
                let ghost before = views(done@);
                done.push(cur);
                assert(views(done@) =~= before.push(scan(path@, i as nat).1));
            }
            cur = Vec::new();
        } else {
            cur.push(b);
        }
        i = i + 1;
    }
    if keeps_component(&cur) {
        let ghost before = views(done@);
        let ghost last = cur@;
        done.push(cur);
        assert(views(done@) =~= before.push(last));
    }
    done
}

/// Whether a stretch between two slashes counts as a component.
fn keeps_component(c: &Vec<u8>) -> (r: bool)
    ensures
        r == keeps(c@),
{
    if c.len() == 0 {
        false
    } else if c.len() == 1 && c[0] == DOT {
        assert(c@ =~= seq![DOT]);
        false
    } else {
        if c.len() == 1 {
            assert(c@[0] != DOT);
            assert(seq![DOT][0] == DOT);
        } else {
            assert(seq![DOT].len() == 1);
        }
        true
    }
}

/// Whether `path` starts at the root.
pub fn starts_at_root(path: &[u8]) -> (r: bool)
    ensures
        r == is_absolute(path@),
{
    path.len() > 0 && path[0] == SLASH
}

/// Whether the components `rel` are the first components of `dir`.
fn components_start_with(dir: &Vec<Vec<u8>>, rel: &Vec<Vec<u8>>) -> (r: bool)
    ensures
        r == views(rel@).is_prefix_of(views(dir@)),
{
    if rel.len() > dir.len() {
        return false;
    }
    let mut i: usize = 0;
    while i < rel.len()
        invariant
            0 <= i <= rel.len(),
            rel.len() <= dir.len(),
            forall|j: int| 0 <= j < i ==> views(rel@)[j] == views(dir@)[j],
        decreases rel.len() - i,
    {
        if !bytes_eq(rel[i].as_slice(), dir[i].as_slice()) {
            assert(views(rel@)[i as int] != views(dir@)[i as int]);
            assert(views(dir@).subrange(0, rel.len() as int)[i as int] == views(dir@)[i as int]);
            return false;
        }
        i = i + 1;
    }
    assert(views(rel@) =~= views(dir@).subrange(0, views(rel@).len() as int));
    true
}

/// The path made of the components of `comps` from number `start` on, from
/// the root if `absolute`.
fn join_from(comps: &Vec<Vec<u8>>, start: usize, absolute: bool) -> (r: Vec<u8>)
    requires
        start <= comps.len(),
    ensures
        r@ == path_of(views(comps@).skip(start as int), absolute),
{
    let mut out: Vec<u8> = Vec::new();
    if absolute {
        out.push(SLASH);
    }
    let ghost head = out@;
    let ghost rest = views(comps@).skip(start as int);
    let mut i: usize = start;
    assert(rest.subrange(0, 0) =~= Seq::<Seq<u8>>::empty());
    while i < comps.len()
        invariant
            start <= i <= comps.len(),
            rest == views(comps@).skip(start as int),
            out@ == head + join(rest.subrange(0, i - start)),
        decreases comps.len() - i,
    {
        let ghost before = rest.subrange(0, i - start);
        let ghost after = rest.subrange(0, i - start + 1);
        proof {
            assert(after.drop_last() =~= before);
            assert(after.last() == comps@[i as int]@);
        }
        if i > start {
            out.push(SLASH);
        }
        let c = &comps[i];
        let mut k: usize = 0;
        let ghost base = out@;
        while k < c.len()
            invariant
                0 <= k <= c.len(),
                out@ == base + c@.subrange(0, k as int),
            decreases c.len() - k,
        {
            out.push(c[k]);
            assert(out@ =~= base + c@.subrange(0, k + 1));
            k = k + 1;
        }
        proof {
            assert(c@.subrange(0, c@.len() as int) =~= c@);
            if i > start {
                assert(out@ =~= head + (join(before) + seq![SLASH] + c@));
            } else {
                assert(before.len() == 0);
                assert(join(before) =~= Seq::<u8>::empty());
                assert(out@ =~= head + c@);
            }
        }
        i = i + 1;
    }
    proof {
        assert(rest.subrange(0, comps.len() - start) =~= rest);
        if absolute {
            assert(head =~= seq![SLASH]);
        } else {
            assert(out@ =~= join(rest));
        }
    }
    out
}

/// What is left of `dir` when the leading `rel` is taken off; with
/// `absolute`, as a path from the root. `None` where `dir` is not under
/// `rel`.
pub fn relative_to(dir: &[u8], rel: &[u8], absolute: bool) -> (r: Option<Vec<u8>>)
    ensures
        match r {
            Some(p) => spec_relative_to(dir@, rel@, absolute) == Some(p@),
            None => spec_relative_to(dir@, rel@, absolute) is None,
        },
{
    if starts_at_root(dir) != starts_at_root(rel) {
        return None;
    }
    let dc = split_components(dir);
    let rc = split_components(rel);
    if components_start_with(&dc, &rc) {
        Some(join_from(&dc, rc.len(), absolute))
    } else {
        None
    }
}

/// What is left of a path without NUL holds no NUL.
pub proof fn lemma_relative_no_nul(dir: Seq<u8>, rel: Seq<u8>, absolute: bool)
    requires
        no_nul(dir),
    ensures
        spec_relative_to(dir, rel, absolute) matches Some(p) ==> no_nul(p),
        no_nul(spec_workdir(Some(dir), rel)),
        no_nul(spec_workdir(None, rel)),
{
    lemma_components_no_nul(dir);
    let rest = components(dir).skip(components(rel).len() as int);
    if is_under(dir, rel) {
        assert(all_no_nul(rest)) by {
            assert forall|i: int| 0 <= i < rest.len() implies no_nul(#[trigger] rest[i]) by {
                assert(rest[i] == components(dir)[i + components(rel).len()]);
            }
        }
        lemma_join_no_nul(rest);
    }
}

/// The directory that a child enters after its root has become `root`.
fn workdir_under(cwd: &Option<Vec<u8>>, root: &[u8]) -> (r: Vec<u8>)
    ensures
        r@ == spec_workdir(option_view(*cwd), root@),
{
    match cwd {
        Some(c) => match relative_to(c.as_slice(), root, true) {
            Some(p) => p,
            None => {
                let mut out: Vec<u8> = Vec::new();
                out.push(SLASH);
                assert(out@ =~= seq![SLASH]);
                out
            },
        },
        None => {
            let mut out: Vec<u8> = Vec::new();
            out.push(SLASH);
            assert(out@ =~= seq![SLASH]);
            out
        },
    }
}

/// The bytes of a path that may be missing.
pub open spec fn option_view(p: Option<Vec<u8>>) -> Option<Seq<u8>> {
    match p {
        Some(v) => Some(v@),
        None => None,
    }
}

impl Pivot {
    /// What `resolve` computes.
    pub open spec fn spec_resolve(
        new_root: Seq<u8>,
        put_old: Seq<u8>,
        unmount: bool,
        cwd: Option<Seq<u8>>,
        p: Pivot,
    ) -> bool {
        &&& p.new_root@ == new_root.push(0u8)
        &&& p.put_old@ == put_old.push(0u8)
        &&& Some(p.old_inside@.drop_last()) == spec_relative_to(put_old, new_root, true)
        &&& p.workdir@ == spec_workdir(cwd, new_root).push(0u8)
        &&& p.unmount_old_root == unmount
        &&& p.wf()
    }

    /// Every path ends in its only NUL.
    pub open spec fn wf(self) -> bool {
        &&& is_cstring(self.new_root@)
        &&& is_cstring(self.put_old@)
        &&& is_cstring(self.old_inside@)
        &&& is_cstring(self.workdir@)
    }

    /// Works out the paths for a `pivot_root` to `new_root` that puts the old
    /// root at `put_old`: the two as they are; where the old root is found
    /// afterwards, which is what is left of `put_old` under `new_root`, from
    /// the root; and the directory to enter, which is what is left of the
    /// parent's directory `cwd` under `new_root`, or the root where `cwd` is
    /// unknown or outside.
    pub fn resolve(new_root: &[u8], put_old: &[u8], unmount: bool, cwd: &Option<Vec<u8>>) -> (r:
        Pivot)
        requires
            no_nul(new_root@),
            no_nul(put_old@),
            cwd matches Some(c) ==> no_nul(c@),
            is_under(put_old@, new_root@),
        ensures
            Self::spec_resolve(new_root@, put_old@, unmount, option_view(*cwd), r),
    {
        proof {
            lemma_relative_no_nul(put_old@, new_root@, true);
            match cwd {
                Some(c) => lemma_relative_no_nul(c@, new_root@, true),
                None => lemma_relative_no_nul(put_old@, new_root@, true),
            }
        }
        let inside = match relative_to(put_old, new_root, true) {
            Some(p) => p,
            None => Vec::new(),
        };
        let workdir = workdir_under(cwd, new_root);
        let r = Pivot {
            new_root: new_root.to_cstring(),
            put_old: put_old.to_cstring(),
            old_inside: inside.as_slice().to_cstring(),
            workdir: workdir.as_slice().to_cstring(),
            unmount_old_root: unmount,
        };
        assert(r.old_inside@.drop_last() =~= inside@);
        r
    }
}

impl Chroot {
    /// The directory, seen from the parent, that becomes the root: `dir`
    /// itself, or `dir` under the new root of a `pivot_root` that comes
    /// first.
    pub open spec fn outer_root(dir: Seq<u8>, pivot_root: Option<Seq<u8>>) -> Seq<u8> {
        match pivot_root {
            Some(new_root) => path_of(components(new_root) + components(dir), true),
            None => dir,
        }
    }

    /// What `resolve` computes.
    pub open spec fn spec_resolve(
        dir: Seq<u8>,
        pivot_root: Option<Seq<u8>>,
        cwd: Option<Seq<u8>>,
        c: Chroot,
    ) -> bool {
        &&& c.root@ == dir.push(0u8)
        &&& c.workdir@ == spec_workdir(cwd, Self::outer_root(dir, pivot_root)).push(0u8)
        &&& c.wf()
    }

    /// Every path ends in its only NUL.
    pub open spec fn wf(self) -> bool {
        &&& is_cstring(self.root@)
        &&& is_cstring(self.workdir@)
    }

    /// Works out the paths for a `chroot` to `dir`: the root as it is, and
    /// the directory to enter, which is what is left of the parent's
    /// directory `cwd` under the new root, or the root where `cwd` is unknown
    /// or outside. After a `pivot_root` to `pivot_root`, `dir` is a path in
    /// the new root, so the parent sees the directory under `pivot_root`.
    pub fn resolve(dir: &[u8], pivot_root: &Option<Vec<u8>>, cwd: &Option<Vec<u8>>) -> (r: Chroot)
        requires
            no_nul(dir@),
            cwd matches Some(c) ==> no_nul(c@),
        ensures
            Self::spec_resolve(dir@, option_view(*pivot_root), option_view(*cwd), r),
    {
        let outer: Vec<u8> = match pivot_root {
            Some(new_root) => {
                let mut comps = split_components(new_root.as_slice());
                let mut inner = split_components(dir);
                let ghost a = views(comps@);
                let ghost b = views(inner@);
                comps.append(&mut inner);
                assert(views(comps@) =~= a + b);
                let p = join_from(&comps, 0, true);
                assert(views(comps@).skip(0) =~= views(comps@));
                p
            },
            None => crate::ffi_util::copy_bytes(dir),
        };
        proof {
            match cwd {
                Some(c) => lemma_relative_no_nul(c@, outer@, true),
                None => lemma_relative_no_nul(dir@, outer@, true),
            }
        }
        let workdir = workdir_under(cwd, outer.as_slice());
        Chroot { root: dir.to_cstring(), workdir: workdir.as_slice().to_cstring() }
    }
}

/// Whether each of `cs` can be a component of a path: it is not empty, not
/// `.`, and holds no slash.
pub open spec fn all_components(cs: Seq<Seq<u8>>) -> bool {
    forall|i: int| 0 <= i < cs.len() ==> keeps(#[trigger] cs[i]) && !cs[i].contains(SLASH)
}

/// What is found in the first `n` bytes of a path does not depend on the
/// bytes after them.
pub proof fn lemma_scan_prefix(a: Seq<u8>, b: Seq<u8>, n: nat)
    requires
        n <= a.len(),
        n <= b.len(),
        a.subrange(0, n as int) == b.subrange(0, n as int),
    ensures
        scan(a, n) == scan(b, n),
    decreases n,
{
    if n > 0 {
        let m = (n - 1) as nat;
        assert(a.subrange(0, m as int) =~= a.subrange(0, n as int).subrange(0, m as int));
        assert(b.subrange(0, m as int) =~= b.subrange(0, n as int).subrange(0, m as int));
        lemma_scan_prefix(a, b, m);
        assert(a[n - 1] == a.subrange(0, n as int)[n - 1]);
        assert(b[n - 1] == b.subrange(0, n as int)[n - 1]);
    }
}

/// Bytes without a slash that follow a slash, or start the path, are read as
/// one stretch: after the first `k` of them that stretch is those `k`
/// bytes.
pub proof fn lemma_scan_stretch(s: Seq<u8>, n: nat, c: Seq<u8>, k: nat)
    requires
        n + c.len() <= s.len(),
        s.subrange(n as int, (n + c.len()) as int) == c,
        !c.contains(SLASH),
        scan(s, n).1 == Seq::<u8>::empty(),
        k <= c.len(),
    ensures
        scan(s, n + k) == (scan(s, n).0, c.subrange(0, k as int)),
    decreases k,
{
    if k == 0 {
        assert(c.subrange(0, 0) =~= Seq::<u8>::empty());
    } else {
        let j = (k - 1) as nat;
        lemma_scan_stretch(s, n, c, j);
        assert(s[(n + j) as int] == s.subrange(n as int, (n + c.len()) as int)[j as int]);
        assert(c.contains(c[j as int]));
        assert(c.subrange(0, k as int) =~= c.subrange(0, j as int).push(c[j as int]));
    }
}

/// After a start `p` that ends where a component can begin, the components
/// `cs` joined by slashes are read as themselves: all but the last are found
/// as components, and the last is the stretch at the end.
pub proof fn lemma_scan_join(p: Seq<u8>, cs: Seq<Seq<u8>>)
    requires
        scan(p, p.len()).1 == Seq::<u8>::empty(),
        cs.len() >= 1,
        all_components(cs),
    ensures
        scan(p + join(cs), (p + join(cs)).len()) == (
            scan(p, p.len()).0 + cs.drop_last(),
            cs.last(),
        ),
    decreases cs.len(),
{
    let d = scan(p, p.len()).0;
    let s = p + join(cs);
    let last = cs.last();
    if cs.len() == 1 {
        assert(join(cs) == cs[0]);
        assert(p.subrange(0, p.len() as int) =~= s.subrange(0, p.len() as int));
        lemma_scan_prefix(p, s, p.len());
        assert(s.subrange(p.len() as int, (p.len() + last.len()) as int) =~= last);
        lemma_scan_stretch(s, p.len(), last, last.len());
        assert(last.subrange(0, last.len() as int) =~= last);
        assert(d + cs.drop_last() =~= d);
    } else {
        let init = cs.drop_last();
        assert(all_components(init)) by {
            assert forall|i: int| 0 <= i < init.len() implies keeps(#[trigger] init[i])
                && !init[i].contains(SLASH) by {
                assert(init[i] == cs[i]);
            }
        }
        lemma_scan_join(p, init);
        let head = p + join(init);
        assert(join(cs) == join(init) + seq![SLASH] + last);
        assert(s =~= head + seq![SLASH] + last);
        let n = head.len();
        assert(head.subrange(0, n as int) =~= s.subrange(0, n as int));
        lemma_scan_prefix(head, s, n);
        assert(scan(s, n) == (d + init.drop_last(), init.last()));
        assert(s[n as int] == SLASH);
        assert(keeps(init.last())) by {
            assert(init.last() == cs[cs.len() - 2]);
        }
        assert(scan(s, n + 1) == ((d + init.drop_last()).push(init.last()), Seq::<u8>::empty()));
        assert((d + init.drop_last()).push(init.last()) =~= d + init);
        assert(s.subrange((n + 1) as int, (n + 1 + last.len()) as int) =~= last);
        lemma_scan_stretch(s, n + 1, last, last.len());
        assert(last.subrange(0, last.len() as int) =~= last);
        assert(n + 1 + last.len() == s.len());
    }
}

/// A path that is made of components has those components, and starts at
/// the root exactly if it was made to.
pub proof fn lemma_components_of_path(cs: Seq<Seq<u8>>, absolute: bool)
    requires
        all_components(cs),
    ensures
        components(path_of(cs, absolute)) == cs,
        is_absolute(path_of(cs, absolute)) == absolute,
{
    let root = seq![SLASH];
    assert(scan(root, 1) == (Seq::<Seq<u8>>::empty(), Seq::<u8>::empty())) by {
        assert(scan(root, 0) == (Seq::<Seq<u8>>::empty(), Seq::<u8>::empty()));
        assert(root[0] == SLASH);
    }
    let none = Seq::<u8>::empty();
    if cs.len() == 0 {
        assert(join(cs) =~= none);
        if absolute {
            assert(path_of(cs, absolute) =~= root);
        }
        assert(components(path_of(cs, absolute)) =~= cs);
    } else {
        assert(keeps(cs.last()));
        let p = if absolute {
            root
        } else {
            none
        };
        assert(path_of(cs, absolute) =~= p + join(cs));
        lemma_scan_join(p, cs);
        assert(scan(p, p.len()).0 + cs.drop_last() =~= cs.drop_last());
        assert(cs.drop_last().push(cs.last()) =~= cs);
        if !absolute {
            lemma_join_starts(cs);
        }
    }
}

/// Components joined by slashes do not start with a slash.
pub proof fn lemma_join_starts(cs: Seq<Seq<u8>>)
    requires
        cs.len() >= 1,
        all_components(cs),
    ensures
        join(cs).len() >= 1,
        join(cs)[0] == cs[0][0],
        join(cs)[0] != SLASH,
    decreases cs.len(),
{
    assert(keeps(cs[0]));
    assert(cs[0].contains(cs[0][0]));
    if cs.len() >= 2 {
        let init = cs.drop_last();
        assert(all_components(init)) by {
            assert forall|i: int| 0 <= i < init.len() implies keeps(#[trigger] init[i])
                && !init[i].contains(SLASH) by {
                assert(init[i] == cs[i]);
            }
        }
        lemma_join_starts(init);
        assert(init[0] == cs[0]);
    }
}

/// What is left of a path under another, put after the components of that
/// other, gives the components of the path: nothing is lost and nothing is
/// added.
pub proof fn lemma_relative_to_splits(dir: Seq<u8>, rel: Seq<u8>, absolute: bool)
    requires
        is_under(dir, rel),
    ensures
        spec_relative_to(dir, rel, absolute) matches Some(rest) && components(rel) + components(
            rest,
        ) == components(dir) && is_absolute(rest) == absolute,
{
    let dc = components(dir);
    let rc = components(rel);
    let tail = dc.skip(rc.len() as int);
    lemma_components_shape(dir);
    assert(all_components(tail)) by {
        assert forall|i: int| 0 <= i < tail.len() implies keeps(#[trigger] tail[i])
            && !tail[i].contains(SLASH) by {
            assert(tail[i] == dc[i + rc.len()]);
        }
    }
    lemma_components_of_path(tail, absolute);
    assert(rc + tail =~= dc);
}

} // verus!
