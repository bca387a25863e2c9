//! The environment of a child: variables by name, kept in the order in
//! which they were first set.
use vstd::prelude::*;
use crate::ffi_util::{bytes_eq, no_nul};

verus! {

/// A set of environment variables. No name occurs twice.
#[derive(Debug, Clone, PartialEq, Eq)]
pub struct Environ {
    pub vars: Vec<(Vec<u8>, Vec<u8>)>,
}

/// Whether `key` is the name of one of `vars`.
pub open spec fn has_key(vars: Seq<(Vec<u8>, Vec<u8>)>, key: Seq<u8>) -> bool {
    exists|i: int| 0 <= i < vars.len() && (#[trigger] vars[i]).0@ == key
}

/// The place of the variable `key` among `vars`.
pub open spec fn key_index(vars: Seq<(Vec<u8>, Vec<u8>)>, key: Seq<u8>) -> int {
    choose|i: int| 0 <= i < vars.len() && (#[trigger] vars[i]).0@ == key
}

/// Whether no name occurs twice among `vars`.
pub open spec fn distinct_keys(vars: Seq<(Vec<u8>, Vec<u8>)>) -> bool {
    forall|i: int, j: int|
        0 <= i < j < vars.len() ==> (#[trigger] vars[i]).0@ != (#[trigger] vars[j]).0@
}

/// Whether neither a name nor a value among `vars` holds a NUL.
pub open spec fn vars_no_nul(vars: Seq<(Vec<u8>, Vec<u8>)>) -> bool {
    forall|i: int|
        0 <= i < vars.len() ==> no_nul((#[trigger] vars[i]).0@) && no_nul(vars[i].1@)
}

/// The value of each variable by its name.
pub open spec fn vars_map(vars: Seq<(Vec<u8>, Vec<u8>)>) -> Map<Seq<u8>, Seq<u8>> {
    Map::new(|k: Seq<u8>| has_key(vars, k), |k: Seq<u8>| vars[key_index(vars, k)].1@)
}

/// Where no name occurs twice, the variable at place `i` is the one found by
/// its name.
pub proof fn lemma_vars_map_at(vars: Seq<(Vec<u8>, Vec<u8>)>, i: int)
    requires
        distinct_keys(vars),
        0 <= i < vars.len(),
    ensures
        vars_map(vars).dom().contains(vars[i].0@),
        vars_map(vars)[vars[i].0@] == vars[i].1@,
        key_index(vars, vars[i].0@) == i,
{
    let k = vars[i].0@;
    assert(has_key(vars, k));
    let j = key_index(vars, k);
    assert(0 <= j < vars.len() && vars[j].0@ == k);
    if j < i {
        assert(vars[j].0@ != vars[i].0@);
    } else if i < j {
        assert(vars[i].0@ != vars[j].0@);
    }
}

impl View for Environ {
    type V = Map<Seq<u8>, Seq<u8>>;

    open spec fn view(&self) -> Map<Seq<u8>, Seq<u8>> {
        vars_map(self.vars@)
    }
}

impl Environ {
    /// No name occurs twice, and neither names nor values hold a NUL.
    pub open spec fn wf(self) -> bool {
        distinct_keys(self.vars@) && vars_no_nul(self.vars@)
    }

    /// An environment without variables.
    pub fn new() -> (r: Environ)
        ensures
            r.wf(),
            r@ == Map::<Seq<u8>, Seq<u8>>::empty(),
            r.vars@.len() == 0,
    {
        let r = Environ { vars: Vec::new() };
        assert(r@ =~= Map::<Seq<u8>, Seq<u8>>::empty());
        r
    }

    /// The number of variables.
    pub fn len(&self) -> (r: usize)
        ensures
            r == self.vars@.len(),
    {
        self.vars.len()
    }

    /// The place of the variable `key`, if it is set.
    pub fn position(&self, key: &[u8]) -> (r: Option<usize>)
        ensures
            match r {
                Some(i) => i < self.vars@.len() && self.vars@[i as int].0@ == key@,
                None => !has_key(self.vars@, key@),
            },
    {
        let mut i: usize = 0;
        while i < self.vars.len()
            invariant
                0 <= i <= self.vars.len(),
                forall|j: int| 0 <= j < i ==> (#[trigger] self.vars@[j]).0@ != key@,
            decreases self.vars.len() - i,
        {
            if bytes_eq(self.vars[i].0.as_slice(), key) {
                return Some(i);
            }
            i = i + 1;
        }
        None
    }

    /// The value of the variable `key`, if it is set.
    pub fn get(&self, key: &[u8]) -> (r: Option<&Vec<u8>>)
        requires
            self.wf(),
        ensures
            match r {
                Some(v) => self@.dom().contains(key@) && self@[key@] == v@,
                None => !self@.dom().contains(key@),
            },
    {
        match self.position(key) {
            Some(i) => {
                proof {
                    lemma_vars_map_at(self.vars@, i as int);
                }
                Some(&self.vars[i].1)
            },
            None => None,
        }
    }

    /// Sets the variable `key` to `val`: in its place if it was set, else
    /// after all the others.
    pub fn insert(&mut self, key: Vec<u8>, val: Vec<u8>)
        requires
            old(self).wf(),
            no_nul(key@),
            no_nul(val@),
        ensures
            final(self).wf(),
            final(self)@ == old(self)@.insert(key@, val@),
            has_key(old(self).vars@, key@) ==> final(self).vars@.len() == old(self).vars@.len(),
            !has_key(old(self).vars@, key@) ==> final(self).vars@ == old(self).vars@.push(
                (key, val),
            ),
    {
        let ghost before = self.vars@;
        match self.position(key.as_slice()) {
            Some(i) => {
                self.vars[i] = (key, val);
                proof {
                    let after = self.vars@;
                    assert(after == before.update(i as int, (key, val)));
                    assert forall|a: int, b: int| 0 <= a < b < after.len() implies (
                    #[trigger] after[a]).0@ != (#[trigger] after[b]).0@ by {
                        assert(before[a].0@ != before[b].0@);
                    }
                    assert forall|k: Seq<u8>| has_key(after, k) <==> has_key(before, k) by {
                        if has_key(after, k) {
                            let j = key_index(after, k);
                            assert(before[j].0@ == k);
                        }
                        if has_key(before, k) {
                            let j = key_index(before, k);
                            assert(after[j].0@ == k);
                        }
                    }
                    assert forall|k: Seq<u8>| has_key(after, k) implies #[trigger] vars_map(
                        after,
                    )[k] == vars_map(before).insert(key@, val@)[k] by {
                        let j = key_index(after, k);
                        lemma_vars_map_at(after, j);
                        lemma_vars_map_at(before, j);
                    }
                    assert(has_key(before, key@));
                    assert(vars_map(after) =~= vars_map(before).insert(key@, val@));
                }
            },
            None => {
                self.vars.push((key, val));
                proof {
                    let after = self.vars@;
                    let n = before.len() as int;
                    assert(after[n].0@ == key@);
                    assert forall|a: int, b: int| 0 <= a < b < after.len() implies (
                    #[trigger] after[a]).0@ != (#[trigger] after[b]).0@ by {
                        if b < n {
                            assert(before[a].0@ != before[b].0@);
                        } else {
                            assert(before[a].0@ != key@);
                        }
                    }
                    assert forall|k: Seq<u8>| has_key(after, k) <==> (has_key(before, k) || k
                        == key@) by {
                        if has_key(after, k) {
                            let j = key_index(after, k);
                            if j < n {
                                assert(before[j].0@ == k);
                            }
                        }
                        if has_key(before, k) {
                            let j = key_index(before, k);
                            assert(after[j].0@ == k);
                        }
                    }
                    assert forall|k: Seq<u8>| has_key(after, k) implies #[trigger] vars_map(
                        after,
                    )[k] == vars_map(before).insert(key@, val@)[k] by {
                        let j = key_index(after, k);
                        lemma_vars_map_at(after, j);
                        if j < n {
                            lemma_vars_map_at(before, j);
                        }
                    }
                    assert(vars_map(after) =~= vars_map(before).insert(key@, val@));
                }
            },
        }
    }

    /// Unsets the variable `key`.
    pub fn remove(&mut self, key: &[u8])
        requires
            old(self).wf(),
        ensures
            final(self).wf(),
            final(self)@ == old(self)@.remove(key@),
            !has_key(final(self).vars@, key@),
    {
        let ghost before = self.vars@;
        match self.position(key) {
            Some(i) => {
                self.vars.remove(i);
                proof {
                    let after = self.vars@;
                    assert(after == before.remove(i as int));
                    assert forall|a: int| 0 <= a < after.len() implies (#[trigger] after[a])
                        == before[if a < i {
                        a
                    } else {
                        a + 1
                    }] by {}
                    assert forall|a: int, b: int| 0 <= a < b < after.len() implies (
                    #[trigger] after[a]).0@ != (#[trigger] after[b]).0@ by {
                        let a2 = if a < i {
                            a
                        } else {
                            a + 1
                        };
                        let b2 = if b < i {
                            b
                        } else {
                            b + 1
                        };
                        assert(before[a2].0@ != before[b2].0@);
                    }
                    assert forall|k: Seq<u8>| has_key(after, k) <==> (has_key(before, k) && k
                        != key@) by {
                        if has_key(after, k) {
                            let j = key_index(after, k);
                            let j2 = if j < i {
                                j
                            } else {
                                j + 1
                            };
                            assert(before[j2].0@ == k);
                            if j2 < i {
                                assert(before[j2].0@ != before[i as int].0@);
                            } else {
                                assert(before[i as int].0@ != before[j2].0@);
                            }
                        }
                        if has_key(before, k) && k != key@ {
                            let j = key_index(before, k);
                            assert(j != i);
                            let j2 = if j < i {
                                j
                            } else {
                                j - 1
                            };
                            assert(after[j2].0@ == k);
                        }
                    }
                    assert forall|k: Seq<u8>| has_key(after, k) implies #[trigger] vars_map(
                        after,
                    )[k] == vars_map(before).remove(key@)[k] by {
                        let j = key_index(after, k);
                        let j2 = if j < i {
                            j
                        } else {
                            j + 1
                        };
                        lemma_vars_map_at(after, j);
                        lemma_vars_map_at(before, j2);
                    }
                    assert(vars_map(after) =~= vars_map(before).remove(key@));
                }
            },
            None => {
                assert(vars_map(before) =~= vars_map(before).remove(key@));
            },
        }
    }
}

} // verus!
