//! Byte strings as the kernel takes them: ended by their only NUL byte.
use vstd::prelude::*;

verus! {

/// Whether `s` holds no NUL byte.
pub open spec fn no_nul(s: Seq<u8>) -> bool {
    forall|i: int| 0 <= i < s.len() ==> #[trigger] s[i] != 0u8
}

/// Whether `s` is a string ended by its only NUL byte.
pub open spec fn is_cstring(s: Seq<u8>) -> bool {
    s.len() >= 1 && s.last() == 0u8 && no_nul(s.drop_last())
}

/// Whether every element of `v` is a string ended by its only NUL byte.
pub open spec fn all_cstrings(v: Seq<Vec<u8>>) -> bool {
    forall|i: int| 0 <= i < v.len() ==> is_cstring(#[trigger] v[i]@)
}

/// The byte strings that the vectors of `v` hold.
pub open spec fn views(v: Seq<Vec<u8>>) -> Seq<Seq<u8>> {
    Seq::new(v.len(), |i: int| v[i]@)
}

/// The part of `s` before its first NUL byte: what C code reads from it.
pub open spec fn c_value(s: Seq<u8>) -> Seq<u8>
    decreases s.len(),
{
    if s.len() == 0 || s[0] == 0u8 {
        Seq::empty()
    } else {
        seq![s[0]] + c_value(s.drop_first())
    }
}

/// Bytes that can be handed to the kernel as a string.
pub trait ToCString {
    /// The bytes that are converted.
    spec fn spec_bytes(&self) -> Seq<u8>;

    /// The bytes followed by a NUL. There must be no NUL among them.
    fn to_cstring(&self) -> (r: Vec<u8>)
        requires
            no_nul(self.spec_bytes()),
        ensures
            r@ == self.spec_bytes().push(0u8),
            is_cstring(r@),
    ;
}

impl ToCString for [u8] {
    open spec fn spec_bytes(&self) -> Seq<u8> {
        self@
    }

    fn to_cstring(&self) -> (r: Vec<u8>) {
        let mut out = copy_bytes(self);
        out.push(0u8);
        assert(out@.drop_last() =~= self@);
        out
    }
}

/// A copy of `s`.
pub fn copy_bytes(s: &[u8]) -> (r: Vec<u8>)
    ensures
        r@ == s@,
{
    let mut out: Vec<u8> = Vec::with_capacity(s.len());
    let mut i: usize = 0;
    while i < s.len()
        invariant
            0 <= i <= s.len(),
            out@ == s@.subrange(0, i as int),
        decreases s.len() - i,
    {
        out.push(s[i]);
        assert(out@ =~= s@.subrange(0, i + 1));
        i = i + 1;
    }
    assert(out@ =~= s@);
    out
}

/// Whether `a` and `b` hold the same bytes.
pub fn bytes_eq(a: &[u8], b: &[u8]) -> (r: bool)
    ensures
        r == (a@ == b@),
{
    if a.len() != b.len() {
        return false;
    }
    let mut i: usize = 0;
    while i < a.len()
        invariant
            0 <= i <= a.len(),
            a.len() == b.len(),
            a@.subrange(0, i as int) == b@.subrange(0, i as int),
        decreases a.len() - i,
    {
        if a[i] != b[i] {
            assert(a@[i as int] != b@[i as int]);
            return false;
        }
        assert(a@.subrange(0, i + 1) =~= a@.subrange(0, i as int).push(a@[i as int]));
        assert(b@.subrange(0, i + 1) =~= b@.subrange(0, i as int).push(b@[i as int]));
        i = i + 1;
    }
    assert(a@ =~= a@.subrange(0, a.len() as int));
    assert(b@ =~= b@.subrange(0, b.len() as int));
    true
}

/// Whether `s` holds no NUL byte.
pub fn has_no_nul(s: &[u8]) -> (r: bool)
    ensures
        r == no_nul(s@),
{
    let mut i: usize = 0;
    while i < s.len()
        invariant
            0 <= i <= s.len(),
            forall|j: int| 0 <= j < i ==> #[trigger] s@[j] != 0u8,
        decreases s.len() - i,
    {
        if s[i] == 0 {
            return false;
        }
        i = i + 1;
    }
    true
}

/// What C code reads from a string ended by its only NUL byte is the
/// string without that byte.
pub proof fn lemma_c_value_of_cstring(s: Seq<u8>)
    requires
        no_nul(s),
    ensures
        c_value(s.push(0u8)) == s,
    decreases s.len(),
{
    let t = s.push(0u8);
    if s.len() == 0 {
        assert(c_value(t) =~= s);
    } else {
        assert(t[0] == s[0]);
        assert(t.drop_first() =~= s.drop_first().push(0u8));
        assert forall|i: int| 0 <= i < s.drop_first().len() implies #[trigger] s.drop_first()[i]
            != 0u8 by {
            assert(s.drop_first()[i] == s[i + 1]);
        }
        lemma_c_value_of_cstring(s.drop_first());
        assert(c_value(t) =~= s);
    }
}

/// What C code reads from `a + [0] + b` is `a`, where `a` holds no NUL.
pub proof fn lemma_c_value_prefix(a: Seq<u8>, b: Seq<u8>)
    requires
        no_nul(a),
    ensures
        c_value(a + seq![0u8] + b) == a,
    decreases a.len(),
{
    let t = a + seq![0u8] + b;
    if a.len() == 0 {
        assert(t[0] == 0u8);
        assert(c_value(t) =~= a);
    } else {
        assert(t[0] == a[0]);
        assert(t.drop_first() =~= a.drop_first() + seq![0u8] + b);
        assert forall|i: int| 0 <= i < a.drop_first().len() implies #[trigger] a.drop_first()[i]
            != 0u8 by {
            assert(a.drop_first()[i] == a[i + 1]);
        }
        lemma_c_value_prefix(a.drop_first(), b);
        assert(c_value(t) =~= a);
    }
}

} // verus!
