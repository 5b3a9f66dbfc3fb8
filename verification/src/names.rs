//! The order of names.
//!
//! Names are strings. They are ordered as their UTF-8 encodings are, byte by
//! byte, the shorter of two strings first where one is a prefix of the other.
//! This module states that order over sequences, proves that it is a strict
//! total order, and holds the executable comparison.
use vstd::prelude::*;
use vstd::string::*;
use vstd::utf8::*;

verus! {

/// Whether `a` comes before `b`, given that they agree on every position
/// below `i`: the comparison looks at positions from `i` on only.
pub open spec fn bytes_before_from(a: Seq<u8>, b: Seq<u8>, i: int) -> bool
    decreases b.len() - i,
{
    if i < 0 || i >= b.len() {
        false
    } else if i >= a.len() {
        true
    } else if a[i] != b[i] {
        a[i] < b[i]
    } else {
        bytes_before_from(a, b, i + 1)
    }
}

/// Strict lexicographic order of byte strings.
pub open spec fn bytes_before(a: Seq<u8>, b: Seq<u8>) -> bool {
    bytes_before_from(a, b, 0)
}

/// Strict order of names: the order of their UTF-8 encodings.
pub open spec fn name_before(a: Seq<char>, b: Seq<char>) -> bool {
    bytes_before(encode_utf8(a), encode_utf8(b))
}

/// How one name stands to another.
#[derive(Clone, Copy, Debug, PartialEq, Eq, Structural)]
pub enum Place {
    Before,
    Same,
    After,
}

/// What `place` returns for two names.
pub open spec fn place_of(a: Seq<char>, b: Seq<char>) -> Place {
    if name_before(a, b) {
        Place::Before
    } else if a == b {
        Place::Same
    } else {
        Place::After
    }
}

/// No byte string comes before itself.
pub proof fn lemma_bytes_irreflexive(a: Seq<u8>, i: int)
    requires
        0 <= i,
    ensures
        !bytes_before_from(a, a, i),
    decreases a.len() - i,
{
    if i < a.len() {
        lemma_bytes_irreflexive(a, i + 1);
    }
}

/// Of two byte strings at most one comes before the other.
pub proof fn lemma_bytes_asymmetric(a: Seq<u8>, b: Seq<u8>, i: int)
    requires
        0 <= i,
        bytes_before_from(a, b, i),
    ensures
        !bytes_before_from(b, a, i),
    decreases b.len() - i,
{
    if i < a.len() && i < b.len() && a[i] == b[i] {
        lemma_bytes_asymmetric(a, b, i + 1);
    }
}

/// What comes before a byte string comes before all that this one comes before.
pub proof fn lemma_bytes_transitive(a: Seq<u8>, b: Seq<u8>, c: Seq<u8>, i: int)
    requires
        0 <= i,
        bytes_before_from(a, b, i),
        bytes_before_from(b, c, i),
    ensures
        bytes_before_from(a, c, i),
    decreases c.len() - i,
{
    if i < a.len() && i < b.len() && i < c.len() && a[i] == b[i] && b[i] == c[i] {
        lemma_bytes_transitive(a, b, c, i + 1);
    }
}

/// Two byte strings that agree below `i`, neither of which comes before the
/// other from `i` on, are equal.
pub proof fn lemma_bytes_total(a: Seq<u8>, b: Seq<u8>, i: int)
    requires
        0 <= i <= a.len(),
        i <= b.len(),
        forall|j: int| 0 <= j < i ==> a[j] == b[j],
        !bytes_before_from(a, b, i),
        !bytes_before_from(b, a, i),
    ensures
        a == b,
    decreases a.len() - i,
{
    if i < a.len() && i < b.len() {
        lemma_bytes_total(a, b, i + 1);
    } else {
        assert(a =~= b);
    }
}

/// No name comes before itself.
pub proof fn lemma_name_irreflexive(a: Seq<char>)
    ensures
        !name_before(a, a),
{
    lemma_bytes_irreflexive(encode_utf8(a), 0);
}

/// Of two names at most one comes before the other.
pub proof fn lemma_name_asymmetric(a: Seq<char>, b: Seq<char>)
    requires
        name_before(a, b),
    ensures
        !name_before(b, a),
        a != b,
{
    lemma_bytes_asymmetric(encode_utf8(a), encode_utf8(b), 0);
    lemma_name_irreflexive(a);
}

/// What comes before a name comes before all that this one comes before.
pub proof fn lemma_name_transitive(a: Seq<char>, b: Seq<char>, c: Seq<char>)
    requires
        name_before(a, b),
        name_before(b, c),
    ensures
        name_before(a, c),
{
    lemma_bytes_transitive(encode_utf8(a), encode_utf8(b), encode_utf8(c), 0);
}

/// Distinct names are ordered, one way or the other.
pub proof fn lemma_name_total(a: Seq<char>, b: Seq<char>)
    ensures
        name_before(a, b) || a == b || name_before(b, a),
{
    if !name_before(a, b) && !name_before(b, a) {
        lemma_bytes_total(encode_utf8(a), encode_utf8(b), 0);
        encode_utf8_decode_utf8(a);
        encode_utf8_decode_utf8(b);
    }
}

/// The empty name is the least: nothing comes before it.
pub proof fn lemma_empty_name_is_least(a: Seq<char>)
    ensures
        !name_before(a, Seq::<char>::empty()),
{
    assert(encode_utf8(Seq::<char>::empty()).len() == 0);
}

/// Compares two names.
pub fn place(a: &str, b: &str) -> (p: Place)
    ensures
        p == place_of(a@, b@),
        p == Place::Before <==> name_before(a@, b@),
        p == Place::Same <==> a@ == b@,
        p == Place::After <==> name_before(b@, a@),
{
    let x = a.as_bytes();
    let y = b.as_bytes();
    let mut i: usize = 0;
    while i < x.len() && i < y.len()
        invariant
            i <= x@.len(),
            i <= y@.len(),
            x@ == encode_utf8(a@),
            y@ == encode_utf8(b@),
            forall|j: int| 0 <= j < i ==> x@[j] == y@[j],
            bytes_before_from(x@, y@, i as int) == bytes_before(x@, y@),
            bytes_before_from(y@, x@, i as int) == bytes_before(y@, x@),
        decreases x@.len() - i,
    {
        if x[i] != y[i] {
            proof {
                lemma_name_total(a@, b@);
                if name_before(a@, b@) {
                    lemma_name_asymmetric(a@, b@);
                }
            }
            if x[i] < y[i] {
                return Place::Before;
            } else {
                return Place::After;
            }
        }
        i = i + 1;
    }
    proof {
        lemma_name_irreflexive(a@);
        if name_before(a@, b@) {
            lemma_name_asymmetric(a@, b@);
        }
        if name_before(b@, a@) {
            lemma_name_asymmetric(b@, a@);
        }
        if x@.len() == y@.len() {
            lemma_bytes_total(x@, y@, i as int);
            encode_utf8_decode_utf8(a@);
            encode_utf8_decode_utf8(b@);
        }
    }
    if x.len() < y.len() {
        Place::Before
    } else if x.len() > y.len() {
        Place::After
    } else {
        Place::Same
    }
}

} // verus!
