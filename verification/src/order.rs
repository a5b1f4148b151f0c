//! The order in which examples are listed and run: names compared byte by
//! byte in their UTF-8 encoding.

use vstd::prelude::*;
use vstd::string::StringSliceAdditionalSpecFns;
use vstd::utf8::{encode_utf8, encode_utf8_decode_utf8};

verus! {

/// Lexicographic comparison of `a` and `b` from position `from` on, given that
/// they agree before it: the first differing byte decides, and a sequence
/// that ends first comes first.
pub open spec fn bytes_le_from(a: Seq<u8>, b: Seq<u8>, from: int) -> bool
    decreases a.len() - from,
{
    if from < 0 || from >= a.len() {
        true
    } else if from >= b.len() {
        false
    } else if a[from] != b[from] {
        a[from] < b[from]
    } else {
        bytes_le_from(a, b, from + 1)
    }
}

/// `a` comes no later than `b` in byte-wise lexicographic order.
pub open spec fn bytes_le(a: Seq<u8>, b: Seq<u8>) -> bool {
    bytes_le_from(a, b, 0)
}

/// The order on names: byte-wise lexicographic on the UTF-8 encoding.
pub open spec fn name_le(a: Seq<char>, b: Seq<char>) -> bool {
    bytes_le(encode_utf8(a), encode_utf8(b))
}

/// A sequence of names is in ascending order.
pub open spec fn names_sorted(names: Seq<Seq<char>>) -> bool {
    forall|i: int, j: int| 0 <= i < j < names.len() ==> name_le(names[i], names[j])
}

proof fn lemma_bytes_le_from_refl(a: Seq<u8>, from: int)
    ensures
        bytes_le_from(a, a, from),
    decreases a.len() - from,
{
    if 0 <= from < a.len() {
        lemma_bytes_le_from_refl(a, from + 1);
    }
}

proof fn lemma_bytes_le_from_total(a: Seq<u8>, b: Seq<u8>, from: int)
    ensures
        bytes_le_from(a, b, from) || bytes_le_from(b, a, from),
    decreases a.len() - from,
{
    if 0 <= from < a.len() && from < b.len() && a[from] == b[from] {
        lemma_bytes_le_from_total(a, b, from + 1);
    }
}

proof fn lemma_bytes_le_from_trans(a: Seq<u8>, b: Seq<u8>, c: Seq<u8>, from: int)
    requires
        bytes_le_from(a, b, from),
        bytes_le_from(b, c, from),
    ensures
        bytes_le_from(a, c, from),
    decreases a.len() - from,
{
    if 0 <= from < a.len() && a[from] == b[from] && b[from] == c[from] {
        lemma_bytes_le_from_trans(a, b, c, from + 1);
    }
}

proof fn lemma_bytes_le_from_antisym(a: Seq<u8>, b: Seq<u8>, from: int)
    requires
        0 <= from <= a.len(),
        from <= b.len(),
        bytes_le_from(a, b, from),
        bytes_le_from(b, a, from),
        forall|i: int| 0 <= i < from ==> a[i] == b[i],
    ensures
        a == b,
    decreases a.len() - from,
{
    if from < a.len() {
        lemma_bytes_le_from_antisym(a, b, from + 1);
    } else {
        assert(a =~= b);
    }
}

/// Every name is no later than itself.
pub proof fn lemma_name_le_reflexive(a: Seq<char>)
    ensures
        name_le(a, a),
{
    lemma_bytes_le_from_refl(encode_utf8(a), 0);
}

/// Of two names, one is no later than the other.
pub proof fn lemma_name_le_total(a: Seq<char>, b: Seq<char>)
    ensures
        name_le(a, b) || name_le(b, a),
{
    lemma_bytes_le_from_total(encode_utf8(a), encode_utf8(b), 0);
}

/// Two names that are no later than each other are one name.
pub proof fn lemma_name_le_antisymmetric(a: Seq<char>, b: Seq<char>)
    requires
        name_le(a, b),
        name_le(b, a),
    ensures
        a == b,
{
    lemma_bytes_le_from_antisym(encode_utf8(a), encode_utf8(b), 0);
    encode_utf8_decode_utf8(a);
    encode_utf8_decode_utf8(b);
}

/// The order on names is transitive.
pub proof fn lemma_name_le_transitive(a: Seq<char>, b: Seq<char>, c: Seq<char>)
    requires
        name_le(a, b),
        name_le(b, c),
    ensures
        name_le(a, c),
{
    lemma_bytes_le_from_trans(encode_utf8(a), encode_utf8(b), encode_utf8(c), 0);
}

/// Decides whether `a` comes no later than `b`.
pub fn name_precedes(a: &str, b: &str) -> (r: bool)
    ensures
        r == name_le(a@, b@),
{
    let x = a.as_bytes();
    let y = b.as_bytes();
    let mut i: usize = 0;
    while i < x.len() && i < y.len() && x[i] == y[i]
        invariant
            i <= x.len(),
            i <= y.len(),
            x@ == a.spec_bytes(),
            y@ == b.spec_bytes(),
            bytes_le(x@, y@) == bytes_le_from(x@, y@, i as int),
        decreases x.len() - i,
    {
        i += 1;
    }
    if i >= x.len() {
        true
    } else if i >= y.len() {
        false
    } else {
        x[i] < y[i]
    }
}

} // verus!
