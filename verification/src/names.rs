//! The order of names: byte by byte over their UTF-8 encoding.

use vstd::prelude::*;
use vstd::utf8::{
    decode_utf8, encode_utf8, encode_utf8_decode_utf8, is_ascii_chars, is_ascii_chars_encode_utf8,
};

verus! {

/// Whether `a` comes strictly before `b` when the two agree on their first
/// `i` bytes: the first differing byte decides, and a proper prefix comes
/// first.
pub open spec fn bytes_lt_from(a: Seq<u8>, b: Seq<u8>, i: int) -> bool
    decreases a.len() - i,
{
    if i >= b.len() {
        false
    } else if i >= a.len() {
        true
    } else if a[i] != b[i] {
        a[i] < b[i]
    } else {
        bytes_lt_from(a, b, i + 1)
    }
}

/// Strict lexicographic order on byte strings.
pub open spec fn bytes_lt(a: Seq<u8>, b: Seq<u8>) -> bool {
    bytes_lt_from(a, b, 0)
}

/// The bytes by which a name is ordered.
pub open spec fn name_key(name: Seq<char>) -> Seq<u8> {
    encode_utf8(name)
}

/// `a` comes strictly before `b`.
pub open spec fn name_lt(a: Seq<char>, b: Seq<char>) -> bool {
    bytes_lt(name_key(a), name_key(b))
}

/// `a` comes before `b` or equals it.
pub open spec fn name_le(a: Seq<char>, b: Seq<char>) -> bool {
    !name_lt(b, a)
}

/// Either one string precedes the other or the two agree from `i` on.
proof fn lemma_trichotomy_from(a: Seq<u8>, b: Seq<u8>, i: int)
    requires
        0 <= i,
        i <= a.len(),
        i <= b.len(),
    ensures
        !(bytes_lt_from(a, b, i) && bytes_lt_from(b, a, i)),
        !bytes_lt_from(a, b, i) && !bytes_lt_from(b, a, i) ==> a.len() == b.len() && (forall|
            k: int,
        |
            i <= k < a.len() ==> a[k] == b[k]),
    decreases a.len() - i,
{
    if i < a.len() && i < b.len() && a[i] == b[i] {
        lemma_trichotomy_from(a, b, i + 1);
    }
}

/// No byte string precedes itself, and of two different ones exactly one
/// precedes the other.
pub proof fn lemma_bytes_trichotomy(a: Seq<u8>, b: Seq<u8>)
    ensures
        !(bytes_lt(a, b) && bytes_lt(b, a)),
        !bytes_lt(a, b) && !bytes_lt(b, a) <==> a == b,
{
    lemma_trichotomy_from(a, b, 0);
    if !bytes_lt(a, b) && !bytes_lt(b, a) {
        assert(a =~= b);
    }
    if a == b {
        lemma_irreflexive_from(a, 0);
    }
}

proof fn lemma_irreflexive_from(a: Seq<u8>, i: int)
    requires
        0 <= i,
    ensures
        !bytes_lt_from(a, a, i),
    decreases a.len() - i,
{
    if i < a.len() {
        lemma_irreflexive_from(a, i + 1);
    }
}

proof fn lemma_transitive_from(a: Seq<u8>, b: Seq<u8>, c: Seq<u8>, i: int)
    requires
        0 <= i,
        bytes_lt_from(a, b, i),
        bytes_lt_from(b, c, i),
    ensures
        bytes_lt_from(a, c, i),
    decreases b.len() - i,
{
    if i < a.len() && i < b.len() && i < c.len() && a[i] == b[i] && b[i] == c[i] {
        lemma_transitive_from(a, b, c, i + 1);
    }
}

/// The strict order is transitive.
pub proof fn lemma_bytes_lt_transitive(a: Seq<u8>, b: Seq<u8>, c: Seq<u8>)
    requires
        bytes_lt(a, b),
        bytes_lt(b, c),
    ensures
        bytes_lt(a, c),
{
    lemma_transitive_from(a, b, c, 0);
}

/// Names are totally ordered: two names that neither precede each other are
/// the same name.
pub proof fn lemma_name_order_total(a: Seq<char>, b: Seq<char>)
    ensures
        !(name_lt(a, b) && name_lt(b, a)),
        !name_lt(a, b) && !name_lt(b, a) <==> a == b,
{
    lemma_bytes_trichotomy(name_key(a), name_key(b));
    if name_key(a) == name_key(b) {
        encode_utf8_decode_utf8(a);
        encode_utf8_decode_utf8(b);
        assert(a == decode_utf8(name_key(a)));
        assert(b == decode_utf8(name_key(b)));
    }
}

/// `name_le` is transitive.
pub proof fn lemma_name_le_transitive(a: Seq<char>, b: Seq<char>, c: Seq<char>)
    requires
        name_le(a, b),
        name_le(b, c),
    ensures
        name_le(a, c),
{
    let (x, y, z) = (name_key(a), name_key(b), name_key(c));
    if bytes_lt(z, x) {
        lemma_bytes_trichotomy(x, y);
        lemma_bytes_trichotomy(y, z);
        if x == y {
        } else if y == z {
        } else {
            // x < y and y < z, so x < z, against z < x
            lemma_bytes_lt_transitive(x, y, z);
            lemma_bytes_trichotomy(x, z);
        }
    }
}

/// A name that precedes a second one also precedes whatever the second one
/// precedes or equals.
pub proof fn lemma_name_lt_le(a: Seq<char>, b: Seq<char>, c: Seq<char>)
    requires
        name_lt(a, b),
        name_le(b, c),
    ensures
        name_lt(a, c),
{
    let (x, y, z) = (name_key(a), name_key(b), name_key(c));
    lemma_bytes_trichotomy(y, z);
    if y != z {
        lemma_bytes_lt_transitive(x, y, z);
    }
}

/// Whether `a` comes strictly before `b`, byte by byte.
pub fn bytes_precede(a: &[u8], b: &[u8]) -> (r: bool)
    ensures
        r == bytes_lt(a@, b@),
{
    let mut i: usize = 0;
    loop
        invariant
            i <= a.len(),
            i <= b.len(),
            bytes_lt(a@, b@) == bytes_lt_from(a@, b@, i as int),
        decreases a.len() - i,
    {
        if i >= b.len() {
            return false;
        }
        if i >= a.len() {
            return true;
        }
        if a[i] != b[i] {
            return a[i] < b[i];
        }
        i += 1;
    }
}

/// Whether the name `a` comes strictly before the name `b`.
pub fn name_precedes(a: &str, b: &str) -> (r: bool)
    ensures
        r == name_lt(a@, b@),
{
    bytes_precede(a.as_bytes(), b.as_bytes())
}

/// A name of plain ASCII characters takes one byte per character.
pub proof fn lemma_ascii_name_bytes(name: Seq<char>)
    requires
        is_ascii_chars(name),
    ensures
        name_key(name).len() == name.len(),
{
    is_ascii_chars_encode_utf8(name);
}

/// The bytes of two names put together are the bytes of the first followed
/// by the bytes of the second.
pub proof fn lemma_name_key_concat(a: Seq<char>, b: Seq<char>)
    ensures
        name_key(a + b) == name_key(a) + name_key(b),
    decreases a.len(),
{
    if a.len() == 0 {
        assert(a + b =~= b);
        assert(name_key(a) + name_key(b) =~= name_key(b));
    } else {
        lemma_name_key_concat(a.drop_first(), b);
        assert((a + b).drop_first() =~= a.drop_first() + b);
        assert((a + b)[0] == a[0]);
        assert(name_key(a + b) =~= name_key(a) + name_key(b));
    }
}

} // verus!
