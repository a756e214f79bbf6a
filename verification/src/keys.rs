//! Byte-lexicographic ordering of user address keys.
//!
//! The ledger stores one entry collection per user address and hands
//! collections back in ascending key order.  Keys are strings; their
//! order is the lexicographic order of their UTF-8 bytes, which for
//! valid UTF-8 coincides with code-point order.

use vstd::prelude::*;
use vstd::utf8::encode_utf8;
use vstd::utf8::encode_utf8_decode_utf8;

verus! {

/// Strict lexicographic order on byte strings.
pub open spec fn bytes_lt(a: Seq<u8>, b: Seq<u8>) -> bool
    decreases a.len(),
{
    if b.len() == 0 {
        false
    } else if a.len() == 0 {
        true
    } else if a[0] < b[0] {
        true
    } else if a[0] > b[0] {
        false
    } else {
        bytes_lt(a.drop_first(), b.drop_first())
    }
}

/// The UTF-8 bytes a string key is ordered by.
pub open spec fn key_bytes(s: Seq<char>) -> Seq<u8> {
    encode_utf8(s)
}

/// Strict order on string keys: lexicographic on their UTF-8 bytes.
pub open spec fn key_lt(a: Seq<char>, b: Seq<char>) -> bool {
    bytes_lt(key_bytes(a), key_bytes(b))
}

/// At most one of `bytes_lt(a, b)`, `bytes_lt(b, a)`, `a == b` holds,
/// and at least one does.
pub proof fn lemma_bytes_lt_trichotomy(a: Seq<u8>, b: Seq<u8>)
    ensures
        bytes_lt(a, b) || bytes_lt(b, a) || a =~= b,
        bytes_lt(a, b) ==> !bytes_lt(b, a) && a != b,
        bytes_lt(b, a) ==> !bytes_lt(a, b) && a != b,
    decreases a.len(),
{
    if a.len() == 0 || b.len() == 0 {
    } else if a[0] == b[0] {
        lemma_bytes_lt_trichotomy(a.drop_first(), b.drop_first());
        if a.drop_first() =~= b.drop_first() {
            assert forall|k: int| 0 <= k < a.len() implies a[k] == b[k] by {
                if k >= 1 {
                    assert(a[k] == a.drop_first()[k - 1]);
                    assert(b[k] == b.drop_first()[k - 1]);
                }
            }
            assert(a =~= b);
        }
        if a =~= b {
            assert(a.drop_first() =~= b.drop_first());
        }
    }
}

/// `bytes_lt` is transitive.
pub proof fn lemma_bytes_lt_transitive(a: Seq<u8>, b: Seq<u8>, c: Seq<u8>)
    requires
        bytes_lt(a, b),
        bytes_lt(b, c),
    ensures
        bytes_lt(a, c),
    decreases a.len(),
{
    if a.len() == 0 {
    } else {
        if a[0] == b[0] && b[0] == c[0] {
            lemma_bytes_lt_transitive(a.drop_first(), b.drop_first(), c.drop_first());
        }
    }
}

/// Keys with equal UTF-8 bytes are the same string.
pub proof fn lemma_key_bytes_injective(a: Seq<char>, b: Seq<char>)
    requires
        key_bytes(a) == key_bytes(b),
    ensures
        a == b,
{
    encode_utf8_decode_utf8(a);
    encode_utf8_decode_utf8(b);
}

/// Trichotomy for the key order.
pub proof fn lemma_key_lt_trichotomy(a: Seq<char>, b: Seq<char>)
    ensures
        key_lt(a, b) || key_lt(b, a) || a == b,
        key_lt(a, b) ==> !key_lt(b, a) && a != b,
        key_lt(b, a) ==> !key_lt(a, b) && a != b,
{
    lemma_bytes_lt_trichotomy(key_bytes(a), key_bytes(b));
    if key_bytes(a) =~= key_bytes(b) {
        lemma_key_bytes_injective(a, b);
    }
}

/// Transitivity for the key order.
pub proof fn lemma_key_lt_transitive(a: Seq<char>, b: Seq<char>, c: Seq<char>)
    requires
        key_lt(a, b),
        key_lt(b, c),
    ensures
        key_lt(a, c),
{
    lemma_bytes_lt_transitive(key_bytes(a), key_bytes(b), key_bytes(c));
}

/// A shared prefix of length `i` settles the comparison: past it, the
/// order goes by the first differing position or by length.
proof fn lemma_bytes_lt_at(a: Seq<u8>, b: Seq<u8>, i: int)
    requires
        0 <= i <= a.len(),
        i <= b.len(),
        forall|j: int| 0 <= j < i ==> a[j] == b[j],
    ensures
        i == a.len() && i == b.len() ==> a =~= b,
        i == a.len() && i < b.len() ==> bytes_lt(a, b),
        i == b.len() && i < a.len() ==> bytes_lt(b, a),
        i < a.len() && i < b.len() && a[i] < b[i] ==> bytes_lt(a, b),
        i < a.len() && i < b.len() && a[i] > b[i] ==> bytes_lt(b, a),
    decreases i,
{
    if i == 0 {
    } else {
        assert(a[0] == b[0]);
        lemma_bytes_lt_at(a.drop_first(), b.drop_first(), i - 1);
        if i == a.len() && i == b.len() {
            assert(a.drop_first() =~= b.drop_first());
            assert(a =~= b);
        }
    }
}

/// Result of a three-way key comparison.
#[derive(Clone, Copy, PartialEq, Eq, Structural, Debug)]
pub enum KeyCmp {
    Less,
    Equal,
    Greater,
}

/// Compares two keys by their UTF-8 bytes.
pub fn str_key_cmp(a: &str, b: &str) -> (r: KeyCmp)
    ensures
        r == KeyCmp::Less <==> key_lt(a@, b@),
        r == KeyCmp::Greater <==> key_lt(b@, a@),
        r == KeyCmp::Equal <==> a@ == b@,
{
    let sa = a.as_bytes();
    let sb = b.as_bytes();
    let na = sa.len();
    let nb = sb.len();
    let n = if na < nb {
        na
    } else {
        nb
    };
    let mut i: usize = 0;
    while i < n
        invariant
            n <= sa@.len(),
            n <= sb@.len(),
            i <= n,
            sa@ == key_bytes(a@),
            sb@ == key_bytes(b@),
            n == if sa@.len() < sb@.len() {
                sa@.len()
            } else {
                sb@.len()
            },
            forall|j: int| 0 <= j < i ==> sa@[j] == sb@[j],
        decreases n - i,
    {
        let ca = sa[i];
        let cb = sb[i];
        if ca < cb {
            proof {
                lemma_bytes_lt_at(sa@, sb@, i as int);
                lemma_key_lt_trichotomy(a@, b@);
            }
            return KeyCmp::Less;
        }
        if ca > cb {
            proof {
                lemma_bytes_lt_at(sa@, sb@, i as int);
                lemma_key_lt_trichotomy(a@, b@);
            }
            return KeyCmp::Greater;
        }
        i = i + 1;
    }
    if na < nb {
        proof {
            lemma_bytes_lt_at(sa@, sb@, n as int);
            lemma_key_lt_trichotomy(a@, b@);
        }
        KeyCmp::Less
    } else if na > nb {
        proof {
            lemma_bytes_lt_at(sb@, sa@, n as int);
            lemma_key_lt_trichotomy(a@, b@);
        }
        KeyCmp::Greater
    } else {
        proof {
            lemma_bytes_lt_at(sa@, sb@, n as int);
            lemma_key_bytes_injective(a@, b@);
            lemma_key_lt_trichotomy(a@, b@);
        }
        KeyCmp::Equal
    }
}

} // verus!
