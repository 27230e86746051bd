//! The order of parameter names, and lists of texts.
//!
//! Names are ordered as strings are: lexicographically by the bytes of their
//! UTF-8 encoding, which is also the order of their code points.

use vstd::prelude::*;
use vstd::string::*;
use vstd::utf8::{encode_utf8, encode_utf8_decode_utf8};

verus! {

/// The texts that a list of strings holds.
pub open spec fn texts(v: Seq<String>) -> Seq<Seq<char>> {
    Seq::new(v.len(), |i: int| v[i]@)
}

/// A copy of a list of strings.
pub fn copy_list(v: &Vec<String>) -> (r: Vec<String>)
    ensures
        texts(r@) == texts(v@),
{
    let mut r: Vec<String> = Vec::new();
    let mut i: usize = 0;
    while i < v.len()
        invariant
            i <= v@.len(),
            r@.len() == i,
            forall|j: int| 0 <= j < i ==> r@[j]@ == v@[j]@,
        decreases v@.len() - i,
    {
        r.push(v[i].clone());
        i = i + 1;
    }
    r
}

/// How one name stands to another.
#[derive(Clone, Copy, Debug, PartialEq, Eq, Structural)]
pub enum Order {
    /// The first name sorts before the second.
    Before,
    /// The names are the same.
    Same,
    /// The first name sorts after the second.
    After,
}

/// `a` and `b` agree on their first `k` bytes, and there `a` ends while `b`
/// goes on, or `a` has the smaller byte.
pub open spec fn parts_at(a: Seq<u8>, b: Seq<u8>, k: int) -> bool {
    &&& 0 <= k <= a.len()
    &&& k < b.len()
    &&& forall|j: int| 0 <= j < k ==> a[j] == b[j]
    &&& (k < a.len() ==> a[k] < b[k])
}

/// Strict lexicographic order of byte strings.
pub open spec fn bytes_before(a: Seq<u8>, b: Seq<u8>) -> bool {
    exists|k: int| parts_at(a, b, k)
}

/// Strict order of names: by the bytes of their UTF-8 encoding.
pub open spec fn precedes(a: Seq<char>, b: Seq<char>) -> bool {
    bytes_before(encode_utf8(a), encode_utf8(b))
}

/// The names in a list are in strictly ascending order, so none occurs twice.
pub open spec fn ascending(names: Seq<Seq<char>>) -> bool {
    forall|i: int, j: int| 0 <= i < j < names.len() ==> precedes(names[i], names[j])
}

/// Of two byte strings at most one comes before the other.
pub proof fn lemma_bytes_before_asymmetric(a: Seq<u8>, b: Seq<u8>)
    requires
        bytes_before(a, b),
    ensures
        !bytes_before(b, a),
{
    let k = choose|k: int| parts_at(a, b, k);
    if bytes_before(b, a) {
        let m = choose|m: int| parts_at(b, a, m);
        assert(k != m);
    }
}

/// The order of byte strings is transitive.
pub proof fn lemma_bytes_before_transitive(a: Seq<u8>, b: Seq<u8>, c: Seq<u8>)
    requires
        bytes_before(a, b),
        bytes_before(b, c),
    ensures
        bytes_before(a, c),
{
    let k = choose|k: int| parts_at(a, b, k);
    let m = choose|m: int| parts_at(b, c, m);
    let n: int = if k <= m {
        k
    } else {
        m
    };
    assert(parts_at(a, c, n));
}

/// The order of names is transitive.
pub proof fn lemma_precedes_transitive(a: Seq<char>, b: Seq<char>, c: Seq<char>)
    requires
        precedes(a, b),
        precedes(b, c),
    ensures
        precedes(a, c),
{
    lemma_bytes_before_transitive(encode_utf8(a), encode_utf8(b), encode_utf8(c));
}

/// Of two names exactly one holds: the first comes before the second, they are
/// the same, or the second comes before the first.
pub proof fn lemma_precedes_total(a: Seq<char>, b: Seq<char>)
    ensures
        precedes(a, b) || a == b || precedes(b, a),
        !(precedes(a, b) && a == b),
        !(precedes(b, a) && a == b),
        !(precedes(a, b) && precedes(b, a)),
{
    let x = encode_utf8(a);
    let y = encode_utf8(b);
    if bytes_before(x, y) {
        lemma_bytes_before_asymmetric(x, y);
    }
    if !bytes_before(x, y) && !bytes_before(y, x) {
        lemma_bytes_apart(x, y, 0);
        encode_utf8_decode_utf8(a);
        encode_utf8_decode_utf8(b);
    }
}

/// In a list of ascending names no name occurs twice.
pub proof fn lemma_ascending_names_differ(names: Seq<Seq<char>>, i: int, j: int)
    requires
        ascending(names),
        0 <= i < names.len(),
        0 <= j < names.len(),
        i != j,
    ensures
        names[i] != names[j],
{
    lemma_precedes_total(names[i], names[j]);
}

/// Two byte strings that agree on their first `k` bytes and of which neither
/// comes before the other are equal.
proof fn lemma_bytes_apart(x: Seq<u8>, y: Seq<u8>, k: int)
    requires
        0 <= k <= x.len(),
        k <= y.len(),
        forall|j: int| 0 <= j < k ==> x[j] == y[j],
        !bytes_before(x, y),
        !bytes_before(y, x),
    ensures
        x == y,
    decreases x.len() - k,
{
    if k == x.len() {
        if k < y.len() {
            assert(parts_at(x, y, k));
        }
    } else if k == y.len() {
        assert(parts_at(y, x, k));
    } else {
        if x[k] < y[k] {
            assert(parts_at(x, y, k));
        } else if y[k] < x[k] {
            assert(parts_at(y, x, k));
        } else {
            lemma_bytes_apart(x, y, k + 1);
        }
    }
}

/// Compares two names.
pub fn compare(a: &str, b: &str) -> (o: Order)
    ensures
        o == Order::Before <==> precedes(a@, b@),
        o == Order::Same <==> a@ == b@,
        o == Order::After <==> precedes(b@, a@),
{
    let x = a.as_bytes();
    let y = b.as_bytes();
    let n: usize = x.len();
    let m: usize = y.len();
    proof {
        lemma_precedes_total(a@, b@);
    }
    let mut i: usize = 0;
    while i < n && i < m
        invariant
            i <= n,
            i <= m,
            n == x@.len(),
            m == y@.len(),
            x@ == encode_utf8(a@),
            y@ == encode_utf8(b@),
            forall|j: int| 0 <= j < i ==> x@[j] == y@[j],
        decreases n - i,
    {
        if x[i] < y[i] {
            proof {
                lemma_precedes_total(a@, b@);
            }
            return Order::Before;
        }
        if y[i] < x[i] {
            proof {
                lemma_precedes_total(a@, b@);
            }
            return Order::After;
        }
        i = i + 1;
    }
    if n < m {
        Order::Before
    } else if m < n {
        Order::After
    } else {
        proof {
            encode_utf8_decode_utf8(a@);
            encode_utf8_decode_utf8(b@);
        }
        Order::Same
    }
}

} // verus!
