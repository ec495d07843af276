//! Byte strings: copying, comparing and ordering.
use vstd::prelude::*;

verus! {

/// `a` and `b` agree on their first `n` bytes.
pub open spec fn agree_upto(a: Seq<u8>, b: Seq<u8>, n: int) -> bool {
    &&& 0 <= n <= a.len()
    &&& n <= b.len()
    &&& forall|k: int| 0 <= k < n ==> a[k] == b[k]
}

/// `a` and `b` first differ at `n`, where `a` ends or holds the smaller byte.
pub open spec fn less_at(a: Seq<u8>, b: Seq<u8>, n: int) -> bool {
    &&& agree_upto(a, b, n)
    &&& n < b.len()
    &&& (n == a.len() || a[n] < b[n])
}

/// Lexicographic order on byte strings: a proper prefix comes first.
pub open spec fn lex_less(a: Seq<u8>, b: Seq<u8>) -> bool {
    exists|n: int| less_at(a, b, n)
}

/// No byte string comes before itself.
pub proof fn lemma_lex_irreflexive(a: Seq<u8>)
    ensures
        !lex_less(a, a),
{
    assert forall|n: int| !less_at(a, a, n) by {}
}

/// The order is transitive.
pub proof fn lemma_lex_transitive(a: Seq<u8>, b: Seq<u8>, c: Seq<u8>)
    requires
        lex_less(a, b),
        lex_less(b, c),
    ensures
        lex_less(a, c),
{
    let i = choose|n: int| less_at(a, b, n);
    let j = choose|n: int| less_at(b, c, n);
    let k = if i <= j { i } else { j };
    assert(less_at(a, c, k));
}

/// How two byte strings stand to each other in the lexicographic order.
#[derive(Clone, Copy, Debug, PartialEq, Eq, Structural)]
pub enum Rank {
    Before,
    Same,
    After,
}

/// Ranks `a` against `b` in the lexicographic order.
pub fn rank(a: &[u8], b: &[u8]) -> (r: Rank)
    ensures
        r == Rank::Before <==> lex_less(a@, b@),
        r == Rank::Same <==> a@ == b@,
        r == Rank::After <==> lex_less(b@, a@),
{
    let mut n: usize = 0;
    while n < a.len() && n < b.len() && a[n] == b[n]
        invariant
            agree_upto(a@, b@, n as int),
        decreases a.len() - n,
    {
        n += 1;
    }
    proof {
        lemma_lex_irreflexive(a@);
        assert(agree_upto(b@, a@, n as int));
        if lex_less(a@, b@) && lex_less(b@, a@) {
            lemma_lex_transitive(a@, b@, a@);
        }
    }
    if n == a.len() && n == b.len() {
        assert(a@ =~= b@);
        Rank::Same
    } else if n == a.len() {
        assert(less_at(a@, b@, n as int));
        Rank::Before
    } else if n == b.len() {
        assert(less_at(b@, a@, n as int));
        Rank::After
    } else if a[n] < b[n] {
        assert(less_at(a@, b@, n as int));
        Rank::Before
    } else {
        assert(less_at(b@, a@, n as int));
        Rank::After
    }
}

/// Whether two byte strings hold the same bytes.
pub fn same_bytes(a: &[u8], b: &[u8]) -> (r: bool)
    ensures
        r == (a@ == b@),
{
    if a.len() != b.len() {
        return false;
    }
    let mut n: usize = 0;
    while n < a.len()
        invariant
            a.len() == b.len(),
            agree_upto(a@, b@, n as int),
        decreases a.len() - n,
    {
        if a[n] != b[n] {
            return false;
        }
        n += 1;
    }
    assert(a@ =~= b@);
    true
}

/// A fresh copy of a byte string.
pub fn copy_bytes(a: &[u8]) -> (r: Vec<u8>)
    ensures
        r@ == a@,
{
    let mut r: Vec<u8> = Vec::new();
    r.extend_from_slice(a);
    assert(r@ =~= a@);
    r
}

/// A copy of an optional byte string.
pub fn copy_opt_bytes(a: &Option<Vec<u8>>) -> (r: Option<Vec<u8>>)
    ensures
        opt_bytes(r) == opt_bytes(*a),
{
    match a {
        Some(v) => Some(v.clone()),
        None => None,
    }
}

/// The bytes of an optional byte string.
pub open spec fn opt_bytes(a: Option<Vec<u8>>) -> Option<Seq<u8>> {
    match a {
        Some(v) => Some(v@),
        None => None,
    }
}

/// The byte strings that a list holds.
pub open spec fn bytes_list(a: Seq<Vec<u8>>) -> Seq<Seq<u8>> {
    Seq::new(a.len(), |i: int| a[i]@)
}

/// The optional byte strings that a list holds.
pub open spec fn opt_bytes_list(a: Seq<Option<Vec<u8>>>) -> Seq<Option<Seq<u8>>> {
    Seq::new(a.len(), |i: int| opt_bytes(a[i]))
}

/// The characters of an optional string.
pub open spec fn opt_chars(a: Option<String>) -> Option<Seq<char>> {
    match a {
        Some(s) => Some(s@),
        None => None,
    }
}

} // verus!
