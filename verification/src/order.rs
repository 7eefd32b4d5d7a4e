//! Strict lexicographic order on byte strings.
//!
//! Record names and tenant identifiers are byte strings; iteration order and
//! the pagination cursor both rest on this order.

use vstd::prelude::*;

verus! {

/// `a` comes strictly before `b`: `a` is a proper prefix of `b`, or at the
/// first position where they differ the byte of `a` is the smaller one.
pub open spec fn lex_lt(a: Seq<u8>, b: Seq<u8>) -> bool
    decreases a.len(),
{
    if b.len() == 0 {
        false
    } else if a.len() == 0 {
        true
    } else if a[0] < b[0] {
        true
    } else if a[0] > b[0] {
        false
    } else {
        lex_lt(a.drop_first(), b.drop_first())
    }
}

pub proof fn lemma_lex_irreflexive(a: Seq<u8>)
    ensures
        !lex_lt(a, a),
    decreases a.len(),
{
    if a.len() > 0 {
        lemma_lex_irreflexive(a.drop_first());
    }
}

pub proof fn lemma_lex_transitive(a: Seq<u8>, b: Seq<u8>, c: Seq<u8>)
    requires
        lex_lt(a, b),
        lex_lt(b, c),
    ensures
        lex_lt(a, c),
    decreases a.len(),
{
    if a.len() > 0 && b.len() > 0 && c.len() > 0 && a[0] == b[0] && b[0] == c[0] {
        lemma_lex_transitive(a.drop_first(), b.drop_first(), c.drop_first());
    }
}

pub proof fn lemma_lex_asymmetric(a: Seq<u8>, b: Seq<u8>)
    requires
        lex_lt(a, b),
    ensures
        a != b,
        !lex_lt(b, a),
{
    lemma_lex_irreflexive(a);
    if lex_lt(b, a) {
        lemma_lex_transitive(a, b, a);
    }
}

pub proof fn lemma_lex_trichotomy(a: Seq<u8>, b: Seq<u8>)
    ensures
        lex_lt(a, b) || lex_lt(b, a) || a == b,
    decreases a.len(),
{
    if a.len() > 0 && b.len() > 0 && a[0] == b[0] {
        lemma_lex_trichotomy(a.drop_first(), b.drop_first());
        if a.drop_first() == b.drop_first() {
            lemma_eq_from_first_and_tail(a, b);
        }
    }
}

/// After a common prefix of length `i`, the order of `a` and `b` is decided
/// by position `i` alone (or by which of the two ends there).
pub proof fn lemma_lex_from_common_prefix(a: Seq<u8>, b: Seq<u8>, i: int)
    requires
        0 <= i <= a.len(),
        i <= b.len(),
        forall|k: int| 0 <= k < i ==> a[k] == b[k],
    ensures
        (i < a.len() && i < b.len() && a[i] < b[i]) ==> lex_lt(a, b),
        (i < a.len() && i < b.len() && a[i] > b[i]) ==> lex_lt(b, a),
        (i == a.len() && i < b.len()) ==> lex_lt(a, b),
        (i == b.len() && i < a.len()) ==> lex_lt(b, a),
        (i == a.len() && i == b.len()) ==> a == b,
    decreases i,
{
    if i == 0 {
        if i == a.len() && i == b.len() {
            assert(a =~= b);
        }
    } else {
        assert(a[0] == b[0]);
        lemma_lex_from_common_prefix(a.drop_first(), b.drop_first(), i - 1);
        if i == a.len() && i == b.len() && a.drop_first() == b.drop_first() {
            lemma_eq_from_first_and_tail(a, b);
        }
    }
}

/// Two nonempty byte strings with equal first byte and equal tails are equal.
pub proof fn lemma_eq_from_first_and_tail(a: Seq<u8>, b: Seq<u8>)
    requires
        a.len() > 0,
        b.len() > 0,
        a[0] == b[0],
        a.drop_first() == b.drop_first(),
    ensures
        a == b,
{
    assert(a.drop_first().len() == a.len() - 1);
    assert(b.drop_first().len() == b.len() - 1);
    assert(a.len() == b.len());
    assert forall|i: int| 0 <= i < a.len() implies a[i] == b[i] by {
        if i > 0 {
            assert(a[i] == a.drop_first()[i - 1]);
            assert(b[i] == b.drop_first()[i - 1]);
        }
    }
    assert(a =~= b);
}

/// Three-way comparison result for byte strings.
pub enum ByteOrder {
    Before,
    Same,
    After,
}

/// Compares two byte strings in lexicographic order.
pub fn lex_cmp(a: &Vec<u8>, b: &Vec<u8>) -> (r: ByteOrder)
    ensures
        (r is Before) <==> lex_lt(a@, b@),
        (r is Same) <==> a@ == b@,
        (r is After) <==> lex_lt(b@, a@),
{
    let a_len: usize = a.len();
    let b_len: usize = b.len();
    let n: usize = if a_len < b_len {
        a_len
    } else {
        b_len
    };
    let mut i: usize = 0;
    while i < n
        invariant
            0 <= i <= n,
            n <= a@.len(),
            n <= b@.len(),
            n == if a@.len() < b@.len() {
                a@.len()
            } else {
                b@.len()
            },
            forall|k: int| 0 <= k < i ==> a@[k] == b@[k],
        decreases n - i,
    {
        let x: u8 = a[i];
        let y: u8 = b[i];
        if x < y {
            proof {
                lemma_lex_from_common_prefix(a@, b@, i as int);
                lemma_lex_asymmetric(a@, b@);
            }
            return ByteOrder::Before;
        }
        if y < x {
            proof {
                lemma_lex_from_common_prefix(a@, b@, i as int);
                lemma_lex_asymmetric(b@, a@);
            }
            return ByteOrder::After;
        }
        i = i + 1;
    }
    proof {
        lemma_lex_from_common_prefix(a@, b@, n as int);
        if lex_lt(a@, b@) {
            lemma_lex_asymmetric(a@, b@);
        }
        if lex_lt(b@, a@) {
            lemma_lex_asymmetric(b@, a@);
        }
    }
    if a_len < b_len {
        ByteOrder::Before
    } else if b_len < a_len {
        ByteOrder::After
    } else {
        ByteOrder::Same
    }
}

/// `true` exactly when `a` comes strictly before `b`.
pub fn lex_before(a: &Vec<u8>, b: &Vec<u8>) -> (r: bool)
    ensures
        r <==> lex_lt(a@, b@),
{
    match lex_cmp(a, b) {
        ByteOrder::Before => true,
        ByteOrder::Same => false,
        ByteOrder::After => false,
    }
}

} // verus!
