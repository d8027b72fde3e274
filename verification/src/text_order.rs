//! Lexicographic order on strings, compared code point by code point.
//!
//! The registry keeps its entries sorted by label in this order, and the
//! binary search over it needs the order to be strict and total.

use vstd::prelude::*;
use vstd::string::StrSliceExecFns;

verus! {

/// Strict lexicographic order on character sequences: `a` comes before `b`
/// when, at the first position where they differ, `a` has the smaller code
/// point, or when `a` is a proper prefix of `b`.
pub open spec fn lex_lt(a: Seq<char>, b: Seq<char>) -> bool
    decreases a.len(),
{
    if b.len() == 0 {
        false
    } else if a.len() == 0 {
        true
    } else if (a[0] as int) < (b[0] as int) {
        true
    } else if (a[0] as int) == (b[0] as int) {
        lex_lt(a.skip(1), b.skip(1))
    } else {
        false
    }
}

/// The order is irreflexive: no sequence comes before itself.
pub proof fn lemma_lex_lt_irrefl(a: Seq<char>)
    ensures
        !lex_lt(a, a),
    decreases a.len(),
{
    if a.len() > 0 {
        lemma_lex_lt_irrefl(a.skip(1));
    }
}

/// The order is transitive.
pub proof fn lemma_lex_lt_trans(a: Seq<char>, b: Seq<char>, c: Seq<char>)
    requires
        lex_lt(a, b),
        lex_lt(b, c),
    ensures
        lex_lt(a, c),
    decreases a.len(),
{
    if a.len() > 0 && b.len() > 0 && c.len() > 0 {
        if (a[0] as int) == (b[0] as int) && (b[0] as int) == (c[0] as int) {
            lemma_lex_lt_trans(a.skip(1), b.skip(1), c.skip(1));
        }
    }
}

/// The order is total: two sequences with neither before the other are equal.
pub proof fn lemma_lex_lt_total(a: Seq<char>, b: Seq<char>)
    requires
        !lex_lt(a, b),
        !lex_lt(b, a),
    ensures
        a == b,
    decreases a.len(),
{
    if a.len() == 0 {
        assert(b.len() == 0);
        assert(a =~= b);
    } else {
        assert(b.len() > 0);
        assert((a[0] as int) == (b[0] as int));
        lemma_lex_lt_total(a.skip(1), b.skip(1));
        assert(a.skip(1).len() == a.len() - 1);
        assert(b.skip(1).len() == b.len() - 1);
        assert(a.len() == b.len());
        assert forall|i: int| 0 <= i < a.len() implies a[i] == b[i] by {
            if i > 0 {
                assert(a[i] == a.skip(1)[i - 1]);
                assert(b[i] == b.skip(1)[i - 1]);
            }
        }
        assert(a =~= b);
    }
}

/// Decides `lex_lt` on string slices.
pub fn str_lt(a: &str, b: &str) -> (r: bool)
    ensures
        r == lex_lt(a@, b@),
    decreases a@.len(),
{
    if b.is_empty() {
        false
    } else if a.is_empty() {
        true
    } else {
        let ca = a.get_char(0);
        let cb = b.get_char(0);
        if (ca as u32) < (cb as u32) {
            true
        } else if (ca as u32) == (cb as u32) {
            let alen = a.unicode_len();
            let blen = b.unicode_len();
            let a_rest = a.substring_char(1, alen);
            let b_rest = b.substring_char(1, blen);
            proof {
                assert(a_rest@ =~= a@.skip(1));
                assert(b_rest@ =~= b@.skip(1));
            }
            str_lt(a_rest, b_rest)
        } else {
            false
        }
    }
}

/// Decides equality of string contents.
pub fn str_eq(a: &str, b: &str) -> (r: bool)
    ensures
        r == (a@ == b@),
{
    if str_lt(a, b) {
        proof {
            lemma_lex_lt_irrefl(a@);
        }
        false
    } else if str_lt(b, a) {
        proof {
            lemma_lex_lt_irrefl(a@);
        }
        false
    } else {
        proof {
            lemma_lex_lt_total(a@, b@);
        }
        true
    }
}

} // verus!
