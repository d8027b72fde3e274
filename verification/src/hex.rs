//! Hexadecimal code-point strings.
//!
//! The dataset stores each glyph's code point as a hexadecimal string such
//! as `"f0f4"`. This module gives that notation a meaning (`hex_value`) and
//! decides it (`parse_hex`).

use vstd::prelude::*;
use vstd::string::StrSliceExecFns;

verus! {

/// `c` is one of `0-9`, `a-f`, `A-F`.
pub open spec fn is_hex_digit(c: char) -> bool {
    ||| ('0' as int) <= (c as int) <= ('9' as int)
    ||| ('a' as int) <= (c as int) <= ('f' as int)
    ||| ('A' as int) <= (c as int) <= ('F' as int)
}

/// The numeric value of one hexadecimal digit.
pub open spec fn hex_digit_value(c: char) -> int {
    if ('0' as int) <= (c as int) <= ('9' as int) {
        (c as int) - ('0' as int)
    } else if ('a' as int) <= (c as int) <= ('f' as int) {
        (c as int) - ('a' as int) + 10
    } else {
        (c as int) - ('A' as int) + 10
    }
}

/// A non-empty sequence of hexadecimal digits.
pub open spec fn is_hex_seq(s: Seq<char>) -> bool {
    s.len() > 0 && (forall|i: int| 0 <= i < s.len() ==> is_hex_digit(s[i]))
}

/// The numeric value of a hexadecimal digit sequence, most significant
/// digit first.
pub open spec fn hex_value(s: Seq<char>) -> int
    decreases s.len(),
{
    if s.len() == 0 {
        0
    } else {
        16 * hex_value(s.drop_last()) + hex_digit_value(s.last())
    }
}

/// The value of a sequence of hexadecimal digits is never negative.
pub proof fn lemma_hex_value_nonneg(s: Seq<char>)
    requires
        forall|i: int| 0 <= i < s.len() ==> is_hex_digit(s[i]),
    ensures
        hex_value(s) >= 0,
    decreases s.len(),
{
    if s.len() > 0 {
        assert(forall|i: int| 0 <= i < s.drop_last().len() ==> s.drop_last()[i] == s[i]);
        lemma_hex_value_nonneg(s.drop_last());
    }
}

/// Appending one more digit can only increase the value.
proof fn lemma_hex_value_step(s: Seq<char>, i: int)
    requires
        forall|k: int| 0 <= k < s.len() ==> is_hex_digit(s[k]),
        0 <= i < s.len(),
    ensures
        hex_value(s.subrange(0, i)) <= hex_value(s.subrange(0, i + 1)),
{
    let p = s.subrange(0, i);
    let q = s.subrange(0, i + 1);
    assert(q.drop_last() =~= p);
    assert(q.last() == s[i]);
    assert(forall|k: int| 0 <= k < p.len() ==> p[k] == s[k]);
    lemma_hex_value_nonneg(p);
}

/// The value of a prefix never exceeds the value of the whole sequence.
pub proof fn lemma_hex_value_prefix_le(s: Seq<char>, i: int)
    requires
        forall|k: int| 0 <= k < s.len() ==> is_hex_digit(s[k]),
        0 <= i <= s.len(),
    ensures
        hex_value(s.subrange(0, i)) <= hex_value(s),
    decreases s.len() - i,
{
    if i == s.len() {
        assert(s.subrange(0, i) =~= s);
    } else {
        lemma_hex_value_step(s, i);
        lemma_hex_value_prefix_le(s, i + 1);
    }
}

/// Decides whether every character of `s` is a hexadecimal digit.
fn all_hex_digits(s: &str) -> (r: bool)
    ensures
        r == forall|i: int| 0 <= i < s@.len() ==> is_hex_digit(s@[i]),
{
    let n = s.unicode_len();
    let mut i: usize = 0;
    while i < n
        invariant
            n == s@.len(),
            i <= n,
            forall|k: int| 0 <= k < i ==> is_hex_digit(s@[k]),
        decreases n - i,
    {
        let c = s.get_char(i);
        let u = c as u32;
        let is_digit = (('0' as u32) <= u && u <= ('9' as u32)) || (('a' as u32) <= u && u
            <= ('f' as u32)) || (('A' as u32) <= u && u <= ('F' as u32));
        if !is_digit {
            return false;
        }
        i = i + 1;
    }
    true
}

/// Parses a hexadecimal string.
///
/// Returns the numeric value exactly when the string is a non-empty
/// sequence of hexadecimal digits whose value fits in a `u32`.
pub fn parse_hex(s: &str) -> (r: Option<u32>)
    ensures
        match r {
            Some(v) => is_hex_seq(s@) && v as int == hex_value(s@),
            None => !(is_hex_seq(s@) && hex_value(s@) <= u32::MAX),
        },
{
    let n = s.unicode_len();
    if n == 0 {
        return None;
    }
    if !all_hex_digits(s) {
        return None;
    }
    let mut acc: u32 = 0;
    let mut i: usize = 0;
    while i < n
        invariant
            n == s@.len(),
            0 < n,
            i <= n,
            forall|k: int| 0 <= k < s@.len() ==> is_hex_digit(s@[k]),
            acc as int == hex_value(s@.subrange(0, i as int)),
        decreases n - i,
    {
        let c = s.get_char(i);
        let u = c as u32;
        let d: u32 = if ('0' as u32) <= u && u <= ('9' as u32) {
            u - ('0' as u32)
        } else if ('a' as u32) <= u && u <= ('f' as u32) {
            u - ('a' as u32) + 10
        } else {
            u - ('A' as u32) + 10
        };
        proof {
            assert(d as int == hex_digit_value(s@[i as int]));
        }
        if acc > (u32::MAX - d) / 16 {
            proof {
                lemma_hex_value_step(s@, i as int);
                lemma_hex_value_prefix_le(s@, i as int + 1);
                assert(s@.subrange(0, i as int + 1).drop_last() =~= s@.subrange(0, i as int));
                assert(s@.subrange(0, i as int + 1).last() == s@[i as int]);
                assert(hex_value(s@.subrange(0, i as int + 1)) == 16 * (acc as int) + d);
                assert(hex_value(s@) > u32::MAX);
            }
            return None;
        }
        proof {
            assert(s@.subrange(0, i as int + 1).drop_last() =~= s@.subrange(0, i as int));
            assert(s@.subrange(0, i as int + 1).last() == s@[i as int]);
        }
        acc = acc * 16 + d;
        i = i + 1;
    }
    proof {
        assert(s@.subrange(0, n as int) =~= s@);
    }
    Some(acc)
}

} // verus!
