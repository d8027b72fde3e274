//! Unicode scalar values.
//!
//! A code point taken from the dataset is only usable as a glyph when it is
//! a Unicode scalar value: at most `0x10FFFF` and not a surrogate.

use vstd::prelude::*;

verus! {

/// `v` is a Unicode scalar value: in range and not a surrogate code point.
pub open spec fn valid_scalar(v: int) -> bool {
    (0 <= v < 0xD800) || (0xE000 <= v <= 0x10FFFF)
}

/// Relies on char::from_u32: it returns the character with the given code
/// point exactly when the value is a Unicode scalar value, and None for
/// surrogates and values above char::MAX.
pub assume_specification[ char::from_u32 ](v: u32) -> (r: Option<char>)
    ensures
        r is Some <==> valid_scalar(v as int),
        r matches Some(c) ==> c as int == v as int,
;

} // verus!
