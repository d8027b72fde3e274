//! The icon registry: a table of entries sorted by label, resolved by
//! binary search and filtered by the requested style.
//!
//! An entry maps a label such as `"coffee"` to the hexadecimal code point
//! of its glyph and the set of styles the glyph is available in. A lookup
//! returns the code point only when the label is present and carries the
//! requested style; a missing label and a missing style are both reported
//! as "not found".

use vstd::prelude::*;

use crate::codepoint::valid_scalar;
use crate::hex::{hex_value, is_hex_seq, parse_hex};
use crate::text_order::{
    lemma_lex_lt_irrefl, lemma_lex_lt_total, lemma_lex_lt_trans, lex_lt, str_eq, str_lt,
};

verus! {

/// Which of the embedded font faces a glyph is drawn with.
#[derive(Clone, Copy, PartialEq, Eq, Structural, Debug)]
pub enum IconFont {
    Default,
    Solid,
    Brands,
}

/// One row of the dataset: a label, the glyph's code point in hexadecimal
/// notation, and the names of the styles the glyph supports.
pub struct IconEntry {
    pub label: String,
    pub unicode: String,
    pub styles: Vec<String>,
}

/// The style name that a font face selects in the dataset.
pub open spec fn spec_style_name(font: IconFont) -> Seq<char> {
    match font {
        IconFont::Default => "regular"@,
        IconFont::Solid => "solid"@,
        IconFont::Brands => "brands"@,
    }
}

/// The entry lists `style` among its supported styles.
pub open spec fn entry_has_style(e: IconEntry, style: Seq<char>) -> bool {
    exists|i: int| 0 <= i < e.styles@.len() && e.styles@[i]@ == style
}

/// The entry answers a lookup for `label` in `style`.
pub open spec fn entry_matches(e: IconEntry, label: Seq<char>, style: Seq<char>) -> bool {
    e.label@ == label && entry_has_style(e, style)
}

/// The entry's code point is well formed: a hexadecimal string denoting a
/// Unicode scalar value.
pub open spec fn valid_entry(e: IconEntry) -> bool {
    is_hex_seq(e.unicode@) && valid_scalar(hex_value(e.unicode@))
}

/// The entries are strictly sorted by label.
pub open spec fn entries_sorted(s: Seq<IconEntry>) -> bool {
    forall|i: int, j: int| 0 <= i < j < s.len() ==> lex_lt(s[i].label@, s[j].label@)
}

/// Every entry's code point is well formed.
pub open spec fn entries_valid(s: Seq<IconEntry>) -> bool {
    forall|i: int| 0 <= i < s.len() ==> valid_entry(s[i])
}

/// When consecutive entries are in order, so is every pair.
proof fn lemma_chain_lt(s: Seq<IconEntry>, i: int, j: int)
    requires
        forall|k: int|
            0 <= k && k + 1 < s.len() ==> #[trigger] lex_lt(s[k].label@, s[k + 1].label@),
        0 <= i < j < s.len(),
    ensures
        lex_lt(s[i].label@, s[j].label@),
    decreases j - i,
{
    let p = j - 1;
    assert(lex_lt(s[p].label@, s[p + 1].label@));
    if i + 1 < j {
        lemma_chain_lt(s, i, p);
        lemma_lex_lt_trans(s[i].label@, s[p].label@, s[j].label@);
    }
}

/// The read-only lookup table: entries strictly sorted by label, each with
/// a well-formed code point.
pub struct IconRegistry {
    pub entries: Vec<IconEntry>,
}

impl IconRegistry {
    /// Well-formedness: sorted for the binary search, valid so that every
    /// resolved code point names a glyph.
    pub open spec fn wf(&self) -> bool {
        entries_sorted(self.entries@) && entries_valid(self.entries@)
    }

    /// Builds a registry from parsed dataset rows, accepting them exactly
    /// when they are strictly sorted by label and every code point is a
    /// hexadecimal string denoting a Unicode scalar value.
    pub fn from_entries(entries: Vec<IconEntry>) -> (r: Option<IconRegistry>)
        ensures
            r matches Some(reg) ==> reg.entries@ == entries@ && reg.wf(),
            r is Some <==> entries_sorted(entries@) && entries_valid(entries@),
    {
        let n = entries.len();
        let mut k: usize = 1;
        while k < n
            invariant
                n == entries@.len(),
                1 <= k,
                forall|p: int|
                    0 <= p && p + 1 < k ==> #[trigger] lex_lt(
                        entries@[p].label@,
                        entries@[p + 1].label@,
                    ),
            decreases n - k,
        {
            if !str_lt(entries[k - 1].label.as_str(), entries[k].label.as_str()) {
                proof {
                    if entries_sorted(entries@) {
                        assert(lex_lt(entries@[k - 1].label@, entries@[k as int].label@));
                    }
                }
                return None;
            }
            k = k + 1;
        }
        proof {
            assert forall|i: int, j: int|
                0 <= i < j < entries@.len() implies lex_lt(
                entries@[i].label@,
                entries@[j].label@,
            ) by {
                lemma_chain_lt(entries@, i, j);
            }
        }
        let mut m: usize = 0;
        while m < n
            invariant
                n == entries@.len(),
                m <= n,
                entries_sorted(entries@),
                forall|p: int| 0 <= p < m ==> valid_entry(entries@[p]),
            decreases n - m,
        {
            match parse_hex(entries[m].unicode.as_str()) {
                Some(v) => {
                    if v > 0x10FFFF || (0xD800 <= v && v < 0xE000) {
                        return None;
                    }
                },
                None => {
                    proof {
                        if valid_entry(entries@[m as int]) {
                            assert(hex_value(entries@[m as int].unicode@) <= 0x10FFFF);
                        }
                    }
                    return None;
                },
            }
            m = m + 1;
        }
        Some(IconRegistry { entries })
    }

    /// Resolves `label` in the style selected by `font`.
    ///
    /// Returns the entry's code point exactly when an entry carries this
    /// label and lists this style; a label that is absent and a label that
    /// lacks the style both yield None.
    pub fn resolve(&self, label: &str, font: &IconFont) -> (r: Option<String>)
        requires
            self.wf(),
        ensures
            r matches Some(u) ==> exists|i: int|
                0 <= i < self.entries@.len() && entry_matches(
                    self.entries@[i],
                    label@,
                    spec_style_name(*font),
                ) && u@ == self.entries@[i].unicode@,
            r is None ==> forall|i: int|
                0 <= i < self.entries@.len() ==> !entry_matches(
                    self.entries@[i],
                    label@,
                    spec_style_name(*font),
                ),
    {
        let style: &str = match font {
            IconFont::Default => "regular",
            IconFont::Solid => "solid",
            IconFont::Brands => "brands",
        };
        let n = self.entries.len();
        let mut lo: usize = 0;
        let mut hi: usize = n;
        while lo < hi
            invariant
                self.wf(),
                n == self.entries@.len(),
                lo <= hi <= n,
                style@ == spec_style_name(*font),
                forall|k: int| 0 <= k < lo ==> lex_lt(self.entries@[k].label@, label@),
                forall|k: int| hi <= k < n ==> lex_lt(label@, self.entries@[k].label@),
            decreases hi - lo,
        {
            let mid = lo + (hi - lo) / 2;
            let e = &self.entries[mid];
            if str_lt(e.label.as_str(), label) {
                proof {
                    assert forall|k: int| 0 <= k < mid + 1 implies lex_lt(
                        self.entries@[k].label@,
                        label@,
                    ) by {
                        if k < mid {
                            lemma_lex_lt_trans(
                                self.entries@[k].label@,
                                self.entries@[mid as int].label@,
                                label@,
                            );
                        }
                    }
                }
                lo = mid + 1;
            } else if str_lt(label, e.label.as_str()) {
                proof {
                    assert forall|k: int| mid <= k < n implies lex_lt(
                        label@,
                        self.entries@[k].label@,
                    ) by {
                        if k > mid {
                            lemma_lex_lt_trans(
                                label@,
                                self.entries@[mid as int].label@,
                                self.entries@[k].label@,
                            );
                        }
                    }
                }
                hi = mid;
            } else {
                proof {
                    lemma_lex_lt_total(e.label@, label@);
                }
                if has_style(&e.styles, style) {
                    return Some(e.unicode.clone());
                } else {
                    proof {
                        assert forall|k: int| 0 <= k < n implies !entry_matches(
                            self.entries@[k],
                            label@,
                            spec_style_name(*font),
                        ) by {
                            if k != mid {
                                if k < mid {
                                    lemma_lex_lt_irrefl(self.entries@[k].label@);
                                } else {
                                    lemma_lex_lt_irrefl(self.entries@[mid as int].label@);
                                }
                            }
                        }
                    }
                    return None;
                }
            }
        }
        proof {
            assert forall|k: int| 0 <= k < n implies !entry_matches(
                self.entries@[k],
                label@,
                spec_style_name(*font),
            ) by {
                lemma_lex_lt_irrefl(self.entries@[k].label@);
            }
        }
        None
    }
}

/// Looks up the code point for `label` in the style selected by `font`,
/// as [`IconRegistry::resolve`] does.
pub fn get_icon_unicode(registry: &IconRegistry, label: &str, font: &IconFont) -> (r: Option<
    String,
>)
    requires
        registry.wf(),
    ensures
        r matches Some(u) ==> exists|i: int|
            0 <= i < registry.entries@.len() && entry_matches(
                registry.entries@[i],
                label@,
                spec_style_name(*font),
            ) && u@ == registry.entries@[i].unicode@,
        r is None ==> forall|i: int|
            0 <= i < registry.entries@.len() ==> !entry_matches(
                registry.entries@[i],
                label@,
                spec_style_name(*font),
            ),
{
    registry.resolve(label, font)
}

/// Decides whether one of `styles` spells `style`.
fn has_style(styles: &Vec<String>, style: &str) -> (r: bool)
    ensures
        r == exists|i: int| 0 <= i < styles@.len() && styles@[i]@ == style@,
{
    let n = styles.len();
    let mut j: usize = 0;
    while j < n
        invariant
            n == styles@.len(),
            j <= n,
            forall|k: int| 0 <= k < j ==> styles@[k]@ != style@,
        decreases n - j,
    {
        if str_eq(styles[j].as_str(), style) {
            return true;
        }
        j = j + 1;
    }
    false
}

} // verus!
