//! The icon widget model: a resolved glyph, a pixel size, an optional
//! fill color and a font face selector.
//!
//! Construction never fails: a label that cannot be resolved in the
//! requested style yields the fallback glyph instead, so an icon slot
//! always renders something visible.

use vstd::prelude::*;

use crate::hex::{hex_value, parse_hex};
use crate::registry::{
    entry_matches, spec_style_name, valid_entry, IconFont, IconRegistry,
};
use crate::text_order::{lemma_lex_lt_irrefl, lex_lt};

verus! {

/// The pixel size an icon starts out with.
pub const DEFAULT_SIZE_PX: u32 = 20;

/// The glyph drawn when a label cannot be resolved: the "missing icon"
/// placeholder at code point 0xF03F.
pub const FALLBACK_GLYPH: char = '\u{f03f}';

/// A fill color with an alpha channel, one byte per channel.
#[derive(Clone, Copy, PartialEq, Eq, Structural, Debug)]
pub struct Rgba {
    pub red: u8,
    pub green: u8,
    pub blue: u8,
    pub alpha: u8,
}

/// Opaque white, the color used when neither the caller nor the theme
/// picks one.
pub open spec fn spec_white() -> Rgba {
    Rgba { red: 255, green: 255, blue: 255, alpha: 255 }
}

impl Rgba {
    /// Opaque white.
    pub fn white() -> (r: Rgba)
        ensures
            r == spec_white(),
    {
        Rgba { red: 255, green: 255, blue: 255, alpha: 255 }
    }
}

/// A leaf widget holding one resolved glyph.
pub struct Icon {
    /// The character to draw.
    pub code: char,
    /// The configured size in pixels; the widget is square.
    pub size_px: u32,
    /// The fill color, when the caller picked one.
    pub color: Option<Rgba>,
    /// Which font face the glyph is drawn with.
    pub font: IconFont,
}

impl Icon {
    /// Picks a fill color.
    pub fn color(self, color: Rgba) -> (r: Self)
        ensures
            r.color == Some(color),
            r.code == self.code,
            r.size_px == self.size_px,
            r.font == self.font,
    {
        Icon { color: Some(color), ..self }
    }

    /// Picks a pixel size.
    pub fn size(self, size_px: u32) -> (r: Self)
        ensures
            r.size_px == size_px,
            r.code == self.code,
            r.color == self.color,
            r.font == self.font,
    {
        Icon { size_px, ..self }
    }

    /// The intrinsic extent reported to layout: the widget shrinks to its
    /// content, a square of the configured size in both axes.
    pub fn intrinsic_size(&self) -> (r: (u32, u32))
        ensures
            r.0 == self.size_px,
            r.1 == self.size_px,
    {
        (self.size_px, self.size_px)
    }

    /// The color a draw pass fills with: the configured color when there
    /// is one, else the theme's, else white.
    pub fn effective_color(&self, theme_color: Option<Rgba>) -> (r: Rgba)
        ensures
            self.color matches Some(c) ==> r == c,
            self.color is None ==> (theme_color matches Some(t) ==> r == t),
            self.color is None && theme_color is None ==> r == spec_white(),
    {
        match self.color {
            Some(c) => c,
            None => match theme_color {
                Some(t) => t,
                None => Rgba::white(),
            },
        }
    }
}

/// What icon construction promises: default size, no explicit color, the
/// requested font face, and a glyph that is the matching entry's code
/// point, or the fallback glyph when no entry matches.
pub open spec fn icon_post(
    registry: IconRegistry,
    label: Seq<char>,
    font: IconFont,
    icon: Icon,
) -> bool {
    &&& icon.size_px == DEFAULT_SIZE_PX
    &&& icon.color is None
    &&& icon.font == font
    &&& forall|i: int|
        0 <= i < registry.entries@.len() && entry_matches(
            #[trigger] registry.entries@[i],
            label,
            spec_style_name(font),
        ) ==> icon.code as int == hex_value(registry.entries@[i].unicode@)
    &&& (forall|i: int|
        0 <= i < registry.entries@.len() ==> !entry_matches(
            #[trigger] registry.entries@[i],
            label,
            spec_style_name(font),
        )) ==> icon.code == FALLBACK_GLYPH
}

/// Icon construction.
pub struct FaIcon;

impl FaIcon {
    /// Builds an icon for `name` in the style selected by `font`.
    ///
    /// Never fails: when the label cannot be resolved, the icon carries
    /// the fallback glyph.
    pub fn new(registry: &IconRegistry, name: &str, font: IconFont) -> (r: Icon)
        requires
            registry.wf(),
        ensures
            icon_post(*registry, name@, font, r),
    {
        match registry.resolve(name, &font) {
            Some(u) => {
                proof {
                    let i = choose|i: int|
                        0 <= i < registry.entries@.len() && entry_matches(
                            registry.entries@[i],
                            name@,
                            spec_style_name(font),
                        ) && u@ == registry.entries@[i].unicode@;
                    assert(valid_entry(registry.entries@[i]));
                }
                let v = parse_hex(u.as_str()).unwrap();
                let code = char::from_u32(v).unwrap();
                proof {
                    let i = choose|i: int|
                        0 <= i < registry.entries@.len() && entry_matches(
                            registry.entries@[i],
                            name@,
                            spec_style_name(font),
                        ) && u@ == registry.entries@[i].unicode@;
                    assert forall|j: int|
                        0 <= j < registry.entries@.len() && entry_matches(
                            #[trigger] registry.entries@[j],
                            name@,
                            spec_style_name(font),
                        ) implies code as int == hex_value(
                        registry.entries@[j].unicode@,
                    ) by {
                        if j != i {
                            assert(registry.entries@[j].label@ == registry.entries@[i].label@);
                            if j < i {
                                assert(lex_lt(
                                    registry.entries@[j].label@,
                                    registry.entries@[i].label@,
                                ));
                            } else {
                                assert(lex_lt(
                                    registry.entries@[i].label@,
                                    registry.entries@[j].label@,
                                ));
                            }
                            lemma_lex_lt_irrefl(registry.entries@[i].label@);
                        }
                    }
                }
                Icon { code, size_px: DEFAULT_SIZE_PX, color: None, font }
            },
            None => Icon { code: FALLBACK_GLYPH, size_px: DEFAULT_SIZE_PX, color: None, font },
        }
    }
}

/// Builds an icon for `name` in the default (regular) style.
pub fn fa_icon(registry: &IconRegistry, name: &str) -> (r: Icon)
    requires
        registry.wf(),
    ensures
        icon_post(*registry, name@, IconFont::Default, r),
{
    FaIcon::new(registry, name, IconFont::Default)
}

/// Builds an icon for `name` in the solid style.
pub fn fa_icon_solid(registry: &IconRegistry, name: &str) -> (r: Icon)
    requires
        registry.wf(),
    ensures
        icon_post(*registry, name@, IconFont::Solid, r),
{
    FaIcon::new(registry, name, IconFont::Solid)
}

/// Builds an icon for `name` in the brands style.
pub fn fa_icon_brands(registry: &IconRegistry, name: &str) -> (r: Icon)
    requires
        registry.wf(),
    ensures
        icon_post(*registry, name@, IconFont::Brands, r),
{
    FaIcon::new(registry, name, IconFont::Brands)
}

} // verus!
