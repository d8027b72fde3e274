//! Icon-font widget support: a registry that resolves icon labels to
//! Unicode code points, and a small widget model around the resolved glyph.

pub mod codepoint;
pub mod fonts;
pub mod hex;
pub mod icon;
pub mod registry;
pub mod text_order;

pub use codepoint::valid_scalar;
pub use fonts::{load_step, FontLoader};
pub use icon::{
    fa_icon, fa_icon_brands, fa_icon_solid, icon_post, spec_white, FaIcon, Icon, Rgba,
    DEFAULT_SIZE_PX, FALLBACK_GLYPH,
};
pub use hex::{hex_value, is_hex_seq, parse_hex};
pub use registry::{
    entries_sorted, entries_valid, entry_has_style, entry_matches, get_icon_unicode,
    spec_style_name, valid_entry, IconEntry, IconFont, IconRegistry,
};
pub use text_order::{lex_lt, str_eq, str_lt};
