use iced_font_awesome::{
    fa_icon, fa_icon_brands, fa_icon_solid, FaIcon, IconEntry, IconFont, IconRegistry, Rgba,
};

fn entry(label: &str, unicode: &str, styles: &[&str]) -> IconEntry {
    IconEntry {
        label: label.to_owned(),
        unicode: unicode.to_owned(),
        styles: styles.iter().map(|s| (*s).to_owned()).collect(),
    }
}

fn sample_registry() -> IconRegistry {
    IconRegistry::from_entries(vec![
        entry("coffee", "f0f4", &["solid"]),
        entry("github", "f09b", &["brands"]),
    ])
    .unwrap()
}

#[test]
fn solid_lookup_resolves_documented_code_point() {
    let reg = sample_registry();
    let icon = fa_icon_solid(&reg, "coffee");
    assert_eq!(icon.code, '\u{f0f4}');
    assert_eq!(icon.font, IconFont::Solid);
}

#[test]
fn default_style_of_solid_only_icon_falls_back() {
    let reg = sample_registry();
    let icon = fa_icon(&reg, "coffee");
    assert_eq!(icon.code, '\u{f03f}');
    assert_eq!(icon.font, IconFont::Default);
}

#[test]
fn unresolvable_label_falls_back() {
    let reg = sample_registry();
    let icon = fa_icon(&reg, "no-such-icon");
    assert_eq!(icon.code, '\u{f03f}');
    let icon = FaIcon::new(&reg, "no-such-icon", IconFont::Solid);
    assert_eq!(icon.code, '\u{f03f}');
    let icon = fa_icon_brands(&reg, "no-such-icon");
    assert_eq!(icon.code, '\u{f03f}');
    assert_eq!(icon.font, IconFont::Brands);
}

#[test]
fn brands_lookup_uses_brands_face() {
    let reg = sample_registry();
    let icon = fa_icon_brands(&reg, "github");
    assert_eq!(icon.code, '\u{f09b}');
    assert_eq!(icon.font, IconFont::Brands);
}

#[test]
fn new_icon_has_defaults() {
    let reg = sample_registry();
    let icon = fa_icon_solid(&reg, "coffee");
    assert_eq!(icon.size_px, 20);
    assert_eq!(icon.color, None);
}

#[test]
fn intrinsic_size_is_square_of_configured_size() {
    let reg = sample_registry();
    for s in [0u32, 1, 16, 20, 37, 4096] {
        let icon = fa_icon_solid(&reg, "coffee").size(s);
        assert_eq!(icon.intrinsic_size(), (s, s));
    }
    let icon = fa_icon_solid(&reg, "coffee");
    assert_eq!(icon.intrinsic_size(), (20, 20));
}

#[test]
fn builders_keep_other_fields() {
    let reg = sample_registry();
    let red = Rgba { red: 255, green: 0, blue: 0, alpha: 255 };
    let icon = fa_icon_solid(&reg, "coffee").size(32).color(red);
    assert_eq!(icon.code, '\u{f0f4}');
    assert_eq!(icon.size_px, 32);
    assert_eq!(icon.color, Some(red));
    assert_eq!(icon.font, IconFont::Solid);
}

#[test]
fn effective_color_prefers_explicit_then_theme_then_white() {
    let reg = sample_registry();
    let red = Rgba { red: 255, green: 0, blue: 0, alpha: 255 };
    let blue = Rgba { red: 0, green: 0, blue: 255, alpha: 255 };
    let white = Rgba { red: 255, green: 255, blue: 255, alpha: 255 };
    let plain = fa_icon_solid(&reg, "coffee");
    assert_eq!(plain.effective_color(Some(blue)), blue);
    assert_eq!(plain.effective_color(None), white);
    let colored = fa_icon_solid(&reg, "coffee").color(red);
    assert_eq!(colored.effective_color(Some(blue)), red);
    assert_eq!(colored.effective_color(None), red);
}
