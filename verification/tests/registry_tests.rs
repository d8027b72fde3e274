use iced_font_awesome::{get_icon_unicode, IconEntry, IconFont, IconRegistry};

fn entry(label: &str, unicode: &str, styles: &[&str]) -> IconEntry {
    IconEntry {
        label: label.to_owned(),
        unicode: unicode.to_owned(),
        styles: styles.iter().map(|s| (*s).to_owned()).collect(),
    }
}

fn sample_registry() -> IconRegistry {
    IconRegistry::from_entries(vec![
        entry("anchor", "f13d", &["solid", "regular"]),
        entry("coffee", "f0f4", &["solid"]),
        entry("github", "f09b", &["brands"]),
    ])
    .unwrap()
}

#[test]
fn resolve_present_with_style() {
    let reg = sample_registry();
    assert_eq!(
        reg.resolve("anchor", &IconFont::Default),
        Some("f13d".to_owned())
    );
    assert_eq!(
        reg.resolve("anchor", &IconFont::Solid),
        Some("f13d".to_owned())
    );
    assert_eq!(
        reg.resolve("coffee", &IconFont::Solid),
        Some("f0f4".to_owned())
    );
    assert_eq!(
        reg.resolve("github", &IconFont::Brands),
        Some("f09b".to_owned())
    );
}

#[test]
fn resolve_absent_label() {
    let reg = sample_registry();
    assert_eq!(reg.resolve("zebra", &IconFont::Default), None);
    assert_eq!(reg.resolve("zebra", &IconFont::Solid), None);
    assert_eq!(reg.resolve("zebra", &IconFont::Brands), None);
    assert_eq!(reg.resolve("", &IconFont::Solid), None);
    assert_eq!(reg.resolve("coffe", &IconFont::Solid), None);
    assert_eq!(reg.resolve("coffees", &IconFont::Solid), None);
}

#[test]
fn resolve_style_mismatch_is_not_found() {
    let reg = sample_registry();
    assert_eq!(reg.resolve("coffee", &IconFont::Default), None);
    assert_eq!(reg.resolve("coffee", &IconFont::Brands), None);
    assert_eq!(reg.resolve("github", &IconFont::Solid), None);
    assert_eq!(reg.resolve("github", &IconFont::Default), None);
    assert_eq!(reg.resolve("anchor", &IconFont::Brands), None);
}

#[test]
fn get_icon_unicode_matches_resolve() {
    let reg = sample_registry();
    assert_eq!(
        get_icon_unicode(&reg, "coffee", &IconFont::Solid),
        Some("f0f4".to_owned())
    );
    assert_eq!(get_icon_unicode(&reg, "coffee", &IconFont::Default), None);
    assert_eq!(get_icon_unicode(&reg, "zebra", &IconFont::Solid), None);
}

#[test]
fn from_entries_accepts_empty() {
    assert!(IconRegistry::from_entries(Vec::new()).is_some());
}

#[test]
fn from_entries_accepts_single() {
    assert!(IconRegistry::from_entries(vec![entry("coffee", "f0f4", &["solid"])]).is_some());
}

#[test]
fn from_entries_rejects_unsorted() {
    let r = IconRegistry::from_entries(vec![
        entry("coffee", "f0f4", &["solid"]),
        entry("anchor", "f13d", &["solid"]),
    ]);
    assert!(r.is_none());
}

#[test]
fn from_entries_rejects_duplicate_labels() {
    let r = IconRegistry::from_entries(vec![
        entry("coffee", "f0f4", &["solid"]),
        entry("coffee", "f0f5", &["brands"]),
    ]);
    assert!(r.is_none());
}

#[test]
fn from_entries_rejects_malformed_code_points() {
    assert!(IconRegistry::from_entries(vec![entry("a", "xyz", &["solid"])]).is_none());
    assert!(IconRegistry::from_entries(vec![entry("a", "", &["solid"])]).is_none());
    assert!(IconRegistry::from_entries(vec![entry("a", "d800", &["solid"])]).is_none());
    assert!(IconRegistry::from_entries(vec![entry("a", "dfff", &["solid"])]).is_none());
    assert!(IconRegistry::from_entries(vec![entry("a", "110000", &["solid"])]).is_none());
}

#[test]
fn from_entries_accepts_boundary_code_points() {
    assert!(IconRegistry::from_entries(vec![entry("a", "d7ff", &["solid"])]).is_some());
    assert!(IconRegistry::from_entries(vec![entry("a", "e000", &["solid"])]).is_some());
    assert!(IconRegistry::from_entries(vec![entry("a", "10ffff", &["solid"])]).is_some());
    assert!(IconRegistry::from_entries(vec![entry("a", "0", &["solid"])]).is_some());
}
