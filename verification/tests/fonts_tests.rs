use iced_font_awesome::FontLoader;

#[test]
fn first_load_performs_registration() {
    let mut loader = FontLoader::new();
    assert!(loader.begin_load());
}

#[test]
fn repeated_loads_register_exactly_once() {
    let mut loader = FontLoader::new();
    let mut performed = 0;
    for _ in 0..10 {
        if loader.begin_load() {
            performed += 1;
        }
    }
    assert_eq!(performed, 1);
}
