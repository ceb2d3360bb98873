use nerd_font_installer::catalog::get_nerd_fonts;

#[test]
fn catalog_lists_seven_fonts_in_order() {
    let fonts = get_nerd_fonts();
    let names: Vec<&str> = fonts.iter().map(|f| f.name.as_str()).collect();
    assert_eq!(
        names,
        vec![
            "FiraCode Nerd Font",
            "Hack Nerd Font",
            "JetBrainsMono Nerd Font",
            "SourceCodePro Nerd Font",
            "DejaVuSansMono Nerd Font",
            "CascadiaCode Nerd Font",
            "Meslo Nerd Font",
        ]
    );
}

#[test]
fn catalog_names_are_unique_and_assets_are_zip_archives() {
    let fonts = get_nerd_fonts();
    for (i, font) in fonts.iter().enumerate() {
        assert!(!font.name.is_empty());
        assert!(font.asset_name.ends_with(".zip"));
        for other in &fonts[i + 1..] {
            assert_ne!(font.name, other.name);
        }
    }
}

#[test]
fn catalog_is_the_same_on_every_call() {
    assert_eq!(get_nerd_fonts(), get_nerd_fonts());
}

#[test]
fn catalog_first_entry_is_complete() {
    let fonts = get_nerd_fonts();
    let first = &fonts[0];
    assert_eq!(first.asset_name, "FiraCode.zip");
    assert_eq!(first.description, "Monospaced font with programming ligatures");
    assert_eq!(first.variants, vec!["Regular".to_string(), "Bold".to_string(), "Light".to_string()]);
    assert_eq!(first.size_tenths_mb, 21);
}

#[test]
fn catalog_sizes_match_the_list() {
    let sizes: Vec<u32> = get_nerd_fonts().iter().map(|f| f.size_tenths_mb).collect();
    assert_eq!(sizes, vec![21, 18, 23, 19, 15, 20, 17]);
}

#[test]
fn size_text_has_one_decimal() {
    let fonts = get_nerd_fonts();
    assert_eq!(fonts[0].size_text(), "2.1");
    assert_eq!(fonts[5].size_text(), "2.0");
    let mut big = fonts[0].clone();
    big.size_tenths_mb = 1234;
    assert_eq!(big.size_text(), "123.4");
    big.size_tenths_mb = 7;
    assert_eq!(big.size_text(), "0.7");
}

#[test]
fn variants_text_joins_with_comma_and_space() {
    let fonts = get_nerd_fonts();
    assert_eq!(fonts[5].variants_text(), "Regular, SemiLight, Light");
    let mut one = fonts[0].clone();
    one.variants = vec!["Only".to_string()];
    assert_eq!(one.variants_text(), "Only");
    one.variants = Vec::new();
    assert_eq!(one.variants_text(), "");
}

#[test]
fn duplicate_holds_the_same_values() {
    let fonts = get_nerd_fonts();
    for font in &fonts {
        assert_eq!(&font.duplicate(), font);
    }
}
