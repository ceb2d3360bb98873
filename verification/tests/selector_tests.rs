use nerd_font_installer::catalog::get_nerd_fonts;
use nerd_font_installer::catalog::FontInfo;
use nerd_font_installer::dispatch::select_fonts;
use nerd_font_installer::selector::first_containing;
use nerd_font_installer::selector::parse_index;
use nerd_font_installer::selector::select_fonts_by_name;
use nerd_font_installer::selector::select_fonts_interactively;

fn names_of(fonts: &[FontInfo]) -> Vec<String> {
    fonts.iter().map(|f| f.name.clone()).collect()
}

fn by_name(fragments: &[&str]) -> Vec<FontInfo> {
    let fragments: Vec<String> = fragments.iter().map(|s| s.to_string()).collect();
    select_fonts_by_name(&get_nerd_fonts(), &fragments)
}

#[test]
fn fragment_hack_selects_exactly_hack() {
    let selected = by_name(&["hack"]);
    assert_eq!(names_of(&selected), vec!["Hack Nerd Font"]);
    assert_eq!(selected[0], get_nerd_fonts()[1]);
}

#[test]
fn fragment_without_match_adds_nothing() {
    assert!(by_name(&["comic sans"]).is_empty());
    assert_eq!(names_of(&by_name(&["hack", "zzz", "meslo"])), vec!["Hack Nerd Font", "Meslo Nerd Font"]);
}

#[test]
fn fragments_match_without_regard_to_case() {
    assert_eq!(names_of(&by_name(&["FIRACODE"])), vec!["FiraCode Nerd Font"]);
    assert_eq!(names_of(&by_name(&["jetbrainsmono NERD"])), vec!["JetBrainsMono Nerd Font"]);
}

#[test]
fn fragment_selects_the_first_font_that_contains_it() {
    assert_eq!(names_of(&by_name(&["nerd"])), vec!["FiraCode Nerd Font"]);
    assert_eq!(names_of(&by_name(&["mono"])), vec!["JetBrainsMono Nerd Font"]);
    assert_eq!(names_of(&by_name(&[""])), vec!["FiraCode Nerd Font"]);
}

#[test]
fn fragments_may_select_a_font_twice() {
    assert_eq!(names_of(&by_name(&["hack", "Hack"])), vec!["Hack Nerd Font", "Hack Nerd Font"]);
}

#[test]
fn no_fragments_select_nothing() {
    assert!(by_name(&[]).is_empty());
}

#[test]
fn first_containing_finds_the_least_index() {
    let names = vec!["alpha".to_string(), "beta".to_string(), "alphabet".to_string()];
    assert_eq!(first_containing(&names, "bet"), Some(1));
    assert_eq!(first_containing(&names, "alpha"), Some(0));
    assert_eq!(first_containing(&names, "abet"), Some(2));
    assert_eq!(first_containing(&names, "gamma"), None);
    assert_eq!(first_containing(&names, "Beta"), None);
    assert_eq!(first_containing(&names, "alphabets"), None);
    assert_eq!(first_containing(&Vec::new(), "a"), None);
}

#[test]
fn input_all_selects_the_whole_catalog() {
    let fonts = get_nerd_fonts();
    assert_eq!(select_fonts_interactively(&fonts, "all"), fonts);
    assert_eq!(select_fonts_interactively(&fonts, "ALL"), fonts);
    assert_eq!(select_fonts_interactively(&fonts, "  aLl\n"), fonts);
}

#[test]
fn input_one_three_selects_first_and_third() {
    let fonts = get_nerd_fonts();
    let selected = select_fonts_interactively(&fonts, "1,3");
    assert_eq!(selected, vec![fonts[0].clone(), fonts[2].clone()]);
}

#[test]
fn input_with_invalid_tokens_keeps_the_valid_ones() {
    let fonts = get_nerd_fonts();
    let selected = select_fonts_interactively(&fonts, "1,99,abc");
    assert_eq!(selected, vec![fonts[0].clone()]);
}

#[test]
fn input_keeps_order_and_repeats() {
    let fonts = get_nerd_fonts();
    assert_eq!(
        names_of(&select_fonts_interactively(&fonts, " 7 , 2,2 ,+1\n")),
        vec!["Meslo Nerd Font", "Hack Nerd Font", "Hack Nerd Font", "FiraCode Nerd Font"]
    );
}

#[test]
fn input_out_of_range_or_malformed_selects_nothing() {
    let fonts = get_nerd_fonts();
    for input in ["", "0", "8", "-1", "1.5", "1 2", "allx", "al", ",", "99999999999999999999999999", "+", "++1"] {
        assert!(select_fonts_interactively(&fonts, input).is_empty(), "{:?}", input);
    }
}

#[test]
fn input_with_empty_pieces_skips_them() {
    let fonts = get_nerd_fonts();
    assert_eq!(
        names_of(&select_fonts_interactively(&fonts, ",1,,2,")),
        vec!["FiraCode Nerd Font", "Hack Nerd Font"]
    );
}

#[test]
fn parse_index_counts_from_one() {
    assert_eq!(parse_index("1", 7), Some(0));
    assert_eq!(parse_index("7", 7), Some(6));
    assert_eq!(parse_index(" 007\t", 7), Some(6));
    assert_eq!(parse_index("+3", 7), Some(2));
    assert_eq!(parse_index("\u{a0}12\u{3000}", 20), Some(11));
    assert_eq!(parse_index("0", 7), None);
    assert_eq!(parse_index("8", 7), None);
    assert_eq!(parse_index("", 7), None);
    assert_eq!(parse_index("3a", 7), None);
    assert_eq!(parse_index("1", 0), None);
    assert_eq!(parse_index("18446744073709551616", usize::MAX), None);
    assert_eq!(parse_index("18446744073709551615", usize::MAX), Some(usize::MAX - 1));
}

#[test]
fn parse_index_agrees_with_the_standard_parser() {
    for token in ["1", " 4 ", "+6", "x", "-2", "", "10", "٣", "1_0", "0x1"] {
        let expected = token
            .trim()
            .parse::<usize>()
            .ok()
            .and_then(|i| if i >= 1 && i <= 9 { Some(i - 1) } else { None });
        assert_eq!(parse_index(token, 9), expected, "{:?}", token);
    }
}

#[test]
fn names_on_the_command_line_go_before_the_typed_line() {
    let fonts = get_nerd_fonts();
    let names = vec!["meslo".to_string()];
    assert_eq!(select_fonts(&fonts, &names, "1,2"), vec![fonts[6].clone()]);
    assert_eq!(select_fonts(&fonts, &Vec::new(), "1,2"), vec![fonts[0].clone(), fonts[1].clone()]);
    assert!(select_fonts(&fonts, &vec!["nothing like it".to_string()], "all").is_empty());
}
