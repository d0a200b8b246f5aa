use drinkbot::text::{join, same_text, trim};

#[test]
fn trim_removes_white_space_at_both_ends() {
    assert_eq!(trim(" Mojito "), "Mojito");
    assert_eq!(trim("\t\r\n Highball glass \n\n"), "Highball glass");
    assert_eq!(trim("Rum   "), "Rum");
    assert_eq!(trim("   Rum"), "Rum");
}

#[test]
fn trim_keeps_text_without_outer_white_space() {
    assert_eq!(trim("Mix."), "Mix.");
    assert_eq!(trim("a b\tc"), "a b\tc");
    assert_eq!(trim("x"), "x");
}

#[test]
fn trim_of_blank_text_is_empty() {
    assert_eq!(trim(""), "");
    assert_eq!(trim(" "), "");
    assert_eq!(trim(" \t\n\r "), "");
}

#[test]
fn trim_knows_white_space_beyond_ascii() {
    assert_eq!(trim("\u{a0}Cuba Libre\u{3000}"), "Cuba Libre");
    assert_eq!(trim("\u{2003}\u{2028}"), "");
    assert_eq!(trim(" Caf\u{e9} \u{2009}"), "Caf\u{e9}");
}

#[test]
fn trim_counts_characters_not_bytes() {
    assert_eq!(trim(" \u{e9}\u{4e2d}\u{1f379} "), "\u{e9}\u{4e2d}\u{1f379}");
    assert_eq!(trim("\u{1f379}  "), "\u{1f379}");
    assert_eq!(trim("  \u{1f379}"), "\u{1f379}");
}

#[test]
fn trim_agrees_with_the_standard_library() {
    let samples = [
        "",
        " ",
        "a",
        " a",
        "a ",
        " a ",
        "  a  b  ",
        "\n\ta\u{b}\u{c}",
        "\u{85}x\u{1680}",
        "\u{200b}zero width\u{200b}",
        "\u{feff}mark",
        "\u{2000}\u{200a}y\u{202f}\u{205f}",
        "_ _",
    ];
    for sample in samples {
        assert_eq!(trim(sample), sample.trim());
    }
}

#[test]
fn twice_trimmed_is_once_trimmed() {
    let once = trim(" \t a  b \n");
    assert_eq!(trim(once), once);
}

#[test]
fn join_puts_separator_between_neighbours() {
    let parts = vec![String::from("a"), String::from("b"), String::from("c")];
    assert_eq!(join(&parts, ", "), "a, b, c");
    assert_eq!(join(&parts, ""), "abc");
    assert_eq!(join(&parts, " and "), "a and b and c");
}

#[test]
fn join_of_one_part_is_that_part() {
    assert_eq!(join(&vec![String::from("Rum (50ml)")], ", "), "Rum (50ml)");
}

#[test]
fn join_of_nothing_is_empty() {
    assert_eq!(join(&Vec::new(), ", "), "");
}

#[test]
fn join_keeps_empty_parts() {
    let parts = vec![String::new(), String::from("x"), String::new()];
    assert_eq!(join(&parts, "-"), "-x-");
}

#[test]
fn same_text_compares_character_by_character() {
    assert!(same_text("", ""));
    assert!(same_text("abc", "abc"));
    assert!(same_text("\u{e9}\u{1f379}", "\u{e9}\u{1f379}"));
    assert!(!same_text("abc", "abd"));
    assert!(!same_text("abc", "ab"));
    assert!(!same_text("ab", "abc"));
    assert!(!same_text("", "a"));
    assert!(!same_text("a", ""));
    assert!(!same_text("e\u{301}", "\u{e9}"));
}
