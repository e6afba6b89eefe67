use pawkit_desktop::sanitize::sanitize;

#[test]
fn replaces_each_forbidden_character() {
    assert_eq!(sanitize("a/b\\c:d*e?f\"g<h>i|j"), "a_b_c_d_e_f_g_h_i_j");
}

#[test]
fn trims_surrounding_white_space() {
    assert_eq!(sanitize("  My Title \t\n"), "My Title");
}

#[test]
fn keeps_the_first_hundred_characters() {
    let long = "x".repeat(150);
    assert_eq!(sanitize(&long), "x".repeat(100));
}

#[test]
fn counts_characters_not_bytes() {
    let long = "é".repeat(120);
    assert_eq!(sanitize(&long), "é".repeat(100));
}

#[test]
fn trims_after_cutting() {
    let mut name = "a".repeat(99);
    name.push(' ');
    name.push('b');
    assert_eq!(sanitize(&name), "a".repeat(99));
}

#[test]
fn sanitizing_twice_changes_nothing() {
    for name in ["My Title: v2", "  a/b  ", "", "   ", "plain", "<<<>>>", "tab\there"] {
        let once = sanitize(name);
        assert_eq!(sanitize(&once), once);
    }
}

#[test]
fn output_has_no_forbidden_character() {
    let out = sanitize("/\\:*?\"<>| mixed /\\:*?\"<>|");
    assert!(!out.chars().any(|c| "/\\:*?\"<>|".contains(c)));
    assert_eq!(out, "_________ mixed _________");
}

#[test]
fn empty_and_blank_names_become_empty() {
    assert_eq!(sanitize(""), "");
    assert_eq!(sanitize(" \u{a0}\u{3000} "), "");
}
