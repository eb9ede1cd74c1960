use openjudge_cli::shrink_whitespace;

#[test]
fn runs_become_one_space() {
    assert_eq!(shrink_whitespace("a \t\n b  c "), "a b c ");
}

#[test]
fn no_trimming() {
    assert_eq!(shrink_whitespace("  x  "), " x ");
}

#[test]
fn empty_text_stays_empty() {
    assert_eq!(shrink_whitespace(""), "");
}

#[test]
fn unicode_whitespace_collapses() {
    assert_eq!(shrink_whitespace("a\u{a0}\u{3000}b"), "a b");
}

#[test]
fn collapsed_text_has_no_adjacent_whitespace() {
    let t = "x \n\t y\r\n\r\nz   ";
    let once = shrink_whitespace(t);
    let chars: Vec<char> = once.chars().collect();
    for pair in chars.windows(2) {
        assert!(!(pair[0].is_whitespace() && pair[1].is_whitespace()));
    }
    assert_eq!(shrink_whitespace(&once), once);
    assert_eq!(shrink_whitespace("x y\r\n\r\nz "), once);
}
