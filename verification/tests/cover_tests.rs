use stump::cover::{
    background_color, fnv1a_hash, placeholder_author, placeholder_title, wrap_text,
    MAX_AUTHOR_LINES, MAX_TITLE_LINES,
};

fn fits_within(limit: usize) -> impl Fn(&str) -> bool {
    move |s: &str| s.chars().count() <= limit
}

#[test]
fn is_deterministic_for_the_same_input() {
    let first = (placeholder_title("Same Book"), placeholder_author(Some("Same Author")), background_color("Same Book"));
    let second = (placeholder_title("Same Book"), placeholder_author(Some("Same Author")), background_color("Same Book"));
    assert_eq!(first, second);
    assert_eq!(
        wrap_text(fits_within(10), "Same Book", MAX_TITLE_LINES),
        wrap_text(fits_within(10), "Same Book", MAX_TITLE_LINES)
    );
}

#[test]
fn handles_empty_title_and_missing_author() {
    assert_eq!(placeholder_title("  "), "Untitled");
    assert_eq!(placeholder_title("  Dune \n"), "Dune");
    assert_eq!(placeholder_author(None), None);
    assert_eq!(placeholder_author(Some(" \t")), None);
    assert_eq!(placeholder_author(Some(" Frank Herbert ")), Some("Frank Herbert".to_string()));
}

#[test]
fn truncates_very_long_titles_with_ellipsis() {
    let long_title = "word ".repeat(120);
    let lines = wrap_text(fits_within(12), &long_title, MAX_TITLE_LINES);
    assert_eq!(lines.len(), MAX_TITLE_LINES);
    for line in &lines[..lines.len() - 1] {
        assert_eq!(line, "word word");
    }
    assert_eq!(lines.last().unwrap(), "word word…");
}

#[test]
fn wraps_greedily_and_hard_breaks_long_words() {
    assert_eq!(wrap_text(fits_within(9), "The Fellowship of the Ring", 7), vec!["The", "Fellowshi", "p of the", "Ring"]);
    assert_eq!(wrap_text(fits_within(40), "J.R.R. Tolkien", MAX_AUTHOR_LINES), vec!["J.R.R. Tolkien"]);
    assert_eq!(wrap_text(fits_within(5), "", 2), Vec::<String>::new());
}

#[test]
fn ellipsis_shortens_the_last_line_until_it_fits() {
    assert_eq!(wrap_text(fits_within(4), "abcd efgh ijkl", 2), vec!["abcd", "efg…"]);
}

#[test]
fn fnv1a_matches_the_reference_values() {
    assert_eq!(fnv1a_hash(b""), 0xcbf29ce484222325);
    assert_eq!(fnv1a_hash(b"a"), 0xaf63dc4c8601ec8c);
    assert_eq!(fnv1a_hash(b"foobar"), 0x85944171f73967e8);
}

#[test]
fn background_comes_from_the_palette() {
    let palette = [
        (52, 73, 94), (84, 56, 71), (47, 89, 70), (105, 72, 49),
        (61, 64, 91), (112, 66, 65), (44, 95, 95), (90, 70, 100),
    ];
    let index = (fnv1a_hash("The Fellowship of the Ring".as_bytes()) % 8) as usize;
    assert_eq!(background_color("The Fellowship of the Ring"), palette[index]);
}

#[test]
fn characters_wider_than_a_line_get_lines_of_their_own() {
    // nothing but the empty line fits: each character is placed alone
    assert_eq!(wrap_text(fits_within(0), "ab", 5), vec!["", "a", "b"]);
}
