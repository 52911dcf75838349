use sherlock_dictionary::trim::remove_parens;

#[test]
fn removes_parenthesized_segment_and_trailing_space() {
    assert_eq!(remove_parens("a (small) word"), "a word");
}

#[test]
fn removes_several_segments() {
    assert_eq!(remove_parens("(x) one (y) two"), "one two");
}

#[test]
fn consumes_all_whitespace_after_segment() {
    assert_eq!(remove_parens("x(y)   z"), "xz");
}

#[test]
fn truncates_at_first_comma() {
    assert_eq!(remove_parens("first part, second part"), "first part");
}

#[test]
fn strips_all_trailing_periods() {
    assert_eq!(remove_parens("end."), "end");
    assert_eq!(remove_parens("end..."), "end");
}

#[test]
fn keeps_unmatched_open_paren() {
    assert_eq!(remove_parens("a (b"), "a (b");
}

#[test]
fn keeps_unmatched_close_paren() {
    assert_eq!(remove_parens("a) b"), "a) b");
}

#[test]
fn segment_runs_to_first_close_paren() {
    assert_eq!(remove_parens("(a(b)c"), "c");
}

#[test]
fn plain_text_is_unchanged() {
    assert_eq!(remove_parens("no markers just text"), "no markers just text");
}

#[test]
fn empty_input_gives_empty_name() {
    assert_eq!(remove_parens(""), "");
}

#[test]
fn comma_inside_removed_segment_does_not_truncate() {
    assert_eq!(remove_parens("a (x, y) b"), "a b");
}

#[test]
fn reapplication_gives_the_same_name() {
    let inputs = [
        "remove (this) first, then.",
        "a (small) word",
        "first, second",
        "end...",
        "a (b",
        "(a(b)c",
        "",
        "plain",
    ];
    for input in inputs {
        let once = remove_parens(input);
        let twice = remove_parens(&once);
        assert_eq!(twice, once);
    }
}
