use chat_relay::sanitize::sanitize;

#[test]
fn clean_input_unchanged() {
    assert_eq!(sanitize("hello"), "hello");
}

#[test]
fn empty_input_stays_empty() {
    assert_eq!(sanitize(""), "");
}

#[test]
fn every_rejected_leading_char_stripped() {
    let set = [
        '!', '@', '#', '$', '%', '^', '&', '*', '(', ')', '{', '}', '[', ']', '|', '\\', '\'',
        '"', ':', ';', ',', '<', '.', '>', '/', '?', 'n',
    ];
    for c in set {
        assert_eq!(sanitize(&format!("{}hello", c)), "hello");
    }
}

#[test]
fn repeated_leading_chars_all_stripped() {
    assert_eq!(sanitize("!!hello"), "hello");
    assert_eq!(sanitize("?!.\"hello"), "hello");
}

#[test]
fn leading_strip_stops_at_first_kept_char() {
    // a space is not in the rejection set, so it shields what follows
    assert_eq!(sanitize("! hello"), " hello");
}

#[test]
fn genuine_leading_n_is_stripped_too() {
    assert_eq!(sanitize("no"), "o");
}

#[test]
fn all_rejected_input_becomes_empty() {
    assert_eq!(sanitize("!!!"), "");
}

#[test]
fn trailing_quote_stripped() {
    assert_eq!(sanitize("hello\""), "hello");
}

#[test]
fn trailing_quote_stripped_only_once() {
    assert_eq!(sanitize("hello\"\""), "hello\"");
}

#[test]
fn escaped_newline_unescaped() {
    assert_eq!(sanitize("line1\\nline2"), "line1\nline2");
}

#[test]
fn unescape_scans_left_to_right_without_overlap() {
    // a, backslash, backslash, n, b: the second backslash pairs with the n
    assert_eq!(sanitize("a\\\\nb"), "a\\\nb");
}

#[test]
fn unescape_applies_after_stripping() {
    // the trailing quote goes first, then the remaining \n is unescaped
    assert_eq!(sanitize("a\\nb\""), "a\nb");
}
