use htmlproc::text::{chars_of, contains, list_contains, same_text, starts_with};

#[test]
fn chars_of_keeps_every_character_in_order() {
    assert_eq!(chars_of("a<é>"), vec!['a', '<', 'é', '>']);
    assert_eq!(chars_of(""), Vec::<char>::new());
}

#[test]
fn contains_finds_a_literal_tag() {
    assert!(contains("<html><body></body></html>", "<body>"));
    assert!(contains("x<body>", "<body>"));
    assert!(!contains("<div>text</div>", "<body>"));
    assert!(!contains("<body class=\"x\">", "<body>"));
}

#[test]
fn contains_handles_the_edges() {
    assert!(contains("abc", ""));
    assert!(contains("", ""));
    assert!(!contains("", "a"));
    assert!(!contains("ab", "abc"));
    assert!(contains("abc", "abc"));
    assert!(contains("aab", "ab"));
    assert!(contains("a/b//c", "//"));
    assert!(!contains("a/b/c", "//"));
}

#[test]
fn contains_counts_characters_not_bytes() {
    assert!(contains("é<body>", "<body>"));
    assert!(contains("日本語", "本"));
    assert!(!contains("日本語", "本日"));
}

#[test]
fn starts_with_compares_the_head() {
    assert!(starts_with("*.class", "*."));
    assert!(!starts_with("span.class", "*."));
    assert!(!starts_with("*", "*."));
    assert!(starts_with("/x", "/"));
    assert!(!starts_with("", "/"));
    assert!(starts_with("", ""));
}

#[test]
fn same_text_is_equality() {
    assert!(same_text("span", "span"));
    assert!(!same_text("span", "spam"));
    assert!(!same_text("span", "spans"));
    assert!(!same_text("spans", "span"));
    assert!(same_text("", ""));
}

#[test]
fn list_contains_looks_at_every_item() {
    assert!(list_contains(&["span", "p"], "p"));
    assert!(list_contains(&["span", "p"], "span"));
    assert!(!list_contains(&["span", "p"], "div"));
    assert!(!list_contains(&[], "div"));
}
