use rss_pipe::common::extract_content::{clean_str, extract_content, levenshtein_distance, similar};

#[test]
fn levenshtein_classic() {
    assert_eq!(levenshtein_distance("kitten", "sitting"), 3);
}

#[test]
fn levenshtein_empty_left() {
    assert_eq!(levenshtein_distance("", "abc"), 3);
}

#[test]
fn levenshtein_empty_right() {
    assert_eq!(levenshtein_distance("abc", ""), 3);
}

#[test]
fn levenshtein_equal() {
    assert_eq!(levenshtein_distance("abc", "abc"), 0);
}

#[test]
fn levenshtein_substitution_only() {
    assert_eq!(levenshtein_distance("flaw", "lawn"), 2);
}

#[test]
fn clean_str_blanks_punctuation_and_trims() {
    assert_eq!(clean_str("  Hello, World! "), "Hello  World");
}

#[test]
fn clean_str_empty() {
    assert_eq!(clean_str("!!!"), "");
}

#[test]
fn similar_identical_text() {
    assert!(similar("Example Title", "Example Title"));
}

#[test]
fn similar_title_inside_longer_text() {
    assert!(similar("Example Title", "prefix Example Title suffix"));
}

#[test]
fn similar_unrelated_text() {
    assert!(!similar("Example Title", "Completely unrelated text"));
}

#[test]
fn extract_redundant_title_is_not_prepended() {
    let out = extract_content("Example Title", "<p>Example Title</p>", 1000);
    assert_eq!(out, "Example Title");
}

#[test]
fn extract_unrelated_title_is_prepended() {
    let out = extract_content("Example Title", "<p>Completely unrelated text</p>", 1000);
    assert_eq!(out, "Example Title\r\nCompletely unrelated text");
}

#[test]
fn extract_truncates_to_limit_plus_marker() {
    let out = extract_content("t", "<p>abcdefghij</p>", 5);
    assert_eq!(out.chars().count(), 8);
    assert!(out.ends_with("..."));
    assert_eq!(out, "t\r\nab...");
}

#[test]
fn extract_never_exceeds_limit_plus_three() {
    let out = extract_content("a title", "<p>some body text that runs long</p>", 10);
    assert!(out.chars().count() <= 13);
}

#[test]
fn extract_moves_image_alt_text_in_front() {
    let out = extract_content("x", "<img alt='Cat photo'>", 100);
    assert!(out.contains("Cat photo"));
}

#[test]
fn extract_strips_markup() {
    let out = extract_content("hi", "<p>hello</p>", 100);
    assert!(!out.contains("<p>"));
    assert!(out.contains("hello"));
}

#[test]
fn extract_neutralizes_anchors() {
    let out = extract_content("t", "<a href=\"http://e.com\">linked words</a>", 100);
    assert!(!out.contains("http://e.com"));
    assert!(out.contains("linked words"));
}
