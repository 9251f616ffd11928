use web_gateway::text::{
    characters, contains_text, decimal_text, joined, joined3, same_text, segment_after_last_slash,
    stands_before, text_of,
};

#[test]
fn decimal_of_zero() {
    assert_eq!(decimal_text(0), "0");
    assert_eq!(decimal_text(1204), "1204");
    assert_eq!(decimal_text(4294967295), "4294967295");
}

#[test]
fn text_order_is_that_of_the_standard_library() {
    let samples = ["", "a", "ab", "b", "B", "a/b", "a.b", "\u{e9}", "z", "\u{1f600}"];
    for x in samples {
        for y in samples {
            assert_eq!(stands_before(x, y), x < y, "{} {}", x, y);
        }
    }
}

#[test]
fn text_is_found_where_it_occurs() {
    assert!(contains_text("HTTP 401 returned", "401"));
    assert!(contains_text("401", "401"));
    assert!(contains_text("x401", "401"));
    assert!(contains_text("anything", ""));
    assert!(!contains_text("40", "401"));
    assert!(!contains_text("4 01", "401"));
    assert!(!contains_text("unauthorized", "Unauthorized"));
}

#[test]
fn last_segment_stands_behind_the_last_slash() {
    assert_eq!(segment_after_last_slash("a/b/c.md"), "c.md");
    assert_eq!(segment_after_last_slash("c.md"), "c.md");
    assert_eq!(segment_after_last_slash("a/"), "");
    assert_eq!(segment_after_last_slash(""), "");
}

#[test]
fn texts_are_taken_apart_and_joined() {
    assert_eq!(characters("a\u{e9}"), vec!['a', '\u{e9}']);
    assert_eq!(text_of(&vec!['x', 'y']), "xy");
    assert_eq!(joined("a", "b"), "ab");
    assert_eq!(joined3("a", "", "c"), "ac");
    assert!(same_text("running", "running"));
    assert!(!same_text("running", "Running"));
}
