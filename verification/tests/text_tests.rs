use gitmsg::text::{split_lines, trim_str};

#[test]
fn trim_removes_surrounding_whitespace() {
    assert_eq!(trim_str(" \n feat: add parser \t\n"), "feat: add parser");
    assert_eq!(trim_str("no-change"), "no-change");
    assert_eq!(trim_str(""), "");
    assert_eq!(trim_str(" \t\r\n"), "");
}

#[test]
fn trim_keeps_inner_whitespace() {
    assert_eq!(trim_str("  a b  c  "), "a b  c");
}

#[test]
fn trim_handles_unicode_whitespace() {
    assert_eq!(trim_str("\u{a0}msg\u{3000}"), "msg");
}

#[test]
fn split_lines_on_plain_listing() {
    assert_eq!(split_lines("a.rs\nb.rs\n"), vec!["a.rs", "b.rs"]);
    assert_eq!(split_lines("a.rs\nb.rs"), vec!["a.rs", "b.rs"]);
}

#[test]
fn split_lines_handles_crlf() {
    assert_eq!(split_lines("a\r\nb\r\n"), vec!["a", "b"]);
}

#[test]
fn split_lines_of_empty_listing() {
    assert_eq!(split_lines(""), Vec::<String>::new());
}

#[test]
fn split_lines_keeps_empty_middle_lines() {
    assert_eq!(split_lines("a\n\nb\n"), vec!["a", "", "b"]);
}
