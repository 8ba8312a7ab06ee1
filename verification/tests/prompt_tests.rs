use gitmsg::prompt::{build_messages, build_user_content};

#[test]
fn unscoped_content_is_the_labeled_diff() {
    let out = build_user_content(None, b"diff body");
    assert_eq!(out, b"Diff to analyze:\ndiff body".to_vec());
}

#[test]
fn scoped_content_opens_with_the_directive() {
    let out = build_user_content(Some("main"), b"DIFF");
    let expected = format!(
        "File being committed: main\n\
         The scope in your commit message MUST be exactly \"main\" \
         - do not use the path or extension from the diff header.\n\n\
         Diff to analyze:\nDIFF"
    );
    assert_eq!(out, expected.into_bytes());
}

#[test]
fn scope_name_appears_verbatim_twice() {
    let out = build_user_content(Some("my_mod"), b"x");
    let text = String::from_utf8(out).unwrap();
    assert_eq!(text.matches("my_mod").count(), 2);
    assert!(text.starts_with("File being committed: my_mod\n"));
    assert!(text.contains("MUST be exactly \"my_mod\""));
}

#[test]
fn unscoped_content_has_no_directive() {
    let out = build_user_content(None, b"some diff");
    let text = String::from_utf8(out).unwrap();
    assert!(!text.contains("File being committed:"));
    assert!(!text.contains("MUST be exactly"));
}

#[test]
fn messages_are_system_instructions_and_user_diff() {
    let msgs = build_messages("follow the rules", b"the diff", None);
    assert_eq!(msgs.len(), 2);
    assert_eq!(msgs[0].role, "system");
    assert_eq!(msgs[0].content, b"follow the rules".to_vec());
    assert_eq!(msgs[1].role, "user");
    assert_eq!(msgs[1].content, b"Diff to analyze:\nthe diff".to_vec());
}

#[test]
fn scoped_messages_carry_the_directive_in_the_user_entry() {
    let msgs = build_messages("sys", b"d", Some("lib"));
    assert_eq!(msgs.len(), 2);
    let user = String::from_utf8(msgs[1].content.clone()).unwrap();
    assert!(user.starts_with("File being committed: lib\n"));
    assert!(user.ends_with("Diff to analyze:\nd"));
}
