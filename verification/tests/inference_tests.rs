use gitmsg::budget::budget;
use gitmsg::inference::{
    classify_send_failure, finish_suggestion, prepare_request, InferenceError, OUTPUT_TOKEN_CAP,
};

#[test]
fn unreachable_service_is_a_connect_error_with_guidance() {
    let e = classify_send_failure(true, "connection refused".to_string());
    assert!(matches!(e, InferenceError::Connect));
    assert_eq!(
        e.message(),
        "Could not connect to Ollama at http://localhost:11434\n  \
         Make sure Ollama is running: ollama serve"
    );
}

#[test]
fn other_transport_failures_are_protocol_errors() {
    let e = classify_send_failure(false, "timed out".to_string());
    match &e {
        InferenceError::Protocol(detail) => assert_eq!(detail, "timed out"),
        InferenceError::Connect => panic!("wrong classification"),
    }
    assert_eq!(e.message(), "Request failed: timed out");
}

#[test]
fn suggestion_is_the_trimmed_generated_text() {
    let t = budget("a\nb\n", 100);
    let r = finish_suggestion("  feat: tidy output \n", &t);
    assert_eq!(r.message, "feat: tidy output");
    assert!(!r.truncated);
    assert_eq!(r.original_bytes, 4);
    assert_eq!(r.used_bytes, 4);
}

#[test]
fn suggestion_carries_the_truncation_report() {
    let diff = format!("{}\n{}", "a".repeat(50), "b".repeat(50));
    let t = budget(&diff, 20); // cap 60, newline at 50
    let r = finish_suggestion("msg", &t);
    assert!(r.truncated);
    assert_eq!(r.original_bytes, 101);
    assert_eq!(r.used_bytes, 50);
}

#[test]
fn prepare_request_budgets_and_labels_the_diff() {
    let (msgs, t) = prepare_request("instructions", "small diff\n", None, 2048);
    assert!(!t.was_truncated);
    assert_eq!(msgs.len(), 2);
    assert_eq!(msgs[0].role, "system");
    assert_eq!(msgs[0].content, b"instructions".to_vec());
    assert_eq!(msgs[1].role, "user");
    assert_eq!(msgs[1].content, b"Diff to analyze:\nsmall diff\n".to_vec());
}

#[test]
fn prepare_request_scopes_and_truncates() {
    let diff = format!("{}\nrest of the diff", "a".repeat(28));
    let (msgs, t) = prepare_request("sys", &diff, Some("parser"), 10); // cap 30
    assert!(t.was_truncated);
    assert_eq!(t.used_bytes, 28);
    let user = String::from_utf8(msgs[1].content.clone()).unwrap();
    assert!(user.starts_with("File being committed: parser\n"));
    assert!(user.ends_with(&format!("Diff to analyze:\n{}", "a".repeat(28))));
}

#[test]
fn output_cap_keeps_subjects_short() {
    assert_eq!(OUTPUT_TOKEN_CAP, 80);
}
