use denpie_frontend::toast::{looks_like_error, split_toast_parts};

#[test]
fn splits_multiline_error_into_summary_and_detail() {
    let (summary, detail) = split_toast_parts("Failed to save\nHTTP 500 body here");
    assert_eq!(summary, "Failed to save");
    assert_eq!(detail.as_deref(), Some("HTTP 500 body here"));
}

#[test]
fn long_single_line_becomes_truncated_summary() {
    let long = "x".repeat(200);
    let (summary, detail) = split_toast_parts(&long);
    assert!(summary.ends_with('…'));
    assert!(summary.chars().count() <= 121);
    assert_eq!(detail.as_deref(), Some(long.as_str()));
}

#[test]
fn detects_errorish_messages() {
    assert!(looks_like_error("Failed to parse settings response"));
    assert!(looks_like_error("LLM Error: HTTP 401"));
    assert!(!looks_like_error("Profile refreshed"));
}
