use logline_daemon::cli::{parse_env_value, parse_key_val, poll_step, resolve_v1_urls, PollStep};
use logline_daemon::error::{AuthError, ErrorKind};
use logline_daemon::text::{pick_non_empty, query_field, token_prefix, trim};

#[test]
fn trimming() {
    assert_eq!(trim("  a b \t\n"), "a b");
    assert_eq!(trim("\u{3000}x\u{a0}"), "x");
    assert_eq!(trim("   "), "");
    assert_eq!(trim(""), "");
}

#[test]
fn small_helpers() {
    assert_eq!(token_prefix("abcdefghijklmnop"), "abcdefghij");
    assert_eq!(token_prefix("abc"), "abc");
    assert_eq!(pick_non_empty("  a ", "b"), "a");
    assert_eq!(pick_non_empty("   ", " b "), "b");
    assert_eq!(query_field(Some(&" x ".to_string())), Some("x".to_string()));
    assert_eq!(query_field(Some(&"  ".to_string())), None);
    assert_eq!(query_field(None), None);
}

#[test]
fn v1_urls() {
    assert_eq!(
        resolve_v1_urls("https://h.example/", "/auth/whoami"),
        vec!["https://h.example/api/v1/auth/whoami".to_string(), "https://h.example/v1/auth/whoami".to_string()]
    );
    assert_eq!(resolve_v1_urls("https://h.example/api//", "x"), vec!["https://h.example/api/v1/x".to_string()]);
}

#[test]
fn key_val_arguments() {
    assert_eq!(parse_key_val("a=b=c"), Ok(("a".to_string(), "b=c".to_string())));
    assert_eq!(parse_key_val("=v"), Ok(("".to_string(), "v".to_string())));
    assert_eq!(parse_key_val("novalue"), Err("must be KEY=VALUE".to_string()));
}

#[test]
fn env_values() {
    let content = "# comment\n\nOTHER=1\nSUPABASE_ACCESS_TOKEN = \"tok en\" \r\nSUPABASE_ACCESS_TOKEN=second\n";
    assert_eq!(parse_env_value(content, "SUPABASE_ACCESS_TOKEN"), Some("tok en".to_string()));
    assert_eq!(parse_env_value("K=''\nK='v'", "K"), Some("v".to_string()));
    assert_eq!(parse_env_value("K=\"\nK=v", "K"), Some("v".to_string()));
    assert_eq!(parse_env_value("garbage line\nK=v", "K"), None);
    assert_eq!(parse_env_value("K=v", "X"), None);
    assert_eq!(parse_env_value("", "K"), None);
}

#[test]
fn poll_steps() {
    assert!(matches!(poll_step("approved", Some("t".to_string())), PollStep::LoggedIn(t) if t == "t"));
    assert!(matches!(poll_step("approved", None), PollStep::MissingToken));
    assert!(matches!(poll_step("denied", None), PollStep::Denied));
    assert!(matches!(poll_step("expired", None), PollStep::Expired));
    assert!(matches!(poll_step("pending", None), PollStep::Wait));
    assert!(matches!(poll_step("weird", None), PollStep::Unexpected));
}

#[test]
fn error_statuses() {
    assert_eq!(AuthError::InvalidBody.status_code(), 400);
    assert_eq!(AuthError::MissingToken.status_code(), 401);
    assert_eq!(AuthError::ChallengeNotFound.status_code(), 404);
    assert_eq!(AuthError::IntentExpired.status_code(), 410);
    assert_eq!(AuthError::SignatureInvalid.kind(), ErrorKind::UnprocessableEntity);
    assert_eq!(ErrorKind::ServiceUnavailable.status_code(), 503);
    assert_eq!(ErrorKind::Internal.status_code(), 500);
}
