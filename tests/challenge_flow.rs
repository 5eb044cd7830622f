use logline_daemon::challenge::{
    cli_auth_challenge_approve, create_cli_auth_challenge, normalize_device_name,
    parse_approval_action, ApprovalAction, Approver, ChallengeBook, ChallengeStatus,
    CliAuthChallenge,
};
use logline_daemon::error::AuthError;
use logline_daemon::identity::{AuthConfig, JwtClaims};

const NOW: i64 = 1_700_000_000_000;

fn jwt(sub: &str, ws: &str) -> JwtClaims {
    JwtClaims {
        subject: Some(sub.to_string()),
        issuer: None,
        audience: None,
        expires_at_unix: None,
        workspace_id: Some(ws.to_string()),
        app_id: None,
        email: None,
    }
}

fn cfg() -> AuthConfig {
    AuthConfig { bootstrap_token: None, jwt_enabled: true }
}

#[test]
fn pairing_end_to_end() {
    let mut book = ChallengeBook::new();
    let created =
        create_cli_auth_challenge(&mut book, Some("laptop"), "http://app.example/", NOW).unwrap();
    assert_eq!(created.nonce.len(), 32);
    assert!(created.nonce.chars().all(|c| c.is_ascii_hexdigit()));
    assert_eq!(created.expires_at_ms, NOW + 300_000);
    assert_eq!(
        created.challenge_url,
        format!(
            "http://app.example/cli-login?challenge={}&nonce={}",
            created.challenge_id, created.nonce
        )
    );
    let stored = book.get(&created.challenge_id).unwrap();
    assert_eq!(stored.device_name.as_deref(), Some("laptop"));

    let polled = book.status(&created.challenge_id, NOW + 1_000).unwrap();
    assert_eq!(polled.status, ChallengeStatus::Pending);
    assert!(polled.session_token.is_none());

    let r = cli_auth_challenge_approve(
        &mut book,
        &cfg(),
        &created.challenge_id,
        "approve",
        Some("Bearer approver-jwt"),
        Some(jwt("u1", "w1")),
        NOW + 2_000,
    );
    assert_eq!(r, Ok(ChallengeStatus::Approved));

    let polled = book.status(&created.challenge_id, NOW + 3_000).unwrap();
    assert_eq!(polled.status, ChallengeStatus::Approved);
    assert_eq!(polled.session_token.as_deref(), Some("approver-jwt"));
    assert_eq!(polled.user_id.as_deref(), Some("u1"));
    assert_eq!(polled.tenant_id.as_deref(), Some("w1"));
    assert_eq!(polled.approved_at_ms, Some(NOW + 2_000));
}

#[test]
fn second_decision_is_a_conflict() {
    let mut book = ChallengeBook::new();
    let c = create_cli_auth_challenge(&mut book, None, "http://x", NOW).unwrap();
    let first = cli_auth_challenge_approve(
        &mut book, &cfg(), &c.challenge_id, "deny", Some("Bearer t"), Some(jwt("u1", "w1")), NOW,
    );
    assert_eq!(first, Ok(ChallengeStatus::Denied));
    let second = cli_auth_challenge_approve(
        &mut book, &cfg(), &c.challenge_id, "approve", Some("Bearer t"), Some(jwt("u2", "w1")), NOW,
    );
    assert_eq!(second, Err(AuthError::ChallengeAlready(ChallengeStatus::Denied)));
    assert_eq!(second.unwrap_err().status_code(), 409);
    assert_eq!(
        AuthError::ChallengeAlready(ChallengeStatus::Denied).message(),
        "Challenge is already denied"
    );
    let polled = book.status(&c.challenge_id, NOW).unwrap();
    assert_eq!(polled.status, ChallengeStatus::Denied);
    assert!(polled.user_id.is_none());
}

#[test]
fn pending_challenge_expires_on_read() {
    let mut book = ChallengeBook::new();
    let c = create_cli_auth_challenge(&mut book, None, "http://x", NOW).unwrap();
    let at_deadline = book.status(&c.challenge_id, NOW + 300_000).unwrap();
    assert_eq!(at_deadline.status, ChallengeStatus::Pending);
    let late = book.status(&c.challenge_id, NOW + 300_001).unwrap();
    assert_eq!(late.status, ChallengeStatus::Expired);
    assert!(late.expires_at_ms.is_none());
    assert_eq!(book.get(&c.challenge_id).unwrap().status, ChallengeStatus::Expired);
    let again = book.status(&c.challenge_id, NOW + 300_002).unwrap();
    assert_eq!(again.status, ChallengeStatus::Expired);
    assert_eq!(again.expires_at_ms, Some(NOW + 300_000));
}

#[test]
fn approving_a_lapsed_challenge_is_gone() {
    let mut book = ChallengeBook::new();
    let c = create_cli_auth_challenge(&mut book, None, "http://x", NOW).unwrap();
    let r = cli_auth_challenge_approve(
        &mut book, &cfg(), &c.challenge_id, "approve", Some("Bearer t"), Some(jwt("u1", "w1")), NOW + 400_000,
    );
    assert_eq!(r, Err(AuthError::ChallengeExpired));
    assert_eq!(r.unwrap_err().status_code(), 410);
    assert_eq!(book.get(&c.challenge_id).unwrap().status, ChallengeStatus::Expired);
    let r = cli_auth_challenge_approve(
        &mut book, &cfg(), &c.challenge_id, "approve", Some("Bearer t"), Some(jwt("u1", "w1")), NOW,
    );
    assert_eq!(r, Err(AuthError::ChallengeAlready(ChallengeStatus::Expired)));
}

#[test]
fn approval_errors() {
    let mut book = ChallengeBook::new();
    let c = create_cli_auth_challenge(&mut book, None, "http://x", NOW).unwrap();
    let bad_action = cli_auth_challenge_approve(
        &mut book, &cfg(), &c.challenge_id, "maybe", Some("Bearer t"), Some(jwt("u1", "w1")), NOW,
    );
    assert_eq!(bad_action, Err(AuthError::InvalidBody));
    let unknown = cli_auth_challenge_approve(
        &mut book, &cfg(), "nope", "approve", Some("Bearer t"), Some(jwt("u1", "w1")), NOW,
    );
    assert_eq!(unknown, Err(AuthError::ChallengeNotFound));
    let no_jwt = cli_auth_challenge_approve(
        &mut book, &cfg(), &c.challenge_id, "approve", None, None, NOW,
    );
    assert_eq!(no_jwt, Err(AuthError::AuthorizationRequired));
    let mut anonymous = jwt("u1", "w1");
    anonymous.subject = None;
    let no_sub = cli_auth_challenge_approve(
        &mut book, &cfg(), &c.challenge_id, "approve", Some("Bearer t"), Some(anonymous), NOW,
    );
    assert_eq!(no_sub, Err(AuthError::MissingSubject));
    assert_eq!(book.get(&c.challenge_id).unwrap().status, ChallengeStatus::Pending);
}

#[test]
fn device_names() {
    assert_eq!(normalize_device_name(Some("  my box ")), Ok(Some("my box".to_string())));
    assert_eq!(normalize_device_name(Some("   ")), Ok(None));
    assert_eq!(normalize_device_name(None), Ok(None));
    let long = "x".repeat(129);
    assert_eq!(normalize_device_name(Some(&long)), Err(AuthError::InvalidBody));
    let edge = "é".repeat(128);
    assert_eq!(normalize_device_name(Some(&edge)), Ok(Some(edge.clone())));
    let mut book = ChallengeBook::new();
    assert!(matches!(
        create_cli_auth_challenge(&mut book, Some(&long), "http://x", NOW),
        Err(AuthError::InvalidBody)
    ));
}

#[test]
fn actions() {
    assert_eq!(parse_approval_action(" approve "), Ok(ApprovalAction::Approve));
    assert_eq!(parse_approval_action("deny"), Ok(ApprovalAction::Deny));
    assert_eq!(parse_approval_action("Approve"), Err(AuthError::InvalidBody));
}

#[test]
fn record_level_decision() {
    let mut c = CliAuthChallenge::new("c1".to_string(), "n".to_string(), None, NOW);
    let approver = Approver { user_id: "u".to_string(), workspace_id: None, token: "tok".to_string() };
    assert_eq!(c.decide(ApprovalAction::Approve, approver.clone(), NOW), Ok(ChallengeStatus::Approved));
    assert_eq!(c.session_token.as_deref(), Some("tok"));
    assert_eq!(
        c.decide(ApprovalAction::Deny, approver, NOW),
        Err(AuthError::ChallengeAlready(ChallengeStatus::Approved))
    );
}
