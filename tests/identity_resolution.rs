use logline_daemon::error::AuthError;
use logline_daemon::identity::{
    authorization_bearer_token, header_token, identity_whoami, require_admin_token,
    require_token, require_verified_jwt, resolve_auth_identity, AuthConfig, AuthIdentity,
    JwtClaims,
};
use logline_daemon::session::SessionStore;

const NOW: i64 = 1_700_000_000_000;

fn claims(sub: &str) -> JwtClaims {
    JwtClaims {
        subject: Some(sub.to_string()),
        issuer: None,
        audience: None,
        expires_at_unix: None,
        workspace_id: Some("w1".to_string()),
        app_id: None,
        email: None,
    }
}

fn config() -> AuthConfig {
    AuthConfig { bootstrap_token: Some("boot-secret".to_string()), jwt_enabled: true }
}

#[test]
fn custom_header_wins_over_bearer() {
    assert_eq!(header_token(Some("abc"), Some("Bearer xyz")), Some("abc".to_string()));
    assert_eq!(header_token(None, Some("Bearer xyz")), Some("xyz".to_string()));
    assert_eq!(header_token(None, Some("Basic xyz")), None);
    assert_eq!(header_token(None, None), None);
}

#[test]
fn bearer_token_is_trimmed_and_either_case() {
    assert_eq!(authorization_bearer_token(Some("  Bearer  tok ")), Some("tok".to_string()));
    assert_eq!(authorization_bearer_token(Some("bearer tok")), Some("tok".to_string()));
    assert_eq!(authorization_bearer_token(Some("Bearer    ")), None);
    assert_eq!(authorization_bearer_token(Some("Token tok")), None);
    assert_eq!(authorization_bearer_token(None), None);
}

#[test]
fn resolution_tries_bootstrap_then_session_then_jwt() {
    let cfg = config();
    let mut sessions = SessionStore::new();
    sessions.create("llt_s".to_string(), NOW, 3600, None).unwrap();
    assert!(matches!(
        resolve_auth_identity(&cfg, &mut sessions, "boot-secret", NOW, Some(claims("u1"))),
        Some(AuthIdentity::Bootstrap)
    ));
    assert!(matches!(
        resolve_auth_identity(&cfg, &mut sessions, "llt_s", NOW, None),
        Some(AuthIdentity::Session(_))
    ));
    match resolve_auth_identity(&cfg, &mut sessions, "eyJ.jwt", NOW, Some(claims("u1"))) {
        Some(AuthIdentity::Jwt(c)) => assert_eq!(c.subject.as_deref(), Some("u1")),
        _ => panic!("expected a JWT identity"),
    }
    assert!(resolve_auth_identity(&cfg, &mut sessions, "eyJ.jwt", NOW, None).is_none());
}

#[test]
fn jwt_outcome_ignored_when_jwt_is_off() {
    let cfg = AuthConfig { bootstrap_token: Some("b".to_string()), jwt_enabled: false };
    let mut sessions = SessionStore::new();
    assert!(resolve_auth_identity(&cfg, &mut sessions, "x", NOW, Some(claims("u1"))).is_none());
}

#[test]
fn revoked_session_no_longer_resolves() {
    let cfg = config();
    let mut sessions = SessionStore::new();
    sessions.create("llt_r".to_string(), NOW, 3600, None).unwrap();
    sessions.revoke("llt_r");
    assert!(resolve_auth_identity(&cfg, &mut sessions, "llt_r", NOW, None).is_none());
}

#[test]
fn protected_gate() {
    let cfg = config();
    let mut sessions = SessionStore::new();
    assert_eq!(require_token(&cfg, &mut sessions, None, NOW, None), Err(AuthError::MissingToken));
    assert_eq!(require_token(&cfg, &mut sessions, Some("nope"), NOW, None), Err(AuthError::InvalidToken));
    assert_eq!(require_token(&cfg, &mut sessions, Some("boot-secret"), NOW, None), Ok(()));
    let open = AuthConfig { bootstrap_token: None, jwt_enabled: false };
    assert_eq!(require_token(&open, &mut sessions, None, NOW, None), Ok(()));
}

#[test]
fn admin_gate() {
    let cfg = config();
    assert_eq!(require_admin_token(&cfg, Some("boot-secret")), Ok(()));
    assert_eq!(require_admin_token(&cfg, Some("other")), Err(AuthError::InvalidToken));
    assert_eq!(require_admin_token(&cfg, None), Err(AuthError::InvalidToken));
    let jwt_only = AuthConfig { bootstrap_token: None, jwt_enabled: true };
    assert_eq!(require_admin_token(&jwt_only, Some("x")), Err(AuthError::AdminTokenRequired));
    assert_eq!(AuthError::AdminTokenRequired.status_code(), 403);
    let open = AuthConfig { bootstrap_token: None, jwt_enabled: false };
    assert_eq!(require_admin_token(&open, None), Ok(()));
}

#[test]
fn unauthenticated_mode_must_be_asked_for() {
    assert!(AuthConfig::new(None, false, false).is_none());
    assert!(AuthConfig::new(None, false, true).is_some());
    assert!(AuthConfig::new(Some("t".to_string()), false, false).is_some());
}

#[test]
fn whoami_reports_prefix_and_kind() {
    let cfg = config();
    let mut sessions = SessionStore::new();
    let w = identity_whoami(&cfg, &mut sessions, Some("boot-secret"), NOW, None).unwrap();
    assert_eq!(w.token_prefix, "boot-secre");
    assert!(matches!(w.identity, AuthIdentity::Bootstrap));
    assert_eq!(
        identity_whoami(&cfg, &mut sessions, None, NOW, None).unwrap_err(),
        AuthError::MissingToken
    );
}

#[test]
fn jwt_only_routes() {
    let cfg = config();
    assert_eq!(require_verified_jwt(&cfg, None, Some(claims("u"))).unwrap_err(), AuthError::AuthorizationRequired);
    assert_eq!(require_verified_jwt(&cfg, Some("Bearer t"), None).unwrap_err(), AuthError::InvalidBearer);
    let (tok, c) = require_verified_jwt(&cfg, Some("Bearer t"), Some(claims("u"))).unwrap();
    assert_eq!(tok, "t");
    assert_eq!(c.subject.as_deref(), Some("u"));
    let off = AuthConfig { bootstrap_token: None, jwt_enabled: false };
    assert_eq!(require_verified_jwt(&off, Some("Bearer t"), Some(claims("u"))).unwrap_err(), AuthError::JwtNotConfigured);
}
