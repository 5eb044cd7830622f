use logline_daemon::error::AuthError;
use logline_daemon::identity::{AuthConfig, JwtClaims};
use logline_daemon::onboarding::{onboard_claim, tenant_resolve};
use logline_daemon::rbac::{
    whoami_profile, AllowlistEntry, AppDefault, AppRecord, Directory, RbacConfig, ScopeHeaders,
    TenantRecord,
};

const NOW: i64 = 1_700_000_000_000;
const BEARER: Option<&str> = Some("Bearer jwt");

fn cfg() -> AuthConfig {
    AuthConfig { bootstrap_token: None, jwt_enabled: true }
}

fn claims(sub: &str, email: Option<&str>) -> Option<JwtClaims> {
    Some(JwtClaims {
        subject: Some(sub.to_string()),
        issuer: None,
        audience: None,
        expires_at_unix: None,
        workspace_id: None,
        app_id: None,
        email: email.map(|e| e.to_string()),
    })
}

fn dir() -> Directory {
    let mut d = Directory::new();
    d.add_tenant(TenantRecord { tenant_id: "t-open".to_string(), name: "Open".to_string(), slug: "open".to_string() });
    d.add_tenant(TenantRecord { tenant_id: "t-closed".to_string(), name: "Closed".to_string(), slug: "closed".to_string() });
    d.add_app(AppRecord { app_id: "a1".to_string(), tenant_id: "t-closed".to_string() });
    d.add_allowlist_entry(AllowlistEntry {
        tenant_id: "t-closed".to_string(),
        email_normalized: "ada@example.com".to_string(),
        role_default: "admin".to_string(),
        app_defaults: vec![
            AppDefault { app_id: Some(" a1 ".to_string()), role: Some(" app_admin ".to_string()) },
            AppDefault { app_id: Some("missing".to_string()), role: None },
            AppDefault { app_id: Some("  ".to_string()), role: None },
        ],
        expires_at_ms: None,
    });
    d.add_allowlist_entry(AllowlistEntry {
        tenant_id: "t-closed".to_string(),
        email_normalized: "old@example.com".to_string(),
        role_default: "member".to_string(),
        app_defaults: vec![],
        expires_at_ms: Some(NOW - 1),
    });
    d
}

#[test]
fn tenants_resolve_by_trimmed_slug() {
    let d = dir();
    let info = tenant_resolve(&d, Some(" closed ")).unwrap();
    assert_eq!(info.tenant_id, "t-closed");
    assert_eq!(info.name, "Closed");
    assert!(info.has_allowlist);
    assert!(!tenant_resolve(&d, Some("open")).unwrap().has_allowlist);
    assert_eq!(tenant_resolve(&d, Some("nope")).unwrap_err(), AuthError::TenantNotFound);
    assert_eq!(tenant_resolve(&d, Some("  ")).unwrap_err(), AuthError::SlugRequired);
    assert_eq!(tenant_resolve(&d, None).unwrap_err(), AuthError::SlugRequired);
    assert_eq!(AuthError::SlugRequired.status_code(), 400);
}

#[test]
fn open_tenant_makes_a_member() {
    let mut d = dir();
    let out = onboard_claim(&mut d, &cfg(), Some("open"), Some("  "), BEARER, claims("u1", Some("x@y.z")), NOW).unwrap();
    assert_eq!(out.user_id, "u1");
    assert_eq!(out.tenant_id, "t-open");
    assert_eq!(out.tenant_role, "member");
    assert_eq!(out.app_defaults, 0);
    let h = ScopeHeaders { authorization: None, token: None, user_id: Some("u1".to_string()), workspace_id: None, app_id: None };
    let rc = RbacConfig {
        strict: false,
        compat: false,
        default_workspace_id: "default".to_string(),
        default_app_id: "ublx".to_string(),
        default_user_id: "local-dev".to_string(),
    };
    let p = whoami_profile(&d, &rc, &h, None).unwrap();
    assert_eq!(p.user.display_name.as_deref(), Some("x@y.z"));
    assert_eq!(p.tenant_memberships.len(), 1);
}

#[test]
fn allowlisted_email_gets_its_roles() {
    let mut d = dir();
    let out = onboard_claim(&mut d, &cfg(), Some("closed"), Some(" Ada "), BEARER, claims("u2", Some(" ADA@Example.com ")), NOW).unwrap();
    assert_eq!(out.tenant_role, "admin");
    assert_eq!(out.app_defaults, 3);
    let again = onboard_claim(&mut d, &cfg(), Some("closed"), None, BEARER, claims("u2", Some("ada@example.com")), NOW).unwrap();
    assert_eq!(again.tenant_role, "admin");
    let h = ScopeHeaders { authorization: None, token: None, user_id: Some("u2".to_string()), workspace_id: None, app_id: None };
    let rc = RbacConfig {
        strict: false,
        compat: false,
        default_workspace_id: "default".to_string(),
        default_app_id: "ublx".to_string(),
        default_user_id: "local-dev".to_string(),
    };
    let p = whoami_profile(&d, &rc, &h, None).unwrap();
    assert_eq!(p.user.display_name.as_deref(), Some("Ada"));
    assert_eq!(p.tenant_memberships.len(), 1);
    assert_eq!(p.app_memberships.len(), 1);
    assert_eq!(p.app_memberships[0].app_id, "a1");
    assert_eq!(p.app_memberships[0].role, "app_admin");
}

#[test]
fn allowlist_refusals() {
    let mut d = dir();
    assert_eq!(
        onboard_claim(&mut d, &cfg(), Some("closed"), None, BEARER, claims("u3", None), NOW).unwrap_err(),
        AuthError::EmailRequired
    );
    assert_eq!(
        onboard_claim(&mut d, &cfg(), Some("closed"), None, BEARER, claims("u3", Some("eve@example.com")), NOW).unwrap_err(),
        AuthError::NotOnAllowlist
    );
    assert_eq!(
        onboard_claim(&mut d, &cfg(), Some("closed"), None, BEARER, claims("u3", Some("old@example.com")), NOW).unwrap_err(),
        AuthError::NotOnAllowlist
    );
    assert_eq!(AuthError::NotOnAllowlist.status_code(), 403);
}

#[test]
fn onboarding_needs_slug_and_jwt() {
    let mut d = dir();
    assert_eq!(
        onboard_claim(&mut d, &cfg(), Some(" "), None, BEARER, claims("u", None), NOW).unwrap_err(),
        AuthError::TenantSlugRequired
    );
    assert_eq!(
        onboard_claim(&mut d, &cfg(), Some("open"), None, None, claims("u", None), NOW).unwrap_err(),
        AuthError::AuthorizationRequired
    );
    assert_eq!(
        onboard_claim(&mut d, &cfg(), Some("open"), None, BEARER, None, NOW).unwrap_err(),
        AuthError::InvalidBearer
    );
    assert_eq!(
        onboard_claim(&mut d, &cfg(), Some("nowhere"), None, BEARER, claims("u", None), NOW).unwrap_err(),
        AuthError::TenantNotFound
    );
    let off = AuthConfig { bootstrap_token: Some("b".to_string()), jwt_enabled: false };
    assert_eq!(
        onboard_claim(&mut d, &off, Some("open"), None, BEARER, claims("u", None), NOW).unwrap_err(),
        AuthError::JwtNotConfigured
    );
}
