use logline_daemon::error::AuthError;
use logline_daemon::identity::JwtClaims;
use logline_daemon::rbac::{
    resolve_app_access_context, to_i32, whoami_profile, AppMembership, Capability, Directory,
    RbacConfig, ScopeHeaders, TenantMembership, UserRecord,
};

fn cfg(compat: bool) -> RbacConfig {
    RbacConfig {
        strict: false,
        compat,
        default_workspace_id: "default".to_string(),
        default_app_id: "ublx".to_string(),
        default_user_id: "local-dev".to_string(),
    }
}

fn headers() -> ScopeHeaders {
    ScopeHeaders { authorization: None, token: None, user_id: None, workspace_id: None, app_id: None }
}

fn populated() -> Directory {
    let mut dir = Directory::new();
    dir.add_user(UserRecord { user_id: "u1".to_string(), email: Some("u1@example.com".to_string()), display_name: None });
    dir.add_tenant_membership(TenantMembership { tenant_id: "w1".to_string(), user_id: "u1".to_string(), role: "admin".to_string() });
    dir.add_tenant_membership(TenantMembership { tenant_id: "w1".to_string(), user_id: "u2".to_string(), role: "member".to_string() });
    dir.add_app_membership(AppMembership { app_id: "a1".to_string(), tenant_id: "w1".to_string(), user_id: "u1".to_string(), role: "app_admin".to_string() });
    dir.grant_capability(Capability { user_id: "u1".to_string(), capability: "founder".to_string() });
    dir
}

#[test]
fn whoami_profile_lists_what_the_user_belongs_to() {
    let dir = populated();
    let h = ScopeHeaders { user_id: Some("u1".to_string()), ..headers() };
    let p = whoami_profile(&dir, &cfg(false), &h, None).unwrap();
    assert_eq!(p.user.email.as_deref(), Some("u1@example.com"));
    assert_eq!(p.tenant_memberships.len(), 1);
    assert_eq!(p.tenant_memberships[0].role, "admin");
    assert_eq!(p.app_memberships.len(), 1);
    assert_eq!(p.capabilities.len(), 1);
    assert_eq!(p.capabilities[0].capability, "founder");
}

#[test]
fn whoami_profile_prefers_the_jwt_subject() {
    let dir = populated();
    let h = ScopeHeaders { authorization: Some("Bearer x".to_string()), user_id: Some("u2".to_string()), ..headers() };
    let claims = JwtClaims {
        subject: Some("u1".to_string()),
        issuer: None,
        audience: None,
        expires_at_unix: None,
        workspace_id: None,
        app_id: None,
        email: None,
    };
    assert_eq!(whoami_profile(&dir, &cfg(false), &h, Some(claims)).unwrap().user.user_id, "u1");
    assert_eq!(whoami_profile(&dir, &cfg(false), &h, None).unwrap_err(), AuthError::InvalidBearer);
    assert_eq!(whoami_profile(&dir, &cfg(true), &h, None).unwrap_err(), AuthError::UserNotFound);
}

#[test]
fn whoami_profile_errors() {
    let dir = populated();
    assert_eq!(whoami_profile(&dir, &cfg(false), &headers(), None).unwrap_err(), AuthError::NoCredential);
    assert_eq!(AuthError::NoCredential.status_code(), 401);
    let h = ScopeHeaders { token: Some("ghost".to_string()), ..headers() };
    assert_eq!(whoami_profile(&dir, &cfg(false), &h, None).unwrap_err(), AuthError::UserNotFound);
    assert_eq!(AuthError::UserNotFound.status_code(), 404);
}

#[test]
fn bootstrap_registers_the_local_user() {
    let mut dir = Directory::new();
    let ctx = resolve_app_access_context(&mut dir, &cfg(false), &headers(), "ublx", None).unwrap();
    assert_eq!(ctx.app_id, "ublx");
    let h = ScopeHeaders { user_id: Some("local-dev".to_string()), ..headers() };
    let p = whoami_profile(&dir, &cfg(false), &h, None).unwrap();
    assert_eq!(p.user.display_name.as_deref(), Some("Local Dev"));
    assert_eq!(p.app_memberships[0].role, "app_admin");
    assert_eq!(
        resolve_app_access_context(&mut dir, &cfg(false), &headers(), "other", None).unwrap_err(),
        AuthError::AppScopeMismatch
    );
}

#[test]
fn numeric_fields_narrow_to_32_bits() {
    assert_eq!(to_i32(None), Ok(None));
    assert_eq!(to_i32(Some(-5)), Ok(Some(-5)));
    assert_eq!(to_i32(Some(2_147_483_647)), Ok(Some(i32::MAX)));
    assert_eq!(to_i32(Some(2_147_483_648)), Err(AuthError::InvalidBody));
    assert_eq!(to_i32(Some(-2_147_483_649)), Err(AuthError::InvalidBody));
}
