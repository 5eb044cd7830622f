use logline_daemon::error::AuthError;
use logline_daemon::identity::JwtClaims;
use logline_daemon::rbac::{
    resolve_access_context, AccessPermission, AppMembership, Directory, RbacConfig, ScopeHeaders,
    ScopeQuery, TenantMembership,
};

fn cfg(strict: bool) -> RbacConfig {
    RbacConfig {
        strict,
        compat: false,
        default_workspace_id: "default".to_string(),
        default_app_id: "ublx".to_string(),
        default_user_id: "local-dev".to_string(),
    }
}

fn no_headers() -> ScopeHeaders {
    ScopeHeaders { authorization: None, token: None, user_id: None, workspace_id: None, app_id: None }
}

fn bearer() -> ScopeHeaders {
    ScopeHeaders { authorization: Some("Bearer jwt".to_string()), ..no_headers() }
}

fn claims(sub: &str, ws: Option<&str>, app: Option<&str>) -> Option<JwtClaims> {
    Some(JwtClaims {
        subject: Some(sub.to_string()),
        issuer: None,
        audience: None,
        expires_at_unix: None,
        workspace_id: ws.map(|s| s.to_string()),
        app_id: app.map(|s| s.to_string()),
        email: None,
    })
}

fn directory() -> Directory {
    let mut dir = Directory::new();
    for (user, role) in [("member-user", "member"), ("admin-user", "app_admin")] {
        dir.add_tenant_membership(TenantMembership {
            tenant_id: "w1".to_string(),
            user_id: user.to_string(),
            role: "member".to_string(),
        });
        dir.add_app_membership(AppMembership {
            app_id: "a1".to_string(),
            tenant_id: "w1".to_string(),
            user_id: user.to_string(),
            role: role.to_string(),
        });
    }
    dir
}

const ALL: [AccessPermission; 3] = [AccessPermission::Read, AccessPermission::Write, AccessPermission::PrivateRead];

#[test]
fn member_is_forbidden_above_read_and_admin_passes_all() {
    let mut dir = directory();
    for p in ALL {
        let r = resolve_access_context(&mut dir, &cfg(true), &bearer(), None, p, None, claims("member-user", Some("w1"), Some("a1")));
        match p {
            AccessPermission::Read => {
                let ctx = r.unwrap();
                assert_eq!(ctx.role, "member");
                assert_eq!(ctx.workspace_id, "w1");
                assert_eq!(ctx.tenant_id, "w1");
                assert_eq!(ctx.app_id, "a1");
                assert_eq!(ctx.user_id, "member-user");
            }
            AccessPermission::Write => assert_eq!(r.unwrap_err(), AuthError::MembersCannotWrite),
            AccessPermission::PrivateRead => assert_eq!(r.unwrap_err(), AuthError::PrivateDataAdminOnly),
        }
        let r = resolve_access_context(&mut dir, &cfg(true), &bearer(), None, p, None, claims("admin-user", Some("w1"), Some("a1")));
        assert_eq!(r.unwrap().role, "app_admin");
    }
    assert_eq!(AuthError::MembersCannotWrite.status_code(), 403);
}

#[test]
fn membership_checks() {
    let mut dir = directory();
    let r = resolve_access_context(&mut dir, &cfg(true), &bearer(), None, AccessPermission::Read, None, claims("stranger", Some("w1"), Some("a1")));
    assert_eq!(r.unwrap_err(), AuthError::NoTenantMembership);
    let r = resolve_access_context(&mut dir, &cfg(true), &bearer(), None, AccessPermission::Read, None, claims("member-user", Some("w2"), Some("a1")));
    assert_eq!(r.unwrap_err(), AuthError::NotTenantMember);
    let r = resolve_access_context(&mut dir, &cfg(true), &bearer(), None, AccessPermission::Read, None, claims("member-user", Some("w1"), Some("a2")));
    assert_eq!(r.unwrap_err(), AuthError::NotAppMember);
}

#[test]
fn path_app_must_match() {
    let mut dir = directory();
    let r = resolve_access_context(&mut dir, &cfg(true), &bearer(), None, AccessPermission::Read, Some("a9"), claims("admin-user", Some("w1"), Some("a1")));
    assert_eq!(r.unwrap_err(), AuthError::AppScopeMismatch);
    let r = resolve_access_context(&mut dir, &cfg(true), &bearer(), None, AccessPermission::Read, Some("a1"), claims("admin-user", Some("w1"), Some("a1")));
    assert!(r.is_ok());
}

#[test]
fn strict_mode_needs_a_bearer_and_a_valid_one() {
    let mut dir = directory();
    let r = resolve_access_context(&mut dir, &cfg(true), &no_headers(), None, AccessPermission::Read, None, None);
    assert_eq!(r.unwrap_err(), AuthError::BearerRequired);
    let r = resolve_access_context(&mut dir, &cfg(true), &bearer(), None, AccessPermission::Read, None, None);
    assert_eq!(r.unwrap_err(), AuthError::InvalidBearer);
}

#[test]
fn hints_come_from_headers_then_query() {
    let mut dir = directory();
    let headers = ScopeHeaders {
        user_id: Some(" admin-user ".to_string()),
        workspace_id: Some("w1".to_string()),
        ..no_headers()
    };
    let query = ScopeQuery { workspace_id: Some("ignored".to_string()), app_id: Some("a1".to_string()), user_id: None };
    let ctx = resolve_access_context(&mut dir, &cfg(false), &headers, Some(&query), AccessPermission::Write, None, None).unwrap();
    assert_eq!(ctx.user_id, "admin-user");
    assert_eq!(ctx.workspace_id, "w1");
    assert_eq!(ctx.app_id, "a1");
}

#[test]
fn jwt_claims_replace_default_scope_only() {
    let mut dir = directory();
    let headers = ScopeHeaders { workspace_id: Some("w1".to_string()), ..bearer() };
    let ctx = resolve_access_context(&mut dir, &cfg(true), &headers, None, AccessPermission::Read, None, claims("admin-user", Some("w2"), Some("a1"))).unwrap();
    assert_eq!(ctx.workspace_id, "w1");
    assert_eq!(ctx.app_id, "a1");
}

#[test]
fn default_user_is_bootstrapped_outside_strict_mode() {
    let mut dir = Directory::new();
    let ctx = resolve_access_context(&mut dir, &cfg(false), &no_headers(), None, AccessPermission::PrivateRead, None, None).unwrap();
    assert_eq!(ctx.user_id, "local-dev");
    assert_eq!(ctx.workspace_id, "default");
    assert_eq!(ctx.app_id, "ublx");
    assert_eq!(ctx.role, "app_admin");
    let mut dir = Directory::new();
    let headers = ScopeHeaders { user_id: Some("local-dev".to_string()), ..bearer() };
    let strict = resolve_access_context(&mut dir, &cfg(true), &headers, None, AccessPermission::Read, None, claims("local-dev", None, None));
    assert_eq!(strict.unwrap_err(), AuthError::NoTenantMembership);
}
