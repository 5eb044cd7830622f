//! The RBAC scope resolver.
//!
//! From the caller's identity and the scope hints of a request it derives the
//! (workspace, app, user) the request acts in, checks the caller's tenant and
//! app memberships there, and enforces three permission tiers: `Read` for
//! any app member, `Write` and `PrivateRead` for app admins only.

use vstd::prelude::*;

use crate::error::AuthError;
use crate::onboarding::{
    admits, app_in_tenant, is_admission, is_tenant_with_slug, no_admission, no_tenant_with_slug,
    tenant_has_allowlist,
};
use crate::identity::{authorization_bearer_token, jwt_check, opt_bearer, require_subject, require_verified_jwt, AuthConfig, JwtClaims};
use crate::text::{copy_opt, header_value, non_blank, text_eq, view_opt};

verus! {

/// A user's role in a tenant.
#[derive(Clone, Debug)]
pub struct TenantMembership {
    pub tenant_id: String,
    pub user_id: String,
    pub role: String,
}

/// A user's role in an app of a tenant.
#[derive(Clone, Debug)]
pub struct AppMembership {
    pub app_id: String,
    pub tenant_id: String,
    pub user_id: String,
    pub role: String,
}

/// A capability granted to a user, such as `founder`.
#[derive(Clone, Debug)]
pub struct Capability {
    pub user_id: String,
    pub capability: String,
}

/// A tenant (workspace).
#[derive(Clone, Debug)]
pub struct TenantRecord {
    pub tenant_id: String,
    pub name: String,
    pub slug: String,
}

/// An app of a tenant.
#[derive(Clone, Debug)]
pub struct AppRecord {
    pub app_id: String,
    pub tenant_id: String,
}

/// An app membership that joining through the allowlist grants.
#[derive(Clone, Debug)]
pub struct AppDefault {
    pub app_id: Option<String>,
    pub role: Option<String>,
}

/// An email admitted to a tenant, with the roles it joins with.
#[derive(Clone, Debug)]
pub struct AllowlistEntry {
    pub tenant_id: String,
    /// Lower case, trimmed.
    pub email_normalized: String,
    pub role_default: String,
    pub app_defaults: Vec<AppDefault>,
    pub expires_at_ms: Option<i64>,
}

/// A known user.
#[derive(Clone, Debug)]
pub struct UserRecord {
    pub user_id: String,
    pub email: Option<String>,
    pub display_name: Option<String>,
}

/// Who a user is and what they belong to, as `whoami` reports it.
#[derive(Clone, Debug)]
pub struct UserProfile {
    pub user: UserRecord,
    pub tenant_memberships: Vec<TenantMembership>,
    pub app_memberships: Vec<AppMembership>,
    pub capabilities: Vec<Capability>,
}

/// The permission tier a route demands.
#[derive(Clone, Copy, Debug, PartialEq, Eq, Structural)]
pub enum AccessPermission {
    Read,
    Write,
    PrivateRead,
}

/// How scopes are resolved: strict mode demands a bearer JWT and turns the
/// local-development bootstrap off; compat mode ignores bearer JWTs.
#[derive(Clone, Debug)]
pub struct RbacConfig {
    pub strict: bool,
    pub compat: bool,
    pub default_workspace_id: String,
    pub default_app_id: String,
    pub default_user_id: String,
}

/// The scope hints a request carries in headers; each as received.
#[derive(Clone, Debug)]
pub struct ScopeHeaders {
    pub authorization: Option<String>,
    pub token: Option<String>,
    pub user_id: Option<String>,
    pub workspace_id: Option<String>,
    pub app_id: Option<String>,
}

/// The scope hints a request carries in its query string.
#[derive(Clone, Debug)]
pub struct ScopeQuery {
    pub workspace_id: Option<String>,
    pub app_id: Option<String>,
    pub user_id: Option<String>,
}

/// Where a request may act, and with which app role.
#[derive(Clone, Debug)]
pub struct AppAccessContext {
    pub workspace_id: String,
    pub tenant_id: String,
    pub app_id: String,
    pub user_id: String,
    pub role: String,
}

pub open spec fn app_admin_role() -> Seq<char> {
    seq!['a', 'p', 'p', '_', 'a', 'd', 'm', 'i', 'n']
}

pub open spec fn founder_capability() -> Seq<char> {
    seq!['f', 'o', 'u', 'n', 'd', 'e', 'r']
}

pub open spec fn admin_role() -> Seq<char> {
    seq!['a', 'd', 'm', 'i', 'n']
}

pub open spec fn or_else(a: Option<Seq<char>>, b: Option<Seq<char>>) -> Option<Seq<char>> {
    match a {
        Some(x) => Some(x),
        None => b,
    }
}

pub open spec fn hint(o: Option<String>) -> Option<Seq<char>> {
    match o {
        Some(s) => non_blank(s@),
        None => None,
    }
}

pub open spec fn query_hint(scope: Option<ScopeQuery>, pick: spec_fn(ScopeQuery) -> Option<String>) -> Option<Seq<char>> {
    match scope {
        Some(q) => hint(pick(q)),
        None => None,
    }
}

/// What a bearer JWT claims for the scope: subject, workspace and app; or
/// nothing where there is no bearer token or compat mode ignores it.
pub open spec fn claimed_scope(
    cfg: RbacConfig,
    authorization: Option<Seq<char>>,
    verified: Option<JwtClaims>,
) -> Result<Option<(Seq<char>, Option<Seq<char>>, Option<Seq<char>>)>, AuthError> {
    if cfg.compat {
        Ok(None)
    } else {
        match opt_bearer(authorization) {
            Some(_) => match verified {
                None => Err(AuthError::InvalidBearer),
                Some(c) => match c.subject {
                    None => Err(AuthError::MissingSubject),
                    Some(s) => Ok(Some((s@, view_opt(c.workspace_id), view_opt(c.app_id)))),
                },
            },
            None => if cfg.strict {
                Err(AuthError::BearerRequired)
            } else {
                Ok(None)
            },
        }
    }
}

/// A hint that equals the default yields to the JWT's claim.
pub open spec fn with_claim(value: Seq<char>, default: Seq<char>, claim: Option<Seq<char>>) -> Seq<char> {
    match claim {
        Some(c) => if value == default {
            c
        } else {
            value
        },
        None => value,
    }
}

/// The (user, workspace, app) a request acts in, or why it is refused.
pub open spec fn resolved_scope(
    cfg: RbacConfig,
    headers: ScopeHeaders,
    scope: Option<ScopeQuery>,
    verified: Option<JwtClaims>,
    app_id_path: Option<Seq<char>>,
) -> Result<(Seq<char>, Seq<char>, Seq<char>), AuthError> {
    match claimed_scope(cfg, view_opt(headers.authorization), verified) {
        Err(e) => Err(e),
        Ok(claimed) => {
            let jwt_user = match claimed {
                Some((u, _, _)) => Some(u),
                None => None,
            };
            let jwt_ws = match claimed {
                Some((_, w, _)) => w,
                None => None,
            };
            let jwt_app = match claimed {
                Some((_, _, a)) => a,
                None => None,
            };
            let user = or_else(
                jwt_user,
                or_else(
                    hint(headers.user_id),
                    or_else(query_hint(scope, |q: ScopeQuery| q.user_id), hint(headers.token)),
                ),
            );
            let user = match user {
                Some(u) => u,
                None => cfg.default_user_id@,
            };
            let ws = match or_else(hint(headers.workspace_id), query_hint(scope, |q: ScopeQuery| q.workspace_id)) {
                Some(w) => w,
                None => cfg.default_workspace_id@,
            };
            let app = match or_else(hint(headers.app_id), query_hint(scope, |q: ScopeQuery| q.app_id)) {
                Some(a) => a,
                None => cfg.default_app_id@,
            };
            let ws = with_claim(ws, cfg.default_workspace_id@, jwt_ws);
            let app = with_claim(app, cfg.default_app_id@, jwt_app);
            match app_id_path {
                Some(p) => if app != p {
                    Err(AuthError::AppScopeMismatch)
                } else {
                    Ok((user, ws, app))
                },
                None => Ok((user, ws, app)),
            }
        },
    }
}

pub open spec fn in_tenant(m: TenantMembership, tenant: Seq<char>, user: Seq<char>) -> bool {
    m.tenant_id@ == tenant && m.user_id@ == user
}

pub open spec fn in_app(m: AppMembership, app: Seq<char>, tenant: Seq<char>, user: Seq<char>) -> bool {
    m.app_id@ == app && m.tenant_id@ == tenant && m.user_id@ == user
}

pub open spec fn has_any_tenant(tm: Seq<TenantMembership>, user: Seq<char>) -> bool {
    exists|i: int| 0 <= i < tm.len() && (#[trigger] tm[i]).user_id@ == user
}

pub open spec fn has_tenant(tm: Seq<TenantMembership>, tenant: Seq<char>, user: Seq<char>) -> bool {
    exists|i: int| 0 <= i < tm.len() && in_tenant(#[trigger] tm[i], tenant, user)
}

/// `i` is the first membership of `user` in `app` of `tenant`.
pub open spec fn is_app_membership(am: Seq<AppMembership>, app: Seq<char>, tenant: Seq<char>, user: Seq<char>, i: int) -> bool {
    &&& 0 <= i < am.len()
    &&& in_app(am[i], app, tenant, user)
    &&& forall|k: int| 0 <= k < i ==> !in_app(#[trigger] am[k], app, tenant, user)
}

pub open spec fn has_app(am: Seq<AppMembership>, app: Seq<char>, tenant: Seq<char>, user: Seq<char>) -> bool {
    exists|i: int| 0 <= i < am.len() && in_app(#[trigger] am[i], app, tenant, user)
}

/// The app role that `user` holds in `app` of `tenant`, where a membership
/// exists: that of the first such membership.
pub open spec fn app_role(am: Seq<AppMembership>, app: Seq<char>, tenant: Seq<char>, user: Seq<char>) -> Seq<char> {
    am[choose|i: int| is_app_membership(am, app, tenant, user, i)].role@
}

/// The membership checks and the permission tier, on the directory as it is
/// after any bootstrap: the app role where access is granted.
pub open spec fn access_decision(
    tm: Seq<TenantMembership>,
    am: Seq<AppMembership>,
    user: Seq<char>,
    tenant: Seq<char>,
    app: Seq<char>,
    permission: AccessPermission,
) -> Result<Seq<char>, AuthError> {
    if !has_any_tenant(tm, user) {
        Err(AuthError::NoTenantMembership)
    } else if !has_tenant(tm, tenant, user) {
        Err(AuthError::NotTenantMember)
    } else if !has_app(am, app, tenant, user) {
        Err(AuthError::NotAppMember)
    } else {
        let role = app_role(am, app, tenant, user);
        if permission != AccessPermission::Read && role != app_admin_role() {
            if permission == AccessPermission::PrivateRead {
                Err(AuthError::PrivateDataAdminOnly)
            } else {
                Err(AuthError::MembersCannotWrite)
            }
        } else {
            Ok(role)
        }
    }
}

pub open spec fn has_capability(caps: Seq<Capability>, user: Seq<char>, capability: Seq<char>) -> bool {
    exists|i: int| 0 <= i < caps.len() && (#[trigger] caps[i]).user_id@ == user && caps[i].capability@ == capability
}

/// The founder a request acts for, or why it is refused.
pub open spec fn founder_check(
    config: AuthConfig,
    authorization: Option<Seq<char>>,
    verified: Option<JwtClaims>,
    caps: Seq<Capability>,
) -> Result<Seq<char>, AuthError> {
    match jwt_check(config, authorization, verified) {
        Err(e) => Err(e),
        Ok((_, c)) => match c.subject {
            None => Err(AuthError::MissingSubject),
            Some(s) => if has_capability(caps, s@, founder_capability()) {
                Ok(s@)
            } else {
                Err(AuthError::FounderRequired)
            },
        },
    }
}

proof fn lemma_app_membership_unique(am: Seq<AppMembership>, app: Seq<char>, tenant: Seq<char>, user: Seq<char>, i: int, j: int)
    requires
        is_app_membership(am, app, tenant, user, i),
        is_app_membership(am, app, tenant, user, j),
    ensures
        i == j,
{
    if i < j {
        assert(!in_app(am[i], app, tenant, user));
    } else if j < i {
        assert(!in_app(am[j], app, tenant, user));
    }
}

/// Where access is decided on a membership with role `role`: an app admin
/// passes every tier; any other role passes `Read` only, and is refused as
/// forbidden on `Write` and `PrivateRead`.
pub proof fn lemma_permission_tiers(
    tm: Seq<TenantMembership>,
    am: Seq<AppMembership>,
    user: Seq<char>,
    tenant: Seq<char>,
    app: Seq<char>,
    i: int,
    permission: AccessPermission,
)
    requires
        has_tenant(tm, tenant, user),
        is_app_membership(am, app, tenant, user, i),
    ensures
        am[i].role@ == app_admin_role() ==> access_decision(tm, am, user, tenant, app, permission)
            == Ok::<Seq<char>, AuthError>(app_admin_role()),
        am[i].role@ != app_admin_role() ==> (permission == AccessPermission::Read <==> access_decision(
            tm,
            am,
            user,
            tenant,
            app,
            permission,
        ) is Ok),
        am[i].role@ != app_admin_role() && permission != AccessPermission::Read ==> (access_decision(
            tm,
            am,
            user,
            tenant,
            app,
            permission,
        ) matches Err(e) && crate::error::error_kind(e) == crate::error::ErrorKind::Forbidden),
{
    let k = choose|k: int| 0 <= k < tm.len() && in_tenant(#[trigger] tm[k], tenant, user);
    assert(tm[k].user_id@ == user);
    assert(has_any_tenant(tm, user));
    assert(in_app(am[i], app, tenant, user));
    assert(has_app(am, app, tenant, user));
    let j = choose|j: int| is_app_membership(am, app, tenant, user, j);
    lemma_app_membership_unique(am, app, tenant, user, i, j);
}

pub open spec fn local_dev_name() -> Seq<char> {
    seq!['L', 'o', 'c', 'a', 'l', ' ', 'D', 'e', 'v']
}

pub open spec fn has_tenant_record(tenants: Seq<TenantRecord>, tenant: Seq<char>) -> bool {
    exists|i: int| 0 <= i < tenants.len() && (#[trigger] tenants[i]).tenant_id@ == tenant
}

pub open spec fn has_app_record(apps: Seq<AppRecord>, app: Seq<char>) -> bool {
    exists|i: int| 0 <= i < apps.len() && (#[trigger] apps[i]).app_id@ == app
}

/// The registries after the local-development bootstrap: the tenant (its id
/// also its slug and name) and the app (its id also its name) are added
/// where missing.
pub open spec fn registries_bootstrapped(
    tenants: Seq<TenantRecord>,
    tenants_after: Seq<TenantRecord>,
    apps: Seq<AppRecord>,
    apps_after: Seq<AppRecord>,
    tenant: Seq<char>,
    app: Seq<char>,
) -> bool {
    &&& if has_tenant_record(tenants, tenant) {
        tenants_after == tenants
    } else {
        &&& tenants_after.len() == tenants.len() + 1
        &&& tenants_after.drop_last() == tenants
        &&& tenants_after.last().tenant_id@ == tenant
        &&& tenants_after.last().slug@ == tenant
        &&& tenants_after.last().name@ == tenant
    }
    &&& if has_app_record(apps, app) {
        apps_after == apps
    } else {
        &&& apps_after.len() == apps.len() + 1
        &&& apps_after.drop_last() == apps
        &&& apps_after.last().app_id@ == app
        &&& apps_after.last().tenant_id@ == tenant
    }
}

pub open spec fn has_user(users: Seq<UserRecord>, user: Seq<char>) -> bool {
    exists|i: int| 0 <= i < users.len() && (#[trigger] users[i]).user_id@ == user
}

/// `i` is the first record of `user`.
pub open spec fn is_user_record(users: Seq<UserRecord>, user: Seq<char>, i: int) -> bool {
    &&& 0 <= i < users.len()
    &&& users[i].user_id@ == user
    &&& forall|k: int| 0 <= k < i ==> (#[trigger] users[k]).user_id@ != user
}

/// The directory after the local-development bootstrap for `user` in `app`
/// of `tenant`: the user, a tenant membership as `admin` and an app
/// membership as `app_admin` are added where missing; nothing else changes.
pub open spec fn bootstrapped(
    users: Seq<UserRecord>,
    users_after: Seq<UserRecord>,
    tm: Seq<TenantMembership>,
    am: Seq<AppMembership>,
    tm_after: Seq<TenantMembership>,
    am_after: Seq<AppMembership>,
    tenant: Seq<char>,
    app: Seq<char>,
    user: Seq<char>,
) -> bool {
    &&& if has_user(users, user) {
        users_after == users
    } else {
        &&& users_after.len() == users.len() + 1
        &&& users_after.drop_last() == users
        &&& users_after.last().user_id@ == user
        &&& users_after.last().email is None
        &&& view_opt(users_after.last().display_name) == Some(local_dev_name())
    }
    &&& if has_tenant(tm, tenant, user) {
        tm_after == tm
    } else {
        &&& tm_after.len() == tm.len() + 1
        &&& tm_after.drop_last() == tm
        &&& in_tenant(tm_after.last(), tenant, user)
        &&& tm_after.last().role@ == admin_role()
    }
    &&& if has_app(am, app, tenant, user) {
        am_after == am
    } else {
        &&& am_after.len() == am.len() + 1
        &&& am_after.drop_last() == am
        &&& in_app(am_after.last(), app, tenant, user)
        &&& am_after.last().role@ == app_admin_role()
    }
}

/// Tenant memberships, app memberships and capabilities of users.
pub struct Directory {
    tenants: Vec<TenantRecord>,
    apps: Vec<AppRecord>,
    allowlist: Vec<AllowlistEntry>,
    users: Vec<UserRecord>,
    tenant_memberships: Vec<TenantMembership>,
    app_memberships: Vec<AppMembership>,
    capabilities: Vec<Capability>,
}

impl Directory {
    pub closed spec fn tenants(&self) -> Seq<TenantRecord> {
        self.tenants@
    }

    pub closed spec fn apps(&self) -> Seq<AppRecord> {
        self.apps@
    }

    pub closed spec fn allowlist(&self) -> Seq<AllowlistEntry> {
        self.allowlist@
    }

    pub closed spec fn users(&self) -> Seq<UserRecord> {
        self.users@
    }

    pub closed spec fn tenant_memberships(&self) -> Seq<TenantMembership> {
        self.tenant_memberships@
    }

    pub closed spec fn app_memberships(&self) -> Seq<AppMembership> {
        self.app_memberships@
    }

    pub closed spec fn capabilities(&self) -> Seq<Capability> {
        self.capabilities@
    }

    pub fn new() -> (r: Self)
        ensures
            r.tenants() == Seq::<TenantRecord>::empty(),
            r.apps() == Seq::<AppRecord>::empty(),
            r.allowlist() == Seq::<AllowlistEntry>::empty(),
            r.users() == Seq::<UserRecord>::empty(),
            r.tenant_memberships() == Seq::<TenantMembership>::empty(),
            r.app_memberships() == Seq::<AppMembership>::empty(),
            r.capabilities() == Seq::<Capability>::empty(),
    {
        Directory {
            tenants: Vec::new(),
            apps: Vec::new(),
            allowlist: Vec::new(),
            users: Vec::new(),
            tenant_memberships: Vec::new(),
            app_memberships: Vec::new(),
            capabilities: Vec::new(),
        }
    }

    /// Records a tenant.
    pub fn add_tenant(&mut self, t: TenantRecord)
        ensures
            final(self).tenants() == old(self).tenants().push(t),
            final(self).apps() == old(self).apps(),
            final(self).allowlist() == old(self).allowlist(),
            final(self).users() == old(self).users(),
            final(self).tenant_memberships() == old(self).tenant_memberships(),
            final(self).app_memberships() == old(self).app_memberships(),
            final(self).capabilities() == old(self).capabilities(),
    {
        self.tenants.push(t);
    }

    /// Records an app.
    pub fn add_app(&mut self, a: AppRecord)
        ensures
            final(self).tenants() == old(self).tenants(),
            final(self).apps() == old(self).apps().push(a),
            final(self).allowlist() == old(self).allowlist(),
            final(self).users() == old(self).users(),
            final(self).tenant_memberships() == old(self).tenant_memberships(),
            final(self).app_memberships() == old(self).app_memberships(),
            final(self).capabilities() == old(self).capabilities(),
    {
        self.apps.push(a);
    }

    /// Admits an email to a tenant.
    pub fn add_allowlist_entry(&mut self, e: AllowlistEntry)
        ensures
            final(self).tenants() == old(self).tenants(),
            final(self).apps() == old(self).apps(),
            final(self).allowlist() == old(self).allowlist().push(e),
            final(self).users() == old(self).users(),
            final(self).tenant_memberships() == old(self).tenant_memberships(),
            final(self).app_memberships() == old(self).app_memberships(),
            final(self).capabilities() == old(self).capabilities(),
    {
        self.allowlist.push(e);
    }

    /// Records a user.
    pub fn add_user(&mut self, u: UserRecord)
        ensures
            final(self).tenants() == old(self).tenants(),
            final(self).apps() == old(self).apps(),
            final(self).allowlist() == old(self).allowlist(),
            final(self).users() == old(self).users().push(u),
            final(self).tenant_memberships() == old(self).tenant_memberships(),
            final(self).app_memberships() == old(self).app_memberships(),
            final(self).capabilities() == old(self).capabilities(),
    {
        self.users.push(u);
    }

    /// Records a tenant membership.
    pub fn add_tenant_membership(&mut self, m: TenantMembership)
        ensures
            final(self).tenants() == old(self).tenants(),
            final(self).apps() == old(self).apps(),
            final(self).allowlist() == old(self).allowlist(),
            final(self).users() == old(self).users(),
            final(self).tenant_memberships() == old(self).tenant_memberships().push(m),
            final(self).app_memberships() == old(self).app_memberships(),
            final(self).capabilities() == old(self).capabilities(),
    {
        self.tenant_memberships.push(m);
    }

    /// Records an app membership.
    pub fn add_app_membership(&mut self, m: AppMembership)
        ensures
            final(self).tenants() == old(self).tenants(),
            final(self).apps() == old(self).apps(),
            final(self).allowlist() == old(self).allowlist(),
            final(self).users() == old(self).users(),
            final(self).tenant_memberships() == old(self).tenant_memberships(),
            final(self).app_memberships() == old(self).app_memberships().push(m),
            final(self).capabilities() == old(self).capabilities(),
    {
        self.app_memberships.push(m);
    }

    /// Grants a capability.
    pub fn grant_capability(&mut self, c: Capability)
        ensures
            final(self).tenants() == old(self).tenants(),
            final(self).apps() == old(self).apps(),
            final(self).allowlist() == old(self).allowlist(),
            final(self).users() == old(self).users(),
            final(self).tenant_memberships() == old(self).tenant_memberships(),
            final(self).app_memberships() == old(self).app_memberships(),
            final(self).capabilities() == old(self).capabilities().push(c),
    {
        self.capabilities.push(c);
    }

    /// Whether `user` holds `capability`.
    pub fn user_has_capability(&self, user: &str, capability: &str) -> (r: bool)
        ensures
            r == has_capability(self.capabilities(), user@, capability@),
    {
        let mut i: usize = 0;
        while i < self.capabilities.len()
            invariant
                i <= self.capabilities@.len(),
                forall|k: int|
                    0 <= k < i ==> !((#[trigger] self.capabilities@[k]).user_id@ == user@
                        && self.capabilities@[k].capability@ == capability@),
            decreases self.capabilities@.len() - i,
        {
            let c = &self.capabilities[i];
            if text_eq(c.user_id.as_str(), user) && text_eq(c.capability.as_str(), capability) {
                return true;
            }
            i = i + 1;
        }
        false
    }

    fn tenant_known(&self, tenant: &str) -> (r: bool)
        ensures
            r == has_tenant_record(self.tenants(), tenant@),
    {
        let mut i: usize = 0;
        while i < self.tenants.len()
            invariant
                i <= self.tenants@.len(),
                forall|k: int| 0 <= k < i ==> (#[trigger] self.tenants@[k]).tenant_id@ != tenant@,
            decreases self.tenants@.len() - i,
        {
            if text_eq(self.tenants[i].tenant_id.as_str(), tenant) {
                return true;
            }
            i = i + 1;
        }
        false
    }

    fn app_known(&self, app: &str) -> (r: bool)
        ensures
            r == has_app_record(self.apps(), app@),
    {
        let mut i: usize = 0;
        while i < self.apps.len()
            invariant
                i <= self.apps@.len(),
                forall|k: int| 0 <= k < i ==> (#[trigger] self.apps@[k]).app_id@ != app@,
            decreases self.apps@.len() - i,
        {
            if text_eq(self.apps[i].app_id.as_str(), app) {
                return true;
            }
            i = i + 1;
        }
        false
    }

    pub(crate) fn find_user(&self, user: &str) -> (r: Option<usize>)
        ensures
            r matches Some(i) ==> is_user_record(self.users(), user@, i as int),
            r is None ==> !has_user(self.users(), user@),
    {
        let mut i: usize = 0;
        while i < self.users.len()
            invariant
                i <= self.users@.len(),
                forall|k: int| 0 <= k < i ==> (#[trigger] self.users@[k]).user_id@ != user@,
            decreases self.users@.len() - i,
        {
            if text_eq(self.users[i].user_id.as_str(), user) {
                return Some(i);
            }
            i = i + 1;
        }
        None
    }

    fn any_tenant(&self, user: &str) -> (r: bool)
        ensures
            r == has_any_tenant(self.tenant_memberships(), user@),
    {
        let mut i: usize = 0;
        while i < self.tenant_memberships.len()
            invariant
                i <= self.tenant_memberships@.len(),
                forall|k: int| 0 <= k < i ==> (#[trigger] self.tenant_memberships@[k]).user_id@ != user@,
            decreases self.tenant_memberships@.len() - i,
        {
            if text_eq(self.tenant_memberships[i].user_id.as_str(), user) {
                return true;
            }
            i = i + 1;
        }
        false
    }

    pub(crate) fn tenant_member(&self, tenant: &str, user: &str) -> (r: bool)
        ensures
            r == has_tenant(self.tenant_memberships(), tenant@, user@),
    {
        let mut i: usize = 0;
        while i < self.tenant_memberships.len()
            invariant
                i <= self.tenant_memberships@.len(),
                forall|k: int| 0 <= k < i ==> !in_tenant(#[trigger] self.tenant_memberships@[k], tenant@, user@),
            decreases self.tenant_memberships@.len() - i,
        {
            let m = &self.tenant_memberships[i];
            if text_eq(m.tenant_id.as_str(), tenant) && text_eq(m.user_id.as_str(), user) {
                return true;
            }
            i = i + 1;
        }
        false
    }

    pub(crate) fn app_membership(&self, app: &str, tenant: &str, user: &str) -> (r: Option<usize>)
        ensures
            r matches Some(i) ==> is_app_membership(self.app_memberships(), app@, tenant@, user@, i as int),
            r is None ==> !has_app(self.app_memberships(), app@, tenant@, user@),
    {
        let mut i: usize = 0;
        while i < self.app_memberships.len()
            invariant
                i <= self.app_memberships@.len(),
                forall|k: int| 0 <= k < i ==> !in_app(#[trigger] self.app_memberships@[k], app@, tenant@, user@),
            decreases self.app_memberships@.len() - i,
        {
            let m = &self.app_memberships[i];
            if text_eq(m.app_id.as_str(), app) && text_eq(m.tenant_id.as_str(), tenant) && text_eq(
                m.user_id.as_str(),
                user,
            ) {
                return Some(i);
            }
            i = i + 1;
        }
        None
    }

    /// Makes `user` an admin of `tenant` and of `app` in it, where not a
    /// member already: the local-development convenience.
    pub fn ensure_local_dev_bootstrap(&mut self, tenant: &str, app: &str, user: &str)
        ensures
            final(self).capabilities() == old(self).capabilities(),
            final(self).allowlist() == old(self).allowlist(),
            registries_bootstrapped(
                old(self).tenants(),
                final(self).tenants(),
                old(self).apps(),
                final(self).apps(),
                tenant@,
                app@,
            ),
            bootstrapped(
                old(self).users(),
                final(self).users(),
                old(self).tenant_memberships(),
                old(self).app_memberships(),
                final(self).tenant_memberships(),
                final(self).app_memberships(),
                tenant@,
                app@,
                user@,
            ),
    {
        if !self.tenant_known(tenant) {
            self.tenants.push(
                TenantRecord { tenant_id: tenant.to_owned(), name: tenant.to_owned(), slug: tenant.to_owned() },
            );
            proof {
                assert(self.tenants@.drop_last() =~= old(self).tenants@);
            }
        }
        if !self.app_known(app) {
            self.apps.push(AppRecord { app_id: app.to_owned(), tenant_id: tenant.to_owned() });
            proof {
                assert(self.apps@.drop_last() =~= old(self).apps@);
            }
        }
        if self.find_user(user).is_none() {
            proof {
                reveal_strlit("Local Dev");
                assert("Local Dev"@ =~= local_dev_name());
            }
            self.users.push(
                UserRecord {
                    user_id: user.to_owned(),
                    email: None,
                    display_name: Some(String::from_str("Local Dev")),
                },
            );
            proof {
                assert(self.users@.drop_last() =~= old(self).users@);
            }
        }
        proof {
            reveal_strlit("admin");
            reveal_strlit("app_admin");
            assert("admin"@ =~= admin_role());
            assert("app_admin"@ =~= app_admin_role());
        }
        if !self.tenant_member(tenant, user) {
            self.tenant_memberships.push(
                TenantMembership {
                    tenant_id: tenant.to_owned(),
                    user_id: user.to_owned(),
                    role: String::from_str("admin"),
                },
            );
            proof {
                assert(self.tenant_memberships@.drop_last() =~= old(self).tenant_memberships@);
            }
        }
        if self.app_membership(app, tenant, user).is_none() {
            self.app_memberships.push(
                AppMembership {
                    app_id: app.to_owned(),
                    tenant_id: tenant.to_owned(),
                    user_id: user.to_owned(),
                    role: String::from_str("app_admin"),
                },
            );
            proof {
                assert(self.app_memberships@.drop_last() =~= old(self).app_memberships@);
            }
        }
    }

    /// The role of `user` in `app` of `tenant` where `permission` is
    /// granted, or why it is not.
    pub fn check_access(&self, user: &str, tenant: &str, app: &str, permission: AccessPermission) -> (r: Result<String, AuthError>)
        ensures
            match access_decision(self.tenant_memberships(), self.app_memberships(), user@, tenant@, app@, permission) {
                Ok(role) => r matches Ok(x) && x@ == role,
                Err(e) => r == Err::<String, AuthError>(e),
            },
    {
        if !self.any_tenant(user) {
            return Err(AuthError::NoTenantMembership);
        }
        if !self.tenant_member(tenant, user) {
            return Err(AuthError::NotTenantMember);
        }
        let i = match self.app_membership(app, tenant, user) {
            Some(i) => i,
            None => return Err(AuthError::NotAppMember),
        };
        proof {
            let j = choose|j: int| is_app_membership(self.app_memberships(), app@, tenant@, user@, j);
            lemma_app_membership_unique(self.app_memberships(), app@, tenant@, user@, i as int, j);
            reveal_strlit("app_admin");
            assert("app_admin"@ =~= app_admin_role());
        }
        let role = self.app_memberships[i].role.clone();
        if permission != AccessPermission::Read && !text_eq(role.as_str(), "app_admin") {
            if permission == AccessPermission::PrivateRead {
                return Err(AuthError::PrivateDataAdminOnly);
            } else {
                return Err(AuthError::MembersCannotWrite);
            }
        }
        Ok(role)
    }
}

/// The founder a request acts for: a verified bearer JWT whose subject holds
/// the `founder` capability; `verified` is the outcome of verifying the
/// bearer token of `authorization`.
pub fn require_founder_user(
    dir: &Directory,
    config: &AuthConfig,
    authorization: Option<&str>,
    verified: Option<JwtClaims>,
) -> (r: Result<String, AuthError>)
    ensures
        match founder_check(*config, crate::text::view_opt_str(authorization), verified, dir.capabilities()) {
            Ok(u) => r matches Ok(x) && x@ == u,
            Err(e) => r == Err::<String, AuthError>(e),
        },
{
    let (_token, claims) = match require_verified_jwt(config, authorization, verified) {
        Ok(p) => p,
        Err(e) => return Err(e),
    };
    let user = match require_subject(&claims) {
        Ok(u) => u,
        Err(e) => return Err(e),
    };
    proof {
        reveal_strlit("founder");
        assert("founder"@ =~= founder_capability());
    }
    if dir.user_has_capability(user.as_str(), "founder") {
        Ok(user)
    } else {
        Err(AuthError::FounderRequired)
    }
}

fn hint_value(o: &Option<String>) -> (r: Option<String>)
    ensures
        view_opt(r) == hint(*o),
{
    match o {
        Some(s) => header_value(Some(s.as_str())),
        None => None,
    }
}

fn first_of(a: Option<String>, b: Option<String>) -> (r: Option<String>)
    ensures
        view_opt(r) == or_else(view_opt(a), view_opt(b)),
{
    match a {
        Some(x) => Some(x),
        None => b,
    }
}

fn prefer_claim(value: String, default: &String, claim: Option<String>) -> (r: String)
    ensures
        r@ == with_claim(value@, default@, view_opt(claim)),
{
    match claim {
        Some(c) => if value == *default {
            c
        } else {
            value
        },
        None => value,
    }
}

/// Resolves the (workspace, app, user) of a request and checks the caller's
/// access there at `permission`. The user comes from the bearer JWT's
/// subject, else the `x-user-id` header, the query, the token header, or
/// the default; workspace and app from headers, the query, the JWT's claims,
/// or the defaults. An app id in the path must match. Outside strict mode
/// the default user is first bootstrapped as admin. `verified` is the outcome
/// of verifying the bearer token.
#[verifier::rlimit(50)]
pub fn resolve_access_context(
    dir: &mut Directory,
    cfg: &RbacConfig,
    headers: &ScopeHeaders,
    scope: Option<&ScopeQuery>,
    permission: AccessPermission,
    app_id_path: Option<&str>,
    verified: Option<JwtClaims>,
) -> (r: Result<AppAccessContext, AuthError>)
    ensures
        final(dir).capabilities() == old(dir).capabilities(),
        match resolved_scope(
            *cfg,
            *headers,
            match scope {
                Some(q) => Some(*q),
                None => None,
            },
            verified,
            crate::text::view_opt_str(app_id_path),
        ) {
            Err(e) => r == Err::<AppAccessContext, AuthError>(e) && *final(dir) == *old(dir),
            Ok((user, ws, app)) => {
                &&& if !cfg.strict && user == cfg.default_user_id@ {
                    final(dir).allowlist() == old(dir).allowlist() && registries_bootstrapped(
                        old(dir).tenants(),
                        final(dir).tenants(),
                        old(dir).apps(),
                        final(dir).apps(),
                        ws,
                        app,
                    ) && bootstrapped(
                        old(dir).users(),
                        final(dir).users(),
                        old(dir).tenant_memberships(),
                        old(dir).app_memberships(),
                        final(dir).tenant_memberships(),
                        final(dir).app_memberships(),
                        ws,
                        app,
                        user,
                    )
                } else {
                    *final(dir) == *old(dir)
                }
                &&& match access_decision(
                    final(dir).tenant_memberships(),
                    final(dir).app_memberships(),
                    user,
                    ws,
                    app,
                    permission,
                ) {
                    Err(e) => r == Err::<AppAccessContext, AuthError>(e),
                    Ok(role) => r matches Ok(c) && c.user_id@ == user && c.workspace_id@ == ws
                        && c.tenant_id@ == ws && c.app_id@ == app && c.role@ == role,
                }
            },
        },
{
    let mut jwt_user: Option<String> = None;
    let mut jwt_ws: Option<String> = None;
    let mut jwt_app: Option<String> = None;
    if !cfg.compat {
        let bearer = match &headers.authorization {
            Some(a) => authorization_bearer_token(Some(a.as_str())),
            None => None,
        };
        if bearer.is_some() {
            let claims = match verified {
                Some(c) => c,
                None => return Err(AuthError::InvalidBearer),
            };
            let sub = match require_subject(&claims) {
                Ok(s) => s,
                Err(e) => return Err(e),
            };
            jwt_user = Some(sub);
            jwt_ws = copy_opt(&claims.workspace_id);
            jwt_app = copy_opt(&claims.app_id);
        } else if cfg.strict {
            return Err(AuthError::BearerRequired);
        }
    }
    let q_user = match scope {
        Some(q) => hint_value(&q.user_id),
        None => None,
    };
    let q_ws = match scope {
        Some(q) => hint_value(&q.workspace_id),
        None => None,
    };
    let q_app = match scope {
        Some(q) => hint_value(&q.app_id),
        None => None,
    };
    let user = match first_of(jwt_user, first_of(hint_value(&headers.user_id), first_of(q_user, hint_value(&headers.token)))) {
        Some(u) => u,
        None => cfg.default_user_id.clone(),
    };
    let ws = match first_of(hint_value(&headers.workspace_id), q_ws) {
        Some(w) => w,
        None => cfg.default_workspace_id.clone(),
    };
    let app = match first_of(hint_value(&headers.app_id), q_app) {
        Some(a) => a,
        None => cfg.default_app_id.clone(),
    };
    let ws = prefer_claim(ws, &cfg.default_workspace_id, jwt_ws);
    let app = prefer_claim(app, &cfg.default_app_id, jwt_app);
    if let Some(p) = app_id_path {
        if !text_eq(app.as_str(), p) {
            return Err(AuthError::AppScopeMismatch);
        }
    }
    if !cfg.strict && user == cfg.default_user_id {
        dir.ensure_local_dev_bootstrap(ws.as_str(), app.as_str(), user.as_str());
    }
    let role = match dir.check_access(user.as_str(), ws.as_str(), app.as_str(), permission) {
        Ok(role) => role,
        Err(e) => return Err(e),
    };
    Ok(AppAccessContext { workspace_id: ws.clone(), tenant_id: ws, app_id: app, user_id: user, role })
}

pub open spec fn of_user_tenant(user: Seq<char>) -> spec_fn(TenantMembership) -> bool {
    |m: TenantMembership| m.user_id@ == user
}

pub open spec fn of_user_app(user: Seq<char>) -> spec_fn(AppMembership) -> bool {
    |m: AppMembership| m.user_id@ == user
}

pub open spec fn of_user_capability(user: Seq<char>) -> spec_fn(Capability) -> bool {
    |c: Capability| c.user_id@ == user
}

/// The user `whoami` reports on: the subject of a bearer JWT (outside compat
/// mode), else the token header, else the `x-user-id` header.
pub open spec fn whoami_user_of(cfg: RbacConfig, headers: ScopeHeaders, verified: Option<JwtClaims>) -> Result<Seq<char>, AuthError> {
    if !cfg.compat && opt_bearer(view_opt(headers.authorization)) is Some {
        match verified {
            None => Err(AuthError::InvalidBearer),
            Some(c) => match c.subject {
                None => Err(AuthError::MissingSubject),
                Some(s) => Ok(s@),
            },
        }
    } else {
        match or_else(hint(headers.token), hint(headers.user_id)) {
            Some(u) => Ok(u),
            None => Err(AuthError::NoCredential),
        }
    }
}

fn copy_user(u: &UserRecord) -> (r: UserRecord)
    ensures
        r == *u,
{
    UserRecord { user_id: u.user_id.clone(), email: copy_opt(&u.email), display_name: copy_opt(&u.display_name) }
}

impl Directory {
    /// The tenant memberships of `user`, in the order recorded.
    pub fn tenant_memberships_of(&self, user: &str) -> (r: Vec<TenantMembership>)
        ensures
            r@ == self.tenant_memberships().filter(of_user_tenant(user@)),
    {
        let ghost s = self.tenant_memberships@;
        let ghost f = of_user_tenant(user@);
        let mut out: Vec<TenantMembership> = Vec::new();
        let mut i: usize = 0;
        while i < self.tenant_memberships.len()
            invariant
                s == self.tenant_memberships@,
                f == of_user_tenant(user@),
                i <= s.len(),
                out@ == s.take(i as int).filter(f),
            decreases s.len() - i,
        {
            let m = &self.tenant_memberships[i];
            proof {
                crate::session::lemma_filter_step(s, f, i as int);
            }
            if text_eq(m.user_id.as_str(), user) {
                out.push(TenantMembership { tenant_id: m.tenant_id.clone(), user_id: m.user_id.clone(), role: m.role.clone() });
            }
            i = i + 1;
        }
        proof {
            assert(s.take(s.len() as int) =~= s);
        }
        out
    }

    /// The app memberships of `user`, in the order recorded.
    pub fn app_memberships_of(&self, user: &str) -> (r: Vec<AppMembership>)
        ensures
            r@ == self.app_memberships().filter(of_user_app(user@)),
    {
        let ghost s = self.app_memberships@;
        let ghost f = of_user_app(user@);
        let mut out: Vec<AppMembership> = Vec::new();
        let mut i: usize = 0;
        while i < self.app_memberships.len()
            invariant
                s == self.app_memberships@,
                f == of_user_app(user@),
                i <= s.len(),
                out@ == s.take(i as int).filter(f),
            decreases s.len() - i,
        {
            let m = &self.app_memberships[i];
            proof {
                crate::session::lemma_filter_step(s, f, i as int);
            }
            if text_eq(m.user_id.as_str(), user) {
                out.push(
                    AppMembership {
                        app_id: m.app_id.clone(),
                        tenant_id: m.tenant_id.clone(),
                        user_id: m.user_id.clone(),
                        role: m.role.clone(),
                    },
                );
            }
            i = i + 1;
        }
        proof {
            assert(s.take(s.len() as int) =~= s);
        }
        out
    }

    /// The capabilities granted to `user`, in the order granted.
    pub fn capabilities_of(&self, user: &str) -> (r: Vec<Capability>)
        ensures
            r@ == self.capabilities().filter(of_user_capability(user@)),
    {
        let ghost s = self.capabilities@;
        let ghost f = of_user_capability(user@);
        let mut out: Vec<Capability> = Vec::new();
        let mut i: usize = 0;
        while i < self.capabilities.len()
            invariant
                s == self.capabilities@,
                f == of_user_capability(user@),
                i <= s.len(),
                out@ == s.take(i as int).filter(f),
            decreases s.len() - i,
        {
            let c = &self.capabilities[i];
            proof {
                crate::session::lemma_filter_step(s, f, i as int);
            }
            if text_eq(c.user_id.as_str(), user) {
                out.push(Capability { user_id: c.user_id.clone(), capability: c.capability.clone() });
            }
            i = i + 1;
        }
        proof {
            assert(s.take(s.len() as int) =~= s);
        }
        out
    }
}

/// The profile `whoami` reports where the directory is available: the
/// user's record, memberships and capabilities. `verified` is the outcome of
/// verifying the bearer token of `headers.authorization`.
pub fn whoami_profile(
    dir: &Directory,
    cfg: &RbacConfig,
    headers: &ScopeHeaders,
    verified: Option<JwtClaims>,
) -> (r: Result<UserProfile, AuthError>)
    ensures
        match whoami_user_of(*cfg, *headers, verified) {
            Err(e) => r == Err::<UserProfile, AuthError>(e),
            Ok(u) => if !has_user(dir.users(), u) {
                r == Err::<UserProfile, AuthError>(AuthError::UserNotFound)
            } else {
                r matches Ok(p) && (exists|i: int| is_user_record(dir.users(), u, i) && p.user == dir.users()[i])
                    && p.tenant_memberships@ == dir.tenant_memberships().filter(of_user_tenant(u))
                    && p.app_memberships@ == dir.app_memberships().filter(of_user_app(u))
                    && p.capabilities@ == dir.capabilities().filter(of_user_capability(u))
            },
        },
{
    let mut user: Option<String> = None;
    if !cfg.compat {
        let bearer = match &headers.authorization {
            Some(a) => authorization_bearer_token(Some(a.as_str())),
            None => None,
        };
        if bearer.is_some() {
            let claims = match verified {
                Some(c) => c,
                None => return Err(AuthError::InvalidBearer),
            };
            match require_subject(&claims) {
                Ok(s) => user = Some(s),
                Err(e) => return Err(e),
            }
        }
    }
    let user = match user {
        Some(u) => u,
        None => match first_of(hint_value(&headers.token), hint_value(&headers.user_id)) {
            Some(u) => u,
            None => return Err(AuthError::NoCredential),
        },
    };
    let i = match dir.find_user(user.as_str()) {
        Some(i) => i,
        None => return Err(AuthError::UserNotFound),
    };
    Ok(UserProfile {
        user: copy_user(&dir.users[i]),
        tenant_memberships: dir.tenant_memberships_of(user.as_str()),
        app_memberships: dir.app_memberships_of(user.as_str()),
        capabilities: dir.capabilities_of(user.as_str()),
    })
}

/// The access context of a route under an app path: `Read` tier, no query
/// hints, and the path's app id must match.
pub fn resolve_app_access_context(
    dir: &mut Directory,
    cfg: &RbacConfig,
    headers: &ScopeHeaders,
    app_id_path: &str,
    verified: Option<JwtClaims>,
) -> (r: Result<AppAccessContext, AuthError>)
    ensures
        final(dir).capabilities() == old(dir).capabilities(),
        match resolved_scope(*cfg, *headers, None, verified, Some(app_id_path@)) {
            Err(e) => r == Err::<AppAccessContext, AuthError>(e) && *final(dir) == *old(dir),
            Ok((user, ws, app)) => {
                &&& if !cfg.strict && user == cfg.default_user_id@ {
                    final(dir).allowlist() == old(dir).allowlist() && registries_bootstrapped(
                        old(dir).tenants(),
                        final(dir).tenants(),
                        old(dir).apps(),
                        final(dir).apps(),
                        ws,
                        app,
                    ) && bootstrapped(
                        old(dir).users(),
                        final(dir).users(),
                        old(dir).tenant_memberships(),
                        old(dir).app_memberships(),
                        final(dir).tenant_memberships(),
                        final(dir).app_memberships(),
                        ws,
                        app,
                        user,
                    )
                } else {
                    *final(dir) == *old(dir)
                }
                &&& match access_decision(
                    final(dir).tenant_memberships(),
                    final(dir).app_memberships(),
                    user,
                    ws,
                    app,
                    AccessPermission::Read,
                ) {
                    Err(e) => r == Err::<AppAccessContext, AuthError>(e),
                    Ok(role) => r matches Ok(c) && c.user_id@ == user && c.workspace_id@ == ws
                        && c.tenant_id@ == ws && c.app_id@ == app && c.role@ == role,
                }
            },
        },
{
    resolve_access_context(dir, cfg, headers, None, AccessPermission::Read, Some(app_id_path), verified)
}

/// A numeric body field narrowed to 32 bits; one out of range is refused.
pub fn to_i32(value: Option<i64>) -> (r: Result<Option<i32>, AuthError>)
    ensures
        match value {
            None => r == Ok::<Option<i32>, AuthError>(None),
            Some(v) => if i32::MIN <= v <= i32::MAX {
                r == Ok::<Option<i32>, AuthError>(Some(v as i32))
            } else {
                r == Err::<Option<i32>, AuthError>(AuthError::InvalidBody)
            },
        },
{
    match value {
        None => Ok(None),
        Some(v) => if v < i32::MIN as i64 || v > i32::MAX as i64 {
            Err(AuthError::InvalidBody)
        } else {
            Ok(Some(v as i32))
        },
    }
}

impl Directory {
    pub(crate) fn find_tenant_by_slug(&self, slug: &str) -> (r: Option<usize>)
        ensures
            r matches Some(i) ==> is_tenant_with_slug(self.tenants(), slug@, i as int),
            r is None ==> no_tenant_with_slug(self.tenants(), slug@),
    {
        let mut i: usize = 0;
        while i < self.tenants.len()
            invariant
                i <= self.tenants@.len(),
                forall|k: int| 0 <= k < i ==> (#[trigger] self.tenants@[k]).slug@ != slug@,
            decreases self.tenants@.len() - i,
        {
            if text_eq(self.tenants[i].slug.as_str(), slug) {
                return Some(i);
            }
            i = i + 1;
        }
        None
    }

    pub(crate) fn tenant_allowlisted(&self, tenant: &str) -> (r: bool)
        ensures
            r == tenant_has_allowlist(self.allowlist(), tenant@),
    {
        let mut i: usize = 0;
        while i < self.allowlist.len()
            invariant
                i <= self.allowlist@.len(),
                forall|k: int| 0 <= k < i ==> (#[trigger] self.allowlist@[k]).tenant_id@ != tenant@,
            decreases self.allowlist@.len() - i,
        {
            if text_eq(self.allowlist[i].tenant_id.as_str(), tenant) {
                return true;
            }
            i = i + 1;
        }
        false
    }

    pub(crate) fn find_admission(&self, tenant: &str, email: &str, now: i64) -> (r: Option<usize>)
        ensures
            r matches Some(i) ==> is_admission(self.allowlist(), tenant@, email@, now, i as int),
            r is None ==> no_admission(self.allowlist(), tenant@, email@, now),
    {
        let mut i: usize = 0;
        while i < self.allowlist.len()
            invariant
                i <= self.allowlist@.len(),
                forall|k: int| 0 <= k < i ==> !admits(#[trigger] self.allowlist@[k], tenant@, email@, now),
            decreases self.allowlist@.len() - i,
        {
            let e = &self.allowlist[i];
            let live = match e.expires_at_ms {
                Some(x) => x > now,
                None => true,
            };
            if text_eq(e.tenant_id.as_str(), tenant) && text_eq(e.email_normalized.as_str(), email) && live {
                return Some(i);
            }
            i = i + 1;
        }
        None
    }

    pub(crate) fn app_of_tenant(&self, app: &str, tenant: &str) -> (r: bool)
        ensures
            r == app_in_tenant(*self, app@, tenant@),
    {
        let mut i: usize = 0;
        while i < self.apps.len()
            invariant
                i <= self.apps@.len(),
                forall|k: int|
                    0 <= k < i ==> !((#[trigger] self.apps()[k]).app_id@ == app@ && self.apps()[k].tenant_id@ == tenant@),
            decreases self.apps@.len() - i,
        {
            if text_eq(self.apps[i].app_id.as_str(), app) && text_eq(self.apps[i].tenant_id.as_str(), tenant) {
                assert(self.apps()[i as int] == self.apps@[i as int]);
                return true;
            }
            i = i + 1;
        }
        false
    }

    /// The tenant record at `i`.
    pub fn tenant_at(&self, i: usize) -> (r: &TenantRecord)
        requires
            i < self.tenants().len(),
        ensures
            *r == self.tenants()[i as int],
    {
        &self.tenants[i]
    }

    /// The allowlist entry at `i`.
    pub fn allowlist_at(&self, i: usize) -> (r: &AllowlistEntry)
        requires
            i < self.allowlist().len(),
        ensures
            *r == self.allowlist()[i as int],
    {
        &self.allowlist[i]
    }
}

impl Directory {
    /// Records `u` unless a user of its id is known.
    pub fn ensure_user(&mut self, u: UserRecord)
        ensures
            final(self).tenants() == old(self).tenants(),
            final(self).apps() == old(self).apps(),
            final(self).allowlist() == old(self).allowlist(),
            final(self).tenant_memberships() == old(self).tenant_memberships(),
            final(self).app_memberships() == old(self).app_memberships(),
            final(self).capabilities() == old(self).capabilities(),
            has_user(old(self).users(), u.user_id@) ==> final(self).users() == old(self).users(),
            !has_user(old(self).users(), u.user_id@) ==> final(self).users() == old(self).users().push(u),
    {
        if self.find_user(u.user_id.as_str()).is_none() {
            self.users.push(u);
        }
    }

    /// Records `m` unless its user already belongs to its tenant.
    pub fn ensure_tenant_membership(&mut self, m: TenantMembership)
        ensures
            final(self).tenants() == old(self).tenants(),
            final(self).apps() == old(self).apps(),
            final(self).allowlist() == old(self).allowlist(),
            final(self).users() == old(self).users(),
            final(self).app_memberships() == old(self).app_memberships(),
            final(self).capabilities() == old(self).capabilities(),
            has_tenant(old(self).tenant_memberships(), m.tenant_id@, m.user_id@) ==> final(self).tenant_memberships()
                == old(self).tenant_memberships(),
            !has_tenant(old(self).tenant_memberships(), m.tenant_id@, m.user_id@) ==> final(self).tenant_memberships()
                == old(self).tenant_memberships().push(m),
    {
        if !self.tenant_member(m.tenant_id.as_str(), m.user_id.as_str()) {
            self.tenant_memberships.push(m);
        }
    }

    /// Records `m` unless its user already belongs to its app.
    pub fn ensure_app_membership(&mut self, m: AppMembership)
        ensures
            final(self).tenants() == old(self).tenants(),
            final(self).apps() == old(self).apps(),
            final(self).allowlist() == old(self).allowlist(),
            final(self).users() == old(self).users(),
            final(self).tenant_memberships() == old(self).tenant_memberships(),
            final(self).capabilities() == old(self).capabilities(),
            has_app(old(self).app_memberships(), m.app_id@, m.tenant_id@, m.user_id@) ==> final(self).app_memberships()
                == old(self).app_memberships(),
            !has_app(old(self).app_memberships(), m.app_id@, m.tenant_id@, m.user_id@) ==> final(self).app_memberships()
                == old(self).app_memberships().push(m),
    {
        if self.app_membership(m.app_id.as_str(), m.tenant_id.as_str(), m.user_id.as_str()).is_none() {
            self.app_memberships.push(m);
        }
    }
}

} // verus!
