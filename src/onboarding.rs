//! Tenant lookup and onboarding.
//!
//! A user holding a verified JWT joins a tenant named by its slug: as a
//! plain member, or, where the tenant keeps an email allowlist, only with an
//! admitted email and then with the tenant role and app memberships that
//! the allowlist grants.

use vstd::prelude::*;

use crate::codec::{lower_of, lowercase};
use crate::error::AuthError;
use crate::identity::{jwt_check, require_subject, require_verified_jwt, AuthConfig, JwtClaims};
use crate::rbac::{
    has_app, has_tenant, has_user, in_app, in_tenant, AllowlistEntry, AppDefault, AppMembership,
    Directory, TenantMembership, TenantRecord, UserRecord,
};
use crate::text::{copy_opt, header_value, non_blank, text_eq, trim, trimmed, view_opt, view_opt_str};

verus! {

/// What resolving a tenant slug reports.
#[derive(Clone, Debug)]
pub struct TenantInfo {
    pub tenant_id: String,
    pub name: String,
    pub slug: String,
    pub has_allowlist: bool,
}

/// What joining a tenant reports.
#[derive(Clone, Debug)]
pub struct OnboardOutcome {
    pub user_id: String,
    pub tenant_id: String,
    pub tenant_role: String,
    /// How many app defaults the allowlist entry named.
    pub app_defaults: usize,
}

pub open spec fn member_role() -> Seq<char> {
    seq!['m', 'e', 'm', 'b', 'e', 'r']
}

/// `i` is the first tenant whose slug is `slug`.
pub open spec fn is_tenant_with_slug(tenants: Seq<TenantRecord>, slug: Seq<char>, i: int) -> bool {
    &&& 0 <= i < tenants.len()
    &&& tenants[i].slug@ == slug
    &&& forall|k: int| 0 <= k < i ==> (#[trigger] tenants[k]).slug@ != slug
}

pub open spec fn no_tenant_with_slug(tenants: Seq<TenantRecord>, slug: Seq<char>) -> bool {
    forall|k: int| 0 <= k < tenants.len() ==> (#[trigger] tenants[k]).slug@ != slug
}

pub open spec fn tenant_has_allowlist(allowlist: Seq<AllowlistEntry>, tenant: Seq<char>) -> bool {
    exists|i: int| 0 <= i < allowlist.len() && (#[trigger] allowlist[i]).tenant_id@ == tenant
}

/// `e` admits `email` to `tenant` at `now`.
pub open spec fn admits(e: AllowlistEntry, tenant: Seq<char>, email: Seq<char>, now: i64) -> bool {
    &&& e.tenant_id@ == tenant
    &&& e.email_normalized@ == email
    &&& match e.expires_at_ms {
        Some(x) => x > now,
        None => true,
    }
}

/// `i` is the first entry admitting `email` to `tenant` at `now`.
pub open spec fn is_admission(list: Seq<AllowlistEntry>, tenant: Seq<char>, email: Seq<char>, now: i64, i: int) -> bool {
    &&& 0 <= i < list.len()
    &&& admits(list[i], tenant, email, now)
    &&& forall|k: int| 0 <= k < i ==> !admits(#[trigger] list[k], tenant, email, now)
}

pub open spec fn no_admission(list: Seq<AllowlistEntry>, tenant: Seq<char>, email: Seq<char>, now: i64) -> bool {
    forall|k: int| 0 <= k < list.len() ==> !admits(#[trigger] list[k], tenant, email, now)
}

/// The email of the claims, lower-cased and trimmed.
pub open spec fn normalized_email(c: JwtClaims) -> Option<Seq<char>> {
    match c.email {
        Some(e) => Some(trimmed(lower_of(e@))),
        None => None,
    }
}

/// The tenant, and the allowlist entry if any, a user joins through; or why
/// the join is refused.
pub open spec fn admission(
    dir: Directory,
    config: AuthConfig,
    tenant_slug: Option<Seq<char>>,
    authorization: Option<Seq<char>>,
    verified: Option<JwtClaims>,
    now: i64,
) -> Result<(Seq<char>, int, Option<int>), AuthError> {
    let slug = match tenant_slug {
        Some(s) => trimmed(s),
        None => Seq::empty(),
    };
    if slug.len() == 0 {
        Err(AuthError::TenantSlugRequired)
    } else {
        match jwt_check(config, authorization, verified) {
            Err(e) => Err(e),
            Ok((_, c)) => match c.subject {
                None => Err(AuthError::MissingSubject),
                Some(sub) => if no_tenant_with_slug(dir.tenants(), slug) {
                    Err(AuthError::TenantNotFound)
                } else {
                    let t = choose|i: int| is_tenant_with_slug(dir.tenants(), slug, i);
                    let tid = dir.tenants()[t].tenant_id@;
                    if !tenant_has_allowlist(dir.allowlist(), tid) {
                        Ok((sub@, t, None))
                    } else {
                        match normalized_email(c) {
                            None => Err(AuthError::EmailRequired),
                            Some(em) => if no_admission(dir.allowlist(), tid, em, now) {
                                Err(AuthError::NotOnAllowlist)
                            } else {
                                Ok((sub@, t, Some(choose|i: int| is_admission(dir.allowlist(), tid, em, now, i))))
                            },
                        }
                    }
                },
            },
        }
    }
}

/// The app an app default names: its id trimmed, where not blank.
pub open spec fn default_app_of(d: AppDefault) -> Option<Seq<char>> {
    match d.app_id {
        Some(a) => non_blank(a@),
        None => None,
    }
}

/// The role an app default grants: its role trimmed, `member` where blank.
pub open spec fn default_role_of(d: AppDefault) -> Seq<char> {
    match d.role {
        Some(r) => match non_blank(r@) {
            Some(t) => t,
            None => member_role(),
        },
        None => member_role(),
    }
}

pub open spec fn app_in_tenant(dir: Directory, app: Seq<char>, tenant: Seq<char>) -> bool {
    exists|i: int| 0 <= i < dir.apps().len() && (#[trigger] dir.apps()[i]).app_id@ == app && dir.apps()[i].tenant_id@ == tenant
}

/// Default `d` grants an app of `tenant` that exists.
pub open spec fn grants(dir: Directory, d: AppDefault, tenant: Seq<char>) -> bool {
    default_app_of(d) matches Some(a) && app_in_tenant(dir, a, tenant)
}

/// The app memberships after granting `defaults` to `user` in `tenant`:
/// earlier ones stay, each granted app is held, and each added membership
/// is one a default grants, with that default's role.
pub open spec fn defaults_granted(
    dir: Directory,
    am: Seq<AppMembership>,
    am_after: Seq<AppMembership>,
    defaults: Seq<AppDefault>,
    tenant: Seq<char>,
    user: Seq<char>,
) -> bool {
    &&& am.len() <= am_after.len()
    &&& am_after.take(am.len() as int) == am
    &&& forall|i: int| 0 <= i < defaults.len() && grants(dir, #[trigger] defaults[i], tenant)
        ==> has_app(am_after, default_app_of(defaults[i])->0, tenant, user)
    &&& forall|j: int| am.len() <= j < am_after.len() ==> exists|i: int|
        0 <= i < defaults.len() && grants(dir, #[trigger] defaults[i], tenant) && in_app(
            #[trigger] am_after[j],
            default_app_of(defaults[i])->0,
            tenant,
            user,
        ) && am_after[j].role@ == default_role_of(defaults[i])
}

proof fn lemma_slug_unique(tenants: Seq<TenantRecord>, slug: Seq<char>, i: int, j: int)
    requires
        is_tenant_with_slug(tenants, slug, i),
        is_tenant_with_slug(tenants, slug, j),
    ensures
        i == j,
{
    if i < j {
        assert(tenants[i].slug@ != slug);
    } else if j < i {
        assert(tenants[j].slug@ != slug);
    }
}

proof fn lemma_admission_unique(list: Seq<AllowlistEntry>, tenant: Seq<char>, email: Seq<char>, now: i64, i: int, j: int)
    requires
        is_admission(list, tenant, email, now, i),
        is_admission(list, tenant, email, now, j),
    ensures
        i == j,
{
    if i < j {
        assert(!admits(list[i], tenant, email, now));
    } else if j < i {
        assert(!admits(list[j], tenant, email, now));
    }
}

/// Looks a tenant up by its slug, trimmed.
pub fn tenant_resolve(dir: &Directory, slug: Option<&str>) -> (r: Result<TenantInfo, AuthError>)
    ensures
        ({
            let s = match slug {
                Some(x) => trimmed(x@),
                None => Seq::empty(),
            };
            &&& s.len() == 0 ==> r == Err::<TenantInfo, AuthError>(AuthError::SlugRequired)
            &&& s.len() > 0 && no_tenant_with_slug(dir.tenants(), s) ==> r == Err::<TenantInfo, AuthError>(AuthError::TenantNotFound)
            &&& forall|i: int| s.len() > 0 && is_tenant_with_slug(dir.tenants(), s, i) ==> (r matches Ok(info)
                && info.tenant_id == dir.tenants()[i].tenant_id && info.name == dir.tenants()[i].name
                && info.slug == dir.tenants()[i].slug && info.has_allowlist == tenant_has_allowlist(
                dir.allowlist(),
                dir.tenants()[i].tenant_id@,
            ))
        }),
{
    let s = match slug {
        Some(x) => trim(x),
        None => String::new(),
    };
    if s.as_str().is_empty() {
        return Err(AuthError::SlugRequired);
    }
    let i = match dir.find_tenant_by_slug(s.as_str()) {
        Some(i) => i,
        None => return Err(AuthError::TenantNotFound),
    };
    proof {
        assert forall|j: int| is_tenant_with_slug(dir.tenants(), s@, j) implies j == i by {
            lemma_slug_unique(dir.tenants(), s@, i as int, j);
        }
    }
    let t = dir.tenant_at(i);
    Ok(TenantInfo {
        tenant_id: t.tenant_id.clone(),
        name: t.name.clone(),
        slug: t.slug.clone(),
        has_allowlist: dir.tenant_allowlisted(t.tenant_id.as_str()),
    })
}

/// The display name a new user gets: the one asked for, trimmed, else the
/// email, else the user id.
pub open spec fn display_of(display_name: Option<Seq<char>>, email: Option<String>, user: Seq<char>) -> Seq<char> {
    match display_name {
        Some(d) => match non_blank(d) {
            Some(t) => t,
            None => match email {
                Some(e) => e@,
                None => user,
            },
        },
        None => match email {
            Some(e) => e@,
            None => user,
        },
    }
}

fn copy_defaults(v: &Vec<AppDefault>) -> (r: Vec<AppDefault>)
    ensures
        r@ == v@,
{
    let mut out: Vec<AppDefault> = Vec::new();
    let mut i: usize = 0;
    while i < v.len()
        invariant
            i <= v@.len(),
            out@ == v@.take(i as int),
        decreases v@.len() - i,
    {
        out.push(AppDefault { app_id: copy_opt(&v[i].app_id), role: copy_opt(&v[i].role) });
        proof {
            assert(v@.take(i + 1) =~= v@.take(i as int).push(v@[i as int]));
        }
        i = i + 1;
    }
    proof {
        assert(v@.take(i as int) =~= v@);
    }
    out
}

fn default_app(d: &AppDefault) -> (r: Option<String>)
    ensures
        view_opt(r) == default_app_of(*d),
{
    match &d.app_id {
        Some(a) => header_value(Some(a.as_str())),
        None => None,
    }
}

fn default_role(d: &AppDefault) -> (r: String)
    ensures
        r@ == default_role_of(*d),
{
    proof {
        reveal_strlit("member");
        assert("member"@ =~= member_role());
    }
    match &d.role {
        Some(x) => match header_value(Some(x.as_str())) {
            Some(t) => t,
            None => String::from_str("member"),
        },
        None => String::from_str("member"),
    }
}

proof fn lemma_has_app_kept(am: Seq<AppMembership>, after: Seq<AppMembership>, app: Seq<char>, tenant: Seq<char>, user: Seq<char>)
    requires
        am.len() <= after.len(),
        after.take(am.len() as int) == am,
        has_app(am, app, tenant, user),
    ensures
        has_app(after, app, tenant, user),
{
    let k = choose|k: int| 0 <= k < am.len() && in_app(#[trigger] am[k], app, tenant, user);
    assert(after[k] == after.take(am.len() as int)[k]);
}

/// Handles a user joining the tenant of `tenant_slug`: a verified bearer JWT
/// with a subject is required; where the tenant keeps an allowlist, the
/// JWT's email, lower-cased and trimmed, must be admitted at `now`, and the
/// entry's tenant role and app defaults apply; else the user joins as
/// `member`. User and memberships are added where missing. `verified` is
/// the outcome of verifying the bearer token of `authorization`.
#[verifier::rlimit(60)]
pub fn onboard_claim(
    dir: &mut Directory,
    config: &AuthConfig,
    tenant_slug: Option<&str>,
    display_name: Option<&str>,
    authorization: Option<&str>,
    verified: Option<JwtClaims>,
    now: i64,
) -> (r: Result<OnboardOutcome, AuthError>)
    ensures
        match admission(*old(dir), *config, view_opt_str(tenant_slug), view_opt_str(authorization), verified, now) {
            Err(e) => r == Err::<OnboardOutcome, AuthError>(e) && *final(dir) == *old(dir),
            Ok((u, t, entry)) => {
                let tid = old(dir).tenants()[t].tenant_id@;
                let role = match entry {
                    Some(i) => old(dir).allowlist()[i].role_default@,
                    None => member_role(),
                };
                let defaults = match entry {
                    Some(i) => old(dir).allowlist()[i].app_defaults@,
                    None => Seq::<AppDefault>::empty(),
                };
                let email = verified->0.email;
                &&& r matches Ok(o) && o.user_id@ == u && o.tenant_id@ == tid && o.tenant_role@ == role
                    && o.app_defaults == defaults.len()
                &&& final(dir).tenants() == old(dir).tenants()
                &&& final(dir).apps() == old(dir).apps()
                &&& final(dir).allowlist() == old(dir).allowlist()
                &&& final(dir).capabilities() == old(dir).capabilities()
                &&& if has_user(old(dir).users(), u) {
                    final(dir).users() == old(dir).users()
                } else {
                    &&& final(dir).users().len() == old(dir).users().len() + 1
                    &&& final(dir).users().drop_last() == old(dir).users()
                    &&& final(dir).users().last().user_id@ == u
                    &&& final(dir).users().last().email == email
                    &&& view_opt(final(dir).users().last().display_name) == Some(
                        display_of(view_opt_str(display_name), email, u),
                    )
                }
                &&& if has_tenant(old(dir).tenant_memberships(), tid, u) {
                    final(dir).tenant_memberships() == old(dir).tenant_memberships()
                } else {
                    &&& final(dir).tenant_memberships().len() == old(dir).tenant_memberships().len() + 1
                    &&& final(dir).tenant_memberships().drop_last() == old(dir).tenant_memberships()
                    &&& in_tenant(final(dir).tenant_memberships().last(), tid, u)
                    &&& final(dir).tenant_memberships().last().role@ == role
                }
                &&& defaults_granted(*old(dir), old(dir).app_memberships(), final(dir).app_memberships(), defaults, tid, u)
            },
        },
{
    let slug = match tenant_slug {
        Some(s) => trim(s),
        None => String::new(),
    };
    if slug.as_str().is_empty() {
        return Err(AuthError::TenantSlugRequired);
    }
    let (_token, claims) = match require_verified_jwt(config, authorization, verified) {
        Ok(p) => p,
        Err(e) => return Err(e),
    };
    let user = match require_subject(&claims) {
        Ok(u) => u,
        Err(e) => return Err(e),
    };
    let ti = match dir.find_tenant_by_slug(slug.as_str()) {
        Some(i) => i,
        None => return Err(AuthError::TenantNotFound),
    };
    proof {
        let j = choose|i: int| is_tenant_with_slug(dir.tenants(), slug@, i);
        lemma_slug_unique(dir.tenants(), slug@, ti as int, j);
    }
    let tenant_id = dir.tenant_at(ti).tenant_id.clone();
    let ghost entry_index: Option<int> = None;
    proof {
        reveal_strlit("member");
        assert("member"@ =~= member_role());
    }
    let (role, defaults) = if !dir.tenant_allowlisted(tenant_id.as_str()) {
        (String::from_str("member"), Vec::new())
    } else {
        let email = match &claims.email {
            Some(e) => e,
            None => return Err(AuthError::EmailRequired),
        };
        let lowered = lowercase(email.as_str());
        let normalized = trim(lowered.as_str());
        let ei = match dir.find_admission(tenant_id.as_str(), normalized.as_str(), now) {
            Some(i) => i,
            None => return Err(AuthError::NotOnAllowlist),
        };
        proof {
            let j = choose|i: int| is_admission(dir.allowlist(), tenant_id@, normalized@, now, i);
            lemma_admission_unique(dir.allowlist(), tenant_id@, normalized@, now, ei as int, j);
            entry_index = Some(ei as int);
        }
        let e = dir.allowlist_at(ei);
        (e.role_default.clone(), copy_defaults(&e.app_defaults))
    };
    assert(admission(*old(dir), *config, view_opt_str(tenant_slug), view_opt_str(authorization), verified, now)
        == Ok::<(Seq<char>, int, Option<int>), AuthError>((user@, ti as int, entry_index)));
    assert(role@ == match entry_index {
        Some(k) => old(dir).allowlist()[k].role_default@,
        None => member_role(),
    });
    assert(defaults@ == match entry_index {
        Some(k) => old(dir).allowlist()[k].app_defaults@,
        None => Seq::<AppDefault>::empty(),
    });
    let display = match display_name {
        Some(d) => match header_value(Some(d)) {
            Some(t) => t,
            None => match &claims.email {
                Some(e) => e.clone(),
                None => user.clone(),
            },
        },
        None => match &claims.email {
            Some(e) => e.clone(),
            None => user.clone(),
        },
    };
    dir.ensure_user(UserRecord { user_id: user.clone(), email: copy_opt(&claims.email), display_name: Some(display) });
    dir.ensure_tenant_membership(TenantMembership { tenant_id: tenant_id.clone(), user_id: user.clone(), role: role.clone() });
    proof {
        if !has_user(old(dir).users(), user@) {
            assert(dir.users().drop_last() =~= old(dir).users());
        }
        if !has_tenant(old(dir).tenant_memberships(), tenant_id@, user@) {
            assert(dir.tenant_memberships().drop_last() =~= old(dir).tenant_memberships());
        }
    }
    let ghost am0 = dir.app_memberships();
    let ghost users1 = dir.users();
    let ghost tm1 = dir.tenant_memberships();
    let ghost d0 = *old(dir);
    let n = defaults.len();
    let mut i: usize = 0;
    proof {
        assert(am0.take(am0.len() as int) =~= am0);
    }
    while i < n
        invariant
            n == defaults@.len(),
            i <= n,
            dir.tenants() == d0.tenants(),
            dir.apps() == d0.apps(),
            dir.allowlist() == d0.allowlist(),
            dir.capabilities() == d0.capabilities(),
            am0 == d0.app_memberships(),
            defaults_granted(d0, am0, dir.app_memberships(), defaults@.take(i as int), tenant_id@, user@),
            dir.users() == users1,
            dir.tenant_memberships() == tm1,
        decreases n - i,
    {
        let ghost before = dir.app_memberships();
        let d = &defaults[i];
        let ghost dv = defaults@[i as int];
        if let Some(a) = default_app(d) {
            if dir.app_of_tenant(a.as_str(), tenant_id.as_str()) {
                let m = AppMembership { app_id: a, tenant_id: tenant_id.clone(), user_id: user.clone(), role: default_role(d) };
                dir.ensure_app_membership(m);
            }
        }
        proof {
            let taken = defaults@.take(i + 1);
            assert(taken =~= defaults@.take(i as int).push(dv));
            let after = dir.app_memberships();
            assert(after.take(before.len() as int) =~= before);
            assert(after.take(am0.len() as int) =~= am0) by {
                assert(before.take(am0.len() as int) == am0);
            }
            assert forall|k: int| 0 <= k < taken.len() && grants(d0, #[trigger] taken[k], tenant_id@)
                implies has_app(after, default_app_of(taken[k])->0, tenant_id@, user@) by {
                if k < i {
                    assert(taken[k] == defaults@.take(i as int)[k]);
                    lemma_has_app_kept(before, after, default_app_of(taken[k])->0, tenant_id@, user@);
                } else {
                    let a = default_app_of(dv)->0;
                    if !has_app(before, a, tenant_id@, user@) {
                        assert(in_app(after[before.len() as int], a, tenant_id@, user@));
                    }
                }
            }
            assert forall|j: int| am0.len() <= j < after.len() implies exists|k: int|
                0 <= k < taken.len() && grants(d0, #[trigger] taken[k], tenant_id@) && in_app(
                    #[trigger] after[j],
                    default_app_of(taken[k])->0,
                    tenant_id@,
                    user@,
                ) && after[j].role@ == default_role_of(taken[k]) by {
                if j < before.len() {
                    assert(after[j] == before[j]);
                    let k = choose|k: int|
                        0 <= k < i && grants(d0, #[trigger] defaults@.take(i as int)[k], tenant_id@) && in_app(
                            before[j],
                            default_app_of(defaults@.take(i as int)[k])->0,
                            tenant_id@,
                            user@,
                        ) && before[j].role@ == default_role_of(defaults@.take(i as int)[k]);
                    assert(taken[k] == defaults@.take(i as int)[k]);
                } else {
                    assert(taken[i as int] == dv);
                }
            }
        }
        i = i + 1;
    }
    proof {
        assert(defaults@.take(n as int) =~= defaults@);
    }
    Ok(OnboardOutcome { user_id: user, tenant_id, tenant_role: role, app_defaults: n })
}

} // verus!
