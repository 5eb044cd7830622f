//! Credential extraction and the identity resolver.
//!
//! A credential is the static bootstrap secret, a server-issued session
//! token, or an externally signed JWT. The three are disjoint by
//! construction; they are tried in that order. JWT verification runs against
//! a remote key set, so its outcome for the presented token is handed in.

use vstd::prelude::*;

use crate::error::AuthError;
use crate::session::{live_lookup, live_only, SessionStore, SessionToken};
use crate::text::{
    copy_opt, header_value, non_blank, strip_prefix, strip_prefix_of, text_eq,
    token_prefix, view_opt, view_opt_str,
};

verus! {

/// The claims of a JWT whose signature, issuer, audience and key id passed.
#[derive(Clone, Debug)]
pub struct JwtClaims {
    pub subject: Option<String>,
    pub issuer: Option<String>,
    pub audience: Option<String>,
    pub expires_at_unix: Option<i64>,
    pub workspace_id: Option<String>,
    pub app_id: Option<String>,
    pub email: Option<String>,
}

/// Who is calling.
#[derive(Clone, Debug)]
pub enum AuthIdentity {
    Bootstrap,
    Session(SessionToken),
    Jwt(JwtClaims),
}

/// Which credential sources this service accepts.
#[derive(Clone, Debug)]
pub struct AuthConfig {
    pub bootstrap_token: Option<String>,
    pub jwt_enabled: bool,
}

impl AuthConfig {
    /// Some credential source is configured.
    pub open spec fn auth_required(&self) -> bool {
        self.bootstrap_token is Some || self.jwt_enabled
    }

    /// The configuration, where some credential source is configured or
    /// running without one was asked for explicitly; `None` otherwise.
    pub fn new(bootstrap_token: Option<String>, jwt_enabled: bool, allow_unauthenticated: bool) -> (r:
        Option<AuthConfig>)
        ensures
            (bootstrap_token is Some || jwt_enabled || allow_unauthenticated) ==> r == Some(
                AuthConfig { bootstrap_token, jwt_enabled },
            ),
            !(bootstrap_token is Some || jwt_enabled || allow_unauthenticated) ==> r is None,
    {
        if bootstrap_token.is_none() && !jwt_enabled && !allow_unauthenticated {
            None
        } else {
            Some(AuthConfig { bootstrap_token, jwt_enabled })
        }
    }
}

pub open spec fn bearer_scheme() -> Seq<char> {
    seq!['B', 'e', 'a', 'r', 'e', 'r', ' ']
}

pub open spec fn bearer_scheme_lower() -> Seq<char> {
    seq!['b', 'e', 'a', 'r', 'e', 'r', ' ']
}

/// The credential of a request: the custom token header, else what follows
/// `Bearer ` in the authorization header.
pub open spec fn presented_token(custom: Option<Seq<char>>, authorization: Option<Seq<char>>) -> Option<
    Seq<char>,
> {
    match custom {
        Some(c) => Some(c),
        None => match authorization {
            Some(a) => strip_prefix_of(a, bearer_scheme()),
            None => None,
        },
    }
}

/// The bearer token of an authorization header: the value trimmed, its
/// scheme (`Bearer ` or `bearer `) removed, trimmed again, and not blank.
pub open spec fn bearer_of(authorization: Seq<char>) -> Option<Seq<char>> {
    match non_blank(authorization) {
        None => None,
        Some(raw) => match strip_prefix_of(raw, bearer_scheme()) {
            Some(rest) => non_blank(rest),
            None => match strip_prefix_of(raw, bearer_scheme_lower()) {
                Some(rest) => non_blank(rest),
                None => None,
            },
        },
    }
}

pub open spec fn opt_bearer(authorization: Option<Seq<char>>) -> Option<Seq<char>> {
    match authorization {
        Some(a) => bearer_of(a),
        None => None,
    }
}

/// The credential of a request; the custom header wins over the
/// authorization header.
pub fn header_token(custom: Option<&str>, authorization: Option<&str>) -> (r: Option<String>)
    ensures
        view_opt(r) == presented_token(view_opt_str(custom), view_opt_str(authorization)),
{
    if let Some(c) = custom {
        return Some(c.to_owned());
    }
    match authorization {
        Some(a) => {
            proof {
                reveal_strlit("Bearer ");
                assert("Bearer "@ =~= bearer_scheme());
            }
            strip_prefix(a, "Bearer ")
        },
        None => None,
    }
}

/// The bearer token of an authorization header, if it holds one.
pub fn authorization_bearer_token(authorization: Option<&str>) -> (r: Option<String>)
    ensures
        view_opt(r) == opt_bearer(view_opt_str(authorization)),
{
    let raw = match header_value(authorization) {
        Some(v) => v,
        None => return None,
    };
    proof {
        reveal_strlit("Bearer ");
        reveal_strlit("bearer ");
        assert("Bearer "@ =~= bearer_scheme());
        assert("bearer "@ =~= bearer_scheme_lower());
    }
    let rest = match strip_prefix(raw.as_str(), "Bearer ") {
        Some(r) => r,
        None => match strip_prefix(raw.as_str(), "bearer ") {
            Some(r) => r,
            None => return None,
        },
    };
    header_value(Some(rest.as_str()))
}

pub open spec fn is_bootstrap(config: AuthConfig, token: Seq<char>) -> bool {
    config.bootstrap_token matches Some(b) && b@ == token
}

/// What a credential resolves to without JWT verification.
pub open spec fn token_identity(
    config: AuthConfig,
    entries: Seq<crate::session::SessionEntry>,
    token: Seq<char>,
    now: i64,
) -> Option<AuthIdentity> {
    if is_bootstrap(config, token) {
        Some(AuthIdentity::Bootstrap)
    } else {
        match live_lookup(entries, token, now) {
            Some(s) => Some(AuthIdentity::Session(s)),
            None => None,
        }
    }
}

/// What a credential resolves to, where `jwt` is the outcome of verifying it
/// as a JWT.
pub open spec fn resolved_identity(
    config: AuthConfig,
    entries: Seq<crate::session::SessionEntry>,
    token: Seq<char>,
    now: i64,
    jwt: Option<JwtClaims>,
) -> Option<AuthIdentity> {
    match token_identity(config, entries, token, now) {
        Some(i) => Some(i),
        None => if config.jwt_enabled {
            match jwt {
                Some(c) => Some(AuthIdentity::Jwt(c)),
                None => None,
            }
        } else {
            None
        },
    }
}

/// Resolves `token` as the bootstrap secret or a live session at `now`.
pub fn resolve_token_identity(
    config: &AuthConfig,
    sessions: &mut SessionStore,
    token: &str,
    now: i64,
) -> (r: Option<AuthIdentity>)
    requires
        old(sessions).wf(),
    ensures
        final(sessions).wf(),
        r == token_identity(*config, old(sessions)@, token@, now),
        is_bootstrap(*config, token@) ==> final(sessions)@ == old(sessions)@,
        !is_bootstrap(*config, token@) ==> final(sessions)@ == live_only(old(sessions)@, now),
{
    if let Some(expected) = &config.bootstrap_token {
        if text_eq(token, expected.as_str()) {
            return Some(AuthIdentity::Bootstrap);
        }
    }
    match sessions.validate(token, now) {
        Some(s) => Some(AuthIdentity::Session(s)),
        None => None,
    }
}

/// Resolves `token` as the bootstrap secret, a live session at `now`, or a
/// verified JWT; `jwt` is the outcome of verifying `token` as a JWT.
pub fn resolve_auth_identity(
    config: &AuthConfig,
    sessions: &mut SessionStore,
    token: &str,
    now: i64,
    jwt: Option<JwtClaims>,
) -> (r: Option<AuthIdentity>)
    requires
        old(sessions).wf(),
    ensures
        final(sessions).wf(),
        r == resolved_identity(*config, old(sessions)@, token@, now, jwt),
        is_bootstrap(*config, token@) ==> final(sessions)@ == old(sessions)@,
        !is_bootstrap(*config, token@) ==> final(sessions)@ == live_only(old(sessions)@, now),
{
    if let Some(identity) = resolve_token_identity(config, sessions, token, now) {
        return Some(identity);
    }
    if !config.jwt_enabled {
        return None;
    }
    match jwt {
        Some(c) => Some(AuthIdentity::Jwt(c)),
        None => None,
    }
}

/// Gate of the protected routes: passes where no credential source is
/// configured, else where the presented credential resolves.
pub fn require_token(
    config: &AuthConfig,
    sessions: &mut SessionStore,
    presented: Option<&str>,
    now: i64,
    jwt: Option<JwtClaims>,
) -> (r: Result<(), AuthError>)
    requires
        old(sessions).wf(),
    ensures
        final(sessions).wf(),
        !config.auth_required() ==> r is Ok,
        config.auth_required() ==> match presented {
            None => r == Err::<(), AuthError>(AuthError::MissingToken),
            Some(t) => match resolved_identity(*config, old(sessions)@, t@, now, jwt) {
                Some(_) => r is Ok,
                None => r == Err::<(), AuthError>(AuthError::InvalidToken),
            },
        },
{
    if config.bootstrap_token.is_none() && !config.jwt_enabled {
        return Ok(());
    }
    let token = match presented {
        Some(t) => t,
        None => return Err(AuthError::MissingToken),
    };
    match resolve_auth_identity(config, sessions, token, now, jwt) {
        Some(_) => Ok(()),
        None => Err(AuthError::InvalidToken),
    }
}

/// Gate of the session-administration routes: only the bootstrap secret
/// passes; with no bootstrap secret they are open where JWT is off too, and
/// closed where it is on.
pub fn require_admin_token(config: &AuthConfig, presented: Option<&str>) -> (r: Result<(), AuthError>)
    ensures
        match config.bootstrap_token {
            Some(b) => if presented matches Some(p) && p@ == b@ {
                r is Ok
            } else {
                r == Err::<(), AuthError>(AuthError::InvalidToken)
            },
            None => if config.jwt_enabled {
                r == Err::<(), AuthError>(AuthError::AdminTokenRequired)
            } else {
                r is Ok
            },
        },
{
    match &config.bootstrap_token {
        Some(expected) => match presented {
            Some(p) => if text_eq(p, expected.as_str()) {
                Ok(())
            } else {
                Err(AuthError::InvalidToken)
            },
            None => Err(AuthError::InvalidToken),
        },
        None => if config.jwt_enabled {
            Err(AuthError::AdminTokenRequired)
        } else {
            Ok(())
        },
    }
}

/// What `whoami` reports: the credential's first characters and who it is.
#[derive(Clone, Debug)]
pub struct Whoami {
    pub token_prefix: String,
    pub identity: AuthIdentity,
}

/// Resolves the presented credential for `whoami`.
pub fn identity_whoami(
    config: &AuthConfig,
    sessions: &mut SessionStore,
    presented: Option<&str>,
    now: i64,
    jwt: Option<JwtClaims>,
) -> (r: Result<Whoami, AuthError>)
    requires
        old(sessions).wf(),
    ensures
        final(sessions).wf(),
        match presented {
            None => r == Err::<Whoami, AuthError>(AuthError::MissingToken),
            Some(t) => match resolved_identity(*config, old(sessions)@, t@, now, jwt) {
                Some(i) => r matches Ok(w) && w.identity == i && w.token_prefix@ == t@.take(
                    crate::session::prefix_len(t@),
                ),
                None => r == Err::<Whoami, AuthError>(AuthError::InvalidToken),
            },
        },
{
    let token = match presented {
        Some(t) => t,
        None => return Err(AuthError::MissingToken),
    };
    match resolve_auth_identity(config, sessions, token, now, jwt) {
        Some(identity) => Ok(Whoami { token_prefix: token_prefix(token), identity }),
        None => Err(AuthError::InvalidToken),
    }
}

/// The bearer token and claims a JWT-only route accepts, or why it refuses.
pub open spec fn jwt_check(
    config: AuthConfig,
    authorization: Option<Seq<char>>,
    verified: Option<JwtClaims>,
) -> Result<(Seq<char>, JwtClaims), AuthError> {
    if !config.jwt_enabled {
        Err(AuthError::JwtNotConfigured)
    } else {
        match opt_bearer(authorization) {
            None => Err(AuthError::AuthorizationRequired),
            Some(t) => match verified {
                None => Err(AuthError::InvalidBearer),
                Some(c) => Ok((t, c)),
            },
        }
    }
}

/// The bearer JWT of a request, for the routes that accept nothing else;
/// `verified` is the outcome of verifying the bearer token of
/// `authorization`.
pub fn require_verified_jwt(
    config: &AuthConfig,
    authorization: Option<&str>,
    verified: Option<JwtClaims>,
) -> (r: Result<(String, JwtClaims), AuthError>)
    ensures
        match jwt_check(*config, view_opt_str(authorization), verified) {
            Err(e) => r == Err::<(String, JwtClaims), AuthError>(e),
            Ok((t, c)) => r matches Ok(p) && p.0@ == t && p.1 == c,
        },
{
    if !config.jwt_enabled {
        return Err(AuthError::JwtNotConfigured);
    }
    let token = match authorization_bearer_token(authorization) {
        Some(t) => t,
        None => return Err(AuthError::AuthorizationRequired),
    };
    match verified {
        Some(c) => Ok((token, c)),
        None => Err(AuthError::InvalidBearer),
    }
}

/// The subject of verified claims, which the routes that act for a user need.
pub fn require_subject(claims: &JwtClaims) -> (r: Result<String, AuthError>)
    ensures
        match claims.subject {
            Some(s) => r == Ok::<String, AuthError>(s),
            None => r == Err::<String, AuthError>(AuthError::MissingSubject),
        },
{
    match copy_opt(&claims.subject) {
        Some(s) => Ok(s),
        None => Err(AuthError::MissingSubject),
    }
}

} // verus!
