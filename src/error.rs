//! The failures this core reports, and the HTTP status each maps to.

use vstd::prelude::*;

use crate::challenge::ChallengeStatus;
use crate::intent::IntentStatus;

verus! {

/// The error taxonomy: each kind maps to one HTTP status.
#[derive(Clone, Copy, Debug, PartialEq, Eq, Structural)]
pub enum ErrorKind {
    Validation,
    Unauthorized,
    Forbidden,
    NotFound,
    Conflict,
    Gone,
    UnprocessableEntity,
    ServiceUnavailable,
    Internal,
}

pub open spec fn kind_status(k: ErrorKind) -> u16 {
    match k {
        ErrorKind::Validation => 400,
        ErrorKind::Unauthorized => 401,
        ErrorKind::Forbidden => 403,
        ErrorKind::NotFound => 404,
        ErrorKind::Conflict => 409,
        ErrorKind::Gone => 410,
        ErrorKind::UnprocessableEntity => 422,
        ErrorKind::ServiceUnavailable => 503,
        ErrorKind::Internal => 500,
    }
}

impl ErrorKind {
    /// The HTTP status code of this kind.
    pub fn status_code(&self) -> (r: u16)
        ensures
            r == kind_status(*self),
    {
        match self {
            ErrorKind::Validation => 400,
            ErrorKind::Unauthorized => 401,
            ErrorKind::Forbidden => 403,
            ErrorKind::NotFound => 404,
            ErrorKind::Conflict => 409,
            ErrorKind::Gone => 410,
            ErrorKind::UnprocessableEntity => 422,
            ErrorKind::ServiceUnavailable => 503,
            ErrorKind::Internal => 500,
        }
    }
}

/// Each distinct way an identity or authorization decision can fail.
#[derive(Clone, Copy, Debug, PartialEq, Eq, Structural)]
pub enum AuthError {
    InvalidBody,
    SlugRequired,
    TenantSlugRequired,
    TtlOutOfRange,
    MissingToken,
    InvalidToken,
    JwtNotConfigured,
    AuthorizationRequired,
    InvalidBearer,
    MissingSubject,
    BearerRequired,
    NoCredential,
    AdminTokenRequired,
    FounderRequired,
    AppScopeMismatch,
    NoTenantMembership,
    NotTenantMember,
    NotAppMember,
    PrivateDataAdminOnly,
    MembersCannotWrite,
    EmailRequired,
    NotOnAllowlist,
    ChallengeNotFound,
    SigningKeyNotFound,
    IntentNotFound,
    UserNotFound,
    TenantNotFound,
    ChallengeAlready(ChallengeStatus),
    NonceAlreadyUsed,
    IntentNotVerified(IntentStatus),
    ChallengeExpired,
    IntentExpired,
    UnsupportedAlgorithm,
    SignatureInvalid,
}

pub open spec fn error_kind(e: AuthError) -> ErrorKind {
    match e {
        AuthError::InvalidBody | AuthError::TtlOutOfRange | AuthError::SlugRequired
        | AuthError::TenantSlugRequired => ErrorKind::Validation,
        AuthError::MissingToken | AuthError::InvalidToken | AuthError::JwtNotConfigured
        | AuthError::AuthorizationRequired | AuthError::InvalidBearer
        | AuthError::MissingSubject | AuthError::BearerRequired
        | AuthError::NoCredential => ErrorKind::Unauthorized,
        AuthError::AdminTokenRequired | AuthError::FounderRequired | AuthError::AppScopeMismatch
        | AuthError::NoTenantMembership | AuthError::NotTenantMember | AuthError::NotAppMember
        | AuthError::PrivateDataAdminOnly | AuthError::MembersCannotWrite
        | AuthError::EmailRequired | AuthError::NotOnAllowlist => ErrorKind::Forbidden,
        AuthError::ChallengeNotFound | AuthError::SigningKeyNotFound
        | AuthError::IntentNotFound | AuthError::UserNotFound
        | AuthError::TenantNotFound => ErrorKind::NotFound,
        AuthError::ChallengeAlready(_) | AuthError::NonceAlreadyUsed
        | AuthError::IntentNotVerified(_) => ErrorKind::Conflict,
        AuthError::ChallengeExpired | AuthError::IntentExpired => ErrorKind::Gone,
        AuthError::UnsupportedAlgorithm | AuthError::SignatureInvalid => ErrorKind::UnprocessableEntity,
    }
}

impl AuthError {
    /// The kind of this error.
    pub fn kind(&self) -> (r: ErrorKind)
        ensures
            r == error_kind(*self),
    {
        match self {
            AuthError::InvalidBody | AuthError::TtlOutOfRange | AuthError::SlugRequired
        | AuthError::TenantSlugRequired => ErrorKind::Validation,
            AuthError::MissingToken | AuthError::InvalidToken | AuthError::JwtNotConfigured
            | AuthError::AuthorizationRequired | AuthError::InvalidBearer
            | AuthError::MissingSubject | AuthError::BearerRequired
        | AuthError::NoCredential => ErrorKind::Unauthorized,
            AuthError::AdminTokenRequired | AuthError::FounderRequired
            | AuthError::AppScopeMismatch | AuthError::NoTenantMembership
            | AuthError::NotTenantMember | AuthError::NotAppMember
            | AuthError::PrivateDataAdminOnly
            | AuthError::MembersCannotWrite | AuthError::EmailRequired
            | AuthError::NotOnAllowlist => ErrorKind::Forbidden,
            AuthError::ChallengeNotFound | AuthError::SigningKeyNotFound
            | AuthError::IntentNotFound | AuthError::UserNotFound
        | AuthError::TenantNotFound => ErrorKind::NotFound,
            AuthError::ChallengeAlready(_) | AuthError::NonceAlreadyUsed
            | AuthError::IntentNotVerified(_) => ErrorKind::Conflict,
            AuthError::ChallengeExpired | AuthError::IntentExpired => ErrorKind::Gone,
            AuthError::UnsupportedAlgorithm
            | AuthError::SignatureInvalid => ErrorKind::UnprocessableEntity,
        }
    }

    /// The HTTP status code of this error.
    pub fn status_code(&self) -> (r: u16)
        ensures
            r == kind_status(error_kind(*self)),
    {
        self.kind().status_code()
    }

    /// The minimal, non-leaking message shown to the caller.
    pub fn message(&self) -> String {
        let s = match self {
            AuthError::InvalidBody => "Invalid request body",
            AuthError::SlugRequired => "slug is required",
            AuthError::TenantSlugRequired => "tenant_slug is required",
            AuthError::TtlOutOfRange => "ttl_seconds must be between 60 and 604800",
            AuthError::MissingToken => "missing auth token",
            AuthError::InvalidToken => "unauthorized",
            AuthError::JwtNotConfigured => "JWT auth is not configured",
            AuthError::AuthorizationRequired => "Authorization required",
            AuthError::InvalidBearer => "Unauthorized: invalid Bearer token",
            AuthError::MissingSubject => "Unauthorized: JWT missing sub claim",
            AuthError::BearerRequired => "Authorization header with Bearer token required",
            AuthError::NoCredential => "Unauthorized: no valid credential provided",
            AuthError::AdminTokenRequired => "admin routes require the bootstrap token",
            AuthError::FounderRequired => "founder capability required",
            AuthError::AppScopeMismatch => "App scope mismatch",
            AuthError::NoTenantMembership => "User must belong to at least one tenant",
            AuthError::NotTenantMember => "User is not a member of this tenant",
            AuthError::NotAppMember => "User is not a member of this app",
            AuthError::PrivateDataAdminOnly => "Private data is only available to app admins",
            AuthError::MembersCannotWrite => "Members cannot change tenant/app data",
            AuthError::EmailRequired => "Email-based signup is required for this tenant",
            AuthError::NotOnAllowlist => "Email is not on the allowlist for this tenant",
            AuthError::ChallengeNotFound => "Challenge not found",
            AuthError::SigningKeyNotFound => "Signing key not found or revoked",
            AuthError::IntentNotFound => "Intent not found",
            AuthError::UserNotFound => "User not found",
            AuthError::TenantNotFound => "Tenant not found",
            AuthError::ChallengeAlready(status) => {
                return String::from_str("Challenge is already ").concat(status.as_str());
            },
            AuthError::NonceAlreadyUsed => "Nonce already used",
            AuthError::IntentNotVerified(status) => {
                return String::from_str("Intent is not verified (status: ").concat(
                    status.as_str(),
                ).concat(")");
            },
            AuthError::ChallengeExpired => "Challenge has expired",
            AuthError::IntentExpired => "Intent has expired",
            AuthError::UnsupportedAlgorithm => "Unsupported signing algorithm",
            AuthError::SignatureInvalid => "Signature verification failed",
        };
        String::from_str(s)
    }
}

} // verus!
