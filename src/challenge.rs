//! The CLI pairing protocol.
//!
//! An unauthenticated CLI opens a challenge and polls it; an authenticated
//! approver approves or denies it once. `pending` moves to `approved`,
//! `denied` or `expired`, and those are final. A pending challenge read past
//! its deadline becomes `expired` on that read.

use vstd::prelude::*;

use crate::codec::{hex_encode, lemma_hex_len, random_bytes_16};
use crate::error::AuthError;
use crate::identity::{jwt_check, require_subject, require_verified_jwt, AuthConfig, JwtClaims};
use crate::session::MAX_CREATE_TIME_MS;
use crate::text::{copy_opt, text_eq, trim, trimmed, view_opt_str};

verus! {

/// How long a challenge stays open, in milliseconds (five minutes).
pub const CHALLENGE_TTL_MS: i64 = 300000;

/// Longest device name a challenge may carry, in characters.
pub const MAX_DEVICE_NAME_CHARS: usize = 128;

/// Where a pairing challenge stands; all but `Pending` are final.
#[derive(Clone, Copy, Debug, PartialEq, Eq, Structural)]
pub enum ChallengeStatus {
    Pending,
    Approved,
    Denied,
    Expired,
}

impl ChallengeStatus {
    /// The status as the wire protocol names it.
    pub fn as_str(&self) -> (r: &'static str)
        ensures
            *self == ChallengeStatus::Pending ==> r@ == "pending"@,
            *self == ChallengeStatus::Approved ==> r@ == "approved"@,
            *self == ChallengeStatus::Denied ==> r@ == "denied"@,
            *self == ChallengeStatus::Expired ==> r@ == "expired"@,
    {
        match self {
            ChallengeStatus::Pending => "pending",
            ChallengeStatus::Approved => "approved",
            ChallengeStatus::Denied => "denied",
            ChallengeStatus::Expired => "expired",
        }
    }
}

/// What an approver decides.
#[derive(Clone, Copy, Debug, PartialEq, Eq, Structural)]
pub enum ApprovalAction {
    Approve,
    Deny,
}

/// One pairing challenge.
#[derive(Clone, Debug)]
pub struct CliAuthChallenge {
    pub challenge_id: String,
    pub nonce: String,
    pub status: ChallengeStatus,
    pub device_name: Option<String>,
    pub created_at_ms: i64,
    pub expires_at_ms: i64,
    pub approved_at_ms: Option<i64>,
    pub user_id: Option<String>,
    pub tenant_id: Option<String>,
    pub session_token: Option<String>,
}

/// The party deciding a challenge, as its verified JWT shows it.
#[derive(Clone, Debug)]
pub struct Approver {
    pub user_id: String,
    pub workspace_id: Option<String>,
    pub token: String,
}

/// What a status poll reports.
#[derive(Clone, Debug)]
pub struct ChallengeStatusView {
    pub challenge_id: String,
    pub status: ChallengeStatus,
    /// Absent on the reply that first reports a lapsed challenge.
    pub expires_at_ms: Option<i64>,
    pub session_token: Option<String>,
    pub user_id: Option<String>,
    pub tenant_id: Option<String>,
    pub approved_at_ms: Option<i64>,
}

impl CliAuthChallenge {
    /// A session token is held exactly when approved; the deadline is five
    /// minutes after creation.
    pub open spec fn wf(&self) -> bool {
        &&& (self.session_token is Some <==> self.status == ChallengeStatus::Approved)
        &&& self.expires_at_ms == self.created_at_ms + CHALLENGE_TTL_MS
    }
}

/// A challenge as it is after a read at `now`.
pub open spec fn polled(c: CliAuthChallenge, now: i64) -> CliAuthChallenge {
    if c.status == ChallengeStatus::Pending && now > c.expires_at_ms {
        CliAuthChallenge { status: ChallengeStatus::Expired, ..c }
    } else {
        c
    }
}

/// What a read of `c` at `now` reports.
pub open spec fn status_view(c: CliAuthChallenge, now: i64) -> ChallengeStatusView {
    if c.status == ChallengeStatus::Pending && now > c.expires_at_ms {
        ChallengeStatusView {
            challenge_id: c.challenge_id,
            status: ChallengeStatus::Expired,
            expires_at_ms: None,
            session_token: None,
            user_id: None,
            tenant_id: None,
            approved_at_ms: None,
        }
    } else if c.status == ChallengeStatus::Approved {
        ChallengeStatusView {
            challenge_id: c.challenge_id,
            status: c.status,
            expires_at_ms: Some(c.expires_at_ms),
            session_token: c.session_token,
            user_id: c.user_id,
            tenant_id: c.tenant_id,
            approved_at_ms: c.approved_at_ms,
        }
    } else {
        ChallengeStatusView {
            challenge_id: c.challenge_id,
            status: c.status,
            expires_at_ms: Some(c.expires_at_ms),
            session_token: None,
            user_id: None,
            tenant_id: None,
            approved_at_ms: None,
        }
    }
}

/// A challenge after the decision `action` of `approver` at `now`.
pub open spec fn decided(
    c: CliAuthChallenge,
    action: ApprovalAction,
    approver: Approver,
    now: i64,
) -> CliAuthChallenge {
    if c.status != ChallengeStatus::Pending {
        c
    } else if now > c.expires_at_ms {
        CliAuthChallenge { status: ChallengeStatus::Expired, ..c }
    } else if action == ApprovalAction::Deny {
        CliAuthChallenge { status: ChallengeStatus::Denied, user_id: Some(approver.user_id), ..c }
    } else {
        CliAuthChallenge {
            status: ChallengeStatus::Approved,
            user_id: Some(approver.user_id),
            tenant_id: approver.workspace_id,
            session_token: Some(approver.token),
            approved_at_ms: Some(now),
            ..c
        }
    }
}

/// What the decision `action` at `now` returns.
pub open spec fn decision_result(c: CliAuthChallenge, action: ApprovalAction, now: i64) -> Result<
    ChallengeStatus,
    AuthError,
> {
    if c.status != ChallengeStatus::Pending {
        Err(AuthError::ChallengeAlready(c.status))
    } else if now > c.expires_at_ms {
        Err(AuthError::ChallengeExpired)
    } else if action == ApprovalAction::Deny {
        Ok(ChallengeStatus::Denied)
    } else {
        Ok(ChallengeStatus::Approved)
    }
}

fn copy_challenge(c: &CliAuthChallenge) -> (r: CliAuthChallenge)
    ensures
        r == *c,
{
    CliAuthChallenge {
        challenge_id: c.challenge_id.clone(),
        nonce: c.nonce.clone(),
        status: c.status,
        device_name: copy_opt(&c.device_name),
        created_at_ms: c.created_at_ms,
        expires_at_ms: c.expires_at_ms,
        approved_at_ms: c.approved_at_ms,
        user_id: copy_opt(&c.user_id),
        tenant_id: copy_opt(&c.tenant_id),
        session_token: copy_opt(&c.session_token),
    }
}

impl CliAuthChallenge {
    /// A pending challenge opened at `now`.
    pub fn new(challenge_id: String, nonce: String, device_name: Option<String>, now: i64) -> (r:
        CliAuthChallenge)
        requires
            now <= MAX_CREATE_TIME_MS,
        ensures
            r.wf(),
            r.challenge_id == challenge_id,
            r.nonce == nonce,
            r.device_name == device_name,
            r.status == ChallengeStatus::Pending,
            r.created_at_ms == now,
            r.approved_at_ms is None,
            r.user_id is None,
            r.tenant_id is None,
    {
        CliAuthChallenge {
            challenge_id,
            nonce,
            status: ChallengeStatus::Pending,
            device_name,
            created_at_ms: now,
            expires_at_ms: now + CHALLENGE_TTL_MS,
            approved_at_ms: None,
            user_id: None,
            tenant_id: None,
            session_token: None,
        }
    }

    /// Reads the challenge at `now`, expiring it first where it is pending
    /// past its deadline.
    pub fn poll(&mut self, now: i64) -> (r: ChallengeStatusView)
        requires
            old(self).wf(),
        ensures
            final(self).wf(),
            *final(self) == polled(*old(self), now),
            r == status_view(*old(self), now),
    {
        if self.status == ChallengeStatus::Pending && now > self.expires_at_ms {
            self.status = ChallengeStatus::Expired;
            return ChallengeStatusView {
                challenge_id: self.challenge_id.clone(),
                status: ChallengeStatus::Expired,
                expires_at_ms: None,
                session_token: None,
                user_id: None,
                tenant_id: None,
                approved_at_ms: None,
            };
        }
        if self.status == ChallengeStatus::Approved {
            ChallengeStatusView {
                challenge_id: self.challenge_id.clone(),
                status: self.status,
                expires_at_ms: Some(self.expires_at_ms),
                session_token: copy_opt(&self.session_token),
                user_id: copy_opt(&self.user_id),
                tenant_id: copy_opt(&self.tenant_id),
                approved_at_ms: self.approved_at_ms,
            }
        } else {
            ChallengeStatusView {
                challenge_id: self.challenge_id.clone(),
                status: self.status,
                expires_at_ms: Some(self.expires_at_ms),
                session_token: None,
                user_id: None,
                tenant_id: None,
                approved_at_ms: None,
            }
        }
    }

    /// Applies the approver's decision: only a pending challenge within its
    /// deadline can be decided; an approval hands the approver's own token to
    /// the CLI as its session token.
    pub fn decide(&mut self, action: ApprovalAction, approver: Approver, now: i64) -> (r: Result<
        ChallengeStatus,
        AuthError,
    >)
        requires
            old(self).wf(),
        ensures
            final(self).wf(),
            *final(self) == decided(*old(self), action, approver, now),
            r == decision_result(*old(self), action, now),
    {
        if self.status != ChallengeStatus::Pending {
            return Err(AuthError::ChallengeAlready(self.status));
        }
        if now > self.expires_at_ms {
            self.status = ChallengeStatus::Expired;
            return Err(AuthError::ChallengeExpired);
        }
        match action {
            ApprovalAction::Deny => {
                self.status = ChallengeStatus::Denied;
                self.user_id = Some(approver.user_id);
                Ok(ChallengeStatus::Denied)
            },
            ApprovalAction::Approve => {
                self.status = ChallengeStatus::Approved;
                self.user_id = Some(approver.user_id);
                self.tenant_id = approver.workspace_id;
                self.session_token = Some(approver.token);
                self.approved_at_ms = Some(now);
                Ok(ChallengeStatus::Approved)
            },
        }
    }
}

/// A challenge can be decided once: after a decision that succeeded, any
/// further decision is refused as a conflict and changes nothing.
pub proof fn lemma_decided_once(
    c: CliAuthChallenge,
    first: ApprovalAction,
    first_by: Approver,
    first_at: i64,
    second: ApprovalAction,
    second_by: Approver,
    second_at: i64,
)
    requires
        c.wf(),
        decision_result(c, first, first_at) is Ok,
    ensures
        ({
            let d = decided(c, first, first_by, first_at);
            &&& decision_result(d, second, second_at) == Err::<ChallengeStatus, AuthError>(
                AuthError::ChallengeAlready(d.status),
            )
            &&& decided(d, second, second_by, second_at) == d
            &&& d.status == (if first == ApprovalAction::Approve {
                ChallengeStatus::Approved
            } else {
                ChallengeStatus::Denied
            })
        }),
{
}

/// A pending challenge read after its deadline reports `expired`, and stays
/// expired, with no other call needed.
pub proof fn lemma_lazy_expiry(c: CliAuthChallenge, now: i64, later: i64)
    requires
        c.wf(),
        c.status == ChallengeStatus::Pending,
        now > c.created_at_ms + CHALLENGE_TTL_MS,
    ensures
        status_view(c, now).status == ChallengeStatus::Expired,
        polled(c, now).status == ChallengeStatus::Expired,
        status_view(polled(c, now), later).status == ChallengeStatus::Expired,
{
}

/// The device name of a new challenge: trimmed, absent where blank, and
/// refused where longer than 128 characters.
pub open spec fn device_name_of(name: Option<Seq<char>>) -> Result<Option<Seq<char>>, AuthError> {
    match name {
        None => Ok(None),
        Some(n) => if trimmed(n).len() == 0 {
            Ok(None)
        } else if trimmed(n).len() > MAX_DEVICE_NAME_CHARS {
            Err(AuthError::InvalidBody)
        } else {
            Ok(Some(trimmed(n)))
        },
    }
}

pub open spec fn view_device(r: Result<Option<String>, AuthError>) -> Result<Option<Seq<char>>, AuthError> {
    match r {
        Ok(Some(s)) => Ok(Some(s@)),
        Ok(None) => Ok(None),
        Err(e) => Err(e),
    }
}

/// Checks and normalizes the device name a CLI offers.
pub fn normalize_device_name(name: Option<&str>) -> (r: Result<Option<String>, AuthError>)
    ensures
        view_device(r) == device_name_of(crate::text::view_opt_str(name)),
{
    match name {
        None => Ok(None),
        Some(n) => {
            let t = trim(n);
            let len = t.as_str().unicode_len();
            if len == 0 {
                Ok(None)
            } else if len > MAX_DEVICE_NAME_CHARS {
                Err(AuthError::InvalidBody)
            } else {
                Ok(Some(t))
            }
        },
    }
}

pub open spec fn action_of(text: Seq<char>) -> Result<ApprovalAction, AuthError> {
    if trimmed(text) == seq!['a', 'p', 'p', 'r', 'o', 'v', 'e'] {
        Ok(ApprovalAction::Approve)
    } else if trimmed(text) == seq!['d', 'e', 'n', 'y'] {
        Ok(ApprovalAction::Deny)
    } else {
        Err(AuthError::InvalidBody)
    }
}

/// Reads the `action` field of an approval: `approve` or `deny`, around
/// whitespace.
pub fn parse_approval_action(text: &str) -> (r: Result<ApprovalAction, AuthError>)
    ensures
        r == action_of(text@),
{
    let t = trim(text);
    proof {
        reveal_strlit("approve");
        reveal_strlit("deny");
        assert("approve"@ =~= seq!['a', 'p', 'p', 'r', 'o', 'v', 'e']);
        assert("deny"@ =~= seq!['d', 'e', 'n', 'y']);
    }
    if text_eq(t.as_str(), "approve") {
        Ok(ApprovalAction::Approve)
    } else if text_eq(t.as_str(), "deny") {
        Ok(ApprovalAction::Deny)
    } else {
        Err(AuthError::InvalidBody)
    }
}

/// `i` is the newest challenge of `id` in `s`.
pub open spec fn is_newest(s: Seq<CliAuthChallenge>, id: Seq<char>, i: int) -> bool {
    &&& 0 <= i < s.len()
    &&& s[i].challenge_id@ == id
    &&& forall|k: int| i < k < s.len() ==> s[k].challenge_id@ != id
}

/// No challenge of `id` in `s`.
pub open spec fn absent(s: Seq<CliAuthChallenge>, id: Seq<char>) -> bool {
    forall|i: int| 0 <= i < s.len() ==> s[i].challenge_id@ != id
}

/// The open and decided challenges; a request names a challenge by id and
/// acts on the newest of that id.
pub struct ChallengeBook {
    items: Vec<CliAuthChallenge>,
}

impl View for ChallengeBook {
    type V = Seq<CliAuthChallenge>;

    closed spec fn view(&self) -> Seq<CliAuthChallenge> {
        self.items@
    }
}

impl ChallengeBook {
    pub open spec fn wf(&self) -> bool {
        forall|i: int| 0 <= i < self@.len() ==> (#[trigger] self@[i]).wf()
    }

    pub fn new() -> (r: Self)
        ensures
            r.wf(),
            r@ == Seq::<CliAuthChallenge>::empty(),
    {
        ChallengeBook { items: Vec::new() }
    }

    fn position(&self, id: &str) -> (r: Option<usize>)
        ensures
            r matches Some(i) ==> is_newest(self@, id@, i as int),
            r is None ==> absent(self@, id@),
    {
        let mut j: usize = self.items.len();
        while j > 0
            invariant
                j <= self@.len(),
                forall|k: int| j <= k < self@.len() ==> self@[k].challenge_id@ != id@,
            decreases j,
        {
            if text_eq(self.items[j - 1].challenge_id.as_str(), id) {
                return Some(j - 1);
            }
            j = j - 1;
        }
        None
    }

    /// Adds a challenge.
    pub fn open(&mut self, c: CliAuthChallenge)
        requires
            old(self).wf(),
            c.wf(),
        ensures
            final(self).wf(),
            final(self)@ == old(self)@.push(c),
    {
        self.items.push(c);
    }

    /// A copy of the newest challenge of `id`.
    pub fn get(&self, id: &str) -> (r: Option<CliAuthChallenge>)
        ensures
            absent(self@, id@) ==> r is None,
            forall|i: int| is_newest(self@, id@, i) ==> r == Some(self@[i]),
    {
        match self.position(id) {
            Some(i) => Some(copy_challenge(&self.items[i])),
            None => None,
        }
    }

    /// Polls the challenge `id` at `now`.
    pub fn status(&mut self, id: &str, now: i64) -> (r: Result<ChallengeStatusView, AuthError>)
        requires
            old(self).wf(),
        ensures
            final(self).wf(),
            absent(old(self)@, id@) ==> r == Err::<ChallengeStatusView, AuthError>(
                AuthError::ChallengeNotFound,
            ) && final(self)@ == old(self)@,
            forall|i: int|
                is_newest(old(self)@, id@, i) ==> r == Ok::<ChallengeStatusView, AuthError>(
                    status_view(old(self)@[i], now),
                ) && final(self)@ == old(self)@.update(i, polled(old(self)@[i], now)),
    {
        match self.position(id) {
            None => Err(AuthError::ChallengeNotFound),
            Some(i) => {
                let mut c = copy_challenge(&self.items[i]);
                let view = c.poll(now);
                self.items.set(i, c);
                Ok(view)
            },
        }
    }

    /// Applies an approver's decision to the challenge `id` at `now`.
    pub fn decide(&mut self, id: &str, action: ApprovalAction, approver: Approver, now: i64) -> (r:
        Result<ChallengeStatus, AuthError>)
        requires
            old(self).wf(),
        ensures
            final(self).wf(),
            absent(old(self)@, id@) ==> r == Err::<ChallengeStatus, AuthError>(
                AuthError::ChallengeNotFound,
            ) && final(self)@ == old(self)@,
            forall|i: int|
                is_newest(old(self)@, id@, i) ==> r == decision_result(old(self)@[i], action, now)
                    && final(self)@ == old(self)@.update(
                    i,
                    decided(old(self)@[i], action, approver, now),
                ),
    {
        match self.position(id) {
            None => Err(AuthError::ChallengeNotFound),
            Some(i) => {
                let mut c = copy_challenge(&self.items[i]);
                let r = c.decide(action, approver, now);
                self.items.set(i, c);
                r
            },
        }
    }
}

/// What opening a challenge returns to the CLI.
#[derive(Clone, Debug)]
pub struct ChallengeCreated {
    pub challenge_id: String,
    pub nonce: String,
    pub expires_at_ms: i64,
    pub challenge_url: String,
}

/// The approval page of a challenge under the application at `app_url`.
pub open spec fn challenge_url_of(app_url: Seq<char>, id: Seq<char>, nonce: Seq<char>) -> Seq<char> {
    crate::text::trim_end_char(app_url, '/') + "/cli-login?challenge="@ + id + "&nonce="@ + nonce
}

/// Handles a request to open a challenge: checks the device name, draws a
/// random identifier and a random 128-bit nonce (hex), and stores a pending
/// challenge that lapses five minutes after `now`.
pub fn create_cli_auth_challenge(
    book: &mut ChallengeBook,
    device_name: Option<&str>,
    app_url: &str,
    now: i64,
) -> (r: Result<ChallengeCreated, AuthError>)
    requires
        old(book).wf(),
        now <= MAX_CREATE_TIME_MS,
    ensures
        final(book).wf(),
        device_name_of(crate::text::view_opt_str(device_name)) is Err ==> r
            == Err::<ChallengeCreated, AuthError>(AuthError::InvalidBody) && final(book)@ == old(
            book,
        )@,
        device_name_of(crate::text::view_opt_str(device_name)) matches Ok(d) ==> r matches Ok(
            created,
        ) && final(book)@.len() == old(book)@.len() + 1 && final(book)@.drop_last() == old(book)@
            && ({
            let c = final(book)@.last();
            &&& c.status == ChallengeStatus::Pending
            &&& c.challenge_id@ == created.challenge_id@
            &&& c.nonce@ == created.nonce@
            &&& crate::text::view_opt(c.device_name) == d
            &&& c.created_at_ms == now
            &&& created.expires_at_ms == now + CHALLENGE_TTL_MS
            &&& c.expires_at_ms == created.expires_at_ms
            &&& created.nonce@.len() == 32
            &&& created.challenge_id@.len() == 32
            &&& created.challenge_url@ == challenge_url_of(
                app_url@,
                created.challenge_id@,
                created.nonce@,
            )
        }),
{
    let device = match normalize_device_name(device_name) {
        Ok(d) => d,
        Err(e) => return Err(e),
    };
    let id_bytes = random_bytes_16();
    let nonce_bytes = random_bytes_16();
    let challenge_id = hex_encode(id_bytes.as_slice());
    let nonce = hex_encode(nonce_bytes.as_slice());
    proof {
        lemma_hex_len(id_bytes@);
        lemma_hex_len(nonce_bytes@);
    }
    let base = crate::text::trim_end_matches(app_url, '/');
    let url = base.concat("/cli-login?challenge=").concat(challenge_id.as_str()).concat(
        "&nonce=",
    ).concat(nonce.as_str());
    let c = CliAuthChallenge::new(challenge_id.clone(), nonce.clone(), device, now);
    let expires = c.expires_at_ms;
    book.open(c);
    proof {
        assert(book@.drop_last() =~= old(book)@);
    }
    Ok(ChallengeCreated { challenge_id, nonce, expires_at_ms: expires, challenge_url: url })
}

/// What an approval request carries once its action and credential check
/// out: the action, the approver's subject and workspace claim, and the
/// bearer token.
pub open spec fn approval_request(
    config: AuthConfig,
    action: Seq<char>,
    authorization: Option<Seq<char>>,
    verified: Option<JwtClaims>,
) -> Result<(ApprovalAction, String, Option<String>, Seq<char>), AuthError> {
    match action_of(action) {
        Err(e) => Err(e),
        Ok(a) => match jwt_check(config, authorization, verified) {
            Err(e) => Err(e),
            Ok((t, c)) => match c.subject {
                None => Err(AuthError::MissingSubject),
                Some(sub) => Ok((a, sub, c.workspace_id, t)),
            },
        },
    }
}

/// Handles a decision on the challenge `id`: the action must read `approve`
/// or `deny`, the approver must present a verified bearer JWT with a
/// subject; `verified` is the outcome of verifying that bearer token. An
/// approval grants the CLI the approver's own bearer token.
pub fn cli_auth_challenge_approve(
    book: &mut ChallengeBook,
    config: &AuthConfig,
    id: &str,
    action: &str,
    authorization: Option<&str>,
    verified: Option<JwtClaims>,
    now: i64,
) -> (r: Result<ChallengeStatus, AuthError>)
    requires
        old(book).wf(),
    ensures
        final(book).wf(),
        match approval_request(*config, action@, view_opt_str(authorization), verified) {
            Err(e) => r == Err::<ChallengeStatus, AuthError>(e) && final(book)@ == old(book)@,
            Ok((a, sub, ws, tok)) => {
                &&& absent(old(book)@, id@) ==> r == Err::<ChallengeStatus, AuthError>(
                    AuthError::ChallengeNotFound,
                ) && final(book)@ == old(book)@
                &&& forall|i: int|
                    is_newest(old(book)@, id@, i) ==> r == decision_result(old(book)@[i], a, now)
                        && exists|ap: Approver|
                        ap.user_id == sub && ap.workspace_id == ws && ap.token@ == tok
                            && final(book)@ == old(book)@.update(
                            i,
                            decided(old(book)@[i], a, ap, now),
                        )
            },
        },
{
    let a = match parse_approval_action(action) {
        Ok(a) => a,
        Err(e) => return Err(e),
    };
    let (token, claims) = match require_verified_jwt(config, authorization, verified) {
        Ok(p) => p,
        Err(e) => return Err(e),
    };
    let user_id = match require_subject(&claims) {
        Ok(s) => s,
        Err(e) => return Err(e),
    };
    let approver = Approver { user_id, workspace_id: copy_opt(&claims.workspace_id), token };
    let ghost ap = approver;
    let r = book.decide(id, a, approver, now);
    assert forall|i: int| is_newest(old(book)@, id@, i) implies r == decision_result(
        old(book)@[i],
        a,
        now,
    ) && exists|x: Approver|
        x.user_id == ap.user_id && x.workspace_id == ap.workspace_id && x.token@ == ap.token@
            && book@ == old(book)@.update(i, decided(old(book)@[i], a, x, now)) by {
        assert(book@ == old(book)@.update(i, decided(old(book)@[i], a, ap, now)));
    }
    r
}

} // verus!
