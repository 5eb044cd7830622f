//! The signed-intent protocol.
//!
//! A founder registers Ed25519 public keys, then submits intents signed
//! offline. Verification checks shape, freshness, nonce, key and signature,
//! and stores the intent only when all pass; execution later consumes a
//! verified intent once. Every decision after the founder check lands in the
//! audit trail.
//!
//! Re-executing an intent is refused: execution moves it from `verified` to
//! `executed`, and only a `verified` intent executes.

use vstd::prelude::*;

use crate::codec::{
    base64_decode, base64_decoded, ed25519_accepts, ed25519_verify, hex_decode, hex_decoded,
    hex_encode, hex_of, json_string, json_string_of, random_bytes_16, sha256, sha256_of,
};
use crate::error::AuthError;
use crate::identity::{AuthConfig, JwtClaims};
use crate::rbac::{founder_check, require_founder_user, Directory};
use crate::text::{copy_opt, text_eq, trim, trimmed, view_opt_str};
use crate::timestamp::parse_timestamp_ms;

verus! {

/// Shortest nonce an intent may carry, in bytes.
pub const MIN_NONCE_BYTES: usize = 16;

/// Longest nonce an intent may carry, in bytes.
pub const MAX_NONCE_BYTES: usize = 128;

/// Shortest public key text a founder may register, in bytes.
pub const MIN_PUBLIC_KEY_BYTES: usize = 32;

/// Where a stored intent stands.
#[derive(Clone, Copy, Debug, PartialEq, Eq, Structural)]
pub enum IntentStatus {
    Verified,
    Executed,
}

impl IntentStatus {
    /// The status as the wire protocol names it.
    pub fn as_str(&self) -> (r: &'static str)
        ensures
            *self == IntentStatus::Verified ==> r@ == "verified"@,
            *self == IntentStatus::Executed ==> r@ == "executed"@,
    {
        match self {
            IntentStatus::Verified => "verified",
            IntentStatus::Executed => "executed",
        }
    }
}

/// Whether a signing key may still sign.
#[derive(Clone, Copy, Debug, PartialEq, Eq, Structural)]
pub enum KeyStatus {
    Active,
    Revoked,
}

/// A founder's registered public key.
#[derive(Clone, Debug)]
pub struct FounderSigningKey {
    pub key_id: String,
    pub user_id: String,
    /// Hex text of the raw public key.
    pub public_key: String,
    pub algorithm: String,
    pub status: KeyStatus,
}

/// An intent that passed verification.
#[derive(Clone, Debug)]
pub struct ProtectedIntent {
    pub intent_id: String,
    pub actor_user_id: String,
    pub tenant_id: Option<String>,
    pub app_id: Option<String>,
    pub nonce: String,
    /// Hex of the SHA-256 digest of the canonical signed message.
    pub payload_hash: String,
    pub signing_key_id: String,
    pub signature: String,
    pub expires_at_ms: i64,
    pub status: IntentStatus,
    pub verified_at_ms: i64,
}

/// Which protocol step an audit entry records.
#[derive(Clone, Copy, Debug, PartialEq, Eq, Structural)]
pub enum AuditAction {
    IntentVerify,
    IntentExecute,
}

/// Why a step was denied.
#[derive(Clone, Copy, Debug, PartialEq, Eq, Structural)]
pub enum DenyReason {
    IntentExpired,
    NonceReplay,
    KeyNotFound,
    UnsupportedAlgorithm,
    SignatureInvalid,
    NotVerified(IntentStatus),
}

/// One decision of the protocol; the trail only grows.
#[derive(Clone, Debug)]
pub struct AuditEntry {
    pub actor_user_id: String,
    pub intent_id: Option<String>,
    pub action: AuditAction,
    /// `None` where the step was allowed.
    pub deny_reason: Option<DenyReason>,
    /// Set on an allowed execution.
    pub dispatched: bool,
    pub recorded_at_ms: i64,
}

/// A request to verify a signed intent.
#[derive(Clone, Debug)]
pub struct IntentRequest {
    pub signing_key_id: String,
    pub nonce: String,
    /// The payload as compact JSON text, exactly as signed.
    pub payload: String,
    /// Standard base64 of the 64-byte signature.
    pub signature: String,
    /// The deadline as signed, in RFC 3339 form.
    pub expires_at: String,
    pub tenant_id: Option<String>,
    pub app_id: Option<String>,
}

/// A JSON string literal of `s`; an empty literal where serializing fails.
pub open spec fn json_quoted(s: Seq<char>) -> Seq<char> {
    match json_string_of(s) {
        Some(j) => j,
        None => "\"\""@,
    }
}

/// The message a founder signs: nonce, deadline and payload, in that order,
/// as one JSON object.
pub open spec fn canonical_of(nonce: Seq<char>, expires_at: Seq<char>, payload: Seq<char>) -> Seq<
    char,
> {
    "{\"nonce\":"@ + json_quoted(nonce) + ",\"expires_at\":"@ + json_quoted(expires_at)
        + ",\"payload\":"@ + payload + "}"@
}

fn quoted(s: &str) -> (r: String)
    ensures
        r@ == json_quoted(s@),
{
    match json_string(s) {
        Some(j) => j,
        None => String::from_str("\"\""),
    }
}

/// The bytes under signature.
pub open spec fn canonical_bytes(nonce: Seq<char>, expires_at: Seq<char>, payload: Seq<char>) -> Seq<
    u8,
> {
    vstd::utf8::encode_utf8(canonical_of(nonce, expires_at, payload))
}

/// Builds the canonical signed message of an intent.
pub fn canonical_intent_payload(nonce: &str, expires_at: &str, payload: &str) -> (r: String)
    ensures
        r@ == canonical_of(nonce@, expires_at@, payload@),
{
    let n = quoted(nonce);
    let e = quoted(expires_at);
    String::from_str("{\"nonce\":").concat(n.as_str()).concat(",\"expires_at\":").concat(
        e.as_str(),
    ).concat(",\"payload\":").concat(payload).concat("}")
}

/// Whether `signature_b64` is an Ed25519 signature of `message` under the
/// hex public key: the key must decode to 32 bytes and the signature to 64.
pub open spec fn ed25519_valid(public_key_hex: Seq<char>, message: Seq<u8>, signature_b64: Seq<char>) -> bool {
    match hex_decoded(public_key_hex) {
        Some(k) => k.len() == 32 && match base64_decoded(signature_b64) {
            Some(g) => g.len() == 64 && ed25519_accepts(k, message, g),
            None => false,
        },
        None => false,
    }
}

/// Checks an Ed25519 signature given as base64 against a hex public key.
pub fn verify_ed25519(public_key_hex: &str, message: &str, signature_b64: &str) -> (r: bool)
    ensures
        r == ed25519_valid(public_key_hex@, vstd::utf8::encode_utf8(message@), signature_b64@),
{
    let key = match hex_decode(public_key_hex) {
        Some(k) => k,
        None => return false,
    };
    if key.len() != 32 {
        return false;
    }
    let sig = match base64_decode(signature_b64) {
        Some(s) => s,
        None => return false,
    };
    if sig.len() != 64 {
        return false;
    }
    ed25519_verify(key.as_slice(), message.as_bytes(), sig.as_slice())
}

/// A payload other than the signed one gives other bytes under signature,
/// nonce and deadline held fixed.
pub proof fn lemma_payload_bound_to_message(
    nonce: Seq<char>,
    expires_at: Seq<char>,
    payload: Seq<char>,
    tampered: Seq<char>,
)
    requires
        payload != tampered,
    ensures
        canonical_bytes(nonce, expires_at, payload) != canonical_bytes(nonce, expires_at, tampered),
{
    let head = "{\"nonce\":"@ + json_quoted(nonce) + ",\"expires_at\":"@ + json_quoted(expires_at)
        + ",\"payload\":"@;
    let a = canonical_of(nonce, expires_at, payload);
    let b = canonical_of(nonce, expires_at, tampered);
    assert(a == head + payload + "}"@);
    assert(b == head + tampered + "}"@);
    vstd::utf8::encode_utf8_decode_utf8(a);
    vstd::utf8::encode_utf8_decode_utf8(b);
    if a == b {
        reveal_strlit("}");
        assert(a.subrange(head.len() as int, a.len() - 1) =~= payload);
        assert(b.subrange(head.len() as int, b.len() - 1) =~= tampered);
    }
}

pub open spec fn ed25519_name() -> Seq<char> {
    seq!['e', 'd', '2', '5', '5', '1', '9']
}

/// The nonce is already held by a stored intent.
pub open spec fn nonce_used(intents: Seq<ProtectedIntent>, nonce: Seq<char>) -> bool {
    exists|i: int| 0 <= i < intents.len() && (#[trigger] intents[i]).nonce@ == nonce
}

/// No two stored intents share a nonce.
pub open spec fn nonces_unique(intents: Seq<ProtectedIntent>) -> bool {
    forall|i: int, j: int|
        0 <= i < intents.len() && 0 <= j < intents.len() && i != j ==> (#[trigger] intents[i]).nonce@
            != (#[trigger] intents[j]).nonce@
}

/// `k` is an active key `key_id` of `actor`.
pub open spec fn key_usable(k: FounderSigningKey, key_id: Seq<char>, actor: Seq<char>) -> bool {
    k.key_id@ == key_id && k.user_id@ == actor && k.status == KeyStatus::Active
}

/// `i` is the first active key `key_id` of `actor`.
pub open spec fn is_signing_key(keys: Seq<FounderSigningKey>, key_id: Seq<char>, actor: Seq<char>, i: int) -> bool {
    &&& 0 <= i < keys.len()
    &&& key_usable(keys[i], key_id, actor)
    &&& forall|k: int| 0 <= k < i ==> !key_usable(#[trigger] keys[k], key_id, actor)
}

pub open spec fn no_signing_key(keys: Seq<FounderSigningKey>, key_id: Seq<char>, actor: Seq<char>) -> bool {
    forall|k: int| 0 <= k < keys.len() ==> !key_usable(#[trigger] keys[k], key_id, actor)
}

/// The request names a key, a nonce of 16 to 128 bytes, and a signature.
pub open spec fn request_well_formed(req: IntentRequest) -> bool {
    &&& trimmed(req.signing_key_id@).len() > 0
    &&& MIN_NONCE_BYTES <= vstd::utf8::encode_utf8(req.nonce@).len() <= MAX_NONCE_BYTES
    &&& trimmed(req.signature@).len() > 0
}

/// The outcome of verifying `req` for `actor` at `now`: the index of the key
/// it was checked against, or the refusal.
pub open spec fn verify_outcome(
    keys: Seq<FounderSigningKey>,
    intents: Seq<ProtectedIntent>,
    actor: Seq<char>,
    req: IntentRequest,
    now: i64,
) -> Result<int, AuthError> {
    if !request_well_formed(req) {
        Err(AuthError::InvalidBody)
    } else {
        match crate::timestamp::timestamp_ms_of(req.expires_at@) {
            None => Err(AuthError::InvalidBody),
            Some(exp) => if exp < now {
                Err(AuthError::IntentExpired)
            } else if nonce_used(intents, req.nonce@) {
                Err(AuthError::NonceAlreadyUsed)
            } else if no_signing_key(keys, req.signing_key_id@, actor) {
                Err(AuthError::SigningKeyNotFound)
            } else {
                let i = choose|i: int| is_signing_key(keys, req.signing_key_id@, actor, i);
                if keys[i].algorithm@ != ed25519_name() {
                    Err(AuthError::UnsupportedAlgorithm)
                } else if !ed25519_valid(
                    keys[i].public_key@,
                    canonical_bytes(req.nonce@, req.expires_at@, req.payload@),
                    req.signature@,
                ) {
                    Err(AuthError::SignatureInvalid)
                } else {
                    Ok(i)
                }
            },
        }
    }
}

/// The audit reason a refusal of verification is recorded with, if any.
pub open spec fn verify_denial(e: AuthError) -> Option<DenyReason> {
    match e {
        AuthError::IntentExpired => Some(DenyReason::IntentExpired),
        AuthError::NonceAlreadyUsed => Some(DenyReason::NonceReplay),
        AuthError::SigningKeyNotFound => Some(DenyReason::KeyNotFound),
        AuthError::UnsupportedAlgorithm => Some(DenyReason::UnsupportedAlgorithm),
        AuthError::SignatureInvalid => Some(DenyReason::SignatureInvalid),
        _ => None,
    }
}

/// `e` records a decision on `action` by `actor` at `now`.
pub open spec fn audit_records(
    e: AuditEntry,
    actor: Seq<char>,
    intent_id: Option<Seq<char>>,
    action: AuditAction,
    reason: Option<DenyReason>,
    dispatched: bool,
    now: i64,
) -> bool {
    &&& e.actor_user_id@ == actor
    &&& crate::text::view_opt(e.intent_id) == intent_id
    &&& e.action == action
    &&& e.deny_reason == reason
    &&& e.dispatched == dispatched
    &&& e.recorded_at_ms == now
}

/// `p` is the intent stored for `req`, verified by `actor` at `now`.
pub open spec fn records_intent(
    p: ProtectedIntent,
    intent_id: Seq<char>,
    actor: Seq<char>,
    req: IntentRequest,
    now: i64,
) -> bool {
    &&& p.intent_id@ == intent_id
    &&& p.actor_user_id@ == actor
    &&& p.tenant_id == req.tenant_id
    &&& p.app_id == req.app_id
    &&& p.nonce == req.nonce
    &&& p.payload_hash@ == hex_of(sha256_of(canonical_bytes(req.nonce@, req.expires_at@, req.payload@)))
    &&& p.signing_key_id == req.signing_key_id
    &&& p.signature == req.signature
    &&& Some(p.expires_at_ms as int) == crate::timestamp::timestamp_ms_of(req.expires_at@)
    &&& p.status == IntentStatus::Verified
    &&& p.verified_at_ms == now
}

/// `p` belongs to `actor` and is named `intent_id`.
pub open spec fn intent_of(p: ProtectedIntent, intent_id: Seq<char>, actor: Seq<char>) -> bool {
    p.intent_id@ == intent_id && p.actor_user_id@ == actor
}

/// `i` is the newest intent `intent_id` of `actor`.
pub open spec fn is_newest_intent(intents: Seq<ProtectedIntent>, intent_id: Seq<char>, actor: Seq<char>, i: int) -> bool {
    &&& 0 <= i < intents.len()
    &&& intent_of(intents[i], intent_id, actor)
    &&& forall|k: int| i < k < intents.len() ==> !intent_of(#[trigger] intents[k], intent_id, actor)
}

pub open spec fn no_intent(intents: Seq<ProtectedIntent>, intent_id: Seq<char>, actor: Seq<char>) -> bool {
    forall|k: int| 0 <= k < intents.len() ==> !intent_of(#[trigger] intents[k], intent_id, actor)
}

/// The outcome of executing `intent_id` for `actor` at `now`: the index of
/// the intent, or the refusal. Another actor's intent is not found.
pub open spec fn execute_outcome(
    intents: Seq<ProtectedIntent>,
    actor: Seq<char>,
    intent_id: Seq<char>,
    now: i64,
) -> Result<int, AuthError> {
    if trimmed(intent_id).len() == 0 {
        Err(AuthError::InvalidBody)
    } else if no_intent(intents, intent_id, actor) {
        Err(AuthError::IntentNotFound)
    } else {
        let i = choose|i: int| is_newest_intent(intents, intent_id, actor, i);
        if intents[i].status != IntentStatus::Verified {
            Err(AuthError::IntentNotVerified(intents[i].status))
        } else if intents[i].expires_at_ms < now {
            Err(AuthError::IntentExpired)
        } else {
            Ok(i)
        }
    }
}

/// The audit reason a refusal of execution is recorded with, if any.
pub open spec fn execute_denial(e: AuthError) -> Option<DenyReason> {
    match e {
        AuthError::IntentNotVerified(s) => Some(DenyReason::NotVerified(s)),
        AuthError::IntentExpired => Some(DenyReason::IntentExpired),
        _ => None,
    }
}

/// An intent once executed.
pub open spec fn executed(p: ProtectedIntent) -> ProtectedIntent {
    ProtectedIntent { status: IntentStatus::Executed, ..p }
}

proof fn lemma_signing_key_unique(keys: Seq<FounderSigningKey>, key_id: Seq<char>, actor: Seq<char>, i: int, j: int)
    requires
        is_signing_key(keys, key_id, actor, i),
        is_signing_key(keys, key_id, actor, j),
    ensures
        i == j,
{
    if i < j {
        assert(!key_usable(keys[i], key_id, actor));
    } else if j < i {
        assert(!key_usable(keys[j], key_id, actor));
    }
}

proof fn lemma_newest_intent_unique(intents: Seq<ProtectedIntent>, intent_id: Seq<char>, actor: Seq<char>, i: int, j: int)
    requires
        is_newest_intent(intents, intent_id, actor, i),
        is_newest_intent(intents, intent_id, actor, j),
    ensures
        i == j,
{
    if i < j {
        assert(!intent_of(intents[j], intent_id, actor));
    } else if j < i {
        assert(!intent_of(intents[i], intent_id, actor));
    }
}

fn copy_intent(p: &ProtectedIntent) -> (r: ProtectedIntent)
    ensures
        r == *p,
{
    ProtectedIntent {
        intent_id: p.intent_id.clone(),
        actor_user_id: p.actor_user_id.clone(),
        tenant_id: copy_opt(&p.tenant_id),
        app_id: copy_opt(&p.app_id),
        nonce: p.nonce.clone(),
        payload_hash: p.payload_hash.clone(),
        signing_key_id: p.signing_key_id.clone(),
        signature: p.signature.clone(),
        expires_at_ms: p.expires_at_ms,
        status: p.status,
        verified_at_ms: p.verified_at_ms,
    }
}

/// Founder keys, verified intents, and the audit trail.
pub struct FounderLedger {
    keys: Vec<FounderSigningKey>,
    intents: Vec<ProtectedIntent>,
    audit: Vec<AuditEntry>,
}

/// The ledger after verifying `req` for `actor` at `now`, storing the intent
/// as `intent_id` where verification passes, returned `r`.
pub open spec fn verify_step(
    before: FounderLedger,
    after: FounderLedger,
    actor: Seq<char>,
    req: IntentRequest,
    now: i64,
    intent_id: Seq<char>,
    r: Result<String, AuthError>,
) -> bool {
    &&& after.keys() == before.keys()
    &&& match verify_outcome(before.keys(), before.intents(), actor, req, now) {
        Ok(_) => {
            &&& r matches Ok(id) && id@ == intent_id
            &&& after.intents().len() == before.intents().len() + 1
            &&& after.intents().drop_last() == before.intents()
            &&& records_intent(after.intents().last(), intent_id, actor, req, now)
            &&& after.audit().len() == before.audit().len() + 1
            &&& after.audit().drop_last() == before.audit()
            &&& audit_records(after.audit().last(), actor, Some(intent_id), AuditAction::IntentVerify, None, false, now)
        },
        Err(e) => {
            &&& r == Err::<String, AuthError>(e)
            &&& after.intents() == before.intents()
            &&& match verify_denial(e) {
                Some(reason) => {
                    &&& after.audit().len() == before.audit().len() + 1
                    &&& after.audit().drop_last() == before.audit()
                    &&& audit_records(after.audit().last(), actor, None, AuditAction::IntentVerify, Some(reason), false, now)
                },
                None => after.audit() == before.audit(),
            }
        },
    }
}

/// The ledger after executing `intent_id` for `actor` at `now`, returned `r`.
pub open spec fn execute_step(
    before: FounderLedger,
    after: FounderLedger,
    actor: Seq<char>,
    intent_id: Seq<char>,
    now: i64,
    r: Result<String, AuthError>,
) -> bool {
    &&& after.keys() == before.keys()
    &&& match execute_outcome(before.intents(), actor, intent_id, now) {
        Ok(i) => {
            &&& r matches Ok(id) && id@ == intent_id
            &&& after.intents() == before.intents().update(i, executed(before.intents()[i]))
            &&& after.audit().len() == before.audit().len() + 1
            &&& after.audit().drop_last() == before.audit()
            &&& audit_records(after.audit().last(), actor, Some(intent_id), AuditAction::IntentExecute, None, true, now)
        },
        Err(e) => {
            &&& r == Err::<String, AuthError>(e)
            &&& after.intents() == before.intents()
            &&& match execute_denial(e) {
                Some(reason) => {
                    &&& after.audit().len() == before.audit().len() + 1
                    &&& after.audit().drop_last() == before.audit()
                    &&& audit_records(after.audit().last(), actor, Some(intent_id), AuditAction::IntentExecute, Some(reason), false, now)
                },
                None => after.audit() == before.audit(),
            }
        },
    }
}

/// The key `public_key` of `actor` is registered as `key_id`.
pub open spec fn registers_key(k: FounderSigningKey, key_id: Seq<char>, actor: Seq<char>, public_key: Seq<char>) -> bool {
    &&& k.key_id@ == key_id
    &&& k.user_id@ == actor
    &&& k.public_key@ == trimmed(public_key)
    &&& k.algorithm@ == ed25519_name()
    &&& k.status == KeyStatus::Active
}

/// A key registration is refused where the trimmed key is shorter than 32
/// bytes or the algorithm, `ed25519` where none is named, is another.
pub open spec fn key_request_ok(public_key: Seq<char>, algorithm: Option<Seq<char>>) -> bool {
    &&& vstd::utf8::encode_utf8(trimmed(public_key)).len() >= MIN_PUBLIC_KEY_BYTES
    &&& match algorithm {
        Some(a) => a == ed25519_name(),
        None => true,
    }
}

impl FounderLedger {
    pub closed spec fn keys(&self) -> Seq<FounderSigningKey> {
        self.keys@
    }

    pub closed spec fn intents(&self) -> Seq<ProtectedIntent> {
        self.intents@
    }

    pub closed spec fn audit(&self) -> Seq<AuditEntry> {
        self.audit@
    }

    /// No nonce is held by two intents.
    pub open spec fn wf(&self) -> bool {
        nonces_unique(self.intents())
    }

    pub fn new() -> (r: Self)
        ensures
            r.wf(),
            r.keys() == Seq::<FounderSigningKey>::empty(),
            r.intents() == Seq::<ProtectedIntent>::empty(),
            r.audit() == Seq::<AuditEntry>::empty(),
    {
        FounderLedger { keys: Vec::new(), intents: Vec::new(), audit: Vec::new() }
    }

    /// The stored intents, oldest first.
    pub fn intent_list(&self) -> (r: Vec<ProtectedIntent>)
        ensures
            r@ == self.intents(),
    {
        let mut out: Vec<ProtectedIntent> = Vec::new();
        let mut i: usize = 0;
        while i < self.intents.len()
            invariant
                i <= self.intents@.len(),
                out@ == self.intents@.take(i as int),
            decreases self.intents@.len() - i,
        {
            out.push(copy_intent(&self.intents[i]));
            proof {
                assert(self.intents@.take(i + 1) =~= self.intents@.take(i as int).push(self.intents@[i as int]));
            }
            i = i + 1;
        }
        proof {
            assert(self.intents@.take(i as int) =~= self.intents@);
        }
        out
    }

    /// How many decisions the audit trail holds.
    pub fn audit_len(&self) -> (r: usize)
        ensures
            r == self.audit().len(),
    {
        self.audit.len()
    }

    /// The audit trail entry at `i`.
    pub fn audit_entry(&self, i: usize) -> (r: &AuditEntry)
        requires
            i < self.audit().len(),
        ensures
            *r == self.audit()[i as int],
    {
        &self.audit[i]
    }

    fn record(&mut self, actor: &str, intent_id: Option<&str>, action: AuditAction, reason: Option<DenyReason>, dispatched: bool, now: i64)
        ensures
            final(self).keys() == old(self).keys(),
            final(self).intents() == old(self).intents(),
            final(self).audit().len() == old(self).audit().len() + 1,
            final(self).audit().drop_last() == old(self).audit(),
            audit_records(final(self).audit().last(), actor@, crate::text::view_opt_str(intent_id), action, reason, dispatched, now),
    {
        let entry = AuditEntry {
            actor_user_id: actor.to_owned(),
            intent_id: crate::text::own_opt(intent_id),
            action,
            deny_reason: reason,
            dispatched,
            recorded_at_ms: now,
        };
        self.audit.push(entry);
        proof {
            assert(self.audit@.drop_last() =~= old(self).audit@);
        }
    }

    /// Registers a public key of `actor` as `key_id`.
    pub fn register_key(&mut self, actor: &str, public_key: &str, algorithm: Option<&str>, key_id: String) -> (r: Result<String, AuthError>)
        requires
            old(self).wf(),
        ensures
            final(self).wf(),
            final(self).intents() == old(self).intents(),
            final(self).audit() == old(self).audit(),
            key_request_ok(public_key@, crate::text::view_opt_str(algorithm)) ==> {
                &&& r == Ok::<String, AuthError>(key_id)
                &&& final(self).keys().len() == old(self).keys().len() + 1
                &&& final(self).keys().drop_last() == old(self).keys()
                &&& registers_key(final(self).keys().last(), key_id@, actor@, public_key@)
            },
            !key_request_ok(public_key@, crate::text::view_opt_str(algorithm)) ==> r == Err::<String, AuthError>(AuthError::InvalidBody)
                && final(self).keys() == old(self).keys(),
    {
        let pk = trim(public_key);
        if pk.as_str().as_bytes().len() < MIN_PUBLIC_KEY_BYTES {
            return Err(AuthError::InvalidBody);
        }
        proof {
            reveal_strlit("ed25519");
            assert("ed25519"@ =~= ed25519_name());
        }
        let alg = match algorithm {
            Some(a) => a,
            None => "ed25519",
        };
        if !text_eq(alg, "ed25519") {
            return Err(AuthError::InvalidBody);
        }
        let returned = key_id.clone();
        self.keys.push(FounderSigningKey {
            key_id,
            user_id: actor.to_owned(),
            public_key: pk,
            algorithm: String::from_str("ed25519"),
            status: KeyStatus::Active,
        });
        proof {
            assert(self.keys@.drop_last() =~= old(self).keys@);
        }
        Ok(returned)
    }

    /// Revokes every active key `key_id` of `actor`; tells whether there was
    /// one. A revoked key no longer verifies intents.
    pub fn revoke_key(&mut self, key_id: &str, actor: &str) -> (r: bool)
        requires
            old(self).wf(),
        ensures
            final(self).wf(),
            final(self).intents() == old(self).intents(),
            final(self).audit() == old(self).audit(),
            r == !no_signing_key(old(self).keys(), key_id@, actor@),
            final(self).keys().len() == old(self).keys().len(),
            no_signing_key(final(self).keys(), key_id@, actor@),
            forall|i: int|
                0 <= i < old(self).keys().len() ==> if key_usable(#[trigger] old(self).keys()[i], key_id@, actor@) {
                    final(self).keys()[i] == (FounderSigningKey { status: KeyStatus::Revoked, ..old(self).keys()[i] })
                } else {
                    final(self).keys()[i] == old(self).keys()[i]
                },
    {
        let mut found = false;
        let mut i: usize = 0;
        while i < self.keys.len()
            invariant
                i <= self.keys@.len(),
                self.keys@.len() == old(self).keys@.len(),
                self.intents@ == old(self).intents@,
                self.audit@ == old(self).audit@,
                found == exists|k: int| 0 <= k < i && key_usable(#[trigger] old(self).keys@[k], key_id@, actor@),
                forall|k: int|
                    0 <= k < i ==> if key_usable(#[trigger] old(self).keys@[k], key_id@, actor@) {
                        self.keys@[k] == (FounderSigningKey { status: KeyStatus::Revoked, ..old(self).keys@[k] })
                    } else {
                        self.keys@[k] == old(self).keys@[k]
                    },
                forall|k: int| i <= k < self.keys@.len() ==> self.keys@[k] == old(self).keys@[k],
            decreases self.keys@.len() - i,
        {
            let k = &self.keys[i];
            if text_eq(k.key_id.as_str(), key_id) && text_eq(k.user_id.as_str(), actor) && k.status
                == KeyStatus::Active {
                let revoked = FounderSigningKey {
                    key_id: k.key_id.clone(),
                    user_id: k.user_id.clone(),
                    public_key: k.public_key.clone(),
                    algorithm: k.algorithm.clone(),
                    status: KeyStatus::Revoked,
                };
                self.keys.set(i, revoked);
                found = true;
            }
            i = i + 1;
        }
        proof {
            assert forall|k: int| 0 <= k < self.keys@.len() implies !key_usable(#[trigger] self.keys@[k], key_id@, actor@) by {
                if key_usable(old(self).keys@[k], key_id@, actor@) {
                } else {
                    assert(self.keys@[k] == old(self).keys@[k]);
                }
            }
        }
        found
    }

    fn nonce_in_use(&self, nonce: &str) -> (r: bool)
        ensures
            r == nonce_used(self.intents(), nonce@),
    {
        let mut i: usize = 0;
        while i < self.intents.len()
            invariant
                i <= self.intents@.len(),
                forall|k: int| 0 <= k < i ==> (#[trigger] self.intents@[k]).nonce@ != nonce@,
            decreases self.intents@.len() - i,
        {
            if text_eq(self.intents[i].nonce.as_str(), nonce) {
                return true;
            }
            i = i + 1;
        }
        false
    }

    fn find_key(&self, key_id: &str, actor: &str) -> (r: Option<usize>)
        ensures
            r matches Some(i) ==> is_signing_key(self.keys(), key_id@, actor@, i as int),
            r is None ==> no_signing_key(self.keys(), key_id@, actor@),
    {
        let mut i: usize = 0;
        while i < self.keys.len()
            invariant
                i <= self.keys@.len(),
                forall|k: int| 0 <= k < i ==> !key_usable(#[trigger] self.keys@[k], key_id@, actor@),
            decreases self.keys@.len() - i,
        {
            let k = &self.keys[i];
            if text_eq(k.key_id.as_str(), key_id) && text_eq(k.user_id.as_str(), actor) && k.status
                == KeyStatus::Active {
                return Some(i);
            }
            i = i + 1;
        }
        None
    }

    fn find_intent(&self, intent_id: &str, actor: &str) -> (r: Option<usize>)
        ensures
            r matches Some(i) ==> is_newest_intent(self.intents(), intent_id@, actor@, i as int),
            r is None ==> no_intent(self.intents(), intent_id@, actor@),
    {
        let mut j: usize = self.intents.len();
        while j > 0
            invariant
                j <= self.intents@.len(),
                forall|k: int|
                    j <= k < self.intents@.len() ==> !intent_of(#[trigger] self.intents@[k], intent_id@, actor@),
            decreases j,
        {
            let p = &self.intents[j - 1];
            if text_eq(p.intent_id.as_str(), intent_id) && text_eq(p.actor_user_id.as_str(), actor) {
                return Some(j - 1);
            }
            j = j - 1;
        }
        None
    }

    /// Verifies a signed intent of `actor` at `now`; where every check
    /// passes, stores it as `intent_id`. Each refusal past the shape checks
    /// is audited, as is the success.
    #[verifier::rlimit(50)]
    pub fn verify_intent(&mut self, actor: &str, req: &IntentRequest, now: i64, intent_id: String) -> (r: Result<String, AuthError>)
        requires
            old(self).wf(),
        ensures
            final(self).wf(),
            verify_step(*old(self), *final(self), actor@, *req, now, intent_id@, r),
    {
        let kid = trim(req.signing_key_id.as_str());
        let sig = trim(req.signature.as_str());
        let nonce_len = req.nonce.as_str().as_bytes().len();
        if kid.as_str().is_empty() || nonce_len < MIN_NONCE_BYTES || nonce_len > MAX_NONCE_BYTES
            || sig.as_str().is_empty() {
            return Err(AuthError::InvalidBody);
        }
        let exp = match parse_timestamp_ms(req.expires_at.as_str()) {
            Some(e) => e,
            None => return Err(AuthError::InvalidBody),
        };
        assert(crate::timestamp::timestamp_ms_of(req.expires_at@) == Some(exp as int));
        if exp < now {
            self.record(actor, None, AuditAction::IntentVerify, Some(DenyReason::IntentExpired), false, now);
            return Err(AuthError::IntentExpired);
        }
        if self.nonce_in_use(req.nonce.as_str()) {
            self.record(actor, None, AuditAction::IntentVerify, Some(DenyReason::NonceReplay), false, now);
            return Err(AuthError::NonceAlreadyUsed);
        }
        let ki = match self.find_key(req.signing_key_id.as_str(), actor) {
            Some(i) => i,
            None => {
                self.record(actor, None, AuditAction::IntentVerify, Some(DenyReason::KeyNotFound), false, now);
                return Err(AuthError::SigningKeyNotFound);
            },
        };
        proof {
            let j = choose|i: int| is_signing_key(self.keys(), req.signing_key_id@, actor@, i);
            lemma_signing_key_unique(self.keys(), req.signing_key_id@, actor@, ki as int, j);
            reveal_strlit("ed25519");
            assert("ed25519"@ =~= ed25519_name());
        }
        if !text_eq(self.keys[ki].algorithm.as_str(), "ed25519") {
            self.record(actor, None, AuditAction::IntentVerify, Some(DenyReason::UnsupportedAlgorithm), false, now);
            return Err(AuthError::UnsupportedAlgorithm);
        }
        let canonical = canonical_intent_payload(req.nonce.as_str(), req.expires_at.as_str(), req.payload.as_str());
        let valid = verify_ed25519(self.keys[ki].public_key.as_str(), canonical.as_str(), req.signature.as_str());
        if !valid {
            self.record(actor, None, AuditAction::IntentVerify, Some(DenyReason::SignatureInvalid), false, now);
            return Err(AuthError::SignatureInvalid);
        }
        let digest = sha256(canonical.as_str().as_bytes());
        let payload_hash = hex_encode(digest.as_slice());
        let returned = intent_id.clone();
        let intent = ProtectedIntent {
            intent_id,
            actor_user_id: actor.to_owned(),
            tenant_id: copy_opt(&req.tenant_id),
            app_id: copy_opt(&req.app_id),
            nonce: req.nonce.clone(),
            payload_hash,
            signing_key_id: req.signing_key_id.clone(),
            signature: req.signature.clone(),
            expires_at_ms: exp,
            status: IntentStatus::Verified,
            verified_at_ms: now,
        };
        self.intents.push(intent);
        proof {
            assert(self.intents@.drop_last() =~= old(self).intents@);
            assert forall|i: int, j: int|
                0 <= i < self.intents@.len() && 0 <= j < self.intents@.len() && i != j implies (#[trigger] self.intents@[i]).nonce@
                    != (#[trigger] self.intents@[j]).nonce@ by {
                if i == self.intents@.len() - 1 {
                    assert(old(self).intents@[j] == self.intents@[j]);
                } else if j == self.intents@.len() - 1 {
                    assert(old(self).intents@[i] == self.intents@[i]);
                }
            }
        }
        self.record(actor, Some(returned.as_str()), AuditAction::IntentVerify, None, false, now);
        Ok(returned)
    }

    /// Executes the verified intent `intent_id` of `actor` at `now`, once:
    /// it becomes `executed`, so a second attempt is refused.
    pub fn execute_intent(&mut self, actor: &str, intent_id: &str, now: i64) -> (r: Result<String, AuthError>)
        requires
            old(self).wf(),
        ensures
            final(self).wf(),
            execute_step(*old(self), *final(self), actor@, intent_id@, now, r),
    {
        let t = trim(intent_id);
        if t.as_str().is_empty() {
            return Err(AuthError::InvalidBody);
        }
        let i = match self.find_intent(intent_id, actor) {
            Some(i) => i,
            None => return Err(AuthError::IntentNotFound),
        };
        proof {
            let j = choose|k: int| is_newest_intent(self.intents(), intent_id@, actor@, k);
            lemma_newest_intent_unique(self.intents(), intent_id@, actor@, i as int, j);
        }
        let status = self.intents[i].status;
        if status != IntentStatus::Verified {
            self.record(actor, Some(intent_id), AuditAction::IntentExecute, Some(DenyReason::NotVerified(status)), false, now);
            return Err(AuthError::IntentNotVerified(status));
        }
        if self.intents[i].expires_at_ms < now {
            self.record(actor, Some(intent_id), AuditAction::IntentExecute, Some(DenyReason::IntentExpired), false, now);
            return Err(AuthError::IntentExpired);
        }
        let mut p = copy_intent(&self.intents[i]);
        p.status = IntentStatus::Executed;
        self.intents.set(i, p);
        proof {
            assert forall|a: int, b: int|
                0 <= a < self.intents@.len() && 0 <= b < self.intents@.len() && a != b implies (#[trigger] self.intents@[a]).nonce@
                    != (#[trigger] self.intents@[b]).nonce@ by {
                assert(self.intents@[a].nonce == old(self).intents@[a].nonce);
                assert(self.intents@[b].nonce == old(self).intents@[b].nonce);
            }
        }
        self.record(actor, Some(intent_id), AuditAction::IntentExecute, None, true, now);
        Ok(intent_id.to_owned())
    }
}

/// Two verifications with one nonce: once the first has stored its intent,
/// the second is refused as a replay, whatever payload, signature, key or
/// actor it carries, and the stored nonces stay distinct.
pub proof fn lemma_nonce_single_use(
    keys: Seq<FounderSigningKey>,
    intents: Seq<ProtectedIntent>,
    actor: Seq<char>,
    first: IntentRequest,
    first_at: i64,
    stored: ProtectedIntent,
    intent_id: Seq<char>,
    later_keys: Seq<FounderSigningKey>,
    second_actor: Seq<char>,
    second: IntentRequest,
    second_at: i64,
)
    requires
        nonces_unique(intents),
        verify_outcome(keys, intents, actor, first, first_at) is Ok,
        records_intent(stored, intent_id, actor, first, first_at),
        second.nonce@ == first.nonce@,
        request_well_formed(second),
        crate::timestamp::timestamp_ms_of(second.expires_at@) matches Some(e) && e >= second_at,
    ensures
        nonces_unique(intents.push(stored)),
        verify_outcome(later_keys, intents.push(stored), second_actor, second, second_at) == Err::<
            int,
            AuthError,
        >(AuthError::NonceAlreadyUsed),
{
    let after = intents.push(stored);
    assert(after[intents.len() as int].nonce@ == second.nonce@);
    assert(nonce_used(after, second.nonce@));
    assert forall|i: int, j: int|
        0 <= i < after.len() && 0 <= j < after.len() && i != j implies (#[trigger] after[i]).nonce@
            != (#[trigger] after[j]).nonce@ by {
        if i == intents.len() {
            assert(after[j] == intents[j]);
        } else if j == intents.len() {
            assert(after[i] == intents[i]);
        }
    }
}

/// Where some intent is `intent_id` of `actor`, a newest one is.
proof fn lemma_newest_intent_exists(intents: Seq<ProtectedIntent>, intent_id: Seq<char>, actor: Seq<char>)
    requires
        !no_intent(intents, intent_id, actor),
    ensures
        exists|i: int| is_newest_intent(intents, intent_id, actor, i),
    decreases intents.len(),
{
    let n = intents.len() as int;
    if intent_of(intents[n - 1], intent_id, actor) {
        assert(is_newest_intent(intents, intent_id, actor, n - 1));
    } else {
        let p = intents.drop_last();
        assert(!no_intent(p, intent_id, actor)) by {
            let k = choose|k: int| 0 <= k < n && intent_of(#[trigger] intents[k], intent_id, actor);
            assert(p[k] == intents[k]);
        }
        lemma_newest_intent_exists(p, intent_id, actor);
        let i = choose|i: int| is_newest_intent(p, intent_id, actor, i);
        assert forall|k: int| i < k < n implies !intent_of(#[trigger] intents[k], intent_id, actor) by {
            if k < n - 1 {
                assert(p[k] == intents[k]);
            }
        }
        assert(is_newest_intent(intents, intent_id, actor, i));
    }
}

/// An intent executes once: after an execution that succeeded, executing it
/// again is refused because it is no longer `verified`.
pub proof fn lemma_execute_once(
    intents: Seq<ProtectedIntent>,
    actor: Seq<char>,
    intent_id: Seq<char>,
    first_at: i64,
    second_at: i64,
)
    requires
        execute_outcome(intents, actor, intent_id, first_at) is Ok,
    ensures
        ({
            let i = execute_outcome(intents, actor, intent_id, first_at)->Ok_0;
            execute_outcome(intents.update(i, executed(intents[i])), actor, intent_id, second_at)
                == Err::<int, AuthError>(AuthError::IntentNotVerified(IntentStatus::Executed))
        }),
{
    let i = execute_outcome(intents, actor, intent_id, first_at)->Ok_0;
    let after = intents.update(i, executed(intents[i]));
    lemma_newest_intent_exists(intents, intent_id, actor);
    assert(is_newest_intent(intents, intent_id, actor, i));
    assert(is_newest_intent(after, intent_id, actor, i)) by {
        assert forall|k: int| i < k < after.len() implies !intent_of(#[trigger] after[k], intent_id, actor) by {
            assert(after[k] == intents[k]);
        }
    }
    assert(!no_intent(after, intent_id, actor)) by {
        assert(intent_of(after[i], intent_id, actor));
    }
    let j = choose|k: int| is_newest_intent(after, intent_id, actor, k);
    lemma_newest_intent_unique(after, intent_id, actor, i, j);
}

/// Handles a key registration: the caller must be a founder; the key gets a
/// fresh random identifier.
pub fn founder_keys_register(
    ledger: &mut FounderLedger,
    dir: &Directory,
    config: &AuthConfig,
    authorization: Option<&str>,
    verified: Option<JwtClaims>,
    public_key: &str,
    algorithm: Option<&str>,
) -> (r: Result<String, AuthError>)
    requires
        old(ledger).wf(),
    ensures
        final(ledger).wf(),
        final(ledger).intents() == old(ledger).intents(),
        final(ledger).audit() == old(ledger).audit(),
        match founder_check(*config, view_opt_str(authorization), verified, dir.capabilities()) {
            Err(e) => r == Err::<String, AuthError>(e) && final(ledger).keys() == old(ledger).keys(),
            Ok(u) => if key_request_ok(public_key@, view_opt_str(algorithm)) {
                &&& r matches Ok(k) && k@.len() == 32
                &&& final(ledger).keys().len() == old(ledger).keys().len() + 1
                &&& final(ledger).keys().drop_last() == old(ledger).keys()
                &&& registers_key(final(ledger).keys().last(), r->Ok_0@, u, public_key@)
            } else {
                r == Err::<String, AuthError>(AuthError::InvalidBody) && final(ledger).keys()
                    == old(ledger).keys()
            },
        },
{
    let user = match require_founder_user(dir, config, authorization, verified) {
        Ok(u) => u,
        Err(e) => return Err(e),
    };
    let id_bytes = random_bytes_16();
    let key_id = hex_encode(id_bytes.as_slice());
    proof {
        crate::codec::lemma_hex_len(id_bytes@);
    }
    ledger.register_key(user.as_str(), public_key, algorithm, key_id)
}

/// The identifier a result names, or nothing for a refusal.
pub open spec fn id_of(r: Result<String, AuthError>) -> Seq<char> {
    match r {
        Ok(id) => id@,
        Err(_) => Seq::empty(),
    }
}

/// Handles an intent verification: the caller must be a founder; a stored
/// intent gets a fresh random identifier.
pub fn founder_intents_verify(
    ledger: &mut FounderLedger,
    dir: &Directory,
    config: &AuthConfig,
    authorization: Option<&str>,
    verified: Option<JwtClaims>,
    req: &IntentRequest,
    now: i64,
) -> (r: Result<String, AuthError>)
    requires
        old(ledger).wf(),
    ensures
        final(ledger).wf(),
        match founder_check(*config, view_opt_str(authorization), verified, dir.capabilities()) {
            Err(e) => r == Err::<String, AuthError>(e) && *final(ledger) == *old(ledger),
            Ok(u) => verify_step(*old(ledger), *final(ledger), u, *req, now, id_of(r), r),
        },
{
    let user = match require_founder_user(dir, config, authorization, verified) {
        Ok(u) => u,
        Err(e) => return Err(e),
    };
    let id_bytes = random_bytes_16();
    let intent_id = hex_encode(id_bytes.as_slice());
    ledger.verify_intent(user.as_str(), req, now, intent_id)
}

/// Handles an execution: the caller must be a founder and the intent's
/// own actor.
pub fn founder_actions_execute(
    ledger: &mut FounderLedger,
    dir: &Directory,
    config: &AuthConfig,
    authorization: Option<&str>,
    verified: Option<JwtClaims>,
    intent_id: &str,
    now: i64,
) -> (r: Result<String, AuthError>)
    requires
        old(ledger).wf(),
    ensures
        final(ledger).wf(),
        match founder_check(*config, view_opt_str(authorization), verified, dir.capabilities()) {
            Err(e) => r == Err::<String, AuthError>(e) && *final(ledger) == *old(ledger),
            Ok(u) => execute_step(*old(ledger), *final(ledger), u, intent_id@, now, r),
        },
{
    let user = match require_founder_user(dir, config, authorization, verified) {
        Ok(u) => u,
        Err(e) => return Err(e),
    };
    ledger.execute_intent(user.as_str(), intent_id, now)
}

} // verus!
