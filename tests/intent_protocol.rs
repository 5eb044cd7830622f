use base64::Engine;
use logline_daemon::codec::hex_encode;
use logline_daemon::error::AuthError;
use logline_daemon::identity::{AuthConfig, JwtClaims};
use logline_daemon::intent::{
    canonical_intent_payload, founder_actions_execute, founder_intents_verify,
    founder_keys_register, verify_ed25519, AuditAction, DenyReason, FounderLedger, IntentRequest,
    IntentStatus,
};
use logline_daemon::rbac::{Capability, Directory};
use ring::signature::{Ed25519KeyPair, KeyPair};

const NOW: i64 = 1_700_000_000_000;
const BEARER: Option<&str> = Some("Bearer founder-jwt");

fn keypair() -> Ed25519KeyPair {
    Ed25519KeyPair::from_seed_unchecked(&[7u8; 32]).unwrap()
}

fn claims(sub: &str) -> Option<JwtClaims> {
    Some(JwtClaims {
        subject: Some(sub.to_string()),
        issuer: None,
        audience: None,
        expires_at_unix: None,
        workspace_id: None,
        app_id: None,
        email: None,
    })
}

fn cfg() -> AuthConfig {
    AuthConfig { bootstrap_token: None, jwt_enabled: true }
}

fn founders() -> Directory {
    let mut dir = Directory::new();
    for u in ["u1", "u2"] {
        dir.grant_capability(Capability { user_id: u.to_string(), capability: "founder".to_string() });
    }
    dir
}

fn request(key_id: &str, nonce: &str, payload: &str, expires_at: &str, kp: &Ed25519KeyPair) -> IntentRequest {
    let msg = canonical_intent_payload(nonce, expires_at, payload);
    let sig = base64::engine::general_purpose::STANDARD.encode(kp.sign(msg.as_bytes()).as_ref());
    IntentRequest {
        signing_key_id: key_id.to_string(),
        nonce: nonce.to_string(),
        payload: payload.to_string(),
        signature: sig,
        expires_at: expires_at.to_string(),
        tenant_id: Some("w1".to_string()),
        app_id: None,
    }
}

fn setup() -> (FounderLedger, Directory, String, Ed25519KeyPair) {
    let kp = keypair();
    let mut ledger = FounderLedger::new();
    let dir = founders();
    let pk = hex::encode(kp.public_key().as_ref());
    let key_id = founder_keys_register(&mut ledger, &dir, &cfg(), BEARER, claims("u1"), &pk, None).unwrap();
    (ledger, dir, key_id, kp)
}

#[test]
fn canonical_message_layout() {
    assert_eq!(
        canonical_intent_payload("0123456789abcdef", "2100-01-01T00:00:00Z", "{\"op\":\"x\"}"),
        "{\"nonce\":\"0123456789abcdef\",\"expires_at\":\"2100-01-01T00:00:00Z\",\"payload\":{\"op\":\"x\"}}"
    );
    assert_eq!(canonical_intent_payload("a\"b", "t", "1"), "{\"nonce\":\"a\\\"b\",\"expires_at\":\"t\",\"payload\":1}");
}

#[test]
fn founder_intent_end_to_end() {
    let (mut ledger, dir, key_id, kp) = setup();
    assert_eq!(key_id.len(), 32);
    let req = request(&key_id, "0123456789abcdef", "{\"op\":\"x\"}", "2100-01-01T00:00:00Z", &kp);
    let intent_id = founder_intents_verify(&mut ledger, &dir, &cfg(), BEARER, claims("u1"), &req, NOW).unwrap();
    let intents = ledger.intent_list();
    assert_eq!(intents.len(), 1);
    assert_eq!(intents[0].intent_id, intent_id);
    assert_eq!(intents[0].status, IntentStatus::Verified);
    assert_eq!(intents[0].expires_at_ms, 4_102_444_800_000);
    let msg = canonical_intent_payload(&req.nonce, &req.expires_at, &req.payload);
    let digest = ring::digest::digest(&ring::digest::SHA256, msg.as_bytes());
    assert_eq!(intents[0].payload_hash, hex::encode(digest.as_ref()));

    let first = founder_actions_execute(&mut ledger, &dir, &cfg(), BEARER, claims("u1"), &intent_id, NOW + 1);
    assert_eq!(first, Ok(intent_id.clone()));
    let second = founder_actions_execute(&mut ledger, &dir, &cfg(), BEARER, claims("u1"), &intent_id, NOW + 2);
    assert_eq!(second, Err(AuthError::IntentNotVerified(IntentStatus::Executed)));
    assert_eq!(second.unwrap_err().status_code(), 409);
    assert_eq!(ledger.intent_list()[0].status, IntentStatus::Executed);

    assert_eq!(ledger.audit_len(), 3);
    let verify_entry = ledger.audit_entry(0);
    assert_eq!(verify_entry.action, AuditAction::IntentVerify);
    assert!(verify_entry.deny_reason.is_none());
    let run = ledger.audit_entry(1);
    assert!(run.dispatched);
    let denied = ledger.audit_entry(2);
    assert_eq!(denied.deny_reason, Some(DenyReason::NotVerified(IntentStatus::Executed)));
}

#[test]
fn nonce_is_single_use() {
    let (mut ledger, dir, key_id, kp) = setup();
    let a = request(&key_id, "nonce-0000000001", "{\"op\":\"x\"}", "2100-01-01T00:00:00Z", &kp);
    let b = request(&key_id, "nonce-0000000001", "{\"op\":\"other\"}", "2100-01-01T00:00:00Z", &kp);
    assert!(founder_intents_verify(&mut ledger, &dir, &cfg(), BEARER, claims("u1"), &a, NOW).is_ok());
    let r = founder_intents_verify(&mut ledger, &dir, &cfg(), BEARER, claims("u1"), &b, NOW);
    assert_eq!(r, Err(AuthError::NonceAlreadyUsed));
    assert_eq!(r.unwrap_err().status_code(), 409);
    assert_eq!(ledger.intent_list().len(), 1);
    assert_eq!(ledger.audit_entry(1).deny_reason, Some(DenyReason::NonceReplay));
}

#[test]
fn tampered_payload_fails_verification() {
    let kp = keypair();
    let payload = "{\"op\":\"x\"}";
    let signed = request("k", "0123456789abcdef", payload, "2100-01-01T00:00:00Z", &kp);
    for i in 0..payload.len() {
        let (mut ledger, dir, key_id, _) = setup();
        let mut bytes = payload.as_bytes().to_vec();
        bytes[i] ^= 0x01;
        let mut req = signed.clone();
        req.signing_key_id = key_id;
        req.payload = String::from_utf8(bytes).unwrap();
        let r = founder_intents_verify(&mut ledger, &dir, &cfg(), BEARER, claims("u1"), &req, NOW);
        assert_eq!(r, Err(AuthError::SignatureInvalid));
        assert_eq!(r.unwrap_err().status_code(), 422);
        assert!(ledger.intent_list().is_empty());
        assert_eq!(ledger.audit_entry(0).deny_reason, Some(DenyReason::SignatureInvalid));
    }
}

#[test]
fn verification_refusals() {
    let (mut ledger, dir, key_id, kp) = setup();
    let expired = request(&key_id, "0123456789abcdef", "{}", "2000-01-01T00:00:00Z", &kp);
    assert_eq!(
        founder_intents_verify(&mut ledger, &dir, &cfg(), BEARER, claims("u1"), &expired, NOW),
        Err(AuthError::IntentExpired)
    );
    let unknown_key = request("no-such-key", "0123456789abcdef", "{}", "2100-01-01T00:00:00Z", &kp);
    assert_eq!(
        founder_intents_verify(&mut ledger, &dir, &cfg(), BEARER, claims("u1"), &unknown_key, NOW),
        Err(AuthError::SigningKeyNotFound)
    );
    let others_key = request(&key_id, "0123456789abcdef", "{}", "2100-01-01T00:00:00Z", &kp);
    assert_eq!(
        founder_intents_verify(&mut ledger, &dir, &cfg(), BEARER, claims("u2"), &others_key, NOW),
        Err(AuthError::SigningKeyNotFound)
    );
    let audited = ledger.audit_len();
    let short_nonce = request(&key_id, "short", "{}", "2100-01-01T00:00:00Z", &kp);
    assert_eq!(
        founder_intents_verify(&mut ledger, &dir, &cfg(), BEARER, claims("u1"), &short_nonce, NOW),
        Err(AuthError::InvalidBody)
    );
    let long_nonce = request(&key_id, &"n".repeat(129), "{}", "2100-01-01T00:00:00Z", &kp);
    assert_eq!(
        founder_intents_verify(&mut ledger, &dir, &cfg(), BEARER, claims("u1"), &long_nonce, NOW),
        Err(AuthError::InvalidBody)
    );
    let bad_time = request(&key_id, "0123456789abcdef", "{}", "tomorrow", &kp);
    assert_eq!(
        founder_intents_verify(&mut ledger, &dir, &cfg(), BEARER, claims("u1"), &bad_time, NOW),
        Err(AuthError::InvalidBody)
    );
    assert_eq!(ledger.audit_len(), audited);
    assert_eq!(
        founder_intents_verify(&mut ledger, &dir, &cfg(), BEARER, claims("u3"), &others_key, NOW),
        Err(AuthError::FounderRequired)
    );
    assert!(ledger.intent_list().is_empty());
}

#[test]
fn execution_refusals() {
    let (mut ledger, dir, key_id, kp) = setup();
    let soon = request(&key_id, "0123456789abcdef", "{}", "2023-11-14T22:13:21Z", &kp);
    let id = founder_intents_verify(&mut ledger, &dir, &cfg(), BEARER, claims("u1"), &soon, NOW).unwrap();
    assert_eq!(
        founder_actions_execute(&mut ledger, &dir, &cfg(), BEARER, claims("u2"), &id, NOW),
        Err(AuthError::IntentNotFound)
    );
    assert_eq!(
        founder_actions_execute(&mut ledger, &dir, &cfg(), BEARER, claims("u1"), "  ", NOW),
        Err(AuthError::InvalidBody)
    );
    assert_eq!(
        founder_actions_execute(&mut ledger, &dir, &cfg(), BEARER, claims("u1"), &id, NOW + 5_000),
        Err(AuthError::IntentExpired)
    );
    assert_eq!(ledger.intent_list()[0].status, IntentStatus::Verified);
}

#[test]
fn key_registration_checks() {
    let mut ledger = FounderLedger::new();
    let dir = founders();
    let pk = hex::encode([1u8; 32]);
    assert_eq!(
        founder_keys_register(&mut ledger, &dir, &cfg(), BEARER, claims("u1"), "abcd", None),
        Err(AuthError::InvalidBody)
    );
    assert_eq!(
        founder_keys_register(&mut ledger, &dir, &cfg(), BEARER, claims("u1"), &pk, Some("rsa")),
        Err(AuthError::InvalidBody)
    );
    assert!(founder_keys_register(&mut ledger, &dir, &cfg(), BEARER, claims("u1"), &pk, Some("ed25519")).is_ok());
    assert_eq!(
        founder_keys_register(&mut ledger, &dir, &cfg(), BEARER, claims("nobody"), &pk, None),
        Err(AuthError::FounderRequired)
    );
}

#[test]
fn signature_check_needs_right_lengths() {
    let kp = keypair();
    let pk = hex_encode(kp.public_key().as_ref());
    let sig = base64::engine::general_purpose::STANDARD.encode(kp.sign(b"hello").as_ref());
    assert!(verify_ed25519(&pk, "hello", &sig));
    assert!(!verify_ed25519(&pk, "hellp", &sig));
    assert!(!verify_ed25519(&pk[..62], "hello", &sig));
    assert!(!verify_ed25519(&pk, "hello", "not base64!"));
    let short_sig = base64::engine::general_purpose::STANDARD.encode([0u8; 63]);
    assert!(!verify_ed25519(&pk, "hello", &short_sig));
}

#[test]
fn revoked_key_no_longer_verifies() {
    let (mut ledger, dir, key_id, kp) = setup();
    assert!(!ledger.revoke_key(&key_id, "u2"));
    assert!(ledger.revoke_key(&key_id, "u1"));
    assert!(!ledger.revoke_key(&key_id, "u1"));
    let req = request(&key_id, "0123456789abcdef", "{}", "2100-01-01T00:00:00Z", &kp);
    assert_eq!(
        founder_intents_verify(&mut ledger, &dir, &cfg(), BEARER, claims("u1"), &req, NOW),
        Err(AuthError::SigningKeyNotFound)
    );
    assert_eq!(ledger.audit_entry(0).deny_reason, Some(DenyReason::KeyNotFound));
}
