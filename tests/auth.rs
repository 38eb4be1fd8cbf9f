use wadm_terminal::auth::{check_claims, issue_claims, verify_credential, Claims, TOKEN_LIFETIME_SECS};
use wadm_terminal::config::{check_capability, AppConfig, UpdateConfigReq};
use wadm_terminal::error::BridgeError;
use wadm_terminal::gate::{open_session, open_session_with, WsQuery};
use wadm_terminal::session::{Action, Phase};

const SECRET: &[u8] = b"test-signing-key";

fn token_with(secret: &[u8], sub: &str, exp: u64, iat: u64) -> String {
    let mut claims = serde_json::Map::new();
    claims.insert("sub".to_string(), serde_json::Value::from(sub));
    claims.insert("exp".to_string(), serde_json::Value::from(exp));
    claims.insert("iat".to_string(), serde_json::Value::from(iat));
    jsonwebtoken::encode(
        &jsonwebtoken::Header::default(),
        &serde_json::Value::Object(claims),
        &jsonwebtoken::EncodingKey::from_secret(secret),
    )
    .unwrap()
}

fn claims(exp: usize) -> Claims {
    Claims { sub: "admin".to_string(), exp, iat: 0 }
}

fn on() -> AppConfig {
    AppConfig { developer_mode: true }
}

#[test]
fn unexpired_token_is_admitted() {
    let t = token_with(SECRET, "admin", 1_000, 900);
    assert_eq!(verify_credential(&t, SECRET, 999), Ok("admin".to_string()));
    assert_eq!(verify_credential(&t, SECRET, 0), Ok("admin".to_string()));
}

#[test]
fn token_is_refused_from_its_expiry_on() {
    let t = token_with(SECRET, "admin", 1_000, 900);
    assert_eq!(verify_credential(&t, SECRET, 1_000), Err(BridgeError::Unauthenticated));
    assert_eq!(verify_credential(&t, SECRET, 1_001), Err(BridgeError::Unauthenticated));
}

#[test]
fn token_signed_with_another_key_is_refused() {
    let t = token_with(b"another-key", "admin", 1_000, 900);
    assert_eq!(verify_credential(&t, SECRET, 10), Err(BridgeError::Unauthenticated));
    assert_eq!(verify_credential(&t, SECRET, 5_000), Err(BridgeError::Unauthenticated));
}

#[test]
fn malformed_or_missing_token_is_refused() {
    for t in ["", "abc", "a.b.c", "a.b"] {
        assert_eq!(verify_credential(t, SECRET, 10), Err(BridgeError::Unauthenticated));
    }
    let t = token_with(SECRET, "admin", 1_000, 900);
    let tampered = format!("{}x", t);
    assert_eq!(verify_credential(&tampered, SECRET, 10), Err(BridgeError::Unauthenticated));
}

#[test]
fn token_without_the_claims_is_refused() {
    let mut c = serde_json::Map::new();
    c.insert("exp".to_string(), serde_json::Value::from(1_000u64));
    let t = jsonwebtoken::encode(
        &jsonwebtoken::Header::default(),
        &serde_json::Value::Object(c),
        &jsonwebtoken::EncodingKey::from_secret(SECRET),
    )
    .unwrap();
    assert_eq!(verify_credential(&t, SECRET, 10), Err(BridgeError::Unauthenticated));
}

#[test]
fn verifier_returns_the_token_subject() {
    let t = token_with(SECRET, "operator", 50, 0);
    assert_eq!(verify_credential(&t, SECRET, 49), Ok("operator".to_string()));
}

#[test]
fn check_claims_admits_strictly_before_expiry() {
    assert_eq!(check_claims(Some(claims(100)), 99), Ok("admin".to_string()));
    assert_eq!(check_claims(Some(claims(100)), 100), Err(BridgeError::Unauthenticated));
    assert_eq!(check_claims(Some(claims(100)), u64::MAX), Err(BridgeError::Unauthenticated));
    assert_eq!(check_claims(Some(claims(0)), 0), Err(BridgeError::Unauthenticated));
    assert_eq!(check_claims(None, 0), Err(BridgeError::Unauthenticated));
}

#[test]
fn issued_claims_last_one_day() {
    let c = issue_claims(1_700_000_000).unwrap();
    assert_eq!(c.sub, "admin");
    assert_eq!(c.iat, 1_700_000_000);
    assert_eq!(c.exp, 1_700_000_000 + 86_400);
    assert_eq!(TOKEN_LIFETIME_SECS, 86_400);
    assert!(issue_claims(u64::MAX).is_none());
    assert!(issue_claims(usize::MAX as u64 - 86_400).is_some());
    assert!(issue_claims(usize::MAX as u64 - 86_399).is_none());
}

#[test]
fn capability_gate_follows_the_flag() {
    assert_eq!(check_capability(&on()), Ok(()));
    assert_eq!(check_capability(&AppConfig { developer_mode: false }), Err(BridgeError::CapabilityDenied));
    assert!(!AppConfig::default().developer_mode);
}

#[test]
fn config_update_sets_the_flag() {
    let mut c = AppConfig::default();
    c.apply_update(&UpdateConfigReq { developer_mode: true });
    assert!(c.developer_mode);
    c.apply_update(&UpdateConfigReq { developer_mode: false });
    assert!(!c.developer_mode);
}

#[test]
fn session_opens_with_valid_token_and_flag_on() {
    let q = WsQuery { token: token_with(SECRET, "admin", 1_000, 900) };
    let (s, spawn) = open_session(&q, SECRET, 500, &on()).unwrap();
    assert_eq!(s.phase(), Phase::Establishing);
    assert_eq!(s.geometry(), (80, 24));
    assert_eq!(spawn, Action::Spawn { cols: 80, rows: 24 });
}

#[test]
fn flag_off_never_spawns_even_with_a_valid_token() {
    let mut spawns = 0;
    let q = WsQuery { token: token_with(SECRET, "admin", 1_000, 900) };
    for now in [0u64, 500, 999] {
        match open_session(&q, SECRET, now, &AppConfig { developer_mode: false }) {
            Ok((_, Action::Spawn { .. })) => spawns += 1,
            Ok(_) => {}
            Err(e) => assert_eq!(e, BridgeError::CapabilityDenied),
        }
    }
    assert_eq!(spawns, 0);
}

#[test]
fn bad_token_is_reported_before_the_flag() {
    let q = WsQuery { token: String::new() };
    assert_eq!(open_session(&q, SECRET, 0, &AppConfig { developer_mode: false }).err(), Some(BridgeError::Unauthenticated));
    let expired = WsQuery { token: token_with(SECRET, "admin", 10, 0) };
    assert_eq!(open_session(&expired, SECRET, 10, &on()).err(), Some(BridgeError::Unauthenticated));
}

#[test]
fn open_session_with_decoded_claims() {
    assert!(open_session_with(Some(claims(10)), 9, &on()).is_ok());
    assert_eq!(open_session_with(Some(claims(10)), 10, &on()).err(), Some(BridgeError::Unauthenticated));
    assert_eq!(
        open_session_with(Some(claims(10)), 9, &AppConfig { developer_mode: false }).err(),
        Some(BridgeError::CapabilityDenied)
    );
    assert_eq!(open_session_with(None, 9, &on()).err(), Some(BridgeError::Unauthenticated));
}
