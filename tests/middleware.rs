use wadm_terminal::middleware::{authorize, bearer_token, is_public_path, Verdict};
use wadm_terminal::text::same_text;

const SECRET: &[u8] = b"middleware-key";

fn token(exp: u64) -> String {
    let mut claims = serde_json::Map::new();
    claims.insert("sub".to_string(), serde_json::Value::from("admin"));
    claims.insert("exp".to_string(), serde_json::Value::from(exp));
    claims.insert("iat".to_string(), serde_json::Value::from(0u64));
    jsonwebtoken::encode(
        &jsonwebtoken::Header::default(),
        &serde_json::Value::Object(claims),
        &jsonwebtoken::EncodingKey::from_secret(SECRET),
    )
    .unwrap()
}

#[test]
fn open_paths_need_no_token() {
    for p in [
        "/api/auth/status",
        "/api/auth/login",
        "/api/auth/setup/init",
        "/api/auth/setup/confirm",
        "/api/health",
        "/api/terminal/ws",
    ] {
        assert!(is_public_path(p));
        assert_eq!(authorize(p, None, SECRET, 0), Verdict::Pass);
    }
    assert!(!is_public_path("/api/stats"));
    assert!(!is_public_path("/api/health/"));
    assert!(!is_public_path(""));
}

#[test]
fn bearer_token_needs_exactly_two_words() {
    assert_eq!(bearer_token(Some("Bearer abc")), "abc");
    assert_eq!(bearer_token(Some("  Bearer\tabc  ")), "abc");
    assert_eq!(bearer_token(Some("Bearer")), "");
    assert_eq!(bearer_token(Some("Bearer a b")), "");
    assert_eq!(bearer_token(Some("Basic abc")), "");
    assert_eq!(bearer_token(Some("bearer abc")), "");
    assert_eq!(bearer_token(None), "");
}

#[test]
fn requests_are_authorized_by_their_token() {
    let good = format!("Bearer {}", token(1_000));
    assert_eq!(authorize("/api/stats", Some(&good), SECRET, 999), Verdict::Pass);
    assert_eq!(authorize("/api/stats", Some(&good), SECRET, 1_000), Verdict::InvalidToken);
    assert_eq!(authorize("/api/stats", Some("Bearer nonsense"), SECRET, 0), Verdict::InvalidToken);
    assert_eq!(authorize("/api/stats", None, SECRET, 0), Verdict::MissingToken);
    assert_eq!(authorize("/api/stats", Some("Token x"), SECRET, 0), Verdict::MissingToken);
}

#[test]
fn same_text_compares_whole_texts() {
    assert!(same_text("abc", "abc"));
    assert!(!same_text("abc", "abd"));
    assert!(!same_text("abc", "ab"));
    assert!(same_text("", ""));
}
