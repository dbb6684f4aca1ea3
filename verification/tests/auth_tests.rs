//! Credential services: token round trip, password round trip and
//! bearer-header parsing.

use nultr::jwt::{authenticate, parse_bearer, Encoder};
use nultr::password::PasswordHasher;
use nultr::request::AuthError;

fn now_secs() -> usize {
    std::time::SystemTime::now()
        .duration_since(std::time::UNIX_EPOCH)
        .unwrap()
        .as_secs() as usize
}

#[test]
fn token_round_trip_keeps_user_id() {
    let encoder = Encoder::new("SECRET-REDACTED".to_string());
    let token = encoder.encode(41, now_secs()).unwrap();
    let claims = encoder.decode(token).unwrap();
    assert_eq!(claims.user_id, 41);
}

#[test]
fn token_expiry_is_one_hour() {
    let encoder = Encoder::new("SECRET-REDACTED".to_string());
    let now = now_secs();
    let token = encoder.encode(1, now).unwrap();
    let claims = encoder.decode(token).unwrap();
    assert_eq!(claims.exp, now + 3600);
}

#[test]
fn expired_token_is_rejected() {
    let encoder = Encoder::new("SECRET-REDACTED".to_string());
    // issued far in the past: exp = 4600 seconds since the epoch
    let token = encoder.encode(1, 1000).unwrap();
    assert!(encoder.decode(token).is_err());
}

#[test]
fn wrong_secret_is_rejected() {
    let encoder = Encoder::new("SECRET-REDACTED".to_string());
    let token = encoder.encode(1, now_secs()).unwrap();
    let other = Encoder::new("another-secret".to_string());
    assert!(other.decode(token).is_err());
}

#[test]
fn garbage_token_is_rejected() {
    let encoder = Encoder::new("SECRET-REDACTED".to_string());
    assert!(encoder.decode("not-a-token".to_string()).is_err());
}

#[test]
fn password_round_trip() {
    let hasher = PasswordHasher {};
    let hash = hasher.hash_password("pw");
    assert!(hasher.verify_password("pw", hash.as_str()));
    assert!(!hasher.verify_password("other", hash.as_str()));
}

#[test]
fn two_hashes_of_one_password_differ_but_both_verify() {
    let hasher = PasswordHasher {};
    let first = hasher.hash_password("pw");
    let second = hasher.hash_password("pw");
    assert_ne!(first, second);
    assert!(hasher.verify_password("pw", first.as_str()));
    assert!(hasher.verify_password("pw", second.as_str()));
}

#[test]
fn unparseable_hash_verifies_nothing() {
    let hasher = PasswordHasher {};
    assert!(!hasher.verify_password("pw", "not a phc string"));
}

#[test]
fn bearer_header_is_parsed() {
    assert_eq!(parse_bearer("Bearer abc"), Some("abc"));
    assert_eq!(parse_bearer("bearer xyz"), Some("xyz"));
    assert_eq!(parse_bearer("  \t Bearer abc"), Some("abc"));
    assert_eq!(parse_bearer("Basic abc"), None);
    assert_eq!(parse_bearer("BearerX"), None);
    assert_eq!(parse_bearer(""), None);
}

#[test]
fn authenticate_accepts_a_live_bearer() {
    let encoder = Encoder::new("SECRET-REDACTED".to_string());
    let token = encoder.encode(9, now_secs()).unwrap();
    let header = format!("Bearer {token}");
    let claims = authenticate(&encoder, header.as_str()).unwrap();
    assert_eq!(claims.user_id, 9);
}

#[test]
fn authenticate_rejects_missing_scheme() {
    let encoder = Encoder::new("SECRET-REDACTED".to_string());
    let token = encoder.encode(9, now_secs()).unwrap();
    assert_eq!(
        authenticate(&encoder, token.as_str()),
        Err(AuthError::InvalidToken)
    );
}
