use data_encoding::BASE64;
use ed25519_dalek::{Signer, SigningKey};
use zenith_backend::auth::{
    bearer_token, check_login_signature, is_expired, issue_nonce, issue_session, nonce_verify_outcome, now_unix,
    random_token_hex, unix_secs_from_reading, AuthRejection, NONCE_TTL_SECS, SESSION_TTL_SECS,
};
use zenith_backend::strkey::encode_stellar_public_key;
use zenith_backend::timefmt::format_unix_secs;

fn wallet(seed: u8) -> (SigningKey, String) {
    let key = SigningKey::from_bytes(&[seed; 32]);
    let address = encode_stellar_public_key(key.verifying_key().as_bytes());
    (key, address)
}

fn is_lower_hex(s: &str) -> bool {
    s.chars().all(|c| c.is_ascii_digit() || ('a'..='f').contains(&c))
}

#[test]
fn nonce_for_a_valid_wallet_embeds_a_fresh_hex_nonce() {
    let (_, address) = wallet(1);
    let issue = issue_nonce(&address, 1_700_000_000).ok().unwrap();
    assert_eq!(issue.nonce.len(), 32);
    assert!(is_lower_hex(&issue.nonce));
    assert_eq!(issue.message, format!("Sign in to Zenith\nNonce: {}", issue.nonce));
    assert_eq!(issue.expires_at, format_unix_secs(1_700_000_000 + NONCE_TTL_SECS));
    assert_eq!(issue.expires_at, "2023-11-14T22:18:20.000Z");
}

#[test]
fn nonce_rejects_a_malformed_wallet_address() {
    assert!(matches!(issue_nonce("not-real", 0), Err(AuthRejection::BadRequest)));
    assert_eq!(AuthRejection::BadRequest.status_code(), 400);
    assert_eq!(AuthRejection::Unauthorized.status_code(), 401);
}

#[test]
fn two_nonces_differ() {
    let (_, address) = wallet(2);
    let a = issue_nonce(&address, 0).ok().unwrap();
    let b = issue_nonce(&address, 0).ok().unwrap();
    assert_ne!(a.nonce, b.nonce);
}

#[test]
fn a_correct_signature_is_accepted() {
    let (key, address) = wallet(3);
    let message = "Sign in to Zenith\nNonce: 00112233445566778899aabbccddeeff";
    let sig = BASE64.encode(&key.sign(message.as_bytes()).to_bytes());
    assert_eq!(check_login_signature(&address, message, &sig), Ok(()));
}

#[test]
fn a_signature_over_another_message_is_unauthorized() {
    let (key, address) = wallet(4);
    let sig = BASE64.encode(&key.sign(b"some other message").to_bytes());
    assert_eq!(check_login_signature(&address, "Sign in to Zenith\nNonce: ab", &sig), Err(AuthRejection::Unauthorized));
}

#[test]
fn another_wallets_signature_is_unauthorized() {
    let (key_a, _) = wallet(5);
    let (_, address_b) = wallet(6);
    let message = "Sign in to Zenith\nNonce: cd";
    let sig = BASE64.encode(&key_a.sign(message.as_bytes()).to_bytes());
    assert_eq!(check_login_signature(&address_b, message, &sig), Err(AuthRejection::Unauthorized));
}

#[test]
fn malformed_inputs_are_bad_requests() {
    let (key, address) = wallet(7);
    let message = "m";
    let sig = key.sign(message.as_bytes()).to_bytes();
    assert_eq!(check_login_signature(&address, message, "***"), Err(AuthRejection::BadRequest));
    assert_eq!(check_login_signature(&address, message, &BASE64.encode(&sig[..63])), Err(AuthRejection::BadRequest));
    assert_eq!(check_login_signature("GAAA", message, &BASE64.encode(&sig)), Err(AuthRejection::BadRequest));
}

#[test]
fn expiry_compares_timestamps_as_text() {
    let now = 1_700_000_000;
    let later = format_unix_secs(now + NONCE_TTL_SECS);
    let earlier = format_unix_secs(now - 1);
    assert!(!is_expired(&later, now));
    assert!(!is_expired(&format_unix_secs(now), now));
    assert!(is_expired(&earlier, now));
}

#[test]
fn sessions_get_long_distinct_tokens() {
    let a = issue_session(1_700_000_000);
    let b = issue_session(1_700_000_000);
    assert_eq!(a.token.len(), 64);
    assert!(is_lower_hex(&a.token));
    assert_ne!(a.token, b.token);
    assert_eq!(a.expires_at, format_unix_secs(1_700_000_000 + SESSION_TTL_SECS));
    assert_eq!(a.expires_at, "2023-11-15T22:13:20.000Z");
}

#[test]
fn random_tokens_are_hex_of_the_requested_length() {
    let t = random_token_hex(5);
    assert_eq!(t.len(), 10);
    assert!(is_lower_hex(&t));
    assert_eq!(random_token_hex(0), "");
}

#[test]
fn bearer_tokens_are_read_after_the_prefix() {
    assert_eq!(bearer_token("Bearer abc").as_deref(), Some("abc"));
    assert_eq!(bearer_token("Bearer ").as_deref(), Some(""));
    assert_eq!(bearer_token("bearer abc"), None);
    assert_eq!(bearer_token("Basic abc"), None);
    assert_eq!(bearer_token("Bearer"), None);
}

#[test]
fn the_clock_is_past_the_epoch() {
    assert!(now_unix().unwrap() > 1_600_000_000);
}

#[test]
fn clock_readings_become_unix_seconds() {
    assert_eq!(unix_secs_from_reading(None), None);
    assert_eq!(unix_secs_from_reading(Some(0)), Some(0));
    assert_eq!(unix_secs_from_reading(Some(1_700_000_000)), Some(1_700_000_000));
    assert_eq!(unix_secs_from_reading(Some(u64::MAX)), Some(i64::MAX));
    assert_eq!(unix_secs_from_reading(Some(i64::MAX as u64)), Some(i64::MAX));
}

#[test]
fn a_missing_nonce_is_refused_and_nothing_is_consumed() {
    let (key, address) = wallet(5);
    let message = "Sign in to Zenith\nNonce: 00112233445566778899aabbccddeeff";
    let sig = BASE64.encode(&key.sign(message.as_bytes()).to_bytes());
    let d = nonce_verify_outcome(None, 1_700_000_000, &address, message, &sig);
    assert!(!d.consume_nonce);
    assert_eq!(d.outcome, Err(AuthRejection::Unauthorized));
}

#[test]
fn an_expired_nonce_is_refused_and_left_alone() {
    let (key, address) = wallet(6);
    let message = "Sign in to Zenith\nNonce: 00112233445566778899aabbccddeeff";
    let sig = BASE64.encode(&key.sign(message.as_bytes()).to_bytes());
    let expires_at = format_unix_secs(1_700_000_000 - 1);
    let d = nonce_verify_outcome(Some(&expires_at), 1_700_000_000, &address, message, &sig);
    assert!(!d.consume_nonce);
    assert_eq!(d.outcome, Err(AuthRejection::Unauthorized));
}

#[test]
fn a_live_nonce_is_consumed_whatever_the_signature() {
    let (key, address) = wallet(7);
    let message = "Sign in to Zenith\nNonce: 00112233445566778899aabbccddeeff";
    let good = BASE64.encode(&key.sign(message.as_bytes()).to_bytes());
    let bad = BASE64.encode(&key.sign(b"another message").to_bytes());
    let expires_at = format_unix_secs(1_700_000_000 + NONCE_TTL_SECS);
    let d = nonce_verify_outcome(Some(&expires_at), 1_700_000_000, &address, message, &good);
    assert!(d.consume_nonce);
    assert_eq!(d.outcome, Ok(()));
    let d = nonce_verify_outcome(Some(&expires_at), 1_700_000_000, &address, message, &bad);
    assert!(d.consume_nonce);
    assert_eq!(d.outcome, Err(AuthRejection::Unauthorized));
    let d = nonce_verify_outcome(Some(&expires_at), 1_700_000_000, &address, message, "***");
    assert!(d.consume_nonce);
    assert_eq!(d.outcome, Err(AuthRejection::BadRequest));
    // At the expiry instant itself the nonce is still live.
    let d = nonce_verify_outcome(Some(&expires_at), 1_700_000_000 + NONCE_TTL_SECS, &address, message, &good);
    assert!(d.consume_nonce);
    // Once consumed the row is gone, and a replay of the good signature is refused.
    let d = nonce_verify_outcome(None, 1_700_000_001, &address, message, &good);
    assert!(!d.consume_nonce);
    assert_eq!(d.outcome, Err(AuthRejection::Unauthorized));
}
