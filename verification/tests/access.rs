use beam::access::{
    access_setup, build_access_policy, digest_accepted, generate_pin, generate_token, hash_pin,
    pin_from, token_from, verify_pin, GENERATE_PIN_SENTINEL,
};
use beam::duration::{now, Duration, Timestamp};

#[test]
fn generates_url_safe_tokens() {
    let token = generate_token();
    assert!(token.len() >= 32);
    assert!(!token.contains('+'));
    assert!(!token.contains('/'));
}

#[test]
fn hashes_and_verifies_pin() {
    let hash = hash_pin("123456");
    assert!(verify_pin(Some(&hash), Some("123456")));
    assert!(!verify_pin(Some(&hash), Some("111111")));
    assert!(!verify_pin(Some(&hash), None));
    assert!(verify_pin(None, None));
}

#[test]
fn builds_policy_with_explicit_pin() {
    let setup = build_access_policy(Duration::from_secs(60), true, Some("654321".to_string()));
    assert!(setup.policy.once);
    assert_eq!(setup.revealed_pin.as_deref(), Some("654321"));
    assert!(setup.policy.pin_hash.is_some());
}

#[test]
fn digest_is_sha256_in_hexadecimal() {
    assert_eq!(
        hash_pin("123456"),
        "8d969eef6ecad3c29a3a629280e686cf0c3f5d5a86aff3ca12020c923adc6c92"
    );
    assert_eq!(
        hash_pin(""),
        "e3b0c44298fc1c149afbf4c8996fb92427ae41e4649b934ca495991b7852b855"
    );
}

#[test]
fn token_is_base64_of_its_bytes() {
    let bytes: [u8; 24] = [
        0, 16, 131, 16, 81, 135, 32, 146, 139, 48, 211, 143, 65, 20, 147, 81, 85, 151, 97, 150,
        155, 255, 239, 191,
    ];
    assert_eq!(token_from(&bytes), "ABCDEFGHIJKLMNOPQRSTUVWXYZab_--_");
}

#[test]
fn tokens_differ() {
    assert_ne!(generate_token(), generate_token());
    assert_eq!(generate_token().len(), 32);
}

#[test]
fn pin_has_six_digits() {
    assert_eq!(pin_from(0), "000000");
    assert_eq!(pin_from(42), "000042");
    assert_eq!(pin_from(999_999), "999999");
    let pin = generate_pin();
    assert_eq!(pin.len(), 6);
    assert!(pin.chars().all(|c| c.is_ascii_digit()));
}

#[test]
fn sentinel_asks_for_a_generated_pin() {
    let setup = build_access_policy(
        Duration::from_secs(60),
        false,
        Some(GENERATE_PIN_SENTINEL.to_string()),
    );
    let pin = setup.revealed_pin.unwrap();
    assert_ne!(pin, GENERATE_PIN_SENTINEL);
    assert_eq!(pin.len(), 6);
    assert!(verify_pin(setup.policy.pin_hash.as_deref(), Some(&pin)));
}

#[test]
fn no_pin_means_no_digest() {
    let setup = build_access_policy(Duration::from_secs(60), false, None);
    assert!(setup.revealed_pin.is_none());
    assert!(setup.policy.pin_hash.is_none());
    assert!(verify_pin(None, Some("anything")));
}

#[test]
fn policy_expires_after_its_ttl() {
    let setup = access_setup(Timestamp { nanos: 5 }, Duration { secs: 2, nanos: 7 }, true, None);
    assert_eq!(setup.policy.expires_at.nanos, 2_000_000_012);
    let before = now().nanos;
    let policy = build_access_policy(Duration::from_secs(60), false, None).policy;
    let after = now().nanos;
    assert!(policy.expires_at.nanos >= before + 60_000_000_000);
    assert!(policy.expires_at.nanos <= after + 60_000_000_000);
}

#[test]
fn digests_are_compared_as_texts() {
    assert!(digest_accepted(Some("ab"), Some("ab")));
    assert!(!digest_accepted(Some("ab"), Some("AB")));
    assert!(!digest_accepted(Some("ab"), None));
    assert!(digest_accepted(None, Some("ab")));
}
