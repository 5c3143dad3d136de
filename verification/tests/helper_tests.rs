use base64::Engine;
use ciphertoken::{
    days, generate_hmac_secret, generate_rsa_keypair, hours, is_jwt_format, minutes, now, seconds,
    validate_jwt_format, weeks, KeygenError, TokenError,
};

#[test]
fn jwt_format_checks() {
    assert!(is_jwt_format("a.b.c"));
    assert!(!is_jwt_format("a.b"));
    assert!(!is_jwt_format("a..c"));
    assert!(!is_jwt_format(".b.c"));
    assert!(!is_jwt_format("a.b."));
    assert!(!is_jwt_format("a.b.c.d"));
    assert!(!is_jwt_format(""));
    assert!(is_jwt_format("xx.yy.zz"));
}

#[test]
fn jwt_format_validation_fails_loudly() {
    assert_eq!(validate_jwt_format("a.b.c"), Ok(true));
    assert_eq!(validate_jwt_format("a.b"), Err(TokenError::MalformedToken));
    assert_eq!(validate_jwt_format("a..c"), Err(TokenError::MalformedToken));
}

#[test]
fn hmac_secret_sizes() {
    assert_eq!(generate_hmac_secret(8), Err(KeygenError::SecretTooSmall));
    assert_eq!(generate_hmac_secret(15), Err(KeygenError::SecretTooSmall));
    let s = generate_hmac_secret(16).unwrap();
    assert_eq!(s.len(), 24);
    let s32 = generate_hmac_secret(32).unwrap();
    assert_eq!(s32.len(), 44);
    let bytes = base64::engine::general_purpose::STANDARD.decode(&s32).unwrap();
    assert_eq!(bytes.len(), 32);
}

#[test]
fn secrets_are_fresh_each_time() {
    let a = ciphertoken::secret_key().unwrap();
    let b = ciphertoken::secret_key().unwrap();
    assert_ne!(a, b);
    assert_eq!(a.len(), 44);
    let c = ciphertoken::secret_key_with_size(20).unwrap();
    assert_eq!(c.len(), 28);
}

#[test]
fn rsa_keypair_size_floor() {
    assert_eq!(generate_rsa_keypair(Some(1024)), Err(KeygenError::KeySizeTooSmall));
    assert_eq!(generate_rsa_keypair(Some(512)), Err(KeygenError::KeySizeTooSmall));
}

#[test]
fn time_conversions() {
    assert_eq!(seconds(5), 5);
    assert_eq!(minutes(2), 120);
    assert_eq!(hours(3), 10800);
    assert_eq!(days(2), 172800);
    assert_eq!(weeks(1), 604800);
    assert_eq!(minutes(u64::MAX), u64::MAX);
    assert_eq!(weeks(u64::MAX / 2), u64::MAX);
    assert!(now() > 1_600_000_000);
}
