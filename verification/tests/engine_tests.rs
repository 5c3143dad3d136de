use base64::Engine;
use ciphertoken::{CipherToken, ClaimValue, Claims, TokenError};

fn sign_compact(header: &str, payload: &str, secret: &str) -> String {
    let e = base64::engine::general_purpose::URL_SAFE_NO_PAD;
    let msg = format!("{}.{}", e.encode(header.as_bytes()), e.encode(payload.as_bytes()));
    let key = jsonwebtoken::EncodingKey::from_secret(secret.as_bytes());
    let sig =
        jsonwebtoken::crypto::sign(msg.as_bytes(), &key, jsonwebtoken::Algorithm::HS256).unwrap();
    format!("{}.{}", msg, sig)
}

fn hs256_engine() -> CipherToken {
    CipherToken::new(
        "a-test-secret-of-decent-length-123456".to_string(),
        "HS256".to_string(),
        3600,
        86400,
    )
    .unwrap()
}

fn sample_extras() -> Vec<(String, ClaimValue)> {
    vec![
        ("role".to_string(), ClaimValue::Str("admin".to_string())),
        ("level".to_string(), ClaimValue::Int(7)),
        ("neg".to_string(), ClaimValue::Int(-42)),
        ("active".to_string(), ClaimValue::Bool(true)),
        ("note".to_string(), ClaimValue::Null),
        (
            "tags".to_string(),
            ClaimValue::Arr(vec![
                ClaimValue::Str("a".to_string()),
                ClaimValue::Int(2),
                ClaimValue::Bool(false),
            ]),
        ),
        (
            "meta".to_string(),
            ClaimValue::Obj(vec![
                ("k".to_string(), ClaimValue::Str("v\"with\\quotes".to_string())),
                ("n".to_string(), ClaimValue::Int(0)),
            ]),
        ),
    ]
}

fn extras_eq(a: &[(String, ClaimValue)], b: &[(String, ClaimValue)]) -> bool {
    if a.len() != b.len() {
        return false;
    }
    for i in 0..a.len() {
        if a[i].0 != b[i].0 || !val_eq(&a[i].1, &b[i].1) {
            return false;
        }
    }
    true
}

fn val_eq(a: &ClaimValue, b: &ClaimValue) -> bool {
    match (a, b) {
        (ClaimValue::Null, ClaimValue::Null) => true,
        (ClaimValue::Bool(x), ClaimValue::Bool(y)) => x == y,
        (ClaimValue::Int(x), ClaimValue::Int(y)) => x == y,
        (ClaimValue::Str(x), ClaimValue::Str(y)) => x == y,
        (ClaimValue::Arr(xs), ClaimValue::Arr(ys)) => {
            xs.len() == ys.len() && xs.iter().zip(ys.iter()).all(|(x, y)| val_eq(x, y))
        }
        (ClaimValue::Obj(xs), ClaimValue::Obj(ys)) => extras_eq(xs, ys),
        _ => false,
    }
}

#[test]
fn round_trip_recovers_all_fields() {
    let engine = hs256_engine();
    let extras = sample_extras();
    let token = engine
        .create_token_at(1_700_000_000, 600, "access", Some(12345678901234567890i128), &extras)
        .unwrap();
    let claims: Claims = engine.decode_at(&token, 1_700_000_100).unwrap();
    assert_eq!(claims.id, Some(12345678901234567890i128));
    assert_eq!(claims.exp, 1_700_000_600);
    assert_eq!(claims.ttl, 600);
    assert_eq!(claims.token, "access");
    assert_eq!(claims.jti.len(), 36);
    assert!(extras_eq(&claims.extra, &extras));
}

#[test]
fn round_trip_without_subject_or_extras() {
    let engine = hs256_engine();
    let token = engine.create_token_at(1_700_000_000, 60, "refresh", None, &vec![]).unwrap();
    let claims = engine.decode_at(&token, 1_700_000_001).unwrap();
    assert_eq!(claims.id, None);
    assert_eq!(claims.token, "refresh");
    assert!(claims.extra.is_empty());
}

#[test]
fn round_trip_extreme_subjects() {
    let engine = hs256_engine();
    for id in [i128::MAX, i128::MIN, 0i128, -1i128] {
        let token = engine.create_token_at(1_700_000_000, 60, "access", Some(id), &vec![]).unwrap();
        let claims = engine.decode_at(&token, 1_700_000_001).unwrap();
        assert_eq!(claims.id, Some(id));
    }
}

#[test]
fn round_trip_extreme_extras() {
    let engine = hs256_engine();
    let extras = vec![
        ("max".to_string(), ClaimValue::Int(i64::MAX)),
        ("min".to_string(), ClaimValue::Int(i64::MIN)),
        ("ctl".to_string(), ClaimValue::Str("line\nbreak\ttab\u{1}".to_string())),
        ("uni".to_string(), ClaimValue::Str("héllo wörld ✓".to_string())),
        ("empty".to_string(), ClaimValue::Str(String::new())),
        ("earr".to_string(), ClaimValue::Arr(vec![])),
        ("eobj".to_string(), ClaimValue::Obj(vec![])),
    ];
    let token = engine.create_token_at(1_700_000_000, 60, "access", Some(1), &extras).unwrap();
    let claims = engine.decode_at(&token, 1_700_000_001).unwrap();
    assert!(extras_eq(&claims.extra, &extras));
}

#[test]
fn expiry_boundary_zero_ttl() {
    let engine = hs256_engine();
    let now = 1_700_000_000;
    let token = engine.create_token_at(now, 0, "access", Some(1), &vec![]).unwrap();
    assert!(matches!(engine.decode_at(&token, now), Err(TokenError::TokenExpired)));
    assert!(matches!(engine.decode_at(&token, now + 50), Err(TokenError::TokenExpired)));
    assert!(!engine.verify_at(&token, now));
}

#[test]
fn expiry_boundary_positive_ttl() {
    let engine = hs256_engine();
    let now = 1_700_000_000;
    let token = engine.create_token_at(now, 100, "access", Some(1), &vec![]).unwrap();
    assert!(engine.verify_at(&token, now));
    assert!(engine.verify_at(&token, now + 99));
    assert!(!engine.verify_at(&token, now + 100));
    assert!(matches!(engine.decode_at(&token, now + 100), Err(TokenError::TokenExpired)));
}

#[test]
fn expiry_saturates_near_the_maximum() {
    let engine = hs256_engine();
    let token = engine.create_token_at(u64::MAX - 5, 100, "access", Some(1), &vec![]).unwrap();
    let claims = engine.decode_at(&token, u64::MAX - 1).unwrap();
    assert_eq!(claims.exp, u64::MAX);
}

#[test]
fn tampered_signature_is_rejected() {
    let engine = hs256_engine();
    let token = engine.create_token_at(1_700_000_000, 600, "access", Some(1), &vec![]).unwrap();
    let sig_start = token.rfind('.').unwrap() + 1;
    for i in sig_start..token.len() {
        let mut bytes = token.clone().into_bytes();
        bytes[i] = if bytes[i] == b'A' { b'B' } else { b'A' };
        let tampered = String::from_utf8(bytes).unwrap();
        if tampered == token {
            continue;
        }
        assert!(engine.decode_at(&tampered, 1_700_000_001).is_err());
        assert!(!engine.verify_at(&tampered, 1_700_000_001));
    }
}

#[test]
fn tampered_payload_is_rejected() {
    let engine = hs256_engine();
    let token = engine.create_token_at(1_700_000_000, 600, "access", Some(1), &vec![]).unwrap();
    let first_dot = token.find('.').unwrap();
    let mut bytes = token.clone().into_bytes();
    let i = first_dot + 2;
    bytes[i] = if bytes[i] == b'A' { b'B' } else { b'A' };
    let tampered = String::from_utf8(bytes).unwrap();
    assert!(engine.decode_at(&tampered, 1_700_000_001).is_err());
}

#[test]
fn wrong_secret_is_rejected() {
    let engine = hs256_engine();
    let other = CipherToken::new(
        "a-different-secret-entirely-0987654321".to_string(),
        "HS256".to_string(),
        3600,
        86400,
    )
    .unwrap();
    let token = engine.create_token_at(1_700_000_000, 600, "access", Some(1), &vec![]).unwrap();
    assert!(matches!(other.decode_at(&token, 1_700_000_001), Err(TokenError::TokenInvalid)));
}

#[test]
fn algorithm_mismatch_is_rejected() {
    let secret = "a-test-secret-of-decent-length-123456".to_string();
    let a = CipherToken::new(secret.clone(), "HS256".to_string(), 3600, 86400).unwrap();
    let b = CipherToken::new(secret, "HS384".to_string(), 3600, 86400).unwrap();
    let token = a.create_token_at(1_700_000_000, 600, "access", Some(1), &vec![]).unwrap();
    assert!(matches!(b.decode_at(&token, 1_700_000_001), Err(TokenError::TokenInvalid)));
    assert!(!b.verify_at(&token, 1_700_000_001));
}

#[test]
fn rotation_preserves_subject_and_refreshes_ids() {
    let engine = hs256_engine();
    let extras = vec![("role".to_string(), ClaimValue::Str("user".to_string()))];
    let refresh = engine.create_token_at(1_700_000_000, 86400, "refresh", Some(99), &extras).unwrap();
    let old_jti = engine.inspect(&refresh).unwrap().jti;
    let (new_access, new_refresh) =
        engine.rotation_at(&refresh, 1_700_000_500, &extras).unwrap();
    let ac = engine.decode_at(&new_access, 1_700_000_501).unwrap();
    let rc = engine.decode_at(&new_refresh, 1_700_000_501).unwrap();
    assert_eq!(ac.id, Some(99));
    assert_eq!(rc.id, Some(99));
    assert_eq!(ac.token, "access");
    assert_eq!(rc.token, "refresh");
    assert_eq!(ac.exp, 1_700_000_500 + 3600);
    assert_eq!(rc.exp, 1_700_000_500 + 86400);
    assert_ne!(ac.jti, old_jti);
    assert_ne!(rc.jti, old_jti);
    assert_ne!(ac.jti, rc.jti);
}

#[test]
fn rotation_refuses_access_tokens() {
    let engine = hs256_engine();
    let access = engine.create_token_at(1_700_000_000, 600, "access", Some(1), &vec![]).unwrap();
    assert!(matches!(
        engine.rotation_at(&access, 1_700_000_001, &vec![]),
        Err(TokenError::WrongTokenType)
    ));
}

#[test]
fn rotation_requires_a_subject() {
    let engine = hs256_engine();
    let refresh = engine.create_token_at(1_700_000_000, 600, "refresh", None, &vec![]).unwrap();
    assert!(matches!(
        engine.rotation_at(&refresh, 1_700_000_001, &vec![]),
        Err(TokenError::MissingSubject)
    ));
}

#[test]
fn inspect_succeeds_where_decode_fails() {
    let engine = hs256_engine();
    let extras = sample_extras();
    let token = engine.create_token_at(1_700_000_000, 0, "access", Some(7), &extras).unwrap();
    assert!(matches!(engine.decode_at(&token, 1_700_000_010), Err(TokenError::TokenExpired)));
    let claims = engine.inspect(&token).unwrap();
    assert_eq!(claims.id, Some(7));
    assert_eq!(claims.exp, 1_700_000_000);
    assert_eq!(claims.ttl, 0);
    assert_eq!(claims.token, "access");
    assert!(extras_eq(&claims.extra, &extras));
}

#[test]
fn inspect_rejects_garbage() {
    let engine = hs256_engine();
    assert!(matches!(engine.inspect("a.b.c"), Err(TokenError::InspectFailed)));
    assert!(matches!(engine.inspect("not-a-token"), Err(TokenError::InspectFailed)));
}

#[test]
fn decode_rejects_malformed_tokens() {
    let engine = hs256_engine();
    assert!(matches!(engine.decode_at("a.b", 0), Err(TokenError::TokenInvalid)));
    assert!(matches!(engine.decode_at("a.b.c", 0), Err(TokenError::TokenInvalid)));
    assert!(matches!(engine.decode_at("", 0), Err(TokenError::TokenInvalid)));
}

#[test]
fn remaining_time_clamps_at_zero() {
    let engine = hs256_engine();
    let token = engine.create_token_at(1_700_000_000, 100, "access", Some(1), &vec![]).unwrap();
    assert_eq!(engine.remaining_time_at(&token, 1_700_000_000).unwrap(), Some(100));
    assert_eq!(engine.remaining_time_at(&token, 1_700_000_060).unwrap(), Some(40));
    assert_eq!(engine.remaining_time_at(&token, 1_700_000_100).unwrap(), Some(0));
    assert_eq!(engine.remaining_time_at(&token, 1_700_009_999).unwrap(), Some(0));
}

#[test]
fn invalid_key_material_surfaces_for_asymmetric_algorithms() {
    let engine = CipherToken::new(
        "this is not a pem".to_string(),
        "RS256".to_string(),
        3600,
        86400,
    )
    .unwrap();
    match engine.create_token_at(1_700_000_000, 600, "access", Some(1), &vec![]) {
        Err(TokenError::InvalidKeyMaterial(msg)) => assert!(!msg.is_empty()),
        other => panic!("expected invalid key material, got {:?}", other),
    }
}

#[test]
fn unsupported_algorithm_names_the_offender() {
    match CipherToken::new("s".to_string(), "HS999".to_string(), 1, 1) {
        Err(TokenError::UnsupportedAlgorithm(name)) => assert_eq!(name, "HS999"),
        Err(other) => panic!("expected unsupported algorithm, got {:?}", other),
        Ok(_) => panic!("expected unsupported algorithm, got an engine"),
    }
}

#[test]
fn algorithm_parsing_is_case_insensitive() {
    let engine = CipherToken::new("secret".to_string(), "hs256".to_string(), 1, 1).unwrap();
    assert_eq!(engine.algorithm_name(), "HS256");
    let e2 = CipherToken::new("secret".to_string(), "eddsa".to_string(), 1, 1).unwrap();
    assert_eq!(e2.algorithm_name(), "EDDSA");
}

#[test]
fn ambient_clock_paths_work_end_to_end() {
    let engine = hs256_engine();
    let extras = vec![("k".to_string(), ClaimValue::Int(1))];
    let access = engine.access(42, &extras).unwrap();
    assert!(engine.verify(&access));
    let got = engine.decode(&access).unwrap();
    assert_eq!(got.id, Some(42));
    assert_eq!(got.token, "access");
    let refresh = engine.refresh(42, &extras).unwrap();
    let (_a, _r) = engine.rotation(&refresh, &extras).unwrap();
    let left = engine.remaining_time(&access).unwrap().unwrap();
    assert!(left > 0 && left <= 3600);
}

#[test]
fn secret_getter_masks_the_secret() {
    let engine = hs256_engine();
    assert_eq!(engine.secret(), "a-test-s...");
    let short = CipherToken::new("tiny".to_string(), "HS256".to_string(), 1, 1).unwrap();
    assert_eq!(short.secret(), "***");
    assert_eq!(engine.access_ttl(), 3600);
    assert_eq!(engine.refresh_ttl(), 86400);
}

#[test]
fn our_tokens_are_readable_by_the_signing_library() {
    let engine = hs256_engine();
    let token = engine
        .create_token_at(u64::MAX / 2, 600, "access", Some(31337), &sample_extras())
        .unwrap();
    let key = jsonwebtoken::DecodingKey::from_secret(
        "a-test-secret-of-decent-length-123456".as_bytes(),
    );
    let mut validation = jsonwebtoken::Validation::new(jsonwebtoken::Algorithm::HS256);
    validation.validate_exp = false;
    validation.required_spec_claims.clear();
    let data =
        jsonwebtoken::decode::<serde_json::Value>(&token, &key, &validation).unwrap();
    assert_eq!(data.claims["token"], serde_json::Value::String("access".to_string()));
    assert_eq!(data.claims["ttl"], serde_json::Value::from(600u64));
    assert_eq!(data.claims["role"], serde_json::Value::String("admin".to_string()));
    assert_eq!(data.claims["level"], serde_json::Value::from(7i64));
}

#[test]
fn library_serializer_style_tokens_decode() {
    // The signing library's own serializer writes the header members in
    // the other order, a missing subject as an explicit null, and control
    // characters with short escapes; all of these must decode.
    let engine = hs256_engine();
    let secret = "a-test-secret-of-decent-length-123456";
    let payload = "{\"id\":null,\"exp\":1700000600,\"ttl\":600,\"token\":\"access\",\"jti\":\"x\",\"note\":\"a\\nb\\tc\"}";
    let tok = sign_compact("{\"typ\":\"JWT\",\"alg\":\"HS256\"}", payload, secret);
    let claims = engine.decode_at(&tok, 1_700_000_001).unwrap();
    assert_eq!(claims.id, None);
    assert_eq!(claims.exp, 1_700_000_600);
    assert_eq!(claims.ttl, 600);
    assert_eq!(claims.token, "access");
    assert_eq!(claims.jti, "x");
    assert_eq!(claims.extra.len(), 1);
    assert_eq!(claims.extra[0].0, "note");
    assert!(matches!(&claims.extra[0].1, ClaimValue::Str(s) if s == "a\nb\tc"));

    let payload2 = "{\"id\":42,\"exp\":1700000600,\"ttl\":600,\"token\":\"refresh\",\"jti\":\"y\"}";
    let tok2 = sign_compact("{\"alg\":\"HS256\",\"typ\":\"JWT\"}", payload2, secret);
    let c2 = engine.decode_at(&tok2, 1_700_000_001).unwrap();
    assert_eq!(c2.id, Some(42));
    assert_eq!(c2.token, "refresh");
    assert!(engine.verify_at(&tok2, 1_700_000_001));
}
