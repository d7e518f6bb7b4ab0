use coding_quiz_api::auth::{
    api_key_hash, api_key_identity, authenticate_bearer, bearer_identity, bearer_token,
    create_token, create_token_at, decode_token, generate_api_key, hash_password, signing_secret,
    verify_password, ApiKeyHeader, ApiKeyMiddleware, ApiKeyRow, AuthError, KeyCheck, KeyEvent,
};
use coding_quiz_api::error::{ErrorKind, StoreFailure};
use coding_quiz_api::id::Id;
use coding_quiz_api::models::Claims;

fn now() -> i64 {
    std::time::SystemTime::now().duration_since(std::time::UNIX_EPOCH).unwrap().as_secs() as i64
}

#[test]
fn hashed_password_verifies() {
    let hash = hash_password("password123").unwrap();
    assert_ne!(hash, "password123");
    assert!(hash.starts_with("$argon2"));
    assert!(verify_password(&hash, "password123"));
}

#[test]
fn wrong_password_does_not_verify() {
    let hash = hash_password("password123").unwrap();
    assert!(!verify_password(&hash, "wrongpassword"));
    assert!(!verify_password(&hash, ""));
}

#[test]
fn hash_that_does_not_parse_verifies_nothing() {
    assert!(!verify_password("not a hash", "password123"));
    assert!(!verify_password("", ""));
}

#[test]
fn each_hash_has_its_own_salt() {
    let a = hash_password("password123").unwrap();
    let b = hash_password("password123").unwrap();
    assert_ne!(a, b);
    assert!(verify_password(&a, "password123"));
    assert!(verify_password(&b, "password123"));
}

#[test]
fn issued_token_carries_the_identity() {
    let before = now();
    let token = create_token("user_123", Id::from_u64(496830748901259230)).unwrap();
    let after = now();
    assert_ne!(token, "user_123");
    assert_eq!(token.split('.').count(), 3);
    let claims = decode_token(&token).unwrap();
    assert_eq!(claims.sub, "user_123");
    assert_eq!(claims.developer_id, 496830748901259230);
    assert!(before + 86400 <= claims.exp as i64 && claims.exp as i64 <= after + 86400);
}

#[test]
fn token_expires_a_day_after_issue() {
    let issued = now();
    let token = create_token_at("dev", Id::from_i64(-7), issued).unwrap();
    let claims = decode_token(&token).unwrap();
    assert_eq!(
        claims,
        Claims { sub: "dev".to_string(), exp: (issued + 86400) as usize, developer_id: -7 }
    );
}

#[test]
fn same_claims_give_the_same_token() {
    let a = create_token_at("dev", Id::from_u64(1), 1_700_000_000).unwrap();
    let b = create_token_at("dev", Id::from_u64(1), 1_700_000_000).unwrap();
    let c = create_token_at("dev", Id::from_u64(2), 1_700_000_000).unwrap();
    assert_eq!(a, b);
    assert_ne!(a, c);
}

#[test]
fn expired_token_returns_401() {
    let token = create_token_at("dev", Id::from_u64(1), 1_000).unwrap();
    assert_eq!(decode_token(&token), Err(AuthError::InvalidToken));
    let just_expired = create_token_at("dev", Id::from_u64(1), now() - 86400 - 120).unwrap();
    assert_eq!(decode_token(&just_expired), Err(AuthError::InvalidToken));
    let header = format!("Bearer {}", just_expired);
    let e = authenticate_bearer(Some(&header)).unwrap_err();
    assert_eq!(e.rejection().status_code(), 401);
}

#[test]
fn test_invalid_token_is_refused() {
    assert_eq!(decode_token("invalid_token"), Err(AuthError::InvalidToken));
    assert_eq!(decode_token("invalid.token.here"), Err(AuthError::InvalidToken));
    assert_eq!(decode_token(""), Err(AuthError::InvalidToken));
}

#[test]
fn token_with_a_changed_signature_is_invalid() {
    let token = create_token("user_123", Id::from_u64(5)).unwrap();
    let mut forged = token.clone();
    let last = forged.pop().unwrap();
    forged.push(if last == 'A' { 'B' } else { 'A' });
    assert_eq!(decode_token(&forged), Err(AuthError::InvalidToken));
}

#[test]
fn signing_secret_is_the_configured_key() {
    assert_eq!(
        signing_secret(),
        "supersecretkeydontshareThisIsJustATestKeyPleaseChangeItInProd"
    );
}

#[test]
fn bearer_token_follows_the_prefix() {
    assert_eq!(bearer_token("Bearer abc.def.ghi"), Some("abc.def.ghi"));
    assert_eq!(bearer_token("Bearer "), Some(""));
    assert_eq!(bearer_token("Bearer \u{e9}t\u{e9}"), Some("\u{e9}t\u{e9}"));
    assert_eq!(bearer_token("Bearer"), None);
    assert_eq!(bearer_token("bearer abc"), None);
    assert_eq!(bearer_token("Basic abc"), None);
    assert_eq!(bearer_token(""), None);
}

#[test]
fn access_protected_route_without_token_fails() {
    assert_eq!(authenticate_bearer(None), Err(AuthError::InvalidToken));
}

#[test]
fn invalid_token_format_returns_401() {
    assert_eq!(authenticate_bearer(Some("Bearer invalid.token.here")), Err(AuthError::InvalidToken));
}

#[test]
fn missing_bearer_prefix_returns_401() {
    let token = create_token("user_123", Id::from_u64(5)).unwrap();
    assert_eq!(authenticate_bearer(Some(&token)), Err(AuthError::InvalidToken));
}

#[test]
fn bearer_header_with_an_issued_token_authenticates() {
    let token = create_token("user_123", Id::from_u64(5)).unwrap();
    let header = format!("Bearer {}", token);
    assert_eq!(authenticate_bearer(Some(&header)).unwrap().user_id, "user_123");
}

#[test]
fn bearer_identity_is_the_subject() {
    let claims = Claims { sub: "alice".to_string(), exp: 10, developer_id: 3 };
    assert_eq!(bearer_identity(Ok(claims)).unwrap().user_id, "alice");
    assert_eq!(bearer_identity(Err(AuthError::TokenCreation)), Err(AuthError::InvalidToken));
}

#[test]
fn auth_error_messages() {
    assert_eq!(AuthError::TokenCreation.message(), "Token creation failed");
    assert_eq!(AuthError::InvalidToken.message(), "Invalid token");
    let e = AuthError::InvalidToken.rejection();
    assert_eq!((e.kind, e.message.as_str(), e.status_code()), (ErrorKind::Unauthorized, "Invalid or missing token", 401));
    let e = AuthError::TokenCreation.rejection();
    assert_eq!((e.kind, e.message.as_str(), e.status_code()), (ErrorKind::Store, "Token creation failed", 500));
}

#[test]
fn generated_api_key_is_32_letters_and_digits() {
    let (key, hash) = generate_api_key();
    assert_eq!(key.chars().count(), 32);
    assert!(key.chars().all(|c| c.is_ascii_alphanumeric()));
    assert_eq!(hash.len(), 64);
    assert_eq!(api_key_hash(&ApiKeyHeader::Text(key.clone())).unwrap(), hash);
    assert_ne!(hash, key);
}

#[test]
fn generated_api_keys_differ() {
    let (a, _) = generate_api_key();
    let (b, _) = generate_api_key();
    assert_ne!(a, b);
}

#[test]
fn api_key_digest_is_sha256_in_hex() {
    assert_eq!(
        api_key_hash(&ApiKeyHeader::Text("abc".to_string())).unwrap(),
        "ba7816bf8f01cfea414140de5dae2223b00361a396177a9cb410ff61f20015ad"
    );
    assert_eq!(
        api_key_hash(&ApiKeyHeader::Text(String::new())).unwrap(),
        "e3b0c44298fc1c149afbf4c8996fb92427ae41e4649b934ca495991b7852b855"
    );
}

#[test]
fn request_without_api_key_is_unauthorized() {
    let e = api_key_hash(&ApiKeyHeader::Missing).unwrap_err();
    assert_eq!(e.kind, ErrorKind::Unauthorized);
    assert_eq!(e.message, "Missing X-API-Key header");
    assert_eq!(e.status_code(), 401);
    let e = api_key_hash(&ApiKeyHeader::Unreadable).unwrap_err();
    assert_eq!(e.kind, ErrorKind::Unauthorized);
    assert_eq!(e.message, "Invalid API Key format");
}

#[test]
fn api_key_lookup_decides_the_identity() {
    let m = api_key_identity(Ok(Some(ApiKeyRow { id: 11, developer_id: -1 }))).unwrap();
    assert_eq!(m.api_key_id, Id::from_u64(11));
    assert_eq!(m.developer_id, Id::from_u64(u64::MAX));
    let e = api_key_identity(Ok(None)).unwrap_err();
    assert_eq!((e.kind, e.message.as_str(), e.status_code()), (ErrorKind::Unauthorized, "Invalid API Key", 401));
    let e = api_key_identity(Err(StoreFailure)).unwrap_err();
    assert_eq!((e.kind, e.message.as_str(), e.status_code()), (ErrorKind::Store, "Database error", 500));
}

#[test]
fn presented_key_is_looked_up_and_then_authenticated() {
    let state = KeyCheck::Unauthenticated
        .advance(KeyEvent::Presented(ApiKeyHeader::Text("abc".to_string())));
    assert_eq!(
        state,
        KeyCheck::Verifying {
            digest: "ba7816bf8f01cfea414140de5dae2223b00361a396177a9cb410ff61f20015ad".to_string()
        }
    );
    let state = state.advance(KeyEvent::Looked(Ok(Some(ApiKeyRow { id: 4, developer_id: 9 }))));
    assert_eq!(
        state,
        KeyCheck::Authenticated(ApiKeyMiddleware {
            developer_id: Id::from_u64(9),
            api_key_id: Id::from_u64(4)
        })
    );
}

#[test]
fn request_is_rejected_without_a_known_key() {
    let missing = KeyCheck::Unauthenticated.advance(KeyEvent::Presented(ApiKeyHeader::Missing));
    match &missing {
        KeyCheck::Rejected(e) => assert_eq!((e.status_code(), e.message.as_str()), (401, "Missing X-API-Key header")),
        other => panic!("not rejected: {:?}", other),
    }
    let unreadable =
        KeyCheck::Unauthenticated.advance(KeyEvent::Presented(ApiKeyHeader::Unreadable));
    match &unreadable {
        KeyCheck::Rejected(e) => assert_eq!((e.status_code(), e.message.as_str()), (401, "Invalid API Key format")),
        other => panic!("not rejected: {:?}", other),
    }
    let verifying = KeyCheck::Verifying { digest: "d".to_string() };
    match verifying.clone().advance(KeyEvent::Looked(Ok(None))) {
        KeyCheck::Rejected(e) => assert_eq!((e.status_code(), e.message.as_str()), (401, "Invalid API Key")),
        other => panic!("not rejected: {:?}", other),
    }
    match verifying.advance(KeyEvent::Looked(Err(StoreFailure))) {
        KeyCheck::Rejected(e) => assert_eq!((e.status_code(), e.message.as_str()), (500, "Database error")),
        other => panic!("not rejected: {:?}", other),
    }
}

#[test]
fn authenticated_and_rejected_requests_stay_so() {
    let identity = ApiKeyMiddleware { developer_id: Id::from_u64(9), api_key_id: Id::from_u64(4) };
    let authenticated = KeyCheck::Authenticated(identity);
    let rejected = KeyCheck::Unauthenticated.advance(KeyEvent::Presented(ApiKeyHeader::Missing));
    for state in [authenticated, rejected] {
        let events = [
            KeyEvent::Presented(ApiKeyHeader::Text("abc".to_string())),
            KeyEvent::Presented(ApiKeyHeader::Missing),
            KeyEvent::Looked(Ok(Some(ApiKeyRow { id: 1, developer_id: 2 }))),
            KeyEvent::Looked(Ok(None)),
            KeyEvent::Looked(Err(StoreFailure)),
        ];
        for event in events {
            assert_eq!(state.clone().advance(event), state);
        }
    }
}

#[test]
fn lookup_answer_without_a_presented_key_authenticates_nobody() {
    let answer = KeyEvent::Looked(Ok(Some(ApiKeyRow { id: 1, developer_id: 2 })));
    assert_eq!(KeyCheck::Unauthenticated.advance(answer), KeyCheck::Unauthenticated);
    let verifying = KeyCheck::Verifying { digest: "d".to_string() };
    let again = KeyEvent::Presented(ApiKeyHeader::Text("abc".to_string()));
    assert_eq!(verifying.clone().advance(again), verifying);
}
