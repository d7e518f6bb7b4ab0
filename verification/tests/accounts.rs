use coding_quiz_api::auth::{decode_token, verify_password};
use coding_quiz_api::error::{ApiError, ErrorKind, StoreFailure};
use coding_quiz_api::handlers::{
    api_key_outcome, auth_login, auth_register, generate_api_key, get_me, register_outcome,
};
use coding_quiz_api::id::Id;
use coding_quiz_api::models::{Developer, DeveloperResponse, LoginRequest, RegisterRequest};
use coding_quiz_api::store::Statement;

fn failure(e: &ApiError) -> (ErrorKind, &str, u16) {
    (e.kind, e.message.as_str(), e.status_code())
}

fn registered(username: &str, password: &str) -> Developer {
    let req = RegisterRequest { username: username.to_string(), password: password.to_string() };
    match auth_register(&req).unwrap() {
        Statement::InsertDeveloper { id, username, password_hash } => {
            Developer { id, username, password_hash }
        }
        other => panic!("not a developer: {:?}", other),
    }
}

#[test]
fn auth_register_and_login_works() {
    let developer = registered("user_1", "password123");
    assert_eq!(developer.username, "user_1");
    assert_ne!(developer.password_hash, "password123");
    assert!(verify_password(&developer.password_hash, "password123"));
    assert_eq!(register_outcome(Ok(())), Ok("Registered successfully"));

    let login = LoginRequest { username: "user_1".to_string(), password: "password123".to_string() };
    let reply = auth_login(&Ok(Some(developer.clone())), &login).unwrap();
    let claims = decode_token(&reply.token).unwrap();
    assert_eq!(claims.sub, "user_1");
    assert_eq!(claims.developer_id, developer.id.to_i64());
}

#[test]
fn auth_login_fails_with_wrong_password() {
    let developer = registered("user_2", "password123");
    let login = LoginRequest { username: "user_2".to_string(), password: "wrongpassword".to_string() };
    let e = auth_login(&Ok(Some(developer)), &login).unwrap_err();
    assert_eq!(failure(&e), (ErrorKind::Unauthorized, "Invalid credentials", 401));
}

#[test]
fn auth_login_non_existent_user_fails() {
    let login = LoginRequest {
        username: "non_existent_user_12345".to_string(),
        password: "password123".to_string(),
    };
    let e = auth_login(&Ok(None), &login).unwrap_err();
    assert_eq!(failure(&e), (ErrorKind::Unauthorized, "Invalid credentials", 401));
    let e = auth_login(&Err(StoreFailure), &login).unwrap_err();
    assert_eq!(failure(&e), (ErrorKind::Store, "Database error", 500));
}

#[test]
fn auth_register_duplicate_username_fails() {
    let first = registered("user_3", "password123");
    let second = registered("user_3", "password123");
    assert_ne!(first.id, second.id);
    assert_eq!(register_outcome(Ok(())), Ok("Registered successfully"));
    let e = register_outcome(Err(StoreFailure)).unwrap_err();
    assert_ne!(e.status_code(), 200);
    assert_eq!(
        failure(&e),
        (ErrorKind::Store, "Registration failed (username might be taken)", 500)
    );
}

#[test]
fn current_developer_is_the_one_found() {
    let me = DeveloperResponse { id: Id::from_u64(8), username: "user_4".to_string() };
    assert_eq!(get_me(Ok(Some(me.clone()))), Ok(me));
    let e = get_me(Ok(None)).unwrap_err();
    assert_eq!(failure(&e), (ErrorKind::Unauthorized, "Developer not found", 401));
    let e = get_me(Err(StoreFailure)).unwrap_err();
    assert_eq!(failure(&e), (ErrorKind::Store, "Database error", 500));
}

#[test]
fn api_key_is_issued_to_a_known_developer() {
    let issued = generate_api_key(Ok(Some(Id::from_u64(8)))).unwrap();
    assert_eq!(issued.api_key.len(), 32);
    assert!(issued.api_key.chars().all(|c| c.is_ascii_alphanumeric()));
    match issued.statement {
        Statement::InsertApiKey { developer_id, key_hash, .. } => {
            assert_eq!(developer_id, Id::from_u64(8));
            assert_eq!(key_hash.len(), 64);
            assert_ne!(key_hash, issued.api_key);
            assert!(!key_hash.contains(&issued.api_key));
        }
        other => panic!("not an API key: {:?}", other),
    }
    assert_eq!(api_key_outcome(Ok(())), Ok(()));
}

#[test]
fn api_key_is_refused_to_an_unknown_developer() {
    let e = generate_api_key(Ok(None)).unwrap_err();
    assert_eq!(failure(&e), (ErrorKind::Unauthorized, "Developer not found", 401));
    let e = generate_api_key(Err(StoreFailure)).unwrap_err();
    assert_eq!(failure(&e), (ErrorKind::Store, "Database error", 500));
    let e = api_key_outcome(Err(StoreFailure)).unwrap_err();
    assert_eq!(failure(&e), (ErrorKind::Store, "Failed to create API key", 500));
}
