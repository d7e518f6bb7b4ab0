//! The two credential planes: passwords and signed bearer tokens for
//! developers, hashed API keys for integrations.
//!
//! Hashing, signing and random choice are done by outside crates. What they
//! return is named by the spec functions below, so that the contracts of this
//! module can say exactly which value is handed on.

use crate::error::{ApiError, ErrorKind, StoreFailure};
use crate::id::Id;
use crate::models::{Claims, ClaimsView};
use vstd::prelude::*;
use vstd::string::StrSliceExecFns;

verus! {

/// Whether the Argon2 hash string `hash` is a hash of `password`.
pub uninterp spec fn password_verifies(hash: Seq<char>, password: Seq<char>) -> bool;

/// The SHA-256 digest of the UTF-8 bytes of `text`, in lower-case hex.
pub uninterp spec fn sha256_hex(text: Seq<char>) -> Seq<char>;

/// The HS256 token that states `sub`, `exp` and `developer_id` under `secret`,
/// where one can be made.
pub uninterp spec fn signed_token(
    secret: Seq<char>,
    sub: Seq<char>,
    exp: usize,
    developer_id: i64,
) -> Option<Seq<char>>;

/// The claims that `token` carries, if its signature under `secret` verifies
/// and it states a name, an expiry and a developer number.
pub uninterp spec fn carried_claims(secret: Seq<char>, token: Seq<char>) -> Option<ClaimsView>;

/// The text of the key that tokens are signed with.
pub open spec fn secret_text() -> Seq<char> {
    "supersecretkeydontshareThisIsJustATestKeyPleaseChangeItInProd"@
}

/// Seconds for which a token is valid after it is issued.
pub open spec fn token_lifetime() -> int {
    86400
}

/// Letters and digits of ASCII.
pub open spec fn is_ascii_alphanumeric(c: char) -> bool {
    ('0' <= c && c <= '9') || ('a' <= c && c <= 'z') || ('A' <= c && c <= 'Z')
}

/// Length of a freshly generated API key.
pub open spec fn api_key_length() -> nat {
    32
}

/// The seven characters that introduce a bearer token.
pub open spec fn bearer_prefix() -> Seq<char> {
    seq!['B', 'e', 'a', 'r', 'e', 'r', ' ']
}

pub open spec fn has_bearer_prefix(header: Seq<char>) -> bool {
    header.len() >= 7 && header.subrange(0, 7) == bearer_prefix()
}

/// Whether `header` holds a bearer token that carries the name `user`.
pub open spec fn bearer_names(header: Seq<char>, user: Seq<char>) -> bool {
    has_bearer_prefix(header) && match carried_claims(
        secret_text(),
        header.subrange(7, header.len() as int),
    ) {
        Some(c) => c.sub == user,
        None => false,
    }
}

/// Why a token could not be issued or was not accepted.
#[derive(Debug, Clone, Copy, PartialEq, Eq, Structural)]
pub enum AuthError {
    TokenCreation,
    /// Absent, malformed, expired or wrongly signed: the cause is not told.
    InvalidToken,
}

impl AuthError {
    /// The text shown for the error.
    pub fn message(&self) -> (text: String)
        ensures
            text@ == match *self {
                AuthError::TokenCreation => "Token creation failed"@,
                AuthError::InvalidToken => "Invalid token"@,
            },
    {
        match self {
            AuthError::TokenCreation => "Token creation failed".to_owned(),
            AuthError::InvalidToken => "Invalid token".to_owned(),
        }
    }
}

impl AuthError {
    /// The reply to a request that ended in this error: a request that is not
    /// authenticated is unauthorized, whatever was wrong with its token.
    pub fn rejection(&self) -> (e: ApiError)
        ensures
            match *self {
                AuthError::InvalidToken => e.is(
                    ErrorKind::Unauthorized,
                    "Invalid or missing token"@,
                ),
                AuthError::TokenCreation => e.is(ErrorKind::Store, "Token creation failed"@),
            },
    {
        match self {
            AuthError::InvalidToken => ApiError::new(
                ErrorKind::Unauthorized,
                "Invalid or missing token",
            ),
            AuthError::TokenCreation => ApiError::new(ErrorKind::Store, "Token creation failed"),
        }
    }
}

/// The identity that a verified bearer token attaches to a request.
#[derive(Debug, Clone, PartialEq, Eq)]
pub struct JwtMiddleware {
    pub user_id: String,
}

/// The identity that a known API key attaches to a request.
#[derive(Debug, Clone, Copy, PartialEq, Eq)]
pub struct ApiKeyMiddleware {
    pub developer_id: Id,
    pub api_key_id: Id,
}

/// What a request carries in its API-key header.
#[derive(Debug, Clone, PartialEq, Eq)]
pub enum ApiKeyHeader {
    Missing,
    /// Present, but not text.
    Unreadable,
    Text(String),
}

/// The row of a stored API key.
#[derive(Debug, Clone, Copy, PartialEq, Eq)]
pub struct ApiKeyRow {
    pub id: i64,
    pub developer_id: i64,
}

#[verifier::external_type_specification]
#[verifier::external_body]
pub struct ExPasswordHashError(argon2::password_hash::Error);

/// Calls `Argon2::default().hash_password` with a salt from
/// `SaltString::generate`. The salt is random, so the hash is not named; a
/// hash that comes back is one that verifies against the same password.
#[verifier::external_body]
fn argon2_hash(password: &str) -> (r: Result<String, argon2::password_hash::Error>)
    ensures
        r matches Ok(h) ==> password_verifies(h@, password@),
{
    let salt = argon2::password_hash::SaltString::generate(
        &mut argon2::password_hash::rand_core::OsRng,
    );
    let hasher = argon2::Argon2::default();
    let hash = argon2::PasswordHasher::hash_password(&hasher, password.as_bytes(), &salt)?;
    Ok(hash.to_string())
}

/// Calls `PasswordHash::new` on `hash` and `Argon2::default().verify_password`
/// on the result; a hash string that does not parse verifies nothing.
#[verifier::external_body]
fn argon2_verify(hash: &str, password: &str) -> (ok: bool)
    ensures
        ok == password_verifies(hash@, password@),
{
    match argon2::PasswordHash::new(hash) {
        Ok(parsed) => argon2::PasswordVerifier::verify_password(
            &argon2::Argon2::default(),
            password.as_bytes(),
            &parsed,
        ).is_ok(),
        Err(_) => false,
    }
}

/// Calls `Sha256::digest` of the `sha2` crate on the bytes of `text` and
/// writes the digest in lower-case hex.
#[verifier::external_body]
fn sha256_hex_digest(text: &str) -> (hex: String)
    ensures
        hex@ == sha256_hex(text@),
{
    format!("{:x}", <sha2::Sha256 as sha2::Digest>::digest(text.as_bytes()))
}

/// Calls `Rng::sample` of `rand::thread_rng()` with the distribution
/// `Alphanumeric`, which draws from `a-z`, `A-Z` and `0-9`.
#[verifier::external_body]
fn random_alphanumeric() -> (c: char)
    ensures
        is_ascii_alphanumeric(c),
{
    char::from(rand::Rng::sample(&mut rand::thread_rng(), rand::distributions::Alphanumeric))
}

/// Calls `String::from_iter` on the characters of `chars`.
#[verifier::external_body]
fn text_of_chars(chars: &Vec<char>) -> (text: String)
    ensures
        text@ == chars@,
{
    String::from_iter(chars.iter())
}

/// Calls `chrono::Utc::now().timestamp()`: the seconds since the Unix epoch,
/// by the machine's clock. The call panics on a machine whose clock stands
/// before 1970.
#[verifier::external_body]
fn unix_now() -> (seconds: i64) {
    chrono::Utc::now().timestamp()
}

/// Calls `jsonwebtoken::encode` with the default header (HS256), the key made
/// of the bytes of `secret`, and the three claims as a JSON object. A token
/// that comes back carries these claims under the same secret.
#[verifier::external_body]
fn jwt_sign(secret: &str, sub: &str, exp: usize, developer_id: i64) -> (r: Option<String>)
    ensures
        match r {
            Some(t) => signed_token(secret@, sub@, exp, developer_id) == Some(t@)
                && carried_claims(secret@, t@) == Some(
                ClaimsView { sub: sub@, exp: exp, developer_id: developer_id },
            ),
            None => signed_token(secret@, sub@, exp, developer_id).is_none(),
        },
{
    let mut claims = serde_json::Map::new();
    claims.insert("sub".to_string(), serde_json::Value::from(sub));
    claims.insert("exp".to_string(), serde_json::Value::from(exp));
    claims.insert("developer_id".to_string(), serde_json::Value::from(developer_id));
    let key = jsonwebtoken::EncodingKey::from_secret(secret.as_bytes());
    jsonwebtoken::encode(&jsonwebtoken::Header::default(), &claims, &key).ok()
}

/// Calls `jsonwebtoken::decode` with `Validation::default()` and the key made
/// of the bytes of `secret`, and reads the three claims from the JSON object.
/// Whether a token is still accepted depends on the clock, so a refusal says
/// nothing; a success returns the claims that the token carries.
#[verifier::external_body]
fn jwt_verify(secret: &str, token: &str) -> (r: Option<Claims>)
    ensures
        r matches Some(c) ==> carried_claims(secret@, token@) == Some(c@),
{
    let key = jsonwebtoken::DecodingKey::from_secret(secret.as_bytes());
    let validation = jsonwebtoken::Validation::default();
    let data = jsonwebtoken::decode::<serde_json::Value>(token, &key, &validation).ok()?;
    let sub = data.claims.get("sub")?.as_str()?.to_owned();
    let exp = usize::try_from(data.claims.get("exp")?.as_u64()?).ok()?;
    let developer_id = data.claims.get("developer_id")?.as_i64()?;
    Some(Claims { sub, exp, developer_id })
}

/// The key that tokens are signed with.
pub fn signing_secret() -> (secret: &'static str)
    ensures
        secret@ == secret_text(),
{
    "supersecretkeydontshareThisIsJustATestKeyPleaseChangeItInProd"
}

/// Hashes a password with a fresh random salt. A hash that is returned
/// verifies against `password`.
pub fn hash_password(password: &str) -> (r: Result<String, argon2::password_hash::Error>)
    ensures
        r matches Ok(h) ==> password_verifies(h@, password@),
{
    argon2_hash(password)
}

/// Whether `hash` is a hash of `password`.
pub fn verify_password(hash: &str, password: &str) -> (ok: bool)
    ensures
        ok == password_verifies(hash@, password@),
{
    argon2_verify(hash, password)
}

/// Whether a clock reading leaves room for a token's lifetime.
pub open spec fn issuable_at(now: i64) -> bool {
    0 <= now && now + token_lifetime() <= usize::MAX
}

/// The token for `username` and `developer_id` that is issued at second `now`
/// and expires a day later.
pub fn create_token_at(username: &str, developer_id: Id, now: i64) -> (r: Result<
    String,
    AuthError,
>)
    requires
        issuable_at(now),
    ensures
        match signed_token(
            secret_text(),
            username@,
            (now + token_lifetime()) as usize,
            developer_id.stored(),
        ) {
            Some(t) => r matches Ok(token) && token@ == t,
            None => r == Err::<String, AuthError>(AuthError::TokenCreation),
        },
        r matches Ok(token) ==> carried_claims(secret_text(), token@) == Some(
            ClaimsView {
                sub: username@,
                exp: (now + token_lifetime()) as usize,
                developer_id: developer_id.stored(),
            },
        ),
{
    let exp: usize = (now as u64 + 86400) as usize;
    match jwt_sign(signing_secret(), username, exp, developer_id.to_i64()) {
        Some(token) => Ok(token),
        None => Err(AuthError::TokenCreation),
    }
}

/// Whether `token` is the one issued for `username` and `developer_id` at
/// second `now`, carrying that identity and an expiry a day later.
pub open spec fn issued_at(
    token: Seq<char>,
    username: Seq<char>,
    developer_id: i64,
    now: i64,
) -> bool {
    let exp = (now + token_lifetime()) as usize;
    issuable_at(now) && signed_token(secret_text(), username, exp, developer_id) == Some(token)
        && carried_claims(secret_text(), token) == Some(
        ClaimsView { sub: username, exp: exp, developer_id: developer_id },
    )
}

/// Whether `token` was issued for `username` and `developer_id` at some
/// second.
pub open spec fn issued(token: Seq<char>, username: Seq<char>, developer_id: i64) -> bool {
    exists|now: i64| #[trigger] issued_at(token, username, developer_id, now)
}

/// Issues a token at the present second. The token is the one that
/// `create_token_at` gives for some reading of the clock; if the clock leaves
/// no room for the lifetime, none is issued.
pub fn create_token(username: &str, developer_id: Id) -> (r: Result<String, AuthError>)
    ensures
        match r {
            Ok(token) => issued(token@, username@, developer_id.stored()),
            Err(e) => e == AuthError::TokenCreation,
        },
{
    let now = unix_now();
    if now < 0 || usize::MAX < 86400 || now as u64 > (usize::MAX - 86400) as u64 {
        Err(AuthError::TokenCreation)
    } else {
        assert(issuable_at(now));
        let r = create_token_at(username, developer_id, now);
        proof {
            if r is Ok {
                assert(issued_at(r->Ok_0@, username@, developer_id.stored(), now));
            }
        }
        r
    }
}

/// Verifies a token. Every refusal is `InvalidToken`, whatever its cause; on
/// success the claims are those that the token carries.
pub fn decode_token(token: &str) -> (r: Result<Claims, AuthError>)
    ensures
        match r {
            Ok(c) => carried_claims(secret_text(), token@) == Some(c@),
            Err(e) => e == AuthError::InvalidToken,
        },
{
    match jwt_verify(signing_secret(), token) {
        Some(c) => Ok(c),
        None => Err(AuthError::InvalidToken),
    }
}

/// The token in an `Authorization` header: what follows `Bearer `.
pub fn bearer_token(header: &str) -> (r: Option<&str>)
    ensures
        match r {
            Some(t) => has_bearer_prefix(header@) && t@ == header@.subrange(
                7,
                header@.len() as int,
            ),
            None => !has_bearer_prefix(header@),
        },
{
    let n = header.unicode_len();
    if n < 7 {
        return None;
    }
    if header.get_char(0) == 'B' && header.get_char(1) == 'e' && header.get_char(2) == 'a'
        && header.get_char(3) == 'r' && header.get_char(4) == 'e' && header.get_char(5) == 'r'
        && header.get_char(6) == ' ' {
        assert(header@.subrange(0, 7) =~= bearer_prefix());
        Some(header.substring_char(7, n))
    } else {
        assert(header@.subrange(0, 7)[0] == header@[0]);
        assert(header@.subrange(0, 7)[1] == header@[1]);
        assert(header@.subrange(0, 7)[2] == header@[2]);
        assert(header@.subrange(0, 7)[3] == header@[3]);
        assert(header@.subrange(0, 7)[4] == header@[4]);
        assert(header@.subrange(0, 7)[5] == header@[5]);
        assert(header@.subrange(0, 7)[6] == header@[6]);
        None
    }
}

/// The outcome of verifying a bearer token: the identity, or a rejection.
pub fn bearer_identity(verified: Result<Claims, AuthError>) -> (r: Result<
    JwtMiddleware,
    AuthError,
>)
    ensures
        match verified {
            Ok(c) => r matches Ok(m) && m.user_id@ == c.sub@,
            Err(_) => r == Err::<JwtMiddleware, AuthError>(AuthError::InvalidToken),
        },
{
    match verified {
        Ok(c) => Ok(JwtMiddleware { user_id: c.sub }),
        Err(_) => Err(AuthError::InvalidToken),
    }
}

/// Authenticates a management request by its `Authorization` header. A
/// request without the header, or with one that does not start with
/// `Bearer `, is rejected; an identity is attached only from the claims that
/// the token carries.
pub fn authenticate_bearer(header: Option<&str>) -> (r: Result<JwtMiddleware, AuthError>)
    ensures
        match r {
            Ok(m) => match header {
                Some(h) => bearer_names(h@, m.user_id@),
                None => false,
            },
            Err(e) => e == AuthError::InvalidToken,
        },
{
    match header {
        Some(h) => match bearer_token(h) {
            Some(token) => bearer_identity(decode_token(token)),
            None => Err(AuthError::InvalidToken),
        },
        None => Err(AuthError::InvalidToken),
    }
}

/// A new API key: thirty-two random letters and digits, and the digest under
/// which the key is stored. The key itself is not kept anywhere.
pub fn generate_api_key() -> (pair: (String, String))
    ensures
        pair.0@.len() == api_key_length(),
        forall|i: int| 0 <= i < pair.0@.len() ==> is_ascii_alphanumeric(#[trigger] pair.0@[i]),
        pair.1@ == sha256_hex(pair.0@),
{
    let mut chars: Vec<char> = Vec::new();
    let mut i: usize = 0;
    while i < 32
        invariant
            i <= 32,
            chars@.len() == i,
            forall|j: int| 0 <= j < chars@.len() ==> is_ascii_alphanumeric(#[trigger] chars@[j]),
        decreases 32 - i,
    {
        let c = random_alphanumeric();
        chars.push(c);
        i += 1;
    }
    let key = text_of_chars(&chars);
    let hash = sha256_hex_digest(key.as_str());
    (key, hash)
}

/// The digest under which a presented API key is looked up.
pub fn api_key_hash(header: &ApiKeyHeader) -> (r: Result<String, ApiError>)
    ensures
        match *header {
            ApiKeyHeader::Missing => r matches Err(e) && e.is(
                ErrorKind::Unauthorized,
                "Missing X-API-Key header"@,
            ),
            ApiKeyHeader::Unreadable => r matches Err(e) && e.is(
                ErrorKind::Unauthorized,
                "Invalid API Key format"@,
            ),
            ApiKeyHeader::Text(key) => r matches Ok(h) && h@ == sha256_hex(key@),
        },
{
    match header {
        ApiKeyHeader::Missing => Err(
            ApiError::new(ErrorKind::Unauthorized, "Missing X-API-Key header"),
        ),
        ApiKeyHeader::Unreadable => Err(
            ApiError::new(ErrorKind::Unauthorized, "Invalid API Key format"),
        ),
        ApiKeyHeader::Text(key) => Ok(sha256_hex_digest(key.as_str())),
    }
}

/// The outcome of looking a digest up: the identity of the key's owner, a
/// rejection if no key has that digest, a server error if the store failed.
pub fn api_key_identity(found: Result<Option<ApiKeyRow>, StoreFailure>) -> (r: Result<
    ApiKeyMiddleware,
    ApiError,
>)
    ensures
        match found {
            Ok(Some(row)) => r matches Ok(m) && m.api_key_id.number() == row.id as u64
                && m.developer_id.number() == row.developer_id as u64,
            Ok(None) => r matches Err(e) && e.is(ErrorKind::Unauthorized, "Invalid API Key"@),
            Err(_) => r matches Err(e) && e.is(ErrorKind::Store, "Database error"@),
        },
{
    match found {
        Ok(Some(row)) => Ok(
            ApiKeyMiddleware {
                developer_id: Id::from_i64(row.developer_id),
                api_key_id: Id::from_i64(row.id),
            },
        ),
        Ok(None) => Err(ApiError::new(ErrorKind::Unauthorized, "Invalid API Key")),
        Err(_) => Err(ApiError::new(ErrorKind::Store, "Database error")),
    }
}

/// Where a request stands on its way through the API-key plane.
#[derive(Debug, Clone, PartialEq, Eq)]
pub enum KeyCheck {
    /// No credential has been looked at.
    Unauthenticated,
    /// A key was presented; its digest is to be looked up.
    Verifying { digest: String },
    /// The request goes on with this identity.
    Authenticated(ApiKeyMiddleware),
    /// The request ends here, before any business logic.
    Rejected(ApiError),
}

/// What happens to a request on that way.
#[derive(Debug, PartialEq, Eq)]
pub enum KeyEvent {
    /// The header was read.
    Presented(ApiKeyHeader),
    /// The store answered the lookup of the digest.
    Looked(Result<Option<ApiKeyRow>, StoreFailure>),
}

impl KeyCheck {
    /// Authenticated or rejected: nothing moves the request from here.
    pub open spec fn is_terminal(self) -> bool {
        self is Authenticated || self is Rejected
    }

    /// Whether `self` is the state that follows `before` on `event`: a
    /// presented key leads from the start to the lookup of its digest, or to
    /// a rejection if there is no readable key; the answer of the store leads
    /// from the lookup to the identity, or to a rejection. Every other event
    /// leaves the state as it is.
    pub open spec fn follows(self, before: KeyCheck, event: KeyEvent) -> bool {
        match (before, event) {
            (KeyCheck::Unauthenticated, KeyEvent::Presented(ApiKeyHeader::Missing)) => {
                self matches KeyCheck::Rejected(e) && e.is(
                    ErrorKind::Unauthorized,
                    "Missing X-API-Key header"@,
                )
            },
            (KeyCheck::Unauthenticated, KeyEvent::Presented(ApiKeyHeader::Unreadable)) => {
                self matches KeyCheck::Rejected(e) && e.is(
                    ErrorKind::Unauthorized,
                    "Invalid API Key format"@,
                )
            },
            (KeyCheck::Unauthenticated, KeyEvent::Presented(ApiKeyHeader::Text(key))) => {
                self matches KeyCheck::Verifying { digest } && digest@ == sha256_hex(key@)
            },
            (KeyCheck::Verifying { .. }, KeyEvent::Looked(Ok(Some(row)))) => {
                self matches KeyCheck::Authenticated(m) && m.api_key_id.number() == row.id as u64
                    && m.developer_id.number() == row.developer_id as u64
            },
            (KeyCheck::Verifying { .. }, KeyEvent::Looked(Ok(None))) => {
                self matches KeyCheck::Rejected(e) && e.is(
                    ErrorKind::Unauthorized,
                    "Invalid API Key"@,
                )
            },
            (KeyCheck::Verifying { .. }, KeyEvent::Looked(Err(_))) => {
                self matches KeyCheck::Rejected(e) && e.is(ErrorKind::Store, "Database error"@)
            },
            _ => self == before,
        }
    }

    /// The state that follows on `event`.
    pub fn advance(self, event: KeyEvent) -> (next: KeyCheck)
        ensures
            next.follows(self, event),
    {
        match (self, event) {
            (KeyCheck::Unauthenticated, KeyEvent::Presented(header)) => match api_key_hash(&header) {
                Ok(digest) => KeyCheck::Verifying { digest },
                Err(e) => KeyCheck::Rejected(e),
            },
            (KeyCheck::Verifying { .. }, KeyEvent::Looked(found)) => match api_key_identity(found) {
                Ok(m) => KeyCheck::Authenticated(m),
                Err(e) => KeyCheck::Rejected(e),
            },
            (state, _) => state,
        }
    }
}

/// A request that is authenticated or rejected stays so, and a request is
/// authenticated only by the store's answer to the lookup of a presented key.
pub proof fn law_key_check_ends(before: KeyCheck, event: KeyEvent, next: KeyCheck)
    requires
        next.follows(before, event),
    ensures
        before.is_terminal() ==> next == before,
        next is Authenticated && !(before is Authenticated) ==> before is Verifying
            && event matches KeyEvent::Looked(Ok(Some(_))),
        before is Unauthenticated ==> !(next is Authenticated),
{
}

} // verus!
