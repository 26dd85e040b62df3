//! Password hashes (bcrypt) and session tokens (JWT, HS256, valid 24 hours).
use vstd::prelude::*;
use crate::server::stamps::now_timestamp;

verus! {

#[verifier::external_type_specification]
#[verifier::external_body]
pub struct ExBcryptError(bcrypt::BcryptError);

#[verifier::external_type_specification]
#[verifier::external_body]
pub struct ExJwtError(jsonwebtoken::errors::Error);

/// Whether `bcrypt::verify` accepts the password against the hash, that is,
/// returns `Ok(true)`.
pub uninterp spec fn bcrypt_verifies(password: Seq<char>, hash: Seq<char>) -> bool;

/// Hashes a password with `bcrypt::hash` at `bcrypt::DEFAULT_COST` and a
/// random salt. Claimed: a hash that comes out verifies the password
/// (`bcrypt::verify` hashes the password again with the cost and salt written
/// in the hash and compares). Which hash comes out rests on the salt, and
/// whether the salt can be drawn rests on the system, so neither is stated.
#[verifier::external_body]
fn bcrypt_hash(password: &str) -> (r: Result<String, bcrypt::BcryptError>)
    ensures
        r matches Ok(h) ==> bcrypt_verifies(password@, h@),
{
    bcrypt::hash(password, bcrypt::DEFAULT_COST)
}

/// Checks a password against a hash with `bcrypt::verify`; an error (a hash
/// that cannot be read) counts as a refusal. Claimed: the answer is
/// `bcrypt_verifies`.
#[verifier::external_body]
fn bcrypt_verify(password: &str, hash: &str) -> (b: bool)
    ensures
        b == bcrypt_verifies(password@, hash@),
{
    bcrypt::verify(password, hash).unwrap_or(false)
}

/// The token that `jsonwebtoken::encode` makes, with the default header
/// (HS256) and a key from the secret, for the claims `sub` (the user id),
/// `username` and `exp`; `None` where it fails.
pub uninterp spec fn jwt_token(user_id: Seq<char>, username: Seq<char>, exp: int, secret: Seq<char>) -> Option<
    Seq<char>,
>;

/// The claims `sub` and `username` of a token that `jsonwebtoken::decode`
/// accepts under the secret with HS256, its expiry left aside; `None` where
/// the signature or the header does not check, or either claim is missing or
/// not a string.
pub uninterp spec fn jwt_claims(token: Seq<char>, secret: Seq<char>) -> Option<(Seq<char>, Seq<char>)>;

/// Signs the claims `sub`, `username` and `exp`, in that order, with
/// `jsonwebtoken::encode` (default header, HS256, key
/// `EncodingKey::from_secret`). Claimed: the result is a function of the
/// arguments alone, named `jwt_token`; and a token that comes out carries the
/// user id and name back under the same secret (`decode` checks the HS256
/// signature that `encode` made over the same header and claims).
#[verifier::external_body]
fn jwt_encode(user_id: &str, username: &str, exp: i64, secret: &str) -> (r: Result<String, jsonwebtoken::errors::Error>)
    ensures
        match r {
            Ok(t) => jwt_token(user_id@, username@, exp as int, secret@) == Some(t@),
            Err(_) => jwt_token(user_id@, username@, exp as int, secret@) is None,
        },
        r matches Ok(t) ==> jwt_claims(t@, secret@) == Some((user_id@, username@)),
{
    let claims: serde_json::Map<String, serde_json::Value> = [
        ("sub".to_string(), serde_json::Value::from(user_id)),
        ("username".to_string(), serde_json::Value::from(username)),
        ("exp".to_string(), serde_json::Value::from(exp)),
    ].into_iter().collect();
    let key = jsonwebtoken::EncodingKey::from_secret(secret.as_bytes());
    jsonwebtoken::encode(&jsonwebtoken::Header::default(), &claims, &key)
}

/// Reads the claims `sub` and `username` of a token with `jsonwebtoken::decode`
/// and the default validation (HS256 signature under the secret, an `exp` that
/// has not passed); `None` where the token is refused or a claim is missing.
/// Claimed: what comes back is `jwt_claims`, and a token that `jwt_claims`
/// refuses is refused. Whether `exp` has passed rests on the clock, so when a
/// token that `jwt_claims` accepts is refused is left open.
#[verifier::external_body]
fn jwt_decode(token: &str, secret: &str) -> (r: Option<(String, String)>)
    ensures
        r matches Some((s, u)) ==> jwt_claims(token@, secret@) == Some((s@, u@)),
        jwt_claims(token@, secret@) is None ==> r is None,
{
    let key = jsonwebtoken::DecodingKey::from_secret(secret.as_bytes());
    let validation = jsonwebtoken::Validation::default();
    let data = jsonwebtoken::decode::<std::collections::BTreeMap<String, serde_json::Value>>(token, &key, &validation).ok()?;
    Some((data.claims.get("sub")?.as_str()?.to_string(), data.claims.get("username")?.as_str()?.to_string()))
}

/// The secret that signs session tokens.
pub open spec fn token_secret_text() -> Seq<char> {
    "ace_tengchong_baifen_secret_key_2024"@
}

/// The secret that signs session tokens.
pub fn token_secret() -> (s: &'static str)
    ensures
        s@ == token_secret_text(),
{
    "ace_tengchong_baifen_secret_key_2024"
}

/// How long a token holds: 24 hours, in seconds.
pub open spec fn token_lifetime() -> int {
    86400
}

/// When a token made at `now` expires: 24 hours later, held at the largest
/// time there is.
pub open spec fn expiry(now: i64) -> i64 {
    if now <= i64::MAX - token_lifetime() {
        (now + token_lifetime()) as i64
    } else {
        i64::MAX
    }
}

/// When a token made at `now` expires: see `expiry`.
pub fn token_expiry(now: i64) -> (exp: i64)
    ensures
        exp == expiry(now),
{
    if now <= i64::MAX - 86400 {
        now + 86400
    } else {
        i64::MAX
    }
}

/// Why making a password hash or a token failed.
#[derive(Debug, Clone, Copy, PartialEq, Eq, Structural)]
pub enum CredentialError {
    HashFailed,
    TokenFailed,
}

/// The session token for an account, made at time `now`: the user id and name
/// signed with the token secret, expiring 24 hours later. The token carries
/// the user id and name back.
pub fn token_for(user_id: &str, username: &str, now: i64) -> (r: Result<String, CredentialError>)
    ensures
        match jwt_token(user_id@, username@, expiry(now) as int, token_secret_text()) {
            Some(t) => r matches Ok(x) && x@ == t,
            None => r == Err::<String, CredentialError>(CredentialError::TokenFailed),
        },
        r matches Ok(t) ==> jwt_claims(t@, token_secret_text()) == Some((user_id@, username@)),
{
    let exp = token_expiry(now);
    match jwt_encode(user_id, username, exp, token_secret()) {
        Ok(t) => Ok(t),
        Err(_) => Err(CredentialError::TokenFailed),
    }
}

/// The session token for an account, made now (at time 0 where the clock
/// cannot be read): see `token_for`. The token carries the user id and name
/// back.
pub fn create_token(user_id: &str, username: &str) -> (r: Result<String, CredentialError>)
    ensures
        exists|now: i64|
            #![trigger expiry(now)]
            match jwt_token(user_id@, username@, expiry(now) as int, token_secret_text()) {
                Some(t) => r matches Ok(x) && x@ == t,
                None => r == Err::<String, CredentialError>(CredentialError::TokenFailed),
            },
        r matches Ok(t) ==> jwt_claims(t@, token_secret_text()) == Some((user_id@, username@)),
{
    let now: i64 = match now_timestamp() {
        Some(t) => t,
        None => 0,
    };
    token_for(user_id, username, now)
}

/// The user id and name that a token signed with the token secret carries,
/// while it has not expired (see `jwt_decode`): what comes back is
/// `jwt_claims` under the token secret, so a token from `create_token` gives
/// back the account it was made for; a token that `jwt_claims` refuses is
/// refused.
pub fn verify_token(token: &str) -> (r: Option<(String, String)>)
    ensures
        r matches Some((s, u)) ==> jwt_claims(token@, token_secret_text()) == Some((s@, u@)),
        jwt_claims(token@, token_secret_text()) is None ==> r is None,
{
    jwt_decode(token, token_secret())
}

/// The bcrypt hash of a password, with a random salt: a hash that comes out
/// verifies the password.
pub fn hash_password(password: &str) -> (r: Result<String, CredentialError>)
    ensures
        r matches Ok(h) ==> bcrypt_verifies(password@, h@),
        r matches Err(e) ==> e == CredentialError::HashFailed,
{
    match bcrypt_hash(password) {
        Ok(h) => Ok(h),
        Err(_) => Err(CredentialError::HashFailed),
    }
}

/// Whether the password matches the bcrypt hash: see `bcrypt_verifies`.
pub fn verify_password(password: &str, hash: &str) -> (b: bool)
    ensures
        b == bcrypt_verifies(password@, hash@),
{
    bcrypt_verify(password, hash)
}

} // verus!
