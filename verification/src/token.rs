//! The session token service: signed, time-limited tokens that bind a user
//! id. Signing and signature checking are done by the `jsonwebtoken` crate;
//! whether a token is still good at a given time is decided here.

use vstd::prelude::*;
use crate::random::random_bytes;

verus! {

/// The amount of seconds in a minute.
pub const ONE_MINUTE: u64 = 60;

/// The amount of seconds in an hour.
pub const ONE_HOUR: u64 = 60 * ONE_MINUTE;

/// The amount of seconds in a day: the lifetime of a token.
pub const ONE_DAY: u64 = 24 * ONE_HOUR;

/// `jsonwebtoken::errors::Error`, returned by the crate's calls and mapped to
/// [`TokenError`] without being inspected.
#[verifier::external_type_specification]
#[verifier::external_body]
pub struct ExJwtError(jsonwebtoken::errors::Error);

/// What `jsonwebtoken::decode` finds in `token` when it checks it against
/// `secret` for HS256 without looking at the clock: nothing where it rejects
/// the token, else the members `sub` and `exp` of the payload, each as far as
/// it is an integer (a signed 64-bit one for `sub`, an unsigned one for `exp`).
pub uninterp spec fn token_payload(token: Seq<char>, secret: Seq<u8>) -> Option<
    (Option<i64>, Option<u64>),
>;

/// Calls `jsonwebtoken::decode` with an HS256 key made from `secret` and the
/// crate's default validation for HS256 with `validate_exp` switched off, so
/// that the outcome depends on the token and the secret alone. From the
/// decoded JSON payload it hands back the members `sub` and `exp`, read with
/// `serde_json::Value::as_i64` and `as_u64`.
///
/// Trusted: the result is the crate's answer, which [`token_payload`] names.
#[verifier::external_body]
fn decode_payload(token: &str, secret: &[u8]) -> (r: Result<
    (Option<i64>, Option<u64>),
    jsonwebtoken::errors::Error,
>)
    ensures
        match r {
            Ok(payload) => token_payload(token@, secret@) == Some(payload),
            Err(_) => token_payload(token@, secret@) is None,
        },
{
    let key = jsonwebtoken::DecodingKey::from_secret(secret);
    let mut validation = jsonwebtoken::Validation::new(jsonwebtoken::Algorithm::HS256);
    validation.validate_exp = false;
    let data = jsonwebtoken::decode::<serde_json::Value>(token, &key, &validation)?;
    let sub = data.claims.get("sub").and_then(serde_json::Value::as_i64);
    let exp = data.claims.get("exp").and_then(serde_json::Value::as_u64);
    Ok((sub, exp))
}

/// The token that `jsonwebtoken::encode` makes for HS256 from the payload
/// `{"sub": sub, "exp": exp}` and `secret`, or nothing where it fails.
pub uninterp spec fn signed_token(sub: i32, exp: u64, secret: Seq<u8>) -> Option<Seq<char>>;

/// Calls `jsonwebtoken::encode` with an HS256 header, an HS256 key made from
/// `secret`, and a JSON object with the two members `sub` and `exp`.
///
/// Trusted: the result is the crate's answer, which [`signed_token`] names;
/// a token is never the empty string (it is three parts joined by dots); and
/// a token that the crate signed with a secret is one that it accepts under
/// the same secret, finding in it the two numbers that were put in. The call
/// is not promised to succeed.
#[verifier::external_body]
fn encode_payload(sub: i32, exp: u64, secret: &[u8]) -> (r: Result<
    String,
    jsonwebtoken::errors::Error,
>)
    ensures
        match r {
            Ok(token) => signed_token(sub, exp, secret@) == Some(token@),
            Err(_) => signed_token(sub, exp, secret@) is None,
        },
        r matches Ok(token) ==> (token@.len() > 0 && token_payload(token@, secret@) == Some(
            (Some(sub as i64), Some(exp)),
        )),
{
    let mut claims = serde_json::Map::new();
    claims.insert("sub".to_string(), serde_json::Value::from(sub));
    claims.insert("exp".to_string(), serde_json::Value::from(exp));
    let header = jsonwebtoken::Header::new(jsonwebtoken::Algorithm::HS256);
    jsonwebtoken::encode(&header, &claims, &jsonwebtoken::EncodingKey::from_secret(secret))
}

/// Calls `jsonwebtoken::get_current_timestamp`: the seconds since the UNIX
/// epoch by the system clock. Nothing is claimed of the reading.
#[verifier::external_body]
fn current_timestamp() -> u64 {
    jsonwebtoken::get_current_timestamp()
}

/// Why no token was made, or why one was turned down.
#[derive(Debug, Clone, Copy, PartialEq, Eq, Structural)]
pub enum TokenError {
    /// The token is malformed, not signed with the secret, or expired. The
    /// three are not told apart.
    Invalid,
    /// No token could be made: the expiry does not fit the clock's range, or
    /// signing failed.
    Minting,
}

/// The claims of a session token.
#[derive(Debug, Clone, Copy, PartialEq, Eq, Structural)]
pub struct Claims {
    /// User id.
    pub sub: i32,
    /// Expiration time, in seconds from the UNIX epoch.
    pub exp: u64,
}

/// The payload that stands for `claims` inside a token.
pub open spec fn payload_of(claims: Claims) -> Option<(Option<i64>, Option<u64>)> {
    Some((Some(claims.sub as i64), Some(claims.exp)))
}

/// The token is one that carries `claims` under `secret`.
pub open spec fn carries(token: Seq<char>, secret: Seq<u8>, claims: Claims) -> bool {
    token.len() > 0 && token_payload(token, secret) == payload_of(claims)
}

/// The claims that a decoded payload grants at time `now`: the payload must
/// be there, hold both numbers, a user id in range, and an expiry that has
/// not passed.
pub open spec fn claims_at(payload: Option<(Option<i64>, Option<u64>)>, now: u64) -> Result<
    Claims,
    TokenError,
> {
    match payload {
        Some((Some(sub), Some(exp))) => if i32::MIN <= sub <= i32::MAX && now < exp {
            Ok(Claims { sub: sub as i32, exp })
        } else {
            Err(TokenError::Invalid)
        },
        _ => Err(TokenError::Invalid),
    }
}

/// What verifying `token` under `secret` at time `now` yields. The empty
/// string is the token of a connection that has not authenticated: it is
/// never accepted.
pub open spec fn verified(token: Seq<char>, secret: Seq<u8>, now: u64) -> Result<
    Claims,
    TokenError,
> {
    if token.len() == 0 {
        Err(TokenError::Invalid)
    } else {
        claims_at(token_payload(token, secret), now)
    }
}

/// The token is accepted under `secret` at time `now`.
pub open spec fn token_valid(token: Seq<char>, secret: Seq<u8>, now: u64) -> bool {
    verified(token, secret, now) is Ok
}

/// The expiry of a token minted at `now`, where the clock's range holds it.
pub open spec fn expiry(now: u64) -> Option<u64> {
    if now + ONE_DAY <= u64::MAX {
        Some((now + ONE_DAY) as u64)
    } else {
        None
    }
}

/// The token that signing `claims` with `secret` gives.
pub open spec fn signed(claims: Claims, secret: Seq<u8>) -> Result<Seq<char>, TokenError> {
    match signed_token(claims.sub, claims.exp, secret) {
        Some(token) => Ok(token),
        None => Err(TokenError::Minting),
    }
}

/// The token that is issued to `user_id` at time `now`.
pub open spec fn issued(user_id: i32, secret: Seq<u8>, now: u64) -> Result<Seq<char>, TokenError> {
    match expiry(now) {
        Some(exp) => signed(Claims { sub: user_id, exp }, secret),
        None => Err(TokenError::Minting),
    }
}

/// What a call that makes a token returned is the token that the service
/// assigns to its arguments.
pub open spec fn mints(
    r: Result<String, TokenError>,
    expected: Result<Seq<char>, TokenError>,
) -> bool {
    match r {
        Ok(token) => expected == Ok::<Seq<char>, TokenError>(token@),
        Err(e) => expected == Err::<Seq<char>, TokenError>(e),
    }
}

/// Decides what a decoded payload grants at time `now`.
pub fn check_payload<E>(payload: Result<(Option<i64>, Option<u64>), E>, now: u64) -> (r: Result<
    Claims,
    TokenError,
>)
    ensures
        r == claims_at(
            match payload {
                Ok(p) => Some(p),
                Err(_) => None,
            },
            now,
        ),
{
    match payload {
        Ok((Some(sub), Some(exp))) => {
            if sub < -2147483648 || sub > 2147483647 || exp <= now {
                Err(TokenError::Invalid)
            } else {
                Ok(Claims { sub: sub as i32, exp })
            }
        },
        _ => Err(TokenError::Invalid),
    }
}

impl Claims {
    /// The claims that bind `user_id` until `exp`.
    pub fn new(user_id: i32, exp: u64) -> (claims: Self)
        ensures
            claims == (Claims { sub: user_id, exp }),
    {
        Claims { sub: user_id, exp }
    }

    /// Verifies `token` under `secret` at time `now` and returns its claims.
    pub fn from_token_at(token: &str, secret: &[u8], now: u64) -> (r: Result<Self, TokenError>)
        ensures
            r == verified(token@, secret@, now),
    {
        if token.is_empty() {
            return Err(TokenError::Invalid);
        }
        check_payload(decode_payload(token, secret), now)
    }

    /// Verifies `token` under `secret` by the system clock and returns its
    /// claims.
    pub fn from_token(token: &str, secret: &[u8]) -> (r: Result<Self, TokenError>)
        ensures
            exists|now: u64| r == verified(token@, secret@, now),
    {
        let now = current_timestamp();
        Claims::from_token_at(token, secret, now)
    }

    /// Signs the claims with `secret`. The token that comes out carries
    /// these claims.
    pub fn get_token(&self, secret: &[u8]) -> (r: Result<String, TokenError>)
        ensures
            mints(r, signed(*self, secret@)),
            r matches Ok(token) ==> carries(token@, secret@, *self),
    {
        match encode_payload(self.sub, self.exp, secret) {
            Ok(token) => Ok(token),
            Err(_) => Err(TokenError::Minting),
        }
    }
}

/// The length of a signing secret, in bytes.
pub const SECRET_LENGTH: usize = 32;

/// A fresh signing secret: 32 bytes from the operating system's generator.
pub fn generate_secret() -> (secret: Vec<u8>)
    ensures
        secret@.len() == SECRET_LENGTH,
{
    random_bytes(SECRET_LENGTH)
}

/// Mints a token for `user_id` that expires a day after `now`. The token
/// that comes out carries that user id and that expiry, and is valid at once.
pub fn issue(user_id: i32, secret: &[u8], now: u64) -> (r: Result<String, TokenError>)
    ensures
        mints(r, issued(user_id, secret@, now)),
        r matches Ok(token) ==> (expiry(now) matches Some(exp) && carries(
            token@,
            secret@,
            (Claims { sub: user_id, exp }),
        ) && verified(token@, secret@, now) == Ok::<Claims, TokenError>(
            (Claims { sub: user_id, exp }),
        )),
{
    match now.checked_add(ONE_DAY) {
        Some(exp) => Claims::new(user_id, exp).get_token(secret),
        None => Err(TokenError::Minting),
    }
}

/// Verifies `token` under `secret` at time `now` and returns the user id it
/// binds.
pub fn verify(token: &str, secret: &[u8], now: u64) -> (r: Result<i32, TokenError>)
    ensures
        match verified(token@, secret@, now) {
            Ok(claims) => r == Ok::<i32, TokenError>(claims.sub),
            Err(e) => r == Err::<i32, TokenError>(e),
        },
{
    match Claims::from_token_at(token, secret, now) {
        Ok(claims) => Ok(claims.sub),
        Err(e) => Err(e),
    }
}

/// A token whose expiry is not in the future is turned down, and so is one
/// that the signature check rejects: nothing is accepted at or after its
/// expiry.
pub proof fn lemma_expired_token_is_invalid(token: Seq<char>, secret: Seq<u8>, now: u64)
    requires
        token_payload(token, secret) matches Some((_, Some(exp))) ==> exp <= now,
    ensures
        verified(token, secret, now) == Err::<Claims, TokenError>(TokenError::Invalid),
{
}

/// The empty token is valid at no time and under no secret.
pub proof fn lemma_empty_token_is_invalid(secret: Seq<u8>, now: u64)
    ensures
        !token_valid(Seq::<char>::empty(), secret, now),
{
}

/// A token that is accepted is accepted as the claims it carries, and
/// before their expiry.
pub proof fn lemma_valid_token_carries_its_claims(token: Seq<char>, secret: Seq<u8>, now: u64)
    requires
        token_valid(token, secret, now),
    ensures
        verified(token, secret, now) matches Ok(claims) && carries(token, secret, claims) && now
            < claims.exp,
{
}

/// Verification fails in one way only.
pub proof fn lemma_verification_fails_as_invalid(token: Seq<char>, secret: Seq<u8>, now: u64)
    ensures
        verified(token, secret, now) matches Err(e) ==> e == TokenError::Invalid,
{
}

/// A token that carries `claims` is accepted, as these claims, at every
/// time before their expiry, and at no other time.
pub proof fn lemma_token_valid_until_expiry(
    token: Seq<char>,
    secret: Seq<u8>,
    claims: Claims,
    now: u64,
)
    requires
        carries(token, secret, claims),
    ensures
        now < claims.exp ==> verified(token, secret, now) == Ok::<Claims, TokenError>(claims),
        now >= claims.exp ==> verified(token, secret, now) == Err::<Claims, TokenError>(
            TokenError::Invalid,
        ),
{
}

/// A token issued at `now` binds its user from then until a day later, and
/// is turned down from then on.
pub proof fn lemma_issued_token_binds_user(
    token: Seq<char>,
    user_id: i32,
    secret: Seq<u8>,
    now: u64,
    at: u64,
)
    requires
        expiry(now) is Some,
        carries(token, secret, (Claims { sub: user_id, exp: expiry(now)->0 })),
    ensures
        at < now + ONE_DAY ==> (verified(token, secret, at) matches Ok(claims) && claims.sub
            == user_id),
        at >= now + ONE_DAY ==> verified(token, secret, at) is Err,
{
}

/// Once a token is turned down it stays turned down: validity never comes
/// back as time goes on.
pub proof fn lemma_validity_is_monotone(token: Seq<char>, secret: Seq<u8>, now: u64, later: u64)
    requires
        now <= later,
        token_valid(token, secret, later),
    ensures
        verified(token, secret, now) == verified(token, secret, later),
{
}

} // verus!
