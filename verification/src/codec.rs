//! The token codec: seals an authorization payload into an authenticated,
//! expiry-aware token string through the `branca` crate, and opens such a
//! token back up.
//!
//! What a token seals is named by the uninterpreted [`token_plaintext`]:
//! with a zero time-to-live, opening a token is a function of the token and
//! the key alone. A nonzero time-to-live additionally rejects tokens whose
//! embedded issuance timestamp lies further than that many seconds in the
//! past, measured against the system clock.

use crate::errors::Error;
use crate::model::{AuthSecret, AuthToken, AuthorizationScope};
use std::time::{SystemTime, UNIX_EPOCH};
use vstd::prelude::*;

verus! {

/// The time-to-live of a link token, in seconds.
pub const LINK_AUTH_TTL_SECONDS: u32 = 600;

/// The payload sealed inside `token` under `key`, when the token
/// authenticates under that key and its payload is UTF-8.
pub uninterp spec fn token_plaintext(token: Seq<char>, key: Seq<u8>) -> Option<Seq<char>>;

/// The fixed scope-to-TTL table: a session never expires, a link token
/// lives for ten minutes. Consulted at issuance and enforced at decode.
pub open spec fn scope_ttl_spec(scope: AuthorizationScope) -> u32 {
    match scope {
        AuthorizationScope::SessionAuth => 0,
        AuthorizationScope::LinkAuth => LINK_AUTH_TTL_SECONDS,
    }
}

/// The TTL policy of a scope, as executable code.
pub fn scope_ttl(scope: AuthorizationScope) -> (r: u32)
    ensures
        r == scope_ttl_spec(scope),
{
    match scope {
        AuthorizationScope::SessionAuth => 0,
        AuthorizationScope::LinkAuth => LINK_AUTH_TTL_SECONDS,
    }
}

/// Relies on `branca::encode`: the returned token seals exactly the given
/// payload under the key with the timestamp embedded, so `branca::decode`
/// under the same key gives the payload back. With a key of the right
/// length—this one always is, the type says so—the cipher has no reachable
/// failure for any plaintext a process can hold, so a token is always
/// produced.
#[verifier::external_body]
fn branca_encode(payload: &str, key: &[u8; 32], timestamp: u32) -> (r: String)
    ensures
        token_plaintext(r@, key@) == Some(payload@),
{
    branca::encode(payload.as_bytes(), key, timestamp).unwrap()
}

/// Relies on `branca::decode`: with a zero TTL the outcome is a function of
/// token and key alone; with a nonzero TTL the same payload comes back
/// unless the token's timestamp has fallen more than TTL seconds behind the
/// system clock. Every failure, and a payload that is not UTF-8, collapses
/// to `None`.
#[verifier::external_body]
fn branca_decode(token: &str, key: &[u8; 32], ttl: u32) -> (r: Option<String>)
    ensures
        r matches Some(p) ==> token_plaintext(token@, key@) == Some(p@),
        ttl == 0 ==> ((r is Some) <==> (token_plaintext(token@, key@) is Some)),
{
    match branca::decode(token, key, ttl) {
        Ok(bytes) => String::from_utf8(bytes).ok(),
        Err(_) => None,
    }
}

/// Relies on `std::time::SystemTime::now`: the seconds since the Unix
/// epoch, truncated to `u32`. Nothing is promised of the clock's value.
#[verifier::external_body]
pub(crate) fn unix_now() -> (t: u32) {
    SystemTime::now().duration_since(UNIX_EPOCH).map(|d| d.as_secs() as u32).unwrap_or(0)
}

/// Encodes a payload into an authenticated token that embeds `issued_at`.
/// Encoding always succeeds.
pub fn encode(payload: &str, secret: &AuthSecret, issued_at: u32) -> (r: Result<AuthToken, Error>)
    ensures
        r matches Ok(t) && token_plaintext(t@, secret.key@) == Some(payload@),
{
    Ok(AuthToken(branca_encode(payload, &secret.key, issued_at)))
}

/// Decodes and validates a token. Every failure—corruption, wrong key,
/// malformed payload, expiry—is the one undifferentiated `InvalidToken`.
/// With `ttl == 0` no expiry check is made and the outcome is exactly
/// whether the token seals a payload under this secret.
pub fn decode(token: &AuthToken, secret: &AuthSecret, ttl: u32) -> (r: Result<String, Error>)
    ensures
        r matches Ok(p) ==> token_plaintext(token@, secret.key@) == Some(p@),
        r is Err ==> r == Err::<String, Error>(Error::InvalidToken),
        ttl == 0 ==> ((r is Ok) <==> (token_plaintext(token@, secret.key@) is Some)),
{
    match branca_decode(token.0.as_str(), &secret.key, ttl) {
        Some(p) => Ok(p),
        None => Err(Error::InvalidToken),
    }
}

} // verus!
