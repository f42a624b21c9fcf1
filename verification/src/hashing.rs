//! The password hasher: salted, slow key derivation through the `pbkdf2`
//! crate, producing a self-describing PHC string safe to persist.
//!
//! Whether a stored hash accepts a password is named by the uninterpreted
//! [`verifies`]: the check re-derives the hash from the stored string's own
//! salt and parameters, a function of the two strings alone.

use crate::errors::Error;
use pbkdf2::password_hash::{PasswordHash, PasswordHasher, PasswordVerifier, SaltString};
use pbkdf2::Pbkdf2;
use rand::rngs::OsRng;
use vstd::prelude::*;

verus! {

/// Whether the stored hash string `hash` accepts the password `password`.
pub uninterp spec fn verifies(hash: Seq<char>, password: Seq<char>) -> bool;

/// Relies on pbkdf2's `Pbkdf2.hash_password_customized` with a fresh salt
/// from `SaltString::generate`: the returned PHC string embeds the salt
/// and parameters it was derived with, and verifies against the password
/// it was derived from, whatever salt was drawn. With the crate's own
/// default parameters and a freshly generated salt the derivation has no
/// failure path, so a hash is always produced.
#[verifier::external_body]
fn pbkdf2_hash(password: &str) -> (r: String)
    ensures
        verifies(r@, password@),
{
    let salt = SaltString::generate(&mut OsRng);
    Pbkdf2.hash_password(password.as_bytes(), &salt).unwrap().to_string()
}

/// Relies on pbkdf2's `PasswordHash::new` and `Pbkdf2.verify_password`: a
/// malformed stored hash verifies as false rather than failing, and an
/// intact one is checked by re-deriving with the salt and parameters
/// embedded in it, deterministically in the two arguments.
#[verifier::external_body]
fn pbkdf2_verify(stored_hash: &str, attempted_password: &str) -> (r: bool)
    ensures
        r == verifies(stored_hash@, attempted_password@),
{
    match PasswordHash::new(stored_hash) {
        Ok(h) => Pbkdf2.verify_password(attempted_password.as_bytes(), &h).is_ok(),
        Err(_) => false,
    }
}

/// Hashes a password for storage. An empty password is rejected with
/// `EmptyPassword`; every other password is owed its hash.
pub fn hash(password: &str) -> (r: Result<String, Error>)
    ensures
        r is Ok <==> password@.len() != 0,
        r matches Ok(h) ==> verifies(h@, password@),
        r is Err ==> r == Err::<String, Error>(Error::EmptyPassword),
{
    if password.is_empty() {
        return Err(Error::EmptyPassword);
    }
    Ok(pbkdf2_hash(password))
}

/// Verifies a presented password against a stored hash. A corrupt stored
/// hash never crashes the check path: it verifies as false.
pub fn verify(stored_hash: &str, attempted_password: &str) -> (r: bool)
    ensures
        r == verifies(stored_hash@, attempted_password@),
{
    pbkdf2_verify(stored_hash, attempted_password)
}

} // verus!
