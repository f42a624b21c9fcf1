//! The error taxonomy of the authentication core.
//!
//! Storage and cryptographic failures are collapsed to `Unspecified` before
//! they reach a caller, so that no backend detail leaks out.

use vstd::prelude::*;

verus! {

#[derive(Clone, Copy, Debug, PartialEq, Eq, Structural)]
pub enum Error {
    /// An account cannot be created with an empty name.
    EmptyUsername,
    /// A password may not be empty, neither at account creation nor on update.
    EmptyPassword,
    /// The named account does not exist.
    IncorrectUsername,
    /// The presented password does not match the stored hash.
    IncorrectPassword,
    /// The token failed authentication: corrupted, wrong key, malformed or
    /// expired. One undifferentiated kind, to avoid oracle attacks.
    InvalidToken,
    /// The token is valid but was issued for a different scope.
    IncorrectAuthorizationScope,
    /// A storage or cryptographic failure carrying no sensitive detail.
    Unspecified,
}

} // verus!
