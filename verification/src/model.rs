//! The authorization model: what a credential token carries, and the data
//! types shared by the manager and the store.

use vstd::prelude::*;

verus! {

/// What a token may be used for. A token decoded under one scope is rejected
/// unless its embedded scope is the same: a token can never be replayed
/// across scopes.
#[derive(Clone, Copy, Debug, PartialEq, Eq, Structural)]
pub enum AuthorizationScope {
    /// Full-session capability; such a token never expires.
    SessionAuth,
    /// Single-purpose, short-lived capability for binding an external
    /// service account.
    LinkAuth,
}

/// The mathematical value of an [`Authorization`].
pub ghost struct AuthView {
    pub username: Seq<char>,
    pub scope: AuthorizationScope,
}

/// The payload carried inside a credential token: who the bearer is and what
/// the token is for.
#[derive(Debug)]
pub struct Authorization {
    pub username: String,
    pub scope: AuthorizationScope,
}

impl View for Authorization {
    type V = AuthView;

    open spec fn view(&self) -> AuthView {
        AuthView { username: self.username@, scope: self.scope }
    }
}

/// An opaque credential string that authenticated callers hold instead of a
/// password.
#[derive(Debug)]
pub struct AuthToken(pub String);

impl View for AuthToken {
    type V = Seq<char>;

    open spec fn view(&self) -> Seq<char> {
        self.0@
    }
}

/// An account as the manager hands it out: identity, password hash and
/// administrator flag. The optional linked-service fields live on the
/// store's own row type.
#[derive(Debug)]
pub struct User {
    pub name: String,
    pub password_hash: String,
    pub admin: bool,
}

impl User {
    pub fn is_admin(&self) -> (r: bool)
        ensures
            r == self.admin,
    {
        self.admin
    }
}

/// The data needed to provision an account.
#[derive(Debug)]
pub struct NewUser {
    pub name: String,
    pub password: String,
    pub admin: bool,
}

/// The process-wide symmetric key material for the token codec, set once at
/// startup and passed to the manager explicitly.
#[derive(Clone, Copy, Debug)]
pub struct AuthSecret {
    pub key: [u8; 32],
}

} // verus!
