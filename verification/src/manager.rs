//! The authentication manager: login, token issuance, token-based
//! authorization checks, the administrator bootstrap decision, account and
//! link mutation.
//!
//! The deterministic part of every decision is captured by the spec
//! functions [`spec_decode`], [`spec_authenticate`] and
//! [`spec_admin_granted`]; the session-scope contracts are exact against
//! them, and a link-scope check can additionally fail for expiry, which
//! depends on the clock.

use crate::codec;
use crate::errors::Error;
use crate::hashing;
use crate::model::{AuthSecret, AuthToken, AuthView, Authorization, AuthorizationScope, NewUser, User};
use crate::payload::{parse_authorization, parse_spec, serialize_authorization, serialize_spec};
use crate::store::{AccountStore, UserRowView};
use vstd::prelude::*;

verus! {

use crate::codec::token_plaintext;
use crate::hashing::verifies;

/// The view of an optional token argument.
pub open spec fn token_opt_view(t: Option<&AuthToken>) -> Option<Seq<char>> {
    match t {
        Some(tok) => Some(tok@),
        None => None,
    }
}

/// The view of an authorization result.
pub open spec fn auth_result_view(r: Result<Authorization, Error>) -> Result<AuthView, Error> {
    match r {
        Ok(a) => Ok(a@),
        Err(e) => Err(e),
    }
}

/// What decoding a token under `scope` yields, expiry aside: the sealed
/// payload must parse as an authorization, and its embedded scope must be
/// the expected one.
pub open spec fn spec_decode(key: Seq<u8>, token: Seq<char>, scope: AuthorizationScope) -> Result<
    AuthView,
    Error,
> {
    match token_plaintext(token, key) {
        None => Err(Error::InvalidToken),
        Some(p) => match parse_spec(p) {
            None => Err(Error::InvalidToken),
            Some(a) => if a.scope != scope {
                Err(Error::IncorrectAuthorizationScope)
            } else {
                Ok(a)
            },
        },
    }
}

/// What a full authorization check yields, expiry aside: a decoded token
/// whose bearer still has an account. Re-checking the account on every call
/// is the sole revocation mechanism.
pub open spec fn spec_authenticate(
    store: AccountStore,
    key: Seq<u8>,
    token: Seq<char>,
    scope: AuthorizationScope,
) -> Result<AuthView, Error> {
    match spec_decode(key, token, scope) {
        Err(e) => Err(e),
        Ok(a) => if store.contains_spec(a.username) {
            Ok(a)
        } else {
            Err(Error::IncorrectUsername)
        },
    }
}

/// Whether a login of `username` with `password` is owed a token: the
/// account exists and its stored hash accepts the password.
pub open spec fn login_accepts(store: AccountStore, username: Seq<char>, password: Seq<char>) -> bool {
    store.contains_spec(username) && verifies(store.row(username).password_hash, password)
}

/// The administrator bootstrap policy: while no account exists, any caller
/// is granted administrator rights—the only path to the first
/// administrator. Once one account exists, rights require a session token
/// whose identity maps to an account with the administrator flag set.
pub open spec fn spec_admin_granted(
    store: AccountStore,
    key: Seq<u8>,
    token: Option<Seq<char>>,
) -> bool {
    store.len_spec() == 0 || (match token {
        Some(t) => match spec_authenticate(store, key, t, AuthorizationScope::SessionAuth) {
            Ok(a) => store.row(a.username).admin,
            Err(_) => false,
        },
        None => false,
    })
}

/// The authentication manager: the account store and the immutable token
/// secret, received explicitly at construction.
#[derive(Debug)]
pub struct Manager {
    pub store: AccountStore,
    pub auth_secret: AuthSecret,
}

impl Manager {
    /// The manager's invariant: its store's.
    pub open spec fn wf(self) -> bool {
        self.store.wf()
    }

    /// The token secret's key material, as mathematics.
    pub closed spec fn key(self) -> Seq<u8> {
        self.auth_secret.key@
    }

    pub fn new(store: AccountStore, auth_secret: AuthSecret) -> (r: Manager)
        ensures
            r.store == store,
            r.key() == auth_secret.key@,
    {
        Manager { store, auth_secret }
    }

    /// Provisions an account: an empty name is rejected, the password is
    /// hashed (an empty one rejected), and the row is inserted; a name
    /// already taken surfaces as the storage error.
    pub fn create(&mut self, new_user: &NewUser) -> (r: Result<(), Error>)
        requires
            old(self).wf(),
        ensures
            final(self).wf(),
            final(self).key() == old(self).key(),
            r == Err::<(), Error>(Error::EmptyUsername) <==> new_user.name@.len() == 0,
            new_user.name@.len() != 0 ==> (r == Err::<(), Error>(Error::EmptyPassword)
                <==> new_user.password@.len() == 0),
            new_user.name@.len() != 0 && new_user.password@.len() != 0 && old(self).store.contains_spec(new_user.name@) ==> r == Err::<(), Error>(Error::Unspecified),
            new_user.name@.len() != 0 && new_user.password@.len() != 0
                && !old(self).store.contains_spec(new_user.name@) ==> r is Ok,
            r is Err ==> final(self).store == old(self).store,
            r is Ok ==> {
                &&& !old(self).store.contains_spec(new_user.name@)
                &&& final(self).store.len_spec() == old(self).store.len_spec() + 1
                &&& final(self).store.contains_spec(new_user.name@)
                &&& final(self).store.row(new_user.name@).admin == new_user.admin
                &&& verifies(final(self).store.row(new_user.name@).password_hash, new_user.password@)
                &&& final(self).store.row(new_user.name@).lastfm_username is None
                &&& final(self).store.row(new_user.name@).lastfm_session_key is None
                &&& forall|k: Seq<char>|
                    k != new_user.name@ ==> #[trigger] final(self).store.contains_spec(k) == old(self).store.contains_spec(k)
                &&& forall|k: Seq<char>|
                    k != new_user.name@ && old(self).store.contains_spec(k) ==> #[trigger] final(self).store.row(k) == old(self).store.row(k)
            },
    {
        if new_user.name.as_str().is_empty() {
            return Err(Error::EmptyUsername);
        }
        let password_hash = match hashing::hash(new_user.password.as_str()) {
            Ok(h) => h,
            Err(e) => {
                return Err(e);
            },
        };
        let user = User { name: new_user.name.clone(), password_hash, admin: new_user.admin };
        self.store.insert(user)
    }

    /// Removes an account; a missing name is a no-op. Deletion is also the
    /// sole way to revoke the account's outstanding tokens.
    pub fn delete(&mut self, username: &str) -> (r: Result<(), Error>)
        requires
            old(self).wf(),
        ensures
            final(self).wf(),
            final(self).key() == old(self).key(),
            r == Ok::<(), Error>(()),
            !final(self).store.contains_spec(username@),
            forall|k: Seq<char>|
                k != username@ ==> #[trigger] final(self).store.contains_spec(k) == old(self).store.contains_spec(k),
            forall|k: Seq<char>|
                k != username@ && old(self).store.contains_spec(k) ==> #[trigger] final(self).store.row(k) == old(self).store.row(k),
    {
        self.store.delete(username);
        Ok(())
    }

    /// Replaces an account's password. An empty password is rejected; a
    /// missing account is a storage-level no-op.
    pub fn set_password(&mut self, username: &str, password: &str) -> (r: Result<(), Error>)
        requires
            old(self).wf(),
        ensures
            final(self).wf(),
            final(self).key() == old(self).key(),
            r is Ok <==> password@.len() != 0,
            r is Err ==> r == Err::<(), Error>(Error::EmptyPassword),
            r is Err ==> final(self).store == old(self).store,
            r is Ok ==> {
                &&& final(self).store.len_spec() == old(self).store.len_spec()
                &&& forall|k: Seq<char>|
                    #[trigger] final(self).store.contains_spec(k) == old(self).store.contains_spec(k)
                &&& old(self).store.contains_spec(username@) ==> {
                    &&& verifies(final(self).store.row(username@).password_hash, password@)
                    &&& final(self).store.row(username@).admin == old(self).store.row(
                        username@,
                    ).admin
                    &&& final(self).store.row(username@).lastfm_username == old(self).store.row(
                        username@,
                    ).lastfm_username
                    &&& final(self).store.row(username@).lastfm_session_key == old(self).store.row(
                        username@,
                    ).lastfm_session_key
                }
                &&& forall|k: Seq<char>|
                    k != username@ && old(self).store.contains_spec(k) ==> #[trigger] final(self).store.row(k) == old(self).store.row(k)
            },
    {
        let hash = match hashing::hash(password) {
            Ok(h) => h,
            Err(e) => {
                return Err(e);
            },
        };
        self.store.update_password_hash(username, hash.as_str());
        Ok(())
    }

    /// Replaces an account's administrator flag; a missing account is a
    /// storage-level no-op.
    pub fn set_is_admin(&mut self, username: &str, is_admin: bool) -> (r: Result<(), Error>)
        requires
            old(self).wf(),
        ensures
            final(self).wf(),
            final(self).key() == old(self).key(),
            r == Ok::<(), Error>(()),
            final(self).store.len_spec() == old(self).store.len_spec(),
            forall|k: Seq<char>|
                #[trigger] final(self).store.contains_spec(k) == old(self).store.contains_spec(k),
            old(self).store.contains_spec(username@) ==> final(self).store.row(username@)
                == (UserRowView { admin: is_admin, ..old(self).store.row(username@) }),
            forall|k: Seq<char>|
                k != username@ && old(self).store.contains_spec(k) ==> #[trigger] final(self).store.row(k) == old(self).store.row(k),
    {
        self.store.update_admin_flag(username, is_admin);
        Ok(())
    }

    /// Issues a token sealing `authorization`, stamped with the present
    /// moment of the system clock. Issuance always succeeds.
    fn generate_auth_token(&self, authorization: &Authorization) -> (r: Result<AuthToken, Error>)
        ensures
            r matches Ok(t) && token_plaintext(t@, self.key()) == Some(
                serialize_spec(authorization@),
            ),
    {
        let payload = serialize_authorization(authorization);
        let now = codec::unix_now();
        codec::encode(payload.as_str(), &self.auth_secret, now)
    }

    /// Checks a username/password pair and, when it is owed, issues a
    /// session token for the bearer.
    pub fn login(&self, username: &str, password: &str) -> (r: Result<AuthToken, Error>)
        requires
            self.wf(),
        ensures
            r == Err::<AuthToken, Error>(Error::IncorrectUsername) <==> !self.store.contains_spec(
                username@,
            ),
            self.store.contains_spec(username@) ==> (r == Err::<AuthToken, Error>(
                Error::IncorrectPassword,
            ) <==> !verifies(self.store.row(username@).password_hash, password@)),
            r is Ok <==> login_accepts(self.store, username@, password@),
            r matches Ok(t) ==> token_plaintext(t@, self.key()) == Some(
                serialize_spec(
                    AuthView { username: username@, scope: AuthorizationScope::SessionAuth },
                ),
            ),
    {
        let stored_hash = match self.store.find_password_hash(username) {
            None => {
                return Err(Error::IncorrectUsername);
            },
            Some(h) => h,
        };
        if hashing::verify(stored_hash.as_str(), password) {
            let authorization = Authorization {
                username: username.to_owned(),
                scope: AuthorizationScope::SessionAuth,
            };
            self.generate_auth_token(&authorization)
        } else {
            Err(Error::IncorrectPassword)
        }
    }

    /// Decodes a token under the TTL policy of `scope` and insists the
    /// embedded scope is the expected one.
    fn decode_auth_token(&self, auth_token: &AuthToken, scope: AuthorizationScope) -> (r: Result<
        Authorization,
        Error,
    >)
        ensures
            scope == AuthorizationScope::SessionAuth ==> auth_result_view(r) == spec_decode(
                self.key(),
                auth_token@,
                scope,
            ),
            r matches Ok(a) ==> spec_decode(self.key(), auth_token@, scope) == Ok::<AuthView, Error>(
                a@,
            ),
            r matches Err(e) ==> e == Error::InvalidToken || spec_decode(
                self.key(),
                auth_token@,
                scope,
            ) == Err::<AuthView, Error>(e),
            spec_decode(self.key(), auth_token@, scope) == Err::<AuthView, Error>(
                Error::InvalidToken,
            ) ==> r == Err::<Authorization, Error>(Error::InvalidToken),
            r is Err ==> r == Err::<Authorization, Error>(Error::InvalidToken) || r == Err::<
                Authorization,
                Error,
            >(Error::IncorrectAuthorizationScope),
    {
        let ttl = codec::scope_ttl(scope);
        let payload = match codec::decode(auth_token, &self.auth_secret, ttl) {
            Ok(p) => p,
            Err(_) => {
                return Err(Error::InvalidToken);
            },
        };
        let authorization = match parse_authorization(payload.as_str()) {
            Some(a) => a,
            None => {
                return Err(Error::InvalidToken);
            },
        };
        if authorization.scope != scope {
            return Err(Error::IncorrectAuthorizationScope);
        }
        Ok(authorization)
    }

    /// The full authorization check: decode under the scope's TTL policy,
    /// insist on the scope, and re-check that the bearer's account still
    /// exists—a deleted account's outstanding tokens are thereby unusable.
    pub fn authenticate(&self, auth_token: &AuthToken, scope: AuthorizationScope) -> (r: Result<
        Authorization,
        Error,
    >)
        requires
            self.wf(),
        ensures
            scope == AuthorizationScope::SessionAuth ==> auth_result_view(r) == spec_authenticate(
                self.store,
                self.key(),
                auth_token@,
                scope,
            ),
            r matches Ok(a) ==> spec_authenticate(self.store, self.key(), auth_token@, scope)
                == Ok::<AuthView, Error>(a@),
            r matches Err(e) ==> e == Error::InvalidToken || spec_authenticate(
                self.store,
                self.key(),
                auth_token@,
                scope,
            ) == Err::<AuthView, Error>(e),
            spec_authenticate(self.store, self.key(), auth_token@, scope) == Err::<AuthView, Error>(
                Error::InvalidToken,
            ) ==> r == Err::<Authorization, Error>(Error::InvalidToken),
    {
        let authorization = match self.decode_auth_token(auth_token, scope) {
            Ok(a) => a,
            Err(e) => {
                return Err(e);
            },
        };
        if self.store.user_exists(authorization.username.as_str()) {
            Ok(authorization)
        } else {
            Err(Error::IncorrectUsername)
        }
    }

    /// The administrator-rights decision for one request: grant while no
    /// account exists (the bootstrap), else only to a valid session token
    /// of an account whose administrator flag is set.
    pub fn check_admin_rights(&self, auth_token: Option<&AuthToken>) -> (r: bool)
        requires
            self.wf(),
        ensures
            r == spec_admin_granted(self.store, self.key(), token_opt_view(auth_token)),
    {
        if self.store.count() == 0 {
            return true;
        }
        match auth_token {
            None => false,
            Some(t) => match self.authenticate(t, AuthorizationScope::SessionAuth) {
                Ok(a) => match self.store.find_admin_flag(a.username.as_str()) {
                    Some(b) => b,
                    None => false,
                },
                Err(_) => false,
            },
        }
    }

    /// How many accounts exist.
    pub fn count(&self) -> (r: Result<usize, Error>)
        ensures
            r matches Ok(c) && c == self.store.len_spec(),
    {
        Ok(self.store.count())
    }

    /// Every account, one row each, in store order: name, stored hash and
    /// administrator flag.
    pub fn list(&self) -> (r: Result<Vec<User>, Error>)
        requires
            self.wf(),
        ensures
            r matches Ok(v) && v@.len() == self.store.len_spec() && (forall|i: int|
                0 <= i < v@.len() ==> {
                    &&& (#[trigger] v@[i]).name@ == self.store.rows()[i].name@
                    &&& v@[i].password_hash@ == self.store.rows()[i].password_hash@
                    &&& v@[i].admin == self.store.rows()[i].admin
                    &&& self.store.contains_spec(v@[i].name@)
                    &&& v@[i].password_hash@ == self.store.row(v@[i].name@).password_hash
                    &&& v@[i].admin == self.store.row(v@[i].name@).admin
                }),
    {
        Ok(self.store.list())
    }

    /// Whether an account of this name exists.
    pub fn user_exists(&self, username: &str) -> (r: Result<bool, Error>)
        requires
            self.wf(),
        ensures
            r == Ok::<bool, Error>(self.store.contains_spec(username@)),
    {
        Ok(self.store.user_exists(username))
    }

    /// Whether this account carries the administrator flag; asking of a
    /// missing account is the storage error.
    pub fn is_admin(&self, username: &str) -> (r: Result<bool, Error>)
        requires
            self.wf(),
        ensures
            self.store.contains_spec(username@) ==> r == Ok::<bool, Error>(
                self.store.row(username@).admin,
            ),
            !self.store.contains_spec(username@) ==> r == Err::<bool, Error>(Error::Unspecified),
    {
        match self.store.find_admin_flag(username) {
            Some(b) => Ok(b),
            None => Err(Error::Unspecified),
        }
    }

    /// Binds an external-service identity and session secret to an
    /// account, both fields together.
    pub fn lastfm_link(&mut self, username: &str, lastfm_login: &str, session_key: &str) -> (r:
        Result<(), Error>)
        requires
            old(self).wf(),
        ensures
            final(self).wf(),
            final(self).key() == old(self).key(),
            r == Ok::<(), Error>(()),
            final(self).store.len_spec() == old(self).store.len_spec(),
            forall|k: Seq<char>|
                #[trigger] final(self).store.contains_spec(k) == old(self).store.contains_spec(k),
            old(self).store.contains_spec(username@) ==> final(self).store.row(username@)
                == (UserRowView {
                lastfm_username: Some(lastfm_login@),
                lastfm_session_key: Some(session_key@),
                ..old(self).store.row(username@)
            }),
            forall|k: Seq<char>|
                k != username@ && old(self).store.contains_spec(k) ==> #[trigger] final(self).store.row(k) == old(self).store.row(k),
    {
        self.store.update_link(username, lastfm_login, session_key);
        Ok(())
    }

    /// Issues a link-scope token for this name; the caller is assumed
    /// already session-authenticated at the boundary, so no password is
    /// checked here. Issuance always succeeds.
    pub fn generate_lastfm_link_token(&self, username: &str) -> (r: Result<AuthToken, Error>)
        ensures
            r matches Ok(t) && token_plaintext(t@, self.key()) == Some(
                serialize_spec(
                    AuthView { username: username@, scope: AuthorizationScope::LinkAuth },
                ),
            ),
    {
        let authorization = Authorization {
            username: username.to_owned(),
            scope: AuthorizationScope::LinkAuth,
        };
        self.generate_auth_token(&authorization)
    }

    /// The linked session secret of this account; a missing account and a
    /// missing link both surface as the storage error.
    pub fn get_lastfm_session_key(&self, username: &str) -> (r: Result<String, Error>)
        requires
            self.wf(),
        ensures
            r matches Ok(s) ==> self.store.contains_spec(username@) && self.store.row(
                username@,
            ).lastfm_session_key == Some(s@),
            r is Err ==> r == Err::<String, Error>(Error::Unspecified) && (!self.store.contains_spec(
                username@,
            ) || self.store.row(username@).lastfm_session_key is None),
    {
        match self.store.find_linked_secret(username) {
            Some(s) => Ok(s),
            None => Err(Error::Unspecified),
        }
    }

    /// Whether this account is linked to the external service.
    pub fn is_lastfm_linked(&self, username: &str) -> (r: bool)
        requires
            self.wf(),
        ensures
            r == (self.store.contains_spec(username@) && self.store.row(
                username@,
            ).lastfm_session_key is Some),
    {
        match self.get_lastfm_session_key(username) {
            Ok(_) => true,
            Err(_) => false,
        }
    }

    /// Clears an account's external link, both fields together; a missing
    /// account is a no-op.
    pub fn lastfm_unlink(&mut self, username: &str) -> (r: Result<(), Error>)
        requires
            old(self).wf(),
        ensures
            final(self).wf(),
            final(self).key() == old(self).key(),
            r == Ok::<(), Error>(()),
            final(self).store.len_spec() == old(self).store.len_spec(),
            forall|k: Seq<char>|
                #[trigger] final(self).store.contains_spec(k) == old(self).store.contains_spec(k),
            old(self).store.contains_spec(username@) ==> final(self).store.row(username@)
                == (UserRowView {
                lastfm_username: None,
                lastfm_session_key: None,
                ..old(self).store.row(username@)
            }),
            forall|k: Seq<char>|
                k != username@ && old(self).store.contains_spec(k) ==> #[trigger] final(self).store.row(k) == old(self).store.row(k),
    {
        self.store.clear_link(username);
        Ok(())
    }
}

} // verus!
