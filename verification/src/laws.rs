//! The laws of the subsystem that relate several operations, proved over
//! the same spec model the operation contracts are stated in:
//! [`spec_authenticate`], [`spec_decode`] and [`spec_admin_granted`].

use crate::errors::Error;
use crate::manager::{spec_admin_granted, spec_authenticate, spec_decode, login_accepts};
use crate::model::{AuthView, AuthorizationScope};
use crate::payload::{lemma_parse_serialize, serialize_spec};
use crate::store::AccountStore;
use vstd::prelude::*;

verus! {

use crate::codec::token_plaintext;
use crate::hashing::verifies;

/// Provisioning enables login: in any store state where the account exists
/// and its stored hash accepts the password—exactly what `create` ensures
/// of the account it adds—a login for that pair is owed a token.
pub proof fn lemma_create_enables_login(store: AccountStore, name: Seq<char>, password: Seq<char>)
    requires
        store.contains_spec(name),
        verifies(store.row(name).password_hash, password),
    ensures
        login_accepts(store, name, password),
{
}

/// A provisioned account can come full circle: when a login for `name` is
/// owed a token (the account exists and its hash accepts the password, as
/// `create` leaves it), every token whose sealed payload spells that
/// session authorization—as `login` ensures of the token it returns—is
/// accepted by a session-scope check, with identity `name`.
pub proof fn lemma_login_token_authorizes(
    store: AccountStore,
    key: Seq<u8>,
    name: Seq<char>,
    password: Seq<char>,
    token: Seq<char>,
)
    requires
        login_accepts(store, name, password),
        token_plaintext(token, key) == Some(
            serialize_spec(AuthView { username: name, scope: AuthorizationScope::SessionAuth }),
        ),
    ensures
        spec_authenticate(store, key, token, AuthorizationScope::SessionAuth) == Ok::<
            AuthView,
            Error,
        >(AuthView { username: name, scope: AuthorizationScope::SessionAuth }),
{
    lemma_parse_serialize(AuthView { username: name, scope: AuthorizationScope::SessionAuth });
}

/// A token never crosses scopes: one sealed for one scope is rejected by a
/// check expecting the other, with `IncorrectAuthorizationScope`, whichever
/// way round.
pub proof fn lemma_cross_scope_rejected(
    key: Seq<u8>,
    token: Seq<char>,
    name: Seq<char>,
    issued: AuthorizationScope,
    expected: AuthorizationScope,
)
    requires
        token_plaintext(token, key) == Some(
            serialize_spec(AuthView { username: name, scope: issued }),
        ),
        issued != expected,
    ensures
        spec_decode(key, token, expected) == Err::<AuthView, Error>(
            Error::IncorrectAuthorizationScope,
        ),
{
    lemma_parse_serialize(AuthView { username: name, scope: issued });
}

/// Deleting an account invalidates its outstanding session tokens: once no
/// account of the name exists, a session-scope check of any token sealed
/// for that name fails with `IncorrectUsername`.
pub proof fn lemma_deleted_account_token_rejected(
    store: AccountStore,
    key: Seq<u8>,
    token: Seq<char>,
    name: Seq<char>,
)
    requires
        !store.contains_spec(name),
        token_plaintext(token, key) == Some(
            serialize_spec(AuthView { username: name, scope: AuthorizationScope::SessionAuth }),
        ),
    ensures
        spec_authenticate(store, key, token, AuthorizationScope::SessionAuth) == Err::<
            AuthView,
            Error,
        >(Error::IncorrectUsername),
{
    lemma_parse_serialize(AuthView { username: name, scope: AuthorizationScope::SessionAuth });
}

/// While no account exists the bootstrap policy grants administrator
/// rights to any caller, token or none.
pub proof fn lemma_bootstrap_grants(store: AccountStore, key: Seq<u8>, token: Option<Seq<char>>)
    requires
        store.len_spec() == 0,
    ensures
        spec_admin_granted(store, key, token),
{
}

/// Once any account exists, the bootstrap window is closed: a caller
/// presenting no token is granted nothing.
pub proof fn lemma_bootstrap_closed(store: AccountStore, key: Seq<u8>)
    requires
        store.len_spec() > 0,
    ensures
        !spec_admin_granted(store, key, None),
{
}

} // verus!
