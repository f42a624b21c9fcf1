use polaris_auth::codec;
use polaris_auth::errors::Error;
use polaris_auth::hashing;
use polaris_auth::manager::Manager;
use polaris_auth::model::{AuthSecret, AuthToken, Authorization, AuthorizationScope, NewUser};
use polaris_auth::payload;
use polaris_auth::store::AccountStore;

fn secret() -> AuthSecret {
    AuthSecret { key: [7u8; 32] }
}

fn manager() -> Manager {
    Manager::new(AccountStore::new(), secret())
}

fn new_user(name: &str, password: &str, admin: bool) -> NewUser {
    NewUser { name: name.to_string(), password: password.to_string(), admin }
}

#[test]
fn create_then_login_then_authorize() {
    let mut m = manager();
    m.create(&new_user("alice", "correct horse", false)).unwrap();
    let token = m.login("alice", "correct horse").unwrap();
    let auth = m.authenticate(&token, AuthorizationScope::SessionAuth).unwrap();
    assert_eq!(auth.username, "alice");
    assert_eq!(auth.scope, AuthorizationScope::SessionAuth);
}

#[test]
fn login_wrong_password_fails() {
    let mut m = manager();
    m.create(&new_user("alice", "right", false)).unwrap();
    assert_eq!(m.login("alice", "wrong").unwrap_err(), Error::IncorrectPassword);
}

#[test]
fn login_unknown_user_fails() {
    let mut m = manager();
    m.create(&new_user("alice", "right", false)).unwrap();
    assert_eq!(m.login("bob", "right").unwrap_err(), Error::IncorrectUsername);
}

#[test]
fn link_token_rejected_for_session_scope() {
    let mut m = manager();
    m.create(&new_user("alice", "pw", false)).unwrap();
    let link_token = m.generate_lastfm_link_token("alice").unwrap();
    assert_eq!(
        m.authenticate(&link_token, AuthorizationScope::SessionAuth).unwrap_err(),
        Error::IncorrectAuthorizationScope
    );
}

#[test]
fn session_token_rejected_for_link_scope() {
    let mut m = manager();
    m.create(&new_user("alice", "pw", false)).unwrap();
    let session_token = m.login("alice", "pw").unwrap();
    assert_eq!(
        m.authenticate(&session_token, AuthorizationScope::LinkAuth).unwrap_err(),
        Error::IncorrectAuthorizationScope
    );
}

#[test]
fn link_token_expires_after_ttl() {
    let mut m = manager();
    m.create(&new_user("alice", "pw", false)).unwrap();
    let authorization =
        Authorization { username: "alice".to_string(), scope: AuthorizationScope::LinkAuth };
    let plaintext = payload::serialize_authorization(&authorization);
    // Issued at second 1000 of the epoch: far longer than the link TTL ago.
    let stale = codec::encode(&plaintext, &secret(), 1000).unwrap();
    assert_eq!(
        m.authenticate(&stale, AuthorizationScope::LinkAuth).unwrap_err(),
        Error::InvalidToken
    );
}

#[test]
fn session_token_never_expires() {
    let mut m = manager();
    m.create(&new_user("alice", "pw", false)).unwrap();
    let authorization =
        Authorization { username: "alice".to_string(), scope: AuthorizationScope::SessionAuth };
    let plaintext = payload::serialize_authorization(&authorization);
    // Issued at second 1000 of the epoch: decades in the past.
    let ancient = codec::encode(&plaintext, &secret(), 1000).unwrap();
    let auth = m.authenticate(&ancient, AuthorizationScope::SessionAuth).unwrap();
    assert_eq!(auth.username, "alice");
}

#[test]
fn deleting_account_revokes_its_tokens() {
    let mut m = manager();
    m.create(&new_user("alice", "pw", false)).unwrap();
    let token = m.login("alice", "pw").unwrap();
    assert!(m.authenticate(&token, AuthorizationScope::SessionAuth).is_ok());
    m.delete("alice").unwrap();
    assert_eq!(
        m.authenticate(&token, AuthorizationScope::SessionAuth).unwrap_err(),
        Error::IncorrectUsername
    );
}

#[test]
fn tampering_any_byte_invalidates_token() {
    let mut m = manager();
    m.create(&new_user("alice", "pw", false)).unwrap();
    let token = m.login("alice", "pw").unwrap();
    let text = token.0.clone();
    for i in 0..text.len() {
        let mut bytes = text.as_bytes().to_vec();
        bytes[i] = if bytes[i] == b'A' { b'B' } else { b'A' };
        let tampered = AuthToken(String::from_utf8(bytes).unwrap());
        if tampered.0 == text {
            continue;
        }
        assert_eq!(
            m.authenticate(&tampered, AuthorizationScope::SessionAuth).unwrap_err(),
            Error::InvalidToken
        );
    }
}

#[test]
fn empty_password_rejected() {
    assert_eq!(hashing::hash("").unwrap_err(), Error::EmptyPassword);
    let mut m = manager();
    assert_eq!(m.create(&new_user("alice", "", false)).unwrap_err(), Error::EmptyPassword);
    m.create(&new_user("alice", "pw", false)).unwrap();
    assert_eq!(m.set_password("alice", "").unwrap_err(), Error::EmptyPassword);
}

#[test]
fn empty_username_rejected() {
    let mut m = manager();
    assert_eq!(m.create(&new_user("", "pw", false)).unwrap_err(), Error::EmptyUsername);
}

#[test]
fn bootstrap_grants_admin_only_while_no_account_exists() {
    let mut m = manager();
    assert!(m.check_admin_rights(None));
    m.create(&new_user("root", "pw", true)).unwrap();
    assert!(!m.check_admin_rights(None));
    let token = m.login("root", "pw").unwrap();
    assert!(m.check_admin_rights(Some(&token)));
}

#[test]
fn admin_rights_follow_admin_flag() {
    let mut m = manager();
    m.create(&new_user("root", "pw", true)).unwrap();
    m.create(&new_user("plain", "pw2", false)).unwrap();
    let root_token = m.login("root", "pw").unwrap();
    let plain_token = m.login("plain", "pw2").unwrap();
    assert!(m.check_admin_rights(Some(&root_token)));
    assert!(!m.check_admin_rights(Some(&plain_token)));
    m.set_is_admin("plain", true).unwrap();
    assert!(m.check_admin_rights(Some(&plain_token)));
    assert_eq!(m.is_admin("plain").unwrap(), true);
    assert_eq!(m.is_admin("missing").unwrap_err(), Error::Unspecified);
}

#[test]
fn duplicate_create_is_storage_error() {
    let mut m = manager();
    m.create(&new_user("alice", "pw", false)).unwrap();
    assert_eq!(m.create(&new_user("alice", "other", true)).unwrap_err(), Error::Unspecified);
    assert_eq!(m.count().unwrap(), 1);
}

#[test]
fn set_password_takes_effect() {
    let mut m = manager();
    m.create(&new_user("alice", "old pw", false)).unwrap();
    m.set_password("alice", "new pw").unwrap();
    assert_eq!(m.login("alice", "old pw").unwrap_err(), Error::IncorrectPassword);
    assert!(m.login("alice", "new pw").is_ok());
}

#[test]
fn lastfm_link_cycle() {
    let mut m = manager();
    m.create(&new_user("alice", "pw", false)).unwrap();
    assert!(!m.is_lastfm_linked("alice"));
    assert_eq!(m.get_lastfm_session_key("alice").unwrap_err(), Error::Unspecified);
    m.lastfm_link("alice", "alice_fm", "SECRET-REDACTED").unwrap();
    assert!(m.is_lastfm_linked("alice"));
    assert_eq!(m.get_lastfm_session_key("alice").unwrap(), "SECRET-REDACTED");
    m.lastfm_unlink("alice").unwrap();
    assert!(!m.is_lastfm_linked("alice"));
    assert_eq!(m.get_lastfm_session_key("alice").unwrap_err(), Error::Unspecified);
    assert_eq!(m.get_lastfm_session_key("missing").unwrap_err(), Error::Unspecified);
}

#[test]
fn count_list_and_existence() {
    let mut m = manager();
    assert_eq!(m.count().unwrap(), 0);
    assert!(m.list().unwrap().is_empty());
    m.create(&new_user("alice", "pw", true)).unwrap();
    m.create(&new_user("bob", "pw2", false)).unwrap();
    assert_eq!(m.count().unwrap(), 2);
    assert!(m.user_exists("alice").unwrap());
    assert!(!m.user_exists("carol").unwrap());
    let listed = m.list().unwrap();
    assert_eq!(listed.len(), 2);
    let alice = listed.iter().find(|u| u.name == "alice").unwrap();
    assert!(alice.is_admin());
    let bob = listed.iter().find(|u| u.name == "bob").unwrap();
    assert!(!bob.is_admin());
    m.delete("alice").unwrap();
    assert_eq!(m.count().unwrap(), 1);
    assert!(!m.user_exists("alice").unwrap());
}

#[test]
fn username_with_quotes_and_backslashes_roundtrips() {
    let name = "a\"b\\c{}:,";
    let mut m = manager();
    m.create(&new_user(name, "pw", false)).unwrap();
    let token = m.login(name, "pw").unwrap();
    let auth = m.authenticate(&token, AuthorizationScope::SessionAuth).unwrap();
    assert_eq!(auth.username, name);
}

#[test]
fn hash_output_is_not_the_password() {
    let hashed = hashing::hash("hunter2").unwrap();
    assert_ne!(hashed, "hunter2");
    assert!(hashing::verify(&hashed, "hunter2"));
    assert!(!hashing::verify(&hashed, "hunter3"));
    assert!(!hashing::verify("not a phc string", "hunter2"));
}

#[test]
fn codec_roundtrip_and_opacity() {
    let s = secret();
    let token = codec::encode("some payload", &s, 1234).unwrap();
    assert_ne!(token.0, "some payload");
    assert_eq!(codec::decode(&token, &s, 0).unwrap(), "some payload");
    let other = AuthSecret { key: [8u8; 32] };
    assert_eq!(codec::decode(&token, &other, 0).unwrap_err(), Error::InvalidToken);
}

#[test]
fn serialized_authorization_is_the_documented_frame() {
    let a = Authorization { username: "alice".to_string(), scope: AuthorizationScope::SessionAuth };
    let s = payload::serialize_authorization(&a);
    assert_eq!(s, "{\"username\":\"alice\",\"scope\":\"SessionAuth\"}");
    let back = payload::parse_authorization(&s).unwrap();
    assert_eq!(back.username, "alice");
    assert_eq!(back.scope, AuthorizationScope::SessionAuth);

    let l = Authorization { username: "a\"b\\".to_string(), scope: AuthorizationScope::LinkAuth };
    let t = payload::serialize_authorization(&l);
    assert_eq!(t, "{\"username\":\"a\\\"b\\\\\",\"scope\":\"LinkAuth\"}");
    let back2 = payload::parse_authorization(&t).unwrap();
    assert_eq!(back2.username, "a\"b\\");
    assert_eq!(back2.scope, AuthorizationScope::LinkAuth);

    assert!(payload::parse_authorization("{\"username\":\"x\",\"scope\":\"Nope\"}").is_none());
    assert!(payload::parse_authorization("").is_none());
}

#[test]
fn scope_ttl_table() {
    assert_eq!(codec::scope_ttl(AuthorizationScope::SessionAuth), 0);
    assert_eq!(codec::scope_ttl(AuthorizationScope::LinkAuth), 600);
}

#[test]
fn malformed_token_strings_fail_cleanly() {
    let m = manager();
    for bad in ["", "x", "not base62 !!!", "AAAAAAAAAAAAAAAAAAAAAAAAAAAAAAAAAAAAAAAAAAAAAAAAAAAAAAAAAAAAAAAAAAAA"] {
        let token = AuthToken(bad.to_string());
        assert_eq!(
            m.authenticate(&token, AuthorizationScope::SessionAuth).unwrap_err(),
            Error::InvalidToken
        );
    }
}
