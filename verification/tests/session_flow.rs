use doskvol::errors::AuthError;
use doskvol::session::{
    issue, issue_with_token, resolve, revoke, session_cookie_name, CookieUpdate, Identity,
    RevokeOutcome,
};
use doskvol::store::{SessionRecord, Store, UserRecord};

fn store_with_user(name: &str) -> Store {
    let mut store = Store::new();
    store.users.push(UserRecord {
        username: name.to_owned(),
        totp_secret: "GEZDGNBVGY3TQOJQGEZDGNBVGY3TQOJQ".to_owned(),
    });
    store
}

fn authenticated_name(id: &Identity) -> Option<String> {
    match id {
        Identity::Authenticated { username } => Some(username.clone()),
        Identity::Anonymous => None,
    }
}

#[test]
fn cookie_name_is_fixed() {
    assert_eq!(session_cookie_name(), "session_token");
}

#[test]
fn issue_then_resolve_returns_same_identity() {
    let mut store = store_with_user("alice");
    let token = issue(&mut store, "alice").unwrap();
    assert_eq!(token.len(), 25);
    assert!(token.chars().all(|c| c.is_ascii_alphanumeric() || c == '_' || c == '-'));
    assert_eq!(store.sessions.len(), 1);

    let (id, update) = resolve(&store, Some(&token)).unwrap();
    assert_eq!(authenticated_name(&id).as_deref(), Some("alice"));
    assert!(matches!(update, CookieUpdate::Keep));
}

#[test]
fn unknown_token_resolves_anonymous_and_clears_cookie() {
    let store = store_with_user("alice");
    let (id, update) = resolve(&store, Some("fabricated-token-value-xx")).unwrap();
    assert!(matches!(id, Identity::Anonymous));
    assert!(matches!(update, CookieUpdate::Clear));
}

#[test]
fn blank_and_deleted_cookies_resolve_anonymous_without_lookup() {
    let store = store_with_user("alice");
    for cookie in [None, Some(""), Some("deleted")] {
        let (id, update) = resolve(&store, cookie).unwrap();
        assert!(matches!(id, Identity::Anonymous));
        assert!(matches!(update, CookieUpdate::Keep));
    }
}

#[test]
fn session_pointing_at_missing_user_is_a_server_error() {
    let mut store = Store::new();
    store.sessions.push(SessionRecord {
        id: 0,
        user_id: "ghost".to_owned(),
        token: "dangling-token".to_owned(),
        name: None,
    });
    store.next_session_id = 1;
    assert_eq!(resolve(&store, Some("dangling-token")).unwrap_err(), AuthError::ServerError);
}

#[test]
fn issue_refuses_a_taken_token() {
    let mut store = store_with_user("alice");
    issue_with_token(&mut store, "alice", "fixed-token").unwrap();
    let err = issue_with_token(&mut store, "alice", "fixed-token").unwrap_err();
    assert_eq!(err, AuthError::ServerError);
    assert_eq!(store.sessions.len(), 1);
}

#[test]
fn revoke_deletes_the_row_exactly_once() {
    let mut store = store_with_user("alice");
    let token = issue(&mut store, "alice").unwrap();
    assert_eq!(store.sessions.len(), 1);

    let (outcome, update) = revoke(&mut store, Some(&token));
    assert_eq!(outcome, RevokeOutcome::SessionRevoked);
    assert!(matches!(update, CookieUpdate::Clear));
    assert_eq!(store.sessions.len(), 0);

    // The cookie is gone now; a second logout is a harmless no-op signal.
    let (outcome, update) = revoke(&mut store, None);
    assert_eq!(outcome, RevokeOutcome::NoActiveSession);
    assert!(matches!(update, CookieUpdate::Keep));
    assert_eq!(store.sessions.len(), 0);
}

#[test]
fn revoked_token_no_longer_resolves() {
    let mut store = store_with_user("alice");
    let token = issue(&mut store, "alice").unwrap();
    revoke(&mut store, Some(&token));
    let (id, update) = resolve(&store, Some(&token)).unwrap();
    assert!(matches!(id, Identity::Anonymous));
    assert!(matches!(update, CookieUpdate::Clear));
}

#[test]
fn identity_helpers_expose_the_username() {
    let auth = Identity::Authenticated { username: "alice".to_owned() };
    assert!(auth.is_authenticated());
    assert!(!auth.is_anon());
    assert_eq!(auth.ok().unwrap().username, "alice");

    let anon = Identity::Anonymous;
    assert!(anon.is_anon());
    assert!(anon.ok().is_none());
}
