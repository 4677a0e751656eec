use doskvol::auth::{begin_enrollment, build_descriptor, check_username, complete_enrollment, login};
use doskvol::errors::AuthError;
use doskvol::session::{resolve, revoke, CookieUpdate, Identity};
use doskvol::store::Store;
use doskvol::totp::current_code;

const T: u64 = 1_700_000_000;

fn enroll(store: &mut Store, name: &str) -> (String, CookieUpdate) {
    let d = begin_enrollment(name).unwrap();
    let code = current_code(&d.secret, T).unwrap();
    let (user, update) = complete_enrollment(store, name, &d.secret, &code, T).unwrap();
    assert_eq!(user.username, name);
    (d.secret, update)
}

#[test]
fn check_username_reports_each_problem() {
    let mut store = Store::new();
    assert_eq!(check_username(&store, ""), Some(AuthError::InvalidUsername));
    assert_eq!(check_username(&store, "a:b"), Some(AuthError::InvalidUsername));
    assert_eq!(check_username(&store, "alice"), None);
    enroll(&mut store, "alice");
    assert_eq!(check_username(&store, "alice"), Some(AuthError::UsernameTaken));
}

#[test]
fn enrollment_persists_user_and_issues_session() {
    let mut store = Store::new();
    let (_, update) = enroll(&mut store, "alice");
    assert_eq!(store.users.len(), 1);
    assert_eq!(store.users[0].username, "alice");
    match update {
        CookieUpdate::Issue(token) => {
            assert_eq!(token.len(), 25);
            assert_eq!(store.sessions.len(), 1);
            assert_eq!(store.sessions[0].token, token);
        }
        other => panic!("expected a session cookie, got {:?}", other),
    }
}

#[test]
fn enrollment_with_wrong_code_persists_nothing() {
    let mut store = Store::new();
    let d = begin_enrollment("alice").unwrap();
    let code = current_code(&d.secret, T).unwrap();
    let wrong = if code == "000000" { "000001".to_owned() } else { "000000".to_owned() };
    let err = complete_enrollment(&mut store, "alice", &d.secret, &wrong, T).unwrap_err();
    assert_eq!(err, AuthError::InvalidCredentials);
    assert_eq!(store.users.len(), 0);
    assert_eq!(store.sessions.len(), 0);
}

#[test]
fn enrollment_with_stale_code_is_rejected() {
    // A code from three steps earlier falls outside the acceptance window.
    let mut store = Store::new();
    let d = begin_enrollment("alice").unwrap();
    let stale = current_code(&d.secret, T - 90).unwrap();
    let err = complete_enrollment(&mut store, "alice", &d.secret, &stale, T).unwrap_err();
    assert_eq!(err, AuthError::InvalidCredentials);
    assert_eq!(store.users.len(), 0);
}

#[test]
fn registering_the_same_username_twice_fails_without_a_duplicate_row() {
    let mut store = Store::new();
    let (_, _) = enroll(&mut store, "alice");

    let d2 = begin_enrollment("alice").unwrap();
    let code2 = current_code(&d2.secret, T).unwrap();
    let err = complete_enrollment(&mut store, "alice", &d2.secret, &code2, T).unwrap_err();
    assert_eq!(err, AuthError::UsernameTaken);
    assert_eq!(store.users.iter().filter(|u| u.username == "alice").count(), 1);
}

#[test]
fn login_unknown_user_is_not_found() {
    let mut store = Store::new();
    assert_eq!(login(&mut store, "nobody", "123456", T).unwrap_err(), AuthError::NotFound);
    assert_eq!(store.sessions.len(), 0);
}

#[test]
fn login_with_wrong_code_issues_no_session() {
    let mut store = Store::new();
    let (secret, _) = enroll(&mut store, "alice");
    let sessions_before = store.sessions.len();
    let code = current_code(&secret, T).unwrap();
    let wrong = if code == "000000" { "000001".to_owned() } else { "000000".to_owned() };
    assert_eq!(login(&mut store, "alice", &wrong, T).unwrap_err(), AuthError::InvalidCredentials);
    assert_eq!(store.sessions.len(), sessions_before);
}

#[test]
fn login_with_stale_code_issues_no_session() {
    // A code computed three steps before the check falls outside the
    // acceptance window: login fails and no session row appears.
    let mut store = Store::new();
    let (secret, _) = enroll(&mut store, "alice");
    let sessions_before = store.sessions.len();
    let stale = current_code(&secret, T - 90).unwrap();
    assert_eq!(login(&mut store, "alice", &stale, T).unwrap_err(), AuthError::InvalidCredentials);
    assert_eq!(store.sessions.len(), sessions_before);
}

#[test]
fn descriptor_builder_pins_the_whole_outcome() {
    // With the secret fixed, building the descriptor is deterministic.
    let secret = "GEZDGNBVGY3TQOJQGEZDGNBVGY3TQOJQ";
    let d = build_descriptor(secret.to_owned(), "alice").unwrap();
    assert_eq!(d.secret, secret);
    assert_eq!(d.account, "alice");
    assert_eq!(d.issuer, "Doskvol-Ltd");
    assert!(d.qr_base64.starts_with("iVBOR"));

    assert_eq!(
        build_descriptor(secret.to_owned(), "a:b").unwrap_err(),
        AuthError::InvalidUsername
    );
    // An undecodable secret cannot be rendered into an image.
    assert_eq!(
        build_descriptor("not a secret!".to_owned(), "alice").unwrap_err(),
        AuthError::ServerError
    );
}

#[test]
fn end_to_end_enroll_login_resolve_logout() {
    let mut store = Store::new();
    let (secret, _) = enroll(&mut store, "gm1");

    // Compute a code valid at T and log in with it.
    let code = current_code(&secret, T).unwrap();
    let (user, update) = login(&mut store, "gm1", &code, T).unwrap();
    assert_eq!(user.username, "gm1");
    let token = match update {
        CookieUpdate::Issue(token) => token,
        other => panic!("expected a session cookie, got {:?}", other),
    };

    // A request carrying that cookie resolves to gm1.
    let (id, _) = resolve(&store, Some(&token)).unwrap();
    match id {
        Identity::Authenticated { username } => assert_eq!(username, "gm1"),
        Identity::Anonymous => panic!("expected an authenticated identity"),
    }

    // Logout deletes the session; the stale cookie now resolves anonymous.
    let sessions_before = store.sessions.len();
    revoke(&mut store, Some(&token));
    assert_eq!(store.sessions.len(), sessions_before - 1);
    let (id, _) = resolve(&store, Some(&token)).unwrap();
    assert!(matches!(id, Identity::Anonymous));
}
