//! Enrollment and login: the only two ways an identity comes into being.
//!
//! Enrollment generates a secret, shows it to the user, and persists the
//! account only after the user proves they hold the secret by submitting
//! a current code. Login verifies a code against the stored secret and
//! issues a session.

use vstd::prelude::*;
use crate::errors::AuthError;
use crate::session::{issue, CookieUpdate, CookieUpdateV};
use crate::store::{
    find_session, find_user, lemma_find_idx, user_key, SessionV, Store, UserRecord, UserV,
};
use crate::text::{contains_char, seq_has_char};
use crate::totp::{
    accepts_code, generate_secret, is_totp_secret, provisioning_image, qr_image_of, qr_renders,
    totp_accepts,
};
use crate::types::User;

verus! {

/// Whether a username may name an account: non-empty and free of the
/// reserved `:` separator.
pub open spec fn valid_username(name: Seq<char>) -> bool {
    name.len() > 0 && !seq_has_char(name, ':')
}

/// What stands in the way of registering `name`, if anything.
pub open spec fn username_problem(users: Seq<UserV>, name: Seq<char>) -> Option<AuthError> {
    if !valid_username(name) {
        Some(AuthError::InvalidUsername)
    } else if find_user(users, name) is Some {
        Some(AuthError::UsernameTaken)
    } else {
        None
    }
}

/// Checks that a username is well-formed.
pub fn check_username_format(username: &str) -> (r: bool)
    ensures
        r == valid_username(username@),
{
    !username.is_empty() && !contains_char(username, ':')
}

/// Reports why `username` cannot be registered, or nothing if it can.
pub fn check_username(store: &Store, username: &str) -> (r: Option<AuthError>)
    ensures
        r == username_problem(store.users_v(), username@),
{
    if !check_username_format(username) {
        return Some(AuthError::InvalidUsername);
    }
    match store.user_index(username) {
        Some(_) => Some(AuthError::UsernameTaken),
        None => None,
    }
}

/// Everything a client needs to finish enrolling: the human-copyable
/// encoded secret and a scannable provisioning image. Nothing about it
/// is persisted yet, so abandoning enrollment leaves no trace.
#[derive(Debug)]
pub struct TotpDescriptor {
    pub secret: String,
    pub account: String,
    pub issuer: String,
    pub qr_base64: String,
}

/// Wraps an already-drawn secret in the descriptor enrollment shows the
/// user: the fixed code parameters, the human-copyable secret, and the
/// scannable provisioning image.
///
/// The descriptor is built exactly when the username is well-formed and
/// an image can be rendered for this secret and label; each refusal
/// names its reason.
pub fn build_descriptor(secret: String, username: &str) -> (r: Result<TotpDescriptor, AuthError>)
    ensures
        match r {
            Ok(d) => {
                &&& valid_username(username@)
                &&& qr_renders(secret@, username@, "Doskvol-Ltd"@)
                &&& d.secret@ == secret@
                &&& is_totp_secret(d.secret@)
                &&& d.account@ == username@
                &&& d.issuer@ == "Doskvol-Ltd"@
                &&& d.qr_base64@ == qr_image_of(secret@, username@, "Doskvol-Ltd"@)
            },
            Err(e) => {
                &&& (e == AuthError::InvalidUsername || e == AuthError::ServerError)
                &&& (e == AuthError::InvalidUsername <==> !valid_username(username@))
                &&& (e == AuthError::ServerError ==> !qr_renders(
                    secret@,
                    username@,
                    "Doskvol-Ltd"@,
                ))
            },
        },
{
    if !check_username_format(username) {
        return Err(AuthError::InvalidUsername);
    }
    let qr = match provisioning_image(secret.as_str(), username) {
        Some(qr) => qr,
        None => {
            return Err(AuthError::ServerError);
        },
    };
    Ok(
        TotpDescriptor {
            secret,
            account: username.to_owned(),
            issuer: crate::totp::issuer_label().to_owned(),
            qr_base64: qr,
        },
    )
}

/// Starts enrollment for a candidate username: generates a fresh random
/// secret and wraps it in a descriptor with the fixed code parameters.
///
/// A malformed username is rejected outright. The secret draw is random,
/// so nothing can be promised of the rendering outcome here; the whole
/// success condition is pinned one call down, on [`build_descriptor`],
/// which takes the drawn secret as an argument.
pub fn begin_enrollment(username: &str) -> (r: Result<TotpDescriptor, AuthError>)
    ensures
        match r {
            Ok(d) => {
                &&& valid_username(username@)
                &&& is_totp_secret(d.secret@)
                &&& qr_renders(d.secret@, username@, "Doskvol-Ltd"@)
                &&& d.account@ == username@
                &&& d.issuer@ == "Doskvol-Ltd"@
                &&& d.qr_base64@ == qr_image_of(d.secret@, username@, "Doskvol-Ltd"@)
            },
            Err(e) => {
                &&& (e == AuthError::InvalidUsername || e == AuthError::ServerError)
                &&& (e == AuthError::InvalidUsername <==> !valid_username(username@))
            },
        },
{
    if !check_username_format(username) {
        return Err(AuthError::InvalidUsername);
    }
    build_descriptor(generate_secret(), username)
}

/// Inserts the user row that a finished enrollment persists.
///
/// Insertion succeeds exactly when the username is well-formed and not
/// yet taken; otherwise the store is untouched and the caller learns
/// which rule failed.
pub fn register_user(store: &mut Store, username: &str, secret: &str) -> (r: Result<
    (),
    AuthError,
>)
    requires
        old(store).wf(),
    ensures
        final(store).wf(),
        final(store).sessions_v() == old(store).sessions_v(),
        final(store).crews_v() == old(store).crews_v(),
        final(store).members_v() == old(store).members_v(),
        final(store).invites_v() == old(store).invites_v(),
        final(store).characters_v() == old(store).characters_v(),
        final(store).next_session_id == old(store).next_session_id,
        final(store).next_crew_id == old(store).next_crew_id,
        final(store).next_character_id == old(store).next_character_id,
        match r {
            Ok(()) => {
                &&& username_problem(old(store).users_v(), username@) is None
                &&& final(store).users_v() =~= old(store).users_v().push(
                    UserV { username: username@, totp_secret: secret@ },
                )
            },
            Err(e) => {
                &&& username_problem(old(store).users_v(), username@) == Some(e)
                &&& *final(store) == *old(store)
            },
        },
{
    match check_username(store, username) {
        Some(e) => Err(e),
        None => {
            proof {
                lemma_find_idx(store.users_v(), user_key(), username@);
            }
            store.users.push(
                UserRecord { username: username.to_owned(), totp_secret: secret.to_owned() },
            );
            proof {
                let oldv = old(store).users_v();
                let newv = store.users_v();
                assert(newv =~= oldv.push(UserV { username: username@, totp_secret: secret@ }));
                assert forall|a: int| 0 <= a < oldv.len() implies oldv[a].username
                    != username@ by {
                    assert((user_key())(oldv[a]) != username@);
                }
                assert forall|a: int, b: int|
                    0 <= a < b < newv.len() implies newv[a].username != newv[b].username by {
                    if b < newv.len() - 1 {
                        assert(newv[a] == oldv[a] && newv[b] == oldv[b]);
                    } else {
                        assert(newv[a] == oldv[a]);
                    }
                }
                assert(store.sessions_v() =~= old(store).sessions_v());
                assert(store.crews_v() =~= old(store).crews_v());
                assert(store.members_v() =~= old(store).members_v());
                assert(store.invites_v() =~= old(store).invites_v());
                assert(store.characters_v() =~= old(store).characters_v());
            }
            Ok(())
        },
    }
}

/// Finishes enrollment: verifies the submitted code against the secret's
/// current acceptance window, persists the user row, and issues a first
/// session — enrollment doubles as first login.
///
/// A code outside the window (or an unusable secret) fails with invalid
/// credentials and persists nothing; a bad or taken username likewise
/// persists nothing. When the account is created but the session draw
/// collides, the account stands and the cookie is simply left alone, so
/// the cookie directive tells the caller whether a session was issued.
pub fn complete_enrollment(
    store: &mut Store,
    username: &str,
    secret: &str,
    submitted_code: &str,
    now: u64,
) -> (r: Result<(User, CookieUpdate), AuthError>)
    requires
        old(store).wf(),
        now <= u64::MAX - 30,
    ensures
        final(store).wf(),
        final(store).crews_v() == old(store).crews_v(),
        final(store).members_v() == old(store).members_v(),
        final(store).invites_v() == old(store).invites_v(),
        final(store).characters_v() == old(store).characters_v(),
        match r {
            Ok((u, cu)) => {
                &&& is_totp_secret(secret@) && totp_accepts(secret@, submitted_code@, now as nat)
                &&& username_problem(old(store).users_v(), username@) is None
                &&& u.username@ == username@
                &&& final(store).users_v() =~= old(store).users_v().push(
                    UserV { username: username@, totp_secret: secret@ },
                )
                &&& match cu@ {
                    CookieUpdateV::Issue(t) => {
                        &&& t.len() == 25
                        &&& forall|i: int|
                            0 <= i < t.len() ==> crate::tokens::is_token_char(#[trigger] t[i])
                        &&& find_session(old(store).sessions_v(), t) is None
                        &&& final(store).sessions_v() =~= old(store).sessions_v().push(
                            SessionV {
                                id: old(store).next_session_id,
                                user_id: username@,
                                token: t,
                                name: None,
                            },
                        )
                    },
                    CookieUpdateV::Keep => final(store).sessions_v() == old(store).sessions_v(),
                    CookieUpdateV::Clear => false,
                }
            },
            Err(e) => {
                &&& *final(store) == *old(store)
                &&& if !(is_totp_secret(secret@) && totp_accepts(
                    secret@,
                    submitted_code@,
                    now as nat,
                )) {
                    e == AuthError::InvalidCredentials
                } else {
                    username_problem(old(store).users_v(), username@) == Some(e)
                }
            },
        },
{
    match accepts_code(secret, submitted_code, now) {
        Some(true) => {},
        Some(false) => {
            return Err(AuthError::InvalidCredentials);
        },
        None => {
            return Err(AuthError::InvalidCredentials);
        },
    }
    match register_user(store, username, secret) {
        Ok(()) => {},
        Err(e) => {
            return Err(e);
        },
    }
    proof {
        let row = UserV { username: username@, totp_secret: secret@ };
        crate::store::lemma_find_idx_push(old(store).users_v(), user_key(), username@, row);
        assert(find_user(store.users_v(), username@) is Some);
    }
    let user = User { username: username.to_owned() };
    match issue(store, username) {
        Ok(token) => Ok((user, CookieUpdate::Issue(token))),
        Err(_) => Ok((user, CookieUpdate::Keep)),
    }
}

/// Logs a user in: looks the account up by exact username, verifies the
/// submitted code against the stored secret's acceptance window, and
/// issues a fresh session.
///
/// An unknown username fails with not-found; a code outside the window
/// fails with invalid credentials and issues nothing; a stored secret
/// that no longer decodes, or a failed session insertion, is an opaque
/// server error. Only a successful login changes the store, and it only
/// appends one session row.
pub fn login(store: &mut Store, username: &str, code: &str, now: u64) -> (r: Result<
    (User, CookieUpdate),
    AuthError,
>)
    requires
        old(store).wf(),
        now <= u64::MAX - 30,
    ensures
        final(store).wf(),
        final(store).users_v() == old(store).users_v(),
        final(store).crews_v() == old(store).crews_v(),
        final(store).members_v() == old(store).members_v(),
        final(store).invites_v() == old(store).invites_v(),
        final(store).characters_v() == old(store).characters_v(),
        match r {
            Ok((u, cu)) => {
                &&& find_user(old(store).users_v(), username@) is Some
                &&& {
                    let row = old(store).users_v()[find_user(old(store).users_v(), username@)->0];
                    &&& is_totp_secret(row.totp_secret)
                    &&& totp_accepts(row.totp_secret, code@, now as nat)
                    &&& u.username@ == row.username
                }
                &&& match cu@ {
                    CookieUpdateV::Issue(t) => {
                        &&& t.len() == 25
                        &&& forall|i: int|
                            0 <= i < t.len() ==> crate::tokens::is_token_char(#[trigger] t[i])
                        &&& find_session(old(store).sessions_v(), t) is None
                        &&& final(store).sessions_v() =~= old(store).sessions_v().push(
                            SessionV {
                                id: old(store).next_session_id,
                                user_id: username@,
                                token: t,
                                name: None,
                            },
                        )
                    },
                    _ => false,
                }
            },
            Err(e) => {
                &&& *final(store) == *old(store)
                &&& match find_user(old(store).users_v(), username@) {
                    None => e == AuthError::NotFound,
                    Some(j) => {
                        let row = old(store).users_v()[j];
                        if !is_totp_secret(row.totp_secret) {
                            e == AuthError::ServerError
                        } else if !totp_accepts(row.totp_secret, code@, now as nat) {
                            e == AuthError::InvalidCredentials
                        } else {
                            e == AuthError::ServerError
                        }
                    },
                }
            },
        },
{
    let j = match store.user_index(username) {
        None => {
            return Err(AuthError::NotFound);
        },
        Some(j) => j,
    };
    proof {
        lemma_find_idx(store.users_v(), user_key(), username@);
    }
    let accepted = match accepts_code(store.users[j].totp_secret.as_str(), code, now) {
        None => {
            return Err(AuthError::ServerError);
        },
        Some(b) => b,
    };
    if !accepted {
        return Err(AuthError::InvalidCredentials);
    }
    let user = User { username: store.users[j].username.clone() };
    match issue(store, username) {
        Ok(token) => Ok((user, CookieUpdate::Issue(token))),
        Err(_) => Err(AuthError::ServerError),
    }
}

/// How many user rows carry `name`.
pub open spec fn user_count(users: Seq<UserV>, name: Seq<char>) -> nat
    decreases users.len(),
{
    if users.len() == 0 {
        0
    } else {
        (if users[0].username == name {
            1nat
        } else {
            0nat
        }) + user_count(users.drop_first(), name)
    }
}

/// Appending a row raises the count by one exactly when the row carries
/// the counted name.
pub proof fn lemma_user_count_push(users: Seq<UserV>, name: Seq<char>, x: UserV)
    ensures
        user_count(users.push(x), name) == user_count(users, name) + (if x.username == name {
            1nat
        } else {
            0nat
        }),
    decreases users.len(),
{
    if users.len() == 0 {
        assert(users.push(x)[0] == x);
        assert(users.push(x).drop_first() =~= Seq::<UserV>::empty());
        assert(user_count(users.push(x).drop_first(), name) == 0);
        assert(user_count(users, name) == 0);
    } else {
        assert(users.push(x)[0] == users[0]);
        assert(users.push(x).drop_first() =~= users.drop_first().push(x));
        lemma_user_count_push(users.drop_first(), name, x);
        assert(user_count(users.push(x), name) == (if users[0].username == name {
            1nat
        } else {
            0nat
        }) + user_count(users.push(x).drop_first(), name));
    }
}

/// A name no row carries has count zero.
pub proof fn lemma_user_count_zero(users: Seq<UserV>, name: Seq<char>)
    requires
        forall|j: int| 0 <= j < users.len() ==> users[j].username != name,
    ensures
        user_count(users, name) == 0,
    decreases users.len(),
{
    if users.len() > 0 {
        assert(forall|j: int|
            0 <= j < users.drop_first().len() ==> users.drop_first()[j] == users[j + 1]);
        lemma_user_count_zero(users.drop_first(), name);
    }
}

/// Registering the same username twice: after the first registration
/// succeeds, a second attempt fails as already taken, and exactly one
/// row carries the name.
pub proof fn lemma_duplicate_registration(
    users: Seq<UserV>,
    name: Seq<char>,
    secret1: Seq<char>,
    secret2: Seq<char>,
)
    requires
        username_problem(users, name) is None,
    ensures
        username_problem(users.push(UserV { username: name, totp_secret: secret1 }), name)
            == Some(AuthError::UsernameTaken),
        user_count(users.push(UserV { username: name, totp_secret: secret1 }), name) == 1,
{
    let row = UserV { username: name, totp_secret: secret1 };
    crate::store::lemma_find_idx_push(users, user_key(), name, row);
    lemma_find_idx(users, user_key(), name);
    assert forall|j: int| 0 <= j < users.len() implies users[j].username != name by {
        assert((user_key())(users[j]) != name);
    }
    lemma_user_count_zero(users, name);
    lemma_user_count_push(users, name, row);
}

} // verus!
