//! The session lifecycle: issuing, resolving and revoking bearer tokens,
//! and the cookie directives each step hands back to the HTTP layer.

use vstd::prelude::*;
use crate::errors::AuthError;
use crate::store::{
    find_session, find_user, lemma_find_idx, lemma_find_idx_from_witness, lemma_find_idx_none,
    lemma_find_idx_push, session_key, SessionRecord, SessionV, Store, UserV,
};
use crate::text::str_eq;
use crate::tokens::fresh_token;
use crate::types::User;

verus! {

/// Who a request is acting as, recomputed from the cookie every time.
#[derive(Debug)]
pub enum Identity {
    Authenticated { username: String },
    Anonymous,
}

impl View for Identity {
    type V = Option<Seq<char>>;

    open spec fn view(&self) -> Option<Seq<char>> {
        match self {
            Identity::Authenticated { username } => Some(username@),
            Identity::Anonymous => None,
        }
    }
}

impl Identity {
    /// The authenticated user, or nothing for an anonymous request.
    pub fn ok(self) -> (r: Option<User>)
        ensures
            match r {
                Some(u) => self@ == Some(u.username@),
                None => self@ is None,
            },
    {
        match self {
            Identity::Authenticated { username } => Some(User { username }),
            Identity::Anonymous => None,
        }
    }

    /// The signed-in username, if any.
    pub fn username(&self) -> (r: Option<&String>)
        ensures
            match r {
                Some(u) => self@ == Some(u@),
                None => self@ is None,
            },
    {
        match self {
            Identity::Authenticated { username } => Some(username),
            Identity::Anonymous => None,
        }
    }

    /// Whether a user is signed in.
    pub fn is_authenticated(&self) -> (r: bool)
        ensures
            r == (self@ is Some),
    {
        match self {
            Identity::Authenticated { .. } => true,
            Identity::Anonymous => false,
        }
    }

    /// Whether nobody is signed in.
    pub fn is_anon(&self) -> (r: bool)
        ensures
            r == (self@ is None),
    {
        !self.is_authenticated()
    }
}

/// The mathematical value of a [`CookieUpdate`].
pub enum CookieUpdateV {
    Keep,
    Issue(Seq<char>),
    Clear,
}

/// What the HTTP layer must do to the session cookie after an operation:
/// leave it alone, set it to a fresh token (attributes `Path=/; Secure;
/// HttpOnly; SameSite=Strict`, no expiry), or overwrite it with removal
/// semantics (same attributes, expiry in the past).
#[derive(Debug)]
pub enum CookieUpdate {
    Keep,
    Issue(String),
    Clear,
}

impl View for CookieUpdate {
    type V = CookieUpdateV;

    open spec fn view(&self) -> CookieUpdateV {
        match self {
            CookieUpdate::Keep => CookieUpdateV::Keep,
            CookieUpdate::Issue(t) => CookieUpdateV::Issue(t@),
            CookieUpdate::Clear => CookieUpdateV::Clear,
        }
    }
}

/// What revoking a session reports back: a deleted session, or the
/// harmless no-op signal when no cookie was presented.
#[derive(Debug, Clone, Copy, PartialEq, Eq, Structural)]
pub enum RevokeOutcome {
    SessionRevoked,
    NoActiveSession,
}

/// The name under which the session cookie travels.
pub fn session_cookie_name() -> (r: &'static str)
    ensures
        r@ == "session_token"@,
{
    "session_token"
}

/// The cookie value that marks an already-removed session.
pub open spec fn deleted_marker() -> Seq<char> {
    "deleted"@
}

/// The view of an optional cookie value.
pub open spec fn cookie_v(cookie: Option<&str>) -> Option<Seq<char>> {
    match cookie {
        Some(s) => Some(s@),
        None => None,
    }
}

/// Who a cookie value resolves to against the given tables: the owner of
/// the matching session, provided that owner still exists.
pub open spec fn resolve_id_spec(
    users: Seq<UserV>,
    sessions: Seq<SessionV>,
    cookie: Option<Seq<char>>,
) -> Option<Seq<char>> {
    match cookie {
        None => None,
        Some(v) => if v.len() == 0 || v == deleted_marker() {
            None
        } else {
            match find_session(sessions, v) {
                None => None,
                Some(i) => match find_user(users, sessions[i].user_id) {
                    None => None,
                    Some(j) => Some(users[j].username),
                },
            }
        },
    }
}

/// Whether resolution must overwrite a stale cookie: a real token was
/// presented but no session row carries it.
pub open spec fn resolve_clears_cookie(sessions: Seq<SessionV>, cookie: Option<Seq<char>>) -> bool {
    match cookie {
        None => false,
        Some(v) => v.len() != 0 && v != deleted_marker() && find_session(sessions, v) is None,
    }
}

/// Whether resolution hits corrupted linked data: a session row exists
/// but the user it points at is gone.
pub open spec fn resolve_errs(
    users: Seq<UserV>,
    sessions: Seq<SessionV>,
    cookie: Option<Seq<char>>,
) -> bool {
    match cookie {
        None => false,
        Some(v) => v.len() != 0 && v != deleted_marker() && (match find_session(sessions, v) {
            Some(i) => find_user(users, sessions[i].user_id) is None,
            None => false,
        }),
    }
}

/// Computes the identity behind a cookie value.
///
/// A missing, empty or already-deleted cookie is anonymous without any
/// lookup; an unknown token is anonymous and has the stale cookie
/// overwritten; a session pointing at a vanished user surfaces a server
/// error instead of an identity. Nothing in the store changes.
pub fn resolve(store: &Store, cookie: Option<&str>) -> (r: Result<(Identity, CookieUpdate), AuthError>)
    ensures
        match r {
            Ok((id, cu)) => {
                &&& !resolve_errs(store.users_v(), store.sessions_v(), cookie_v(cookie))
                &&& id@ == resolve_id_spec(store.users_v(), store.sessions_v(), cookie_v(cookie))
                &&& cu@ == (if resolve_clears_cookie(store.sessions_v(), cookie_v(cookie)) {
                    CookieUpdateV::Clear
                } else {
                    CookieUpdateV::Keep
                })
            },
            Err(e) => e == AuthError::ServerError && resolve_errs(
                store.users_v(),
                store.sessions_v(),
                cookie_v(cookie),
            ),
        },
{
    let v = match cookie {
        None => {
            return Ok((Identity::Anonymous, CookieUpdate::Keep));
        },
        Some(v) => v,
    };
    if v.is_empty() || str_eq(v, "deleted") {
        return Ok((Identity::Anonymous, CookieUpdate::Keep));
    }
    let i = match store.session_index(v) {
        None => {
            return Ok((Identity::Anonymous, CookieUpdate::Clear));
        },
        Some(i) => i,
    };
    proof {
        lemma_find_idx(store.sessions_v(), session_key(), v@);
    }
    let j = match store.user_index(store.sessions[i].user_id.as_str()) {
        None => {
            return Err(AuthError::ServerError);
        },
        Some(j) => j,
    };
    proof {
        lemma_find_idx(store.users_v(), crate::store::user_key(), store.sessions@[i as int]@.user_id);
    }
    Ok((Identity::Authenticated { username: store.users[j].username.clone() }, CookieUpdate::Keep))
}

/// Inserts the session row for a token the caller has already drawn.
///
/// Sessions come into being only for registered users — at login or at
/// the end of enrollment — so the owner must exist. Insertion succeeds
/// exactly when the token is not yet taken and the id counter has room;
/// on failure the store is untouched and the caller sees an opaque
/// server error, as with any storage failure.
pub fn issue_with_token(store: &mut Store, username: &str, token: &str) -> (r: Result<
    u64,
    AuthError,
>)
    requires
        old(store).wf(),
        find_user(old(store).users_v(), username@) is Some,
    ensures
        final(store).wf(),
        final(store).users == old(store).users,
        final(store).crews == old(store).crews,
        final(store).members == old(store).members,
        final(store).invites == old(store).invites,
        final(store).characters == old(store).characters,
        final(store).next_crew_id == old(store).next_crew_id,
        final(store).next_character_id == old(store).next_character_id,
        match r {
            Ok(sid) => {
                &&& find_session(old(store).sessions_v(), token@) is None
                &&& old(store).next_session_id < u64::MAX
                &&& sid == old(store).next_session_id
                &&& final(store).sessions_v() =~= old(store).sessions_v().push(
                    SessionV { id: sid, user_id: username@, token: token@, name: None },
                )
                &&& final(store).next_session_id == old(store).next_session_id + 1
            },
            Err(e) => {
                &&& e == AuthError::ServerError
                &&& (find_session(old(store).sessions_v(), token@) is Some || old(
                    store,
                ).next_session_id == u64::MAX)
                &&& *final(store) == *old(store)
            },
        },
{
    if store.next_session_id == u64::MAX {
        return Err(AuthError::ServerError);
    }
    match store.session_index(token) {
        Some(_) => Err(AuthError::ServerError),
        None => {
            proof {
                lemma_find_idx(store.sessions_v(), session_key(), token@);
            }
            let sid = store.next_session_id;
            let record = SessionRecord {
                id: sid,
                user_id: username.to_owned(),
                token: token.to_owned(),
                name: None,
            };
            store.sessions.push(record);
            store.next_session_id = sid + 1;
            proof {
                assert(store.users_v() =~= old(store).users_v());
                assert(store.crews_v() =~= old(store).crews_v());
                assert(store.members_v() =~= old(store).members_v());
                assert(store.invites_v() =~= old(store).invites_v());
                assert(store.characters_v() =~= old(store).characters_v());
                let oldv = old(store).sessions_v();
                let newv = store.sessions_v();
                assert(newv =~= oldv.push(
                    SessionV { id: sid, user_id: username@, token: token@, name: None },
                ));
                assert forall|a: int| 0 <= a < oldv.len() implies oldv[a].token != token@ by {
                    assert((session_key())(oldv[a]) != token@);
                }
                assert forall|a: int, b: int|
                    0 <= a < b < newv.len() implies newv[a].token != newv[b].token by {
                    if b < newv.len() - 1 {
                        assert(newv[a] == oldv[a] && newv[b] == oldv[b]);
                    } else {
                        assert(newv[a] == oldv[a]);
                    }
                }
                assert forall|a: int, b: int|
                    0 <= a < b < newv.len() implies newv[a].id != newv[b].id by {
                    if b < newv.len() - 1 {
                        assert(newv[a] == oldv[a] && newv[b] == oldv[b]);
                    } else {
                        assert(newv[a] == oldv[a]);
                    }
                }
            }
            Ok(sid)
        },
    }
}

/// Issues a session for `username`: draws a fresh 25-character token,
/// inserts the session row, and reports the token to be set as a cookie.
///
/// Sessions come into being only for registered users, so the owner
/// must exist. The token draw is random, so a collision with an
/// existing session is possible and surfaces as the same opaque server
/// error a storage failure would; the store is then untouched.
pub fn issue(store: &mut Store, username: &str) -> (r: Result<String, AuthError>)
    requires
        old(store).wf(),
        find_user(old(store).users_v(), username@) is Some,
    ensures
        final(store).wf(),
        final(store).users == old(store).users,
        final(store).crews == old(store).crews,
        final(store).members == old(store).members,
        final(store).invites == old(store).invites,
        final(store).characters == old(store).characters,
        final(store).next_crew_id == old(store).next_crew_id,
        final(store).next_character_id == old(store).next_character_id,
        match r {
            Ok(t) => {
                &&& t@.len() == 25
                &&& forall|i: int|
                    0 <= i < t@.len() ==> crate::tokens::is_token_char(#[trigger] t@[i])
                &&& find_session(old(store).sessions_v(), t@) is None
                &&& final(store).sessions_v() =~= old(store).sessions_v().push(
                    SessionV {
                        id: old(store).next_session_id,
                        user_id: username@,
                        token: t@,
                        name: None,
                    },
                )
                &&& final(store).next_session_id == old(store).next_session_id + 1
            },
            Err(e) => e == AuthError::ServerError && *final(store) == *old(store),
        },
{
    let token = fresh_token();
    match issue_with_token(store, username, token.as_str()) {
        Ok(_) => Ok(token),
        Err(e) => Err(e),
    }
}

/// The session table after a revocation with the given cookie value.
pub open spec fn revoke_sessions_spec(
    sessions: Seq<SessionV>,
    cookie: Option<Seq<char>>,
) -> Seq<SessionV> {
    match cookie {
        None => sessions,
        Some(v) => match find_session(sessions, v) {
            Some(i) => sessions.remove(i),
            None => sessions,
        },
    }
}

/// Logs out: deletes the session row carrying the cookie's token and
/// orders the cookie overwritten with removal semantics.
///
/// Without a cookie this is a harmless no-op signal, not an error; with
/// one, the matching row (if any) is deleted exactly once and the cookie
/// is cleared even when no row matched.
pub fn revoke(store: &mut Store, cookie: Option<&str>) -> (r: (RevokeOutcome, CookieUpdate))
    requires
        old(store).wf(),
    ensures
        final(store).wf(),
        final(store).users == old(store).users,
        final(store).crews == old(store).crews,
        final(store).members == old(store).members,
        final(store).invites == old(store).invites,
        final(store).characters == old(store).characters,
        final(store).next_session_id == old(store).next_session_id,
        final(store).next_crew_id == old(store).next_crew_id,
        final(store).next_character_id == old(store).next_character_id,
        final(store).sessions_v() =~= revoke_sessions_spec(
            old(store).sessions_v(),
            cookie_v(cookie),
        ),
        r.0 == (if cookie is Some {
            RevokeOutcome::SessionRevoked
        } else {
            RevokeOutcome::NoActiveSession
        }),
        r.1@ == (if cookie is Some {
            CookieUpdateV::Clear
        } else {
            CookieUpdateV::Keep
        }),
{
    let v = match cookie {
        None => {
            return (RevokeOutcome::NoActiveSession, CookieUpdate::Keep);
        },
        Some(v) => v,
    };
    match store.session_index(v) {
        Some(i) => {
            proof {
                lemma_find_idx(store.sessions_v(), session_key(), v@);
            }
            store.sessions.remove(i);
            proof {
                assert(store.users_v() =~= old(store).users_v());
                assert(store.crews_v() =~= old(store).crews_v());
                assert(store.members_v() =~= old(store).members_v());
                assert(store.invites_v() =~= old(store).invites_v());
                assert(store.characters_v() =~= old(store).characters_v());
                let oldv = old(store).sessions_v();
                let newv = store.sessions_v();
                assert(newv =~= oldv.remove(i as int));
                assert forall|a: int, b: int|
                    0 <= a < b < newv.len() implies newv[a].token != newv[b].token by {
                    let a0 = if a < i as int { a } else { a + 1 };
                    let b0 = if b < i as int { b } else { b + 1 };
                    assert(newv[a] == oldv[a0] && newv[b] == oldv[b0]);
                }
                assert forall|a: int, b: int|
                    0 <= a < b < newv.len() implies newv[a].id != newv[b].id by {
                    let a0 = if a < i as int { a } else { a + 1 };
                    let b0 = if b < i as int { b } else { b + 1 };
                    assert(newv[a] == oldv[a0] && newv[b] == oldv[b0]);
                }
                assert forall|a: int| 0 <= a < newv.len() implies newv[a].id
                    < store.next_session_id by {
                    let a0 = if a < i as int { a } else { a + 1 };
                    assert(newv[a] == oldv[a0]);
                }
            }
        },
        None => {},
    }
    (RevokeOutcome::SessionRevoked, CookieUpdate::Clear)
}

/// The session row a token currently stands for.
pub open spec fn session_for(sessions: Seq<SessionV>, token: Seq<char>) -> Option<SessionV> {
    match find_session(sessions, token) {
        Some(i) => Some(sessions[i]),
        None => None,
    }
}

/// A token, once issued, stands for the same user for its whole
/// lifetime: issuing a session under a different token, or revoking a
/// different token, leaves the row it names untouched; only revoking
/// the token itself removes it, and nothing ever rewrites it.
pub proof fn lemma_token_never_rebinds(
    sessions: Seq<SessionV>,
    token: Seq<char>,
    other: Seq<char>,
    x: SessionV,
)
    requires
        forall|i: int, j: int|
            0 <= i < j < sessions.len() ==> sessions[i].token != sessions[j].token,
        session_for(sessions, token) is Some,
        x.token != token,
        other != token,
    ensures
        session_for(sessions.push(x), token) == session_for(sessions, token),
        session_for(revoke_sessions_spec(sessions, Some(other)), token) == session_for(
            sessions,
            token,
        ),
{
    lemma_find_idx(sessions, session_key(), token);
    let i = find_session(sessions, token)->0;
    lemma_find_idx_push(sessions, session_key(), token, x);
    match find_session(sessions, other) {
        None => {},
        Some(k) => {
            lemma_find_idx(sessions, session_key(), other);
            assert(k != i);
            let remaining = sessions.remove(k);
            let idx = if i < k {
                i
            } else {
                i - 1
            };
            assert(remaining[idx] == sessions[i]);
            assert forall|j: int| 0 <= j < idx implies (session_key())(remaining[j])
                != token by {
                let j0 = if j < k {
                    j
                } else {
                    j + 1
                };
                assert(remaining[j] == sessions[j0]);
                assert(j0 < i);
            }
            lemma_find_idx_from_witness(remaining, session_key(), token, idx);
        },
    }
}

/// A fresh session resolves to its owner: pushing a session row for a
/// registered user and resolving the very token that was issued yields
/// the authenticated identity of that user.
pub proof fn lemma_issue_then_resolve(
    users: Seq<UserV>,
    sessions: Seq<SessionV>,
    username: Seq<char>,
    token: Seq<char>,
    sid: u64,
)
    requires
        find_session(sessions, token) is None,
        find_user(users, username) is Some,
        token.len() == 25,
    ensures
        resolve_id_spec(
            users,
            sessions.push(SessionV { id: sid, user_id: username, token, name: None }),
            Some(token),
        ) == Some(username),
{
    reveal_strlit("deleted");
    assert(token != deleted_marker());
    let pushed = sessions.push(SessionV { id: sid, user_id: username, token, name: None });
    lemma_find_idx_push(sessions, session_key(), token, SessionV { id: sid, user_id: username, token, name: None });
    assert(find_session(pushed, token) == Some(sessions.len() as int));
    assert(pushed[sessions.len() as int].user_id == username);
    lemma_find_idx(users, crate::store::user_key(), username);
    let j = find_user(users, username)->0;
    assert(users[j].username == username);
}

/// A token no session row carries resolves to nobody, and resolution
/// orders the stale cookie overwritten.
pub proof fn lemma_resolve_unknown_token(
    users: Seq<UserV>,
    sessions: Seq<SessionV>,
    token: Seq<char>,
)
    requires
        find_session(sessions, token) is None,
        token.len() != 0,
        token != deleted_marker(),
    ensures
        resolve_id_spec(users, sessions, Some(token)) is None,
        resolve_clears_cookie(sessions, Some(token)),
{
}

/// Revoking deletes the session row exactly once: the first revocation
/// with the token removes one row, and a repeat without a cookie (the
/// cookie was cleared) changes nothing.
pub proof fn lemma_revoke_idempotent(sessions: Seq<SessionV>, token: Seq<char>)
    requires
        find_session(sessions, token) is Some,
    ensures
        revoke_sessions_spec(sessions, Some(token)).len() == sessions.len() - 1,
        revoke_sessions_spec(revoke_sessions_spec(sessions, Some(token)), None)
            == revoke_sessions_spec(sessions, Some(token)),
{
    lemma_find_idx(sessions, session_key(), token);
}

/// After a session's row is removed, its token no longer resolves: with
/// tokens unique, deleting the matching row leaves no row carrying it.
pub proof fn lemma_revoked_token_resolves_anonymous(
    users: Seq<UserV>,
    sessions: Seq<SessionV>,
    token: Seq<char>,
)
    requires
        forall|i: int, j: int|
            0 <= i < j < sessions.len() ==> sessions[i].token != sessions[j].token,
        find_session(sessions, token) is Some,
        token.len() != 0,
        token != deleted_marker(),
    ensures
        find_session(revoke_sessions_spec(sessions, Some(token)), token) is None,
        resolve_id_spec(users, revoke_sessions_spec(sessions, Some(token)), Some(token)) is None,
{
    lemma_find_idx(sessions, session_key(), token);
    let i = find_session(sessions, token)->0;
    let remaining = sessions.remove(i);
    assert forall|j: int| 0 <= j < remaining.len() implies (session_key())(remaining[j])
        != token by {
        if j < i {
            assert(remaining[j] == sessions[j]);
        } else {
            assert(remaining[j] == sessions[j + 1]);
        }
    }
    lemma_find_idx_none(remaining, session_key(), token);
}

} // verus!
