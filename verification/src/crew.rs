//! Crew access: the membership and leader guards, crew creation, and the
//! bounded-use invite lifecycle.
//!
//! Every guard failure is shaped as "not found": a caller who is not
//! allowed to act learns nothing beyond the action being impossible.

use vstd::prelude::*;
use crate::errors::AuthError;
use crate::session::Identity;
use crate::store::{
    crew_key, find_crew, find_invite, find_member, invite_key, lemma_find_idx,
    lemma_find_idx_none, member_key, CrewInvite, CrewMemberRecord, InviteV, MemberV, Store,
};
use crate::tokens::fresh_invite_code;
use crate::types::{Crew, CrewSpecialty, CrewV};

verus! {

/// Whether a membership row ties `user` to crew `crew_id`.
pub open spec fn is_member_spec(members: Seq<MemberV>, crew_id: i32, user: Seq<char>) -> bool {
    find_member(members, crew_id, user) is Some
}

/// Whether `user` is the single privileged member of crew `crew_id`.
pub open spec fn is_dm_spec(crews: Seq<CrewV>, crew_id: i32, user: Seq<char>) -> bool {
    match find_crew(crews, crew_id) {
        Some(i) => crews[i].dm_id == user,
        None => false,
    }
}

/// Checks whether `user_id` belongs to crew `crew_id`.
pub fn is_in_crew(store: &Store, crew_id: i32, user_id: &str) -> (r: bool)
    ensures
        r == is_member_spec(store.members_v(), crew_id, user_id@),
{
    store.member_index(crew_id, user_id).is_some()
}

/// Checks whether `user_id` leads crew `crew_id`.
pub fn is_dm(store: &Store, crew_id: i32, user_id: &str) -> (r: bool)
    ensures
        r == is_dm_spec(store.crews_v(), crew_id, user_id@),
{
    match store.crew_index(crew_id) {
        Some(i) => {
            proof {
                lemma_find_idx(store.crews_v(), crew_key(), crew_id);
            }
            crate::text::str_eq(store.crews[i].dm_id.as_str(), user_id)
        },
        None => false,
    }
}

/// What stands in the way of `identity` reading crew `crew_id`.
pub open spec fn crew_access_error(
    crews: Seq<CrewV>,
    members: Seq<MemberV>,
    identity: Option<Seq<char>>,
    crew_id: i32,
) -> Option<AuthError> {
    match identity {
        None => Some(AuthError::NotAuthenticated),
        Some(u) => if !is_member_spec(members, crew_id, u) {
            Some(AuthError::NotFound)
        } else if find_crew(crews, crew_id) is None {
            Some(AuthError::NotFound)
        } else {
            None
        },
    }
}

/// Loads a crew for one of its members.
///
/// Non-members receive the same not-found error a missing crew gives, so
/// the response does not confirm the crew exists.
pub fn get_crew(store: &Store, id: i32, identity: &Identity) -> (r: Result<Crew, AuthError>)
    ensures
        match r {
            Ok(c) => {
                &&& crew_access_error(store.crews_v(), store.members_v(), identity@, id) is None
                &&& find_crew(store.crews_v(), id) is Some
                &&& c@ == store.crews_v()[find_crew(store.crews_v(), id)->0]
            },
            Err(e) => crew_access_error(store.crews_v(), store.members_v(), identity@, id)
                == Some(e),
        },
{
    let user = match identity {
        Identity::Authenticated { username } => username,
        Identity::Anonymous => {
            return Err(AuthError::NotAuthenticated);
        },
    };
    if !is_in_crew(store, id, user.as_str()) {
        return Err(AuthError::NotFound);
    }
    match store.crew_index(id) {
        Some(i) => {
            proof {
                lemma_find_idx(store.crews_v(), crew_key(), id);
            }
            Ok(store.crews[i].clone())
        },
        None => Err(AuthError::NotFound),
    }
}

/// Creates a crew led by the caller and enrolls the leader as its first
/// member under `dm_name`.
///
/// The caller must be signed in as exactly the named leader; the check
/// failing is indistinguishable from the action not existing.
pub fn create_crew(
    store: &mut Store,
    identity: &Identity,
    name: &str,
    specialty: CrewSpecialty,
    dm_id: &str,
    dm_name: &str,
) -> (r: Result<Crew, AuthError>)
    requires
        old(store).wf(),
    ensures
        final(store).wf(),
        final(store).users_v() == old(store).users_v(),
        final(store).sessions_v() == old(store).sessions_v(),
        final(store).invites_v() == old(store).invites_v(),
        final(store).characters_v() == old(store).characters_v(),
        final(store).next_session_id == old(store).next_session_id,
        final(store).next_character_id == old(store).next_character_id,
        match r {
            Ok(c) => {
                &&& identity@ == Some(dm_id@)
                &&& old(store).next_crew_id < i32::MAX
                &&& c@ == (CrewV {
                    id: old(store).next_crew_id,
                    name: name@,
                    specialty,
                    dm_id: dm_id@,
                })
                &&& final(store).crews_v() =~= old(store).crews_v().push(c@)
                &&& final(store).members_v() =~= old(store).members_v().push(
                    MemberV {
                        user_id: dm_id@,
                        crew_id: old(store).next_crew_id,
                        display_name: dm_name@,
                    },
                )
                &&& final(store).next_crew_id == old(store).next_crew_id + 1
            },
            Err(e) => {
                &&& *final(store) == *old(store)
                &&& match identity@ {
                    None => e == AuthError::NotAuthenticated,
                    Some(u) => if u != dm_id@ {
                        e == AuthError::NotFound
                    } else {
                        e == AuthError::ServerError && old(store).next_crew_id == i32::MAX
                    },
                }
            },
        },
{
    let user = match identity {
        Identity::Authenticated { username } => username,
        Identity::Anonymous => {
            return Err(AuthError::NotAuthenticated);
        },
    };
    if !crate::text::str_eq(user.as_str(), dm_id) {
        return Err(AuthError::NotFound);
    }
    if store.next_crew_id == i32::MAX {
        return Err(AuthError::ServerError);
    }
    let id = store.next_crew_id;
    let crew = Crew { id, name: name.to_owned(), specialty, dm_id: dm_id.to_owned() };
    let result = crew.clone();
    store.crews.push(crew);
    store.members.push(
        CrewMemberRecord { user_id: dm_id.to_owned(), crew_id: id, display_name: dm_name.to_owned() },
    );
    store.next_crew_id = id + 1;
    proof {
        assert(store.users_v() =~= old(store).users_v());
        assert(store.sessions_v() =~= old(store).sessions_v());
        assert(store.invites_v() =~= old(store).invites_v());
        assert(store.characters_v() =~= old(store).characters_v());
        let oldc = old(store).crews_v();
        let newc = store.crews_v();
        assert(newc =~= oldc.push(CrewV { id, name: name@, specialty, dm_id: dm_id@ }));
        assert forall|a: int, b: int| 0 <= a < b < newc.len() implies newc[a].id != newc[b].id by {
            if b < newc.len() - 1 {
                assert(newc[a] == oldc[a] && newc[b] == oldc[b]);
            } else {
                assert(newc[a] == oldc[a]);
            }
        }
        let oldm = old(store).members_v();
        let newm = store.members_v();
        assert(newm =~= oldm.push(MemberV { user_id: dm_id@, crew_id: id, display_name: dm_name@ }));
        assert forall|a: int, b: int|
            0 <= a < b < newm.len() implies (newm[a].crew_id, newm[a].user_id) != (
            newm[b].crew_id,
            newm[b].user_id,
            ) by {
            if b < newm.len() - 1 {
                assert(newm[a] == oldm[a] && newm[b] == oldm[b]);
            } else {
                assert(newm[a] == oldm[a]);
                assert(oldm[a].crew_id < id);
            }
        }
        assert forall|a: int| 0 <= a < newc.len() implies 0 <= #[trigger] newc[a].id
            < store.next_crew_id by {
            if a < newc.len() - 1 {
                assert(newc[a] == oldc[a]);
            }
        }
        assert forall|a: int| 0 <= a < newm.len() implies 0 <= #[trigger] newm[a].crew_id
            < store.next_crew_id by {
            if a < newm.len() - 1 {
                assert(newm[a] == oldm[a]);
            }
        }
    }
    Ok(result)
}

/// What stands in the way of `identity` administering crew `crew_id`'s
/// invites.
pub open spec fn dm_guard_error(
    crews: Seq<CrewV>,
    identity: Option<Seq<char>>,
    crew_id: i32,
) -> Option<AuthError> {
    match identity {
        None => Some(AuthError::NotAuthenticated),
        Some(u) => if !is_dm_spec(crews, crew_id, u) {
            Some(AuthError::NotFound)
        } else {
            None
        },
    }
}

/// Inserts an invite row under a code the caller has already drawn.
///
/// Only the crew's leader may create invites; a code collision surfaces
/// as the same opaque server error a storage failure would, and leaves
/// the store untouched.
pub fn create_invite_with_code(
    store: &mut Store,
    identity: &Identity,
    crew_id: i32,
    max_uses: i32,
    code: &str,
) -> (r: Result<CrewInvite, AuthError>)
    requires
        old(store).wf(),
    ensures
        final(store).wf(),
        final(store).users_v() == old(store).users_v(),
        final(store).sessions_v() == old(store).sessions_v(),
        final(store).crews_v() == old(store).crews_v(),
        final(store).members_v() == old(store).members_v(),
        final(store).characters_v() == old(store).characters_v(),
        final(store).next_session_id == old(store).next_session_id,
        final(store).next_crew_id == old(store).next_crew_id,
        final(store).next_character_id == old(store).next_character_id,
        match r {
            Ok(inv) => {
                &&& dm_guard_error(old(store).crews_v(), identity@, crew_id) is None
                &&& find_invite(old(store).invites_v(), code@) is None
                &&& inv@ == (InviteV { code: code@, crew_id, used: 0, max_uses })
                &&& final(store).invites_v() =~= old(store).invites_v().push(inv@)
            },
            Err(e) => {
                &&& *final(store) == *old(store)
                &&& match dm_guard_error(old(store).crews_v(), identity@, crew_id) {
                    Some(g) => e == g,
                    None => e == AuthError::ServerError && find_invite(
                        old(store).invites_v(),
                        code@,
                    ) is Some,
                }
            },
        },
{
    let user = match identity {
        Identity::Authenticated { username } => username,
        Identity::Anonymous => {
            return Err(AuthError::NotAuthenticated);
        },
    };
    if !is_dm(store, crew_id, user.as_str()) {
        return Err(AuthError::NotFound);
    }
    match store.invite_index(code) {
        Some(_) => Err(AuthError::ServerError),
        None => {
            proof {
                lemma_find_idx(store.invites_v(), invite_key(), code@);
            }
            let invite = CrewInvite { code: code.to_owned(), crew_id, used: 0, max_uses };
            let result = invite.clone();
            store.invites.push(invite);
            proof {
                assert(store.users_v() =~= old(store).users_v());
                assert(store.sessions_v() =~= old(store).sessions_v());
                assert(store.crews_v() =~= old(store).crews_v());
                assert(store.members_v() =~= old(store).members_v());
                assert(store.characters_v() =~= old(store).characters_v());
                let oldv = old(store).invites_v();
                let newv = store.invites_v();
                assert(newv =~= oldv.push(InviteV { code: code@, crew_id, used: 0, max_uses }));
                assert forall|a: int| 0 <= a < oldv.len() implies oldv[a].code != code@ by {
                    assert((invite_key())(oldv[a]) != code@);
                }
                assert forall|a: int, b: int|
                    0 <= a < b < newv.len() implies newv[a].code != newv[b].code by {
                    if b < newv.len() - 1 {
                        assert(newv[a] == oldv[a] && newv[b] == oldv[b]);
                    } else {
                        assert(newv[a] == oldv[a]);
                    }
                }
            }
            Ok(result)
        },
    }
}

/// Creates an invite for a crew the caller leads: draws a fresh
/// 6-character alphanumeric code and inserts the row with a zeroed
/// usage counter.
pub fn create_invite(store: &mut Store, identity: &Identity, crew_id: i32, max_uses: i32) -> (r:
    Result<CrewInvite, AuthError>)
    requires
        old(store).wf(),
    ensures
        final(store).wf(),
        final(store).users_v() == old(store).users_v(),
        final(store).sessions_v() == old(store).sessions_v(),
        final(store).crews_v() == old(store).crews_v(),
        final(store).members_v() == old(store).members_v(),
        final(store).characters_v() == old(store).characters_v(),
        match r {
            Ok(inv) => {
                &&& dm_guard_error(old(store).crews_v(), identity@, crew_id) is None
                &&& inv@.code.len() == 6
                &&& forall|i: int|
                    0 <= i < inv@.code.len() ==> crate::tokens::is_invite_char(
                        #[trigger] inv@.code[i],
                    )
                &&& inv@.crew_id == crew_id && inv@.used == 0 && inv@.max_uses == max_uses
                &&& find_invite(old(store).invites_v(), inv@.code) is None
                &&& final(store).invites_v() =~= old(store).invites_v().push(inv@)
            },
            Err(e) => {
                &&& *final(store) == *old(store)
                &&& match dm_guard_error(old(store).crews_v(), identity@, crew_id) {
                    Some(g) => e == g,
                    None => e == AuthError::ServerError,
                }
            },
        },
{
    let code = fresh_invite_code();
    create_invite_with_code(store, identity, crew_id, max_uses, code.as_str())
}

/// What stands in the way of `identity` redeeming the invite `code`:
/// the code must exist, the caller must not already belong to the
/// invite's crew, the usage bound must not be reached, and the crew the
/// invite points at must still exist.
pub open spec fn join_error(
    crews: Seq<CrewV>,
    members: Seq<MemberV>,
    invites: Seq<InviteV>,
    identity: Option<Seq<char>>,
    code: Seq<char>,
) -> Option<AuthError> {
    match identity {
        None => Some(AuthError::NotAuthenticated),
        Some(u) => match find_invite(invites, code) {
            None => Some(AuthError::NotFound),
            Some(i) => {
                let inv = invites[i];
                if is_member_spec(members, inv.crew_id, u) {
                    Some(AuthError::AlreadyMember)
                } else if inv.used >= inv.max_uses {
                    Some(AuthError::InviteExhausted)
                } else if find_crew(crews, inv.crew_id) is None {
                    Some(AuthError::ServerError)
                } else {
                    None
                }
            },
        },
    }
}

/// Redeems an invite code: enrolls the caller in the invite's crew under
/// `display_name`, counts the use, and prunes the invite once its last
/// use is spent.
///
/// The redemption is one atomic unit: either every effect happens — the
/// membership row, the incremented counter, the pruning of an exhausted
/// invite — or the store is untouched.
pub fn join(store: &mut Store, identity: &Identity, code: &str, display_name: &str) -> (r: Result<
    Crew,
    AuthError,
>)
    requires
        old(store).wf(),
    ensures
        final(store).wf(),
        final(store).users_v() == old(store).users_v(),
        final(store).sessions_v() == old(store).sessions_v(),
        final(store).crews_v() == old(store).crews_v(),
        final(store).characters_v() == old(store).characters_v(),
        final(store).next_session_id == old(store).next_session_id,
        final(store).next_crew_id == old(store).next_crew_id,
        final(store).next_character_id == old(store).next_character_id,
        match r {
            Ok(c) => {
                &&& join_error(
                    old(store).crews_v(),
                    old(store).members_v(),
                    old(store).invites_v(),
                    identity@,
                    code@,
                ) is None
                &&& {
                    let i = find_invite(old(store).invites_v(), code@)->0;
                    let inv = old(store).invites_v()[i];
                    &&& c@ == old(store).crews_v()[find_crew(old(store).crews_v(), inv.crew_id)->0]
                    &&& final(store).members_v() =~= old(store).members_v().push(
                        MemberV {
                            user_id: identity@->0,
                            crew_id: inv.crew_id,
                            display_name: display_name@,
                        },
                    )
                    &&& final(store).invites_v() =~= (if inv.used + 1 >= inv.max_uses {
                        old(store).invites_v().remove(i)
                    } else {
                        old(store).invites_v().update(
                            i,
                            InviteV { used: (inv.used + 1) as i32, ..inv },
                        )
                    })
                }
            },
            Err(e) => {
                &&& *final(store) == *old(store)
                &&& join_error(
                    old(store).crews_v(),
                    old(store).members_v(),
                    old(store).invites_v(),
                    identity@,
                    code@,
                ) == Some(e)
            },
        },
{
    let user = match identity {
        Identity::Authenticated { username } => username,
        Identity::Anonymous => {
            return Err(AuthError::NotAuthenticated);
        },
    };
    let i = match store.invite_index(code) {
        None => {
            return Err(AuthError::NotFound);
        },
        Some(i) => i,
    };
    proof {
        lemma_find_idx(store.invites_v(), invite_key(), code@);
    }
    let crew_id = store.invites[i].crew_id;
    if is_in_crew(store, crew_id, user.as_str()) {
        return Err(AuthError::AlreadyMember);
    }
    if store.invites[i].used >= store.invites[i].max_uses {
        return Err(AuthError::InviteExhausted);
    }
    let k = match store.crew_index(crew_id) {
        None => {
            return Err(AuthError::ServerError);
        },
        Some(k) => k,
    };
    proof {
        lemma_find_idx(store.crews_v(), crew_key(), crew_id);
        lemma_find_idx(store.members_v(), member_key(), (crew_id, user@));
    }
    let crew = store.crews[k].clone();
    store.members.push(
        CrewMemberRecord {
            user_id: user.clone(),
            crew_id,
            display_name: display_name.to_owned(),
        },
    );
    let used = store.invites[i].used;
    let max_uses = store.invites[i].max_uses;
    if used + 1 >= max_uses {
        store.invites.remove(i);
    } else {
        let updated = CrewInvite {
            code: store.invites[i].code.clone(),
            crew_id,
            used: used + 1,
            max_uses,
        };
        store.invites.set(i, updated);
    }
    proof {
        assert(store.users_v() =~= old(store).users_v());
        assert(store.sessions_v() =~= old(store).sessions_v());
        assert(store.crews_v() =~= old(store).crews_v());
        assert(store.characters_v() =~= old(store).characters_v());
        let oldm = old(store).members_v();
        let newm = store.members_v();
        assert(newm =~= oldm.push(
            MemberV { user_id: user@, crew_id, display_name: display_name@ },
        ));
        assert forall|a: int| 0 <= a < oldm.len() implies (member_key())(oldm[a]) != (
        crew_id,
        user@,
        ) by {}
        assert forall|a: int, b: int|
            0 <= a < b < newm.len() implies (newm[a].crew_id, newm[a].user_id) != (
            newm[b].crew_id,
            newm[b].user_id,
            ) by {
            if b < newm.len() - 1 {
                assert(newm[a] == oldm[a] && newm[b] == oldm[b]);
            } else {
                assert(newm[a] == oldm[a]);
                assert((member_key())(oldm[a]) != (crew_id, user@));
            }
        }
        let oldi = old(store).invites_v();
        let newi = store.invites_v();
        if used + 1 >= max_uses {
            assert(newi =~= oldi.remove(i as int));
            assert forall|a: int, b: int|
                0 <= a < b < newi.len() implies newi[a].code != newi[b].code by {
                let a0 = if a < i as int { a } else { a + 1 };
                let b0 = if b < i as int { b } else { b + 1 };
                assert(newi[a] == oldi[a0] && newi[b] == oldi[b0]);
            }
            assert forall|a: int| 0 <= a < newi.len() implies 0 <= newi[a].used by {
                let a0 = if a < i as int { a } else { a + 1 };
                assert(newi[a] == oldi[a0]);
            }
        } else {
            assert(newi =~= oldi.update(
                i as int,
                InviteV { used: (used + 1) as i32, ..oldi[i as int] },
            ));
            assert forall|a: int, b: int|
                0 <= a < b < newi.len() implies newi[a].code != newi[b].code by {
                assert(newi[a].code == oldi[a].code && newi[b].code == oldi[b].code);
            }
            assert forall|a: int| 0 <= a < newi.len() implies 0 <= newi[a].used by {
                if a != i as int {
                    assert(newi[a] == oldi[a]);
                }
            }
        }
    }
    Ok(crew)
}

/// Deletes an invite, at the request of the leader of the crew it
/// belongs to.
pub fn delete_invite(store: &mut Store, identity: &Identity, code: &str) -> (r: Result<
    (),
    AuthError,
>)
    requires
        old(store).wf(),
    ensures
        final(store).wf(),
        final(store).users_v() == old(store).users_v(),
        final(store).sessions_v() == old(store).sessions_v(),
        final(store).crews_v() == old(store).crews_v(),
        final(store).members_v() == old(store).members_v(),
        final(store).characters_v() == old(store).characters_v(),
        final(store).next_session_id == old(store).next_session_id,
        final(store).next_crew_id == old(store).next_crew_id,
        final(store).next_character_id == old(store).next_character_id,
        match r {
            Ok(()) => {
                &&& identity@ is Some
                &&& {
                    let i = find_invite(old(store).invites_v(), code@);
                    &&& i is Some
                    &&& is_dm_spec(
                        old(store).crews_v(),
                        old(store).invites_v()[i->0].crew_id,
                        identity@->0,
                    )
                    &&& final(store).invites_v() =~= old(store).invites_v().remove(i->0)
                }
            },
            Err(e) => {
                &&& *final(store) == *old(store)
                &&& match identity@ {
                    None => e == AuthError::NotAuthenticated,
                    Some(u) => match find_invite(old(store).invites_v(), code@) {
                        None => e == AuthError::NotFound,
                        Some(i) => !is_dm_spec(
                            old(store).crews_v(),
                            old(store).invites_v()[i].crew_id,
                            u,
                        ) && e == AuthError::NotFound,
                    },
                }
            },
        },
{
    let user = match identity {
        Identity::Authenticated { username } => username,
        Identity::Anonymous => {
            return Err(AuthError::NotAuthenticated);
        },
    };
    let i = match store.invite_index(code) {
        None => {
            return Err(AuthError::NotFound);
        },
        Some(i) => i,
    };
    proof {
        lemma_find_idx(store.invites_v(), invite_key(), code@);
    }
    if !is_dm(store, store.invites[i].crew_id, user.as_str()) {
        return Err(AuthError::NotFound);
    }
    store.invites.remove(i);
    proof {
        assert(store.users_v() =~= old(store).users_v());
        assert(store.sessions_v() =~= old(store).sessions_v());
        assert(store.crews_v() =~= old(store).crews_v());
        assert(store.members_v() =~= old(store).members_v());
        assert(store.characters_v() =~= old(store).characters_v());
        let oldi = old(store).invites_v();
        let newi = store.invites_v();
        assert(newi =~= oldi.remove(i as int));
        assert forall|a: int, b: int|
            0 <= a < b < newi.len() implies newi[a].code != newi[b].code by {
            let a0 = if a < i as int { a } else { a + 1 };
            let b0 = if b < i as int { b } else { b + 1 };
            assert(newi[a] == oldi[a0] && newi[b] == oldi[b0]);
        }
        assert forall|a: int| 0 <= a < newi.len() implies 0 <= newi[a].used by {
            let a0 = if a < i as int { a } else { a + 1 };
            assert(newi[a] == oldi[a0]);
        }
    }
    Ok(())
}

/// The display name of `user` inside crew `crew_id`, if a membership
/// row carries one.
pub open spec fn display_name_of(
    members: Seq<MemberV>,
    crew_id: i32,
    user: Seq<char>,
) -> Seq<char> {
    match find_member(members, crew_id, user) {
        Some(m) => members[m].display_name,
        None => "Failed to load DM name"@,
    }
}

/// Looks up the display name a crew member goes by, for a fellow member.
pub fn get_player_display_name(
    store: &Store,
    identity: &Identity,
    crew_id: i32,
    user_id: &str,
) -> (r: Result<String, AuthError>)
    ensures
        match r {
            Ok(name) => {
                &&& identity@ is Some
                &&& is_member_spec(store.members_v(), crew_id, identity@->0)
                &&& find_member(store.members_v(), crew_id, user_id@) is Some
                &&& name@ == store.members_v()[find_member(
                    store.members_v(),
                    crew_id,
                    user_id@,
                )->0].display_name
            },
            Err(e) => match identity@ {
                None => e == AuthError::NotAuthenticated,
                Some(u) => {
                    &&& e == AuthError::NotFound
                    &&& (!is_member_spec(store.members_v(), crew_id, u) || find_member(
                        store.members_v(),
                        crew_id,
                        user_id@,
                    ) is None)
                },
            },
        },
{
    let user = match identity {
        Identity::Authenticated { username } => username,
        Identity::Anonymous => {
            return Err(AuthError::NotAuthenticated);
        },
    };
    if !is_in_crew(store, crew_id, user.as_str()) {
        return Err(AuthError::NotFound);
    }
    match store.member_index(crew_id, user_id) {
        Some(m) => {
            proof {
                lemma_find_idx(store.members_v(), member_key(), (crew_id, user_id@));
            }
            Ok(store.members[m].display_name.clone())
        },
        None => Err(AuthError::NotFound),
    }
}

/// The invites that belong to crew `crew_id`, in table order.
pub open spec fn invites_for(invites: Seq<InviteV>, crew_id: i32) -> Seq<InviteV>
    decreases invites.len(),
{
    if invites.len() == 0 {
        Seq::empty()
    } else if invites[0].crew_id == crew_id {
        seq![invites[0]] + invites_for(invites.drop_first(), crew_id)
    } else {
        invites_for(invites.drop_first(), crew_id)
    }
}

/// Lists a crew's invites, for the crew's leader only.
pub fn get_invites(store: &Store, identity: &Identity, crew_id: i32) -> (r: Result<
    Vec<CrewInvite>,
    AuthError,
>)
    ensures
        match r {
            Ok(list) => {
                &&& dm_guard_error(store.crews_v(), identity@, crew_id) is None
                &&& list@.map_values(|inv: CrewInvite| inv@) == invites_for(
                    store.invites_v(),
                    crew_id,
                )
            },
            Err(e) => dm_guard_error(store.crews_v(), identity@, crew_id) == Some(e),
        },
{
    let user = match identity {
        Identity::Authenticated { username } => username,
        Identity::Anonymous => {
            return Err(AuthError::NotAuthenticated);
        },
    };
    if !is_dm(store, crew_id, user.as_str()) {
        return Err(AuthError::NotFound);
    }
    let ghost all = store.invites_v();
    let mut out: Vec<CrewInvite> = Vec::new();
    let mut i: usize = 0;
    proof {
        assert(all.skip(0) =~= all);
        assert(out@.map_values(|inv: CrewInvite| inv@) =~= Seq::<InviteV>::empty());
        assert(Seq::<InviteV>::empty() + invites_for(all, crew_id) =~= invites_for(
            all,
            crew_id,
        ));
    }
    while i < store.invites.len()
        invariant
            i <= store.invites@.len(),
            all == store.invites_v(),
            invites_for(all, crew_id) == out@.map_values(|inv: CrewInvite| inv@) + invites_for(
                all.skip(i as int),
                crew_id,
            ),
        decreases store.invites@.len() - i,
    {
        proof {
            assert(all.skip(i as int).drop_first() =~= all.skip(i as int + 1));
            assert(all.skip(i as int)[0] == all[i as int]);
        }
        if store.invites[i].crew_id == crew_id {
            let ghost before = out@.map_values(|inv: CrewInvite| inv@);
            out.push(store.invites[i].clone());
            proof {
                assert(out@.map_values(|inv: CrewInvite| inv@) =~= before.push(all[i as int]));
                assert(before + (seq![all[i as int]] + invites_for(
                    all.skip(i as int + 1),
                    crew_id,
                )) =~= before.push(all[i as int]) + invites_for(all.skip(i as int + 1), crew_id));
            }
        }
        i = i + 1;
    }
    proof {
        assert(all.skip(i as int) =~= Seq::<InviteV>::empty());
        assert(out@.map_values(|inv: CrewInvite| inv@) + invites_for(
            all.skip(i as int),
            crew_id,
        ) =~= out@.map_values(|inv: CrewInvite| inv@));
    }
    Ok(out)
}

/// How many membership rows crew `crew_id` has.
pub open spec fn member_count(members: Seq<MemberV>, crew_id: i32) -> nat
    decreases members.len(),
{
    if members.len() == 0 {
        0
    } else {
        (if members[0].crew_id == crew_id {
            1nat
        } else {
            0nat
        }) + member_count(members.drop_first(), crew_id)
    }
}

/// Counts a crew's members.
pub fn count_members(store: &Store, crew_id: i32) -> (r: usize)
    ensures
        r == member_count(store.members_v(), crew_id),
{
    let ghost all = store.members_v();
    let mut cnt: usize = 0;
    let mut i: usize = 0;
    proof {
        assert(all.skip(0) =~= all);
    }
    while i < store.members.len()
        invariant
            i <= store.members@.len(),
            cnt <= i,
            all == store.members_v(),
            member_count(all, crew_id) == cnt + member_count(all.skip(i as int), crew_id),
        decreases store.members@.len() - i,
    {
        proof {
            assert(all.skip(i as int).drop_first() =~= all.skip(i as int + 1));
            assert(all.skip(i as int)[0] == all[i as int]);
        }
        if store.members[i].crew_id == crew_id {
            cnt = cnt + 1;
        }
        i = i + 1;
    }
    proof {
        assert(all.skip(i as int) =~= Seq::<MemberV>::empty());
    }
    cnt
}

/// What a crew listing shows of one crew.
pub open spec fn crew_preview_v(members: Seq<MemberV>, c: CrewV) -> crate::types::CrewPreviewV {
    crate::types::CrewPreviewV {
        id: c.id,
        name: c.name,
        specialty: c.specialty,
        dm_name: display_name_of(members, c.id, c.dm_id),
        player_count: member_count(members, c.id),
    }
}

/// The previews of every crew `user` belongs to, in table order.
pub open spec fn my_crews_v(
    crews: Seq<CrewV>,
    members: Seq<MemberV>,
    user: Seq<char>,
) -> Seq<crate::types::CrewPreviewV>
    decreases crews.len(),
{
    if crews.len() == 0 {
        Seq::empty()
    } else if is_member_spec(members, crews[0].id, user) {
        seq![crew_preview_v(members, crews[0])] + my_crews_v(crews.drop_first(), members, user)
    } else {
        my_crews_v(crews.drop_first(), members, user)
    }
}

/// Lists the crews the caller belongs to, each with its leader's display
/// name and its member count.
pub fn get_my_crews(store: &Store, identity: &Identity) -> (r: Result<
    Vec<crate::types::CrewPreview>,
    AuthError,
>)
    ensures
        match r {
            Ok(list) => identity@ is Some && list@.map_values(
                |p: crate::types::CrewPreview| p@,
            ) == my_crews_v(store.crews_v(), store.members_v(), identity@->0),
            Err(e) => identity@ is None && e == AuthError::NotAuthenticated,
        },
{
    let user = match identity {
        Identity::Authenticated { username } => username,
        Identity::Anonymous => {
            return Err(AuthError::NotAuthenticated);
        },
    };
    let ghost crews = store.crews_v();
    let ghost members = store.members_v();
    let ghost uv = user@;
    let mut out: Vec<crate::types::CrewPreview> = Vec::new();
    let mut i: usize = 0;
    proof {
        assert(crews.skip(0) =~= crews);
        assert(out@.map_values(|p: crate::types::CrewPreview| p@) =~= Seq::<
            crate::types::CrewPreviewV,
        >::empty());
        assert(Seq::<crate::types::CrewPreviewV>::empty() + my_crews_v(crews, members, uv)
            =~= my_crews_v(crews, members, uv));
    }
    while i < store.crews.len()
        invariant
            i <= store.crews@.len(),
            crews == store.crews_v(),
            members == store.members_v(),
            uv == user@,
            my_crews_v(crews, members, uv) == out@.map_values(
                |p: crate::types::CrewPreview| p@,
            ) + my_crews_v(crews.skip(i as int), members, uv),
        decreases store.crews@.len() - i,
    {
        proof {
            assert(crews.skip(i as int).drop_first() =~= crews.skip(i as int + 1));
            assert(crews.skip(i as int)[0] == crews[i as int]);
        }
        let crew_id = store.crews[i].id;
        if is_in_crew(store, crew_id, user.as_str()) {
            let dm_name = match store.member_index(crew_id, store.crews[i].dm_id.as_str()) {
                Some(m) => {
                    proof {
                        lemma_find_idx(
                            store.members_v(),
                            member_key(),
                            (crew_id, store.crews@[i as int]@.dm_id),
                        );
                    }
                    store.members[m].display_name.clone()
                },
                None => "Failed to load DM name".to_owned(),
            };
            let player_count = count_members(store, crew_id);
            let preview = crate::types::CrewPreview {
                id: crew_id,
                name: store.crews[i].name.clone(),
                specialty: store.crews[i].specialty,
                dm_name,
                player_count,
            };
            let ghost before = out@.map_values(|p: crate::types::CrewPreview| p@);
            proof {
                assert(preview@ =~= crew_preview_v(members, crews[i as int]));
            }
            out.push(preview);
            proof {
                assert(out@.map_values(|p: crate::types::CrewPreview| p@) =~= before.push(
                    crew_preview_v(members, crews[i as int]),
                ));
                assert(before + (seq![crew_preview_v(members, crews[i as int])] + my_crews_v(
                    crews.skip(i as int + 1),
                    members,
                    uv,
                )) =~= before.push(crew_preview_v(members, crews[i as int])) + my_crews_v(
                    crews.skip(i as int + 1),
                    members,
                    uv,
                ));
            }
        }
        i = i + 1;
    }
    proof {
        assert(crews.skip(i as int) =~= Seq::<CrewV>::empty());
        assert(out@.map_values(|p: crate::types::CrewPreview| p@) + my_crews_v(
            crews.skip(i as int),
            members,
            uv,
        ) =~= out@.map_values(|p: crate::types::CrewPreview| p@));
    }
    Ok(out)
}

/// Redeeming the last use of an invite removes its row: with codes
/// unique, the code then no longer exists, so any further redemption
/// attempt fails as not found and inserts no membership row.
pub proof fn lemma_exhausted_invite_gone(invites: Seq<InviteV>, code: Seq<char>)
    requires
        forall|a: int, b: int| 0 <= a < b < invites.len() ==> invites[a].code != invites[b].code,
        find_invite(invites, code) is Some,
    ensures
        find_invite(invites.remove(find_invite(invites, code)->0), code) is None,
{
    lemma_find_idx(invites, invite_key(), code);
    let i = find_invite(invites, code)->0;
    let remaining = invites.remove(i);
    assert forall|j: int| 0 <= j < remaining.len() implies (invite_key())(remaining[j])
        != code by {
        if j < i {
            assert(remaining[j] == invites[j]);
        } else {
            assert(remaining[j] == invites[j + 1]);
        }
    }
    lemma_find_idx_none(remaining, invite_key(), code);
}

/// An invite whose counter has reached its bound admits nobody: for any
/// signed-in caller, redemption reports exhaustion.
pub proof fn lemma_exhausted_invite_rejects(
    crews: Seq<CrewV>,
    members: Seq<MemberV>,
    invites: Seq<InviteV>,
    user: Seq<char>,
    code: Seq<char>,
)
    requires
        find_invite(invites, code) is Some,
        invites[find_invite(invites, code)->0].used >= invites[find_invite(
            invites,
            code,
        )->0].max_uses,
        !is_member_spec(members, invites[find_invite(invites, code)->0].crew_id, user),
    ensures
        join_error(crews, members, invites, Some(user), code) == Some(AuthError::InviteExhausted),
{
}

} // verus!
