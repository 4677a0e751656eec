//! Character access: the ownership guard and every mutating operation it
//! gates, plus crew-scoped reads.
//!
//! Ownership is an exact match on the owning user; a caller who does not
//! own a character receives the same not-found error a missing character
//! gives, never a distinct "forbidden" signal.

use vstd::prelude::*;
use crate::description::Description;
use crate::errors::AuthError;
use crate::session::Identity;
use crate::store::{character_key, find_character, lemma_find_idx, Store};
use crate::types::{
    ArmorFlags, Background, Character, CharacterV, Class, Contacts, Dots, Harm, Heritage, Items,
    Load, TraumaFlags, Vice, XP,
};

verus! {

/// Whether the character `id` exists and belongs to `user`.
pub open spec fn owns_character(characters: Seq<CharacterV>, id: i32, user: Seq<char>) -> bool {
    match find_character(characters, id) {
        Some(i) => characters[i].user_id == user,
        None => false,
    }
}

/// What stands in the way of `identity` mutating character `id`.
pub open spec fn ownership_error(
    characters: Seq<CharacterV>,
    identity: Option<Seq<char>>,
    id: i32,
) -> Option<AuthError> {
    match identity {
        None => Some(AuthError::NotAuthenticated),
        Some(u) => if !owns_character(characters, id, u) {
            Some(AuthError::NotFound)
        } else {
            None
        },
    }
}

/// Checks that the character `id` exists and is owned by `username`.
pub fn is_own_character(store: &Store, id: i32, username: &str) -> (r: bool)
    ensures
        r == owns_character(store.characters_v(), id, username@),
{
    match store.character_index(id) {
        Some(i) => {
            proof {
                lemma_find_idx(store.characters_v(), character_key(), id);
            }
            crate::text::str_eq(store.characters[i].user_id.as_str(), username)
        },
        None => false,
    }
}

/// Resolves the ownership guard to the row index it protects.
fn require_owned(store: &Store, identity: &Identity, id: i32) -> (r: Result<usize, AuthError>)
    ensures
        match r {
            Ok(i) => {
                &&& ownership_error(store.characters_v(), identity@, id) is None
                &&& find_character(store.characters_v(), id) == Some(i as int)
                &&& store.characters_v()[i as int].user_id == identity@->0
            },
            Err(e) => ownership_error(store.characters_v(), identity@, id) == Some(e),
        },
{
    let user = match identity {
        Identity::Authenticated { username } => username,
        Identity::Anonymous => {
            return Err(AuthError::NotAuthenticated);
        },
    };
    match store.character_index(id) {
        Some(i) => {
            proof {
                lemma_find_idx(store.characters_v(), character_key(), id);
            }
            if crate::text::str_eq(store.characters[i].user_id.as_str(), user.as_str()) {
                Ok(i)
            } else {
                Err(AuthError::NotFound)
            }
        },
        None => Err(AuthError::NotFound),
    }
}

/// Replaces row `i` of the character table with `c`, which must keep the
/// row's id.
fn update_character_at(store: &mut Store, i: usize, c: Character)
    requires
        old(store).wf(),
        i < old(store).characters@.len(),
        c@.id == old(store).characters_v()[i as int].id,
    ensures
        final(store).wf(),
        final(store).users_v() == old(store).users_v(),
        final(store).sessions_v() == old(store).sessions_v(),
        final(store).crews_v() == old(store).crews_v(),
        final(store).members_v() == old(store).members_v(),
        final(store).invites_v() == old(store).invites_v(),
        final(store).next_session_id == old(store).next_session_id,
        final(store).next_crew_id == old(store).next_crew_id,
        final(store).next_character_id == old(store).next_character_id,
        final(store).characters_v() =~= old(store).characters_v().update(i as int, c@),
{
    let ghost cv = c@;
    store.characters.set(i, c);
    proof {
        assert(store.users_v() =~= old(store).users_v());
        assert(store.sessions_v() =~= old(store).sessions_v());
        assert(store.crews_v() =~= old(store).crews_v());
        assert(store.members_v() =~= old(store).members_v());
        assert(store.invites_v() =~= old(store).invites_v());
        let oldv = old(store).characters_v();
        let newv = store.characters_v();
        assert(newv =~= oldv.update(i as int, cv));
        assert forall|a: int, b: int| 0 <= a < b < newv.len() implies newv[a].id != newv[b].id by {
            if a != i as int {
                assert(newv[a] == oldv[a]);
            }
            if b != i as int {
                assert(newv[b] == oldv[b]);
            }
        }
        assert forall|a: int| 0 <= a < newv.len() implies 0 <= #[trigger] newv[a].id
            < store.next_character_id by {
            if a != i as int {
                assert(newv[a] == oldv[a]);
            }
        }
    }
}

/// The sheet a freshly created character starts with.
pub open spec fn new_character_v(
    id: i32,
    user_id: Seq<char>,
    crew_id: i32,
    name: Seq<char>,
    class: Class,
) -> CharacterV {
    CharacterV {
        id,
        user_id,
        crew_id,
        name,
        look: Seq::empty(),
        heritage: Heritage::Akoros,
        background: Background::Academic,
        vice: Vice::Gambling,
        stress: 0,
        trauma: TraumaFlags { bits: 0 },
        harm: crate::types::HarmV {
            lesser: seq![Seq::empty(), Seq::empty()],
            moderate: seq![Seq::empty(), Seq::empty()],
            severe: Seq::empty(),
        },
        healing: 0,
        armor: ArmorFlags { bits: 0 },
        notes: Seq::empty(),
        class,
        abilities: Seq::empty(),
        contacts: crate::types::ContactsV { friends: Seq::empty(), rivals: Seq::empty() },
        class_items: Seq::empty(),
        stash: 0,
        coin: 0,
        xp: XP { playbook: 0, insight: 0, prowess: 0, resolve: 0 },
        dots: Dots {
            hunt: 0,
            study: 0,
            survey: 0,
            tinker: 0,
            finesse: 0,
            prowl: 0,
            skirmish: 0,
            wreck: 0,
            attune: 0,
            command: 0,
            consort: 0,
            sway: 0,
        },
        load: None,
        items: Items { bits: 0 },
    }
}

/// Loads a character for a member of its crew.
///
/// The caller must be signed in and belong to the character's crew;
/// any failure is shaped as the character not existing.
pub fn get(store: &Store, id: i32, identity: &Identity) -> (r: Result<Character, AuthError>)
    ensures
        match r {
            Ok(c) => {
                &&& identity@ is Some
                &&& find_character(store.characters_v(), id) is Some
                &&& crate::crew::is_member_spec(
                    store.members_v(),
                    store.characters_v()[find_character(store.characters_v(), id)->0].crew_id,
                    identity@->0,
                )
                &&& c@ == store.characters_v()[find_character(store.characters_v(), id)->0]
            },
            Err(e) => match identity@ {
                None => e == AuthError::NotAuthenticated,
                Some(u) => {
                    &&& e == AuthError::NotFound
                    &&& match find_character(store.characters_v(), id) {
                        None => true,
                        Some(i) => !crate::crew::is_member_spec(
                            store.members_v(),
                            store.characters_v()[i].crew_id,
                            u,
                        ),
                    }
                },
            },
        },
{
    let user = match identity {
        Identity::Authenticated { username } => username,
        Identity::Anonymous => {
            return Err(AuthError::NotAuthenticated);
        },
    };
    let i = match store.character_index(id) {
        None => {
            return Err(AuthError::NotFound);
        },
        Some(i) => i,
    };
    proof {
        lemma_find_idx(store.characters_v(), character_key(), id);
    }
    if !crate::crew::is_in_crew(store, store.characters[i].crew_id, user.as_str()) {
        return Err(AuthError::NotFound);
    }
    let c = store.characters[i].clone();
    proof {
        assert(c@ =~~= store.characters_v()[i as int]);
    }
    Ok(c)
}

/// Creates a character in a crew the caller belongs to, with a blank
/// sheet and the given name, owner and playbook.
pub fn create(
    store: &mut Store,
    identity: &Identity,
    name: &str,
    crew_id: i32,
    user_id: &str,
    class: Class,
) -> (r: Result<Character, AuthError>)
    requires
        old(store).wf(),
    ensures
        final(store).wf(),
        final(store).users_v() == old(store).users_v(),
        final(store).sessions_v() == old(store).sessions_v(),
        final(store).crews_v() == old(store).crews_v(),
        final(store).members_v() == old(store).members_v(),
        final(store).invites_v() == old(store).invites_v(),
        final(store).next_session_id == old(store).next_session_id,
        final(store).next_crew_id == old(store).next_crew_id,
        match r {
            Ok(c) => {
                &&& identity@ is Some
                &&& crate::crew::is_member_spec(old(store).members_v(), crew_id, identity@->0)
                &&& old(store).next_character_id < i32::MAX
                &&& c@ == new_character_v(
                    old(store).next_character_id,
                    user_id@,
                    crew_id,
                    name@,
                    class,
                )
                &&& final(store).characters_v() =~= old(store).characters_v().push(c@)
                &&& final(store).next_character_id == old(store).next_character_id + 1
            },
            Err(e) => {
                &&& *final(store) == *old(store)
                &&& match identity@ {
                    None => e == AuthError::NotAuthenticated,
                    Some(u) => if !crate::crew::is_member_spec(old(store).members_v(), crew_id, u) {
                        e == AuthError::NotFound
                    } else {
                        e == AuthError::ServerError && old(store).next_character_id == i32::MAX
                    },
                }
            },
        },
{
    let user = match identity {
        Identity::Authenticated { username } => username,
        Identity::Anonymous => {
            return Err(AuthError::NotAuthenticated);
        },
    };
    if !crate::crew::is_in_crew(store, crew_id, user.as_str()) {
        return Err(AuthError::NotFound);
    }
    if store.next_character_id == i32::MAX {
        return Err(AuthError::ServerError);
    }
    let id = store.next_character_id;
    let c = Character {
        id,
        user_id: user_id.to_owned(),
        crew_id,
        name: name.to_owned(),
        look: Description::new(String::new()),
        heritage: Heritage::Akoros,
        background: Background::Academic,
        vice: Vice::Gambling,
        stress: 0,
        trauma: TraumaFlags::empty(),
        harm: Harm::default(),
        healing: 0,
        armor: ArmorFlags::empty(),
        notes: Description::new(String::new()),
        class,
        abilities: Vec::new(),
        contacts: Contacts { friends: Vec::new(), rivals: Vec::new() },
        class_items: Vec::new(),
        stash: 0,
        coin: 0,
        xp: XP { playbook: 0, insight: 0, prowess: 0, resolve: 0 },
        dots: Dots {
            hunt: 0,
            study: 0,
            survey: 0,
            tinker: 0,
            finesse: 0,
            prowl: 0,
            skirmish: 0,
            wreck: 0,
            attune: 0,
            command: 0,
            consort: 0,
            sway: 0,
        },
        load: None,
        items: Items::empty(),
    };
    proof {
        assert(c@ =~~= new_character_v(id, user_id@, crew_id, name@, class));
    }
    let result = c.clone();
    proof {
        assert(result@ =~~= c@);
    }
    store.characters.push(c);
    store.next_character_id = id + 1;
    proof {
        assert(store.users_v() =~= old(store).users_v());
        assert(store.sessions_v() =~= old(store).sessions_v());
        assert(store.crews_v() =~= old(store).crews_v());
        assert(store.members_v() =~= old(store).members_v());
        assert(store.invites_v() =~= old(store).invites_v());
        let oldv = old(store).characters_v();
        let newv = store.characters_v();
        assert(newv =~= oldv.push(new_character_v(id, user_id@, crew_id, name@, class)));
        assert forall|a: int, b: int| 0 <= a < b < newv.len() implies newv[a].id != newv[b].id by {
            if b < newv.len() - 1 {
                assert(newv[a] == oldv[a] && newv[b] == oldv[b]);
            } else {
                assert(newv[a] == oldv[a]);
            }
        }
        assert forall|a: int| 0 <= a < newv.len() implies 0 <= #[trigger] newv[a].id
            < store.next_character_id by {
            if a < newv.len() - 1 {
                assert(newv[a] == oldv[a]);
            }
        }
    }
    Ok(result)
}


/// The string sequence with every occurrence of `name` removed.
pub open spec fn remove_matching(xs: Seq<Seq<char>>, name: Seq<char>) -> Seq<Seq<char>>
    decreases xs.len(),
{
    if xs.len() == 0 {
        Seq::empty()
    } else if xs[0] == name {
        remove_matching(xs.drop_first(), name)
    } else {
        seq![xs[0]] + remove_matching(xs.drop_first(), name)
    }
}

/// Copies a string vector, dropping every occurrence of `name`.
fn remove_all_matching(v: &Vec<String>, name: &str) -> (r: Vec<String>)
    ensures
        r@.map_values(|s: String| s@) == remove_matching(v@.map_values(|s: String| s@), name@),
{
    let ghost vv = v@.map_values(|s: String| s@);
    let mut out: Vec<String> = Vec::new();
    let mut i: usize = 0;
    proof {
        assert(vv.skip(0) =~= vv);
        assert(out@.map_values(|s: String| s@) =~= Seq::<Seq<char>>::empty());
        assert(Seq::<Seq<char>>::empty() + remove_matching(vv, name@) =~= remove_matching(
            vv,
            name@,
        ));
    }
    while i < v.len()
        invariant
            i <= v@.len(),
            vv == v@.map_values(|s: String| s@),
            remove_matching(vv, name@) == out@.map_values(|s: String| s@) + remove_matching(
                vv.skip(i as int),
                name@,
            ),
        decreases v@.len() - i,
    {
        proof {
            assert(vv.skip(i as int).drop_first() =~= vv.skip(i as int + 1));
            assert(vv.skip(i as int)[0] == vv[i as int]);
        }
        if !crate::text::str_eq(v[i].as_str(), name) {
            let ghost before = out@.map_values(|s: String| s@);
            out.push(v[i].clone());
            proof {
                assert(out@.map_values(|s: String| s@) =~= before.push(vv[i as int]));
                assert(before + (seq![vv[i as int]] + remove_matching(
                    vv.skip(i as int + 1),
                    name@,
                )) =~= before.push(vv[i as int]) + remove_matching(vv.skip(i as int + 1), name@));
            }
        }
        i = i + 1;
    }
    proof {
        assert(vv.skip(i as int) =~= Seq::<Seq<char>>::empty());
        assert(out@.map_values(|s: String| s@) + remove_matching(vv.skip(i as int), name@)
            =~= out@.map_values(|s: String| s@));
    }
    out
}

/// Sets a character's heritage, background and vice, for its owner.
pub fn set_traits(
    store: &mut Store,
    identity: &Identity,
    id: i32,
    heritage: Heritage,
    background: Background,
    vice: Vice,
) -> (r: Result<(), AuthError>)
    requires
        old(store).wf(),
    ensures
        final(store).wf(),
        final(store).users_v() == old(store).users_v(),
        final(store).sessions_v() == old(store).sessions_v(),
        final(store).crews_v() == old(store).crews_v(),
        final(store).members_v() == old(store).members_v(),
        final(store).invites_v() == old(store).invites_v(),
        final(store).next_session_id == old(store).next_session_id,
        final(store).next_crew_id == old(store).next_crew_id,
        final(store).next_character_id == old(store).next_character_id,
        match r {
            Ok(()) => {
                &&& ownership_error(old(store).characters_v(), identity@, id) is None
                &&& {
                    let i = find_character(old(store).characters_v(), id)->0;
                    final(store).characters_v() =~= old(store).characters_v().update(
                        i,
                        CharacterV { heritage, background, vice, ..old(store).characters_v()[i] },
                    )
                }
            },
            Err(e) => *final(store) == *old(store) && ownership_error(
                old(store).characters_v(),
                identity@,
                id,
            ) == Some(e),
        },
{
    let i = match require_owned(store, identity, id) {
        Ok(i) => i,
        Err(e) => {
            return Err(e);
        },
    };
    proof {
        lemma_find_idx(store.characters_v(), character_key(), id);
    }
    let mut c = store.characters[i].clone();
    c.heritage = heritage;
    c.background = background;
    c.vice = vice;
    proof {
        assert(c@ =~~= (CharacterV {
            heritage,
            background,
            vice,
            ..old(store).characters_v()[i as int]
        }));
    }
    update_character_at(store, i, c);
    Ok(())
}


/// Sets a character's appearance text, for its owner.
pub fn set_look(
    store: &mut Store,
    identity: &Identity,
    id: i32,
    look: &str,
) -> (r: Result<(), AuthError>)
    requires
        old(store).wf(),
    ensures
        final(store).wf(),
        final(store).users_v() == old(store).users_v(),
        final(store).sessions_v() == old(store).sessions_v(),
        final(store).crews_v() == old(store).crews_v(),
        final(store).members_v() == old(store).members_v(),
        final(store).invites_v() == old(store).invites_v(),
        final(store).next_session_id == old(store).next_session_id,
        final(store).next_crew_id == old(store).next_crew_id,
        final(store).next_character_id == old(store).next_character_id,
        match r {
            Ok(()) => {
                &&& ownership_error(old(store).characters_v(), identity@, id) is None
                &&& {
                    let i = find_character(old(store).characters_v(), id)->0;
                    final(store).characters_v() =~= old(store).characters_v().update(
                        i,
                        (CharacterV { look: look@, ..old(store).characters_v()[i] }),
                    )
                }
            },
            Err(e) => *final(store) == *old(store) && ownership_error(
                old(store).characters_v(),
                identity@,
                id,
            ) == Some(e),
        },
{
    let i = match require_owned(store, identity, id) {
        Ok(i) => i,
        Err(e) => {
            return Err(e);
        },
    };
    proof {
        lemma_find_idx(store.characters_v(), character_key(), id);
    }
    let mut c = store.characters[i].clone();
    c.look = Description::new(look.to_owned());
    proof {
        assert(c@ =~~= (CharacterV { look: look@, ..old(store).characters_v()[i as int] }));
    }
    update_character_at(store, i, c);
    Ok(())
}


/// Sets a character's stress, trauma, healing clock and armor boxes,
/// for its owner.
pub fn set_stress_truama_healing_armor(
    store: &mut Store,
    identity: &Identity,
    id: i32,
    stress: u8,
    trauma: TraumaFlags,
    healing: u8,
    armor: ArmorFlags,
) -> (r: Result<(), AuthError>)
    requires
        old(store).wf(),
    ensures
        final(store).wf(),
        final(store).users_v() == old(store).users_v(),
        final(store).sessions_v() == old(store).sessions_v(),
        final(store).crews_v() == old(store).crews_v(),
        final(store).members_v() == old(store).members_v(),
        final(store).invites_v() == old(store).invites_v(),
        final(store).next_session_id == old(store).next_session_id,
        final(store).next_crew_id == old(store).next_crew_id,
        final(store).next_character_id == old(store).next_character_id,
        match r {
            Ok(()) => {
                &&& ownership_error(old(store).characters_v(), identity@, id) is None
                &&& {
                    let i = find_character(old(store).characters_v(), id)->0;
                    final(store).characters_v() =~= old(store).characters_v().update(
                        i,
                        (CharacterV { stress, trauma, healing, armor, ..old(store).characters_v()[i] }),
                    )
                }
            },
            Err(e) => *final(store) == *old(store) && ownership_error(
                old(store).characters_v(),
                identity@,
                id,
            ) == Some(e),
        },
{
    let i = match require_owned(store, identity, id) {
        Ok(i) => i,
        Err(e) => {
            return Err(e);
        },
    };
    proof {
        lemma_find_idx(store.characters_v(), character_key(), id);
    }
    let mut c = store.characters[i].clone();
    c.stress = stress;
    c.trauma = trauma;
    c.healing = healing;
    c.armor = armor;
    proof {
        assert(c@ =~~= (CharacterV { stress, trauma, healing, armor, ..old(store).characters_v()[i as int] }));
    }
    update_character_at(store, i, c);
    Ok(())
}


/// Sets a character's harm slots, for its owner.
pub fn set_harm(
    store: &mut Store,
    identity: &Identity,
    id: i32,
    harm: Harm,
) -> (r: Result<(), AuthError>)
    requires
        old(store).wf(),
    ensures
        final(store).wf(),
        final(store).users_v() == old(store).users_v(),
        final(store).sessions_v() == old(store).sessions_v(),
        final(store).crews_v() == old(store).crews_v(),
        final(store).members_v() == old(store).members_v(),
        final(store).invites_v() == old(store).invites_v(),
        final(store).next_session_id == old(store).next_session_id,
        final(store).next_crew_id == old(store).next_crew_id,
        final(store).next_character_id == old(store).next_character_id,
        match r {
            Ok(()) => {
                &&& ownership_error(old(store).characters_v(), identity@, id) is None
                &&& {
                    let i = find_character(old(store).characters_v(), id)->0;
                    final(store).characters_v() =~= old(store).characters_v().update(
                        i,
                        (CharacterV { harm: harm@, ..old(store).characters_v()[i] }),
                    )
                }
            },
            Err(e) => *final(store) == *old(store) && ownership_error(
                old(store).characters_v(),
                identity@,
                id,
            ) == Some(e),
        },
{
    let i = match require_owned(store, identity, id) {
        Ok(i) => i,
        Err(e) => {
            return Err(e);
        },
    };
    proof {
        lemma_find_idx(store.characters_v(), character_key(), id);
    }
    let mut c = store.characters[i].clone();
    c.harm = harm;
    proof {
        assert(c@ =~~= (CharacterV { harm: harm@, ..old(store).characters_v()[i as int] }));
    }
    update_character_at(store, i, c);
    Ok(())
}


/// Sets a character's notes, for its owner.
pub fn set_description(
    store: &mut Store,
    identity: &Identity,
    id: i32,
    notes: &str,
) -> (r: Result<(), AuthError>)
    requires
        old(store).wf(),
    ensures
        final(store).wf(),
        final(store).users_v() == old(store).users_v(),
        final(store).sessions_v() == old(store).sessions_v(),
        final(store).crews_v() == old(store).crews_v(),
        final(store).members_v() == old(store).members_v(),
        final(store).invites_v() == old(store).invites_v(),
        final(store).next_session_id == old(store).next_session_id,
        final(store).next_crew_id == old(store).next_crew_id,
        final(store).next_character_id == old(store).next_character_id,
        match r {
            Ok(()) => {
                &&& ownership_error(old(store).characters_v(), identity@, id) is None
                &&& {
                    let i = find_character(old(store).characters_v(), id)->0;
                    final(store).characters_v() =~= old(store).characters_v().update(
                        i,
                        (CharacterV { notes: notes@, ..old(store).characters_v()[i] }),
                    )
                }
            },
            Err(e) => *final(store) == *old(store) && ownership_error(
                old(store).characters_v(),
                identity@,
                id,
            ) == Some(e),
        },
{
    let i = match require_owned(store, identity, id) {
        Ok(i) => i,
        Err(e) => {
            return Err(e);
        },
    };
    proof {
        lemma_find_idx(store.characters_v(), character_key(), id);
    }
    let mut c = store.characters[i].clone();
    c.notes = Description::new(notes.to_owned());
    proof {
        assert(c@ =~~= (CharacterV { notes: notes@, ..old(store).characters_v()[i as int] }));
    }
    update_character_at(store, i, c);
    Ok(())
}


/// Adds a special ability to a character, for its owner.
pub fn add_ability(
    store: &mut Store,
    identity: &Identity,
    id: i32,
    name: &str,
) -> (r: Result<(), AuthError>)
    requires
        old(store).wf(),
    ensures
        final(store).wf(),
        final(store).users_v() == old(store).users_v(),
        final(store).sessions_v() == old(store).sessions_v(),
        final(store).crews_v() == old(store).crews_v(),
        final(store).members_v() == old(store).members_v(),
        final(store).invites_v() == old(store).invites_v(),
        final(store).next_session_id == old(store).next_session_id,
        final(store).next_crew_id == old(store).next_crew_id,
        final(store).next_character_id == old(store).next_character_id,
        match r {
            Ok(()) => {
                &&& ownership_error(old(store).characters_v(), identity@, id) is None
                &&& {
                    let i = find_character(old(store).characters_v(), id)->0;
                    final(store).characters_v() =~= old(store).characters_v().update(
                        i,
                        (CharacterV { abilities: old(store).characters_v()[i].abilities.push(name@), ..old(store).characters_v()[i] }),
                    )
                }
            },
            Err(e) => *final(store) == *old(store) && ownership_error(
                old(store).characters_v(),
                identity@,
                id,
            ) == Some(e),
        },
{
    let i = match require_owned(store, identity, id) {
        Ok(i) => i,
        Err(e) => {
            return Err(e);
        },
    };
    proof {
        lemma_find_idx(store.characters_v(), character_key(), id);
    }
    let mut c = store.characters[i].clone();
    let ghost before = c@.abilities;
    c.abilities.push(name.to_owned());
    proof {
        assert(c@.abilities =~= before.push(name@));
        assert(c@ =~~= (CharacterV { abilities: old(store).characters_v()[i as int].abilities.push(name@), ..old(store).characters_v()[i as int] }));
    }
    update_character_at(store, i, c);
    Ok(())
}


/// Removes every copy of a special ability from a character, for its
/// owner.
pub fn remove_ability(
    store: &mut Store,
    identity: &Identity,
    id: i32,
    name: &str,
) -> (r: Result<(), AuthError>)
    requires
        old(store).wf(),
    ensures
        final(store).wf(),
        final(store).users_v() == old(store).users_v(),
        final(store).sessions_v() == old(store).sessions_v(),
        final(store).crews_v() == old(store).crews_v(),
        final(store).members_v() == old(store).members_v(),
        final(store).invites_v() == old(store).invites_v(),
        final(store).next_session_id == old(store).next_session_id,
        final(store).next_crew_id == old(store).next_crew_id,
        final(store).next_character_id == old(store).next_character_id,
        match r {
            Ok(()) => {
                &&& ownership_error(old(store).characters_v(), identity@, id) is None
                &&& {
                    let i = find_character(old(store).characters_v(), id)->0;
                    final(store).characters_v() =~= old(store).characters_v().update(
                        i,
                        (CharacterV { abilities: remove_matching(old(store).characters_v()[i].abilities, name@), ..old(store).characters_v()[i] }),
                    )
                }
            },
            Err(e) => *final(store) == *old(store) && ownership_error(
                old(store).characters_v(),
                identity@,
                id,
            ) == Some(e),
        },
{
    let i = match require_owned(store, identity, id) {
        Ok(i) => i,
        Err(e) => {
            return Err(e);
        },
    };
    proof {
        lemma_find_idx(store.characters_v(), character_key(), id);
    }
    let mut c = store.characters[i].clone();
    c.abilities = remove_all_matching(&c.abilities, name);
    proof {
        assert(c@ =~~= (CharacterV { abilities: remove_matching(old(store).characters_v()[i as int].abilities, name@), ..old(store).characters_v()[i as int] }));
    }
    update_character_at(store, i, c);
    Ok(())
}


/// Adds a friend or rival to a character's contacts, for its owner.
pub fn add_contact(
    store: &mut Store,
    identity: &Identity,
    id: i32,
    name: &str,
    friend: bool,
) -> (r: Result<(), AuthError>)
    requires
        old(store).wf(),
    ensures
        final(store).wf(),
        final(store).users_v() == old(store).users_v(),
        final(store).sessions_v() == old(store).sessions_v(),
        final(store).crews_v() == old(store).crews_v(),
        final(store).members_v() == old(store).members_v(),
        final(store).invites_v() == old(store).invites_v(),
        final(store).next_session_id == old(store).next_session_id,
        final(store).next_crew_id == old(store).next_crew_id,
        final(store).next_character_id == old(store).next_character_id,
        match r {
            Ok(()) => {
                &&& ownership_error(old(store).characters_v(), identity@, id) is None
                &&& {
                    let i = find_character(old(store).characters_v(), id)->0;
                    final(store).characters_v() =~= old(store).characters_v().update(
                        i,
                        (CharacterV {
                            contacts: (if friend {
                                crate::types::ContactsV {
                                    friends: old(store).characters_v()[i].contacts.friends.push(name@),
                                    rivals: old(store).characters_v()[i].contacts.rivals,
                                }
                            } else {
                                crate::types::ContactsV {
                                    friends: old(store).characters_v()[i].contacts.friends,
                                    rivals: old(store).characters_v()[i].contacts.rivals.push(name@),
                                }
                            }),
                            ..old(store).characters_v()[i]
                        }),
                    )
                }
            },
            Err(e) => *final(store) == *old(store) && ownership_error(
                old(store).characters_v(),
                identity@,
                id,
            ) == Some(e),
        },
{
    let i = match require_owned(store, identity, id) {
        Ok(i) => i,
        Err(e) => {
            return Err(e);
        },
    };
    proof {
        lemma_find_idx(store.characters_v(), character_key(), id);
    }
    let mut c = store.characters[i].clone();
    let ghost before = c@.contacts;
    if friend {
        c.contacts.friends.push(name.to_owned());
        proof {
            assert(c@.contacts.friends =~= before.friends.push(name@));
        }
    } else {
        c.contacts.rivals.push(name.to_owned());
        proof {
            assert(c@.contacts.rivals =~= before.rivals.push(name@));
        }
    }
    proof {
        assert(c@ =~~= (CharacterV {
                            contacts: (if friend {
                                crate::types::ContactsV {
                                    friends: old(store).characters_v()[i as int].contacts.friends.push(name@),
                                    rivals: old(store).characters_v()[i as int].contacts.rivals,
                                }
                            } else {
                                crate::types::ContactsV {
                                    friends: old(store).characters_v()[i as int].contacts.friends,
                                    rivals: old(store).characters_v()[i as int].contacts.rivals.push(name@),
                                }
                            }),
                            ..old(store).characters_v()[i as int]
                        }));
    }
    update_character_at(store, i, c);
    Ok(())
}


/// Removes every matching friend or rival from a character's contacts,
/// for its owner.
pub fn remove_contact(
    store: &mut Store,
    identity: &Identity,
    id: i32,
    name: &str,
    friend: bool,
) -> (r: Result<(), AuthError>)
    requires
        old(store).wf(),
    ensures
        final(store).wf(),
        final(store).users_v() == old(store).users_v(),
        final(store).sessions_v() == old(store).sessions_v(),
        final(store).crews_v() == old(store).crews_v(),
        final(store).members_v() == old(store).members_v(),
        final(store).invites_v() == old(store).invites_v(),
        final(store).next_session_id == old(store).next_session_id,
        final(store).next_crew_id == old(store).next_crew_id,
        final(store).next_character_id == old(store).next_character_id,
        match r {
            Ok(()) => {
                &&& ownership_error(old(store).characters_v(), identity@, id) is None
                &&& {
                    let i = find_character(old(store).characters_v(), id)->0;
                    final(store).characters_v() =~= old(store).characters_v().update(
                        i,
                        (CharacterV {
                            contacts: (if friend {
                                crate::types::ContactsV {
                                    friends: remove_matching(old(store).characters_v()[i].contacts.friends, name@),
                                    rivals: old(store).characters_v()[i].contacts.rivals,
                                }
                            } else {
                                crate::types::ContactsV {
                                    friends: old(store).characters_v()[i].contacts.friends,
                                    rivals: remove_matching(old(store).characters_v()[i].contacts.rivals, name@),
                                }
                            }),
                            ..old(store).characters_v()[i]
                        }),
                    )
                }
            },
            Err(e) => *final(store) == *old(store) && ownership_error(
                old(store).characters_v(),
                identity@,
                id,
            ) == Some(e),
        },
{
    let i = match require_owned(store, identity, id) {
        Ok(i) => i,
        Err(e) => {
            return Err(e);
        },
    };
    proof {
        lemma_find_idx(store.characters_v(), character_key(), id);
    }
    let mut c = store.characters[i].clone();
    if friend {
        c.contacts.friends = remove_all_matching(&c.contacts.friends, name);
    } else {
        c.contacts.rivals = remove_all_matching(&c.contacts.rivals, name);
    }
    proof {
        assert(c@ =~~= (CharacterV {
                            contacts: (if friend {
                                crate::types::ContactsV {
                                    friends: remove_matching(old(store).characters_v()[i as int].contacts.friends, name@),
                                    rivals: old(store).characters_v()[i as int].contacts.rivals,
                                }
                            } else {
                                crate::types::ContactsV {
                                    friends: old(store).characters_v()[i as int].contacts.friends,
                                    rivals: remove_matching(old(store).characters_v()[i as int].contacts.rivals, name@),
                                }
                            }),
                            ..old(store).characters_v()[i as int]
                        }));
    }
    update_character_at(store, i, c);
    Ok(())
}


/// Adds a playbook item to a character, for its owner.
pub fn add_class_item(
    store: &mut Store,
    identity: &Identity,
    id: i32,
    name: &str,
) -> (r: Result<(), AuthError>)
    requires
        old(store).wf(),
    ensures
        final(store).wf(),
        final(store).users_v() == old(store).users_v(),
        final(store).sessions_v() == old(store).sessions_v(),
        final(store).crews_v() == old(store).crews_v(),
        final(store).members_v() == old(store).members_v(),
        final(store).invites_v() == old(store).invites_v(),
        final(store).next_session_id == old(store).next_session_id,
        final(store).next_crew_id == old(store).next_crew_id,
        final(store).next_character_id == old(store).next_character_id,
        match r {
            Ok(()) => {
                &&& ownership_error(old(store).characters_v(), identity@, id) is None
                &&& {
                    let i = find_character(old(store).characters_v(), id)->0;
                    final(store).characters_v() =~= old(store).characters_v().update(
                        i,
                        (CharacterV { class_items: old(store).characters_v()[i].class_items.push(name@), ..old(store).characters_v()[i] }),
                    )
                }
            },
            Err(e) => *final(store) == *old(store) && ownership_error(
                old(store).characters_v(),
                identity@,
                id,
            ) == Some(e),
        },
{
    let i = match require_owned(store, identity, id) {
        Ok(i) => i,
        Err(e) => {
            return Err(e);
        },
    };
    proof {
        lemma_find_idx(store.characters_v(), character_key(), id);
    }
    let mut c = store.characters[i].clone();
    let ghost before = c@.class_items;
    c.class_items.push(name.to_owned());
    proof {
        assert(c@.class_items =~= before.push(name@));
        assert(c@ =~~= (CharacterV { class_items: old(store).characters_v()[i as int].class_items.push(name@), ..old(store).characters_v()[i as int] }));
    }
    update_character_at(store, i, c);
    Ok(())
}


/// Removes every copy of a playbook item from a character, for its
/// owner.
pub fn remove_class_item(
    store: &mut Store,
    identity: &Identity,
    id: i32,
    name: &str,
) -> (r: Result<(), AuthError>)
    requires
        old(store).wf(),
    ensures
        final(store).wf(),
        final(store).users_v() == old(store).users_v(),
        final(store).sessions_v() == old(store).sessions_v(),
        final(store).crews_v() == old(store).crews_v(),
        final(store).members_v() == old(store).members_v(),
        final(store).invites_v() == old(store).invites_v(),
        final(store).next_session_id == old(store).next_session_id,
        final(store).next_crew_id == old(store).next_crew_id,
        final(store).next_character_id == old(store).next_character_id,
        match r {
            Ok(()) => {
                &&& ownership_error(old(store).characters_v(), identity@, id) is None
                &&& {
                    let i = find_character(old(store).characters_v(), id)->0;
                    final(store).characters_v() =~= old(store).characters_v().update(
                        i,
                        (CharacterV { class_items: remove_matching(old(store).characters_v()[i].class_items, name@), ..old(store).characters_v()[i] }),
                    )
                }
            },
            Err(e) => *final(store) == *old(store) && ownership_error(
                old(store).characters_v(),
                identity@,
                id,
            ) == Some(e),
        },
{
    let i = match require_owned(store, identity, id) {
        Ok(i) => i,
        Err(e) => {
            return Err(e);
        },
    };
    proof {
        lemma_find_idx(store.characters_v(), character_key(), id);
    }
    let mut c = store.characters[i].clone();
    c.class_items = remove_all_matching(&c.class_items, name);
    proof {
        assert(c@ =~~= (CharacterV { class_items: remove_matching(old(store).characters_v()[i as int].class_items, name@), ..old(store).characters_v()[i as int] }));
    }
    update_character_at(store, i, c);
    Ok(())
}


/// Sets a character's coin on hand and stash, for its owner.
pub fn set_coin_stash(
    store: &mut Store,
    identity: &Identity,
    id: i32,
    coin: u8,
    stash: u8,
) -> (r: Result<(), AuthError>)
    requires
        old(store).wf(),
    ensures
        final(store).wf(),
        final(store).users_v() == old(store).users_v(),
        final(store).sessions_v() == old(store).sessions_v(),
        final(store).crews_v() == old(store).crews_v(),
        final(store).members_v() == old(store).members_v(),
        final(store).invites_v() == old(store).invites_v(),
        final(store).next_session_id == old(store).next_session_id,
        final(store).next_crew_id == old(store).next_crew_id,
        final(store).next_character_id == old(store).next_character_id,
        match r {
            Ok(()) => {
                &&& ownership_error(old(store).characters_v(), identity@, id) is None
                &&& {
                    let i = find_character(old(store).characters_v(), id)->0;
                    final(store).characters_v() =~= old(store).characters_v().update(
                        i,
                        (CharacterV { coin, stash, ..old(store).characters_v()[i] }),
                    )
                }
            },
            Err(e) => *final(store) == *old(store) && ownership_error(
                old(store).characters_v(),
                identity@,
                id,
            ) == Some(e),
        },
{
    let i = match require_owned(store, identity, id) {
        Ok(i) => i,
        Err(e) => {
            return Err(e);
        },
    };
    proof {
        lemma_find_idx(store.characters_v(), character_key(), id);
    }
    let mut c = store.characters[i].clone();
    c.coin = coin;
    c.stash = stash;
    proof {
        assert(c@ =~~= (CharacterV { coin, stash, ..old(store).characters_v()[i as int] }));
    }
    update_character_at(store, i, c);
    Ok(())
}


/// Sets a character's experience tracks, for its owner.
pub fn set_xp(
    store: &mut Store,
    identity: &Identity,
    id: i32,
    xp: XP,
) -> (r: Result<(), AuthError>)
    requires
        old(store).wf(),
    ensures
        final(store).wf(),
        final(store).users_v() == old(store).users_v(),
        final(store).sessions_v() == old(store).sessions_v(),
        final(store).crews_v() == old(store).crews_v(),
        final(store).members_v() == old(store).members_v(),
        final(store).invites_v() == old(store).invites_v(),
        final(store).next_session_id == old(store).next_session_id,
        final(store).next_crew_id == old(store).next_crew_id,
        final(store).next_character_id == old(store).next_character_id,
        match r {
            Ok(()) => {
                &&& ownership_error(old(store).characters_v(), identity@, id) is None
                &&& {
                    let i = find_character(old(store).characters_v(), id)->0;
                    final(store).characters_v() =~= old(store).characters_v().update(
                        i,
                        (CharacterV { xp, ..old(store).characters_v()[i] }),
                    )
                }
            },
            Err(e) => *final(store) == *old(store) && ownership_error(
                old(store).characters_v(),
                identity@,
                id,
            ) == Some(e),
        },
{
    let i = match require_owned(store, identity, id) {
        Ok(i) => i,
        Err(e) => {
            return Err(e);
        },
    };
    proof {
        lemma_find_idx(store.characters_v(), character_key(), id);
    }
    let mut c = store.characters[i].clone();
    c.xp = xp;
    proof {
        assert(c@ =~~= (CharacterV { xp, ..old(store).characters_v()[i as int] }));
    }
    update_character_at(store, i, c);
    Ok(())
}


/// Sets a character's action ratings, for its owner.
pub fn set_dots(
    store: &mut Store,
    identity: &Identity,
    id: i32,
    dots: Dots,
) -> (r: Result<(), AuthError>)
    requires
        old(store).wf(),
    ensures
        final(store).wf(),
        final(store).users_v() == old(store).users_v(),
        final(store).sessions_v() == old(store).sessions_v(),
        final(store).crews_v() == old(store).crews_v(),
        final(store).members_v() == old(store).members_v(),
        final(store).invites_v() == old(store).invites_v(),
        final(store).next_session_id == old(store).next_session_id,
        final(store).next_crew_id == old(store).next_crew_id,
        final(store).next_character_id == old(store).next_character_id,
        match r {
            Ok(()) => {
                &&& ownership_error(old(store).characters_v(), identity@, id) is None
                &&& {
                    let i = find_character(old(store).characters_v(), id)->0;
                    final(store).characters_v() =~= old(store).characters_v().update(
                        i,
                        (CharacterV { dots, ..old(store).characters_v()[i] }),
                    )
                }
            },
            Err(e) => *final(store) == *old(store) && ownership_error(
                old(store).characters_v(),
                identity@,
                id,
            ) == Some(e),
        },
{
    let i = match require_owned(store, identity, id) {
        Ok(i) => i,
        Err(e) => {
            return Err(e);
        },
    };
    proof {
        lemma_find_idx(store.characters_v(), character_key(), id);
    }
    let mut c = store.characters[i].clone();
    c.dots = dots;
    proof {
        assert(c@ =~~= (CharacterV { dots, ..old(store).characters_v()[i as int] }));
    }
    update_character_at(store, i, c);
    Ok(())
}


/// Sets how much a character is carrying, for its owner.
pub fn set_load(
    store: &mut Store,
    identity: &Identity,
    id: i32,
    load: Option<Load>,
) -> (r: Result<(), AuthError>)
    requires
        old(store).wf(),
    ensures
        final(store).wf(),
        final(store).users_v() == old(store).users_v(),
        final(store).sessions_v() == old(store).sessions_v(),
        final(store).crews_v() == old(store).crews_v(),
        final(store).members_v() == old(store).members_v(),
        final(store).invites_v() == old(store).invites_v(),
        final(store).next_session_id == old(store).next_session_id,
        final(store).next_crew_id == old(store).next_crew_id,
        final(store).next_character_id == old(store).next_character_id,
        match r {
            Ok(()) => {
                &&& ownership_error(old(store).characters_v(), identity@, id) is None
                &&& {
                    let i = find_character(old(store).characters_v(), id)->0;
                    final(store).characters_v() =~= old(store).characters_v().update(
                        i,
                        (CharacterV { load, ..old(store).characters_v()[i] }),
                    )
                }
            },
            Err(e) => *final(store) == *old(store) && ownership_error(
                old(store).characters_v(),
                identity@,
                id,
            ) == Some(e),
        },
{
    let i = match require_owned(store, identity, id) {
        Ok(i) => i,
        Err(e) => {
            return Err(e);
        },
    };
    proof {
        lemma_find_idx(store.characters_v(), character_key(), id);
    }
    let mut c = store.characters[i].clone();
    c.load = load;
    proof {
        assert(c@ =~~= (CharacterV { load, ..old(store).characters_v()[i as int] }));
    }
    update_character_at(store, i, c);
    Ok(())
}


/// Sets which standard items a character carries, for its owner.
pub fn set_items(
    store: &mut Store,
    identity: &Identity,
    id: i32,
    items: Items,
) -> (r: Result<(), AuthError>)
    requires
        old(store).wf(),
    ensures
        final(store).wf(),
        final(store).users_v() == old(store).users_v(),
        final(store).sessions_v() == old(store).sessions_v(),
        final(store).crews_v() == old(store).crews_v(),
        final(store).members_v() == old(store).members_v(),
        final(store).invites_v() == old(store).invites_v(),
        final(store).next_session_id == old(store).next_session_id,
        final(store).next_crew_id == old(store).next_crew_id,
        final(store).next_character_id == old(store).next_character_id,
        match r {
            Ok(()) => {
                &&& ownership_error(old(store).characters_v(), identity@, id) is None
                &&& {
                    let i = find_character(old(store).characters_v(), id)->0;
                    final(store).characters_v() =~= old(store).characters_v().update(
                        i,
                        (CharacterV { items, ..old(store).characters_v()[i] }),
                    )
                }
            },
            Err(e) => *final(store) == *old(store) && ownership_error(
                old(store).characters_v(),
                identity@,
                id,
            ) == Some(e),
        },
{
    let i = match require_owned(store, identity, id) {
        Ok(i) => i,
        Err(e) => {
            return Err(e);
        },
    };
    proof {
        lemma_find_idx(store.characters_v(), character_key(), id);
    }
    let mut c = store.characters[i].clone();
    c.items = items;
    proof {
        assert(c@ =~~= (CharacterV { items, ..old(store).characters_v()[i as int] }));
    }
    update_character_at(store, i, c);
    Ok(())
}

/// What a crew roster shows of one character: its sheet header and the
/// display name its player goes by inside the crew.
pub open spec fn character_preview_v(
    members: Seq<crate::store::MemberV>,
    crew_id: i32,
    c: CharacterV,
) -> crate::types::CharacterPreviewV {
    crate::types::CharacterPreviewV {
        id: c.id,
        player_id: c.user_id,
        player_name: (match crate::store::find_member(members, crew_id, c.user_id) {
            Some(m) => members[m].display_name,
            None => "Failed to load player name"@,
        }),
        crew_id,
        name: c.name,
        class: c.class,
    }
}

/// The previews of every character in crew `crew_id`, in table order.
pub open spec fn crew_characters_v(
    characters: Seq<CharacterV>,
    members: Seq<crate::store::MemberV>,
    crew_id: i32,
) -> Seq<crate::types::CharacterPreviewV>
    decreases characters.len(),
{
    if characters.len() == 0 {
        Seq::empty()
    } else if characters[0].crew_id == crew_id {
        seq![character_preview_v(members, crew_id, characters[0])] + crew_characters_v(
            characters.drop_first(),
            members,
            crew_id,
        )
    } else {
        crew_characters_v(characters.drop_first(), members, crew_id)
    }
}

/// Lists a crew's characters, for one of the crew's members.
pub fn get_crew_characters(store: &Store, identity: &Identity, crew_id: i32) -> (r: Result<
    Vec<crate::types::CharacterPreview>,
    AuthError,
>)
    ensures
        match r {
            Ok(list) => {
                &&& identity@ is Some
                &&& crate::crew::is_member_spec(store.members_v(), crew_id, identity@->0)
                &&& list@.map_values(|p: crate::types::CharacterPreview| p@)
                    == crew_characters_v(store.characters_v(), store.members_v(), crew_id)
            },
            Err(e) => match identity@ {
                None => e == AuthError::NotAuthenticated,
                Some(u) => e == AuthError::NotFound && !crate::crew::is_member_spec(
                    store.members_v(),
                    crew_id,
                    u,
                ),
            },
        },
{
    let user = match identity {
        Identity::Authenticated { username } => username,
        Identity::Anonymous => {
            return Err(AuthError::NotAuthenticated);
        },
    };
    if !crate::crew::is_in_crew(store, crew_id, user.as_str()) {
        return Err(AuthError::NotFound);
    }
    let ghost chars = store.characters_v();
    let ghost members = store.members_v();
    let mut out: Vec<crate::types::CharacterPreview> = Vec::new();
    let mut i: usize = 0;
    proof {
        assert(chars.skip(0) =~= chars);
        assert(out@.map_values(|p: crate::types::CharacterPreview| p@) =~= Seq::<
            crate::types::CharacterPreviewV,
        >::empty());
        assert(Seq::<crate::types::CharacterPreviewV>::empty() + crew_characters_v(
            chars,
            members,
            crew_id,
        ) =~= crew_characters_v(chars, members, crew_id));
    }
    while i < store.characters.len()
        invariant
            i <= store.characters@.len(),
            chars == store.characters_v(),
            members == store.members_v(),
            crew_characters_v(chars, members, crew_id) == out@.map_values(
                |p: crate::types::CharacterPreview| p@,
            ) + crew_characters_v(chars.skip(i as int), members, crew_id),
        decreases store.characters@.len() - i,
    {
        proof {
            assert(chars.skip(i as int).drop_first() =~= chars.skip(i as int + 1));
            assert(chars.skip(i as int)[0] == chars[i as int]);
        }
        if store.characters[i].crew_id == crew_id {
            let player_name = match store.member_index(
                crew_id,
                store.characters[i].user_id.as_str(),
            ) {
                Some(m) => {
                    proof {
                        lemma_find_idx(
                            store.members_v(),
                            crate::store::member_key(),
                            (crew_id, store.characters@[i as int]@.user_id),
                        );
                    }
                    store.members[m].display_name.clone()
                },
                None => "Failed to load player name".to_owned(),
            };
            let preview = crate::types::CharacterPreview {
                id: store.characters[i].id,
                player_id: store.characters[i].user_id.clone(),
                player_name,
                crew_id,
                name: store.characters[i].name.clone(),
                class: store.characters[i].class,
            };
            let ghost before = out@.map_values(|p: crate::types::CharacterPreview| p@);
            proof {
                assert(preview@ =~= character_preview_v(members, crew_id, chars[i as int]));
            }
            out.push(preview);
            proof {
                assert(out@.map_values(|p: crate::types::CharacterPreview| p@) =~= before.push(
                    character_preview_v(members, crew_id, chars[i as int]),
                ));
                assert(before + (seq![character_preview_v(members, crew_id, chars[i as int])]
                    + crew_characters_v(chars.skip(i as int + 1), members, crew_id)) =~= before.push(
                    character_preview_v(members, crew_id, chars[i as int]),
                ) + crew_characters_v(chars.skip(i as int + 1), members, crew_id));
            }
        }
        i = i + 1;
    }
    proof {
        assert(chars.skip(i as int) =~= Seq::<CharacterV>::empty());
        assert(out@.map_values(|p: crate::types::CharacterPreview| p@) + crew_characters_v(
            chars.skip(i as int),
            members,
            crew_id,
        ) =~= out@.map_values(|p: crate::types::CharacterPreview| p@));
    }
    Ok(out)
}

/// Ownership isolation: a signed-in user can never read or mutate a
/// character owned by someone else, and the refusal is the very error a
/// nonexistent character gives, so it confirms nothing.
pub proof fn lemma_ownership_isolation(
    characters: Seq<CharacterV>,
    caller: Seq<char>,
    owner: Seq<char>,
    id: i32,
    missing_id: i32,
)
    requires
        find_character(characters, id) is Some,
        characters[find_character(characters, id)->0].user_id == owner,
        caller != owner,
        find_character(characters, missing_id) is None,
    ensures
        ownership_error(characters, Some(caller), id) == Some(AuthError::NotFound),
        ownership_error(characters, Some(caller), id) == ownership_error(
            characters,
            Some(caller),
            missing_id,
        ),
{
}

} // verus!
