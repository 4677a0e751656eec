//! The credential store: every record the identity and access subsystem
//! persists, held as explicit in-memory tables.
//!
//! Lookups are specified through [`find_idx`], a first-match search over a
//! table's mathematical view; the well-formedness predicate [`Store::wf`]
//! keeps every key column free of duplicates, so the first match is the
//! only match.

use vstd::prelude::*;
use crate::text::str_eq;
use crate::types::{Character, CharacterV, Crew, CrewV};

verus! {

/// The index of the first element of `s` whose key `f` equals `k`.
pub open spec fn find_idx<T, K>(s: Seq<T>, f: spec_fn(T) -> K, k: K) -> Option<int>
    decreases s.len(),
{
    if s.len() == 0 {
        None
    } else if f(s[0]) == k {
        Some(0int)
    } else {
        match find_idx(s.drop_first(), f, k) {
            Some(i) => Some(i + 1),
            None => None,
        }
    }
}

/// What a [`find_idx`] result says about the sequence.
pub proof fn lemma_find_idx<T, K>(s: Seq<T>, f: spec_fn(T) -> K, k: K)
    ensures
        match find_idx(s, f, k) {
            Some(i) => 0 <= i < s.len() && f(s[i]) == k && (forall|j: int|
                0 <= j < i ==> f(s[j]) != k),
            None => forall|j: int| 0 <= j < s.len() ==> f(s[j]) != k,
        },
    decreases s.len(),
{
    if s.len() == 0 {
    } else if f(s[0]) == k {
        assert(find_idx(s, f, k) == Some(0int));
    } else {
        let rest = s.drop_first();
        lemma_find_idx(rest, f, k);
        assert(forall|j: int| 0 <= j < rest.len() ==> #[trigger] rest[j] == s[j + 1]);
        match find_idx(rest, f, k) {
            Some(i) => {
                assert(find_idx(s, f, k) == Some(i + 1));
                assert(f(s[i + 1]) == k);
                assert forall|j: int| 0 <= j < i + 1 implies f(s[j]) != k by {
                    if j > 0 {
                        assert(s[j] == rest[j - 1]);
                    }
                }
            },
            None => {
                assert forall|j: int| 0 <= j < s.len() implies f(s[j]) != k by {
                    if j > 0 {
                        assert(s[j] == rest[j - 1]);
                    }
                }
            },
        }
    }
}

/// A position whose key matches, below which no key matches, is the
/// position [`find_idx`] returns.
pub proof fn lemma_find_idx_from_witness<T, K>(s: Seq<T>, f: spec_fn(T) -> K, k: K, i: int)
    requires
        0 <= i < s.len(),
        f(s[i]) == k,
        forall|j: int| 0 <= j < i ==> f(s[j]) != k,
    ensures
        find_idx(s, f, k) == Some(i),
    decreases i,
{
    if i > 0 {
        lemma_find_idx_from_witness(s.drop_first(), f, k, i - 1);
    }
}

/// When no key matches, [`find_idx`] finds nothing.
pub proof fn lemma_find_idx_none<T, K>(s: Seq<T>, f: spec_fn(T) -> K, k: K)
    requires
        forall|j: int| 0 <= j < s.len() ==> f(s[j]) != k,
    ensures
        find_idx(s, f, k) is None,
{
    lemma_find_idx(s, f, k);
    if find_idx(s, f, k) is Some {
        let i = find_idx(s, f, k)->0;
        assert(f(s[i]) == k);
    }
}

/// Appending an element leaves earlier matches in place; it is found
/// itself only when nothing before it matched.
pub proof fn lemma_find_idx_push<T, K>(s: Seq<T>, f: spec_fn(T) -> K, k: K, x: T)
    ensures
        find_idx(s.push(x), f, k) == (match find_idx(s, f, k) {
            Some(i) => Some(i),
            None => if f(x) == k {
                Some(s.len() as int)
            } else {
                None
            },
        }),
    decreases s.len(),
{
    lemma_find_idx(s, f, k);
    lemma_find_idx(s.push(x), f, k);
    match find_idx(s, f, k) {
        Some(i) => {
            lemma_find_idx_from_witness(s.push(x), f, k, i);
        },
        None => {
            if f(x) == k {
                lemma_find_idx_from_witness(s.push(x), f, k, s.len() as int);
            } else {
                assert(forall|j: int| 0 <= j < s.push(x).len() ==> f(s.push(x)[j]) != k);
                lemma_find_idx_none(s.push(x), f, k);
            }
        },
    }
}

/// A stored account: the unique username and the Base32-encoded secret
/// persisted after a verified enrollment.
#[derive(Debug)]
pub struct UserRecord {
    pub username: String,
    pub totp_secret: String,
}

/// The mathematical value of a [`UserRecord`].
pub struct UserV {
    pub username: Seq<char>,
    pub totp_secret: Seq<char>,
}

impl View for UserRecord {
    type V = UserV;

    open spec fn view(&self) -> UserV {
        UserV { username: self.username@, totp_secret: self.totp_secret@ }
    }
}

/// A stored session: a bearer token standing for one user until revoked.
#[derive(Debug, PartialEq)]
pub struct SessionRecord {
    pub id: u64,
    pub user_id: String,
    pub token: String,
    pub name: Option<String>,
}

/// The mathematical value of a [`SessionRecord`].
pub struct SessionV {
    pub id: u64,
    pub user_id: Seq<char>,
    pub token: Seq<char>,
    pub name: Option<Seq<char>>,
}

impl View for SessionRecord {
    type V = SessionV;

    open spec fn view(&self) -> SessionV {
        SessionV {
            id: self.id,
            user_id: self.user_id@,
            token: self.token@,
            name: match self.name {
                Some(ref n) => Some(n@),
                None => None,
            },
        }
    }
}

/// One crew membership row; its existence is what proves membership.
#[derive(Debug)]
pub struct CrewMemberRecord {
    pub user_id: String,
    pub crew_id: i32,
    pub display_name: String,
}

/// The mathematical value of a [`CrewMemberRecord`].
pub struct MemberV {
    pub user_id: Seq<char>,
    pub crew_id: i32,
    pub display_name: Seq<char>,
}

impl View for CrewMemberRecord {
    type V = MemberV;

    open spec fn view(&self) -> MemberV {
        MemberV {
            user_id: self.user_id@,
            crew_id: self.crew_id,
            display_name: self.display_name@,
        }
    }
}

/// A bounded-use capability token for joining a crew.
#[derive(Debug, PartialEq)]
pub struct CrewInvite {
    pub code: String,
    pub crew_id: i32,
    pub used: i32,
    pub max_uses: i32,
}

/// The mathematical value of a [`CrewInvite`].
pub struct InviteV {
    pub code: Seq<char>,
    pub crew_id: i32,
    pub used: i32,
    pub max_uses: i32,
}

impl View for CrewInvite {
    type V = InviteV;

    open spec fn view(&self) -> InviteV {
        InviteV {
            code: self.code@,
            crew_id: self.crew_id,
            used: self.used,
            max_uses: self.max_uses,
        }
    }
}

impl Clone for CrewInvite {
    fn clone(&self) -> (r: Self)
        ensures
            r@ == self@,
    {
        CrewInvite {
            code: self.code.clone(),
            crew_id: self.crew_id,
            used: self.used,
            max_uses: self.max_uses,
        }
    }
}

/// The key column of the user table.
pub open spec fn user_key() -> spec_fn(UserV) -> Seq<char> {
    |u: UserV| u.username
}

/// The key column of the session table.
pub open spec fn session_key() -> spec_fn(SessionV) -> Seq<char> {
    |s: SessionV| s.token
}

/// The key column of the crew table.
pub open spec fn crew_key() -> spec_fn(CrewV) -> i32 {
    |c: CrewV| c.id
}

/// The key columns of the membership table.
pub open spec fn member_key() -> spec_fn(MemberV) -> (i32, Seq<char>) {
    |m: MemberV| (m.crew_id, m.user_id)
}

/// The key column of the invite table.
pub open spec fn invite_key() -> spec_fn(InviteV) -> Seq<char> {
    |i: InviteV| i.code
}

/// The key column of the character table.
pub open spec fn character_key() -> spec_fn(CharacterV) -> i32 {
    |c: CharacterV| c.id
}

/// The first position in a user table holding `name`.
pub open spec fn find_user(users: Seq<UserV>, name: Seq<char>) -> Option<int> {
    find_idx(users, user_key(), name)
}

/// The first position in a session table holding `token`.
pub open spec fn find_session(sessions: Seq<SessionV>, token: Seq<char>) -> Option<int> {
    find_idx(sessions, session_key(), token)
}

/// The first position in a crew table holding the crew `id`.
pub open spec fn find_crew(crews: Seq<CrewV>, id: i32) -> Option<int> {
    find_idx(crews, crew_key(), id)
}

/// The first membership row for `user` in crew `crew_id`.
pub open spec fn find_member(members: Seq<MemberV>, crew_id: i32, user: Seq<char>) -> Option<
    int,
> {
    find_idx(members, member_key(), (crew_id, user))
}

/// The first position in an invite table holding `code`.
pub open spec fn find_invite(invites: Seq<InviteV>, code: Seq<char>) -> Option<int> {
    find_idx(invites, invite_key(), code)
}

/// The first position in a character table holding the character `id`.
pub open spec fn find_character(characters: Seq<CharacterV>, id: i32) -> Option<int> {
    find_idx(characters, character_key(), id)
}

/// Every record the subsystem reads or writes, as one explicit value.
///
/// The `next_*` counters stand for the storage layer's id assignment.
#[derive(Debug)]
pub struct Store {
    pub users: Vec<UserRecord>,
    pub sessions: Vec<SessionRecord>,
    pub crews: Vec<Crew>,
    pub members: Vec<CrewMemberRecord>,
    pub invites: Vec<CrewInvite>,
    pub characters: Vec<Character>,
    pub next_session_id: u64,
    pub next_crew_id: i32,
    pub next_character_id: i32,
}

impl Store {
    /// The user table's mathematical view.
    pub open spec fn users_v(&self) -> Seq<UserV> {
        Seq::new(self.users@.len(), |i: int| self.users@[i]@)
    }

    /// The session table's mathematical view.
    pub open spec fn sessions_v(&self) -> Seq<SessionV> {
        Seq::new(self.sessions@.len(), |i: int| self.sessions@[i]@)
    }

    /// The crew table's mathematical view.
    pub open spec fn crews_v(&self) -> Seq<CrewV> {
        Seq::new(self.crews@.len(), |i: int| self.crews@[i]@)
    }

    /// The membership table's mathematical view.
    pub open spec fn members_v(&self) -> Seq<MemberV> {
        Seq::new(self.members@.len(), |i: int| self.members@[i]@)
    }

    /// The invite table's mathematical view.
    pub open spec fn invites_v(&self) -> Seq<InviteV> {
        Seq::new(self.invites@.len(), |i: int| self.invites@[i]@)
    }

    /// The character table's mathematical view.
    pub open spec fn characters_v(&self) -> Seq<CharacterV> {
        Seq::new(self.characters@.len(), |i: int| self.characters@[i]@)
    }

    /// Every key column is duplicate-free and id assignment never reuses
    /// an id; invite usage counters never run below zero.
    pub open spec fn wf(&self) -> bool {
        &&& 0 <= self.next_crew_id
        &&& 0 <= self.next_character_id
        &&& forall|i: int, j: int|
            0 <= i < j < self.users_v().len() ==> self.users_v()[i].username
                != self.users_v()[j].username
        &&& forall|i: int, j: int|
            0 <= i < j < self.sessions_v().len() ==> self.sessions_v()[i].token
                != self.sessions_v()[j].token
        &&& forall|i: int, j: int|
            0 <= i < j < self.sessions_v().len() ==> self.sessions_v()[i].id
                != self.sessions_v()[j].id
        &&& forall|i: int|
            0 <= i < self.sessions_v().len() ==> self.sessions_v()[i].id < self.next_session_id
        &&& forall|i: int, j: int|
            0 <= i < j < self.crews_v().len() ==> self.crews_v()[i].id != self.crews_v()[j].id
        &&& forall|i: int|
            0 <= i < self.crews_v().len() ==> 0 <= #[trigger] self.crews_v()[i].id
                < self.next_crew_id
        &&& forall|i: int|
            0 <= i < self.members_v().len() ==> 0 <= #[trigger] self.members_v()[i].crew_id
                < self.next_crew_id
        &&& forall|i: int, j: int|
            0 <= i < j < self.members_v().len() ==> (
            self.members_v()[i].crew_id,
            self.members_v()[i].user_id,
            ) != (self.members_v()[j].crew_id, self.members_v()[j].user_id)
        &&& forall|i: int, j: int|
            0 <= i < j < self.invites_v().len() ==> self.invites_v()[i].code
                != self.invites_v()[j].code
        &&& forall|i: int| 0 <= i < self.invites_v().len() ==> 0 <= #[trigger] self.invites_v()[i].used
        &&& forall|i: int, j: int|
            0 <= i < j < self.characters_v().len() ==> self.characters_v()[i].id
                != self.characters_v()[j].id
        &&& forall|i: int|
            0 <= i < self.characters_v().len() ==> 0 <= #[trigger] self.characters_v()[i].id
                < self.next_character_id
    }

    /// An empty, well-formed store.
    pub fn new() -> (r: Store)
        ensures
            r.wf(),
            r.users_v() =~= Seq::<UserV>::empty(),
            r.sessions_v() =~= Seq::<SessionV>::empty(),
            r.crews_v() =~= Seq::<CrewV>::empty(),
            r.members_v() =~= Seq::<MemberV>::empty(),
            r.invites_v() =~= Seq::<InviteV>::empty(),
            r.characters_v() =~= Seq::<CharacterV>::empty(),
            r.next_session_id == 0 && r.next_crew_id == 0 && r.next_character_id == 0,
    {
        Store {
            users: Vec::new(),
            sessions: Vec::new(),
            crews: Vec::new(),
            members: Vec::new(),
            invites: Vec::new(),
            characters: Vec::new(),
            next_session_id: 0,
            next_crew_id: 0,
            next_character_id: 0,
        }
    }

    /// Finds the row holding `name` in the user table.
    pub fn user_index(&self, name: &str) -> (r: Option<usize>)
        ensures
            match r {
                Some(i) => find_user(self.users_v(), name@) == Some(i as int),
                None => find_user(self.users_v(), name@) is None,
            },
    {
        let mut i: usize = 0;
        while i < self.users.len()
            invariant
                i <= self.users@.len(),
                forall|j: int| 0 <= j < i ==> (user_key())(self.users_v()[j]) != name@,
            decreases self.users@.len() - i,
        {
            if str_eq(self.users[i].username.as_str(), name) {
                proof {
                    lemma_find_idx_from_witness(self.users_v(), user_key(), name@, i as int);
                }
                return Some(i);
            }
            i = i + 1;
        }
        proof {
            lemma_find_idx_none(self.users_v(), user_key(), name@);
        }
        None
    }

    /// Finds the row holding `token` in the session table.
    pub fn session_index(&self, token: &str) -> (r: Option<usize>)
        ensures
            match r {
                Some(i) => find_session(self.sessions_v(), token@) == Some(i as int),
                None => find_session(self.sessions_v(), token@) is None,
            },
    {
        let mut i: usize = 0;
        while i < self.sessions.len()
            invariant
                i <= self.sessions@.len(),
                forall|j: int| 0 <= j < i ==> (session_key())(self.sessions_v()[j]) != token@,
            decreases self.sessions@.len() - i,
        {
            if str_eq(self.sessions[i].token.as_str(), token) {
                proof {
                    lemma_find_idx_from_witness(self.sessions_v(), session_key(), token@, i as int);
                }
                return Some(i);
            }
            i = i + 1;
        }
        proof {
            lemma_find_idx_none(self.sessions_v(), session_key(), token@);
        }
        None
    }

    /// Finds the row holding the crew `id`.
    pub fn crew_index(&self, id: i32) -> (r: Option<usize>)
        ensures
            match r {
                Some(i) => find_crew(self.crews_v(), id) == Some(i as int),
                None => find_crew(self.crews_v(), id) is None,
            },
    {
        let mut i: usize = 0;
        while i < self.crews.len()
            invariant
                i <= self.crews@.len(),
                forall|j: int| 0 <= j < i ==> (crew_key())(self.crews_v()[j]) != id,
            decreases self.crews@.len() - i,
        {
            if self.crews[i].id == id {
                proof {
                    lemma_find_idx_from_witness(self.crews_v(), crew_key(), id, i as int);
                }
                return Some(i);
            }
            i = i + 1;
        }
        proof {
            lemma_find_idx_none(self.crews_v(), crew_key(), id);
        }
        None
    }

    /// Finds the membership row for `user` in crew `crew_id`.
    pub fn member_index(&self, crew_id: i32, user: &str) -> (r: Option<usize>)
        ensures
            match r {
                Some(i) => find_member(self.members_v(), crew_id, user@) == Some(i as int),
                None => find_member(self.members_v(), crew_id, user@) is None,
            },
    {
        let mut i: usize = 0;
        while i < self.members.len()
            invariant
                i <= self.members@.len(),
                forall|j: int| 0 <= j < i ==> (member_key())(self.members_v()[j]) != (crew_id, user@),
            decreases self.members@.len() - i,
        {
            if self.members[i].crew_id == crew_id && str_eq(
                self.members[i].user_id.as_str(),
                user,
            ) {
                proof {
                    lemma_find_idx_from_witness(self.members_v(), member_key(), (crew_id, user@), i as int);
                }
                return Some(i);
            }
            i = i + 1;
        }
        proof {
            lemma_find_idx_none(self.members_v(), member_key(), (crew_id, user@));
        }
        None
    }

    /// Finds the row holding `code` in the invite table.
    pub fn invite_index(&self, code: &str) -> (r: Option<usize>)
        ensures
            match r {
                Some(i) => find_invite(self.invites_v(), code@) == Some(i as int),
                None => find_invite(self.invites_v(), code@) is None,
            },
    {
        let mut i: usize = 0;
        while i < self.invites.len()
            invariant
                i <= self.invites@.len(),
                forall|j: int| 0 <= j < i ==> (invite_key())(self.invites_v()[j]) != code@,
            decreases self.invites@.len() - i,
        {
            if str_eq(self.invites[i].code.as_str(), code) {
                proof {
                    lemma_find_idx_from_witness(self.invites_v(), invite_key(), code@, i as int);
                }
                return Some(i);
            }
            i = i + 1;
        }
        proof {
            lemma_find_idx_none(self.invites_v(), invite_key(), code@);
        }
        None
    }

    /// Finds the row holding the character `id`.
    pub fn character_index(&self, id: i32) -> (r: Option<usize>)
        ensures
            match r {
                Some(i) => find_character(self.characters_v(), id) == Some(i as int),
                None => find_character(self.characters_v(), id) is None,
            },
    {
        let mut i: usize = 0;
        while i < self.characters.len()
            invariant
                i <= self.characters@.len(),
                forall|j: int| 0 <= j < i ==> (character_key())(self.characters_v()[j]) != id,
            decreases self.characters@.len() - i,
        {
            if self.characters[i].id == id {
                proof {
                    lemma_find_idx_from_witness(self.characters_v(), character_key(), id, i as int);
                }
                return Some(i);
            }
            i = i + 1;
        }
        proof {
            lemma_find_idx_none(self.characters_v(), character_key(), id);
        }
        None
    }
}

} // verus!
