use vstd::prelude::*;
use crate::domain::{Category, CardStatus, Role};
use crate::errors::AppError;

verus! {

/// One row of the users table: identity, credentials hash, role.
#[derive(Debug)]
pub struct UserRow {
    pub id: i64,
    pub first_name: String,
    pub last_name: String,
    pub username: String,
    pub email: String,
    pub password_hash: String,
    pub role: Role,
    pub created_at: i64,
}

/// One row of the sessions table. Only the hash of the bearer token is
/// stored; a non-`None` `revoked_at` makes the session permanently
/// inactive.
#[derive(Debug)]
pub struct SessionRow {
    pub id: i64,
    pub user_id: i64,
    pub token_hash: String,
    pub created_at: i64,
    pub revoked_at: Option<i64>,
}

/// One row of the cards table, carrying the moderation fields.
#[derive(Debug)]
pub struct CardRow {
    pub id: i64,
    pub category: Category,
    pub english: String,
    pub latin: String,
    pub image_path: String,
    pub status: CardStatus,
    pub created_by: i64,
    pub created_at: i64,
}

/// Whether some user already holds the username or the email.
pub open spec fn identity_taken(users: Seq<UserRow>, username: Seq<char>, email: Seq<char>) -> bool {
    exists|i: int|
        0 <= i < users.len() && ((#[trigger] users[i]).username@ == username || users[i].email@
            == email)
}

/// Whether the identifier equals the user's username or email, as the
/// login lookup matches it.
pub open spec fn user_matches(u: UserRow, ident: Seq<char>) -> bool {
    u.username@ == ident || u.email@ == ident
}

pub open spec fn has_matching_user(users: Seq<UserRow>, ident: Seq<char>) -> bool {
    exists|i: int| 0 <= i < users.len() && user_matches(#[trigger] users[i], ident)
}

/// The first user the login lookup finds for the identifier.
pub open spec fn is_first_matching_user(users: Seq<UserRow>, ident: Seq<char>, i: int) -> bool {
    &&& 0 <= i < users.len()
    &&& user_matches(users[i], ident)
    &&& forall|j: int| 0 <= j < i ==> !user_matches(#[trigger] users[j], ident)
}

pub open spec fn has_user_id(users: Seq<UserRow>, id: i64) -> bool {
    exists|j: int| 0 <= j < users.len() && (#[trigger] users[j]).id == id
}

pub open spec fn has_card_id(cards: Seq<CardRow>, id: i64) -> bool {
    exists|j: int| 0 <= j < cards.len() && (#[trigger] cards[j]).id == id
}

/// Whether a session row stores this token digest, revoked or not.
pub open spec fn has_session_digest(sessions: Seq<SessionRow>, digest: Seq<char>) -> bool {
    exists|i: int| 0 <= i < sessions.len() && (#[trigger] sessions[i]).token_hash@ == digest
}

/// Whether a non-revoked session stores this token digest.
pub open spec fn session_active(sessions: Seq<SessionRow>, digest: Seq<char>) -> bool {
    exists|i: int|
        0 <= i < sessions.len() && (#[trigger] sessions[i]).token_hash@ == digest
            && sessions[i].revoked_at is None
}

/// The in-memory image of the persisted state: users, sessions and cards,
/// with the id counters the store allocates from.
#[derive(Debug)]
pub struct Store {
    pub users: Vec<UserRow>,
    pub sessions: Vec<SessionRow>,
    pub cards: Vec<CardRow>,
    pub next_user_id: i64,
    pub next_session_id: i64,
    pub next_card_id: i64,
}

impl Store {
    pub open spec fn users_wf(self) -> bool {
        &&& 1 <= self.next_user_id
        &&& (self.users@.len() as int) < self.next_user_id
        &&& forall|i: int|
            0 <= i < self.users@.len() ==> 1 <= (#[trigger] self.users@[i]).id
                < self.next_user_id
        &&& forall|i: int, j: int|
            #![trigger self.users@[i], self.users@[j]]
            0 <= i < self.users@.len() && 0 <= j < self.users@.len() && i != j ==> {
                &&& self.users@[i].id != self.users@[j].id
                &&& self.users@[i].username@ != self.users@[j].username@
                &&& self.users@[i].email@ != self.users@[j].email@
            }
    }

    pub open spec fn sessions_wf(self) -> bool {
        &&& 1 <= self.next_session_id
        &&& (self.sessions@.len() as int) < self.next_session_id
        &&& forall|i: int|
            0 <= i < self.sessions@.len() ==> 1 <= (#[trigger] self.sessions@[i]).id
                < self.next_session_id
        &&& forall|i: int|
            0 <= i < self.sessions@.len() ==> has_user_id(
                self.users@,
                (#[trigger] self.sessions@[i]).user_id,
            )
        &&& forall|i: int, j: int|
            #![trigger self.sessions@[i], self.sessions@[j]]
            0 <= i < self.sessions@.len() && 0 <= j < self.sessions@.len() && i != j ==> {
                &&& self.sessions@[i].id != self.sessions@[j].id
                &&& self.sessions@[i].token_hash@ != self.sessions@[j].token_hash@
            }
    }

    pub open spec fn cards_wf(self) -> bool {
        &&& 1 <= self.next_card_id
        &&& (self.cards@.len() as int) < self.next_card_id
        &&& forall|i: int|
            0 <= i < self.cards@.len() ==> 1 <= (#[trigger] self.cards@[i]).id < self.next_card_id
        &&& forall|i: int, j: int|
            #![trigger self.cards@[i], self.cards@[j]]
            0 <= i < self.cards@.len() && 0 <= j < self.cards@.len() && i != j
                ==> self.cards@[i].id != self.cards@[j].id
    }

    /// Well-formedness: ids are unique and below their counter, usernames,
    /// emails and token hashes are unique, and every session belongs to an
    /// existing user.
    pub open spec fn wf(self) -> bool {
        &&& self.users_wf()
        &&& self.sessions_wf()
        &&& self.cards_wf()
    }

    /// An empty store, as the idempotent schema migration leaves a fresh
    /// database.
    pub fn new() -> (s: Store)
        ensures
            s.wf(),
            s.users@ =~= Seq::<UserRow>::empty(),
            s.sessions@ =~= Seq::<SessionRow>::empty(),
            s.cards@ =~= Seq::<CardRow>::empty(),
            s.next_user_id == 1,
            s.next_session_id == 1,
            s.next_card_id == 1,
    {
        Store {
            users: Vec::new(),
            sessions: Vec::new(),
            cards: Vec::new(),
            next_user_id: 1,
            next_session_id: 1,
            next_card_id: 1,
        }
    }

    /// Index of the first user whose username or email equals the
    /// identifier, as the login lookup returns rows.
    pub fn find_user_by_identifier(&self, ident: &str) -> (r: Option<usize>)
        ensures
            match r {
                Some(i) => is_first_matching_user(self.users@, ident@, i as int),
                None => !has_matching_user(self.users@, ident@),
            },
    {
        let ident_owned: String = ident.to_owned();
        let n = self.users.len();
        let mut i: usize = 0;
        while i < n
            invariant
                i <= n,
                n == self.users@.len(),
                ident_owned@ == ident@,
                forall|j: int| 0 <= j < i ==> !user_matches(#[trigger] self.users@[j], ident@),
            decreases n - i,
        {
            let u = &self.users[i];
            if u.username == ident_owned || u.email == ident_owned {
                return Some(i);
            }
            i = i + 1;
        }
        None
    }

    /// Index of the user with this id, unique when the store is
    /// well-formed.
    pub fn find_user_by_id(&self, id: i64) -> (r: Option<usize>)
        ensures
            match r {
                Some(i) => i < self.users@.len() && self.users@[i as int].id == id,
                None => !has_user_id(self.users@, id),
            },
    {
        let n = self.users.len();
        let mut i: usize = 0;
        while i < n
            invariant
                i <= n,
                n == self.users@.len(),
                forall|j: int| 0 <= j < i ==> (#[trigger] self.users@[j]).id != id,
            decreases n - i,
        {
            if self.users[i].id == id {
                return Some(i);
            }
            i = i + 1;
        }
        None
    }

    /// Index of the card with this id, unique when the store is
    /// well-formed.
    pub fn find_card_by_id(&self, id: i64) -> (r: Option<usize>)
        ensures
            match r {
                Some(i) => i < self.cards@.len() && self.cards@[i as int].id == id,
                None => !has_card_id(self.cards@, id),
            },
    {
        let n = self.cards.len();
        let mut i: usize = 0;
        while i < n
            invariant
                i <= n,
                n == self.cards@.len(),
                forall|j: int| 0 <= j < i ==> (#[trigger] self.cards@[j]).id != id,
            decreases n - i,
        {
            if self.cards[i].id == id {
                return Some(i);
            }
            i = i + 1;
        }
        None
    }

    /// Index of the session storing this token digest, unique when the
    /// store is well-formed.
    pub fn find_session_by_digest(&self, digest: &String) -> (r: Option<usize>)
        ensures
            match r {
                Some(i) => i < self.sessions@.len() && self.sessions@[i as int].token_hash@
                    == digest@,
                None => !has_session_digest(self.sessions@, digest@),
            },
    {
        let n = self.sessions.len();
        let mut i: usize = 0;
        while i < n
            invariant
                i <= n,
                n == self.sessions@.len(),
                forall|j: int| 0 <= j < i ==> (#[trigger] self.sessions@[j]).token_hash@ != digest@,
            decreases n - i,
        {
            if self.sessions[i].token_hash == *digest {
                return Some(i);
            }
            i = i + 1;
        }
        None
    }

    /// Whether some user already holds the username or the email: the
    /// fast-path uniqueness pre-check; the insert re-checks it as the
    /// source of truth.
    pub fn identity_exists(&self, username: &str, email: &str) -> (r: bool)
        ensures
            r == identity_taken(self.users@, username@, email@),
    {
        let username_owned: String = username.to_owned();
        let email_owned: String = email.to_owned();
        let n = self.users.len();
        let mut i: usize = 0;
        while i < n
            invariant
                i <= n,
                n == self.users@.len(),
                username_owned@ == username@,
                email_owned@ == email@,
                forall|j: int|
                    0 <= j < i ==> !((#[trigger] self.users@[j]).username@ == username@
                        || self.users@[j].email@ == email@),
            decreases n - i,
        {
            let u = &self.users[i];
            if u.username == username_owned || u.email == email_owned {
                return true;
            }
            i = i + 1;
        }
        false
    }

    /// Inserts a user row, enforcing username and email uniqueness at the
    /// insert boundary. `Conflict` when either is taken, `Storage` when
    /// the id space is exhausted.
    pub fn insert_user(
        &mut self,
        first_name: String,
        last_name: String,
        username: String,
        email: String,
        password_hash: String,
        role: Role,
        created_at: i64,
    ) -> (r: Result<i64, AppError>)
        requires
            old(self).wf(),
        ensures
            final(self).wf(),
            final(self).sessions@ == old(self).sessions@,
            final(self).cards@ == old(self).cards@,
            final(self).next_session_id == old(self).next_session_id,
            final(self).next_card_id == old(self).next_card_id,
            r matches Err(e) ==> *final(self) == *old(self) && (e is Conflict || e is Storage),
            (r matches Err(e) && e is Conflict) <==> identity_taken(
                old(self).users@,
                username@,
                email@,
            ),
            (r matches Err(e) && e is Storage) <==> (!identity_taken(
                old(self).users@,
                username@,
                email@,
            ) && old(self).next_user_id == i64::MAX),
            r matches Ok(id) ==> {
                &&& id == old(self).next_user_id
                &&& final(self).next_user_id == old(self).next_user_id + 1
                &&& final(self).users@ == old(self).users@.push(
                    UserRow {
                        id,
                        first_name,
                        last_name,
                        username,
                        email,
                        password_hash,
                        role,
                        created_at,
                    },
                )
            },
            r is Ok <==> (!identity_taken(old(self).users@, username@, email@) && old(
                self,
            ).next_user_id < i64::MAX),
    {
        let n = self.users.len();
        let mut i: usize = 0;
        while i < n
            invariant
                i <= n,
                n == self.users@.len(),
                *self == *old(self),
                self.wf(),
                forall|j: int|
                    0 <= j < i ==> !((#[trigger] self.users@[j]).username@ == username@
                        || self.users@[j].email@ == email@),
            decreases n - i,
        {
            let u = &self.users[i];
            if u.username == username || u.email == email {
                return Err(AppError::Conflict("Username or email already exists.".to_owned()));
            }
            i = i + 1;
        }
        assert(!identity_taken(self.users@, username@, email@));
        if self.next_user_id == i64::MAX {
            return Err(AppError::Storage("User id space exhausted.".to_owned()));
        }
        let id = self.next_user_id;
        let row = UserRow {
            id,
            first_name,
            last_name,
            username,
            email,
            password_hash,
            role,
            created_at,
        };
        self.users.push(row);
        self.next_user_id = id + 1;
        proof {
            let users = self.users@;
            let prev = old(self).users@;
            assert forall|i: int|
                0 <= i < self.sessions@.len() implies has_user_id(
                users,
                (#[trigger] self.sessions@[i]).user_id,
            ) by {
                assert(has_user_id(prev, self.sessions@[i].user_id));
                let j = choose|j: int|
                    0 <= j < prev.len() && (#[trigger] prev[j].id) == self.sessions@[i].user_id;
                assert(users[j].id == self.sessions@[i].user_id);
            }
        }
        Ok(id)
    }

    /// Inserts a session row for an existing user. The token hash is
    /// unique across all sessions ever created; a collision is a fatal
    /// insert error, surfaced as `Storage`.
    pub fn insert_session(&mut self, user_id: i64, token_hash: String, created_at: i64) -> (r:
        Result<i64, AppError>)
        requires
            old(self).wf(),
            has_user_id(old(self).users@, user_id),
        ensures
            final(self).wf(),
            final(self).users@ == old(self).users@,
            final(self).cards@ == old(self).cards@,
            final(self).next_user_id == old(self).next_user_id,
            final(self).next_card_id == old(self).next_card_id,
            r matches Err(e) ==> *final(self) == *old(self) && e is Storage,
            r is Ok <==> (!has_session_digest(old(self).sessions@, token_hash@) && old(
                self,
            ).next_session_id < i64::MAX),
            r matches Ok(id) ==> {
                &&& id == old(self).next_session_id
                &&& final(self).next_session_id == old(self).next_session_id + 1
                &&& final(self).sessions@ == old(self).sessions@.push(
                    SessionRow { id, user_id, token_hash, created_at, revoked_at: None },
                )
            },
    {
        if self.find_session_by_digest(&token_hash).is_some() {
            return Err(AppError::Storage("Session create failed: duplicate token hash.".to_owned()));
        }
        if self.next_session_id == i64::MAX {
            return Err(AppError::Storage("Session id space exhausted.".to_owned()));
        }
        let id = self.next_session_id;
        let row = SessionRow { id, user_id, token_hash, created_at, revoked_at: None };
        self.sessions.push(row);
        self.next_session_id = id + 1;
        proof {
            let users = self.users@;
            assert forall|i: int|
                0 <= i < self.sessions@.len() implies has_user_id(
                users,
                (#[trigger] self.sessions@[i]).user_id,
            ) by {
                if i < self.sessions@.len() - 1 {
                    assert(has_user_id(users, old(self).sessions@[i].user_id));
                }
            }
        }
        Ok(id)
    }

    /// Inserts a card row. `Storage` only when the id space is exhausted.
    pub fn insert_card(
        &mut self,
        category: Category,
        english: String,
        latin: String,
        image_path: String,
        status: CardStatus,
        created_by: i64,
        created_at: i64,
    ) -> (r: Result<i64, AppError>)
        requires
            old(self).wf(),
        ensures
            final(self).wf(),
            final(self).users@ == old(self).users@,
            final(self).sessions@ == old(self).sessions@,
            final(self).next_user_id == old(self).next_user_id,
            final(self).next_session_id == old(self).next_session_id,
            r matches Err(e) ==> *final(self) == *old(self) && e is Storage,
            r is Ok <==> old(self).next_card_id < i64::MAX,
            r matches Ok(id) ==> {
                &&& id == old(self).next_card_id
                &&& final(self).next_card_id == old(self).next_card_id + 1
                &&& final(self).cards@ == old(self).cards@.push(
                    CardRow {
                        id,
                        category,
                        english,
                        latin,
                        image_path,
                        status,
                        created_by,
                        created_at,
                    },
                )
            },
    {
        if self.next_card_id == i64::MAX {
            return Err(AppError::Storage("Card id space exhausted.".to_owned()));
        }
        let id = self.next_card_id;
        let row = CardRow {
            id,
            category,
            english,
            latin,
            image_path,
            status,
            created_by,
            created_at,
        };
        self.cards.push(row);
        self.next_card_id = id + 1;
        Ok(id)
    }
}

} // verus!
