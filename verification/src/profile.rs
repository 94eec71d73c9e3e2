use vstd::prelude::*;
use crate::auth::{resolves_to, spec_session_valid, AuthService};
use crate::domain::Role;
use crate::errors::AppError;
use crate::security::{hash_password, password_verifies, verify_password};
use crate::store::{Store, UserRow};
use crate::text::{contains_char, trim_str, trimmed};

verus! {

/// The message `validate_profile` answers the first failing field
/// constraint with, `None` when every constraint holds.
pub open spec fn profile_error_message(
    first_name: Seq<char>,
    last_name: Seq<char>,
    username: Seq<char>,
    email: Seq<char>,
) -> Option<Seq<char>> {
    if trimmed(first_name).len() < 2 {
        Some("First name must be at least 2 characters."@)
    } else if trimmed(last_name).len() < 2 {
        Some("Last name must be at least 2 characters."@)
    } else if trimmed(username).len() < 3 {
        Some("Username must be at least 3 characters."@)
    } else if !email.contains('@') {
        Some("Email is not valid."@)
    } else {
        None
    }
}

/// Field constraints of a profile update, the registration constraints
/// without the password.
pub fn validate_profile(first_name: &str, last_name: &str, username: &str, email: &str) -> (r:
    Result<(), String>)
    ensures
        r is Ok <==> profile_error_message(first_name@, last_name@, username@, email@) is None,
        r matches Err(m) ==> profile_error_message(first_name@, last_name@, username@, email@)
            == Some(m@),
{
    if trim_str(first_name).unicode_len() < 2 {
        return Err("First name must be at least 2 characters.".to_owned());
    }
    if trim_str(last_name).unicode_len() < 2 {
        return Err("Last name must be at least 2 characters.".to_owned());
    }
    if trim_str(username).unicode_len() < 3 {
        return Err("Username must be at least 3 characters.".to_owned());
    }
    if !contains_char(email, '@') {
        return Err("Email is not valid.".to_owned());
    }
    Ok(())
}

/// The message `validate_new_password` answers a bad password change
/// with, `None` when the inputs are acceptable.
pub open spec fn new_password_error_message(old_password: Seq<char>, new_password: Seq<char>)
    -> Option<Seq<char>> {
    if old_password.len() == 0 {
        Some("Enter old password."@)
    } else if new_password.len() < 8 {
        Some("New password must be at least 8 characters."@)
    } else {
        None
    }
}

/// A password change needs the old password and a new one of at least 8
/// characters.
pub fn validate_new_password(old_password: &str, new_password: &str) -> (r: Result<(), String>)
    ensures
        r is Ok <==> new_password_error_message(old_password@, new_password@) is None,
        r matches Err(m) ==> new_password_error_message(old_password@, new_password@) == Some(m@),
{
    if old_password.is_empty() {
        return Err("Enter old password.".to_owned());
    }
    if new_password.unicode_len() < 8 {
        return Err("New password must be at least 8 characters.".to_owned());
    }
    Ok(())
}

/// Whether another user than `user_id` already holds the username or the
/// email.
pub open spec fn identity_taken_except(
    users: Seq<UserRow>,
    username: Seq<char>,
    email: Seq<char>,
    user_id: i64,
) -> bool {
    exists|i: int|
        0 <= i < users.len() && ((#[trigger] users[i]).username@ == username || users[i].email@
            == email) && users[i].id != user_id
}

/// The profile of a user, with the role in its stored string form.
#[derive(Debug)]
pub struct ProfileRow {
    pub id: i64,
    pub first_name: String,
    pub last_name: String,
    pub username: String,
    pub email: String,
    pub role: String,
}

/// A profile as answered to the caller.
#[derive(Debug)]
pub struct ProfileResponse {
    pub id: i64,
    pub first_name: String,
    pub last_name: String,
    pub username: String,
    pub email: String,
    pub role: String,
}

/// Input of a profile update.
#[derive(Debug)]
pub struct UpdateProfileRequest {
    pub session_token: String,
    pub first_name: String,
    pub last_name: String,
    pub username: String,
    pub email: String,
}

/// Input of a password change.
#[derive(Debug)]
pub struct ChangePasswordRequest {
    pub session_token: String,
    pub old_password: String,
    pub new_password: String,
}

/// Profile maintenance of the session's own user: read, update, and
/// password change.
pub struct ProfileService;

impl ProfileService {
    /// The caller's own profile, resolved from the session token.
    pub fn get_profile(store: &Store, session_token: String) -> (r: Result<ProfileRow, AppError>)
        requires
            store.wf(),
        ensures
            r is Ok <==> spec_session_valid(*store, session_token@),
            r matches Err(e) ==> e is Auth,
            r matches Ok(p) ==> exists|j: int|
                0 <= j < store.users@.len() && {
                    let u = #[trigger] store.users@[j];
                    &&& u.id == p.id
                    &&& resolves_to(*store, session_token@, p.id, u.role)
                    &&& p.first_name@ == u.first_name@
                    &&& p.last_name@ == u.last_name@
                    &&& p.username@ == u.username@
                    &&& p.email@ == u.email@
                    &&& p.role@ == u.role.spec_str()
                },
    {
        let (uid, role) = match AuthService::require_session_user(store, session_token.as_str()) {
            Ok(p) => p,
            Err(e) => { return Err(e) },
        };
        let jdx = match store.find_user_by_id(uid) {
            Some(j) => j,
            None => { return Err(AppError::Auth("Unauthorized.".to_owned())) },
        };
        let u = &store.users[jdx];
        let p = ProfileRow {
            id: u.id,
            first_name: u.first_name.clone(),
            last_name: u.last_name.clone(),
            username: u.username.clone(),
            email: u.email.clone(),
            role: u.role.as_str().to_owned(),
        };
        proof {
            let j = jdx as int;
            assert(resolves_to(*store, session_token@, uid, role));
            if store.users@[j].role != role {
                lemma_role_of_user_unique(*store, session_token@, uid, role, j);
            }
        }
        Ok(p)
    }

    /// Rewrites the caller's own identity fields, trimmed, after the
    /// field constraints and a uniqueness check that excludes the caller.
    pub fn update_profile(
        store: &mut Store,
        session_token: String,
        first_name: String,
        last_name: String,
        username: String,
        email: String,
    ) -> (r: Result<(), AppError>)
        requires
            old(store).wf(),
        ensures
            final(store).wf(),
            final(store).sessions@ == old(store).sessions@,
            final(store).cards@ == old(store).cards@,
            final(store).users@.len() == old(store).users@.len(),
            final(store).next_user_id == old(store).next_user_id,
            r is Err ==> *final(store) == *old(store),
            (r matches Err(e) && e is Auth) <==> !spec_session_valid(*old(store), session_token@),
            (r matches Err(e) && e is Validation) <==> (spec_session_valid(
                *old(store),
                session_token@,
            ) && profile_error_message(first_name@, last_name@, username@, email@) is Some),
            r matches Err(e) ==> (e is Validation ==> profile_error_message(
                first_name@,
                last_name@,
                username@,
                email@,
            ) == Some(e.spec_message())),
            (r matches Err(e) && e is Conflict) <==> (profile_error_message(
                first_name@,
                last_name@,
                username@,
                email@,
            ) is None && exists|uid: i64, role: Role|
                resolves_to(*old(store), session_token@, uid, role) && identity_taken_except(
                    old(store).users@,
                    trimmed(username@),
                    trimmed(email@),
                    uid,
                )),
            r matches Err(e) ==> (e is Auth || e is Validation || e is Conflict),
            r is Ok ==> exists|uid: i64, role: Role|
                resolves_to(*old(store), session_token@, uid, role) && !identity_taken_except(
                    old(store).users@,
                    trimmed(username@),
                    trimmed(email@),
                    uid,
                ) && forall|i: int|
                    0 <= i < old(store).users@.len() ==> {
                        let pre = #[trigger] old(store).users@[i];
                        let post = final(store).users@[i];
                        if pre.id == uid {
                            &&& post.id == pre.id
                            &&& post.first_name@ == trimmed(first_name@)
                            &&& post.last_name@ == trimmed(last_name@)
                            &&& post.username@ == trimmed(username@)
                            &&& post.email@ == trimmed(email@)
                            &&& post.password_hash == pre.password_hash
                            &&& post.role == pre.role
                            &&& post.created_at == pre.created_at
                        } else {
                            post == pre
                        }
                    },
    {
        let (uid, role) = match AuthService::require_session_user(store, session_token.as_str()) {
            Ok(p) => p,
            Err(e) => { return Err(e) },
        };
        if let Err(m) = validate_profile(
            first_name.as_str(),
            last_name.as_str(),
            username.as_str(),
            email.as_str(),
        ) {
            return Err(AppError::Validation(m));
        }
        let username_t: String = trim_str(username.as_str()).to_owned();
        let email_t: String = trim_str(email.as_str()).to_owned();
        let n = store.users.len();
        let mut i: usize = 0;
        while i < n
            invariant
                i <= n,
                n == store.users@.len(),
                *store == *old(store),
                store.wf(),
                resolves_to(*old(store), session_token@, uid, role),
                spec_session_valid(*old(store), session_token@),
                profile_error_message(first_name@, last_name@, username@, email@) is None,
                username_t@ == trimmed(username@),
                email_t@ == trimmed(email@),
                forall|j: int|
                    0 <= j < i ==> !((((#[trigger] store.users@[j]).username@ == trimmed(username@)
                        || store.users@[j].email@ == trimmed(email@)) && store.users@[j].id
                        != uid)),
            decreases n - i,
        {
            let u = &store.users[i];
            if (u.username == username_t || u.email == email_t) && u.id != uid {
                proof {
                    assert(resolves_to(*old(store), session_token@, uid, role));
                }
                return Err(AppError::Conflict("Username or email already exists.".to_owned()));
            }
            i = i + 1;
        }
        proof {
            assert(!identity_taken_except(
                store.users@,
                trimmed(username@),
                trimmed(email@),
                uid,
            ));
        }
        let idx = match store.find_user_by_id(uid) {
            Some(j) => j,
            None => { return Err(AppError::Auth("Unauthorized.".to_owned())) },
        };
        let row = &store.users[idx];
        let updated = UserRow {
            id: row.id,
            first_name: trim_str(first_name.as_str()).to_owned(),
            last_name: trim_str(last_name.as_str()).to_owned(),
            username: username_t,
            email: email_t,
            password_hash: row.password_hash.clone(),
            role: row.role,
            created_at: row.created_at,
        };
        store.users[idx] = updated;
        proof {
            let users = store.users@;
            let prev = old(store).users@;
            assert(resolves_to(*old(store), session_token@, uid, role));
            assert forall|a: int, b: int|
                #![trigger users[a], users[b]]
                0 <= a < users.len() && 0 <= b < users.len() && a != b implies {
                &&& users[a].id != users[b].id
                &&& users[a].username@ != users[b].username@
                &&& users[a].email@ != users[b].email@
            } by {
                if a != idx as int && b != idx as int {
                    assert(users[a] == prev[a] && users[b] == prev[b]);
                } else if a == idx as int {
                    assert(users[b] == prev[b]);
                    assert(prev[b].id != prev[idx as int].id);
                    assert(prev[b].id != uid);
                } else {
                    assert(users[a] == prev[a]);
                    assert(prev[a].id != prev[idx as int].id);
                    assert(prev[a].id != uid);
                }
            }
            assert forall|i2: int|
                0 <= i2 < store.sessions@.len() implies crate::store::has_user_id(
                users,
                (#[trigger] store.sessions@[i2]).user_id,
            ) by {
                let j = choose|j: int|
                    0 <= j < prev.len() && (#[trigger] prev[j]).id == store.sessions@[i2].user_id;
                assert(users[j].id == prev[j].id);
            }
        }
        Ok(())
    }

    /// Replaces the caller's password hash after checking the old
    /// password; the stored hash then verifies against the new password.
    pub fn change_password(
        store: &mut Store,
        session_token: String,
        old_password: String,
        new_password: String,
    ) -> (r: Result<(), AppError>)
        requires
            old(store).wf(),
        ensures
            final(store).wf(),
            final(store).sessions@ == old(store).sessions@,
            final(store).cards@ == old(store).cards@,
            final(store).users@.len() == old(store).users@.len(),
            r is Err ==> *final(store) == *old(store),
            (r matches Err(e) && e is Validation) <==> (spec_session_valid(
                *old(store),
                session_token@,
            ) && new_password_error_message(old_password@, new_password@) is Some),
            r matches Err(e) ==> (e is Validation ==> new_password_error_message(
                old_password@,
                new_password@,
            ) == Some(e.spec_message())),
            (r matches Err(e) && e is Auth) <==> (!spec_session_valid(*old(store), session_token@)
                || (new_password_error_message(old_password@, new_password@) is None && exists|
                uid: i64,
                role: Role,
                j: int,
            |
                #![trigger resolves_to(*old(store), session_token@, uid, role), old(store).users@[j]]
                resolves_to(*old(store), session_token@, uid, role) && 0 <= j < old(
                    store,
                ).users@.len() && old(store).users@[j].id == uid && !password_verifies(
                    old_password@,
                    old(store).users@[j].password_hash@,
                ))),
            r matches Err(e) ==> (e is Auth || e is Validation || e is Storage),
            r is Ok ==> exists|uid: i64, role: Role|
                resolves_to(*old(store), session_token@, uid, role) && forall|i: int|
                    0 <= i < old(store).users@.len() ==> {
                        let pre = #[trigger] old(store).users@[i];
                        let post = final(store).users@[i];
                        if pre.id == uid {
                            &&& post.id == pre.id
                            &&& post.first_name == pre.first_name
                            &&& post.last_name == pre.last_name
                            &&& post.username == pre.username
                            &&& post.email == pre.email
                            &&& post.role == pre.role
                            &&& post.created_at == pre.created_at
                            &&& password_verifies(old_password@, pre.password_hash@)
                            &&& password_verifies(new_password@, post.password_hash@)
                        } else {
                            post == pre
                        }
                    },
    {
        let (uid, role) = match AuthService::require_session_user(store, session_token.as_str()) {
            Ok(p) => p,
            Err(e) => { return Err(e) },
        };
        if let Err(m) = validate_new_password(old_password.as_str(), new_password.as_str()) {
            return Err(AppError::Validation(m));
        }
        let idx = match store.find_user_by_id(uid) {
            Some(j) => j,
            None => { return Err(AppError::Auth("Unauthorized.".to_owned())) },
        };
        let ok = verify_password(old_password.as_str(), store.users[idx].password_hash.as_str());
        if !ok {
            proof {
                assert(resolves_to(*old(store), session_token@, uid, role));
            }
            return Err(AppError::Auth("Old password is not correct.".to_owned()));
        }
        let new_hash = match hash_password(new_password.as_str()) {
            Ok(h) => h,
            Err(m) => { return Err(AppError::Storage(m)) },
        };
        let row = &store.users[idx];
        let updated = UserRow {
            id: row.id,
            first_name: row.first_name.clone(),
            last_name: row.last_name.clone(),
            username: row.username.clone(),
            email: row.email.clone(),
            password_hash: new_hash,
            role: row.role,
            created_at: row.created_at,
        };
        store.users[idx] = updated;
        proof {
            let users = store.users@;
            let prev = old(store).users@;
            assert(resolves_to(*old(store), session_token@, uid, role));
            assert forall|a: int, b: int|
                #![trigger users[a], users[b]]
                0 <= a < users.len() && 0 <= b < users.len() && a != b implies {
                &&& users[a].id != users[b].id
                &&& users[a].username@ != users[b].username@
                &&& users[a].email@ != users[b].email@
            } by {
                if a != idx as int && b != idx as int {
                    assert(users[a] == prev[a] && users[b] == prev[b]);
                } else if a == idx as int {
                    assert(users[b] == prev[b]);
                } else {
                    assert(users[a] == prev[a]);
                }
            }
            assert forall|i2: int|
                0 <= i2 < store.sessions@.len() implies crate::store::has_user_id(
                users,
                (#[trigger] store.sessions@[i2]).user_id,
            ) by {
                let j = choose|j: int|
                    0 <= j < prev.len() && (#[trigger] prev[j]).id == store.sessions@[i2].user_id;
                assert(users[j].id == prev[j].id);
            }
            assert forall|i: int| 0 <= i < prev.len() && prev[i].id != uid implies users[i]
                == prev[i] by {
                assert(prev[idx as int].id == uid);
            }
        }
        Ok(())
    }
}

/// The role a token resolves to is the role of the user row that holds
/// the resolved id.
proof fn lemma_role_of_user_unique(store: Store, token: Seq<char>, uid: i64, role: Role, j: int)
    requires
        store.wf(),
        resolves_to(store, token, uid, role),
        0 <= j < store.users@.len(),
        store.users@[j].id == uid,
    ensures
        store.users@[j].role == role,
{
    let j2 = choose|j2: int|
        0 <= j2 < store.users@.len() && (#[trigger] store.users@[j2]).id == uid
            && store.users@[j2].role == role;
    assert(j == j2);
}

} // verus!
