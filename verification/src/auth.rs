use vstd::prelude::*;
use crate::clock::now_unix;
use crate::domain::Role;
use crate::dto::LoginResponse;
use crate::errors::AppError;
use crate::security::{hash_password, hash_token, mint_session_token, password_verifies,
    token_digest, verify_password};
use crate::store::{has_matching_user, has_session_digest, has_user_id, identity_taken,
    is_first_matching_user, session_active, SessionRow, Store, UserRow};
use crate::text::{contains_char, trim_str, trimmed};

verus! {

/// The message `validate_register` answers the first failing field
/// constraint with, `None` when every constraint holds.
pub open spec fn register_error_message(
    first_name: Seq<char>,
    last_name: Seq<char>,
    username: Seq<char>,
    email: Seq<char>,
    password: Seq<char>,
) -> Option<Seq<char>> {
    if trimmed(first_name).len() < 2 {
        Some("First name must be at least 2 characters."@)
    } else if trimmed(last_name).len() < 2 {
        Some("Last name must be at least 2 characters."@)
    } else if trimmed(username).len() < 3 {
        Some("Username must be at least 3 characters."@)
    } else if !email.contains('@') {
        Some("Email is not valid."@)
    } else if password.len() < 8 {
        Some("Password must be at least 8 characters."@)
    } else {
        None
    }
}

/// Field constraints of registration: trimmed names of at least 2
/// characters, trimmed username of at least 3, an email containing `@`,
/// a password of at least 8 characters.
pub fn validate_register(
    first_name: &str,
    last_name: &str,
    username: &str,
    email: &str,
    password: &str,
) -> (r: Result<(), String>)
    ensures
        r is Ok <==> register_error_message(first_name@, last_name@, username@, email@, password@)
            is None,
        r matches Err(m) ==> register_error_message(
            first_name@,
            last_name@,
            username@,
            email@,
            password@,
        ) == Some(m@),
{
    if trim_str(first_name).unicode_len() < 2 {
        return Err("First name must be at least 2 characters.".to_owned());
    }
    if trim_str(last_name).unicode_len() < 2 {
        return Err("Last name must be at least 2 characters.".to_owned());
    }
    if trim_str(username).unicode_len() < 3 {
        return Err("Username must be at least 3 characters.".to_owned());
    }
    if !contains_char(email, '@') {
        return Err("Email is not valid.".to_owned());
    }
    if password.unicode_len() < 8 {
        return Err("Password must be at least 8 characters.".to_owned());
    }
    Ok(())
}

/// The message `validate_login` answers empty inputs with, `None` when
/// both are present.
pub open spec fn login_error_message(identifier: Seq<char>, password: Seq<char>) -> Option<
    Seq<char>,
> {
    if trimmed(identifier).len() == 0 {
        Some("Enter username or email."@)
    } else if password.len() == 0 {
        Some("Enter password."@)
    } else {
        None
    }
}

/// Login inputs must be non-blank: an identifier with substance after
/// trimming, and a non-empty password.
pub fn validate_login(identifier: &str, password: &str) -> (r: Result<(), String>)
    ensures
        r is Ok <==> login_error_message(identifier@, password@) is None,
        r matches Err(m) ==> login_error_message(identifier@, password@) == Some(m@),
{
    if trim_str(identifier).unicode_len() == 0 {
        return Err("Enter username or email.".to_owned());
    }
    if password.is_empty() {
        return Err("Enter password.".to_owned());
    }
    Ok(())
}

/// Whether the token maps to a non-revoked session: blank tokens are
/// invalid without a lookup, others by the digest of their trimmed form.
pub open spec fn spec_session_valid(store: Store, token: Seq<char>) -> bool {
    trimmed(token).len() > 0 && session_active(store.sessions@, token_digest(trimmed(token)))
}

/// Whether the token resolves to this user id and role: a non-revoked
/// session carries the digest and names the user, who holds the role.
pub open spec fn resolves_to(store: Store, token: Seq<char>, user_id: i64, role: Role) -> bool {
    &&& spec_session_valid(store, token)
    &&& exists|i: int|
        0 <= i < store.sessions@.len() && (#[trigger] store.sessions@[i]).token_hash@
            == token_digest(trimmed(token)) && store.sessions@[i].revoked_at is None
            && store.sessions@[i].user_id == user_id
    &&& exists|j: int|
        0 <= j < store.users@.len() && (#[trigger] store.users@[j]).id == user_id
            && store.users@[j].role == role
}

/// The first matching index of the login lookup is unique.
pub proof fn lemma_first_match_unique(users: Seq<UserRow>, ident: Seq<char>, i: int, j: int)
    requires
        is_first_matching_user(users, ident, i),
        is_first_matching_user(users, ident, j),
    ensures
        i == j,
{
}

/// Token-based session authentication: registration, login, validation,
/// revocation, and the resolution chokepoint every authorization-gated
/// operation goes through.
pub struct AuthService;

impl AuthService {
    /// Registers a user with role `User`: validates the field
    /// constraints, then relies on the uniqueness check at the insert
    /// boundary; the stored row carries the trimmed fields and a hash
    /// that verifies against the password.
    pub fn register_user(
        store: &mut Store,
        first_name: String,
        last_name: String,
        username: String,
        email: String,
        password: String,
    ) -> (r: Result<(), AppError>)
        requires
            old(store).wf(),
        ensures
            final(store).wf(),
            final(store).sessions@ == old(store).sessions@,
            final(store).cards@ == old(store).cards@,
            r is Err ==> *final(store) == *old(store),
            (r matches Err(e) && e is Validation) <==> register_error_message(
                first_name@,
                last_name@,
                username@,
                email@,
                password@,
            ) is Some,
            r matches Err(e) ==> (e is Validation ==> register_error_message(
                first_name@,
                last_name@,
                username@,
                email@,
                password@,
            ) == Some(e.spec_message())),
            (r matches Err(e) && e is Conflict) <==> (register_error_message(
                first_name@,
                last_name@,
                username@,
                email@,
                password@,
            ) is None && identity_taken(old(store).users@, trimmed(username@), trimmed(email@))),
            r matches Err(e) ==> (e is Validation || e is Conflict || e is Storage),
            r is Ok ==> {
                &&& register_error_message(first_name@, last_name@, username@, email@, password@)
                    is None
                &&& !identity_taken(old(store).users@, trimmed(username@), trimmed(email@))
                &&& final(store).users@.len() == old(store).users@.len() + 1
                &&& final(store).users@.drop_last() == old(store).users@
                &&& {
                    let u = final(store).users@.last();
                    &&& u.id == old(store).next_user_id
                    &&& u.first_name@ == trimmed(first_name@)
                    &&& u.last_name@ == trimmed(last_name@)
                    &&& u.username@ == trimmed(username@)
                    &&& u.email@ == trimmed(email@)
                    &&& u.role == Role::User
                    &&& password_verifies(password@, u.password_hash@)
                }
            },
    {
        if let Err(m) = validate_register(
            first_name.as_str(),
            last_name.as_str(),
            username.as_str(),
            email.as_str(),
            password.as_str(),
        ) {
            return Err(AppError::Validation(m));
        }
        let username_t: String = trim_str(username.as_str()).to_owned();
        let email_t: String = trim_str(email.as_str()).to_owned();
        if store.identity_exists(username_t.as_str(), email_t.as_str()) {
            return Err(AppError::Conflict("Username or email already exists.".to_owned()));
        }
        let password_hash = match hash_password(password.as_str()) {
            Ok(h) => h,
            Err(m) => { return Err(AppError::Storage(m)) },
        };
        let first_t: String = trim_str(first_name.as_str()).to_owned();
        let last_t: String = trim_str(last_name.as_str()).to_owned();
        let created_at = now_unix();
        match store.insert_user(
            first_t,
            last_t,
            username_t,
            email_t,
            password_hash,
            Role::User,
            created_at,
        ) {
            Ok(_) => Ok(()),
            Err(e) => Err(e),
        }
    }

    /// Logs a user in by username or email. Unknown identifier and wrong
    /// password are answered with the same `Auth` error, so a caller
    /// cannot enumerate users. On success a fresh random token is handed
    /// out once, and only its digest is stored, in a new non-revoked
    /// session row.
    pub fn login_user(store: &mut Store, identifier: String, password: String) -> (r: Result<
        LoginResponse,
        AppError,
    >)
        requires
            old(store).wf(),
        ensures
            final(store).wf(),
            final(store).users@ == old(store).users@,
            final(store).cards@ == old(store).cards@,
            r is Err ==> *final(store) == *old(store),
            (r matches Err(e) && e is Validation) <==> login_error_message(identifier@, password@)
                is Some,
            r matches Err(e) ==> (e is Validation ==> login_error_message(identifier@, password@)
                == Some(e.spec_message())),
            r matches Err(e) ==> (e is Auth ==> e.spec_message() == "Invalid credentials."@),
            (r matches Err(e) && e is Auth) <==> (login_error_message(identifier@, password@)
                is None && (!has_matching_user(old(store).users@, trimmed(identifier@)) || exists|
                i: int,
            |
                is_first_matching_user(old(store).users@, trimmed(identifier@), i)
                    && !password_verifies(
                    password@,
                    (#[trigger] old(store).users@[i]).password_hash@,
                ))),
            r matches Err(e) ==> (e is Validation || e is Auth || e is Storage),
            r matches Ok(resp) ==> {
                &&& exists|i: int|
                    is_first_matching_user(old(store).users@, trimmed(identifier@), i)
                        && password_verifies(
                        password@,
                        (#[trigger] old(store).users@[i]).password_hash@,
                    ) && final(store).sessions@.last().user_id == old(store).users@[i].id
                &&& final(store).sessions@.len() == old(store).sessions@.len() + 1
                &&& final(store).sessions@.drop_last() == old(store).sessions@
                &&& final(store).sessions@.last().token_hash@ == token_digest(
                    resp.session_token@,
                )
                &&& final(store).sessions@.last().revoked_at is None
                &&& resp.session_token@.len() == 36
                &&& trimmed(resp.session_token@) == resp.session_token@
                &&& spec_session_valid(*final(store), resp.session_token@)
            },
    {
        if let Err(m) = validate_login(identifier.as_str(), password.as_str()) {
            return Err(AppError::Validation(m));
        }
        let ident = trim_str(identifier.as_str());
        let idx = match store.find_user_by_identifier(ident) {
            Some(i) => i,
            None => { return Err(AppError::Auth("Invalid credentials.".to_owned())) },
        };
        let ok = verify_password(password.as_str(), store.users[idx].password_hash.as_str());
        if !ok {
            return Err(AppError::Auth("Invalid credentials.".to_owned()));
        }
        let user_id = store.users[idx].id;
        let session_token = mint_session_token();
        let digest = hash_token(session_token.as_str());
        let created_at = now_unix();
        proof {
            assert(has_user_id(store.users@, user_id));
        }
        match store.insert_session(user_id, digest, created_at) {
            Ok(_) => {
                proof {
                    if exists|i: int|
                        is_first_matching_user(old(store).users@, trimmed(identifier@), i)
                            && !password_verifies(
                            password@,
                            (#[trigger] old(store).users@[i]).password_hash@,
                        ) {
                        let i = choose|i: int|
                            is_first_matching_user(old(store).users@, trimmed(identifier@), i)
                                && !password_verifies(
                                password@,
                                (#[trigger] old(store).users@[i]).password_hash@,
                            );
                        lemma_first_match_unique(
                            old(store).users@,
                            trimmed(identifier@),
                            i,
                            idx as int,
                        );
                    }
                }
                Ok(LoginResponse { session_token })
            },
            Err(e) => Err(e),
        }
    }

    /// Whether the token maps to a non-revoked session. Total: a blank,
    /// unknown or revoked token is answered with `false`, never an error.
    pub fn validate_session(store: &Store, session_token: String) -> (r: bool)
        requires
            store.wf(),
        ensures
            r == spec_session_valid(*store, session_token@),
    {
        let t = trim_str(session_token.as_str());
        if t.unicode_len() == 0 {
            return false;
        }
        let digest = hash_token(t);
        match store.find_session_by_digest(&digest) {
            Some(i) => {
                let active = store.sessions[i].revoked_at.is_none();
                proof {
                    if !active && session_active(store.sessions@, digest@) {
                        let j = choose|j: int|
                            0 <= j < store.sessions@.len() && (#[trigger] store.sessions@[j]).token_hash@
                                == digest@ && store.sessions@[j].revoked_at is None;
                        assert(store.sessions@[j].token_hash@ == store.sessions@[i as int].token_hash@);
                    }
                }
                active
            },
            None => false,
        }
    }

    /// Revokes the session the token maps to by stamping its revocation
    /// time. Idempotent and total: an unknown or already-revoked token is
    /// not an error, and afterwards the token never validates.
    pub fn logout(store: &mut Store, session_token: String) -> (r: Result<(), AppError>)
        requires
            old(store).wf(),
        ensures
            final(store).wf(),
            r is Ok,
            final(store).users@ == old(store).users@,
            final(store).cards@ == old(store).cards@,
            final(store).next_user_id == old(store).next_user_id,
            final(store).next_session_id == old(store).next_session_id,
            final(store).next_card_id == old(store).next_card_id,
            final(store).sessions@.len() == old(store).sessions@.len(),
            !session_active(final(store).sessions@, token_digest(trimmed(session_token@))),
            forall|i: int|
                0 <= i < old(store).sessions@.len() ==> {
                    let pre = #[trigger] old(store).sessions@[i];
                    let post = final(store).sessions@[i];
                    &&& post.id == pre.id
                    &&& post.user_id == pre.user_id
                    &&& post.token_hash == pre.token_hash
                    &&& post.created_at == pre.created_at
                    &&& (pre.token_hash@ != token_digest(trimmed(session_token@)) ==> post == pre)
                    &&& (pre.revoked_at is Some ==> post == pre)
                    &&& (pre.token_hash@ == token_digest(trimmed(session_token@))
                        && pre.revoked_at is None ==> post.revoked_at is Some)
                },
    {
        let t = trim_str(session_token.as_str());
        let digest = hash_token(t);
        match store.find_session_by_digest(&digest) {
            Some(i) => {
                if store.sessions[i].revoked_at.is_none() {
                    let now = now_unix();
                    let row = &store.sessions[i];
                    let updated = SessionRow {
                        id: row.id,
                        user_id: row.user_id,
                        token_hash: row.token_hash.clone(),
                        created_at: row.created_at,
                        revoked_at: Some(now),
                    };
                    store.sessions[i] = updated;
                }
                proof {
                    let d = token_digest(trimmed(session_token@));
                    if session_active(store.sessions@, d) {
                        let j = choose|j: int|
                            0 <= j < store.sessions@.len() && (#[trigger] store.sessions@[j]).token_hash@
                                == d && store.sessions@[j].revoked_at is None;
                        assert(old(store).sessions@[j].token_hash@ == old(store).sessions@[i as int].token_hash@);
                    }
                }
                Ok(())
            },
            None => {
                proof {
                    let d = token_digest(trimmed(session_token@));
                    if session_active(store.sessions@, d) {
                        let j = choose|j: int|
                            0 <= j < store.sessions@.len() && (#[trigger] store.sessions@[j]).token_hash@
                                == d && store.sessions@[j].revoked_at is None;
                        assert(has_session_digest(store.sessions@, d));
                    }
                }
                Ok(())
            },
        }
    }

    /// The single chokepoint of authorization: resolves the token to the
    /// owning user's id and role, or fails with `Auth` — before any role
    /// is looked at.
    pub fn require_session_user(store: &Store, session_token: &str) -> (r: Result<
        (i64, Role),
        AppError,
    >)
        requires
            store.wf(),
        ensures
            r is Ok <==> spec_session_valid(*store, session_token@),
            r matches Err(e) ==> e is Auth && e.spec_message() == "Unauthorized."@,
            r matches Ok(p) ==> resolves_to(*store, session_token@, p.0, p.1),
    {
        let t = trim_str(session_token);
        if t.unicode_len() == 0 {
            return Err(AppError::Auth("Unauthorized.".to_owned()));
        }
        let digest = hash_token(t);
        let sidx = match store.find_session_by_digest(&digest) {
            Some(i) => i,
            None => { return Err(AppError::Auth("Unauthorized.".to_owned())) },
        };
        if store.sessions[sidx].revoked_at.is_some() {
            proof {
                if session_active(store.sessions@, digest@) {
                    let j = choose|j: int|
                        0 <= j < store.sessions@.len() && (#[trigger] store.sessions@[j]).token_hash@
                            == digest@ && store.sessions@[j].revoked_at is None;
                    assert(store.sessions@[j].token_hash@ == store.sessions@[sidx as int].token_hash@);
                }
            }
            return Err(AppError::Auth("Unauthorized.".to_owned()));
        }
        let user_id = store.sessions[sidx].user_id;
        proof {
            assert(has_user_id(store.users@, user_id));
        }
        let uidx = match store.find_user_by_id(user_id) {
            Some(j) => j,
            None => { return Err(AppError::Auth("Unauthorized.".to_owned())) },
        };
        let role = store.users[uidx].role;
        Ok((user_id, role))
    }
}

/// Law: after a successful login the store holds a non-revoked session
/// for the digest of the returned token, so `validate_session` answers it
/// with `true`; after `logout` of that token no such session is left, so
/// `validate_session` answers `false`. (`logout` itself is total: its
/// contract returns `Ok` for unknown tokens too.)
pub proof fn lemma_session_lifecycle(after_login: Store, after_logout: Store, token: Seq<char>)
    requires
        token.len() > 0,
        trimmed(token) == token,
        session_active(after_login.sessions@, token_digest(token)),
        !session_active(after_logout.sessions@, token_digest(trimmed(token))),
    ensures
        spec_session_valid(after_login, token),
        !spec_session_valid(after_logout, token),
{
}

/// Law: once a registration has stored a user, a second registration with
/// the same trimmed username — or the same trimmed email — finds the
/// identity taken, and `register_user`'s contract answers exactly that
/// case with `Conflict`.
pub proof fn lemma_register_twice_conflicts(after: Store, username2: Seq<char>, email2: Seq<char>)
    requires
        after.users@.len() > 0,
        after.users@.last().username@ == trimmed(username2) || after.users@.last().email@
            == trimmed(email2),
    ensures
        identity_taken(after.users@, trimmed(username2), trimmed(email2)),
{
    let n = after.users@.len() - 1;
    assert(0 <= n < after.users@.len() && ((#[trigger] after.users@[n]).username@ == trimmed(
        username2,
    ) || after.users@[n].email@ == trimmed(email2)));
}

} // verus!
