use vstd::prelude::*;
use crate::text::{char_is_whitespace, trimmed, lemma_trimmed_no_ws};
use argon2::password_hash::{PasswordHash, PasswordHasher, PasswordVerifier, SaltString};
use argon2::Argon2;
use rand::rngs::OsRng;
use sha2::{Digest, Sha256};

verus! {

/// Whether Argon2 verification of `password` against the encoded hash
/// string `encoded` succeeds. Verification recomputes the digest from the
/// algorithm, parameters and salt carried inside `encoded`, so the result
/// is a function of the two strings alone.
pub uninterp spec fn password_verifies(password: Seq<char>, encoded: Seq<char>) -> bool;

/// The lowercase hexadecimal SHA-256 digest of `token`, a function of the
/// token alone.
pub uninterp spec fn token_digest(token: Seq<char>) -> Seq<char>;

/// Relies on argon2's PasswordHasher::hash_password with a fresh random
/// salt from OsRng: the encoded PHC string it returns verifies against the
/// password it was derived from. The salt is random, so nothing else is
/// promised of the string, and repeated calls differ.
#[verifier::external_body]
pub fn hash_password(password: &str) -> (r: Result<String, String>)
    ensures
        r matches Ok(h) ==> password_verifies(password@, h@),
{
    let salt = SaltString::generate(&mut OsRng);
    let hash = Argon2::default()
        .hash_password(password.as_bytes(), &salt)
        .map_err(|e| format!("Hash failed: {e}"))?
        .to_string();
    Ok(hash)
}

/// Relies on argon2's PasswordVerifier::verify_password (and the PHC string
/// parser of the password-hash crate): deterministic verification of
/// `password` against `hash`. A malformed stored hash fails closed.
#[verifier::external_body]
pub fn verify_password(password: &str, hash: &str) -> (r: bool)
    ensures
        r == password_verifies(password@, hash@),
{
    match PasswordHash::new(hash) {
        Ok(parsed) => Argon2::default()
            .verify_password(password.as_bytes(), &parsed)
            .is_ok(),
        Err(_) => false,
    }
}

/// Relies on sha2's Sha256 and hex::encode: the deterministic one-way
/// digest of a bearer token, used only for storage and equality lookup.
#[verifier::external_body]
pub fn hash_token(raw_token: &str) -> (r: String)
    ensures
        r@ == token_digest(raw_token@),
{
    let mut hasher = Sha256::new();
    hasher.update(raw_token.as_bytes());
    hex::encode(hasher.finalize())
}

/// Relies on uuid's Uuid::new_v4 and its Display form: a fresh random v4
/// UUID printed as 36 hyphenated lowercase hexadecimal characters, none of
/// which is white space. The value is random: nothing relates two calls.
#[verifier::external_body]
pub fn mint_token() -> (r: String)
    ensures
        r@.len() == 36,
        forall|j: int| 0 <= j < r@.len() ==> !char_is_whitespace(#[trigger] r@[j]),
{
    uuid::Uuid::new_v4().to_string()
}

/// A freshly minted token is left whole by trimming and is not blank.
pub fn mint_session_token() -> (r: String)
    ensures
        r@.len() == 36,
        trimmed(r@) == r@,
{
    let t = mint_token();
    proof {
        lemma_trimmed_no_ws(t@);
    }
    t
}

/// Law: token hashing is deterministic — two calls on the same token
/// return the same digest.
pub fn token_hash_deterministic(raw_token: &str) -> (r: (String, String))
    ensures
        r.0@ == r.1@,
{
    (hash_token(raw_token), hash_token(raw_token))
}

/// Law: a password verifies against a hash freshly derived from it.
/// `None` only when the hasher itself failed.
pub fn password_round_trip(password: &str) -> (r: Option<bool>)
    ensures
        r matches Some(ok) ==> ok,
{
    match hash_password(password) {
        Ok(h) => Some(verify_password(password, h.as_str())),
        Err(_) => None,
    }
}

} // verus!
