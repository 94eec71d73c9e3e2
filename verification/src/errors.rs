use vstd::prelude::*;

verus! {

/// Tagged error kinds carried by every fallible operation of the crate,
/// each holding a human-readable message.
///
/// `Validation`: malformed input, recoverable by correcting the input.
/// `Conflict`: a uniqueness violation (username, email, token hash).
/// `Auth`: bad credentials or an invalid/revoked session token.
/// `Forbidden`: a valid session whose role does not allow the operation.
/// `NotFound`: a referenced entity is absent.
/// `Storage`: an unrecoverable failure of the underlying store
/// (id space exhausted, hashing failure, a poisoned lock).
#[derive(Debug)]
pub enum AppError {
    Validation(String),
    Conflict(String),
    Auth(String),
    Forbidden(String),
    NotFound(String),
    Storage(String),
}

impl AppError {
    /// The message carried by the error, whatever its kind.
    pub open spec fn spec_message(self) -> Seq<char> {
        match self {
            AppError::Validation(m) => m@,
            AppError::Conflict(m) => m@,
            AppError::Auth(m) => m@,
            AppError::Forbidden(m) => m@,
            AppError::NotFound(m) => m@,
            AppError::Storage(m) => m@,
        }
    }

    /// Hands the descriptive message out, as the single string surfaced
    /// to a caller.
    pub fn message(&self) -> (r: &String)
        ensures
            r@ == self.spec_message(),
    {
        match self {
            AppError::Validation(m) => m,
            AppError::Conflict(m) => m,
            AppError::Auth(m) => m,
            AppError::Forbidden(m) => m,
            AppError::NotFound(m) => m,
            AppError::Storage(m) => m,
        }
    }
}

} // verus!
