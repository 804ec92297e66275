//! Domain error taxonomy, and the classification of backend failure codes
//! into it.

use vstd::prelude::*;
use vstd::string::StringExecFns;

verus! {

/// Errors surfaced by the auth service to its caller.
#[derive(Debug, Clone, Copy, PartialEq, Eq, Structural)]
pub enum AuthError {
    /// The input form is malformed; no store access has happened.
    ValidationError,
    /// A user with the given email already exists in the store.
    EmailAlreadyExists,
    /// A login-time lookup found no user under the given email.
    EmailDoesNotExist,
    /// A generic missing entity, outside the login path.
    NotFound,
    /// The password did not match the stored hash.
    UnauthorizedError,
    /// An opaque store, cache or connectivity fault.
    Backend,
}

/// Errors surfaced by the user store to the auth service.
#[derive(Debug, Clone, Copy, PartialEq, Eq, Structural)]
pub enum StoreError {
    /// The email is already present in the store.
    DuplicateEmail,
    /// No record exists for the given id or email.
    NotFound,
    /// Any other backend fault.
    Backend,
}

/// Classifies a backend's native failure code into the store taxonomy.
///
/// A relational backend signals a unique-constraint violation with the
/// SQLSTATE integrity-violation class `23000`; every other code is an opaque
/// backend fault. A host adapter extracts the code string from its driver's
/// error value and hands it here, so that the mapping from backend codes to
/// the domain taxonomy lives in one translation point.
pub fn classify_backend_code(code: Option<&String>) -> (r: StoreError)
    ensures
        r == (match code {
            Some(c) => if c@ == "23000"@ {
                StoreError::DuplicateEmail
            } else {
                StoreError::Backend
            },
            None => StoreError::Backend,
        }),
{
    match code {
        Some(c) => {
            let unique_violation: String = String::from_str("23000");
            if *c == unique_violation {
                StoreError::DuplicateEmail
            } else {
                StoreError::Backend
            }
        },
        None => StoreError::Backend,
    }
}

/// Maps a store error to the domain error returned to the caller, outside
/// the login path: a duplicate email is re-signalled as `EmailAlreadyExists`,
/// a missing row as the generic `NotFound`, and anything else passes through
/// as an opaque backend fault.
pub fn auth_error_of_store(e: StoreError) -> (r: AuthError)
    ensures
        r == (match e {
            StoreError::DuplicateEmail => AuthError::EmailAlreadyExists,
            StoreError::NotFound => AuthError::NotFound,
            StoreError::Backend => AuthError::Backend,
        }),
{
    match e {
        StoreError::DuplicateEmail => AuthError::EmailAlreadyExists,
        StoreError::NotFound => AuthError::NotFound,
        StoreError::Backend => AuthError::Backend,
    }
}

} // verus!
