//! The types the authentication layer exchanges with the rest of the
//! service. Password hashing and verification themselves live with the
//! embedding application: they are no part of the publish/delivery core.

use vstd::prelude::*;

verus! {

/// What a login form supplies.
pub struct Credentials {
    pub username: String,
    pub password: String,
}

/// Why authentication failed: the credentials were wrong, or the
/// infrastructure failed while checking them.
#[derive(Debug)]
pub enum AuthError {
    InvalidCredentials(String),
    UnexpectedError(String),
}

impl AuthError {
    /// The status code an authentication failure answers with.
    pub fn status_code(&self) -> (code: u16)
        ensures
            code == (match self {
                AuthError::InvalidCredentials(_) => 401u16,
                AuthError::UnexpectedError(_) => 500u16,
            }),
    {
        match self {
            AuthError::InvalidCredentials(_) => 401,
            AuthError::UnexpectedError(_) => 500,
        }
    }
}

} // verus!
