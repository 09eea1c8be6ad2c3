//! The input checks of a password change: all three supplied passwords
//! must be well-formed and the two new ones must agree, before any stored
//! hash is consulted. Hash verification and the update itself are the
//! embedding application's job.

use vstd::prelude::*;
use vstd::string::StringExecFns;

use crate::domain::admin_password::{admin_password_ok, password_error_message, AdminPassword};

verus! {

/// Failure of a password change as the route reports it: rejected input,
/// or an infrastructure failure.
#[derive(Debug)]
pub enum ChangePasswordError {
    BadRequest(String),
    UnexpectedError(String),
}

impl ChangePasswordError {
    /// The status code the route answers with.
    pub fn status_code(&self) -> (code: u16)
        ensures
            code == (match self {
                ChangePasswordError::BadRequest(_) => 400u16,
                ChangePasswordError::UnexpectedError(_) => 500u16,
            }),
    {
        match self {
            ChangePasswordError::BadRequest(_) => 400,
            ChangePasswordError::UnexpectedError(_) => 500,
        }
    }
}

/// Checks the three passwords of a change-password form, in the order the
/// route does: the current password's shape (reported only as a wrong
/// password), the new password, its confirmation, and finally that the two
/// new ones agree. On success hands back the current and the new password
/// for the caller to verify and store.
pub fn check_password_change(
    current_password: String,
    new_password: String,
    new_password_confirmation: String,
) -> (r: Result<(AdminPassword, AdminPassword), ChangePasswordError>)
    ensures
        (r is Ok) == (admin_password_ok(current_password@) && admin_password_ok(new_password@)
            && admin_password_ok(new_password_confirmation@) && new_password@
            == new_password_confirmation@),
        (r matches Ok(p) ==> p.0@ == current_password@ && p.1@ == new_password@),
        (r matches Err(e) ==> e matches ChangePasswordError::BadRequest(_)),
        !admin_password_ok(current_password@) ==> (r matches Err(
            ChangePasswordError::BadRequest(m),
        ) && m@ == "Wrong password"@),
        admin_password_ok(current_password@) && !admin_password_ok(new_password@) ==> (r matches Err(
            ChangePasswordError::BadRequest(m),
        ) && m@ == password_error_message(new_password@)),
        admin_password_ok(current_password@) && admin_password_ok(new_password@)
            && !admin_password_ok(new_password_confirmation@) ==> (r matches Err(
            ChangePasswordError::BadRequest(m),
        ) && m@ == password_error_message(new_password_confirmation@)),
        admin_password_ok(current_password@) && admin_password_ok(new_password@)
            && admin_password_ok(new_password_confirmation@) && new_password@
            != new_password_confirmation@ ==> (r matches Err(ChangePasswordError::BadRequest(m))
            && m@ == "You entered two different new passwords - the field values must match"@),
{
    let current = match AdminPassword::parse(current_password) {
        Ok(p) => p,
        Err(_) => {
            return Err(ChangePasswordError::BadRequest(String::from_str("Wrong password")));
        },
    };
    let new = match AdminPassword::parse(new_password) {
        Ok(p) => p,
        Err(m) => {
            return Err(ChangePasswordError::BadRequest(m));
        },
    };
    let confirmation = match AdminPassword::parse(new_password_confirmation) {
        Ok(p) => p,
        Err(m) => {
            return Err(ChangePasswordError::BadRequest(m));
        },
    };
    if !(*new.as_string() == *confirmation.as_string()) {
        return Err(
            ChangePasswordError::BadRequest(
                String::from_str(
                    "You entered two different new passwords - the field values must match",
                ),
            ),
        );
    }
    Ok((current, new))
}

} // verus!
