//! Validated domain values: subscriber addresses and admin passwords.

pub mod admin_password;
pub mod subscriber_email;
