//! What is asked of a registration and of a request for an access token before
//! anything is stored.
use crate::error::{AppError, AppErrorView};
use crate::handlers::boards::refused;
use crate::models::token::CreateApiToken;
use vstd::prelude::*;
use vstd::string::*;

verus! {

/// A request to register a user.
#[derive(Clone, Debug, PartialEq, Eq)]
pub struct CreateUser {
    pub email: String,
    pub password: String,
    pub name: String,
}

/// A request to log in.
#[derive(Clone, Debug, PartialEq, Eq)]
pub struct LoginRequest {
    pub email: String,
    pub password: String,
}

/// The shortest password that is accepted, in bytes.
pub const MIN_PASSWORD_LENGTH: usize = 8;

/// Why a registration is turned down, if it is: every field must be filled in,
/// and the password must have eight bytes at least in UTF-8.
pub open spec fn registration_refused(input: CreateUser) -> Option<AppErrorView> {
    if input.email@.len() == 0 || input.password@.len() == 0 || input.name@.len() == 0 {
        Some(AppErrorView::Validation("All fields are required"@))
    } else if vstd::utf8::encode_utf8(input.password@).len() < MIN_PASSWORD_LENGTH {
        Some(AppErrorView::Validation("Password must be at least 8 characters"@))
    } else {
        None
    }
}

/// Checks a registration before the user is created.
pub fn validate_registration(input: &CreateUser) -> (result: Result<(), AppError>)
    ensures
        match registration_refused(*input) {
            Some(e) => refused(result, e),
            None => result is Ok,
        },
{
    if input.email.as_str().unicode_len() == 0 || input.password.as_str().unicode_len() == 0
        || input.name.as_str().unicode_len() == 0 {
        return Err(AppError::Validation("All fields are required".to_owned()));
    }
    if input.password.as_str().as_bytes().len() < MIN_PASSWORD_LENGTH {
        return Err(AppError::Validation("Password must be at least 8 characters".to_owned()));
    }
    Ok(())
}

/// Checks a request for an access token: the token needs a name.
pub fn validate_token_request(input: &CreateApiToken) -> (result: Result<(), AppError>)
    ensures
        if input.name@.len() == 0 {
            refused(result, AppErrorView::Validation("Token name is required"@))
        } else {
            result is Ok
        },
{
    if input.name.as_str().unicode_len() == 0 {
        return Err(AppError::Validation("Token name is required".to_owned()));
    }
    Ok(())
}

} // verus!
