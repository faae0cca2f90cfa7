//! The login form's outcome: where the browser is sent, and the one-time
//! message it carries back on failure.
use vstd::prelude::*;
use crate::auth::AuthError;

verus! {

#[derive(Clone, Copy, Debug, PartialEq, Eq, Structural)]
pub enum LoginError {
    AuthError,
    UnexpectedError,
}

impl LoginError {
    pub fn from_auth_error(e: AuthError) -> (r: LoginError)
        ensures
            r == (match e {
                AuthError::InvalidCredentials => LoginError::AuthError,
                AuthError::UnexpectedError => LoginError::UnexpectedError,
            }),
    {
        match e {
            AuthError::InvalidCredentials => LoginError::AuthError,
            AuthError::UnexpectedError => LoginError::UnexpectedError,
        }
    }

    /// The text shown to the user.
    pub fn message(&self) -> (r: String)
        ensures
            *self == LoginError::AuthError ==> r@ == "Authentication failed"@,
            *self == LoginError::UnexpectedError ==> r@ == "Something went wrong"@,
    {
        match self {
            LoginError::AuthError => String::from_str("Authentication failed"),
            LoginError::UnexpectedError => String::from_str("Something went wrong"),
        }
    }
}

/// A `303 See Other` answer to a login attempt.
pub struct LoginRedirect {
    pub location: String,
    /// Message for the one-time flash cookie, set only on failure.
    pub flash: Option<String>,
}

/// Where a login attempt with the credential check result `result` leads:
/// home on success; back to the form with the error's message otherwise.
pub fn login_redirect(result: Result<u128, AuthError>) -> (r: LoginRedirect)
    ensures
        result is Ok ==> r.location@ == "/"@ && r.flash is None,
        result matches Err(AuthError::InvalidCredentials) ==> r.location@ == "/login"@
            && (r.flash matches Some(f) && f@ == "Authentication failed"@),
        result matches Err(AuthError::UnexpectedError) ==> r.location@ == "/login"@
            && (r.flash matches Some(f) && f@ == "Something went wrong"@),
{
    match result {
        Ok(_) => LoginRedirect { location: String::from_str("/"), flash: None },
        Err(e) => LoginRedirect {
            location: String::from_str("/login"),
            flash: Some(LoginError::from_auth_error(e).message()),
        },
    }
}

} // verus!
