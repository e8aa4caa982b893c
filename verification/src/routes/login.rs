//! Logging in.

use crate::authentication::password::{
    login_result, validate_credentials, AuthError, Credentials,
};
use crate::database::Database;
use crate::flash_messages::{render_messages, messages_markup, FlashMessage, Level, Reply};
use crate::http::Response;
use crate::utils::{redirect_to, see_other};
use vstd::prelude::*;
use vstd::string::StringExecFns;

verus! {

pub struct LoginFormData {
    pub username: String,
    pub password: String,
}

#[derive(Debug, Clone, Copy, PartialEq, Eq, Structural)]
pub enum LoginError {
    AuthError(AuthError),
    UnexpectedError(AuthError),
}

/// The markup that the login page shows for the messages it was left.
pub fn get_login(flash_messages: &Vec<FlashMessage>) -> (error_html: String)
    ensures
        error_html@ == messages_markup(flash_messages@),
{
    render_messages(flash_messages)
}

impl LoginError {
    /// How a failed credentials check is reported to the login page: a
    /// refusal as such, anything else as unexpected.
    pub open spec fn of(error: AuthError) -> LoginError {
        match error {
            AuthError::InvalidCredentials(_) => LoginError::AuthError(error),
            AuthError::UnexpectedError(_) => LoginError::UnexpectedError(error),
        }
    }

    pub fn from_auth_error(error: AuthError) -> (login_error: LoginError)
        ensures
            login_error == LoginError::of(error),
    {
        match error {
            AuthError::InvalidCredentials(_) => LoginError::AuthError(error),
            AuthError::UnexpectedError(_) => LoginError::UnexpectedError(error),
        }
    }

    /// The status of the answer to a failed login: always a redirect.
    pub fn status_code(&self) -> (code: u16)
        ensures
            code == 303,
    {
        303
    }

    /// What the error says of itself: a refusal is reported as such, whatever
    /// lies under it; anything else gives its cause.
    pub open spec fn text(self) -> Seq<char> {
        match self {
            LoginError::AuthError(_) => "Invalid credentials"@,
            LoginError::UnexpectedError(error) => error.text(),
        }
    }

    pub fn message(&self) -> (text: &'static str)
        ensures
            text@ == self.text(),
    {
        match self {
            LoginError::AuthError(_) => "Invalid credentials",
            LoginError::UnexpectedError(error) => error.message(),
        }
    }

    /// The answer to a failed login: back to the login page, with the error
    /// as a message.
    pub fn error_response(&self) -> (reply: Reply)
        ensures
            reply.response@ == redirect_to("/login"@),
            reply.flash matches Some(flash) && flash.level == Level::Error && flash.content@
                == self.text(),
    {
        Reply {
            response: see_other("/login"),
            flash: Some(FlashMessage::error(String::from_str(self.message()))),
        }
    }
}

/// A login that succeeded: who logged in, and where to send them.
#[derive(Debug, PartialEq, Eq)]
pub struct LoggedIn {
    pub user_id: u128,
    pub response: Response,
}

/// Decides a login from the outcome of the credentials check: the user is
/// sent on to the dashboard, or the failure is reported.
pub fn login_outcome(validated: Result<u128, AuthError>) -> (outcome: Result<LoggedIn, LoginError>)
    ensures
        match validated {
            Ok(user_id) => outcome matches Ok(logged_in) && logged_in.user_id == user_id
                && logged_in.response@ == redirect_to("/admin/dashboard"@),
            Err(error) => outcome matches Err(login_error) && login_error == LoginError::of(error),
        },
{
    match validated {
        Ok(user_id) => Ok(LoggedIn { user_id, response: see_other("/admin/dashboard") }),
        Err(error) => Err(LoginError::from_auth_error(error)),
    }
}

/// The credentials check that a login outcome goes back to.
pub open spec fn validation_of(outcome: Result<LoggedIn, LoginError>) -> Result<u128, AuthError> {
    match outcome {
        Ok(logged_in) => Ok(logged_in.user_id),
        Err(LoginError::AuthError(error)) => Err(error),
        Err(LoginError::UnexpectedError(error)) => Err(error),
    }
}

/// Handles a login: the credentials of the form are checked against the
/// stored users, and the user is sent on to the dashboard or back to the
/// login page.
pub fn post_login(form: LoginFormData, pool: &Database) -> (outcome: Result<LoggedIn, LoginError>)
    requires
        pool@.wf(),
    ensures
        validation_of(outcome) == login_result(pool@.user_named(form.username@), form.password@),
        match outcome {
            Ok(logged_in) => logged_in.response@ == redirect_to("/admin/dashboard"@),
            Err(login_error) => login_error == LoginError::of(validation_of(outcome)->Err_0),
        },
{
    let credentials = credentials_of(form);
    login_outcome(validate_credentials(pool, credentials))
}

/// The credentials that a login form carries.
pub fn credentials_of(form: LoginFormData) -> (credentials: Credentials)
    ensures
        credentials.username == form.username,
        credentials.password == form.password,
{
    Credentials { username: form.username, password: form.password }
}

} // verus!
