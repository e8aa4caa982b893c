//! The admin pages: the dashboard, the password form and the logout.

pub mod newsletters;

use crate::authentication::middleware::UserId;
use crate::authentication::password::{
    change_password, is_salt, password_change, password_check, password_hash_under,
    validate_credentials, AuthError, AuthFailure, Credentials, HashError, PasswordCheck,
};
use crate::database::{lemma_username_position, Database, DatabaseView};
use crate::flash_messages::{messages_markup, render_messages, FlashMessage, Level, Reply};
use crate::utils::{redirect_to, see_other};
use vstd::prelude::*;
use vstd::string::StringExecFns;

verus! {

pub struct ChangePasswordFormData {
    pub current_password: String,
    pub new_password: String,
    pub new_password_check: String,
}

/// Why a request of a logged-in operator could not be served.
#[derive(Debug, Clone, Copy, PartialEq, Eq, Structural)]
pub enum AdminError {
    /// No user is stored under the id of the session.
    UnknownUser,
    /// The credentials check failed, short of a refusal.
    Authentication(AuthFailure),
    /// The new password could not be hashed.
    Hashing(HashError),
}

impl AdminError {
    /// The status that answers a request which failed this way.
    pub fn status_code(&self) -> (code: u16)
        ensures
            code == 500,
    {
        500
    }
}

/// Reads the name of the user `user_id`.
pub fn get_username(user_id: u128, pool: &Database) -> (username: Result<String, AdminError>)
    requires
        pool@.wf(),
    ensures
        match username {
            Ok(name) => pool@.user(user_id) matches Some(user) && name@ == user.username,
            Err(reason) => reason == AdminError::UnknownUser && pool@.user(user_id) is None,
        },
{
    match pool.user_by_id(user_id) {
        Some(user) => Ok(user.username),
        None => Err(AdminError::UnknownUser),
    }
}

/// The greeting of a user.
pub open spec fn greeting(username: Seq<char>) -> Seq<char> {
    "Welcome "@ + username + "!"@
}

/// Writes the greeting of a user.
pub fn greeting_text(username: &str) -> (text: String)
    ensures
        text@ == greeting(username@),
{
    String::from_str("Welcome ").concat(username).concat("!")
}

/// The greeting that the dashboard shows to the operator who is logged in.
pub fn admin_dashboard(user_id: UserId, pool: &Database) -> (page: Result<String, AdminError>)
    requires
        pool@.wf(),
    ensures
        match page {
            Ok(text) => pool@.user(user_id.0) matches Some(user) && text@ == greeting(
                user.username,
            ),
            Err(reason) => reason == AdminError::UnknownUser && pool@.user(user_id.0) is None,
        },
{
    match get_username(user_id.0, pool) {
        Ok(username) => Ok(greeting_text(username.as_str())),
        Err(reason) => Err(reason),
    }
}

/// The markup that the password form shows for the messages it was left.
pub fn change_password_get(flash_messages: &Vec<FlashMessage>) -> (msgs_html: String)
    ensures
        msgs_html@ == messages_markup(flash_messages@),
{
    render_messages(flash_messages)
}

/// The answer that sends the operator back to the password form with
/// `message`.
fn back_to_form(level: Level, message: &str) -> (reply: Reply)
    ensures
        reply.response@ == redirect_to("/admin/password"@),
        reply.flash matches Some(flash) && flash.level == level && flash.content@ == message@,
{
    Reply {
        response: see_other("/admin/password"),
        flash: Some(FlashMessage { level, content: String::from_str(message) }),
    }
}

/// The first step of a password change: the two new passwords must be the
/// same. When they differ the operator is sent back to the form.
pub fn check_new_password(form: &ChangePasswordFormData) -> (refusal: Option<Reply>)
    ensures
        match refusal {
            None => form.new_password@ == form.new_password_check@,
            Some(reply) => {
                &&& form.new_password@ != form.new_password_check@
                &&& reply.response@ == redirect_to("/admin/password"@)
                &&& reply.flash matches Some(flash) && flash.level == Level::Error
                    && flash.content@
                    == "You entered two different new passwords - the field values must match."@
            },
        },
{
    if form.new_password != form.new_password_check {
        Some(
            back_to_form(
                Level::Error,
                "You entered two different new passwords - the field values must match.",
            ),
        )
    } else {
        None
    }
}

/// The credentials to check before the password of `username` is changed.
pub fn current_credentials(username: String, form: &ChangePasswordFormData) -> (credentials:
    Credentials)
    ensures
        credentials.username == username,
        credentials.password@ == form.current_password@,
{
    Credentials { username, password: form.current_password.clone() }
}

/// The second step of a password change, after the current password was
/// checked. A wrong password sends the operator back to the form; a failure
/// of the check is an internal error; otherwise the change goes on.
pub fn after_credentials_check(checked: Result<u128, AuthError>) -> (step: Result<
    Option<Reply>,
    AuthFailure,
>)
    ensures
        match checked {
            Ok(_) => step matches Ok(None),
            Err(AuthError::InvalidCredentials(_)) => {
                &&& step matches Ok(Some(reply))
                &&& reply.response@ == redirect_to("/admin/password"@)
                &&& reply.flash matches Some(flash) && flash.level == Level::Error
                    && flash.content@ == "The current password is incorrect"@
            },
            Err(AuthError::UnexpectedError(failure)) => step matches Err(f) && f == failure,
        },
{
    match checked {
        Ok(_) => Ok(None),
        Err(AuthError::InvalidCredentials(_)) => Ok(
            Some(back_to_form(Level::Error, "The current password is incorrect")),
        ),
        Err(AuthError::UnexpectedError(failure)) => Err(failure),
    }
}

/// The answer after the password was changed.
pub fn password_changed() -> (reply: Reply)
    ensures
        reply.response@ == redirect_to("/admin/password"@),
        reply.flash matches Some(flash) && flash.level == Level::Info && flash.content@
            == "You have successfully changed your password"@,
{
    back_to_form(Level::Info, "You have successfully changed your password")
}

/// Whether `reply` sends the operator back to the password form with the
/// message `text` at the level `level`.
pub open spec fn sends_back(reply: Reply, level: Level, text: Seq<char>) -> bool {
    &&& reply.response@ == redirect_to("/admin/password"@)
    &&& reply.flash matches Some(flash) && flash.level == level && flash.content@ == text
}

/// How the current password of the form compares to the hash that is stored
/// for the user `user_id`.
pub open spec fn current_password_check(
    db: DatabaseView,
    user_id: u128,
    form: ChangePasswordFormData,
) -> PasswordCheck {
    password_check(form.current_password@, db.users[db.user_position(user_id)].password_hash)
}

/// What a request to change the password comes to once the form has two
/// equal new passwords, the user is stored and the current password is
/// right, given the outcome of hashing the new password: the hash replaces
/// the stored one and the operator is told so, or the failure to hash is an
/// internal error and nothing changes.
pub open spec fn password_replaced(
    before: DatabaseView,
    user_id: u128,
    hashed: Result<Seq<char>, HashError>,
    after: DatabaseView,
    answer: Result<Reply, AdminError>,
) -> bool {
    match hashed {
        Ok(hash) => {
            &&& answer matches Ok(reply) && sends_back(
                reply,
                Level::Info,
                "You have successfully changed your password"@,
            )
            &&& after == before.with_password_hash(user_id, hash)
        },
        Err(reason) => {
            &&& answer matches Err(error) && error == AdminError::Hashing(reason)
            &&& after == before
        },
    }
}

/// Handles a password change by the operator `user_id`.
///
/// Two different new passwords send the operator back to the form with an
/// error. A user that is not stored is an internal error. A current
/// password that is wrong sends the operator back with an error; a stored
/// hash that cannot be checked is an internal error. Only then is the new
/// password hashed, under a fresh salt, and stored, and the operator sent
/// back with a confirmation. The store changes only with the confirmation.
pub fn change_password_post(form: ChangePasswordFormData, user_id: UserId, pool: &mut Database) -> (answer:
    Result<Reply, AdminError>)
    requires
        old(pool)@.wf(),
    ensures
        final(pool)@.wf(),
        if form.new_password@ != form.new_password_check@ {
            &&& answer matches Ok(reply) && sends_back(
                reply,
                Level::Error,
                "You entered two different new passwords - the field values must match."@,
            )
            &&& final(pool)@ == old(pool)@
        } else if !old(pool)@.has_user(user_id.0) {
            &&& answer matches Err(error) && error == AdminError::UnknownUser
            &&& final(pool)@ == old(pool)@
        } else {
            match current_password_check(old(pool)@, user_id.0, form) {
                PasswordCheck::Mismatch => {
                    &&& answer matches Ok(reply) && sends_back(
                        reply,
                        Level::Error,
                        "The current password is incorrect"@,
                    )
                    &&& final(pool)@ == old(pool)@
                },
                PasswordCheck::Malformed => {
                    &&& answer matches Err(error) && error == AdminError::Authentication(
                        AuthFailure::MalformedHash,
                    )
                    &&& final(pool)@ == old(pool)@
                },
                PasswordCheck::Match => exists|salt: Seq<char>|
                    is_salt(salt) && password_replaced(
                        old(pool)@,
                        user_id.0,
                        #[trigger] password_hash_under(form.new_password@, salt),
                        final(pool)@,
                        answer,
                    ),
            }
        },
{
    match check_new_password(&form) {
        Some(reply) => {
            return Ok(reply);
        },
        None => {},
    }
    let username = match get_username(user_id.0, pool) {
        Ok(username) => username,
        Err(reason) => {
            return Err(reason);
        },
    };
    proof {
        // The user is found again under the name that was read for the id.
        let position = pool@.user_position(user_id.0);
        lemma_username_position(pool@, position, username@);
    }
    let credentials = current_credentials(username, &form);
    match after_credentials_check(validate_credentials(pool, credentials)) {
        Ok(None) => {},
        Ok(Some(reply)) => {
            return Ok(reply);
        },
        Err(failure) => {
            return Err(AdminError::Authentication(failure));
        },
    }
    let ghost new_password = form.new_password@;
    let changed = change_password(pool, user_id.0, form.new_password);
    let ghost salt = choose|salt: Seq<char>|
        is_salt(salt) && (pool@, changed) == password_change(
            old(pool)@,
            user_id.0,
            #[trigger] password_hash_under(new_password, salt),
        );
    let answer = match changed {
        Ok(()) => Ok(password_changed()),
        Err(reason) => Err(AdminError::Hashing(reason)),
    };
    assert(password_replaced(
        old(pool)@,
        user_id.0,
        password_hash_under(new_password, salt),
        pool@,
        answer,
    ));
    answer
}

/// The answer to a logout: to the login page, with a farewell.
pub fn logout() -> (reply: Reply)
    ensures
        reply.response@ == redirect_to("/login"@),
        reply.flash matches Some(flash) && flash.level == Level::Info && flash.content@
            == "You have successfully logged out"@,
{
    Reply {
        response: see_other("/login"),
        flash: Some(FlashMessage::info(String::from_str("You have successfully logged out"))),
    }
}

} // verus!
