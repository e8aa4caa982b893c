//! Confirming a subscription with the token from the confirmation email.

use crate::database::{Database, PersistenceError};
use crate::http::Response;
use crate::utils::{empty_ok, ok};
use vstd::prelude::*;
use vstd::string::StringExecFns;

verus! {

pub struct Parameters {
    pub subscription_token: String,
}

#[derive(Debug, PartialEq, Eq)]
pub enum ConfirmError {
    UnknownToken(String),
    UnexpectedError(PersistenceError),
}

impl ConfirmError {
    /// The status that answers a confirmation which failed this way.
    pub fn status_code(&self) -> (code: u16)
        ensures
            code == match self {
                ConfirmError::UnknownToken(_) => 401u16,
                ConfirmError::UnexpectedError(_) => 500u16,
            },
    {
        match self {
            ConfirmError::UnknownToken(_) => 401,
            ConfirmError::UnexpectedError(_) => 500,
        }
    }
}

/// Confirms the subscription that the token stands for. A token that is not
/// stored is refused and nothing changes.
pub fn confirm(parameters: Parameters, db_pool: &mut Database) -> (answer: Result<
    Response,
    ConfirmError,
>)
    requires
        old(db_pool)@.wf(),
    ensures
        final(db_pool)@.wf(),
        match old(db_pool)@.subscriber_of(parameters.subscription_token@) {
            Some(id) => {
                &&& answer matches Ok(response) && response@ == empty_ok()
                &&& final(db_pool)@ == old(db_pool)@.confirm(id)
            },
            None => {
                &&& answer matches Err(ConfirmError::UnknownToken(message)) && message@
                    == "Non-existing token provided as input"@
                &&& final(db_pool)@ == old(db_pool)@
            },
        },
{
    match db_pool.subscriber_id_from_token(&parameters.subscription_token) {
        Some(id) => {
            db_pool.confirm_subscriber(id);
            Ok(ok())
        },
        None => Err(
            ConfirmError::UnknownToken(String::from_str("Non-existing token provided as input")),
        ),
    }
}

} // verus!
