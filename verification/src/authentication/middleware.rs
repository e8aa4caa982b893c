//! Admission to the admin pages.

use crate::http::Response;
use crate::utils::{redirect_to, see_other};
use vstd::prelude::*;

verus! {

/// The identity of the operator who is logged in.
#[derive(Debug, Clone, Copy, PartialEq, Eq, Structural)]
pub struct UserId(pub u128);

/// Lets a request through to the admin pages only when its session names a
/// user. Anyone else is sent to the login page.
pub fn reject_anonymous_users(session_user: Option<u128>) -> (admitted: Result<UserId, Response>)
    ensures
        match session_user {
            Some(user_id) => admitted matches Ok(user) && user == UserId(user_id),
            None => admitted matches Err(response) && response@ == redirect_to("/login"@),
        },
{
    match session_user {
        Some(user_id) => Ok(UserId(user_id)),
        None => Err(see_other("/login")),
    }
}

} // verus!
