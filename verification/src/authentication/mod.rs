//! Who may use the admin pages, and how a password is checked and changed.

pub mod middleware;
pub mod password;
