//! What the application is started with.

use vstd::prelude::*;

verus! {

/// The public address of the application, which links in emails start with.
pub struct ApplicationBaseUrl(pub String);

} // verus!
