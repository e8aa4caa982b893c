//! Responses that handlers share.

use crate::http::{HeaderPair, Response, ResponseView};
use vstd::prelude::*;
use vstd::string::{StrSliceExecFns, StringExecFns};
use vstd::utf8::encode_utf8;

verus! {

/// The response that redirects to `location`: status 303, one `location`
/// header that holds the target as UTF-8, and no body.
pub open spec fn redirect_to(location: Seq<char>) -> ResponseView {
    ResponseView {
        status_code: 303,
        headers: seq![("location"@, encode_utf8(location))],
        body: Seq::empty(),
    }
}

/// Builds the response that redirects to `location`.
pub fn see_other(location: &str) -> (response: Response)
    ensures
        response@ == redirect_to(location@),
{
    let mut headers: Vec<HeaderPair> = Vec::new();
    headers.push(HeaderPair { name: String::from_str("location"), value: location.as_bytes_vec() });
    let response = Response { status_code: 303, headers, body: Vec::new() };
    assert(response@.headers =~= redirect_to(location@).headers);
    response
}

/// The empty response with status 200.
pub open spec fn empty_ok() -> ResponseView {
    ResponseView { status_code: 200, headers: Seq::empty(), body: Seq::empty() }
}

/// Builds the empty response with status 200.
pub fn ok() -> (response: Response)
    ensures
        response@ == empty_ok(),
{
    let response = Response { status_code: 200, headers: Vec::new(), body: Vec::new() };
    assert(response@.headers =~= Seq::empty());
    response
}

} // verus!
