//! Responses as plain values: what is cached under an idempotency key and
//! replayed byte for byte.

use vstd::prelude::*;

verus! {

/// One header of a response: a name and the raw bytes of its value.
#[derive(Debug, PartialEq, Eq)]
pub struct HeaderPair {
    pub name: String,
    pub value: Vec<u8>,
}

impl View for HeaderPair {
    type V = (Seq<char>, Seq<u8>);

    open spec fn view(&self) -> (Seq<char>, Seq<u8>) {
        (self.name@, self.value@)
    }
}

/// The mathematical content of a [`Response`].
pub struct ResponseView {
    pub status_code: u16,
    pub headers: Seq<(Seq<char>, Seq<u8>)>,
    pub body: Seq<u8>,
}

/// An HTTP response held as plain values: status code, ordered headers and
/// body bytes.
#[derive(Debug, PartialEq, Eq)]
pub struct Response {
    pub status_code: u16,
    pub headers: Vec<HeaderPair>,
    pub body: Vec<u8>,
}

/// The views of a sequence of headers, in order.
pub open spec fn headers_view(headers: Seq<HeaderPair>) -> Seq<(Seq<char>, Seq<u8>)> {
    Seq::new(headers.len(), |i: int| headers[i]@)
}

impl View for Response {
    type V = ResponseView;

    open spec fn view(&self) -> ResponseView {
        ResponseView {
            status_code: self.status_code,
            headers: headers_view(self.headers@),
            body: self.body@,
        }
    }
}

/// Copies a byte string.
pub fn copy_bytes(bytes: &Vec<u8>) -> (copy: Vec<u8>)
    ensures
        copy@ == bytes@,
{
    let mut copy: Vec<u8> = Vec::new();
    let mut i: usize = 0;
    while i < bytes.len()
        invariant
            i <= bytes.len(),
            copy@ == bytes@.take(i as int),
        decreases bytes.len() - i,
    {
        copy.push(bytes[i]);
        i += 1;
    }
    copy
}

impl HeaderPair {
    pub fn duplicate(&self) -> (copy: HeaderPair)
        ensures
            copy@ == self@,
    {
        HeaderPair { name: self.name.clone(), value: copy_bytes(&self.value) }
    }
}

impl Response {
    /// A deep copy with the same status, headers and body.
    pub fn duplicate(&self) -> (copy: Response)
        ensures
            copy@ == self@,
    {
        let mut headers: Vec<HeaderPair> = Vec::new();
        let mut i: usize = 0;
        while i < self.headers.len()
            invariant
                i <= self.headers.len(),
                headers.len() == i,
                forall|j: int| 0 <= j < i ==> headers[j]@ == self.headers[j]@,
            decreases self.headers.len() - i,
        {
            headers.push(self.headers[i].duplicate());
            i += 1;
        }
        assert(headers_view(headers@) =~= headers_view(self.headers@));
        Response { status_code: self.status_code, headers, body: copy_bytes(&self.body) }
    }
}

} // verus!
