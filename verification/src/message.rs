//! Plain request and response values the middleware works on.

use crate::header::Headers;
use vstd::prelude::*;

verus! {

/// A request: its header list and a body of any type.  Only the headers
/// take part in encoding negotiation; the body is forwarded untouched.
pub struct HttpRequest<B> {
    pub headers: Headers,
    pub body: B,
}

impl<B> HttpRequest<B> {
    /// A request with no headers and the given body.
    pub fn new(body: B) -> (r: HttpRequest<B>)
        ensures
            r.headers@ == Seq::<(Seq<u8>, Seq<u8>)>::empty(),
            r.body == body,
    {
        HttpRequest { headers: Headers::new(), body }
    }
}

/// A response: a status code, a header list and a body.
pub struct HttpResponse<B> {
    pub status: u16,
    pub headers: Headers,
    pub body: B,
}

impl<B> HttpResponse<B> {
    /// A response with the given status, no headers and the given body.
    pub fn new(status: u16, body: B) -> (r: HttpResponse<B>)
        ensures
            r.status == status,
            r.headers@ == Seq::<(Seq<u8>, Seq<u8>)>::empty(),
            r.body == body,
    {
        HttpResponse { status, headers: Headers::new(), body }
    }
}

} // verus!
