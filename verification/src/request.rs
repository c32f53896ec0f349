//! The request and transport model: an HTTP request as plain values, the
//! legality of header values, and the transport contract the client
//! dispatches signed requests through.

use crate::error::Error;
use crate::sigv4::header_views;
use vstd::prelude::*;

verus! {

/// An HTTP request as the client builds and signs it: a method, a target
/// URI, a header list, and a JSON text body. The signer only appends
/// headers; it never removes or reorders what the builder set.
#[derive(Debug)]
pub struct Request {
    pub method: String,
    pub uri: String,
    pub headers: Vec<(String, String)>,
    pub body: String,
}

impl View for Request {
    type V = (Seq<char>, Seq<char>, Seq<(Seq<char>, Seq<char>)>, Seq<char>);

    open spec fn view(&self) -> Self::V {
        (self.method@, self.uri@, header_views(self.headers@), self.body@)
    }
}

/// A character legal in an HTTP header value: horizontal tab or anything at
/// or above the space, the delete character excepted.
pub open spec fn valid_header_value_char(c: char) -> bool {
    c == '\t' || ((c as u32) >= 32 && (c as u32) != 127)
}

/// A string legal as an HTTP header value.
pub open spec fn valid_header_value(s: Seq<char>) -> bool {
    forall|k: int| 0 <= k < s.len() ==> valid_header_value_char(#[trigger] s[k])
}

/// Checks a string for legality as a header value.
pub fn is_valid_header_value(s: &str) -> (r: bool)
    ensures
        r == valid_header_value(s@),
{
    let len = s.unicode_len();
    let mut k: usize = 0;
    while k < len
        invariant
            k <= len,
            len == s@.len(),
            forall|m: int| 0 <= m < k ==> valid_header_value_char(#[trigger] s@[m]),
        decreases len - k,
    {
        let c = s.get_char(k);
        if !(c == '\t' || ((c as u32) >= 32 && (c as u32) != 127)) {
            return false;
        }
        k = k + 1;
    }
    true
}

/// The behavior for sending requests — the I/O layer. An implementation
/// accepts a fully signed request and returns the response's status code
/// and body text, or an opaque transport error: a failure of the transport
/// is its own and is never reported as another error category. The client
/// works against any conforming implementation and never retries.
pub trait Transport {
    fn send(&self, signed: Request) -> (r: Result<(u16, String), Error>)
        ensures
            r matches Err(e) ==> e matches Error::Transport(_),
    ;
}

/// A `Transport` that answers every request with one fixed response; a
/// deterministic stub for tests and benchmarks.
pub struct Const(pub u16, pub String);

impl Transport for Const {
    /// Returns the one configured status/body pair for every request; the
    /// request is never inspected and no I/O occurs.
    fn send(&self, _signed: Request) -> (r: Result<(u16, String), Error>)
        ensures
            r matches Ok(p) && p.0 == self.0 && p.1@ == self.1@,
    {
        Ok((self.0, self.1.clone()))
    }
}

} // verus!
