//! The library's error taxonomy: configuration, signing, transport, decode,
//! and service errors, each carrying structured data so callers can branch
//! on the category without string matching.

use vstd::prelude::*;

verus! {

/// Configuration rejected at client construction or request building.
#[derive(Debug, PartialEq, Eq)]
pub enum ConfigError {
    /// The region string matches no known identifier.
    UnknownRegion(String),
    /// The endpoint has no authority to address, or does not parse as a URI.
    InvalidEndpoint(String),
}

/// A per-call failure while signing, distinct from transport failures.
#[derive(Debug, PartialEq, Eq)]
pub enum SigningError {
    /// A computed header value holds characters illegal in a header.
    InvalidHeaderValue { name: String, value: String },
}

/// A response body that does not match the expected JSON shape.
#[derive(Debug, PartialEq, Eq)]
pub enum DecodeError {
    /// The body that could not be interpreted, kept verbatim.
    UnexpectedBody(String),
}

/// A structured service-error envelope, carried verbatim.
#[derive(Debug, PartialEq, Eq)]
pub struct ServiceError {
    pub error_type: String,
    pub message: String,
}

impl ServiceError {
    /// A one-line rendering: the error type, a separating colon, and the
    /// message.
    pub fn to_text(&self) -> (r: String)
        ensures
            r@ == self.error_type@ + ": "@ + self.message@,
    {
        let mut out = self.error_type.clone();
        out.append(": ");
        out.append(self.message.as_str());
        assert(out@ =~= self.error_type@ + ": "@ + self.message@);
        out
    }
}

/// Everything a `get` or `set` call can fail with.
#[derive(Debug, PartialEq, Eq)]
pub enum Error {
    /// Detected at construction or request building; never retried.
    Config(ConfigError),
    /// Fatal per call; surfaced distinctly from transport failures.
    Signing(SigningError),
    /// An opaque failure of the transport collaborator, propagated unchanged.
    Transport(String),
    /// The service replied in an unexpected shape.
    Decode(DecodeError),
    /// The service rejected the request and said why.
    Service(ServiceError),
}

} // verus!
