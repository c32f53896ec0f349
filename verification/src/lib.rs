//! A tiny, key-value focused client for a DynamoDB-style document store.
//!
//! The crate exposes a `get(key)`/`set(key, value)` interface backed by a
//! single table reachable over an HTTP JSON API, authenticated with the
//! AWS SigV4 request-signing scheme. Network I/O is delegated to a
//! pluggable [`Transport`]; everything else — the region table, the
//! item-protocol codec, request canonicalization, key derivation and the
//! signer — lives here, with its behavior verified.

pub mod chars;
pub mod codec;
pub mod error;
pub mod json;
pub mod region;
pub mod request;
pub mod sigv4;

use crate::chars::{dec_str_of, u64_to_dec};
use crate::codec::{
    build_read_body, build_write_body, parse_error_response, parse_error_response_spec,
    parse_read_response, parse_read_response_spec, read_body_spec, write_body_spec,
};
use crate::error::{ConfigError, Error, SigningError};
use crate::region::Region;
use crate::request::{is_valid_header_value, valid_header_value, Request, Transport};
use crate::sigv4::{
    auth_header_of, authorization_header, canonical_request, canonical_request_spec,
    compute_signature, format_long_datetime, header_views, hex_encode, hex_of, long_datetime_of,
    sha256, sha256_of, signature_of, signed_header_string, signed_headers_string, Timestamp,
};
use chrono::{Datelike, Timelike};
use vstd::prelude::*;
use vstd::utf8::encode_utf8;

verus! {

/// A set of credentials used to authenticate requests: an access key
/// identifier and a secret key, both opaque strings.
pub struct Credentials {
    pub aws_access_key_id: String,
    pub aws_secret_access_key: String,
}

impl Credentials {
    pub fn new(aws_access_key_id: String, aws_secret_access_key: String) -> (r: Self)
        ensures
            r.aws_access_key_id@ == aws_access_key_id@,
            r.aws_secret_access_key@ == aws_secret_access_key@,
    {
        Self { aws_access_key_id, aws_secret_access_key }
    }
}

/// Information about the target table: its name, the names of the key and
/// value attributes, the region, and an optional endpoint override for
/// addressing a local instance instead of the regional default.
pub struct Table {
    pub table_name: String,
    pub key_name: String,
    pub value_name: String,
    pub region: Region,
    pub endpoint: Option<String>,
}

impl Table {
    pub fn new(
        table_name: String,
        key_name: String,
        value_name: String,
        region: Region,
        endpoint: Option<String>,
    ) -> (r: Self)
        ensures
            r.table_name@ == table_name@,
            r.key_name@ == key_name@,
            r.value_name@ == value_name@,
            r.region == region,
            r.endpoint == endpoint,
    {
        Self { table_name, key_name, value_name, region, endpoint }
    }
}

/// The URI a request is addressed to: the configured override where one is
/// set, the region's default endpoint otherwise.
pub open spec fn effective_endpoint_spec(t: Table) -> Seq<char> {
    match t.endpoint {
        Some(e) => e@,
        None => t.region.endpoint_spec(),
    }
}

/// The authority of a URI string, as `http::Uri` parses it.
pub uninterp spec fn uri_authority_of(s: Seq<char>) -> Option<Seq<char>>;

/// Relies on `http::Uri` (its `FromStr` parse and `Uri::authority`): which
/// authority, if any, a URI string holds is a function of the string alone.
/// A string that does not parse, or parses without an authority, gives
/// `None`.
#[verifier::external_body]
fn uri_authority(uri: &str) -> (r: Option<String>)
    ensures
        (r is Some) == (uri_authority_of(uri@) is Some),
        r matches Some(a) ==> uri_authority_of(uri@) == Some(a@),
{
    match uri.parse::<http::Uri>() {
        Ok(u) => u.authority().map(|a| a.as_str().to_string()),
        Err(_) => None,
    }
}

/// Relies on chrono's `Utc::now` and its `Datelike`/`Timelike` accessors,
/// which hand the current instant over as plain calendar fields. Nothing is
/// assumed of the clock itself, only the documented field ranges: months
/// 1 to 12, days 1 to 31, hours below 24, minutes and seconds below 60.
#[verifier::external_body]
pub fn utc_now() -> (t: Timestamp)
    ensures
        t.wf(),
{
    let now = chrono::Utc::now();
    Timestamp {
        year: now.year() as u32,
        month: now.month(),
        day: now.day(),
        hour: now.hour(),
        minute: now.minute(),
        second: now.second(),
    }
}

/// The headers of an unsigned request: the host, the fixed content type,
/// and the target operation.
pub open spec fn base_headers_spec(authority: Seq<char>, target: Seq<char>) -> Seq<
    (Seq<char>, Seq<char>),
> {
    seq![
        ("host"@, authority),
        ("content-type"@, "application/x-amz-json-1.0"@),
        ("x-amz-target"@, target),
    ]
}

/// The unsigned write-item request for a key/value pair.
pub open spec fn put_unsigned_spec(t: Table, key: Seq<char>, value: Seq<char>) -> (
    Seq<char>,
    Seq<char>,
    Seq<(Seq<char>, Seq<char>)>,
    Seq<char>,
) {
    (
        "POST"@,
        effective_endpoint_spec(t),
        base_headers_spec(
            uri_authority_of(effective_endpoint_spec(t)).unwrap(),
            "DynamoDB_20120810.PutItem"@,
        ),
        write_body_spec(t.table_name@, t.key_name@, t.value_name@, key, value),
    )
}

/// The unsigned read-item request for a key.
pub open spec fn get_unsigned_spec(t: Table, key: Seq<char>) -> (
    Seq<char>,
    Seq<char>,
    Seq<(Seq<char>, Seq<char>)>,
    Seq<char>,
) {
    (
        "POST"@,
        effective_endpoint_spec(t),
        base_headers_spec(
            uri_authority_of(effective_endpoint_spec(t)).unwrap(),
            "DynamoDB_20120810.GetItem"@,
        ),
        read_body_spec(t.table_name@, t.key_name@, t.value_name@, key),
    )
}

/// The request's headers once the timestamp header is appended — the header
/// set the signature covers.
pub open spec fn dated_headers_spec(
    headers: Seq<(Seq<char>, Seq<char>)>,
    t1: Timestamp,
) -> Seq<(Seq<char>, Seq<char>)> {
    headers.push(("x-amz-date"@, long_datetime_of(t1)))
}

/// The authorization header value the signer computes: `t1` stamps and
/// signs, `t2` names the credential scope. The client's signer passes one
/// instant for both, so the scope date always agrees with the signature's.
pub open spec fn sign_auth_value(
    u: (Seq<char>, Seq<char>, Seq<(Seq<char>, Seq<char>)>, Seq<char>),
    access_key: Seq<char>,
    secret: Seq<char>,
    region_id: Seq<char>,
    t1: Timestamp,
    t2: Timestamp,
) -> Seq<char> {
    let digest = hex_of(sha256_of(encode_utf8(u.3)));
    let h1 = dated_headers_spec(u.2, t1);
    let creq = canonical_request_spec(u.0, h1, digest);
    let sig = signature_of(secret, t1, region_id, creq);
    auth_header_of(access_key, t2, region_id, signed_headers_string(h1), sig)
}

/// The signed request: the unsigned request with the timestamp header
/// appended and signed over, and then the authorization, content-length and
/// content-digest headers appended. Nothing is removed or reordered.
pub open spec fn signed_request_spec(
    u: (Seq<char>, Seq<char>, Seq<(Seq<char>, Seq<char>)>, Seq<char>),
    access_key: Seq<char>,
    secret: Seq<char>,
    region_id: Seq<char>,
    t1: Timestamp,
    t2: Timestamp,
) -> (Seq<char>, Seq<char>, Seq<(Seq<char>, Seq<char>)>, Seq<char>) {
    let digest = hex_of(sha256_of(encode_utf8(u.3)));
    let h1 = dated_headers_spec(u.2, t1);
    let auth = sign_auth_value(u, access_key, secret, region_id, t1, t2);
    let h2 = h1.push(("authorization"@, auth)).push(
        ("content-length"@, dec_str_of(encode_utf8(u.3).len())),
    ).push(("x-amz-content-sha256"@, digest));
    (u.0, u.1, h2, u.3)
}

proof fn lemma_header_views_push(h: Seq<(String, String)>, n: String, v: String)
    ensures
        header_views(h.push((n, v))) == header_views(h).push((n@, v@)),
{
    assert(header_views(h.push((n, v))) =~= header_views(h).push((n@, v@)));
}

/// The central client interface: one `get`/`set` pair against one table,
/// dispatching through the supplied transport.
pub struct DB<T: Transport> {
    pub credentials: Credentials,
    pub table_info: Table,
    pub transport: T,
}

impl<T: Transport> DB<T> {
    /// Returns a new client for the given credentials, table and transport.
    pub fn new(credentials: Credentials, table_info: Table, transport: T) -> (r: Self)
        ensures
            r.credentials.aws_access_key_id@ == credentials.aws_access_key_id@,
            r.credentials.aws_secret_access_key@ == credentials.aws_secret_access_key@,
            r.table_info == table_info,
    {
        Self { credentials, table_info, transport }
    }

    /// Signs a request deterministically at the two given instants: `t1` is
    /// stamped into the request and signed over, `t2` names the credential
    /// scope in the authorization header. Fails exactly where the computed
    /// authorization value would be illegal in a header.
    pub fn sign_at(&self, unsigned: Request, t1: &Timestamp, t2: &Timestamp) -> (r: Result<
        Request,
        Error,
    >)
        requires
            t1.wf(),
            t2.wf(),
        ensures
            ({
                let auth = sign_auth_value(
                    unsigned@,
                    self.credentials.aws_access_key_id@,
                    self.credentials.aws_secret_access_key@,
                    self.table_info.region.id_spec(),
                    *t1,
                    *t2,
                );
                match r {
                    Ok(signed) => valid_header_value(auth) && signed@ == signed_request_spec(
                        unsigned@,
                        self.credentials.aws_access_key_id@,
                        self.credentials.aws_secret_access_key@,
                        self.table_info.region.id_spec(),
                        *t1,
                        *t2,
                    ),
                    Err(e) => {
                        &&& !valid_header_value(auth)
                        &&& e matches Error::Signing(se)
                        &&& se matches SigningError::InvalidHeaderValue { name, value }
                        &&& name@ == "authorization"@
                        &&& value@ == auth
                    },
                }
            }),
    {
        let ghost u = unsigned@;
        let mut req = unsigned;
        let body_bytes = req.body.as_str().as_bytes_vec();
        let digest = hex_encode(sha256(body_bytes.as_slice()).as_slice());
        let amz_date = format_long_datetime(t1);
        let ghost pre_headers = req.headers@;
        req.headers.push(("x-amz-date".to_owned(), amz_date));
        proof {
            lemma_header_views_push(pre_headers, req.headers@.last().0, req.headers@.last().1);
            assert(header_views(req.headers@) =~= dated_headers_spec(u.2, *t1));
        }
        let creq = canonical_request(req.method.as_str(), &req.headers, digest.as_str());
        let sig = compute_signature(
            self.credentials.aws_secret_access_key.as_str(),
            t1,
            self.table_info.region.id(),
            creq.as_str(),
        );
        let shs = signed_header_string(&req.headers);
        let auth = authorization_header(
            self.credentials.aws_access_key_id.as_str(),
            t2,
            self.table_info.region.id(),
            shs.as_str(),
            sig.as_str(),
        );
        if !is_valid_header_value(auth.as_str()) {
            return Err(
                Error::Signing(
                    SigningError::InvalidHeaderValue {
                        name: "authorization".to_owned(),
                        value: auth,
                    },
                ),
            );
        }
        let content_length = u64_to_dec(body_bytes.len() as u64);
        let ghost h1 = req.headers@;
        req.headers.push(("authorization".to_owned(), auth));
        proof {
            lemma_header_views_push(h1, req.headers@.last().0, req.headers@.last().1);
        }
        let ghost h2 = req.headers@;
        req.headers.push(("content-length".to_owned(), content_length));
        proof {
            lemma_header_views_push(h2, req.headers@.last().0, req.headers@.last().1);
        }
        let ghost h3 = req.headers@;
        req.headers.push(("x-amz-content-sha256".to_owned(), digest));
        proof {
            lemma_header_views_push(h3, req.headers@.last().0, req.headers@.last().1);
            let signed = signed_request_spec(
                u,
                self.credentials.aws_access_key_id@,
                self.credentials.aws_secret_access_key@,
                self.table_info.region.id_spec(),
                *t1,
                *t2,
            );
            assert(digest@ == hex_of(sha256_of(encode_utf8(u.3))));
            assert(content_length@ == dec_str_of(encode_utf8(u.3).len()));
            assert(auth@ == sign_auth_value(
                u,
                self.credentials.aws_access_key_id@,
                self.credentials.aws_secret_access_key@,
                self.table_info.region.id_spec(),
                *t1,
                *t2,
            ));
            assert(header_views(req.headers@) =~= signed.2);
        }
        Ok(req)
    }

    /// Signs a request, capturing the current time once: the same instant
    /// stamps the timestamp header, derives the signing key, and names the
    /// credential scope, so the scope's date always agrees with the date
    /// the key was derived for.
    fn sign(&self, unsigned: Request) -> (r: Result<Request, Error>)
        ensures
            r matches Ok(signed) ==> exists|t: Timestamp|
                t.wf() && signed@ == signed_request_spec(
                    unsigned@,
                    self.credentials.aws_access_key_id@,
                    self.credentials.aws_secret_access_key@,
                    self.table_info.region.id_spec(),
                    t,
                    t,
                ),
            r matches Err(e) ==> exists|t: Timestamp|
                t.wf() && ({
                    &&& e matches Error::Signing(se)
                    &&& se matches SigningError::InvalidHeaderValue { name: hn, value: hv }
                    &&& hn@ == "authorization"@
                    &&& hv@ == sign_auth_value(
                        unsigned@,
                        self.credentials.aws_access_key_id@,
                        self.credentials.aws_secret_access_key@,
                        self.table_info.region.id_spec(),
                        t,
                        t,
                    )
                    &&& !valid_header_value(hv@)
                }),
    {
        let t = utc_now();
        let r = self.sign_at(unsigned, &t, &t);
        proof {
            if r is Ok {
                let signed = r->Ok_0;
                assert(t.wf() && signed@ == signed_request_spec(
                    unsigned@,
                    self.credentials.aws_access_key_id@,
                    self.credentials.aws_secret_access_key@,
                    self.table_info.region.id_spec(),
                    t,
                    t,
                ));
            } else {
                let auth = sign_auth_value(
                    unsigned@,
                    self.credentials.aws_access_key_id@,
                    self.credentials.aws_secret_access_key@,
                    self.table_info.region.id_spec(),
                    t,
                    t,
                );
                assert(t.wf() && !valid_header_value(auth));
            }
        }
        r
    }

    /// Builds and signs the write-item request for a key/value pair.
    pub fn put_item_req(&self, key: &str, value: &str) -> (r: Result<Request, Error>)
        ensures
            uri_authority_of(effective_endpoint_spec(self.table_info)) is None ==> ({
                &&& r matches Err(e)
                &&& e matches Error::Config(c)
                &&& c matches ConfigError::InvalidEndpoint(u)
                &&& u@ == effective_endpoint_spec(self.table_info)
            }),
            r matches Ok(signed) ==> uri_authority_of(effective_endpoint_spec(self.table_info))
                is Some && exists|t: Timestamp|
                t.wf() && signed@ == signed_request_spec(
                    put_unsigned_spec(self.table_info, key@, value@),
                    self.credentials.aws_access_key_id@,
                    self.credentials.aws_secret_access_key@,
                    self.table_info.region.id_spec(),
                    t,
                    t,
                ),
            uri_authority_of(effective_endpoint_spec(self.table_info)) is Some ==> (r is Ok || ({
                &&& r matches Err(e)
                &&& e matches Error::Signing(se)
                &&& se matches SigningError::InvalidHeaderValue { name: hn, value: hv }
                &&& hn@ == "authorization"@
                &&& exists|t: Timestamp|
                    t.wf() && hv@ == sign_auth_value(
                        put_unsigned_spec(self.table_info, key@, value@),
                        self.credentials.aws_access_key_id@,
                        self.credentials.aws_secret_access_key@,
                        self.table_info.region.id_spec(),
                        t,
                        t,
                    ) && !valid_header_value(hv@)
            })),
    {
        let uri: String = match &self.table_info.endpoint {
            Some(e) => e.clone(),
            None => self.table_info.region.endpoint().to_owned(),
        };
        match uri_authority(uri.as_str()) {
            None => Err(Error::Config(ConfigError::InvalidEndpoint(uri))),
            Some(host) => {
                let body = build_write_body(
                    self.table_info.table_name.as_str(),
                    self.table_info.key_name.as_str(),
                    self.table_info.value_name.as_str(),
                    key,
                    value,
                );
                let mut headers: Vec<(String, String)> = Vec::new();
                headers.push(("host".to_owned(), host));
                headers.push(("content-type".to_owned(), "application/x-amz-json-1.0".to_owned()));
                headers.push(("x-amz-target".to_owned(), "DynamoDB_20120810.PutItem".to_owned()));
                let unsigned = Request { method: "POST".to_owned(), uri, headers, body };
                proof {
                    assert(unsigned.uri@ == effective_endpoint_spec(self.table_info));
                    assert(header_views(unsigned.headers@) =~= base_headers_spec(
                        uri_authority_of(effective_endpoint_spec(self.table_info)).unwrap(),
                        "DynamoDB_20120810.PutItem"@,
                    ));
                    assert(unsigned@ == put_unsigned_spec(self.table_info, key@, value@));
                }
                self.sign(unsigned)
            },
        }
    }

    /// Builds and signs the read-item request for a key.
    pub fn get_item_req(&self, key: &str) -> (r: Result<Request, Error>)
        ensures
            uri_authority_of(effective_endpoint_spec(self.table_info)) is None ==> ({
                &&& r matches Err(e)
                &&& e matches Error::Config(c)
                &&& c matches ConfigError::InvalidEndpoint(u)
                &&& u@ == effective_endpoint_spec(self.table_info)
            }),
            r matches Ok(signed) ==> uri_authority_of(effective_endpoint_spec(self.table_info))
                is Some && exists|t: Timestamp|
                t.wf() && signed@ == signed_request_spec(
                    get_unsigned_spec(self.table_info, key@),
                    self.credentials.aws_access_key_id@,
                    self.credentials.aws_secret_access_key@,
                    self.table_info.region.id_spec(),
                    t,
                    t,
                ),
            uri_authority_of(effective_endpoint_spec(self.table_info)) is Some ==> (r is Ok || ({
                &&& r matches Err(e)
                &&& e matches Error::Signing(se)
                &&& se matches SigningError::InvalidHeaderValue { name: hn, value: hv }
                &&& hn@ == "authorization"@
                &&& exists|t: Timestamp|
                    t.wf() && hv@ == sign_auth_value(
                        get_unsigned_spec(self.table_info, key@),
                        self.credentials.aws_access_key_id@,
                        self.credentials.aws_secret_access_key@,
                        self.table_info.region.id_spec(),
                        t,
                        t,
                    ) && !valid_header_value(hv@)
            })),
    {
        let uri: String = match &self.table_info.endpoint {
            Some(e) => e.clone(),
            None => self.table_info.region.endpoint().to_owned(),
        };
        match uri_authority(uri.as_str()) {
            None => Err(Error::Config(ConfigError::InvalidEndpoint(uri))),
            Some(host) => {
                let body = build_read_body(
                    self.table_info.table_name.as_str(),
                    self.table_info.key_name.as_str(),
                    self.table_info.value_name.as_str(),
                    key,
                );
                let mut headers: Vec<(String, String)> = Vec::new();
                headers.push(("host".to_owned(), host));
                headers.push(("content-type".to_owned(), "application/x-amz-json-1.0".to_owned()));
                headers.push(("x-amz-target".to_owned(), "DynamoDB_20120810.GetItem".to_owned()));
                let unsigned = Request { method: "POST".to_owned(), uri, headers, body };
                proof {
                    assert(unsigned.uri@ == effective_endpoint_spec(self.table_info));
                    assert(header_views(unsigned.headers@) =~= base_headers_spec(
                        uri_authority_of(effective_endpoint_spec(self.table_info)).unwrap(),
                        "DynamoDB_20120810.GetItem"@,
                    ));
                    assert(unsigned@ == get_unsigned_spec(self.table_info, key@));
                }
                self.sign(unsigned)
            },
        }
    }

    /// Gets a value by its key: build, sign, send, interpret. One request
    /// per call; no caching, no retry. The response, whatever the transport
    /// returned, is interpreted exactly as [`interpret_get_response`] says.
    pub fn get(&self, key: &str) -> (r: Result<Option<String>, Error>)
        ensures
            uri_authority_of(effective_endpoint_spec(self.table_info)) is None ==> ({
                &&& r matches Err(e)
                &&& e matches Error::Config(c)
                &&& c matches ConfigError::InvalidEndpoint(u)
                &&& u@ == effective_endpoint_spec(self.table_info)
            }),
            r matches Err(e) ==> (e matches Error::Config(c) ==> ({
                &&& uri_authority_of(effective_endpoint_spec(self.table_info)) is None
                &&& c matches ConfigError::InvalidEndpoint(u)
                &&& u@ == effective_endpoint_spec(self.table_info)
            })),
            r matches Err(e) ==> (e matches Error::Signing(se) ==> ({
                &&& uri_authority_of(effective_endpoint_spec(self.table_info)) is Some
                &&& se matches SigningError::InvalidHeaderValue { name: hn, value: hv }
                &&& hn@ == "authorization"@
                &&& exists|t: Timestamp|
                    t.wf() && hv@ == sign_auth_value(
                        get_unsigned_spec(self.table_info, key@),
                        self.credentials.aws_access_key_id@,
                        self.credentials.aws_secret_access_key@,
                        self.table_info.region.id_spec(),
                        t,
                        t,
                    ) && !valid_header_value(hv@)
            })),
    {
        match self.get_item_req(key) {
            Err(e) => {
                proof {
                    if uri_authority_of(effective_endpoint_spec(self.table_info)) is Some {
                        assert(e matches Error::Signing(se));
                    } else {
                        assert(e matches Error::Config(c));
                    }
                }
                Err(e)
            },
            Ok(req) => match self.transport.send(req) {
                Err(e) => {
                    proof {
                        assert(e matches Error::Transport(m));
                    }
                    Err(e)
                },
                Ok((status, body)) => {
                    let ri = interpret_get_response(
                        status,
                        body.as_str(),
                        self.table_info.value_name.as_str(),
                    );
                    proof {
                        if ri is Err {
                            let e = ri->Err_0;
                            if status == 200 {
                                match parse_read_response_spec(body@, self.table_info.value_name@) {
                                    Some(found) => {},
                                    None => {
                                        assert(e matches Error::Decode(d));
                                    },
                                }
                            } else {
                                match parse_error_response_spec(body@) {
                                    Some(tm) => {
                                        assert(e matches Error::Service(se));
                                    },
                                    None => {
                                        assert(e matches Error::Decode(d));
                                    },
                                }
                            }
                        }
                    }
                    ri
                },
            },
        }
    }

    /// Sets a value for a key: build, sign, send, interpret. One request
    /// per call; no caching, no retry. The response, whatever the transport
    /// returned, is interpreted exactly as [`interpret_set_response`] says.
    pub fn set(&self, key: &str, value: &str) -> (r: Result<(), Error>)
        ensures
            uri_authority_of(effective_endpoint_spec(self.table_info)) is None ==> ({
                &&& r matches Err(e)
                &&& e matches Error::Config(c)
                &&& c matches ConfigError::InvalidEndpoint(u)
                &&& u@ == effective_endpoint_spec(self.table_info)
            }),
            r matches Err(e) ==> (e matches Error::Config(c) ==> ({
                &&& uri_authority_of(effective_endpoint_spec(self.table_info)) is None
                &&& c matches ConfigError::InvalidEndpoint(u)
                &&& u@ == effective_endpoint_spec(self.table_info)
            })),
            r matches Err(e) ==> (e matches Error::Signing(se) ==> ({
                &&& uri_authority_of(effective_endpoint_spec(self.table_info)) is Some
                &&& se matches SigningError::InvalidHeaderValue { name: hn, value: hv }
                &&& hn@ == "authorization"@
                &&& exists|t: Timestamp|
                    t.wf() && hv@ == sign_auth_value(
                        put_unsigned_spec(self.table_info, key@, value@),
                        self.credentials.aws_access_key_id@,
                        self.credentials.aws_secret_access_key@,
                        self.table_info.region.id_spec(),
                        t,
                        t,
                    ) && !valid_header_value(hv@)
            })),
    {
        match self.put_item_req(key, value) {
            Err(e) => {
                proof {
                    if uri_authority_of(effective_endpoint_spec(self.table_info)) is Some {
                        assert(e matches Error::Signing(se));
                    } else {
                        assert(e matches Error::Config(c));
                    }
                }
                Err(e)
            },
            Ok(req) => match self.transport.send(req) {
                Err(e) => {
                    proof {
                        assert(e matches Error::Transport(m));
                    }
                    Err(e)
                },
                Ok((status, body)) => {
                    let ri = interpret_set_response(status, body.as_str());
                    proof {
                        if ri is Err {
                            let e = ri->Err_0;
                            if status != 200 {
                                match parse_error_response_spec(body@) {
                                    Some(tm) => {
                                        assert(e matches Error::Service(se));
                                    },
                                    None => {
                                        assert(e matches Error::Decode(d));
                                    },
                                }
                            }
                        }
                    }
                    ri
                },
            },
        }
    }
}

/// What a write-item exchange's outcome means: status 200 is success; any
/// other status carries either a structured service error, surfaced
/// verbatim, or an undecodable body, surfaced as a decode error.
pub fn interpret_set_response(status: u16, body: &str) -> (r: Result<(), Error>)
    ensures
        status == 200 ==> r is Ok,
        status != 200 ==> match parse_error_response_spec(body@) {
            Some(tm) => {
                &&& r matches Err(e)
                &&& e matches Error::Service(se)
                &&& se.error_type@ == tm.0
                &&& se.message@ == tm.1
            },
            None => {
                &&& r matches Err(e)
                &&& e matches Error::Decode(d)
                &&& d matches crate::error::DecodeError::UnexpectedBody(b)
                &&& b@ == body@
            },
        },
{
    if status == 200 {
        Ok(())
    } else {
        match parse_error_response(body) {
            Ok(se) => Err(Error::Service(se)),
            Err(e) => Err(e),
        }
    }
}

/// What a read-item exchange's outcome means: on status 200 the body is
/// decoded through the codec — an absent item is the defined empty result,
/// not an error; any other status is handled as for a write.
pub fn interpret_get_response(status: u16, body: &str, value_name: &str) -> (r: Result<
    Option<String>,
    Error,
>)
    ensures
        status == 200 ==> match parse_read_response_spec(body@, value_name@) {
            Some(found) => {
                &&& r matches Ok(o)
                &&& (match (o, found) {
                    (Some(x), Some(v)) => x@ == v,
                    (None, None) => true,
                    _ => false,
                })
            },
            None => {
                &&& r matches Err(e)
                &&& e matches Error::Decode(d)
                &&& d matches crate::error::DecodeError::UnexpectedBody(b)
                &&& b@ == body@
            },
        },
        status != 200 ==> match parse_error_response_spec(body@) {
            Some(tm) => {
                &&& r matches Err(e)
                &&& e matches Error::Service(se)
                &&& se.error_type@ == tm.0
                &&& se.message@ == tm.1
            },
            None => {
                &&& r matches Err(e)
                &&& e matches Error::Decode(d)
                &&& d matches crate::error::DecodeError::UnexpectedBody(b)
                &&& b@ == body@
            },
        },
{
    if status == 200 {
        parse_read_response(body, value_name)
    } else {
        match parse_error_response(body) {
            Ok(se) => Err(Error::Service(se)),
            Err(e) => Err(e),
        }
    }
}

} // verus!
