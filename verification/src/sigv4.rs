//! The request signer's building blocks: timestamp formatting, canonical
//! request construction, the chained HMAC key derivation, and the final
//! signature, following the AWS SigV4 scheme with the service fixed to
//! `dynamodb`.
//!
//! Every step is a function of its inputs alone; the hash primitives are
//! called through trusted wrappers whose results are named by the
//! uninterpreted functions [`sha256_of`] and [`hmac_sha256_of`].

use crate::chars::{
    ascii_lower, dec_digit, dec_digit_exec, dec_str_of, lemma_lex_total_ordering, lex_leq,
    push_char, sort_strings, str_ascii_lowercase, str_trim, trim_spec, views_of,
};
use hmac::Mac;
use sha2::Digest;
use vstd::prelude::*;
use vstd::seq_lib::lemma_sorted_unique;
use vstd::utf8::encode_utf8;

verus! {

/// A UTC timestamp at second resolution, held as plain calendar fields.
#[derive(Clone, Copy, Debug, PartialEq, Eq, Structural)]
pub struct Timestamp {
    pub year: u32,
    pub month: u32,
    pub day: u32,
    pub hour: u32,
    pub minute: u32,
    pub second: u32,
}

impl Timestamp {
    /// Field ranges of a calendar timestamp.
    pub open spec fn wf(self) -> bool {
        1 <= self.month <= 12 && 1 <= self.day <= 31 && self.hour < 24 && self.minute < 60
            && self.second < 60
    }

    pub fn new(year: u32, month: u32, day: u32, hour: u32, minute: u32, second: u32) -> (r: Self)
        ensures
            r == (Timestamp { year, month, day, hour, minute, second }),
    {
        Timestamp { year, month, day, hour, minute, second }
    }
}

/// A two-digit, zero-padded decimal rendering.
pub open spec fn two_digits(n: nat) -> Seq<char>
    recommends
        n < 100,
{
    seq![dec_digit(n / 10), dec_digit(n % 10)]
}

/// A year, zero-padded to at least four digits.
pub open spec fn year_digits(y: nat) -> Seq<char> {
    if y < 10000 {
        seq![
            dec_digit(y / 1000),
            dec_digit(y / 100 % 10),
            dec_digit(y / 10 % 10),
            dec_digit(y % 10),
        ]
    } else {
        dec_str_of(y)
    }
}

/// The day-granularity date stamp `YYYYMMDD` the key derivation is scoped to.
pub open spec fn short_date_of(t: Timestamp) -> Seq<char> {
    year_digits(t.year as nat) + two_digits(t.month as nat) + two_digits(t.day as nat)
}

/// The second-granularity timestamp `YYYYMMDDTHHMMSSZ` placed in the request
/// and signed.
pub open spec fn long_datetime_of(t: Timestamp) -> Seq<char> {
    short_date_of(t) + seq!['T'] + two_digits(t.hour as nat) + two_digits(t.minute as nat)
        + two_digits(t.second as nat) + seq!['Z']
}

fn push_two_digits(out: &mut String, n: u32)
    requires
        n < 100,
    ensures
        final(out)@ == old(out)@ + two_digits(n as nat),
{
    push_char(out, dec_digit_exec((n / 10) as u64));
    push_char(out, dec_digit_exec((n % 10) as u64));
    assert(out@ =~= old(out)@ + two_digits(n as nat));
}

fn push_year(out: &mut String, y: u32)
    ensures
        final(out)@ == old(out)@ + year_digits(y as nat),
{
    if y < 10000 {
        push_char(out, dec_digit_exec((y / 1000) as u64));
        push_char(out, dec_digit_exec((y / 100 % 10) as u64));
        push_char(out, dec_digit_exec((y / 10 % 10) as u64));
        push_char(out, dec_digit_exec((y % 10) as u64));
        assert(out@ =~= old(out)@ + year_digits(y as nat));
    } else {
        let s = crate::chars::u64_to_dec(y as u64);
        out.append(s.as_str());
    }
}

/// Formats the day-granularity date stamp.
pub fn format_short_date(t: &Timestamp) -> (r: String)
    requires
        t.wf(),
    ensures
        r@ == short_date_of(*t),
{
    let mut out = String::new();
    push_year(&mut out, t.year);
    push_two_digits(&mut out, t.month);
    push_two_digits(&mut out, t.day);
    assert(out@ =~= short_date_of(*t));
    out
}

/// Formats the second-granularity timestamp.
pub fn format_long_datetime(t: &Timestamp) -> (r: String)
    requires
        t.wf(),
    ensures
        r@ == long_datetime_of(*t),
{
    let mut out = String::new();
    push_year(&mut out, t.year);
    push_two_digits(&mut out, t.month);
    push_two_digits(&mut out, t.day);
    push_char(&mut out, 'T');
    push_two_digits(&mut out, t.hour);
    push_two_digits(&mut out, t.minute);
    push_two_digits(&mut out, t.second);
    push_char(&mut out, 'Z');
    assert(out@ =~= long_datetime_of(*t));
    out
}

/// The SHA-256 digest of a byte sequence, as `sha2` computes it.
pub uninterp spec fn sha256_of(data: Seq<u8>) -> Seq<u8>;

/// The HMAC-SHA-256 of a message under a key, as `hmac` computes it.
pub uninterp spec fn hmac_sha256_of(key: Seq<u8>, data: Seq<u8>) -> Seq<u8>;

/// The lower-case hexadecimal digit for a value below sixteen.
pub open spec fn hex_digit(d: nat) -> char {
    if d == 0 { '0' } else if d == 1 { '1' } else if d == 2 { '2' } else if d == 3 { '3' }
    else if d == 4 { '4' } else if d == 5 { '5' } else if d == 6 { '6' } else if d == 7 { '7' }
    else if d == 8 { '8' } else if d == 9 { '9' } else if d == 10 { 'a' } else if d == 11 { 'b' }
    else if d == 12 { 'c' } else if d == 13 { 'd' } else if d == 14 { 'e' } else { 'f' }
}

/// Lower-case hexadecimal encoding, two digits per byte, in input order.
pub open spec fn hex_of(bytes: Seq<u8>) -> Seq<char>
    decreases bytes.len(),
{
    if bytes.len() == 0 {
        Seq::empty()
    } else {
        seq![hex_digit((bytes[0] >> 4) as nat), hex_digit((bytes[0] & 0xf) as nat)] + hex_of(
            bytes.drop_first(),
        )
    }
}

/// Relies on `sha2::Sha256` (through `Digest::digest`): the digest is a
/// function of the input bytes alone and is 32 bytes long.
#[verifier::external_body]
pub fn sha256(data: &[u8]) -> (r: Vec<u8>)
    ensures
        r@ == sha256_of(data@),
        r@.len() == 32,
{
    sha2::Sha256::digest(data).to_vec()
}

/// Relies on `hmac::Hmac<Sha256>` (`new_from_slice`, `update`, `finalize`):
/// HMAC-SHA-256, a function of key and message alone, 32 bytes long.
/// `new_from_slice` accepts keys of any length for an HMAC, so the
/// construction cannot fail.
#[verifier::external_body]
pub fn hmac_sha256(key: &[u8], data: &[u8]) -> (r: Vec<u8>)
    ensures
        r@ == hmac_sha256_of(key@, data@),
        r@.len() == 32,
{
    let mut mac = <hmac::Hmac<sha2::Sha256> as Mac>::new_from_slice(key)
        .expect("HMAC accepts keys of any length");
    mac.update(data);
    mac.finalize().into_bytes().to_vec()
}

/// Relies on `hex::encode`: lower-case hexadecimal, two digits per byte, in
/// input order.
#[verifier::external_body]
pub fn hex_encode(b: &[u8]) -> (r: String)
    ensures
        r@ == hex_of(b@),
{
    hex::encode(b)
}

/// The element-wise views of a header list.
pub open spec fn header_views(h: Seq<(String, String)>) -> Seq<(Seq<char>, Seq<char>)> {
    h.map_values(|p: (String, String)| (p.0@, p.1@))
}

/// One canonical header line: lower-cased name, a colon, and the trimmed value.
pub open spec fn canonical_line(p: (Seq<char>, Seq<char>)) -> Seq<char> {
    ascii_lower(p.0) + seq![':'] + trim_spec(p.1)
}

/// [`canonical_line`] as a value, for `map_values`.
pub open spec fn line_fn() -> spec_fn((Seq<char>, Seq<char>)) -> Seq<char> {
    |p: (Seq<char>, Seq<char>)| canonical_line(p)
}

/// The lower-cased header name as a value, for `map_values`.
pub open spec fn name_fn() -> spec_fn((Seq<char>, Seq<char>)) -> Seq<char> {
    |p: (Seq<char>, Seq<char>)| ascii_lower(p.0)
}

/// The canonical header lines, sorted lexicographically.
pub open spec fn canonical_header_lines(hs: Seq<(Seq<char>, Seq<char>)>) -> Seq<Seq<char>> {
    hs.map_values(line_fn()).sort_by(lex_leq())
}

/// Collapses runs of equal adjacent entries to one, so a sorted list
/// becomes its sorted set of values.
pub open spec fn dedup_adjacent(s: Seq<Seq<char>>) -> Seq<Seq<char>>
    decreases s.len(),
{
    if s.len() <= 1 {
        s
    } else if s[s.len() - 1] == s[s.len() - 2] {
        dedup_adjacent(s.drop_last())
    } else {
        dedup_adjacent(s.drop_last()).push(s.last())
    }
}

/// The set of lower-cased header names, sorted lexicographically: each name
/// appears once however many times the header occurs.
pub open spec fn signed_header_names(hs: Seq<(Seq<char>, Seq<char>)>) -> Seq<Seq<char>> {
    dedup_adjacent(hs.map_values(name_fn()).sort_by(lex_leq()))
}

/// Drops entries equal to their predecessor.
fn dedup_sorted_strings(v: &Vec<String>) -> (r: Vec<String>)
    ensures
        views_of(r@) == dedup_adjacent(views_of(v@)),
{
    let mut out: Vec<String> = Vec::new();
    let mut i: usize = 0;
    proof {
        assert(views_of(v@).take(0) =~= Seq::empty());
        assert(views_of(out@) =~= dedup_adjacent(views_of(v@).take(0)));
    }
    while i < v.len()
        invariant
            i <= v@.len(),
            views_of(out@) =~= dedup_adjacent(views_of(v@).take(i as int)),
        decreases v@.len() - i,
    {
        let ghost vw = views_of(v@);
        proof {
            assert(vw.take(i + 1).drop_last() =~= vw.take(i as int));
            assert(vw.take(i + 1).last() == vw[i as int]);
            assert(vw[i as int] == v@[i as int]@);
        }
        if i == 0 {
            let ghost pre = out@;
            out.push(v[0].clone());
            proof {
                assert(vw.take(1).len() == 1);
                assert(dedup_adjacent(vw.take(1)) =~= vw.take(1));
                assert(views_of(out@) =~= views_of(pre).push(v@[0]@));
                assert(views_of(out@) =~= dedup_adjacent(vw.take(1)));
            }
        } else if !crate::chars::str_eq(v[i].as_str(), v[i - 1].as_str()) {
            let ghost pre = out@;
            out.push(v[i].clone());
            proof {
                assert(vw.take(i + 1)[i as int] == v@[i as int]@);
                assert(vw.take(i + 1)[i - 1] == v@[i - 1]@);
                assert(dedup_adjacent(vw.take(i + 1)) =~= dedup_adjacent(vw.take(i as int)).push(
                    v@[i as int]@,
                ));
                assert(views_of(out@) =~= views_of(pre).push(v@[i as int]@));
                assert(views_of(out@) =~= dedup_adjacent(vw.take(i + 1)));
            }
        } else {
            proof {
                assert(vw.take(i + 1)[i as int] == v@[i as int]@);
                assert(vw.take(i + 1)[i - 1] == v@[i - 1]@);
                assert(dedup_adjacent(vw.take(i + 1)) =~= dedup_adjacent(vw.take(i as int)));
            }
        }
        i = i + 1;
    }
    proof {
        assert(views_of(v@).take(v@.len() as int) =~= views_of(v@));
    }
    out
}

/// Sequence concatenation with a separator between elements.
pub open spec fn join(sep: Seq<char>, parts: Seq<Seq<char>>) -> Seq<char>
    decreases parts.len(),
{
    if parts.len() == 0 {
        Seq::empty()
    } else if parts.len() == 1 {
        parts[0]
    } else {
        parts[0] + sep + join(sep, parts.drop_first())
    }
}

proof fn lemma_join_push(sep: Seq<char>, parts: Seq<Seq<char>>, x: Seq<char>)
    ensures
        join(sep, parts.push(x)) == if parts.len() == 0 {
            x
        } else {
            join(sep, parts) + sep + x
        },
    decreases parts.len(),
{
    if parts.len() == 0 {
        assert(parts.push(x) =~= seq![x]);
        assert(join(sep, seq![x]) == x);
    } else {
        assert(parts.push(x).drop_first() =~= parts.drop_first().push(x));
        lemma_join_push(sep, parts.drop_first(), x);
        if parts.len() == 1 {
            assert(parts.push(x)[0] == parts[0]);
            assert(join(sep, parts.push(x)) =~= parts[0] + sep + x);
            assert(join(sep, parts) == parts[0]);
        } else {
            assert(join(sep, parts.push(x)) =~= parts[0] + sep + (join(sep, parts.drop_first())
                + sep + x));
            assert(join(sep, parts) + sep + x =~= parts[0] + sep + (join(
                sep,
                parts.drop_first(),
            ) + sep + x));
        }
    }
}

/// Joins strings with a one-character separator.
fn join_with(parts: &Vec<String>, sep: char) -> (r: String)
    ensures
        r@ == join(seq![sep], views_of(parts@)),
{
    let mut out = String::new();
    let mut i: usize = 0;
    proof {
        assert(views_of(parts@).take(0) =~= Seq::empty());
    }
    while i < parts.len()
        invariant
            i <= parts@.len(),
            out@ == join(seq![sep], views_of(parts@).take(i as int)),
        decreases parts@.len() - i,
    {
        proof {
            lemma_join_push(seq![sep], views_of(parts@).take(i as int), parts@[i as int]@);
            assert(views_of(parts@).take(i as int).push(parts@[i as int]@) =~= views_of(
                parts@,
            ).take(i + 1));
        }
        if i > 0 {
            push_char(&mut out, sep);
        }
        out.append(parts[i].as_str());
        proof {
            if i == 0 {
                assert(views_of(parts@).take(0).len() == 0);
                assert(out@ =~= parts@[0]@);
            }
        }
        i = i + 1;
    }
    proof {
        assert(views_of(parts@).take(parts@.len() as int) =~= views_of(parts@));
    }
    out
}

/// The canonical request: method, the fixed path `/`, the empty query
/// string, the sorted canonical header lines, the sorted signed header
/// names, and the hex body digest, separated by newlines.
pub open spec fn canonical_request_spec(
    method: Seq<char>,
    hs: Seq<(Seq<char>, Seq<char>)>,
    digest_hex: Seq<char>,
) -> Seq<char> {
    method + seq!['\n', '/', '\n', '\n'] + join(seq!['\n'], canonical_header_lines(hs)) + seq![
        '\n',
        '\n',
    ] + join(seq![';'], signed_header_names(hs)) + seq!['\n'] + digest_hex
}

/// The semicolon-joined, sorted, lower-cased header names, as they appear in
/// both the canonical request and the authorization header.
pub open spec fn signed_headers_string(hs: Seq<(Seq<char>, Seq<char>)>) -> Seq<char> {
    join(seq![';'], signed_header_names(hs))
}

/// Builds the sorted, deduplicated signed-header-names list, joined by
/// semicolons.
pub fn signed_header_string(headers: &Vec<(String, String)>) -> (r: String)
    ensures
        r@ == signed_headers_string(header_views(headers@)),
{
    let mut names: Vec<String> = Vec::new();
    let mut i: usize = 0;
    while i < headers.len()
        invariant
            i <= headers@.len(),
            views_of(names@) =~= header_views(headers@).take(i as int).map_values(name_fn()),
        decreases headers@.len() - i,
    {
        let ghost pre = names@;
        proof {
            assert(views_of(pre).len() == pre.len());
            assert(views_of(pre).len() == i);
        }
        names.push(str_ascii_lowercase(headers[i].0.as_str()));
        proof {
            let f = name_fn();
            let hv = header_views(headers@);
            assert(names@.len() == i + 1);
            assert(hv.take(i + 1).map_values(f).len() == i + 1);
            assert forall|k: int| 0 <= k < i + 1 implies views_of(names@)[k] == hv.take(
                i + 1,
            ).map_values(f)[k] by {
                assert(hv.take(i + 1)[k] == hv[k]);
                assert(hv[k] == (headers@[k].0@, headers@[k].1@));
                if k < i {
                    assert(views_of(names@)[k] == views_of(pre)[k]);
                    assert(views_of(pre)[k] == hv.take(i as int).map_values(f)[k]);
                    assert(hv.take(i as int)[k] == hv[k]);
                } else {
                    assert(names@[k]@ == ascii_lower(headers@[k].0@));
                }
            }
            assert(views_of(names@) =~= hv.take(i + 1).map_values(f));
        }
        i = i + 1;
    }
    proof {
        assert(header_views(headers@).take(headers@.len() as int) =~= header_views(headers@));
    }
    let sorted = sort_strings(&names);
    let distinct = dedup_sorted_strings(&sorted);
    join_with(&distinct, ';')
}

/// Builds the canonical request string.
pub fn canonical_request(
    method: &str,
    headers: &Vec<(String, String)>,
    digest_hex: &str,
) -> (r: String)
    ensures
        r@ == canonical_request_spec(method@, header_views(headers@), digest_hex@),
{
    let mut lines: Vec<String> = Vec::new();
    let mut i: usize = 0;
    while i < headers.len()
        invariant
            i <= headers@.len(),
            views_of(lines@) =~= header_views(headers@).take(i as int).map_values(line_fn()),
        decreases headers@.len() - i,
    {
        let mut line = str_ascii_lowercase(headers[i].0.as_str());
        push_char(&mut line, ':');
        let trimmed = str_trim(headers[i].1.as_str());
        line.append(trimmed.as_str());
        proof {
            assert(line@ =~= canonical_line(header_views(headers@)[i as int]));
        }
        let ghost pre = lines@;
        proof {
            assert(views_of(pre).len() == pre.len());
            assert(views_of(pre).len() == i);
        }
        lines.push(line);
        proof {
            let f = line_fn();
            let hv = header_views(headers@);
            assert(lines@.len() == i + 1);
            assert(hv.take(i + 1).map_values(f).len() == i + 1);
            assert forall|k: int| 0 <= k < i + 1 implies views_of(lines@)[k] == hv.take(
                i + 1,
            ).map_values(f)[k] by {
                assert(hv.take(i + 1)[k] == hv[k]);
                assert(hv[k] == (headers@[k].0@, headers@[k].1@));
                if k < i {
                    assert(views_of(lines@)[k] == views_of(pre)[k]);
                    assert(views_of(pre)[k] == hv.take(i as int).map_values(f)[k]);
                    assert(hv.take(i as int)[k] == hv[k]);
                } else {
                    assert(lines@[k]@ == canonical_line(hv[k]));
                }
            }
            assert(views_of(lines@) =~= hv.take(i + 1).map_values(f));
        }
        i = i + 1;
    }
    proof {
        assert(header_views(headers@).take(headers@.len() as int) =~= header_views(headers@));
    }
    let sorted_lines = sort_strings(&lines);
    let lines_joined = join_with(&sorted_lines, '\n');
    let names_joined = signed_header_string(headers);

    let mut out = String::new();
    out.append(method);
    out.append("\n/\n\n");
    out.append(lines_joined.as_str());
    out.append("\n\n");
    out.append(names_joined.as_str());
    out.append("\n");
    out.append(digest_hex);
    proof {
        reveal_strlit("\n/\n\n");
        reveal_strlit("\n\n");
        reveal_strlit("\n");
        assert("\n/\n\n"@ =~= seq!['\n', '/', '\n', '\n']);
        assert("\n\n"@ =~= seq!['\n', '\n']);
        assert("\n"@ =~= seq!['\n']);
        assert(out@ =~= canonical_request_spec(method@, header_views(headers@), digest_hex@));
    }
    out
}

/// The credential scope: date stamp, region, the fixed service name, and the
/// fixed terminator, separated by slashes.
pub open spec fn scope_of(t: Timestamp, region_id: Seq<char>) -> Seq<char> {
    short_date_of(t) + seq!['/'] + region_id + seq!['/'] + "dynamodb"@ + seq!['/']
        + "aws4_request"@
}

/// Builds the credential scope string.
pub fn scope_string(t: &Timestamp, region_id: &str) -> (r: String)
    requires
        t.wf(),
    ensures
        r@ == scope_of(*t, region_id@),
{
    let mut out = format_short_date(t);
    push_char(&mut out, '/');
    out.append(region_id);
    push_char(&mut out, '/');
    out.append("dynamodb");
    push_char(&mut out, '/');
    out.append("aws4_request");
    assert(out@ =~= scope_of(*t, region_id@));
    out
}

/// The string to sign: the algorithm literal, the fine timestamp, the scope,
/// and the hex-encoded digest of the canonical request.
pub open spec fn string_to_sign_of(
    t: Timestamp,
    region_id: Seq<char>,
    canonical_req: Seq<char>,
) -> Seq<char> {
    "AWS4-HMAC-SHA256"@ + seq!['\n'] + long_datetime_of(t) + seq!['\n'] + scope_of(t, region_id)
        + seq!['\n'] + hex_of(sha256_of(encode_utf8(canonical_req)))
}

/// Builds the string to sign from the canonical request.
pub fn string_to_sign(t: &Timestamp, region_id: &str, canonical_req: &str) -> (r: String)
    requires
        t.wf(),
    ensures
        r@ == string_to_sign_of(*t, region_id@, canonical_req@),
{
    let mut out = String::new();
    out.append("AWS4-HMAC-SHA256");
    push_char(&mut out, '\n');
    let long = format_long_datetime(t);
    out.append(long.as_str());
    push_char(&mut out, '\n');
    let scope = scope_string(t, region_id);
    out.append(scope.as_str());
    push_char(&mut out, '\n');
    let digest = sha256(canonical_req.as_bytes());
    let digest_hex = hex_encode(digest.as_slice());
    out.append(digest_hex.as_str());
    assert(out@ =~= string_to_sign_of(*t, region_id@, canonical_req@));
    out
}

/// The derived signing key: four chained HMAC steps over the prefixed secret,
/// the date stamp, the region, the service name, and the terminator.
pub open spec fn signing_key_of(secret: Seq<char>, t: Timestamp, region_id: Seq<char>) -> Seq<u8> {
    hmac_sha256_of(
        hmac_sha256_of(
            hmac_sha256_of(
                hmac_sha256_of(
                    encode_utf8("AWS4"@ + secret),
                    encode_utf8(short_date_of(t)),
                ),
                encode_utf8(region_id),
            ),
            encode_utf8("dynamodb"@),
        ),
        encode_utf8("aws4_request"@),
    )
}

/// Derives the per-day, per-region signing key from the secret key.
pub fn derive_signing_key(secret: &str, t: &Timestamp, region_id: &str) -> (r: Vec<u8>)
    requires
        t.wf(),
    ensures
        r@ == signing_key_of(secret@, *t, region_id@),
{
    let mut prefixed = String::new();
    prefixed.append("AWS4");
    prefixed.append(secret);
    let date = format_short_date(t);
    let k1 = hmac_sha256(prefixed.as_str().as_bytes(), date.as_str().as_bytes());
    let k2 = hmac_sha256(k1.as_slice(), region_id.as_bytes());
    let k3 = hmac_sha256(k2.as_slice(), "dynamodb".as_bytes());
    let k4 = hmac_sha256(k3.as_slice(), "aws4_request".as_bytes());
    k4
}

/// The final signature: the HMAC of the string to sign under the derived
/// key, hex encoded.
pub open spec fn signature_of(
    secret: Seq<char>,
    t: Timestamp,
    region_id: Seq<char>,
    canonical_req: Seq<char>,
) -> Seq<char> {
    hex_of(
        hmac_sha256_of(
            signing_key_of(secret, t, region_id),
            encode_utf8(string_to_sign_of(t, region_id, canonical_req)),
        ),
    )
}

/// Computes the request signature for a fixed timestamp, secret key, region,
/// and canonical request; the result is a function of exactly those inputs.
pub fn compute_signature(
    secret: &str,
    t: &Timestamp,
    region_id: &str,
    canonical_req: &str,
) -> (r: String)
    requires
        t.wf(),
    ensures
        r@ == signature_of(secret@, *t, region_id@, canonical_req@),
{
    let key = derive_signing_key(secret, t, region_id);
    let sts = string_to_sign(t, region_id, canonical_req);
    let mac = hmac_sha256(key.as_slice(), sts.as_str().as_bytes());
    hex_encode(mac.as_slice())
}


/// The authorization header value: the algorithm literal, the credential
/// (access key and scope), the signed header names, and the signature.
pub open spec fn auth_header_of(
    access_key: Seq<char>,
    t: Timestamp,
    region_id: Seq<char>,
    signed_headers: Seq<char>,
    signature: Seq<char>,
) -> Seq<char> {
    "AWS4-HMAC-SHA256 Credential="@ + access_key + seq!['/'] + scope_of(t, region_id)
        + ", SignedHeaders="@ + signed_headers + ", Signature="@ + signature
}

/// Builds the authorization header value.
pub fn authorization_header(
    access_key: &str,
    t: &Timestamp,
    region_id: &str,
    signed_headers: &str,
    signature: &str,
) -> (r: String)
    requires
        t.wf(),
    ensures
        r@ == auth_header_of(access_key@, *t, region_id@, signed_headers@, signature@),
{
    let mut out = String::new();
    out.append("AWS4-HMAC-SHA256 Credential=");
    out.append(access_key);
    push_char(&mut out, '/');
    let scope = scope_string(t, region_id);
    out.append(scope.as_str());
    out.append(", SignedHeaders=");
    out.append(signed_headers);
    out.append(", Signature=");
    out.append(signature);
    assert(out@ =~= auth_header_of(access_key@, *t, region_id@, signed_headers@, signature@));
    out
}

proof fn lemma_map_values_multiset<A, B>(a: Seq<A>, b: Seq<A>, f: spec_fn(A) -> B)
    requires
        a.to_multiset() == b.to_multiset(),
    ensures
        a.map_values(f).to_multiset() == b.map_values(f).to_multiset(),
    decreases a.len(),
{
    broadcast use vstd::multiset::group_multiset_axioms;

    a.to_multiset_ensures();
    b.to_multiset_ensures();
    if a.len() == 0 {
        assert(b.to_multiset().len() == 0);
        assert(b.len() == 0);
        assert(a.map_values(f) =~= Seq::<B>::empty());
        assert(b.map_values(f) =~= Seq::<B>::empty());
    } else {
        let x = a.last();
        let a0 = a.drop_last();
        assert(a =~= a0.push(x));
        a0.to_multiset_ensures();
        assert(a.to_multiset() == a0.to_multiset().insert(x));
        assert(b.to_multiset().count(x) > 0);
        assert(b.contains(x));
        let j = choose|j: int| 0 <= j < b.len() && b[j] == x;
        let b0 = b.remove(j);
        assert(b0.to_multiset() == b.to_multiset().remove(x));
        assert(a0.to_multiset() =~= a.to_multiset().remove(x));
        lemma_map_values_multiset(a0, b0, f);
        // relate the mapped sequences
        assert(a.map_values(f) =~= a0.map_values(f).push(f(x)));
        a0.map_values(f).to_multiset_ensures();
        assert(a.map_values(f).to_multiset() == a0.map_values(f).to_multiset().insert(f(x)));
        assert(b0.map_values(f) =~= b.map_values(f).remove(j));
        b.map_values(f).to_multiset_ensures();
        assert(b.map_values(f).remove(j).to_multiset() == b.map_values(f).to_multiset().remove(
            f(x),
        ));
        assert(b.map_values(f).to_multiset().count(f(x)) > 0) by {
            assert(b.map_values(f)[j] == f(x));
            assert(b.map_values(f).contains(f(x)));
        }
        assert(a.map_values(f).to_multiset() =~= b.map_values(f).to_multiset());
    }
}

/// Canonical-request construction is deterministic: header sets that are
/// equal as multisets — the same headers in any insertion order — yield the
/// same canonical string.
pub proof fn lemma_canonical_request_insertion_order(
    method: Seq<char>,
    h1: Seq<(Seq<char>, Seq<char>)>,
    h2: Seq<(Seq<char>, Seq<char>)>,
    digest_hex: Seq<char>,
)
    requires
        h1.to_multiset() == h2.to_multiset(),
    ensures
        canonical_request_spec(method, h1, digest_hex) == canonical_request_spec(
            method,
            h2,
            digest_hex,
        ),
{
    lemma_lex_total_ordering();
    let lines = line_fn();
    let names = name_fn();
    lemma_map_values_multiset(h1, h2, lines);
    lemma_map_values_multiset(h1, h2, names);
    h1.map_values(lines).lemma_sort_by_ensures(lex_leq());
    h2.map_values(lines).lemma_sort_by_ensures(lex_leq());
    lemma_sorted_unique(
        h1.map_values(lines).sort_by(lex_leq()),
        h2.map_values(lines).sort_by(lex_leq()),
        lex_leq(),
    );
    h1.map_values(names).lemma_sort_by_ensures(lex_leq());
    h2.map_values(names).lemma_sort_by_ensures(lex_leq());
    lemma_sorted_unique(
        h1.map_values(names).sort_by(lex_leq()),
        h2.map_values(names).sort_by(lex_leq()),
        lex_leq(),
    );
}

} // verus!
