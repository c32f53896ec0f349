//! The item-protocol codec: building the write-item and read-item request
//! bodies, and interpreting the read-item and error response envelopes.
//!
//! The read body names the value attribute through the placeholder `#v` and
//! an attribute-name alias, so a value attribute whose name collides with a
//! reserved word of the store's expression grammar still works; the
//! indirection is applied on every read.

use crate::chars::str_to_chars;
use crate::error::{DecodeError, Error, ServiceError};
use crate::json::{
    chars_eq_str, escape_char, json_escape, lemma_parse_escaped, lemma_parse_string_body_bounds,
    escape_into, parse_attr_value, parse_item_members, parse_item_members_exec, parse_s_attr,
    parse_str_members, parse_str_members_exec, parse_string_body, parse_string_body_exec, skip_ws,
    skip_ws_exec, valid_chars,
};
use vstd::prelude::*;

verus! {

/// The write-item request body: `TableName`, and `Item` holding the key and
/// value attributes, each string-tagged.
pub open spec fn write_body_spec(
    table: Seq<char>,
    key_name: Seq<char>,
    value_name: Seq<char>,
    key: Seq<char>,
    value: Seq<char>,
) -> Seq<char> {
    "{\"TableName\":\""@ + json_escape(table) + "\",\"Item\":{\""@ + json_escape(key_name)
        + "\":{\"S\":\""@ + json_escape(key) + "\"},\""@ + json_escape(value_name)
        + "\":{\"S\":\""@ + json_escape(value) + "\"}}}"@
}

/// The read-item request body: `TableName`, `Key` holding the key attribute,
/// a placeholder `ProjectionExpression`, and the alias mapping the
/// placeholder to the value attribute's real name.
pub open spec fn read_body_spec(
    table: Seq<char>,
    key_name: Seq<char>,
    value_name: Seq<char>,
    key: Seq<char>,
) -> Seq<char> {
    "{\"TableName\":\""@ + json_escape(table) + "\",\"Key\":{\""@ + json_escape(key_name)
        + "\":{\"S\":\""@ + json_escape(key)
        + "\"}},\"ProjectionExpression\":\"#v\",\"ExpressionAttributeNames\":{\"#v\":\""@
        + json_escape(value_name) + "\"}}"@
}

/// Builds the write-item request body.
pub fn build_write_body(
    table: &str,
    key_name: &str,
    value_name: &str,
    key: &str,
    value: &str,
) -> (r: String)
    ensures
        r@ == write_body_spec(table@, key_name@, value_name@, key@, value@),
{
    let mut out = String::new();
    out.append("{\"TableName\":\"");
    escape_into(&mut out, table);
    out.append("\",\"Item\":{\"");
    escape_into(&mut out, key_name);
    out.append("\":{\"S\":\"");
    escape_into(&mut out, key);
    out.append("\"},\"");
    escape_into(&mut out, value_name);
    out.append("\":{\"S\":\"");
    escape_into(&mut out, value);
    out.append("\"}}}");
    assert(out@ =~= write_body_spec(table@, key_name@, value_name@, key@, value@));
    out
}

/// Builds the read-item request body.
pub fn build_read_body(table: &str, key_name: &str, value_name: &str, key: &str) -> (r: String)
    ensures
        r@ == read_body_spec(table@, key_name@, value_name@, key@),
{
    let mut out = String::new();
    out.append("{\"TableName\":\"");
    escape_into(&mut out, table);
    out.append("\",\"Key\":{\"");
    escape_into(&mut out, key_name);
    out.append("\":{\"S\":\"");
    escape_into(&mut out, key);
    out.append("\"}},\"ProjectionExpression\":\"#v\",\"ExpressionAttributeNames\":{\"#v\":\"");
    escape_into(&mut out, value_name);
    out.append("\"}}");
    assert(out@ =~= read_body_spec(table@, key_name@, value_name@, key@));
    out
}

/// What a read-item response body means: `None` where the body does not
/// match the envelope, `Some(None)` where the item is absent or carries no
/// string under the value attribute, and `Some(Some(v))` where it does.
pub open spec fn parse_read_response_spec(s: Seq<char>, vname: Seq<char>) -> Option<
    Option<Seq<char>>,
> {
    let i = skip_ws(s, 0);
    if i < s.len() && s[i] == '{' {
        let j = skip_ws(s, i + 1);
        if j < s.len() && s[j] == '}' {
            if skip_ws(s, j + 1) == s.len() {
                Some(None)
            } else {
                None
            }
        } else if j < s.len() && s[j] == '"' {
            match parse_string_body(s, j + 1) {
                Some(k) => if k.0 == "Item"@ && 0 <= k.1 <= s.len() {
                    let jc = skip_ws(s, k.1);
                    if jc < s.len() && s[jc] == ':' {
                        let jv = skip_ws(s, jc + 1);
                        if jv < s.len() && s[jv] == '{' {
                            let jo = skip_ws(s, jv + 1);
                            if jo < s.len() && s[jo] == '}' {
                                let jz = skip_ws(s, jo + 1);
                                if jz < s.len() && s[jz] == '}' && skip_ws(s, jz + 1) == s.len() {
                                    Some(None)
                                } else {
                                    None
                                }
                            } else {
                                match parse_item_members(s, jo, vname) {
                                    Some(m) => if 0 <= m.1 <= s.len() {
                                        let jz = skip_ws(s, m.1);
                                        if jz < s.len() && s[jz] == '}' && skip_ws(s, jz + 1)
                                            == s.len() {
                                            Some(m.0)
                                        } else {
                                            None
                                        }
                                    } else {
                                        None
                                    },
                                    None => None,
                                }
                            }
                        } else {
                            None
                        }
                    } else {
                        None
                    }
                } else {
                    None
                },
                None => None,
            }
        } else {
            None
        }
    } else {
        None
    }
}

/// What an error response body means: the service's error type and message,
/// where the body is an object carrying string values under `__type` and
/// `message`.
pub open spec fn parse_error_response_spec(s: Seq<char>) -> Option<(Seq<char>, Seq<char>)> {
    let i = skip_ws(s, 0);
    if i < s.len() && s[i] == '{' {
        let j = skip_ws(s, i + 1);
        if j < s.len() && s[j] == '"' {
            match (parse_str_members(s, j, "__type"@), parse_str_members(s, j, "message"@)) {
                (Some(a), Some(b)) => if 0 <= a.1 <= s.len() && skip_ws(s, a.1) == s.len() {
                    match (a.0, b.0) {
                        (Some(t), Some(m)) => Some((t, m)),
                        _ => None,
                    }
                } else {
                    None
                },
                _ => None,
            }
        } else {
            None
        }
    } else {
        None
    }
}

/// Parses a read-item response. The value under the value attribute is
/// returned; an empty-object body, a missing attribute, or an attribute of
/// any non-string variant is the defined "not found" outcome; anything that
/// does not match the envelope is a decode error carrying the body.
pub fn parse_read_response(body: &str, value_name: &str) -> (r: Result<Option<String>, Error>)
    ensures
        match parse_read_response_spec(body@, value_name@) {
            Some(found) => {
                &&& r matches Ok(o)
                &&& (match (o, found) {
                    (Some(x), Some(v)) => x@ == v,
                    (None, None) => true,
                    _ => false,
                })
            },
            None => {
                &&& r matches Err(e)
                &&& e matches Error::Decode(d)
                &&& d matches DecodeError::UnexpectedBody(b)
                &&& b@ == body@
            },
        },
{
    let s = str_to_chars(body);
    let err = Error::Decode(DecodeError::UnexpectedBody(body.to_owned()));
    let i = skip_ws_exec(&s, 0);
    if !(i < s.len() && s[i] == '{') {
        return Err(err);
    }
    let j = skip_ws_exec(&s, i + 1);
    if j < s.len() && s[j] == '}' {
        if skip_ws_exec(&s, j + 1) == s.len() {
            return Ok(None);
        } else {
            return Err(err);
        }
    }
    if !(j < s.len() && s[j] == '"') {
        return Err(err);
    }
    match parse_string_body_exec(&s, j + 1) {
        None => Err(err),
        Some((k, k1)) => {
            proof {
                lemma_parse_string_body_bounds(s@, j + 1 as int);
            }
            if !chars_eq_str(&k, "Item") {
                return Err(err);
            }
            let jc = skip_ws_exec(&s, k1);
            if !(jc < s.len() && s[jc] == ':') {
                return Err(err);
            }
            let jv = skip_ws_exec(&s, jc + 1);
            if !(jv < s.len() && s[jv] == '{') {
                return Err(err);
            }
            let jo = skip_ws_exec(&s, jv + 1);
            if jo < s.len() && s[jo] == '}' {
                let jz = skip_ws_exec(&s, jo + 1);
                if jz < s.len() && s[jz] == '}' && skip_ws_exec(&s, jz + 1) == s.len() {
                    return Ok(None);
                } else {
                    return Err(err);
                }
            }
            match parse_item_members_exec(&s, jo, value_name) {
                None => Err(err),
                Some((found, m1)) => {
                    let jz = skip_ws_exec(&s, m1);
                    if jz < s.len() && s[jz] == '}' && skip_ws_exec(&s, jz + 1) == s.len() {
                        match found {
                            Some(v) => Ok(Some(crate::chars::chars_to_string(&v))),
                            None => Ok(None),
                        }
                    } else {
                        Err(err)
                    }
                },
            }
        },
    }
}

/// Parses an error response into the service's error type and message; a
/// body that does not match the envelope is a decode error carrying it.
pub fn parse_error_response(body: &str) -> (r: Result<ServiceError, Error>)
    ensures
        match parse_error_response_spec(body@) {
            Some(tm) => {
                &&& r matches Ok(se)
                &&& se.error_type@ == tm.0
                &&& se.message@ == tm.1
            },
            None => {
                &&& r matches Err(e)
                &&& e matches Error::Decode(d)
                &&& d matches DecodeError::UnexpectedBody(b)
                &&& b@ == body@
            },
        },
{
    let s = str_to_chars(body);
    let err = Error::Decode(DecodeError::UnexpectedBody(body.to_owned()));
    let i = skip_ws_exec(&s, 0);
    if !(i < s.len() && s[i] == '{') {
        return Err(err);
    }
    let j = skip_ws_exec(&s, i + 1);
    if !(j < s.len() && s[j] == '"') {
        return Err(err);
    }
    let ta = parse_str_members_exec(&s, j, "__type");
    let mb = parse_str_members_exec(&s, j, "message");
    match (ta, mb) {
        (Some((t0, a1)), Some((m0, _))) => {
            if !(skip_ws_exec(&s, a1) == s.len()) {
                return Err(err);
            }
            match (t0, m0) {
                (Some(t), Some(m)) => Ok(
                    ServiceError {
                        error_type: crate::chars::chars_to_string(&t),
                        message: crate::chars::chars_to_string(&m),
                    },
                ),
                _ => Err(err),
            }
        },
        _ => Err(err),
    }
}


/// Escaping changes nothing in a string without quotes, backslashes, or
/// control characters.
pub proof fn lemma_json_escape_plain(s: Seq<char>)
    requires
        forall|k: int|
            0 <= k < s.len() ==> (#[trigger] s[k]) != '"' && s[k] != '\\' && (s[k] as u32) >= 32
                && (s[k] as int) >= 32,
    ensures
        json_escape(s) == s,
    decreases s.len(),
{
    if s.len() == 0 {
        assert(json_escape(s) =~= s);
    } else {
        assert(forall|k: int|
            0 <= k < s.drop_first().len() ==> s.drop_first()[k] == s[k + 1]);
        lemma_json_escape_plain(s.drop_first());
        assert(escape_char(s[0]) =~= seq![s[0]]);
        assert(json_escape(s) =~= seq![s[0]] + s.drop_first());
        assert(seq![s[0]] + s.drop_first() =~= s);
    }
}

/// The read-item response body the server constructs for an item holding
/// `value` under the attribute named `value_name` — the same string-tagged
/// attribute envelope the write body carries.
pub open spec fn item_response_body(value_name: Seq<char>, value: Seq<char>) -> Seq<char> {
    "{\"Item\":{\""@ + json_escape(value_name) + "\":{\"S\":\""@ + json_escape(value) + "\"}}}"@
}

proof fn lemma_rt_chars(value_name: Seq<char>, value: Seq<char>)
    ensures
        ({
            let s = item_response_body(value_name, value);
            let n1 = json_escape(value_name).len() as int;
            let n2 = json_escape(value).len() as int;
            &&& s.len() == 22 + n1 + n2
            &&& s[0] == '{' && s[1] == '"' && s[2] == 'I' && s[3] == 't' && s[4] == 'e' && s[5]
                == 'm' && s[6] == '"' && s[7] == ':' && s[8] == '{' && s[9] == '"'
            &&& s[10 + n1] == '"' && s[11 + n1] == ':' && s[12 + n1] == '{' && s[13 + n1] == '"'
                && s[14 + n1] == 'S' && s[15 + n1] == '"' && s[16 + n1] == ':' && s[17 + n1] == '"'
            &&& s[18 + n1 + n2] == '"' && s[19 + n1 + n2] == '}' && s[20 + n1 + n2] == '}' && s[21
                + n1 + n2] == '}'
        }),
{
    reveal_strlit("{\"Item\":{\"");
    reveal_strlit("\":{\"S\":\"");
    reveal_strlit("\"}}}");
    let l1 = "{\"Item\":{\""@;
    let l2 = "\":{\"S\":\""@;
    let l3 = "\"}}}"@;
    assert(l1 =~= seq!['{', '"', 'I', 't', 'e', 'm', '"', ':', '{', '"']);
    assert(l2 =~= seq!['"', ':', '{', '"', 'S', '"', ':', '"']);
    assert(l3 =~= seq!['"', '}', '}', '}']);
}

proof fn lemma_rt_item_string(value_name: Seq<char>, value: Seq<char>)
    ensures
        ({
            let s = item_response_body(value_name, value);
            parse_string_body(s, 2) == Some((seq!['I', 't', 'e', 'm'], 7int))
        }),
{
    reveal_strlit("{\"Item\":{\"");
    reveal_strlit("\":{\"S\":\"");
    reveal_strlit("\"}}}");
    let l1 = "{\"Item\":{\""@;
    let l2 = "\":{\"S\":\""@;
    let l3 = "\"}}}"@;
    let e1 = json_escape(value_name);
    let e2 = json_escape(value);
    let s = item_response_body(value_name, value);
    assert(l1 =~= seq!['{', '"', 'I', 't', 'e', 'm', '"', ':', '{', '"']);
    let item_chars = seq!['I', 't', 'e', 'm'];
    assert(forall|k: int|
        0 <= k < item_chars.len() ==> (#[trigger] item_chars[k]) != '"' && item_chars[k] != '\\'
            && (item_chars[k] as u32) >= 32 && (item_chars[k] as int) >= 32);
    assert(valid_chars(item_chars));
    lemma_json_escape_plain(item_chars);
    lemma_parse_escaped(seq!['{', '"'], item_chars, seq![':', '{', '"'] + e1 + l2 + e2 + l3);
    assert(s =~= seq!['{', '"'] + json_escape(item_chars) + seq!['"'] + (seq![':', '{', '"'] + e1
        + l2 + e2 + l3));
}

proof fn lemma_rt_vname_string(value_name: Seq<char>, value: Seq<char>)
    requires
        valid_chars(value_name),
    ensures
        ({
            let s = item_response_body(value_name, value);
            let n1 = json_escape(value_name).len() as int;
            parse_string_body(s, 10) == Some((value_name, 11 + n1))
        }),
{
    reveal_strlit("{\"Item\":{\"");
    reveal_strlit("\":{\"S\":\"");
    let l1 = "{\"Item\":{\""@;
    let l2 = "\":{\"S\":\""@;
    let l3 = "\"}}}"@;
    let e1 = json_escape(value_name);
    let e2 = json_escape(value);
    let s = item_response_body(value_name, value);
    assert(l1.len() == 10);
    assert(l2 =~= seq!['"', ':', '{', '"', 'S', '"', ':', '"']);
    lemma_parse_escaped(l1, value_name, l2.drop_first() + e2 + l3);
    assert(s =~= l1 + e1 + seq!['"'] + (l2.drop_first() + e2 + l3));
}

proof fn lemma_rt_s_string(value_name: Seq<char>, value: Seq<char>)
    ensures
        ({
            let s = item_response_body(value_name, value);
            let n1 = json_escape(value_name).len() as int;
            parse_string_body(s, 14 + n1) == Some((seq!['S'], 16 + n1))
        }),
{
    reveal_strlit("{\"Item\":{\"");
    reveal_strlit("\":{\"S\":\"");
    let l1 = "{\"Item\":{\""@;
    let l2 = "\":{\"S\":\""@;
    let l3 = "\"}}}"@;
    let e1 = json_escape(value_name);
    let e2 = json_escape(value);
    let s = item_response_body(value_name, value);
    assert(l1.len() == 10);
    assert(l2 =~= seq!['"', ':', '{', '"', 'S', '"', ':', '"']);
    let s_chars = seq!['S'];
    assert(forall|k: int|
        0 <= k < s_chars.len() ==> (#[trigger] s_chars[k]) != '"' && s_chars[k] != '\\' && (
        s_chars[k] as u32) >= 32 && (s_chars[k] as int) >= 32);
    assert(valid_chars(s_chars));
    lemma_json_escape_plain(s_chars);
    lemma_parse_escaped(l1 + e1 + seq!['"', ':', '{', '"'], s_chars, seq![':', '"'] + e2 + l3);
    assert(s =~= (l1 + e1 + seq!['"', ':', '{', '"']) + json_escape(s_chars) + seq!['"'] + (seq![
        ':',
        '"',
    ] + e2 + l3));
}

proof fn lemma_rt_value_string(value_name: Seq<char>, value: Seq<char>)
    requires
        valid_chars(value),
    ensures
        ({
            let s = item_response_body(value_name, value);
            let n1 = json_escape(value_name).len() as int;
            let n2 = json_escape(value).len() as int;
            parse_string_body(s, 18 + n1) == Some((value, 19 + n1 + n2))
        }),
{
    reveal_strlit("{\"Item\":{\"");
    reveal_strlit("\":{\"S\":\"");
    reveal_strlit("\"}}}");
    let l1 = "{\"Item\":{\""@;
    let l2 = "\":{\"S\":\""@;
    let l3 = "\"}}}"@;
    let e1 = json_escape(value_name);
    let e2 = json_escape(value);
    let s = item_response_body(value_name, value);
    assert(l1.len() == 10 && l2.len() == 8);
    assert(l3 =~= seq!['"', '}', '}', '}']);
    lemma_parse_escaped(l1 + e1 + l2, value, seq!['}', '}', '}']);
    assert(s =~= (l1 + e1 + l2) + e2 + seq!['"'] + seq!['}', '}', '}']);
}

proof fn lemma_rt_attr(value_name: Seq<char>, value: Seq<char>)
    requires
        valid_chars(value),
    ensures
        ({
            let s = item_response_body(value_name, value);
            let n1 = json_escape(value_name).len() as int;
            let n2 = json_escape(value).len() as int;
            parse_attr_value(s, 12 + n1) == Some((Some(value), 20 + n1 + n2))
        }),
{
    let s = item_response_body(value_name, value);
    let n1 = json_escape(value_name).len() as int;
    let n2 = json_escape(value).len() as int;
    lemma_rt_chars(value_name, value);
    lemma_rt_s_string(value_name, value);
    lemma_rt_value_string(value_name, value);
    assert(skip_ws(s, 13 + n1) == 13 + n1);
    assert(skip_ws(s, 16 + n1) == 16 + n1);
    assert(skip_ws(s, 17 + n1) == 17 + n1);
    assert(skip_ws(s, 19 + n1 + n2) == 19 + n1 + n2);
    assert(parse_s_attr(s, 12 + n1) == Some((value, 20 + n1 + n2)));
}

proof fn lemma_rt_members(value_name: Seq<char>, value: Seq<char>)
    requires
        valid_chars(value_name),
        valid_chars(value),
    ensures
        ({
            let s = item_response_body(value_name, value);
            let n1 = json_escape(value_name).len() as int;
            let n2 = json_escape(value).len() as int;
            parse_item_members(s, 9, value_name) == Some((Some(value), 21 + n1 + n2))
        }),
{
    let s = item_response_body(value_name, value);
    let n1 = json_escape(value_name).len() as int;
    let n2 = json_escape(value).len() as int;
    lemma_rt_chars(value_name, value);
    lemma_rt_vname_string(value_name, value);
    lemma_rt_attr(value_name, value);
    assert(skip_ws(s, 11 + n1) == 11 + n1);
    assert(skip_ws(s, 12 + n1) == 12 + n1);
    assert(skip_ws(s, 20 + n1 + n2) == 20 + n1 + n2);
    assert(parse_item_members(s, 9, value_name) == Some((Some(value), 21 + n1 + n2)));
}

/// Round-trip: a response built from a key/value pair the write codec
/// encoded decodes, through the read codec, to the original value, whatever
/// the value and the attribute name hold.
pub proof fn lemma_write_read_round_trip(value_name: Seq<char>, value: Seq<char>)
    requires
        valid_chars(value_name),
        valid_chars(value),
    ensures
        parse_read_response_spec(item_response_body(value_name, value), value_name) == Some(
            Some(value),
        ),
{
    reveal_strlit("Item");
    let s = item_response_body(value_name, value);
    let n1 = json_escape(value_name).len() as int;
    let n2 = json_escape(value).len() as int;
    lemma_rt_chars(value_name, value);
    lemma_rt_item_string(value_name, value);
    lemma_rt_members(value_name, value);
    assert(seq!['I', 't', 'e', 'm'] =~= "Item"@);
    assert(skip_ws(s, 0) == 0);
    assert(skip_ws(s, 1) == 1);
    assert(skip_ws(s, 7) == 7);
    assert(skip_ws(s, 8) == 8);
    assert(skip_ws(s, 9) == 9);
    assert(skip_ws(s, 21 + n1 + n2) == 21 + n1 + n2);
    assert(skip_ws(s, 22 + n1 + n2) == 22 + n1 + n2);
    assert(parse_read_response_spec(s, value_name) == Some(Some(value)));
}

} // verus!
