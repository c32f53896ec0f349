//! A verified parser for the store's JSON response envelopes, and JSON
//! string escaping for the request bodies the codec builds.
//!
//! The grammar accepted is JSON with objects, arrays, strings (with the
//! standard escapes; `\u` escapes are accepted for code points outside the
//! surrogate range), numbers, and the three literals. Every parsing
//! function advances its position, so recursion is bounded by the input
//! length alone.

use crate::sigv4::hex_digit;
use vstd::prelude::*;

verus! {

/// JSON insignificant whitespace.
pub open spec fn is_json_ws(c: char) -> bool {
    c == ' ' || c == '\t' || c == '\n' || c == '\r'
}

/// The first index at or after `i` holding no whitespace, or the length.
pub open spec fn skip_ws(s: Seq<char>, i: int) -> int
    decreases s.len() - i when 0 <= i <= s.len()
{
    if i < s.len() && is_json_ws(s[i]) {
        skip_ws(s, i + 1)
    } else {
        i
    }
}

pub proof fn lemma_skip_ws_bounds(s: Seq<char>, i: int)
    requires
        0 <= i <= s.len(),
    ensures
        i <= skip_ws(s, i) <= s.len(),
        skip_ws(s, i) < s.len() ==> !is_json_ws(s[skip_ws(s, i)]),
    decreases s.len() - i,
{
    if i < s.len() && is_json_ws(s[i]) {
        lemma_skip_ws_bounds(s, i + 1);
    }
}

/// The character a single-character escape stands for, if it is one.
pub open spec fn unescape_char(c: char) -> Option<char> {
    if c == '"' {
        Some('"')
    } else if c == '\\' {
        Some('\\')
    } else if c == '/' {
        Some('/')
    } else if c == 'b' {
        Some('\u{0008}')
    } else if c == 'f' {
        Some('\u{000C}')
    } else if c == 'n' {
        Some('\n')
    } else if c == 'r' {
        Some('\r')
    } else if c == 't' {
        Some('\t')
    } else {
        None
    }
}

/// The value of a hexadecimal digit character.
pub open spec fn hex_val(c: char) -> Option<u32> {
    if '0' <= c && c <= '9' {
        Some((c as u32 - '0' as u32) as u32)
    } else if 'a' <= c && c <= 'f' {
        Some((c as u32 - 'a' as u32 + 10) as u32)
    } else if 'A' <= c && c <= 'F' {
        Some((c as u32 - 'A' as u32 + 10) as u32)
    } else {
        None
    }
}

/// The code point of a `\uXXXX` escape at `i`, where `i` is the index of the
/// first hex digit, if all four digits are hexadecimal.
pub open spec fn hex4_val(s: Seq<char>, i: int) -> Option<u32>
    recommends
        0 <= i,
        i + 4 <= s.len(),
{
    match (hex_val(s[i]), hex_val(s[i + 1]), hex_val(s[i + 2]), hex_val(s[i + 3])) {
        (Some(a), Some(b), Some(c), Some(d)) => Some(
            ((a * 4096 + b * 256 + c * 16 + d) as u32),
        ),
        _ => None,
    }
}

/// Parses the body of a JSON string, starting just after the opening quote;
/// yields the denoted characters and the index just past the closing quote.
/// Control characters are rejected, as are `\u` escapes in the surrogate
/// range.
pub open spec fn parse_string_body(s: Seq<char>, i: int) -> Option<(Seq<char>, int)>
    decreases s.len() - i when 0 <= i <= s.len()
{
    if i >= s.len() {
        None
    } else if s[i] == '"' {
        Some((Seq::empty(), i + 1))
    } else if s[i] == '\\' {
        if i + 2 > s.len() {
            None
        } else if s[i + 1] == 'u' {
            if i + 6 <= s.len() {
                match hex4_val(s, i + 2) {
                    Some(v) => if v < 0xD800 || v > 0xDFFF {
                        match parse_string_body(s, i + 6) {
                            Some(p) => Some((seq![v as char] + p.0, p.1)),
                            None => None,
                        }
                    } else {
                        None
                    },
                    None => None,
                }
            } else {
                None
            }
        } else {
            match unescape_char(s[i + 1]) {
                Some(c) => match parse_string_body(s, i + 2) {
                    Some(p) => Some((seq![c] + p.0, p.1)),
                    None => None,
                },
                None => None,
            }
        }
    } else if (s[i] as u32) < 32 {
        None
    } else {
        match parse_string_body(s, i + 1) {
            Some(p) => Some((seq![s[i]] + p.0, p.1)),
            None => None,
        }
    }
}

pub proof fn lemma_parse_string_body_bounds(s: Seq<char>, i: int)
    requires
        0 <= i <= s.len(),
    ensures
        parse_string_body(s, i) matches Some(p) ==> i < p.1 <= s.len(),
    decreases s.len() - i,
{
    if i < s.len() {
        if s[i] == '\\' {
            if i + 2 <= s.len() && s[i + 1] == 'u' {
                if i + 6 <= s.len() {
                    lemma_parse_string_body_bounds(s, i + 6);
                }
            } else if i + 2 <= s.len() {
                lemma_parse_string_body_bounds(s, i + 2);
            }
        } else if s[i] != '"' && (s[i] as u32) >= 32 {
            lemma_parse_string_body_bounds(s, i + 1);
        }
    }
}

/// The characters that can make up a number token, scanned laxly.
pub open spec fn is_number_char(c: char) -> bool {
    ('0' <= c && c <= '9') || c == '-' || c == '+' || c == '.' || c == 'e' || c == 'E'
}

/// The first index at or after `i` holding no number character.
pub open spec fn skip_number(s: Seq<char>, i: int) -> int
    decreases s.len() - i when 0 <= i <= s.len()
{
    if i < s.len() && is_number_char(s[i]) {
        skip_number(s, i + 1)
    } else {
        i
    }
}

pub proof fn lemma_skip_number_bounds(s: Seq<char>, i: int)
    requires
        0 <= i <= s.len(),
    ensures
        i <= skip_number(s, i) <= s.len(),
    decreases s.len() - i,
{
    if i < s.len() && is_number_char(s[i]) {
        lemma_skip_number_bounds(s, i + 1);
    }
}

/// The index just past the JSON value starting at `i`, if one does.
pub open spec fn skip_value(s: Seq<char>, i: int) -> Option<int>
    decreases s.len() - i, 0int when 0 <= i <= s.len()
{
    if i >= s.len() {
        None
    } else if s[i] == '"' {
        match parse_string_body(s, i + 1) {
            Some(p) => Some(p.1),
            None => None,
        }
    } else if s[i] == '{' {
        proof {
            lemma_skip_ws_bounds(s, i + 1);
        }
        let j = skip_ws(s, i + 1);
        if j < s.len() && s[j] == '}' {
            Some(j + 1)
        } else {
            skip_members(s, j)
        }
    } else if s[i] == '[' {
        proof {
            lemma_skip_ws_bounds(s, i + 1);
        }
        let j = skip_ws(s, i + 1);
        if j < s.len() && s[j] == ']' {
            Some(j + 1)
        } else if j < s.len() {
            skip_elements(s, j)
        } else {
            None
        }
    } else if s[i] == 't' {
        if i + 4 <= s.len() && s[i + 1] == 'r' && s[i + 2] == 'u' && s[i + 3] == 'e' {
            Some(i + 4)
        } else {
            None
        }
    } else if s[i] == 'f' {
        if i + 5 <= s.len() && s[i + 1] == 'a' && s[i + 2] == 'l' && s[i + 3] == 's' && s[i + 4]
            == 'e' {
            Some(i + 5)
        } else {
            None
        }
    } else if s[i] == 'n' {
        if i + 4 <= s.len() && s[i + 1] == 'u' && s[i + 2] == 'l' && s[i + 3] == 'l' {
            Some(i + 4)
        } else {
            None
        }
    } else if s[i] == '-' || ('0' <= s[i] && s[i] <= '9') {
        Some(skip_number(s, i))
    } else {
        None
    }
}

/// The index just past a member list and its closing brace, starting at a
/// key; `None` where the input is not a member list.
pub open spec fn skip_members(s: Seq<char>, i: int) -> Option<int>
    decreases s.len() - i, 1int when 0 <= i <= s.len()
{
    if i >= s.len() || s[i] != '"' {
        None
    } else {
        match parse_string_body(s, i + 1) {
            None => None,
            Some(k) => {
                proof {
                    lemma_parse_string_body_bounds(s, i + 1);
                }
                let jc = skip_ws(s, k.1);
                proof {
                    lemma_skip_ws_bounds(s, k.1);
                }
                if jc < s.len() && s[jc] == ':' {
                    let jv = skip_ws(s, jc + 1);
                    proof {
                        lemma_skip_ws_bounds(s, jc + 1);
                    }
                    match skip_value(s, jv) {
                        None => None,
                        Some(je) => if 0 <= je && je <= s.len() {
                            let jc2 = skip_ws(s, je);
                            proof {
                                lemma_skip_ws_bounds(s, je);
                            }
                            if jc2 < s.len() && s[jc2] == '}' {
                                Some(jc2 + 1)
                            } else if jc2 < s.len() && s[jc2] == ',' {
                                let jn = skip_ws(s, jc2 + 1);
                                proof {
                                    lemma_skip_ws_bounds(s, jc2 + 1);
                                }
                                if i < jn {
                                    skip_members(s, jn)
                                } else {
                                    None
                                }
                            } else {
                                None
                            }
                        } else {
                            None
                        },
                    }
                } else {
                    None
                }
            },
        }
    }
}

/// The index just past an element list and its closing bracket, starting at
/// a value; `None` where the input is not an element list.
pub open spec fn skip_elements(s: Seq<char>, i: int) -> Option<int>
    decreases s.len() - i, 1int when 0 <= i <= s.len()
{
    match skip_value(s, i) {
        None => None,
        Some(je) => if 0 <= je && je <= s.len() {
            let jc = skip_ws(s, je);
            proof {
                lemma_skip_ws_bounds(s, je);
            }
            if jc < s.len() && s[jc] == ']' {
                Some(jc + 1)
            } else if jc < s.len() && s[jc] == ',' {
                let jn = skip_ws(s, jc + 1);
                proof {
                    lemma_skip_ws_bounds(s, jc + 1);
                }
                if i < jn {
                    skip_elements(s, jn)
                } else {
                    None
                }
            } else {
                None
            }
        } else {
            None
        },
    }
}

pub proof fn lemma_skip_value_bounds(s: Seq<char>, i: int)
    requires
        0 <= i <= s.len(),
    ensures
        skip_value(s, i) matches Some(j) ==> i < j <= s.len(),
    decreases s.len() - i, 0int,
{
    if i < s.len() {
        if s[i] == '"' {
            lemma_parse_string_body_bounds(s, i + 1);
        } else if s[i] == '{' {
            lemma_skip_ws_bounds(s, i + 1);
            let j = skip_ws(s, i + 1);
            if !(j < s.len() && s[j] == '}') {
                lemma_skip_members_bounds(s, j);
            }
        } else if s[i] == '[' {
            lemma_skip_ws_bounds(s, i + 1);
            let j = skip_ws(s, i + 1);
            if !(j < s.len() && s[j] == ']') && j < s.len() {
                lemma_skip_elements_bounds(s, j);
            }
        } else if s[i] == '-' || ('0' <= s[i] && s[i] <= '9') {
            lemma_skip_number_bounds(s, i + 1);
            assert(skip_value(s, i) == Some(skip_number(s, i)));
            assert(skip_number(s, i) == skip_number(s, i + 1));
        }
    }
}

pub proof fn lemma_skip_members_bounds(s: Seq<char>, i: int)
    requires
        0 <= i <= s.len(),
    ensures
        skip_members(s, i) matches Some(j) ==> i < j <= s.len(),
    decreases s.len() - i, 1int,
{
    if i < s.len() && s[i] == '"' {
        lemma_parse_string_body_bounds(s, i + 1);
        match parse_string_body(s, i + 1) {
            None => {},
            Some(k) => {
                let jc = skip_ws(s, k.1);
                lemma_skip_ws_bounds(s, k.1);
                if jc < s.len() && s[jc] == ':' {
                    let jv = skip_ws(s, jc + 1);
                    lemma_skip_ws_bounds(s, jc + 1);
                    lemma_skip_value_bounds(s, jv);
                    match skip_value(s, jv) {
                        None => {},
                        Some(je) => {
                            if 0 <= je && je <= s.len() {
                                let jc2 = skip_ws(s, je);
                                lemma_skip_ws_bounds(s, je);
                                if jc2 < s.len() && s[jc2] == ',' {
                                    let jn = skip_ws(s, jc2 + 1);
                                    lemma_skip_ws_bounds(s, jc2 + 1);
                                    if i < jn {
                                        lemma_skip_members_bounds(s, jn);
                                    }
                                }
                            }
                        },
                    }
                }
            },
        }
    }
}

pub proof fn lemma_skip_elements_bounds(s: Seq<char>, i: int)
    requires
        0 <= i <= s.len(),
    ensures
        skip_elements(s, i) matches Some(j) ==> i < j <= s.len(),
    decreases s.len() - i, 1int,
{
    lemma_skip_value_bounds(s, i);
    match skip_value(s, i) {
        None => {},
        Some(je) => {
            if 0 <= je && je <= s.len() {
                let jc = skip_ws(s, je);
                lemma_skip_ws_bounds(s, je);
                if jc < s.len() && s[jc] == ',' {
                    let jn = skip_ws(s, jc + 1);
                    lemma_skip_ws_bounds(s, jc + 1);
                    if i < jn {
                        lemma_skip_elements_bounds(s, jn);
                    }
                }
            }
        },
    }
}

/// Parses exactly a string-tagged attribute object `{"S": "<value>"}`, with
/// whitespace allowed between tokens; yields the value and the index just
/// past the closing brace.
pub open spec fn parse_s_attr(s: Seq<char>, i: int) -> Option<(Seq<char>, int)>
    recommends
        0 <= i <= s.len(),
{
    if 0 <= i && i < s.len() && s[i] == '{' {
        let j = skip_ws(s, i + 1);
        if j < s.len() && s[j] == '"' {
            match parse_string_body(s, j + 1) {
                Some(tag) => if tag.0 == seq!['S'] && 0 <= tag.1 <= s.len() {
                    let jc = skip_ws(s, tag.1);
                    if jc < s.len() && s[jc] == ':' {
                        let jv = skip_ws(s, jc + 1);
                        if jv < s.len() && s[jv] == '"' {
                            match parse_string_body(s, jv + 1) {
                                Some(v) => if 0 <= v.1 <= s.len() {
                                    let je = skip_ws(s, v.1);
                                    if je < s.len() && s[je] == '}' {
                                        Some((v.0, je + 1))
                                    } else {
                                        None
                                    }
                                } else {
                                    None
                                },
                                None => None,
                            }
                        } else {
                            None
                        }
                    } else {
                        None
                    }
                } else {
                    None
                },
                None => None,
            }
        } else {
            None
        }
    } else {
        None
    }
}

pub proof fn lemma_parse_s_attr_bounds(s: Seq<char>, i: int)
    requires
        0 <= i <= s.len(),
    ensures
        parse_s_attr(s, i) matches Some(p) ==> i < p.1 <= s.len(),
{
    if i < s.len() && s[i] == '{' {
        lemma_skip_ws_bounds(s, i + 1);
        let j = skip_ws(s, i + 1);
        if j < s.len() && s[j] == '"' {
            lemma_parse_string_body_bounds(s, j + 1);
            match parse_string_body(s, j + 1) {
                Some(tag) => {
                    if tag.0 == seq!['S'] {
                        lemma_skip_ws_bounds(s, tag.1);
                        let jc = skip_ws(s, tag.1);
                        if jc < s.len() && s[jc] == ':' {
                            let jv = skip_ws(s, jc + 1);
                            lemma_skip_ws_bounds(s, jc + 1);
                            if jv < s.len() && s[jv] == '"' {
                                lemma_parse_string_body_bounds(s, jv + 1);
                                match parse_string_body(s, jv + 1) {
                                    Some(v) => {
                                        lemma_skip_ws_bounds(s, v.1);
                                    },
                                    None => {},
                                }
                            }
                        }
                    }
                },
                None => {},
            }
        }
    }
}

/// Interprets the attribute value starting at `i`: the carried string where
/// it is a string-tagged attribute, no value for any other well-formed JSON
/// value, and `None` where the input is malformed.
pub open spec fn parse_attr_value(s: Seq<char>, i: int) -> Option<(Option<Seq<char>>, int)>
    recommends
        0 <= i <= s.len(),
{
    match parse_s_attr(s, i) {
        Some(p) => Some((Some(p.0), p.1)),
        None => match skip_value(s, i) {
            Some(j) => Some((None, j)),
            None => None,
        },
    }
}

pub proof fn lemma_parse_attr_value_bounds(s: Seq<char>, i: int)
    requires
        0 <= i <= s.len(),
    ensures
        parse_attr_value(s, i) matches Some(p) ==> i < p.1 <= s.len(),
{
    lemma_parse_s_attr_bounds(s, i);
    lemma_skip_value_bounds(s, i);
}

/// Walks the members of an item object starting at a key, looking up the
/// attribute named `vname`; yields the string it carries (if the first
/// occurrence is string-tagged) and the index just past the closing brace.
pub open spec fn parse_item_members(s: Seq<char>, i: int, vname: Seq<char>) -> Option<
    (Option<Seq<char>>, int),
>
    decreases s.len() - i when 0 <= i <= s.len()
{
    if i >= s.len() || s[i] != '"' {
        None
    } else {
        match parse_string_body(s, i + 1) {
            None => None,
            Some(k) => {
                proof {
                    lemma_parse_string_body_bounds(s, i + 1);
                }
                let jc = skip_ws(s, k.1);
                proof {
                    lemma_skip_ws_bounds(s, k.1);
                }
                if jc < s.len() && s[jc] == ':' {
                    let jv = skip_ws(s, jc + 1);
                    proof {
                        lemma_skip_ws_bounds(s, jc + 1);
                        lemma_parse_attr_value_bounds(s, jv);
                    }
                    match parse_attr_value(s, jv) {
                        None => None,
                        Some(av) => {
                            let jc2 = skip_ws(s, av.1);
                            proof {
                                lemma_skip_ws_bounds(s, av.1);
                            }
                            if jc2 < s.len() && s[jc2] == '}' {
                                Some((if k.0 == vname { av.0 } else { None }, jc2 + 1))
                            } else if jc2 < s.len() && s[jc2] == ',' {
                                let jn = skip_ws(s, jc2 + 1);
                                proof {
                                    lemma_skip_ws_bounds(s, jc2 + 1);
                                }
                                if i < jn {
                                    match parse_item_members(s, jn, vname) {
                                        None => None,
                                        Some(rest) => Some(
                                            (
                                                if k.0 == vname {
                                                    av.0
                                                } else {
                                                    rest.0
                                                },
                                                rest.1,
                                            ),
                                        ),
                                    }
                                } else {
                                    None
                                }
                            } else {
                                None
                            }
                        },
                    }
                } else {
                    None
                }
            },
        }
    }
}

/// Walks the members of an object starting at a key, looking up the string
/// value under `key`; any member whose value is not a string carries no
/// value. The first occurrence of the key decides.
pub open spec fn parse_str_members(s: Seq<char>, i: int, key: Seq<char>) -> Option<
    (Option<Seq<char>>, int),
>
    decreases s.len() - i when 0 <= i <= s.len()
{
    if i >= s.len() || s[i] != '"' {
        None
    } else {
        match parse_string_body(s, i + 1) {
            None => None,
            Some(k) => {
                proof {
                    lemma_parse_string_body_bounds(s, i + 1);
                }
                let jc = skip_ws(s, k.1);
                proof {
                    lemma_skip_ws_bounds(s, k.1);
                }
                if jc < s.len() && s[jc] == ':' {
                    let jv = skip_ws(s, jc + 1);
                    proof {
                        lemma_skip_ws_bounds(s, jc + 1);
                    }
                    let strval = if jv < s.len() && s[jv] == '"' {
                        match parse_string_body(s, jv + 1) {
                            Some(v) => Some(v),
                            None => None,
                        }
                    } else {
                        None
                    };
                    let end = match strval {
                        Some(v) => Some(v.1),
                        None => skip_value(s, jv),
                    };
                    proof {
                        if jv < s.len() {
                            lemma_parse_string_body_bounds(s, jv + 1);
                        }
                        lemma_skip_value_bounds(s, jv);
                    }
                    match end {
                        None => None,
                        Some(je) => if jv < je <= s.len() {
                            let jc2 = skip_ws(s, je);
                            proof {
                                lemma_skip_ws_bounds(s, je);
                            }
                            let cap = match strval {
                                Some(v) => Some(v.0),
                                None => None,
                            };
                            if jc2 < s.len() && s[jc2] == '}' {
                                Some((if k.0 == key { cap } else { None }, jc2 + 1))
                            } else if jc2 < s.len() && s[jc2] == ',' {
                                let jn = skip_ws(s, jc2 + 1);
                                proof {
                                    lemma_skip_ws_bounds(s, jc2 + 1);
                                }
                                if i < jn {
                                    match parse_str_members(s, jn, key) {
                                        None => None,
                                        Some(rest) => Some(
                                            (
                                                if k.0 == key {
                                                    cap
                                                } else {
                                                    rest.0
                                                },
                                                rest.1,
                                            ),
                                        ),
                                    }
                                } else {
                                    None
                                }
                            } else {
                                None
                            }
                        } else {
                            None
                        },
                    }
                } else {
                    None
                }
            },
        }
    }
}

/// A Unicode scalar value, the invariant every `char` carries.
pub open spec fn valid_char(c: char) -> bool {
    0 <= c as int <= 0xD7FF || 0xE000 <= c as int <= 0x10FFFF
}

pub open spec fn valid_chars(s: Seq<char>) -> bool {
    forall|k: int| 0 <= k < s.len() ==> valid_char(#[trigger] s[k])
}

/// How one character is written inside a JSON string: quotes and backslashes
/// get a backslash escape, control characters a `\u00XX` escape, and
/// everything else stands for itself.
pub open spec fn escape_char(c: char) -> Seq<char> {
    if c == '"' {
        seq!['\\', '"']
    } else if c == '\\' {
        seq!['\\', '\\']
    } else if 0 <= (c as int) && (c as int) < 32 {
        seq!['\\', 'u', '0', '0', hex_digit((c as int / 16) as nat), hex_digit((c as int % 16) as nat)]
    } else {
        seq![c]
    }
}

/// The body of the JSON string literal denoting `s`.
pub open spec fn json_escape(s: Seq<char>) -> Seq<char>
    decreases s.len(),
{
    if s.len() == 0 {
        Seq::empty()
    } else {
        escape_char(s[0]) + json_escape(s.drop_first())
    }
}

pub proof fn lemma_json_escape_push(s: Seq<char>, c: char)
    ensures
        json_escape(s.push(c)) == json_escape(s) + escape_char(c),
    decreases s.len(),
{
    if s.len() == 0 {
        assert(s.push(c) =~= seq![c]);
        assert(seq![c].drop_first() =~= Seq::<char>::empty());
        assert(json_escape(Seq::<char>::empty()) =~= Seq::<char>::empty());
        assert(json_escape(s.push(c)) =~= escape_char(c));
        assert(json_escape(s) + escape_char(c) =~= escape_char(c));
    } else {
        assert(s.push(c).drop_first() =~= s.drop_first().push(c));
        lemma_json_escape_push(s.drop_first(), c);
        assert(json_escape(s.push(c)) =~= escape_char(s[0]) + (json_escape(s.drop_first())
            + escape_char(c)));
        assert(json_escape(s) + escape_char(c) =~= escape_char(s[0]) + (json_escape(
            s.drop_first(),
        ) + escape_char(c)));
    }
}

/// Parsing a string body made of an escaped value, its closing quote, and
/// anything after gives the value back, ending just past the quote.
pub proof fn lemma_parse_escaped(pre: Seq<char>, v: Seq<char>, tail: Seq<char>)
    requires
        valid_chars(v),
    ensures
        ({
            let s = pre + json_escape(v) + seq!['"'] + tail;
            parse_string_body(s, pre.len() as int) == Some(
                (v, (pre.len() + json_escape(v).len() + 1) as int),
            )
        }),
    decreases v.len(),
{
    let s = pre + json_escape(v) + seq!['"'] + tail;
    let i = pre.len() as int;
    if v.len() == 0 {
        assert(json_escape(v) =~= Seq::<char>::empty());
        assert(s[i] == '"');
        assert(parse_string_body(s, i) == Some((Seq::<char>::empty(), i + 1)));
        assert(Seq::<char>::empty() =~= v);
    } else {
        let c = v[0];
        let v2 = v.drop_first();
        assert(valid_chars(v2)) by {
            assert(forall|k: int| 0 <= k < v2.len() ==> v2[k] == v[k + 1]);
        }
        assert(json_escape(v) == escape_char(c) + json_escape(v2));
        let pre2 = pre + escape_char(c);
        lemma_parse_escaped(pre2, v2, tail);
        let s2 = pre2 + json_escape(v2) + seq!['"'] + tail;
        assert(s =~= s2);
        let i2 = pre2.len() as int;
        assert(parse_string_body(s, i2) == Some((v2, (pre2.len() + json_escape(v2).len() + 1) as int)));
        // walk the escape of the first character
        if c == '"' {
            assert(s[i] == '\\' && s[i + 1] == '"');
            assert(i2 == i + 2);
            assert(unescape_char(s[i + 1]) == Some('"'));
            assert(parse_string_body(s, i) == Some((seq!['"'] + v2, (pre2.len() + json_escape(v2).len() + 1) as int)));
            assert(seq!['"'] + v2 =~= v);
        } else if c == '\\' {
            assert(s[i] == '\\' && s[i + 1] == '\\');
            assert(i2 == i + 2);
            assert(unescape_char(s[i + 1]) == Some('\\'));
            assert(parse_string_body(s, i) == Some((seq!['\\'] + v2, (pre2.len() + json_escape(v2).len() + 1) as int)));
            assert(seq!['\\'] + v2 =~= v);
        } else if 0 <= (c as int) && (c as int) < 32 {
            assert(s[i] == '\\' && s[i + 1] == 'u' && s[i + 2] == '0' && s[i + 3] == '0');
            assert(s[i + 4] == hex_digit((c as int / 16) as nat));
            assert(s[i + 5] == hex_digit((c as int % 16) as nat));
            assert(i2 == i + 6);
            let hi = (c as int / 16) as nat;
            let lo = (c as int % 16) as nat;
            assert(hex_val(hex_digit(hi)) == Some(hi as u32) && hex_val(hex_digit(lo)) == Some(
                lo as u32,
            )) by {
                assert(hi < 2 && lo < 16);
            }
            assert(hex_val('0') == Some(0u32));
            assert(hex4_val(s, i + 2) == Some(((hi * 16 + lo) as u32)));
            assert(hi * 16 + lo == c as int);
            assert((c as int) < 0xD800);
            assert(((c as u32) as char) == c);
            assert(parse_string_body(s, i) == Some((seq![c] + v2, (pre2.len() + json_escape(v2).len() + 1) as int)));
            assert(seq![c] + v2 =~= v);
        } else {
            assert(escape_char(c) =~= seq![c]);
            assert(s[i] == c);
            assert(i2 == i + 1);
            assert(valid_char(c));
            assert(s[i] != '"' && s[i] != '\\' && (s[i] as u32) >= 32);
            assert(parse_string_body(s, i) == Some((seq![c] + v2, (pre2.len() + json_escape(v2).len() + 1) as int)));
            assert(seq![c] + v2 =~= v);
        }
        assert(pre2.len() + json_escape(v2).len() + 1 == pre.len() + json_escape(v).len() + 1);
    }
}


fn is_json_ws_exec(c: char) -> (r: bool)
    ensures
        r == is_json_ws(c),
{
    c == ' ' || c == '\t' || c == '\n' || c == '\r'
}

/// The first index at or after `i` holding no whitespace.
pub fn skip_ws_exec(s: &Vec<char>, i: usize) -> (r: usize)
    requires
        i <= s@.len(),
    ensures
        r as int == skip_ws(s@, i as int),
        i <= r <= s@.len(),
{
    let mut j = i;
    while j < s.len() && is_json_ws_exec(s[j])
        invariant
            i <= j <= s@.len(),
            skip_ws(s@, i as int) == skip_ws(s@, j as int),
        decreases s@.len() - j,
    {
        j = j + 1;
    }
    j
}

fn unescape_char_exec(c: char) -> (r: Option<char>)
    ensures
        r == unescape_char(c),
{
    if c == '"' {
        Some('"')
    } else if c == '\\' {
        Some('\\')
    } else if c == '/' {
        Some('/')
    } else if c == 'b' {
        Some('\u{0008}')
    } else if c == 'f' {
        Some('\u{000C}')
    } else if c == 'n' {
        Some('\n')
    } else if c == 'r' {
        Some('\r')
    } else if c == 't' {
        Some('\t')
    } else {
        None
    }
}

fn hex_val_exec(c: char) -> (r: Option<u32>)
    ensures
        r == hex_val(c),
{
    if '0' <= c && c <= '9' {
        Some((c as u32) - ('0' as u32))
    } else if 'a' <= c && c <= 'f' {
        Some((c as u32) - ('a' as u32) + 10)
    } else if 'A' <= c && c <= 'F' {
        Some((c as u32) - ('A' as u32) + 10)
    } else {
        None
    }
}

/// Relies on std's `char::from_u32`: `Some` exactly for Unicode scalar
/// values (below the surrogate range or between it and the maximum code
/// point), and the returned character has the given code point.
#[verifier::external_body]
fn char_from_u32(v: u32) -> (r: Option<char>)
    ensures
        (r is Some) == (v < 0xD800 || (0xE000 <= v && v <= 0x10FFFF)),
        r matches Some(c) ==> c == (v as char),
{
    char::from_u32(v)
}

/// Parses the body of a JSON string starting just after the opening quote.
#[verifier::rlimit(100)]
pub fn parse_string_body_exec(s: &Vec<char>, i: usize) -> (r: Option<(Vec<char>, usize)>)
    requires
        i <= s@.len(),
    ensures
        (r is Some) == (parse_string_body(s@, i as int) is Some),
        r matches Some(q) ==> parse_string_body(s@, i as int) == Some((q.0@, q.1 as int)),
    decreases s@.len() - i,
{
    if i >= s.len() {
        return None;
    }
    let c = s[i];
    if c == '"' {
        let v: Vec<char> = Vec::new();
        assert(v@ =~= Seq::<char>::empty());
        return Some((v, i + 1));
    }
    if c == '\\' {
        if s.len() - i < 2 {
            return None;
        }
        let e = s[i + 1];
        if e == 'u' {
            if s.len() - i >= 6 {
                let h1 = hex_val_exec(s[i + 2]);
                let h2 = hex_val_exec(s[i + 3]);
                let h3 = hex_val_exec(s[i + 4]);
                let h4 = hex_val_exec(s[i + 5]);
                match (h1, h2, h3, h4) {
                    (Some(a), Some(b), Some(cc), Some(d)) => {
                        let v: u32 = a * 4096 + b * 256 + cc * 16 + d;
                        assert(hex4_val(s@, i + 2 as int) == Some(v));
                        if v < 0xD800 || v > 0xDFFF {
                            match char_from_u32(v) {
                                Some(ch) => {
                                    match parse_string_body_exec(s, i + 6) {
                                        Some((mut rest, j)) => {
                                            let ghost restv = rest@;
                                            rest.insert(0, ch);
                                            assert(rest@ =~= seq![ch] + restv);
                                            Some((rest, j))
                                        },
                                        None => None,
                                    }
                                },
                                None => {
                                    proof {
                                        assert(false);
                                    }
                                    None
                                },
                            }
                        } else {
                            None
                        }
                    },
                    _ => None,
                }
            } else {
                None
            }
        } else {
            match unescape_char_exec(e) {
                Some(c2) => {
                    match parse_string_body_exec(s, i + 2) {
                        Some((mut rest, j)) => {
                            let ghost restv = rest@;
                            rest.insert(0, c2);
                            assert(rest@ =~= seq![c2] + restv);
                            Some((rest, j))
                        },
                        None => None,
                    }
                },
                None => None,
            }
        }
    } else if (c as u32) < 32 {
        None
    } else {
        match parse_string_body_exec(s, i + 1) {
            Some((mut rest, j)) => {
                let ghost restv = rest@;
                rest.insert(0, c);
                assert(rest@ =~= seq![c] + restv);
                Some((rest, j))
            },
            None => None,
        }
    }
}

fn is_number_char_exec(c: char) -> (r: bool)
    ensures
        r == is_number_char(c),
{
    ('0' <= c && c <= '9') || c == '-' || c == '+' || c == '.' || c == 'e' || c == 'E'
}

fn skip_number_exec(s: &Vec<char>, i: usize) -> (r: usize)
    requires
        i <= s@.len(),
    ensures
        r as int == skip_number(s@, i as int),
        i <= r <= s@.len(),
{
    let mut j = i;
    while j < s.len() && is_number_char_exec(s[j])
        invariant
            i <= j <= s@.len(),
            skip_number(s@, i as int) == skip_number(s@, j as int),
        decreases s@.len() - j,
    {
        j = j + 1;
    }
    j
}

/// The index just past the JSON value starting at `i`, if one does.
pub fn skip_value_exec(s: &Vec<char>, i: usize) -> (r: Option<usize>)
    requires
        i <= s@.len(),
    ensures
        match r {
            Some(j) => skip_value(s@, i as int) == Some(j as int) && i < j <= s@.len(),
            None => skip_value(s@, i as int) is None,
        },
    decreases s@.len() - i, 0int,
{
    proof {
        lemma_skip_value_bounds(s@, i as int);
    }
    if i >= s.len() {
        return None;
    }
    let c = s[i];
    if c == '"' {
        match parse_string_body_exec(s, i + 1) {
            Some((_, j)) => {
                proof {
                    lemma_parse_string_body_bounds(s@, i + 1 as int);
                }
                Some(j)
            },
            None => None,
        }
    } else if c == '{' {
        let j = skip_ws_exec(s, i + 1);
        if j < s.len() && s[j] == '}' {
            Some(j + 1)
        } else {
            skip_members_exec(s, j)
        }
    } else if c == '[' {
        let j = skip_ws_exec(s, i + 1);
        if j < s.len() && s[j] == ']' {
            Some(j + 1)
        } else if j < s.len() {
            skip_elements_exec(s, j)
        } else {
            None
        }
    } else if c == 't' {
        if s.len() - i >= 4 && s[i + 1] == 'r' && s[i + 2] == 'u' && s[i + 3] == 'e' {
            Some(i + 4)
        } else {
            None
        }
    } else if c == 'f' {
        if s.len() - i >= 5 && s[i + 1] == 'a' && s[i + 2] == 'l' && s[i + 3] == 's' && s[i + 4]
            == 'e' {
            Some(i + 5)
        } else {
            None
        }
    } else if c == 'n' {
        if s.len() - i >= 4 && s[i + 1] == 'u' && s[i + 2] == 'l' && s[i + 3] == 'l' {
            Some(i + 4)
        } else {
            None
        }
    } else if c == '-' || ('0' <= c && c <= '9') {
        let j = skip_number_exec(s, i);
        Some(j)
    } else {
        None
    }
}

/// The index just past a member list and its closing brace.
pub fn skip_members_exec(s: &Vec<char>, i: usize) -> (r: Option<usize>)
    requires
        i <= s@.len(),
    ensures
        match r {
            Some(j) => skip_members(s@, i as int) == Some(j as int) && i < j <= s@.len(),
            None => skip_members(s@, i as int) is None,
        },
    decreases s@.len() - i, 1int,
{
    proof {
        lemma_skip_members_bounds(s@, i as int);
    }
    if i >= s.len() || s[i] != '"' {
        return None;
    }
    match parse_string_body_exec(s, i + 1) {
        None => None,
        Some((_, k1)) => {
            proof {
                lemma_parse_string_body_bounds(s@, i + 1 as int);
            }
            let jc = skip_ws_exec(s, k1);
            if jc < s.len() && s[jc] == ':' {
                let jv = skip_ws_exec(s, jc + 1);
                match skip_value_exec(s, jv) {
                    None => None,
                    Some(je) => {
                        let jc2 = skip_ws_exec(s, je);
                        if jc2 < s.len() && s[jc2] == '}' {
                            Some(jc2 + 1)
                        } else if jc2 < s.len() && s[jc2] == ',' {
                            let jn = skip_ws_exec(s, jc2 + 1);
                            assert(i < jn);
                            skip_members_exec(s, jn)
                        } else {
                            None
                        }
                    },
                }
            } else {
                None
            }
        },
    }
}

/// The index just past an element list and its closing bracket.
pub fn skip_elements_exec(s: &Vec<char>, i: usize) -> (r: Option<usize>)
    requires
        i <= s@.len(),
    ensures
        match r {
            Some(j) => skip_elements(s@, i as int) == Some(j as int) && i < j <= s@.len(),
            None => skip_elements(s@, i as int) is None,
        },
    decreases s@.len() - i, 1int,
{
    proof {
        lemma_skip_elements_bounds(s@, i as int);
    }
    match skip_value_exec(s, i) {
        None => None,
        Some(je) => {
            let jc = skip_ws_exec(s, je);
            if jc < s.len() && s[jc] == ']' {
                Some(jc + 1)
            } else if jc < s.len() && s[jc] == ',' {
                let jn = skip_ws_exec(s, jc + 1);
                assert(i < jn);
                skip_elements_exec(s, jn)
            } else {
                None
            }
        },
    }
}

/// Character-wise equality of a character vector and a string slice.
pub fn chars_eq_str(v: &Vec<char>, s: &str) -> (r: bool)
    ensures
        r == (v@ == s@),
{
    let len = s.unicode_len();
    if v.len() != len {
        return false;
    }
    let mut k: usize = 0;
    while k < len
        invariant
            k <= len,
            len == s@.len(),
            len == v@.len(),
            forall|m: int| 0 <= m < k ==> v@[m] == s@[m],
        decreases len - k,
    {
        if v[k] != s.get_char(k) {
            return false;
        }
        k = k + 1;
    }
    assert(v@ =~= s@);
    true
}

/// Parses exactly a string-tagged attribute object `{"S": "<value>"}`.
pub fn parse_s_attr_exec(s: &Vec<char>, i: usize) -> (r: Option<(Vec<char>, usize)>)
    requires
        i <= s@.len(),
    ensures
        (r is Some) == (parse_s_attr(s@, i as int) is Some),
        r matches Some(q) ==> parse_s_attr(s@, i as int) == Some((q.0@, q.1 as int)) && i < q.1
            <= s@.len(),
{
    proof {
        lemma_parse_s_attr_bounds(s@, i as int);
    }
    if !(i < s.len() && s[i] == '{') {
        return None;
    }
    let j = skip_ws_exec(s, i + 1);
    if !(j < s.len() && s[j] == '"') {
        return None;
    }
    match parse_string_body_exec(s, j + 1) {
        None => None,
        Some((tag, t1)) => {
            proof {
                lemma_parse_string_body_bounds(s@, j + 1 as int);
            }
            if !(tag.len() == 1 && tag[0] == 'S') {
                assert(tag@ != seq!['S']) by {
                    if tag@.len() == 1 && tag@[0] == 'S' {
                        assert(tag@ =~= seq!['S']);
                    }
                }
                return None;
            }
            assert(tag@ =~= seq!['S']);
            let jc = skip_ws_exec(s, t1);
            if !(jc < s.len() && s[jc] == ':') {
                return None;
            }
            let jv = skip_ws_exec(s, jc + 1);
            if !(jv < s.len() && s[jv] == '"') {
                return None;
            }
            match parse_string_body_exec(s, jv + 1) {
                None => None,
                Some((v, v1)) => {
                    proof {
                        lemma_parse_string_body_bounds(s@, jv + 1 as int);
                    }
                    let je = skip_ws_exec(s, v1);
                    if je < s.len() && s[je] == '}' {
                        Some((v, je + 1))
                    } else {
                        None
                    }
                },
            }
        },
    }
}

/// Interprets an attribute value: the carried string for a string-tagged
/// attribute, no value for any other well-formed JSON value.
pub fn parse_attr_value_exec(s: &Vec<char>, i: usize) -> (r: Option<(Option<Vec<char>>, usize)>)
    requires
        i <= s@.len(),
    ensures
        (r is Some) == (parse_attr_value(s@, i as int) is Some),
        r matches Some(q) ==> ({
            &&& parse_attr_value(s@, i as int) matches Some(p)
            &&& p.1 == q.1 as int
            &&& i < q.1 <= s@.len()
            &&& (match (q.0, p.0) {
                (Some(qv), Some(pv)) => qv@ == pv,
                (None, None) => true,
                _ => false,
            })
        }),
{
    proof {
        lemma_parse_attr_value_bounds(s@, i as int);
    }
    match parse_s_attr_exec(s, i) {
        Some((v, j)) => Some((Some(v), j)),
        None => {
            match skip_value_exec(s, i) {
                Some(j) => Some((None, j)),
                None => None,
            }
        },
    }
}


/// Walks the members of an item object, looking up the attribute named by
/// `vname`.
pub fn parse_item_members_exec(s: &Vec<char>, i: usize, vname: &str) -> (r: Option<
    (Option<Vec<char>>, usize),
>)
    requires
        i <= s@.len(),
    ensures
        (r is Some) == (parse_item_members(s@, i as int, vname@) is Some),
        r matches Some(q) ==> ({
            &&& parse_item_members(s@, i as int, vname@) matches Some(p)
            &&& p.1 == q.1 as int
            &&& q.1 <= s@.len()
            &&& (match (q.0, p.0) {
                (Some(qv), Some(pv)) => qv@ == pv,
                (None, None) => true,
                _ => false,
            })
        }),
    decreases s@.len() - i,
{
    if i >= s.len() || s[i] != '"' {
        return None;
    }
    match parse_string_body_exec(s, i + 1) {
        None => None,
        Some((k, k1)) => {
            proof {
                lemma_parse_string_body_bounds(s@, i + 1 as int);
            }
            let jc = skip_ws_exec(s, k1);
            if jc < s.len() && s[jc] == ':' {
                let jv = skip_ws_exec(s, jc + 1);
                match parse_attr_value_exec(s, jv) {
                    None => None,
                    Some((av, a1)) => {
                        let jc2 = skip_ws_exec(s, a1);
                        let matches_name = chars_eq_str(&k, vname);
                        if jc2 < s.len() && s[jc2] == '}' {
                            if matches_name {
                                Some((av, jc2 + 1))
                            } else {
                                Some((None, jc2 + 1))
                            }
                        } else if jc2 < s.len() && s[jc2] == ',' {
                            let jn = skip_ws_exec(s, jc2 + 1);
                            assert(i < jn);
                            match parse_item_members_exec(s, jn, vname) {
                                None => None,
                                Some((rest, e1)) => {
                                    if matches_name {
                                        Some((av, e1))
                                    } else {
                                        Some((rest, e1))
                                    }
                                },
                            }
                        } else {
                            None
                        }
                    },
                }
            } else {
                None
            }
        },
    }
}

/// Walks the members of an object, looking up the string value under `key`.
pub fn parse_str_members_exec(s: &Vec<char>, i: usize, key: &str) -> (r: Option<
    (Option<Vec<char>>, usize),
>)
    requires
        i <= s@.len(),
    ensures
        (r is Some) == (parse_str_members(s@, i as int, key@) is Some),
        r matches Some(q) ==> ({
            &&& parse_str_members(s@, i as int, key@) matches Some(p)
            &&& p.1 == q.1 as int
            &&& q.1 <= s@.len()
            &&& (match (q.0, p.0) {
                (Some(qv), Some(pv)) => qv@ == pv,
                (None, None) => true,
                _ => false,
            })
        }),
    decreases s@.len() - i,
{
    if i >= s.len() || s[i] != '"' {
        return None;
    }
    match parse_string_body_exec(s, i + 1) {
        None => None,
        Some((k, k1)) => {
            proof {
                lemma_parse_string_body_bounds(s@, i + 1 as int);
            }
            let jc = skip_ws_exec(s, k1);
            if jc < s.len() && s[jc] == ':' {
                let jv = skip_ws_exec(s, jc + 1);
                let strval: Option<(Vec<char>, usize)> = if jv < s.len() && s[jv] == '"' {
                    parse_string_body_exec(s, jv + 1)
                } else {
                    None
                };
                proof {
                    if jv < s@.len() {
                        lemma_parse_string_body_bounds(s@, jv + 1 as int);
                    }
                    lemma_skip_value_bounds(s@, jv as int);
                }
                let end: Option<usize> = match &strval {
                    Some(p) => Some(p.1),
                    None => skip_value_exec(s, jv),
                };
                match end {
                    None => None,
                    Some(je) => {
                        assert(jv < je <= s@.len());
                        let jc2 = skip_ws_exec(s, je);
                        let matches_key = chars_eq_str(&k, key);
                        let cap: Option<Vec<char>> = match strval {
                            Some(p) => Some(p.0),
                            None => None,
                        };
                        if jc2 < s.len() && s[jc2] == '}' {
                            if matches_key {
                                Some((cap, jc2 + 1))
                            } else {
                                Some((None, jc2 + 1))
                            }
                        } else if jc2 < s.len() && s[jc2] == ',' {
                            let jn = skip_ws_exec(s, jc2 + 1);
                            assert(i < jn);
                            match parse_str_members_exec(s, jn, key) {
                                None => None,
                                Some((rest, e1)) => {
                                    if matches_key {
                                        Some((cap, e1))
                                    } else {
                                        Some((rest, e1))
                                    }
                                },
                            }
                        } else {
                            None
                        }
                    },
                }
            } else {
                None
            }
        },
    }
}

fn hex_digit_exec(d: u32) -> (r: char)
    requires
        d < 16,
    ensures
        r == hex_digit(d as nat),
{
    match d {
        0 => '0', 1 => '1', 2 => '2', 3 => '3', 4 => '4', 5 => '5', 6 => '6', 7 => '7',
        8 => '8', 9 => '9', 10 => 'a', 11 => 'b', 12 => 'c', 13 => 'd', 14 => 'e', _ => 'f',
    }
}

/// Appends the escaped form of a string to `out`, as it is written inside a
/// JSON string literal.
pub fn escape_into(out: &mut String, s: &str)
    ensures
        final(out)@ == old(out)@ + json_escape(s@),
{
    let len = s.unicode_len();
    let mut i: usize = 0;
    proof {
        assert(json_escape(s@.take(0)) =~= Seq::<char>::empty());
        assert(out@ =~= old(out)@ + json_escape(s@.take(0)));
    }
    while i < len
        invariant
            i <= len,
            len == s@.len(),
            out@ == old(out)@ + json_escape(s@.take(i as int)),
        decreases len - i,
    {
        let c = s.get_char(i);
        proof {
            assert(s@.take(i + 1).drop_last() =~= s@.take(i as int));
            assert(s@.take(i + 1).last() == c);
            assert(s@.take(i + 1) =~= s@.take(i as int).push(c));
            lemma_json_escape_push(s@.take(i as int), c);
        }
        if c == '"' {
            crate::chars::push_char(out, '\\');
            crate::chars::push_char(out, '"');
            assert(out@ =~= old(out)@ + json_escape(s@.take(i + 1)));
        } else if c == '\\' {
            crate::chars::push_char(out, '\\');
            crate::chars::push_char(out, '\\');
            assert(out@ =~= old(out)@ + json_escape(s@.take(i + 1)));
        } else if (c as u32) < 32 {
            crate::chars::push_char(out, '\\');
            crate::chars::push_char(out, 'u');
            crate::chars::push_char(out, '0');
            crate::chars::push_char(out, '0');
            crate::chars::push_char(out, hex_digit_exec((c as u32) / 16));
            crate::chars::push_char(out, hex_digit_exec((c as u32) % 16));
            assert(escape_char(c) =~= seq!['\\', 'u', '0', '0', hex_digit(
                ((c as int) / 16) as nat,
            ), hex_digit(((c as int) % 16) as nat)]);
            assert((c as u32) / 16 == (c as int) / 16 && (c as u32) % 16 == (c as int) % 16);
            assert(out@ =~= old(out)@ + json_escape(s@.take(i + 1)));
        } else {
            crate::chars::push_char(out, c);
            assert(escape_char(c) =~= seq![c]);
            assert(out@ =~= old(out)@ + json_escape(s@.take(i + 1)));
        }
        i = i + 1;
    }
    proof {
        assert(s@.take(len as int) =~= s@);
    }
}

} // verus!
