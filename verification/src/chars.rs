//! Character-sequence utilities shared by the canonicalizer and the codec:
//! lexicographic ordering and sorting of strings, case folding and trimming
//! for header canonicalization, and decimal formatting.

use vstd::multiset::Multiset;
use vstd::prelude::*;
use vstd::relations::{sorted_by, total_ordering};
use vstd::seq_lib::{lemma_multiset_commutative, lemma_sorted_unique};

verus! {

/// Lexicographic order on character sequences by code point, the order the
/// signing scheme sorts canonical header lines and signed header names by.
pub open spec fn lex_le(a: Seq<char>, b: Seq<char>) -> bool
    decreases a.len(),
{
    if a.len() == 0 {
        true
    } else if b.len() == 0 {
        false
    } else if a[0] == b[0] {
        lex_le(a.drop_first(), b.drop_first())
    } else {
        (a[0] as int) < (b[0] as int)
    }
}

/// The ordering as a value, for `sort_by`.
pub open spec fn lex_leq() -> spec_fn(Seq<char>, Seq<char>) -> bool {
    |a: Seq<char>, b: Seq<char>| lex_le(a, b)
}

pub proof fn lemma_lex_le_refl(a: Seq<char>)
    ensures
        lex_le(a, a),
    decreases a.len(),
{
    if a.len() > 0 {
        lemma_lex_le_refl(a.drop_first());
    }
}

pub proof fn lemma_lex_le_connected(a: Seq<char>, b: Seq<char>)
    ensures
        lex_le(a, b) || lex_le(b, a),
    decreases a.len(),
{
    if a.len() > 0 && b.len() > 0 {
        if a[0] == b[0] {
            lemma_lex_le_connected(a.drop_first(), b.drop_first());
        }
    }
}

pub proof fn lemma_lex_le_antisymmetric(a: Seq<char>, b: Seq<char>)
    requires
        lex_le(a, b),
        lex_le(b, a),
    ensures
        a == b,
    decreases a.len(),
{
    if a.len() == 0 {
        assert(b.len() == 0);
        assert(a =~= b);
    } else {
        assert(b.len() > 0);
        assert(a[0] == b[0]);
        lemma_lex_le_antisymmetric(a.drop_first(), b.drop_first());
        assert(a =~= seq![a[0]] + a.drop_first());
        assert(b =~= seq![b[0]] + b.drop_first());
    }
}

pub proof fn lemma_lex_le_transitive(a: Seq<char>, b: Seq<char>, c: Seq<char>)
    requires
        lex_le(a, b),
        lex_le(b, c),
    ensures
        lex_le(a, c),
    decreases a.len(),
{
    if a.len() > 0 && b.len() > 0 && c.len() > 0 {
        if a[0] == b[0] && b[0] == c[0] {
            lemma_lex_le_transitive(a.drop_first(), b.drop_first(), c.drop_first());
        }
    }
}

pub proof fn lemma_lex_total_ordering()
    ensures
        total_ordering(lex_leq()),
{
    let leq = lex_leq();
    assert forall|a: Seq<char>| #[trigger] leq(a, a) by {
        lemma_lex_le_refl(a);
    }
    assert forall|a: Seq<char>, b: Seq<char>| #[trigger] leq(a, b) && #[trigger] leq(b, a)
        implies a == b by {
        lemma_lex_le_antisymmetric(a, b);
    }
    assert forall|a: Seq<char>, b: Seq<char>, c: Seq<char>|
        #[trigger] leq(a, b) && #[trigger] leq(b, c) implies leq(a, c) by {
        lemma_lex_le_transitive(a, b, c);
    }
    assert forall|a: Seq<char>, b: Seq<char>| !(#[trigger] leq(a, b)) implies leq(b, a) by {
        lemma_lex_le_connected(a, b);
    }
}

/// Dropping an equal prefix does not change the lexicographic comparison.
proof fn lemma_lex_le_common_prefix(a: Seq<char>, b: Seq<char>, i: int)
    requires
        0 <= i <= a.len(),
        i <= b.len(),
        forall|k: int| 0 <= k < i ==> a[k] == b[k],
    ensures
        lex_le(a, b) == lex_le(a.skip(i), b.skip(i)),
    decreases i,
{
    if i > 0 {
        assert(a.len() > 0 && b.len() > 0 && a[0] == b[0]);
        assert(a.drop_first().skip(i - 1) =~= a.skip(i));
        assert(b.drop_first().skip(i - 1) =~= b.skip(i));
        assert(forall|k: int| 0 <= k < i - 1 ==> a.drop_first()[k] == b.drop_first()[k]);
        lemma_lex_le_common_prefix(a.drop_first(), b.drop_first(), i - 1);
    } else {
        assert(a.skip(0) =~= a);
        assert(b.skip(0) =~= b);
    }
}

/// Compares two strings in the lexicographic order `lex_le`.
pub fn str_lex_le(a: &str, b: &str) -> (r: bool)
    ensures
        r == lex_le(a@, b@),
{
    let a_len = a.unicode_len();
    let b_len = b.unicode_len();
    let mut i: usize = 0;
    loop
        invariant
            i <= a_len,
            i <= b_len,
            a_len == a@.len(),
            b_len == b@.len(),
            forall|k: int| 0 <= k < i ==> a@[k] == b@[k],
        decreases a_len - i,
    {
        proof {
            lemma_lex_le_common_prefix(a@, b@, i as int);
        }
        if i >= a_len {
            assert(a@.skip(i as int).len() == 0);
            return true;
        }
        if i >= b_len {
            assert(b@.skip(i as int).len() == 0);
            assert(a@.skip(i as int).len() > 0);
            return false;
        }
        let ca = a.get_char(i);
        let cb = b.get_char(i);
        if ca != cb {
            assert(a@.skip(i as int)[0] == ca);
            assert(b@.skip(i as int)[0] == cb);
            let r = (ca as u32) < (cb as u32);
            assert(r == ((ca as int) < (cb as int)));
            return r;
        }
        i = i + 1;
    }
}

/// Collects the characters of a string slice into a vector.
pub fn str_to_chars(s: &str) -> (r: Vec<char>)
    ensures
        r@ == s@,
{
    let len = s.unicode_len();
    let mut r: Vec<char> = Vec::new();
    let mut i: usize = 0;
    while i < len
        invariant
            i <= len,
            len == s@.len(),
            r@ =~= s@.subrange(0, i as int),
        decreases len - i,
    {
        r.push(s.get_char(i));
        i = i + 1;
    }
    assert(r@ =~= s@);
    r
}

/// Relies on std's `String::push`: appends one character to the string.
#[verifier::external_body]
pub fn push_char(s: &mut String, c: char)
    ensures
        final(s)@ == old(s)@.push(c),
{
    s.push(c);
}

/// Builds a string out of a sequence of characters.
pub fn chars_to_string(v: &Vec<char>) -> (r: String)
    ensures
        r@ == v@,
{
    let mut r = String::new();
    let mut i: usize = 0;
    while i < v.len()
        invariant
            i <= v@.len(),
            r@ =~= v@.subrange(0, i as int),
        decreases v@.len() - i,
    {
        push_char(&mut r, v[i]);
        assert(r@ =~= v@.subrange(0, i + 1 as int));
        i = i + 1;
    }
    assert(r@ =~= v@);
    r
}

/// Character-wise equality of two string slices.
pub fn str_eq(a: &str, b: &str) -> (r: bool)
    ensures
        r == (a@ == b@),
{
    let a_len = a.unicode_len();
    let b_len = b.unicode_len();
    if a_len != b_len {
        return false;
    }
    let mut i: usize = 0;
    while i < a_len
        invariant
            i <= a_len,
            a_len == a@.len(),
            a_len == b@.len(),
            forall|k: int| 0 <= k < i ==> a@[k] == b@[k],
        decreases a_len - i,
    {
        if a.get_char(i) != b.get_char(i) {
            return false;
        }
        i = i + 1;
    }
    assert(a@ =~= b@);
    true
}

/// The decimal digit character for a value below ten.
pub open spec fn dec_digit(d: nat) -> char {
    if d == 0 { '0' } else if d == 1 { '1' } else if d == 2 { '2' } else if d == 3 { '3' }
    else if d == 4 { '4' } else if d == 5 { '5' } else if d == 6 { '6' } else if d == 7 { '7' }
    else if d == 8 { '8' } else { '9' }
}

/// The usual decimal rendering of a natural number, without leading zeros.
pub open spec fn dec_str_of(n: nat) -> Seq<char>
    decreases n,
{
    if n < 10 {
        seq![dec_digit(n)]
    } else {
        dec_str_of(n / 10) + seq![dec_digit(n % 10)]
    }
}

pub fn dec_digit_exec(d: u64) -> (r: char)
    requires
        d < 10,
    ensures
        r == dec_digit(d as nat),
{
    match d {
        0 => '0', 1 => '1', 2 => '2', 3 => '3', 4 => '4',
        5 => '5', 6 => '6', 7 => '7', 8 => '8', _ => '9',
    }
}

/// Renders a number in decimal.
pub fn u64_to_dec(n: u64) -> (r: String)
    ensures
        r@ == dec_str_of(n as nat),
{
    let mut digits: Vec<char> = Vec::new();
    let mut m: u64 = n;
    while m >= 10
        invariant
            dec_str_of(n as nat) =~= dec_str_of(m as nat) + digits@.reverse(),
        decreases m,
    {
        let ghost pre = digits@;
        let d: u64 = m % 10;
        digits.push(dec_digit_exec(d));
        proof {
            assert(digits@.reverse() =~= seq![dec_digit(d as nat)] + pre.reverse());
            assert(dec_str_of(m as nat) =~= dec_str_of((m / 10) as nat) + seq![dec_digit(d as nat)]);
        }
        m = m / 10;
    }
    let ghost pre = digits@;
    digits.push(dec_digit_exec(m));
    proof {
        assert(digits@.reverse() =~= seq![dec_digit(m as nat)] + pre.reverse());
        assert(dec_str_of(m as nat) =~= seq![dec_digit(m as nat)]);
    }
    // digits now holds the decimal digits in reverse order
    let mut out = String::new();
    let mut i: usize = digits.len();
    assert(dec_str_of(n as nat) =~= digits@.reverse());
    while i > 0
        invariant
            i <= digits@.len(),
            dec_str_of(n as nat) =~= digits@.reverse(),
            out@ =~= digits@.reverse().subrange(0, digits@.len() - i),
        decreases i,
    {
        i = i - 1;
        push_char(&mut out, digits[i]);
        assert(out@ =~= digits@.reverse().subrange(0, digits@.len() - i));
    }
    assert(out@ =~= digits@.reverse());
    out
}

/// ASCII lower-casing of a single character; anything outside `A..Z` is kept.
pub open spec fn ascii_lower_char(c: char) -> char {
    if 'A' <= c && c <= 'Z' {
        ((c as u8) + 0x20) as char
    } else {
        c
    }
}

/// ASCII lower-casing of a character sequence.
pub open spec fn ascii_lower(s: Seq<char>) -> Seq<char> {
    s.map_values(|c: char| ascii_lower_char(c))
}

fn ascii_lower_char_exec(c: char) -> (r: char)
    ensures
        r == ascii_lower_char(c),
{
    if 'A' <= c && c <= 'Z' {
        (((c as u8) + 0x20) as char)
    } else {
        c
    }
}

/// Lower-cases the ASCII letters of a string, the case folding header
/// canonicalization uses.
pub fn str_ascii_lowercase(s: &str) -> (r: String)
    ensures
        r@ == ascii_lower(s@),
{
    let len = s.unicode_len();
    let mut r = String::new();
    let mut i: usize = 0;
    while i < len
        invariant
            i <= len,
            len == s@.len(),
            r@ =~= ascii_lower(s@.subrange(0, i as int)),
        decreases len - i,
    {
        push_char(&mut r, ascii_lower_char_exec(s.get_char(i)));
        assert(r@ =~= ascii_lower(s@.subrange(0, i + 1 as int)));
        i = i + 1;
    }
    assert(r@ =~= ascii_lower(s@));
    r
}

/// ASCII whitespace, the class trimmed from header values.
pub open spec fn is_ws(c: char) -> bool {
    c == ' ' || c == '\t' || c == '\r' || c == '\n'
}

/// The index of the first non-whitespace character, or the length.
pub open spec fn first_non_ws(s: Seq<char>, i: nat) -> nat
    decreases s.len() - i when i <= s.len()
{
    if i < s.len() && is_ws(s[i as int]) {
        first_non_ws(s, i + 1)
    } else {
        i
    }
}

/// The index one past the last non-whitespace character, or zero.
pub open spec fn last_non_ws(s: Seq<char>, j: nat) -> nat
    decreases j,
{
    if j > 0 && is_ws(s[j - 1]) {
        last_non_ws(s, (j - 1) as nat)
    } else {
        j
    }
}

/// Whitespace trimming from both ends, as the canonicalizer applies to
/// header values.
pub open spec fn trim_spec(s: Seq<char>) -> Seq<char> {
    let a = first_non_ws(s, 0);
    let b = last_non_ws(s, s.len());
    if a <= b {
        s.subrange(a as int, b as int)
    } else {
        Seq::empty()
    }
}

pub proof fn lemma_first_non_ws_bounds(s: Seq<char>, i: nat)
    requires
        i <= s.len(),
    ensures
        i <= first_non_ws(s, i) <= s.len(),
        forall|k: int| i <= k < first_non_ws(s, i) ==> is_ws(s[k]),
        first_non_ws(s, i) < s.len() ==> !is_ws(s[first_non_ws(s, i) as int]),
    decreases s.len() - i,
{
    if i < s.len() && is_ws(s[i as int]) {
        lemma_first_non_ws_bounds(s, i + 1);
    }
}

pub proof fn lemma_last_non_ws_bounds(s: Seq<char>, j: nat)
    requires
        j <= s.len(),
    ensures
        last_non_ws(s, j) <= j,
        forall|k: int| last_non_ws(s, j) <= k < j ==> is_ws(s[k]),
        last_non_ws(s, j) > 0 ==> !is_ws(s[last_non_ws(s, j) - 1]),
    decreases j,
{
    if j > 0 && is_ws(s[j - 1]) {
        lemma_last_non_ws_bounds(s, (j - 1) as nat);
    }
}

fn is_ws_exec(c: char) -> (r: bool)
    ensures
        r == is_ws(c),
{
    c == ' ' || c == '\t' || c == '\r' || c == '\n'
}

/// Trims ASCII whitespace from both ends of a string.
pub fn str_trim(s: &str) -> (r: String)
    ensures
        r@ == trim_spec(s@),
{
    let v = str_to_chars(s);
    let len = v.len();
    let mut a: usize = 0;
    while a < len && is_ws_exec(v[a])
        invariant
            a <= len,
            len == v@.len(),
            v@ == s@,
            first_non_ws(s@, 0) == first_non_ws(s@, a as nat),
        decreases len - a,
    {
        a = a + 1;
    }
    assert(first_non_ws(s@, a as nat) == a);
    let mut b: usize = len;
    while b > 0 && is_ws_exec(v[b - 1])
        invariant
            b <= len,
            len == v@.len(),
            v@ == s@,
            last_non_ws(s@, s@.len()) == last_non_ws(s@, b as nat),
        decreases b,
    {
        b = b - 1;
    }
    assert(last_non_ws(s@, b as nat) == b);
    let mut out = String::new();
    if a >= b {
        proof {
            lemma_first_non_ws_bounds(s@, 0);
            lemma_last_non_ws_bounds(s@, s@.len());
            if a as nat <= last_non_ws(s@, s@.len()) {
                assert(trim_spec(s@) =~= s@.subrange(a as int, b as int));
                assert(trim_spec(s@) =~= out@);
            }
        }
        return out;
    }
    let mut i: usize = a;
    while i < b
        invariant
            a <= i <= b <= len,
            len == v@.len(),
            v@ == s@,
            out@ =~= s@.subrange(a as int, i as int),
        decreases b - i,
    {
        push_char(&mut out, v[i]);
        assert(out@ =~= s@.subrange(a as int, i + 1 as int));
        i = i + 1;
    }
    assert(out@ =~= trim_spec(s@));
    out
}

/// The element-wise views of a sequence of strings.
pub open spec fn views_of(v: Seq<String>) -> Seq<Seq<char>> {
    v.map_values(|s: String| s@)
}

proof fn lemma_insert_to_multiset(s: Seq<Seq<char>>, p: int, x: Seq<char>)
    requires
        0 <= p <= s.len(),
    ensures
        s.insert(p, x).to_multiset() =~= s.to_multiset().insert(x),
{
    let left = s.take(p);
    let right = s.skip(p);
    assert(s.insert(p, x) =~= left + (seq![x] + right));
    assert(s =~= left + right);
    lemma_multiset_commutative(left, seq![x] + right);
    lemma_multiset_commutative(seq![x], right);
    lemma_multiset_commutative(left, right);
    assert(seq![x].to_multiset() =~= Multiset::empty().insert(x)) by {
        seq![x].to_multiset_ensures();
        assert(seq![x].drop_first() =~= Seq::empty());
        assert(seq![x] =~= Seq::empty().push(x));
        Seq::<Seq<char>>::empty().to_multiset_ensures();
    }
}

/// Sorts strings into the lexicographic order `lex_le`; the result is the
/// (unique) sorted permutation `sort_by` describes.
#[verifier::rlimit(50)]
pub fn sort_strings(v: &Vec<String>) -> (r: Vec<String>)
    ensures
        views_of(r@) == views_of(v@).sort_by(lex_leq()),
        sorted_by(views_of(r@), lex_leq()),
        views_of(r@).to_multiset() == views_of(v@).to_multiset(),
{
    let leq = Ghost(lex_leq());
    let mut out: Vec<String> = Vec::new();
    let mut i: usize = 0;
    proof {
        assert(views_of(out@) =~= Seq::empty());
        assert(views_of(v@.take(0)) =~= Seq::empty());
        assert(views_of(out@).to_multiset() =~= views_of(v@.take(0)).to_multiset());
    }
    while i < v.len()
        invariant
            i <= v@.len(),
            sorted_by(views_of(out@), lex_leq()),
            views_of(out@).to_multiset() == views_of(v@.take(i as int)).to_multiset(),
        decreases v@.len() - i,
    {
        let x = v[i].clone();
        // find the insertion point
        let mut p: usize = 0;
        while p < out.len() && str_lex_le(out[p].as_str(), x.as_str())
            invariant
                p <= out@.len(),
                forall|k: int| 0 <= k < p ==> lex_le(views_of(out@)[k], x@),
            decreases out@.len() - p,
        {
            p = p + 1;
        }
        proof {
            let old_views = views_of(out@);
            let ins = old_views.insert(p as int, x@);
            old_views.insert_ensures(p as int, x@);
            assert(forall|k: int| 0 <= k < p ==> ins[k] == old_views[k]);
            assert(ins[p as int] == x@);
            assert(forall|k: int| p < k < ins.len() ==> ins[k] == old_views[k - 1]);
            lemma_insert_to_multiset(old_views, p as int, x@);
            assert(views_of(out@.insert(p as int, x)) =~= ins);
            // sortedness of the result
            if p < old_views.len() {
                lemma_lex_le_connected(old_views[p as int], x@);
                assert(lex_le(x@, old_views[p as int]));
            }
            assert forall|m: int, n: int| 0 <= m < n < ins.len() implies #[trigger] lex_leq()(
                ins[m],
                ins[n],
            ) by {
                if n < p {
                    assert(lex_leq()(old_views[m], old_views[n]));
                } else if m < p && n == p {
                    assert(lex_le(old_views[m], x@));
                } else if m < p && n > p {
                    if m == n - 1 {
                        assert(false);
                    } else {
                        assert(lex_leq()(old_views[m], old_views[n - 1]));
                    }
                } else if m == p {
                    assert(n > p);
                    if n - 1 == p {
                        assert(lex_le(x@, old_views[p as int]));
                    } else {
                        assert(lex_leq()(old_views[p as int], old_views[n - 1]));
                        lemma_lex_le_transitive(x@, old_views[p as int], old_views[n - 1]);
                    }
                } else {
                    assert(m > p && n > p);
                    assert(lex_leq()(old_views[m - 1], old_views[n - 1]));
                }
            }
            // multiset of the taken prefix grows by x
            assert(v@.take(i + 1).drop_last() =~= v@.take(i as int));
            assert(v@.take(i + 1).last() == v@[i as int]);
            assert(views_of(v@.take(i + 1)) =~= views_of(v@.take(i as int)).push(x@));
            views_of(v@.take(i as int)).to_multiset_ensures();
            assert(views_of(v@.take(i as int)).push(x@).to_multiset() =~= views_of(
                v@.take(i as int),
            ).to_multiset().insert(x@));
        }
        out.insert(p, x);
        i = i + 1;
    }
    proof {
        assert(v@.take(i as int) =~= v@);
        lemma_lex_total_ordering();
        views_of(v@).lemma_sort_by_ensures(lex_leq());
        lemma_sorted_unique(views_of(out@), views_of(v@).sort_by(lex_leq()), lex_leq());
    }
    out
}

} // verus!
