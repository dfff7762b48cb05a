//! Character-sequence helpers shared by the rest of the crate.
//!
//! Strings are reasoned about through their views (`Seq<char>`). The
//! character classes of the standard library (white space, alphabetic,
//! numeric) and its case conversions are named here and reached through
//! small wrappers; everything built on top of them is verified.

use vstd::prelude::*;

verus! {

/// A character outside ASCII that `char::is_whitespace` holds of.
pub uninterp spec fn non_ascii_white_space(c: char) -> bool;

/// Alphabetic in the sense of `char::is_alphabetic`.
pub uninterp spec fn is_alphabetic_char(c: char) -> bool;

/// Numeric in the sense of `char::is_numeric`.
pub uninterp spec fn is_numeric_char(c: char) -> bool;

/// The result of `str::to_lowercase` on a string with these characters.
pub uninterp spec fn lowercase(s: Seq<char>) -> Seq<char>;

/// The result of `str::to_uppercase` on a string with these characters.
pub uninterp spec fn uppercase(s: Seq<char>) -> Seq<char>;

pub open spec fn is_ascii_char(c: char) -> bool {
    (c as u32) < 128
}

pub open spec fn all_ascii(s: Seq<char>) -> bool {
    forall|i: int| 0 <= i < s.len() ==> is_ascii_char(#[trigger] s[i])
}

pub open spec fn is_ascii_upper(c: char) -> bool {
    'A' <= c && c <= 'Z'
}

pub open spec fn is_ascii_lower(c: char) -> bool {
    'a' <= c && c <= 'z'
}

pub open spec fn is_ascii_digit(c: char) -> bool {
    '0' <= c && c <= '9'
}

pub open spec fn ascii_to_lower(c: char) -> char {
    if is_ascii_upper(c) {
        ((c as u32) + 32) as char
    } else {
        c
    }
}

pub open spec fn ascii_to_upper(c: char) -> char {
    if is_ascii_lower(c) {
        ((c as u32) - 32) as char
    } else {
        c
    }
}

/// The ASCII characters that carry the Unicode `White_Space` property.
pub open spec fn is_ascii_white_space(c: char) -> bool {
    c == ' ' || c == '\t' || c == '\n' || c == '\x0B' || c == '\x0C' || c == '\r'
}

/// White space in the sense of `char::is_whitespace`.
pub open spec fn is_white_space(c: char) -> bool {
    if is_ascii_char(c) {
        is_ascii_white_space(c)
    } else {
        non_ascii_white_space(c)
    }
}

/// `char::is_whitespace`: true when `c` has the Unicode `White_Space`
/// property. Claimed: on ASCII characters it is exactly tab, line feed,
/// vertical tab, form feed, carriage return and space; outside ASCII the
/// result is the name `non_ascii_white_space(c)`.
#[verifier::external_body]
pub fn char_is_whitespace(c: char) -> (r: bool)
    ensures
        is_ascii_char(c) ==> (r <==> is_ascii_white_space(c)),
        !is_ascii_char(c) ==> r == non_ascii_white_space(c),
{
    c.is_whitespace()
}

/// `char::is_alphabetic`: true when `c` has the Unicode `Alphabetic`
/// property. Claimed: the result is the name `is_alphabetic_char(c)`, and
/// on ASCII characters it holds exactly of `A`-`Z` and `a`-`z`.
#[verifier::external_body]
pub fn char_is_alphabetic(c: char) -> (r: bool)
    ensures
        r == is_alphabetic_char(c),
        is_ascii_char(c) ==> (r <==> (is_ascii_upper(c) || is_ascii_lower(c))),
{
    c.is_alphabetic()
}

/// `char::is_numeric`: true when `c` is in a Unicode number category.
/// Claimed: the result is the name `is_numeric_char(c)`, and on ASCII
/// characters it holds exactly of `0`-`9`.
#[verifier::external_body]
pub fn char_is_numeric(c: char) -> (r: bool)
    ensures
        r == is_numeric_char(c),
        is_ascii_char(c) ==> (r <==> is_ascii_digit(c)),
{
    c.is_numeric()
}

/// `str::to_lowercase`. Claimed: the result is the name `lowercase(s@)`,
/// and on a string of ASCII characters it lowers `A`-`Z` one for one and
/// keeps every other character.
#[verifier::external_body]
pub fn to_lowercase(s: &str) -> (r: String)
    ensures
        r@ == lowercase(s@),
        all_ascii(s@) ==> r@ == s@.map_values(|c: char| ascii_to_lower(c)),
{
    s.to_lowercase()
}

/// `str::to_uppercase`. Claimed: the result is the name `uppercase(s@)`,
/// and on a string of ASCII characters it raises `a`-`z` one for one and
/// keeps every other character.
#[verifier::external_body]
pub fn to_uppercase(s: &str) -> (r: String)
    ensures
        r@ == uppercase(s@),
        all_ascii(s@) ==> r@ == s@.map_values(|c: char| ascii_to_upper(c)),
{
    s.to_uppercase()
}

/// The first character of the upper-case mapping of `c`
/// (`c.to_uppercase().next()`, which always yields one).
pub uninterp spec fn upper_first(c: char) -> char;

/// `char::to_uppercase`, first character of the mapping. Claimed: the
/// result is the name `upper_first(c)`, and on ASCII characters it raises
/// `a`-`z` and keeps every other character.
#[verifier::external_body]
pub fn char_upper_first(c: char) -> (r: char)
    ensures
        r == upper_first(c),
        is_ascii_char(c) ==> r == ascii_to_upper(c),
{
    c.to_uppercase().next().unwrap_or(c)
}

/// `String::push`: appends one character.
#[verifier::external_body]
pub fn push_char(s: &mut String, c: char)
    ensures
        final(s)@ == old(s)@.push(c),
{
    s.push(c)
}

/// `str::len`: the length in bytes of the UTF-8 encoding, as a `usize`.
pub open spec fn byte_len(s: Seq<char>) -> usize {
    vstd::utf8::encode_utf8(s).len() as usize
}

/// `String::from_utf8`: the text the bytes encode, `None` when they are
/// not valid UTF-8.
#[verifier::external_body]
pub fn string_from_utf8(bytes: Vec<u8>) -> (r: Option<String>)
    ensures
        r is Some <==> vstd::utf8::valid_utf8(bytes@),
        r matches Some(s) ==> s@ == vstd::utf8::decode_utf8(bytes@),
{
    String::from_utf8(bytes).ok()
}

/// The view of an optional string.
pub open spec fn opt_view(o: Option<String>) -> Option<Seq<char>> {
    match o {
        Some(s) => Some(s@),
        None => None,
    }
}

/// A copy of an optional string.
pub fn clone_opt(o: &Option<String>) -> (r: Option<String>)
    ensures
        opt_view(r) == opt_view(*o),
{
    match o {
        Some(s) => Some(s.clone()),
        None => None,
    }
}

/// A copy of a vector of strings.
pub fn clone_strings(v: &Vec<String>) -> (r: Vec<String>)
    ensures
        r@.len() == v@.len(),
        forall|i: int| 0 <= i < v@.len() ==> #[trigger] r@[i]@ == v@[i]@,
{
    let mut out: Vec<String> = Vec::new();
    let mut i: usize = 0;
    while i < v.len()
        invariant
            i <= v@.len(),
            out@.len() == i,
            forall|j: int| 0 <= j < i ==> #[trigger] out@[j]@ == v@[j]@,
        decreases v@.len() - i,
    {
        out.push(v[i].clone());
        i = i + 1;
    }
    out
}

/// The characters of `s`, in order.
pub fn chars_of(s: &str) -> (r: Vec<char>)
    ensures
        r@ == s@,
{
    let n = s.unicode_len();
    let mut v: Vec<char> = Vec::new();
    let mut i: usize = 0;
    while i < n
        invariant
            n == s@.len(),
            i <= n,
            v@ == s@.subrange(0, i as int),
        decreases n - i,
    {
        v.push(s.get_char(i));
        i = i + 1;
        assert(v@ =~= s@.subrange(0, i as int));
    }
    assert(v@ =~= s@);
    v
}

/// A string holding the characters of `cs` from `a` up to `b`.
pub fn string_from_range(cs: &[char], a: usize, b: usize) -> (r: String)
    requires
        a <= b <= cs@.len(),
    ensures
        r@ == cs@.subrange(a as int, b as int),
{
    let mut s = String::new();
    let mut i: usize = a;
    while i < b
        invariant
            a <= i <= b <= cs@.len(),
            s@ == cs@.subrange(a as int, i as int),
        decreases b - i,
    {
        push_char(&mut s, cs[i]);
        i = i + 1;
        assert(s@ =~= cs@.subrange(a as int, i as int));
    }
    s
}

/// A string holding the characters of `cs`, in order.
pub fn string_from_chars(cs: &[char]) -> (r: String)
    ensures
        r@ == cs@,
{
    let mut s = String::new();
    let mut i: usize = 0;
    while i < cs.len()
        invariant
            i <= cs@.len(),
            s@ == cs@.subrange(0, i as int),
        decreases cs@.len() - i,
    {
        push_char(&mut s, cs[i]);
        i = i + 1;
        assert(s@ =~= cs@.subrange(0, i as int));
    }
    assert(s@ =~= cs@);
    s
}


// ---------------------------------------------------------------------------
// Trimming

/// The sequence with leading white space removed (`str::trim_start`).
pub open spec fn trim_start_seq(s: Seq<char>) -> Seq<char>
    decreases s.len(),
{
    if s.len() > 0 && is_white_space(s[0]) {
        trim_start_seq(s.drop_first())
    } else {
        s
    }
}

/// The sequence with trailing white space removed (`str::trim_end`).
pub open spec fn trim_end_seq(s: Seq<char>) -> Seq<char>
    decreases s.len(),
{
    if s.len() > 0 && is_white_space(s.last()) {
        trim_end_seq(s.drop_last())
    } else {
        s
    }
}

/// The sequence with white space removed at both ends (`str::trim`).
pub open spec fn trim_seq(s: Seq<char>) -> Seq<char> {
    trim_end_seq(trim_start_seq(s))
}

/// A sequence is blank when trimming leaves nothing of it.
pub open spec fn is_blank_seq(s: Seq<char>) -> bool {
    trim_seq(s).len() == 0
}

/// Trimming the start drops the white space before position `a`, the
/// first character that is not white space.
pub proof fn lemma_trim_start_shape(s: Seq<char>) -> (a: int)
    ensures
        0 <= a <= s.len(),
        trim_start_seq(s) == s.subrange(a, s.len() as int),
        forall|i: int| 0 <= i < a ==> is_white_space(#[trigger] s[i]),
        a < s.len() ==> !is_white_space(s[a]),
    decreases s.len(),
{
    if s.len() > 0 && is_white_space(s[0]) {
        let rest = s.drop_first();
        let a1 = lemma_trim_start_shape(rest);
        assert(rest.subrange(a1, rest.len() as int) =~= s.subrange(a1 + 1, s.len() as int));
        assert forall|i: int| 0 <= i < a1 + 1 implies is_white_space(#[trigger] s[i]) by {
            if i > 0 {
                assert(s[i] == rest[i - 1]);
            }
        }
        if a1 + 1 < s.len() {
            assert(s[a1 + 1] == rest[a1]);
        }
        a1 + 1
    } else {
        assert(s.subrange(0, s.len() as int) =~= s);
        0
    }
}

/// Trimming the end drops the white space from position `b` on, where the
/// last character that is not white space ends.
pub proof fn lemma_trim_end_shape(s: Seq<char>) -> (b: int)
    ensures
        0 <= b <= s.len(),
        trim_end_seq(s) == s.subrange(0, b),
        forall|i: int| b <= i < s.len() ==> is_white_space(#[trigger] s[i]),
        b > 0 ==> !is_white_space(s[b - 1]),
    decreases s.len(),
{
    if s.len() > 0 && is_white_space(s.last()) {
        let rest = s.drop_last();
        let b1 = lemma_trim_end_shape(rest);
        assert(rest.subrange(0, b1) =~= s.subrange(0, b1));
        assert forall|i: int| b1 <= i < s.len() implies is_white_space(#[trigger] s[i]) by {
            if i < s.len() - 1 {
                assert(s[i] == rest[i]);
            }
        }
        if b1 > 0 {
            assert(s[b1 - 1] == rest[b1 - 1]);
        }
        b1
    } else {
        assert(s.subrange(0, s.len() as int) =~= s);
        s.len() as int
    }
}

/// Trimming keeps `s[a..b]`: every character before `a` and from `b` on is
/// white space, and when something is kept it begins and ends with a
/// character that is not.
pub proof fn lemma_trim_shape(s: Seq<char>) -> (r: (int, int))
    ensures
        0 <= r.0 <= r.1 <= s.len(),
        trim_seq(s) == s.subrange(r.0, r.1),
        forall|i: int| 0 <= i < r.0 ==> is_white_space(#[trigger] s[i]),
        forall|i: int| r.1 <= i < s.len() ==> is_white_space(#[trigger] s[i]),
        r.0 < r.1 ==> !is_white_space(s[r.0]) && !is_white_space(s[r.1 - 1]),
{
    let a = lemma_trim_start_shape(s);
    let u = s.subrange(a, s.len() as int);
    let e = lemma_trim_end_shape(u);
    assert(u.subrange(0, e) =~= s.subrange(a, a + e));
    assert forall|i: int| a + e <= i < s.len() implies is_white_space(#[trigger] s[i]) by {
        assert(s[i] == u[i - a]);
    }
    if e > 0 {
        assert(s[a + e - 1] == u[e - 1]);
    }
    (a, a + e)
}

/// When every character before `a` and from `b` on is white space, and
/// `s[a..b]`, if not empty, begins and ends with one that is not,
/// trimming keeps exactly `s[a..b]`.
pub proof fn lemma_trim_at(s: Seq<char>, a: int, b: int)
    requires
        0 <= a <= b <= s.len(),
        forall|i: int| 0 <= i < a ==> is_white_space(#[trigger] s[i]),
        forall|i: int| b <= i < s.len() ==> is_white_space(#[trigger] s[i]),
        a < b ==> !is_white_space(s[a]) && !is_white_space(s[b - 1]),
    ensures
        trim_seq(s) == s.subrange(a, b),
{
    let (a2, b2) = lemma_trim_shape(s);
    if a < b {
        if a2 == b2 {
            assert(is_white_space(s[a]));
        }
        if a2 < a {
            assert(is_white_space(s[a2]));
        }
        if a2 > a {
            assert(is_white_space(s[a]));
        }
        if b2 > b {
            assert(is_white_space(s[b2 - 1]));
        }
        if b2 < b {
            assert(is_white_space(s[b - 1]));
        }
    } else if a2 < b2 {
        assert(is_white_space(s[a2]));
    }
}

/// The bounds of the trimmed part of `cs`.
pub fn trim_bounds(cs: &[char]) -> (r: (usize, usize))
    ensures
        r.0 <= r.1 <= cs@.len(),
        cs@.subrange(r.0 as int, r.1 as int) == trim_seq(cs@),
        trim_start_seq(cs@) == cs@.subrange(r.0 as int, cs@.len() as int),
{
    let n = cs.len();
    let mut i: usize = 0;
    assert(cs@.subrange(0, n as int) =~= cs@);
    while i < n && char_is_whitespace(cs[i])
        invariant
            n == cs@.len(),
            i <= n,
            trim_start_seq(cs@) == trim_start_seq(cs@.subrange(i as int, n as int)),
        decreases n - i,
    {
        assert(cs@.subrange(i as int, n as int).drop_first() =~= cs@.subrange(i + 1, n as int));
        i = i + 1;
    }
    let mut j: usize = n;
    while j > i && char_is_whitespace(cs[j - 1])
        invariant
            n == cs@.len(),
            i <= j <= n,
            trim_start_seq(cs@) == cs@.subrange(i as int, n as int),
            trim_seq(cs@) == trim_end_seq(cs@.subrange(i as int, j as int)),
        decreases j - i,
    {
        assert(cs@.subrange(i as int, j as int).drop_last() =~= cs@.subrange(i as int, j - 1));
        j = j - 1;
    }
    (i, j)
}

/// `str::trim`: the string without leading and trailing white space.
pub fn trim(s: &str) -> (r: String)
    ensures
        r@ == trim_seq(s@),
{
    let cs = chars_of(s);
    let (a, b) = trim_bounds(cs.as_slice());
    let mut out = String::new();
    let mut k: usize = a;
    while k < b
        invariant
            a <= k <= b <= cs@.len(),
            out@ == cs@.subrange(a as int, k as int),
        decreases b - k,
    {
        push_char(&mut out, cs[k]);
        k = k + 1;
        assert(out@ =~= cs@.subrange(a as int, k as int));
    }
    out
}

/// Whether `s` holds nothing but white space (`s.trim().is_empty()`).
pub fn is_blank(s: &str) -> (r: bool)
    ensures
        r == is_blank_seq(s@),
{
    let cs = chars_of(s);
    let (a, b) = trim_bounds(cs.as_slice());
    a == b
}

// ---------------------------------------------------------------------------
// Searching

/// `p` occurs in `s` at position `i`.
pub open spec fn occurs_at(s: Seq<char>, p: Seq<char>, i: int) -> bool {
    0 <= i && i + p.len() <= s.len() && s.subrange(i, i + p.len()) == p
}

/// `p` occurs somewhere in `s` (`str::contains`).
pub open spec fn contains_seq(s: Seq<char>, p: Seq<char>) -> bool {
    exists|i: int| occurs_at(s, p, i)
}

/// `s` begins with `p` (`str::starts_with`).
pub open spec fn starts_with_seq(s: Seq<char>, p: Seq<char>) -> bool {
    occurs_at(s, p, 0)
}

/// `s` holds the character `c`.
pub open spec fn has_char(s: Seq<char>, c: char) -> bool {
    exists|i: int| 0 <= i < s.len() && s[i] == c
}

/// Whether `p` occurs in `s` at position `i`.
pub fn matches_at(s: &[char], p: &[char], i: usize) -> (r: bool)
    ensures
        r == occurs_at(s@, p@, i as int),
{
    if i > s.len() || p.len() > s.len() - i {
        return false;
    }
    let mut k: usize = 0;
    while k < p.len()
        invariant
            i + p@.len() <= s@.len(),
            s@.len() <= usize::MAX,
            k <= p@.len(),
            forall|j: int| 0 <= j < k ==> s@[i + j] == p@[j],
        decreases p@.len() - k,
    {
        if s[i + k] != p[k] {
            assert(s@.subrange(i as int, i + p@.len())[k as int] != p@[k as int]);
            return false;
        }
        k = k + 1;
    }
    assert(s@.subrange(i as int, i + p@.len()) =~= p@);
    true
}

/// `str::contains` on character sequences.
pub fn contains_chars(s: &[char], p: &[char]) -> (r: bool)
    ensures
        r == contains_seq(s@, p@),
{
    if p.len() > s.len() {
        assert forall|i: int| !occurs_at(s@, p@, i) by {}
        return false;
    }
    if p.len() == 0 {
        assert(s@.subrange(0, 0) =~= p@);
        assert(occurs_at(s@, p@, 0));
        return true;
    }
    let last = s.len() - p.len();
    let mut i: usize = 0;
    while i <= last
        invariant
            last == s@.len() - p@.len(),
            p@.len() >= 1,
            s@.len() <= usize::MAX,
            i <= last + 1,
            forall|j: int| 0 <= j < i ==> !occurs_at(s@, p@, j),
        decreases last + 1 - i,
    {
        if matches_at(s, p, i) {
            return true;
        }
        i = i + 1;
    }
    assert forall|j: int| !occurs_at(s@, p@, j) by {
        if 0 <= j && j < i {
        }
    }
    false
}

/// `str::contains` for a string pattern.
pub fn str_contains(s: &str, p: &str) -> (r: bool)
    ensures
        r == contains_seq(s@, p@),
{
    let cs = chars_of(s);
    let ps = chars_of(p);
    contains_chars(cs.as_slice(), ps.as_slice())
}

/// `str::starts_with` for a string pattern.
pub fn str_starts_with(s: &str, p: &str) -> (r: bool)
    ensures
        r == starts_with_seq(s@, p@),
{
    let cs = chars_of(s);
    let ps = chars_of(p);
    matches_at(cs.as_slice(), ps.as_slice(), 0)
}

/// The first position of `c` in `s`, or -1 when it does not occur.
pub open spec fn index_of_char(s: Seq<char>, c: char) -> int
    decreases s.len(),
{
    if s.len() == 0 {
        -1
    } else if s[0] == c {
        0
    } else {
        let k = index_of_char(s.drop_first(), c);
        if k < 0 {
            -1
        } else {
            k + 1
        }
    }
}

/// `c` first occurs at `k` when it is there and nowhere before.
pub proof fn lemma_index_of_char_at(s: Seq<char>, c: char, k: int)
    requires
        0 <= k < s.len(),
        s[k] == c,
        forall|j: int| 0 <= j < k ==> s[j] != c,
    ensures
        index_of_char(s, c) == k,
    decreases s.len(),
{
    if k > 0 {
        lemma_index_of_char_at(s.drop_first(), c, k - 1);
    }
}

proof fn lemma_index_of_char_none(s: Seq<char>, c: char)
    requires
        forall|j: int| 0 <= j < s.len() ==> s[j] != c,
    ensures
        index_of_char(s, c) == -1,
    decreases s.len(),
{
    if s.len() > 0 {
        lemma_index_of_char_none(s.drop_first(), c);
    }
}

/// Two sequences of one length that hold `c` at the same places find it
/// at the same place.
pub proof fn lemma_index_of_char_same(s: Seq<char>, u: Seq<char>, c: char)
    requires
        s.len() == u.len(),
        forall|i: int| 0 <= i < s.len() ==> (s[i] == c) == (#[trigger] u[i] == c),
    ensures
        index_of_char(s, c) == index_of_char(u, c),
    decreases s.len(),
{
    if s.len() > 0 {
        let s1 = s.drop_first();
        let u1 = u.drop_first();
        assert forall|i: int| 0 <= i < s1.len() implies (s1[i] == c) == (#[trigger] u1[i] == c) by {
            assert(s1[i] == s[i + 1] && u1[i] == u[i + 1]);
        }
        lemma_index_of_char_same(s1, u1, c);
        assert((s[0] == c) == (u[0] == c));
    }
}

/// The first position of `c` in `s`, if any (`str::find` with a character).
pub fn find_char(s: &[char], c: char) -> (r: Option<usize>)
    ensures
        r matches Some(i) ==> i < s@.len() && s@[i as int] == c
            && forall|j: int| 0 <= j < i ==> s@[j] != c,
        r is None ==> !has_char(s@, c),
        match r {
            Some(i) => index_of_char(s@, c) == i,
            None => index_of_char(s@, c) == -1,
        },
{
    let mut i: usize = 0;
    while i < s.len()
        invariant
            i <= s@.len(),
            forall|j: int| 0 <= j < i ==> s@[j] != c,
        decreases s@.len() - i,
    {
        if s[i] == c {
            proof {
                lemma_index_of_char_at(s@, c, i as int);
            }
            return Some(i);
        }
        i = i + 1;
    }
    proof {
        lemma_index_of_char_none(s@, c);
    }
    None
}

/// Whether two character sequences are equal.
pub fn chars_eq(a: &[char], b: &[char]) -> (r: bool)
    ensures
        r == (a@ == b@),
{
    if a.len() != b.len() {
        return false;
    }
    let r = matches_at(a, b, 0);
    assert(a@.subrange(0, b@.len() as int) =~= a@);
    r
}

/// Whether a string equals a literal.
pub fn str_eq(a: &str, b: &str) -> (r: bool)
    ensures
        r == (a@ == b@),
{
    let x = chars_of(a);
    let y = chars_of(b);
    chars_eq(x.as_slice(), y.as_slice())
}


// ---------------------------------------------------------------------------
// Replacing

/// `str::replace`: every non-overlapping occurrence of `from`, scanning
/// left to right, replaced by `to`.
pub open spec fn replace_seq(s: Seq<char>, from: Seq<char>, to: Seq<char>) -> Seq<char>
    decreases s.len(),
{
    if from.len() == 0 || s.len() < from.len() {
        s
    } else if s.subrange(0, from.len() as int) == from {
        to + replace_seq(s.subrange(from.len() as int, s.len() as int), from, to)
    } else {
        seq![s[0]] + replace_seq(s.drop_first(), from, to)
    }
}

/// Position `i` stands between an opening and a closing square bracket.
pub open spec fn between_brackets(s: Seq<char>, i: int) -> bool {
    1 <= i && i + 1 < s.len() && s[i - 1] == '[' && s[i + 1] == ']'
}

/// The character `c` in square brackets.
pub open spec fn bracketed(c: char) -> Seq<char> {
    seq!['[', c, ']']
}

/// Replacing `[c]` by `[d]`, where `c` is no bracket, changes exactly the
/// characters `c` that stand between brackets, each to `d`.
pub proof fn lemma_replace_bracketed(s: Seq<char>, c: char, d: char)
    requires
        c != '[',
        c != ']',
    ensures
        replace_seq(s, bracketed(c), bracketed(d)).len() == s.len(),
        forall|i: int|
            0 <= i < s.len() ==> #[trigger] replace_seq(s, bracketed(c), bracketed(d))[i]
                == if between_brackets(s, i) && s[i] == c {
                d
            } else {
                s[i]
            },
    decreases s.len(),
{
    let from = bracketed(c);
    let to = bracketed(d);
    let out = replace_seq(s, from, to);
    if s.len() < 3 {
        assert(out == s);
    } else if s.subrange(0, 3) == from {
        let rest = s.subrange(3, s.len() as int);
        lemma_replace_bracketed(rest, c, d);
        let r = replace_seq(rest, from, to);
        assert(out == to + r);
        assert(s[0] == '[' && s[1] == c && s[2] == ']') by {
            assert(s.subrange(0, 3)[0] == s[0]);
            assert(s.subrange(0, 3)[1] == s[1]);
            assert(s.subrange(0, 3)[2] == s[2]);
        }
        assert forall|i: int| 0 <= i < s.len() implies #[trigger] out[i] == (if between_brackets(
            s,
            i,
        ) && s[i] == c {
            d
        } else {
            s[i]
        }) by {
            if i >= 3 {
                assert(out[i] == r[i - 3]);
                assert(rest[i - 3] == s[i]);
                if i >= 4 {
                    assert(rest[i - 4] == s[i - 1]);
                }
                if i + 1 < s.len() {
                    assert(rest[i - 2] == s[i + 1]);
                }
            }
        }
    } else {
        let rest = s.drop_first();
        lemma_replace_bracketed(rest, c, d);
        let r = replace_seq(rest, from, to);
        assert(out == seq![s[0]] + r);
        assert forall|i: int| 0 <= i < s.len() implies #[trigger] out[i] == (if between_brackets(
            s,
            i,
        ) && s[i] == c {
            d
        } else {
            s[i]
        }) by {
            if i >= 1 {
                assert(out[i] == r[i - 1]);
                assert(rest[i - 1] == s[i]);
                if i >= 2 {
                    assert(rest[i - 2] == s[i - 1]);
                }
                if i + 1 < s.len() {
                    assert(rest[i] == s[i + 1]);
                }
                if i == 1 && between_brackets(s, 1) && s[1] == c {
                    assert(s.subrange(0, 3) =~= from);
                }
            }
        }
    }
}

/// `str::replace` on character sequences, for a non-empty pattern.
pub fn replace_chars(s: &[char], from: &[char], to: &[char]) -> (r: Vec<char>)
    requires
        from@.len() > 0,
    ensures
        r@ == replace_seq(s@, from@, to@),
{
    let n = s.len();
    let m = from.len();
    let mut out: Vec<char> = Vec::new();
    let mut i: usize = 0;
    assert(s@.subrange(0, n as int) =~= s@);
    while i < n
        invariant
            n == s@.len(),
            m == from@.len(),
            m > 0,
            i <= n,
            out@ + replace_seq(s@.subrange(i as int, n as int), from@, to@) == replace_seq(
                s@,
                from@,
                to@,
            ),
        decreases n - i,
    {
        let rest = Ghost(s@.subrange(i as int, n as int));
        if m <= n - i && matches_at(s, from, i) {
            assert(rest@.subrange(0, m as int) =~= s@.subrange(i as int, i + m));
            assert(rest@.subrange(m as int, rest@.len() as int) =~= s@.subrange(i + m, n as int));
            let mut k: usize = 0;
            let ghost before = out@;
            while k < to.len()
                invariant
                    k <= to@.len(),
                    out@ == before + to@.subrange(0, k as int),
                decreases to@.len() - k,
            {
                out.push(to[k]);
                k = k + 1;
                assert(out@ =~= before + to@.subrange(0, k as int));
            }
            assert(to@.subrange(0, to@.len() as int) =~= to@);
            assert(out@ + replace_seq(s@.subrange(i + m, n as int), from@, to@) =~= before + (
            to@ + replace_seq(s@.subrange(i + m, n as int), from@, to@)));
            i = i + m;
        } else {
            if m <= n - i {
                assert(rest@.subrange(0, m as int) =~= s@.subrange(i as int, i + m));
            }
            assert(rest@.drop_first() =~= s@.subrange(i + 1, n as int));
            let ghost before = out@;
            out.push(s[i]);
            assert(out@ + replace_seq(s@.subrange(i + 1, n as int), from@, to@) =~= before + (
            seq![s@[i as int]] + replace_seq(s@.subrange(i + 1, n as int), from@, to@)));
            i = i + 1;
        }
    }
    assert(s@.subrange(n as int, n as int) =~= Seq::<char>::empty());
    assert(out@ + Seq::<char>::empty() =~= out@);
    out
}

/// `str::replace` for string arguments, with a non-empty pattern.
pub fn str_replace(s: &str, from: &str, to: &str) -> (r: String)
    requires
        from@.len() > 0,
    ensures
        r@ == replace_seq(s@, from@, to@),
{
    let cs = chars_of(s);
    let fs = chars_of(from);
    let ts = chars_of(to);
    let out = replace_chars(cs.as_slice(), fs.as_slice(), ts.as_slice());
    string_from_chars(out.as_slice())
}

// ---------------------------------------------------------------------------
// Joining

/// The parts joined with `sep` between each neighbouring pair (`join`).
pub open spec fn join_seq(parts: Seq<Seq<char>>, sep: Seq<char>) -> Seq<char>
    decreases parts.len(),
{
    if parts.len() == 0 {
        Seq::empty()
    } else if parts.len() == 1 {
        parts[0]
    } else {
        join_seq(parts.drop_last(), sep) + sep + parts.last()
    }
}

/// The views of a vector of strings.
pub open spec fn views(v: Seq<String>) -> Seq<Seq<char>> {
    v.map_values(|x: String| x@)
}

/// `[String]::join`: the parts joined with `sep`.
pub fn join(parts: &Vec<String>, sep: &str) -> (r: String)
    ensures
        r@ == join_seq(views(parts@), sep@),
{
    let mut out = String::new();
    let mut i: usize = 0;
    while i < parts.len()
        invariant
            i <= parts@.len(),
            out@ == join_seq(views(parts@).subrange(0, i as int), sep@),
        decreases parts@.len() - i,
    {
        let ghost prefix = views(parts@).subrange(0, i as int);
        if i > 0 {
            out.append(sep);
        }
        out.append(parts[i].as_str());
        i = i + 1;
        assert(views(parts@).subrange(0, i as int).drop_last() =~= prefix);
        if i == 1 {
            assert(out@ =~= views(parts@).subrange(0, 1)[0]);
        }
    }
    assert(views(parts@).subrange(0, parts@.len() as int) =~= views(parts@));
    out
}

// ---------------------------------------------------------------------------
// Lines

/// The line contents of `s` up to the first line feed, or all of `s`.
pub open spec fn first_line_feed(s: Seq<char>) -> int
    decreases s.len(),
{
    if s.len() == 0 {
        -1
    } else if s[0] == '\n' {
        0
    } else {
        let k = first_line_feed(s.drop_first());
        if k < 0 {
            -1
        } else {
            k + 1
        }
    }
}

/// A line cut before a line feed loses one trailing carriage return.
pub open spec fn strip_cr(s: Seq<char>) -> Seq<char> {
    if s.len() > 0 && s.last() == '\r' {
        s.drop_last()
    } else {
        s
    }
}

/// `str::lines`: the text split at line feeds, a carriage return before a
/// line feed dropped, and no empty last line after a final line feed.
pub open spec fn lines_seq(s: Seq<char>) -> Seq<Seq<char>>
    decreases s.len(),
{
    let k = first_line_feed(s);
    if s.len() == 0 {
        Seq::empty()
    } else if k < 0 {
        seq![s]
    } else {
        proof {
            lemma_first_line_feed(s);
        }
        seq![strip_cr(s.subrange(0, k))] + lines_seq(s.subrange(k + 1, s.len() as int))
    }
}

pub proof fn lemma_first_line_feed(s: Seq<char>)
    ensures
        -1 <= first_line_feed(s) < s.len(),
        first_line_feed(s) >= 0 ==> s[first_line_feed(s)] == '\n',
        first_line_feed(s) >= 0 ==> forall|j: int|
            0 <= j < first_line_feed(s) ==> s[j] != '\n',
        first_line_feed(s) < 0 ==> forall|j: int| 0 <= j < s.len() ==> s[j] != '\n',
    decreases s.len(),
{
    if s.len() > 0 && s[0] != '\n' {
        lemma_first_line_feed(s.drop_first());
        let k = first_line_feed(s.drop_first());
        assert forall|j: int| 0 < j < s.len() && (k < 0 || j < k + 1) implies s[j] != '\n' by {
            assert(s[j] == s.drop_first()[j - 1]);
        }
    }
}

proof fn lemma_first_line_feed_at(s: Seq<char>, k: int)
    requires
        0 <= k < s.len(),
        s[k] == '\n',
        forall|j: int| 0 <= j < k ==> s[j] != '\n',
    ensures
        first_line_feed(s) == k,
    decreases s.len(),
{
    if k > 0 {
        lemma_first_line_feed_at(s.drop_first(), k - 1);
    }
}

proof fn lemma_no_line_feed(s: Seq<char>)
    requires
        forall|j: int| 0 <= j < s.len() ==> s[j] != '\n',
    ensures
        first_line_feed(s) == -1,
    decreases s.len(),
{
    if s.len() > 0 {
        lemma_no_line_feed(s.drop_first());
    }
}

/// No line that `str::lines` gives holds a line feed.
pub proof fn lemma_lines_have_no_line_feed(s: Seq<char>)
    ensures
        forall|i: int, j: int|
            0 <= i < lines_seq(s).len() && 0 <= j < lines_seq(s)[i].len() ==> #[trigger] lines_seq(
                s,
            )[i][j] != '\n',
    decreases s.len(),
{
    lemma_first_line_feed(s);
    let k = first_line_feed(s);
    if s.len() > 0 && k >= 0 {
        let rest = s.subrange(k + 1, s.len() as int);
        lemma_lines_have_no_line_feed(rest);
        let first = strip_cr(s.subrange(0, k));
        assert(lines_seq(s) == seq![first] + lines_seq(rest));
        assert forall|i: int, j: int|
            0 <= i < lines_seq(s).len() && 0 <= j < lines_seq(s)[i].len() implies #[trigger] lines_seq(
            s,
        )[i][j] != '\n' by {
            if i == 0 {
                assert(lines_seq(s)[0] == first);
                assert(first[j] == s[j]);
            } else {
                assert(lines_seq(s)[i] == lines_seq(rest)[i - 1]);
            }
        }
    }
}

/// A line that `str::lines` gives back as it is, once joined to others
/// with line feeds: it holds no line feed and does not end with a
/// carriage return.
pub open spec fn plain_line(l: Seq<char>) -> bool {
    &&& forall|j: int| 0 <= j < l.len() ==> l[j] != '\n'
    &&& l.len() > 0 ==> l.last() != '\r'
}

/// Lines that joining with line feeds and splitting again gives back:
/// plain lines, the last of which is not empty.
pub open spec fn plain_lines(ls: Seq<Seq<char>>) -> bool {
    &&& forall|i: int| 0 <= i < ls.len() ==> plain_line(#[trigger] ls[i])
    &&& ls.len() > 0 ==> ls.last().len() > 0
}

/// Lines as `str::lines` gives them that split and join back as they
/// are: none ends with a carriage return and the last is not empty.
pub open spec fn tidy_lines(ls: Seq<Seq<char>>) -> bool {
    &&& forall|i: int| 0 <= i < ls.len() ==> !(#[trigger] ls[i].len() > 0 && ls[i].last() == '\r')
    &&& ls.len() > 0 ==> ls.last().len() > 0
}

/// The lines of a text are plain when they are tidy.
pub proof fn lemma_tidy_lines_plain(s: Seq<char>)
    requires
        tidy_lines(lines_seq(s)),
    ensures
        plain_lines(lines_seq(s)),
{
    lemma_lines_have_no_line_feed(s);
    let ls = lines_seq(s);
    assert forall|i: int| 0 <= i < ls.len() implies plain_line(#[trigger] ls[i]) by {
        assert forall|j: int| 0 <= j < ls[i].len() implies ls[i][j] != '\n' by {
            assert(lines_seq(s)[i][j] != '\n');
        }
        assert(!(ls[i].len() > 0 && ls[i].last() == '\r'));
    }
}

proof fn lemma_line_feed_after(a: Seq<char>, b: Seq<char>)
    requires
        forall|j: int| 0 <= j < a.len() ==> a[j] != '\n',
    ensures
        first_line_feed(a + seq!['\n'] + b) == a.len(),
{
    let s = a + seq!['\n'] + b;
    assert(s[a.len() as int] == '\n');
    assert forall|j: int| 0 <= j < a.len() implies s[j] != '\n' by {
        assert(s[j] == a[j]);
    }
    lemma_first_line_feed_at(s, a.len() as int);
}

/// Joined parts begin with the first part and the separator.
pub proof fn lemma_join_front(ls: Seq<Seq<char>>, sep: Seq<char>)
    requires
        ls.len() >= 2,
    ensures
        join_seq(ls, sep) == ls[0] + sep + join_seq(ls.drop_first(), sep),
    decreases ls.len(),
{
    if ls.len() == 2 {
        assert(ls.drop_last().len() == 1);
        assert(join_seq(ls.drop_last(), sep) == ls.drop_last()[0]);
        assert(join_seq(ls.drop_first(), sep) == ls.drop_first()[0]);
    } else {
        lemma_join_front(ls.drop_last(), sep);
        assert(ls.drop_last().drop_first() =~= ls.drop_first().drop_last());
        assert(ls.drop_first().last() == ls.last());
        assert(ls.drop_last()[0] == ls[0]);
        assert(join_seq(ls.drop_first(), sep) == join_seq(ls.drop_first().drop_last(), sep) + sep
            + ls.drop_first().last());
        assert(join_seq(ls, sep) =~= ls[0] + sep + join_seq(ls.drop_first(), sep));
    }
}

/// Joining plain lines with line feeds and splitting the text at line
/// feeds again gives the lines back.
pub proof fn lemma_lines_of_join(ls: Seq<Seq<char>>)
    requires
        plain_lines(ls),
    ensures
        lines_seq(join_seq(ls, "\n"@)) == ls,
    decreases ls.len(),
{
    reveal_strlit("\n");
    if ls.len() == 0 {
        assert(lines_seq(join_seq(ls, "\n"@)) =~= ls);
    } else if ls.len() == 1 {
        assert(plain_line(ls[0]));
        lemma_no_line_feed(ls[0]);
        assert(lines_seq(ls[0]) == seq![ls[0]]);
        assert(ls =~= seq![ls[0]]);
    } else {
        lemma_join_front(ls, "\n"@);
        let rest = join_seq(ls.drop_first(), "\n"@);
        let a = ls[0];
        assert(plain_line(a));
        let s = a + seq!['\n'] + rest;
        assert(join_seq(ls, "\n"@) =~= s);
        lemma_line_feed_after(a, rest);
        assert(s.subrange(0, a.len() as int) =~= a);
        assert(s.subrange(a.len() as int + 1, s.len() as int) =~= rest);
        assert(plain_lines(ls.drop_first())) by {
            assert forall|i: int| 0 <= i < ls.drop_first().len() implies plain_line(
                #[trigger] ls.drop_first()[i],
            ) by {
                assert(ls.drop_first()[i] == ls[i + 1]);
            }
        }
        lemma_lines_of_join(ls.drop_first());
        assert(strip_cr(a) == a);
        assert(lines_seq(s) == seq![a] + lines_seq(rest));
        assert(ls =~= seq![a] + ls.drop_first());
    }
}

/// Replacing a pattern by one of the same length keeps the length, and
/// brings in a character `c` neither anywhere nor at the end unless the
/// text or the replacement has it there.
pub proof fn lemma_replace_same_length(s: Seq<char>, from: Seq<char>, to: Seq<char>, c: char)
    requires
        from.len() == to.len(),
        from.len() > 0,
    ensures
        replace_seq(s, from, to).len() == s.len(),
        (forall|j: int| 0 <= j < s.len() ==> s[j] != c) && (forall|j: int|
            0 <= j < to.len() ==> to[j] != c) ==> (forall|j: int|
            0 <= j < replace_seq(s, from, to).len() ==> replace_seq(s, from, to)[j] != c),
        s.len() > 0 && s.last() != c && to.last() != c ==> replace_seq(s, from, to).last() != c,
    decreases s.len(),
{
    let out = replace_seq(s, from, to);
    let m = from.len() as int;
    if s.len() < from.len() {
    } else if s.subrange(0, m) == from {
        let rest = s.subrange(m, s.len() as int);
        lemma_replace_same_length(rest, from, to, c);
        let r = replace_seq(rest, from, to);
        assert(out == to + r);
        if (forall|j: int| 0 <= j < s.len() ==> s[j] != c) && (forall|j: int|
            0 <= j < to.len() ==> to[j] != c) {
            assert forall|j: int| 0 <= j < rest.len() implies rest[j] != c by {
                assert(rest[j] == s[j + m]);
            }
            assert forall|j: int| 0 <= j < out.len() implies out[j] != c by {
                if j < m {
                    assert(out[j] == to[j]);
                } else {
                    assert(out[j] == r[j - m]);
                }
            }
        }
        if rest.len() > 0 {
            assert(rest.last() == s.last());
            assert(out.last() == r.last());
        } else {
            assert(out.last() == to.last());
        }
    } else {
        let rest = s.drop_first();
        lemma_replace_same_length(rest, from, to, c);
        let r = replace_seq(rest, from, to);
        assert(out == seq![s[0]] + r);
        if (forall|j: int| 0 <= j < s.len() ==> s[j] != c) && (forall|j: int|
            0 <= j < to.len() ==> to[j] != c) {
            assert forall|j: int| 0 <= j < rest.len() implies rest[j] != c by {
                assert(rest[j] == s[j + 1]);
            }
            assert forall|j: int| 0 <= j < out.len() implies out[j] != c by {
                if j > 0 {
                    assert(out[j] == r[j - 1]);
                }
            }
        }
        if rest.len() > 0 {
            assert(rest.last() == s.last());
            assert(out.last() == r.last());
        } else {
            assert(out.last() == s[0]);
        }
    }
}

/// The lines of a character sequence, as `str::lines` gives them.
pub fn lines_of(s: &[char]) -> (r: Vec<Vec<char>>)
    ensures
        r@.len() == lines_seq(s@).len(),
        forall|i: int| 0 <= i < r@.len() ==> #[trigger] r@[i]@ == lines_seq(s@)[i],
{
    let n = s.len();
    let mut out: Vec<Vec<char>> = Vec::new();
    let mut start: usize = 0;
    assert(s@.subrange(0, n as int) =~= s@);
    while start < n
        invariant
            n == s@.len(),
            start <= n,
            out@.len() + lines_seq(s@.subrange(start as int, n as int)).len() == lines_seq(s@).len(),
            forall|i: int| 0 <= i < out@.len() ==> #[trigger] out@[i]@ == lines_seq(s@)[i],
            forall|i: int|
                0 <= i < lines_seq(s@.subrange(start as int, n as int)).len() ==> lines_seq(
                    s@,
                )[out@.len() + i] == #[trigger] lines_seq(s@.subrange(start as int, n as int))[i],
        decreases n - start,
    {
        let ghost rest = s@.subrange(start as int, n as int);
        let mut line: Vec<char> = Vec::new();
        let mut k: usize = start;
        while k < n && s[k] != '\n'
            invariant
                start <= k <= n,
                n == s@.len(),
                line@ == s@.subrange(start as int, k as int),
                forall|j: int| start <= j < k ==> s@[j] != '\n',
            decreases n - k,
        {
            line.push(s[k]);
            k = k + 1;
            assert(line@ =~= s@.subrange(start as int, k as int));
        }
        if k < n {
            proof {
                lemma_first_line_feed_at(rest, k - start);
                assert(rest.subrange(0, k - start) =~= line@);
                assert(rest.subrange(k - start + 1, rest.len() as int) =~= s@.subrange(k + 1, n as int));
            }
            if line.len() > 0 && line[line.len() - 1] == '\r' {
                line.pop();
            }
            let ghost tail = lines_seq(s@.subrange(k + 1, n as int));
            assert(lines_seq(rest) == seq![line@] + tail);
            assert(lines_seq(rest)[0] == line@);
            assert(lines_seq(s@)[out@.len() as int + 0] == lines_seq(rest)[0]);
            out.push(line);
            start = k + 1;
            assert forall|i: int| 0 <= i < tail.len() implies lines_seq(s@)[out@.len() + i]
                == #[trigger] tail[i] by {
                assert(lines_seq(rest)[i + 1] == tail[i]);
            }
        } else {
            proof {
                lemma_no_line_feed(rest);
                assert(rest =~= line@);
            }
            assert(lines_seq(rest) == seq![line@]);
            assert(lines_seq(rest)[0] == line@);
            assert(lines_seq(s@)[out@.len() as int + 0] == lines_seq(rest)[0]);
            out.push(line);
            start = n;
            assert(s@.subrange(n as int, n as int) =~= Seq::<char>::empty());
        }
    }
    assert(s@.subrange(n as int, n as int) =~= Seq::<char>::empty());
    out
}


// ---------------------------------------------------------------------------
// Words

/// The first position at or after `i` that does not hold white space.
pub open spec fn skip_white(s: Seq<char>, i: int) -> int
    decreases s.len() - i,
{
    if 0 <= i < s.len() && is_white_space(s[i]) {
        skip_white(s, i + 1)
    } else {
        i
    }
}

/// The first position at or after `i` that holds white space.
pub open spec fn skip_word(s: Seq<char>, i: int) -> int
    decreases s.len() - i,
{
    if 0 <= i < s.len() && !is_white_space(s[i]) {
        skip_word(s, i + 1)
    } else {
        i
    }
}

pub proof fn lemma_skip_white(s: Seq<char>, i: int)
    requires
        0 <= i <= s.len(),
    ensures
        i <= skip_white(s, i) <= s.len(),
        skip_white(s, i) < s.len() ==> !is_white_space(s[skip_white(s, i)]),
        forall|j: int| i <= j < skip_white(s, i) ==> is_white_space(s[j]),
    decreases s.len() - i,
{
    if i < s.len() && is_white_space(s[i]) {
        lemma_skip_white(s, i + 1);
    }
}

pub proof fn lemma_skip_word(s: Seq<char>, i: int)
    requires
        0 <= i <= s.len(),
    ensures
        i <= skip_word(s, i) <= s.len(),
        skip_word(s, i) < s.len() ==> is_white_space(s[skip_word(s, i)]),
        forall|j: int| i <= j < skip_word(s, i) ==> !is_white_space(s[j]),
    decreases s.len() - i,
{
    if i < s.len() && !is_white_space(s[i]) {
        lemma_skip_word(s, i + 1);
    }
}

/// The white-space separated words of `s` from position `i` on.
pub open spec fn words_from(s: Seq<char>, i: int) -> Seq<Seq<char>>
    decreases s.len() - i,
{
    if !(0 <= i < s.len()) {
        Seq::empty()
    } else {
        let a = skip_white(s, i);
        if a >= s.len() {
            Seq::empty()
        } else {
            let b = skip_word(s, a);
            proof {
                lemma_skip_white(s, i);
                lemma_skip_word(s, a);
                if b == a {
                    assert(!is_white_space(s[a]));
                }
            }
            seq![s.subrange(a, b)] + words_from(s, b)
        }
    }
}

/// `str::split_whitespace`: the non-empty runs of non-white-space
/// characters, in order.
pub open spec fn words(s: Seq<char>) -> Seq<Seq<char>> {
    words_from(s, 0)
}

/// The views of a vector of character vectors.
pub open spec fn char_views(v: Seq<Vec<char>>) -> Seq<Seq<char>> {
    v.map_values(|x: Vec<char>| x@)
}

/// `str::split_whitespace` on a character sequence.
pub fn split_whitespace(s: &[char]) -> (r: Vec<Vec<char>>)
    ensures
        char_views(r@) == words(s@),
{
    let n = s.len();
    let mut out: Vec<Vec<char>> = Vec::new();
    let mut i: usize = 0;
    while i < n
        invariant
            n == s@.len(),
            i <= n,
            char_views(out@) + words_from(s@, i as int) == words(s@),
        decreases n - i,
    {
        let ghost i0 = i as int;
        proof {
            lemma_skip_white(s@, i0);
        }
        let mut a: usize = i;
        while a < n && char_is_whitespace(s[a])
            invariant
                n == s@.len(),
                i0 <= a <= n,
                skip_white(s@, i0) == skip_white(s@, a as int),
            decreases n - a,
        {
            a = a + 1;
        }
        if a == n {
            assert(words_from(s@, i0) =~= Seq::<Seq<char>>::empty());
            assert(char_views(out@) + Seq::<Seq<char>>::empty() =~= char_views(out@));
            i = n;
            assert(words_from(s@, n as int) =~= Seq::<Seq<char>>::empty());
        } else {
            proof {
                lemma_skip_word(s@, a as int);
            }
            let mut w: Vec<char> = Vec::new();
            let mut b: usize = a;
            while b < n && !char_is_whitespace(s[b])
                invariant
                    n == s@.len(),
                    a <= b <= n,
                    skip_word(s@, a as int) == skip_word(s@, b as int),
                    w@ == s@.subrange(a as int, b as int),
                decreases n - b,
            {
                w.push(s[b]);
                b = b + 1;
                assert(w@ =~= s@.subrange(a as int, b as int));
            }
            let ghost old_out = char_views(out@);
            assert(words_from(s@, i0) == seq![w@] + words_from(s@, b as int));
            out.push(w);
            assert(char_views(out@) =~= old_out + seq![w@]);
            assert(char_views(out@) + words_from(s@, b as int) =~= old_out + (seq![w@]
                + words_from(s@, b as int)));
            i = b;
        }
    }
    assert(words_from(s@, n as int) =~= Seq::<Seq<char>>::empty());
    assert(char_views(out@) + Seq::<Seq<char>>::empty() =~= char_views(out@));
    out
}

// ---------------------------------------------------------------------------
// Decimal and hexadecimal numbers

/// The value of an ASCII digit.
pub open spec fn digit_value(c: char) -> nat {
    ((c as u32) - ('0' as u32)) as nat
}

pub open spec fn all_digits(s: Seq<char>) -> bool {
    forall|i: int| 0 <= i < s.len() ==> is_ascii_digit(#[trigger] s[i])
}

/// The number that a sequence of decimal digits denotes.
pub open spec fn digits_value(s: Seq<char>) -> nat
    decreases s.len(),
{
    if s.len() == 0 {
        0
    } else {
        digits_value(s.drop_last()) * 10 + digit_value(s.last())
    }
}

/// The digits part of an unsigned number: one leading `+` is allowed.
pub open spec fn unsigned_digits(s: Seq<char>) -> Seq<char> {
    if s.len() > 0 && s[0] == '+' {
        s.drop_first()
    } else {
        s
    }
}

/// `str::parse` for an unsigned integer type whose largest value is `max`:
/// an optional `+` and then one or more ASCII digits whose value fits.
pub open spec fn parse_unsigned_seq(s: Seq<char>, max: nat) -> Option<nat> {
    let d = unsigned_digits(s);
    if d.len() > 0 && all_digits(d) && digits_value(d) <= max {
        Some(digits_value(d))
    } else {
        None
    }
}

proof fn lemma_digits_value_prefix(s: Seq<char>, k: int)
    requires
        0 <= k <= s.len(),
        all_digits(s),
    ensures
        digits_value(s.subrange(0, k)) <= digits_value(s),
    decreases s.len(),
{
    if k < s.len() {
        assert(all_digits(s.drop_last()));
        assert(s.drop_last().subrange(0, k) =~= s.subrange(0, k));
        lemma_digits_value_prefix(s.drop_last(), k);
    } else {
        assert(s.subrange(0, k) =~= s);
    }
}

/// Parses an unsigned decimal number that must not exceed `max`.
pub fn parse_unsigned(s: &[char], max: u64) -> (r: Option<u64>)
    ensures
        match parse_unsigned_seq(s@, max as nat) {
            Some(v) => r == Some(v as u64),
            None => r is None,
        },
{
    let mut k: usize = 0;
    if s.len() > 0 && s[0] == '+' {
        k = 1;
    }
    let ghost d = unsigned_digits(s@);
    assert(d =~= s@.subrange(k as int, s@.len() as int));
    if k == s.len() {
        return None;
    }
    let mut acc: u64 = 0;
    let mut over = false;
    let start = k;
    while k < s.len()
        invariant
            start <= k <= s@.len(),
            start < s@.len(),
            d == s@.subrange(start as int, s@.len() as int),
            d == unsigned_digits(s@),
            all_digits(s@.subrange(start as int, k as int)),
            !over ==> acc == digits_value(s@.subrange(start as int, k as int)),
            !over ==> acc <= max,
            over ==> digits_value(s@.subrange(start as int, k as int)) > max,
        decreases s@.len() - k,
    {
        let c = s[k];
        if !('0' <= c && c <= '9') {
            assert(d[k - start] == c);
            assert(!is_ascii_digit(d[k - start]));
            assert(!all_digits(d));
            return None;
        }
        let dv: u64 = (c as u32 - '0' as u32) as u64;
        let ghost prev = s@.subrange(start as int, k as int);
        let ghost next = s@.subrange(start as int, k + 1);
        assert(next.drop_last() =~= prev);
        assert(all_digits(next));
        proof {
            lemma_digits_value_prefix(next, prev.len() as int);
            assert(next.subrange(0, prev.len() as int) =~= prev);
        }
        if !over {
            if dv > max || acc > (max - dv) / 10 {
                over = true;
                assert(digits_value(next) == acc * 10 + dv);
                assert(acc * 10 + dv > max) by (nonlinear_arith)
                    requires
                        dv > max || acc > (max - dv) / 10,
                ;
            } else {
                assert(acc * 10 + dv <= max) by (nonlinear_arith)
                    requires
                        acc <= (max - dv) / 10,
                        dv <= max,
                ;
                acc = acc * 10 + dv;
            }
        }
        k = k + 1;
    }
    assert(s@.subrange(start as int, k as int) =~= d);
    if over {
        None
    } else {
        Some(acc)
    }
}

/// The ASCII digit for a value below sixteen (lower-case letters above nine).
pub open spec fn digit_char(d: nat) -> char {
    if d == 0 { '0' }
    else if d == 1 { '1' }
    else if d == 2 { '2' }
    else if d == 3 { '3' }
    else if d == 4 { '4' }
    else if d == 5 { '5' }
    else if d == 6 { '6' }
    else if d == 7 { '7' }
    else if d == 8 { '8' }
    else if d == 9 { '9' }
    else if d == 10 { 'a' }
    else if d == 11 { 'b' }
    else if d == 12 { 'c' }
    else if d == 13 { 'd' }
    else if d == 14 { 'e' }
    else { 'f' }
}

fn digit_char_exec(d: u64) -> (c: char)
    requires
        d < 16,
    ensures
        c == digit_char(d as nat),
{
    match d {
        0 => '0',
        1 => '1',
        2 => '2',
        3 => '3',
        4 => '4',
        5 => '5',
        6 => '6',
        7 => '7',
        8 => '8',
        9 => '9',
        10 => 'a',
        11 => 'b',
        12 => 'c',
        13 => 'd',
        14 => 'e',
        _ => 'f',
    }
}

/// The decimal notation of `n`, as `{}` formats an unsigned integer.
pub open spec fn decimal_seq(n: nat) -> Seq<char>
    decreases n,
{
    if n < 10 {
        seq![digit_char(n)]
    } else {
        decimal_seq(n / 10).push(digit_char(n % 10))
    }
}

/// The lower-case hexadecimal notation of `n`, as `{:x}` formats it.
pub open spec fn hex_seq(n: nat) -> Seq<char>
    decreases n,
{
    if n < 16 {
        seq![digit_char(n)]
    } else {
        hex_seq(n / 16).push(digit_char(n % 16))
    }
}

/// `n.to_string()` for an unsigned integer.
pub fn decimal_string(n: u64) -> (r: String)
    ensures
        r@ == decimal_seq(n as nat),
    decreases n,
{
    if n < 10 {
        let mut s = String::new();
        push_char(&mut s, digit_char_exec(n));
        assert(s@ =~= seq![digit_char(n as nat)]);
        s
    } else {
        let mut s = decimal_string(n / 10);
        push_char(&mut s, digit_char_exec(n % 10));
        s
    }
}

/// The decimal digits of a 128-bit unsigned integer.
pub fn decimal_string_u128(n: u128) -> (r: String)
    ensures
        r@ == decimal_seq(n as nat),
    decreases n,
{
    if n < 10 {
        let mut s = String::new();
        push_char(&mut s, digit_char_exec(n as u64));
        assert(s@ =~= seq![digit_char(n as nat)]);
        s
    } else {
        let mut s = decimal_string_u128(n / 10);
        push_char(&mut s, digit_char_exec((n % 10) as u64));
        s
    }
}

/// `format!("{:x}", n)` for an unsigned integer.
pub fn hex_string(n: u64) -> (r: String)
    ensures
        r@ == hex_seq(n as nat),
    decreases n,
{
    if n < 16 {
        let mut s = String::new();
        push_char(&mut s, digit_char_exec(n));
        assert(s@ =~= seq![digit_char(n as nat)]);
        s
    } else {
        let mut s = hex_string(n / 16);
        push_char(&mut s, digit_char_exec(n % 16));
        s
    }
}

} // verus!
