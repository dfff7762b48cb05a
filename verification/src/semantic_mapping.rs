//! Translation of AI-friendly parameters to JIRA concepts and JQL.
//!
//! Semantic issue types ("story", "bug") and status categories ("open",
//! "in_progress") are mapped to JIRA names through the project's cached
//! issue types and the configured mappings, user references are resolved
//! through the cache, and search parameters become a JQL query.

use crate::cache::{fresh, IssueTypeInfo, MetadataCache};
use crate::config::{lookup_mapping, mappings_view, string_views, JiraConfig};
use crate::error::{JiraMcpError, JiraMcpResult};
use crate::text::{
    chars_of, contains_seq, is_blank, is_blank_seq, join_seq, lowercase, parse_unsigned,
    parse_unsigned_seq, replace_seq, split_whitespace, str_contains, str_eq, str_replace,
    to_lowercase, trim, trim_seq, upper_first, char_upper_first, words, char_views,
    decimal_seq, decimal_string, push_char, join, views, byte_len,
};
use vstd::prelude::*;

verus! {

/// JQL query builder result
#[derive(Debug, Clone)]
pub struct JqlQuery {
    pub jql: String,
    pub estimated_results: Option<usize>,
    pub complexity: QueryComplexity,
}

/// Query complexity indicator
#[derive(Debug, Clone, Copy, PartialEq, Eq, Structural)]
pub enum QueryComplexity {
    /// Single condition
    Simple,
    /// 2-3 conditions
    Moderate,
    /// 4+ conditions or text search
    Complex,
}

// ---------------------------------------------------------------------------
// Small string functions

/// The string with its first character in upper case.
pub open spec fn capitalize_seq(s: Seq<char>) -> Seq<char> {
    if s.len() == 0 {
        s
    } else {
        seq![upper_first(s[0])] + s.drop_first()
    }
}

/// Capitalize the first letter of a string
pub fn capitalize_first(s: &str) -> (r: String)
    ensures
        r@ == capitalize_seq(s@),
{
    let cs = chars_of(s);
    if cs.len() == 0 {
        return String::new();
    }
    let mut out = String::new();
    push_char(&mut out, char_upper_first(cs[0]));
    let mut i: usize = 1;
    while i < cs.len()
        invariant
            1 <= i <= cs@.len(),
            out@ == seq![upper_first(cs@[0])] + cs@.subrange(1, i as int),
        decreases cs@.len() - i,
    {
        push_char(&mut out, cs[i]);
        i = i + 1;
        assert(out@ =~= seq![upper_first(cs@[0])] + cs@.subrange(1, i as int));
    }
    assert(cs@.subrange(1, cs@.len() as int) =~= cs@.drop_first());
    out
}

/// Backslashes doubled, then double quotes escaped with a backslash.
pub open spec fn escape_jql_seq(s: Seq<char>) -> Seq<char> {
    replace_seq(replace_seq(s, "\\"@, "\\\\"@), "\""@, "\\\""@)
}

/// Escape special characters in JQL string literals
pub fn escape_jql_string(s: &str) -> (r: String)
    ensures
        r@ == escape_jql_seq(s@),
{
    proof {
        reveal_strlit("\\");
        reveal_strlit("\"");
    }
    let a = str_replace(s, "\\", "\\\\");
    str_replace(a.as_str(), "\"", "\\\"")
}

/// What JQL reads inside double quotes: a backslash takes the character
/// after it as it is; a bare double quote would end the string, and a
/// backslash at the very end has nothing to take (`None` for both).
pub open spec fn read_jql_literal(t: Seq<char>) -> Option<Seq<char>>
    decreases t.len(),
{
    if t.len() == 0 {
        Some(t)
    } else if t[0] == '\\' {
        if t.len() >= 2 {
            match read_jql_literal(t.subrange(2, t.len() as int)) {
                Some(r) => Some(seq![t[1]] + r),
                None => None,
            }
        } else {
            None
        }
    } else if t[0] == '"' {
        None
    } else {
        match read_jql_literal(t.drop_first()) {
            Some(r) => Some(seq![t[0]] + r),
            None => None,
        }
    }
}

/// Each `a` of `s` replaced by `t`.
spec fn each_char(s: Seq<char>, a: char, t: Seq<char>) -> Seq<char>
    decreases s.len(),
{
    if s.len() == 0 {
        s
    } else {
        (if s[0] == a {
            t
        } else {
            seq![s[0]]
        }) + each_char(s.drop_first(), a, t)
    }
}

/// The escape of one character.
spec fn escape_char(c: char) -> Seq<char> {
    if c == '\\' || c == '"' {
        seq!['\\', c]
    } else {
        seq![c]
    }
}

/// Each character escaped.
spec fn escape_each(s: Seq<char>) -> Seq<char>
    decreases s.len(),
{
    if s.len() == 0 {
        s
    } else {
        escape_char(s[0]) + escape_each(s.drop_first())
    }
}

proof fn lemma_replace_one_char(s: Seq<char>, a: char, t: Seq<char>)
    ensures
        replace_seq(s, seq![a], t) == each_char(s, a, t),
    decreases s.len(),
{
    if s.len() > 0 {
        lemma_replace_one_char(s.drop_first(), a, t);
        assert(s.subrange(1, s.len() as int) =~= s.drop_first());
        if s[0] == a {
            assert(s.subrange(0, 1) =~= seq![a]);
        } else {
            assert(s.subrange(0, 1) != seq![a]) by {
                assert(s.subrange(0, 1)[0] == s[0]);
            }
        }
    }
}

proof fn lemma_each_char_append(x: Seq<char>, y: Seq<char>, a: char, t: Seq<char>)
    ensures
        each_char(x + y, a, t) == each_char(x, a, t) + each_char(y, a, t),
    decreases x.len(),
{
    if x.len() == 0 {
        assert(x + y =~= y);
    } else {
        lemma_each_char_append(x.drop_first(), y, a, t);
        assert((x + y).drop_first() =~= x.drop_first() + y);
        assert((x + y)[0] == x[0]);
        let head = if x[0] == a {
            t
        } else {
            seq![x[0]]
        };
        assert(each_char(x + y, a, t) =~= head + (each_char(x.drop_first(), a, t) + each_char(
            y,
            a,
            t,
        )));
    }
}

proof fn lemma_escape_in_two_steps(s: Seq<char>)
    ensures
        each_char(each_char(s, '\\', seq!['\\', '\\']), '"', seq!['\\', '"']) == escape_each(s),
    decreases s.len(),
{
    if s.len() > 0 {
        let rest = s.drop_first();
        lemma_escape_in_two_steps(rest);
        let head = if s[0] == '\\' {
            seq!['\\', '\\']
        } else {
            seq![s[0]]
        };
        let first = each_char(s, '\\', seq!['\\', '\\']);
        assert(first == head + each_char(rest, '\\', seq!['\\', '\\']));
        lemma_each_char_append(head, each_char(rest, '\\', seq!['\\', '\\']), '"', seq!['\\', '"']);
        reveal_with_fuel(each_char, 3);
        assert(each_char(head, '"', seq!['\\', '"']) =~= escape_char(s[0]));
    }
}

proof fn lemma_read_escaped(s: Seq<char>)
    ensures
        read_jql_literal(escape_each(s)) == Some(s),
    decreases s.len(),
{
    if s.len() > 0 {
        let rest = s.drop_first();
        lemma_read_escaped(rest);
        let e = escape_each(rest);
        let t = escape_char(s[0]) + e;
        assert(escape_each(s) == t);
        if s[0] == '\\' || s[0] == '"' {
            assert(t[0] == '\\' && t[1] == s[0]);
            assert(t.subrange(2, t.len() as int) =~= e);
        } else {
            assert(t[0] == s[0]);
            assert(t.drop_first() =~= e);
        }
        assert(seq![s[0]] + rest =~= s);
    }
}

/// Escaping is safe and loses nothing: read inside a JQL string, the
/// escaped text is the text itself, with no double quote ending the
/// string early.
pub proof fn law_escape_reads_back(s: Seq<char>)
    ensures
        read_jql_literal(escape_jql_seq(s)) == Some(s),
{
    reveal_strlit("\\");
    reveal_strlit("\\\\");
    reveal_strlit("\"");
    reveal_strlit("\\\"");
    assert("\\"@ =~= seq!['\\']);
    assert("\\\\"@ =~= seq!['\\', '\\']);
    assert("\""@ =~= seq!['"']);
    assert("\\\""@ =~= seq!['\\', '"']);
    let once = replace_seq(s, "\\"@, "\\\\"@);
    lemma_replace_one_char(s, '\\', seq!['\\', '\\']);
    lemma_replace_one_char(once, '"', seq!['\\', '"']);
    lemma_escape_in_two_steps(s);
    lemma_read_escaped(s);
}

/// The JQL for a relative date such as "7 days ago": at least three words,
/// the last being "ago", the first a number and the second a unit.
pub open spec fn spec_relative_date(s: Seq<char>) -> Option<Seq<char>> {
    let parts = words(s);
    if parts.len() >= 3 && parts[parts.len() - 1] == "ago"@ {
        match parse_unsigned_seq(parts[0], u32::MAX as nat) {
            Some(n) => {
                let unit = parts[1];
                let num = "-"@ + decimal_seq(n);
                if unit == "day"@ || unit == "days"@ {
                    Some(num + "d"@)
                } else if unit == "week"@ || unit == "weeks"@ {
                    Some(num + "w"@)
                } else if unit == "month"@ || unit == "months"@ {
                    Some(num + "M"@)
                } else if unit == "year"@ || unit == "years"@ {
                    Some(num + "y"@)
                } else {
                    None
                }
            },
            None => None,
        }
    } else {
        None
    }
}

/// A relative date "N <unit> ago" reads as N units back from now, with
/// the JQL unit suffix of its unit: "d" for days, "w" for weeks, "M" for
/// months and "y" for years, the unit singular or plural.
pub proof fn law_relative_date_units(s: Seq<char>, n: nat)
    requires
        words(s).len() >= 3,
        words(s)[words(s).len() - 1] == "ago"@,
        parse_unsigned_seq(words(s)[0], u32::MAX as nat) == Some(n),
    ensures
        ({
            let unit = words(s)[1];
            let back = "-"@ + decimal_seq(n);
            &&& (unit == "day"@ || unit == "days"@) ==> spec_relative_date(s) == Some(back + "d"@)
            &&& (unit == "week"@ || unit == "weeks"@) ==> spec_relative_date(s) == Some(
                back + "w"@,
            )
            &&& (unit == "month"@ || unit == "months"@) ==> spec_relative_date(s) == Some(
                back + "M"@,
            )
            &&& (unit == "year"@ || unit == "years"@) ==> spec_relative_date(s) == Some(
                back + "y"@,
            )
        }),
{
    reveal_strlit("day");
    reveal_strlit("days");
    reveal_strlit("week");
    reveal_strlit("weeks");
    reveal_strlit("month");
    reveal_strlit("months");
    reveal_strlit("year");
    reveal_strlit("years");
    let unit = words(s)[1];
    let back = "-"@ + decimal_seq(n);
    assert("year"@ != "day"@ && "year"@ != "days"@ && "year"@ != "week"@ && "year"@ != "weeks"@
        && "year"@ != "month"@ && "year"@ != "months"@) by {
        assert("year"@[0] != "week"@[0]);
    }
    assert("years"@ != "day"@ && "years"@ != "days"@ && "years"@ != "week"@ && "years"@
        != "weeks"@ && "years"@ != "month"@ && "years"@ != "months"@) by {
        assert("years"@[0] != "weeks"@[0]);
    }
    assert("month"@ != "day"@ && "month"@ != "days"@ && "month"@ != "week"@ && "month"@
        != "weeks"@ && "months"@ != "day"@ && "months"@ != "days"@ && "months"@ != "week"@
        && "months"@ != "weeks"@) by {
        assert("month"@[0] != "weeks"@[0]);
        assert("months"@.len() != "weeks"@.len());
    }
    assert("week"@ != "day"@ && "week"@ != "days"@ && "weeks"@ != "day"@ && "weeks"@ != "days"@) by {
        assert("week"@[0] != "days"@[0]);
        assert("weeks"@.len() != "days"@.len());
    }
}

fn owned(s: &str) -> (r: String)
    ensures
        r@ == s@,
{
    s.to_owned()
}

fn chars_eq_str(a: &Vec<char>, b: &str) -> (r: bool)
    ensures
        r == (a@ == b@),
{
    let bs = chars_of(b);
    crate::text::chars_eq(a.as_slice(), bs.as_slice())
}

/// Parse relative date strings like "7 days ago"
pub fn parse_relative_date(date_str: &str) -> (r: Option<String>)
    ensures
        match spec_relative_date(date_str@) {
            Some(v) => r matches Some(x) && x@ == v,
            None => r is None,
        },
{
    let cs = chars_of(date_str);
    let parts = split_whitespace(cs.as_slice());
    let ghost ps = words(date_str@);
    assert(char_views(parts@) == ps);
    if parts.len() >= 3 && chars_eq_str(&parts[parts.len() - 1], "ago") {
        assert(ps[ps.len() - 1] == parts@[parts@.len() - 1]@);
        assert(ps[0] == parts@[0]@);
        assert(ps[1] == parts@[1]@);
        match parse_unsigned(parts[0].as_slice(), 4294967295u64) {
            Some(n) => {
                let unit = &parts[1];
                let mut out = owned("-");
                let num = decimal_string(n);
                out.append(num.as_str());
                if chars_eq_str(unit, "day") || chars_eq_str(unit, "days") {
                    out.append("d");
                    Some(out)
                } else if chars_eq_str(unit, "week") || chars_eq_str(unit, "weeks") {
                    out.append("w");
                    Some(out)
                } else if chars_eq_str(unit, "month") || chars_eq_str(unit, "months") {
                    out.append("M");
                    Some(out)
                } else if chars_eq_str(unit, "year") || chars_eq_str(unit, "years") {
                    out.append("y");
                    Some(out)
                } else {
                    None
                }
            },
            None => None,
        }
    } else {
        if parts.len() >= 3 {
            assert(ps[ps.len() - 1] == parts@[parts@.len() - 1]@);
        }
        None
    }
}

/// The JQL date for a date filter, or `None` when the text is neither a
/// relative date nor an absolute date: the trimmed, lower-cased text is
/// tried as a relative date when it contains "ago", and is otherwise
/// taken as an absolute date, unchanged, when it is at least ten bytes
/// long and holds a hyphen.
pub open spec fn spec_date_filter(s: Seq<char>) -> Option<Seq<char>> {
    let t = lowercase(trim_seq(s));
    if contains_seq(t, "ago"@) && spec_relative_date(t) is Some {
        spec_relative_date(t)
    } else if byte_len(t) >= 10 && contains_seq(t, "-"@) {
        Some(s)
    } else {
        None
    }
}

/// The message of the error for an invalid date filter.
pub open spec fn date_error_message(s: Seq<char>) -> Seq<char> {
    "Invalid date format: '"@ + s + "'. Use formats like '2024-01-01' or '7 days ago'"@
}

/// Parse date filter string to JQL-compatible format
pub fn parse_date_filter(date_str: &str) -> (r: JiraMcpResult<String>)
    ensures
        match spec_date_filter(date_str@) {
            Some(v) => r matches Ok(x) && x@ == v,
            None => r matches Err(JiraMcpError::InvalidParameter { parameter, message })
                && parameter@ == "created_after"@ && message@ == date_error_message(date_str@),
        },
{
    let t = trim(date_str);
    let lower = to_lowercase(t.as_str());
    let l = lower.as_str();
    assert(l@ == lowercase(trim_seq(date_str@)));
    if str_contains(l, "ago") {
        if let Some(rel) = parse_relative_date(l) {
            return Ok(rel);
        }
    }
    if l.len() >= 10 && str_contains(l, "-") {
        return Ok(owned(date_str));
    }
    let mut m = owned("Invalid date format: '");
    m.append(date_str);
    m.append("'. Use formats like '2024-01-01' or '7 days ago'");
    Err(JiraMcpError::InvalidParameter { parameter: owned("created_after"), message: m })
}

// ---------------------------------------------------------------------------
// Issue types and statuses

/// Whether an issue type named `name_lower` (lower-cased) matches the
/// semantic type `semantic` (lower-cased).
pub open spec fn type_name_matches(semantic: Seq<char>, name_lower: Seq<char>) -> bool {
    ||| name_lower == semantic
    ||| semantic == "story"@ && contains_seq(name_lower, "story"@)
    ||| semantic == "bug"@ && (contains_seq(name_lower, "bug"@) || contains_seq(
        name_lower,
        "defect"@,
    ))
    ||| semantic == "feature"@ && (contains_seq(name_lower, "feature"@) || contains_seq(
        name_lower,
        "enhancement"@,
    ))
    ||| semantic == "task"@ && contains_seq(name_lower, "task"@)
    ||| (semantic == "capability"@ || semantic == "epic"@) && (contains_seq(
        name_lower,
        "epic"@,
    ) || contains_seq(name_lower, "capability"@))
}

/// The names of the project issue types that match a semantic type, in
/// the order of the project's list.
pub open spec fn matching_types(semantic: Seq<char>, types: Seq<IssueTypeInfo>) -> Seq<Seq<char>>
    decreases types.len(),
{
    if types.len() == 0 {
        Seq::empty()
    } else {
        let rest = matching_types(semantic, types.drop_last());
        let name = types.last().name@;
        if type_name_matches(semantic, lowercase(name)) {
            rest.push(name)
        } else {
            rest
        }
    }
}

/// Lists of issue types with the same names give the same matches.
pub proof fn lemma_matching_types_same_names(
    semantic: Seq<char>,
    a: Seq<IssueTypeInfo>,
    b: Seq<IssueTypeInfo>,
)
    requires
        a.len() == b.len(),
        forall|i: int| 0 <= i < a.len() ==> #[trigger] a[i].name@ == b[i].name@,
    ensures
        matching_types(semantic, a) == matching_types(semantic, b),
    decreases a.len(),
{
    if a.len() > 0 {
        assert forall|i: int| 0 <= i < a.len() - 1 implies #[trigger] a.drop_last()[i].name@
            == b.drop_last()[i].name@ by {
            assert(a.drop_last()[i] == a[i] && b.drop_last()[i] == b[i]);
        }
        lemma_matching_types_same_names(semantic, a.drop_last(), b.drop_last());
        assert(a.last().name@ == b.last().name@);
    }
}

/// The list without repeated elements, each kept where it first occurs.
pub open spec fn dedup_seq(s: Seq<Seq<char>>) -> Seq<Seq<char>>
    decreases s.len(),
{
    if s.len() == 0 {
        Seq::empty()
    } else {
        let d = dedup_seq(s.drop_last());
        if d.contains(s.last()) {
            d
        } else {
            d.push(s.last())
        }
    }
}

/// The concatenation of the lists.
pub open spec fn flatten_names(s: Seq<Seq<Seq<char>>>) -> Seq<Seq<char>>
    decreases s.len(),
{
    if s.len() == 0 {
        Seq::empty()
    } else {
        flatten_names(s.drop_last()) + s.last()
    }
}

proof fn lemma_push_contains(s: Seq<Seq<char>>, y: Seq<char>, x: Seq<char>)
    ensures
        s.push(y).contains(x) <==> (s.contains(x) || x == y),
{
    let e = s.push(y);
    if e.contains(x) {
        let k = choose|k: int| 0 <= k < e.len() && e[k] == x;
        if k < s.len() {
            assert(s[k] == x);
        }
    }
    if s.contains(x) {
        let k = choose|k: int| 0 <= k < s.len() && s[k] == x;
        assert(e[k] == x);
    }
    if x == y {
        assert(e[s.len() as int] == x);
    }
}

/// Mapped names come once each, and are the names they were gathered
/// from: taking out repeats keeps every name and brings in none.
pub proof fn law_dedup_names(s: Seq<Seq<char>>)
    ensures
        forall|i: int, j: int|
            0 <= i < j < dedup_seq(s).len() ==> dedup_seq(s)[i] != dedup_seq(s)[j],
        forall|x: Seq<char>| #[trigger] dedup_seq(s).contains(x) <==> s.contains(x),
    decreases s.len(),
{
    if s.len() > 0 {
        let p = s.drop_last();
        law_dedup_names(p);
        assert(s == p.push(s.last()));
        assert forall|x: Seq<char>| #[trigger] s.contains(x) <==> (p.contains(x) || x == s.last()) by {
            lemma_push_contains(p, s.last(), x);
        }
        let d = dedup_seq(p);
        if !d.contains(s.last()) {
            assert forall|x: Seq<char>| #[trigger] d.push(s.last()).contains(x) <==> (d.contains(x)
                || x == s.last()) by {
                lemma_push_contains(d, s.last(), x);
            }
            let e = d.push(s.last());
            assert forall|i: int, j: int| 0 <= i < j < e.len() implies e[i] != e[j] by {
                if j == e.len() - 1 {
                    assert(e[i] == d[i]);
                    if e[i] == e[j] {
                        assert(d.contains(s.last()));
                    }
                } else {
                    assert(e[i] == d[i] && e[j] == d[j]);
                }
            }
        }
    }
}

/// Keeps the first occurrence of each name of `v`, in order.
pub fn dedup_strings(v: &Vec<String>) -> (r: Vec<String>)
    ensures
        views(r@) == dedup_seq(views(v@)),
{
    let mut out: Vec<String> = Vec::new();
    let mut i: usize = 0;
    while i < v.len()
        invariant
            i <= v@.len(),
            views(out@) == dedup_seq(views(v@).subrange(0, i as int)),
        decreases v@.len() - i,
    {
        let ghost pre = views(v@).subrange(0, i as int);
        let ghost next = views(v@).subrange(0, i + 1);
        assert(next.drop_last() =~= pre);
        assert(next.last() == v@[i as int]@);
        let mut found = false;
        let mut j: usize = 0;
        while j < out.len()
            invariant
                j <= out@.len(),
                i < v@.len(),
                found == exists|k: int| 0 <= k < j && out@[k]@ == v@[i as int]@,
            decreases out@.len() - j,
        {
            if !found && str_eq(out[j].as_str(), v[i].as_str()) {
                found = true;
            }
            j = j + 1;
        }
        let ghost vo = views(out@);
        if found {
            proof {
                let k = choose|k: int| 0 <= k < out@.len() && out@[k]@ == v@[i as int]@;
                assert(vo[k] == v@[i as int]@);
                assert(vo.contains(next.last()));
            }
        } else {
            assert(!vo.contains(next.last())) by {
                if vo.contains(next.last()) {
                    let k = choose|k: int| 0 <= k < vo.len() && vo[k] == next.last();
                    assert(out@[k]@ == v@[i as int]@);
                }
            }
            out.push(v[i].clone());
            assert(views(out@) =~= vo.push(next.last()));
        }
        i = i + 1;
    }
    assert(views(v@).subrange(0, v@.len() as int) =~= views(v@));
    out
}

/// The names of the project issue types that match `semantic_type`
/// (already lower-cased), in the order of `project_types`.
pub fn find_matching_project_types(semantic_type: &str, project_types: &Vec<IssueTypeInfo>) -> (r:
    Vec<String>)
    ensures
        views(r@) == matching_types(semantic_type@, project_types@),
{
    let mut out: Vec<String> = Vec::new();
    let mut i: usize = 0;
    while i < project_types.len()
        invariant
            i <= project_types@.len(),
            views(out@) == matching_types(semantic_type@, project_types@.subrange(0, i as int)),
        decreases project_types@.len() - i,
    {
        let ghost pre = project_types@.subrange(0, i as int);
        let ghost next = project_types@.subrange(0, i + 1);
        assert(next.drop_last() =~= pre);
        let name = &project_types[i].name;
        let lower = to_lowercase(name.as_str());
        let l = lower.as_str();
        let st = semantic_type;
        let matched = str_eq(l, st) || (str_eq(st, "story") && str_contains(l, "story")) || (
        str_eq(st, "bug") && (str_contains(l, "bug") || str_contains(l, "defect"))) || (str_eq(
            st,
            "feature",
        ) && (str_contains(l, "feature") || str_contains(l, "enhancement"))) || (str_eq(st, "task") && str_contains(l, "task")) || ((
        str_eq(st, "capability") || str_eq(st, "epic")) && (str_contains(l, "epic")
            || str_contains(l, "capability")));
        if matched {
            let ghost before = views(out@);
            out.push(name.clone());
            assert(views(out@) =~= before.push(name@));
        }
        i = i + 1;
    }
    assert(project_types@.subrange(0, project_types@.len() as int) =~= project_types@);
    out
}

/// Semantic mapper that converts AI-friendly parameters to JIRA concepts,
/// reading the cache as it is at time `now`.
pub struct SemanticMapper<'a> {
    pub config: &'a JiraConfig,
    pub cache: &'a MetadataCache,
    pub now: u64,
}

/// The view of an optional list of strings.
pub open spec fn opt_names(o: Option<&[String]>) -> Option<Seq<Seq<char>>> {
    match o {
        Some(v) => Some(views(v@)),
        None => None,
    }
}

/// The view of an optional string slice.
pub open spec fn opt_str(o: Option<&str>) -> Option<Seq<char>> {
    match o {
        Some(s) => Some(s@),
        None => None,
    }
}

/// `"name"`: a name in double quotes.
pub open spec fn quoted(s: Seq<char>) -> Seq<char> {
    "\""@ + s + "\""@
}

/// The names, each in double quotes.
pub open spec fn quoted_all(s: Seq<Seq<char>>) -> Seq<Seq<char>> {
    s.map_values(|x: Seq<char>| quoted(x))
}

/// `field = "name"` for one name, `field IN ("a", "b")` for several.
pub open spec fn field_clause(field: Seq<char>, names: Seq<Seq<char>>) -> Seq<char> {
    if names.len() == 1 {
        field + " = "@ + quoted(names[0])
    } else {
        field + " IN ("@ + join_seq(quoted_all(names), ", "@) + ")"@
    }
}

/// A name in double quotes.
pub fn quote(s: &str) -> (r: String)
    ensures
        r@ == quoted(s@),
{
    let mut out = owned("\"");
    out.append(s);
    out.append("\"");
    out
}

/// The names, each in double quotes, joined with ", ".
pub fn quoted_list(names: &[String]) -> (r: String)
    ensures
        r@ == join_seq(quoted_all(views(names@)), ", "@),
{
    let mut qs: Vec<String> = Vec::new();
    let mut i: usize = 0;
    while i < names.len()
        invariant
            i <= names@.len(),
            views(qs@) == quoted_all(views(names@).subrange(0, i as int)),
        decreases names@.len() - i,
    {
        let ghost before = views(qs@);
        let q = quote(names[i].as_str());
        qs.push(q);
        assert(views(names@).subrange(0, i + 1) =~= views(names@).subrange(0, i as int).push(
            names@[i as int]@,
        ));
        assert(views(qs@) =~= before.push(q@));
        i = i + 1;
        assert(views(qs@) =~= quoted_all(views(names@).subrange(0, i as int)));
    }
    assert(views(names@).subrange(0, names@.len() as int) =~= views(names@));
    join(&qs, ", ")
}

/// The clause that restricts `field` to the given names.
pub fn build_field_clause(field: &str, names: &Vec<String>) -> (r: String)
    ensures
        r@ == field_clause(field@, views(names@)),
{
    if names.len() == 1 {
        let mut out = owned(field);
        out.append(" = ");
        let q = quote(names[0].as_str());
        out.append(q.as_str());
        out
    } else {
        let list = quoted_list(names.as_slice());
        let mut out = owned(field);
        out.append(" IN (");
        out.append(list.as_str());
        out.append(")");
        out
    }
}

/// The parent or epic filter clause: "none" and "any" (in any case) test
/// for absence or presence, anything else names the issue, lower-cased.
pub open spec fn link_filter_clause(field: Seq<char>, f: Seq<char>) -> Seq<char> {
    let l = lowercase(f);
    if l == "none"@ {
        field + " is EMPTY"@
    } else if l == "any"@ {
        field + " is not EMPTY"@
    } else {
        field + " = "@ + quoted(l)
    }
}

/// One clause per label.
pub open spec fn label_clauses(labels: Seq<Seq<char>>) -> Seq<Seq<char>> {
    labels.map_values(|l: Seq<char>| "labels = "@ + quoted(l))
}

/// The JQL text of a query with these conditions.
pub open spec fn jql_text(parts: Seq<Seq<char>>) -> Seq<char> {
    if parts.len() == 0 {
        "ORDER BY updated DESC"@
    } else {
        join_seq(parts, " AND "@) + " ORDER BY updated DESC"@
    }
}

/// The complexity of a query with `n` conditions, text search or not.
pub open spec fn spec_complexity(n: nat, text_search: bool) -> QueryComplexity {
    if text_search || n > 3 {
        QueryComplexity::Complex
    } else if n > 1 {
        QueryComplexity::Moderate
    } else {
        QueryComplexity::Simple
    }
}

fn link_filter(field: &str, f: &str) -> (r: String)
    ensures
        r@ == link_filter_clause(field@, f@),
{
    let lower = to_lowercase(f);
    let mut out = owned(field);
    if str_eq(lower.as_str(), "none") {
        out.append(" is EMPTY");
    } else if str_eq(lower.as_str(), "any") {
        out.append(" is not EMPTY");
    } else {
        out.append(" = ");
        let q = quote(lower.as_str());
        out.append(q.as_str());
    }
    out
}

fn extend_strings(out: &mut Vec<String>, more: &Vec<String>)
    ensures
        views(final(out)@) == views(old(out)@) + views(more@),
{
    let mut i: usize = 0;
    let ghost start = views(out@);
    while i < more.len()
        invariant
            i <= more@.len(),
            views(out@) == start + views(more@).subrange(0, i as int),
        decreases more@.len() - i,
    {
        let ghost before = views(out@);
        out.push(more[i].clone());
        assert(views(out@) =~= before.push(more@[i as int]@));
        assert(views(more@).subrange(0, i + 1) =~= views(more@).subrange(0, i as int).push(
            more@[i as int]@,
        ));
        i = i + 1;
        assert(views(out@) =~= start + views(more@).subrange(0, i as int));
    }
    assert(views(more@).subrange(0, more@.len() as int) =~= views(more@));
}

impl<'a> SemanticMapper<'a> {
    /// A mapper that reads the cache as it is now.
    pub fn new(config: &'a JiraConfig, cache: &'a MetadataCache) -> (r: Self)
        ensures
            r.config == config,
            r.cache == cache,
    {
        SemanticMapper { config, cache, now: cache.now() }
    }

    /// A mapper that reads the cache as it is at time `now`.
    pub fn new_at(config: &'a JiraConfig, cache: &'a MetadataCache, now: u64) -> (r: Self)
        ensures
            r.config == config,
            r.cache == cache,
            r.now == now,
    {
        SemanticMapper { config, cache, now }
    }

    /// The project's issue types when they are cached and fresh.
    pub open spec fn project_types(&self, p: Seq<char>) -> Option<Seq<IssueTypeInfo>> {
        if self.cache.issue_types().contains_key(p) && fresh(
            self.cache.issue_types()[p],
            self.cache.ttl(),
            self.now,
        ) {
            Some(self.cache.issue_types()[p].value@)
        } else {
            None
        }
    }

    /// The JIRA issue type names for one semantic type: the matching
    /// project types if any, else the configured mapping, else the type
    /// itself with its first letter in upper case.
    pub open spec fn type_names(&self, t: Seq<char>, project: Option<Seq<char>>) -> Seq<Seq<char>> {
        let l = lowercase(t);
        let from_project = match project {
            Some(p) => match self.project_types(p) {
                Some(ts) => matching_types(l, ts),
                None => Seq::empty(),
            },
            None => Seq::empty(),
        };
        if from_project.len() > 0 {
            from_project
        } else {
            match lookup_mapping(self.config@.issue_type_mappings, l) {
                Some(ns) => ns,
                None => seq![capitalize_seq(t)],
            }
        }
    }

    /// The JIRA status names for one semantic status.
    pub open spec fn status_names(&self, s: Seq<char>) -> Seq<Seq<char>> {
        match lookup_mapping(self.config@.status_category_mappings, lowercase(s)) {
            Some(ns) => ns,
            None => seq![capitalize_seq(s)],
        }
    }

    /// The JIRA issue type names for the semantic types, repetitions left
    /// out.
    pub open spec fn spec_map_issue_types(&self, ts: Seq<Seq<char>>, project: Option<Seq<char>>) -> Seq<
        Seq<char>,
    > {
        dedup_seq(flatten_names(ts.map_values(|t: Seq<char>| self.type_names(t, project))))
    }

    /// The JIRA status names for the semantic statuses, repetitions left
    /// out.
    pub open spec fn spec_map_status_categories(&self, ss: Seq<Seq<char>>) -> Seq<Seq<char>> {
        dedup_seq(flatten_names(ss.map_values(|s: Seq<char>| self.status_names(s))))
    }

    fn names_from_mapping(m: &Vec<(String, Vec<String>)>, key: &str) -> (r: Option<Vec<String>>)
        ensures
            match lookup_mapping(mappings_view(m@), key@) {
                Some(ns) => r matches Some(v) && views(v@) == ns,
                None => r is None,
            },
    {
        let mut i: usize = 0;
        assert(m@.subrange(0, m@.len() as int) =~= m@);
        while i < m.len()
            invariant
                i <= m@.len(),
                lookup_mapping(mappings_view(m@), key@) == lookup_mapping(
                    mappings_view(m@.subrange(i as int, m@.len() as int)),
                    key@,
                ),
            decreases m@.len() - i,
        {
            let ghost rest = mappings_view(m@.subrange(i as int, m@.len() as int));
            assert(rest[0] == (m@[i as int].0@, string_views(m@[i as int].1@)));
            if str_eq(m[i].0.as_str(), key) {
                let names = crate::text::clone_strings(&m[i].1);
                assert(views(names@) =~= string_views(m@[i as int].1@));
                return Some(names);
            }
            assert(rest.drop_first() =~= mappings_view(m@.subrange(i + 1, m@.len() as int)));
            i = i + 1;
        }
        assert(mappings_view(m@.subrange(i as int, m@.len() as int)) =~= Seq::<
            (Seq<char>, Seq<Seq<char>>),
        >::empty());
        None
    }

    /// The issue type names for one semantic type.
    fn names_for_type(&self, semantic_type: &str, project_key: Option<&str>) -> (r: Vec<String>)
        requires
            self.cache.wf(),
        ensures
            views(r@) == self.type_names(semantic_type@, opt_str(project_key)),
    {
        let lower = to_lowercase(semantic_type);
        if let Some(project) = project_key {
            if let Some(project_types) = self.cache.get_project_issue_types_at(project, self.now) {
                let matching = find_matching_project_types(lower.as_str(), &project_types);
                proof {
                    crate::cache::lemma_issue_types_view_names(
                        project_types@,
                        self.cache.issue_types()[project@].value@,
                    );
                    lemma_matching_types_same_names(
                        lower@,
                        project_types@,
                        self.cache.issue_types()[project@].value@,
                    );
                }
                if matching.len() > 0 {
                    return matching;
                }
            }
        }
        match Self::names_from_mapping(&self.config.issue_type_mappings, lower.as_str()) {
            Some(v) => v,
            None => {
                let mut v: Vec<String> = Vec::new();
                v.push(capitalize_first(semantic_type));
                assert(views(v@) =~= seq![capitalize_seq(semantic_type@)]);
                v
            },
        }
    }

    /// The status names for one semantic status.
    fn names_for_status(&self, semantic_status: &str) -> (r: Vec<String>)
        ensures
            views(r@) == self.status_names(semantic_status@),
    {
        let lower = to_lowercase(semantic_status);
        match Self::names_from_mapping(&self.config.status_category_mappings, lower.as_str()) {
            Some(v) => v,
            None => {
                let mut v: Vec<String> = Vec::new();
                v.push(capitalize_first(semantic_status));
                assert(views(v@) =~= seq![capitalize_seq(semantic_status@)]);
                v
            },
        }
    }

    /// Map semantic issue types to JIRA issue type names
    pub fn map_issue_types(&self, semantic_types: &[String], project_key: Option<&str>) -> (r:
        JiraMcpResult<Vec<String>>)
        requires
            self.cache.wf(),
        ensures
            r matches Ok(v) && views(v@) == self.spec_map_issue_types(
                views(semantic_types@),
                opt_str(project_key),
            ),
    {
        let ghost ts = views(semantic_types@);
        let ghost f = |t: Seq<char>| self.type_names(t, opt_str(project_key));
        let mut all: Vec<String> = Vec::new();
        let mut i: usize = 0;
        while i < semantic_types.len()
            invariant
                i <= semantic_types@.len(),
                ts == views(semantic_types@),
                self.cache.wf(),
                f == (|t: Seq<char>| self.type_names(t, opt_str(project_key))),
                views(all@) == flatten_names(ts.subrange(0, i as int).map_values(f)),
            decreases semantic_types@.len() - i,
        {
            let names = self.names_for_type(semantic_types[i].as_str(), project_key);
            extend_strings(&mut all, &names);
            let ghost next = ts.subrange(0, i + 1).map_values(f);
            assert(next.drop_last() =~= ts.subrange(0, i as int).map_values(f));
            assert(next.last() == f(semantic_types@[i as int]@));
            i = i + 1;
        }
        assert(ts.subrange(0, ts.len() as int) =~= ts);
        Ok(dedup_strings(&all))
    }

    /// Map semantic status categories to JIRA status names
    pub fn map_status_categories(&self, semantic_statuses: &[String]) -> (r: JiraMcpResult<
        Vec<String>,
    >)
        ensures
            r matches Ok(v) && views(v@) == self.spec_map_status_categories(
                views(semantic_statuses@),
            ),
    {
        let ghost ss = views(semantic_statuses@);
        let ghost f = |s: Seq<char>| self.status_names(s);
        let mut all: Vec<String> = Vec::new();
        let mut i: usize = 0;
        while i < semantic_statuses.len()
            invariant
                i <= semantic_statuses@.len(),
                ss == views(semantic_statuses@),
                f == (|s: Seq<char>| self.status_names(s)),
                views(all@) == flatten_names(ss.subrange(0, i as int).map_values(f)),
            decreases semantic_statuses@.len() - i,
        {
            let names = self.names_for_status(semantic_statuses[i].as_str());
            extend_strings(&mut all, &names);
            let ghost next = ss.subrange(0, i + 1).map_values(f);
            assert(next.drop_last() =~= ss.subrange(0, i as int).map_values(f));
            assert(next.last() == f(semantic_statuses@[i as int]@));
            i = i + 1;
        }
        assert(ss.subrange(0, ss.len() as int) =~= ss);
        Ok(dedup_strings(&all))
    }
}


/// Why a search query could not be built.
pub enum SearchFailure {
    /// The assignee refers to the current user, who is not cached.
    CurrentUserUnknown,
    /// The creation date filter is not a date.
    InvalidDate,
}

/// The clause of the project filter.
pub open spec fn project_clause(p: Option<Seq<char>>) -> Seq<Seq<char>> {
    match p {
        Some(x) => seq!["project = "@ + quoted(x)],
        None => Seq::empty(),
    }
}

/// The clause of the text search, for a text that is not blank.
pub open spec fn text_clause(t: Option<Seq<char>>) -> Seq<Seq<char>> {
    match t {
        Some(x) => if !is_blank_seq(x) {
            seq!["text ~ "@ + quoted(escape_jql_seq(x))]
        } else {
            Seq::empty()
        },
        None => Seq::empty(),
    }
}

/// The clause of a list of names mapped to JIRA names, when there are any.
pub open spec fn names_clause(field: Seq<char>, names: Seq<Seq<char>>) -> Seq<Seq<char>> {
    if names.len() > 0 {
        seq![field_clause(field, names)]
    } else {
        Seq::empty()
    }
}

/// The clause of the assignee filter, for a resolved account ID.
pub open spec fn assignee_clause(a: Option<Seq<char>>) -> Seq<Seq<char>> {
    match a {
        Some(x) => if x == "UNASSIGNED"@ {
            seq!["assignee is EMPTY"@]
        } else {
            seq!["assignee = "@ + quoted(x)]
        },
        None => Seq::empty(),
    }
}

/// The clause of the creation date filter, for a converted date.
pub open spec fn created_clause(d: Option<Seq<char>>) -> Seq<Seq<char>> {
    match d {
        Some(x) => seq!["created >= "@ + quoted(x)],
        None => Seq::empty(),
    }
}

/// The clauses of the label filter.
pub open spec fn labels_clause(l: Option<Seq<Seq<char>>>) -> Seq<Seq<char>> {
    match l {
        Some(x) => label_clauses(x),
        None => Seq::empty(),
    }
}

/// The clause of a parent or epic filter.
pub open spec fn link_clause(field: Seq<char>, f: Option<Seq<char>>) -> Seq<Seq<char>> {
    match f {
        Some(x) => seq![link_filter_clause(field, x)],
        None => Seq::empty(),
    }
}


/// The query for these conditions.
fn finish_query(parts: &Vec<String>, text_search: bool) -> (r: JiraMcpResult<JqlQuery>)
    ensures
        r matches Ok(q) && q.jql@ == jql_text(views(parts@)) && q.complexity == spec_complexity(
            parts@.len(),
            text_search,
        ) && q.estimated_results is None,
{
    let complexity = if text_search || parts.len() > 3 {
        QueryComplexity::Complex
    } else if parts.len() > 1 {
        QueryComplexity::Moderate
    } else {
        QueryComplexity::Simple
    };
    let jql = if parts.len() == 0 {
        owned("ORDER BY updated DESC")
    } else {
        let mut j = join(parts, " AND ");
        j.append(" ORDER BY updated DESC");
        j
    };
    Ok(JqlQuery { jql, estimated_results: None, complexity })
}

fn one(s: String) -> (r: Vec<String>)
    ensures
        views(r@) == seq![s@],
{
    let mut v: Vec<String> = Vec::new();
    v.push(s);
    assert(views(v@) =~= seq![s@]);
    v
}

fn none_clause() -> (r: Vec<String>)
    ensures
        views(r@) == Seq::<Seq<char>>::empty(),
{
    let v: Vec<String> = Vec::new();
    assert(views(v@) =~= Seq::<Seq<char>>::empty());
    v
}

fn prefixed(prefix: &str, value: &str) -> (r: String)
    ensures
        r@ == prefix@ + quoted(value@),
{
    let mut c = owned(prefix);
    let q = quote(value);
    c.append(q.as_str());
    c
}

fn clause_project(project_key: Option<&str>) -> (r: Vec<String>)
    ensures
        views(r@) == project_clause(opt_str(project_key)),
{
    match project_key {
        Some(p) => one(prefixed("project = ", p)),
        None => none_clause(),
    }
}

fn clause_text(query_text: Option<&str>) -> (r: Vec<String>)
    ensures
        views(r@) == text_clause(opt_str(query_text)),
{
    match query_text {
        Some(text) => {
            if !is_blank(text) {
                let e = escape_jql_string(text);
                one(prefixed("text ~ ", e.as_str()))
            } else {
                none_clause()
            }
        },
        None => none_clause(),
    }
}

fn clause_created(created_after: Option<&str>) -> (r: JiraMcpResult<Vec<String>>)
    ensures
        match created_after {
            Some(c) => match spec_date_filter(c@) {
                Some(d) => r matches Ok(v) && views(v@) == created_clause(Some(d)),
                None => r matches Err(JiraMcpError::InvalidParameter { parameter, message })
                    && parameter@ == "created_after"@ && message@ == date_error_message(c@),
            },
            None => r matches Ok(v) && views(v@) == Seq::<Seq<char>>::empty(),
        },
{
    match created_after {
        Some(created) => {
            let date = parse_date_filter(created)?;
            Ok(one(prefixed("created >= ", date.as_str())))
        },
        None => Ok(none_clause()),
    }
}

fn clause_labels(labels: Option<&[String]>) -> (r: Vec<String>)
    ensures
        views(r@) == labels_clause(opt_names(labels)),
{
    let mut parts: Vec<String> = Vec::new();
    if let Some(label_list) = labels {
        let mut i: usize = 0;
        while i < label_list.len()
            invariant
                i <= label_list@.len(),
                views(parts@) == label_clauses(views(label_list@).subrange(0, i as int)),
            decreases label_list@.len() - i,
        {
            let c = prefixed("labels = ", label_list[i].as_str());
            let ghost before = views(parts@);
            parts.push(c);
            assert(views(label_list@).subrange(0, i + 1) =~= views(label_list@).subrange(
                0,
                i as int,
            ).push(label_list@[i as int]@));
            assert(views(parts@) =~= before.push(c@));
            i = i + 1;
            assert(views(parts@) =~= label_clauses(views(label_list@).subrange(0, i as int)));
        }
        assert(views(label_list@).subrange(0, label_list@.len() as int) =~= views(label_list@));
    } else {
        assert(views(parts@) =~= Seq::<Seq<char>>::empty());
    }
    parts
}

fn clause_link(field: &str, f: Option<&str>) -> (r: Vec<String>)
    ensures
        views(r@) == link_clause(field@, opt_str(f)),
{
    match f {
        Some(x) => one(link_filter(field, x)),
        None => none_clause(),
    }
}

impl<'a> SemanticMapper<'a> {
    /// The account ID that a user reference resolves to: the fresh cached
    /// current user for "me", "current_user" and "currentuser" (in any
    /// case), the marker "UNASSIGNED" for "unassigned", the fresh cached
    /// mapping of the reference, or else the reference itself. `None` when
    /// the current user is meant and not cached.
    pub open spec fn spec_resolve(&self, r: Seq<char>) -> Option<Seq<char>> {
        let l = lowercase(r);
        if l == "me"@ || l == "current_user"@ || l == "currentuser"@ {
            match self.cache.current() {
                Some(e) => if fresh(e, self.cache.ttl(), self.now) {
                    Some(e.value.account_id@)
                } else {
                    None
                },
                None => None,
            }
        } else if l == "unassigned"@ {
            Some("UNASSIGNED"@)
        } else if self.cache.user_maps().contains_key(r) && fresh(
            self.cache.user_maps()[r],
            self.cache.ttl(),
            self.now,
        ) {
            Some(self.cache.user_maps()[r].value.account_id@)
        } else {
            Some(r)
        }
    }

    /// The clause of the issue type filter.
    pub open spec fn types_clause(&self, ts: Option<Seq<Seq<char>>>, project: Option<Seq<char>>) -> Seq<
        Seq<char>,
    > {
        match ts {
            Some(x) => if x.len() > 0 {
                names_clause("issuetype"@, self.spec_map_issue_types(x, project))
            } else {
                Seq::empty()
            },
            None => Seq::empty(),
        }
    }

    /// The clause of the status filter.
    pub open spec fn status_clause(&self, ss: Option<Seq<Seq<char>>>) -> Seq<Seq<char>> {
        match ss {
            Some(x) => if x.len() > 0 {
                names_clause("status"@, self.spec_map_status_categories(x))
            } else {
                Seq::empty()
            },
            None => Seq::empty(),
        }
    }

    /// The query built from the search parameters: its JQL and its
    /// complexity, or why it cannot be built.
    pub open spec fn spec_search(
        &self,
        text: Option<Seq<char>>,
        types: Option<Seq<Seq<char>>>,
        assignee: Option<Seq<char>>,
        project: Option<Seq<char>>,
        status: Option<Seq<Seq<char>>>,
        created: Option<Seq<char>>,
        labels: Option<Seq<Seq<char>>>,
        parent: Option<Seq<char>>,
        epic: Option<Seq<char>>,
    ) -> Result<(Seq<char>, QueryComplexity), SearchFailure> {
        let resolved = match assignee {
            Some(a) => self.spec_resolve(a),
            None => None,
        };
        let date = match created {
            Some(c) => spec_date_filter(c),
            None => None,
        };
        if assignee is Some && resolved is None {
            Err(SearchFailure::CurrentUserUnknown)
        } else if created is Some && date is None {
            Err(SearchFailure::InvalidDate)
        } else {
            let parts = project_clause(project) + text_clause(text) + self.types_clause(types, project)
                + assignee_clause(resolved) + self.status_clause(status) + created_clause(date)
                + labels_clause(labels) + link_clause("parent"@, parent) + link_clause(
                "\"Epic Link\""@,
                epic,
            );
            let text_search = match text {
                Some(t) => !is_blank_seq(t),
                None => false,
            };
            Ok((jql_text(parts), spec_complexity(parts.len(), text_search)))
        }
    }

    /// Resolve user reference to account ID
    pub fn resolve_user_reference(&self, user_ref: &str) -> (r: JiraMcpResult<String>)
        requires
            self.cache.wf(),
        ensures
            match self.spec_resolve(user_ref@) {
                Some(a) => r matches Ok(x) && x@ == a,
                None => r matches Err(JiraMcpError::Authentication { message }) && message@
                    == "Current user not found in cache. Authentication may have failed."@,
            },
    {
        let lower = to_lowercase(user_ref);
        let l = lower.as_str();
        if str_eq(l, "me") || str_eq(l, "current_user") || str_eq(l, "currentuser") {
            match self.cache.get_current_user_at(self.now) {
                Some(user) => Ok(user.account_id),
                None => Err(
                    JiraMcpError::auth(
                        "Current user not found in cache. Authentication may have failed.",
                    ),
                ),
            }
        } else if str_eq(l, "unassigned") {
            Ok(owned("UNASSIGNED"))
        } else {
            match self.cache.get_user_mapping_at(user_ref, self.now) {
                Some(user) => Ok(user.account_id),
                None => Ok(owned(user_ref)),
            }
        }
    }

    fn clause_types(&self, issue_types: Option<&[String]>, project_key: Option<&str>) -> (r: Vec<
        String,
    >)
        requires
            self.cache.wf(),
        ensures
            views(r@) == self.types_clause(opt_names(issue_types), opt_str(project_key)),
    {
        if let Some(types) = issue_types {
            if types.len() > 0 {
                let jira_types = match self.map_issue_types(types, project_key) {
                    Ok(v) => v,
                    Err(_) => Vec::new(),
                };
                if jira_types.len() > 0 {
                    return one(build_field_clause("issuetype", &jira_types));
                }
            }
        }
        none_clause()
    }

    fn clause_status(&self, status: Option<&[String]>) -> (r: Vec<String>)
        ensures
            views(r@) == self.status_clause(opt_names(status)),
    {
        if let Some(statuses) = status {
            if statuses.len() > 0 {
                let jira_statuses = match self.map_status_categories(statuses) {
                    Ok(v) => v,
                    Err(_) => Vec::new(),
                };
                if jira_statuses.len() > 0 {
                    return one(build_field_clause("status", &jira_statuses));
                }
            }
        }
        none_clause()
    }

    fn clause_assignee(&self, assigned_to: Option<&str>) -> (r: JiraMcpResult<Vec<String>>)
        requires
            self.cache.wf(),
        ensures
            match assigned_to {
                Some(a) => match self.spec_resolve(a@) {
                    Some(x) => r matches Ok(v) && views(v@) == assignee_clause(Some(x)),
                    None => r matches Err(JiraMcpError::Authentication { message }) && message@
                        == "Current user not found in cache. Authentication may have failed."@,
                },
                None => r matches Ok(v) && views(v@) == Seq::<Seq<char>>::empty(),
            },
    {
        match assigned_to {
            Some(assignee) => {
                let resolved = self.resolve_user_reference(assignee)?;
                if str_eq(resolved.as_str(), "UNASSIGNED") {
                    Ok(one(owned("assignee is EMPTY")))
                } else {
                    Ok(one(prefixed("assignee = ", resolved.as_str())))
                }
            },
            None => Ok(none_clause()),
        }
    }

    /// Build a JQL query from search parameters
    pub fn build_search_jql(
        &self,
        query_text: Option<&str>,
        issue_types: Option<&[String]>,
        assigned_to: Option<&str>,
        project_key: Option<&str>,
        status: Option<&[String]>,
        created_after: Option<&str>,
        labels: Option<&[String]>,
        parent_filter: Option<&str>,
        epic_filter: Option<&str>,
    ) -> (r: JiraMcpResult<JqlQuery>)
        requires
            self.cache.wf(),
        ensures
            match self.spec_search(
                opt_str(query_text),
                opt_names(issue_types),
                opt_str(assigned_to),
                opt_str(project_key),
                opt_names(status),
                opt_str(created_after),
                opt_names(labels),
                opt_str(parent_filter),
                opt_str(epic_filter),
            ) {
                Ok((jql, c)) => r matches Ok(q) && q.jql@ == jql && q.complexity == c
                    && q.estimated_results is None,
                Err(SearchFailure::CurrentUserUnknown) => r matches Err(
                    JiraMcpError::Authentication { message },
                ) && message@ == "Current user not found in cache. Authentication may have failed."@,
                Err(SearchFailure::InvalidDate) => r matches Err(
                    JiraMcpError::InvalidParameter { parameter, message },
                ) && parameter@ == "created_after"@ && message@ == date_error_message(
                    opt_str(created_after)->0,
                ),
            },
    {
        let c1 = clause_project(project_key);
        let c2 = clause_text(query_text);
        let c3 = self.clause_types(issue_types, project_key);
        let c4 = self.clause_assignee(assigned_to)?;
        let c5 = self.clause_status(status);
        let c6 = clause_created(created_after)?;
        let c7 = clause_labels(labels);
        let c8 = clause_link("parent", parent_filter);
        let c9 = clause_link("\"Epic Link\"", epic_filter);
        let mut parts: Vec<String> = Vec::new();
        extend_strings(&mut parts, &c1);
        extend_strings(&mut parts, &c2);
        extend_strings(&mut parts, &c3);
        extend_strings(&mut parts, &c4);
        extend_strings(&mut parts, &c5);
        extend_strings(&mut parts, &c6);
        extend_strings(&mut parts, &c7);
        extend_strings(&mut parts, &c8);
        extend_strings(&mut parts, &c9);
        let text_search = match query_text {
            Some(t) => !is_blank(t),
            None => false,
        };
        finish_query(&parts, text_search)
    }

    /// The account ID of a user reference, or of the fresh cached current
    /// user when no reference is given.
    pub open spec fn spec_user_account(&self, user_ref: Option<Seq<char>>) -> Option<Seq<char>> {
        match user_ref {
            Some(u) => self.spec_resolve(u),
            None => match self.cache.current() {
                Some(e) => if fresh(e, self.cache.ttl(), self.now) {
                    Some(e.value.account_id@)
                } else {
                    None
                },
                None => None,
            },
        }
    }

    /// Build JQL for user-assigned issues
    pub fn build_user_issues_jql(
        &self,
        user_ref: Option<&str>,
        status_filter: Option<&[String]>,
        issue_types: Option<&[String]>,
        project_key: Option<&str>,
    ) -> (r: JiraMcpResult<JqlQuery>)
        requires
            self.cache.wf(),
        ensures
            match self.spec_user_account(opt_str(user_ref)) {
                None => match user_ref {
                    Some(_) => r matches Err(JiraMcpError::Authentication { message }) && message@
                        == "Current user not found in cache. Authentication may have failed."@,
                    None => r matches Err(JiraMcpError::Authentication { message }) && message@
                        == "No user specified and current user not available"@,
                },
                Some(account) => match self.spec_search(
                    None,
                    opt_names(issue_types),
                    Some(account),
                    opt_str(project_key),
                    opt_names(status_filter),
                    None,
                    None,
                    None,
                    None,
                ) {
                    Ok((jql, c)) => r matches Ok(q) && q.jql@ == jql && q.complexity == c,
                    Err(_) => r matches Err(JiraMcpError::Authentication { message }) && message@
                        == "Current user not found in cache. Authentication may have failed."@,
                },
            },
    {
        let account = match user_ref {
            Some(user) => self.resolve_user_reference(user)?,
            None => match self.cache.get_current_user_at(self.now) {
                Some(u) => u.account_id,
                None => {
                    return Err(
                        JiraMcpError::auth("No user specified and current user not available"),
                    );
                },
            },
        };
        self.build_search_jql(
            None,
            issue_types,
            Some(account.as_str()),
            project_key,
            status_filter,
            None,
            None,
            None,
            None,
        )
    }
}

} // verus!
