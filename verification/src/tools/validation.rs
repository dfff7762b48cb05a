//! Checks shared by the parameter validation of the tools.

use crate::error::{JiraMcpError, JiraMcpResult};
use crate::text::{
    chars_eq, occurs_at,
    char_is_alphabetic, char_is_numeric, chars_of, is_alphabetic_char, is_blank, is_blank_seq,
    is_numeric_char, views,
};
use vstd::prelude::*;

verus! {

/// `e` is the invalid-parameter error for `parameter` with `message`.
pub open spec fn invalid_param_is(e: JiraMcpError, parameter: Seq<char>, message: Seq<char>) -> bool {
    e matches JiraMcpError::InvalidParameter { parameter: p, message: m } && p@ == parameter && m@
        == message
}

/// A check passed when there is no failure, and otherwise failed with the
/// invalid-parameter error that the failure names.
pub open spec fn check_result(r: JiraMcpResult<()>, failure: Option<(Seq<char>, Seq<char>)>) -> bool {
    match failure {
        None => r is Ok,
        Some(f) => r matches Err(e) && invalid_param_is(e, f.0, f.1),
    }
}

/// The names a list option holds, if it is given.
pub open spec fn given_names(o: Option<Vec<String>>) -> Option<Seq<Seq<char>>> {
    match o {
        Some(v) => Some(views(v@)),
        None => None,
    }
}

/// Some name is empty once trimmed.
pub open spec fn some_blank(names: Seq<Seq<char>>) -> bool {
    exists|i: int| 0 <= i < names.len() && is_blank_seq(#[trigger] names[i])
}

/// A list is given and some name in it is empty once trimmed.
pub open spec fn opt_some_blank(o: Option<Vec<String>>) -> bool {
    match given_names(o) {
        Some(ns) => some_blank(ns),
        None => false,
    }
}

/// Whether some name is empty once trimmed.
pub fn any_blank(names: &[String]) -> (r: bool)
    ensures
        r == some_blank(views(names@)),
{
    let ghost ns = views(names@);
    let mut i: usize = 0;
    while i < names.len()
        invariant
            i <= names@.len(),
            ns == views(names@),
            forall|j: int| 0 <= j < i ==> !is_blank_seq(#[trigger] ns[j]),
        decreases names@.len() - i,
    {
        if is_blank(names[i].as_str()) {
            assert(is_blank_seq(ns[i as int]));
            return true;
        }
        i = i + 1;
    }
    false
}

/// Whether a list is given and some name in it is empty once trimmed.
pub fn opt_any_blank(o: &Option<Vec<String>>) -> (r: bool)
    ensures
        r == opt_some_blank(*o),
{
    match o {
        Some(v) => any_blank(v.as_slice()),
        None => false,
    }
}

/// The failure, with this parameter and message, when a given list holds a
/// blank name.
pub fn check_names(o: &Option<Vec<String>>, parameter: &str, message: &str) -> (r: JiraMcpResult<()>)
    ensures
        check_result(
            r,
            if opt_some_blank(*o) {
                Some((parameter@, message@))
            } else {
                None
            },
        ),
{
    if opt_any_blank(o) {
        Err(JiraMcpError::invalid_param(parameter, message))
    } else {
        Ok(())
    }
}

/// Every character is alphabetic.
pub open spec fn all_alphabetic(s: Seq<char>) -> bool {
    forall|i: int| 0 <= i < s.len() ==> is_alphabetic_char(#[trigger] s[i])
}

/// Every character is numeric.
pub open spec fn all_numeric(s: Seq<char>) -> bool {
    forall|i: int| 0 <= i < s.len() ==> is_numeric_char(#[trigger] s[i])
}

/// Whether every character is alphabetic.
pub fn chars_all_alphabetic(s: &[char]) -> (r: bool)
    ensures
        r == all_alphabetic(s@),
{
    let mut i: usize = 0;
    while i < s.len()
        invariant
            i <= s@.len(),
            forall|j: int| 0 <= j < i ==> is_alphabetic_char(#[trigger] s@[j]),
        decreases s@.len() - i,
    {
        if !char_is_alphabetic(s[i]) {
            return false;
        }
        i = i + 1;
    }
    true
}

/// Whether every character is numeric.
pub fn chars_all_numeric(s: &[char]) -> (r: bool)
    ensures
        r == all_numeric(s@),
{
    let mut i: usize = 0;
    while i < s.len()
        invariant
            i <= s@.len(),
            forall|j: int| 0 <= j < i ==> is_numeric_char(#[trigger] s@[j]),
        decreases s@.len() - i,
    {
        if !char_is_numeric(s[i]) {
            return false;
        }
        i = i + 1;
    }
    true
}

/// Whether every character of a string is alphabetic.
pub fn str_all_alphabetic(s: &str) -> (r: bool)
    ensures
        r == all_alphabetic(s@),
{
    let cs = chars_of(s);
    chars_all_alphabetic(cs.as_slice())
}

/// Whether every character of a string is numeric.
pub fn str_all_numeric(s: &str) -> (r: bool)
    ensures
        r == all_numeric(s@),
{
    let cs = chars_of(s);
    chars_all_numeric(cs.as_slice())
}

/// A path that names the root: it starts with '/'.
pub open spec fn is_absolute_path(p: Seq<char>) -> bool {
    p.len() > 0 && p[0] == '/'
}

/// A path with a ".." component: ".." between separators or the ends.
pub open spec fn has_parent_component(p: Seq<char>) -> bool {
    exists|i: int|
        0 <= i && i + 2 <= p.len() && #[trigger] occurs_at(p, ".."@, i) && (i == 0 || p[i - 1]
            == '/') && (i + 2 == p.len() || p[i + 2] == '/')
}

/// Why a path for reading or writing files is refused: it is absolute, or
/// it climbs out of the working directory.
pub open spec fn spec_path_failure(p: Seq<char>, parameter: Seq<char>) -> Option<
    (Seq<char>, Seq<char>),
> {
    if is_absolute_path(p) {
        Some((parameter, "Absolute paths are not allowed. Use relative paths only for security."@))
    } else if has_parent_component(p) {
        Some((parameter, "Path traversal (..) is not allowed for security."@))
    } else {
        None
    }
}

/// Whether the path has a ".." component.
fn parent_component(cs: &[char]) -> (r: bool)
    ensures
        r == has_parent_component(cs@),
{
    let n = cs.len();
    if n < 2 {
        assert forall|j: int|
            0 <= j && j + 2 <= cs@.len() implies !(#[trigger] occurs_at(cs@, ".."@, j)) by {}
        return false;
    }
    let mut i: usize = 0;
    while i <= n - 2
        invariant
            n == cs@.len(),
            n >= 2,
            i <= n - 1,
            forall|j: int|
                0 <= j < i && j + 2 <= n ==> !(#[trigger] occurs_at(cs@, ".."@, j) && (j == 0
                    || cs@[j - 1] == '/') && (j + 2 == n || cs@[j + 2] == '/')),
        decreases n - i,
    {
        let here = cs[i] == '.' && cs[i + 1] == '.' && (i == 0 || cs[i - 1] == '/') && (i + 2 == n
            || cs[i + 2] == '/');
        assert(occurs_at(cs@, ".."@, i as int) <==> (cs@[i as int] == '.' && cs@[i + 1] == '.'))
            by {
            reveal_strlit("..");
            let sub = cs@.subrange(i as int, i + 2);
            assert(sub[0] == cs@[i as int] && sub[1] == cs@[i + 1]);
            if cs@[i as int] == '.' && cs@[i + 1] == '.' {
                assert(cs@.subrange(i as int, i + 2) =~= ".."@);
            }
        }
        if here {
            return true;
        }
        i = i + 1;
    }
    false
}

/// Check a path given for reading or writing files: relative, and not
/// climbing out of the working directory.
pub fn check_relative_path(path: &str, parameter: &str) -> (r: JiraMcpResult<()>)
    ensures
        check_result(r, spec_path_failure(path@, parameter@)),
{
    let cs = chars_of(path);
    if cs.len() > 0 && cs[0] == '/' {
        return Err(
            JiraMcpError::invalid_param(
                parameter,
                "Absolute paths are not allowed. Use relative paths only for security.",
            ),
        );
    }
    if parent_component(cs.as_slice()) {
        return Err(
            JiraMcpError::invalid_param(
                parameter,
                "Path traversal (..) is not allowed for security.",
            ),
        );
    }
    Ok(())
}

} // verus!
