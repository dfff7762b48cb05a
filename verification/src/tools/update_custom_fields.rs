//! The update_custom_fields tool: which fields get story points and
//! acceptance criteria, what the answer lists, and how refusals are read.

use crate::error::{is_client_error, ClientErrorKind, JiraMcpError, JiraMcpResult};
use crate::text::{contains_seq, decimal_seq, decimal_string, join, join_seq, str_contains, str_eq, views};
use crate::tools::get_custom_fields::{is_custom, FieldValue};
use crate::tools::validation::invalid_param_is;
use vstd::prelude::*;

verus! {

/// Result of updating custom fields
#[derive(Debug, Clone)]
pub struct UpdateCustomFieldsResult {
    /// Issue key
    pub issue_key: String,
    /// The fields updated
    pub updated_fields: Vec<String>,
    /// Success message
    pub message: String,
}

fn owned(s: &str) -> (r: String)
    ensures
        r@ == s@,
{
    s.to_owned()
}

/// The value a field has among the fields of an issue, if it is there.
pub open spec fn value_of(fields: Seq<(String, FieldValue)>, id: Seq<char>) -> Option<FieldValue>
    decreases fields.len(),
{
    if fields.len() == 0 {
        None
    } else if fields[0].0@ == id {
        Some(fields[0].1)
    } else {
        value_of(fields.drop_first(), id)
    }
}

fn lookup(fields: &Vec<(String, FieldValue)>, id: &str) -> (r: Option<usize>)
    ensures
        match r {
            Some(i) => i < fields@.len() && value_of(fields@, id@) == Some(fields@[i as int].1),
            None => value_of(fields@, id@) is None,
        },
{
    let mut i: usize = 0;
    assert(fields@.subrange(0, fields@.len() as int) =~= fields@);
    while i < fields.len()
        invariant
            i <= fields@.len(),
            value_of(fields@, id@) == value_of(fields@.subrange(i as int, fields@.len() as int), id@),
        decreases fields@.len() - i,
    {
        let ghost rest = fields@.subrange(i as int, fields@.len() as int);
        assert(rest.drop_first() =~= fields@.subrange(i + 1, fields@.len() as int));
        assert(rest[0] == fields@[i as int]);
        if str_eq(fields[i].0.as_str(), id) {
            return Some(i);
        }
        i = i + 1;
    }
    None
}

fn holds_number(fields: &Vec<(String, FieldValue)>, id: &str) -> (r: bool)
    ensures
        r == (value_of(fields@, id@) matches Some(FieldValue::Number(_))),
{
    match lookup(fields, id) {
        Some(i) => match &fields[i].1 {
            FieldValue::Number(_) => true,
            _ => false,
        },
        None => false,
    }
}

fn holds_text(fields: &Vec<(String, FieldValue)>, id: &str) -> (r: bool)
    ensures
        r == (value_of(fields@, id@) matches Some(FieldValue::Text(_))),
{
    match lookup(fields, id) {
        Some(i) => match &fields[i].1 {
            FieldValue::Text(_) => true,
            _ => false,
        },
        None => false,
    }
}

/// The first numeric custom field, in the order JIRA lists them.
pub open spec fn first_numeric_custom(fields: Seq<(String, FieldValue)>) -> Option<Seq<char>>
    decreases fields.len(),
{
    if fields.len() == 0 {
        None
    } else if is_custom(fields[0].0@) && fields[0].1 is Number {
        Some(fields[0].0@)
    } else {
        first_numeric_custom(fields.drop_first())
    }
}

/// The story points field of an issue: the first of the usual fields
/// (10016, 10026, 10106) that holds a number, else the first numeric
/// custom field.
pub open spec fn spec_story_points_field(fields: Seq<(String, FieldValue)>) -> Option<Seq<char>> {
    if value_of(fields, "customfield_10016"@) matches Some(FieldValue::Number(_)) {
        Some("customfield_10016"@)
    } else if value_of(fields, "customfield_10026"@) matches Some(FieldValue::Number(_)) {
        Some("customfield_10026"@)
    } else if value_of(fields, "customfield_10106"@) matches Some(FieldValue::Number(_)) {
        Some("customfield_10106"@)
    } else {
        first_numeric_custom(fields)
    }
}

/// Find the story points field of an issue.
pub fn detect_story_points_field(fields: &Vec<(String, FieldValue)>) -> (r: Option<String>)
    ensures
        crate::text::opt_view(r) == spec_story_points_field(fields@),
{
    if holds_number(fields, "customfield_10016") {
        return Some(owned("customfield_10016"));
    }
    if holds_number(fields, "customfield_10026") {
        return Some(owned("customfield_10026"));
    }
    if holds_number(fields, "customfield_10106") {
        return Some(owned("customfield_10106"));
    }
    let mut i: usize = 0;
    assert(fields@.subrange(0, fields@.len() as int) =~= fields@);
    assert(spec_story_points_field(fields@) == first_numeric_custom(fields@));
    while i < fields.len()
        invariant
            i <= fields@.len(),
            spec_story_points_field(fields@) == first_numeric_custom(fields@),
            first_numeric_custom(fields@) == first_numeric_custom(
                fields@.subrange(i as int, fields@.len() as int),
            ),
        decreases fields@.len() - i,
    {
        let ghost rest = fields@.subrange(i as int, fields@.len() as int);
        assert(rest.drop_first() =~= fields@.subrange(i + 1, fields@.len() as int));
        assert(rest[0] == fields@[i as int]);
        let numeric = match &fields[i].1 {
            FieldValue::Number(_) => true,
            _ => false,
        };
        if crate::text::str_starts_with(fields[i].0.as_str(), "customfield_") && numeric {
            return Some(fields[i].0.clone());
        }
        i = i + 1;
    }
    None
}

/// The acceptance criteria field of an issue: the first of the usual
/// fields (10100, 10007, 10200) that holds text.
pub open spec fn spec_criteria_field(fields: Seq<(String, FieldValue)>) -> Option<Seq<char>> {
    if value_of(fields, "customfield_10100"@) matches Some(FieldValue::Text(_)) {
        Some("customfield_10100"@)
    } else if value_of(fields, "customfield_10007"@) matches Some(FieldValue::Text(_)) {
        Some("customfield_10007"@)
    } else if value_of(fields, "customfield_10200"@) matches Some(FieldValue::Text(_)) {
        Some("customfield_10200"@)
    } else {
        None
    }
}

/// Find the acceptance criteria field of an issue.
pub fn detect_acceptance_criteria_field(fields: &Vec<(String, FieldValue)>) -> (r: Option<String>)
    ensures
        crate::text::opt_view(r) == spec_criteria_field(fields@),
{
    if holds_text(fields, "customfield_10100") {
        return Some(owned("customfield_10100"));
    }
    if holds_text(fields, "customfield_10007") {
        return Some(owned("customfield_10007"));
    }
    if holds_text(fields, "customfield_10200") {
        return Some(owned("customfield_10200"));
    }
    None
}

/// The field to write: the one given, else the one detected, else the
/// usual default.
pub fn choose_field(given: Option<String>, detected: Option<String>, default_id: &str) -> (r: String)
    ensures
        r@ == match given {
            Some(g) => g@,
            None => match detected {
                Some(d) => d@,
                None => default_id@,
            },
        },
{
    match given {
        Some(g) => g,
        None => match detected {
            Some(d) => d,
            None => owned(default_id),
        },
    }
}

/// How a convenience field is listed among the updated fields: its use
/// and, in brackets, its ID.
pub fn field_label(use_name: &str, field_id: &str) -> (r: String)
    ensures
        r@ == use_name@ + " ("@ + field_id@ + ")"@,
{
    let mut l = owned(use_name);
    l.append(" (");
    l.append(field_id);
    l.append(")");
    l
}

/// Refuse an update of no field.
pub fn check_updates(count: usize) -> (r: JiraMcpResult<()>)
    ensures
        count > 0 ==> r is Ok,
        count == 0 ==> (r matches Err(e) && invalid_param_is(
            e,
            "updates"@,
            "No field updates specified"@,
        )),
{
    if count == 0 {
        return Err(JiraMcpError::invalid_param("updates", "No field updates specified"));
    }
    Ok(())
}

/// The error of a failed update: a 404 or Not Found means the issue does
/// not exist, a 400 or Bad Request an invalid update; any other is
/// classified by its kind.
pub fn update_fields_error(kind: ClientErrorKind, detail: &str, issue_key: &str) -> (r: JiraMcpError)
    ensures
        contains_seq(detail@, "404"@) || contains_seq(detail@, "Not Found"@) ==> (r matches JiraMcpError::NotFound {
            resource,
            key,
        } && resource@ == "issue"@ && key@ == issue_key@),
        !(contains_seq(detail@, "404"@) || contains_seq(detail@, "Not Found"@)) && (contains_seq(
            detail@,
            "400"@,
        ) || contains_seq(detail@, "Bad Request"@)) ==> invalid_param_is(
            r,
            "field_updates"@,
            "Invalid field update: "@ + detail@,
        ),
        !(contains_seq(detail@, "404"@) || contains_seq(detail@, "Not Found"@)) && !(contains_seq(
            detail@,
            "400"@,
        ) || contains_seq(detail@, "Bad Request"@)) ==> is_client_error(r, kind, detail@),
{
    if str_contains(detail, "404") || str_contains(detail, "Not Found") {
        JiraMcpError::not_found("issue", issue_key)
    } else if str_contains(detail, "400") || str_contains(detail, "Bad Request") {
        let mut m = owned("Invalid field update: ");
        m.append(detail);
        JiraMcpError::InvalidParameter { parameter: owned("field_updates"), message: m }
    } else {
        JiraMcpError::from_client_error(kind, detail)
    }
}

/// The answer to an update.
pub fn update_fields_result(issue_key: String, updated_fields: Vec<String>) -> (r:
    UpdateCustomFieldsResult)
    ensures
        r.issue_key@ == issue_key@,
        r.updated_fields@ == updated_fields@,
        r.message@ == "Successfully updated "@ + decimal_seq(updated_fields@.len()) + " field(s): "@
            + join_seq(views(updated_fields@), ", "@),
{
    let mut m = owned("Successfully updated ");
    let n = decimal_string(updated_fields.len() as u64);
    m.append(n.as_str());
    m.append(" field(s): ");
    let list = join(&updated_fields, ", ");
    m.append(list.as_str());
    UpdateCustomFieldsResult { issue_key, updated_fields, message: m }
}

} // verus!
