//! The get_custom_fields tool: how custom field values are typed and
//! shown, and which fields are taken for story points, acceptance
//! criteria, sprints and epic links.

use crate::error::{JiraMcpError, JiraMcpResult};
use crate::text::{
    byte_len, contains_seq, decimal_seq, decimal_string, starts_with_seq, str_contains,
    str_starts_with,
};
use vstd::prelude::*;

verus! {

/// Parameters for reading the custom fields of an issue
#[derive(Debug, Clone)]
pub struct GetCustomFieldsParams {
    /// Issue key
    pub issue_key: String,
}

/// The fields taken for well-known uses
#[derive(Debug, Clone)]
pub struct DetectedMappings {
    /// The first numeric custom field
    pub story_points_field: Option<String>,
    /// The first custom field with text over 50 bytes
    pub acceptance_criteria_field: Option<String>,
    /// The last list field whose ID mentions "sprint"
    pub sprint_field: Option<String>,
    /// The last text field whose ID mentions "epic"
    pub epic_link_field: Option<String>,
}

/// What the tool reads of a field value.
#[derive(Debug, Clone)]
pub enum FieldValue {
    Null,
    Bool(bool),
    /// A number, written as JSON writes it
    Number(String),
    Text(String),
    /// A list, by its length
    Array(usize),
    /// An object: its "name" and "value" texts when it has them, and its
    /// number of keys
    Object { name: Option<String>, value: Option<String>, keys: usize },
}

fn owned(s: &str) -> (r: String)
    ensures
        r@ == s@,
{
    s.to_owned()
}

/// The type name of a value.
pub open spec fn value_type_name(v: FieldValue) -> Seq<char> {
    match v {
        FieldValue::Null => "null"@,
        FieldValue::Bool(_) => "boolean"@,
        FieldValue::Number(_) => "number"@,
        FieldValue::Text(_) => "string"@,
        FieldValue::Array(_) => "array"@,
        FieldValue::Object { .. } => "object"@,
    }
}

/// The type name of a value.
pub fn field_type(v: &FieldValue) -> (r: String)
    ensures
        r@ == value_type_name(*v),
{
    match v {
        FieldValue::Null => owned("null"),
        FieldValue::Bool(_) => owned("boolean"),
        FieldValue::Number(_) => owned("number"),
        FieldValue::Text(_) => owned("string"),
        FieldValue::Array(_) => owned("array"),
        FieldValue::Object { .. } => owned("object"),
    }
}

/// The first `n` bytes of a text fall on a character boundary.
pub open spec fn byte_boundary(s: Seq<char>, n: nat) -> bool {
    exists|k: int| 0 <= k <= s.len() && byte_len(#[trigger] s.subrange(0, k)) == n
}

/// The characters of the first `n` bytes of a text.
pub open spec fn byte_prefix(s: Seq<char>, n: nat) -> Seq<char> {
    let k = choose|k: int| 0 <= k <= s.len() && byte_len(#[trigger] s.subrange(0, k)) == n;
    s.subrange(0, k)
}

/// `&s[..n]`: the first `n` bytes of a text, which must end on a
/// character boundary (the slice panics otherwise).
#[verifier::external_body]
fn prefix_bytes(s: &str, n: usize) -> (r: String)
    requires
        byte_boundary(s@, n as nat),
    ensures
        r@ == byte_prefix(s@, n as nat),
{
    s[..n].to_string()
}

/// How a value is shown: a long text (over 100 bytes) by its first 100
/// bytes and its length, a list by its length, an object by its name or
/// value or number of keys.
pub open spec fn display_text(v: FieldValue, bool_text: Seq<char>) -> Seq<char> {
    match v {
        FieldValue::Null => "null"@,
        FieldValue::Bool(b) => if b {
            "true"@
        } else {
            "false"@
        },
        FieldValue::Number(n) => n@,
        FieldValue::Text(s) => if byte_len(s@) > 100 {
            byte_prefix(s@, 100) + "... ("@ + decimal_seq(byte_len(s@) as nat) + " chars)"@
        } else {
            s@
        },
        FieldValue::Array(n) => "Array["@ + decimal_seq(n as nat) + "]"@,
        FieldValue::Object { name, value, keys } => match name {
            Some(x) => "Object: "@ + x@,
            None => match value {
                Some(x) => "Object: "@ + x@,
                None => "Object with "@ + decimal_seq(keys as nat) + " keys"@,
            },
        },
    }
}

/// A value that can be shown: a long text is cut on a character boundary.
pub open spec fn displayable(v: FieldValue) -> bool {
    match v {
        FieldValue::Text(s) => byte_len(s@) > 100 ==> byte_boundary(s@, 100),
        _ => true,
    }
}

/// Show a value.
pub fn value_display(v: &FieldValue) -> (r: String)
    requires
        displayable(*v),
    ensures
        r@ == display_text(*v, Seq::empty()),
{
    match v {
        FieldValue::Null => owned("null"),
        FieldValue::Bool(b) => if *b {
            owned("true")
        } else {
            owned("false")
        },
        FieldValue::Number(n) => n.clone(),
        FieldValue::Text(s) => if s.as_str().len() > 100 {
            let mut d = prefix_bytes(s.as_str(), 100);
            d.append("... (");
            let n = decimal_string(s.as_str().len() as u64);
            d.append(n.as_str());
            d.append(" chars)");
            d
        } else {
            s.clone()
        },
        FieldValue::Array(n) => {
            let mut d = owned("Array[");
            let k = decimal_string(*n as u64);
            d.append(k.as_str());
            d.append("]");
            d
        },
        FieldValue::Object { name, value, keys } => match name {
            Some(x) => {
                let mut d = owned("Object: ");
                d.append(x.as_str());
                d
            },
            None => match value {
                Some(x) => {
                    let mut d = owned("Object: ");
                    d.append(x.as_str());
                    d
                },
                None => {
                    let mut d = owned("Object with ");
                    let k = decimal_string(*keys as u64);
                    d.append(k.as_str());
                    d.append(" keys");
                    d
                },
            },
        },
    }
}

/// A custom field: its ID starts with "customfield_".
pub open spec fn is_custom(id: Seq<char>) -> bool {
    starts_with_seq(id, "customfield_"@)
}

/// The mappings detected among the fields seen so far, in the order JIRA
/// lists them; only custom fields count.
pub open spec fn spec_detect(fields: Seq<(String, FieldValue)>) -> (
    Option<Seq<char>>,
    Option<Seq<char>>,
    Option<Seq<char>>,
    Option<Seq<char>>,
)
    decreases fields.len(),
{
    if fields.len() == 0 {
        (None, None, None, None)
    } else {
        let d = spec_detect(fields.drop_last());
        let (id, v) = fields.last();
        if !is_custom(id@) {
            d
        } else {
            let story = if d.0 is None && v is Number {
                Some(id@)
            } else {
                d.0
            };
            let criteria = if d.1 is None && (v matches FieldValue::Text(s) && byte_len(s@) > 50) {
                Some(id@)
            } else {
                d.1
            };
            let sprint = if v is Array && contains_seq(id@, "sprint"@) {
                Some(id@)
            } else {
                d.2
            };
            let epic = if v is Text && contains_seq(id@, "epic"@) {
                Some(id@)
            } else {
                d.3
            };
            (story, criteria, sprint, epic)
        }
    }
}

/// The view of detected mappings.
pub open spec fn mappings_view(m: DetectedMappings) -> (
    Option<Seq<char>>,
    Option<Seq<char>>,
    Option<Seq<char>>,
    Option<Seq<char>>,
) {
    (
        crate::text::opt_view(m.story_points_field),
        crate::text::opt_view(m.acceptance_criteria_field),
        crate::text::opt_view(m.sprint_field),
        crate::text::opt_view(m.epic_link_field),
    )
}

/// Detect the well-known custom fields.
pub fn detect_mappings(fields: &Vec<(String, FieldValue)>) -> (r: DetectedMappings)
    ensures
        mappings_view(r) == spec_detect(fields@),
{
    let mut m = DetectedMappings {
        story_points_field: None,
        acceptance_criteria_field: None,
        sprint_field: None,
        epic_link_field: None,
    };
    let mut i: usize = 0;
    while i < fields.len()
        invariant
            i <= fields@.len(),
            mappings_view(m) == spec_detect(fields@.subrange(0, i as int)),
        decreases fields@.len() - i,
    {
        let ghost next = fields@.subrange(0, i + 1);
        assert(next.drop_last() =~= fields@.subrange(0, i as int));
        assert(next.last() == fields@[i as int]);
        let (id, v) = &fields[i];
        if str_starts_with(id.as_str(), "customfield_") {
            let is_number = match v {
                FieldValue::Number(_) => true,
                _ => false,
            };
            if m.story_points_field.is_none() && is_number {
                m.story_points_field = Some(id.clone());
            }
            let long_text = match v {
                FieldValue::Text(s) => s.as_str().len() > 50,
                _ => false,
            };
            if m.acceptance_criteria_field.is_none() && long_text {
                m.acceptance_criteria_field = Some(id.clone());
            }
            let is_array = match v {
                FieldValue::Array(_) => true,
                _ => false,
            };
            if is_array && str_contains(id.as_str(), "sprint") {
                m.sprint_field = Some(id.clone());
            }
            let is_text = match v {
                FieldValue::Text(_) => true,
                _ => false,
            };
            if is_text && str_contains(id.as_str(), "epic") {
                m.epic_link_field = Some(id.clone());
            }
        }
        i = i + 1;
    }
    assert(fields@.subrange(0, fields@.len() as int) =~= fields@);
    m
}

} // verus!
