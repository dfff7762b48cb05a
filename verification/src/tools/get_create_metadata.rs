//! The get_create_metadata tool: which issue types of a project it
//! reports, how their fields are grouped, and the hints it gives.

use crate::error::{JiraMcpError, JiraMcpResult};
use crate::semantic_mapping::{dedup_seq, dedup_strings, flatten_names};
use crate::text::{
    join, join_seq, lowercase, opt_view, starts_with_seq, str_contains, str_eq, str_starts_with,
    to_lowercase, views,
};
use crate::tools::validation::invalid_param_is;
use vstd::prelude::*;

verus! {

/// Parameters for getting issue creation metadata
#[derive(Debug, Clone)]
pub struct GetCreateMetadataParams {
    /// Project key to get metadata for (e.g., "PROJ", "DEV")
    pub project_key: String,
    /// Only this issue type (compared without regard to case), if given
    pub issue_type: Option<String>,
    /// Include field schemas and allowed values (default: true)
    pub include_schemas: bool,
}

/// Summary of fields by category for quick reference
#[derive(Debug, Clone)]
pub struct FieldSummary {
    /// Required standard fields (summary, project, etc.)
    pub required_standard: Vec<String>,
    /// Required custom fields, as "name (id)"
    pub required_custom: Vec<String>,
    /// Optional standard fields that are commonly used
    pub optional_standard: Vec<String>,
    /// Optional custom fields, as "name (id)"
    pub optional_custom: Vec<String>,
}

/// What the metadata of JIRA says of one field of an issue type.
#[derive(Debug, Clone)]
pub struct FieldEntry {
    /// Field key/ID (e.g., "summary", "customfield_10016")
    pub field_id: String,
    /// Human-readable field name
    pub name: String,
    /// Whether this field is required
    pub required: bool,
    /// Field type ("unknown" when JIRA gives none)
    pub field_type: String,
    /// Allowed values, when the field has predefined ones
    pub allowed_values: Option<Vec<String>>,
    /// Whether the field has a default value, when JIRA says
    pub has_default_value: Option<bool>,
    /// Auto-complete URL if applicable
    pub auto_complete_url: Option<String>,
}

fn owned(s: &str) -> (r: String)
    ensures
        r@ == s@,
{
    s.to_owned()
}

/// The endpoint that reads a project's creation metadata with its fields.
pub fn metadata_endpoint(project_key: &str) -> (r: String)
    ensures
        r@ == "/issue/createmeta?projectKeys="@ + project_key@
            + "&expand=projects.issuetypes.fields"@,
{
    let mut e = owned("/issue/createmeta?projectKeys=");
    e.append(project_key);
    e.append("&expand=projects.issuetypes.fields");
    e
}

/// The error for a failed metadata request: a 404 means the project does
/// not exist.
pub fn metadata_request_error(detail: &str, project_key: &str) -> (r: JiraMcpError)
    ensures
        crate::text::contains_seq(detail@, "404"@) ==> (r matches JiraMcpError::NotFound {
            resource,
            key,
        } && resource@ == "project"@ && key@ == project_key@),
        !crate::text::contains_seq(detail@, "404"@) ==> (r matches JiraMcpError::Internal {
            message,
        } && message@ == "Failed to get metadata: "@ + detail@),
{
    if str_contains(detail, "404") {
        JiraMcpError::not_found("project", project_key)
    } else {
        let mut m = owned("Failed to get metadata: ");
        m.append(detail);
        JiraMcpError::Internal { message: m }
    }
}

// ---------------------------------------------------------------------------
// Grouping fields

/// A custom field: its ID starts with "customfield_".
pub open spec fn is_custom_field(id: Seq<char>) -> bool {
    starts_with_seq(id, "customfield_"@)
}

/// The optional standard fields worth listing.
pub open spec fn is_common_optional(id: Seq<char>) -> bool {
    id == "description"@ || id == "priority"@ || id == "labels"@ || id == "components"@ || id
        == "assignee"@ || id == "duedate"@ || id == "timetracking"@
}

/// A custom field as listed: "name (id)".
pub open spec fn field_label(f: FieldEntry) -> Seq<char> {
    f.name@ + " ("@ + f.field_id@ + ")"@
}

/// The groups of the field summary.
#[derive(Debug, Clone, Copy, PartialEq, Eq, Structural)]
pub enum FieldGroup {
    RequiredStandard,
    RequiredCustom,
    OptionalStandard,
    OptionalCustom,
}

/// What a field contributes to a group: required standard fields and
/// commonly used optional standard ones by ID, custom fields by label.
pub open spec fn group_item(f: FieldEntry, g: FieldGroup) -> Option<Seq<char>> {
    let custom = is_custom_field(f.field_id@);
    match g {
        FieldGroup::RequiredStandard => if f.required && !custom {
            Some(f.field_id@)
        } else {
            None
        },
        FieldGroup::RequiredCustom => if f.required && custom {
            Some(field_label(f))
        } else {
            None
        },
        FieldGroup::OptionalStandard => if !f.required && !custom && is_common_optional(
            f.field_id@,
        ) {
            Some(f.field_id@)
        } else {
            None
        },
        FieldGroup::OptionalCustom => if !f.required && custom {
            Some(field_label(f))
        } else {
            None
        },
    }
}

/// The items of a group, in field order.
pub open spec fn group_items(fs: Seq<FieldEntry>, g: FieldGroup) -> Seq<Seq<char>>
    decreases fs.len(),
{
    if fs.len() == 0 {
        Seq::empty()
    } else {
        let r = group_items(fs.drop_last(), g);
        match group_item(fs.last(), g) {
            Some(x) => r.push(x),
            None => r,
        }
    }
}

/// The IDs of the required fields, in field order.
pub open spec fn required_ids(fs: Seq<FieldEntry>) -> Seq<Seq<char>>
    decreases fs.len(),
{
    if fs.len() == 0 {
        Seq::empty()
    } else {
        let r = required_ids(fs.drop_last());
        if fs.last().required {
            r.push(fs.last().field_id@)
        } else {
            r
        }
    }
}

fn push_item(v: &mut Vec<String>, f: &FieldEntry, g: FieldGroup)
    ensures
        views(final(v)@) == match group_item(*f, g) {
            Some(x) => views(old(v)@).push(x),
            None => views(old(v)@),
        },
{
    let custom = str_starts_with(f.field_id.as_str(), "customfield_");
    let item: Option<String> = match g {
        FieldGroup::RequiredStandard => if f.required && !custom {
            Some(f.field_id.clone())
        } else {
            None
        },
        FieldGroup::RequiredCustom => if f.required && custom {
            Some(label_of(f))
        } else {
            None
        },
        FieldGroup::OptionalStandard => if !f.required && !custom && common_optional(
            f.field_id.as_str(),
        ) {
            Some(f.field_id.clone())
        } else {
            None
        },
        FieldGroup::OptionalCustom => if !f.required && custom {
            Some(label_of(f))
        } else {
            None
        },
    };
    if let Some(x) = item {
        let ghost before = views(v@);
        v.push(x);
        assert(views(v@) =~= before.push(x@));
    }
}

fn label_of(f: &FieldEntry) -> (r: String)
    ensures
        r@ == field_label(*f),
{
    let mut s = f.name.clone();
    s.append(" (");
    s.append(f.field_id.as_str());
    s.append(")");
    s
}

fn common_optional(id: &str) -> (r: bool)
    ensures
        r == is_common_optional(id@),
{
    str_eq(id, "description") || str_eq(id, "priority") || str_eq(id, "labels") || str_eq(
        id,
        "components",
    ) || str_eq(id, "assignee") || str_eq(id, "duedate") || str_eq(id, "timetracking")
}

/// The required field IDs of an issue type and the summary of its fields.
pub fn summarize_fields(fields: &[FieldEntry]) -> (r: (Vec<String>, FieldSummary))
    ensures
        views(r.0@) == required_ids(fields@),
        views(r.1.required_standard@) == group_items(fields@, FieldGroup::RequiredStandard),
        views(r.1.required_custom@) == group_items(fields@, FieldGroup::RequiredCustom),
        views(r.1.optional_standard@) == group_items(fields@, FieldGroup::OptionalStandard),
        views(r.1.optional_custom@) == group_items(fields@, FieldGroup::OptionalCustom),
{
    let mut required: Vec<String> = Vec::new();
    let mut rs: Vec<String> = Vec::new();
    let mut rc: Vec<String> = Vec::new();
    let mut os: Vec<String> = Vec::new();
    let mut oc: Vec<String> = Vec::new();
    let mut i: usize = 0;
    while i < fields.len()
        invariant
            i <= fields@.len(),
            views(required@) == required_ids(fields@.subrange(0, i as int)),
            views(rs@) == group_items(fields@.subrange(0, i as int), FieldGroup::RequiredStandard),
            views(rc@) == group_items(fields@.subrange(0, i as int), FieldGroup::RequiredCustom),
            views(os@) == group_items(fields@.subrange(0, i as int), FieldGroup::OptionalStandard),
            views(oc@) == group_items(fields@.subrange(0, i as int), FieldGroup::OptionalCustom),
        decreases fields@.len() - i,
    {
        let f = &fields[i];
        let ghost next = fields@.subrange(0, i + 1);
        assert(next.drop_last() =~= fields@.subrange(0, i as int));
        assert(next.last() == *f);
        if f.required {
            let ghost before = views(required@);
            required.push(f.field_id.clone());
            assert(views(required@) =~= before.push(f.field_id@));
        }
        push_item(&mut rs, f, FieldGroup::RequiredStandard);
        push_item(&mut rc, f, FieldGroup::RequiredCustom);
        push_item(&mut os, f, FieldGroup::OptionalStandard);
        push_item(&mut oc, f, FieldGroup::OptionalCustom);
        i = i + 1;
    }
    assert(fields@.subrange(0, fields@.len() as int) =~= fields@);
    (
        required,
        FieldSummary {
            required_standard: rs,
            required_custom: rc,
            optional_standard: os,
            optional_custom: oc,
        },
    )
}

// ---------------------------------------------------------------------------
// Issue types and hints

/// An issue type is reported when no type is asked for, or when its name
/// is the one asked for, compared in lower case.
pub open spec fn spec_type_selected(name: Seq<char>, filter: Option<Seq<char>>) -> bool {
    match filter {
        Some(f) => lowercase(name) == lowercase(f),
        None => true,
    }
}

/// Whether an issue type is reported.
pub fn type_selected(name: &str, filter: &Option<String>) -> (r: bool)
    ensures
        r == spec_type_selected(name@, opt_view(*filter)),
{
    match filter {
        Some(f) => {
            let a = to_lowercase(name);
            let b = to_lowercase(f.as_str());
            str_eq(a.as_str(), b.as_str())
        },
        None => true,
    }
}

/// The error when the issue type asked for is not in the project.
pub fn missing_type_error(issue_type: &str, project_key: &str) -> (r: JiraMcpError)
    ensures
        invalid_param_is(
            r,
            "issue_type"@,
            "Issue type '"@ + issue_type@ + "' not found in project "@ + project_key@,
        ),
{
    let mut m = owned("Issue type '");
    m.append(issue_type);
    m.append("' not found in project ");
    m.append(project_key);
    JiraMcpError::InvalidParameter { parameter: owned("issue_type"), message: m }
}

/// The fields required by any of the reported types, each once, in the
/// order first met.
pub fn common_required_fields(per_type: &Vec<Vec<String>>) -> (r: Vec<String>)
    ensures
        views(r@) == dedup_seq(flatten_names(per_type@.map_values(|v: Vec<String>| views(v@)))),
{
    let ghost f = |v: Vec<String>| views(v@);
    let mut all: Vec<String> = Vec::new();
    let mut i: usize = 0;
    while i < per_type.len()
        invariant
            i <= per_type@.len(),
            f == (|v: Vec<String>| views(v@)),
            views(all@) == flatten_names(per_type@.subrange(0, i as int).map_values(f)),
        decreases per_type@.len() - i,
    {
        let ghost before = views(all@);
        let v = &per_type[i];
        let mut j: usize = 0;
        while j < v.len()
            invariant
                j <= v@.len(),
                views(all@) == before + views(v@).subrange(0, j as int),
            decreases v@.len() - j,
        {
            let ghost b = views(all@);
            all.push(v[j].clone());
            assert(views(all@) =~= b.push(v@[j as int]@));
            assert(views(v@).subrange(0, j + 1) =~= views(v@).subrange(0, j as int).push(
                v@[j as int]@,
            ));
            j = j + 1;
        }
        assert(views(v@).subrange(0, v@.len() as int) =~= views(v@));
        let ghost next = per_type@.subrange(0, i + 1).map_values(f);
        assert(next.drop_last() =~= per_type@.subrange(0, i as int).map_values(f));
        assert(next.last() == views(v@));
        i = i + 1;
    }
    assert(per_type@.subrange(0, per_type@.len() as int) =~= per_type@);
    dedup_strings(&all)
}

/// The usage hints of the metadata: how to create issues, the types
/// available, the fields they require when there are any, and how custom
/// fields are named.
pub open spec fn spec_usage_hints(type_names: Seq<Seq<char>>, common: Seq<Seq<char>>) -> Seq<
    Seq<char>,
> {
    seq![
        "Use create_issue tool to create issues in this project"@,
        "Available issue types: "@ + join_seq(type_names, ", "@),
    ] + (if common.len() > 0 {
        seq!["Common required fields across all types: "@ + join_seq(common, ", "@)]
    } else {
        Seq::empty()
    }) + seq![
        "For custom fields, use the field_id (e.g., 'customfield_10016') in custom_fields parameter"@,
    ]
}

/// Build the usage hints.
pub fn usage_hints(type_names: &Vec<String>, common: &Vec<String>) -> (r: Vec<String>)
    ensures
        views(r@) == spec_usage_hints(views(type_names@), views(common@)),
{
    let mut hints: Vec<String> = Vec::new();
    hints.push(owned("Use create_issue tool to create issues in this project"));
    let mut t = owned("Available issue types: ");
    let names = join(type_names, ", ");
    t.append(names.as_str());
    hints.push(t);
    if common.len() > 0 {
        let mut c = owned("Common required fields across all types: ");
        let list = join(common, ", ");
        c.append(list.as_str());
        hints.push(c);
    }
    hints.push(
        owned(
            "For custom fields, use the field_id (e.g., 'customfield_10016') in custom_fields parameter",
        ),
    );
    assert(views(hints@) =~= spec_usage_hints(views(type_names@), views(common@)));
    hints
}

/// What a metadata answer says beyond the types it lists: refused when an
/// issue type was asked for and none of the project's types matched;
/// otherwise the fields required by any listed type, each once, and the
/// usage hints over the listed type names and those fields.
pub fn metadata_summary(
    project_key: &str,
    issue_type: &Option<String>,
    type_names: &Vec<String>,
    per_type_required: &Vec<Vec<String>>,
) -> (r: JiraMcpResult<(Vec<String>, Vec<String>)>)
    ensures
        type_names@.len() == 0 && issue_type is Some ==> (r matches Err(e) && invalid_param_is(
            e,
            "issue_type"@,
            "Issue type '"@ + issue_type->0@ + "' not found in project "@ + project_key@,
        )),
        !(type_names@.len() == 0 && issue_type is Some) ==> (r matches Ok((common, hints))
            && views(common@) == dedup_seq(
            flatten_names(per_type_required@.map_values(|v: Vec<String>| views(v@))),
        ) && views(hints@) == spec_usage_hints(views(type_names@), views(common@))),
{
    if type_names.len() == 0 {
        if let Some(wanted) = issue_type {
            return Err(missing_type_error(wanted.as_str(), project_key));
        }
    }
    let common = common_required_fields(per_type_required);
    let hints = usage_hints(type_names, &common);
    Ok((common, hints))
}

/// The positions of the selected types, in order.
pub open spec fn selected_positions(names: Seq<Seq<char>>, filter: Option<Seq<char>>) -> Seq<int>
    decreases names.len(),
{
    if names.len() == 0 {
        Seq::empty()
    } else {
        let rest = selected_positions(names.drop_last(), filter);
        if spec_type_selected(names.last(), filter) {
            rest.push(names.len() - 1)
        } else {
            rest
        }
    }
}

/// The issue types reported, by their position in the project's list: all
/// of them when no type is asked for, else those whose name is the one
/// asked for, ignoring case.
pub fn selected_types(names: &Vec<String>, filter: &Option<String>) -> (r: Vec<usize>)
    ensures
        r@.len() == selected_positions(views(names@), opt_view(*filter)).len(),
        forall|i: int|
            0 <= i < r@.len() ==> r@[i] as int == #[trigger] selected_positions(
                views(names@),
                opt_view(*filter),
            )[i],
{
    let ghost all = views(names@);
    let mut out: Vec<usize> = Vec::new();
    let mut i: usize = 0;
    while i < names.len()
        invariant
            i <= names@.len(),
            all == views(names@),
            out@.len() == selected_positions(all.subrange(0, i as int), opt_view(*filter)).len(),
            forall|j: int|
                0 <= j < out@.len() ==> out@[j] as int == #[trigger] selected_positions(
                    all.subrange(0, i as int),
                    opt_view(*filter),
                )[j],
        decreases names@.len() - i,
    {
        let ghost before = all.subrange(0, i as int);
        let ghost next = all.subrange(0, i + 1);
        assert(next.drop_last() =~= before);
        assert(next.last() == names@[i as int]@);
        if type_selected(names[i].as_str(), filter) {
            out.push(i);
        }
        i = i + 1;
    }
    assert(all.subrange(0, names@.len() as int) =~= all);
    out
}

} // verus!
