//! The create_issue tool: the project and issue type a new issue gets,
//! its description with the initial todos, who it is assigned to, how
//! refusals from JIRA are read, and the answer.

use crate::error::{JiraMcpError, JiraMcpResult};
use crate::text::{
    chars_of, contains_seq, index_of_char, join, join_seq, lowercase, opt_view, str_contains,
    str_eq, string_from_chars, to_lowercase, trim_bounds, trim_start_seq, views,
};
use crate::tools::issue_details::first_segment;
use crate::tools::validation::invalid_param_is;
use vstd::prelude::*;

verus! {

/// Result from creating an issue
#[derive(Debug, Clone)]
pub struct CreateIssueResult {
    /// The created issue key (e.g., "PROJ-456")
    pub issue_key: String,
    /// The issue ID
    pub issue_id: String,
    /// Direct URL to the issue
    pub issue_url: String,
    /// Summary of what was created
    pub summary: String,
    /// Issue type that was created
    pub issue_type: String,
    /// Project key
    pub project_key: String,
    /// Success message
    pub message: String,
}

fn owned(s: &str) -> (r: String)
    ensures
        r@ == s@,
{
    s.to_owned()
}

/// The project of a new issue: the one given, else that of the parent
/// issue (the text of its key before the first '-').
pub fn create_project_key(project_key: Option<String>, parent_issue_key: &Option<String>) -> (r:
    JiraMcpResult<String>)
    ensures
        match project_key {
            Some(k) => r matches Ok(x) && x@ == k@,
            None => match parent_issue_key {
                Some(p) => r matches Ok(x) && x@ == first_segment(p@),
                None => r matches Err(e) && invalid_param_is(
                    e,
                    "project_key"@,
                    "Either project_key or parent_issue_key must be provided"@,
                ),
            },
        },
{
    match project_key {
        Some(k) => Ok(k),
        None => match parent_issue_key {
            Some(p) => {
                let cs = chars_of(p.as_str());
                let seg = match crate::text::find_char(cs.as_slice(), '-') {
                    Some(k) => crate::text::string_from_range(cs.as_slice(), 0, k),
                    None => string_from_chars(cs.as_slice()),
                };
                Ok(seg)
            },
            None => Err(
                JiraMcpError::invalid_param(
                    "project_key",
                    "Either project_key or parent_issue_key must be provided",
                ),
            ),
        },
    }
}

/// The issue type of a new issue: "Subtask" under a parent, else the type
/// given, else "Task".
pub fn create_issue_type(has_parent: bool, issue_type: Option<String>) -> (r: String)
    ensures
        r@ == if has_parent {
            "Subtask"@
        } else {
            match issue_type {
                Some(t) => t@,
                None => "Task"@,
            }
        },
{
    if has_parent {
        owned("Subtask")
    } else {
        match issue_type {
            Some(t) => t,
            None => owned("Task"),
        }
    }
}

/// The task section of a description: a "## Tasks" heading and one
/// unchecked checkbox per todo.
pub open spec fn todo_section(todos: Seq<Seq<char>>) -> Seq<char> {
    "\n\n## Tasks\n\n"@ + join_seq(todos.map_values(|t: Seq<char>| "- [ ] "@ + t), "\n"@)
}

/// The description of a new issue: with initial todos, the description
/// followed by their task section (the section alone, without its
/// leading line breaks, when there is no description); without, the
/// description or nothing.
pub open spec fn spec_create_description(description: Option<Seq<char>>, todos: Seq<Seq<char>>) -> Seq<
    char,
> {
    if todos.len() > 0 {
        match description {
            Some(d) => d + todo_section(todos),
            None => trim_start_seq(todo_section(todos)),
        }
    } else {
        match description {
            Some(d) => d,
            None => Seq::empty(),
        }
    }
}

/// Build the description of a new issue.
pub fn create_description(description: Option<String>, initial_todos: &Vec<String>) -> (r: String)
    ensures
        r@ == spec_create_description(opt_view(description), views(initial_todos@)),
{
    if initial_todos.len() == 0 {
        return match description {
            Some(d) => d,
            None => String::new(),
        };
    }
    let ghost f = |t: Seq<char>| "- [ ] "@ + t;
    let mut lines: Vec<String> = Vec::new();
    let mut i: usize = 0;
    while i < initial_todos.len()
        invariant
            i <= initial_todos@.len(),
            f == (|t: Seq<char>| "- [ ] "@ + t),
            views(lines@) == views(initial_todos@).subrange(0, i as int).map_values(f),
        decreases initial_todos@.len() - i,
    {
        let mut l = owned("- [ ] ");
        l.append(initial_todos[i].as_str());
        let ghost before = views(lines@);
        lines.push(l);
        assert(views(lines@) =~= before.push(l@));
        assert(views(initial_todos@).subrange(0, i + 1).map_values(f) =~= views(initial_todos@).subrange(
            0,
            i as int,
        ).map_values(f).push(f(initial_todos@[i as int]@)));
        i = i + 1;
    }
    assert(views(initial_todos@).subrange(0, initial_todos@.len() as int) =~= views(
        initial_todos@,
    ));
    let mut section = owned("\n\n## Tasks\n\n");
    let body = join(&lines, "\n");
    section.append(body.as_str());
    match description {
        Some(mut d) => {
            d.append(section.as_str());
            d
        },
        None => {
            let cs = chars_of(section.as_str());
            let (a, _b) = trim_bounds(cs.as_slice());
            crate::text::string_from_range(cs.as_slice(), a, cs.len())
        },
    }
}

/// Who a new issue is assigned to.
#[derive(Debug, Clone)]
pub enum AssigneeChoice {
    /// The authenticated user ("me" or "self")
    CurrentUser,
    /// The account given
    Account(String),
    /// Nobody
    Unassigned,
}

/// The assignee asked for: the current user when `assign_to_me` is set or
/// the assignee is "me" or "self", else the assignee given, else nobody.
pub fn assignee_choice(assign_to_me: bool, assignee: &Option<String>) -> (r: AssigneeChoice)
    ensures
        assign_to_me ==> r is CurrentUser,
        !assign_to_me ==> match assignee {
            Some(a) => if a@ == "me"@ || a@ == "self"@ {
                r is CurrentUser
            } else {
                r matches AssigneeChoice::Account(x) && x@ == a@
            },
            None => r is Unassigned,
        },
{
    if assign_to_me {
        return AssigneeChoice::CurrentUser;
    }
    match assignee {
        Some(a) => if str_eq(a.as_str(), "me") || str_eq(a.as_str(), "self") {
            AssigneeChoice::CurrentUser
        } else {
            AssigneeChoice::Account(a.clone())
        },
        None => AssigneeChoice::Unassigned,
    }
}

/// Whether a convenience value may fill a custom field: only when the
/// custom fields given do not set it already.
pub fn fills_custom_field(custom_field_ids: &Vec<String>, field_id: &str) -> (r: bool)
    ensures
        r == !views(custom_field_ids@).contains(field_id@),
{
    let mut i: usize = 0;
    while i < custom_field_ids.len()
        invariant
            i <= custom_field_ids@.len(),
            forall|j: int| 0 <= j < i ==> custom_field_ids@[j]@ != field_id@,
        decreases custom_field_ids@.len() - i,
    {
        if str_eq(custom_field_ids[i].as_str(), field_id) {
            assert(views(custom_field_ids@)[i as int] == field_id@);
            return false;
        }
        i = i + 1;
    }
    proof {
        if views(custom_field_ids@).contains(field_id@) {
            let k = choose|k: int|
                0 <= k < views(custom_field_ids@).len() && views(custom_field_ids@)[k]
                    == field_id@;
            assert(custom_field_ids@[k]@ == field_id@);
        }
    }
    true
}

/// The error for a refused creation: a missing or unknown project, an
/// invalid issue type, or anything else.
pub fn create_error(detail: &str, project_key: &str, issue_type: &str) -> (r: JiraMcpError)
    ensures
        contains_seq(detail@, "project is required"@) || contains_seq(
            detail@,
            "project does not exist"@,
        ) ==> invalid_param_is(r, "project_key"@, "Invalid project: "@ + project_key@),
        !(contains_seq(detail@, "project is required"@) || contains_seq(
            detail@,
            "project does not exist"@,
        )) && contains_seq(detail@, "valid issue type"@) ==> invalid_param_is(
            r,
            "issue_type"@,
            "Invalid issue type: "@ + issue_type@,
        ),
        !(contains_seq(detail@, "project is required"@) || contains_seq(
            detail@,
            "project does not exist"@,
        )) && !contains_seq(detail@, "valid issue type"@) ==> (r matches JiraMcpError::Internal {
            message,
        } && message@ == "Failed to create issue: "@ + detail@),
{
    if str_contains(detail, "project is required") || str_contains(detail, "project does not exist") {
        let mut m = owned("Invalid project: ");
        m.append(project_key);
        JiraMcpError::InvalidParameter { parameter: owned("project_key"), message: m }
    } else if str_contains(detail, "valid issue type") {
        let mut m = owned("Invalid issue type: ");
        m.append(issue_type);
        JiraMcpError::InvalidParameter { parameter: owned("issue_type"), message: m }
    } else {
        let mut m = owned("Failed to create issue: ");
        m.append(detail);
        JiraMcpError::Internal { message: m }
    }
}

/// The answer for a created issue: its URL is the server's "/browse/" page
/// of the key.
pub fn create_result(
    issue_key: String,
    issue_id: String,
    base_url: &str,
    summary: String,
    issue_type: String,
    project_key: String,
) -> (r: CreateIssueResult)
    ensures
        r.issue_key@ == issue_key@,
        r.issue_id@ == issue_id@,
        r.issue_url@ == base_url@ + "/browse/"@ + issue_key@,
        r.summary@ == summary@,
        r.issue_type@ == issue_type@,
        r.project_key@ == project_key@,
        r.message@ == "Successfully created "@ + lowercase(issue_type@) + " '"@ + summary@
            + "' in project "@ + project_key@ + ". View at: "@ + r.issue_url@,
{
    let mut url = owned(base_url);
    url.append("/browse/");
    url.append(issue_key.as_str());
    let mut m = owned("Successfully created ");
    let lower = to_lowercase(issue_type.as_str());
    m.append(lower.as_str());
    m.append(" '");
    m.append(summary.as_str());
    m.append("' in project ");
    m.append(project_key.as_str());
    m.append(". View at: ");
    m.append(url.as_str());
    CreateIssueResult {
        issue_key,
        issue_id,
        issue_url: url,
        summary,
        issue_type,
        project_key,
        message: m,
    }
}

/// The standard fields of the request that creates an issue, and which
/// convenience values go into their custom fields. Custom field values
/// are sent as they are given, after these.
#[derive(Debug, Clone)]
pub struct CreateIssueFields {
    /// The project, by key
    pub project_key: String,
    /// The summary
    pub summary: String,
    /// The issue type, by name
    pub issue_type: String,
    /// The description, when it is not empty
    pub description: Option<String>,
    /// The priority, by name
    pub priority: Option<String>,
    /// The assignee, by account ID
    pub assignee_account_id: Option<String>,
    /// The labels, when there are any
    pub labels: Option<Vec<String>>,
    /// The components, by name, when there are any
    pub components: Option<Vec<String>>,
    /// The parent issue, by key
    pub parent_key: Option<String>,
    /// Whether the story points go into `customfield_10016`
    pub story_points_field: bool,
    /// Whether the epic link goes into `customfield_10014`
    pub epic_link_field: bool,
}

/// A list when it is not empty.
pub open spec fn non_empty_list(v: Vec<String>) -> Option<Seq<Seq<char>>> {
    if v@.len() > 0 {
        Some(views(v@))
    } else {
        None
    }
}

fn some_if_any(v: Vec<String>) -> (r: Option<Vec<String>>)
    ensures
        match r {
            Some(x) => non_empty_list(v) == Some(views(x@)),
            None => non_empty_list(v) is None,
        },
{
    if v.len() > 0 {
        Some(v)
    } else {
        None
    }
}

/// The fields of the request that creates an issue: project, summary and
/// type always; the description only when it is not empty; priority,
/// assignee and parent when given; labels and components only when there
/// are any; story points and epic link into their custom fields only when
/// they are given and the custom fields given do not set those fields.
pub fn create_fields(
    project_key: String,
    summary: String,
    issue_type: String,
    description: String,
    priority: Option<String>,
    assignee_account_id: Option<String>,
    labels: Vec<String>,
    components: Vec<String>,
    parent_key: Option<String>,
    custom_field_ids: &Vec<String>,
    has_story_points: bool,
    has_epic_link: bool,
) -> (r: CreateIssueFields)
    ensures
        r.project_key@ == project_key@,
        r.summary@ == summary@,
        r.issue_type@ == issue_type@,
        opt_view(r.description) == if description@.len() > 0 {
            Some(description@)
        } else {
            None
        },
        opt_view(r.priority) == opt_view(priority),
        opt_view(r.assignee_account_id) == opt_view(assignee_account_id),
        match r.labels {
            Some(x) => non_empty_list(labels) == Some(views(x@)),
            None => non_empty_list(labels) is None,
        },
        match r.components {
            Some(x) => non_empty_list(components) == Some(views(x@)),
            None => non_empty_list(components) is None,
        },
        opt_view(r.parent_key) == opt_view(parent_key),
        r.story_points_field == (has_story_points && !views(custom_field_ids@).contains(
            "customfield_10016"@,
        )),
        r.epic_link_field == (has_epic_link && !views(custom_field_ids@).contains(
            "customfield_10014"@,
        )),
{
    let description = if description.as_str().unicode_len() > 0 {
        Some(description)
    } else {
        None
    };
    let story_points_field = has_story_points && fills_custom_field(
        custom_field_ids,
        "customfield_10016",
    );
    let epic_link_field = has_epic_link && fills_custom_field(custom_field_ids, "customfield_10014");
    CreateIssueFields {
        project_key,
        summary,
        issue_type,
        description,
        priority,
        assignee_account_id,
        labels: some_if_any(labels),
        components: some_if_any(components),
        parent_key,
        story_points_field,
        epic_link_field,
    }
}

} // verus!
