//! The shapes in which JIRA data is handed to the tools, and the decisions
//! of the JIRA client that do not need the network: paging, request
//! endpoints, how failures are classified and how records are filled in
//! where JIRA leaves fields out.

use crate::error::{is_client_error, ClientErrorKind, JiraMcpError};
use crate::semantic_mapping::{opt_names, quoted_all, quoted_list};
use crate::text::{
    chars_of, decimal_seq, decimal_string, has_char, join, join_seq, opt_view, str_contains,
    views,
};
use vstd::prelude::*;

verus! {

/// Search result wrapper with pagination info
#[derive(Debug, Clone)]
pub struct SearchResult {
    pub issues: Vec<IssueInfo>,
    pub total: usize,
    pub start_at: usize,
    pub max_results: usize,
    pub is_last: bool,
}

/// Simplified issue information for search results
#[derive(Debug, Clone)]
pub struct IssueInfo {
    pub key: String,
    pub id: String,
    pub summary: String,
    pub description: Option<String>,
    pub issue_type: String,
    pub status: String,
    pub priority: Option<String>,
    pub assignee: Option<String>,
    pub reporter: Option<String>,
    pub created: String,
    pub updated: String,
    pub project_key: String,
    pub project_name: String,
    pub labels: Vec<String>,
    pub components: Vec<String>,
}

/// Detailed issue information
#[derive(Debug, Clone)]
pub struct IssueDetails {
    pub issue_info: IssueInfo,
    pub comments: Option<Vec<CommentInfo>>,
    pub attachments: Option<Vec<AttachmentInfo>>,
    pub history: Option<Vec<HistoryEntry>>,
    pub subtasks: Vec<IssueInfo>,
    pub parent: Option<IssueInfo>,
    pub linked_issues: Vec<LinkedIssue>,
}

/// Comment information
#[derive(Debug, Clone)]
pub struct CommentInfo {
    pub id: String,
    pub author: String,
    pub body: String,
    pub created: String,
    pub updated: String,
}

/// Attachment information
#[derive(Debug, Clone)]
pub struct AttachmentInfo {
    pub id: String,
    pub filename: String,
    pub author: String,
    pub created: String,
    pub size: u64,
    pub mime_type: String,
}

/// History entry for issue changes
#[derive(Debug, Clone)]
pub struct HistoryEntry {
    pub id: String,
    pub author: String,
    pub created: String,
    pub items: Vec<HistoryItem>,
}

/// Individual history item
#[derive(Debug, Clone)]
pub struct HistoryItem {
    pub field: String,
    pub field_type: String,
    pub from: Option<String>,
    pub from_string: Option<String>,
    pub to: Option<String>,
    pub to_string: Option<String>,
}

/// Linked issue information
#[derive(Debug, Clone)]
pub struct LinkedIssue {
    pub key: String,
    pub summary: String,
    pub status: String,
    pub link_type: String,
    /// "inward" or "outward"
    pub direction: String,
}

/// A worklog entry as JIRA recorded it
#[derive(Debug, Clone)]
pub struct WorklogInfo {
    /// Worklog ID
    pub id: String,
    /// The issue the time was logged on
    pub issue_key: String,
    /// Seconds logged
    pub time_spent_seconds: u64,
    /// When the work started
    pub started: String,
    /// Comment of the entry
    pub comment: Option<String>,
}

/// User information
#[derive(Debug, Clone)]
pub struct UserInfo {
    pub account_id: String,
    pub display_name: String,
    pub email_address: Option<String>,
    pub active: bool,
}

fn owned(s: &str) -> (r: String)
    ensures
        r@ == s@,
{
    s.to_owned()
}

// ---------------------------------------------------------------------------
// Paging

/// The largest page the JIRA API serves.
pub const MAX_PAGE_SIZE: usize = 200;

/// The offset and page size of a search: offset 0 and the configured page
/// size by default, the page size capped at 200.
pub fn search_window(start_at: Option<usize>, max_results: Option<usize>, default_max: u32) -> (r:
    (usize, usize))
    ensures
        r.0 == match start_at {
            Some(s) => s,
            None => 0,
        },
        ({
            let m: int = match max_results {
                Some(m) => m as int,
                None => default_max as int,
            };
            r.1 == if m < 200 {
                m
            } else {
                200
            }
        }),
{
    let start = match start_at {
        Some(s) => s,
        None => 0,
    };
    let wanted: u64 = match max_results {
        Some(m) => m as u64,
        None => default_max as u64,
    };
    let max: usize = if wanted < 200 {
        wanted as usize
    } else {
        MAX_PAGE_SIZE
    };
    (start, max)
}

/// Whether a page asked for at `start` with size `max` reaches the end of
/// `total` results.
pub fn is_last_page(start: usize, max: usize, total: usize) -> (r: bool)
    ensures
        r == (start + max >= total),
{
    start as u128 + max as u128 >= total as u128
}

/// The search result for the issues of one page, as JIRA reported the
/// total and the page it served, for a request at `start` of size `max`.
pub fn search_result(
    issues: Vec<IssueInfo>,
    total: usize,
    served_start: usize,
    served_max: usize,
    start: usize,
    max: usize,
) -> (r: SearchResult)
    ensures
        r.issues@ == issues@,
        r.total == total,
        r.start_at == served_start,
        r.max_results == served_max,
        r.is_last == (start + max >= total),
{
    let is_last = is_last_page(start, max, total);
    SearchResult { issues, total, start_at: served_start, max_results: served_max, is_last }
}

// ---------------------------------------------------------------------------
// Requests

/// The REST endpoint that reads an issue with its comments and changelog
/// expanded, when either is asked for.
pub open spec fn spec_issue_endpoint(
    issue_key: Seq<char>,
    include_comments: bool,
    include_history: bool,
) -> Option<Seq<char>> {
    if !include_comments && !include_history {
        None
    } else {
        let expand = if include_comments && include_history {
            "comment,changelog"@
        } else if include_comments {
            "comment"@
        } else {
            "changelog"@
        };
        Some("/issue/"@ + issue_key + "?expand="@ + expand)
    }
}

/// The endpoint for reading an issue with expansions, or `None` when the
/// plain issue read serves.
pub fn issue_endpoint(issue_key: &str, include_comments: bool, include_history: bool) -> (r:
    Option<String>)
    ensures
        opt_view(r) == spec_issue_endpoint(issue_key@, include_comments, include_history),
{
    if !include_comments && !include_history {
        return None;
    }
    let mut e = owned("/issue/");
    e.append(issue_key);
    e.append("?expand=");
    if include_comments && include_history {
        e.append("comment,changelog");
    } else if include_comments {
        e.append("comment");
    } else {
        e.append("changelog");
    }
    Some(e)
}

// ---------------------------------------------------------------------------
// Failures

/// A failure reading an issue: one that says 404 or Not Found means the
/// issue does not exist; any other is classified by its kind.
pub open spec fn spec_issue_read_error(
    kind: ClientErrorKind,
    detail: Seq<char>,
    issue_key: Seq<char>,
    e: JiraMcpError,
) -> bool {
    if crate::text::contains_seq(detail, "404"@) || crate::text::contains_seq(detail, "Not Found"@) {
        e matches JiraMcpError::NotFound { resource, key } && resource@ == "issue"@ && key@
            == issue_key
    } else {
        is_client_error(e, kind, detail)
    }
}

/// The error for a failure of the client while reading an issue.
pub fn issue_read_error(kind: ClientErrorKind, detail: &str, issue_key: &str) -> (r: JiraMcpError)
    ensures
        spec_issue_read_error(kind, detail@, issue_key@, r),
{
    if str_contains(detail, "404") || str_contains(detail, "Not Found") {
        JiraMcpError::not_found("issue", issue_key)
    } else {
        JiraMcpError::from_client_error(kind, detail)
    }
}

/// The error for a failure of the client while adding a comment: as for
/// reading an issue, and one that says 403 or Forbidden is a refused
/// permission.
pub fn comment_error(kind: ClientErrorKind, detail: &str, issue_key: &str) -> (r: JiraMcpError)
    ensures
        crate::text::contains_seq(detail@, "404"@) || crate::text::contains_seq(detail@, "Not Found"@)
            ==> spec_issue_read_error(kind, detail@, issue_key@, r),
        !(crate::text::contains_seq(detail@, "404"@) || crate::text::contains_seq(
            detail@,
            "Not Found"@,
        )) ==> if crate::text::contains_seq(detail@, "403"@) || crate::text::contains_seq(
            detail@,
            "Forbidden"@,
        ) {
            r matches JiraMcpError::Permission { message } && message@
                == "Permission denied adding comment to issue "@ + issue_key@
        } else {
            is_client_error(r, kind, detail@)
        },
{
    if str_contains(detail, "404") || str_contains(detail, "Not Found") {
        JiraMcpError::not_found("issue", issue_key)
    } else if str_contains(detail, "403") || str_contains(detail, "Forbidden") {
        let mut m = owned("Permission denied adding comment to issue ");
        m.append(issue_key);
        JiraMcpError::Permission { message: m }
    } else {
        JiraMcpError::from_client_error(kind, detail)
    }
}

// ---------------------------------------------------------------------------
// Records

/// The time stamp put in place of one that JIRA left out.
pub open spec fn epoch_text() -> Seq<char> {
    "1970-01-01T00:00:00.000Z"@
}

/// A comment as the tools see it: a missing ID becomes "comment-" and the
/// current time in seconds, a missing author "Unknown", a missing time
/// the epoch.
pub fn comment_info(
    id: Option<String>,
    author: Option<String>,
    body: String,
    created: Option<String>,
    updated: Option<String>,
    now_seconds: u64,
) -> (r: CommentInfo)
    ensures
        r.id@ == match id {
            Some(i) => i@,
            None => "comment-"@ + decimal_seq(now_seconds as nat),
        },
        r.author@ == match author {
            Some(a) => a@,
            None => "Unknown"@,
        },
        r.body@ == body@,
        r.created@ == match created {
            Some(c) => c@,
            None => epoch_text(),
        },
        r.updated@ == match updated {
            Some(u) => u@,
            None => epoch_text(),
        },
{
    let id = match id {
        Some(i) => i,
        None => {
            let mut s = owned("comment-");
            let n = decimal_string(now_seconds);
            s.append(n.as_str());
            s
        },
    };
    let author = match author {
        Some(a) => a,
        None => owned("Unknown"),
    };
    let created = match created {
        Some(c) => c,
        None => owned("1970-01-01T00:00:00.000Z"),
    };
    let updated = match updated {
        Some(u) => u,
        None => owned("1970-01-01T00:00:00.000Z"),
    };
    CommentInfo { id, author, body, created, updated }
}

/// The text without the characters ':', '.' and '-'.
pub open spec fn strip_stamp(s: Seq<char>) -> Seq<char> {
    s.filter(|c: char| c != ':' && c != '.' && c != '-')
}

/// The ID of a history entry: "history-", the time stamp without ':', '.'
/// and '-', '-', and the author's name or "unknown".
pub open spec fn spec_history_id(created: Seq<char>, author_name: Option<Seq<char>>) -> Seq<char> {
    "history-"@ + strip_stamp(created) + "-"@ + match author_name {
        Some(n) => n,
        None => "unknown"@,
    }
}

/// Build the ID of a history entry.
pub fn history_entry_id(created: &str, author_name: Option<&str>) -> (r: String)
    ensures
        r@ == spec_history_id(
            created@,
            match author_name {
                Some(n) => Some(n@),
                None => None,
            },
        ),
{
    let cs = chars_of(created);
    let ghost keep = |c: char| c != ':' && c != '.' && c != '-';
    let mut out = owned("history-");
    let ghost start = out@;
    let mut i: usize = 0;
    while i < cs.len()
        invariant
            i <= cs@.len(),
            cs@ == created@,
            start == "history-"@,
            keep == (|c: char| c != ':' && c != '.' && c != '-'),
            out@ == start + cs@.subrange(0, i as int).filter(keep),
        decreases cs@.len() - i,
    {
        let c = cs[i];
        let ghost pre = cs@.subrange(0, i as int);
        assert(cs@.subrange(0, i + 1).drop_last() =~= pre);
        reveal_with_fuel(Seq::<char>::filter, 1);
        if c != ':' && c != '.' && c != '-' {
            crate::text::push_char(&mut out, c);
        }
        i = i + 1;
    }
    assert(cs@.subrange(0, cs@.len() as int) =~= cs@);
    out.append("-");
    match author_name {
        Some(n) => out.append(n),
        None => out.append("unknown"),
    }
    out
}

/// One change of a history entry; JIRA gives no field type, so it is
/// "custom".
pub fn history_item(
    field: String,
    from: Option<String>,
    from_string: Option<String>,
    to: Option<String>,
    to_string: Option<String>,
) -> (r: HistoryItem)
    ensures
        r.field@ == field@,
        r.field_type@ == "custom"@,
        opt_view(r.from) == opt_view(from),
        opt_view(r.from_string) == opt_view(from_string),
        opt_view(r.to) == opt_view(to),
        opt_view(r.to_string) == opt_view(to_string),
{
    HistoryItem { field, field_type: owned("custom"), from, from_string, to, to_string }
}

/// One end of an issue link: the issue key, its summary and status when
/// JIRA gave them.
pub type LinkEnd = (String, Option<String>, Option<String>);

/// The linked issue a link shows: its outward issue when it has one, else
/// its inward issue; a missing summary is empty and a missing status
/// "Unknown".
pub fn linked_issue(
    outward_name: &str,
    inward_name: &str,
    outward: Option<LinkEnd>,
    inward: Option<LinkEnd>,
) -> (r: Option<LinkedIssue>)
    ensures
        match (outward, inward) {
            (Some(o), _) => r matches Some(l) && l.key@ == o.0@ && l.summary@ == match o.1 {
                Some(s) => s@,
                None => Seq::<char>::empty(),
            } && l.status@ == match o.2 {
                Some(s) => s@,
                None => "Unknown"@,
            } && l.link_type@ == outward_name@ && l.direction@ == "outward"@,
            (None, Some(i)) => r matches Some(l) && l.key@ == i.0@ && l.summary@ == match i.1 {
                Some(s) => s@,
                None => Seq::<char>::empty(),
            } && l.status@ == match i.2 {
                Some(s) => s@,
                None => "Unknown"@,
            } && l.link_type@ == inward_name@ && l.direction@ == "inward"@,
            (None, None) => r is None,
        },
{
    let (end, name, direction) = match (outward, inward) {
        (Some(o), _) => (o, outward_name, "outward"),
        (None, Some(i)) => (i, inward_name, "inward"),
        (None, None) => {
            return None;
        },
    };
    let (key, summary, status) = end;
    let summary = match summary {
        Some(s) => s,
        None => String::new(),
    };
    let status = match status {
        Some(s) => s,
        None => owned("Unknown"),
    };
    Some(
        LinkedIssue {
            key,
            summary,
            status,
            link_type: owned(name),
            direction: owned(direction),
        },
    )
}

/// The user a session or an identifier stands for: the name serves as
/// account ID and display name, with no e-mail, and the user is active.
pub fn user_info_for(name: &str) -> (r: UserInfo)
    ensures
        r.account_id@ == name@,
        r.display_name@ == name@,
        r.email_address is None,
        r.active,
{
    UserInfo { account_id: owned(name), display_name: owned(name), email_address: None, active: true }
}

// ---------------------------------------------------------------------------
// Queries

/// The conditions of the query for a user's issues.
pub open spec fn user_issues_parts(
    account_id: Seq<char>,
    statuses: Option<Seq<Seq<char>>>,
    types: Option<Seq<Seq<char>>>,
) -> Seq<Seq<char>> {
    let status_part = match statuses {
        Some(s) => if s.len() > 0 {
            seq!["status IN ("@ + join_seq(quoted_all(s), ", "@) + ")"@]
        } else {
            Seq::empty()
        },
        None => Seq::empty(),
    };
    let type_part = match types {
        Some(t) => if t.len() > 0 {
            seq!["issuetype IN ("@ + join_seq(quoted_all(t), ", "@) + ")"@]
        } else {
            Seq::empty()
        },
        None => Seq::empty(),
    };
    seq!["assignee = \""@ + account_id + "\""@] + status_part + type_part
}

/// Build a JQL query for user-assigned issues: the conditions joined with
/// " AND ", then the sort order after a space.
pub fn build_user_issues_jql(
    account_id: &str,
    status_filter: Option<&[String]>,
    issue_types: Option<&[String]>,
) -> (r: String)
    ensures
        r@ == join_seq(
            user_issues_parts(account_id@, opt_names(status_filter), opt_names(issue_types)),
            " AND "@,
        ) + " ORDER BY updated DESC"@,
{
    let mut parts: Vec<String> = Vec::new();
    let mut a = owned("assignee = \"");
    a.append(account_id);
    a.append("\"");
    parts.push(a);
    let ghost p1 = views(parts@);
    if let Some(st) = status_filter {
        if st.len() > 0 {
            let list = quoted_list(st);
            let mut c = owned("status IN (");
            c.append(list.as_str());
            c.append(")");
            parts.push(c);
        }
    }
    if let Some(ts) = issue_types {
        if ts.len() > 0 {
            let list = quoted_list(ts);
            let mut c = owned("issuetype IN (");
            c.append(list.as_str());
            c.append(")");
            parts.push(c);
        }
    }
    assert(views(parts@) =~= user_issues_parts(
        account_id@,
        opt_names(status_filter),
        opt_names(issue_types),
    ));
    let mut jql = join(&parts, " AND ");
    jql.append(" ORDER BY updated DESC");
    jql
}

} // verus!
