//! The sprint tools: paging and filtering sprints, the checks before a
//! sprint is created, started or closed, which issues a closing sprint
//! hands on, and the answers.

use crate::clock::utc_now_unix_nanos;
use crate::error::{JiraMcpError, JiraMcpResult};
use crate::jira_client::{IssueInfo, SearchResult};
use crate::text::{
    contains_seq, decimal_seq, decimal_string, is_blank, is_blank_seq, lowercase, opt_view,
    str_contains, str_eq, to_lowercase, views,
};
use crate::tools::validation::invalid_param_is;
use vstd::prelude::*;

verus! {

/// Parameters for listing sprints
#[derive(Debug, Clone)]
pub struct ListSprintsParams {
    /// Board ID to list sprints from
    pub board_id: u64,
    /// Filter by sprint state ("future", "active", "closed")
    pub state: Option<String>,
    /// Maximum number of sprints to return (default: 50, max: 100)
    pub limit: Option<u32>,
    /// Starting index for pagination (default: 0)
    pub start_at: Option<u32>,
}

/// Result of listing sprints
#[derive(Debug, Clone)]
pub struct ListSprintsResult {
    /// List of sprints
    pub sprints: Vec<SprintInfo>,
    /// Total number of sprints returned
    pub total: usize,
    /// Starting index used
    pub start_at: u32,
    /// Whether there are more results
    pub has_more: bool,
    /// Board ID
    pub board_id: u64,
}

/// Parameters for getting sprint info
#[derive(Debug, Clone)]
pub struct GetSprintInfoParams {
    /// Sprint ID
    pub sprint_id: u64,
}

/// Result of getting sprint info
#[derive(Debug, Clone)]
pub struct GetSprintInfoResult {
    /// Sprint information
    pub sprint: SprintInfo,
}

/// Parameters for getting sprint issues
#[derive(Debug, Clone)]
pub struct GetSprintIssuesParams {
    /// Sprint ID
    pub sprint_id: u64,
    /// Maximum number of issues to return (default: 50, max: 200)
    pub limit: Option<u32>,
    /// Starting index for pagination (default: 0)
    pub start_at: Option<u32>,
}

/// Result of getting sprint issues
#[derive(Debug, Clone)]
pub struct GetSprintIssuesResult {
    /// Issues in the sprint
    pub search_result: SearchResult,
    /// Sprint information
    pub sprint: SprintInfo,
}

/// Parameters for moving issues to a sprint
#[derive(Debug, Clone)]
pub struct MoveToSprintParams {
    /// Target sprint ID
    pub sprint_id: u64,
    /// Issue keys to move
    pub issue_keys: Vec<String>,
}

/// Result of moving issues to a sprint
#[derive(Debug, Clone)]
pub struct MoveToSprintResult {
    /// Whether the operation was successful
    pub success: bool,
    /// Sprint ID
    pub sprint_id: u64,
    /// Sprint name
    pub sprint_name: String,
    /// Number of issues moved
    pub issues_moved: usize,
    /// Issue keys that were moved
    pub issue_keys: Vec<String>,
    /// Message
    pub message: String,
}

/// Sprint information
#[derive(Debug, Clone)]
pub struct SprintInfo {
    /// Sprint ID
    pub id: u64,
    /// Sprint name
    pub name: String,
    /// Sprint state ("future", "active", "closed")
    pub state: Option<String>,
    /// Sprint start date
    pub start_date: Option<String>,
    /// Sprint end date
    pub end_date: Option<String>,
    /// Sprint completion date
    pub complete_date: Option<String>,
    /// Board ID that owns this sprint
    pub origin_board_id: Option<u64>,
    /// Direct link to the sprint
    pub self_link: String,
}

/// Parameters for the create_sprint tool
#[derive(Debug, Clone)]
pub struct CreateSprintParams {
    /// Board ID where the sprint will be created
    pub board_id: u64,
    /// Sprint name
    pub name: String,
    /// Start date (ISO 8601), optional
    pub start_date: Option<String>,
    /// End date (ISO 8601), optional
    pub end_date: Option<String>,
    /// Sprint goal, optional
    pub goal: Option<String>,
}

/// Result of creating a sprint
#[derive(Debug, Clone)]
pub struct CreateSprintResult {
    /// The created sprint
    pub sprint: SprintInfo,
    /// Success message
    pub message: String,
}

/// Parameters for the start_sprint tool
#[derive(Debug, Clone)]
pub struct StartSprintParams {
    /// Sprint ID to start
    pub sprint_id: u64,
    /// Start date (ISO 8601, default: now)
    pub start_date: Option<String>,
    /// End date (ISO 8601, required unless the sprint has one)
    pub end_date: Option<String>,
    /// Sprint goal, optional
    pub goal: Option<String>,
}

/// Result of starting a sprint
#[derive(Debug, Clone)]
pub struct StartSprintResult {
    /// The started sprint
    pub sprint: SprintInfo,
    /// Number of issues in the sprint
    pub issue_count: usize,
    /// Success message
    pub message: String,
    /// Warnings, if any
    pub warnings: Vec<String>,
}

/// Parameters for the close_sprint tool
#[derive(Debug, Clone)]
pub struct CloseSprintParams {
    /// Sprint ID to close
    pub sprint_id: u64,
    /// Move incomplete issues to this sprint, optional
    pub move_incomplete_to: Option<u64>,
}

/// Result of closing a sprint
#[derive(Debug, Clone)]
pub struct CloseSprintResult {
    /// The closed sprint
    pub sprint: SprintInfo,
    /// Number of completed issues
    pub completed_issues: usize,
    /// Number of incomplete issues
    pub incomplete_issues: usize,
    /// Number of issues moved to the next sprint
    pub moved_issues: Option<usize>,
    /// Success message
    pub message: String,
    /// Warnings, if any
    pub warnings: Vec<String>,
}

fn owned(s: &str) -> (r: String)
    ensures
        r@ == s@,
{
    s.to_owned()
}

// ---------------------------------------------------------------------------
// Listing

/// The page of a sprint listing: at most 100 (50 by default) from offset
/// 0 by default.
pub fn sprint_page(params: &ListSprintsParams) -> (r: (u64, u64))
    ensures
        r.0 == ({
            let l: int = match params.limit {
                Some(l) => l as int,
                None => 50,
            };
            if l < 100 {
                l
            } else {
                100
            }
        }),
        r.1 == match params.start_at {
            Some(s) => s as int,
            None => 0,
        },
{
    let l: u32 = match params.limit {
        Some(l) => l,
        None => 50,
    };
    let limit: u32 = if l < 100 {
        l
    } else {
        100
    };
    let start: u32 = match params.start_at {
        Some(s) => s,
        None => 0,
    };
    (limit as u64, start as u64)
}

/// A sprint is listed for a state filter when it has a state equal to the
/// filter in lower case.
pub open spec fn state_matches(s: SprintInfo, filter_lower: Seq<char>) -> bool {
    match s.state {
        Some(st) => lowercase(st@) == filter_lower,
        None => false,
    }
}

/// The sprints that match a state filter, in order; all of them when
/// there is no filter.
pub fn filter_sprints(sprints: Vec<SprintInfo>, state: &Option<String>) -> (r: Vec<SprintInfo>)
    ensures
        match state {
            Some(f) => r@ == sprints@.filter(|s: SprintInfo| state_matches(s, lowercase(f@))),
            None => r@ == sprints@,
        },
{
    let f = match state {
        Some(f) => f,
        None => {
            return sprints;
        },
    };
    let lower = to_lowercase(f.as_str());
    let ghost pred = |s: SprintInfo| state_matches(s, lowercase(f@));
    let ghost all = sprints@;
    let n = sprints.len();
    let mut rest = sprints;
    let mut out: Vec<SprintInfo> = Vec::new();
    let mut i: usize = 0;
    while i < n
        invariant
            n == all.len(),
            i <= n,
            lower@ == lowercase(f@),
            pred == (|s: SprintInfo| state_matches(s, lowercase(f@))),
            rest@ == all.subrange(i as int, n as int),
            out@ == all.subrange(0, i as int).filter(pred),
        decreases n - i,
    {
        let s = rest.remove(0);
        assert(s == all[i as int]);
        let keep = match &s.state {
            Some(st) => {
                let l = to_lowercase(st.as_str());
                str_eq(l.as_str(), lower.as_str())
            },
            None => false,
        };
        assert(keep == pred(s));
        assert(all.subrange(0, i + 1).drop_last() =~= all.subrange(0, i as int));
        reveal_with_fuel(Seq::<SprintInfo>::filter, 1);
        if keep {
            out.push(s);
        }
        assert(rest@ =~= all.subrange(i + 1, n as int));
        i = i + 1;
    }
    assert(all.subrange(0, n as int) =~= all);
    out
}

// ---------------------------------------------------------------------------
// Errors and checks

/// The error for a failed read of a sprint: a 404 means it does not exist.
pub fn sprint_read_error(detail: &str, sprint_id: u64) -> (r: JiraMcpError)
    ensures
        contains_seq(detail@, "404"@) ==> (r matches JiraMcpError::NotFound { resource, key }
            && resource@ == "sprint"@ && key@ == decimal_seq(sprint_id as nat)),
        !contains_seq(detail@, "404"@) ==> (r matches JiraMcpError::Internal { message }
            && message@ == "Failed to get sprint: "@ + detail@),
{
    if str_contains(detail, "404") {
        let id = decimal_string(sprint_id);
        JiraMcpError::not_found("sprint", id.as_str())
    } else {
        let mut m = owned("Failed to get sprint: ");
        m.append(detail);
        JiraMcpError::Internal { message: m }
    }
}

/// The error for a failed creation of a sprint: a 404 means the board does
/// not exist.
pub fn sprint_create_error(detail: &str, board_id: u64) -> (r: JiraMcpError)
    ensures
        contains_seq(detail@, "404"@) ==> (r matches JiraMcpError::NotFound { resource, key }
            && resource@ == "board"@ && key@ == decimal_seq(board_id as nat)),
        !contains_seq(detail@, "404"@) ==> (r matches JiraMcpError::Internal { message }
            && message@ == "Failed to create sprint: "@ + detail@),
{
    if str_contains(detail, "404") {
        let id = decimal_string(board_id);
        JiraMcpError::not_found("board", id.as_str())
    } else {
        let mut m = owned("Failed to create sprint: ");
        m.append(detail);
        JiraMcpError::Internal { message: m }
    }
}

/// The query for the issues of a sprint.
pub fn sprint_jql(sprint_id: u64) -> (r: String)
    ensures
        r@ == "Sprint = "@ + decimal_seq(sprint_id as nat),
{
    let mut q = owned("Sprint = ");
    let id = decimal_string(sprint_id);
    q.append(id.as_str());
    q
}

/// The page of a sprint's issues: at most 200 (50 by default) from offset
/// 0 by default.
pub fn sprint_issues_page(params: &GetSprintIssuesParams) -> (r: (usize, usize))
    ensures
        r.0 == match params.start_at {
            Some(s) => s as int,
            None => 0,
        },
        r.1 == ({
            let l: int = match params.limit {
                Some(l) => l as int,
                None => 50,
            };
            if l < 200 {
                l
            } else {
                200
            }
        }),
{
    let l: u32 = match params.limit {
        Some(l) => l,
        None => 50,
    };
    let limit: u32 = if l < 200 {
        l
    } else {
        200
    };
    let start: u32 = match params.start_at {
        Some(s) => s,
        None => 0,
    };
    (start as usize, limit as usize)
}

/// Refuse moving no issue.
pub fn check_move(params: &MoveToSprintParams) -> (r: JiraMcpResult<()>)
    ensures
        params.issue_keys@.len() > 0 ==> r is Ok,
        params.issue_keys@.len() == 0 ==> (r matches Err(e) && invalid_param_is(
            e,
            "issue_keys"@,
            "At least one issue key is required"@,
        )),
{
    if params.issue_keys.len() == 0 {
        return Err(JiraMcpError::invalid_param("issue_keys", "At least one issue key is required"));
    }
    Ok(())
}

/// The answer to moving issues to a sprint.
pub fn move_result(params: MoveToSprintParams, sprint_name: String) -> (r: MoveToSprintResult)
    ensures
        r.success,
        r.sprint_id == params.sprint_id,
        r.sprint_name@ == sprint_name@,
        r.issues_moved == params.issue_keys@.len(),
        r.issue_keys@ == params.issue_keys@,
        r.message@ == "Successfully moved "@ + decimal_seq(params.issue_keys@.len()) + " issue(s) to sprint '"@
            + sprint_name@ + "'"@,
{
    let n = params.issue_keys.len();
    let mut m = owned("Successfully moved ");
    let c = decimal_string(n as u64);
    m.append(c.as_str());
    m.append(" issue(s) to sprint '");
    m.append(sprint_name.as_str());
    m.append("'");
    MoveToSprintResult {
        success: true,
        sprint_id: params.sprint_id,
        sprint_name,
        issues_moved: n,
        issue_keys: params.issue_keys,
        message: m,
    }
}

/// Refuse a sprint without a name.
pub fn check_sprint_name(name: &str) -> (r: JiraMcpResult<()>)
    ensures
        !is_blank_seq(name@) ==> r is Ok,
        is_blank_seq(name@) ==> (r matches Err(e) && invalid_param_is(
            e,
            "name"@,
            "Sprint name cannot be empty"@,
        )),
{
    if is_blank(name) {
        return Err(JiraMcpError::invalid_param("name", "Sprint name cannot be empty"));
    }
    Ok(())
}

/// The message for a created sprint.
pub fn created_message(name: &str, id: u64, board_id: u64) -> (r: String)
    ensures
        r@ == "Successfully created sprint '"@ + name@ + "' (ID: "@ + decimal_seq(id as nat)
            + ") on board "@ + decimal_seq(board_id as nat),
{
    let mut m = owned("Successfully created sprint '");
    m.append(name);
    m.append("' (ID: ");
    let i = decimal_string(id);
    m.append(i.as_str());
    m.append(") on board ");
    let b = decimal_string(board_id);
    m.append(b.as_str());
    m
}

/// A sprint may start unless it is active or closed (its state compared in
/// lower case).
pub fn check_can_start(name: &str, state: &Option<String>) -> (r: JiraMcpResult<()>)
    ensures
        match state {
            Some(s) => if lowercase(s@) == "active"@ {
                r matches Err(e) && invalid_param_is(
                    e,
                    "sprint_id"@,
                    "Sprint '"@ + name@ + "' is already active"@,
                )
            } else if lowercase(s@) == "closed"@ {
                r matches Err(e) && invalid_param_is(
                    e,
                    "sprint_id"@,
                    "Sprint '"@ + name@ + "' is already closed and cannot be started"@,
                )
            } else {
                r is Ok
            },
            None => r is Ok,
        },
{
    if let Some(s) = state {
        let l = to_lowercase(s.as_str());
        if str_eq(l.as_str(), "active") {
            let mut m = owned("Sprint '");
            m.append(name);
            m.append("' is already active");
            return Err(JiraMcpError::InvalidParameter { parameter: owned("sprint_id"), message: m });
        }
        if str_eq(l.as_str(), "closed") {
            let mut m = owned("Sprint '");
            m.append(name);
            m.append("' is already closed and cannot be started");
            return Err(JiraMcpError::InvalidParameter { parameter: owned("sprint_id"), message: m });
        }
    }
    Ok(())
}

/// What the `time` crate makes of a text in ISO 8601 form: the instant
/// it denotes, as nanoseconds since the Unix epoch, or the message of the
/// parse failure.
pub uninterp spec fn iso8601_parse(text: Seq<char>) -> Result<i128, Seq<char>>;

/// `OffsetDateTime::parse(text, &Iso8601::DEFAULT)`, the instant read as
/// nanoseconds since the Unix epoch (`unix_timestamp_nanos`) and the
/// failure written out as text. Claimed: the result is the name
/// `iso8601_parse(text@)`, a function of the text alone.
#[verifier::external_body]
fn parse_iso8601(text: &str) -> (r: Result<i128, String>)
    ensures
        match r {
            Ok(n) => iso8601_parse(text@) == Ok::<i128, Seq<char>>(n),
            Err(m) => iso8601_parse(text@) == Err::<i128, Seq<char>>(m@),
        },
{
    match time::OffsetDateTime::parse(text, &time::format_description::well_known::Iso8601::DEFAULT) {
        Ok(t) => Ok(t.unix_timestamp_nanos()),
        Err(e) => Err(e.to_string()),
    }
}

/// The refusal of a date that does not parse.
pub open spec fn date_error_text(date: Seq<char>, failure: Seq<char>) -> Seq<char> {
    "Invalid ISO 8601 date format: "@ + date + " (error: "@ + failure + ")"@
}

/// Parse an ISO 8601 date into nanoseconds since the Unix epoch.
pub fn parse_iso8601_date(date_str: &str) -> (r: JiraMcpResult<i128>)
    ensures
        match iso8601_parse(date_str@) {
            Ok(n) => r == Ok::<i128, JiraMcpError>(n),
            Err(m) => r matches Err(e) && invalid_param_is(e, "date"@, date_error_text(date_str@, m)),
        },
{
    match parse_iso8601(date_str) {
        Ok(d) => Ok(d),
        Err(e) => {
            let mut m = owned("Invalid ISO 8601 date format: ");
            m.append(date_str);
            m.append(" (error: ");
            m.append(e.as_str());
            m.append(")");
            Err(JiraMcpError::InvalidParameter { parameter: owned("date"), message: m })
        },
    }
}

/// The dates a sprint starts with, as nanoseconds since the Unix epoch:
/// the start date given, else now; the end date given, else the sprint's
/// own. A date that does not parse (the start date first), or no end date
/// at all, refuses the start.
pub fn start_dates(params: &StartSprintParams, current_end: Option<i128>) -> (r: JiraMcpResult<
    (i128, i128),
>)
    ensures
        match params.start_date {
            Some(s) => match iso8601_parse(s@) {
                Err(m) => r matches Err(x) && invalid_param_is(x, "date"@, date_error_text(s@, m)),
                Ok(a) => r matches Ok((a2, _)) ==> a2 == a,
            },
            None => true,
        },
        (match params.start_date {
            Some(s) => iso8601_parse(s@) is Ok,
            None => true,
        }) ==> match params.end_date {
            Some(e) => match iso8601_parse(e@) {
                Ok(b) => r matches Ok((_, b2)) && b2 == b,
                Err(m) => r matches Err(x) && invalid_param_is(x, "date"@, date_error_text(e@, m)),
            },
            None => match current_end {
                Some(c) => r matches Ok((_, b2)) && b2 == c,
                None => r matches Err(x) && invalid_param_is(
                    x,
                    "end_date"@,
                    "Sprint end date must be set before starting (provide end_date parameter or set it on the sprint)"@,
                ),
            },
        },
{
    let start = match &params.start_date {
        Some(s) => parse_iso8601_date(s.as_str())?,
        None => utc_now_unix_nanos(),
    };
    let end = match &params.end_date {
        Some(e) => Some(parse_iso8601_date(e.as_str())?),
        None => current_end,
    };
    match end {
        Some(e) => Ok((start, e)),
        None => Err(
            JiraMcpError::invalid_param(
                "end_date",
                "Sprint end date must be set before starting (provide end_date parameter or set it on the sprint)",
            ),
        ),
    }
}

/// The answer parts of a started sprint: the warning when it has no issue,
/// and the message.
pub fn started_report(name: &str, issue_count: usize) -> (r: (Vec<String>, String))
    ensures
        views(r.0@) == if issue_count == 0 {
            seq!["Warning: Sprint has no issues"@]
        } else {
            Seq::<Seq<char>>::empty()
        },
        r.1@ == "Successfully started sprint '"@ + name@ + "' with "@ + decimal_seq(
            issue_count as nat,
        ) + " issue(s)"@,
{
    let mut warnings: Vec<String> = Vec::new();
    if issue_count == 0 {
        warnings.push(owned("Warning: Sprint has no issues"));
    }
    let mut m = owned("Successfully started sprint '");
    m.append(name);
    m.append("' with ");
    let n = decimal_string(issue_count as u64);
    m.append(n.as_str());
    m.append(" issue(s)");
    proof {
        if issue_count == 0 {
            assert(views(warnings@) =~= seq!["Warning: Sprint has no issues"@]);
        } else {
            assert(views(warnings@) =~= Seq::<Seq<char>>::empty());
        }
    }
    (warnings, m)
}

// ---------------------------------------------------------------------------
// Closing

/// A sprint may close unless it is closed already.
pub fn check_can_close(name: &str, state: &Option<String>) -> (r: JiraMcpResult<()>)
    ensures
        match state {
            Some(s) => if lowercase(s@) == "closed"@ {
                r matches Err(e) && invalid_param_is(
                    e,
                    "sprint_id"@,
                    "Sprint '"@ + name@ + "' is already closed"@,
                )
            } else {
                r is Ok
            },
            None => r is Ok,
        },
{
    if let Some(s) = state {
        let l = to_lowercase(s.as_str());
        if str_eq(l.as_str(), "closed") {
            let mut m = owned("Sprint '");
            m.append(name);
            m.append("' is already closed");
            return Err(JiraMcpError::InvalidParameter { parameter: owned("sprint_id"), message: m });
        }
    }
    Ok(())
}

/// An issue counts as completed when its status is done, closed or
/// resolved, in any case.
pub open spec fn is_completed(i: IssueInfo) -> bool {
    let s = lowercase(i.status@);
    s == "done"@ || s == "closed"@ || s == "resolved"@
}

fn completed(i: &IssueInfo) -> (r: bool)
    ensures
        r == is_completed(*i),
{
    let s = to_lowercase(i.status.as_str());
    str_eq(s.as_str(), "done") || str_eq(s.as_str(), "closed") || str_eq(s.as_str(), "resolved")
}

/// How many of the issues are completed.
pub open spec fn completed_count(issues: Seq<IssueInfo>) -> nat
    decreases issues.len(),
{
    if issues.len() == 0 {
        0
    } else {
        completed_count(issues.drop_last()) + if is_completed(issues.last()) {
            1nat
        } else {
            0nat
        }
    }
}

/// The keys of the issues not completed, in order.
pub open spec fn incomplete_keys(issues: Seq<IssueInfo>) -> Seq<Seq<char>>
    decreases issues.len(),
{
    if issues.len() == 0 {
        Seq::empty()
    } else {
        let r = incomplete_keys(issues.drop_last());
        if is_completed(issues.last()) {
            r
        } else {
            r.push(issues.last().key@)
        }
    }
}

/// How a closing sprint stands: its issues counted, and the issues to
/// hand on to the next sprint, if that was asked for and some are not
/// completed.
#[derive(Debug, Clone)]
pub struct ClosingPlan {
    /// Completed issues (of those read)
    pub completed_issues: usize,
    /// The total the search reported, less the completed ones
    pub incomplete_issues: usize,
    /// The keys of the incomplete issues to move, and where
    pub move_to: Option<(u64, Vec<String>)>,
}

/// Count a closing sprint's issues, `total` being the total the search
/// reported, and choose what to move.
pub fn plan_close(issues: &Vec<IssueInfo>, total: usize, move_incomplete_to: Option<u64>) -> (r:
    ClosingPlan)
    requires
        completed_count(issues@) <= total,
    ensures
        r.completed_issues == completed_count(issues@),
        r.incomplete_issues == total - completed_count(issues@),
        match move_incomplete_to {
            Some(target) => if r.incomplete_issues > 0 {
                r.move_to matches Some((t, keys)) && t == target && views(keys@)
                    == incomplete_keys(issues@)
            } else {
                r.move_to is None
            },
            None => r.move_to is None,
        },
{
    let mut done: usize = 0;
    let mut keys: Vec<String> = Vec::new();
    let mut i: usize = 0;
    while i < issues.len()
        invariant
            i <= issues@.len(),
            done == completed_count(issues@.subrange(0, i as int)),
            done <= i,
            views(keys@) == incomplete_keys(issues@.subrange(0, i as int)),
        decreases issues@.len() - i,
    {
        assert(issues@.subrange(0, i + 1).drop_last() =~= issues@.subrange(0, i as int));
        if completed(&issues[i]) {
            done = done + 1;
        } else {
            let ghost before = views(keys@);
            keys.push(issues[i].key.clone());
            assert(views(keys@) =~= before.push(issues@[i as int].key@));
        }
        i = i + 1;
    }
    assert(issues@.subrange(0, issues@.len() as int) =~= issues@);
    let incomplete = total - done;
    let move_to = match move_incomplete_to {
        Some(target) => if incomplete > 0 {
            Some((target, keys))
        } else {
            None
        },
        None => None,
    };
    ClosingPlan { completed_issues: done, incomplete_issues: incomplete, move_to }
}

/// The message of a closed sprint.
pub open spec fn spec_closed_message(name: Seq<char>, completed: nat, total: nat, moved: Option<usize>) -> Seq<
    char,
> {
    match moved {
        Some(m) => "Successfully closed sprint '"@ + name + "' ("@ + decimal_seq(completed) + "/"@
            + decimal_seq(total) + " completed, "@ + decimal_seq(m as nat) + " moved to next sprint)"@,
        None => "Successfully closed sprint '"@ + name + "' ("@ + decimal_seq(completed) + "/"@
            + decimal_seq(total) + " completed)"@,
    }
}

/// The answer parts of a closed sprint, but for the completion rate: the
/// warning about incomplete issues left behind, and the message.
pub fn closed_report(name: &str, plan: &ClosingPlan, total: usize) -> (r: (Option<String>, String))
    ensures
        ({
            let moved: Option<usize> = if plan.move_to is Some {
                Some(plan.incomplete_issues)
            } else {
                None
            };
            &&& r.1@ == spec_closed_message(name@, plan.completed_issues as nat, total as nat, moved)
            &&& if plan.incomplete_issues > 0 && moved is None {
                r.0 matches Some(w) && w@ == decimal_seq(plan.incomplete_issues as nat)
                    + " incomplete issue(s) remain in closed sprint (not moved)"@
            } else {
                r.0 is None
            }
        }),
{
    let moved: Option<usize> = if plan.move_to.is_some() {
        Some(plan.incomplete_issues)
    } else {
        None
    };
    let warning = if plan.incomplete_issues > 0 && moved.is_none() {
        let mut w = decimal_string(plan.incomplete_issues as u64);
        w.append(" incomplete issue(s) remain in closed sprint (not moved)");
        Some(w)
    } else {
        None
    };
    let mut m = owned("Successfully closed sprint '");
    m.append(name);
    m.append("' (");
    let c = decimal_string(plan.completed_issues as u64);
    m.append(c.as_str());
    m.append("/");
    let t = decimal_string(total as u64);
    m.append(t.as_str());
    match moved {
        Some(k) => {
            m.append(" completed, ");
            let n = decimal_string(k as u64);
            m.append(n.as_str());
            m.append(" moved to next sprint)");
        },
        None => {
            m.append(" completed)");
        },
    }
    (warning, m)
}

/// The answer of a closed sprint: the sprint as it now is, the counts of
/// the plan, how many issues were moved (the incomplete ones, when they
/// were moved), the message, and the warnings: first the completion
/// warning given, then the one about incomplete issues left behind.
/// The completion warning states a percentage, a fraction worked out by
/// the caller.
pub fn close_answer(
    sprint: SprintInfo,
    plan: &ClosingPlan,
    total: usize,
    completion_warning: Option<String>,
) -> (r: CloseSprintResult)
    ensures
        r.sprint == sprint,
        r.completed_issues == plan.completed_issues,
        r.incomplete_issues == plan.incomplete_issues,
        r.moved_issues == if plan.move_to is Some {
            Some(plan.incomplete_issues)
        } else {
            None::<usize>
        },
        r.message@ == spec_closed_message(
            sprint.name@,
            plan.completed_issues as nat,
            total as nat,
            r.moved_issues,
        ),
        views(r.warnings@) == (match completion_warning {
            Some(w) => seq![w@],
            None => Seq::<Seq<char>>::empty(),
        }) + if plan.incomplete_issues > 0 && plan.move_to is None {
            seq![
                decimal_seq(plan.incomplete_issues as nat)
                    + " incomplete issue(s) remain in closed sprint (not moved)"@,
            ]
        } else {
            Seq::<Seq<char>>::empty()
        },
{
    let (left_behind, message) = closed_report(sprint.name.as_str(), plan, total);
    let mut warnings: Vec<String> = Vec::new();
    if let Some(w) = completion_warning {
        warnings.push(w);
    }
    let ghost first = views(warnings@);
    if let Some(w) = left_behind {
        warnings.push(w);
    }
    assert(views(warnings@) =~= first + if plan.incomplete_issues > 0 && plan.move_to is None {
        seq![
            decimal_seq(plan.incomplete_issues as nat)
                + " incomplete issue(s) remain in closed sprint (not moved)"@,
        ]
    } else {
        Seq::<Seq<char>>::empty()
    });
    let moved_issues = if plan.move_to.is_some() {
        Some(plan.incomplete_issues)
    } else {
        None
    };
    CloseSprintResult {
        sprint,
        completed_issues: plan.completed_issues,
        incomplete_issues: plan.incomplete_issues,
        moved_issues,
        message,
        warnings,
    }
}

/// Closing a sprint counts an issue whose status is "done", "closed" or
/// "resolved" (in any letter case) as completed and never hands its key
/// on: one more such issue raises the completed count by one and leaves
/// the keys to move as they were. One more issue of any other status
/// leaves the count and adds its key, last, to the keys to move.
pub proof fn law_finished_issues_stay_behind(issues: Seq<IssueInfo>, x: IssueInfo)
    ensures
        ({
            let st = lowercase(x.status@);
            st == "done"@ || st == "closed"@ || st == "resolved"@
        }) ==> completed_count(issues.push(x)) == completed_count(issues) + 1 && incomplete_keys(
            issues.push(x),
        ) == incomplete_keys(issues),
        !({
            let st = lowercase(x.status@);
            st == "done"@ || st == "closed"@ || st == "resolved"@
        }) ==> completed_count(issues.push(x)) == completed_count(issues) && incomplete_keys(
            issues.push(x),
        ) == incomplete_keys(issues).push(x.key@),
{
    assert(issues.push(x).drop_last() =~= issues);
}

} // verus!
