//! The get_user_issues tool: its parameters and their checks, how the user
//! is found in the cache, how semantic filters become JIRA terms, and the
//! query they make.

use crate::cache::{fresh, MetadataCache, UserMapping};
use crate::error::{JiraMcpError, JiraMcpResult};
use crate::jira_client::SearchResult;
use crate::semantic_mapping::{
    field_clause, parse_date_filter, spec_date_filter, build_field_clause, JqlQuery,
    QueryComplexity, SemanticMapper,
};
use crate::text::{
    clone_opt, clone_strings, contains_seq, is_blank, is_blank_seq, join, join_seq, lowercase,
    opt_view, str_contains, str_eq, to_lowercase, views,
};
use crate::tools::validation::{check_names, check_result, given_names, opt_some_blank};
use vstd::prelude::*;

verus! {

/// Parameters for the get_user_issues tool
#[derive(Debug, Clone)]
pub struct GetUserIssuesParams {
    /// Username, account ID, or "me" / "current_user" (optional, the current user by default)
    pub username: Option<String>,
    /// Status filter using semantic categories (optional)
    pub status_filter: Option<Vec<String>>,
    /// Issue type filter using semantic types (optional)
    pub issue_types: Option<Vec<String>>,
    /// Board name filter (optional)
    pub board_filter: Option<Vec<String>>,
    /// Project key filter (optional)
    pub project_filter: Option<Vec<String>>,
    /// Due date filter (optional): "overdue", "today", "this_week", "next_week" or a date
    pub due_date_filter: Option<String>,
    /// Priority filter (optional)
    pub priority_filter: Option<Vec<String>>,
    /// Only show issues updated recently (optional): "today", "7 days ago" or a date
    pub updated_since: Option<String>,
    /// Maximum results to return (optional, max: 200)
    pub limit: Option<u32>,
    /// Starting offset for pagination (optional, default: 0)
    pub start_at: Option<u32>,
}

/// Result from the get_user_issues tool
#[derive(Debug, Clone)]
pub struct GetUserIssuesResult {
    /// The search results
    pub search_result: SearchResult,
    /// User information that was resolved
    pub resolved_user: UserInfo,
    /// The JQL query that was executed
    pub jql_query: String,
    /// Summary of applied filters
    pub applied_filters: AppliedFilters,
    /// Performance information
    pub performance: UserIssuesPerformance,
}

/// Information about the resolved user
#[derive(Debug, Clone)]
pub struct UserInfo {
    /// User account ID
    pub account_id: String,
    /// Display name
    pub display_name: String,
    /// Email address (if available)
    pub email_address: Option<String>,
    /// Whether this is the current authenticated user
    pub is_current_user: bool,
}

/// Summary of filters that were applied
#[derive(Debug, Clone)]
pub struct AppliedFilters {
    pub status_categories: Option<Vec<String>>,
    pub issue_types: Option<Vec<String>>,
    pub projects: Option<Vec<String>>,
    pub boards: Option<Vec<String>>,
    pub due_date: Option<String>,
    pub priorities: Option<Vec<String>>,
    pub updated_since: Option<String>,
}

/// Performance metrics for user issues operations
#[derive(Debug, Clone)]
pub struct UserIssuesPerformance {
    /// Time taken for the operation in milliseconds
    pub duration_ms: u64,
    /// Whether user data hit the cache
    pub user_cache_hit: bool,
    /// Whether any filter metadata hit the cache
    pub metadata_cache_hit: bool,
    /// Number of JIRA API calls made
    pub api_calls: u32,
    /// Query complexity
    pub query_complexity: String,
}

fn owned(s: &str) -> (r: String)
    ensures
        r@ == s@,
{
    s.to_owned()
}

// ---------------------------------------------------------------------------
// Checks

/// Why user issue parameters are refused, the first check that fails.
pub open spec fn spec_user_issues_failure(p: GetUserIssuesParams) -> Option<(Seq<char>, Seq<char>)> {
    if p.limit is Some && p.limit->0 == 0 {
        Some(("limit"@, "Limit must be greater than 0"@))
    } else if p.limit is Some && p.limit->0 > 200 {
        Some(("limit"@, "Limit cannot exceed 200"@))
    } else if p.start_at is Some && p.start_at->0 > 10000 {
        Some(("start_at"@, "start_at cannot exceed 10000"@))
    } else if opt_some_blank(p.status_filter) {
        Some(("status_filter"@, "status names cannot be empty"@))
    } else if opt_some_blank(p.issue_types) {
        Some(("issue_types"@, "issue type names cannot be empty"@))
    } else if opt_some_blank(p.board_filter) {
        Some(("board_filter"@, "board names cannot be empty"@))
    } else if opt_some_blank(p.project_filter) {
        Some(("project_filter"@, "project keys cannot be empty"@))
    } else if opt_some_blank(p.priority_filter) {
        Some(("priority_filter"@, "priority names cannot be empty"@))
    } else if p.due_date_filter is Some && is_blank_seq(p.due_date_filter->0@) {
        Some(("due_date_filter"@, "due_date_filter cannot be empty"@))
    } else {
        None
    }
}

/// Validate user issues parameters
pub fn validate_params(params: &GetUserIssuesParams) -> (r: JiraMcpResult<()>)
    ensures
        check_result(r, spec_user_issues_failure(*params)),
{
    if let Some(limit) = params.limit {
        if limit == 0 {
            return Err(JiraMcpError::invalid_param("limit", "Limit must be greater than 0"));
        }
        if limit > 200 {
            return Err(JiraMcpError::invalid_param("limit", "Limit cannot exceed 200"));
        }
    }
    if let Some(start_at) = params.start_at {
        if start_at > 10000 {
            return Err(JiraMcpError::invalid_param("start_at", "start_at cannot exceed 10000"));
        }
    }
    check_names(&params.status_filter, "status_filter", "status names cannot be empty")?;
    check_names(&params.issue_types, "issue_types", "issue type names cannot be empty")?;
    check_names(&params.board_filter, "board_filter", "board names cannot be empty")?;
    check_names(&params.project_filter, "project_filter", "project keys cannot be empty")?;
    check_names(&params.priority_filter, "priority_filter", "priority names cannot be empty")?;
    if let Some(due) = &params.due_date_filter {
        if is_blank(due.as_str()) {
            return Err(
                JiraMcpError::invalid_param("due_date_filter", "due_date_filter cannot be empty"),
            );
        }
    }
    Ok(())
}

// ---------------------------------------------------------------------------
// The user

/// The user reference of a request: the name given, else "me".
pub open spec fn user_ref_of(username: Option<String>) -> Seq<char> {
    match username {
        Some(u) => u@,
        None => "me"@,
    }
}

/// A reference that names the current user exactly.
pub open spec fn names_current_user(u: Seq<char>) -> bool {
    u == "me"@ || u == "current_user"@
}

/// The user a reference gives from the cache at time `now`, and whether
/// that user is the current one. The reference must resolve in the cache
/// first ("me" and "current_user", in any case, through the current user,
/// any other through its user mapping); then exactly "me" or
/// "current_user" gives the fresh current user, anything else the fresh
/// user mapping under that name.
pub open spec fn spec_cached_user(cache: MetadataCache, u: Seq<char>, now: u64) -> Option<
    ((Seq<char>, Seq<char>, Option<Seq<char>>, Option<Seq<char>>), bool),
> {
    let l = lowercase(u);
    let current_fresh = cache.current() matches Some(e) && fresh(e, cache.ttl(), now);
    let mapping_fresh = cache.user_maps().contains_key(u) && fresh(
        cache.user_maps()[u],
        cache.ttl(),
        now,
    );
    let resolved = if l == "me"@ || l == "current_user"@ {
        current_fresh
    } else {
        mapping_fresh
    };
    if !resolved {
        None
    } else if names_current_user(u) {
        if current_fresh {
            Some((cache.current()->0.value@, true))
        } else {
            None
        }
    } else if mapping_fresh {
        Some((cache.user_maps()[u].value@, false))
    } else {
        None
    }
}

/// The user information a cached user mapping gives.
pub open spec fn info_from_mapping(
    info: UserInfo,
    m: (Seq<char>, Seq<char>, Option<Seq<char>>, Option<Seq<char>>),
    is_current: bool,
) -> bool {
    &&& info.account_id@ == m.0
    &&& info.display_name@ == m.1
    &&& opt_view(info.email_address) == m.2
    &&& info.is_current_user == is_current
}

fn from_mapping(m: UserMapping, is_current: bool) -> (r: UserInfo)
    ensures
        info_from_mapping(r, m@, is_current),
{
    UserInfo {
        account_id: m.account_id,
        display_name: m.display_name,
        email_address: m.email_address,
        is_current_user: is_current,
    }
}

/// The user a request names, as the cache knows it at time `now`; `None`
/// when JIRA has to be asked.
pub fn cached_user_at(cache: &MetadataCache, username: &Option<String>, now: u64) -> (r: Option<
    UserInfo,
>)
    requires
        cache.wf(),
    ensures
        match spec_cached_user(*cache, user_ref_of(*username), now) {
            Some((m, is_current)) => r matches Some(info) && info_from_mapping(info, m, is_current),
            None => r is None,
        },
{
    let u = match username {
        Some(u) => u.as_str(),
        None => "me",
    };
    if cache.resolve_user_reference_at(u, now).is_none() {
        return None;
    }
    if str_eq(u, "me") || str_eq(u, "current_user") {
        match cache.get_current_user_at(now) {
            Some(cu) => Some(from_mapping(cu, true)),
            None => None,
        }
    } else {
        match cache.get_user_mapping_at(u, now) {
            Some(m) => Some(from_mapping(m, false)),
            None => None,
        }
    }
}

/// The user information JIRA gave for a reference; it is the current user
/// when the reference is exactly "me" or "current_user".
pub fn user_from_client(username: &Option<String>, user: crate::jira_client::UserInfo) -> (r:
    UserInfo)
    ensures
        r.account_id@ == user.account_id@,
        r.display_name@ == user.display_name@,
        opt_view(r.email_address) == opt_view(user.email_address),
        r.is_current_user == names_current_user(user_ref_of(*username)),
{
    let u = match username {
        Some(u) => u.as_str(),
        None => "me",
    };
    let is_current = str_eq(u, "me") || str_eq(u, "current_user");
    UserInfo {
        account_id: user.account_id,
        display_name: user.display_name,
        email_address: user.email_address,
        is_current_user: is_current,
    }
}

// ---------------------------------------------------------------------------
// Filters

/// A list filter that is given and not empty.
pub open spec fn non_empty_names(o: Option<Vec<String>>) -> Option<Seq<Seq<char>>> {
    match given_names(o) {
        Some(ns) => if ns.len() > 0 {
            Some(ns)
        } else {
            None
        },
        None => None,
    }
}

/// The names of an optional list of strings.
pub open spec fn list_view(o: Option<Vec<String>>) -> Option<Seq<Seq<char>>> {
    given_names(o)
}

fn non_empty_copy(o: &Option<Vec<String>>) -> (r: Option<Vec<String>>)
    ensures
        list_view(r) == non_empty_names(*o),
{
    match o {
        Some(v) => if v.len() > 0 {
            let c = clone_strings(v);
            assert(views(c@) =~= views(v@));
            Some(c)
        } else {
            None
        },
        None => None,
    }
}

/// The project the issue types are mapped for: the first project of the
/// project filter, if any.
pub open spec fn first_project(o: Option<Vec<String>>) -> Option<Seq<char>> {
    match o {
        Some(v) => if v@.len() > 0 {
            Some(v@[0]@)
        } else {
            None
        },
        None => None,
    }
}

/// The filters of a request in JIRA terms: semantic statuses and issue
/// types mapped (issue types for the first project of the filter), empty
/// lists left out.
pub fn build_applied_filters(mapper: &SemanticMapper, params: &GetUserIssuesParams) -> (r:
    JiraMcpResult<AppliedFilters>)
    requires
        mapper.cache.wf(),
    ensures
        r matches Ok(f) && list_view(f.projects) == non_empty_names(params.project_filter)
            && list_view(f.boards) == non_empty_names(params.board_filter) && list_view(
            f.priorities,
        ) == non_empty_names(params.priority_filter) && opt_view(f.due_date) == opt_view(
            params.due_date_filter,
        ) && opt_view(f.updated_since) == opt_view(params.updated_since) && list_view(
            f.status_categories,
        ) == match non_empty_names(params.status_filter) {
            Some(ss) => Some(mapper.spec_map_status_categories(ss)),
            None => None,
        } && list_view(f.issue_types) == match non_empty_names(params.issue_types) {
            Some(ts) => Some(mapper.spec_map_issue_types(ts, first_project(params.project_filter))),
            None => None,
        },
{
    let mut f = AppliedFilters {
        status_categories: None,
        issue_types: None,
        projects: non_empty_copy(&params.project_filter),
        boards: non_empty_copy(&params.board_filter),
        due_date: clone_opt(&params.due_date_filter),
        priorities: non_empty_copy(&params.priority_filter),
        updated_since: clone_opt(&params.updated_since),
    };
    if let Some(sf) = &params.status_filter {
        if sf.len() > 0 {
            let names = mapper.map_status_categories(sf.as_slice())?;
            f.status_categories = Some(names);
        }
    }
    if let Some(ts) = &params.issue_types {
        if ts.len() > 0 {
            let project: Option<&str> = match &params.project_filter {
                Some(pf) => if pf.len() > 0 {
                    Some(pf[0].as_str())
                } else {
                    None
                },
                None => None,
            };
            let names = mapper.map_issue_types(ts.as_slice(), project)?;
            f.issue_types = Some(names);
        }
    }
    Ok(f)
}

// ---------------------------------------------------------------------------
// The query

/// The clause for a due date filter (compared in lower case).
pub open spec fn due_clause(due: Seq<char>) -> Seq<char> {
    let l = lowercase(due);
    if l == "overdue"@ {
        "due < now()"@
    } else if l == "today"@ {
        "due = now()"@
    } else if l == "this_week"@ {
        "due >= startOfWeek() AND due <= endOfWeek()"@
    } else if l == "next_week"@ {
        "due >= startOfWeek(1w) AND due <= endOfWeek(1w)"@
    } else {
        "due <= \""@ + due + "\""@
    }
}

/// The clause for an updated-since filter: "today" (in any case) is the
/// start of the day, text holding "ago" is read as a date filter (kept
/// as given when it is not one), anything else is taken as a date.
pub open spec fn updated_clause(u: Seq<char>) -> Seq<char> {
    if lowercase(u) == "today"@ {
        "updated >= startOfDay()"@
    } else if contains_seq(u, "ago"@) {
        let d = match spec_date_filter(u) {
            Some(d) => d,
            None => u,
        };
        "updated >= \""@ + d + "\""@
    } else {
        "updated >= \""@ + u + "\""@
    }
}

/// The clause of a list filter, when it is given.
pub open spec fn list_clause(field: Seq<char>, o: Option<Vec<String>>) -> Seq<Seq<char>> {
    match given_names(o) {
        Some(ns) => seq![field_clause(field, ns)],
        None => Seq::empty(),
    }
}

/// The clause of the due date filter, when it is given.
pub open spec fn due_part(o: Option<String>) -> Seq<Seq<char>> {
    match o {
        Some(t) => seq![due_clause(t@)],
        None => Seq::empty(),
    }
}

/// The clause of the updated-since filter, when it is given.
pub open spec fn updated_part(o: Option<String>) -> Seq<Seq<char>> {
    match o {
        Some(t) => seq![updated_clause(t@)],
        None => Seq::empty(),
    }
}

/// The conditions of the query for a user's issues.
pub open spec fn spec_user_conditions(account_id: Seq<char>, f: AppliedFilters) -> Seq<Seq<char>> {
    seq!["assignee = \""@ + account_id + "\""@] + list_clause("status"@, f.status_categories)
        + list_clause("issuetype"@, f.issue_types) + list_clause("project"@, f.projects)
        + list_clause("priority"@, f.priorities) + due_part(f.due_date) + updated_part(
        f.updated_since,
    )
}

/// The complexity of a query by its number of parts.
pub open spec fn parts_complexity(n: nat) -> QueryComplexity {
    if n > 4 {
        QueryComplexity::Complex
    } else if n > 2 {
        QueryComplexity::Moderate
    } else {
        QueryComplexity::Simple
    }
}

fn push_list_clause(parts: &mut Vec<String>, field: &str, o: &Option<Vec<String>>)
    ensures
        views(final(parts)@) == views(old(parts)@) + list_clause(field@, *o),
{
    if let Some(ns) = o {
        let c = build_field_clause(field, ns);
        let ghost before = views(parts@);
        parts.push(c);
        assert(views(parts@) =~= before + list_clause(field@, *o));
    } else {
        assert(views(parts@) =~= views(parts@) + list_clause(field@, *o));
    }
}

fn due_clause_text(due: &str) -> (r: String)
    ensures
        r@ == due_clause(due@),
{
    let lower = to_lowercase(due);
    let l = lower.as_str();
    if str_eq(l, "overdue") {
        owned("due < now()")
    } else if str_eq(l, "today") {
        owned("due = now()")
    } else if str_eq(l, "this_week") {
        owned("due >= startOfWeek() AND due <= endOfWeek()")
    } else if str_eq(l, "next_week") {
        owned("due >= startOfWeek(1w) AND due <= endOfWeek(1w)")
    } else {
        let mut c = owned("due <= \"");
        c.append(due);
        c.append("\"");
        c
    }
}

fn updated_clause_text(u: &str) -> (r: String)
    ensures
        r@ == updated_clause(u@),
{
    let lower = to_lowercase(u);
    if str_eq(lower.as_str(), "today") {
        return owned("updated >= startOfDay()");
    }
    let mut c = owned("updated >= \"");
    if str_contains(u, "ago") {
        match parse_date_filter(u) {
            Ok(d) => c.append(d.as_str()),
            Err(_) => c.append(u),
        }
    } else {
        c.append(u);
    }
    c.append("\"");
    c
}

/// Build the JQL query for a user's issues: one condition per filter,
/// joined with " AND ", then the sort order after a space; the complexity
/// follows the number of parts, the sort order counted as one.
pub fn build_user_issues_jql(account_id: &str, applied_filters: &AppliedFilters) -> (r: JqlQuery)
    ensures
        r.jql@ == join_seq(spec_user_conditions(account_id@, *applied_filters), " AND "@)
            + " ORDER BY updated DESC"@,
        r.complexity == parts_complexity(spec_user_conditions(account_id@, *applied_filters).len() + 1),
        r.estimated_results is None,
{
    let mut parts: Vec<String> = Vec::new();
    let mut a = owned("assignee = \"");
    a.append(account_id);
    a.append("\"");
    parts.push(a);
    push_list_clause(&mut parts, "status", &applied_filters.status_categories);
    push_list_clause(&mut parts, "issuetype", &applied_filters.issue_types);
    push_list_clause(&mut parts, "project", &applied_filters.projects);
    push_list_clause(&mut parts, "priority", &applied_filters.priorities);
    let ghost before_due = views(parts@);
    if let Some(d) = &applied_filters.due_date {
        let c = due_clause_text(d.as_str());
        parts.push(c);
    }
    assert(views(parts@) =~= before_due + due_part(applied_filters.due_date));
    let ghost before_updated = views(parts@);
    if let Some(u) = &applied_filters.updated_since {
        let c = updated_clause_text(u.as_str());
        parts.push(c);
    }
    assert(views(parts@) =~= before_updated + updated_part(applied_filters.updated_since));
    let ghost want = spec_user_conditions(account_id@, *applied_filters);
    assert(views(parts@) =~= want);
    let n = parts.len();
    let complexity = if n > 3 {
        QueryComplexity::Complex
    } else if n > 1 {
        QueryComplexity::Moderate
    } else {
        QueryComplexity::Simple
    };
    let mut jql = join(&parts, " AND ");
    jql.append(" ORDER BY updated DESC");
    JqlQuery { jql, estimated_results: None, complexity }
}

/// The named due-date filters, in any letter case, put these conditions
/// in a user's query: "overdue" the issues due before now, "today" those
/// due now, "this_week" those due within the current week, and
/// "next_week" those due within the week after it.
pub proof fn law_due_filters(account_id: Seq<char>, f: AppliedFilters)
    requires
        f.due_date is Some,
    ensures
        ({
            let l = lowercase(f.due_date->0@);
            let conds = spec_user_conditions(account_id, f);
            &&& l == "overdue"@ ==> conds.contains("due < now()"@)
            &&& l == "today"@ ==> conds.contains("due = now()"@)
            &&& l == "this_week"@ ==> conds.contains("due >= startOfWeek() AND due <= endOfWeek()"@)
            &&& l == "next_week"@ ==> conds.contains(
                "due >= startOfWeek(1w) AND due <= endOfWeek(1w)"@,
            )
        }),
{
    reveal_strlit("overdue");
    reveal_strlit("today");
    reveal_strlit("this_week");
    reveal_strlit("next_week");
    let t = f.due_date->0@;
    let head = seq!["assignee = \""@ + account_id + "\""@] + list_clause(
        "status"@,
        f.status_categories,
    ) + list_clause("issuetype"@, f.issue_types) + list_clause("project"@, f.projects)
        + list_clause("priority"@, f.priorities);
    let conds = spec_user_conditions(account_id, f);
    assert(conds =~= head + seq![due_clause(t)] + updated_part(f.updated_since));
    assert(conds[head.len() as int] == due_clause(t));
    assert("next_week"@ != "this_week"@) by {
        assert("next_week"@[0] != "this_week"@[0]);
    }
    assert("next_week"@ != "overdue"@ && "next_week"@ != "today"@ && "this_week"@ != "overdue"@
        && "this_week"@ != "today"@ && "today"@ != "overdue"@) by {
        assert("next_week"@.len() != "today"@.len());
        assert("next_week"@.len() != "overdue"@.len());
        assert("this_week"@.len() != "today"@.len());
        assert("this_week"@.len() != "overdue"@.len());
        assert("today"@.len() != "overdue"@.len());
    }
}

} // verus!
