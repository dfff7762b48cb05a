//! The search_issues tool: its parameters, their checks, and how a board
//! name narrows a search to a project.

use crate::cache::{fresh, MetadataCache};
use crate::error::{JiraMcpError, JiraMcpResult};
use crate::jira_client::SearchResult;
use crate::semantic_mapping::QueryComplexity;
use crate::text::{
    byte_len, chars_of, clone_opt, find_char, has_char, is_blank, is_blank_seq, opt_view, views,
};
use crate::tools::validation::{check_names, check_result, given_names, opt_some_blank};
use vstd::prelude::*;

verus! {

/// Parameters for the search_issues tool
#[derive(Debug, Clone)]
pub struct SearchIssuesParams {
    /// Natural language search text (optional)
    pub query_text: Option<String>,
    /// Semantic issue types (optional)
    pub issue_types: Option<Vec<String>>,
    /// User assignment filter (optional)
    pub assigned_to: Option<String>,
    /// Project key for project-scoped search (optional)
    pub project_key: Option<String>,
    /// Board name for board-scoped search (optional)
    pub board_name: Option<String>,
    /// Semantic status categories (optional)
    pub status: Option<Vec<String>>,
    /// Created after date filter (optional)
    pub created_after: Option<String>,
    /// Label filters (optional)
    pub labels: Option<Vec<String>>,
    /// Component filters (optional)
    pub components: Option<Vec<String>>,
    /// Parent issue filter (optional): "none", "any" or an issue key
    pub parent_filter: Option<String>,
    /// Epic link filter (optional): "none", "any" or an epic key
    pub epic_filter: Option<String>,
    /// Maximum results to return (optional, default from the configuration, max: 200)
    pub limit: Option<u32>,
    /// Starting offset for pagination (optional, default: 0)
    pub start_at: Option<u32>,
}

/// Result from the search_issues tool
#[derive(Debug, Clone)]
pub struct SearchIssuesResult {
    /// The search results
    pub search_result: SearchResult,
    /// The JQL query that was executed
    pub jql_query: String,
    /// Query complexity indicator
    pub query_complexity: String,
    /// Performance information
    pub performance: SearchPerformance,
}

/// Performance metrics for search operations
#[derive(Debug, Clone)]
pub struct SearchPerformance {
    /// Time taken for the search in milliseconds
    pub duration_ms: u64,
    /// Whether the query hit the cache
    pub cache_hit: bool,
    /// Number of JIRA API calls made
    pub api_calls: u32,
    /// Estimated result count (if available)
    pub estimated_total: Option<usize>,
}

/// The first label that is blank or holds a space, as the failure it
/// causes.
pub open spec fn label_failure(labels: Seq<Seq<char>>) -> Option<(Seq<char>, Seq<char>)>
    decreases labels.len(),
{
    if labels.len() == 0 {
        None
    } else if is_blank_seq(labels[0]) {
        Some(("labels"@, "label names cannot be empty"@))
    } else if has_char(labels[0], ' ') {
        Some(("labels"@, "label '"@ + labels[0] + "' cannot contain spaces"@))
    } else {
        label_failure(labels.drop_first())
    }
}

/// Why search parameters are refused, the first check that fails: the
/// limit (1 to 200), the offset (at most 10000), blank issue types or
/// statuses, a query text over 1000 bytes, blank or spaced labels, blank
/// components.
pub open spec fn spec_search_failure(p: SearchIssuesParams) -> Option<(Seq<char>, Seq<char>)> {
    if p.limit is Some && p.limit->0 == 0 {
        Some(("limit"@, "Limit must be greater than 0"@))
    } else if p.limit is Some && p.limit->0 > 200 {
        Some(("limit"@, "Limit cannot exceed 200 per JIRA API restrictions"@))
    } else if p.start_at is Some && p.start_at->0 > 10000 {
        Some(("start_at"@, "start_at cannot exceed 10000 per JIRA API restrictions"@))
    } else if opt_some_blank(p.issue_types) {
        Some(("issue_types"@, "issue_type names cannot be empty"@))
    } else if opt_some_blank(p.status) {
        Some(("status"@, "status names cannot be empty"@))
    } else if p.query_text is Some && byte_len(p.query_text->0@) > 1000 {
        Some(("query_text"@, "query_text cannot exceed 1000 characters"@))
    } else if p.labels is Some && label_failure(views(p.labels->0@)) is Some {
        label_failure(views(p.labels->0@))
    } else if opt_some_blank(p.components) {
        Some(("components"@, "component names cannot be empty"@))
    } else {
        None
    }
}

fn owned(s: &str) -> (r: String)
    ensures
        r@ == s@,
{
    s.to_owned()
}

fn check_labels(labels: &[String]) -> (r: JiraMcpResult<()>)
    ensures
        check_result(r, label_failure(views(labels@))),
{
    let ghost all = views(labels@);
    assert(all.subrange(0, all.len() as int) =~= all);
    let mut i: usize = 0;
    while i < labels.len()
        invariant
            i <= labels@.len(),
            all == views(labels@),
            label_failure(all) == label_failure(all.subrange(i as int, all.len() as int)),
        decreases labels@.len() - i,
    {
        let ghost rest = all.subrange(i as int, all.len() as int);
        assert(rest[0] == labels@[i as int]@);
        assert(rest.drop_first() =~= all.subrange(i + 1, all.len() as int));
        let label = labels[i].as_str();
        if is_blank(label) {
            return Err(JiraMcpError::invalid_param("labels", "label names cannot be empty"));
        }
        let cs = chars_of(label);
        if find_char(cs.as_slice(), ' ').is_some() {
            let mut m = owned("label '");
            m.append(label);
            m.append("' cannot contain spaces");
            return Err(JiraMcpError::InvalidParameter { parameter: owned("labels"), message: m });
        }
        i = i + 1;
    }
    assert(all.subrange(all.len() as int, all.len() as int).len() == 0);
    Ok(())
}

/// Validate search parameters
pub fn validate_params(params: &SearchIssuesParams) -> (r: JiraMcpResult<()>)
    ensures
        check_result(r, spec_search_failure(*params)),
{
    if let Some(limit) = params.limit {
        if limit == 0 {
            return Err(JiraMcpError::invalid_param("limit", "Limit must be greater than 0"));
        }
        if limit > 200 {
            return Err(
                JiraMcpError::invalid_param(
                    "limit",
                    "Limit cannot exceed 200 per JIRA API restrictions",
                ),
            );
        }
    }
    if let Some(start_at) = params.start_at {
        if start_at > 10000 {
            return Err(
                JiraMcpError::invalid_param(
                    "start_at",
                    "start_at cannot exceed 10000 per JIRA API restrictions",
                ),
            );
        }
    }
    check_names(&params.issue_types, "issue_types", "issue_type names cannot be empty")?;
    check_names(&params.status, "status", "status names cannot be empty")?;
    if let Some(q) = &params.query_text {
        if q.as_str().len() > 1000 {
            return Err(
                JiraMcpError::invalid_param(
                    "query_text",
                    "query_text cannot exceed 1000 characters",
                ),
            );
        }
    }
    if let Some(labels) = &params.labels {
        check_labels(labels.as_slice())?;
    }
    check_names(&params.components, "components", "component names cannot be empty")?;
    Ok(())
}

/// The name of a query complexity.
pub open spec fn complexity_name(c: QueryComplexity) -> Seq<char> {
    match c {
        QueryComplexity::Simple => "simple"@,
        QueryComplexity::Moderate => "moderate"@,
        QueryComplexity::Complex => "complex"@,
    }
}

/// Convert QueryComplexity to string
pub fn complexity_to_string(complexity: &QueryComplexity) -> (r: String)
    ensures
        r@ == complexity_name(*complexity),
{
    match complexity {
        QueryComplexity::Simple => owned("simple"),
        QueryComplexity::Moderate => owned("moderate"),
        QueryComplexity::Complex => owned("complex"),
    }
}

/// The board a board name designates in the cache at time `now`: its
/// cached ID and the cached board of that ID, both fresh.
pub open spec fn cached_board(cache: MetadataCache, board_name: Seq<char>, now: u64) -> Option<
    (Seq<char>, Seq<char>, Seq<char>, Option<Seq<char>>),
> {
    if cache.board_ids().contains_key(board_name) && fresh(
        cache.board_ids()[board_name],
        cache.ttl(),
        now,
    ) {
        let id = cache.board_ids()[board_name].value@;
        if cache.board_infos().contains_key(id) && fresh(cache.board_infos()[id], cache.ttl(), now) {
            Some(cache.board_infos()[id].value@)
        } else {
            None
        }
    } else {
        None
    }
}

/// The project a search is scoped to at time `now`, and whether the cache
/// supplied it: a board name whose ID and board are both cached and fresh
/// gives the board's project (the project key given when the board has
/// none); otherwise the project key given.
pub fn resolve_project_key_at(
    cache: &MetadataCache,
    board_name: &Option<String>,
    project_key: &Option<String>,
    now: u64,
) -> (r: (Option<String>, bool))
    requires
        cache.wf(),
    ensures
        ({
            let hit = match board_name {
                Some(b) => cached_board(*cache, b@, now),
                None => None,
            };
            match hit {
                Some(info) => r.1 && opt_view(r.0) == match info.3 {
                    Some(k) => Some(k),
                    None => opt_view(*project_key),
                },
                None => !r.1 && opt_view(r.0) == opt_view(*project_key),
            }
        }),
{
    if let Some(b) = board_name {
        if let Some(id) = cache.get_board_id_at(b.as_str(), now) {
            if let Some(info) = cache.get_board_info_at(id.as_str(), now) {
                let key = match info.project_key {
                    Some(k) => Some(k),
                    None => clone_opt(project_key),
                };
                return (key, true);
            }
        }
    }
    (clone_opt(project_key), false)
}

/// The page of a search: at most 200 results (the configured page size
/// by default) from offset 0 by default.
pub fn search_page(params: &SearchIssuesParams, default_limit: u32) -> (r: (usize, usize))
    ensures
        r.0 == match params.start_at {
            Some(s) => s as int,
            None => 0,
        },
        r.1 == ({
            let l: int = match params.limit {
                Some(l) => l as int,
                None => default_limit as int,
            };
            if l < 200 {
                l
            } else {
                200
            }
        }),
{
    let limit: u32 = match params.limit {
        Some(l) => l,
        None => default_limit,
    };
    let limit = if limit < 200 {
        limit
    } else {
        200
    };
    let start: u32 = match params.start_at {
        Some(s) => s,
        None => 0,
    };
    (start as usize, limit as usize)
}

/// The list filters of a search, an empty list counting as none.
pub fn non_empty(o: &Option<Vec<String>>) -> (r: Option<&[String]>)
    ensures
        match given_names(*o) {
            Some(ns) => if ns.len() > 0 {
                r matches Some(v) && views(v@) == ns
            } else {
                r is None
            },
            None => r is None,
        },
{
    match o {
        Some(v) => if v.len() > 0 {
            Some(v.as_slice())
        } else {
            None
        },
        None => None,
    }
}

} // verus!
