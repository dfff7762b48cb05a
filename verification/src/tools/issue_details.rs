//! The get_issue_details tool: its parameters, the checks and
//! normalisation of issue keys, and the estimate of a response's size.

use crate::error::{JiraMcpError, JiraMcpResult};
use crate::jira_client::{CommentInfo, IssueDetails};
use crate::text::{
    byte_len, chars_of, find_char, has_char, index_of_char, is_blank_seq, string_from_range, trim,
    trim_seq, to_uppercase, uppercase,
};
use crate::tools::validation::{
    all_alphabetic, all_numeric, check_result, str_all_alphabetic, str_all_numeric,
};
use vstd::prelude::*;

verus! {

/// Parameters for the get_issue_details tool
#[derive(Debug, Clone)]
pub struct GetIssueDetailsParams {
    /// JIRA issue key (required), such as "PROJ-123"
    pub issue_key: String,
    /// Include comments in the response (optional, default: false)
    pub include_comments: Option<bool>,
    /// Include attachment metadata in the response (optional, default: false)
    pub include_attachments: Option<bool>,
    /// Include change history in the response (optional, default: false)
    pub include_history: Option<bool>,
}

/// Result from the get_issue_details tool
#[derive(Debug, Clone)]
pub struct GetIssueDetailsResult {
    /// Detailed issue information
    pub issue_details: IssueDetails,
    /// Performance information
    pub performance: IssueDetailsPerformance,
    /// Additional metadata
    pub metadata: IssueDetailsMetadata,
}

/// Performance metrics for issue details operations
#[derive(Debug, Clone)]
pub struct IssueDetailsPerformance {
    /// Time taken for the operation in milliseconds
    pub duration_ms: u64,
    /// Whether the issue data hit the cache
    pub cache_hit: bool,
    /// Number of JIRA API calls made
    pub api_calls: u32,
    /// Size of the response data (estimated)
    pub response_size_estimate: usize,
}

/// Metadata about the issue details operation
#[derive(Debug, Clone)]
pub struct IssueDetailsMetadata {
    /// Issue key that was requested
    pub requested_key: String,
    /// Issue key that was actually resolved
    pub resolved_key: String,
    /// Whether additional data was included
    pub includes_comments: bool,
    pub includes_attachments: bool,
    pub includes_history: bool,
    /// Data freshness information: "fresh" or "cached"
    pub data_freshness: String,
}

fn owned(s: &str) -> (r: String)
    ensures
        r@ == s@,
{
    s.to_owned()
}

// ---------------------------------------------------------------------------
// Issue keys

/// The text before the first '-' (all of it when there is none).
pub open spec fn first_segment(s: Seq<char>) -> Seq<char> {
    let k = index_of_char(s, '-');
    if k < 0 {
        s
    } else {
        s.subrange(0, k)
    }
}

/// The text between the first '-' and the next one (or the end).
pub open spec fn second_segment(s: Seq<char>) -> Seq<char> {
    let k = index_of_char(s, '-');
    first_segment(s.subrange(k + 1, s.len() as int))
}

/// A key whose project part (before the first '-') is non-empty and
/// alphabetic and whose number part (up to the next '-') is non-empty and
/// numeric.
pub open spec fn key_parts_valid(key: Seq<char>) -> bool {
    &&& has_char(key, '-')
    &&& first_segment(key).len() > 0
    &&& all_alphabetic(first_segment(key))
    &&& second_segment(key).len() > 0
    &&& all_numeric(second_segment(key))
}

proof fn lemma_index_bounds(s: Seq<char>, c: char)
    ensures
        -1 <= index_of_char(s, c) < s.len(),
        has_char(s, c) <==> index_of_char(s, c) >= 0,
        index_of_char(s, c) >= 0 ==> s[index_of_char(s, c)] == c,
    decreases s.len(),
{
    if s.len() > 0 {
        lemma_index_bounds(s.drop_first(), c);
        if s[0] != c {
            if has_char(s, c) {
                let j = choose|j: int| 0 <= j < s.len() && s[j] == c;
                assert(s.drop_first()[j - 1] == c);
            }
            if has_char(s.drop_first(), c) {
                let j = choose|j: int| 0 <= j < s.len() - 1 && s.drop_first()[j] == c;
                assert(s[j + 1] == c);
            }
        }
    }
}

/// A key in which '-' occurs once holds a '-'.
pub proof fn lemma_has_dash(key: Seq<char>)
    requires
        crate::tools::transitions::count_char(key, '-') == 1,
    ensures
        has_char(key, '-'),
{
    crate::tools::transitions::lemma_count_has(key, '-');
}

/// The text before the first '-' of `cs` (all of it when there is none).
fn first_segment_of(cs: &[char]) -> (r: String)
    ensures
        r@ == first_segment(cs@),
{
    match find_char(cs, '-') {
        Some(k) => string_from_range(cs, 0, k),
        None => string_from_range(cs, 0, cs.len()),
    }
}

/// The two segments of a key that holds a '-'.
pub(crate) fn key_segments(key: &str) -> (r: (String, String))
    requires
        has_char(key@, '-'),
    ensures
        r.0@ == first_segment(key@),
        r.1@ == second_segment(key@),
{
    let cs = chars_of(key);
    proof {
        lemma_index_bounds(key@, '-');
    }
    match find_char(cs.as_slice(), '-') {
        Some(k) => {
            let n = cs.len();
            assert(k < n);
            let first = string_from_range(cs.as_slice(), 0, k);
            let rest: Vec<char> = chars_of(
                string_from_range(cs.as_slice(), k + 1, n).as_str(),
            );
            let second = first_segment_of(rest.as_slice());
            (first, second)
        },
        None => {
            assert(false);
            (String::new(), String::new())
        },
    }
}

/// Why an issue key is refused, the first check that fails; the key is
/// read trimmed.
pub open spec fn spec_issue_key_failure(issue_key: Seq<char>) -> Option<(Seq<char>, Seq<char>)> {
    let key = trim_seq(issue_key);
    if key.len() == 0 {
        Some(
            (
                "issue_key"@,
                "Issue key is required. Please provide a JIRA issue key (e.g., 'PROJ-123'). Use the search_issues tool first to find issues if you don't know the key."@,
            ),
        )
    } else if !has_char(key, '-') {
        Some(("issue_key"@, "Issue key must follow PROJECT-NUMBER format (e.g., 'PROJ-123')"@))
    } else if first_segment(key).len() == 0 || !all_alphabetic(first_segment(key)) {
        Some(("issue_key"@, "Project part of issue key must contain only letters"@))
    } else if second_segment(key).len() == 0 || !all_numeric(second_segment(key)) {
        Some(("issue_key"@, "Number part of issue key must contain only digits"@))
    } else if byte_len(key) > 100 {
        Some(("issue_key"@, "Issue key cannot exceed 100 characters"@))
    } else {
        None
    }
}

/// Validate issue details parameters
pub fn validate_params(params: &GetIssueDetailsParams) -> (r: JiraMcpResult<()>)
    ensures
        check_result(r, spec_issue_key_failure(params.issue_key@)),
{
    let key = trim(params.issue_key.as_str());
    if key.as_str().is_empty() {
        return Err(
            JiraMcpError::invalid_param(
                "issue_key",
                "Issue key is required. Please provide a JIRA issue key (e.g., 'PROJ-123'). Use the search_issues tool first to find issues if you don't know the key.",
            ),
        );
    }
    let cs = chars_of(key.as_str());
    if find_char(cs.as_slice(), '-').is_none() {
        return Err(
            JiraMcpError::invalid_param(
                "issue_key",
                "Issue key must follow PROJECT-NUMBER format (e.g., 'PROJ-123')",
            ),
        );
    }
    let (project, number) = key_segments(key.as_str());
    if project.as_str().is_empty() || !str_all_alphabetic(project.as_str()) {
        return Err(
            JiraMcpError::invalid_param(
                "issue_key",
                "Project part of issue key must contain only letters",
            ),
        );
    }
    if number.as_str().is_empty() || !str_all_numeric(number.as_str()) {
        return Err(
            JiraMcpError::invalid_param(
                "issue_key",
                "Number part of issue key must contain only digits",
            ),
        );
    }
    if key.as_str().len() > 100 {
        return Err(
            JiraMcpError::invalid_param("issue_key", "Issue key cannot exceed 100 characters"),
        );
    }
    Ok(())
}

/// Normalize issue key (uppercase, trim whitespace); a key under three
/// bytes once normalised is refused.
pub fn normalize_issue_key(key: &str) -> (r: JiraMcpResult<String>)
    ensures
        ({
            let n = uppercase(trim_seq(key@));
            if byte_len(n) < 3 {
                r matches Err(e) && crate::tools::validation::invalid_param_is(
                    e,
                    "issue_key"@,
                    "Issue key too short after normalization"@,
                )
            } else {
                r matches Ok(s) && s@ == n
            }
        }),
{
    let t = trim(key);
    let normalized = to_uppercase(t.as_str());
    if normalized.as_str().len() < 3 {
        return Err(
            JiraMcpError::invalid_param("issue_key", "Issue key too short after normalization"),
        );
    }
    Ok(normalized)
}

/// Extract issue project key from issue key: the text before the first
/// '-', in upper case.
pub fn extract_project_key(issue_key: &str) -> (r: Option<String>)
    ensures
        r matches Some(k) && k@ == uppercase(first_segment(issue_key@)),
{
    let cs = chars_of(issue_key);
    let first = first_segment_of(cs.as_slice());
    Some(to_uppercase(first.as_str()))
}

/// Check if issue key format is valid (basic check): not blank, and its
/// project and number parts are valid.
pub fn is_valid_issue_key_format(key: &str) -> (r: bool)
    ensures
        r == (!is_blank_seq(key@) && key_parts_valid(key@)),
{
    if crate::text::is_blank(key) {
        return false;
    }
    let cs = chars_of(key);
    if find_char(cs.as_slice(), '-').is_none() {
        return false;
    }
    let (project, number) = key_segments(key);
    !project.as_str().is_empty() && str_all_alphabetic(project.as_str())
        && !number.as_str().is_empty() && str_all_numeric(number.as_str())
}

// ---------------------------------------------------------------------------
// Response size

/// The bytes of the comment bodies, summed.
pub open spec fn body_bytes(cs: Seq<CommentInfo>) -> int
    decreases cs.len(),
{
    if cs.len() == 0 {
        0
    } else {
        body_bytes(cs.drop_last()) + byte_len(cs.last().body@)
    }
}

/// The rough size of a response in bytes: 1000 for the issue, twice the
/// bytes of its summary and description, 500 per comment and twice the
/// bytes of their bodies, 200 per attachment, 300 per history entry,
/// each counted when it was asked for and is there.
pub open spec fn spec_response_size(
    d: IssueDetails,
    include_comments: bool,
    include_attachments: bool,
    include_history: bool,
) -> int {
    1000 + 2 * byte_len(d.issue_info.summary@) + match d.issue_info.description {
        Some(t) => 2 * byte_len(t@),
        None => 0,
    } + (if include_comments && d.comments is Some {
        500 * d.comments->0@.len() + 2 * body_bytes(d.comments->0@)
    } else {
        0
    }) + (if include_attachments && d.attachments is Some {
        200 * d.attachments->0@.len()
    } else {
        0
    }) + (if include_history && d.history is Some {
        300 * d.history->0@.len()
    } else {
        0
    })
}

/// Estimate response size in bytes (rough calculation); the sum is in
/// 128-bit arithmetic and must fit in a `usize`.
pub fn estimate_response_size(
    issue_details: &IssueDetails,
    include_comments: bool,
    include_attachments: bool,
    include_history: bool,
) -> (r: usize)
    requires
        spec_response_size(*issue_details, include_comments, include_attachments, include_history)
            <= usize::MAX,
    ensures
        r == spec_response_size(
            *issue_details,
            include_comments,
            include_attachments,
            include_history,
        ),
{
    let mut size: u128 = 1000;
    size = size + 2 * (issue_details.issue_info.summary.as_str().len() as u128);
    if let Some(desc) = &issue_details.issue_info.description {
        size = size + 2 * (desc.as_str().len() as u128);
    }
    if include_comments {
        if let Some(comments) = &issue_details.comments {
            size = size + 500 * (comments.len() as u128);
            let mut bodies: u128 = 0;
            let mut i: usize = 0;
            while i < comments.len()
                invariant
                    i <= comments@.len(),
                    bodies == body_bytes(comments@.subrange(0, i as int)),
                    bodies <= i * usize::MAX,
                decreases comments@.len() - i,
            {
                let b = comments[i].body.as_str().len();
                assert(comments@.subrange(0, i + 1).drop_last() =~= comments@.subrange(
                    0,
                    i as int,
                ));
                bodies = bodies + b as u128;
                i = i + 1;
                assert(bodies <= i * usize::MAX) by (nonlinear_arith)
                    requires
                        bodies <= (i - 1) * usize::MAX + usize::MAX,
                ;
            }
            assert(comments@.subrange(0, comments@.len() as int) =~= comments@);
            size = size + 2 * bodies;
        }
    }
    if include_attachments {
        if let Some(attachments) = &issue_details.attachments {
            size = size + 200 * (attachments.len() as u128);
        }
    }
    if include_history {
        if let Some(history) = &issue_details.history {
            size = size + 300 * (history.len() as u128);
        }
    }
    size as usize
}

} // verus!
