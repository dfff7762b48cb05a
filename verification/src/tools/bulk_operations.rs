//! The bulk tools: their limits and retry policy, the checks of their
//! parameters, the bookkeeping of outcomes while the work runs, and the
//! results they report.

use crate::error::{spec_error_text, JiraMcpError, JiraMcpResult};
use crate::text::{contains_seq, decimal_seq, decimal_string, str_contains, str_eq, views};
use crate::tools::create_issue::CreateIssueResult;
use crate::tools::validation::{check_result, invalid_param_is};
use vstd::prelude::*;

verus! {

/// How many operations run at once by default.
pub const DEFAULT_MAX_CONCURRENT: usize = 5;

/// The most operations that may run at once.
pub const MAX_ALLOWED_CONCURRENT: usize = 20;

/// How many times a failed operation is retried by default.
pub const DEFAULT_MAX_RETRIES: usize = 3;

/// The first delay before a retry by default, in milliseconds.
pub const DEFAULT_INITIAL_RETRY_DELAY_MS: u64 = 1000;

/// The shortest first delay before a retry, in milliseconds.
pub const MIN_RETRY_DELAY_MS: u64 = 500;

/// The longest delay between retries, in milliseconds.
pub const MAX_RETRY_DELAY_MS: u64 = 30000;

/// The outcome of one created issue
#[derive(Debug, Clone)]
pub struct BulkIssueCreationResult {
    /// Index in the original request array
    pub index: usize,
    /// The created issue (if successful)
    pub issue: Option<CreateIssueResult>,
    /// Error message (if failed)
    pub error: Option<String>,
    /// Whether this specific issue creation succeeded
    pub success: bool,
}

/// Result of bulk issue creation
#[derive(Debug, Clone)]
pub struct BulkCreateIssuesResult {
    /// Results for each issue
    pub results: Vec<BulkIssueCreationResult>,
    /// Number of successfully created issues
    pub success_count: usize,
    /// Number of failed issue creations
    pub failure_count: usize,
    /// Total execution time in milliseconds
    pub execution_time_ms: u64,
    /// Summary message
    pub message: String,
}

/// Parameters for bulk transitioning issues
#[derive(Debug, Clone)]
pub struct BulkTransitionIssuesParams {
    /// Issue keys to transition
    pub issue_keys: Vec<String>,
    /// Transition ID to execute
    pub transition_id: Option<String>,
    /// Transition name (alternative to ID)
    pub transition_name: Option<String>,
    /// Optional comment to add during transition
    pub comment: Option<String>,
    /// Optional resolution
    pub resolution: Option<String>,
    /// Whether to stop on first error (default: false)
    pub stop_on_error: bool,
    /// Maximum concurrent operations (default: 5, max: 20)
    pub max_concurrent: Option<usize>,
    /// Maximum retry attempts on failure (default: 3)
    pub max_retries: Option<usize>,
    /// Initial delay between retries in milliseconds (default: 1000)
    pub initial_retry_delay_ms: Option<u64>,
}

/// The outcome of one transitioned issue
#[derive(Debug, Clone)]
pub struct BulkIssueTransitionResult {
    /// Issue key
    pub issue_key: String,
    /// New status after transition (if successful)
    pub new_status: Option<String>,
    /// Error message (if failed)
    pub error: Option<String>,
    /// Whether this transition succeeded
    pub success: bool,
}

/// Result of bulk issue transition
#[derive(Debug, Clone)]
pub struct BulkTransitionIssuesResult {
    /// Results for each issue
    pub results: Vec<BulkIssueTransitionResult>,
    /// Number of successful transitions
    pub success_count: usize,
    /// Number of failed transitions
    pub failure_count: usize,
    /// Total execution time in milliseconds
    pub execution_time_ms: u64,
    /// Summary message
    pub message: String,
}

/// The outcome of one updated issue
#[derive(Debug, Clone)]
pub struct BulkIssueUpdateResult {
    /// Issue key
    pub issue_key: String,
    /// Error message (if failed)
    pub error: Option<String>,
    /// Whether this update succeeded
    pub success: bool,
}

/// Result of bulk field updates
#[derive(Debug, Clone)]
pub struct BulkUpdateFieldsResult {
    /// Results for each issue
    pub results: Vec<BulkIssueUpdateResult>,
    /// Number of successful updates
    pub success_count: usize,
    /// Number of failed updates
    pub failure_count: usize,
    /// Total execution time in milliseconds
    pub execution_time_ms: u64,
    /// Summary message
    pub message: String,
}

/// Parameters for bulk assigning issues
#[derive(Debug, Clone)]
pub struct BulkAssignIssuesParams {
    /// Issue keys to assign
    pub issue_keys: Vec<String>,
    /// Assignee: "me", "self", an account ID, or none to unassign
    pub assignee: Option<String>,
    /// Whether to stop on first error (default: false)
    pub stop_on_error: bool,
    /// Maximum concurrent operations (default: 5, max: 20)
    pub max_concurrent: Option<usize>,
    /// Maximum retry attempts on failure (default: 3)
    pub max_retries: Option<usize>,
    /// Initial delay between retries in milliseconds (default: 1000)
    pub initial_retry_delay_ms: Option<u64>,
}

/// Result of bulk assignment
#[derive(Debug, Clone)]
pub struct BulkAssignIssuesResult {
    /// Results for each issue
    pub results: Vec<BulkIssueUpdateResult>,
    /// Number of successful assignments
    pub success_count: usize,
    /// Number of failed assignments
    pub failure_count: usize,
    /// Total execution time in milliseconds
    pub execution_time_ms: u64,
    /// The assignee used
    pub assignee: String,
    /// Summary message
    pub message: String,
}

/// Parameters for bulk label changes
#[derive(Debug, Clone)]
pub struct BulkAddLabelsParams {
    /// Issue keys to update
    pub issue_keys: Vec<String>,
    /// Labels to add
    pub add_labels: Vec<String>,
    /// Labels to remove
    pub remove_labels: Vec<String>,
    /// Whether to stop on first error (default: false)
    pub stop_on_error: bool,
    /// Maximum concurrent operations (default: 5, max: 20)
    pub max_concurrent: Option<usize>,
    /// Maximum retry attempts on failure (default: 3)
    pub max_retries: Option<usize>,
    /// Initial delay between retries in milliseconds (default: 1000)
    pub initial_retry_delay_ms: Option<u64>,
}

/// Result of bulk label changes
#[derive(Debug, Clone)]
pub struct BulkAddLabelsResult {
    /// Results for each issue
    pub results: Vec<BulkIssueUpdateResult>,
    /// Number of successful updates
    pub success_count: usize,
    /// Number of failed updates
    pub failure_count: usize,
    /// Total execution time in milliseconds
    pub execution_time_ms: u64,
    /// Summary message
    pub message: String,
}

fn owned(s: &str) -> (r: String)
    ensures
        r@ == s@,
{
    s.to_owned()
}

// ---------------------------------------------------------------------------
// Limits and retries

/// The number of operations run at once: the one asked for (5 by
/// default), kept between 1 and 20.
pub fn get_concurrency_limit(max_concurrent: Option<usize>) -> (r: usize)
    ensures
        ({
            let m = match max_concurrent {
                Some(m) => m,
                None => DEFAULT_MAX_CONCURRENT,
            };
            r == if m < 1 {
                1
            } else if m > MAX_ALLOWED_CONCURRENT {
                MAX_ALLOWED_CONCURRENT
            } else {
                m
            }
        }),
        1 <= r <= MAX_ALLOWED_CONCURRENT,
{
    let m = match max_concurrent {
        Some(m) => m,
        None => DEFAULT_MAX_CONCURRENT,
    };
    if m < 1 {
        1
    } else if m > MAX_ALLOWED_CONCURRENT {
        MAX_ALLOWED_CONCURRENT
    } else {
        m
    }
}

/// The retries allowed and the first delay: 3 retries and 1000 ms by
/// default, the delay raised to at least 500 ms.
pub fn get_retry_config(max_retries: Option<usize>, initial_delay_ms: Option<u64>) -> (r: (
    usize,
    u64,
))
    ensures
        r.0 == match max_retries {
            Some(m) => m,
            None => DEFAULT_MAX_RETRIES,
        },
        ({
            let d = match initial_delay_ms {
                Some(d) => d,
                None => DEFAULT_INITIAL_RETRY_DELAY_MS,
            };
            r.1 == if d < MIN_RETRY_DELAY_MS {
                MIN_RETRY_DELAY_MS
            } else {
                d
            }
        }),
        r.1 >= MIN_RETRY_DELAY_MS,
{
    let retries = match max_retries {
        Some(m) => m,
        None => DEFAULT_MAX_RETRIES,
    };
    let d = match initial_delay_ms {
        Some(d) => d,
        None => DEFAULT_INITIAL_RETRY_DELAY_MS,
    };
    let delay = if d < MIN_RETRY_DELAY_MS {
        MIN_RETRY_DELAY_MS
    } else {
        d
    };
    (retries, delay)
}

/// A failure worth retrying: a rate limit, a timeout, or a server error,
/// as its text says.
pub open spec fn spec_retryable(text: Seq<char>) -> bool {
    contains_seq(text, "429"@) || contains_seq(text, "rate limit"@) || contains_seq(
        text,
        "timeout"@,
    ) || contains_seq(text, "timed out"@) || contains_seq(text, "500"@) || contains_seq(
        text,
        "502"@,
    ) || contains_seq(text, "503"@)
}

/// Whether a failure with this text is worth retrying.
pub fn is_retryable(text: &str) -> (r: bool)
    ensures
        r == spec_retryable(text@),
{
    str_contains(text, "429") || str_contains(text, "rate limit") || str_contains(text, "timeout")
        || str_contains(text, "timed out") || str_contains(text, "500") || str_contains(text, "502")
        || str_contains(text, "503")
}

/// A failure is worth retrying when its text reports a server error
/// ("500", "502", "503"), a rate limit ("429", "rate limit") or a time-out
/// ("timeout", "timed out"), and only then; with retries left, such a
/// failure moves the retry state on: one more attempt, the delay doubled
/// up to 30 s.
pub proof fn law_transient_failures_retry(text: Seq<char>, state: RetryState, max_retries: usize)
    ensures
        spec_retryable(text) <==> (contains_seq(text, "500"@) || contains_seq(text, "502"@)
            || contains_seq(text, "503"@) || contains_seq(text, "429"@) || contains_seq(
            text,
            "rate limit"@,
        ) || contains_seq(text, "timeout"@) || contains_seq(text, "timed out"@)),
        (contains_seq(text, "500"@) || contains_seq(text, "502"@) || contains_seq(text, "503"@))
            && state.attempt < max_retries ==> spec_retryable(text) && spec_next_delay(
            state.delay_ms,
        ) == if 2 * state.delay_ms < 30000 {
            2 * state.delay_ms
        } else {
            30000
        },
{
}

/// The delay after a given one: doubled, at most 30 s.
pub open spec fn spec_next_delay(delay_ms: u64) -> u64 {
    if 2 * delay_ms < MAX_RETRY_DELAY_MS {
        (2 * delay_ms) as u64
    } else {
        MAX_RETRY_DELAY_MS
    }
}

/// Where a retried operation stands: how many retries were made and the
/// delay before the next one.
#[derive(Debug, Clone, Copy, PartialEq, Eq, Structural)]
pub struct RetryState {
    pub attempt: usize,
    pub delay_ms: u64,
}

/// The state before the first attempt.
pub fn first_attempt(initial_delay_ms: u64) -> (r: RetryState)
    ensures
        r.attempt == 0,
        r.delay_ms == initial_delay_ms,
{
    RetryState { attempt: 0, delay_ms: initial_delay_ms }
}

/// What to do after a failed attempt whose error reads `text`: give up
/// (`None`) when the failure is not worth retrying or the retries are
/// spent; else wait `state.delay_ms` and try again in the state returned,
/// whose delay is doubled up to 30 s.
pub fn after_failure(state: RetryState, max_retries: usize, text: &str) -> (r: Option<RetryState>)
    ensures
        !spec_retryable(text@) || state.attempt >= max_retries ==> r is None,
        spec_retryable(text@) && state.attempt < max_retries ==> r == Some(
            RetryState { attempt: (state.attempt + 1) as usize, delay_ms: spec_next_delay(state.delay_ms) },
        ),
{
    if !is_retryable(text) || state.attempt >= max_retries {
        return None;
    }
    let doubled: u128 = 2 * (state.delay_ms as u128);
    let next: u64 = if doubled < MAX_RETRY_DELAY_MS as u128 {
        doubled as u64
    } else {
        MAX_RETRY_DELAY_MS
    };
    Some(RetryState { attempt: state.attempt + 1, delay_ms: next })
}

/// The delays of retries never exceed 30 s once one has been doubled, and
/// an operation is tried at most `max_retries + 1` times.
pub proof fn law_retry_bounded(state: RetryState, max_retries: usize, text: Seq<char>, next: RetryState)
    requires
        spec_retryable(text),
        state.attempt < max_retries,
        next == (RetryState { attempt: (state.attempt + 1) as usize, delay_ms: spec_next_delay(state.delay_ms) }),
    ensures
        next.delay_ms <= MAX_RETRY_DELAY_MS,
        next.attempt <= max_retries,
        next.delay_ms >= state.delay_ms || next.delay_ms == MAX_RETRY_DELAY_MS,
{
}

// ---------------------------------------------------------------------------
// Running

/// The counts of a bulk run.
#[derive(Debug, Clone, Copy, PartialEq, Eq, Structural)]
pub struct BulkTally {
    pub success_count: usize,
    pub failure_count: usize,
}

/// Nothing finished yet.
pub fn new_tally() -> (r: BulkTally)
    ensures
        r.success_count == 0,
        r.failure_count == 0,
{
    BulkTally { success_count: 0, failure_count: 0 }
}

/// More work is started only while fewer than `limit` operations run.
pub fn must_wait(pending: usize, limit: usize) -> (r: bool)
    ensures
        r == (pending >= limit),
{
    pending >= limit
}

/// Count a finished operation; `while_starting` says whether operations
/// are still being started. Returns whether to stop starting more: after a
/// failure while starting, when asked to stop on errors.
pub fn record_outcome(tally: &mut BulkTally, success: bool, stop_on_error: bool, while_starting: bool) -> (stop: bool)
    requires
        old(tally).success_count + old(tally).failure_count < usize::MAX,
    ensures
        success ==> final(tally).success_count == old(tally).success_count + 1
            && final(tally).failure_count == old(tally).failure_count,
        !success ==> final(tally).failure_count == old(tally).failure_count + 1
            && final(tally).success_count == old(tally).success_count,
        stop == (!success && stop_on_error && while_starting),
{
    if success {
        tally.success_count = tally.success_count + 1;
    } else {
        tally.failure_count = tally.failure_count + 1;
    }
    !success && stop_on_error && while_starting
}

/// Count an operation whose task could not be joined: a failure, with no
/// result.
pub fn record_lost_task(tally: &mut BulkTally)
    requires
        old(tally).failure_count < usize::MAX,
    ensures
        final(tally).failure_count == old(tally).failure_count + 1,
        final(tally).success_count == old(tally).success_count,
{
    tally.failure_count = tally.failure_count + 1;
}

/// The summary of a bulk run: "Bulk {verb} {successes}/{total} {what}
/// successfully ({failures} failed)".
pub open spec fn spec_bulk_message(verb: Seq<char>, what: Seq<char>, tally: BulkTally, total: nat) -> Seq<
    char,
> {
    "Bulk "@ + verb + " "@ + decimal_seq(tally.success_count as nat) + "/"@ + decimal_seq(total)
        + " "@ + what + " successfully ("@ + decimal_seq(tally.failure_count as nat)
        + " failed)"@
}

/// Build the summary of a bulk run.
pub fn bulk_message(verb: &str, what: &str, tally: BulkTally, total: usize) -> (r: String)
    ensures
        r@ == spec_bulk_message(verb@, what@, tally, total as nat),
{
    let mut m = owned("Bulk ");
    m.append(verb);
    m.append(" ");
    let s = decimal_string(tally.success_count as u64);
    m.append(s.as_str());
    m.append("/");
    let t = decimal_string(total as u64);
    m.append(t.as_str());
    m.append(" ");
    m.append(what);
    m.append(" successfully (");
    let f = decimal_string(tally.failure_count as u64);
    m.append(f.as_str());
    m.append(" failed)");
    m
}

// ---------------------------------------------------------------------------
// Checks

/// Refuse a bulk run over no issue.
pub fn check_issue_keys(issue_keys: &Vec<String>) -> (r: JiraMcpResult<()>)
    ensures
        issue_keys@.len() > 0 ==> r is Ok,
        issue_keys@.len() == 0 ==> (r matches Err(e) && invalid_param_is(
            e,
            "issue_keys"@,
            "Must provide at least one issue key"@,
        )),
{
    if issue_keys.len() == 0 {
        return Err(JiraMcpError::invalid_param("issue_keys", "Must provide at least one issue key"));
    }
    Ok(())
}

/// Refuse a bulk creation of no issue.
pub fn check_issue_count(count: usize) -> (r: JiraMcpResult<()>)
    ensures
        count > 0 ==> r is Ok,
        count == 0 ==> (r matches Err(e) && invalid_param_is(
            e,
            "issues"@,
            "Must provide at least one issue to create"@,
        )),
{
    if count == 0 {
        return Err(
            JiraMcpError::invalid_param("issues", "Must provide at least one issue to create"),
        );
    }
    Ok(())
}

/// Why bulk transition parameters are refused.
pub open spec fn spec_bulk_transition_failure(p: BulkTransitionIssuesParams) -> Option<
    (Seq<char>, Seq<char>),
> {
    if p.issue_keys@.len() == 0 {
        Some(("issue_keys"@, "Must provide at least one issue key"@))
    } else if p.transition_id is None && p.transition_name is None {
        Some(
            (
                "transition_id or transition_name"@,
                "Must provide either transition_id or transition_name"@,
            ),
        )
    } else {
        None
    }
}

/// Validate bulk transition parameters.
pub fn validate_transition_params(params: &BulkTransitionIssuesParams) -> (r: JiraMcpResult<()>)
    ensures
        check_result(r, spec_bulk_transition_failure(*params)),
{
    check_issue_keys(&params.issue_keys)?;
    if params.transition_id.is_none() && params.transition_name.is_none() {
        return Err(
            JiraMcpError::invalid_param(
                "transition_id or transition_name",
                "Must provide either transition_id or transition_name",
            ),
        );
    }
    Ok(())
}

/// Refuse a bulk field update with no field.
pub fn check_field_updates(field_count: usize) -> (r: JiraMcpResult<()>)
    ensures
        field_count > 0 ==> r is Ok,
        field_count == 0 ==> (r matches Err(e) && invalid_param_is(
            e,
            "field_updates"@,
            "Must provide at least one field to update"@,
        )),
{
    if field_count == 0 {
        return Err(
            JiraMcpError::invalid_param("field_updates", "Must provide at least one field to update"),
        );
    }
    Ok(())
}

/// Why bulk label parameters are refused.
pub open spec fn spec_bulk_labels_failure(p: BulkAddLabelsParams) -> Option<(Seq<char>, Seq<char>)> {
    if p.issue_keys@.len() == 0 {
        Some(("issue_keys"@, "Must provide at least one issue key"@))
    } else if p.add_labels@.len() == 0 && p.remove_labels@.len() == 0 {
        Some(("add_labels or remove_labels"@, "Must provide at least one label to add or remove"@))
    } else {
        None
    }
}

/// Validate bulk label parameters.
pub fn validate_label_params(params: &BulkAddLabelsParams) -> (r: JiraMcpResult<()>)
    ensures
        check_result(r, spec_bulk_labels_failure(*params)),
{
    check_issue_keys(&params.issue_keys)?;
    if params.add_labels.len() == 0 && params.remove_labels.len() == 0 {
        return Err(
            JiraMcpError::invalid_param(
                "add_labels or remove_labels",
                "Must provide at least one label to add or remove",
            ),
        );
    }
    Ok(())
}

/// Whether an assignee reference means the authenticated user.
pub fn means_current_user(assignee: &str) -> (r: bool)
    ensures
        r == (assignee@ == "me"@ || assignee@ == "self"@),
{
    str_eq(assignee, "me") || str_eq(assignee, "self")
}

/// How the assignee of a bulk assignment is reported: the account, or
/// "Unassigned".
pub fn assignee_display(assignee: &Option<String>) -> (r: String)
    ensures
        r@ == match assignee {
            Some(a) => a@,
            None => "Unassigned"@,
        },
{
    match assignee {
        Some(a) => a.clone(),
        None => owned("Unassigned"),
    }
}

/// The error for a failed update of an issue: a 404 means the issue does
/// not exist; anything else is "Failed to {action}: " and the failure.
pub fn put_error(detail: &str, issue_key: &str, action: &str) -> (r: JiraMcpError)
    ensures
        contains_seq(detail@, "404"@) ==> (r matches JiraMcpError::NotFound { resource, key }
            && resource@ == "issue"@ && key@ == issue_key@),
        !contains_seq(detail@, "404"@) ==> (r matches JiraMcpError::Internal { message }
            && message@ == "Failed to "@ + action@ + ": "@ + detail@),
{
    if str_contains(detail, "404") {
        JiraMcpError::not_found("issue", issue_key)
    } else {
        let mut m = owned("Failed to ");
        m.append(action);
        m.append(": ");
        m.append(detail);
        JiraMcpError::Internal { message: m }
    }
}

// ---------------------------------------------------------------------------
// Results

/// `slice::sort_by_key` on the index of each outcome: the outcomes sorted
/// by index, stably; the same outcomes as before.
#[verifier::external_body]
fn sort_by_index<T>(v: &mut Vec<(usize, T)>)
    ensures
        final(v)@.to_multiset() == old(v)@.to_multiset(),
        forall|i: int, j: int| 0 <= i < j < final(v)@.len() ==> final(v)@[i].0 <= final(v)@[j].0,
{
    v.sort_by_key(|p| p.0)
}

/// What a creation outcome reports.
pub open spec fn reports_creation(
    r: BulkIssueCreationResult,
    o: (usize, Result<CreateIssueResult, JiraMcpError>),
) -> bool {
    &&& r.index == o.0
    &&& match o.1 {
        Ok(issue) => r.issue == Some(issue) && r.error is None && r.success,
        Err(e) => r.issue is None && !r.success && (r.error matches Some(m) && m@
            == spec_error_text(e)),
    }
}

/// The creation results, in the order of the issues asked for.
pub fn creation_results(outcomes: Vec<(usize, Result<CreateIssueResult, JiraMcpError>)>) -> (r: Vec<
    BulkIssueCreationResult,
>)
    ensures
        exists|sorted: Seq<(usize, Result<CreateIssueResult, JiraMcpError>)>|
            #![trigger sorted.to_multiset()]
            sorted.to_multiset() == outcomes@.to_multiset() && (forall|i: int, j: int|
                0 <= i < j < sorted.len() ==> sorted[i].0 <= sorted[j].0) && r@.len()
                == sorted.len() && (forall|i: int|
                0 <= i < sorted.len() ==> reports_creation(#[trigger] r@[i], sorted[i])),
{
    let mut outcomes = outcomes;
    sort_by_index(&mut outcomes);
    let ghost sorted = outcomes@;
    let n = outcomes.len();
    let mut out: Vec<BulkIssueCreationResult> = Vec::new();
    let mut rest = outcomes;
    let mut i: usize = 0;
    while i < n
        invariant
            n == sorted.len(),
            i <= n,
            rest@ == sorted.subrange(i as int, n as int),
            out@.len() == i,
            forall|j: int| 0 <= j < i ==> reports_creation(#[trigger] out@[j], sorted[j]),
        decreases n - i,
    {
        let (index, res) = rest.remove(0);
        assert(sorted[i as int] == (index, res));
        let item = match res {
            Ok(issue) => BulkIssueCreationResult { index, issue: Some(issue), error: None, success: true },
            Err(e) => BulkIssueCreationResult {
                index,
                issue: None,
                error: Some(e.to_display_string()),
                success: false,
            },
        };
        out.push(item);
        assert(rest@ =~= sorted.subrange(i + 1, n as int));
        i = i + 1;
    }
    out
}

/// What a transition outcome reports.
pub open spec fn reports_transition(
    r: BulkIssueTransitionResult,
    o: (String, Result<String, JiraMcpError>),
) -> bool {
    &&& r.issue_key@ == o.0@
    &&& match o.1 {
        Ok(status) => r.error is None && r.success && (r.new_status matches Some(s) && s@
            == status@),
        Err(e) => r.new_status is None && !r.success && (r.error matches Some(m) && m@
            == spec_error_text(e)),
    }
}

/// The transition results, in the order the operations finished.
pub fn transition_results(outcomes: Vec<(String, Result<String, JiraMcpError>)>) -> (r: Vec<
    BulkIssueTransitionResult,
>)
    ensures
        r@.len() == outcomes@.len(),
        forall|i: int| 0 <= i < outcomes@.len() ==> reports_transition(#[trigger] r@[i], outcomes@[i]),
{
    let ghost all = outcomes@;
    let n = outcomes.len();
    let mut out: Vec<BulkIssueTransitionResult> = Vec::new();
    let mut rest = outcomes;
    let mut i: usize = 0;
    while i < n
        invariant
            n == all.len(),
            i <= n,
            rest@ == all.subrange(i as int, n as int),
            out@.len() == i,
            forall|j: int| 0 <= j < i ==> reports_transition(#[trigger] out@[j], all[j]),
        decreases n - i,
    {
        let (issue_key, res) = rest.remove(0);
        assert(all[i as int] == (issue_key, res));
        let item = match res {
            Ok(status) => BulkIssueTransitionResult {
                issue_key,
                new_status: Some(status),
                error: None,
                success: true,
            },
            Err(e) => BulkIssueTransitionResult {
                issue_key,
                new_status: None,
                error: Some(e.to_display_string()),
                success: false,
            },
        };
        out.push(item);
        assert(rest@ =~= all.subrange(i + 1, n as int));
        i = i + 1;
    }
    out
}

/// What an update outcome reports.
pub open spec fn reports_update(r: BulkIssueUpdateResult, o: (String, Result<(), JiraMcpError>)) -> bool {
    &&& r.issue_key@ == o.0@
    &&& match o.1 {
        Ok(_) => r.error is None && r.success,
        Err(e) => r.error matches Some(m) && m@ == spec_error_text(e) && !r.success,
    }
}

/// The update results (fields, assignments, labels), in the order the
/// operations finished.
pub fn update_results(outcomes: Vec<(String, Result<(), JiraMcpError>)>) -> (r: Vec<
    BulkIssueUpdateResult,
>)
    ensures
        r@.len() == outcomes@.len(),
        forall|i: int| 0 <= i < outcomes@.len() ==> reports_update(#[trigger] r@[i], outcomes@[i]),
{
    let ghost all = outcomes@;
    let n = outcomes.len();
    let mut out: Vec<BulkIssueUpdateResult> = Vec::new();
    let mut rest = outcomes;
    let mut i: usize = 0;
    while i < n
        invariant
            n == all.len(),
            i <= n,
            rest@ == all.subrange(i as int, n as int),
            out@.len() == i,
            forall|j: int| 0 <= j < i ==> reports_update(#[trigger] out@[j], all[j]),
        decreases n - i,
    {
        let (issue_key, res) = rest.remove(0);
        assert(all[i as int] == (issue_key, res));
        let item = match res {
            Ok(_) => BulkIssueUpdateResult { issue_key, error: None, success: true },
            Err(e) => BulkIssueUpdateResult {
                issue_key,
                error: Some(e.to_display_string()),
                success: false,
            },
        };
        out.push(item);
        assert(rest@ =~= all.subrange(i + 1, n as int));
        i = i + 1;
    }
    out
}

// ---------------------------------------------------------------------------
// Answers

/// How many items satisfy `p`.
pub open spec fn count_where<T>(s: Seq<T>, p: spec_fn(T) -> bool) -> nat
    decreases s.len(),
{
    if s.len() == 0 {
        0
    } else {
        count_where(s.drop_last(), p) + if p(s.last()) {
            1nat
        } else {
            0nat
        }
    }
}

/// The counts a bulk answer gives: the results that report success, and
/// as failures the other results and the operations lost with no result.
pub open spec fn answer_tally<T>(results: Seq<T>, succeeded: spec_fn(T) -> bool, lost: nat) -> (nat, nat) {
    let ok = count_where(results, succeeded);
    (ok, (results.len() - ok + lost) as nat)
}

fn tally_updates(rs: &Vec<BulkIssueUpdateResult>, lost: usize) -> (t: BulkTally)
    requires
        rs@.len() + lost <= usize::MAX,
    ensures
        t.success_count == count_where(rs@, |x: BulkIssueUpdateResult| x.success),
        t.success_count + t.failure_count == rs@.len() + lost,
{
    let ghost p = |x: BulkIssueUpdateResult| x.success;
    let mut n: usize = 0;
    let mut i: usize = 0;
    while i < rs.len()
        invariant
            i <= rs@.len(),
            p == (|x: BulkIssueUpdateResult| x.success),
            n == count_where(rs@.subrange(0, i as int), p),
            n <= i,
        decreases rs@.len() - i,
    {
        assert(rs@.subrange(0, i + 1).drop_last() =~= rs@.subrange(0, i as int));
        if rs[i].success {
            n = n + 1;
        }
        i = i + 1;
    }
    assert(rs@.subrange(0, rs@.len() as int) =~= rs@);
    BulkTally { success_count: n, failure_count: rs.len() - n + lost }
}

fn tally_transitions(rs: &Vec<BulkIssueTransitionResult>, lost: usize) -> (t: BulkTally)
    requires
        rs@.len() + lost <= usize::MAX,
    ensures
        t.success_count == count_where(rs@, |x: BulkIssueTransitionResult| x.success),
        t.success_count + t.failure_count == rs@.len() + lost,
{
    let ghost p = |x: BulkIssueTransitionResult| x.success;
    let mut n: usize = 0;
    let mut i: usize = 0;
    while i < rs.len()
        invariant
            i <= rs@.len(),
            p == (|x: BulkIssueTransitionResult| x.success),
            n == count_where(rs@.subrange(0, i as int), p),
            n <= i,
        decreases rs@.len() - i,
    {
        assert(rs@.subrange(0, i + 1).drop_last() =~= rs@.subrange(0, i as int));
        if rs[i].success {
            n = n + 1;
        }
        i = i + 1;
    }
    assert(rs@.subrange(0, rs@.len() as int) =~= rs@);
    BulkTally { success_count: n, failure_count: rs.len() - n + lost }
}

fn tally_creations(rs: &Vec<BulkIssueCreationResult>, lost: usize) -> (t: BulkTally)
    requires
        rs@.len() + lost <= usize::MAX,
    ensures
        t.success_count == count_where(rs@, |x: BulkIssueCreationResult| x.success),
        t.success_count + t.failure_count == rs@.len() + lost,
{
    let ghost p = |x: BulkIssueCreationResult| x.success;
    let mut n: usize = 0;
    let mut i: usize = 0;
    while i < rs.len()
        invariant
            i <= rs@.len(),
            p == (|x: BulkIssueCreationResult| x.success),
            n == count_where(rs@.subrange(0, i as int), p),
            n <= i,
        decreases rs@.len() - i,
    {
        assert(rs@.subrange(0, i + 1).drop_last() =~= rs@.subrange(0, i as int));
        if rs[i].success {
            n = n + 1;
        }
        i = i + 1;
    }
    assert(rs@.subrange(0, rs@.len() as int) =~= rs@);
    BulkTally { success_count: n, failure_count: rs.len() - n + lost }
}

/// The answer of a bulk transition: the results in the order the
/// operations finished, counted, with the time taken and the summary.
pub fn transition_answer(
    outcomes: Vec<(String, Result<String, JiraMcpError>)>,
    lost: usize,
    total: usize,
    execution_time_ms: u64,
) -> (r: BulkTransitionIssuesResult)
    requires
        outcomes@.len() + lost <= usize::MAX,
    ensures
        r.results@.len() == outcomes@.len(),
        forall|i: int|
            0 <= i < outcomes@.len() ==> reports_transition(#[trigger] r.results@[i], outcomes@[i]),
        (r.success_count as nat, r.failure_count as nat) == answer_tally(
            r.results@,
            |x: BulkIssueTransitionResult| x.success,
            lost as nat,
        ),
        r.execution_time_ms == execution_time_ms,
        r.message@ == spec_bulk_message(
            "transitioned"@,
            "issues"@,
            BulkTally { success_count: r.success_count, failure_count: r.failure_count },
            total as nat,
        ),
{
    let results = transition_results(outcomes);
    let t = tally_transitions(&results, lost);
    let message = bulk_message("transitioned", "issues", t, total);
    BulkTransitionIssuesResult {
        results,
        success_count: t.success_count,
        failure_count: t.failure_count,
        execution_time_ms,
        message,
    }
}

/// The answer of a bulk creation: the results in the order of the issues
/// asked for, counted, with the time taken and the summary.
pub fn creation_answer(
    outcomes: Vec<(usize, Result<CreateIssueResult, JiraMcpError>)>,
    lost: usize,
    total: usize,
    execution_time_ms: u64,
) -> (r: BulkCreateIssuesResult)
    requires
        outcomes@.len() + lost <= usize::MAX,
    ensures
        exists|sorted: Seq<(usize, Result<CreateIssueResult, JiraMcpError>)>|
            #![trigger sorted.to_multiset()]
            sorted.to_multiset() == outcomes@.to_multiset() && (forall|i: int, j: int|
                0 <= i < j < sorted.len() ==> sorted[i].0 <= sorted[j].0) && r.results@.len()
                == sorted.len() && (forall|i: int|
                0 <= i < sorted.len() ==> reports_creation(#[trigger] r.results@[i], sorted[i])),
        (r.success_count as nat, r.failure_count as nat) == answer_tally(
            r.results@,
            |x: BulkIssueCreationResult| x.success,
            lost as nat,
        ),
        r.execution_time_ms == execution_time_ms,
        r.message@ == spec_bulk_message(
            "created"@,
            "issues"@,
            BulkTally { success_count: r.success_count, failure_count: r.failure_count },
            total as nat,
        ),
{
    proof {
        outcomes@.to_multiset_ensures();
    }
    let results = creation_results(outcomes);
    proof {
        let sorted = choose|sorted: Seq<(usize, Result<CreateIssueResult, JiraMcpError>)>|
            #![trigger sorted.to_multiset()]
            sorted.to_multiset() == outcomes@.to_multiset() && (forall|i: int, j: int|
                0 <= i < j < sorted.len() ==> sorted[i].0 <= sorted[j].0) && results@.len()
                == sorted.len() && (forall|i: int|
                0 <= i < sorted.len() ==> reports_creation(#[trigger] results@[i], sorted[i]));
        sorted.to_multiset_ensures();
    }
    let t = tally_creations(&results, lost);
    let message = bulk_message("created", "issues", t, total);
    BulkCreateIssuesResult {
        results,
        success_count: t.success_count,
        failure_count: t.failure_count,
        execution_time_ms,
        message,
    }
}

/// The answer of a bulk field update: the results in the order the
/// operations finished, counted, with the time taken and the summary.
pub fn update_fields_answer(
    outcomes: Vec<(String, Result<(), JiraMcpError>)>,
    lost: usize,
    total: usize,
    execution_time_ms: u64,
) -> (r: BulkUpdateFieldsResult)
    requires
        outcomes@.len() + lost <= usize::MAX,
    ensures
        r.results@.len() == outcomes@.len(),
        forall|i: int| 0 <= i < outcomes@.len() ==> reports_update(#[trigger] r.results@[i], outcomes@[i]),
        (r.success_count as nat, r.failure_count as nat) == answer_tally(
            r.results@,
            |x: BulkIssueUpdateResult| x.success,
            lost as nat,
        ),
        r.execution_time_ms == execution_time_ms,
        r.message@ == spec_bulk_message(
            "updated"@,
            "issues"@,
            BulkTally { success_count: r.success_count, failure_count: r.failure_count },
            total as nat,
        ),
{
    let results = update_results(outcomes);
    let t = tally_updates(&results, lost);
    let message = bulk_message("updated", "issues", t, total);
    BulkUpdateFieldsResult {
        results,
        success_count: t.success_count,
        failure_count: t.failure_count,
        execution_time_ms,
        message,
    }
}

/// The answer of a bulk assignment: the results in the order the
/// operations finished, counted, with the time taken, the assignee as
/// reported and the summary.
pub fn assign_answer(
    outcomes: Vec<(String, Result<(), JiraMcpError>)>,
    lost: usize,
    total: usize,
    execution_time_ms: u64,
    assignee: String,
) -> (r: BulkAssignIssuesResult)
    requires
        outcomes@.len() + lost <= usize::MAX,
    ensures
        r.results@.len() == outcomes@.len(),
        forall|i: int| 0 <= i < outcomes@.len() ==> reports_update(#[trigger] r.results@[i], outcomes@[i]),
        (r.success_count as nat, r.failure_count as nat) == answer_tally(
            r.results@,
            |x: BulkIssueUpdateResult| x.success,
            lost as nat,
        ),
        r.execution_time_ms == execution_time_ms,
        r.assignee@ == assignee@,
        r.message@ == spec_bulk_message(
            "assigned"@,
            "issues"@,
            BulkTally { success_count: r.success_count, failure_count: r.failure_count },
            total as nat,
        ),
{
    let results = update_results(outcomes);
    let t = tally_updates(&results, lost);
    let message = bulk_message("assigned", "issues", t, total);
    BulkAssignIssuesResult {
        results,
        success_count: t.success_count,
        failure_count: t.failure_count,
        execution_time_ms,
        assignee,
        message,
    }
}

/// The answer of a bulk label update: the results in the order the
/// operations finished, counted, with the time taken and the summary.
pub fn labels_answer(
    outcomes: Vec<(String, Result<(), JiraMcpError>)>,
    lost: usize,
    total: usize,
    execution_time_ms: u64,
) -> (r: BulkAddLabelsResult)
    requires
        outcomes@.len() + lost <= usize::MAX,
    ensures
        r.results@.len() == outcomes@.len(),
        forall|i: int| 0 <= i < outcomes@.len() ==> reports_update(#[trigger] r.results@[i], outcomes@[i]),
        (r.success_count as nat, r.failure_count as nat) == answer_tally(
            r.results@,
            |x: BulkIssueUpdateResult| x.success,
            lost as nat,
        ),
        r.execution_time_ms == execution_time_ms,
        r.message@ == spec_bulk_message(
            "updated labels on"@,
            "issues"@,
            BulkTally { success_count: r.success_count, failure_count: r.failure_count },
            total as nat,
        ),
{
    let results = update_results(outcomes);
    let t = tally_updates(&results, lost);
    let message = bulk_message("updated labels on", "issues", t, total);
    BulkAddLabelsResult {
        results,
        success_count: t.success_count,
        failure_count: t.failure_count,
        execution_time_ms,
        message,
    }
}

/// The project each issue of a bulk creation goes to: its own project key
/// when it names one, else the project key of the bulk request.
pub fn fill_project_keys(issue_keys: Vec<Option<String>>, project_key: &str) -> (r: Vec<String>)
    ensures
        r@.len() == issue_keys@.len(),
        forall|i: int|
            0 <= i < r@.len() ==> #[trigger] r@[i]@ == match issue_keys@[i] {
                Some(k) => k@,
                None => project_key@,
            },
{
    let ghost all = issue_keys@;
    let n = issue_keys.len();
    let mut out: Vec<String> = Vec::new();
    let mut rest = issue_keys;
    let mut i: usize = 0;
    while i < n
        invariant
            n == all.len(),
            i <= n,
            rest@ == all.subrange(i as int, n as int),
            out@.len() == i,
            forall|j: int|
                0 <= j < i ==> #[trigger] out@[j]@ == match all[j] {
                    Some(k) => k@,
                    None => project_key@,
                },
        decreases n - i,
    {
        let k = rest.remove(0);
        assert(all[i as int] == k);
        let key = match k {
            Some(k) => k,
            None => project_key.to_owned(),
        };
        out.push(key);
        i = i + 1;
        assert(rest@ =~= all.subrange(i as int, n as int));
    }
    out
}

} // verus!
