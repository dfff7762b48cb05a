//! The transition tools: the checks of their parameters, and which of the
//! transitions available for an issue a request designates.

use crate::error::{is_client_error, ClientErrorKind, JiraMcpError, JiraMcpResult};
use crate::text::{
    chars_of, is_blank, is_blank_seq, join, join_seq, lowercase, str_contains, str_eq,
    to_lowercase, views,
};
use crate::tools::validation::{check_result, invalid_param_is};
use vstd::prelude::*;

verus! {

/// Parameters for getting available transitions
#[derive(Debug, Clone)]
pub struct GetAvailableTransitionsParams {
    /// The issue key (e.g., "PROJ-123")
    pub issue_key: String,
}

/// Information about an available transition
#[derive(Debug, Clone)]
pub struct TransitionInfo {
    /// Transition ID (used to execute the transition)
    pub id: String,
    /// Transition name (e.g., "Start Progress", "Done")
    pub name: String,
    /// Target status name
    pub to_status: String,
    /// Target status ID
    pub to_status_id: String,
}

/// Result of getting available transitions
#[derive(Debug, Clone)]
pub struct GetAvailableTransitionsResult {
    /// The issue key
    pub issue_key: String,
    /// Current status of the issue
    pub current_status: String,
    /// Available transitions
    pub transitions: Vec<TransitionInfo>,
    /// Execution time in milliseconds
    pub execution_time_ms: u64,
}

/// Parameters for transitioning an issue
#[derive(Debug, Clone)]
pub struct TransitionIssueParams {
    /// The issue key (e.g., "PROJ-123")
    pub issue_key: String,
    /// Transition ID (get from get_available_transitions)
    pub transition_id: Option<String>,
    /// Transition name (alternative to ID, case-insensitive)
    pub transition_name: Option<String>,
    /// Optional comment to add during transition
    pub comment: Option<String>,
    /// Optional resolution (for closing transitions)
    pub resolution: Option<String>,
}

/// Result of transitioning an issue
#[derive(Debug, Clone)]
pub struct TransitionIssueResult {
    /// Whether the transition was successful
    pub success: bool,
    /// The issue key
    pub issue_key: String,
    /// The transition that was executed
    pub transition_used: TransitionInfo,
    /// Execution time in milliseconds
    pub execution_time_ms: u64,
}

/// The plain view of a transition: ID, name, target status and its ID.
pub open spec fn transition_view(t: TransitionInfo) -> (Seq<char>, Seq<char>, Seq<char>, Seq<char>) {
    (t.id@, t.name@, t.to_status@, t.to_status_id@)
}

impl TransitionInfo {
    /// A copy of the transition.
    pub fn duplicate(&self) -> (r: Self)
        ensures
            transition_view(r) == transition_view(*self),
    {
        TransitionInfo {
            id: self.id.clone(),
            name: self.name.clone(),
            to_status: self.to_status.clone(),
            to_status_id: self.to_status_id.clone(),
        }
    }
}

fn owned(s: &str) -> (r: String)
    ensures
        r@ == s@,
{
    s.to_owned()
}

// ---------------------------------------------------------------------------
// Checks

/// How many times `c` occurs in `s`.
pub open spec fn count_char(s: Seq<char>, c: char) -> nat
    decreases s.len(),
{
    if s.len() == 0 {
        0
    } else {
        count_char(s.drop_last(), c) + if s.last() == c {
            1nat
        } else {
            0nat
        }
    }
}

/// A character counted at least once occurs.
pub proof fn lemma_count_has(s: Seq<char>, c: char)
    ensures
        count_char(s, c) > 0 ==> crate::text::has_char(s, c),
    decreases s.len(),
{
    if s.len() > 0 {
        lemma_count_has(s.drop_last(), c);
        if count_char(s.drop_last(), c) > 0 {
            let j = choose|j: int| 0 <= j < s.len() - 1 && s.drop_last()[j] == c;
            assert(s[j] == c);
        } else if s.last() == c {
            assert(s[s.len() - 1] == c);
        }
    }
}

fn count_of(s: &str, c: char) -> (r: usize)
    ensures
        r == count_char(s@, c),
{
    let cs = chars_of(s);
    let mut n: usize = 0;
    let mut i: usize = 0;
    while i < cs.len()
        invariant
            i <= cs@.len(),
            cs@ == s@,
            n == count_char(cs@.subrange(0, i as int), c),
            n <= i,
        decreases cs@.len() - i,
    {
        assert(cs@.subrange(0, i + 1).drop_last() =~= cs@.subrange(0, i as int));
        if cs[i] == c {
            n = n + 1;
        }
        i = i + 1;
    }
    assert(cs@.subrange(0, cs@.len() as int) =~= cs@);
    n
}

/// Why an issue key is refused by the transition tools: it is empty, or it
/// does not split into exactly two parts at '-'.
pub open spec fn spec_key_failure(issue_key: Seq<char>) -> Option<(Seq<char>, Seq<char>)> {
    if issue_key.len() == 0 {
        Some(("issue_key"@, "Issue key cannot be empty"@))
    } else if count_char(issue_key, '-') != 1 {
        Some(("issue_key"@, "Issue key must be in format 'PROJECT-123'"@))
    } else {
        None
    }
}

/// Validate an issue key for the transition tools.
pub fn validate_issue_key(issue_key: &str) -> (r: JiraMcpResult<()>)
    ensures
        check_result(r, spec_key_failure(issue_key@)),
{
    if issue_key.is_empty() {
        return Err(JiraMcpError::invalid_param("issue_key", "Issue key cannot be empty"));
    }
    if count_of(issue_key, '-') != 1 {
        return Err(
            JiraMcpError::invalid_param("issue_key", "Issue key must be in format 'PROJECT-123'"),
        );
    }
    Ok(())
}

/// Why transition parameters are refused, the first check that fails.
pub open spec fn spec_transition_failure(p: TransitionIssueParams) -> Option<
    (Seq<char>, Seq<char>),
> {
    if spec_key_failure(p.issue_key@) is Some {
        spec_key_failure(p.issue_key@)
    } else if p.transition_id is None && p.transition_name is None {
        Some(
            (
                "transition_id or transition_name"@,
                "Must provide either transition_id or transition_name"@,
            ),
        )
    } else if p.transition_id is Some && is_blank_seq(p.transition_id->0@) {
        Some(("transition_id"@, "Transition ID cannot be empty"@))
    } else if p.transition_name is Some && is_blank_seq(p.transition_name->0@) {
        Some(("transition_name"@, "Transition name cannot be empty"@))
    } else {
        None
    }
}

/// Validate the parameters of a transition.
pub fn validate_params(params: &TransitionIssueParams) -> (r: JiraMcpResult<()>)
    ensures
        check_result(r, spec_transition_failure(*params)),
{
    validate_issue_key(params.issue_key.as_str())?;
    if params.transition_id.is_none() && params.transition_name.is_none() {
        return Err(
            JiraMcpError::invalid_param(
                "transition_id or transition_name",
                "Must provide either transition_id or transition_name",
            ),
        );
    }
    if let Some(id) = &params.transition_id {
        if is_blank(id.as_str()) {
            return Err(JiraMcpError::invalid_param("transition_id", "Transition ID cannot be empty"));
        }
    }
    if let Some(name) = &params.transition_name {
        if is_blank(name.as_str()) {
            return Err(
                JiraMcpError::invalid_param("transition_name", "Transition name cannot be empty"),
            );
        }
    }
    Ok(())
}

// ---------------------------------------------------------------------------
// Choosing the transition

/// The first position whose transition has this ID, or -1.
pub open spec fn position_by_id(ts: Seq<TransitionInfo>, id: Seq<char>) -> int
    decreases ts.len(),
{
    if ts.len() == 0 {
        -1
    } else if ts[0].id@ == id {
        0
    } else {
        let k = position_by_id(ts.drop_first(), id);
        if k < 0 {
            -1
        } else {
            k + 1
        }
    }
}

/// The first position whose transition has this name, compared in lower
/// case, or -1.
pub open spec fn position_by_name(ts: Seq<TransitionInfo>, name_lower: Seq<char>) -> int
    decreases ts.len(),
{
    if ts.len() == 0 {
        -1
    } else if lowercase(ts[0].name@) == name_lower {
        0
    } else {
        let k = position_by_name(ts.drop_first(), name_lower);
        if k < 0 {
            -1
        } else {
            k + 1
        }
    }
}

/// "name (id: ID)" for each transition.
pub open spec fn described(ts: Seq<TransitionInfo>) -> Seq<Seq<char>> {
    ts.map_values(|t: TransitionInfo| t.name@ + " (id: "@ + t.id@ + ")"@)
}

/// The names of the transitions.
pub open spec fn names(ts: Seq<TransitionInfo>) -> Seq<Seq<char>> {
    ts.map_values(|t: TransitionInfo| t.name@)
}

proof fn lemma_position_at(ts: Seq<TransitionInfo>, id: Seq<char>, k: int, by_name: bool)
    requires
        0 <= k < ts.len(),
        by_name ==> lowercase(ts[k].name@) == id,
        !by_name ==> ts[k].id@ == id,
        forall|j: int|
            0 <= j < k ==> (if by_name {
                lowercase(ts[j].name@) != id
            } else {
                ts[j].id@ != id
            }),
    ensures
        by_name ==> position_by_name(ts, id) == k,
        !by_name ==> position_by_id(ts, id) == k,
    decreases k,
{
    if k > 0 {
        lemma_position_at(ts.drop_first(), id, k - 1, by_name);
    }
}

proof fn lemma_position_none(ts: Seq<TransitionInfo>, id: Seq<char>, by_name: bool)
    requires
        forall|j: int|
            0 <= j < ts.len() ==> (if by_name {
                lowercase(ts[j].name@) != id
            } else {
                ts[j].id@ != id
            }),
    ensures
        by_name ==> position_by_name(ts, id) == -1,
        !by_name ==> position_by_id(ts, id) == -1,
    decreases ts.len(),
{
    if ts.len() > 0 {
        lemma_position_none(ts.drop_first(), id, by_name);
    }
}

/// The transition a request designates among those available: the first
/// with the ID given, else (no ID given) the first whose name matches the
/// name given in lower case; a request that designates none is refused
/// with the list of what is available.
pub fn select_transition(available: &Vec<TransitionInfo>, params: &TransitionIssueParams) -> (r:
    JiraMcpResult<TransitionInfo>)
    requires
        params.transition_id is Some || params.transition_name is Some,
    ensures
        match params.transition_id {
            Some(id) => {
                let k = position_by_id(available@, id@);
                if k >= 0 {
                    r matches Ok(t) && transition_view(t) == transition_view(available@[k])
                } else {
                    r matches Err(e) && invalid_param_is(
                        e,
                        "transition_id"@,
                        "Transition ID '"@ + id@ + "' not available for this issue. Available: "@
                            + join_seq(described(available@), ", "@),
                    )
                }
            },
            None => {
                let name = params.transition_name->0@;
                let k = position_by_name(available@, lowercase(name));
                if k >= 0 {
                    r matches Ok(t) && transition_view(t) == transition_view(available@[k])
                } else {
                    r matches Err(e) && invalid_param_is(
                        e,
                        "transition_name"@,
                        "Transition '"@ + name + "' not available for this issue. Available: "@
                            + join_seq(names(available@), ", "@),
                    )
                }
            },
        },
{
    match &params.transition_id {
        Some(id) => {
            let mut i: usize = 0;
            while i < available.len()
                invariant
                    i <= available@.len(),
                    params.transition_id == Some(*id),
                    forall|j: int| 0 <= j < i ==> available@[j].id@ != id@,
                decreases available@.len() - i,
            {
                if str_eq(available[i].id.as_str(), id.as_str()) {
                    proof {
                        lemma_position_at(available@, id@, i as int, false);
                    }
                    let t = available[i].duplicate();
                    return Ok(t);
                }
                i = i + 1;
            }
            proof {
                lemma_position_none(available@, id@, false);
            }
            let mut listed: Vec<String> = Vec::new();
            let mut j: usize = 0;
            while j < available.len()
                invariant
                    j <= available@.len(),
                    views(listed@) == described(available@.subrange(0, j as int)),
                decreases available@.len() - j,
            {
                let mut d = available[j].name.clone();
                d.append(" (id: ");
                d.append(available[j].id.as_str());
                d.append(")");
                let ghost before = views(listed@);
                listed.push(d);
                assert(views(listed@) =~= before.push(d@));
                assert(described(available@.subrange(0, j + 1)) =~= described(
                    available@.subrange(0, j as int),
                ).push(d@));
                j = j + 1;
            }
            assert(available@.subrange(0, available@.len() as int) =~= available@);
            let mut m = owned("Transition ID '");
            m.append(id.as_str());
            m.append("' not available for this issue. Available: ");
            let list = join(&listed, ", ");
            m.append(list.as_str());
            Err(JiraMcpError::InvalidParameter { parameter: owned("transition_id"), message: m })
        },
        None => {
            let name = match &params.transition_name {
                Some(n) => n,
                None => {
                    assert(false);
                    return Err(JiraMcpError::internal("no transition given"));
                },
            };
            let lower = to_lowercase(name.as_str());
            let mut i: usize = 0;
            while i < available.len()
                invariant
                    i <= available@.len(),
                    params.transition_id is None,
                    params.transition_name == Some(*name),
                    lower@ == lowercase(name@),
                    forall|j: int| 0 <= j < i ==> lowercase(available@[j].name@) != lower@,
                decreases available@.len() - i,
            {
                let l = to_lowercase(available[i].name.as_str());
                if str_eq(l.as_str(), lower.as_str()) {
                    proof {
                        lemma_position_at(available@, lower@, i as int, true);
                    }
                    let t = available[i].duplicate();
                    return Ok(t);
                }
                i = i + 1;
            }
            proof {
                lemma_position_none(available@, lower@, true);
            }
            let mut listed: Vec<String> = Vec::new();
            let mut j: usize = 0;
            while j < available.len()
                invariant
                    j <= available@.len(),
                    views(listed@) == names(available@.subrange(0, j as int)),
                decreases available@.len() - j,
            {
                let d = available[j].name.clone();
                let ghost before = views(listed@);
                listed.push(d);
                assert(views(listed@) =~= before.push(d@));
                assert(names(available@.subrange(0, j + 1)) =~= names(
                    available@.subrange(0, j as int),
                ).push(d@));
                j = j + 1;
            }
            assert(available@.subrange(0, available@.len() as int) =~= available@);
            let mut m = owned("Transition '");
            m.append(name.as_str());
            m.append("' not available for this issue. Available: ");
            let list = join(&listed, ", ");
            m.append(list.as_str());
            Err(JiraMcpError::InvalidParameter { parameter: owned("transition_name"), message: m })
        },
    }
}

/// What a failure of the transition request means: JIRA answers a
/// transition with no content, which the client reports as a failure
/// saying "expected value"; that one is success, any other is classified
/// by its kind.
pub fn transition_failure(kind: ClientErrorKind, detail: &str) -> (r: Option<JiraMcpError>)
    ensures
        crate::text::contains_seq(detail@, "expected value"@) ==> r is None,
        !crate::text::contains_seq(detail@, "expected value"@) ==> (r matches Some(e)
            && is_client_error(e, kind, detail@)),
{
    if str_contains(detail, "expected value") {
        None
    } else {
        Some(JiraMcpError::from_client_error(kind, detail))
    }
}

/// The endpoint that lists the transitions of an issue with their fields.
pub fn transitions_endpoint(issue_key: &str) -> (r: String)
    ensures
        r@ == "/issue/"@ + issue_key@ + "/transitions?expand=transitions.fields"@,
{
    let mut e = owned("/issue/");
    e.append(issue_key);
    e.append("/transitions?expand=transitions.fields");
    e
}

/// The endpoint a transition is posted to.
pub fn transition_post_endpoint(issue_key: &str) -> (r: String)
    ensures
        r@ == "/issue/"@ + issue_key@ + "/transitions"@,
{
    let mut e = owned("/issue/");
    e.append(issue_key);
    e.append("/transitions");
    e
}

} // verus!
