//! The assign_issue tool: who an issue is assigned to, how refusals are
//! read, and the answer.

use crate::error::{JiraMcpError, JiraMcpResult};
use crate::text::{contains_seq, str_contains, str_eq};
use crate::tools::validation::invalid_param_is;
use vstd::prelude::*;

verus! {

/// Parameters for assigning an issue
#[derive(Debug, Clone)]
pub struct AssignIssueParams {
    /// Issue key
    pub issue_key: String,
    /// "me" or "self", an account ID, or none (or empty) to unassign
    pub assignee: Option<String>,
}

/// Result of assigning an issue
#[derive(Debug, Clone)]
pub struct AssignIssueResult {
    /// Issue key
    pub issue_key: String,
    /// The assignee, or "Unassigned"
    pub assignee: String,
    /// Success message
    pub message: String,
}

fn owned(s: &str) -> (r: String)
    ensures
        r@ == s@,
{
    s.to_owned()
}

/// Who an assignment names.
#[derive(Debug, Clone)]
pub enum AssigneeTarget {
    /// The authenticated user
    CurrentUser,
    /// The account given
    Account(String),
    /// Nobody: the issue is unassigned
    Nobody,
}

/// "me" and "self" name the authenticated user; nothing, or an empty
/// name, unassigns; anything else is an account.
pub fn assignee_target(assignee: &Option<String>) -> (r: AssigneeTarget)
    ensures
        match assignee {
            Some(a) => if a@ == "me"@ || a@ == "self"@ {
                r is CurrentUser
            } else if a@.len() == 0 {
                r is Nobody
            } else {
                r matches AssigneeTarget::Account(x) && x@ == a@
            },
            None => r is Nobody,
        },
{
    match assignee {
        Some(a) => if str_eq(a.as_str(), "me") || str_eq(a.as_str(), "self") {
            AssigneeTarget::CurrentUser
        } else if a.as_str().is_empty() {
            AssigneeTarget::Nobody
        } else {
            AssigneeTarget::Account(a.clone())
        },
        None => AssigneeTarget::Nobody,
    }
}

/// The error of a failed assignment: a 404 or Not Found means the issue
/// does not exist, a 400 or Bad Request an invalid assignee.
pub fn assign_error(detail: &str, issue_key: &str) -> (r: JiraMcpError)
    ensures
        contains_seq(detail@, "404"@) || contains_seq(detail@, "Not Found"@) ==> (r matches JiraMcpError::NotFound {
            resource,
            key,
        } && resource@ == "issue"@ && key@ == issue_key@),
        !(contains_seq(detail@, "404"@) || contains_seq(detail@, "Not Found"@)) && (contains_seq(
            detail@,
            "400"@,
        ) || contains_seq(detail@, "Bad Request"@)) ==> invalid_param_is(
            r,
            "assignee"@,
            "Invalid assignee: "@ + detail@,
        ),
        !(contains_seq(detail@, "404"@) || contains_seq(detail@, "Not Found"@)) && !(contains_seq(
            detail@,
            "400"@,
        ) || contains_seq(detail@, "Bad Request"@)) ==> (r matches JiraMcpError::Internal {
            message,
        } && message@ == "Failed to assign issue: "@ + detail@),
{
    if str_contains(detail, "404") || str_contains(detail, "Not Found") {
        JiraMcpError::not_found("issue", issue_key)
    } else if str_contains(detail, "400") || str_contains(detail, "Bad Request") {
        let mut m = owned("Invalid assignee: ");
        m.append(detail);
        JiraMcpError::InvalidParameter { parameter: owned("assignee"), message: m }
    } else {
        let mut m = owned("Failed to assign issue: ");
        m.append(detail);
        JiraMcpError::Internal { message: m }
    }
}

/// The answer to an assignment to an account, or to an unassignment.
pub fn assign_result(issue_key: String, account: Option<String>) -> (r: AssignIssueResult)
    ensures
        r.issue_key@ == issue_key@,
        match account {
            Some(a) => r.assignee@ == a@ && r.message@ == "Successfully assigned "@ + issue_key@
                + " to "@ + a@,
            None => r.assignee@ == "Unassigned"@ && r.message@ == "Successfully unassigned "@
                + issue_key@,
        },
{
    match account {
        Some(a) => {
            let mut m = owned("Successfully assigned ");
            m.append(issue_key.as_str());
            m.append(" to ");
            m.append(a.as_str());
            AssignIssueResult { issue_key, assignee: a, message: m }
        },
        None => {
            let mut m = owned("Successfully unassigned ");
            m.append(issue_key.as_str());
            AssignIssueResult { issue_key, assignee: owned("Unassigned"), message: m }
        },
    }
}

} // verus!
