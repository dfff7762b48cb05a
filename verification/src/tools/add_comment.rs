//! The add_comment tool: its parameters, their checks and its answer.

use crate::error::{JiraMcpError, JiraMcpResult};
use crate::jira_client::CommentInfo;
use crate::text::{byte_len, chars_of, find_char, has_char, is_blank, is_blank_seq};
use crate::tools::validation::check_result;
use vstd::prelude::*;

verus! {

/// Parameters for the add_comment tool
#[derive(Debug, Clone)]
pub struct AddCommentParams {
    /// JIRA issue key (required), such as "PROJ-123"
    pub issue_key: String,
    /// Comment body text (required)
    pub comment_body: String,
    /// Visibility restriction (optional)
    pub visibility: Option<String>,
}

/// Result from the add_comment tool
#[derive(Debug, Clone)]
pub struct AddCommentResult {
    /// The created comment information
    pub comment: CommentInfo,
    /// Issue key that was commented on
    pub issue_key: String,
    /// Success message
    pub message: String,
    /// Performance information
    pub performance: CommentPerformance,
}

/// Performance metrics for comment operations
#[derive(Debug, Clone)]
pub struct CommentPerformance {
    /// Time taken for the operation in milliseconds
    pub duration_ms: u64,
    /// Number of JIRA API calls made
    pub api_calls: u32,
    /// Whether the operation succeeded
    pub success: bool,
}

fn owned(s: &str) -> (r: String)
    ensures
        r@ == s@,
{
    s.to_owned()
}

/// Why comment parameters are refused, the first check that fails.
pub open spec fn spec_comment_failure(p: AddCommentParams) -> Option<(Seq<char>, Seq<char>)> {
    if is_blank_seq(p.issue_key@) {
        Some(("issue_key"@, "Issue key cannot be empty"@))
    } else if !has_char(p.issue_key@, '-') {
        Some(
            ("issue_key"@, "Issue key must be in format 'PROJECT-NUMBER' (e.g., 'PROJ-123')"@),
        )
    } else if is_blank_seq(p.comment_body@) {
        Some(("comment_body"@, "Comment body cannot be empty"@))
    } else if byte_len(p.comment_body@) > 32768 {
        Some(("comment_body"@, "Comment body cannot exceed 32,768 characters"@))
    } else if p.visibility is Some && is_blank_seq(p.visibility->0@) {
        Some(("visibility"@, "Visibility cannot be empty if provided"@))
    } else {
        None
    }
}

/// Validate comment parameters
pub fn validate_params(params: &AddCommentParams) -> (r: JiraMcpResult<()>)
    ensures
        check_result(r, spec_comment_failure(*params)),
{
    if is_blank(params.issue_key.as_str()) {
        return Err(JiraMcpError::invalid_param("issue_key", "Issue key cannot be empty"));
    }
    let cs = chars_of(params.issue_key.as_str());
    if find_char(cs.as_slice(), '-').is_none() {
        return Err(
            JiraMcpError::invalid_param(
                "issue_key",
                "Issue key must be in format 'PROJECT-NUMBER' (e.g., 'PROJ-123')",
            ),
        );
    }
    if is_blank(params.comment_body.as_str()) {
        return Err(JiraMcpError::invalid_param("comment_body", "Comment body cannot be empty"));
    }
    if params.comment_body.as_str().len() > 32768 {
        return Err(
            JiraMcpError::invalid_param(
                "comment_body",
                "Comment body cannot exceed 32,768 characters",
            ),
        );
    }
    if let Some(v) = &params.visibility {
        if is_blank(v.as_str()) {
            return Err(
                JiraMcpError::invalid_param("visibility", "Visibility cannot be empty if provided"),
            );
        }
    }
    Ok(())
}

/// The answer to a comment added in `duration_ms` with one call to JIRA.
pub fn comment_result(comment: CommentInfo, issue_key: String, duration_ms: u64) -> (r:
    AddCommentResult)
    ensures
        r.comment == comment,
        r.issue_key@ == issue_key@,
        r.message@ == "Comment successfully added to issue "@ + issue_key@,
        r.performance.duration_ms == duration_ms,
        r.performance.api_calls == 1,
        r.performance.success,
{
    let mut message = owned("Comment successfully added to issue ");
    message.append(issue_key.as_str());
    AddCommentResult {
        comment,
        issue_key,
        message,
        performance: CommentPerformance { duration_ms, api_calls: 1, success: true },
    }
}

} // verus!
