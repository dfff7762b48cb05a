//! The issue link tools: the checks of their parameters, how refusals are
//! read, and the answers.

use crate::error::{JiraMcpError, JiraMcpResult};
use crate::text::{contains_seq, is_blank, is_blank_seq, str_contains};
use crate::tools::validation::check_result;
use vstd::prelude::*;

verus! {

/// Parameters for linking two issues
#[derive(Debug, Clone)]
pub struct LinkIssuesParams {
    /// The inward issue key
    pub inward_issue_key: String,
    /// The outward issue key
    pub outward_issue_key: String,
    /// The link type name (e.g., "Blocks", "Relates")
    pub link_type: String,
    /// Optional comment to add with the link
    pub comment: Option<String>,
}

/// Result of linking two issues
#[derive(Debug, Clone)]
pub struct LinkIssuesResult {
    /// Whether the link was created
    pub success: bool,
    /// The inward issue key
    pub inward_issue: String,
    /// The outward issue key
    pub outward_issue: String,
    /// The link type used
    pub link_type: String,
    /// Success message
    pub message: String,
}

/// Parameters for deleting an issue link
#[derive(Debug, Clone)]
pub struct DeleteIssueLinkParams {
    /// The link ID
    pub link_id: String,
}

/// Result of deleting an issue link
#[derive(Debug, Clone)]
pub struct DeleteIssueLinkResult {
    /// Whether the link was deleted
    pub success: bool,
    /// The link ID
    pub link_id: String,
    /// Success message
    pub message: String,
}

/// Result of listing the issue link types
#[derive(Debug, Clone)]
pub struct GetIssueLinkTypesResult {
    /// The link types
    pub link_types: Vec<IssueLinkTypeInfo>,
    /// How many there are
    pub total: usize,
}

/// An issue link type
#[derive(Debug, Clone)]
pub struct IssueLinkTypeInfo {
    /// Link type ID
    pub id: String,
    /// Link type name
    pub name: String,
    /// Inward description (e.g., "is blocked by")
    pub inward: String,
    /// Outward description (e.g., "blocks")
    pub outward: String,
    /// API link of the type
    pub self_link: String,
}

fn owned(s: &str) -> (r: String)
    ensures
        r@ == s@,
{
    s.to_owned()
}

/// Why link parameters are refused, the first blank one.
pub open spec fn spec_link_failure(p: LinkIssuesParams) -> Option<(Seq<char>, Seq<char>)> {
    if is_blank_seq(p.inward_issue_key@) {
        Some(("inward_issue_key"@, "Inward issue key is required"@))
    } else if is_blank_seq(p.outward_issue_key@) {
        Some(("outward_issue_key"@, "Outward issue key is required"@))
    } else if is_blank_seq(p.link_type@) {
        Some(("link_type"@, "Link type is required"@))
    } else {
        None
    }
}

/// Validate link parameters.
pub fn validate_link_params(params: &LinkIssuesParams) -> (r: JiraMcpResult<()>)
    ensures
        check_result(r, spec_link_failure(*params)),
{
    if is_blank(params.inward_issue_key.as_str()) {
        return Err(JiraMcpError::invalid_param("inward_issue_key", "Inward issue key is required"));
    }
    if is_blank(params.outward_issue_key.as_str()) {
        return Err(
            JiraMcpError::invalid_param("outward_issue_key", "Outward issue key is required"),
        );
    }
    if is_blank(params.link_type.as_str()) {
        return Err(JiraMcpError::invalid_param("link_type", "Link type is required"));
    }
    Ok(())
}

/// The error of a failed link: a 404 means an issue or the link type does
/// not exist.
pub fn link_error(detail: &str, params: &LinkIssuesParams) -> (r: JiraMcpError)
    ensures
        contains_seq(detail@, "404"@) ==> (r matches JiraMcpError::NotFound { resource, key }
            && resource@ == "issue or link type"@ && key@ == params.inward_issue_key@ + ", "@
            + params.outward_issue_key@ + ", or "@ + params.link_type@),
        !contains_seq(detail@, "404"@) ==> (r matches JiraMcpError::Internal { message }
            && message@ == "Failed to create issue link: "@ + detail@),
{
    if str_contains(detail, "404") {
        let mut k = params.inward_issue_key.clone();
        k.append(", ");
        k.append(params.outward_issue_key.as_str());
        k.append(", or ");
        k.append(params.link_type.as_str());
        JiraMcpError::NotFound { resource: owned("issue or link type"), key: k }
    } else {
        let mut m = owned("Failed to create issue link: ");
        m.append(detail);
        JiraMcpError::Internal { message: m }
    }
}

/// The answer to a link made.
pub fn link_result(params: LinkIssuesParams) -> (r: LinkIssuesResult)
    ensures
        r.success,
        r.inward_issue@ == params.inward_issue_key@,
        r.outward_issue@ == params.outward_issue_key@,
        r.link_type@ == params.link_type@,
        r.message@ == "Successfully linked "@ + params.inward_issue_key@ + " to "@
            + params.outward_issue_key@ + " with '"@ + params.link_type@ + "' link type"@,
{
    let mut m = owned("Successfully linked ");
    m.append(params.inward_issue_key.as_str());
    m.append(" to ");
    m.append(params.outward_issue_key.as_str());
    m.append(" with '");
    m.append(params.link_type.as_str());
    m.append("' link type");
    LinkIssuesResult {
        success: true,
        inward_issue: params.inward_issue_key,
        outward_issue: params.outward_issue_key,
        link_type: params.link_type,
        message: m,
    }
}

/// Refuse deleting a link without an ID.
pub fn validate_delete_params(params: &DeleteIssueLinkParams) -> (r: JiraMcpResult<()>)
    ensures
        check_result(
            r,
            if is_blank_seq(params.link_id@) {
                Some(("link_id"@, "Link ID is required"@))
            } else {
                None
            },
        ),
{
    if is_blank(params.link_id.as_str()) {
        return Err(JiraMcpError::invalid_param("link_id", "Link ID is required"));
    }
    Ok(())
}

/// The error of a failed deletion: a 404 means the link does not exist.
pub fn delete_link_error(detail: &str, link_id: &str) -> (r: JiraMcpError)
    ensures
        contains_seq(detail@, "404"@) ==> (r matches JiraMcpError::NotFound { resource, key }
            && resource@ == "issue link"@ && key@ == link_id@),
        !contains_seq(detail@, "404"@) ==> (r matches JiraMcpError::Internal { message }
            && message@ == "Failed to delete issue link: "@ + detail@),
{
    if str_contains(detail, "404") {
        JiraMcpError::not_found("issue link", link_id)
    } else {
        let mut m = owned("Failed to delete issue link: ");
        m.append(detail);
        JiraMcpError::Internal { message: m }
    }
}

/// The answer to a link deleted.
pub fn delete_result(params: DeleteIssueLinkParams) -> (r: DeleteIssueLinkResult)
    ensures
        r.success,
        r.link_id@ == params.link_id@,
        r.message@ == "Successfully deleted issue link "@ + params.link_id@,
{
    let mut m = owned("Successfully deleted issue link ");
    m.append(params.link_id.as_str());
    DeleteIssueLinkResult { success: true, link_id: params.link_id, message: m }
}

/// The listing of the link types.
pub fn link_types_result(link_types: Vec<IssueLinkTypeInfo>) -> (r: GetIssueLinkTypesResult)
    ensures
        r.link_types@ == link_types@,
        r.total == link_types@.len(),
{
    let total = link_types.len();
    GetIssueLinkTypesResult { link_types, total }
}

} // verus!
