//! The list_issue_attachments tool: its parameters, their checks, and the
//! listing made from an issue's attachments.

use crate::error::{JiraMcpError, JiraMcpResult};
use crate::text::{
    chars_of, find_char, has_char, is_blank, is_blank_seq, opt_view, to_uppercase, trim,
    trim_seq, uppercase,
};
use crate::tools::validation::check_result;
use vstd::prelude::*;

verus! {

/// Parameters for the list_issue_attachments tool
#[derive(Debug, Clone)]
pub struct ListAttachmentsParams {
    /// JIRA issue key (required), such as "PROJ-123"
    pub issue_key: String,
}

/// Attachment information as the tool lists it
#[derive(Debug, Clone)]
pub struct AttachmentInfo {
    /// Attachment ID
    pub id: String,
    /// Filename
    pub filename: String,
    /// File size in bytes
    pub size: u64,
    /// MIME type
    pub mime_type: String,
    /// Author who uploaded the attachment
    pub author: String,
    /// When the attachment was created
    pub created: String,
    /// Content URL for downloading
    pub content_url: String,
    /// Thumbnail URL (if available)
    pub thumbnail_url: Option<String>,
}

/// Result from the list_issue_attachments tool
#[derive(Debug, Clone)]
pub struct ListAttachmentsResult {
    /// List of attachments
    pub attachments: Vec<AttachmentInfo>,
    /// Issue key that was queried
    pub issue_key: String,
    /// Total number of attachments
    pub total_count: usize,
    /// Performance information
    pub performance: AttachmentsPerformance,
}

/// Performance metrics for attachment operations
#[derive(Debug, Clone)]
pub struct AttachmentsPerformance {
    /// Time taken for the operation in milliseconds
    pub duration_ms: u64,
    /// Whether the data hit the cache
    pub cache_hit: bool,
    /// Number of JIRA API calls made
    pub api_calls: u32,
}

fn owned(s: &str) -> (r: String)
    ensures
        r@ == s@,
{
    s.to_owned()
}

/// Why the issue key of a listing is refused: it is blank, or has no '-'
/// once trimmed.
pub open spec fn spec_listing_failure(issue_key: Seq<char>) -> Option<(Seq<char>, Seq<char>)> {
    if is_blank_seq(issue_key) {
        Some(
            (
                "issue_key"@,
                "Issue key is required. Please provide a JIRA issue key (e.g., 'PROJ-123')"@,
            ),
        )
    } else if !has_char(trim_seq(issue_key), '-') {
        Some(("issue_key"@, "Issue key must follow PROJECT-NUMBER format (e.g., 'PROJ-123')"@))
    } else {
        None
    }
}

/// Validate the parameters of a listing.
pub fn validate_params(params: &ListAttachmentsParams) -> (r: JiraMcpResult<()>)
    ensures
        check_result(r, spec_listing_failure(params.issue_key@)),
{
    if is_blank(params.issue_key.as_str()) {
        return Err(
            JiraMcpError::invalid_param(
                "issue_key",
                "Issue key is required. Please provide a JIRA issue key (e.g., 'PROJ-123')",
            ),
        );
    }
    let key = trim(params.issue_key.as_str());
    let cs = chars_of(key.as_str());
    if find_char(cs.as_slice(), '-').is_none() {
        return Err(
            JiraMcpError::invalid_param(
                "issue_key",
                "Issue key must follow PROJECT-NUMBER format (e.g., 'PROJ-123')",
            ),
        );
    }
    Ok(())
}

/// The issue key as the listing reads it: trimmed and in upper case.
pub fn normalized_key(issue_key: &str) -> (r: String)
    ensures
        r@ == uppercase(trim_seq(issue_key@)),
{
    let t = trim(issue_key);
    to_uppercase(t.as_str())
}

/// How the tool lists one attachment of an issue: its content is reached
/// at "jira://attachment/" and its ID; no thumbnail is known.
pub open spec fn lists(a: AttachmentInfo, b: crate::jira_client::AttachmentInfo) -> bool {
    &&& a.id@ == b.id@
    &&& a.filename@ == b.filename@
    &&& a.size == b.size
    &&& a.mime_type@ == b.mime_type@
    &&& a.author@ == b.author@
    &&& a.created@ == b.created@
    &&& a.content_url@ == "jira://attachment/"@ + b.id@
    &&& a.thumbnail_url is None
}

/// The listing of an issue's attachments, none when the issue reported
/// none.
pub fn list_of(attachments: &Option<Vec<crate::jira_client::AttachmentInfo>>) -> (r: Vec<
    AttachmentInfo,
>)
    ensures
        match attachments {
            Some(v) => r@.len() == v@.len() && forall|i: int|
                0 <= i < v@.len() ==> lists(#[trigger] r@[i], v@[i]),
            None => r@.len() == 0,
        },
{
    let mut out: Vec<AttachmentInfo> = Vec::new();
    if let Some(v) = attachments {
        let mut i: usize = 0;
        while i < v.len()
            invariant
                i <= v@.len(),
                out@.len() == i,
                forall|j: int| 0 <= j < i ==> lists(#[trigger] out@[j], v@[j]),
            decreases v@.len() - i,
        {
            let b = &v[i];
            let mut url = owned("jira://attachment/");
            url.append(b.id.as_str());
            out.push(
                AttachmentInfo {
                    id: b.id.clone(),
                    filename: b.filename.clone(),
                    size: b.size,
                    mime_type: b.mime_type.clone(),
                    author: b.author.clone(),
                    created: b.created.clone(),
                    content_url: url,
                    thumbnail_url: None,
                },
            );
            i = i + 1;
        }
    }
    out
}

} // verus!
