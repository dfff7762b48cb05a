//! The download_attachment tool: its parameters and their checks, the
//! size limit, how the content is returned, and the answer.

use crate::error::{JiraMcpError, JiraMcpResult};
use crate::text::{decimal_seq, decimal_string, is_blank, is_blank_seq, opt_view, string_from_utf8};
use crate::tools::validation::{check_result, invalid_param_is};
use vstd::prelude::*;

verus! {

/// Parameters for the download_attachment tool
#[derive(Debug, Clone)]
pub struct DownloadAttachmentParams {
    /// Attachment ID (required)
    pub attachment_id: String,
    /// Return content as base64 (optional, default: true)
    pub base64_encoded: Option<bool>,
    /// Maximum file size to download in bytes (optional, default: 10MB)
    pub max_size_bytes: Option<u64>,
    /// Save attachment to this path, relative to the working directory (optional)
    pub save_to_path: Option<String>,
    /// Return content in the response (optional, default: true unless saving)
    pub return_content: Option<bool>,
}

/// Result from the download_attachment tool
#[derive(Debug, Clone)]
pub struct DownloadAttachmentResult {
    /// Attachment metadata
    pub attachment_info: AttachmentMetadata,
    /// File content (base64 encoded if base64_encoded=true); none if return_content=false
    pub content: Option<String>,
    /// Whether content is base64 encoded
    pub is_base64_encoded: bool,
    /// Path where file was saved (if save_to_path was provided)
    pub saved_to_path: Option<String>,
    /// Performance information
    pub performance: DownloadPerformance,
    /// Success message
    pub message: String,
}

/// Attachment metadata
#[derive(Debug, Clone)]
pub struct AttachmentMetadata {
    /// Attachment ID
    pub id: String,
    /// Filename
    pub filename: String,
    /// File size in bytes
    pub size: u64,
    /// MIME type
    pub mime_type: String,
    /// Author who uploaded the attachment
    pub author: String,
    /// When the attachment was created
    pub created: String,
}

/// Performance metrics for downloads
#[derive(Debug, Clone)]
pub struct DownloadPerformance {
    /// Time taken for the download in milliseconds
    pub duration_ms: u64,
    /// Number of JIRA API calls made
    pub api_calls: u32,
    /// Actual bytes downloaded
    pub bytes_downloaded: u64,
    /// Download speed in bytes per second
    pub download_speed_bps: u64,
}

fn owned(s: &str) -> (r: String)
    ensures
        r@ == s@,
{
    s.to_owned()
}

/// The default size limit of a download: 10 MiB.
pub const DEFAULT_MAX_SIZE: u64 = 10485760;

/// The largest size limit that can be asked for: 100 MiB.
pub const MAX_SIZE_LIMIT: u64 = 104857600;

/// Why download parameters are refused, the first check that fails.
pub open spec fn spec_download_failure(p: DownloadAttachmentParams) -> Option<
    (Seq<char>, Seq<char>),
> {
    if is_blank_seq(p.attachment_id@) {
        Some(
            (
                "attachment_id"@,
                "Attachment ID is required. Use the list_issue_attachments tool to get attachment IDs."@,
            ),
        )
    } else if p.max_size_bytes is Some && p.max_size_bytes->0 == 0 {
        Some(("max_size_bytes"@, "max_size_bytes must be greater than 0"@))
    } else if p.max_size_bytes is Some && p.max_size_bytes->0 > MAX_SIZE_LIMIT {
        Some(("max_size_bytes"@, "max_size_bytes cannot exceed 100MB to prevent memory issues"@))
    } else {
        None
    }
}

/// Validate download parameters
pub fn validate_params(params: &DownloadAttachmentParams) -> (r: JiraMcpResult<()>)
    ensures
        check_result(r, spec_download_failure(*params)),
{
    if is_blank(params.attachment_id.as_str()) {
        return Err(
            JiraMcpError::invalid_param(
                "attachment_id",
                "Attachment ID is required. Use the list_issue_attachments tool to get attachment IDs.",
            ),
        );
    }
    if let Some(max_size) = params.max_size_bytes {
        if max_size == 0 {
            return Err(
                JiraMcpError::invalid_param(
                    "max_size_bytes",
                    "max_size_bytes must be greater than 0",
                ),
            );
        }
        if max_size > MAX_SIZE_LIMIT {
            return Err(
                JiraMcpError::invalid_param(
                    "max_size_bytes",
                    "max_size_bytes cannot exceed 100MB to prevent memory issues",
                ),
            );
        }
    }
    Ok(())
}

/// How a download proceeds.
#[derive(Debug, Clone, Copy, PartialEq, Eq, Structural)]
pub struct DownloadOptions {
    /// Return the content base64 encoded
    pub base64_encoded: bool,
    /// Refuse attachments larger than this
    pub max_size: u64,
    /// Return the content in the answer
    pub return_content: bool,
}

/// The options of a download: base64 by default, 10 MiB by default, and
/// the content returned by default unless it is saved.
pub fn download_options(params: &DownloadAttachmentParams) -> (r: DownloadOptions)
    ensures
        r.base64_encoded == match params.base64_encoded {
            Some(b) => b,
            None => true,
        },
        r.max_size == match params.max_size_bytes {
            Some(m) => m,
            None => DEFAULT_MAX_SIZE,
        },
        r.return_content == match params.return_content {
            Some(b) => b,
            None => params.save_to_path is None,
        },
{
    DownloadOptions {
        base64_encoded: match params.base64_encoded {
            Some(b) => b,
            None => true,
        },
        max_size: match params.max_size_bytes {
            Some(m) => m,
            None => DEFAULT_MAX_SIZE,
        },
        return_content: match params.return_content {
            Some(b) => b,
            None => params.save_to_path.is_none(),
        },
    }
}

/// Refuse an attachment larger than the limit.
pub fn check_size(size: u64, max_size: u64) -> (r: JiraMcpResult<()>)
    ensures
        size <= max_size ==> r is Ok,
        size > max_size ==> (r matches Err(e) && invalid_param_is(
            e,
            "attachment_size"@,
            "Attachment size ("@ + decimal_seq(size as nat) + " bytes) exceeds maximum allowed size ("@
                + decimal_seq(max_size as nat)
                + " bytes). Use max_size_bytes parameter to increase limit if needed."@,
        )),
{
    if size > max_size {
        let mut m = owned("Attachment size (");
        let a = decimal_string(size);
        m.append(a.as_str());
        m.append(" bytes) exceeds maximum allowed size (");
        let b = decimal_string(max_size);
        m.append(b.as_str());
        m.append(" bytes). Use max_size_bytes parameter to increase limit if needed.");
        return Err(JiraMcpError::InvalidParameter { parameter: owned("attachment_size"), message: m });
    }
    Ok(())
}

/// The standard base64 text of the bytes, as the base64 crate writes it.
pub uninterp spec fn base64_text(bytes: Seq<u8>) -> Seq<char>;

/// `base64::engine::general_purpose::STANDARD.encode(bytes)`. The contract
/// names the result only: it is a function of the bytes alone.
#[verifier::external_body]
fn encode_base64(bytes: &[u8]) -> (r: String)
    ensures
        r@ == base64_text(bytes@),
{
    base64::Engine::encode(&base64::engine::general_purpose::STANDARD, bytes)
}

/// The content a download returns: none unless asked for; base64 when
/// asked for, else the text the bytes encode when they are UTF-8, base64
/// when they are not.
pub fn returned_content(bytes: Vec<u8>, options: DownloadOptions) -> (r: Option<String>)
    ensures
        !options.return_content ==> r is None,
        options.return_content ==> (r matches Some(c) && c@ == if options.base64_encoded
            || !vstd::utf8::valid_utf8(bytes@) {
            base64_text(bytes@)
        } else {
            vstd::utf8::decode_utf8(bytes@)
        }),
{
    if !options.return_content {
        return None;
    }
    if options.base64_encoded {
        return Some(encode_base64(bytes.as_slice()));
    }
    let encoded = encode_base64(bytes.as_slice());
    match string_from_utf8(bytes) {
        Some(text) => Some(text),
        None => Some(encoded),
    }
}

/// Bytes per second over a duration in whole seconds; a download faster
/// than a second counts the bytes themselves.
pub fn bytes_per_second(bytes: u64, seconds: u64) -> (r: u64)
    ensures
        r == if seconds > 0 {
            bytes / seconds
        } else {
            bytes
        },
{
    if seconds > 0 {
        bytes / seconds
    } else {
        bytes
    }
}

/// The message of a finished download.
pub open spec fn spec_download_message(
    filename: Seq<char>,
    bytes: nat,
    saved_to: Option<Seq<char>>,
    returned: bool,
) -> Seq<char> {
    match (saved_to, returned) {
        (Some(p), true) => "Downloaded attachment '"@ + filename + "' ("@ + decimal_seq(bytes)
            + " bytes) and saved to '"@ + p + "'"@,
        (Some(p), false) => "Downloaded and saved attachment '"@ + filename + "' ("@ + decimal_seq(
            bytes,
        ) + " bytes) to '"@ + p + "'"@,
        (None, true) => "Downloaded attachment '"@ + filename + "' ("@ + decimal_seq(bytes)
            + " bytes)"@,
        (None, false) => "Downloaded attachment (content not returned)"@,
    }
}

/// Build the message of a finished download.
pub fn download_message(filename: &str, bytes: u64, saved_to: &Option<String>, returned: bool) -> (r:
    String)
    ensures
        r@ == spec_download_message(filename@, bytes as nat, opt_view(*saved_to), returned),
{
    match (saved_to, returned) {
        (Some(p), true) => {
            let mut m = owned("Downloaded attachment '");
            m.append(filename);
            m.append("' (");
            let n = decimal_string(bytes);
            m.append(n.as_str());
            m.append(" bytes) and saved to '");
            m.append(p.as_str());
            m.append("'");
            m
        },
        (Some(p), false) => {
            let mut m = owned("Downloaded and saved attachment '");
            m.append(filename);
            m.append("' (");
            let n = decimal_string(bytes);
            m.append(n.as_str());
            m.append(" bytes) to '");
            m.append(p.as_str());
            m.append("'");
            m
        },
        (None, true) => {
            let mut m = owned("Downloaded attachment '");
            m.append(filename);
            m.append("' (");
            let n = decimal_string(bytes);
            m.append(n.as_str());
            m.append(" bytes)");
            m
        },
        (None, false) => owned("Downloaded attachment (content not returned)"),
    }
}

/// The content returned is base64 when base64 was asked for, and also
/// when content is returned and the bytes are not UTF-8 text.
pub open spec fn spec_content_is_base64(bytes: Seq<u8>, options: DownloadOptions) -> bool {
    options.base64_encoded || (options.return_content && !vstd::utf8::valid_utf8(bytes))
}

/// The answer of a download: the attachment's metadata, the content as
/// `returned_content` gives it and whether it is base64, where it was
/// saved, the timing over the two calls made (metadata and bytes), and
/// the message.
pub fn download_result(
    attachment_info: AttachmentMetadata,
    bytes: Vec<u8>,
    options: DownloadOptions,
    saved_to_path: Option<String>,
    duration_ms: u64,
    elapsed_seconds: u64,
) -> (r: DownloadAttachmentResult)
    ensures
        r.attachment_info == attachment_info,
        !options.return_content ==> r.content is None,
        options.return_content ==> (r.content matches Some(c) && c@ == if options.base64_encoded
            || !vstd::utf8::valid_utf8(bytes@) {
            base64_text(bytes@)
        } else {
            vstd::utf8::decode_utf8(bytes@)
        }),
        r.is_base64_encoded == spec_content_is_base64(bytes@, options),
        r.saved_to_path == saved_to_path,
        r.performance.duration_ms == duration_ms,
        r.performance.api_calls == 2,
        r.performance.bytes_downloaded == bytes@.len(),
        r.performance.download_speed_bps == if elapsed_seconds > 0 {
            bytes@.len() as u64 / elapsed_seconds
        } else {
            bytes@.len() as u64
        },
        r.message@ == spec_download_message(
            attachment_info.filename@,
            bytes@.len(),
            opt_view(saved_to_path),
            options.return_content,
        ),
{
    let downloaded = bytes.len() as u64;
    let is_base64 = options.base64_encoded || (options.return_content && string_from_utf8(
        bytes.clone(),
    ).is_none());
    let message = download_message(
        attachment_info.filename.as_str(),
        downloaded,
        &saved_to_path,
        options.return_content,
    );
    let content = returned_content(bytes, options);
    DownloadAttachmentResult {
        attachment_info,
        content,
        is_base64_encoded: is_base64,
        saved_to_path,
        performance: DownloadPerformance {
            duration_ms,
            api_calls: 2,
            bytes_downloaded: downloaded,
            download_speed_bps: bytes_per_second(downloaded, elapsed_seconds),
        },
        message,
    }
}

} // verus!
