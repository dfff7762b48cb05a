//! The upload_attachment tool: its parameters and their checks, the
//! decoding of inline files against the size limit, and the answer.

use crate::error::{JiraMcpError, JiraMcpResult};
use crate::text::{
    chars_of, decimal_seq, decimal_string, find_char, has_char, is_blank, is_blank_seq, trim,
    trim_seq,
};
use crate::tools::validation::{check_result, invalid_param_is};
use vstd::prelude::*;

verus! {

/// Parameters for the upload_attachment tool
#[derive(Debug, Clone)]
pub struct UploadAttachmentParams {
    /// JIRA issue key to attach files to (required)
    pub issue_key: String,
    /// Files to upload as inline base64 content (either this or file_paths)
    pub files: Option<Vec<FileContent>>,
    /// Paths of files to upload, relative to the working directory (either this or files)
    pub file_paths: Option<Vec<String>>,
    /// Maximum total size for all uploads in bytes (optional, default: 10MB)
    pub max_total_size_bytes: Option<u64>,
}

/// A file given inline
#[derive(Debug, Clone)]
pub struct FileContent {
    /// Filename
    pub filename: String,
    /// File content as base64 encoded string
    pub content_base64: String,
    /// Optional MIME type
    pub mime_type: Option<String>,
}

/// Result from the upload_attachment tool
#[derive(Debug, Clone)]
pub struct UploadAttachmentResult {
    /// Successfully uploaded attachments
    pub uploaded_attachments: Vec<UploadedAttachmentInfo>,
    /// Issue key that attachments were added to
    pub issue_key: String,
    /// Total number of files uploaded
    pub total_count: usize,
    /// Total bytes uploaded
    pub total_bytes: u64,
    /// Performance information
    pub performance: UploadPerformance,
    /// Success message
    pub message: String,
}

/// An uploaded attachment
#[derive(Debug, Clone)]
pub struct UploadedAttachmentInfo {
    /// Attachment ID
    pub id: String,
    /// Filename
    pub filename: String,
    /// File size in bytes
    pub size: u64,
    /// MIME type
    pub mime_type: String,
    /// Author who uploaded the attachment
    pub author: String,
    /// When the attachment was created
    pub created: String,
    /// Content URL for downloading
    pub content_url: String,
}

/// Performance metrics for uploads
#[derive(Debug, Clone)]
pub struct UploadPerformance {
    /// Time taken for the upload in milliseconds
    pub duration_ms: u64,
    /// Number of JIRA API calls made
    pub api_calls: u32,
    /// Total bytes uploaded
    pub bytes_uploaded: u64,
    /// Upload speed in bytes per second
    pub upload_speed_bps: u64,
}

fn owned(s: &str) -> (r: String)
    ensures
        r@ == s@,
{
    s.to_owned()
}

/// The default limit of an upload's total size: 10 MiB.
pub const DEFAULT_MAX_TOTAL_SIZE: u64 = 10485760;

/// Why upload parameters are refused, the first check that fails.
pub open spec fn spec_upload_failure(p: UploadAttachmentParams) -> Option<(Seq<char>, Seq<char>)> {
    if is_blank_seq(p.issue_key@) {
        Some(
            (
                "issue_key"@,
                "Issue key is required. Please provide a JIRA issue key (e.g., 'PROJ-123')"@,
            ),
        )
    } else if !has_char(trim_seq(p.issue_key@), '-') {
        Some(("issue_key"@, "Issue key must follow PROJECT-NUMBER format (e.g., 'PROJ-123')"@))
    } else if p.files is None && p.file_paths is None {
        Some(("files"@, "Either 'files' or 'file_paths' must be provided"@))
    } else if p.files is Some && p.file_paths is Some {
        Some(("files"@, "Cannot provide both 'files' and 'file_paths'. Choose one approach."@))
    } else if p.max_total_size_bytes is Some && p.max_total_size_bytes->0 == 0 {
        Some(("max_total_size_bytes"@, "max_total_size_bytes must be greater than 0"@))
    } else if p.max_total_size_bytes is Some && p.max_total_size_bytes->0 > 104857600 {
        Some(
            (
                "max_total_size_bytes"@,
                "max_total_size_bytes cannot exceed 100MB to prevent memory issues"@,
            ),
        )
    } else {
        None
    }
}

/// Validate upload parameters
pub fn validate_params(params: &UploadAttachmentParams) -> (r: JiraMcpResult<()>)
    ensures
        check_result(r, spec_upload_failure(*params)),
{
    if is_blank(params.issue_key.as_str()) {
        return Err(
            JiraMcpError::invalid_param(
                "issue_key",
                "Issue key is required. Please provide a JIRA issue key (e.g., 'PROJ-123')",
            ),
        );
    }
    let key = trim(params.issue_key.as_str());
    let cs = chars_of(key.as_str());
    if find_char(cs.as_slice(), '-').is_none() {
        return Err(
            JiraMcpError::invalid_param(
                "issue_key",
                "Issue key must follow PROJECT-NUMBER format (e.g., 'PROJ-123')",
            ),
        );
    }
    if params.files.is_none() && params.file_paths.is_none() {
        return Err(
            JiraMcpError::invalid_param("files", "Either 'files' or 'file_paths' must be provided"),
        );
    }
    if params.files.is_some() && params.file_paths.is_some() {
        return Err(
            JiraMcpError::invalid_param(
                "files",
                "Cannot provide both 'files' and 'file_paths'. Choose one approach.",
            ),
        );
    }
    if let Some(max_size) = params.max_total_size_bytes {
        if max_size == 0 {
            return Err(
                JiraMcpError::invalid_param(
                    "max_total_size_bytes",
                    "max_total_size_bytes must be greater than 0",
                ),
            );
        }
        if max_size > 104857600 {
            return Err(
                JiraMcpError::invalid_param(
                    "max_total_size_bytes",
                    "max_total_size_bytes cannot exceed 100MB to prevent memory issues",
                ),
            );
        }
    }
    Ok(())
}

/// The limit of an upload's total size: the one given, else 10 MiB.
pub fn max_total_size(params: &UploadAttachmentParams) -> (r: u64)
    ensures
        r == match params.max_total_size_bytes {
            Some(m) => m,
            None => DEFAULT_MAX_TOTAL_SIZE,
        },
{
    match params.max_total_size_bytes {
        Some(m) => m,
        None => DEFAULT_MAX_TOTAL_SIZE,
    }
}

/// The bytes standard base64 text decodes to, or the message of the
/// failure, as the base64 crate decodes and reports it.
pub uninterp spec fn base64_decoding(text: Seq<char>) -> Result<Seq<u8>, Seq<char>>;

/// `base64::engine::general_purpose::STANDARD.decode(text)`, its failure
/// written out as text. The contract names the result only: it is a
/// function of the text alone.
#[verifier::external_body]
fn decode_base64(text: &str) -> (r: Result<Vec<u8>, String>)
    ensures
        match r {
            Ok(b) => base64_decoding(text@) == Ok::<Seq<u8>, Seq<char>>(b@),
            Err(m) => base64_decoding(text@) == Err::<Seq<u8>, Seq<char>>(m@),
        },
{
    base64::Engine::decode(&base64::engine::general_purpose::STANDARD, text).map_err(
        |e| e.to_string(),
    )
}

/// The message of a total that went over the limit.
pub open spec fn over_limit_message(total: nat, max: nat) -> Seq<char> {
    "Total upload size ("@ + decimal_seq(total) + " bytes) exceeds maximum ("@ + decimal_seq(max)
        + " bytes)"@
}

/// Add the size of one more file to the running total; over the limit,
/// the upload is refused, the failure naming `parameter`.
pub fn add_to_total(total: u64, added: usize, max: u64, parameter: &str) -> (r: JiraMcpResult<u64>)
    ensures
        total + added <= max ==> r == Ok::<u64, JiraMcpError>((total + added) as u64),
        total + added > max ==> (r matches Err(e) && invalid_param_is(
            e,
            parameter@,
            over_limit_message((total + added) as nat, max as nat),
        )),
{
    let sum: u128 = total as u128 + added as u128;
    if sum > max as u128 {
        let mut m = owned("Total upload size (");
        if sum <= u64::MAX as u128 {
            let a = decimal_string(sum as u64);
            m.append(a.as_str());
        } else {
            let a = crate::text::decimal_string_u128(sum);
            m.append(a.as_str());
        }
        m.append(" bytes) exceeds maximum (");
        let b = decimal_string(max);
        m.append(b.as_str());
        m.append(" bytes)");
        return Err(JiraMcpError::InvalidParameter { parameter: owned(parameter), message: m });
    }
    Ok(sum as u64)
}

/// What preparing the inline files gives: each file's name and bytes, in
/// order, and their total size; or the failure of the first file that
/// does not decode or takes the total over the limit.
pub open spec fn spec_prepare(files: Seq<FileContent>, total: nat, max: nat) -> Result<
    (Seq<(Seq<char>, Seq<u8>)>, nat),
    (Seq<char>, Seq<char>),
>
    decreases files.len(),
{
    if files.len() == 0 {
        Ok((Seq::empty(), total))
    } else {
        let f = files[0];
        match base64_decoding(f.content_base64@) {
            Err(e) => Err(
                (
                    "content_base64"@,
                    "Invalid base64 content for file '"@ + f.filename@ + "': "@ + e,
                ),
            ),
            Ok(b) => {
                let t = total + b.len();
                if t > max {
                    Err(("files"@, over_limit_message(t, max)))
                } else {
                    match spec_prepare(files.drop_first(), t, max) {
                        Ok((rest, sum)) => Ok((seq![(f.filename@, b)] + rest, sum)),
                        Err(x) => Err(x),
                    }
                }
            },
        }
    }
}

/// The views of prepared files.
pub open spec fn prepared_view(v: Seq<(String, Vec<u8>)>) -> Seq<(Seq<char>, Seq<u8>)> {
    v.map_values(|p: (String, Vec<u8>)| (p.0@, p.1@))
}

/// Decode the inline files, keeping their total size within `max`.
pub fn prepare_inline_files(files: &[FileContent], max: u64) -> (r: JiraMcpResult<
    (Vec<(String, Vec<u8>)>, u64),
>)
    ensures
        match spec_prepare(files@, 0, max as nat) {
            Ok((prepared, total)) => r matches Ok((v, t)) && prepared_view(v@) == prepared
                && t == total,
            Err((p, m)) => r matches Err(e) && invalid_param_is(e, p, m),
        },
{
    let mut out: Vec<(String, Vec<u8>)> = Vec::new();
    let mut total: u64 = 0;
    let mut i: usize = 0;
    assert(files@.subrange(0, files@.len() as int) =~= files@);
    while i < files.len()
        invariant
            i <= files@.len(),
            total <= max,
            spec_prepare(files@, 0, max as nat) == match spec_prepare(
                files@.subrange(i as int, files@.len() as int),
                total as nat,
                max as nat,
            ) {
                Ok((rest, sum)) => Ok((prepared_view(out@) + rest, sum)),
                Err(x) => Err(x),
            },
        decreases files@.len() - i,
    {
        let f = &files[i];
        let ghost rest = files@.subrange(i as int, files@.len() as int);
        assert(rest[0] == files@[i as int]);
        assert(rest.drop_first() =~= files@.subrange(i + 1, files@.len() as int));
        let bytes = match decode_base64(f.content_base64.as_str()) {
            Ok(b) => b,
            Err(e) => {
                let mut m = owned("Invalid base64 content for file '");
                m.append(f.filename.as_str());
                m.append("': ");
                m.append(e.as_str());
                return Err(
                    JiraMcpError::InvalidParameter { parameter: owned("content_base64"), message: m },
                );
            },
        };
        total = add_to_total(total, bytes.len(), max, "files")?;
        let ghost before = out@;
        out.push((f.filename.clone(), bytes));
        assert(prepared_view(out@) =~= prepared_view(before) + seq![(f.filename@, bytes@)]);
        proof {
            let a = prepared_view(before);
            let b = seq![(f.filename@, bytes@)];
            match spec_prepare(files@.subrange(i + 1, files@.len() as int), total as nat, max as nat) {
                Ok((r2, s2)) => {
                    assert(a + (b + r2) =~= (a + b) + r2);
                },
                Err(_) => {},
            }
        }
        i = i + 1;
    }
    assert(files@.subrange(i as int, files@.len() as int).len() == 0);
    assert(prepared_view(out@) + Seq::<(Seq<char>, Seq<u8>)>::empty() =~= prepared_view(out@));
    Ok((out, total))
}

/// Refuse an upload with no file.
pub fn check_any_files(count: usize) -> (r: JiraMcpResult<()>)
    ensures
        count > 0 ==> r is Ok,
        count == 0 ==> (r matches Err(e) && invalid_param_is(
            e,
            "files"@,
            "No files provided for upload. Provide either 'files' or 'file_paths'."@,
        )),
{
    if count == 0 {
        return Err(
            JiraMcpError::invalid_param(
                "files",
                "No files provided for upload. Provide either 'files' or 'file_paths'.",
            ),
        );
    }
    Ok(())
}

/// The message of a finished upload.
pub fn upload_message(count: usize, total_bytes: u64, issue_key: &str) -> (r: String)
    ensures
        r@ == "Successfully uploaded "@ + decimal_seq(count as nat) + " file(s) ("@ + decimal_seq(
            total_bytes as nat,
        ) + " bytes) to issue '"@ + issue_key@ + "'"@,
{
    let mut m = owned("Successfully uploaded ");
    let n = decimal_string(count as u64);
    m.append(n.as_str());
    m.append(" file(s) (");
    let b = decimal_string(total_bytes);
    m.append(b.as_str());
    m.append(" bytes) to issue '");
    m.append(issue_key);
    m.append("'");
    m
}

/// An uploaded attachment as the tool reports it: JIRA's answer carries no
/// ID, so it is empty.
pub fn uploaded_info(
    filename: String,
    size: u64,
    mime_type: String,
    author: String,
    created: String,
    content_url: String,
) -> (r: UploadedAttachmentInfo)
    ensures
        r.id@ == Seq::<char>::empty(),
        r.filename@ == filename@,
        r.size == size,
        r.mime_type@ == mime_type@,
        r.author@ == author@,
        r.created@ == created@,
        r.content_url@ == content_url@,
{
    UploadedAttachmentInfo {
        id: String::new(),
        filename,
        size,
        mime_type,
        author,
        created,
        content_url,
    }
}

} // verus!
