//! Error types of the server and the JSON-RPC codes they map to.
//!
//! Each error kind has a fixed error code and a fixed category name, and
//! the conversions from the failures of the outside services are
//! classified here.

use crate::text::{
    char_views, chars_of, contains_seq, decimal_seq, decimal_string, lowercase, parse_unsigned,
    parse_unsigned_seq, split_whitespace, str_contains, str_eq, to_lowercase, words,
};
use vstd::prelude::*;

verus! {

/// Errors of the JIRA MCP server.
#[derive(Debug, Clone)]
pub enum JiraMcpError {
    /// Configuration errors (-32001)
    Configuration { message: String },
    /// Authentication failures (-32002)
    Authentication { message: String },
    /// Network errors (-32003)
    Network { message: String },
    /// Permission denied errors (-32004)
    Permission { message: String },
    /// Resource not found errors (-32005)
    NotFound { resource: String, key: String },
    /// Invalid parameter errors (-32006)
    InvalidParameter { parameter: String, message: String },
    /// Rate limit exceeded errors (-32007)
    RateLimit { retry_after: u64 },
    /// Cache errors
    Cache { message: String },
    /// JQL query building errors
    JqlError { message: String },
    /// Internal server errors
    Internal { message: String },
}

/// Result type of the server's operations.
pub type JiraMcpResult<T> = Result<T, JiraMcpError>;

/// The JSON-RPC error code of each error kind.
pub open spec fn spec_error_code(e: JiraMcpError) -> int {
    match e {
        JiraMcpError::Configuration { .. } => -32001,
        JiraMcpError::Authentication { .. } => -32002,
        JiraMcpError::Network { .. } => -32003,
        JiraMcpError::Permission { .. } => -32004,
        JiraMcpError::NotFound { .. } => -32005,
        JiraMcpError::InvalidParameter { .. } => -32006,
        JiraMcpError::RateLimit { .. } => -32007,
        JiraMcpError::Cache { .. } => -32003,
        JiraMcpError::JqlError { .. } => -32006,
        JiraMcpError::Internal { .. } => -32603,
    }
}

/// The category name of each error kind.
pub open spec fn spec_category(e: JiraMcpError) -> Seq<char> {
    match e {
        JiraMcpError::Configuration { .. } => "configuration"@,
        JiraMcpError::Authentication { .. } => "authentication"@,
        JiraMcpError::Network { .. } => "network"@,
        JiraMcpError::Permission { .. } => "permission"@,
        JiraMcpError::NotFound { .. } => "not_found"@,
        JiraMcpError::InvalidParameter { .. } => "invalid_parameter"@,
        JiraMcpError::RateLimit { .. } => "rate_limit"@,
        JiraMcpError::Cache { .. } => "cache"@,
        JiraMcpError::JqlError { .. } => "jql"@,
        JiraMcpError::Internal { .. } => "internal"@,
    }
}

/// The human-readable text of an error.
pub open spec fn spec_error_text(e: JiraMcpError) -> Seq<char> {
    match e {
        JiraMcpError::Configuration { message } => "Configuration error: "@ + message@,
        JiraMcpError::Authentication { message } => "Authentication failed: "@ + message@,
        JiraMcpError::Network { message } => "Network error: "@ + message@,
        JiraMcpError::Permission { message } => "Permission denied: "@ + message@,
        JiraMcpError::NotFound { resource, key } => "Not found: "@ + resource@ + " '"@ + key@
            + "' not found"@,
        JiraMcpError::InvalidParameter { parameter, message } => "Invalid parameter: "@
            + parameter@ + " - "@ + message@,
        JiraMcpError::RateLimit { retry_after } => "Rate limit exceeded, retry after "@
            + decimal_seq(retry_after as nat) + " seconds"@,
        JiraMcpError::Cache { message } => "Cache error: "@ + message@,
        JiraMcpError::JqlError { message } => "JQL error: "@ + message@,
        JiraMcpError::Internal { message } => "Internal error: "@ + message@,
    }
}

/// A value in the additional data of an error response.
#[derive(Debug, Clone)]
pub enum ErrorDataValue {
    Text(String),
    Number(u64),
}

/// The additional data of an error response: named values in order.
#[derive(Debug, Clone)]
pub struct ErrorData {
    pub entries: Vec<(String, ErrorDataValue)>,
}

/// The plain view of an error-data value.
pub enum DataValueView {
    Text(Seq<char>),
    Number(nat),
}

pub open spec fn data_value_view(v: ErrorDataValue) -> DataValueView {
    match v {
        ErrorDataValue::Text(s) => DataValueView::Text(s@),
        ErrorDataValue::Number(n) => DataValueView::Number(n as nat),
    }
}

pub open spec fn data_entries_view(d: ErrorData) -> Seq<(Seq<char>, DataValueView)> {
    d.entries@.map_values(|e: (String, ErrorDataValue)| (e.0@, data_value_view(e.1)))
}

/// The entries of the additional data of an error, in order: its category,
/// then what its kind carries.
pub open spec fn spec_error_data(e: JiraMcpError) -> Seq<(Seq<char>, DataValueView)> {
    let cat = seq![("category"@, DataValueView::Text(spec_category(e)))];
    match e {
        JiraMcpError::RateLimit { retry_after } => cat + seq![
            ("retry_after"@, DataValueView::Number(retry_after as nat)),
        ],
        JiraMcpError::NotFound { resource, key } => cat + seq![
            ("resource"@, DataValueView::Text(resource@)),
            ("key"@, DataValueView::Text(key@)),
        ],
        JiraMcpError::InvalidParameter { parameter, .. } => cat + seq![
            ("parameter"@, DataValueView::Text(parameter@)),
        ],
        _ => cat,
    }
}

impl ErrorData {
    /// The value stored under `key`, if any (the first one).
    pub fn get(&self, key: &str) -> (r: Option<&ErrorDataValue>)
        ensures
            r matches Some(v) ==> exists|i: int|
                0 <= i < self.entries@.len() && self.entries@[i].0@ == key@
                    && self.entries@[i].1 == *v && forall|j: int|
                    0 <= j < i ==> self.entries@[j].0@ != key@,
            r is None ==> forall|i: int|
                0 <= i < self.entries@.len() ==> self.entries@[i].0@ != key@,
    {
        let mut i: usize = 0;
        while i < self.entries.len()
            invariant
                i <= self.entries@.len(),
                forall|j: int| 0 <= j < i ==> self.entries@[j].0@ != key@,
            decreases self.entries@.len() - i,
        {
            if str_eq(self.entries[i].0.as_str(), key) {
                return Some(&self.entries[i].1);
            }
            i = i + 1;
        }
        None
    }
}

fn owned(s: &str) -> (r: String)
    ensures
        r@ == s@,
{
    s.to_owned()
}

fn concat2(a: &str, b: &str) -> (r: String)
    ensures
        r@ == a@ + b@,
{
    let mut s = owned(a);
    s.append(b);
    s
}

/// The kinds of failure that the JIRA client library reports.
#[derive(Debug, Clone, Copy, PartialEq, Eq)]
pub enum ClientErrorKind {
    Http,
    Io,
    Serde,
    Unauthorized,
    NotFound,
    Fault,
    Other,
}

/// The error a client failure of `kind` becomes, `detail` being the text
/// of the failure.
pub open spec fn spec_from_client_error(kind: ClientErrorKind, detail: Seq<char>) -> (
    Seq<char>,
    Seq<char>,
) {
    match kind {
        ClientErrorKind::Http => ("network"@, "HTTP error: "@ + detail),
        ClientErrorKind::Io => ("network"@, "IO error: "@ + detail),
        ClientErrorKind::Serde => ("internal"@, "Serialization error: "@ + detail),
        ClientErrorKind::Unauthorized => ("authentication"@, "JIRA authentication failed"@),
        ClientErrorKind::NotFound => ("not_found"@, Seq::empty()),
        ClientErrorKind::Fault => ("internal"@, "JIRA API error: "@ + detail),
        ClientErrorKind::Other => ("internal"@, "JIRA client error: "@ + detail),
    }
}

/// `e` is what a client failure of `kind` with text `detail` becomes: it
/// has the category and the message that `spec_from_client_error` gives,
/// a failure that found nothing naming no resource.
pub open spec fn is_client_error(e: JiraMcpError, kind: ClientErrorKind, detail: Seq<char>) -> bool {
    &&& spec_category(e) == spec_from_client_error(kind, detail).0
    &&& kind != ClientErrorKind::NotFound ==> spec_message(e) == spec_from_client_error(
        kind,
        detail,
    ).1
    &&& kind == ClientErrorKind::NotFound ==> (e matches JiraMcpError::NotFound { resource, key }
        && resource@ == "resource"@ && key@ == "unknown"@)
}

/// The message that a generic error with text `message` is classified by,
/// as the category it falls in; `lower` is the lower-cased text.
pub open spec fn spec_message_category(lower: Seq<char>) -> Seq<char> {
    if contains_seq(lower, "authentication"@) || contains_seq(lower, "unauthorized"@) {
        "authentication"@
    } else if contains_seq(lower, "not found"@) || contains_seq(lower, "404"@) {
        "not_found"@
    } else if contains_seq(lower, "permission"@) || contains_seq(lower, "forbidden"@)
        || contains_seq(lower, "403"@) {
        "permission"@
    } else if contains_seq(lower, "network"@) || contains_seq(lower, "connection"@)
        || contains_seq(lower, "timeout"@) {
        "network"@
    } else if contains_seq(lower, "rate limit"@) || contains_seq(lower, "429"@) {
        "rate_limit"@
    } else if contains_seq(lower, "config"@) {
        "configuration"@
    } else {
        "internal"@
    }
}

/// The message an error carries, if its kind carries one.
pub open spec fn spec_message(e: JiraMcpError) -> Seq<char> {
    match e {
        JiraMcpError::Configuration { message } => message@,
        JiraMcpError::Authentication { message } => message@,
        JiraMcpError::Network { message } => message@,
        JiraMcpError::Permission { message } => message@,
        JiraMcpError::Cache { message } => message@,
        JiraMcpError::JqlError { message } => message@,
        JiraMcpError::Internal { message } => message@,
        JiraMcpError::InvalidParameter { message, .. } => message@,
        _ => Seq::empty(),
    }
}

/// The first word that parses as an unsigned 64-bit number.
pub open spec fn first_number_word(ws: Seq<Seq<char>>) -> Option<nat>
    decreases ws.len(),
{
    if ws.len() == 0 {
        None
    } else {
        match parse_unsigned_seq(ws[0], u64::MAX as nat) {
            Some(v) => Some(v),
            None => first_number_word(ws.drop_first()),
        }
    }
}

impl JiraMcpError {
    /// Get the MCP JSON-RPC error code for this error
    pub fn error_code(&self) -> (r: i32)
        ensures
            r == spec_error_code(*self),
    {
        match self {
            JiraMcpError::Configuration { .. } => -32001,
            JiraMcpError::Authentication { .. } => -32002,
            JiraMcpError::Network { .. } => -32003,
            JiraMcpError::Permission { .. } => -32004,
            JiraMcpError::NotFound { .. } => -32005,
            JiraMcpError::InvalidParameter { .. } => -32006,
            JiraMcpError::RateLimit { .. } => -32007,
            JiraMcpError::Cache { .. } => -32003,
            JiraMcpError::JqlError { .. } => -32006,
            JiraMcpError::Internal { .. } => -32603,
        }
    }

    /// Get the error category for logging and metrics
    pub fn category(&self) -> (r: &'static str)
        ensures
            r@ == spec_category(*self),
    {
        match self {
            JiraMcpError::Configuration { .. } => "configuration",
            JiraMcpError::Authentication { .. } => "authentication",
            JiraMcpError::Network { .. } => "network",
            JiraMcpError::Permission { .. } => "permission",
            JiraMcpError::NotFound { .. } => "not_found",
            JiraMcpError::InvalidParameter { .. } => "invalid_parameter",
            JiraMcpError::RateLimit { .. } => "rate_limit",
            JiraMcpError::Cache { .. } => "cache",
            JiraMcpError::JqlError { .. } => "jql",
            JiraMcpError::Internal { .. } => "internal",
        }
    }

    /// The human-readable text of the error.
    pub fn to_display_string(&self) -> (r: String)
        ensures
            r@ == spec_error_text(*self),
    {
        match self {
            JiraMcpError::Configuration { message } => concat2(
                "Configuration error: ",
                message.as_str(),
            ),
            JiraMcpError::Authentication { message } => concat2(
                "Authentication failed: ",
                message.as_str(),
            ),
            JiraMcpError::Network { message } => concat2("Network error: ", message.as_str()),
            JiraMcpError::Permission { message } => concat2(
                "Permission denied: ",
                message.as_str(),
            ),
            JiraMcpError::NotFound { resource, key } => {
                let mut s = concat2("Not found: ", resource.as_str());
                s.append(" '");
                s.append(key.as_str());
                s.append("' not found");
                s
            },
            JiraMcpError::InvalidParameter { parameter, message } => {
                let mut s = concat2("Invalid parameter: ", parameter.as_str());
                s.append(" - ");
                s.append(message.as_str());
                s
            },
            JiraMcpError::RateLimit { retry_after } => {
                let mut s = owned("Rate limit exceeded, retry after ");
                let n = decimal_string(*retry_after);
                s.append(n.as_str());
                s.append(" seconds");
                s
            },
            JiraMcpError::Cache { message } => concat2("Cache error: ", message.as_str()),
            JiraMcpError::JqlError { message } => concat2("JQL error: ", message.as_str()),
            JiraMcpError::Internal { message } => concat2("Internal error: ", message.as_str()),
        }
    }

    /// Get additional error data for MCP error responses
    pub fn error_data(&self) -> (r: Option<ErrorData>)
        ensures
            r matches Some(d) && data_entries_view(d) == spec_error_data(*self),
    {
        let mut entries: Vec<(String, ErrorDataValue)> = Vec::new();
        entries.push((owned("category"), ErrorDataValue::Text(owned(self.category()))));
        match self {
            JiraMcpError::RateLimit { retry_after } => {
                entries.push((owned("retry_after"), ErrorDataValue::Number(*retry_after)));
            },
            JiraMcpError::NotFound { resource, key } => {
                entries.push((owned("resource"), ErrorDataValue::Text(resource.clone())));
                entries.push((owned("key"), ErrorDataValue::Text(key.clone())));
            },
            JiraMcpError::InvalidParameter { parameter, .. } => {
                entries.push((owned("parameter"), ErrorDataValue::Text(parameter.clone())));
            },
            _ => {},
        }
        let d = ErrorData { entries };
        assert(data_entries_view(d) =~= spec_error_data(*self));
        Some(d)
    }

    /// Create a configuration error
    pub fn config(message: &str) -> (r: Self)
        ensures
            r matches JiraMcpError::Configuration { message: m } && m@ == message@,
    {
        JiraMcpError::Configuration { message: owned(message) }
    }

    /// Create an authentication error
    pub fn auth(message: &str) -> (r: Self)
        ensures
            r matches JiraMcpError::Authentication { message: m } && m@ == message@,
    {
        JiraMcpError::Authentication { message: owned(message) }
    }

    /// Create a network error
    pub fn network(message: &str) -> (r: Self)
        ensures
            r matches JiraMcpError::Network { message: m } && m@ == message@,
    {
        JiraMcpError::Network { message: owned(message) }
    }

    /// Create a permission error
    pub fn permission(message: &str) -> (r: Self)
        ensures
            r matches JiraMcpError::Permission { message: m } && m@ == message@,
    {
        JiraMcpError::Permission { message: owned(message) }
    }

    /// Create a not found error
    pub fn not_found(resource: &str, key: &str) -> (r: Self)
        ensures
            r matches JiraMcpError::NotFound { resource: a, key: b } && a@ == resource@ && b@
                == key@,
    {
        JiraMcpError::NotFound { resource: owned(resource), key: owned(key) }
    }

    /// Create an invalid parameter error
    pub fn invalid_param(parameter: &str, message: &str) -> (r: Self)
        ensures
            r matches JiraMcpError::InvalidParameter { parameter: p, message: m } && p@
                == parameter@ && m@ == message@,
    {
        JiraMcpError::InvalidParameter { parameter: owned(parameter), message: owned(message) }
    }

    /// Create a rate limit error
    pub fn rate_limit(retry_after: u64) -> (r: Self)
        ensures
            r == (JiraMcpError::RateLimit { retry_after }),
    {
        JiraMcpError::RateLimit { retry_after }
    }

    /// Create a cache error
    pub fn cache(message: &str) -> (r: Self)
        ensures
            r matches JiraMcpError::Cache { message: m } && m@ == message@,
    {
        JiraMcpError::Cache { message: owned(message) }
    }

    /// Create a JQL error
    pub fn jql(message: &str) -> (r: Self)
        ensures
            r matches JiraMcpError::JqlError { message: m } && m@ == message@,
    {
        JiraMcpError::JqlError { message: owned(message) }
    }

    /// Create an internal error
    pub fn internal(message: &str) -> (r: Self)
        ensures
            r matches JiraMcpError::Internal { message: m } && m@ == message@,
    {
        JiraMcpError::Internal { message: owned(message) }
    }

    /// The error that a failure of the JIRA client becomes, `detail` being
    /// the text of that failure.
    pub fn from_client_error(kind: ClientErrorKind, detail: &str) -> (r: Self)
        ensures
            is_client_error(r, kind, detail@),
    {
        match kind {
            ClientErrorKind::Http => JiraMcpError::Network {
                message: concat2("HTTP error: ", detail),
            },
            ClientErrorKind::Io => JiraMcpError::Network { message: concat2("IO error: ", detail) },
            ClientErrorKind::Serde => JiraMcpError::Internal {
                message: concat2("Serialization error: ", detail),
            },
            ClientErrorKind::Unauthorized => JiraMcpError::auth("JIRA authentication failed"),
            ClientErrorKind::NotFound => JiraMcpError::not_found("resource", "unknown"),
            ClientErrorKind::Fault => JiraMcpError::Internal {
                message: concat2("JIRA API error: ", detail),
            },
            ClientErrorKind::Other => JiraMcpError::Internal {
                message: concat2("JIRA client error: ", detail),
            },
        }
    }

    /// The error that a JSON failure with text `detail` becomes.
    pub fn from_json_error(detail: &str) -> (r: Self)
        ensures
            r matches JiraMcpError::Internal { message } && message@ == "JSON error: "@ + detail@,
    {
        JiraMcpError::Internal { message: concat2("JSON error: ", detail) }
    }

    /// The error that a TOML parsing failure with text `detail` becomes.
    pub fn from_toml_error(detail: &str) -> (r: Self)
        ensures
            r matches JiraMcpError::Configuration { message } && message@
                == "TOML parsing error: "@ + detail@,
    {
        JiraMcpError::Configuration { message: concat2("TOML parsing error: ", detail) }
    }

    /// The error that a generic failure with text `message` becomes: it is
    /// classified by the words its lower-cased text contains.
    pub fn from_error_message(message: &str) -> (r: Self)
        ensures
            spec_category(r) == spec_message_category(lowercase(message@)),
            (r is Authentication || r is Permission || r is Network || r is Configuration
                || r is Internal) ==> spec_message(r) == message@,
            r is NotFound ==> (r matches JiraMcpError::NotFound { resource, key } && resource@
                == "resource"@ && key@ == "unknown"@),
            r is RateLimit ==> r == (JiraMcpError::RateLimit { retry_after: 60 }),
    {
        let lower = to_lowercase(message);
        let l = lower.as_str();
        if str_contains(l, "authentication") || str_contains(l, "unauthorized") {
            JiraMcpError::auth(message)
        } else if str_contains(l, "not found") || str_contains(l, "404") {
            JiraMcpError::not_found("resource", "unknown")
        } else if str_contains(l, "permission") || str_contains(l, "forbidden") || str_contains(
            l,
            "403",
        ) {
            JiraMcpError::permission(message)
        } else if str_contains(l, "network") || str_contains(l, "connection") || str_contains(
            l,
            "timeout",
        ) {
            JiraMcpError::network(message)
        } else if str_contains(l, "rate limit") || str_contains(l, "429") {
            JiraMcpError::rate_limit(60)
        } else if str_contains(l, "config") {
            JiraMcpError::config(message)
        } else {
            JiraMcpError::internal(message)
        }
    }
}

/// Helper function to extract retry-after from HTTP errors: when the text
/// mentions `retry-after`, its first word that is an unsigned number.
pub fn extract_retry_after(error_message: &str) -> (r: Option<u64>)
    ensures
        !contains_seq(error_message@, "retry-after"@) ==> r is None,
        contains_seq(error_message@, "retry-after"@) ==> match first_number_word(
            words(error_message@),
        ) {
            Some(v) => r == Some(v as u64),
            None => r is None,
        },
{
    if !str_contains(error_message, "retry-after") {
        return None;
    }
    let cs = chars_of(error_message);
    let ws = split_whitespace(cs.as_slice());
    let ghost all = words(error_message@);
    assert(all.subrange(0, all.len() as int) =~= all);
    let mut i: usize = 0;
    while i < ws.len()
        invariant
            i <= ws@.len(),
            char_views(ws@) == all,
            all == words(error_message@),
            contains_seq(error_message@, "retry-after"@),
            first_number_word(all) == first_number_word(all.subrange(i as int, all.len() as int)),
        decreases ws@.len() - i,
    {
        let ghost rest = all.subrange(i as int, all.len() as int);
        assert(rest[0] == ws@[i as int]@);
        let parsed = parse_unsigned(ws[i].as_slice(), u64::MAX);
        if let Some(v) = parsed {
            return Some(v);
        }
        assert(rest.drop_first() =~= all.subrange(i + 1, all.len() as int));
        i = i + 1;
    }
    assert(all.subrange(i as int, all.len() as int) =~= Seq::<Seq<char>>::empty());
    None
}

} // verus!
