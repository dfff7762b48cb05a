//! Verified core of an AI-friendly JIRA integration server.
//!
//! The crate holds the logic of the server: semantic mapping of
//! parameters to JQL, metadata caching with time-to-live, configuration
//! validation, error classification, todo tracking in issue descriptions,
//! the checks, plans and answers of the tools, and the state of the
//! server as it reports it. Network and process plumbing lives outside
//! this crate.

pub mod cache;
pub mod clock;
pub mod config;
pub mod error;
pub mod jira_client;
pub mod semantic_mapping;
pub mod text;
pub mod tools;

use crate::cache::{CacheStats, UserMapping};
use crate::error::{spec_error_text, JiraMcpError, JiraMcpResult};
use crate::tools::validation::check_result;
use vstd::prelude::*;

verus! {

/// Server status information
#[derive(Debug, Clone)]
pub struct JiraServerStatus {
    pub server_name: String,
    pub version: String,
    pub uptime_seconds: u64,
    pub jira_url: String,
    pub jira_connection_status: String,
    pub authenticated_user: Option<String>,
    pub cache_stats: CacheStats,
    pub tools_count: usize,
}

/// The number of tools the server reports.
pub const TOOLS_COUNT: usize = 28;

/// The connection status a status report gives: "Connected", or the error
/// of the connection test.
pub open spec fn spec_connection_status(test: Result<(), JiraMcpError>) -> Seq<char> {
    match test {
        Ok(_) => "Connected"@,
        Err(e) => "Connection Error: "@ + spec_error_text(e),
    }
}

fn owned(s: &str) -> (r: String)
    ensures
        r@ == s@,
{
    s.to_owned()
}

/// The status of the server: its name and version, how long it has run,
/// where JIRA is, whether the connection test passed and, if so, who is
/// authenticated, the cache statistics and the number of tools.
pub fn server_status(
    uptime_seconds: u64,
    jira_url: String,
    connection_test: Result<(), JiraMcpError>,
    user_name: String,
    cache_stats: CacheStats,
) -> (r: JiraServerStatus)
    ensures
        r.server_name@ == "JIRA MCP Server"@,
        r.version@ == "0.7.0"@,
        r.uptime_seconds == uptime_seconds,
        r.jira_url@ == jira_url@,
        r.jira_connection_status@ == spec_connection_status(connection_test),
        connection_test is Ok ==> (r.authenticated_user matches Some(u) && u@ == user_name@),
        connection_test is Err ==> r.authenticated_user is None,
        r.cache_stats == cache_stats,
        r.tools_count == TOOLS_COUNT,
{
    let (status, user) = match connection_test {
        Ok(()) => (owned("Connected"), Some(user_name)),
        Err(e) => {
            let mut s = owned("Connection Error: ");
            let t = e.to_display_string();
            s.append(t.as_str());
            (s, None)
        },
    };
    JiraServerStatus {
        server_name: owned("JIRA MCP Server"),
        version: owned("0.7.0"),
        uptime_seconds,
        jira_url,
        jira_connection_status: status,
        authenticated_user: user,
        cache_stats,
        tools_count: TOOLS_COUNT,
    }
}

/// The name a status report gives the authenticated user: the cached
/// current user's, else the one JIRA gives, else "Unknown".
pub fn current_user_name(cached: Option<UserMapping>, from_jira: Option<String>) -> (r: String)
    ensures
        r@ == match cached {
            Some(u) => u.display_name@,
            None => match from_jira {
                Some(n) => n@,
                None => "Unknown"@,
            },
        },
{
    match cached {
        Some(u) => u.display_name,
        None => match from_jira {
            Some(n) => n,
            None => owned("Unknown"),
        },
    }
}

/// The user mapping the current user is cached as: no username.
pub fn current_user_mapping(user: crate::jira_client::UserInfo) -> (r: UserMapping)
    ensures
        r.account_id@ == user.account_id@,
        r.display_name@ == user.display_name@,
        crate::text::opt_view(r.email_address) == crate::text::opt_view(user.email_address),
        r.username is None,
{
    UserMapping {
        account_id: user.account_id,
        display_name: user.display_name,
        email_address: user.email_address,
        username: None,
    }
}

/// What clearing the cache answers.
pub fn clear_cache_message(outcome: JiraMcpResult<()>) -> (r: Result<String, String>)
    ensures
        outcome is Ok ==> (r matches Ok(m) && m@ == "All cached metadata has been cleared successfully"@),
        outcome matches Err(e) ==> (r matches Err(m) && m@ == "Failed to clear cache: "@
            + spec_error_text(e)),
{
    match outcome {
        Ok(()) => Ok(owned("All cached metadata has been cleared successfully")),
        Err(e) => {
            let mut m = owned("Failed to clear cache: ");
            let t = e.to_display_string();
            m.append(t.as_str());
            Err(m)
        },
    }
}

/// The report of a successful connection test.
pub open spec fn spec_connection_ok(jira_url: Seq<char>, user: crate::jira_client::UserInfo) -> Seq<char> {
    "✅ Connection successful!\nJIRA URL: "@ + jira_url + "\nAuthenticated as: "@
        + user.display_name@ + " ("@ + match user.email_address {
        Some(e) => e@,
        None => "N/A"@,
    } + ")\nAccount ID: "@ + user.account_id@ + "\nEmail: "@ + match user.email_address {
        Some(e) => e@,
        None => "Not provided"@,
    }
}

/// The report of a failed connection test.
pub open spec fn spec_connection_failed(jira_url: Seq<char>, e: JiraMcpError) -> Seq<char> {
    "❌ Connection failed!\nJIRA URL: "@ + jira_url + "\nError: "@ + spec_error_text(e)
        + "\n\nPlease check:\n- JIRA URL is correct and accessible\n- Authentication credentials are valid\n- Network connectivity to JIRA instance"@
}

/// The report of a connection test.
pub fn connection_report(jira_url: &str, outcome: JiraMcpResult<crate::jira_client::UserInfo>) -> (r:
    String)
    ensures
        match outcome {
            Ok(u) => r@ == spec_connection_ok(jira_url@, u),
            Err(e) => r@ == spec_connection_failed(jira_url@, e),
        },
{
    match outcome {
        Ok(u) => {
            let mut m = owned("✅ Connection successful!\nJIRA URL: ");
            m.append(jira_url);
            m.append("\nAuthenticated as: ");
            m.append(u.display_name.as_str());
            m.append(" (");
            match &u.email_address {
                Some(e) => m.append(e.as_str()),
                None => m.append("N/A"),
            }
            m.append(")\nAccount ID: ");
            m.append(u.account_id.as_str());
            m.append("\nEmail: ");
            match &u.email_address {
                Some(e) => m.append(e.as_str()),
                None => m.append("Not provided"),
            }
            m
        },
        Err(e) => {
            let mut m = owned("❌ Connection failed!\nJIRA URL: ");
            m.append(jira_url);
            m.append("\nError: ");
            let t = e.to_display_string();
            m.append(t.as_str());
            m.append(
                "\n\nPlease check:\n- JIRA URL is correct and accessible\n- Authentication credentials are valid\n- Network connectivity to JIRA instance",
            );
            m
        },
    }
}

/// Why paging parameters are refused: a limit of 0 or over 200, an offset
/// over 10000.
pub open spec fn spec_common_failure(limit: Option<u32>, start_at: Option<u32>) -> Option<
    (Seq<char>, Seq<char>),
> {
    if limit is Some && limit->0 == 0 {
        Some(("limit"@, "Limit must be greater than 0"@))
    } else if limit is Some && limit->0 > 200 {
        Some(("limit"@, "Limit cannot exceed 200"@))
    } else if start_at is Some && start_at->0 > 10000 {
        Some(("start_at"@, "start_at cannot exceed 10000"@))
    } else {
        None
    }
}

/// Validate the paging parameters common to the tools.
pub fn validate_common_params(limit: Option<u32>, start_at: Option<u32>) -> (r: JiraMcpResult<()>)
    ensures
        check_result(r, spec_common_failure(limit, start_at)),
{
    if let Some(l) = limit {
        if l == 0 {
            return Err(JiraMcpError::invalid_param("limit", "Limit must be greater than 0"));
        }
        if l > 200 {
            return Err(JiraMcpError::invalid_param("limit", "Limit cannot exceed 200"));
        }
    }
    if let Some(s) = start_at {
        if s > 10000 {
            return Err(JiraMcpError::invalid_param("start_at", "start_at cannot exceed 10000"));
        }
    }
    Ok(())
}

} // verus!
