//! Configuration of the server: defaults, overrides from the environment
//! and validation.
//!
//! Reading the environment and the TOML file is left to the caller; this
//! module decides what configuration results from what was read.

use crate::error::JiraMcpError;
use crate::text::{
    chars_of, lowercase, opt_view, parse_unsigned, parse_unsigned_seq, starts_with_seq, str_eq,
    str_starts_with, to_lowercase,
};
use vstd::prelude::*;

verus! {

/// Authentication configuration
#[derive(Debug, Clone)]
pub enum AuthConfig {
    /// Personal Access Token (recommended)
    PersonalAccessToken(String),
    /// Basic authentication (username + password)
    Basic { username: String, password: String },
    /// Bearer token
    Bearer(String),
    /// Anonymous access (limited functionality)
    Anonymous,
}

/// The plain view of an authentication configuration.
pub enum AuthView {
    PersonalAccessToken(Seq<char>),
    Basic(Seq<char>, Seq<char>),
    Bearer(Seq<char>),
    Anonymous,
}

impl View for AuthConfig {
    type V = AuthView;

    open spec fn view(&self) -> AuthView {
        match self {
            AuthConfig::PersonalAccessToken(t) => AuthView::PersonalAccessToken(t@),
            AuthConfig::Basic { username, password } => AuthView::Basic(username@, password@),
            AuthConfig::Bearer(t) => AuthView::Bearer(t@),
            AuthConfig::Anonymous => AuthView::Anonymous,
        }
    }
}

/// Semantic names mapped to JIRA names, one entry per semantic name.
pub type NameMappings = Vec<(String, Vec<String>)>;

/// The plain view of name mappings.
pub type MappingsView = Seq<(Seq<char>, Seq<Seq<char>>)>;

pub open spec fn string_views(v: Seq<String>) -> Seq<Seq<char>> {
    v.map_values(|s: String| s@)
}

pub open spec fn mappings_view(m: Seq<(String, Vec<String>)>) -> MappingsView {
    m.map_values(|e: (String, Vec<String>)| (e.0@, string_views(e.1@)))
}

/// The names mapped to `key`: those of the first entry for it.
pub open spec fn lookup_mapping(m: MappingsView, key: Seq<char>) -> Option<Seq<Seq<char>>>
    decreases m.len(),
{
    if m.len() == 0 {
        None
    } else if m[0].0 == key {
        Some(m[0].1)
    } else {
        lookup_mapping(m.drop_first(), key)
    }
}

/// Main configuration structure for the JIRA MCP Server
#[derive(Debug, Clone)]
pub struct JiraConfig {
    /// JIRA instance URL (required)
    pub jira_url: String,
    /// Authentication configuration (required)
    pub auth: AuthConfig,
    /// Cache TTL in seconds (default: 300 = 5 minutes)
    pub cache_ttl_seconds: u64,
    /// Maximum search results to return (default: 50, max: 200)
    pub max_search_results: u32,
    /// HTTP request timeout in seconds (default: 30)
    pub request_timeout_seconds: u64,
    /// Rate limit per minute (default: 60)
    pub rate_limit_per_minute: u32,
    /// Custom issue type mappings (semantic -> JIRA names)
    pub issue_type_mappings: NameMappings,
    /// Custom status category mappings (semantic -> JIRA statuses)
    pub status_category_mappings: NameMappings,
}

/// The plain view of a configuration.
pub struct JiraConfigView {
    pub jira_url: Seq<char>,
    pub auth: AuthView,
    pub cache_ttl_seconds: u64,
    pub max_search_results: u32,
    pub request_timeout_seconds: u64,
    pub rate_limit_per_minute: u32,
    pub issue_type_mappings: MappingsView,
    pub status_category_mappings: MappingsView,
}

impl View for JiraConfig {
    type V = JiraConfigView;

    open spec fn view(&self) -> JiraConfigView {
        JiraConfigView {
            jira_url: self.jira_url@,
            auth: self.auth@,
            cache_ttl_seconds: self.cache_ttl_seconds,
            max_search_results: self.max_search_results,
            request_timeout_seconds: self.request_timeout_seconds,
            rate_limit_per_minute: self.rate_limit_per_minute,
            issue_type_mappings: mappings_view(self.issue_type_mappings@),
            status_category_mappings: mappings_view(self.status_category_mappings@),
        }
    }
}

/// The default issue type mappings.
pub open spec fn spec_default_issue_type_mappings() -> MappingsView {
    seq![
        ("story"@, seq!["Story"@, "User Story"@]),
        ("feature"@, seq!["Feature"@, "Enhancement"@]),
        ("capability"@, seq!["Capability"@, "Epic"@]),
        ("bug"@, seq!["Bug"@, "Defect"@]),
        ("task"@, seq!["Task"@, "Sub-task"@]),
        ("improvement"@, seq!["Improvement"@, "Enhancement"@]),
    ]
}

/// The default status category mappings.
pub open spec fn spec_default_status_category_mappings() -> MappingsView {
    seq![
        ("open"@, seq!["Open"@, "To Do"@, "Backlog"@, "New"@]),
        ("in_progress"@, seq!["In Progress"@, "In Development"@, "In Review"@, "Code Review"@, "Testing"@]),
        ("done"@, seq!["Done"@, "Closed"@, "Resolved"@, "Complete"@]),
        ("blocked"@, seq!["Blocked"@, "On Hold"@, "Waiting"@, "Paused"@]),
    ]
}

/// The default configuration.
pub open spec fn spec_default_config() -> JiraConfigView {
    JiraConfigView {
        jira_url: Seq::empty(),
        auth: AuthView::Anonymous,
        cache_ttl_seconds: 300,
        max_search_results: 50,
        request_timeout_seconds: 30,
        rate_limit_per_minute: 60,
        issue_type_mappings: spec_default_issue_type_mappings(),
        status_category_mappings: spec_default_status_category_mappings(),
    }
}

fn owned(s: &str) -> (r: String)
    ensures
        r@ == s@,
{
    s.to_owned()
}

fn names(a: &str, b: &str) -> (r: Vec<String>)
    ensures
        string_views(r@) == seq![a@, b@],
{
    let mut v: Vec<String> = Vec::new();
    v.push(owned(a));
    v.push(owned(b));
    assert(string_views(v@) =~= seq![a@, b@]);
    v
}

fn names4(a: &str, b: &str, c: &str, d: &str) -> (r: Vec<String>)
    ensures
        string_views(r@) == seq![a@, b@, c@, d@],
{
    let mut v: Vec<String> = Vec::new();
    v.push(owned(a));
    v.push(owned(b));
    v.push(owned(c));
    v.push(owned(d));
    assert(string_views(v@) =~= seq![a@, b@, c@, d@]);
    v
}

/// Default issue type mappings (semantic -> JIRA issue type names)
pub fn default_issue_type_mappings() -> (r: NameMappings)
    ensures
        mappings_view(r@) == spec_default_issue_type_mappings(),
{
    let mut m: NameMappings = Vec::new();
    m.push((owned("story"), names("Story", "User Story")));
    m.push((owned("feature"), names("Feature", "Enhancement")));
    m.push((owned("capability"), names("Capability", "Epic")));
    m.push((owned("bug"), names("Bug", "Defect")));
    m.push((owned("task"), names("Task", "Sub-task")));
    m.push((owned("improvement"), names("Improvement", "Enhancement")));
    assert(mappings_view(m@) =~= spec_default_issue_type_mappings());
    m
}

/// Default status category mappings (semantic -> JIRA status names)
pub fn default_status_category_mappings() -> (r: NameMappings)
    ensures
        mappings_view(r@) == spec_default_status_category_mappings(),
{
    let mut m: NameMappings = Vec::new();
    m.push((owned("open"), names4("Open", "To Do", "Backlog", "New")));
    let mut p = names4("In Progress", "In Development", "In Review", "Code Review");
    let ghost before = string_views(p@);
    p.push(owned("Testing"));
    assert(string_views(p@) =~= before.push("Testing"@));
    assert(string_views(p@) =~= seq![
        "In Progress"@,
        "In Development"@,
        "In Review"@,
        "Code Review"@,
        "Testing"@,
    ]);
    m.push((owned("in_progress"), p));
    m.push((owned("done"), names4("Done", "Closed", "Resolved", "Complete")));
    m.push((owned("blocked"), names4("Blocked", "On Hold", "Waiting", "Paused")));
    assert(mappings_view(m@) =~= spec_default_status_category_mappings());
    m
}

impl Default for JiraConfig {
    fn default() -> (r: Self)
        ensures
            r@ == spec_default_config(),
    {
        JiraConfig {
            jira_url: String::new(),
            auth: AuthConfig::Anonymous,
            cache_ttl_seconds: 300,
            max_search_results: 50,
            request_timeout_seconds: 30,
            rate_limit_per_minute: 60,
            issue_type_mappings: default_issue_type_mappings(),
            status_category_mappings: default_status_category_mappings(),
        }
    }
}

/// The values read from the environment variables of the server.
#[derive(Debug, Clone)]
pub struct EnvSettings {
    /// `JIRA_URL`
    pub jira_url: Option<String>,
    /// `JIRA_AUTH_TYPE`
    pub auth_type: Option<String>,
    /// `JIRA_TOKEN`
    pub token: Option<String>,
    /// `JIRA_USERNAME`
    pub username: Option<String>,
    /// `JIRA_PASSWORD`
    pub password: Option<String>,
    /// `JIRA_CACHE_TTL`
    pub cache_ttl: Option<String>,
    /// `JIRA_MAX_RESULTS`
    pub max_results: Option<String>,
    /// `JIRA_REQUEST_TIMEOUT`
    pub request_timeout: Option<String>,
    /// `JIRA_RATE_LIMIT`
    pub rate_limit: Option<String>,
}

/// The plain view of the environment settings.
pub struct EnvView {
    pub jira_url: Option<Seq<char>>,
    pub auth_type: Option<Seq<char>>,
    pub token: Option<Seq<char>>,
    pub username: Option<Seq<char>>,
    pub password: Option<Seq<char>>,
    pub cache_ttl: Option<Seq<char>>,
    pub max_results: Option<Seq<char>>,
    pub request_timeout: Option<Seq<char>>,
    pub rate_limit: Option<Seq<char>>,
}

impl View for EnvSettings {
    type V = EnvView;

    open spec fn view(&self) -> EnvView {
        EnvView {
            jira_url: opt_view(self.jira_url),
            auth_type: opt_view(self.auth_type),
            token: opt_view(self.token),
            username: opt_view(self.username),
            password: opt_view(self.password),
            cache_ttl: opt_view(self.cache_ttl),
            max_results: opt_view(self.max_results),
            request_timeout: opt_view(self.request_timeout),
            rate_limit: opt_view(self.rate_limit),
        }
    }
}

/// The authentication that the environment selects, or an error message
/// when basic authentication lacks its user name or password. `None`
/// keeps the authentication as it was.
pub open spec fn spec_env_auth(env: EnvView) -> Result<Option<AuthView>, Seq<char>> {
    match env.auth_type {
        None => Ok(None),
        Some(t) => {
            let l = lowercase(t);
            if l == "pat"@ || l == "personal_access_token"@ {
                match env.token {
                    Some(tok) => Ok(Some(AuthView::PersonalAccessToken(tok))),
                    None => Ok(None),
                }
            } else if l == "basic"@ {
                match (env.username, env.password) {
                    (Some(u), Some(p)) => Ok(Some(AuthView::Basic(u, p))),
                    (None, _) => Err("JIRA_USERNAME required for basic authentication"@),
                    (Some(_), None) => Err("JIRA_PASSWORD required for basic authentication"@),
                }
            } else if l == "bearer"@ {
                match env.token {
                    Some(tok) => Ok(Some(AuthView::Bearer(tok))),
                    None => Ok(None),
                }
            } else if l == "anonymous"@ {
                Ok(Some(AuthView::Anonymous))
            } else {
                Ok(None)
            }
        },
    }
}

/// A number setting: the parsed value when the variable is set and parses.
pub open spec fn env_number(v: Option<Seq<char>>, max: nat) -> Option<nat> {
    match v {
        Some(s) => parse_unsigned_seq(s, max),
        None => None,
    }
}

/// The configuration after the environment overrides, when they succeed.
pub open spec fn spec_apply_env(c: JiraConfigView, env: EnvView) -> JiraConfigView {
    let url = match env.jira_url {
        Some(u) => u,
        None => c.jira_url,
    };
    let auth = match spec_env_auth(env) {
        Ok(Some(a)) => a,
        _ => c.auth,
    };
    let ttl = match env_number(env.cache_ttl, u64::MAX as nat) {
        Some(v) => v as u64,
        None => c.cache_ttl_seconds,
    };
    let max = match env_number(env.max_results, u32::MAX as nat) {
        Some(v) => if v <= 200 { v as u32 } else { 200u32 },
        None => c.max_search_results,
    };
    let timeout = match env_number(env.request_timeout, u64::MAX as nat) {
        Some(v) => v as u64,
        None => c.request_timeout_seconds,
    };
    let rate = match env_number(env.rate_limit, u32::MAX as nat) {
        Some(v) => v as u32,
        None => c.rate_limit_per_minute,
    };
    JiraConfigView {
        jira_url: url,
        auth,
        cache_ttl_seconds: ttl,
        max_search_results: max,
        request_timeout_seconds: timeout,
        rate_limit_per_minute: rate,
        ..c
    }
}

/// Why a configuration is invalid, or `None` when it is valid.
pub open spec fn spec_validation_message(c: JiraConfigView) -> Option<Seq<char>> {
    if c.jira_url.len() == 0 {
        Some(
            "JIRA URL is required. Set JIRA_URL environment variable or configure in TOML file."@,
        )
    } else if !starts_with_seq(c.jira_url, "http://"@) && !starts_with_seq(
        c.jira_url,
        "https://"@,
    ) {
        Some("JIRA URL must start with http:// or https://. Got: "@ + c.jira_url)
    } else {
        match c.auth {
            AuthView::PersonalAccessToken(t) if t.len() == 0 => Some(
                "Personal access token cannot be empty"@,
            ),
            AuthView::Basic(u, p) if u.len() == 0 || p.len() == 0 => Some(
                "Username and password cannot be empty for basic auth"@,
            ),
            AuthView::Bearer(t) if t.len() == 0 => Some("Bearer token cannot be empty"@),
            _ => if c.max_search_results > 200 {
                Some("max_search_results cannot exceed 200"@)
            } else {
                None
            },
        }
    }
}

/// The credentials to connect with, as the client library takes them.
#[derive(Debug, Clone)]
pub enum ClientCredentials {
    Bearer(String),
    Basic(String, String),
    Anonymous,
}

fn parse_setting(v: &Option<String>, max: u64) -> (r: Option<u64>)
    ensures
        match env_number(opt_view(*v), max as nat) {
            Some(n) => r == Some(n as u64),
            None => r is None,
        },
{
    match v {
        Some(s) => {
            let cs = chars_of(s.as_str());
            parse_unsigned(cs.as_slice(), max)
        },
        None => None,
    }
}

impl JiraConfig {
    /// The configuration that results from a configuration file (when one
    /// was read) and the environment: the file's configuration or the
    /// default, then the environment overrides, then validation.
    pub fn load(file_config: Option<JiraConfig>, env: &EnvSettings) -> (r: Result<
        JiraConfig,
        JiraMcpError,
    >)
        ensures
            ({
                let base = match file_config {
                    Some(c) => c@,
                    None => spec_default_config(),
                };
                match spec_env_auth(env@) {
                    Err(m) => r matches Err(JiraMcpError::Configuration { message }) && message@
                        == m,
                    Ok(_) => {
                        let c = spec_apply_env(base, env@);
                        match spec_validation_message(c) {
                            Some(m) => r matches Err(JiraMcpError::Configuration { message })
                                && message@ == m,
                            None => r matches Ok(cfg) && cfg@ == c,
                        }
                    },
                }
            }),
    {
        let mut config = match file_config {
            Some(c) => c,
            None => JiraConfig::default(),
        };
        config.load_from_env(env)?;
        config.validate()?;
        Ok(config)
    }

    /// Apply the environment overrides.
    pub fn load_from_env(&mut self, env: &EnvSettings) -> (r: Result<(), JiraMcpError>)
        ensures
            match spec_env_auth(env@) {
                Err(m) => r matches Err(JiraMcpError::Configuration { message }) && message@ == m,
                Ok(_) => r is Ok && final(self)@ == spec_apply_env(old(self)@, env@),
            },
    {
        if let Some(url) = &env.jira_url {
            self.jira_url = url.clone();
        }
        if let Some(auth_type) = &env.auth_type {
            let lower = to_lowercase(auth_type.as_str());
            let l = lower.as_str();
            if str_eq(l, "pat") || str_eq(l, "personal_access_token") {
                if let Some(token) = &env.token {
                    self.auth = AuthConfig::PersonalAccessToken(token.clone());
                }
            } else if str_eq(l, "basic") {
                let username = match &env.username {
                    Some(u) => u.clone(),
                    None => {
                        return Err(
                            JiraMcpError::config("JIRA_USERNAME required for basic authentication"),
                        );
                    },
                };
                let password = match &env.password {
                    Some(p) => p.clone(),
                    None => {
                        return Err(
                            JiraMcpError::config("JIRA_PASSWORD required for basic authentication"),
                        );
                    },
                };
                self.auth = AuthConfig::Basic { username, password };
            } else if str_eq(l, "bearer") {
                if let Some(token) = &env.token {
                    self.auth = AuthConfig::Bearer(token.clone());
                }
            } else if str_eq(l, "anonymous") {
                self.auth = AuthConfig::Anonymous;
            }
        }
        if let Some(ttl) = parse_setting(&env.cache_ttl, u64::MAX) {
            self.cache_ttl_seconds = ttl;
        }
        if let Some(max) = parse_setting(&env.max_results, 4294967295u64) {
            self.max_search_results = if max <= 200 { max as u32 } else { 200 };
        }
        if let Some(timeout) = parse_setting(&env.request_timeout, u64::MAX) {
            self.request_timeout_seconds = timeout;
        }
        if let Some(limit) = parse_setting(&env.rate_limit, 4294967295u64) {
            self.rate_limit_per_minute = limit as u32;
        }
        Ok(())
    }

    /// Validate the configuration
    pub fn validate(&self) -> (r: Result<(), JiraMcpError>)
        ensures
            match spec_validation_message(self@) {
                Some(m) => r matches Err(JiraMcpError::Configuration { message }) && message@ == m,
                None => r is Ok,
            },
    {
        if self.jira_url.as_str().is_empty() {
            return Err(
                JiraMcpError::config(
                    "JIRA URL is required. Set JIRA_URL environment variable or configure in TOML file.",
                ),
            );
        }
        if !str_starts_with(self.jira_url.as_str(), "http://") && !str_starts_with(
            self.jira_url.as_str(),
            "https://",
        ) {
            let mut m = owned("JIRA URL must start with http:// or https://. Got: ");
            m.append(self.jira_url.as_str());
            return Err(JiraMcpError::Configuration { message: m });
        }
        match &self.auth {
            AuthConfig::PersonalAccessToken(token) => {
                if token.as_str().is_empty() {
                    return Err(JiraMcpError::config("Personal access token cannot be empty"));
                }
            },
            AuthConfig::Basic { username, password } => {
                if username.as_str().is_empty() || password.as_str().is_empty() {
                    return Err(
                        JiraMcpError::config("Username and password cannot be empty for basic auth"),
                    );
                }
            },
            AuthConfig::Bearer(token) => {
                if token.as_str().is_empty() {
                    return Err(JiraMcpError::config("Bearer token cannot be empty"));
                }
            },
            AuthConfig::Anonymous => {},
        }
        if self.max_search_results > 200 {
            return Err(JiraMcpError::config("max_search_results cannot exceed 200"));
        }
        Ok(())
    }

    /// The credentials for the client library: a personal access token is
    /// sent as a bearer token.
    pub fn to_gouqi_credentials(&self) -> (r: ClientCredentials)
        ensures
            match (self.auth@, r) {
                (AuthView::PersonalAccessToken(t), ClientCredentials::Bearer(b)) => b@ == t,
                (AuthView::Bearer(t), ClientCredentials::Bearer(b)) => b@ == t,
                (AuthView::Basic(u, p), ClientCredentials::Basic(a, b)) => a@ == u && b@ == p,
                (AuthView::Anonymous, ClientCredentials::Anonymous) => true,
                _ => false,
            },
    {
        match &self.auth {
            AuthConfig::PersonalAccessToken(token) => ClientCredentials::Bearer(token.clone()),
            AuthConfig::Basic { username, password } => ClientCredentials::Basic(
                username.clone(),
                password.clone(),
            ),
            AuthConfig::Bearer(token) => ClientCredentials::Bearer(token.clone()),
            AuthConfig::Anonymous => ClientCredentials::Anonymous,
        }
    }
}

} // verus!
