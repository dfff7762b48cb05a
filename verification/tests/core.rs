use jira_mcp_server::cache::{CacheEntry, MetadataCache, UserMapping};
use jira_mcp_server::clock::{elapsed_seconds, MonotonicClock};
use jira_mcp_server::config::{AuthConfig, EnvSettings, JiraConfig};
use jira_mcp_server::error::{extract_retry_after, ErrorDataValue, JiraMcpError};
use jira_mcp_server::semantic_mapping::{
    capitalize_first, escape_jql_string, parse_date_filter, parse_relative_date, QueryComplexity,
    SemanticMapper,
};

fn empty_env() -> EnvSettings {
    EnvSettings {
        jira_url: None,
        auth_type: None,
        token: None,
        username: None,
        password: None,
        cache_ttl: None,
        max_results: None,
        request_timeout: None,
        rate_limit: None,
    }
}

fn test_config() -> JiraConfig {
    let mut config = JiraConfig::default();
    config.jira_url = "https://test.atlassian.net".to_string();
    config.auth = AuthConfig::Anonymous;
    config
}

#[test]
fn test_cache_entry_expiration() {
    let clock = MonotonicClock::start();
    let entry = CacheEntry::new("test_value".to_string(), &clock);

    // Should not be expired immediately
    assert!(!entry.is_expired(1, &clock));

    // Should be expired with zero TTL
    assert!(entry.is_expired(0, &clock));
}

#[test]
fn test_board_id_cache() {
    let mut cache = MetadataCache::new(300);

    // Initially empty
    assert!(cache.get_board_id("test-board").is_none());

    // Set and get
    cache
        .set_board_id("test-board".to_string(), "123".to_string())
        .unwrap();
    assert_eq!(cache.get_board_id("test-board"), Some("123".to_string()));
}

#[test]
fn test_user_reference_resolution() {
    let mut cache = MetadataCache::new(300);

    let user = UserMapping {
        account_id: "user123".to_string(),
        display_name: "Test User".to_string(),
        email_address: Some("test@example.com".to_string()),
        username: Some("testuser".to_string()),
    };
    cache.set_current_user(user).unwrap();

    assert_eq!(cache.resolve_user_reference("me"), Some("user123".to_string()));
    assert_eq!(
        cache.resolve_user_reference("current_user"),
        Some("user123".to_string())
    );
}

#[test]
fn test_cache_stats() {
    let mut cache = MetadataCache::new(300);

    let stats = cache.get_stats();
    assert_eq!(stats.board_mappings_count, 0);
    assert_eq!(stats.ttl_seconds, 300);
    assert!(!stats.has_current_user);

    cache.set_board_id("test".to_string(), "123".to_string()).unwrap();

    let stats = cache.get_stats();
    assert_eq!(stats.board_mappings_count, 1);
}

#[test]
fn test_cache_expiration() {
    // A one-second time-to-live, read at chosen instants.
    let mut cache = MetadataCache::new(1);
    let t0: u64 = 1_000_000_000_000;
    cache
        .set_board_id_at("test".to_string(), "123".to_string(), t0)
        .unwrap();
    assert!(cache.get_board_id_at("test", t0).is_some());

    // Two seconds later the entry has expired.
    assert!(cache.get_board_id_at("test", t0 + 2_000_000_000).is_none());
}

#[test]
fn cache_read_after_write_and_locality() {
    let mut cache = MetadataCache::new(60);
    let t: u64 = 5_000_000_000;
    cache.set_board_id_at("a".to_string(), "1".to_string(), t).unwrap();
    cache.set_board_id_at("b".to_string(), "2".to_string(), t).unwrap();
    cache.set_board_id_at("a".to_string(), "3".to_string(), t).unwrap();
    assert_eq!(cache.get_board_id_at("a", t), Some("3".to_string()));
    assert_eq!(cache.get_board_id_at("b", t), Some("2".to_string()));
    assert_eq!(cache.get_board_id_at("c", t), None);
    // Exactly at the time-to-live the entry is still fresh; one nanosecond later it is not.
    assert!(cache.get_board_id_at("a", t + 60_000_000_000).is_some());
    assert!(cache.get_board_id_at("a", t + 60_000_000_001).is_none());
    assert_eq!(cache.get_stats().board_mappings_count, 2);
}

#[test]
fn cache_cleanup_and_clear() {
    let mut cache = MetadataCache::new(10);
    cache.set_board_id_at("old".to_string(), "1".to_string(), 0).unwrap();
    cache
        .set_board_id_at("new".to_string(), "2".to_string(), 20_000_000_000)
        .unwrap();
    let removed = cache.cleanup_expired_at(25_000_000_000);
    assert_eq!(removed, 1);
    assert_eq!(cache.get_stats().board_mappings_count, 1);
    assert_eq!(cache.get_board_id_at("new", 25_000_000_000), Some("2".to_string()));
    cache.clear_all().unwrap();
    assert_eq!(cache.get_stats().board_mappings_count, 0);
}

#[test]
fn cache_resolves_user_mappings() {
    let mut cache = MetadataCache::new(300);
    // No current user: "me" does not resolve.
    assert_eq!(cache.resolve_user_reference("me"), None);
    let user = UserMapping {
        account_id: "acc-9".to_string(),
        display_name: "Nine".to_string(),
        email_address: None,
        username: None,
    };
    cache.set_user_mapping("nine@example.com".to_string(), user).unwrap();
    assert_eq!(
        cache.resolve_user_reference("nine@example.com"),
        Some("acc-9".to_string())
    );
    // An unknown reference does not resolve.
    assert_eq!(cache.resolve_user_reference("someone"), None);
}

#[test]
fn test_default_config() {
    let config = JiraConfig::default();
    assert_eq!(config.cache_ttl_seconds, 300);
    assert_eq!(config.max_search_results, 50);
    assert_eq!(config.request_timeout_seconds, 30);
    assert!(!config.issue_type_mappings.is_empty());
    assert!(!config.status_category_mappings.is_empty());
}

#[test]
fn test_env_var_loading() {
    let mut env = empty_env();
    env.jira_url = Some("https://test.atlassian.net".to_string());
    env.auth_type = Some("pat".to_string());
    env.token = Some("test_token".to_string());
    env.cache_ttl = Some("600".to_string());

    let mut config = JiraConfig::default();
    config.load_from_env(&env).unwrap();

    assert_eq!(config.jira_url, "https://test.atlassian.net");
    assert_eq!(config.cache_ttl_seconds, 600);

    match config.auth {
        AuthConfig::PersonalAccessToken(token) => assert_eq!(token, "test_token"),
        _ => panic!("Expected PersonalAccessToken auth"),
    }
}

#[test]
fn env_loading_errors() {
    let mut env = empty_env();
    env.auth_type = Some("basic".to_string());
    env.username = Some("u".to_string());
    let mut config = JiraConfig::default();
    let r = config.load_from_env(&env);
    assert!(matches!(r, Err(JiraMcpError::Configuration { .. })));

    // Unreadable numbers and unknown kinds of authentication are passed over.
    let mut env = empty_env();
    env.cache_ttl = Some("soon".to_string());
    env.auth_type = Some("kerberos".to_string());
    env.max_results = Some("500".to_string());
    let mut config = JiraConfig::default();
    config.load_from_env(&env).unwrap();
    assert_eq!(config.cache_ttl_seconds, 300);
    assert_eq!(config.max_search_results, 200);
    assert!(matches!(config.auth, AuthConfig::Anonymous));
}

#[test]
fn test_validation_errors() {
    let mut config = JiraConfig::default();

    // Empty URL should fail validation
    assert!(config.validate().is_err());

    // Invalid URL format should fail
    config.jira_url = "not-a-url".to_string();
    assert!(config.validate().is_err());

    // Valid URL should pass
    config.jira_url = "https://test.atlassian.net".to_string();
    assert!(config.validate().is_ok());
}

#[test]
fn validation_of_limits() {
    let mut config = test_config();
    config.max_search_results = 201;
    assert!(config.validate().is_err());
    config.max_search_results = 200;
    assert!(config.validate().is_ok());
}

#[test]
fn test_error_codes() {
    assert_eq!(JiraMcpError::config("test").error_code(), -32001);
    assert_eq!(JiraMcpError::auth("test").error_code(), -32002);
    assert_eq!(JiraMcpError::network("test").error_code(), -32003);
    assert_eq!(JiraMcpError::permission("test").error_code(), -32004);
    assert_eq!(JiraMcpError::not_found("issue", "KEY-123").error_code(), -32005);
    assert_eq!(JiraMcpError::invalid_param("status", "invalid").error_code(), -32006);
    assert_eq!(JiraMcpError::rate_limit(60).error_code(), -32007);
}

#[test]
fn error_codes_of_other_kinds() {
    assert_eq!(JiraMcpError::cache("x").error_code(), -32003);
    assert_eq!(JiraMcpError::jql("x").error_code(), -32006);
    assert_eq!(JiraMcpError::internal("x").error_code(), -32603);
    assert_eq!(JiraMcpError::cache("x").category(), "cache");
    assert_eq!(JiraMcpError::jql("x").category(), "jql");
    assert_eq!(JiraMcpError::internal("x").category(), "internal");
    assert_eq!(JiraMcpError::permission("x").category(), "permission");
    assert_eq!(JiraMcpError::invalid_param("p", "m").category(), "invalid_parameter");
    assert_eq!(JiraMcpError::rate_limit(1).category(), "rate_limit");
}

#[test]
fn test_error_categories() {
    assert_eq!(JiraMcpError::config("test").category(), "configuration");
    assert_eq!(JiraMcpError::auth("test").category(), "authentication");
    assert_eq!(JiraMcpError::network("test").category(), "network");
    assert_eq!(JiraMcpError::not_found("issue", "KEY-123").category(), "not_found");
}

fn text_of(v: Option<&ErrorDataValue>) -> String {
    match v {
        Some(ErrorDataValue::Text(s)) => s.clone(),
        _ => panic!("expected a text value"),
    }
}

#[test]
fn test_error_data() {
    let rate_limit_error = JiraMcpError::rate_limit(120);
    let data = rate_limit_error.error_data().unwrap();
    assert_eq!(text_of(data.get("category")), "rate_limit");
    assert!(matches!(data.get("retry_after"), Some(ErrorDataValue::Number(120))));

    let not_found_error = JiraMcpError::not_found("issue", "KEY-123");
    let data = not_found_error.error_data().unwrap();
    assert_eq!(text_of(data.get("category")), "not_found");
    assert_eq!(text_of(data.get("resource")), "issue");
    assert_eq!(text_of(data.get("key")), "KEY-123");
}

#[test]
fn error_display_texts() {
    assert_eq!(
        JiraMcpError::not_found("issue", "KEY-1").to_display_string(),
        "Not found: issue 'KEY-1' not found"
    );
    assert_eq!(
        JiraMcpError::invalid_param("limit", "too big").to_display_string(),
        "Invalid parameter: limit - too big"
    );
    assert_eq!(
        JiraMcpError::rate_limit(42).to_display_string(),
        "Rate limit exceeded, retry after 42 seconds"
    );
    assert_eq!(JiraMcpError::auth("bad").to_display_string(), "Authentication failed: bad");
}

#[test]
fn test_anyhow_conversion() {
    let auth_error = anyhow::Error::msg("Authentication failed");
    let jira_error = JiraMcpError::from_error_message(&auth_error.to_string());
    assert_eq!(jira_error.category(), "authentication");

    let not_found_error = anyhow::Error::msg("Issue not found");
    let jira_error = JiraMcpError::from_error_message(&not_found_error.to_string());
    assert_eq!(jira_error.category(), "not_found");
}

#[test]
fn error_message_classification() {
    assert_eq!(JiraMcpError::from_error_message("HTTP 403").category(), "permission");
    assert_eq!(JiraMcpError::from_error_message("Connection reset").category(), "network");
    assert!(matches!(
        JiraMcpError::from_error_message("got 429"),
        JiraMcpError::RateLimit { retry_after: 60 }
    ));
    assert_eq!(JiraMcpError::from_error_message("bad config").category(), "configuration");
    assert_eq!(JiraMcpError::from_error_message("boom").category(), "internal");
}

#[test]
fn test_retry_after_extraction() {
    assert_eq!(
        extract_retry_after("Rate limit exceeded, retry-after 60"),
        Some(60)
    );
    assert_eq!(extract_retry_after("No retry info"), None);
    assert_eq!(extract_retry_after("retry-after: soon"), None);
}

#[test]
fn test_uptime_calculation() {
    let start_time = MonotonicClock::start();
    let elapsed = elapsed_seconds(0, start_time.now_nanos());
    assert!(elapsed < 10);
    assert_eq!(elapsed_seconds(1_000_000_000, 3_500_000_000), 2);
    assert_eq!(elapsed_seconds(5, 1), 0);
}

#[test]
fn test_issue_type_mapping() {
    let config = test_config();
    let cache = MetadataCache::new(300);
    let mapper = SemanticMapper::new(&config, &cache);

    let semantic_types = vec!["story".to_string(), "bug".to_string()];
    let jira_types = mapper.map_issue_types(&semantic_types, None).unwrap();

    assert!(jira_types.contains(&"Story".to_string()));
    assert!(jira_types.contains(&"Bug".to_string()));
}

#[test]
fn test_status_mapping() {
    let config = test_config();
    let cache = MetadataCache::new(300);
    let mapper = SemanticMapper::new(&config, &cache);

    let semantic_statuses = vec!["open".to_string(), "in_progress".to_string()];
    let jira_statuses = mapper.map_status_categories(&semantic_statuses).unwrap();

    assert!(jira_statuses.contains(&"Open".to_string()));
    assert!(jira_statuses.contains(&"In Progress".to_string()));
}

#[test]
fn test_jql_building() {
    let config = test_config();
    let cache = MetadataCache::new(300);
    let mapper = SemanticMapper::new(&config, &cache);

    let query = mapper
        .build_search_jql(
            Some("test query"),
            Some(&["story".to_string()]),
            None,
            Some("TEST"),
            Some(&["open".to_string()]),
            None,
            None,
            None,
            None,
        )
        .unwrap();

    assert!(query.jql.contains("project = \"TEST\""));
    assert!(query.jql.contains("text ~ \"test query\""));
    assert!(query.jql.contains("issuetype"));
    assert!(query.jql.contains("status"));
    assert_eq!(query.complexity, QueryComplexity::Complex);
}

#[test]
fn jql_building_simple_and_errors() {
    let config = test_config();
    let cache = MetadataCache::new(300);
    let mapper = SemanticMapper::new(&config, &cache);

    let query = mapper
        .build_search_jql(None, None, None, Some("ABC"), None, None, None, None, None)
        .unwrap();
    assert_eq!(query.jql, "project = \"ABC\" ORDER BY updated DESC");
    assert_eq!(query.complexity, QueryComplexity::Simple);

    // "me" with no current user cached
    let r = mapper.build_search_jql(None, None, Some("me"), None, None, None, None, None, None);
    assert!(matches!(r, Err(JiraMcpError::Authentication { .. })));

    // An unreadable date
    let r = mapper.build_search_jql(None, None, None, None, None, Some("soon"), None, None, None);
    assert!(matches!(r, Err(JiraMcpError::InvalidParameter { .. })));
}

#[test]
fn user_issues_jql_needs_a_user() {
    let config = test_config();
    let cache = MetadataCache::new(300);
    let mapper = SemanticMapper::new(&config, &cache);
    let r = mapper.build_user_issues_jql(None, None, None, None);
    assert!(matches!(r, Err(JiraMcpError::Authentication { .. })));
    let q = mapper.build_user_issues_jql(Some("acc-1"), None, None, None).unwrap();
    assert!(q.jql.contains("assignee = \"acc-1\""));
}

#[test]
fn test_capitalize_first() {
    assert_eq!(capitalize_first("test"), "Test");
    assert_eq!(capitalize_first("TEST"), "TEST");
    assert_eq!(capitalize_first(""), "");
    assert_eq!(capitalize_first("a"), "A");
}

#[test]
fn test_escape_jql_string() {
    assert_eq!(escape_jql_string("test\"quote"), "test\\\"quote");
    assert_eq!(escape_jql_string("test\\backslash"), "test\\\\backslash");
    assert_eq!(escape_jql_string("normal text"), "normal text");
}

#[test]
fn test_relative_date_parsing() {
    assert_eq!(parse_relative_date("7 days ago"), Some("-7d".to_string()));
    assert_eq!(parse_relative_date("2 weeks ago"), Some("-2w".to_string()));
    assert_eq!(parse_relative_date("1 month ago"), Some("-1M".to_string()));
    assert_eq!(parse_relative_date("invalid format"), None);
}

#[test]
fn test_date_filter_parsing() {
    assert_eq!(parse_date_filter("2024-01-01").unwrap(), "2024-01-01");
    assert_eq!(parse_date_filter("7 days ago").unwrap(), "-7d");
    assert!(parse_date_filter("invalid").is_err());
}

#[test]
fn mapped_issue_types_have_no_repeats() {
    let config = test_config();
    let cache = MetadataCache::new(300);
    let mapper = SemanticMapper::new(&config, &cache);

    let semantic_types = vec!["bug".to_string(), "bug".to_string(), "defect".to_string()];
    let jira_types = mapper.map_issue_types(&semantic_types, None).unwrap();
    for (i, a) in jira_types.iter().enumerate() {
        for b in jira_types.iter().skip(i + 1) {
            assert_ne!(a, b);
        }
    }
    assert!(jira_types.contains(&"Bug".to_string()));
}

#[test]
fn escaped_text_keeps_every_character() {
    assert_eq!(escape_jql_string("say \"hi\" \\ bye"), "say \\\"hi\\\" \\\\ bye");
    assert_eq!(escape_jql_string(""), "");
}

#[test]
fn a_text_search_is_complex() {
    let config = test_config();
    let cache = MetadataCache::new(300);
    let mapper = SemanticMapper::new(&config, &cache);
    let query = mapper
        .build_search_jql(Some("login"), None, None, Some("ABC"), None, None, None, None, None)
        .unwrap();
    assert_eq!(query.jql, "project = \"ABC\" AND text ~ \"login\" ORDER BY updated DESC");
    assert_eq!(query.complexity, QueryComplexity::Complex);
    let query = mapper
        .build_search_jql(None, None, None, Some("ABC"), None, None, Some(&["l".to_string()]), None, None)
        .unwrap();
    assert_eq!(query.complexity, QueryComplexity::Moderate);
}
