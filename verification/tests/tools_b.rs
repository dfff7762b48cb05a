use jira_mcp_server::cache::{BoardInfo, MetadataCache, UserMapping};
use jira_mcp_server::config::JiraConfig;
use jira_mcp_server::error::{ClientErrorKind, JiraMcpError};
use jira_mcp_server::jira_client::{
    build_user_issues_jql as client_user_jql, comment_error, comment_info, history_entry_id,
    history_item, is_last_page, issue_endpoint, issue_read_error, linked_issue, search_result,
    search_window, user_info_for, AttachmentInfo as ClientAttachment, CommentInfo, IssueDetails,
    IssueInfo, UserInfo as ClientUser,
};
use jira_mcp_server::semantic_mapping::{QueryComplexity, SemanticMapper};
use jira_mcp_server::tools::add_comment::{comment_result, validate_params as validate_comment, AddCommentParams};
use jira_mcp_server::tools::assign_issue::{assign_error, assign_result, assignee_target, AssigneeTarget};
use jira_mcp_server::tools::components::{
    component_ref, components_list_error, components_listing, components_result,
    components_update_error, ComponentInfo, ComponentRef, UpdateComponentsParams,
};
use jira_mcp_server::tools::get_create_metadata::{
    common_required_fields, metadata_endpoint, metadata_request_error, missing_type_error,
    summarize_fields, type_selected, usage_hints, FieldEntry,
};
use jira_mcp_server::tools::get_custom_fields::{detect_mappings, field_type, value_display, FieldValue};
use jira_mcp_server::tools::issue_details::{
    estimate_response_size, extract_project_key, is_valid_issue_key_format, normalize_issue_key,
    validate_params as validate_details, GetIssueDetailsParams,
};
use jira_mcp_server::tools::issue_links::{
    delete_link_error, delete_result, link_error, link_result, link_types_result,
    validate_delete_params, validate_link_params, DeleteIssueLinkParams, IssueLinkTypeInfo,
    LinkIssuesParams,
};
use jira_mcp_server::tools::issue_relationships::{
    add_relationships, count_by_depth, count_by_type, exclude_types, issue_node, node_depth,
    relationship_summary, validate_issue_key as validate_root_key, IssueLinks,
    IssueRelationshipsParams,
};
use jira_mcp_server::tools::labels::{
    check_manage, collect_labels, label_update, label_update_error, labels_endpoint, labels_page,
    labels_result, project_labels_endpoint, GetAvailableLabelsParams, LabelUpdate,
    ManageLabelsParams,
};
use jira_mcp_server::tools::list_attachments::{list_of, normalized_key, validate_params as validate_listing, ListAttachmentsParams};
use jira_mcp_server::tools::search_issues::{
    complexity_to_string, non_empty, resolve_project_key_at, search_page,
    validate_params as validate_search, SearchIssuesParams,
};
use jira_mcp_server::tools::sprints::{
    check_can_close, check_can_start, check_move, check_sprint_name, closed_report,
    created_message, filter_sprints, move_result, parse_iso8601_date, plan_close,
    sprint_create_error, sprint_issues_page, sprint_jql, sprint_page, sprint_read_error,
    start_dates, started_report, GetSprintIssuesParams, ListSprintsParams, MoveToSprintParams,
    SprintInfo, StartSprintParams,
};
use jira_mcp_server::tools::transitions::{
    select_transition, transition_failure, transition_post_endpoint, transitions_endpoint,
    validate_issue_key as validate_transition_key, validate_params as validate_transition,
    TransitionInfo, TransitionIssueParams,
};
use jira_mcp_server::tools::update_custom_fields::{
    check_updates, choose_field, detect_acceptance_criteria_field, detect_story_points_field,
    field_label, update_fields_error, update_fields_result,
};
use jira_mcp_server::tools::user_issues::{
    build_applied_filters, build_user_issues_jql, cached_user_at, user_from_client,
    validate_params as validate_user_issues, AppliedFilters, GetUserIssuesParams,
};
use jira_mcp_server::tools::validation::{check_relative_path, str_all_alphabetic, str_all_numeric};
use jira_mcp_server::{
    clear_cache_message, connection_report, current_user_mapping, current_user_name,
    server_status, validate_common_params, TOOLS_COUNT,
};

fn param_of(e: &JiraMcpError) -> (String, String) {
    match e {
        JiraMcpError::InvalidParameter { parameter, message } => (parameter.clone(), message.clone()),
        other => panic!("expected an invalid parameter, got {:?}", other),
    }
}

fn issue(key: &str, status: &str) -> IssueInfo {
    IssueInfo {
        key: key.to_string(),
        id: "1".to_string(),
        summary: "Sum".to_string(),
        description: None,
        issue_type: "Task".to_string(),
        status: status.to_string(),
        priority: Some("High".to_string()),
        assignee: None,
        reporter: None,
        created: "c".to_string(),
        updated: "u".to_string(),
        project_key: "P".to_string(),
        project_name: "Proj".to_string(),
        labels: vec![],
        components: vec![],
    }
}

fn sprint(id: u64, state: Option<&str>) -> SprintInfo {
    SprintInfo {
        id,
        name: format!("S{}", id),
        state: state.map(|s| s.to_string()),
        start_date: None,
        end_date: None,
        complete_date: None,
        origin_board_id: None,
        self_link: String::new(),
    }
}

fn rel_params() -> IssueRelationshipsParams {
    IssueRelationshipsParams {
        root_issue_key: "PROJ-1".to_string(),
        max_depth: 2,
        include_subtasks: true,
        include_blocks: true,
        include_relates: true,
        include_epic_links: true,
        include_duplicates: false,
    }
}

// ----- issue keys -----

#[test]
fn test_issue_key_validation() {
    assert!(validate_root_key("PROJ-123").is_ok());
    assert!(validate_root_key("ABC-1").is_ok());
    assert!(validate_root_key("").is_err());
    assert!(validate_root_key("PROJ").is_err());
    assert!(validate_root_key("proj-123").is_err());
    assert!(validate_root_key("PROJ-abc").is_err());
}

#[test]
fn root_key_messages() {
    assert_eq!(param_of(&validate_root_key("A-B-1").unwrap_err()).1, "Issue key must be in format 'PROJECT-123'");
    assert_eq!(param_of(&validate_root_key("p-1").unwrap_err()).1, "Project key must contain only uppercase letters");
    assert_eq!(param_of(&validate_root_key("P-x").unwrap_err()).1, "Issue number must contain only digits");
    assert_eq!(param_of(&validate_root_key("P-").unwrap_err()).0, "root_issue_key");
}

#[test]
fn issue_details_keys() {
    let p = |k: &str| GetIssueDetailsParams {
        issue_key: k.to_string(),
        include_comments: None,
        include_attachments: None,
        include_history: None,
    };
    assert!(validate_details(&p("  PROJ-12 ")).is_ok());
    assert_eq!(param_of(&validate_details(&p("")).unwrap_err()).0, "issue_key");
    assert_eq!(
        param_of(&validate_details(&p("PROJ12")).unwrap_err()).1,
        "Issue key must follow PROJECT-NUMBER format (e.g., 'PROJ-123')"
    );
    assert_eq!(
        param_of(&validate_details(&p("PR0J-12")).unwrap_err()).1,
        "Project part of issue key must contain only letters"
    );
    assert_eq!(
        param_of(&validate_details(&p("PROJ-1a")).unwrap_err()).1,
        "Number part of issue key must contain only digits"
    );
    assert_eq!(normalize_issue_key(" proj-7 ").unwrap(), "PROJ-7");
    assert!(normalize_issue_key(" a ").is_err());
    assert_eq!(extract_project_key("abc-1"), Some("ABC".to_string()));
    assert_eq!(extract_project_key("abc"), Some("ABC".to_string()));
    assert!(is_valid_issue_key_format("ABC-12"));
    assert!(!is_valid_issue_key_format("ABC-"));
    assert!(!is_valid_issue_key_format(""));
}

#[test]
fn issue_details_size() {
    let mut info = issue("P-1", "Open");
    info.summary = "abcd".to_string();
    info.description = Some("xy".to_string());
    let comment = CommentInfo {
        id: "1".to_string(),
        author: "a".to_string(),
        body: "hello".to_string(),
        created: String::new(),
        updated: String::new(),
    };
    let d = IssueDetails {
        issue_info: info,
        comments: Some(vec![comment]),
        attachments: Some(vec![]),
        history: None,
        subtasks: vec![],
        parent: None,
        linked_issues: vec![],
    };
    assert_eq!(estimate_response_size(&d, false, false, false), 1000 + 8 + 4);
    assert_eq!(estimate_response_size(&d, true, true, true), 1000 + 8 + 4 + 500 + 10);
}

// ----- transitions -----

fn tr(id: &str, name: &str) -> TransitionInfo {
    TransitionInfo {
        id: id.to_string(),
        name: name.to_string(),
        to_status: name.to_string(),
        to_status_id: id.to_string(),
    }
}

#[test]
fn transitions_selection() {
    assert!(validate_transition_key("A-1").is_ok());
    assert!(validate_transition_key("A1").is_err());
    assert!(validate_transition_key("").is_err());
    let mut p = TransitionIssueParams {
        issue_key: "A-1".to_string(),
        transition_id: None,
        transition_name: None,
        comment: None,
        resolution: None,
    };
    assert_eq!(param_of(&validate_transition(&p).unwrap_err()).0, "transition_id or transition_name");
    p.transition_id = Some(" ".to_string());
    assert_eq!(param_of(&validate_transition(&p).unwrap_err()).1, "Transition ID cannot be empty");

    let available = vec![tr("11", "In Progress"), tr("21", "Done")];
    p.transition_id = Some("21".to_string());
    assert_eq!(select_transition(&available, &p).unwrap().name, "Done");
    p.transition_id = Some("99".to_string());
    assert_eq!(
        param_of(&select_transition(&available, &p).unwrap_err()).1,
        "Transition ID '99' not available for this issue. Available: In Progress (id: 11), Done (id: 21)"
    );
    p.transition_id = None;
    p.transition_name = Some("done".to_string());
    assert_eq!(select_transition(&available, &p).unwrap().id, "21");
    p.transition_name = Some("Closed".to_string());
    assert_eq!(
        param_of(&select_transition(&available, &p).unwrap_err()).1,
        "Transition 'Closed' not available for this issue. Available: In Progress, Done"
    );
    assert_eq!(transitions_endpoint("A-1"), "/issue/A-1/transitions?expand=transitions.fields");
    assert_eq!(transition_post_endpoint("A-1"), "/issue/A-1/transitions");
    assert!(transition_failure(ClientErrorKind::Serde, "expected value at line 1").is_none());
    match transition_failure(ClientErrorKind::Http, "boom") {
        Some(JiraMcpError::Network { message }) => assert_eq!(message, "HTTP error: boom"),
        other => panic!("unexpected {:?}", other),
    }
}

// ----- labels -----

#[test]
fn labels_management() {
    let mut p = ManageLabelsParams {
        issue_key: "A-1".to_string(),
        add_labels: None,
        remove_labels: None,
        replace_all: false,
    };
    assert_eq!(param_of(&check_manage(&p).unwrap_err()).0, "labels");
    p.add_labels = Some(vec!["x".to_string(), "y".to_string()]);
    p.remove_labels = Some(vec!["z".to_string()]);
    assert!(check_manage(&p).is_ok());
    match label_update(&p) {
        LabelUpdate::Operations(ops) => assert_eq!(
            ops,
            vec![(true, "x".to_string()), (true, "y".to_string()), (false, "z".to_string())]
        ),
        _ => panic!("expected operations"),
    }
    let r = labels_result(&p, vec!["x".to_string()]);
    assert_eq!(r.message, "Successfully added 2 label(s) and removed 1 label(s) on A-1");
    p.replace_all = true;
    assert!(matches!(label_update(&p), LabelUpdate::Replace(v) if v == vec!["x".to_string(), "y".to_string()]));
    assert_eq!(labels_result(&p, vec![]).message, "Successfully replaced all labels on A-1 with 2 label(s)");
    assert!(matches!(label_update_error("HTTP 404", "A-1"), JiraMcpError::NotFound { .. }));
}

#[test]
fn labels_listing() {
    let p = GetAvailableLabelsParams { project_key: None, max_results: Some(5000), start_at: None };
    assert_eq!(labels_page(&p), (1000, 0));
    assert_eq!(labels_endpoint(10, 20), "/label?startAt=10&maxResults=20");
    assert_eq!(
        project_labels_endpoint("ABC", 50),
        "/search?jql=project%20%3D%20ABC%20AND%20labels%20is%20not%20EMPTY&fields=labels&maxResults=50"
    );
    let found = vec!["beta".to_string(), "alpha".to_string(), "beta".to_string(), "Zed".to_string()];
    assert_eq!(collect_labels(&found), vec!["Zed".to_string(), "alpha".to_string(), "beta".to_string()]);
}

// ----- sprints -----

#[test]
fn sprint_paging_and_filters() {
    let p = ListSprintsParams { board_id: 1, state: None, limit: Some(500), start_at: Some(3) };
    assert_eq!(sprint_page(&p), (100, 3));
    let g = GetSprintIssuesParams { sprint_id: 1, limit: None, start_at: None };
    assert_eq!(sprint_issues_page(&g), (0, 50));
    let all = vec![sprint(1, Some("active")), sprint(2, Some("CLOSED")), sprint(3, None)];
    let closed = filter_sprints(all.clone(), &Some("Closed".to_string()));
    assert_eq!(closed.len(), 1);
    assert_eq!(closed[0].id, 2);
    assert_eq!(filter_sprints(all, &None).len(), 3);
    assert_eq!(sprint_jql(42), "Sprint = 42");
}

#[test]
fn sprint_checks_and_messages() {
    assert!(matches!(sprint_read_error("404", 7), JiraMcpError::NotFound { key, .. } if key == "7"));
    assert!(matches!(sprint_create_error("x", 7), JiraMcpError::Internal { message } if message == "Failed to create sprint: x"));
    let m = MoveToSprintParams { sprint_id: 5, issue_keys: vec![] };
    assert!(check_move(&m).is_err());
    let m = MoveToSprintParams { sprint_id: 5, issue_keys: vec!["A-1".to_string(), "A-2".to_string()] };
    assert!(check_move(&m).is_ok());
    let r = move_result(m, "Sprint 5".to_string());
    assert_eq!(r.message, "Successfully moved 2 issue(s) to sprint 'Sprint 5'");
    assert!(check_sprint_name("  ").is_err());
    assert_eq!(created_message("S", 3, 9), "Successfully created sprint 'S' (ID: 3) on board 9");
    assert_eq!(
        param_of(&check_can_start("S", &Some("Active".to_string())).unwrap_err()).1,
        "Sprint 'S' is already active"
    );
    assert!(check_can_start("S", &Some("future".to_string())).is_ok());
    assert!(check_can_close("S", &Some("closed".to_string())).is_err());
    assert!(check_can_close("S", &None).is_ok());
    let (w, msg) = started_report("S", 0);
    assert_eq!(w, vec!["Warning: Sprint has no issues".to_string()]);
    assert_eq!(msg, "Successfully started sprint 'S' with 0 issue(s)");
}

#[test]
fn sprint_dates() {
    const NS: i128 = 1_000_000_000;
    let d = parse_iso8601_date("2024-03-01T10:00:00Z").unwrap();
    assert_eq!(d, 1709287200 * NS);
    let e = parse_iso8601_date("March 1st").unwrap_err();
    let (param, msg) = param_of(&e);
    assert_eq!(param, "date");
    assert!(msg.starts_with("Invalid ISO 8601 date format: March 1st (error: "));

    let p = StartSprintParams { sprint_id: 1, start_date: None, end_date: None, goal: None };
    assert_eq!(param_of(&start_dates(&p, None).unwrap_err()).0, "end_date");
    let end = parse_iso8601_date("2024-03-15T00:00:00Z").unwrap();
    let (_, e2) = start_dates(&p, Some(end)).unwrap();
    assert_eq!(e2, end);
    let p = StartSprintParams {
        sprint_id: 1,
        start_date: Some("2024-03-01T00:00:00Z".to_string()),
        end_date: Some("2024-03-08T00:00:00+02:00".to_string()),
        goal: None,
    };
    let (s, e) = start_dates(&p, None).unwrap();
    assert_eq!(s, 1709251200 * NS);
    assert_eq!(e - s, (7 * 86400 - 2 * 3600) * NS);
    let p = StartSprintParams {
        sprint_id: 1,
        start_date: Some("soon".to_string()),
        end_date: None,
        goal: None,
    };
    assert!(param_of(&start_dates(&p, Some(end)).unwrap_err()).1.starts_with("Invalid ISO 8601 date format: soon"));
}

#[test]
fn sprint_closing() {
    let issues = vec![issue("A-1", "Done"), issue("A-2", "In Progress"), issue("A-3", "resolved")];
    let plan = plan_close(&issues, 5, Some(9));
    assert_eq!(plan.completed_issues, 2);
    assert_eq!(plan.incomplete_issues, 3);
    assert_eq!(plan.move_to, Some((9, vec!["A-2".to_string()])));
    let (warn, msg) = closed_report("S", &plan, 5);
    assert!(warn.is_none());
    assert_eq!(msg, "Successfully closed sprint 'S' (2/5 completed, 3 moved to next sprint)");
    let plan = plan_close(&issues, 3, None);
    let (warn, msg) = closed_report("S", &plan, 3);
    assert_eq!(warn.as_deref(), Some("1 incomplete issue(s) remain in closed sprint (not moved)"));
    assert_eq!(msg, "Successfully closed sprint 'S' (2/3 completed)");
}

// ----- custom fields -----

#[test]
fn custom_field_values() {
    assert_eq!(field_type(&FieldValue::Null), "null");
    assert_eq!(field_type(&FieldValue::Array(2)), "array");
    assert_eq!(value_display(&FieldValue::Bool(true)), "true");
    assert_eq!(value_display(&FieldValue::Number("3.5".to_string())), "3.5");
    assert_eq!(value_display(&FieldValue::Array(4)), "Array[4]");
    assert_eq!(
        value_display(&FieldValue::Object { name: None, value: Some("v".to_string()), keys: 2 }),
        "Object: v"
    );
    assert_eq!(
        value_display(&FieldValue::Object { name: None, value: None, keys: 2 }),
        "Object with 2 keys"
    );
    let long = "a".repeat(120);
    assert_eq!(value_display(&FieldValue::Text(long)), format!("{}... (120 chars)", "a".repeat(100)));
}

#[test]
fn custom_field_detection() {
    let fields = vec![
        ("summary".to_string(), FieldValue::Text("x".repeat(60))),
        ("customfield_1".to_string(), FieldValue::Number("5".to_string())),
        ("customfield_2".to_string(), FieldValue::Text("y".repeat(60))),
        ("customfield_sprint".to_string(), FieldValue::Array(1)),
        ("customfield_epic".to_string(), FieldValue::Text("E-1".to_string())),
        ("customfield_3".to_string(), FieldValue::Number("8".to_string())),
    ];
    let m = detect_mappings(&fields);
    assert_eq!(m.story_points_field.as_deref(), Some("customfield_1"));
    assert_eq!(m.acceptance_criteria_field.as_deref(), Some("customfield_2"));
    assert_eq!(m.sprint_field.as_deref(), Some("customfield_sprint"));
    assert_eq!(m.epic_link_field.as_deref(), Some("customfield_epic"));

    assert_eq!(detect_story_points_field(&fields).as_deref(), Some("customfield_1"));
    let known = vec![
        ("customfield_1".to_string(), FieldValue::Number("5".to_string())),
        ("customfield_10026".to_string(), FieldValue::Number("2".to_string())),
        ("customfield_10007".to_string(), FieldValue::Text("c".to_string())),
    ];
    assert_eq!(detect_story_points_field(&known).as_deref(), Some("customfield_10026"));
    assert_eq!(detect_acceptance_criteria_field(&known).as_deref(), Some("customfield_10007"));
    assert_eq!(detect_acceptance_criteria_field(&fields), None);
    assert_eq!(choose_field(None, None, "customfield_10016"), "customfield_10016");
    assert_eq!(choose_field(Some("g".to_string()), Some("d".to_string()), "x"), "g");
    assert_eq!(field_label("story_points", "cf_1"), "story_points (cf_1)");
    assert!(check_updates(0).is_err());
    let r = update_fields_result("A-1".to_string(), vec!["a".to_string(), "b".to_string()]);
    assert_eq!(r.message, "Successfully updated 2 field(s): a, b");
    assert_eq!(
        param_of(&update_fields_error(ClientErrorKind::Fault, "400 Bad Request", "A-1")).1,
        "Invalid field update: 400 Bad Request"
    );
}

// ----- relationships -----

#[test]
fn relationships_graph() {
    let p = rel_params();
    assert_eq!(
        exclude_types(&p),
        Some(vec!["Duplicate".to_string(), "Duplicates".to_string(), "is duplicated by".to_string()])
    );
    let links = IssueLinks {
        blocks: vec!["P-2".to_string()],
        blocked_by: vec![],
        relates_to: vec!["P-3".to_string()],
        duplicates: vec!["P-9".to_string()],
        parent: Some("P-0".to_string()),
        children: vec![],
        epic: None,
        custom: vec![("clones".to_string(), vec!["P-4".to_string()])],
    };
    let mut rels = Vec::new();
    add_relationships("P-1", &links, &p, &mut rels);
    let kinds: Vec<&str> = rels.iter().map(|r| r.relationship_type.as_str()).collect();
    assert_eq!(kinds, vec!["blocks", "relates_to", "parent", "clones"]);
    assert_eq!(rels[0].description.as_deref(), Some("P-1 blocks P-2"));
    assert_eq!(rels[2].direction, "inward");
    assert_eq!(rels[3].description.as_deref(), Some("P-1 clones P-4"));

    let nodes = vec![issue_node(&issue("P-1", "Open"), 0), issue_node(&issue("P-2", "Open"), 1), issue_node(&issue("P-3", "Open"), 1)];
    assert_eq!(nodes[1].depth, 1);
    assert_eq!(nodes[0].priority.as_deref(), Some("High"));
    let mut by_depth = count_by_depth(&nodes);
    by_depth.sort();
    assert_eq!(by_depth, vec![(0, 1), (1, 2)]);
    let by_type = count_by_type(&rels);
    assert_eq!(by_type.len(), 4);
    assert_eq!(node_depth(true, Some(3), 2), 0);
    assert_eq!(node_depth(false, Some(3), 2), 2);
    assert_eq!(node_depth(false, Some(1), 2), 0);
    assert_eq!(node_depth(false, None, 5), 5);
    let s = relationship_summary(&nodes, &rels, vec!["P-8".to_string()]);
    assert_eq!(s.total_issues, 3);
    assert_eq!(s.total_relationships, 4);
    assert_eq!(s.inaccessible_issues, vec!["P-8".to_string()]);
}

// ----- search and user issues -----

fn search_params() -> SearchIssuesParams {
    SearchIssuesParams {
        query_text: None,
        issue_types: None,
        assigned_to: None,
        project_key: None,
        board_name: None,
        status: None,
        created_after: None,
        labels: None,
        components: None,
        parent_filter: None,
        epic_filter: None,
        limit: None,
        start_at: None,
    }
}

#[test]
fn search_validation_and_paging() {
    let mut p = search_params();
    assert!(validate_search(&p).is_ok());
    p.labels = Some(vec!["ok".to_string(), "has space".to_string()]);
    assert_eq!(param_of(&validate_search(&p).unwrap_err()).1, "label 'has space' cannot contain spaces");
    p.labels = None;
    p.limit = Some(201);
    assert_eq!(param_of(&validate_search(&p).unwrap_err()).1, "Limit cannot exceed 200 per JIRA API restrictions");
    p.limit = Some(150);
    assert_eq!(search_page(&p, 50), (0, 150));
    p.limit = None;
    p.start_at = Some(5);
    assert_eq!(search_page(&p, 50), (5, 50));
    assert_eq!(complexity_to_string(&QueryComplexity::Moderate), "moderate");
    assert!(non_empty(&Some(vec![])).is_none());
    assert_eq!(non_empty(&Some(vec!["a".to_string()])).unwrap().len(), 1);
}

#[test]
fn search_board_resolution() {
    let mut cache = MetadataCache::new(300);
    let now: u64 = 1_000_000_000_000;
    let (k, hit) = resolve_project_key_at(&cache, &Some("Team".to_string()), &Some("P".to_string()), now);
    assert_eq!((k.as_deref(), hit), (Some("P"), false));
    cache.set_board_id_at("Team".to_string(), "7".to_string(), now).unwrap();
    let info = BoardInfo {
        id: "7".to_string(),
        name: "Team".to_string(),
        type_: "scrum".to_string(),
        project_key: Some("TEAM".to_string()),
    };
    cache.set_board_info_at("7".to_string(), info, now).unwrap();
    let (k, hit) = resolve_project_key_at(&cache, &Some("Team".to_string()), &Some("P".to_string()), now);
    assert_eq!((k.as_deref(), hit), (Some("TEAM"), true));
}

fn user_params() -> GetUserIssuesParams {
    GetUserIssuesParams {
        username: None,
        status_filter: None,
        issue_types: None,
        board_filter: None,
        project_filter: None,
        due_date_filter: None,
        priority_filter: None,
        updated_since: None,
        limit: None,
        start_at: None,
    }
}

#[test]
fn user_issues_queries() {
    let mut p = user_params();
    assert!(validate_user_issues(&p).is_ok());
    p.due_date_filter = Some(" ".to_string());
    assert_eq!(param_of(&validate_user_issues(&p).unwrap_err()).0, "due_date_filter");
    p.due_date_filter = Some("overdue".to_string());
    p.status_filter = Some(vec!["done".to_string()]);
    p.project_filter = Some(vec!["P".to_string()]);
    p.updated_since = Some("today".to_string());

    let mut config = JiraConfig::default();
    config.jira_url = "https://x".to_string();
    let cache = MetadataCache::new(300);
    let mapper = SemanticMapper::new(&config, &cache);
    let f = build_applied_filters(&mapper, &p).unwrap();
    let q = build_user_issues_jql("acc-1", &f);
    assert!(q.jql.starts_with("assignee = \"acc-1\" AND status "));
    assert!(q.jql.contains(" AND project = \"P\""));
    assert!(q.jql.contains("due < now()"));
    assert!(q.jql.contains("updated >= startOfDay()"));
    assert!(q.jql.ends_with("updated >= startOfDay() ORDER BY updated DESC"));
    assert!(!q.jql.contains("AND ORDER BY"));
    assert_eq!(q.complexity, QueryComplexity::Complex);
}

#[test]
fn user_issues_users() {
    let mut cache = MetadataCache::new(300);
    let now: u64 = 1_000_000_000_000;
    assert!(cached_user_at(&cache, &None, now).is_none());
    let me = UserMapping {
        account_id: "acc-me".to_string(),
        display_name: "Me".to_string(),
        email_address: None,
        username: None,
    };
    cache.set_current_user_at(me, now).unwrap();
    let u = cached_user_at(&cache, &None, now).unwrap();
    assert_eq!(u.account_id, "acc-me");
    assert!(u.is_current_user);
    let cu = ClientUser {
        account_id: "x".to_string(),
        display_name: "X".to_string(),
        email_address: None,
        active: true,
    };
    let u = user_from_client(&Some("bob".to_string()), cu);
    assert!(!u.is_current_user);
    assert_eq!(u.display_name, "X");
}

// ----- create metadata -----

fn entry(id: &str, name: &str, required: bool) -> FieldEntry {
    FieldEntry {
        field_id: id.to_string(),
        name: name.to_string(),
        required,
        field_type: "string".to_string(),
        allowed_values: None,
        has_default_value: None,
        auto_complete_url: None,
    }
}

#[test]
fn create_metadata_summaries() {
    assert_eq!(
        metadata_endpoint("P"),
        "/issue/createmeta?projectKeys=P&expand=projects.issuetypes.fields"
    );
    assert!(matches!(metadata_request_error("404", "P"), JiraMcpError::NotFound { .. }));
    let fields = vec![
        entry("summary", "Summary", true),
        entry("customfield_5", "Points", true),
        entry("labels", "Labels", false),
        entry("environment", "Env", false),
        entry("customfield_6", "Team", false),
    ];
    let (req, s) = summarize_fields(&fields);
    assert_eq!(req, vec!["summary".to_string(), "customfield_5".to_string()]);
    assert_eq!(s.required_standard, vec!["summary".to_string()]);
    assert_eq!(s.required_custom, vec!["Points (customfield_5)".to_string()]);
    assert_eq!(s.optional_standard, vec!["labels".to_string()]);
    assert_eq!(s.optional_custom, vec!["Team (customfield_6)".to_string()]);
    assert!(type_selected("Bug", &Some("bug".to_string())));
    assert!(!type_selected("Bug", &Some("Task".to_string())));
    assert_eq!(param_of(&missing_type_error("Epic", "P")).1, "Issue type 'Epic' not found in project P");
    let common = common_required_fields(&vec![
        vec!["summary".to_string(), "project".to_string()],
        vec!["summary".to_string(), "issuetype".to_string()],
    ]);
    assert_eq!(common, vec!["summary".to_string(), "project".to_string(), "issuetype".to_string()]);
    let hints = usage_hints(&vec!["Bug".to_string(), "Task".to_string()], &vec![]);
    assert_eq!(hints.len(), 3);
    assert_eq!(hints[1], "Available issue types: Bug, Task");
}

// ----- components, links, assignment, comments, attachments -----

#[test]
fn components_tool() {
    assert!(matches!(component_ref("10001"), ComponentRef::Id(x) if x == "10001"));
    assert!(matches!(component_ref("Backend"), ComponentRef::Name(x) if x == "Backend"));
    assert_eq!(
        param_of(&components_update_error("no such component", "A-1")).1,
        "Invalid component: no such component"
    );
    assert!(matches!(components_list_error("404", "P"), JiraMcpError::NotFound { .. }));
    let c = ComponentInfo { id: "1".to_string(), name: "B".to_string(), description: None };
    let r = components_result(
        UpdateComponentsParams { issue_key: "A-1".to_string(), components: vec!["B".to_string()] },
        vec![c.clone()],
    );
    assert_eq!(r.message, "Successfully set 1 component(s) on A-1");
    let r = components_result(UpdateComponentsParams { issue_key: "A-1".to_string(), components: vec![] }, vec![]);
    assert_eq!(r.message, "Successfully cleared all components from A-1");
    assert_eq!(components_listing("P".to_string(), vec![c]).total, 1);
}

#[test]
fn links_tool() {
    let p = LinkIssuesParams {
        inward_issue_key: "A-1".to_string(),
        outward_issue_key: "".to_string(),
        link_type: "Blocks".to_string(),
        comment: None,
    };
    assert_eq!(param_of(&validate_link_params(&p).unwrap_err()).0, "outward_issue_key");
    let p = LinkIssuesParams { outward_issue_key: "A-2".to_string(), ..p };
    assert!(validate_link_params(&p).is_ok());
    assert!(matches!(link_error("404", &p), JiraMcpError::NotFound { key, .. } if key == "A-1, A-2, or Blocks"));
    assert_eq!(link_result(p).message, "Successfully linked A-1 to A-2 with 'Blocks' link type");
    assert!(validate_delete_params(&DeleteIssueLinkParams { link_id: " ".to_string() }).is_err());
    assert!(matches!(delete_link_error("x", "5"), JiraMcpError::Internal { .. }));
    assert_eq!(delete_result(DeleteIssueLinkParams { link_id: "5".to_string() }).message, "Successfully deleted issue link 5");
    let t = IssueLinkTypeInfo {
        id: "1".to_string(),
        name: "Blocks".to_string(),
        inward: "is blocked by".to_string(),
        outward: "blocks".to_string(),
        self_link: String::new(),
    };
    assert_eq!(link_types_result(vec![t]).total, 1);
}

#[test]
fn assignment_tool() {
    assert!(matches!(assignee_target(&Some("me".to_string())), AssigneeTarget::CurrentUser));
    assert!(matches!(assignee_target(&Some("".to_string())), AssigneeTarget::Nobody));
    assert!(matches!(assignee_target(&None), AssigneeTarget::Nobody));
    assert!(matches!(assignee_target(&Some("acc".to_string())), AssigneeTarget::Account(a) if a == "acc"));
    assert_eq!(param_of(&assign_error("400 Bad Request", "A-1")).0, "assignee");
    assert_eq!(assign_result("A-1".to_string(), None).message, "Successfully unassigned A-1");
    assert_eq!(assign_result("A-1".to_string(), Some("acc".to_string())).message, "Successfully assigned A-1 to acc");
}

#[test]
fn comments_tool() {
    let mut p = AddCommentParams { issue_key: "A-1".to_string(), comment_body: "hi".to_string(), visibility: None };
    assert!(validate_comment(&p).is_ok());
    p.visibility = Some("".to_string());
    assert_eq!(param_of(&validate_comment(&p).unwrap_err()).0, "visibility");
    p.comment_body = "x".repeat(32769);
    assert_eq!(param_of(&validate_comment(&p).unwrap_err()).1, "Comment body cannot exceed 32,768 characters");
    let c = comment_info(None, None, "b".to_string(), None, Some("u".to_string()), 77);
    assert_eq!(c.id, "comment-77");
    assert_eq!(c.author, "Unknown");
    assert_eq!(c.created, "1970-01-01T00:00:00.000Z");
    assert_eq!(c.updated, "u");
    let r = comment_result(c, "A-1".to_string(), 12);
    assert_eq!(r.message, "Comment successfully added to issue A-1");
    assert_eq!(r.performance.api_calls, 1);
}

#[test]
fn attachments_listing() {
    assert!(validate_listing(&ListAttachmentsParams { issue_key: "A-1".to_string() }).is_ok());
    assert!(validate_listing(&ListAttachmentsParams { issue_key: "A1".to_string() }).is_err());
    assert_eq!(normalized_key(" a-1 "), "A-1");
    let a = ClientAttachment {
        id: "9".to_string(),
        filename: "f.txt".to_string(),
        author: "me".to_string(),
        created: "c".to_string(),
        size: 3,
        mime_type: "text/plain".to_string(),
    };
    let l = list_of(&Some(vec![a]));
    assert_eq!(l[0].content_url, "jira://attachment/9");
    assert!(l[0].thumbnail_url.is_none());
    assert!(list_of(&None).is_empty());
}

// ----- client helpers -----

#[test]
fn client_paging_and_endpoints() {
    assert_eq!(search_window(None, None, 50), (0, 50));
    assert_eq!(search_window(Some(10), Some(500), 50), (10, 200));
    assert!(is_last_page(0, 50, 50));
    assert!(!is_last_page(0, 50, 51));
    let r = search_result(vec![issue("A-1", "Open")], 10, 0, 1, 0, 1);
    assert!(!r.is_last);
    assert_eq!(issue_endpoint("A-1", false, false), None);
    assert_eq!(issue_endpoint("A-1", true, true).as_deref(), Some("/issue/A-1?expand=comment,changelog"));
    assert_eq!(issue_endpoint("A-1", false, true).as_deref(), Some("/issue/A-1?expand=changelog"));
}

#[test]
fn client_errors_and_records() {
    assert!(matches!(issue_read_error(ClientErrorKind::Fault, "404 Not Found", "A-1"), JiraMcpError::NotFound { key, .. } if key == "A-1"));
    assert!(matches!(issue_read_error(ClientErrorKind::Unauthorized, "401", "A-1"), JiraMcpError::Authentication { .. }));
    assert!(matches!(comment_error(ClientErrorKind::Fault, "403 Forbidden", "A-1"), JiraMcpError::Permission { message } if message == "Permission denied adding comment to issue A-1"));
    assert_eq!(history_entry_id("2024-01-02T03:04:05.000+0000", Some("ann")), "history-20240102T030405000+0000-ann");
    assert_eq!(history_entry_id("x", None), "history-x-unknown");
    let h = history_item("status".to_string(), None, Some("Open".to_string()), None, Some("Done".to_string()));
    assert_eq!(h.field_type, "custom");
    let l = linked_issue("blocks", "is blocked by", None, Some(("A-9".to_string(), None, None))).unwrap();
    assert_eq!((l.key.as_str(), l.status.as_str(), l.link_type.as_str(), l.direction.as_str()), ("A-9", "Unknown", "is blocked by", "inward"));
    assert!(linked_issue("a", "b", None, None).is_none());
    let u = user_info_for("bob");
    assert_eq!(u.account_id, "bob");
    assert!(u.active);
    assert_eq!(
        client_user_jql("acc", Some(&["Open".to_string()]), None),
        "assignee = \"acc\" AND status IN (\"Open\") ORDER BY updated DESC"
    );
}

// ----- server-level helpers -----

#[test]
fn server_helpers() {
    assert!(validate_common_params(Some(10), Some(0)).is_ok());
    assert_eq!(param_of(&validate_common_params(Some(0), None).unwrap_err()).1, "Limit must be greater than 0");
    assert_eq!(param_of(&validate_common_params(None, Some(10001)).unwrap_err()).0, "start_at");
    let cache = MetadataCache::new(300);
    let s = server_status(5, "https://j".to_string(), Ok(()), "Ann".to_string(), cache.get_stats());
    assert_eq!(s.jira_connection_status, "Connected");
    assert_eq!(s.authenticated_user.as_deref(), Some("Ann"));
    assert_eq!(s.tools_count, TOOLS_COUNT);
    let s = server_status(5, "https://j".to_string(), Err(JiraMcpError::network("down")), "Ann".to_string(), cache.get_stats());
    assert_eq!(s.jira_connection_status, "Connection Error: Network error: down");
    assert!(s.authenticated_user.is_none());
    assert_eq!(current_user_name(None, None), "Unknown");
    assert_eq!(current_user_name(None, Some("J".to_string())), "J");
    assert_eq!(clear_cache_message(Ok(())), Ok("All cached metadata has been cleared successfully".to_string()));
    let user = ClientUser { account_id: "a".to_string(), display_name: "A".to_string(), email_address: None, active: true };
    let m = current_user_mapping(user.clone());
    assert!(m.username.is_none());
    let rep = connection_report("https://j", Ok(user));
    assert_eq!(rep, "✅ Connection successful!\nJIRA URL: https://j\nAuthenticated as: A (N/A)\nAccount ID: a\nEmail: Not provided");
    assert!(connection_report("https://j", Err(JiraMcpError::auth("no"))).starts_with("❌ Connection failed!\nJIRA URL: https://j\nError: Authentication failed: no"));
}

#[test]
fn paths_and_names() {
    assert!(check_relative_path("a/b.txt", "file_paths").is_ok());
    assert!(check_relative_path("/etc/passwd", "file_paths").is_err());
    assert_eq!(param_of(&check_relative_path("a/../b", "p").unwrap_err()).1, "Path traversal (..) is not allowed for security.");
    assert!(check_relative_path("a..b", "p").is_ok());
    assert!(str_all_alphabetic("Abc"));
    assert!(!str_all_alphabetic("A1"));
    assert!(str_all_numeric("123"));
    assert!(!str_all_numeric("12a"));
}

#[test]
fn user_issues_query_without_filters_is_valid_jql() {
    let f = AppliedFilters {
        status_categories: None,
        issue_types: None,
        projects: None,
        boards: None,
        due_date: None,
        priorities: None,
        updated_since: None,
    };
    let q = build_user_issues_jql("acc-2", &f);
    assert_eq!(q.jql, "assignee = \"acc-2\" ORDER BY updated DESC");
    assert_eq!(q.complexity, QueryComplexity::Simple);
}
