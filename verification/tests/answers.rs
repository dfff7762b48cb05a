use jira_mcp_server::cache::IssueTypeInfo;
use jira_mcp_server::config::default_issue_type_mappings;
use jira_mcp_server::semantic_mapping::find_matching_project_types;
use jira_mcp_server::error::JiraMcpError;
use jira_mcp_server::jira_client::WorklogInfo;
use jira_mcp_server::tools::bulk_operations::{
    assign_answer, creation_answer, fill_project_keys, labels_answer, transition_answer,
    update_fields_answer,
};
use jira_mcp_server::tools::create_issue::{create_fields, CreateIssueResult};
use jira_mcp_server::tools::download_attachment::{
    download_result, AttachmentMetadata, DownloadOptions,
};
use jira_mcp_server::tools::get_create_metadata::{metadata_summary, selected_types};
use jira_mcp_server::tools::sprints::{close_answer, ClosingPlan, SprintInfo};
use jira_mcp_server::tools::todo_tracker::{
    checkpoint_result, completed_result, paused_result, CheckpointTodoWorkParams,
    StartTodoWorkParams, TodoTracker,
};

const SEC: i64 = 1_000_000_000;
const DESC: &str = "Intro\n- [ ] Write tests\n- [ ] Ship";

fn worklog() -> WorklogInfo {
    WorklogInfo {
        id: "w-1".to_string(),
        issue_key: "P-9".to_string(),
        time_spent_seconds: 600,
        started: "2024-01-01".to_string(),
        comment: None,
    }
}

#[test]
fn feature_maps_to_feature_and_enhancement() {
    let m = default_issue_type_mappings();
    let feature = m.iter().find(|(k, _)| k == "feature").unwrap();
    assert_eq!(feature.1, vec!["Feature".to_string(), "Enhancement".to_string()]);
    let bug = m.iter().find(|(k, _)| k == "bug").unwrap();
    assert_eq!(bug.1, vec!["Bug".to_string(), "Defect".to_string()]);
}

#[test]
fn checkpoint_logs_time_and_keeps_the_session() {
    let mut tracker = TodoTracker::new();
    let t0 = 1_700_000_000 * SEC;
    let start = StartTodoWorkParams { issue_key: None, todo_id_or_index: "1".to_string() };
    tracker.start_todo_work("P-9", DESC, &start, t0).unwrap();
    let params = CheckpointTodoWorkParams {
        issue_key: None,
        todo_id_or_index: "1".to_string(),
        worklog_comment: None,
    };
    let plan = tracker.checkpoint_todo_work("P-9", DESC, params, t0 + 600 * SEC).unwrap();
    assert_eq!(plan.time_spent_seconds, 600);
    assert_eq!(plan.comment, "Checkpoint on todo: Write tests");
    assert_eq!(plan.message, "Logged 10m to issue P-9. Work session continues, timed from now.");
    let sessions = tracker.sessions().sessions();
    assert_eq!(sessions.len(), 1);
    assert_eq!(sessions[0].started_at, t0 + 600 * SEC);
    let r = checkpoint_result(plan, worklog());
    assert_eq!(r.time_spent_seconds, 600);
    assert_eq!(r.worklog.id, "w-1");

    // No session for the second todo.
    let params = CheckpointTodoWorkParams {
        issue_key: None,
        todo_id_or_index: "2".to_string(),
        worklog_comment: None,
    };
    match tracker.checkpoint_todo_work("P-9", DESC, params, t0) {
        Err(JiraMcpError::InvalidParameter { message, .. }) => {
            assert_eq!(message, "No active work session for this todo. Start work first.")
        }
        _ => panic!("expected a refusal"),
    }
}

#[test]
fn pause_and_complete_answers_carry_the_worklog() {
    let mut tracker = TodoTracker::new();
    let t0 = 1_700_000_000 * SEC;
    let start = StartTodoWorkParams { issue_key: None, todo_id_or_index: "2".to_string() };
    tracker.start_todo_work("P-9", DESC, &start, t0).unwrap();
    let plan = tracker
        .complete_todo_work("P-9", DESC, "2", None, false, Some(90), None, None, t0 + 90 * SEC)
        .unwrap();
    let r = completed_result(plan.clone(), worklog());
    assert_eq!(r.todo.text, "Ship");
    assert_eq!(r.time_spent_formatted, "1m");
    assert_eq!(r.message, plan.message);
    let p = paused_result(plan, worklog());
    assert_eq!(p.worklog.issue_key, "P-9");
}

fn metadata() -> AttachmentMetadata {
    AttachmentMetadata {
        id: "10".to_string(),
        filename: "a.bin".to_string(),
        size: 2,
        mime_type: "application/octet-stream".to_string(),
        author: "Ann".to_string(),
        created: "2024".to_string(),
    }
}

#[test]
fn download_flags_base64_content() {
    let text = DownloadOptions { base64_encoded: false, max_size: 100, return_content: true };
    let r = download_result(metadata(), b"hi".to_vec(), text, None, 5, 0);
    assert_eq!(r.content.as_deref(), Some("hi"));
    assert!(!r.is_base64_encoded);
    assert_eq!(r.performance.bytes_downloaded, 2);
    assert_eq!(r.performance.download_speed_bps, 2);
    assert_eq!(r.message, "Downloaded attachment 'a.bin' (2 bytes)");

    // Bytes that are not UTF-8 come back as base64, and say so.
    let r = download_result(metadata(), vec![0xff, 0xfe], text, None, 5, 1);
    assert_eq!(r.content.as_deref(), Some("//4="));
    assert!(r.is_base64_encoded);
}

#[test]
fn metadata_summary_refuses_a_missing_type() {
    let none: Vec<String> = Vec::new();
    let r = metadata_summary("P", &Some("Epic".to_string()), &none, &Vec::new());
    match r {
        Err(JiraMcpError::InvalidParameter { parameter, message }) => {
            assert_eq!(parameter, "issue_type");
            assert_eq!(message, "Issue type 'Epic' not found in project P");
        }
        _ => panic!("expected a refusal"),
    }
    let names = vec!["Bug".to_string(), "Task".to_string()];
    let per_type = vec![
        vec!["summary".to_string(), "project".to_string()],
        vec!["summary".to_string()],
    ];
    let (common, hints) = metadata_summary("P", &None, &names, &per_type).unwrap();
    assert_eq!(common, vec!["summary".to_string(), "project".to_string()]);
    assert_eq!(hints[1], "Available issue types: Bug, Task");
    assert_eq!(hints[2], "Common required fields across all types: summary, project");
}

#[test]
fn create_fields_choose_what_is_sent() {
    let f = create_fields(
        "P".to_string(),
        "S".to_string(),
        "Task".to_string(),
        String::new(),
        None,
        Some("acc".to_string()),
        vec!["x".to_string()],
        Vec::new(),
        None,
        &vec!["customfield_10016".to_string()],
        true,
        true,
    );
    assert!(f.description.is_none());
    assert_eq!(f.labels, Some(vec!["x".to_string()]));
    assert!(f.components.is_none());
    assert!(!f.story_points_field);
    assert!(f.epic_link_field);
    assert_eq!(f.assignee_account_id.as_deref(), Some("acc"));
}

#[test]
fn bulk_answers_count_their_results() {
    let outcomes = vec![
        ("A-1".to_string(), Ok("Done".to_string())),
        ("A-2".to_string(), Err(JiraMcpError::not_found("issue", "A-2"))),
    ];
    let r = transition_answer(outcomes, 1, 4, 12);
    assert_eq!((r.success_count, r.failure_count), (1, 2));
    assert_eq!(r.message, "Bulk transitioned 1/4 issues successfully (2 failed)");
    assert_eq!(r.results.len(), 2);

    let ups = || vec![("A-1".to_string(), Ok(())), ("A-2".to_string(), Ok(()))];
    let r = update_fields_answer(ups(), 0, 2, 1);
    assert_eq!(r.message, "Bulk updated 2/2 issues successfully (0 failed)");
    let r = assign_answer(ups(), 0, 2, 1, "me".to_string());
    assert_eq!(r.message, "Bulk assigned 2/2 issues successfully (0 failed)");
    assert_eq!(r.assignee, "me");
    let r = labels_answer(ups(), 0, 3, 1);
    assert_eq!(r.message, "Bulk updated labels on 2/3 issues successfully (0 failed)");

    let created = CreateIssueResult {
        issue_key: "A-3".to_string(),
        issue_id: "3".to_string(),
        issue_url: "u".to_string(),
        summary: "s".to_string(),
        issue_type: "Task".to_string(),
        project_key: "A".to_string(),
        message: "m".to_string(),
    };
    let r = creation_answer(
        vec![(1, Err(JiraMcpError::internal("x"))), (0, Ok(created))],
        0,
        2,
        3,
    );
    assert_eq!(r.results[0].index, 0);
    assert!(r.results[0].success);
    assert_eq!((r.success_count, r.failure_count), (1, 1));
    assert_eq!(r.message, "Bulk created 1/2 issues successfully (1 failed)");
}

#[test]
fn closed_sprint_answer() {
    let sprint = SprintInfo {
        id: 5,
        name: "S1".to_string(),
        state: Some("closed".to_string()),
        start_date: None,
        end_date: None,
        complete_date: None,
        origin_board_id: None,
        self_link: "l".to_string(),
    };
    let plan = ClosingPlan { completed_issues: 3, incomplete_issues: 1, move_to: None };
    let r = close_answer(sprint, &plan, 4, Some("Sprint completion: 3/4 issues (75.0%)".to_string()));
    assert_eq!(r.moved_issues, None);
    assert_eq!(r.message, "Successfully closed sprint 'S1' (3/4 completed)");
    assert_eq!(
        r.warnings,
        vec![
            "Sprint completion: 3/4 issues (75.0%)".to_string(),
            "1 incomplete issue(s) remain in closed sprint (not moved)".to_string(),
        ]
    );
}

#[test]
fn project_feature_types_include_enhancements() {
    let t = |n: &str| IssueTypeInfo {
        id: n.to_string(),
        name: n.to_string(),
        description: None,
        subtask: false,
    };
    let types = vec![t("New Feature"), t("Enhancement"), t("Bug")];
    assert_eq!(
        find_matching_project_types("feature", &types),
        vec!["New Feature".to_string(), "Enhancement".to_string()]
    );
}

#[test]
fn metadata_selects_types_by_name() {
    let names = vec!["Bug".to_string(), "Story".to_string(), "bug".to_string()];
    assert_eq!(selected_types(&names, &None), vec![0, 1, 2]);
    assert_eq!(selected_types(&names, &Some("BUG".to_string())), vec![0, 2]);
    assert!(selected_types(&names, &Some("Epic".to_string())).is_empty());
}

#[test]
fn bulk_creation_fills_missing_project_keys() {
    let keys = vec![None, Some("OTHER".to_string()), None];
    assert_eq!(
        fill_project_keys(keys, "PROJ"),
        vec!["PROJ".to_string(), "OTHER".to_string(), "PROJ".to_string()]
    );
}
