use jira_mcp_server::error::JiraMcpError;
use jira_mcp_server::tools::bulk_operations::{
    after_failure, assignee_display, bulk_message, check_issue_count, check_issue_keys,
    creation_results, first_attempt, get_concurrency_limit, get_retry_config, is_retryable,
    means_current_user, must_wait, new_tally, put_error, record_lost_task, record_outcome,
    transition_results, update_results, validate_label_params, validate_transition_params,
    BulkAddLabelsParams, BulkTransitionIssuesParams, RetryState,
};
use jira_mcp_server::tools::create_issue::{
    assignee_choice, create_description, create_error, create_issue_type, create_project_key,
    create_result, fills_custom_field, AssigneeChoice,
};
use jira_mcp_server::tools::download_attachment::{
    bytes_per_second, check_size, download_message, download_options, returned_content,
    validate_params as validate_download, DownloadAttachmentParams, DownloadOptions,
};
use jira_mcp_server::tools::rate_limiter::{SlidingWindow, SlotDecision};
use jira_mcp_server::tools::update_description::{
    description_result, needs_current, new_description, UpdateMode,
};
use jira_mcp_server::tools::upload_attachment::{
    add_to_total, check_any_files, max_total_size, prepare_inline_files, upload_message,
    uploaded_info, validate_params as validate_upload, FileContent, UploadAttachmentParams,
};

const MS: u64 = 1_000_000;

fn param_of(e: &JiraMcpError) -> (String, String) {
    match e {
        JiraMcpError::InvalidParameter { parameter, message } => (parameter.clone(), message.clone()),
        other => panic!("expected an invalid parameter, got {:?}", other),
    }
}

// ----- rate limiter -----

#[test]
fn test_rate_limiter_allows_within_limit() {
    let mut limiter = SlidingWindow::new(5, 1000 * MS);
    for i in 0..5u64 {
        assert_eq!(limiter.try_acquire(i * MS), SlotDecision::Allowed);
    }
    assert_eq!(limiter.active_requests(5 * MS), 5);
    assert_eq!(limiter.max_requests(), 5);
}

#[test]
fn test_rate_limiter_blocks_over_limit() {
    let mut limiter = SlidingWindow::new(3, 500 * MS);
    for _ in 0..3 {
        assert_eq!(limiter.try_acquire(0), SlotDecision::Allowed);
    }
    assert_eq!(limiter.active_requests(0), 3);
    // The fourth request waits for the oldest to leave the window, and 100 ms more.
    match limiter.try_acquire(0) {
        SlotDecision::Wait(w) => assert!(w >= 400 * MS && w == 600 * MS),
        SlotDecision::Allowed => panic!("the fourth request should wait"),
    }
    assert_eq!(limiter.active_requests(0), 3);
}

#[test]
fn test_sliding_window() {
    let mut limiter = SlidingWindow::new(2, 500 * MS);
    assert_eq!(limiter.try_acquire(0), SlotDecision::Allowed);
    assert_eq!(limiter.try_acquire(300 * MS), SlotDecision::Allowed);
    assert_eq!(limiter.active_requests(300 * MS), 2);
    // 600 ms in, the first request has left the window.
    assert_eq!(limiter.try_acquire(600 * MS), SlotDecision::Allowed);
    assert_eq!(limiter.active_requests(600 * MS), 2);
}

#[test]
fn rate_limiter_reset() {
    let mut limiter = SlidingWindow::new(1, 1000 * MS);
    assert_eq!(limiter.try_acquire(0), SlotDecision::Allowed);
    assert_eq!(limiter.try_acquire(250 * MS), SlotDecision::Wait(850 * MS));
    limiter.reset();
    assert_eq!(limiter.active_requests(250 * MS), 0);
    assert_eq!(limiter.try_acquire(250 * MS), SlotDecision::Allowed);
}

// ----- bulk operations -----

#[test]
fn bulk_limits() {
    assert_eq!(get_concurrency_limit(None), 5);
    assert_eq!(get_concurrency_limit(Some(0)), 1);
    assert_eq!(get_concurrency_limit(Some(50)), 20);
    assert_eq!(get_concurrency_limit(Some(7)), 7);
    assert_eq!(get_retry_config(None, None), (3, 1000));
    assert_eq!(get_retry_config(Some(0), Some(10)), (0, 500));
    assert_eq!(get_retry_config(Some(9), Some(2000)), (9, 2000));
}

#[test]
fn bulk_retries() {
    assert!(is_retryable("HTTP 429 Too Many Requests"));
    assert!(is_retryable("request timed out"));
    assert!(is_retryable("502 Bad Gateway"));
    assert!(!is_retryable("404 Not Found"));
    let s = first_attempt(1000);
    assert_eq!(s, RetryState { attempt: 0, delay_ms: 1000 });
    let s = after_failure(s, 3, "503").unwrap();
    assert_eq!(s, RetryState { attempt: 1, delay_ms: 2000 });
    assert_eq!(after_failure(s, 3, "bad request"), None);
    let big = RetryState { attempt: 2, delay_ms: 20000 };
    assert_eq!(after_failure(big, 3, "timeout"), Some(RetryState { attempt: 3, delay_ms: 30000 }));
    assert_eq!(after_failure(RetryState { attempt: 3, delay_ms: 30000 }, 3, "timeout"), None);
}

#[test]
fn bulk_tally_and_message() {
    let mut t = new_tally();
    assert!(!record_outcome(&mut t, true, true, true));
    assert!(record_outcome(&mut t, false, true, true));
    assert!(!record_outcome(&mut t, false, true, false));
    record_lost_task(&mut t);
    assert_eq!((t.success_count, t.failure_count), (1, 3));
    assert!(must_wait(5, 5));
    assert!(!must_wait(4, 5));
    assert_eq!(
        bulk_message("transitioned", "issues", t, 4),
        "Bulk transitioned 1/4 issues successfully (3 failed)"
    );
}

#[test]
fn bulk_checks() {
    assert!(check_issue_keys(&vec!["A-1".to_string()]).is_ok());
    let e = check_issue_keys(&vec![]).unwrap_err();
    assert_eq!(param_of(&e), ("issue_keys".to_string(), "Must provide at least one issue key".to_string()));
    assert!(check_issue_count(0).is_err());
    assert!(check_issue_count(2).is_ok());

    let mut p = BulkTransitionIssuesParams {
        issue_keys: vec!["A-1".to_string()],
        transition_id: None,
        transition_name: None,
        comment: None,
        resolution: None,
        stop_on_error: false,
        max_concurrent: None,
        max_retries: None,
        initial_retry_delay_ms: None,
    };
    let e = validate_transition_params(&p).unwrap_err();
    assert_eq!(param_of(&e).0, "transition_id or transition_name");
    p.transition_name = Some("Done".to_string());
    assert!(validate_transition_params(&p).is_ok());

    let l = BulkAddLabelsParams {
        issue_keys: vec!["A-1".to_string()],
        add_labels: vec![],
        remove_labels: vec![],
        stop_on_error: false,
        max_concurrent: None,
        max_retries: None,
        initial_retry_delay_ms: None,
    };
    let e = validate_label_params(&l).unwrap_err();
    assert_eq!(param_of(&e).1, "Must provide at least one label to add or remove");
}

#[test]
fn bulk_assignees_and_errors() {
    assert!(means_current_user("me"));
    assert!(means_current_user("self"));
    assert!(!means_current_user("Me"));
    assert_eq!(assignee_display(&None), "Unassigned");
    assert_eq!(assignee_display(&Some("acc".to_string())), "acc");
    assert!(matches!(put_error("HTTP 404", "A-1", "assign"), JiraMcpError::NotFound { .. }));
    match put_error("boom", "A-1", "assign issue") {
        JiraMcpError::Internal { message } => assert_eq!(message, "Failed to assign issue: boom"),
        _ => panic!("expected an internal error"),
    }
}

#[test]
fn bulk_results_in_order() {
    let ok = create_result(
        "P-2".to_string(),
        "10002".to_string(),
        "https://j",
        "S".to_string(),
        "Task".to_string(),
        "P".to_string(),
    );
    let outcomes = vec![
        (2, Err(JiraMcpError::internal("x"))),
        (0, Ok(ok)),
        (1, Err(JiraMcpError::not_found("issue", "P-9"))),
    ];
    let r = creation_results(outcomes);
    assert_eq!(r.iter().map(|x| x.index).collect::<Vec<_>>(), vec![0, 1, 2]);
    assert!(r[0].success);
    assert_eq!(r[0].issue.as_ref().unwrap().issue_key, "P-2");
    assert_eq!(r[1].error.as_deref(), Some("Not found: issue 'P-9' not found"));
    assert_eq!(r[2].error.as_deref(), Some("Internal error: x"));

    let t = transition_results(vec![
        ("A-1".to_string(), Ok("Done".to_string())),
        ("A-2".to_string(), Err(JiraMcpError::internal("no"))),
    ]);
    assert_eq!(t[0].new_status.as_deref(), Some("Done"));
    assert!(t[0].success);
    assert!(!t[1].success);
    assert_eq!(t[1].issue_key, "A-2");

    let u = update_results(vec![("B-1".to_string(), Ok(()))]);
    assert!(u[0].success && u[0].error.is_none());
}

// ----- update description -----

#[test]
fn update_description_modes() {
    assert!(!needs_current(UpdateMode::Replace));
    assert!(needs_current(UpdateMode::Append));
    assert_eq!(new_description(UpdateMode::Replace, "old", "new"), "new");
    assert_eq!(new_description(UpdateMode::Append, "old", "new"), "old\n\nnew");
    assert_eq!(new_description(UpdateMode::Append, "", "new"), "new");
    assert_eq!(new_description(UpdateMode::Prepend, "old", "new"), "new\n\nold");
    assert_eq!(new_description(UpdateMode::Prepend, "", "new"), "new");
    let r = description_result("K-1".to_string(), UpdateMode::Prepend, "x".to_string());
    assert!(r.success);
    assert_eq!(r.mode, "prepend");
    assert_eq!(UpdateMode::default(), UpdateMode::Append);
}

// ----- create issue -----

#[test]
fn create_issue_choices() {
    assert_eq!(create_project_key(Some("P".to_string()), &None).unwrap(), "P");
    assert_eq!(create_project_key(None, &Some("ABC-12".to_string())).unwrap(), "ABC");
    let e = create_project_key(None, &None).unwrap_err();
    assert_eq!(param_of(&e).0, "project_key");
    assert_eq!(create_issue_type(true, Some("Bug".to_string())), "Subtask");
    assert_eq!(create_issue_type(false, Some("Bug".to_string())), "Bug");
    assert_eq!(create_issue_type(false, None), "Task");
    assert!(matches!(assignee_choice(true, &None), AssigneeChoice::CurrentUser));
    assert!(matches!(assignee_choice(false, &Some("self".to_string())), AssigneeChoice::CurrentUser));
    assert!(matches!(assignee_choice(false, &Some("acc".to_string())), AssigneeChoice::Account(a) if a == "acc"));
    assert!(matches!(assignee_choice(false, &None), AssigneeChoice::Unassigned));
    assert!(fills_custom_field(&vec!["customfield_1".to_string()], "customfield_2"));
    assert!(!fills_custom_field(&vec!["customfield_1".to_string()], "customfield_1"));
}

#[test]
fn create_issue_texts() {
    assert_eq!(
        create_description(Some("Body".to_string()), &vec!["a".to_string(), "b".to_string()]),
        "Body\n\n## Tasks\n\n- [ ] a\n- [ ] b"
    );
    assert_eq!(create_description(None, &vec!["a".to_string()]), "## Tasks\n\n- [ ] a");
    assert_eq!(create_description(None, &vec![]), "");
    assert_eq!(create_description(Some("B".to_string()), &vec![]), "B");

    let r = create_result(
        "P-1".to_string(),
        "1".to_string(),
        "https://x.atlassian.net",
        "Fix it".to_string(),
        "Bug".to_string(),
        "P".to_string(),
    );
    assert_eq!(r.issue_url, "https://x.atlassian.net/browse/P-1");
    assert_eq!(
        r.message,
        "Successfully created bug 'Fix it' in project P. View at: https://x.atlassian.net/browse/P-1"
    );

    let e = create_error("project does not exist", "Q", "Task");
    assert_eq!(param_of(&e), ("project_key".to_string(), "Invalid project: Q".to_string()));
    let e = create_error("not a valid issue type", "Q", "Epicx");
    assert_eq!(param_of(&e), ("issue_type".to_string(), "Invalid issue type: Epicx".to_string()));
    assert!(matches!(create_error("other", "Q", "T"), JiraMcpError::Internal { .. }));
}

// ----- download -----

fn download_params() -> DownloadAttachmentParams {
    DownloadAttachmentParams {
        attachment_id: "10001".to_string(),
        base64_encoded: None,
        max_size_bytes: None,
        save_to_path: None,
        return_content: None,
    }
}

#[test]
fn download_validation_and_options() {
    let mut p = download_params();
    assert!(validate_download(&p).is_ok());
    let o = download_options(&p);
    assert!(o.base64_encoded && o.return_content);
    assert_eq!(o.max_size, 10 * 1024 * 1024);
    p.save_to_path = Some("out.bin".to_string());
    assert!(!download_options(&p).return_content);
    p.max_size_bytes = Some(0);
    assert_eq!(param_of(&validate_download(&p).unwrap_err()).0, "max_size_bytes");
    p.max_size_bytes = Some(100 * 1024 * 1024 + 1);
    assert!(validate_download(&p).is_err());
    p.max_size_bytes = None;
    p.attachment_id = "  ".to_string();
    assert_eq!(param_of(&validate_download(&p).unwrap_err()).0, "attachment_id");
}

#[test]
fn download_content_encodings() {
    let opts = DownloadOptions { base64_encoded: true, max_size: 100, return_content: true };
    assert_eq!(returned_content(b"hello".to_vec(), opts), Some("aGVsbG8=".to_string()));
    let text = DownloadOptions { base64_encoded: false, max_size: 100, return_content: true };
    assert_eq!(returned_content(b"hello".to_vec(), text), Some("hello".to_string()));
    // Bytes that are not UTF-8 are sent as base64 all the same.
    assert_eq!(returned_content(vec![0xff, 0xfe], text), Some("//4=".to_string()));
    let none = DownloadOptions { base64_encoded: true, max_size: 100, return_content: false };
    assert_eq!(returned_content(b"x".to_vec(), none), None);
}

#[test]
fn download_sizes_and_messages() {
    assert!(check_size(10, 10).is_ok());
    let e = check_size(11, 10).unwrap_err();
    assert_eq!(
        param_of(&e).1,
        "Attachment size (11 bytes) exceeds maximum allowed size (10 bytes). Use max_size_bytes parameter to increase limit if needed."
    );
    assert_eq!(bytes_per_second(1000, 4), 250);
    assert_eq!(bytes_per_second(1000, 0), 1000);
    assert_eq!(download_message("a.txt", 5, &None, true), "Downloaded attachment 'a.txt' (5 bytes)");
    assert_eq!(
        download_message("a.txt", 5, &Some("/tmp/a".to_string()), false),
        "Downloaded and saved attachment 'a.txt' (5 bytes) to '/tmp/a'"
    );
    assert_eq!(download_message("a", 1, &None, false), "Downloaded attachment (content not returned)");
}

// ----- upload -----

fn upload_params() -> UploadAttachmentParams {
    UploadAttachmentParams {
        issue_key: "PROJ-1".to_string(),
        files: Some(vec![]),
        file_paths: None,
        max_total_size_bytes: None,
    }
}

#[test]
fn upload_validation() {
    let mut p = upload_params();
    assert!(validate_upload(&p).is_ok());
    assert_eq!(max_total_size(&p), 10 * 1024 * 1024);
    p.file_paths = Some(vec!["a".to_string()]);
    assert_eq!(
        param_of(&validate_upload(&p).unwrap_err()).1,
        "Cannot provide both 'files' and 'file_paths'. Choose one approach."
    );
    p.files = None;
    p.file_paths = None;
    assert_eq!(param_of(&validate_upload(&p).unwrap_err()).0, "files");
    p.issue_key = "PROJ1".to_string();
    assert_eq!(param_of(&validate_upload(&p).unwrap_err()).0, "issue_key");
}

#[test]
fn upload_inline_files() {
    let files = vec![
        FileContent { filename: "a.txt".to_string(), content_base64: "aGVsbG8=".to_string(), mime_type: None },
        FileContent { filename: "b.bin".to_string(), content_base64: "AAE=".to_string(), mime_type: None },
    ];
    let (prepared, total) = prepare_inline_files(&files, 100).unwrap();
    assert_eq!(total, 7);
    assert_eq!(prepared[0], ("a.txt".to_string(), b"hello".to_vec()));
    assert_eq!(prepared[1], ("b.bin".to_string(), vec![0u8, 1u8]));

    let e = prepare_inline_files(&files, 6).unwrap_err();
    assert_eq!(param_of(&e), ("files".to_string(), "Total upload size (7 bytes) exceeds maximum (6 bytes)".to_string()));

    let bad = vec![FileContent { filename: "c".to_string(), content_base64: "!!".to_string(), mime_type: None }];
    let (param, msg) = param_of(&prepare_inline_files(&bad, 100).unwrap_err());
    assert_eq!(param, "content_base64");
    assert!(msg.starts_with("Invalid base64 content for file 'c': "));
}

#[test]
fn upload_totals_and_messages() {
    assert_eq!(add_to_total(5, 5, 10, "file_paths").unwrap(), 10);
    assert_eq!(param_of(&add_to_total(5, 6, 10, "file_paths").unwrap_err()).0, "file_paths");
    assert!(check_any_files(0).is_err());
    assert!(check_any_files(1).is_ok());
    assert_eq!(
        upload_message(2, 300, "P-1"),
        "Successfully uploaded 2 file(s) (300 bytes) to issue 'P-1'"
    );
    let info = uploaded_info(
        "f".to_string(),
        3,
        "text/plain".to_string(),
        "me".to_string(),
        "now".to_string(),
        "url".to_string(),
    );
    assert_eq!(info.id, "");
    assert_eq!(info.size, 3);
}

#[test]
fn no_window_holds_more_than_the_limit() {
    let mut w = SlidingWindow::new(2, 100);
    let mut granted: Vec<u64> = Vec::new();
    for t in [0u64, 10, 20, 50, 100, 105, 110, 200, 230] {
        if w.try_acquire(t) == SlotDecision::Allowed {
            granted.push(t);
        }
    }
    assert_eq!(granted, vec![0, 10, 100, 110, 200, 230]);
    for k in 0..granted.len() - 2 {
        assert!(granted[k + 2] - granted[k] >= 100);
    }
}
