use jira_mcp_server::error::JiraMcpError;
use jira_mcp_server::tools::todo_tracker::{
    add_todo_to_description, decide_work_time, format_duration, generate_todo_id,
    multi_day_error, parse_checkbox_line, update_todo_status, CancelTodoWorkParams,
    PauseTodoWorkParams, SetTodoBaseParams, StartTodoWorkParams, TodoStatus, TodoTracker,
    WorkTime,
};

const SEC: i64 = 1_000_000_000;
const DAY: i64 = 86_400 * SEC;

const DESC: &str = "Intro text\n\n## Todos\n- [ ] Write tests\n- [x] Read code\n* [ ] Ship it";

#[test]
fn test_format_duration() {
    assert_eq!(format_duration(45), "45s");
    assert_eq!(format_duration(90), "1m");
    assert_eq!(format_duration(3665), "1h 1m");
    assert_eq!(format_duration(7200), "2h 0m");
}

#[test]
fn format_duration_edges() {
    assert_eq!(format_duration(0), "0s");
    assert_eq!(format_duration(59), "59s");
    assert_eq!(format_duration(60), "1m");
    assert_eq!(format_duration(3599), "59m");
    assert_eq!(format_duration(3600), "1h 0m");
}

#[test]
fn checkbox_lines() {
    assert_eq!(parse_checkbox_line("- [ ] Do it"), Some("Do it".to_string()));
    assert_eq!(parse_checkbox_line("* [x]   Done  "), Some("Done".to_string()));
    assert_eq!(parse_checkbox_line("- [ ]"), None);
    assert_eq!(parse_checkbox_line("- [ ]   "), None);
    assert_eq!(parse_checkbox_line("+ [ ] other"), None);
    assert_eq!(parse_checkbox_line("plain text"), None);
}

#[test]
fn todo_ids_are_stable_and_distinct() {
    let a = generate_todo_id("Write tests", 3);
    assert!(a.starts_with("todo-"));
    assert_eq!(a, generate_todo_id("Write tests", 3));
    assert_ne!(a, generate_todo_id("Write tests", 4));
    // lower-case hexadecimal after the prefix
    assert!(a[5..].chars().all(|c| c.is_ascii_hexdigit() && !c.is_ascii_uppercase()));
}

#[test]
fn adding_todos() {
    // After the last todo
    let out = add_todo_to_description("a\n- [ ] one\n- [ ] two\nz", "three", false);
    assert_eq!(out, "a\n- [ ] one\n- [ ] two\n- [ ] three\nz");
    // Before the first todo
    let out = add_todo_to_description("a\n- [ ] one\nz", "zero", true);
    assert_eq!(out, "a\n- [ ] zero\n- [ ] one\nz");
    // Under an existing header, after its blank lines
    let out = add_todo_to_description("Intro\n## TODO list\n\n\nrest", "first", false);
    assert_eq!(out, "Intro\n## TODO list\n\n\n- [ ] first\nrest");
    // A new section at the end
    let out = add_todo_to_description("Just text", "new", false);
    assert_eq!(out, "Just text\n\n## Todos\n\n- [ ] new");
    let out = add_todo_to_description("", "new", false);
    assert_eq!(out, "## Todos\n\n- [ ] new");
}

#[test]
fn updating_checkboxes() {
    let d = "x\n- [ ] a\n- [X] b";
    assert_eq!(update_todo_status(d, 1, true), "x\n- [x] a\n- [X] b");
    assert_eq!(update_todo_status(d, 2, false), "x\n- [ ] a\n- [ ] b");
    assert_eq!(update_todo_status(d, 9, true), d);
}

#[test]
fn listing_todos_and_filters() {
    let tracker = TodoTracker::new();
    let all = tracker.list_todos("PROJ-1".to_string(), DESC, &None);
    assert_eq!(all.total_count, 3);
    assert_eq!(all.todos[0].text, "Write tests");
    assert_eq!(all.todos[0].line_number, 3);
    assert!(!all.todos[0].completed);
    assert!(all.todos[1].completed);
    assert_eq!(all.todos[1].status, TodoStatus::Completed);
    assert_eq!(all.todos[2].text, "Ship it");

    let done = tracker.list_todos("PROJ-1".to_string(), DESC, &Some(vec![TodoStatus::Completed]));
    assert_eq!(done.total_count, 1);
    assert_eq!(done.todos[0].text, "Read code");
}

#[test]
fn base_issue() {
    let mut tracker = TodoTracker::new();
    let r = tracker.get_issue_key(None);
    assert!(matches!(r, Err(JiraMcpError::InvalidParameter { .. })));
    let set = tracker.set_todo_base(SetTodoBaseParams { issue_key: "ABC-9".to_string() });
    assert_eq!(set.message, "Base issue set to ABC-9. You can now omit issue_key in todo commands.");
    assert_eq!(tracker.get_issue_key(None).unwrap(), "ABC-9");
    assert_eq!(tracker.get_issue_key(Some("X-1".to_string())).unwrap(), "X-1");
}

#[test]
fn finding_todos_by_index_and_id() {
    let tracker = TodoTracker::new();
    let (k, t) = tracker.find_todo("P-1", DESC, "2").unwrap();
    assert_eq!(k, 1);
    assert_eq!(t.text, "Read code");
    let (k2, _) = tracker.find_todo("P-1", DESC, &t.id).unwrap();
    assert_eq!(k2, 1);
    match tracker.find_todo("P-1", DESC, "7") {
        Err(JiraMcpError::InvalidParameter { parameter, message }) => {
            assert_eq!(parameter, "todo_id_or_index");
            assert_eq!(message, "Invalid todo ID or index: 7. Use a todo ID or 1-based index (1-3)");
        }
        _ => panic!("expected an invalid parameter"),
    }
    assert!(tracker.find_todo("P-1", DESC, "0").is_err());
}

#[test]
fn start_then_cancel_restores_sessions() {
    let mut tracker = TodoTracker::new();
    let t0 = 1_700_000_000 * SEC;
    let params = StartTodoWorkParams { issue_key: None, todo_id_or_index: "1".to_string() };
    let started = tracker.start_todo_work("P-1", DESC, &params, t0).unwrap();
    assert_eq!(started.message, "Started tracking work on todo in issue P-1");
    assert_eq!(started.started_at, "2023-11-14T22:13:20+00:00");
    assert_eq!(tracker.sessions().sessions().len(), 1);

    // The todo now reads as in progress, and cannot be started twice.
    let listed = tracker.list_todos("P-1".to_string(), DESC, &None);
    assert_eq!(listed.todos[0].status, TodoStatus::Wip);
    assert!(tracker.start_todo_work("P-1", DESC, &params, t0).is_err());

    let active = tracker.get_active_work_sessions(t0 + 125 * SEC);
    assert_eq!(active.total_count, 1);
    assert_eq!(active.sessions[0].duration_seconds, 125);
    assert_eq!(active.sessions[0].duration_formatted, "2m");

    let cancel = CancelTodoWorkParams { issue_key: None, todo_id_or_index: "1".to_string() };
    let r = tracker.cancel_todo_work("P-1", DESC, &cancel, t0 + 125 * SEC).unwrap();
    assert_eq!(r.discarded_time_seconds, 125);
    assert_eq!(r.message, "Work session canceled. 2m of work was discarded (not logged).");
    assert_eq!(tracker.sessions().sessions().len(), 0);

    // A second cancel finds no session.
    assert!(tracker.cancel_todo_work("P-1", DESC, &cancel, t0).is_err());
}

#[test]
fn pause_logs_elapsed_time() {
    let mut tracker = TodoTracker::new();
    let t0 = 1_700_000_000 * SEC;
    let params = StartTodoWorkParams { issue_key: None, todo_id_or_index: "3".to_string() };
    tracker.start_todo_work("P-2", DESC, &params, t0).unwrap();
    let pause = PauseTodoWorkParams {
        issue_key: None,
        todo_id_or_index: "3".to_string(),
        worklog_comment: Some("halfway".to_string()),
    };
    let plan = tracker.pause_todo_work("P-2", DESC, pause, t0 + 3700 * SEC).unwrap();
    assert_eq!(plan.time_spent_seconds, 3700);
    assert_eq!(plan.time_spent_formatted, "1h 1m");
    assert_eq!(plan.comment, "halfway");
    assert_eq!(plan.started_at, t0);
    assert!(plan.completed_description.is_none());
    assert_eq!(tracker.sessions().sessions().len(), 0);
}

#[test]
fn complete_checks_the_todo() {
    let mut tracker = TodoTracker::new();
    let t0 = 1_700_000_000 * SEC;
    let params = StartTodoWorkParams { issue_key: None, todo_id_or_index: "1".to_string() };
    tracker.start_todo_work("P-3", DESC, &params, t0).unwrap();
    let plan = tracker
        .complete_todo_work("P-3", DESC, "1", None, true, None, Some(30), None, t0 + 10 * SEC)
        .unwrap();
    assert_eq!(plan.time_spent_seconds, 1800);
    assert_eq!(
        plan.completed_description.as_deref(),
        Some("Intro text\n\n## Todos\n- [x] Write tests\n- [x] Read code\n* [ ] Ship it")
    );
}

#[test]
fn complete_across_days_needs_explicit_time() {
    let mut tracker = TodoTracker::new();
    let t0 = 1_700_000_000 * SEC;
    let params = StartTodoWorkParams { issue_key: None, todo_id_or_index: "1".to_string() };
    tracker.start_todo_work("P-4", DESC, &params, t0).unwrap();
    let r = tracker.complete_todo_work("P-4", DESC, "1", None, false, None, None, None, t0 + DAY);
    match r {
        Err(JiraMcpError::InvalidParameter { parameter, message }) => {
            assert_eq!(parameter, "time_spent_hours");
            assert!(message.starts_with("Session spans multiple days. Started "));
            assert!(message.contains(" and ending "));
            assert!(message.contains("Auto-calculated time: 24h 0m"));
        }
        _ => panic!("expected a request for explicit time"),
    }
    // The session is kept, so the call made again with the time succeeds.
    assert_eq!(tracker.sessions().sessions().len(), 1);
    let plan = tracker
        .complete_todo_work("P-4", DESC, "1", None, false, None, None, Some(8 * 3600), t0 + DAY)
        .unwrap();
    assert_eq!(plan.time_spent_seconds, 8 * 3600);
    assert_eq!(tracker.sessions().sessions().len(), 0);
}

#[test]
fn work_time_rules() {
    let t0 = 10 * DAY + 3600 * SEC;
    assert_eq!(decide_work_time(t0, t0 + 90 * SEC, None, None, None), WorkTime::Logged(90));
    assert_eq!(decide_work_time(t0, t0 + 90 * SEC, Some(5), Some(7), None), WorkTime::Logged(5));
    assert_eq!(decide_work_time(t0, t0 + 90 * SEC, None, Some(7), None), WorkTime::Logged(420));
    assert_eq!(decide_work_time(t0, t0 + 90 * SEC, None, None, Some(7200)), WorkTime::Logged(7200));
    assert_eq!(
        decide_work_time(t0, t0 + DAY, None, None, None),
        WorkTime::NeedsExplicitTime { auto_seconds: 86400, crosses_day_boundary: true }
    );
    // A time before the epoch still falls on its own day.
    assert_eq!(
        decide_work_time(-SEC, SEC, None, None, None),
        WorkTime::NeedsExplicitTime { auto_seconds: 2, crosses_day_boundary: true }
    );
}

#[test]
fn multi_day_message() {
    match multi_day_error(false, "A", "B", 90, "2") {
        JiraMcpError::InvalidParameter { message, .. } => {
            assert!(message.starts_with("Session spans multiple days. Started A\nAuto-calculated time: 1m\n"));
            assert!(message.ends_with("{\"todo_id_or_index\": \"2\", \"time_spent_hours\": 8}"));
            assert!(!message.contains("ending"));
        }
        _ => panic!("expected an invalid parameter"),
    }
}

#[test]
fn added_todo_keeps_old_lines_and_is_listed() {
    let tracker = TodoTracker::new();
    let new_desc = add_todo_to_description(DESC, "Review", false);
    let old_lines: Vec<&str> = DESC.lines().collect();
    let new_lines: Vec<&str> = new_desc.lines().collect();
    assert_eq!(new_lines.len(), old_lines.len() + 1);
    assert_eq!(&new_lines[..old_lines.len()], &old_lines[..]);
    assert_eq!(new_lines[old_lines.len()], "- [ ] Review");
    let r = tracker.added_todo("P-1", new_desc, false).unwrap();
    assert_eq!(r.todo.text, "Review");
    assert_eq!(r.message, "Todo added to issue P-1");
    let first = add_todo_to_description(DESC, "Plan", true);
    let r = tracker.added_todo("P-1", first, true).unwrap();
    assert_eq!(r.todo.text, "Plan");
    assert_eq!(r.todo.line_number, 3);
}

#[test]
fn completed_todo_reads_back_completed() {
    let tracker = TodoTracker::new();
    let updated = update_todo_status(DESC, 3, true);
    let before: Vec<&str> = DESC.lines().collect();
    let after: Vec<&str> = updated.lines().collect();
    assert_eq!(before.len(), after.len());
    for i in 0..before.len() {
        if i != 3 {
            assert_eq!(before[i], after[i]);
        }
    }
    let r = tracker.updated_todo("P-1", &updated, 0, true).unwrap();
    assert!(r.todo.completed);
    assert_eq!(r.message, "Todo completed in issue P-1");
    let reopened = update_todo_status(&updated, 4, false);
    let r = tracker.updated_todo("P-1", &reopened, 1, false).unwrap();
    assert!(!r.todo.completed);
    assert_eq!(r.message, "Todo reopened in issue P-1");
    assert!(tracker.updated_todo("P-1", &reopened, 9, false).is_err());
}

#[test]
fn added_todo_in_new_section_reads_back_open_and_trimmed() {
    let tracker = TodoTracker::new();
    let new_desc = add_todo_to_description("Just prose", "  Tidy up  ", true);
    assert_eq!(new_desc, "Just prose\n\n## Todos\n\n- [ ]   Tidy up  ");
    let r = tracker.added_todo("P-2", new_desc, true).unwrap();
    assert_eq!(r.todo.text, "Tidy up");
    assert!(!r.todo.completed);
    assert_eq!(r.todo.line_number, 4);
}
