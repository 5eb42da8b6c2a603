use my_claw::json::{parse_json, Json};
use my_claw::tools::task::{
    begin_task, can_list_tasks, finish_task, task_get, task_list, task_output, truncate_summary,
};
use my_claw::tools::task_registry::{normalize_task_id, TaskRegistry, TaskStatus};
use my_claw::tools::todo_write::{
    has_persisted_active_todos, resolve_store_path, validate_todos, verify_nudge_needed, TodoItem,
    TodoManager, TodoStatus,
};

fn json(source: &str) -> Json {
    parse_json(source).unwrap()
}

#[test]
fn tasks_are_started_and_ended() {
    let mut tasks = TaskRegistry::new();
    assert_eq!(tasks.start_task(Some(" own "), "p", 30).unwrap(), "own");
    assert_eq!(tasks.start_task(None, "q", 20).unwrap(), "task-1");
    assert_eq!(tasks.start_task(None, "r", 10).unwrap(), "task-2");
    assert_eq!(
        tasks.start_task(Some("own"), "p", 1).unwrap_err(),
        "task id 'own' already exists"
    );
    assert_eq!(normalize_task_id("").unwrap_err(), "task_id cannot be empty");
    assert!(tasks.start_task(Some("a b"), "p", 1).is_err());

    tasks.complete_task("own", "done", 40).unwrap();
    tasks.fail_task("task-1", "broke", 50).unwrap();
    tasks.bind_teammate("task-2", "bob", 60).unwrap();
    let own = tasks.get("own").unwrap();
    assert_eq!(own.status, TaskStatus::Completed);
    assert_eq!(own.result_preview.as_deref(), Some("done"));
    assert_eq!((own.created_at_unix_ms, own.updated_at_unix_ms), (30, 40));
    let failed = tasks.get("task-1").unwrap();
    assert_eq!(failed.error.as_deref(), Some("broke"));
    assert_eq!(failed.result_preview, None);
    assert_eq!(tasks.get("task-2").unwrap().assigned_teammate.as_deref(), Some("bob"));
    assert_eq!(tasks.complete_task("none", "x", 1).unwrap_err(), "task 'none' not found");
    assert_eq!(tasks.fail_task("none", "x", 1).unwrap_err(), "task 'none' not found");
    assert_eq!(tasks.bind_teammate("none", "x", 1).unwrap_err(), "task 'none' not found");
    assert!(tasks.has_task("own") && !tasks.has_task("none"));
    assert!(tasks.get("none").is_none());

    let ids = |records: Vec<my_claw::tools::task_registry::TaskRecord>| {
        records.into_iter().map(|r| r.id).collect::<Vec<_>>()
    };
    assert_eq!(ids(tasks.all_tasks()), vec!["task-2", "task-1", "own"]);
    let over = vec![TaskStatus::Completed, TaskStatus::Failed];
    assert_eq!(ids(tasks.list_tasks(Some(&over), None)), vec!["task-1", "own"]);
    assert_eq!(ids(tasks.list_tasks(Some(&over), Some(1))), vec!["task-1"]);
}

#[test]
fn task_ids_are_used_up_by_failed_starts() {
    let mut tasks = TaskRegistry::new();
    tasks.start_task(Some("task-1"), "p", 1).unwrap();
    assert_eq!(tasks.start_task(None, "q", 2).unwrap_err(), "task id 'task-1' already exists");
    assert_eq!(tasks.start_task(None, "q", 2).unwrap(), "task-2");
}

#[test]
fn the_task_tool_reports() {
    let mut tasks = TaskRegistry::new();
    assert_eq!(
        begin_task(&mut tasks, "  ", None, 1).unwrap_err(),
        "task prompt cannot be empty"
    );
    let started = begin_task(&mut tasks, " look ", None, 1).unwrap();
    assert_eq!(started.task_id, "task-1");
    assert!(started.prompt.starts_with("Planning contract: "));
    assert!(started.prompt.ends_with("\n\nSubtask:\nlook"));
    assert_eq!(tasks.get("task-1").unwrap().prompt, "look");
    let output = finish_task(&mut tasks, "task-1", Ok(" found ".to_string()), 2).unwrap();
    assert_eq!(
        output,
        "{\n  \"status\": \"completed\",\n  \"summary\": \"found\",\n  \"task_id\": \"task-1\"\n}"
    );
    let started = begin_task(&mut tasks, "x", Some("t2"), 3).unwrap();
    assert_eq!(
        finish_task(&mut tasks, &started.task_id, Err("no net".to_string()), 4).unwrap_err(),
        "subagent execution failed for task 't2': no net"
    );
    assert_eq!(tasks.get("t2").unwrap().error.as_deref(), Some("no net"));
    assert_eq!(
        begin_task(&mut tasks, "x", Some("t2"), 3).unwrap_err(),
        "failed to register task"
    );
    assert_eq!(truncate_summary(" \n"), "(no summary)");
    assert_eq!(truncate_summary(&"\u{e9}".repeat(50_001)).chars().count(), 50_000);
}

#[test]
fn tasks_are_queried() {
    let mut tasks = TaskRegistry::new();
    tasks.start_task(Some("a"), "do a", 1).unwrap();
    tasks.start_task(Some("b"), "do b", 2).unwrap();
    tasks.complete_task("b", "ok", 5).unwrap();

    let found = json(&task_get(&tasks, " a ").unwrap());
    assert_eq!(
        found.to_compact_string(),
        r#"{"ok":true,"task":{"assigned_teammate":null,"created_at_unix_ms":1,"error":null,"has_output":false,"is_terminal":false,"prompt":"do a","result_preview":null,"status":"running","task_id":"a","updated_at_unix_ms":1}}"#
    );
    assert_eq!(
        json(&task_output(&tasks, "b").unwrap()).to_compact_string(),
        r#"{"ok":true,"output":{"error":null,"has_output":true,"output":"ok","output_truncated":true,"preview":"ok","truncated":true},"status":"completed","task_id":"b"}"#
    );
    let missing = r#"{"error":{"code":"task_not_found","message":"task 'z' not found","task_id":"z"},"ok":false}"#;
    assert_eq!(json(&task_get(&tasks, "z").unwrap()).to_compact_string(), missing);
    assert_eq!(json(&task_output(&tasks, "z").unwrap()).to_compact_string(), missing);
    assert_eq!(task_get(&tasks, " ").unwrap_err(), "task_id cannot be empty");
    assert_eq!(task_output(&tasks, "").unwrap_err(), "task_id cannot be empty");

    let listed = json(&task_list(&tasks, &vec![TaskStatus::Completed], Some(200)).unwrap());
    assert_eq!(listed.get_u64("count"), Some(1));
    assert_eq!(
        listed.get("by_status").unwrap().to_compact_string(),
        r#"{"completed":1,"failed":0,"running":1}"#
    );
    let rows = listed.get_array("tasks").unwrap();
    assert_eq!(rows[0].get_str("task_id"), Some("b"));
    assert!(rows[0].get("prompt").is_none());
    let all = json(&task_list(&tasks, &vec![], None).unwrap());
    assert_eq!(all.get_u64("count"), Some(2));
    for limit in [0, 201] {
        assert_eq!(
            task_list(&tasks, &vec![], Some(limit)).unwrap_err(),
            "limit must be between 1 and 200"
        );
    }
    tasks.fail_task("a", "late", u128::from(u64::MAX) + 1).unwrap();
    assert!(can_list_tasks(&tasks, &vec![TaskStatus::Completed], None));
    assert!(!can_list_tasks(&tasks, &vec![], None));
    assert!(can_list_tasks(&tasks, &vec![], Some(0)));
}

fn todo(content: &str, status: TodoStatus) -> TodoItem {
    TodoItem { id: None, content: content.to_string(), status }
}

#[test]
fn plans_are_checked() {
    assert!(validate_todos(&vec![]).is_ok());
    assert!(validate_todos(&vec![todo("a", TodoStatus::InProgress), todo("b", TodoStatus::Pending)]).is_ok());
    assert_eq!(
        validate_todos(&vec![todo("a", TodoStatus::InProgress), todo("b", TodoStatus::InProgress)]).unwrap_err(),
        "at most one todo item can be in_progress"
    );
    assert_eq!(
        validate_todos(&vec![todo(" ", TodoStatus::Pending)]).unwrap_err(),
        "todo content cannot be empty"
    );
    let many = || (0..21).map(|_| todo("x", TodoStatus::Pending)).collect::<Vec<_>>();
    assert_eq!(
        validate_todos(&many()).unwrap_err(),
        "too many todo items: 21 (max: 20)"
    );
    assert!(verify_nudge_needed(&vec![todo("write", TodoStatus::Completed)]));
    assert!(!verify_nudge_needed(&vec![todo("Run TESTS", TodoStatus::Completed)]));
    assert!(!verify_nudge_needed(&vec![todo("write", TodoStatus::Pending)]));
    assert!(!verify_nudge_needed(&vec![]));
}

#[test]
fn plans_are_stored_and_restored() {
    let mut manager = TodoManager::new(None, "todos.json".to_string());
    assert!(manager.todos().is_empty());
    let update = manager
        .plan_update(vec![todo("a", TodoStatus::Completed), todo("b", TodoStatus::InProgress)])
        .unwrap();
    assert_eq!(update.to_store().unwrap().len(), 2);
    let report = json(&manager.update(update));
    assert_eq!(report.get_str("summary"), Some("Todo list updated: 1/2 completed"));
    assert_eq!(
        report.get("stats").unwrap().to_compact_string(),
        r#"{"active":1,"completed":1,"total":2}"#
    );
    assert_eq!(report.get("old_todos").unwrap().to_compact_string(), "[]");
    assert_eq!(
        report.get("new_todos").unwrap().to_compact_string(),
        r#"[{"content":"a","id":null,"status":"completed"},{"content":"b","id":null,"status":"in_progress"}]"#
    );
    assert_eq!(report.get_str("store_path"), Some("todos.json"));
    assert_eq!(report.get("verification_nudge_needed"), Some(&Json::Bool(false)));
    assert_eq!(manager.todos().len(), 2);
    assert!(manager.plan_update(vec![todo("", TodoStatus::Pending)]).is_err());

    let done = manager.plan_update(vec![todo("a", TodoStatus::Completed)]).unwrap();
    assert!(done.to_store().is_none());
    let report = json(&manager.update(done));
    assert_eq!(report.get("verification_nudge_needed"), Some(&Json::Bool(true)));
    assert_eq!(report.get_array("old_todos").unwrap().len(), 2);

    let restored = TodoManager::new(Some(vec![todo("a", TodoStatus::Pending)]), "p".to_string());
    assert_eq!(restored.todos()[0].content, "a");
    let broken = vec![todo("a", TodoStatus::InProgress), todo("b", TodoStatus::InProgress)];
    assert!(TodoManager::new(Some(broken), "p".to_string()).todos().is_empty());
    assert!(has_persisted_active_todos(Some(vec![todo("a", TodoStatus::Pending)])));
    assert!(!has_persisted_active_todos(Some(vec![todo("a", TodoStatus::Completed)])));
    assert!(!has_persisted_active_todos(Some(vec![todo(" ", TodoStatus::Pending)])));
    assert!(!has_persisted_active_todos(None));
    assert_eq!(resolve_store_path(None), ".scribe-todos.json");
    assert_eq!(resolve_store_path(Some("  ".to_string())), ".scribe-todos.json");
    assert_eq!(resolve_store_path(Some(" x".to_string())), " x");
}
