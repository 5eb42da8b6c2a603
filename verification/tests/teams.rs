use my_claw::json::parse_json;
use my_claw::tools::task_registry::{TaskRegistry, TaskStatus};
use my_claw::tools::team::{
    check_huddle, check_message, check_status_request, inbox_lines, message_line, normalize_member_name,
    read_inbox_json, render_task_context, team_huddle_json, truncate_preview, wait_is_over,
    MemberStatus, TaskBindingMode, TeamManager, TeamMessage, TeamState, WorkerAction, WorkerLoop,
};

fn message(from: &str, content: &str) -> TeamMessage {
    TeamMessage {
        msg_type: "message".to_string(),
        from: from.to_string(),
        content: content.to_string(),
        timestamp_unix_ms: 5,
    }
}

#[test]
fn teammates_are_spawned() {
    let mut manager = TeamManager::new(".team");
    assert_eq!(manager.config_path(), ".team/config.json");
    assert_eq!(manager.inbox_dir(), ".team/inbox");
    assert_eq!(manager.inbox_file("bob"), ".team/inbox/bob.jsonl");
    let mut state = TeamState::empty();
    let mut tasks = TaskRegistry::new();
    tasks.start_task(Some("t1"), "p", 1).unwrap();

    let strict = TaskBindingMode::Strict;
    let lax = TaskBindingMode::BestEffort;
    let bob = manager
        .spawn_teammate(&mut state, &mut tasks, " bob ", " coder ", " go ", Some(" t1 "), strict, 7)
        .unwrap();
    assert_eq!(bob.response, "spawned teammate 'bob' with role 'coder' (bound to task 't1')");
    assert_eq!((bob.name.as_str(), bob.prompt.as_str()), ("bob", "go"));
    assert_eq!(tasks.get("t1").unwrap().assigned_teammate.as_deref(), Some("bob"));
    assert_eq!(state.members[0].status, MemberStatus::Working);
    assert_eq!(state.members[0].created_at_unix_ms, 7);
    manager.add_worker("bob");

    let eve = manager
        .spawn_teammate(&mut state, &mut tasks, "eve", "tester", "", Some("no"), lax, 8)
        .unwrap();
    assert_eq!(
        eve.response,
        "spawned teammate 'eve' with role 'tester'; task_id 'no' not found; continuing without task binding"
    );
    let mut fails = |name: &str, role: &str, task: Option<&str>| {
        manager
            .spawn_teammate(&mut state, &mut tasks, name, role, "", task, strict, 9)
            .unwrap_err()
    };
    assert_eq!(fails("bob", "x", None), "teammate 'bob' already exists");
    assert_eq!(fails("eve", "x", None), "teammate 'eve' already exists");
    assert_eq!(fails("new", " ", None), "teammate role cannot be empty");
    assert_eq!(fails("a b", "x", None), "member name can only contain letters, digits, '_' or '-'");
    assert_eq!(fails("new", "x", Some("no")), "task_id 'no' not found (validation_mode=strict)");
    assert_eq!(fails("new", "x", Some(" ")), "task_id cannot be empty when provided");
    assert_eq!(state.members.len(), 2);

    assert!(!manager.shutdown_requested("bob"));
    assert_eq!(
        manager.shutdown_teammate(" bob ").unwrap(),
        "shutdown signal sent to teammate 'bob'"
    );
    assert!(manager.shutdown_requested("bob"));
    manager.remove_worker("bob");
    assert_eq!(
        manager.shutdown_teammate("bob").unwrap_err(),
        "teammate 'bob' not running"
    );
    state.update_member_status("eve", MemberStatus::Idle).unwrap();
    assert_eq!(state.members[1].status, MemberStatus::Idle);
    assert_eq!(
        state.update_member_status("zed", MemberStatus::Idle).unwrap_err(),
        "teammate 'zed' not found"
    );
    assert_eq!(normalize_member_name("").unwrap_err(), "member name cannot be empty");
}

#[test]
fn messages_are_sent() {
    let manager = TeamManager::new("t");
    let mut state = TeamState::empty();
    let mut tasks = TaskRegistry::new();
    for name in ["a", "b"] {
        manager
            .spawn_teammate(&mut state, &mut tasks, name, "r", "", None, TaskBindingMode::Strict, 1)
            .unwrap();
    }
    let sent = manager.send(" lead ", "a", " hi ", 5).unwrap();
    assert_eq!(sent.response, "sent message to 'a'");
    assert_eq!(sent.deliveries.len(), 1);
    assert_eq!(sent.deliveries[0].inbox_file, "t/inbox/a.jsonl");
    assert_eq!(
        message_line(&sent.deliveries[0].message),
        r#"{"type":"message","from":"lead","content":"hi","timestamp_unix_ms":5}"#
    );
    assert_eq!(manager.send("lead", "a", " ", 5).unwrap_err(), "message content cannot be empty");
    assert!(manager.send("", "a", "x", 5).is_err());
    let all = manager.broadcast(&state, "lead", "hi", 5).unwrap();
    assert_eq!(all.response, "broadcast message sent to 2 teammate(s)");
    assert_eq!(all.deliveries[1].inbox_file, "t/inbox/b.jsonl");
    assert_eq!(
        manager.broadcast(&state, "lead", "", 5).unwrap_err(),
        "message content cannot be empty"
    );
    assert_eq!(inbox_lines("a\n \n b\r\n\n"), vec!["a", " b"]);
    let mut inbox = String::new();
    let lines = vec![message_line(&message("x", "one\r\ntwo")), message_line(&message("y", "z"))];
    for line in &lines {
        inbox.push_str(line);
        inbox.push('\n');
    }
    assert_eq!(inbox_lines(&inbox), lines);
    assert_eq!(
        read_inbox_json(&vec![message("x", "y\n"), message("z", "w")]),
        "[\n  {\n    \"type\": \"message\",\n    \"from\": \"x\",\n    \"content\": \"y\\n\",\n    \"timestamp_unix_ms\": 5\n  },\n  {\n    \"type\": \"message\",\n    \"from\": \"z\",\n    \"content\": \"w\",\n    \"timestamp_unix_ms\": 5\n  }\n]"
    );
    assert_eq!(read_inbox_json(&vec![]), "[]");
}

#[test]
fn the_team_reports_its_status() {
    let mut manager = TeamManager::new("t");
    let mut state = TeamState::empty();
    let mut tasks = TaskRegistry::new();
    for (name, task) in [("a", Some("t1")), ("b", Some("t2")), ("c", Some("t3")), ("d", None)] {
        if let Some(task) = task {
            tasks.start_task(Some(task), "p", 1).unwrap();
        }
        manager
            .spawn_teammate(&mut state, &mut tasks, name, "r", "", task, TaskBindingMode::Strict, 1)
            .unwrap();
    }
    manager.add_worker("a");
    tasks.fail_task("t3", "bad", 2).unwrap();
    let status = manager.status_json(&state, Some(&tasks));
    let report = parse_json(&status).unwrap();
    assert_eq!(report.get_str("team_dir"), Some("t"));
    assert_eq!(report.get_str("inbox_dir"), Some("t/inbox"));
    assert_eq!(report.get("active_workers").unwrap().to_compact_string(), r#"["a"]"#);
    assert_eq!(
        report.get("task_snapshot_summary").unwrap().to_compact_string(),
        r#"{"completed":0,"failed":1,"running":2,"unavailable":1}"#
    );
    let todo = report.get_array("todo_projection").unwrap();
    let shown: Vec<_> = todo.iter().map(|t| t.get_str("status").unwrap()).collect();
    assert_eq!(shown, vec!["in_progress", "pending", "pending"]);
    assert_eq!(
        todo[0].to_compact_string(),
        r#"{"content":"teammate 'a' task","id":"t1","source":{"active":true,"task_id":"t1","task_status":"running","teammate":"a"},"status":"in_progress"}"#
    );
    let snapshots = report.get_array("task_snapshots").unwrap();
    assert_eq!(
        snapshots[3].to_compact_string(),
        r#"{"snapshot":{"available":false,"reason":"no task bound"},"task_id":null,"teammate":"d"}"#
    );
    assert_eq!(
        snapshots[2].get("snapshot").unwrap().to_compact_string(),
        r#"{"assigned_teammate":"c","available":true,"error":"bad","is_terminal":true,"result_preview":null,"status":"failed","task_id":"t3","updated_at_unix_ms":2}"#
    );
    let blind = parse_json(&manager.status_json(&state, None)).unwrap();
    assert_eq!(
        blind.get_array("task_snapshots").unwrap()[0].get("snapshot").unwrap().to_compact_string(),
        r#"{"available":false,"reason":"task registry unavailable"}"#
    );
    let huddle = team_huddle_json(&vec!["s".to_string()], &vec![message("a", "b")], &status);
    let huddle = parse_json(&huddle).unwrap();
    assert_eq!(huddle.get("spawned").unwrap().to_compact_string(), r#"["s"]"#);
    assert_eq!(huddle.get("status"), Some(&report));
    let broken = parse_json(&team_huddle_json(&vec![], &vec![], "{")).unwrap();
    assert_eq!(
        broken.get("status").unwrap().to_compact_string(),
        r#"{"status":"unavailable"}"#
    );
    assert!(check_huddle(1).is_ok());
    assert_eq!(check_huddle(0).unwrap_err(), "team_huddle requires at least one member");
    assert!(check_status_request(" {} ").is_ok());
    assert_eq!(
        check_status_request("[]").unwrap_err(),
        "team_status expects an object payload"
    );
    assert_eq!(check_status_request("").unwrap_err(), "invalid input JSON for team_status");
}

#[test]
fn waiting_ends() {
    let manager = TeamManager::new("t");
    let mut state = TeamState::empty();
    let mut tasks = TaskRegistry::new();
    manager
        .spawn_teammate(&mut state, &mut tasks, "a", "r", "", None, TaskBindingMode::Strict, 1)
        .unwrap();
    let names = vec!["a".to_string()];
    assert!(!wait_is_over(&state, &names, 5, 10));
    assert!(wait_is_over(&state, &names, 10, 10));
    assert!(wait_is_over(&state, &vec![], 5, 10));
    state.update_member_status("a", MemberStatus::Shutdown).unwrap();
    assert!(wait_is_over(&state, &names, 5, 10));
    assert!(!wait_is_over(&state, &vec!["other".to_string()], 5, 10));
}

#[test]
fn a_worker_does_its_assignment() {
    let mut tasks = TaskRegistry::new();
    tasks.start_task(Some("t1"), "p", 1).unwrap();
    tasks.bind_teammate("t1", "bob", 2).unwrap();
    let mut worker = WorkerLoop::new("bob", "coder", " go ", Some("t1".to_string()));
    match worker.next(&tasks) {
        WorkerAction::Send { from, to, content } => assert_eq!(
            (from.as_str(), to.as_str(), content.as_str()),
            ("system", "lead", "teammate 'bob' is online (role: coder)")
        ),
        other => panic!("{other:?}"),
    }
    worker.on_done();
    match worker.next(&tasks) {
        WorkerAction::Ask(prompt) => {
            assert!(prompt.starts_with("Team planning contract: "));
            assert!(prompt.contains(
                "\n\nTask context: id='t1', status='Running', assigned_teammate='bob', prompt='p'\n\n"
            ));
            assert!(prompt.ends_with(
                "You are teammate 'bob' with role 'coder'. Initial assignment:\ngo"
            ));
        }
        other => panic!("{other:?}"),
    }
    worker.on_answer(&mut tasks, Ok(" done ".to_string()), 3);
    assert_eq!(tasks.get("t1").unwrap().status, TaskStatus::Completed);
    assert_eq!(tasks.get("t1").unwrap().result_preview.as_deref(), Some("done"));
    assert!(matches!(
        worker.next(&tasks),
        WorkerAction::Send { from, to, content }
            if from == "bob" && to == "lead" && content == " done "
    ));
    worker.on_done();
    assert!(matches!(worker.next(&tasks), WorkerAction::SetStatus(MemberStatus::Idle)));
    worker.on_done();
    assert!(matches!(worker.next(&tasks), WorkerAction::Watch));
    worker.on_watch(false, &vec![]);
    assert!(matches!(worker.next(&tasks), WorkerAction::Sleep));
    worker.on_done();
    assert!(matches!(worker.next(&tasks), WorkerAction::Watch));
    worker.on_watch(false, &vec![message("lead", "more"), message("eve", "and")]);
    assert!(matches!(worker.next(&tasks), WorkerAction::SetStatus(MemberStatus::Working)));
    worker.on_done();
    match worker.next(&tasks) {
        WorkerAction::Ask(prompt) => assert!(prompt.ends_with(
            "Handle the inbox items below and return a concise, actionable response.\n\nfrom lead: more\nfrom eve: and\n"
        )),
        other => panic!("{other:?}"),
    }
    worker.on_answer(&mut tasks, Err("no net".to_string()), 4);
    assert_eq!(tasks.get("t1").unwrap().error.as_deref(), Some("no net"));
    assert!(matches!(
        worker.next(&tasks),
        WorkerAction::Send { content, .. }
            if content == "teammate 'bob' failed to handle inbox: no net"
    ));
    worker.on_done();
    assert!(matches!(worker.next(&tasks), WorkerAction::SetStatus(MemberStatus::Idle)));
    worker.on_done();
    worker.on_watch(true, &vec![]);
    assert!(matches!(worker.next(&tasks), WorkerAction::SetStatus(MemberStatus::Shutdown)));
    worker.on_done();
    assert!(matches!(
        worker.next(&tasks),
        WorkerAction::Send { from, content, .. }
            if from == "system" && content == "teammate 'bob' has shut down"
    ));
    worker.on_done();
    assert!(matches!(worker.next(&tasks), WorkerAction::Stop));
}

#[test]
fn a_worker_fails_its_assignment() {
    let mut tasks = TaskRegistry::new();
    tasks.start_task(Some("t1"), "p", 1).unwrap();
    let mut worker = WorkerLoop::new("bob", "coder", "go", Some("t1".to_string()));
    worker.on_done();
    worker.on_answer(&mut tasks, Err("no net".to_string()), 3);
    assert_eq!(tasks.get("t1").unwrap().status, TaskStatus::Failed);
    match worker.next(&tasks) {
        WorkerAction::Fail(failure) => {
            assert_eq!(failure, "initial assignment failed for teammate 'bob'");
            assert_eq!(
                worker.failure_note(&failure),
                "teammate 'bob' worker loop failed: initial assignment failed for teammate 'bob'"
            );
        }
        other => panic!("{other:?}"),
    }
    let mut idle = WorkerLoop::new("eve", "tester", " ", None);
    idle.on_done();
    assert!(matches!(idle.next(&tasks), WorkerAction::SetStatus(MemberStatus::Idle)));
    assert_eq!(render_task_context(&tasks, &None), "No task binding for this teammate.");
    assert_eq!(
        render_task_context(&tasks, &Some("z".to_string())),
        "Task binding requested ('z'), but task is not currently registered."
    );
    assert_eq!(truncate_preview(&"x".repeat(2_001)).len(), 2_000);
    assert_eq!(truncate_preview(" x "), "x");
}

#[test]
fn a_teammate_is_checked_before_it_joins() {
    let mut manager = TeamManager::new("t");
    let mut state = TeamState::empty();
    let mut tasks = TaskRegistry::new();
    tasks.start_task(Some("t1"), "p", 1).unwrap();
    let lax = TaskBindingMode::BestEffort;
    let ann = manager.check_teammate(&mut tasks, " ann ", " r ", " p ", Some("t1"), lax, 4).unwrap();
    assert_eq!((ann.name.as_str(), ann.role.as_str(), ann.prompt.as_str()), ("ann", "r", "p"));
    assert_eq!((ann.task_id.as_deref(), ann.note.as_deref()), (Some("t1"), None));
    assert_eq!(tasks.get("t1").unwrap().updated_at_unix_ms, 4);
    assert!(state.members.is_empty());
    let joined = state.join(ann, 6).unwrap();
    assert_eq!(joined.response, "spawned teammate 'ann' with role 'r' (bound to task 't1')");
    assert_eq!(state.members[0].created_at_unix_ms, 6);

    let again = manager.check_teammate(&mut tasks, "ann", "r", "", None, lax, 7).unwrap();
    assert_eq!(state.join(again, 8).unwrap_err(), "teammate 'ann' already exists");
    assert_eq!(state.members.len(), 1);
    manager.add_worker("ann");
    assert_eq!(
        manager.check_teammate(&mut tasks, "ann", "r", "", None, lax, 9).unwrap_err(),
        "teammate 'ann' already exists"
    );
    assert_eq!(
        check_message(" lead ", " hi ").unwrap(),
        ("lead".to_string(), "hi".to_string())
    );
    assert_eq!(check_message("", "").unwrap_err(), "member name cannot be empty");
    assert_eq!(check_message("lead", " ").unwrap_err(), "message content cannot be empty");
}

#[test]
fn late_times_are_kept() {
    let late = u128::from(u64::MAX) + 1;
    let manager = TeamManager::new("t");
    let mut state = TeamState::empty();
    let mut tasks = TaskRegistry::new();
    tasks.start_task(Some("t1"), "p", 1).unwrap();
    let strict = TaskBindingMode::Strict;
    manager.spawn_teammate(&mut state, &mut tasks, "a", "r", "", Some("t1"), strict, 2).unwrap();
    assert!(manager.can_show_status(&state, Some(&tasks)));
    tasks.bind_teammate("t1", "a", late).unwrap();
    assert!(!manager.can_show_status(&state, Some(&tasks)));
    assert!(manager.can_show_status(&state, None));
    assert!(!tasks.get("t1").unwrap().is_timely());
    manager.spawn_teammate(&mut state, &mut tasks, "b", "r", "", None, strict, late).unwrap();
    assert!(!state.members[1].is_timely());
    assert!(!manager.can_show_status(&state, None));

    let sent = manager.send("lead", "a", "hi", late).unwrap().deliveries.remove(0).message;
    assert!(!sent.is_timely());
    assert_eq!(
        message_line(&sent),
        r#"{"type":"message","from":"lead","content":"hi","timestamp_unix_ms":18446744073709551616}"#
    );
    assert_eq!(
        read_inbox_json(&vec![sent]),
        "[\n  {\n    \"type\": \"message\",\n    \"from\": \"lead\",\n    \"content\": \"hi\",\n    \"timestamp_unix_ms\": 18446744073709551616\n  }\n]"
    );
}
