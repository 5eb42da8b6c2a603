use my_claw::agents::AgentKind;
use my_claw::ask::{is_session_file, list_session_snapshots, AskApp};
use my_claw::json::{parse_json, Json};
use my_claw::llm::session::ConversationSession;
use my_claw::runtime::RuntimeEvent;
use my_claw::web::error::ErrorStatus;
use my_claw::web::live::{
    append_prompt_for_turn, roll_back_session, session_to_restore, snapshot_to_keep,
    status_from_str, LiveConversation, LiveSnapshot, LiveStatus,
};
use my_claw::web::messages::{
    flatten_messages, is_internal_seed_message, latest_assistant_content, new_pending_text,
    parse_render_blocks, pending_message_from_event, summary_title, PendingLiveMessage,
};
use my_claw::web::workflow::{
    allows_latest_materials_fallback, check_reset, check_submission, check_trace_request,
    default_workflow_snapshot, interview_phase_for_status, interview_status_for_session,
    materials_meta, materials_path, non_empty_prompt, parse_agent_kind, read_materials,
    report_meta, report_path, report_text, requested_session_id, selected_snapshot,
    session_for_interview, session_list_item, session_to_finish, unknown_session, FileFacts,
    InterviewStatus, LiveEvent, WorkflowFacts, BEGIN_PROMPT, FINISH_PROMPT, START_PROMPT,
};

const MATERIALS: AgentKind = AgentKind::InterviewMaterials;

fn json(source: &str) -> Json {
    parse_json(source).unwrap()
}

fn app() -> AskApp {
    AskApp::new(".transcripts".to_string())
}

#[test]
fn files_have_their_places() {
    let app = app();
    let dir = ".transcripts/interview_materials";
    assert_eq!(app.live_ui_snapshot_path(MATERIALS), format!("{dir}/live_ui_snapshot.json"));
    assert_eq!(app.workflow_snapshot_path(), ".transcripts/workflow_snapshot.json");
    assert_eq!(app.latest_materials_path(), format!("{dir}/latest_materials.md"));
    assert_eq!(app.session_materials_path("s"), format!("{dir}/materials/s.md"));
    assert_eq!(
        app.latest_report_path(),
        ".transcripts/programmer_interview/latest_evaluation_report.md"
    );
    assert_eq!(
        app.session_report_path("s"),
        ".transcripts/programmer_interview/reports/s.md"
    );
    assert_eq!(
        app.session_dirs(MATERIALS),
        vec![format!("{dir}/sessions"), ".transcripts/sessions".to_string()]
    );
    assert_eq!(app.session_dirs(AgentKind::ProgrammerInterview).len(), 1);
    let own = format!("{dir}/sessions/s.json");
    assert_eq!(app.session_path(MATERIALS, "s"), own);
    assert_eq!(app.session_path_to_load(MATERIALS, "s", true, true), own);
    assert_eq!(
        app.session_path_to_load(MATERIALS, "s", false, true),
        ".transcripts/sessions/s.json"
    );
    assert_eq!(app.session_path_to_load(MATERIALS, "s", false, false), own);
    assert_eq!(
        app.session_path_to_load(AgentKind::ProgrammerInterview, "s", false, true),
        ".transcripts/programmer_interview/sessions/s.json"
    );
    assert!(is_session_file("a/b.json") && !is_session_file("a/b.json.tmp"));
}

#[test]
fn sessions_are_listed_latest_first() {
    let app = app();
    let mut first = app.new_session(MATERIALS, "one".to_string(), 10);
    let second = app.new_session(MATERIALS, "two".to_string(), 20);
    let third = app.new_session(AgentKind::ProgrammerInterview, "three".to_string(), 30);
    first.append_user_prompt("again".to_string(), Some(40));
    let found = vec![
        second.snapshot().clone(),
        third.snapshot().clone(),
        first.snapshot().clone(),
    ];
    let listed = list_session_snapshots(&found, MATERIALS);
    let ids: Vec<_> = listed.iter().map(|s| s.session_id.as_str()).collect();
    assert_eq!(ids, vec!["session_10", "session_20"]);
}

#[test]
fn seeded_interviews_show_nothing() {
    let app = app();
    let session =
        app.new_seeded_interview_session("s1".to_string(), "# Notes", START_PROMPT.to_string(), 5);
    let snapshot = session.snapshot();
    assert_eq!(snapshot.messages.len(), 4);
    assert_eq!(
        snapshot.messages[1].get_str("content"),
        Some("Use the following interview materials as your only codebase context. Do not inspect the repository directly.\n\n---\n\n# Notes")
    );
    assert_eq!(snapshot.prompt_history, vec![START_PROMPT]);
    assert!(flatten_messages("s1", &snapshot.messages, 0, 5).is_empty());
    assert_eq!(summary_title(snapshot), "Live conversation");
    for prompt in [START_PROMPT, BEGIN_PROMPT, FINISH_PROMPT] {
        assert!(is_internal_seed_message(prompt), "{prompt}");
    }
    assert!(!is_internal_seed_message("Begin now, please."));
}

#[test]
fn texts_are_cut_into_blocks() {
    let blocks = |content: &str| {
        parse_render_blocks(content, "assistant")
            .into_iter()
            .map(|b| (b.block_type, b.content))
            .collect::<Vec<_>>()
    };
    let block = |kind: &str, content: &str| (kind.to_string(), content.to_string());
    assert_eq!(
        blocks("Intro\n```Mermaid\ngraph\n```\nmid\n```rust\nfn x() {}\n``` end "),
        vec![
            block("text", "Intro"),
            block("mermaid", "graph"),
            block("text", "mid"),
            block("code", "fn x() {}"),
            block("text", "end"),
        ]
    );
    assert_eq!(blocks("a ```b"), vec![block("text", "a"), block("text", "a ```b")]);
    assert_eq!(blocks("```x\ny"), vec![block("text", "```x\ny")]);
    assert_eq!(blocks(" "), vec![block("text", " ")]);
    let call = parse_render_blocks("```x", "tool_call");
    assert_eq!((call.len(), call[0].block_type.as_str()), (1, "tool_call"));
}

#[test]
fn events_become_messages() {
    let visible = pending_message_from_event(
        RuntimeEvent::AssistantMessage(json(r#"{"content":" hi "}"#)),
        3,
    );
    assert!(matches!(
        visible,
        Some(PendingLiveMessage::Visible(m)) if m.content == "hi" && m.kind == "assistant"
    ));
    let trace = pending_message_from_event(
        RuntimeEvent::AssistantMessage(json(r#"{"content":"hm","tool_calls":[1]}"#)),
        3,
    );
    assert!(matches!(
        trace,
        Some(PendingLiveMessage::Trace(m)) if m.kind == "assistant_trace"
    ));
    let empty = RuntimeEvent::AssistantMessage(json(r#"{"content":" "}"#));
    assert!(pending_message_from_event(empty, 3).is_none());
    let compaction = RuntimeEvent::Compaction {
        removed_messages: 2,
        estimated_tokens_before: 9,
        transcript_path: None,
    };
    assert!(matches!(
        pending_message_from_event(compaction, 3),
        Some(PendingLiveMessage::Trace(m)) if m.role == "system"
            && m.content == r#"{"estimated_tokens_before":9,"removed_messages":2,"transcript_path":null}"#
    ));
    let result = RuntimeEvent::ToolResult {
        tool_call_id: "c".to_string(),
        name: "f".to_string(),
        arguments: "{}".to_string(),
        result: "out".to_string(),
    };
    assert!(matches!(
        pending_message_from_event(result, 3),
        Some(PendingLiveMessage::Trace(m)) if m.role == "tool" && m.kind == "tool_result"
            && m.tool_output.as_deref() == Some("out") && m.content.is_empty()
    ));
}

fn started(live: &mut LiveConversation, prompt: &str, turn: u64) -> ConversationSession {
    let mut session = live
        .begin_turn()
        .unwrap()
        .unwrap_or_else(|| app().new_empty_session(MATERIALS, 100));
    let rollback = append_prompt_for_turn(&mut session, prompt, Some(101));
    let response = live.start_turn(&session, rollback, prompt, turn, 101);
    assert_eq!(response.status, "thinking");
    session
}

#[test]
fn a_turn_runs_through() {
    let mut live = LiveConversation::bootstrap(MATERIALS, None, None, None);
    assert_eq!(live.snapshot().title, "Interview material generator");
    assert_eq!(live.snapshot().status, "idle");
    let session = started(&mut live, "Explain the parser in great detail please", 7);
    let id = session.snapshot().session_id.clone();
    assert!(live.is_busy());
    assert_eq!(live.snapshot().title, "Explain the parser in great detail p");
    let conflict = live.begin_turn().unwrap_err();
    assert_eq!(conflict.status, ErrorStatus::Conflict);
    assert_eq!(conflict.message, "agent is still working on the current turn");
    assert!(live.ensure_not_busy().is_err());

    let shown = live
        .append_visible_message(&id, 7, new_pending_text("assistant", "assistant", "x".to_string(), 5))
        .unwrap();
    assert_eq!(shown.id, format!("{id}-1-assistant"));
    assert_eq!(shown.turn_id, format!("{id}-turn-7"));
    let trace = live
        .append_trace_message(&id, 7, new_pending_text("assistant", "assistant_trace", "t".to_string(), 5))
        .unwrap();
    assert_eq!(trace.id, format!("{id}-trace-7-0-assistant_trace"));
    assert_eq!(live.next_trace_index(), 1);
    let stray = new_pending_text("assistant", "assistant", "x".to_string(), 5);
    assert!(live.append_visible_message(&id, 8, stray).is_none());

    let finished = live.finish_turn(session, &id, 7, None).unwrap();
    assert_eq!(finished.status, "waiting_for_input");
    assert_eq!((finished.new_messages.len(), finished.total_message_count), (2, 2));
    assert_eq!(latest_assistant_content(&finished.new_messages).as_deref(), Some("x"));
    assert!(!live.is_busy());

    let session = started(&mut live, "more", 8);
    let failed = live.finish_turn(session, &id, 8, Some("no net".to_string())).unwrap();
    assert_eq!((failed.status.as_str(), failed.last_error.as_deref()), ("error", Some("no net")));
    assert_eq!((failed.new_messages.len(), failed.total_message_count), (1, 3));
}

#[test]
fn a_cancelled_turn_is_undone() {
    let mut live = LiveConversation::bootstrap(MATERIALS, None, None, None);
    let none = live.begin_cancel().unwrap_err();
    assert_eq!(none.message, "no active turn to cancel");
    let session = started(&mut live, "one", 1);
    let id = session.snapshot().session_id.clone();
    live.finish_turn(session, &id, 1, None).unwrap();

    let mut session = started(&mut live, "two", 2);
    let before = session.snapshot().messages.len();
    let turn = live.begin_cancel().unwrap();
    assert!(!live.is_active_turn(&id, 2));
    let late = new_pending_text("assistant", "assistant", "late".to_string(), 5);
    assert!(live.append_visible_message(&id, 2, late).is_none());
    roll_back_session(&mut session, &turn, Some(200));
    assert_eq!(session.snapshot().messages.len(), before - 1);
    let shown = live.finish_cancel(session, &id, 2);
    assert_eq!(shown.status, "waiting_for_input");
    assert_eq!(shown.messages.len(), 1);
    assert_eq!(shown.title, "one");
    assert!(live.begin_turn().is_ok());
}

#[test]
fn conversations_are_restored() {
    let session = || app().new_session(MATERIALS, "hello".to_string(), 10);
    let live = LiveConversation::bootstrap(MATERIALS, Some(session()), None, None);
    let shown = live.snapshot();
    assert_eq!(shown.session_id.as_deref(), Some("session_10"));
    assert_eq!((shown.status.as_str(), shown.messages.len()), ("waiting_for_input", 1));
    let kept = LiveSnapshot {
        title: "kept".to_string(),
        status: "error".to_string(),
        last_error: Some("e".to_string()),
        ..shown
    };
    let copy = snapshot_to_keep(&kept);
    let live = LiveConversation::bootstrap(MATERIALS, Some(session()), Some(kept), None);
    let shown = live.snapshot();
    assert_eq!((shown.title.as_str(), shown.status.as_str()), ("kept", "error"));
    assert_eq!(shown.last_error.as_deref(), Some("e"));
    let live = LiveConversation::bootstrap(MATERIALS, None, Some(copy), None);
    assert_eq!(live.snapshot().title, "Interview material generator");
    assert!(session_to_restore(None, None).is_none());
    assert_eq!(
        session_to_restore(None, Some(session())).unwrap().snapshot().session_id,
        "session_10"
    );
    for status in [
        LiveStatus::Idle,
        LiveStatus::Thinking,
        LiveStatus::WaitingForInput,
        LiveStatus::Error,
    ] {
        assert_eq!(status_from_str(status.as_str()), status);
    }
    assert_eq!(status_from_str("?"), LiveStatus::Idle);

    let mut live = LiveConversation::bootstrap(MATERIALS, Some(session()), None, None);
    assert!(live.select_session(None, None).unwrap().is_none());
    assert!(live.snapshot().session_id.is_none());
    let chosen = live.select_session(Some(session()), None).unwrap().unwrap();
    assert_eq!(chosen.title, "hello");
    let fresh = live.reset_to_new_session(app().new_empty_session(MATERIALS, 50));
    assert_eq!(fresh.session_id.as_deref(), Some("session_50"));
    assert_eq!(live.replace_session(session(), None).title, "hello");
}

#[test]
fn the_workflow_follows_the_files() {
    let missing = FileFacts { is_file: false, modified_ms: None };
    let file = FileFacts { is_file: true, modified_ms: Some(9) };
    assert!(allows_latest_materials_fallback(Some(1), true));
    assert!(!allows_latest_materials_fallback(Some(0), true));
    assert!(!allows_latest_materials_fallback(None, true));
    assert!(!allows_latest_materials_fallback(Some(1), false));
    let path = |own: Option<&str>, is_file, fallback| {
        materials_path(own.map(|p| p.to_string()), is_file, fallback, "latest".to_string())
    };
    assert_eq!(path(Some("own"), true, true), "own");
    assert_eq!(path(Some("own"), false, true), "latest");
    assert_eq!(path(Some("own"), false, false), "own");
    assert_eq!(path(None, false, false), "latest");
    assert_eq!(report_path(Some("own".to_string()), false, "latest".to_string()), "latest");
    assert_eq!(report_path(Some("own".to_string()), true, "latest".to_string()), "own");
    assert!(report_meta("p".to_string(), missing, 3).is_none());
    assert_eq!(report_meta("p".to_string(), file, 3).unwrap().updated_at, 9);
    let undated = FileFacts { is_file: true, modified_ms: None };
    assert_eq!(report_meta("p".to_string(), undated, 3).unwrap().updated_at, 3);

    let mut workflow =
        default_workflow_snapshot(materials_meta("m".to_string(), file), None);
    assert_eq!(workflow.interview_phase, "INIT");
    assert_eq!(workflow.available_agents.len(), 2);
    assert_eq!(workflow.available_agents[1].id, "programmer_interview");
    let facts = |interview: Option<&str>, reported| WorkflowFacts {
        materials_session_id: Some("s".to_string()),
        interview_session_id: interview.map(|s| s.to_string()),
        materials: materials_meta("m".to_string(), file),
        report: None,
        interview_report_exists: reported,
    };
    workflow.start_interview("s", materials_meta("m".to_string(), file), None);
    assert_eq!(workflow.interview_phase, "INTRODUCTION");
    workflow.refresh(facts(Some("s"), false));
    assert_eq!(workflow.interview_phase, "INTRODUCTION");
    workflow.mark_agent_turn(AgentKind::ProgrammerInterview);
    assert_eq!(workflow.interview_phase, "IN_PROGRESS");
    workflow.finish_interview();
    assert_eq!(workflow.interview_phase, "REPORT");
    assert_eq!(workflow.interview_status, InterviewStatus::InProgress);
    workflow.complete_interview("r.md", 77);
    assert_eq!(workflow.interview_status, InterviewStatus::Completed);
    assert_eq!(workflow.report.as_ref().unwrap().updated_at, 77);
    workflow.refresh(facts(Some("s"), true));
    assert_eq!(workflow.interview_status, InterviewStatus::Completed);
    workflow.mark_cancelled(MATERIALS);
    assert_eq!(workflow.active_agent, MATERIALS);
    workflow.refresh(facts(None, true));
    assert_eq!(workflow.interview_status, InterviewStatus::NotStarted);
    workflow.select_session(
        AgentKind::ProgrammerInterview,
        InterviewStatus::InProgress,
        "s2",
        Some("s2".to_string()),
        materials_meta("m".to_string(), missing),
        None,
    );
    assert_eq!(workflow.interview_phase, "IN_PROGRESS");
    workflow.reset_to_new_session("s3", materials_meta("m".to_string(), missing));
    assert_eq!(workflow.materials_session_id.as_deref(), Some("s3"));
    assert!(workflow.interview_session_id.is_none());
    assert_eq!(interview_status_for_session(true, false), InterviewStatus::Completed);
    assert_eq!(interview_status_for_session(false, true), InterviewStatus::InProgress);
    assert_eq!(interview_status_for_session(false, false), InterviewStatus::NotStarted);
    assert_eq!(interview_phase_for_status(InterviewStatus::Completed), "REPORT");
}

#[test]
fn requests_are_checked() {
    assert_eq!(parse_agent_kind("interview_materials").unwrap(), MATERIALS);
    let unknown = parse_agent_kind("x").unwrap_err();
    assert_eq!(unknown.status, ErrorStatus::BadRequest);
    assert_eq!(unknown.message, "unknown agent kind: x");
    assert_eq!(non_empty_prompt(" a ").unwrap(), "a");
    assert_eq!(non_empty_prompt(" ").unwrap_err().message, "prompt must not be empty");
    assert_eq!(requested_session_id(" s ").unwrap(), "s");
    assert_eq!(
        requested_session_id("").unwrap_err().message,
        "session_id must not be empty"
    );
    assert!(check_trace_request("s", "t").is_ok());
    assert_eq!(
        check_trace_request("s", " ").unwrap_err().message,
        "session_id and turn_id must not be empty"
    );
    assert_eq!(unknown_session("s").message, "unknown session_id: s");
    let empty = read_materials("p", Some(" \n".to_string())).unwrap_err();
    assert_eq!((empty.status, empty.message.as_str()), (ErrorStatus::Conflict, "interview materials file is empty"));
    assert_eq!(
        read_materials("p", None).unwrap_err().message,
        "interview materials not found at p"
    );
    assert_eq!(read_materials("p", Some("x".to_string())).unwrap(), "x");
    assert_eq!(
        session_for_interview(None).unwrap_err().message,
        "create or select a session before starting interview"
    );
    assert_eq!(
        session_to_finish(None).unwrap_err().message,
        "no interview session is in progress"
    );
    assert_eq!(
        check_submission(AgentKind::ProgrammerInterview, &None).unwrap_err().message,
        "start the interview before sending candidate answers"
    );
    assert!(check_submission(MATERIALS, &None).is_ok());
    assert!(check_submission(AgentKind::ProgrammerInterview, &Some("s".to_string())).is_ok());
    assert!(check_reset(false, false).is_ok());
    assert_eq!(check_reset(false, true).unwrap_err().status, ErrorStatus::Conflict);
    assert_eq!(report_text(&vec![]), "No evaluation report was produced.");
}

#[test]
fn sessions_and_events_are_shown() {
    let session = app().new_session(MATERIALS, "hello".to_string(), 10);
    let item = session_list_item(
        session.snapshot(),
        &Some("session_10".to_string()),
        true,
        true,
        false,
    );
    assert!(item.is_active && item.materials_exists && !item.report_exists);
    assert_eq!((item.prompt_count, item.message_count), (1, 2));
    assert_eq!(item.interview_status, InterviewStatus::InProgress);
    assert_eq!(item.title, "hello");
    let live = |kind| LiveConversation::bootstrap(kind, None, None, None).snapshot();
    let interviewer = AgentKind::ProgrammerInterview;
    let shown = selected_snapshot(interviewer, live(MATERIALS), Some(live(interviewer)));
    assert_eq!(shown.agent_kind, interviewer);
    assert_eq!(selected_snapshot(interviewer, live(MATERIALS), None).agent_kind, MATERIALS);
    assert_eq!(
        selected_snapshot(MATERIALS, live(MATERIALS), Some(live(interviewer))).agent_kind,
        MATERIALS
    );
    let event = LiveEvent::turn_cancelled(MATERIALS, live(MATERIALS), None);
    assert_eq!(event.event_type, "turn_cancelled");
    assert!(event.snapshot.is_some() && event.response.is_none());
    assert_eq!(LiveEvent::snapshot(MATERIALS, live(MATERIALS), None).event_type, "snapshot");
}
