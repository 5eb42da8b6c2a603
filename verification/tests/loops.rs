use my_claw::compact::{transcript_path, transcript_text, AutoCompactEvent};
use my_claw::config::ContextCompactConfig;
use my_claw::json::{parse_json, Json};
use my_claw::llm::usage::{ModelUsage, PromptCacheStats};
use my_claw::runtime::{
    compaction_note, record_answer, subagent_audit_id, subagent_messages, tool_result_content,
    LoopAction, MessageLoop,
};

fn json(source: &str) -> Json {
    parse_json(source).unwrap()
}

fn config(threshold: usize) -> ContextCompactConfig {
    ContextCompactConfig {
        enabled: true,
        auto_token_threshold: threshold,
        auto_preserve_recent_messages: 1,
        transcript_dir: "t".to_string(),
    }
}

#[test]
fn tools_are_run_until_the_model_answers() {
    let cfg = config(1_000_000);
    let mut messages = subagent_messages("sys", "do it");
    assert_eq!(messages[0].get_str("role"), Some("system"));
    let mut turn = MessageLoop::start(2).unwrap();
    assert!(matches!(turn.next(&messages, &cfg), LoopAction::AskModel));
    turn.on_reply(
        &mut messages,
        json(
            r#"{"role":"assistant","tool_calls":[
                {"id":"c1","function":{"name":"f","arguments":"{}"}},
                {"id":"c2","function":{"name":"g","arguments":"[]"}}
            ]}"#,
        ),
    );
    match turn.next(&messages, &cfg) {
        LoopAction::RunTool { tool_call_id, name, arguments } => assert_eq!(
            (tool_call_id.as_str(), name.as_str(), arguments.as_str()),
            ("c1", "f", "{}")
        ),
        other => panic!("{other:?}"),
    }
    turn.on_tool_result(&mut messages, &tool_result_content(Ok("one".to_string())));
    assert!(matches!(
        turn.next(&messages, &cfg),
        LoopAction::RunTool { name, .. } if name == "g"
    ));
    turn.on_tool_result(&mut messages, &tool_result_content(Err("bad".to_string())));
    assert_eq!(messages.len(), 5);
    assert_eq!(
        messages[4].to_compact_string(),
        r#"{"content":"tool_error: bad","role":"tool","tool_call_id":"c2"}"#
    );
    assert!(matches!(turn.next(&messages, &cfg), LoopAction::AskModel));
    turn.on_reply(&mut messages, json(r#"{"role":"assistant","content":" fine "}"#));
    assert!(matches!(turn.next(&messages, &cfg), LoopAction::Finish(s) if s == "fine"));
}

#[test]
fn turns_end_in_other_ways() {
    let cfg = config(1_000_000);
    assert_eq!(MessageLoop::start(0).unwrap_err(), "max_steps must be greater than 0");
    let mut messages = vec![];
    let mut turn = MessageLoop::start(1).unwrap();
    turn.on_reply(&mut messages, json(r#"{"content":null}"#));
    assert!(matches!(
        turn.next(&messages, &cfg),
        LoopAction::Finish(s) if s == "(model returned empty response)"
    ));
    let mut turn = MessageLoop::start(1).unwrap();
    turn.on_reply(
        &mut messages,
        json(r#"{"tool_calls":[{"id":"c","function":{"name":"f","arguments":"{}"}}]}"#),
    );
    turn.on_tool_result(&mut messages, "x");
    assert!(matches!(
        turn.next(&messages, &cfg),
        LoopAction::Fail(s) if s == "model/tool loop reached max steps (1) without final answer"
    ));
    for (call, problem) in [
        (r#"{}"#, "tool call id missing"),
        (r#"{"id":"c"}"#, "tool function payload missing"),
        (r#"{"id":"c","function":{}}"#, "tool function name missing"),
        (r#"{"id":"c","function":{"name":"f"}}"#, "tool function arguments missing"),
    ] {
        let mut turn = MessageLoop::start(1).unwrap();
        turn.on_reply(&mut messages, json(&format!(r#"{{"tool_calls":[{call}]}}"#)));
        assert!(matches!(turn.next(&messages, &cfg), LoopAction::Fail(s) if s == problem));
    }
}

#[test]
fn long_conversations_are_compacted_first() {
    let cfg = config(1);
    let mut messages: Vec<Json> = (0..6)
        .map(|i| {
            Json::empty_object()
                .with("role", Json::text(if i == 0 { "system" } else { "user" }))
                .with("content", Json::text("some long text of the conversation"))
        })
        .collect();
    let mut turn = MessageLoop::start(3).unwrap();
    let request = match turn.next(&messages, &cfg) {
        LoopAction::Summarise(request) => request,
        other => panic!("{other:?}"),
    };
    assert_eq!(request.len(), 7);
    let question = request[6].get_str("content").unwrap();
    assert!(question.starts_with("Compress the conversation above into a short summary"));
    assert!(question.ends_with("\nTRANSCRIPT END"));
    let event = turn
        .on_summary(
            &mut messages,
            &cfg,
            Ok(json(r#"{"role":"assistant","content":"short"}"#)),
            Some("t/x.jsonl".to_string()),
        )
        .unwrap();
    assert!(messages.len() < 6);
    assert_eq!(event.transcript_path.as_deref(), Some("t/x.jsonl"));
    assert!(matches!(turn.next(&messages, &cfg), LoopAction::AskModel));
    assert_eq!(
        compaction_note(&AutoCompactEvent {
            removed_messages: 4,
            estimated_tokens_before: 50,
            transcript_path: None,
        }),
        "info: auto compact triggered, removed 4 messages (estimated tokens: 50), transcript: <not saved>"
    );
}

#[test]
fn answers_are_counted() {
    let mut stats = PromptCacheStats::default();
    let usage = ModelUsage { output_tokens: 3, ..Default::default() };
    record_answer(&mut stats, &usage, false);
    record_answer(&mut stats, &usage, true);
    assert_eq!((stats.total_model_calls, stats.total_local_cache_hits), (1, 1));
    assert_eq!(stats.total_output_tokens, 3);
    assert_eq!(subagent_audit_id(17, 4), "17_4");
}

#[test]
fn transcripts_are_read_back() {
    let messages = vec![
        json(r#"{"role":"user","content":"one\ntwo"}"#),
        json(r#"{"role":"tool","content":"x","n":[1,{"y":null}]}"#),
    ];
    let text = transcript_text(&messages);
    let lines: Vec<Json> = text.lines().map(json).collect();
    assert_eq!(lines, messages);
    assert!(text.ends_with("}\n"));
    assert_eq!(transcript_text(&vec![]), "");
    assert_eq!(transcript_path(".transcripts", 12), ".transcripts/transcript_12.jsonl");
}
