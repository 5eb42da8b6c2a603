use my_claw::agents::{default_agent_kind, AgentKind};
use my_claw::json::{parse_json, Json};
use my_claw::llm::cache::PromptCache;
use my_claw::llm::openai::ChatCompletionResult;
use my_claw::llm::session::{ConversationSession, ConversationSessionSnapshot};
use my_claw::llm::usage::{ModelUsage, PromptCacheStats};

#[test]
fn prompt_cache_roundtrip() {
    let cache = PromptCache::new("prompt_cache_test");
    let request_key = "test-request";
    let response = ChatCompletionResult {
        message: parse_json(r#"{"role": "assistant", "content": "hello"}"#).unwrap(),
        usage: ModelUsage {
            input_tokens: 10,
            output_tokens: 5,
            prompt_cache_hit_tokens: 0,
            prompt_cache_miss_tokens: 0,
            cache_creation_input_tokens: 0,
            cache_read_input_tokens: 0,
            ..Default::default()
        },
        cached: false,
    };

    let stored = cache.store(request_key, &response, 1);
    assert_eq!(stored.path, cache.entry_path(request_key));
    let loaded = cache.lookup(Some(stored.entry)).expect("entry present");

    assert_eq!(loaded.message, response.message);
    assert_eq!(loaded.usage.input_tokens, response.usage.input_tokens);
    assert!(loaded.cached);
}

#[test]
fn new_session_uses_agent_specific_path() {
    let session = ConversationSession::new(
        AgentKind::ProgrammerInterview,
        "hello".to_string(),
        "system",
        "transcripts",
        42,
    );
    let expected = format!(
        "transcripts/programmer_interview/sessions/{}.json",
        session.snapshot().session_id
    );
    assert_eq!(session.path(), expected);
    assert_eq!(session.snapshot().session_id, "session_42");
}

fn old_snapshot(schema_version: u32) -> ConversationSessionSnapshot {
    ConversationSessionSnapshot {
        schema_version,
        agent_kind: default_agent_kind(),
        session_id: "session_old".to_string(),
        created_at_unix_ms: 1,
        updated_at_unix_ms: 1,
        prompt_history: vec!["hello".to_string()],
        messages: vec![parse_json(r#"{"role": "system", "content": "system"}"#).unwrap()],
        prompt_cache_stats: PromptCacheStats::default(),
    }
}

#[test]
fn old_session_without_agent_kind_loads_as_materials_agent() {
    let session = ConversationSession::load(old_snapshot(1), "old.json").expect("load old session");
    assert_eq!(session.snapshot().agent_kind, AgentKind::InterviewMaterials);
    assert_eq!(session.snapshot().session_id, "session_old");
}

#[test]
fn session_of_another_version_is_refused() {
    let err = ConversationSession::load(old_snapshot(2), "old.json").unwrap_err();
    assert_eq!(err, "unsupported session schema version 2 in old.json");
}

#[test]
fn truncate_to_removes_cancelled_turn_messages_and_prompts() {
    let mut session =
        ConversationSession::new_empty(AgentKind::InterviewMaterials, "system", "transcripts", 7);
    let message_count = session.snapshot().messages.len();
    let prompt_count = session.snapshot().prompt_history.len();

    session.append_user_prompt("typo prompt".to_string(), Some(8));
    session.messages_and_prompt_cache_stats_mut().0.push(
        Json::empty_object()
            .with("role", Json::text("assistant"))
            .with("content", Json::text("partial answer")),
    );
    session.truncate_to(message_count, prompt_count, Some(9));

    assert_eq!(session.snapshot().messages.len(), message_count);
    assert_eq!(session.snapshot().prompt_history.len(), prompt_count);
    assert!(session
        .snapshot()
        .messages
        .iter()
        .all(|message| message.get_str("content") != Some("partial answer")));
    assert_eq!(session.snapshot().updated_at_unix_ms, 9);
}

#[test]
fn kept_session_is_loaded() {
    let mut session = ConversationSession::new(
        AgentKind::ProgrammerInterview,
        "hello".to_string(),
        "system",
        "transcripts",
        42,
    );
    session.append_user_prompt("more".to_string(), Some(43));
    session.truncate_to(2, 1, None);
    let loaded = ConversationSession::load(session.snapshot().clone(), session.path()).unwrap();
    assert_eq!(loaded.path(), session.path());
    assert_eq!(loaded.snapshot().messages, session.snapshot().messages);
    assert_eq!(loaded.snapshot().prompt_history, vec!["hello"]);
    assert_eq!(loaded.snapshot().updated_at_unix_ms, 43);
}
