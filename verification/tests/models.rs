use my_claw::agents::{default_agent_kind, AgentKind};
use my_claw::ask::ask_system_prompt;
use my_claw::config::{GithubConfig, GithubEnv, LlmConfig, LlmEnv};
use my_claw::json::{parse_json, Json};
use my_claw::llm::cache::PromptCache;
use my_claw::llm::openai::{
    append_audit_record, canonicalize_json, request_hash_hex, ChatCompletionResult, ChatOutcome,
    OpenAiCompatClient,
};
use my_claw::llm::usage::{ModelUsage, PromptCacheStats};
use my_claw::tools::registry::ToolDefinition;

fn env() -> LlmEnv {
    LlmEnv {
        llm_api_key: "key".to_string(),
        llm_base_url: None,
        llm_model: None,
        llm_write_model_audit_log: None,
        llm_model_audit_log_path: None,
        llm_enable_prompt_cache: None,
        llm_prompt_cache_dir: None,
        llm_context_compact_enabled: None,
        llm_auto_compact_token_threshold: None,
        llm_auto_compact_preserve_recent_messages: None,
        llm_context_compact_transcript_dir: None,
    }
}

fn client(env: LlmEnv) -> OpenAiCompatClient {
    OpenAiCompatClient::new(LlmConfig::from_env(env))
}

#[test]
fn settings_have_defaults() {
    let cfg = LlmConfig::from_env(env());
    assert_eq!(cfg.api_key, "key");
    assert_eq!(cfg.base_url, "https://api.openai.com/v1");
    assert_eq!(cfg.model, "gpt-4.1-mini");
    assert!(!cfg.write_model_audit_log);
    assert_eq!(cfg.model_audit_log_path, ".auditlog/llm_response_audit.json");
    assert!(cfg.context_compact.enabled);
    assert_eq!(cfg.context_compact.auto_token_threshold, 50_000);
    assert_eq!(cfg.context_compact.auto_preserve_recent_messages, 4);
    assert_eq!(cfg.context_compact.transcript_dir, ".transcripts");
    let slashes = LlmEnv { llm_base_url: Some("http://host//".to_string()), ..env() };
    assert_eq!(LlmConfig::from_env(slashes).base_url, "http://host");

    let github = GithubConfig::from_env(GithubEnv {
        github_username: "ada".to_string(),
        github_password: "secret".to_string(),
        github_pages_branch: None,
        github_pages_owner: None,
    });
    assert_eq!((github.owner.as_str(), github.repo.as_str()), ("ada", "ada.github.io"));
    assert_eq!(github.branch, "main");
}

#[test]
fn agents_are_told_apart() {
    for kind in AgentKind::ALL {
        assert_eq!(AgentKind::parse(kind.as_str()), Some(kind));
        assert_eq!(ask_system_prompt(None, kind), kind.system_prompt());
    }
    assert_eq!(AgentKind::parse("other"), None);
    assert_eq!(default_agent_kind(), AgentKind::InterviewMaterials);
    assert_eq!(AgentKind::ProgrammerInterview.title(), "Programmer interview agent");
    assert!(AgentKind::InterviewMaterials
        .system_prompt()
        .starts_with("You are an interview-material generation agent for programmer codebases.\n"));
    assert!(AgentKind::ProgrammerInterview
        .system_prompt()
        .ends_with("- recommended follow-up study areas\n"));
    assert_eq!(
        ask_system_prompt(Some("own".to_string()), AgentKind::InterviewMaterials),
        "own"
    );
}

#[test]
fn requests_are_hashed_in_canonical_form() {
    let value = parse_json(r#"{"b":1.5, "a":[1, true, null, "x\n"]}"#).unwrap();
    assert_eq!(canonicalize_json(&value), r#"{"a":[1,true,null,"x\n"],"b":1.5}"#);
    assert_eq!(
        request_hash_hex(&value),
        "732549db1363528e50d9943eb6ec6320623eecf0a92a3dee623f00ddc9ccc0ee"
    );
    assert_eq!(
        request_hash_hex(&Json::empty_object()),
        "44136fa355b3678a1146ad16f7e8649e94fb4fc21fe77e8310c060f61caaff8a"
    );
    assert_eq!(canonicalize_json(&Json::text("\"\u{e9}\\")), "\"\\\"\u{e9}\\\\\"");
}

fn user_messages() -> Vec<Json> {
    vec![parse_json(r#"{"role":"user","content":"hi"}"#).unwrap()]
}

#[test]
fn model_requests_are_built() {
    let client = client(env());
    let request = client.chat_request(&user_messages(), &vec![]);
    assert_eq!(request.url, "https://api.openai.com/v1/chat/completions");
    assert_eq!(
        request.body.to_compact_string(),
        r#"{"messages":[{"content":"hi","role":"user"}],"model":"gpt-4.1-mini","stream":false}"#
    );
    assert_eq!(
        request.request_hash,
        "c8ecda9ea424b1a22baffe8d5a092fc2115e7dcb2dc389670de4f75665654c17"
    );
    let tool = ToolDefinition {
        name: "t".to_string(),
        description: "d".to_string(),
        input_schema: Json::empty_object(),
    };
    let request = client.chat_request(&user_messages(), &vec![tool]);
    assert_eq!(request.body.get_str("tool_choice"), Some("auto"));
    assert_eq!(
        request.body.get("tools").unwrap().to_compact_string(),
        r#"[{"function":{"description":"d","name":"t","parameters":{}},"type":"function"}]"#
    );
}

#[test]
fn model_answers_are_read() {
    let client = client(env());
    let request = client.chat_request(&user_messages(), &vec![]);
    let answer = |outcome| client.create_chat_completion_with_audit_path(&request, outcome);
    let payload = || {
        parse_json(r#"{"choices":[{"message":{"role":"assistant","content":"yes"}},{}]}"#).unwrap()
    };
    let usage = ModelUsage { input_tokens: 3, ..Default::default() };

    let result = answer(ChatOutcome::Answered(payload(), Some(Ok(usage)))).unwrap();
    assert_eq!(result.message.get_str("content"), Some("yes"));
    assert_eq!(result.usage.input_tokens, 3);
    assert!(!result.cached);
    let result = answer(ChatOutcome::Answered(payload(), None)).unwrap();
    assert_eq!(result.usage, ModelUsage::default());

    assert_eq!(
        answer(ChatOutcome::Unreachable).unwrap_err(),
        "failed to call model api: url=https://api.openai.com/v1/chat/completions, model=gpt-4.1-mini (check network/proxy/LLM_API_KEY)"
    );
    assert_eq!(
        answer(ChatOutcome::Refused("500 Internal Server Error".to_string(), Some("x".to_string())))
            .unwrap_err(),
        "model api error (500 Internal Server Error): x"
    );
    assert_eq!(
        answer(ChatOutcome::Refused("404 Not Found".to_string(), None)).unwrap_err(),
        "model api error (404 Not Found): <no body>"
    );
    assert_eq!(
        answer(ChatOutcome::Undecodable).unwrap_err(),
        "failed to decode model api response"
    );
    for source in ["{}", r#"{"choices":[]}"#, r#"{"choices":[{}]}"#, r#"{"choices":{}}"#] {
        assert_eq!(
            answer(ChatOutcome::Answered(parse_json(source).unwrap(), None)).unwrap_err(),
            "model response missing choices[0].message"
        );
    }
    assert_eq!(
        answer(ChatOutcome::Answered(payload(), Some(Err("bad".to_string())))).unwrap_err(),
        "model response usage payload was invalid"
    );
}

#[test]
fn stored_answers_are_found_again() {
    let cache = PromptCache::new("cache");
    let response = ChatCompletionResult {
        message: Json::text("m"),
        usage: ModelUsage { output_tokens: 2, ..Default::default() },
        cached: false,
    };
    let stored = cache.store("k1", &response, 5);
    assert_eq!(stored.path, "cache/k1.json");
    assert_eq!(stored.temp_path, "cache/k1.json.tmp");
    assert_ne!(stored.path, cache.entry_path("k2"));
    assert_eq!(stored.entry.created_at_unix_ms, 5);
    assert!(cache.lookup(None).is_none());

    let client = client(LlmEnv {
        llm_enable_prompt_cache: Some(true),
        llm_prompt_cache_dir: Some("cache".to_string()),
        ..env()
    });
    assert_eq!(client.cache.as_ref().unwrap().dir, "cache");
    let request = client.chat_request(&user_messages(), &vec![]);
    let found = cache.lookup(Some(stored.entry)).unwrap();
    let found = client
        .create_chat_completion_with_audit_path(&request, ChatOutcome::Cached(found))
        .unwrap();
    assert!(found.cached);
    assert_eq!(found.message, Json::text("m"));
    assert_eq!(found.usage.output_tokens, 2);
}

#[test]
fn audit_logs_grow() {
    let client = client(LlmEnv { llm_write_model_audit_log: Some(true), ..env() });
    assert!(client.write_model_audit_log_enabled());
    assert_eq!(
        client.subagent_audit_log_path("7_1"),
        ".auditlog/subagents/llm_response_audit_subagent_7_1.json"
    );
    assert_eq!(
        client.audit_log_path(None).as_deref(),
        Some(".auditlog/llm_response_audit.json")
    );
    assert_eq!(client.audit_log_path(Some("other.json")).as_deref(), Some("other.json"));
    let request = Json::text("q");
    let response = Json::text("a");
    let first = append_audit_record("p", None, 1, &request, &response).unwrap();
    let again = append_audit_record("p", Some(&first), 2, &request, &response).unwrap();
    let records = parse_json(&again).unwrap();
    let records = records.as_array().unwrap();
    assert_eq!(records.len(), 2);
    assert_eq!(
        records[1].to_compact_string(),
        r#"{"event":"llm_exchange","request":"q","response":"a","ts_unix_ms":2}"#
    );
    assert_eq!(append_audit_record("p", Some(" \n"), 1, &request, &response).unwrap(), first);
    for bad in ["{}", "[", "null"] {
        assert_eq!(
            append_audit_record("p", Some(bad), 1, &request, &response).unwrap_err(),
            "failed to parse existing audit log: p"
        );
    }
}

#[test]
fn token_counts_add_up() {
    let usage = ModelUsage {
        input_tokens: 1,
        prompt_tokens: 2,
        output_tokens: 4,
        completion_tokens: 8,
        cache_creation_input_tokens: 16,
        cache_read_input_tokens: 32,
        prompt_cache_hit_tokens: 64,
        prompt_cache_miss_tokens: 128,
        total_tokens: 256,
    };
    assert_eq!((usage.cache_hit_tokens(), usage.cache_miss_tokens()), (96, 144));
    assert!(usage.has_cache_telemetry());
    let mut stats = PromptCacheStats::default();
    assert_eq!(
        stats.summary_line("", ""),
        "info: prompt cache stats: model_calls=0 (no cache telemetry returned yet)"
    );
    assert!(!stats.has_last_rate() && !stats.has_total_rate());
    assert!(stats.can_record(&usage));
    stats.record_usage(&usage);
    stats.record_usage(&usage);
    assert_eq!(
        (stats.total_model_calls, stats.total_input_tokens, stats.total_output_tokens),
        (2, 6, 24)
    );
    assert_eq!((stats.total_hit_tokens(), stats.total_miss_tokens()), (192, 288));
    assert_eq!((stats.last_hit_tokens(), stats.last_miss_tokens()), (96, 144));
    assert_eq!(
        stats.summary_line("40.0%", "41.0%"),
        "info: prompt cache stats: call_hit_tokens=96 call_miss_tokens=144 call_hit_rate=40.0% total_hit_tokens=192 total_miss_tokens=288 total_hit_rate=41.0% total_model_calls=2"
    );
    assert!(stats.has_last_rate() && stats.has_total_rate());
    stats.record_local_cache_hit();
    assert!(stats.last_local_cache_hit);
    assert_eq!(stats.total_local_cache_hits, 1);
    assert!(stats.summary_line("40.0%", "40.0%").ends_with(
        "total_model_calls=2 local_cache_hits=1 last_local_cache_hit=true local_cache_hits=1 last_local_cache_hit=true"
    ));
    let large = ModelUsage { input_tokens: u64::MAX, ..Default::default() };
    assert!(!stats.can_record(&large));
    stats.record_usage(&ModelUsage::default());
    assert!(!stats.has_last_rate() && stats.has_total_rate());
    assert_eq!(
        stats.summary_line("40.0%", "41.0%"),
        "info: prompt cache stats: call_hit_tokens=0 call_miss_tokens=0 call_hit_rate=n/a total_hit_tokens=192 total_miss_tokens=288 total_hit_rate=41.0% total_model_calls=3 local_cache_hits=1 last_local_cache_hit=false local_cache_hits=1 last_local_cache_hit=false"
    );
}
