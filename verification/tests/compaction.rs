use my_claw::compact::{
    adjust_keep_from_to_tool_boundary, auto_compact_if_needed, build_messages_after_compaction,
    compact_continuation_message, compact_summary_request, compress_summary,
    extract_existing_compacted_summary, merge_compact_summaries, plan_auto_compact,
    remove_orphan_tool_messages, SummaryCompressionBudget,
};
use my_claw::config::ContextCompactConfig;
use my_claw::json::{parse_json, Json};

fn json(source: &str) -> Json {
    parse_json(source).expect("valid JSON")
}

fn message(role: &str, content: &str) -> Json {
    Json::empty_object()
        .with("role", Json::text(role))
        .with("content", Json::text(content))
}

fn tool_call() -> Json {
    json(
        r#"{
            "role": "assistant",
            "tool_calls": [
                {
                    "id": "call_1",
                    "function": { "name": "read_file", "arguments": "{}" }
                }
            ]
        }"#,
    )
}

fn tool_result(id: &str, content: &str) -> Json {
    message("tool", content).with("tool_call_id", Json::text(id))
}

fn config(threshold: usize, preserve: usize) -> ContextCompactConfig {
    ContextCompactConfig {
        enabled: true,
        auto_token_threshold: threshold,
        auto_preserve_recent_messages: preserve,
        transcript_dir: ".transcripts".to_string(),
    }
}

#[test]
fn auto_compact_plan_ignores_large_tool_content_below_overall_threshold() {
    let messages = vec![
        message("system", "sys"),
        tool_call(),
        tool_result("call_1", &"x".repeat(10_000)),
        message("user", "keep"),
    ];
    assert!(plan_auto_compact(&messages, &config(100_000, 2)).is_none());
}

#[test]
fn removes_orphan_tool_messages() {
    let mut messages = vec![
        message("system", "summary"),
        tool_result("old_call", "orphan"),
        message("user", "continue"),
    ];
    let removed = remove_orphan_tool_messages(&mut messages);
    assert_eq!(removed, 1);
    assert_eq!(messages.len(), 2);
    assert_eq!(messages[1].get_str("role"), Some("user"));
}

#[test]
fn keeps_valid_tool_call_pairs() {
    let mut messages = vec![
        tool_call(),
        tool_result("call_1", "result"),
        message("user", "continue"),
    ];
    let removed = remove_orphan_tool_messages(&mut messages);
    assert_eq!(removed, 0);
    assert_eq!(messages.len(), 3);
}

#[test]
fn compact_boundary_moves_before_tool_pair() {
    let messages = vec![
        message("system", "sys"),
        message("user", "old"),
        tool_call(),
        tool_result("call_1", "result"),
        message("user", "new"),
    ];
    assert_eq!(adjust_keep_from_to_tool_boundary(&messages, 3), 2);
}

#[test]
fn compact_plan_preserves_tool_call_pair_at_tail_boundary() {
    let messages = vec![
        message("system", "sys"),
        message("user", &"old ".repeat(200)),
        tool_call(),
        tool_result("call_1", &"result ".repeat(200)),
        message("user", "recent"),
    ];
    let plan = plan_auto_compact(&messages, &config(1, 2)).expect("plan should compact");
    assert_eq!(plan.keep_from, 2);

    let compacted = build_messages_after_compaction(&messages, &plan, "summary");
    assert_eq!(compacted.len(), 4);
    assert_eq!(compacted[1].get_str("role"), Some("assistant"));
    assert!(compacted[1].get("tool_calls").is_some());
    assert_eq!(compacted[2].get_str("role"), Some("tool"));
}

#[test]
fn compact_plan_skips_existing_summary_when_checking_threshold() {
    let messages = vec![
        message("system", &compact_continuation_message(&"old ".repeat(10_000))),
        message("user", "tiny"),
        message("assistant", "small"),
    ];
    assert!(plan_auto_compact(&messages, &config(100, 1)).is_none());
}

#[test]
fn repeated_compaction_merges_existing_and_new_summary() {
    let existing =
        "- Scope: previous interview outline.\n- Current work: discuss module boundaries.";
    let messages = vec![
        message("system", &compact_continuation_message(existing)),
        message("user", &"old question ".repeat(200)),
        message("assistant", &"old answer ".repeat(200)),
        message("user", "recent"),
    ];
    let plan = plan_auto_compact(&messages, &config(1, 1)).expect("plan should compact");
    assert_eq!(plan.compacted_prefix_len, 1);
    assert_eq!(plan.removed_messages, 2);

    let existing_summary = messages.first().and_then(extract_existing_compacted_summary);
    let merged = merge_compact_summaries(
        existing_summary.as_deref(),
        "- Scope: new interview content.\n- Tools mentioned: read_file.",
    );
    let compacted = build_messages_after_compaction(&messages, &plan, &merged);
    let content = compacted[0].get_str("content").unwrap();

    assert!(content.contains("- Previously compacted context:"));
    assert!(content.contains("- Newly compacted context:"));
    assert!(content.contains("previous interview outline"));
    assert!(content.contains("new interview content"));
    assert_eq!(compacted[1].get_str("content"), Some("recent"));
}

#[test]
fn summary_compression_dedupes_and_keeps_core_details() {
    let summary = [
        "Conversation summary:",
        "- Scope:   compact   earlier   messages.",
        "- Scope: compact earlier messages.",
        "- Current work: finish summary compression.",
        "- Key files referenced: src/compact.rs.",
        "- Tools mentioned: read_file, grep_search.",
        "- Key timeline:",
        "  - user: asked for a working implementation.",
        "  - assistant: inspected runtime compaction flow.",
    ]
    .join("\n");

    let compressed = compress_summary(
        &summary,
        SummaryCompressionBudget { max_chars: 260, max_lines: 6, max_line_chars: 80 },
    );

    assert!(compressed.contains("Conversation summary:"));
    assert!(compressed.contains("- Scope: compact earlier messages."));
    assert_eq!(compressed.matches("- Scope: compact earlier messages.").count(), 1);
    assert!(compressed.contains("- Current work: finish summary compression."));
    assert!(compressed.contains("- Key files referenced: src/compact.rs."));
    assert!(compressed.contains("- Tools mentioned: read_file, grep_search."));
}

fn long_conversation() -> Vec<Json> {
    vec![
        message("system", "sys"),
        message("user", &"u".repeat(800)),
        message("assistant", &"a".repeat(800)),
        tool_result("call_1", &"t".repeat(800)),
        message("user", "keep me"),
    ]
}

#[test]
fn auto_compacts_when_threshold_crossed() {
    let cfg = ContextCompactConfig {
        enabled: true,
        auto_token_threshold: 100,
        auto_preserve_recent_messages: 2,
        transcript_dir: ".transcripts_test".to_string(),
    };
    let mut messages = long_conversation();
    assert!(compact_summary_request(&messages, &cfg).is_some());
    let unreachable_model = Err("failed to call LLM API".to_string());
    let result = auto_compact_if_needed(&mut messages, &cfg, unreachable_model, None);
    assert!(result.is_none());
    assert_eq!(messages, long_conversation());
}

#[test]
fn answers_are_kept_in_any_order() {
    let calls = json(
        r#"{
            "role": "assistant",
            "tool_calls": [
                { "id": "a", "function": { "name": "f", "arguments": "{}" } },
                { "id": "b", "function": { "name": "g", "arguments": "{}" } }
            ]
        }"#,
    );
    let mut messages = vec![
        message("user", "go"),
        calls,
        tool_result("b", "second"),
        tool_result("a", "first"),
        message("assistant", "done"),
    ];
    assert_eq!(remove_orphan_tool_messages(&mut messages), 0);
    assert_eq!(messages.len(), 5);
    assert!(messages[1].get("tool_calls").is_some());
    messages.remove(3);
    assert_eq!(remove_orphan_tool_messages(&mut messages), 0);
    assert_eq!(messages.len(), 4);
}

#[test]
fn cleaning_keeps_what_was_said() {
    let mut messages = vec![
        message("user", "go"),
        tool_call(),
        tool_result("other", "orphan"),
        message("assistant", "well"),
        tool_call(),
        tool_result("call_1", "result"),
        message("user", "and now"),
        tool_call(),
    ];
    assert_eq!(remove_orphan_tool_messages(&mut messages), 1);
    let unasked = || json(r#"{"role":"assistant"}"#);
    assert_eq!(
        messages,
        vec![
            message("user", "go"),
            unasked(),
            message("assistant", "well"),
            tool_call(),
            tool_result("call_1", "result"),
            message("user", "and now"),
            unasked(),
        ]
    );
}
