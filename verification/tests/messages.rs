use my_claw::json::{parse_json, Json};
use my_claw::web::messages::{
    base_trace_message, base_ui_message, flatten_messages, public_trace_message,
    visible_messages_only, UiMessageInput,
};

fn json(source: &str) -> Json {
    parse_json(source).expect("valid JSON")
}

#[test]
fn flatten_messages_keeps_only_user_and_final_assistant_replies() {
    let messages = vec![
        json(r#"{"role": "system", "content": "system"}"#),
        json(r#"{"role": "user", "content": "Explain the architecture"}"#),
        json(
            r#"{
                "role": "assistant",
                "content": "I will inspect the code first.",
                "tool_calls": [{
                    "id": "call_1",
                    "type": "function",
                    "function": {"name": "read_file", "arguments": "{\"path\":\"src/main.rs\"}"}
                }]
            }"#,
        ),
        json(r#"{"role": "tool", "tool_call_id": "call_1", "content": "file contents"}"#),
        json(r#"{"role": "assistant", "content": "Final architecture summary."}"#),
    ];

    let ui_messages = flatten_messages("session_test", &messages, 0, 1);

    assert_eq!(ui_messages.len(), 2);
    assert_eq!(ui_messages[0].kind, "user");
    assert_eq!(ui_messages[1].kind, "assistant");
    assert_eq!(ui_messages[1].content, "Final architecture summary.");
}

#[test]
fn visible_messages_filter_excludes_trace_messages() {
    let messages = vec![
        base_ui_message(UiMessageInput {
            session_id: "session_test",
            index: 0,
            role: "user",
            kind: "user",
            content: "hello".to_string(),
            created_at: 1,
            tool_name: None,
            tool_args: None,
            tool_output: None,
            turn_id: 1,
        }),
        base_trace_message(UiMessageInput {
            session_id: "session_test",
            index: 0,
            role: "assistant",
            kind: "tool_call",
            content: String::new(),
            created_at: 1,
            tool_name: Some("read_file".to_string()),
            tool_args: Some("{}".to_string()),
            tool_output: None,
            turn_id: 1,
        }),
    ];

    let visible = visible_messages_only(&messages);

    assert_eq!(visible.len(), 1);
    assert_eq!(visible[0].kind, "user");
}

#[test]
fn public_trace_message_strips_tool_result_output() {
    let message = base_trace_message(UiMessageInput {
        session_id: "session_test",
        index: 0,
        role: "tool",
        kind: "tool_result",
        content: String::new(),
        created_at: 1,
        tool_name: Some("read_file".to_string()),
        tool_args: Some(r#"{"path":"src/main.rs"}"#.to_string()),
        tool_output: Some("very large file contents".repeat(100)),
        turn_id: 1,
    });

    let public = public_trace_message(&message);

    assert_eq!(public.kind, "tool_result");
    assert_eq!(public.content, "completed");
    assert!(public.tool_output.is_none());
}
