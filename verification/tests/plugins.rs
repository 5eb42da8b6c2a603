use my_claw::json::{parse_json, Json};
use my_claw::tools::builtins::build_registry;
use my_claw::tools::mcp::{
    answer_to, decode_image_bytes, default_mermaid_server, frame_message, image_priority,
    mcp_launch, message_of_body, message_of_line, mime_extension, normalize_name,
    normalize_remote_transport, plan_graph_images, plugin_tools, qualified_name,
    tool_call_params, with_saved_files, HeaderReader, HeaderStep, McpServerConfig, McpSession,
    McpTool, McpToolsPage, NamedValue, ToolDiscovery, WireProtocol,
};
use my_claw::tools::registry::{GlobalToolRegistry, ToolAction, ToolDefinition, ToolHandler};
use my_claw::tools::task::{task_handler, task_query_handlers};
use my_claw::tools::team::team_tool_handlers;
use my_claw::{ask::agent_registries, tools::todo_write::todo_write_handler};

fn json(source: &str) -> Json {
    parse_json(source).unwrap()
}

fn handler(name: &str, number: usize) -> ToolHandler {
    ToolHandler::new(
        ToolDefinition {
            name: name.to_string(),
            description: String::new(),
            input_schema: Json::empty_object(),
        },
        ToolAction::Plugin(number),
    )
}

fn names(registry: &GlobalToolRegistry) -> Vec<String> {
    registry.definitions().into_iter().map(|d| d.name).collect()
}

const BUILTINS: [&str; 8] = [
    "github_pages_publish",
    "github_wiki_publish",
    "glob_search",
    "grep_search",
    "read_file",
    "todo_write",
    "web_fetch",
    "write_file",
];

#[test]
fn builtins_are_registered() {
    let registry = GlobalToolRegistry::builtins();
    assert_eq!(names(&registry), BUILTINS);
    assert_eq!(registry.execute("grep_search"), Ok(ToolAction::GrepSearch));
    assert_eq!(registry.execute("nope").unwrap_err(), "unsupported tool: nope");
    for definition in registry.definitions() {
        assert_eq!(definition.input_schema.get_str("type"), Some("object"), "{}", definition.name);
        assert!(definition.input_schema.get("properties").is_some(), "{}", definition.name);
    }
    assert_eq!(todo_write_handler().action(), ToolAction::TodoWrite);
}

#[test]
fn every_tool_has_an_object_schema() {
    let mut tools = vec![task_handler()];
    tools.extend(task_query_handlers());
    tools.extend(team_tool_handlers());
    let found: Vec<String> = tools.iter().map(|t| t.name().to_string()).collect();
    assert_eq!(
        found,
        vec![
            "task",
            "task_get",
            "task_list",
            "task_output",
            "spawn_teammate",
            "team_huddle",
            "send_teammate_message",
            "broadcast_teammate_message",
            "read_teammate_inbox",
            "team_status",
            "shutdown_teammate",
        ]
    );
    for tool in tools {
        let schema = tool.definition().input_schema;
        assert_eq!(schema.get_str("type"), Some("object"), "{}", tool.name());
        assert_eq!(schema.get("additionalProperties"), Some(&Json::Bool(false)));
    }
}

#[test]
fn schemas_say_what_a_tool_takes() {
    assert_eq!(
        task_handler().definition().input_schema.to_compact_string(),
        r#"{"additionalProperties":false,"properties":{"prompt":{"description":"The isolated subtask prompt for the subagent.","type":"string"},"task_id":{"description":"Optional stable task identifier. If omitted, one is generated.","type":"string"}},"required":["prompt"],"type":"object"}"#
    );
    let todo = todo_write_handler().definition().input_schema;
    let todos = todo.get("properties").unwrap().get("todos").unwrap();
    assert_eq!(todos.get_u64("maxItems"), Some(20));
}

#[test]
fn tools_are_added_and_removed() {
    let registry = GlobalToolRegistry::empty()
        .with_tool(handler("b", 1))
        .unwrap()
        .with_tool(handler("a", 2))
        .unwrap();
    assert_eq!(names(&registry), vec!["a", "b"]);
    assert_eq!(registry.execute("a"), Ok(ToolAction::Plugin(2)));
    assert_eq!(names(&registry.without_tool("b")), vec!["a"]);
    assert_eq!(names(&registry.without_tool("z")), vec!["a", "b"]);
    assert_eq!(
        registry.with_tool(handler("a", 3)).unwrap_err(),
        "tool name conflicts with existing handler: a"
    );
    assert_eq!(
        build_registry(vec![handler("grep_search", 1)]).unwrap_err(),
        "plugin tool name conflicts with builtin: grep_search"
    );
    assert_eq!(
        build_registry(vec![handler("x", 1), handler("x", 2)]).unwrap_err(),
        "plugin tool name conflicts with builtin: x"
    );
    let more = build_registry(vec![handler("x", 1)]).unwrap();
    assert_eq!(names(&more).len(), 9);
    assert_eq!(
        more.definitions()[0].to_json().get_str("name"),
        Some("github_pages_publish")
    );
}

#[test]
fn agents_get_their_tools() {
    let delegation = || {
        let mut tools = vec![task_handler()];
        tools.extend(task_query_handlers());
        tools
    };
    let with = agent_registries(GlobalToolRegistry::builtins(), true, delegation()).unwrap();
    assert_eq!(names(&with.child), BUILTINS);
    assert_eq!(names(&with.parent).len(), 12);
    let without = agent_registries(GlobalToolRegistry::builtins(), false, delegation()).unwrap();
    assert_eq!(names(&without.child), &BUILTINS[2..]);
    assert!(without.parent.execute("github_wiki_publish").is_err());
    assert_eq!(without.parent.execute("task_list"), Ok(ToolAction::TaskList));
    assert_eq!(
        agent_registries(with.parent, true, delegation()).unwrap_err(),
        "tool name conflicts with existing handler: task"
    );
}

fn server(command: Option<&str>) -> McpServerConfig {
    McpServerConfig {
        name: "My Server".to_string(),
        command: command.map(|c| c.to_string()),
        args: vec!["--x".to_string()],
        env: vec![],
        url: None,
        transport: None,
        headers: vec![],
    }
}

#[test]
fn servers_are_launched() {
    let launch = mcp_launch(&server(Some("prog"))).unwrap();
    assert_eq!((launch.command.as_str(), launch.args), ("prog", vec!["--x".to_string()]));
    assert_eq!(mcp_launch(&server(None)).unwrap_err(), "missing MCP server command");
    let launch = mcp_launch(&default_mermaid_server()).unwrap();
    assert_eq!(launch.command, "npx");
    assert_eq!(
        launch.args,
        vec!["-y", "mcp-remote", "https://mcp.mermaid.ai/mcp", "--transport", "http-only"]
    );
    let remote = McpServerConfig {
        url: Some("u".to_string()),
        headers: vec![NamedValue { name: "A".to_string(), value: "b".to_string() }],
        ..server(Some("ignored"))
    };
    assert_eq!(
        mcp_launch(&remote).unwrap().args,
        vec!["-y", "mcp-remote", "u", "--header", "A: b", "--x"]
    );
    for (raw, expected) in [
        ("http", "http-only"),
        ("sse", "sse-only"),
        ("http-only", "http-only"),
        ("sse-first", "sse-first"),
        ("other", "http-first"),
    ] {
        assert_eq!(normalize_remote_transport(raw), expected);
        assert_eq!(normalize_remote_transport(expected), expected);
    }
}

#[test]
fn plugin_tools_are_named() {
    assert_eq!(normalize_name("__My Tool! "), "my_tool");
    assert_eq!(normalize_name(&normalize_name("__My Tool! ")), "my_tool");
    assert_eq!(normalize_name("\u{e9}"), "");
    assert_eq!(qualified_name("My Server", "do-it"), "mcp__my_server__do_it");
    let tools = vec![
        McpTool { name: "one".to_string(), description: " ".to_string(), input_schema: None },
        McpTool {
            name: "two".to_string(),
            description: "Does it".to_string(),
            input_schema: Some(json(r#"{"type":"object"}"#)),
        },
    ];
    let handlers = plugin_tools("srv", &tools, 5);
    let first = handlers[0].definition();
    assert_eq!(first.name, "mcp__srv__one");
    assert_eq!(first.description, "MCP tool 'one' from server 'srv'");
    assert_eq!(
        first.input_schema.to_compact_string(),
        r#"{"additionalProperties":true,"type":"object"}"#
    );
    assert_eq!(handlers[1].definition().description, "Does it (from MCP server 'srv')");
    assert_eq!(handlers[1].action(), ToolAction::Plugin(6));
}

#[test]
fn messages_are_framed_and_numbered() {
    let message = json(r#"{"a":"é"}"#);
    assert_eq!(
        frame_message(WireProtocol::ContentLength, &message),
        "Content-Length: 10\r\n\r\n{\"a\":\"é\"}"
    );
    assert_eq!(frame_message(WireProtocol::JsonLine, &message), "{\"a\":\"é\"}\n");

    let mut session = McpSession::new(&default_mermaid_server());
    assert_eq!(session.protocol, WireProtocol::JsonLine);
    let opening = session.opening_request().unwrap();
    assert_eq!((opening.id, opening.method.as_str()), (1, "initialize"));
    assert_eq!(
        opening.wire,
        "{\"id\":1,\"jsonrpc\":\"2.0\",\"method\":\"initialize\",\"params\":{\"capabilities\":{},\"clientInfo\":{\"name\":\"scribe-engine\",\"version\":\"0.1.0\"},\"protocolVersion\":\"2024-11-05\"}}\n"
    );
    assert_eq!(
        session.opened_note(),
        "{\"jsonrpc\":\"2.0\",\"method\":\"notifications/initialized\",\"params\":{}}\n"
    );
    session.on_opened();
    assert!(session.opening_request().is_none());
    let call = session.request("tools/call", tool_call_params("t", json("[1]")));
    assert_eq!(call.id, 2);
    assert_eq!(
        call.wire,
        "{\"id\":2,\"jsonrpc\":\"2.0\",\"method\":\"tools/call\",\"params\":{\"arguments\":[1],\"name\":\"t\"}}\n"
    );
    assert_eq!(
        McpSession::new(&server(Some("p"))).protocol,
        WireProtocol::ContentLength
    );
}

#[test]
fn answers_are_matched() {
    let result = json(r#"{"id":2,"result":{"x":1}}"#);
    assert_eq!(answer_to(&result, 2, "m"), Some(Ok(json(r#"{"x":1}"#))));
    assert_eq!(answer_to(&result, 3, "m"), None);
    assert_eq!(answer_to(&json(r#"{"method":"n"}"#), 2, "m"), None);
    assert_eq!(answer_to(&json(r#"{"id":"2","result":1}"#), 2, "m"), None);
    assert_eq!(
        answer_to(&json(r#"{"id":2,"error":{"code":-1}}"#), 2, "m"),
        Some(Err("MCP m returned error: {\"code\":-1}".to_string()))
    );
    assert_eq!(
        answer_to(&json(r#"{"id":2}"#), 2, "m"),
        Some(Err("MCP response missing result field".to_string()))
    );
}

#[test]
fn headers_are_read() {
    let mut reader = HeaderReader::new();
    assert!(matches!(reader.on_line(Some("X: y\r\n")), HeaderStep::More));
    assert!(matches!(reader.on_line(Some("content-LENGTH:  12 \r\n")), HeaderStep::More));
    assert!(matches!(reader.on_line(Some("\r\n")), HeaderStep::Body(12)));
    let mut reader = HeaderReader::new();
    assert!(matches!(
        reader.on_line(Some("\n")),
        HeaderStep::Fail(e) if e == "missing Content-Length in MCP response"
    ));
    assert!(matches!(
        reader.on_line(Some("Content-Length: x\n")),
        HeaderStep::Fail(e) if e == "invalid Content-Length value from MCP server"
    ));
    assert!(matches!(
        reader.on_line(None),
        HeaderStep::Fail(e) if e == "MCP server closed stdout unexpectedly"
    ));
    assert_eq!(message_of_body("[1]").unwrap(), json("[1]"));
    assert_eq!(message_of_body("x").unwrap_err(), "invalid JSON in MCP response body");
    assert!(message_of_line(Some(" \n")).is_none());
    assert_eq!(message_of_line(Some(" {} \n")), Some(Ok(Json::empty_object())));
    assert_eq!(
        message_of_line(Some("x\n")),
        Some(Err("invalid JSON in MCP response line".to_string()))
    );
    assert_eq!(
        message_of_line(None),
        Some(Err("MCP server closed stdout unexpectedly".to_string()))
    );
}

#[test]
fn tools_are_discovered_page_by_page() {
    let tool = |name: &str| McpTool {
        name: name.to_string(),
        description: String::new(),
        input_schema: None,
    };
    let mut discovery = ToolDiscovery::new();
    assert_eq!(discovery.params().to_compact_string(), "{}");
    assert!(discovery.on_page(McpToolsPage {
        tools: vec![tool("a")],
        next_cursor: Some("c1".to_string()),
    }));
    assert_eq!(discovery.params().to_compact_string(), r#"{"cursor":"c1"}"#);
    assert!(!discovery.on_page(McpToolsPage {
        tools: vec![tool("b")],
        next_cursor: Some(String::new()),
    }));
    assert_eq!(discovery.tools.len(), 2);
    assert!(!ToolDiscovery::new().on_page(McpToolsPage { tools: vec![], next_cursor: None }));
}

#[test]
fn images_are_ranked_and_decoded() {
    let result = json(
        r#"{"content":[
            {"type":"text","text":"x"},
            {"type":"image","mimeType":"image/gif","data":"AAEC"},
            {"type":"image","mimeType":"image/png","data":"aGk="},
            {"type":"image","mimeType":"image/jpeg"},
            {"type":"image","mimeType":"image/svg+xml","data":" <svg/>"},
            {"type":"image","data":"aG8="}
        ]}"#,
    );
    let plan = plan_graph_images("Draw It", &result, 99).unwrap();
    assert!(plan.failure.is_none());
    let found: Vec<_> = plan.images.iter().map(|i| (i.path.as_str(), i.bytes.as_slice())).collect();
    assert_eq!(
        found,
        vec![
            (".graph/draw_it_99_0.svg", " <svg/>".as_bytes()),
            (".graph/draw_it_99_1.png", "hi".as_bytes()),
            (".graph/draw_it_99_3.bin", &[0u8, 1, 2][..]),
            (".graph/draw_it_99_4.png", "ho".as_bytes()),
        ]
    );
    assert!(plan_graph_images("t", &json("{}"), 1).is_none());
    assert!(plan_graph_images("t", &json(r#"{"content":[]}"#), 1).unwrap().images.is_empty());

    let broken = json(
        r#"{"content":[{"type":"image","data":"!"},{"type":"image","mimeType":"image/png","data":"aGk="}]}"#,
    );
    let plan = plan_graph_images("t", &broken, 1).unwrap();
    assert_eq!(plan.images.len(), 1);
    assert_eq!(plan.failure.as_deref(), Some("failed to decode image data for tool t"));
    assert_eq!(decode_image_bytes("aGk=", "image/svg+xml", "t").unwrap(), b"hi");
    assert!(decode_image_bytes("<svg>", "image/png", "t").is_err());
    assert_eq!(
        (image_priority(None), image_priority(Some("image/webp")), mime_extension("x/y")),
        (9, 2, "bin")
    );
    assert_eq!(
        with_saved_files(json(r#"{"a":1}"#), &vec!["f".to_string()]).to_compact_string(),
        r#"{"a":1,"saved_files":["f"]}"#
    );
    assert_eq!(with_saved_files(json(r#"{"a":1}"#), &vec![]).to_compact_string(), r#"{"a":1}"#);
    assert_eq!(with_saved_files(json("[]"), &vec!["f".to_string()]).to_compact_string(), "[]");
}
