//! Tools of other programs, spoken to by messages: how such a program is
//! started, what is written to it and read from it, and what becomes of the
//! images that its tools give back.
use crate::encoding;
use crate::json::{Json, JsonModel};
use crate::json;
use crate::order;
use crate::paths;
use crate::text;
use crate::text::CharClass;
use crate::tools::registry::{DefinitionModel, HandlerModel, ToolAction, ToolDefinition, ToolHandler};
use vstd::prelude::*;

verus! {

/// The file that names the programs.
pub const MCP_CONFIG_PATH: &'static str = "config/mcp_servers.json";

/// The directory for images.
pub const GRAPH_DIR: &'static str = ".graph";

/// The version of the protocol that is spoken.
pub const PROTOCOL_VERSION: &'static str = "2024-11-05";

// ---------------------------------------------------------------------------
// Starting a program

/// A name with a value: a variable of the environment, or a header.
#[derive(Debug)]
pub struct NamedValue {
    pub name: String,
    pub value: String,
}

/// A name with a value.
#[verifier::ext_equal]
pub struct NamedModel {
    pub name: Seq<char>,
    pub value: Seq<char>,
}

impl DeepView for NamedValue {
    type V = NamedModel;

    open spec fn deep_view(&self) -> NamedModel {
        NamedModel { name: self.name@, value: self.value@ }
    }
}

/// A program that offers tools: one to be run here, or one at an address.
#[derive(Debug)]
pub struct McpServerConfig {
    pub name: String,
    pub command: Option<String>,
    pub args: Vec<String>,
    pub env: Vec<NamedValue>,
    pub url: Option<String>,
    pub transport: Option<String>,
    pub headers: Vec<NamedValue>,
}

/// A program that offers tools.
#[verifier::ext_equal]
pub struct ServerModel {
    pub name: Seq<char>,
    pub command: Option<Seq<char>>,
    pub args: Seq<Seq<char>>,
    pub env: Seq<NamedModel>,
    pub url: Option<Seq<char>>,
    pub transport: Option<Seq<char>>,
    pub headers: Seq<NamedModel>,
}

impl DeepView for McpServerConfig {
    type V = ServerModel;

    open spec fn deep_view(&self) -> ServerModel {
        ServerModel {
            name: self.name@,
            command: self.command.deep_view(),
            args: self.args.deep_view(),
            env: self.env.deep_view(),
            url: self.url.deep_view(),
            transport: self.transport.deep_view(),
            headers: self.headers.deep_view(),
        }
    }
}

/// The program that is used where none is named.
pub fn default_mermaid_server() -> (r: McpServerConfig)
    ensures
        r.deep_view() == (ServerModel {
            name: "mermaid"@,
            command: None,
            args: seq![],
            env: seq![],
            url: Some("https://mcp.mermaid.ai/mcp"@),
            transport: Some("http"@),
            headers: seq![],
        }),
{
    let r = McpServerConfig {
        name: text::owned("mermaid"),
        command: None,
        args: Vec::new(),
        env: Vec::new(),
        url: Some(text::owned("https://mcp.mermaid.ai/mcp")),
        transport: Some(text::owned("http")),
        headers: Vec::new(),
    };
    assert(r.args.deep_view() =~= seq![]);
    assert(r.env.deep_view() =~= seq![]);
    assert(r.headers.deep_view() =~= seq![]);
    r
}

/// The way to a program at an address, as the bridge to it is told: the two
/// common names stand for that way alone, and an unknown name for the default.
pub open spec fn remote_transport(raw: Seq<char>) -> Seq<char> {
    if raw == "http"@ {
        "http-only"@
    } else if raw == "sse"@ {
        "sse-only"@
    } else if raw == "http-only"@ || raw == "http-first"@ || raw == "sse-only"@ || raw
        == "sse-first"@ {
        raw
    } else {
        "http-first"@
    }
}

/// The way to a program at an address.
pub fn normalize_remote_transport(raw: &str) -> (r: String)
    ensures
        r@ == remote_transport(raw@),
{
    if text::same_text(raw, "http") {
        text::owned("http-only")
    } else if text::same_text(raw, "sse") {
        text::owned("sse-only")
    } else if text::same_text(raw, "http-only") || text::same_text(raw, "http-first")
        || text::same_text(raw, "sse-only") || text::same_text(raw, "sse-first") {
        text::owned(raw)
    } else {
        text::owned("http-first")
    }
}

/// What the way is called does not change when it is named once more.
pub proof fn lemma_transport_is_stable(raw: Seq<char>)
    ensures
        remote_transport(remote_transport(raw)) == remote_transport(raw),
{
    reveal_strlit("http");
    reveal_strlit("sse");
    reveal_strlit("http-only");
    reveal_strlit("http-first");
    reveal_strlit("sse-only");
    reveal_strlit("sse-first");
}

/// The arguments for headers, one after the other.
pub open spec fn header_args(headers: Seq<NamedModel>) -> Seq<Seq<char>>
    decreases headers.len(),
{
    if headers.len() == 0 {
        seq![]
    } else {
        let h = headers.last();
        header_args(headers.drop_last()).push("--header"@).push(h.name + ": "@ + h.value)
    }
}

/// The program to be run and its arguments: the program itself, or the bridge
/// to the one at an address.
pub open spec fn launch_of(config: ServerModel) -> Result<(Seq<char>, Seq<Seq<char>>), Seq<char>> {
    match config.url {
        Some(url) => {
            let transport = match config.transport {
                Some(t) => seq!["--transport"@, remote_transport(t)],
                None => seq![],
            };
            Ok(
                (
                    "npx"@,
                    seq!["-y"@, "mcp-remote"@, url] + transport + header_args(config.headers)
                        + config.args,
                ),
            )
        },
        None => match config.command {
            Some(command) => Ok((command, config.args)),
            None => Err("missing MCP server command"@),
        },
    }
}

/// A program to be run, with its arguments.
#[derive(Debug)]
pub struct McpLaunch {
    pub command: String,
    pub args: Vec<String>,
}

fn push_all(out: &mut Vec<String>, more: &Vec<String>)
    ensures
        final(out).deep_view() == old(out).deep_view() + more.deep_view(),
{
    let ghost start = out.deep_view();
    let ghost all = more.deep_view();
    let mut i: usize = 0;
    assert(start + all.take(0) =~= start);
    while i < more.len()
        invariant
            i <= more@.len(),
            all == more.deep_view(),
            out.deep_view() == start + all.take(i as int),
        decreases more@.len() - i,
    {
        let ghost before = out.deep_view();
        let copy = more[i].clone();
        out.push(copy);
        proof {
            assert(out.deep_view() =~= before.push(copy@));
            assert(all[i as int] == more@[i as int]@);
            assert(start + all.take(i + 1) =~= (start + all.take(i as int)).push(all[i as int]));
        }
        i = i + 1;
    }
    assert(all.take(all.len() as int) =~= all);
}

fn push_header_args(out: &mut Vec<String>, headers: &Vec<NamedValue>)
    ensures
        final(out).deep_view() == old(out).deep_view() + header_args(headers.deep_view()),
{
    let ghost start = out.deep_view();
    let ghost all = headers.deep_view();
    let mut i: usize = 0;
    assert(start + header_args(all.take(0)) =~= start);
    while i < headers.len()
        invariant
            i <= headers@.len(),
            all == headers.deep_view(),
            out.deep_view() == start + header_args(all.take(i as int)),
        decreases headers@.len() - i,
    {
        let ghost before = out.deep_view();
        let flag = text::owned("--header");
        let value = text::concat3(headers[i].name.as_str(), ": ", headers[i].value.as_str());
        out.push(flag);
        assert(out.deep_view() =~= before.push(flag@));
        out.push(value);
        proof {
            assert(out.deep_view() =~= before.push(flag@).push(value@));
            assert(all.take(i + 1).drop_last() =~= all.take(i as int));
            assert(all.take(i + 1).last() == headers@[i as int].deep_view());
            assert(start + header_args(all.take(i + 1)) =~= (start + header_args(
                all.take(i as int),
            )).push(flag@).push(value@));
        }
        i = i + 1;
    }
    assert(all.take(all.len() as int) =~= all);
}

/// The program to be run and its arguments.
pub fn mcp_launch(config: &McpServerConfig) -> (r: Result<McpLaunch, String>)
    ensures
        match r {
            Ok(l) => launch_of(config.deep_view()) == Ok::<
                (Seq<char>, Seq<Seq<char>>),
                Seq<char>,
            >((l.command@, l.args.deep_view())),
            Err(e) => launch_of(config.deep_view()) == Err::<
                (Seq<char>, Seq<Seq<char>>),
                Seq<char>,
            >(e@),
        },
{
    match &config.url {
        Some(url) => {
            let mut args: Vec<String> = Vec::new();
            args.push(text::owned("-y"));
            args.push(text::owned("mcp-remote"));
            args.push(url.clone());
            let ghost head = seq!["-y"@, "mcp-remote"@, url@];
            assert(args.deep_view() =~= head);
            let ghost mut transport: Seq<Seq<char>> = seq![];
            match &config.transport {
                Some(t) => {
                    let way = normalize_remote_transport(t.as_str());
                    proof {
                        transport = seq!["--transport"@, way@];
                    }
                    args.push(text::owned("--transport"));
                    args.push(way);
                },
                None => {},
            }
            assert(args.deep_view() =~= head + transport);
            push_header_args(&mut args, &config.headers);
            push_all(&mut args, &config.args);
            Ok(McpLaunch { command: text::owned("npx"), args })
        },
        None => match &config.command {
            Some(command) => {
                let mut args: Vec<String> = Vec::new();
                let ghost none = args.deep_view();
                push_all(&mut args, &config.args);
                assert(none + config.args.deep_view() =~= config.args.deep_view());
                Ok(McpLaunch { command: command.clone(), args })
            },
            None => Err(text::owned("missing MCP server command")),
        },
    }
}

// ---------------------------------------------------------------------------
// Names and definitions of tools

/// One character of a name: ASCII letters in lower case and digits as they are,
/// anything else as an underscore.
pub open spec fn name_char(c: char) -> char {
    if text::is_ascii_alnum(c) {
        text::lower_char(c)
    } else {
        '_'
    }
}

/// A name made of lower-case letters, digits and underscores, with no underscore
/// at either end.
pub open spec fn clean_name(raw: Seq<char>) -> Seq<char> {
    text::trim_by(CharClass::One('_'), raw.map_values(|c: char| name_char(c)))
}

/// A name made of lower-case letters, digits and underscores.
pub fn normalize_name(raw: &str) -> (r: String)
    ensures
        r@ == clean_name(raw@),
{
    let v = text::chars_of(raw);
    let ghost wanted = raw@.map_values(|c: char| name_char(c));
    let mut out = String::new();
    let mut i: usize = 0;
    assert(out@ =~= wanted.take(0));
    while i < v.len()
        invariant
            v@ == raw@,
            i <= v@.len(),
            wanted == raw@.map_values(|c: char| name_char(c)),
            out@ == wanted.take(i as int),
        decreases v@.len() - i,
    {
        let c = if text::is_ascii_alphanumeric(v[i]) {
            text::to_lower_char(v[i])
        } else {
            '_'
        };
        out.push(c);
        assert(wanted.take(i + 1) =~= wanted.take(i as int).push(wanted[i as int]));
        i = i + 1;
    }
    assert(wanted.take(wanted.len() as int) =~= wanted);
    text::trim_class(CharClass::One('_'), out.as_str())
}

/// The name under which a tool of a program is offered.
pub open spec fn qualified(server: Seq<char>, tool: Seq<char>) -> Seq<char> {
    "mcp__"@ + clean_name(server) + "__"@ + clean_name(tool)
}

/// The name under which a tool of a program is offered.
pub fn qualified_name(server: &str, tool: &str) -> (r: String)
    ensures
        r@ == qualified(server@, tool@),
{
    let a = normalize_name(server);
    let b = normalize_name(tool);
    let mut r = text::concat3("mcp__", a.as_str(), "__");
    r.append(b.as_str());
    r
}

/// A tool as a program offers it.
#[derive(Debug)]
pub struct McpTool {
    pub name: String,
    pub description: String,
    pub input_schema: Option<Json>,
}

/// A tool as a program offers it.
#[verifier::ext_equal]
pub struct McpToolModel {
    pub name: Seq<char>,
    pub description: Seq<char>,
    pub input_schema: Option<JsonModel>,
}

impl DeepView for McpTool {
    type V = McpToolModel;

    open spec fn deep_view(&self) -> McpToolModel {
        McpToolModel {
            name: self.name@,
            description: self.description@,
            input_schema: match self.input_schema {
                Some(s) => Some(s@),
                None => None,
            },
        }
    }
}

/// What a tool expects if nothing is said: any object.
pub open spec fn any_object_schema() -> JsonModel {
    JsonModel::empty_object().with("type"@, JsonModel::Text("object"@)).with(
        "additionalProperties"@,
        JsonModel::Bool(true),
    )
}

/// The definition of a tool of a program.
pub open spec fn plugin_definition(server: Seq<char>, tool: McpToolModel) -> DefinitionModel {
    DefinitionModel {
        name: qualified(server, tool.name),
        description: if text::is_blank(tool.description) {
            "MCP tool '"@ + tool.name + "' from server '"@ + server + "'"@
        } else {
            tool.description + " (from MCP server '"@ + server + "')"@
        },
        input_schema: match tool.input_schema {
            Some(s) => s,
            None => any_object_schema(),
        },
    }
}

/// The tools of a program, numbered from `first` on.
pub open spec fn plugin_tools_of(server: Seq<char>, tools: Seq<McpToolModel>, first: int) -> Seq<
    HandlerModel,
> {
    Seq::new(
        tools.len(),
        |i: int|
            HandlerModel {
                definition: plugin_definition(server, tools[i]),
                action: ToolAction::Plugin((first + i) as usize),
            },
    )
}

/// A tool of a program, under a number.
pub fn plugin_tool(server_name: &str, tool: &McpTool, number: usize) -> (r: ToolHandler)
    ensures
        r@ == (HandlerModel {
            definition: plugin_definition(server_name@, tool.deep_view()),
            action: ToolAction::Plugin(number),
        }),
{
    let trimmed = text::trim(tool.description.as_str());
    let description = if text::char_count(trimmed.as_str()) == 0 {
        let mut d = text::concat3("MCP tool '", tool.name.as_str(), "' from server '");
        d.append(server_name);
        d.append("'");
        d
    } else {
        let mut d = text::concat3(tool.description.as_str(), " (from MCP server '", server_name);
        d.append("')");
        d
    };
    let input_schema = match &tool.input_schema {
        Some(s) => s.clone(),
        None => Json::empty_object().with("type", Json::text("object")).with(
            "additionalProperties",
            Json::Bool(true),
        ),
    };
    ToolHandler::new(
        ToolDefinition {
            name: qualified_name(server_name, tool.name.as_str()),
            description,
            input_schema,
        },
        ToolAction::Plugin(number),
    )
}

/// The tools of a program, numbered from `first` on.
pub fn plugin_tools(server_name: &str, tools: &Vec<McpTool>, first: usize) -> (r: Vec<ToolHandler>)
    requires
        first + tools@.len() <= usize::MAX,
    ensures
        r.deep_view() == plugin_tools_of(server_name@, tools.deep_view(), first as int),
{
    let ghost wanted = plugin_tools_of(server_name@, tools.deep_view(), first as int);
    let mut r: Vec<ToolHandler> = Vec::new();
    let mut i: usize = 0;
    assert(r.deep_view() =~= wanted.take(0));
    while i < tools.len()
        invariant
            i <= tools@.len(),
            first + tools@.len() <= usize::MAX,
            wanted == plugin_tools_of(server_name@, tools.deep_view(), first as int),
            r.deep_view() == wanted.take(i as int),
        decreases tools@.len() - i,
    {
        let ghost before = r.deep_view();
        let handler = plugin_tool(server_name, &tools[i], first + i);
        let ghost model = handler@;
        r.push(handler);
        proof {
            assert(r.deep_view() =~= before.push(model));
            assert(tools.deep_view()[i as int] == tools@[i as int].deep_view());
            assert(model == wanted[i as int]);
            assert(wanted.take(i + 1) =~= wanted.take(i as int).push(wanted[i as int]));
        }
        i = i + 1;
    }
    assert(wanted.take(wanted.len() as int) =~= wanted);
    r
}

// ---------------------------------------------------------------------------
// Messages

/// How messages are told apart on the wire.
#[derive(Debug, Clone, Copy, PartialEq, Eq, Structural)]
pub enum WireProtocol {
    /// By their length in bytes.
    ContentLength,
    /// By the ends of lines.
    JsonLine,
}

/// A message as it is written.
pub open spec fn framed(protocol: WireProtocol, payload: Seq<char>) -> Seq<char> {
    match protocol {
        WireProtocol::ContentLength => "Content-Length: "@ + text::decimal(
            text::byte_len(payload),
        ) + "\r\n\r\n"@ + payload,
        WireProtocol::JsonLine => payload + "\n"@,
    }
}

/// A message as it is written. The payload fits on one line, and the message is
/// read back from it.
pub fn frame_message(protocol: WireProtocol, message: &Json) -> (r: String)
    ensures
        r@ == framed(protocol, json::compact_text(message@)),
        text::fills_line(json::compact_text(message@)),
        message@.reads_back() ==> json::parsed(json::compact_text(message@)) == Ok::<
            JsonModel,
            Seq<char>,
        >(message@),
        protocol is JsonLine && message@.reads_back() ==> line_message(r@) == Some(
            Ok::<JsonModel, Seq<char>>(message@),
        ),
{
    let payload = message.to_compact_string();
    proof {
        reveal_strlit("\n");
        text::lemma_trimmed_line(payload@);
        assert(payload@ + "\n"@ =~= payload@.push('\n'));
    }
    match protocol {
        WireProtocol::ContentLength => {
            let size = text::count_bytes(payload.as_str());
            let length = text::decimal_of(size as u128);
            let mut r = text::concat3("Content-Length: ", length.as_str(), "\r\n\r\n");
            r.append(payload.as_str());
            r
        },
        WireProtocol::JsonLine => text::concat(payload.as_str(), "\n"),
    }
}

/// A request.
pub open spec fn request_json(id: u64, method: Seq<char>, params: JsonModel) -> JsonModel {
    JsonModel::empty_object().with("jsonrpc"@, JsonModel::Text("2.0"@)).with(
        "id"@,
        JsonModel::uint(id),
    ).with("method"@, JsonModel::Text(method)).with("params"@, params)
}

/// A message that asks for no answer.
pub open spec fn notification_json(method: Seq<char>, params: JsonModel) -> JsonModel {
    JsonModel::empty_object().with("jsonrpc"@, JsonModel::Text("2.0"@)).with(
        "method"@,
        JsonModel::Text(method),
    ).with("params"@, params)
}

/// How a conversation with a program is opened.
pub open spec fn opening_params() -> JsonModel {
    JsonModel::empty_object().with("protocolVersion"@, JsonModel::Text(PROTOCOL_VERSION@)).with(
        "capabilities"@,
        JsonModel::empty_object(),
    ).with(
        "clientInfo"@,
        JsonModel::empty_object().with("name"@, JsonModel::Text("scribe-engine"@)).with(
            "version"@,
            JsonModel::Text("0.1.0"@),
        ),
    )
}

/// What is sent to have a tool called.
pub open spec fn call_params(tool: Seq<char>, arguments: JsonModel) -> JsonModel {
    JsonModel::empty_object().with("name"@, JsonModel::Text(tool)).with("arguments"@, arguments)
}

/// What is sent to have a tool called.
pub fn tool_call_params(tool_name: &str, arguments: Json) -> (r: Json)
    ensures
        r@ == call_params(tool_name@, arguments@),
{
    Json::empty_object().with("name", Json::text(tool_name)).with("arguments", arguments)
}

/// What a message says to a request: nothing if it is no answer to it, what went
/// wrong, or the result.
pub open spec fn answer_in(message: JsonModel, id: u64, method: Seq<char>) -> Option<
    Result<JsonModel, Seq<char>>,
> {
    if message.uint_at("id"@) != Some(id) {
        None
    } else {
        match message.get("error"@) {
            Some(error) => Some(
                Err("MCP "@ + method + " returned error: "@ + json::compact_text(error)),
            ),
            None => match message.get("result"@) {
                Some(result) => Some(Ok(result)),
                None => Some(Err("MCP response missing result field"@)),
            },
        }
    }
}

/// An answer by its texts.
pub open spec fn answer_view(r: Option<Result<Json, String>>) -> Option<
    Result<JsonModel, Seq<char>>,
> {
    match r {
        None => None,
        Some(Ok(j)) => Some(Ok(j@)),
        Some(Err(e)) => Some(Err(e@)),
    }
}

/// What a message says to a request.
pub fn answer_to(message: &Json, id: u64, method: &str) -> (r: Option<Result<Json, String>>)
    ensures
        answer_view(r) == answer_in(message@, id, method@),
{
    match message.get_u64("id") {
        Some(found) => {
            if found != id {
                return None;
            }
        },
        None => {
            return None;
        },
    }
    match message.get("error") {
        Some(error) => {
            let said = error.to_compact_string();
            let mut e = text::concat3("MCP ", method, " returned error: ");
            e.append(said.as_str());
            Some(Err(e))
        },
        None => match message.get("result") {
            Some(result) => Some(Ok(result.clone())),
            None => Some(Err(text::owned("MCP response missing result field"))),
        },
    }
}

/// A request that was written: its number, and the bytes.
#[derive(Debug)]
pub struct McpRequest {
    pub id: u64,
    pub method: String,
    pub wire: String,
}

/// A conversation with a program.
#[derive(Debug)]
pub struct McpSession {
    pub protocol: WireProtocol,
    pub next_id: u64,
    pub initialized: bool,
}

impl McpSession {
    /// A conversation that has not begun. A program at an address speaks in
    /// lines.
    pub fn new(config: &McpServerConfig) -> (r: McpSession)
        ensures
            r.protocol == (if config.url is Some {
                WireProtocol::JsonLine
            } else {
                WireProtocol::ContentLength
            }),
            r.next_id == 1,
            !r.initialized,
    {
        McpSession {
            protocol: if config.url.is_some() {
                WireProtocol::JsonLine
            } else {
                WireProtocol::ContentLength
            },
            next_id: 1,
            initialized: false,
        }
    }

    /// A request under the next number.
    pub fn request(&mut self, method: &str, params: Json) -> (r: McpRequest)
        requires
            old(self).next_id < u64::MAX,
        ensures
            final(self).next_id == old(self).next_id + 1,
            final(self).protocol == old(self).protocol,
            final(self).initialized == old(self).initialized,
            r.id == old(self).next_id,
            r.method@ == method@,
            r.wire@ == framed(
                old(self).protocol,
                json::compact_text(request_json(old(self).next_id, method@, params@)),
            ),
    {
        let id = self.next_id;
        self.next_id = id + 1;
        let message = Json::empty_object().with("jsonrpc", Json::text("2.0")).with(
            "id",
            Json::uint(id),
        ).with("method", Json::text(method)).with("params", params);
        McpRequest {
            id,
            method: text::owned(method),
            wire: frame_message(self.protocol, &message),
        }
    }

    /// A message that asks for no answer.
    pub fn notification(&self, method: &str, params: Json) -> (r: String)
        ensures
            r@ == framed(
                self.protocol,
                json::compact_text(notification_json(method@, params@)),
            ),
    {
        let message = Json::empty_object().with("jsonrpc", Json::text("2.0")).with(
            "method",
            Json::text(method),
        ).with("params", params);
        frame_message(self.protocol, &message)
    }

    /// The request that opens the conversation; none once it is open.
    pub fn opening_request(&mut self) -> (r: Option<McpRequest>)
        requires
            old(self).next_id < u64::MAX,
        ensures
            final(self).protocol == old(self).protocol,
            final(self).initialized == old(self).initialized,
            match r {
                None => old(self).initialized && final(self).next_id == old(self).next_id,
                Some(q) => {
                    &&& !old(self).initialized
                    &&& final(self).next_id == old(self).next_id + 1
                    &&& q.id == old(self).next_id
                    &&& q.method@ == "initialize"@
                    &&& q.wire@ == framed(
                        old(self).protocol,
                        json::compact_text(
                            request_json(old(self).next_id, "initialize"@, opening_params()),
                        ),
                    )
                },
            },
    {
        if self.initialized {
            return None;
        }
        let client = Json::empty_object().with("name", Json::text("scribe-engine")).with(
            "version",
            Json::text("0.1.0"),
        );
        let params = Json::empty_object().with(
            "protocolVersion",
            Json::text(PROTOCOL_VERSION),
        ).with("capabilities", Json::empty_object()).with("clientInfo", client);
        Some(self.request("initialize", params))
    }

    /// What is written once the program has answered the opening.
    pub fn opened_note(&self) -> (r: String)
        ensures
            r@ == framed(
                self.protocol,
                json::compact_text(
                    notification_json("notifications/initialized"@, JsonModel::empty_object()),
                ),
            ),
    {
        self.notification("notifications/initialized", Json::empty_object())
    }

    /// Notes that the conversation is open.
    pub fn on_opened(&mut self)
        ensures
            final(self).initialized,
            final(self).next_id == old(self).next_id,
            final(self).protocol == old(self).protocol,
    {
        self.initialized = true;
    }
}

/// An answer to one request is no answer to another: a later request has
/// another number, and a message speaks of one number only.
pub proof fn lemma_answers_are_told_apart(message: JsonModel, a: u64, b: u64, method: Seq<char>)
    requires
        a != b,
        answer_in(message, a, method) is Some,
    ensures
        answer_in(message, b, method) is None,
{
}

// ---------------------------------------------------------------------------
// Reading messages

/// What is to be read next.
#[derive(Debug)]
pub enum HeaderStep {
    /// Another line.
    More,
    /// So many bytes.
    Body(usize),
    /// Nothing: what was read makes no sense.
    Fail(String),
}

/// What is to be read next.
pub enum HeaderStepModel {
    More,
    Body(nat),
    Fail(Seq<char>),
}

impl DeepView for HeaderStep {
    type V = HeaderStepModel;

    open spec fn deep_view(&self) -> HeaderStepModel {
        match self {
            HeaderStep::More => HeaderStepModel::More,
            HeaderStep::Body(n) => HeaderStepModel::Body(*n as nat),
            HeaderStep::Fail(e) => HeaderStepModel::Fail(e@),
        }
    }
}

/// A line without the characters that end it.
pub open spec fn bare_line(line: Seq<char>) -> Seq<char> {
    text::trim_end_by(CharClass::Two('\r', '\n'), line)
}

/// What a line of the head says of the length: nothing, something that is no
/// length, or a length.
pub open spec fn length_in(bare: Seq<char>) -> Option<Option<nat>> {
    let k = text::index_of_char(bare, ':');
    if k < bare.len() && text::lowered(bare.take(k)) == text::lowered("Content-Length"@) {
        match text::unsigned(text::trimmed(bare.skip(k + 1))) {
            Some(n) => if n <= usize::MAX {
                Some(Some(n))
            } else {
                Some(None)
            },
            None => Some(None),
        }
    } else {
        None
    }
}

/// What is to be read after a line of the head, and the length that is known
/// then. An empty line ends the head; no line at all means that the program is
/// gone.
pub open spec fn after_header_line(known: Option<nat>, line: Option<Seq<char>>) -> (
    Option<nat>,
    HeaderStepModel,
) {
    match line {
        None => (known, HeaderStepModel::Fail("MCP server closed stdout unexpectedly"@)),
        Some(l) => if bare_line(l).len() == 0 {
            match known {
                Some(n) => (known, HeaderStepModel::Body(n)),
                None => (
                    known,
                    HeaderStepModel::Fail("missing Content-Length in MCP response"@),
                ),
            }
        } else {
            match length_in(bare_line(l)) {
                None => (known, HeaderStepModel::More),
                Some(Some(n)) => (Some(n), HeaderStepModel::More),
                Some(None) => (
                    known,
                    HeaderStepModel::Fail("invalid Content-Length value from MCP server"@),
                ),
            }
        },
    }
}

/// The head of a message while it is read.
#[derive(Debug)]
pub struct HeaderReader {
    pub content_length: Option<usize>,
}

impl HeaderReader {
    /// The length that is known.
    pub open spec fn known(self) -> Option<nat> {
        match self.content_length {
            Some(n) => Some(n as nat),
            None => None,
        }
    }

    /// Nothing has been read.
    pub fn new() -> (r: HeaderReader)
        ensures
            r.known() is None,
    {
        HeaderReader { content_length: None }
    }

    /// Reads a line of the head.
    pub fn on_line(&mut self, line: Option<&str>) -> (r: HeaderStep)
        ensures
            (final(self).known(), r.deep_view()) == after_header_line(
                old(self).known(),
                line.deep_view(),
            ),
    {
        let line = match line {
            Some(l) => l,
            None => {
                return HeaderStep::Fail(text::owned("MCP server closed stdout unexpectedly"));
            },
        };
        let bare = text::trim_end_class(CharClass::Two('\r', '\n'), line);
        let v = text::chars_of(bare.as_str());
        if v.len() == 0 {
            return match self.content_length {
                Some(n) => HeaderStep::Body(n),
                None => HeaderStep::Fail(text::owned("missing Content-Length in MCP response")),
            };
        }
        let k = text::find_char(&v, ':', 0);
        proof {
            assert(v@.skip(0) =~= v@);
            text::lemma_index_of_char(v@, ':');
        }
        if k < v.len() {
            let key = text::string_of(&v, 0, k);
            let value = text::string_of(&v, k + 1, v.len());
            proof {
                assert(v@.subrange(0, k as int) =~= v@.take(k as int));
                assert(v@.subrange(k + 1, v@.len() as int) =~= v@.skip(k + 1));
            }
            let lower = text::to_ascii_lower(key.as_str());
            let wanted = text::to_ascii_lower("Content-Length");
            if text::same_text(lower.as_str(), wanted.as_str()) {
                let trimmed = text::trim(value.as_str());
                match text::parse_usize(trimmed.as_str()) {
                    Some(n) => {
                        self.content_length = Some(n);
                    },
                    None => {
                        return HeaderStep::Fail(
                            text::owned("invalid Content-Length value from MCP server"),
                        );
                    },
                }
            }
        }
        HeaderStep::More
    }
}

/// The message in a body of the announced length.
pub fn message_of_body(body: &str) -> (r: Result<Json, String>)
    ensures
        match json::parsed(body@) {
            Ok(m) => r matches Ok(j) && j@ == m,
            Err(_) => r matches Err(e) && e@ == "invalid JSON in MCP response body"@,
        },
{
    match json::parse_json(body) {
        Ok(j) => Ok(j),
        Err(_) => Err(text::owned("invalid JSON in MCP response body")),
    }
}

/// The message in a line; a blank one holds none.
pub open spec fn line_message(line: Seq<char>) -> Option<Result<JsonModel, Seq<char>>> {
    if text::is_blank(line) {
        None
    } else {
        match json::parsed(text::trimmed(line)) {
            Ok(m) => Some(Ok(m)),
            Err(_) => Some(Err("invalid JSON in MCP response line"@)),
        }
    }
}

/// The message in a line; a blank one holds none, and no line at all means that
/// the program is gone.
pub fn message_of_line(line: Option<&str>) -> (r: Option<Result<Json, String>>)
    ensures
        answer_view(r) == (match line {
            None => Some(Err::<JsonModel, Seq<char>>("MCP server closed stdout unexpectedly"@)),
            Some(l) => line_message(l@),
        }),
{
    let line = match line {
        Some(l) => l,
        None => {
            return Some(Err(text::owned("MCP server closed stdout unexpectedly")));
        },
    };
    let trimmed = text::trim(line);
    if text::char_count(trimmed.as_str()) == 0 {
        return None;
    }
    match json::parse_json(trimmed.as_str()) {
        Ok(j) => Some(Ok(j)),
        Err(_) => Some(Err(text::owned("invalid JSON in MCP response line"))),
    }
}

/// The head of a message as it is written, and the empty line behind it.
pub open spec fn header_line(payload: Seq<char>) -> Seq<char> {
    "Content-Length: "@ + text::decimal(text::byte_len(payload)) + "\r\n"@
}

/// Nothing is trimmed from digits.
proof fn lemma_digits_stay(s: Seq<char>)
    requires
        s.len() > 0,
        forall|i: int| 0 <= i < s.len() ==> text::is_digit(#[trigger] s[i]),
    ensures
        text::trimmed(s) == s,
        text::trimmed(seq![' '] + s) == s,
{
    let class = CharClass::Whitespace;
    let t = seq![' '] + s;
    assert(t.skip(1) =~= s);
    assert(text::is_digit(s[0]));
    assert(text::is_digit(s.last()));
    assert(text::trim_start_by(class, s) == s);
    assert(text::trim_end_by(class, s) == s);
    assert(class.has(t[0]));
    assert(text::trim_start_by(class, t) == text::trim_start_by(class, t.skip(1)));
}

/// The length that is written before a message is the length that is read: the
/// head of every message of a length that fits is understood, and the body is
/// read to its last byte.
pub proof fn lemma_written_length_is_read(payload: Seq<char>, known: Option<nat>)
    requires
        text::byte_len(payload) <= usize::MAX,
    ensures
        framed(WireProtocol::ContentLength, payload) == header_line(payload) + "\r\n"@ + payload,
        ({
            let (length, step) = after_header_line(known, Some(header_line(payload)));
            &&& step is More
            &&& length == Some(text::byte_len(payload))
            &&& after_header_line(length, Some("\r\n"@)).1 == HeaderStepModel::Body(
                text::byte_len(payload),
            )
        }),
{
    let class = CharClass::Two('\r', '\n');
    let n = text::byte_len(payload);
    let digits = text::decimal(n);
    let line = header_line(payload);
    reveal_strlit("Content-Length: ");
    reveal_strlit("Content-Length");
    reveal_strlit("\r\n");
    reveal_strlit("\r\n\r\n");
    text::lemma_decimal_is_read_back(n);
    assert("\r\n\r\n"@ =~= "\r\n"@ + "\r\n"@);
    assert(framed(WireProtocol::ContentLength, payload) =~= line + "\r\n"@ + payload);
    // The two characters at the end of the line, and nothing else, are cut off.
    let bare = "Content-Length: "@ + digits;
    let with_return = bare.push('\r');
    assert(line =~= with_return.push('\n'));
    assert(line.take(line.len() - 1) =~= with_return);
    assert(with_return.take(with_return.len() - 1) =~= bare);
    assert(bare.last() == digits.last());
    assert(text::is_digit(digits.last()));
    assert(text::trim_end_by(class, bare) == bare);
    assert(text::trim_end_by(class, with_return) == bare);
    assert(bare_line(line) == bare);
    // The colon behind the name is the first one.
    text::lemma_index_of_char(bare, ':');
    assert(bare[14] == ':');
    assert forall|i: int| 0 <= i < 14 implies #[trigger] bare[i] != ':' by {
        assert(bare[i] == "Content-Length: "@[i]);
    }
    assert(text::index_of_char(bare, ':') == 14);
    assert(bare.take(14) =~= "Content-Length"@);
    assert(bare.skip(15) =~= seq![' '] + digits);
    lemma_digits_stay(digits);
    assert(length_in(bare) == Some(Some(n)));
    // The empty line.
    let end = "\r\n"@;
    assert(end.take(1) =~= seq!['\r']);
    assert(seq!['\r'].take(0) =~= seq![]);
    assert(text::trim_end_by(class, seq!['\r']) == text::trim_end_by(class, seq!['\r'].take(0)));
    assert(text::trim_end_by(class, end) == text::trim_end_by(class, end.take(1)));
    assert(bare_line(end).len() == 0);
}

/// A character of a name is left as it is when it is cleaned again.
proof fn lemma_name_char_is_stable(c: char)
    ensures
        name_char(name_char(c)) == name_char(c),
        name_char(c) == '_' || 'a' <= name_char(c) <= 'z' || '0' <= name_char(c) <= '9',
{
}

/// A clean name holds lower-case letters, digits and underscores alone, and is
/// left as it is when it is cleaned again.
pub proof fn lemma_clean_name_is_stable(raw: Seq<char>)
    ensures
        clean_name(clean_name(raw)) == clean_name(raw),
        forall|i: int|
            0 <= i < clean_name(raw).len() ==> {
                let c = #[trigger] clean_name(raw)[i];
                c == '_' || 'a' <= c <= 'z' || '0' <= c <= '9'
            },
        clean_name(raw).len() > 0 ==> clean_name(raw)[0] != '_' && clean_name(raw).last() != '_',
{
    let class = CharClass::One('_');
    let m = raw.map_values(|c: char| name_char(c));
    let a = text::trim_start_by(class, m);
    let t = clean_name(raw);
    text::lemma_trim_start(class, m);
    text::lemma_trim_end(class, a);
    text::lemma_trim_idempotent(class, m);
    assert forall|i: int| 0 <= i < t.len() implies {
        let c = #[trigger] t[i];
        name_char(c) == c && (c == '_' || 'a' <= c <= 'z' || '0' <= c <= '9')
    } by {
        let k = i + (m.len() - a.len());
        assert(t[i] == a[i]);
        assert(a[i] == m[k]);
        lemma_name_char_is_stable(raw[k]);
    }
    assert(t.map_values(|c: char| name_char(c)) =~= t);
    if t.len() > 0 {
        assert(t[0] == a[0]);
    }
}

// ---------------------------------------------------------------------------
// Finding tools

/// A part of the list of tools, and where the next part begins.
#[derive(Debug)]
pub struct McpToolsPage {
    pub tools: Vec<McpTool>,
    pub next_cursor: Option<String>,
}

/// The tools that a program has named so far, and where the next part of the
/// list begins.
#[derive(Debug)]
pub struct ToolDiscovery {
    pub tools: Vec<McpTool>,
    pub cursor: Option<String>,
}

/// What is asked for: the part of the list that begins at a place.
pub open spec fn page_params(cursor: Option<Seq<char>>) -> JsonModel {
    match cursor {
        Some(c) => JsonModel::empty_object().with("cursor"@, JsonModel::Text(c)),
        None => JsonModel::empty_object(),
    }
}

impl ToolDiscovery {
    /// Nothing is known.
    pub fn new() -> (r: ToolDiscovery)
        ensures
            r.tools@.len() == 0,
            r.cursor is None,
    {
        ToolDiscovery { tools: Vec::new(), cursor: None }
    }

    /// What is asked for next.
    pub fn params(&self) -> (r: Json)
        ensures
            r@ == page_params(self.cursor.deep_view()),
    {
        match &self.cursor {
            Some(c) => Json::empty_object().with("cursor", Json::text(c.as_str())),
            None => Json::empty_object(),
        }
    }

    /// Adds a part of the list. Returns whether there is more: where the next
    /// part begins has to be said, and may not be empty.
    pub fn on_page(&mut self, page: McpToolsPage) -> (more: bool)
        ensures
            final(self).tools@ == old(self).tools@ + page.tools@,
            match page.next_cursor {
                Some(c) => if c@.len() > 0 {
                    more && final(self).cursor == page.next_cursor
                } else {
                    !more && final(self).cursor == old(self).cursor
                },
                None => !more && final(self).cursor == old(self).cursor,
            },
    {
        let McpToolsPage { tools, next_cursor } = page;
        let mut tools = tools;
        self.tools.append(&mut tools);
        match next_cursor {
            Some(c) => {
                if text::char_count(c.as_str()) == 0 {
                    false
                } else {
                    self.cursor = Some(c);
                    true
                }
            },
            None => false,
        }
    }
}

// ---------------------------------------------------------------------------
// Images

/// The rank of a kind of image: the lowest comes first.
pub open spec fn image_rank(mime: Option<Seq<char>>) -> u128 {
    match mime {
        Some(m) => if m == "image/svg+xml"@ {
            0
        } else if m == "image/png"@ {
            1
        } else if m == "image/webp"@ {
            2
        } else if m == "image/jpeg"@ {
            3
        } else {
            9
        },
        None => 9,
    }
}

/// The rank of a kind of image.
pub fn image_priority(mime: Option<&str>) -> (r: u128)
    ensures
        r == image_rank(mime.deep_view()),
{
    match mime {
        Some(m) => if text::same_text(m, "image/svg+xml") {
            0
        } else if text::same_text(m, "image/png") {
            1
        } else if text::same_text(m, "image/webp") {
            2
        } else if text::same_text(m, "image/jpeg") {
            3
        } else {
            9
        },
        None => 9,
    }
}

/// How the name of a file with such an image ends.
pub open spec fn extension_of_mime(mime: Seq<char>) -> Seq<char> {
    if mime == "image/png"@ {
        "png"@
    } else if mime == "image/svg+xml"@ {
        "svg"@
    } else if mime == "image/jpeg"@ {
        "jpg"@
    } else if mime == "image/webp"@ {
        "webp"@
    } else {
        "bin"@
    }
}

/// How the name of a file with such an image ends.
pub fn mime_extension(mime: &str) -> (r: &'static str)
    ensures
        r@ == extension_of_mime(mime@),
{
    if text::same_text(mime, "image/png") {
        "png"
    } else if text::same_text(mime, "image/svg+xml") {
        "svg"
    } else if text::same_text(mime, "image/jpeg") {
        "jpg"
    } else if text::same_text(mime, "image/webp") {
        "webp"
    } else {
        "bin"
    }
}

/// The bytes of an image: a drawing may stand as it is, anything else is
/// written in Base64.
pub open spec fn image_bytes(data: Seq<char>, mime: Seq<char>) -> Option<Seq<u8>> {
    if mime == "image/svg+xml"@ && text::begins_with(
        text::trim_start_by(CharClass::Whitespace, data),
        "<svg"@,
    ) {
        Some(vstd::utf8::encode_utf8(data))
    } else {
        encoding::base64_bytes(data)
    }
}

/// The bytes of an image, or that there are none.
pub fn decode_image_bytes(data: &str, mime: &str, tool_name: &str) -> (r: Result<Vec<u8>, String>)
    ensures
        match image_bytes(data@, mime@) {
            Some(bytes) => r matches Ok(v) && v@ == bytes,
            None => r matches Err(e) && e@ == "failed to decode image data for tool "@ + tool_name@,
        },
{
    let start = text::trim_start_class(CharClass::Whitespace, data);
    if text::same_text(mime, "image/svg+xml") && text::starts_with(start.as_str(), "<svg") {
        return Ok(data.as_bytes_vec());
    }
    match encoding::decode_base64(data) {
        Some(bytes) => Ok(bytes),
        None => Err(text::concat("failed to decode image data for tool ", tool_name)),
    }
}

/// A file to be written.
#[derive(Debug)]
pub struct GraphImage {
    pub path: String,
    pub bytes: Vec<u8>,
}

/// A file to be written.
#[verifier::ext_equal]
pub struct ImageModel {
    pub path: Seq<char>,
    pub bytes: Seq<u8>,
}

impl DeepView for GraphImage {
    type V = ImageModel;

    open spec fn deep_view(&self) -> ImageModel {
        ImageModel { path: self.path@, bytes: self.bytes@ }
    }
}

/// The files to be written, and what goes wrong after that.
#[derive(Debug)]
pub struct ImagePlan {
    pub images: Vec<GraphImage>,
    pub failure: Option<String>,
}

/// The images among the parts of a result.
pub open spec fn image_items(items: Seq<JsonModel>) -> Seq<JsonModel>
    decreases items.len(),
{
    if items.len() == 0 {
        seq![]
    } else {
        let before = image_items(items.drop_last());
        if items.last().text_at("type"@) == Some("image"@) {
            before.push(items.last())
        } else {
            before
        }
    }
}

/// The key by which an image is ordered.
pub open spec fn image_key(item: JsonModel) -> (u128, u128) {
    (image_rank(item.text_at("mimeType"@)), 0)
}

/// The images in the order in which they are written.
pub open spec fn ordered_images(items: Seq<JsonModel>) -> Seq<JsonModel> {
    let images = image_items(items);
    order::arranged(
        images,
        order::ordered_by(images.map_values(|item: JsonModel| image_key(item))),
    )
}

/// The kind of an image where none is named.
pub open spec fn mime_of(item: JsonModel) -> Seq<char> {
    match item.text_at("mimeType"@) {
        Some(m) => m,
        None => "image/png"@,
    }
}

/// The file for the image at position `at`.
pub open spec fn image_path(tool: Seq<char>, now_ms: u128, at: nat, mime: Seq<char>) -> Seq<char> {
    paths::path_joined(
        GRAPH_DIR@,
        clean_name(tool) + "_"@ + text::decimal(now_ms as nat) + "_"@ + text::decimal(at) + "."@
            + extension_of_mime(mime),
    )
}

/// The files for the first images of a list, and what went wrong: nothing is
/// written after that.
pub open spec fn images_planned(tool: Seq<char>, now_ms: u128, images: Seq<JsonModel>) -> (
    Seq<ImageModel>,
    Option<Seq<char>>,
)
    decreases images.len(),
{
    if images.len() == 0 {
        (seq![], None)
    } else {
        let (done, failure) = images_planned(tool, now_ms, images.drop_last());
        let item = images.last();
        let at = (images.len() - 1) as nat;
        match (failure, item.text_at("data"@)) {
            (Some(e), _) => (done, Some(e)),
            (None, None) => (done, None),
            (None, Some(data)) => match image_bytes(data, mime_of(item)) {
                Some(bytes) => (
                    done.push(
                        ImageModel { path: image_path(tool, now_ms, at, mime_of(item)), bytes },
                    ),
                    None,
                ),
                None => (done, Some("failed to decode image data for tool "@ + tool)),
            },
        }
    }
}

fn collect_images(items: &Vec<Json>) -> (r: Vec<Json>)
    ensures
        r.deep_view() == image_items(items.deep_view()),
{
    let ghost all = items.deep_view();
    let mut r: Vec<Json> = Vec::new();
    let mut i: usize = 0;
    proof {
        assert(all.take(0) =~= seq![]);
        assert(r.deep_view() =~= seq![]);
    }
    while i < items.len()
        invariant
            i <= items@.len(),
            all == items.deep_view(),
            r.deep_view() == image_items(all.take(i as int)),
        decreases items@.len() - i,
    {
        let ghost before = r.deep_view();
        proof {
            assert(all.take(i + 1).drop_last() =~= all.take(i as int));
            assert(all.take(i + 1).last() == items@[i as int]@);
        }
        let is_image = match items[i].get_str("type") {
            Some(t) => text::same_text(t, "image"),
            None => false,
        };
        if is_image {
            let copy = items[i].clone();
            let ghost model = copy@;
            r.push(copy);
            assert(r.deep_view() =~= before.push(model));
        }
        i = i + 1;
    }
    assert(all.take(all.len() as int) =~= all);
    r
}

fn order_images(images: Vec<Json>) -> (r: Vec<Json>)
    ensures
        r.deep_view() == order::arranged(
            images.deep_view(),
            order::ordered_by(
                images.deep_view().map_values(|item: JsonModel| image_key(item)),
            ),
        ),
{
    let ghost model = images.deep_view();
    let ghost wanted_keys = model.map_values(|item: JsonModel| image_key(item));
    let mut keys: Vec<(u128, u128)> = Vec::new();
    let mut i: usize = 0;
    assert(keys@ =~= wanted_keys.take(0));
    while i < images.len()
        invariant
            i <= images@.len(),
            model == images.deep_view(),
            wanted_keys == model.map_values(|item: JsonModel| image_key(item)),
            keys@ == wanted_keys.take(i as int),
        decreases images@.len() - i,
    {
        let rank = image_priority(images[i].get_str("mimeType"));
        keys.push((rank, 0));
        proof {
            assert(model[i as int] == images@[i as int]@);
            assert(wanted_keys.take(i + 1) =~= wanted_keys.take(i as int).push(
                wanted_keys[i as int],
            ));
        }
        i = i + 1;
    }
    assert(wanted_keys.take(wanted_keys.len() as int) =~= wanted_keys);
    let positions = order::stable_order(&keys);
    let ghost places = order::ordered_by(keys@);
    let ghost wanted = order::arranged(model, places);
    proof {
        order::lemma_order_is_permutation(keys@);
    }
    let mut r: Vec<Json> = Vec::new();
    let mut k: usize = 0;
    assert(r.deep_view() =~= wanted.take(0));
    while k < positions.len()
        invariant
            k <= positions@.len(),
            model == images.deep_view(),
            order::as_ints(positions@) == places,
            places.len() == images@.len(),
            forall|j: int| 0 <= j < images@.len() ==> 0 <= #[trigger] places[j] < images@.len(),
            wanted == order::arranged(model, places),
            r.deep_view() == wanted.take(k as int),
        decreases positions@.len() - k,
    {
        let ghost before = r.deep_view();
        proof {
            assert(order::as_ints(positions@).len() == positions@.len());
            assert(order::as_ints(positions@)[k as int] == positions@[k as int]);
            assert(0 <= places[k as int] < images@.len());
        }
        let copy = images[positions[k]].clone();
        let ghost c = copy@;
        r.push(copy);
        proof {
            assert(r.deep_view() =~= before.push(c));
            assert(c == wanted[k as int]);
            assert(wanted.take(k + 1) =~= wanted.take(k as int).push(wanted[k as int]));
        }
        k = k + 1;
    }
    proof {
        assert(order::as_ints(positions@).len() == positions@.len());
        assert(wanted.take(wanted.len() as int) =~= wanted);
    }
    r
}

fn image_file(tool_name: &str, now_ms: u128, at: usize, mime: &str) -> (r: String)
    ensures
        r@ == image_path(tool_name@, now_ms, at as nat, mime@),
{
    let safe = normalize_name(tool_name);
    let time = text::decimal_of(now_ms);
    let place = text::decimal_of(at as u128);
    let mut name = text::concat3(safe.as_str(), "_", time.as_str());
    name.append("_");
    name.append(place.as_str());
    name.append(".");
    name.append(mime_extension(mime));
    paths::path_join(GRAPH_DIR, name.as_str())
}

/// The files in which the images of a result are kept; nothing if the result
/// has no parts.
pub fn plan_graph_images(tool_name: &str, result: &Json, now_ms: u128) -> (r: Option<ImagePlan>)
    ensures
        match result@.items_at("content"@) {
            None => r is None,
            Some(items) => r matches Some(plan) && (plan.images.deep_view(), plan.failure.deep_view())
                == images_planned(tool_name@, now_ms, ordered_images(items)),
        },
{
    let items = match result.get_array("content") {
        Some(items) => items,
        None => {
            return None;
        },
    };
    let images = order_images(collect_images(items));
    let ghost all = images.deep_view();
    let mut done: Vec<GraphImage> = Vec::new();
    let mut i: usize = 0;
    proof {
        assert(all.take(0) =~= seq![]);
        assert(done.deep_view() =~= seq![]);
    }
    while i < images.len()
        invariant
            i <= images@.len(),
            all == images.deep_view(),
            Some(all) == match result@.items_at("content"@) {
                Some(items) => Some(ordered_images(items)),
                None => None,
            },
            (done.deep_view(), None::<Seq<char>>) == images_planned(
                tool_name@,
                now_ms,
                all.take(i as int),
            ),
        decreases images@.len() - i,
    {
        let ghost before = done.deep_view();
        proof {
            assert(all.take(i + 1).drop_last() =~= all.take(i as int));
            assert(all.take(i + 1).last() == images@[i as int]@);
        }
        match images[i].get_str("data") {
            Some(data) => {
                let mime = match images[i].get_str("mimeType") {
                    Some(m) => m,
                    None => "image/png",
                };
                match decode_image_bytes(data, mime, tool_name) {
                    Ok(bytes) => {
                        let image = GraphImage {
                            path: image_file(tool_name, now_ms, i, mime),
                            bytes,
                        };
                        let ghost model = image.deep_view();
                        done.push(image);
                        assert(done.deep_view() =~= before.push(model));
                    },
                    Err(e) => {
                        proof {
                            lemma_failure_stops(tool_name@, now_ms, all, i + 1);
                        }
                        return Some(ImagePlan { images: done, failure: Some(e) });
                    },
                }
            },
            None => {},
        }
        i = i + 1;
    }
    assert(all.take(all.len() as int) =~= all);
    Some(ImagePlan { images: done, failure: None })
}

/// Nothing is written after something has gone wrong.
pub proof fn lemma_failure_stops(tool: Seq<char>, now_ms: u128, images: Seq<JsonModel>, k: int)
    requires
        0 <= k <= images.len(),
        images_planned(tool, now_ms, images.take(k)).1 is Some,
    ensures
        images_planned(tool, now_ms, images) == images_planned(tool, now_ms, images.take(k)),
    decreases images.len(),
{
    if k == images.len() {
        assert(images.take(k) =~= images);
    } else {
        assert(images.drop_last().take(k) =~= images.take(k));
        lemma_failure_stops(tool, now_ms, images.drop_last(), k);
    }
}

/// All images are written, and none before one of a lower rank.
pub proof fn lemma_images_are_ranked(items: Seq<JsonModel>, a: int, b: int)
    requires
        0 <= a < b < ordered_images(items).len(),
    ensures
        image_rank(ordered_images(items)[a].text_at("mimeType"@)) <= image_rank(
            ordered_images(items)[b].text_at("mimeType"@),
        ),
        ordered_images(items).len() == image_items(items).len(),
{
    let images = image_items(items);
    let keys = images.map_values(|item: JsonModel| image_key(item));
    order::lemma_order_is_permutation(keys);
    order::lemma_order_is_sorted(keys);
    let places = order::ordered_by(keys);
    assert(0 <= places[a] < keys.len());
    assert(0 <= places[b] < keys.len());
    assert(ordered_images(items)[a] == images[places[a]]);
    assert(ordered_images(items)[b] == images[places[b]]);
    assert(!order::key_below(keys[places[b]], keys[places[a]]));
}

/// A result with the files in which its images are kept, if there are any.
pub open spec fn with_saved(result: JsonModel, saved: Seq<Seq<char>>) -> JsonModel {
    if saved.len() == 0 {
        result
    } else {
        result.with(
            "saved_files"@,
            JsonModel::Array(saved.map_values(|p: Seq<char>| JsonModel::Text(p))),
        )
    }
}

/// A result with the files in which its images are kept.
pub fn with_saved_files(result: Json, saved: &Vec<String>) -> (r: Json)
    ensures
        r@ == with_saved(result@, saved.deep_view()),
{
    if saved.len() == 0 {
        return result;
    }
    let ghost wanted = saved.deep_view().map_values(|p: Seq<char>| JsonModel::Text(p));
    let mut items: Vec<Json> = Vec::new();
    let mut i: usize = 0;
    assert(items.deep_view() =~= wanted.take(0));
    while i < saved.len()
        invariant
            i <= saved@.len(),
            wanted == saved.deep_view().map_values(|p: Seq<char>| JsonModel::Text(p)),
            items.deep_view() == wanted.take(i as int),
        decreases saved@.len() - i,
    {
        let ghost before = items.deep_view();
        let item = Json::text(saved[i].as_str());
        let ghost model = item@;
        items.push(item);
        proof {
            assert(items.deep_view() =~= before.push(model));
            assert(saved.deep_view()[i as int] == saved@[i as int]@);
            assert(model == wanted[i as int]);
            assert(wanted.take(i + 1) =~= wanted.take(i as int).push(wanted[i as int]));
        }
        i = i + 1;
    }
    assert(wanted.take(wanted.len() as int) =~= wanted);
    result.with("saved_files", Json::array(items))
}

// ---------------------------------------------------------------------------
// Laws

/// The ways to reach a server are known by their names, short ones among them;
/// any other name stands for the usual way.
pub proof fn lemma_ways_to_reach_a_server(raw: Seq<char>)
    ensures
        remote_transport("http"@) == "http-only"@,
        remote_transport("sse"@) == "sse-only"@,
        remote_transport("http-only"@) == "http-only"@,
        remote_transport("http-first"@) == "http-first"@,
        remote_transport("sse-only"@) == "sse-only"@,
        remote_transport("sse-first"@) == "sse-first"@,
        raw != "http"@ && raw != "sse"@ && raw != "http-only"@ && raw != "sse-only"@ && raw
            != "sse-first"@ ==> remote_transport(raw) == "http-first"@,
{
    reveal_strlit("http");
    reveal_strlit("sse");
    reveal_strlit("http-only");
    reveal_strlit("http-first");
    reveal_strlit("sse-only");
    reveal_strlit("sse-first");
    assert("http"@.len() != "sse"@.len());
    assert("http"@.len() != "http-only"@.len());
    assert("http"@.len() != "http-first"@.len());
    assert("http"@.len() != "sse-only"@.len());
    assert("http"@.len() != "sse-first"@.len());
    assert("sse"@.len() != "http-only"@.len());
    assert("sse"@.len() != "http-first"@.len());
    assert("sse"@.len() != "sse-only"@.len());
    assert("sse"@.len() != "sse-first"@.len());
    assert("http-only"@.len() != "http-first"@.len());
    assert("http-only"@.len() != "sse-only"@.len());
    assert("http-only"@[0] != "sse-first"@[0]);
    assert("http-first"@.len() != "sse-only"@.len());
    assert("http-first"@.len() != "sse-first"@.len());
    assert("sse-only"@.len() != "sse-first"@.len());
}

/// A server with an address is reached through the program for such servers,
/// with the address, the way, the headers and its own arguments; one without is
/// started by its command, and one without either cannot be.
pub proof fn lemma_how_servers_are_started(
    config: ServerModel,
    url: Seq<char>,
    command: Seq<char>,
    way: Seq<char>,
)
    ensures
        config.url == Some(url) ==> {
            &&& launch_of(config) is Ok
            &&& launch_of(config)->Ok_0.0 == "npx"@
            &&& launch_of(config)->Ok_0.1.len() >= 3
            &&& launch_of(config)->Ok_0.1.take(3) == seq!["-y"@, "mcp-remote"@, url]
            &&& config.transport is None ==> launch_of(config)->Ok_0.1 == seq![
                "-y"@,
                "mcp-remote"@,
                url,
            ] + header_args(config.headers) + config.args
            &&& config.transport == Some(way) ==> launch_of(config)->Ok_0.1 == seq![
                "-y"@,
                "mcp-remote"@,
                url,
                "--transport"@,
                remote_transport(way),
            ] + header_args(config.headers) + config.args
        },
        config.url is None && config.command == Some(command) ==> launch_of(config) == Ok::<
            (Seq<char>, Seq<Seq<char>>),
            Seq<char>,
        >((command, config.args)),
        config.url is None && config.command is None ==> launch_of(config) is Err,
{
    if config.url == Some(url) {
        let args = launch_of(config)->Ok_0.1;
        assert(args.take(3) =~= seq!["-y"@, "mcp-remote"@, url]);
        if config.transport is None {
            assert(args =~= seq!["-y"@, "mcp-remote"@, url] + header_args(config.headers)
                + config.args);
        }
        if config.transport == Some(way) {
            assert(args =~= seq![
                "-y"@,
                "mcp-remote"@,
                url,
                "--transport"@,
                remote_transport(way),
            ] + header_args(config.headers) + config.args);
        }
    }
}

/// Each header is handed on by its name and its value, in order.
pub proof fn lemma_headers_are_handed_on(headers: Seq<NamedModel>, h: NamedModel)
    ensures
        header_args(headers.push(h)) == header_args(headers) + seq![
            "--header"@,
            h.name + ": "@ + h.value,
        ],
        header_args(seq![]).len() == 0,
{
    assert(headers.push(h).drop_last() =~= headers);
    assert(header_args(headers.push(h)) =~= header_args(headers) + seq![
        "--header"@,
        h.name + ": "@ + h.value,
    ]);
}

/// A name is made of its own letters and digits: letters become small ones, and
/// any other character an underscore.
pub proof fn lemma_characters_of_names(c: char)
    ensures
        'a' <= c <= 'z' || '0' <= c <= '9' ==> name_char(c) == c,
        'A' <= c <= 'Z' ==> name_char(c) as int == c as int + 32,
        !('a' <= c <= 'z' || 'A' <= c <= 'Z' || '0' <= c <= '9') ==> name_char(c) == '_',
{
}

/// The tool of a plugin is called by its server and its own name, and takes what
/// the server says, or any object where it says nothing.
pub proof fn lemma_plugin_tool_is_described(server: Seq<char>, tool: McpToolModel)
    ensures
        plugin_definition(server, tool).name == "mcp__"@ + clean_name(server) + "__"@ + clean_name(
            tool.name,
        ),
        tool.input_schema is Some ==> plugin_definition(server, tool).input_schema
            == tool.input_schema->0,
        tool.input_schema is None ==> plugin_definition(server, tool).input_schema.text_at(
            "type"@,
        ) == Some("object"@),
{
    reveal_strlit("type");
    reveal_strlit("additionalProperties");
    assert("type"@.len() != "additionalProperties"@.len());
    let j0 = JsonModel::empty_object();
    let j1 = j0.with("type"@, JsonModel::Text("object"@));
    json::lemma_with_is_read(j0, "type"@, JsonModel::Text("object"@));
    let j2 = j1.with("additionalProperties"@, JsonModel::Bool(true));
    json::lemma_with_is_read(j1, "additionalProperties"@, JsonModel::Bool(true));
}

/// What the server says of a tool is told as it says it, and then which server
/// it is.
pub proof fn lemma_plugin_tool_says_where_from(server: Seq<char>, tool: McpToolModel)
    ensures
        !text::is_blank(tool.description) ==> plugin_definition(server, tool).description
            == tool.description + " (from MCP server '"@ + server + "')"@,
        text::is_blank(tool.description) ==> plugin_definition(server, tool).description
            == "MCP tool '"@ + tool.name + "' from server '"@ + server + "'"@,
{
}

/// Each tool of a server becomes a tool of a plugin, in order, with a number of
/// its own.
pub proof fn lemma_all_tools_become_plugins(
    server: Seq<char>,
    tools: Seq<McpToolModel>,
    first: int,
    i: int,
)
    requires
        0 <= i < tools.len(),
        0 <= first,
        first + tools.len() <= usize::MAX,
    ensures
        plugin_tools_of(server, tools, first).len() == tools.len(),
        plugin_tools_of(server, tools, first)[i].definition == plugin_definition(
            server,
            tools[i],
        ),
        plugin_tools_of(server, tools, first)[i].action == ToolAction::Plugin((first + i) as usize),
{
}

/// A request names the method and its parameters and carries a number, by which
/// its answer is known; a notification carries none.
pub proof fn lemma_request_is_written(id: u64, method: Seq<char>, params: JsonModel)
    ensures
        request_json(id, method, params).get("id"@) == Some(JsonModel::uint(id)),
        request_json(id, method, params).text_at("method"@) == Some(method),
        request_json(id, method, params).get("params"@) == Some(params),
        request_json(id, method, params).text_at("jsonrpc"@) == Some("2.0"@),
        notification_json(method, params).get("id"@) is None,
        notification_json(method, params).text_at("method"@) == Some(method),
        notification_json(method, params).get("params"@) == Some(params),
        notification_json(method, params).text_at("jsonrpc"@) == Some("2.0"@),
{
    reveal_strlit("jsonrpc");
    reveal_strlit("id");
    reveal_strlit("method");
    reveal_strlit("params");
    assert("jsonrpc"@.len() != "id"@.len());
    assert("jsonrpc"@.len() != "method"@.len());
    assert("jsonrpc"@.len() != "params"@.len());
    assert("id"@.len() != "method"@.len());
    assert("id"@.len() != "params"@.len());
    assert("method"@[0] != "params"@[0]);
    let j0 = JsonModel::empty_object();
    let j1 = j0.with("jsonrpc"@, JsonModel::Text("2.0"@));
    json::lemma_with_is_read(j0, "jsonrpc"@, JsonModel::Text("2.0"@));
    let j2 = j1.with("id"@, JsonModel::uint(id));
    json::lemma_with_is_read(j1, "id"@, JsonModel::uint(id));
    let j3 = j2.with("method"@, JsonModel::Text(method));
    json::lemma_with_is_read(j2, "method"@, JsonModel::Text(method));
    let j4 = j3.with("params"@, params);
    json::lemma_with_is_read(j3, "params"@, params);
    let n0 = JsonModel::empty_object();
    let n1 = n0.with("jsonrpc"@, JsonModel::Text("2.0"@));
    json::lemma_with_is_read(n0, "jsonrpc"@, JsonModel::Text("2.0"@));
    let n2 = n1.with("method"@, JsonModel::Text(method));
    json::lemma_with_is_read(n1, "method"@, JsonModel::Text(method));
    let n3 = n2.with("params"@, params);
    json::lemma_with_is_read(n2, "params"@, params);
    assert(n0.get("id"@) is None);
}

/// A call names the tool and hands over its arguments as they are; a further part
/// of a list is asked for by where it begins.
pub proof fn lemma_call_is_written(tool: Seq<char>, arguments: JsonModel, cursor: Seq<char>)
    ensures
        call_params(tool, arguments).text_at("name"@) == Some(tool),
        call_params(tool, arguments).get("arguments"@) == Some(arguments),
        page_params(Some(cursor)).text_at("cursor"@) == Some(cursor),
        page_params(None).get("cursor"@) is None,
{
    reveal_strlit("name");
    reveal_strlit("arguments");
    assert("name"@.len() != "arguments"@.len());
    let j0 = JsonModel::empty_object();
    let j1 = j0.with("name"@, JsonModel::Text(tool));
    json::lemma_with_is_read(j0, "name"@, JsonModel::Text(tool));
    let j2 = j1.with("arguments"@, arguments);
    json::lemma_with_is_read(j1, "arguments"@, arguments);
    json::lemma_with_is_read(j0, "cursor"@, JsonModel::Text(cursor));
}

/// The answer to a request is the message with its number: a failure where it
/// speaks of an error, else the result. Any other message is no answer.
pub proof fn lemma_answer_is_read(
    message: JsonModel,
    id: u64,
    method: Seq<char>,
    result: JsonModel,
)
    ensures
        message.uint_at("id"@) != Some(id) ==> answer_in(message, id, method) is None,
        message.uint_at("id"@) == Some(id) && message.get("error"@) is None && message.get(
            "result"@,
        ) == Some(result) ==> answer_in(message, id, method) == Some(
            Ok::<JsonModel, Seq<char>>(result),
        ),
        message.uint_at("id"@) == Some(id) && message.get("error"@) is Some ==> answer_in(
            message,
            id,
            method,
        ) matches Some(Err(_)),
        message.uint_at("id"@) == Some(id) && message.get("error"@) is None && message.get(
            "result"@,
        ) is None ==> answer_in(message, id, method) matches Some(Err(_)),
{
}

/// A message on a line of its own is read as it was written; blank lines are
/// passed over.
pub proof fn lemma_message_on_a_line(payload: Seq<char>, m: JsonModel)
    ensures
        framed(WireProtocol::JsonLine, payload) == payload.push('\n'),
        text::is_blank(payload) ==> line_message(payload) is None,
        !text::is_blank(payload) && json::parsed(text::trimmed(payload)) == Ok::<
            JsonModel,
            Seq<char>,
        >(m) ==> line_message(payload) == Some(Ok::<JsonModel, Seq<char>>(m)),
        !text::is_blank(payload) && json::parsed(text::trimmed(payload)) is Err ==> line_message(
            payload,
        ) matches Some(Err(_)),
{
    reveal_strlit("\n");
    assert(payload + "\n"@ =~= payload.push('\n'));
}

/// Headers are read up to the empty line; without a length before it, or where
/// the server says nothing more, nothing can be read.
pub proof fn lemma_headers_end(known: Option<nat>, line: Seq<char>, n: nat)
    ensures
        after_header_line(known, None).1 is Fail,
        bare_line(line).len() == 0 && known == Some(n) ==> after_header_line(known, Some(line)).1
            == HeaderStepModel::Body(n),
        bare_line(line).len() == 0 && known is None ==> after_header_line(known, Some(line)).1
            is Fail,
        bare_line(line).len() > 0 && length_in(bare_line(line)) is None ==> after_header_line(
            known,
            Some(line),
        ) == (known, HeaderStepModel::More),
        bare_line(line).len() > 0 && length_in(bare_line(line)) == Some(None::<nat>)
            ==> after_header_line(known, Some(line)).1 is Fail,
{
}

/// Images are kept under the ending of their kind.
pub proof fn lemma_endings_of_images(mime: Seq<char>)
    ensures
        extension_of_mime("image/png"@) == "png"@,
        extension_of_mime("image/svg+xml"@) == "svg"@,
        extension_of_mime("image/jpeg"@) == "jpg"@,
        extension_of_mime("image/webp"@) == "webp"@,
        mime != "image/png"@ && mime != "image/svg+xml"@ && mime != "image/jpeg"@ && mime
            != "image/webp"@ ==> extension_of_mime(mime) == "bin"@,
{
    reveal_strlit("image/png");
    reveal_strlit("image/svg+xml");
    reveal_strlit("image/jpeg");
    reveal_strlit("image/webp");
    assert("image/png"@.len() != "image/svg+xml"@.len());
    assert("image/png"@.len() != "image/jpeg"@.len());
    assert("image/png"@.len() != "image/webp"@.len());
    assert("image/svg+xml"@.len() != "image/jpeg"@.len());
    assert("image/svg+xml"@.len() != "image/webp"@.len());
    assert("image/jpeg"@[6] != "image/webp"@[6]);
}

/// Drawings come first, then the kinds of pictures, and anything else last.
pub proof fn lemma_ranks_of_images(mime: Seq<char>)
    ensures
        image_rank(Some("image/svg+xml"@)) < image_rank(Some("image/png"@)),
        image_rank(Some("image/png"@)) < image_rank(Some("image/webp"@)),
        image_rank(Some("image/webp"@)) < image_rank(Some("image/jpeg"@)),
        image_rank(Some("image/jpeg"@)) < image_rank(None),
        image_rank(Some(mime)) <= image_rank(None),
{
    reveal_strlit("image/png");
    reveal_strlit("image/svg+xml");
    reveal_strlit("image/jpeg");
    reveal_strlit("image/webp");
    assert("image/png"@.len() != "image/svg+xml"@.len());
    assert("image/png"@.len() != "image/jpeg"@.len());
    assert("image/png"@.len() != "image/webp"@.len());
    assert("image/svg+xml"@.len() != "image/jpeg"@.len());
    assert("image/svg+xml"@.len() != "image/webp"@.len());
    assert("image/jpeg"@[6] != "image/webp"@[6]);
}

/// Of the items of a result exactly the images are kept.
pub proof fn lemma_only_images_are_kept(items: Seq<JsonModel>, item: JsonModel)
    ensures
        item.text_at("type"@) == Some("image"@) ==> image_items(items.push(item)) == image_items(
            items,
        ).push(item),
        item.text_at("type"@) != Some("image"@) ==> image_items(items.push(item)) == image_items(
            items,
        ),
        image_items(seq![]).len() == 0,
{
    assert(items.push(item).drop_last() =~= items);
}

/// No image is lost when they are put in order.
pub proof fn lemma_ordered_images_are_all(items: Seq<JsonModel>, item: JsonModel)
    ensures
        ordered_images(items).contains(item) <==> image_items(items).contains(item),
{
    let images = image_items(items);
    let keys = images.map_values(|i: JsonModel| image_key(i));
    let places = order::ordered_by(keys);
    let out = ordered_images(items);
    order::lemma_order_is_permutation(keys);
    if out.contains(item) {
        let k = choose|k: int| 0 <= k < out.len() && out[k] == item;
        assert(0 <= places[k] < keys.len());
        assert(images[places[k]] == item);
    }
    if images.contains(item) {
        let j = choose|j: int| 0 <= j < images.len() && images[j] == item;
        assert(places.contains(j));
        let k = choose|k: int| 0 <= k < places.len() && places[k] == j;
        assert(out[k] == item);
    }
}

/// A drawing that is given as it is is kept as it is; any other image is given in
/// Base64, and kept as the bytes that this stands for.
pub proof fn lemma_bytes_of_images(data: Seq<char>, mime: Seq<char>)
    ensures
        mime != "image/svg+xml"@ ==> image_bytes(data, mime) == encoding::base64_bytes(data),
        mime == "image/svg+xml"@ && text::begins_with(
            text::trim_start_by(CharClass::Whitespace, data),
            "<svg"@,
        ) ==> image_bytes(data, mime) == Some(vstd::utf8::encode_utf8(data)),
{
}

/// An image with data that can be read is written, behind those before it, in a
/// file that the tool, the time and its place name; one without data is passed
/// over.
pub proof fn lemma_image_is_planned(
    tool: Seq<char>,
    now_ms: u128,
    images: Seq<JsonModel>,
    item: JsonModel,
    data: Seq<char>,
    bytes: Seq<u8>,
)
    requires
        images_planned(tool, now_ms, images).1 is None,
    ensures
        item.text_at("data"@) is None ==> images_planned(tool, now_ms, images.push(item))
            == images_planned(tool, now_ms, images),
        item.text_at("data"@) == Some(data) && image_bytes(data, mime_of(item)) == Some(bytes)
            ==> images_planned(tool, now_ms, images.push(item)).1 is None && images_planned(
            tool,
            now_ms,
            images.push(item),
        ).0 == images_planned(tool, now_ms, images).0.push(
            ImageModel { path: image_path(tool, now_ms, images.len(), mime_of(item)), bytes },
        ),
        item.text_at("data"@) == Some(data) && image_bytes(data, mime_of(item)) is None
            ==> images_planned(tool, now_ms, images.push(item)).1 is Some,
{
    assert(images.push(item).drop_last() =~= images);
}

/// The kind of an image is what its item says, and a picture where it says
/// nothing.
pub proof fn lemma_kind_of_image(item: JsonModel, mime: Seq<char>)
    ensures
        item.text_at("mimeType"@) == Some(mime) ==> mime_of(item) == mime,
        item.text_at("mimeType"@) is None ==> mime_of(item) == "image/png"@,
{
}

/// A result says in which files its images are kept, where there are any, and
/// stays as it is otherwise.
pub proof fn lemma_saved_files_are_named(result: JsonModel, saved: Seq<Seq<char>>, key: Seq<char>)
    requires
        result.tidy(),
    ensures
        saved.len() == 0 ==> with_saved(result, saved) == result,
        saved.len() > 0 ==> with_saved(result, saved).items_at("saved_files"@) == Some(
            saved.map_values(|p: Seq<char>| JsonModel::Text(p)),
        ),
        key != "saved_files"@ ==> with_saved(result, saved).get(key) == result.get(key),
{
    let named = JsonModel::Array(saved.map_values(|p: Seq<char>| JsonModel::Text(p)));
    json::lemma_with_is_read(result, "saved_files"@, named);
}

/// The length of a message is read from its header however the header's name is
/// written, and from no other header.
pub proof fn lemma_length_is_read(name: Seq<char>, value: Seq<char>, n: nat)
    requires
        !name.contains(':'),
    ensures
        text::lowered(name) == text::lowered("Content-Length"@) && text::unsigned(
            text::trimmed(value),
        ) == Some(n) && n <= usize::MAX ==> length_in(name.push(':') + value) == Some(Some(n)),
        text::lowered(name) == text::lowered("Content-Length"@) && text::unsigned(
            text::trimmed(value),
        ) is None ==> length_in(name.push(':') + value) == Some(None::<nat>),
        text::lowered(name) != text::lowered("Content-Length"@) ==> length_in(
            name.push(':') + value,
        ) is None,
{
    let line = name.push(':') + value;
    let k = text::index_of_char(line, ':');
    text::lemma_index_of_char(line, ':');
    assert(line[name.len() as int] == ':');
    if k < name.len() {
        assert(line[k] == name[k]);
        assert(name.contains(name[k]));
    }
    assert(k == name.len());
    assert(line.take(k) =~= name);
    assert(line.skip(k + 1) =~= value);
}

/// A conversation is opened with the version of the protocol and the name and
/// version of this program.
pub proof fn lemma_conversation_is_opened()
    ensures
        opening_params().text_at("protocolVersion"@) == Some(PROTOCOL_VERSION@),
        opening_params().get("capabilities"@) == Some(JsonModel::empty_object()),
        opening_params().get("clientInfo"@) matches Some(info) && info.text_at("name"@) == Some(
            "scribe-engine"@,
        ) && info.text_at("version"@) == Some("0.1.0"@),
{
    reveal_strlit("name");
    reveal_strlit("version");
    assert("name"@.len() != "version"@.len());
    let c0 = JsonModel::empty_object();
    let c1 = c0.with("name"@, JsonModel::Text("scribe-engine"@));
    json::lemma_with_is_read(c0, "name"@, JsonModel::Text("scribe-engine"@));
    let c2 = c1.with("version"@, JsonModel::Text("0.1.0"@));
    json::lemma_with_is_read(c1, "version"@, JsonModel::Text("0.1.0"@));
    reveal_strlit("protocolVersion");
    reveal_strlit("capabilities");
    reveal_strlit("clientInfo");
    assert("protocolVersion"@.len() != "capabilities"@.len());
    assert("protocolVersion"@.len() != "clientInfo"@.len());
    assert("capabilities"@.len() != "clientInfo"@.len());
    let j0 = JsonModel::empty_object();
    let j1 = j0.with("protocolVersion"@, JsonModel::Text(PROTOCOL_VERSION@));
    json::lemma_with_is_read(j0, "protocolVersion"@, JsonModel::Text(PROTOCOL_VERSION@));
    let j2 = j1.with("capabilities"@, JsonModel::empty_object());
    json::lemma_with_is_read(j1, "capabilities"@, JsonModel::empty_object());
    let j3 = j2.with("clientInfo"@, c2);
    json::lemma_with_is_read(j2, "clientInfo"@, c2);
}

} // verus!
