//! Calls of the language model: what is sent, how a request is recognised
//! again, and what an answer gives.
use crate::config::{ContextCompactConfig, LlmConfig};
use crate::json;
use crate::json::{Json, JsonModel};
use crate::llm::cache::PromptCache;
use crate::llm::usage;
use crate::llm::usage::ModelUsage;
use crate::paths;
use crate::text;
use crate::tools::registry::{DefinitionModel, ToolDefinition};
use vstd::prelude::*;

verus! {

pub const SUBAGENT_SYSTEM_PROMPT: &'static str = r#"You are a subagent for this repository.

# Mission
- Work from a fresh context and complete the delegated subtask.
- Return only the concise final answer needed by the parent agent.
- Be effective for single-repo and cross-repo architecture analysis tasks, including microservice interactions.

# Execution Rules
- Use tools when needed for correctness.
- For tool calls, provide strict JSON arguments only.
- Do not include internal tool traces unless they are necessary to support correctness.
- Never invent facts; if evidence is missing, state uncertainty briefly.
- Keep the static request prefix stable: do not rewrite the system prompt or tool set mid-session; put changing state into messages or tool results instead.
- If asked for architecture or flow outputs, provide precise, evidence-backed structure that can be rendered as diagrams.

# Planning
- If the delegated work is multi-step, use todo_write, keep exactly one task in_progress, and close completed tasks promptly.
- If blocked, report the blocker and what you already checked.
"#;

/// An answer of the model.
#[derive(Debug)]
pub struct ChatCompletionResult {
    pub message: Json,
    pub usage: ModelUsage,
    pub cached: bool,
}

/// An answer of the model.
#[verifier::ext_equal]
pub struct AnswerModel {
    pub message: JsonModel,
    pub usage: ModelUsage,
    pub cached: bool,
}

impl DeepView for ChatCompletionResult {
    type V = AnswerModel;

    open spec fn deep_view(&self) -> AnswerModel {
        AnswerModel { message: self.message@, usage: self.usage, cached: self.cached }
    }
}

impl Clone for ChatCompletionResult {
    fn clone(&self) -> (r: ChatCompletionResult)
        ensures
            r.deep_view() == self.deep_view(),
    {
        ChatCompletionResult {
            message: self.message.clone(),
            usage: self.usage.clone(),
            cached: self.cached,
        }
    }
}

/// What is sent for an answer, and the hash under which it is stored.
#[derive(Debug)]
pub struct ChatRequest {
    pub url: String,
    pub body: Json,
    pub request_hash: String,
}

/// What came of a request.
#[derive(Debug)]
pub enum ChatOutcome {
    /// The local cache holds an answer.
    Cached(ChatCompletionResult),
    /// The model could not be reached.
    Unreachable,
    /// The model refused, with a status and a text if it could be read.
    Refused(String, Option<String>),
    /// The answer was no JSON text.
    Undecodable,
    /// The model answered; its usage, if there is one, may not be readable.
    Answered(Json, Option<Result<ModelUsage, String>>),
}

/// A client for the language model.
#[derive(Debug)]
pub struct OpenAiCompatClient {
    pub cfg: LlmConfig,
    pub cache: Option<PromptCache>,
}

// ---------------------------------------------------------------------------
// Canonical form and hash

/// The SHA-256 digest of some bytes.
pub uninterp spec fn sha256(bytes: Seq<u8>) -> Seq<u8>;

/// `sha2::Sha256` over some bytes: a digest of 32 bytes.
#[verifier::external_body]
fn digest(bytes: &[u8]) -> (r: Vec<u8>)
    ensures
        r@ == sha256(bytes@),
        r@.len() == 32,
{
    <sha2::Sha256 as sha2::Digest>::digest(bytes).to_vec()
}

/// A value without blanks, the entries of objects in the order of their keys.
pub open spec fn canonical(m: JsonModel) -> Seq<char>
    decreases m,
{
    match m {
        JsonModel::Null => "null"@,
        JsonModel::Bool(b) => if b {
            "true"@
        } else {
            "false"@
        },
        JsonModel::Number(n) => json::number_text(n),
        JsonModel::Text(s) => json::quoted(s),
        JsonModel::Array(items) => "["@ + canonical_items(items) + "]"@,
        JsonModel::Object(entries) => "{"@ + canonical_entries(entries) + "}"@,
    }
}

/// The items with commas between them.
pub open spec fn canonical_items(items: Seq<JsonModel>) -> Seq<char>
    decreases items,
{
    if items.len() == 0 {
        seq![]
    } else if items.len() == 1 {
        canonical(items.last())
    } else {
        canonical_items(items.drop_last()) + ","@ + canonical(items.last())
    }
}

/// The entries with commas between them.
pub open spec fn canonical_entries(entries: Seq<(Seq<char>, JsonModel)>) -> Seq<char>
    decreases entries,
{
    if entries.len() == 0 {
        seq![]
    } else if entries.len() == 1 {
        json::quoted(entries.last().0) + ":"@ + canonical(entries.last().1)
    } else {
        canonical_entries(entries.drop_last()) + ","@ + (json::quoted(entries.last().0) + ":"@
            + canonical(entries.last().1))
    }
}

/// A value without blanks, the entries of objects in the order of their keys.
pub fn canonicalize_json(value: &Json) -> (r: String)
    ensures
        r@ == canonical(value@),
    decreases value,
{
    match value {
        Json::Null => text::owned("null"),
        Json::Bool(b) => if *b {
            text::owned("true")
        } else {
            text::owned("false")
        },
        Json::Number(n) => json::number_to_string(n),
        Json::Text(s) => json::quoted_text(s.as_str()),
        Json::Array(items) => {
            proof {
                json::lemma_array(*items);
            }
            let ghost all = items.deep_view();
            let mut inner = String::new();
            let mut i: usize = 0;
            proof {
                assert(all.take(0) =~= seq![]);
                assert(inner@ =~= seq![]);
            }
            while i < items.len()
                invariant
                    i <= items@.len(),
                    all == items.deep_view(),
                    decreases_to!(*value => *items),
                    inner@ == canonical_items(all.take(i as int)),
                decreases items@.len() - i,
            {
                proof {
                    assert(all.take(i + 1).drop_last() =~= all.take(i as int));
                    assert(all.take(i + 1).last() == items@[i as int]@);
                }
                if i > 0 {
                    inner.append(",");
                }
                let part = canonicalize_json(&items[i]);
                let ghost head = inner@;
                inner.append(part.as_str());
                proof {
                    if i == 0 {
                        assert(inner@ =~= part@);
                    }
                }
                i = i + 1;
            }
            assert(all.take(all.len() as int) =~= all);
            text::concat3("[", inner.as_str(), "]")
        },
        Json::Object(object) => {
            let ghost all = object@;
            let mut inner = String::new();
            let mut i: usize = 0;
            proof {
                assert(all.take(0) =~= seq![]);
                assert(inner@ =~= seq![]);
            }
            while i < object.len()
                invariant
                    i <= all.len(),
                    all == object@,
                    decreases_to!(*value => *object),
                    inner@ == canonical_entries(all.take(i as int)),
                decreases all.len() - i,
            {
                proof {
                    assert(all.take(i + 1).drop_last() =~= all.take(i as int));
                    assert(all.take(i + 1).last() == all[i as int]);
                }
                if i > 0 {
                    inner.append(",");
                }
                let part = canonicalize_json(object.value_at(i));
                let key = json::quoted_text(object.key_at(i));
                let pair = text::concat3(key.as_str(), ":", part.as_str());
                inner.append(pair.as_str());
                proof {
                    if i == 0 {
                        assert(inner@ =~= pair@);
                    }
                }
                i = i + 1;
            }
            assert(all.take(all.len() as int) =~= all);
            text::concat3("{", inner.as_str(), "}")
        },
    }
}

/// The hexadecimal digit of a number below sixteen.
pub open spec fn hex_digit(n: nat) -> char {
    if n < 10 {
        (('0' as u8) + n) as u8 as char
    } else {
        (('a' as u8) + (n - 10)) as u8 as char
    }
}

/// Two hexadecimal digits for every byte.
pub open spec fn hex(bytes: Seq<u8>) -> Seq<char>
    decreases bytes.len(),
{
    if bytes.len() == 0 {
        seq![]
    } else {
        hex(bytes.drop_last()).push(hex_digit((bytes.last() / 16) as nat)).push(
            hex_digit((bytes.last() % 16) as nat),
        )
    }
}

fn hex_char(n: u8) -> (r: char)
    requires
        n < 16,
    ensures
        r == hex_digit(n as nat),
{
    if n < 10 {
        (48 + n) as char
    } else {
        (97 + (n - 10)) as char
    }
}

fn hex_text(bytes: &Vec<u8>) -> (r: String)
    ensures
        r@ == hex(bytes@),
{
    let mut r = String::new();
    let mut i: usize = 0;
    proof {
        assert(bytes@.take(0) =~= seq![]);
        assert(r@ =~= seq![]);
    }
    while i < bytes.len()
        invariant
            i <= bytes@.len(),
            r@ == hex(bytes@.take(i as int)),
        decreases bytes@.len() - i,
    {
        proof {
            assert(bytes@.take(i + 1).drop_last() =~= bytes@.take(i as int));
            assert(bytes@.take(i + 1).last() == bytes@[i as int]);
        }
        r.push(hex_char(bytes[i] / 16));
        r.push(hex_char(bytes[i] % 16));
        i = i + 1;
    }
    assert(bytes@.take(bytes@.len() as int) =~= bytes@);
    r
}

/// The hash of a request: that of its canonical form.
pub open spec fn request_hash(body: JsonModel) -> Seq<char> {
    hex(sha256(vstd::utf8::encode_utf8(canonical(body))))
}

/// The hash of a request.
pub fn request_hash_hex(body: &Json) -> (r: String)
    ensures
        r@ == request_hash(body@),
        r@.len() == 64,
{
    let form = canonicalize_json(body);
    let bytes = digest(form.as_str().as_bytes());
    proof {
        lemma_hex_len(bytes@);
    }
    hex_text(&bytes)
}

/// Two digits for every byte.
proof fn lemma_hex_len(bytes: Seq<u8>)
    ensures
        hex(bytes).len() == 2 * bytes.len(),
    decreases bytes.len(),
{
    if bytes.len() > 0 {
        lemma_hex_len(bytes.drop_last());
    }
}

// ---------------------------------------------------------------------------
// Requests

/// A tool as the model expects it.
pub open spec fn function_tool(t: DefinitionModel) -> JsonModel {
    JsonModel::empty_object().with("type"@, JsonModel::Text("function"@)).with(
        "function"@,
        JsonModel::empty_object().with("name"@, JsonModel::Text(t.name)).with(
            "description"@,
            JsonModel::Text(t.description),
        ).with("parameters"@, t.input_schema),
    )
}

/// The body of a request. Tools are offered only where there are any.
pub open spec fn request_body(
    model: Seq<char>,
    messages: Seq<JsonModel>,
    tools: Seq<DefinitionModel>,
) -> JsonModel {
    let body = JsonModel::empty_object().with("model"@, JsonModel::Text(model)).with(
        "messages"@,
        JsonModel::Array(messages),
    ).with("stream"@, JsonModel::Bool(false));
    if tools.len() == 0 {
        body
    } else {
        body.with(
            "tools"@,
            JsonModel::Array(tools.map_values(|t: DefinitionModel| function_tool(t))),
        ).with("tool_choice"@, JsonModel::Text("auto"@))
    }
}

fn function_tools(tools: &Vec<ToolDefinition>) -> (r: Vec<Json>)
    ensures
        r.deep_view() == tools.deep_view().map_values(|t: DefinitionModel| function_tool(t)),
{
    let ghost wanted = tools.deep_view().map_values(|t: DefinitionModel| function_tool(t));
    let mut r: Vec<Json> = Vec::new();
    let mut i: usize = 0;
    assert(r.deep_view() =~= wanted.take(0));
    while i < tools.len()
        invariant
            i <= tools@.len(),
            wanted == tools.deep_view().map_values(|t: DefinitionModel| function_tool(t)),
            r.deep_view() == wanted.take(i as int),
        decreases tools@.len() - i,
    {
        let ghost before = r.deep_view();
        let t = &tools[i];
        let function = Json::empty_object().with("name", Json::text(t.name.as_str())).with(
            "description",
            Json::text(t.description.as_str()),
        ).with("parameters", t.input_schema.clone());
        let tool = Json::empty_object().with("type", Json::text("function")).with(
            "function",
            function,
        );
        let ghost model = tool@;
        assert(model == wanted[i as int]);
        r.push(tool);
        assert(r.deep_view() =~= before.push(model));
        assert(wanted.take(i + 1) =~= wanted.take(i as int).push(wanted[i as int]));
        i = i + 1;
    }
    assert(wanted.take(i as int) =~= wanted);
    r
}

/// The message of the first choice in the model's answer.
pub open spec fn first_choice(payload: JsonModel) -> Option<JsonModel> {
    match payload.items_at("choices"@) {
        Some(choices) => if choices.len() > 0 {
            choices[0].get("message"@)
        } else {
            None
        },
        None => None,
    }
}

/// What a request comes to, or the message of the error.
pub open spec fn completion(
    cfg: LlmConfig,
    url: Seq<char>,
    outcome: ChatOutcome,
) -> Result<AnswerModel, Seq<char>> {
    match outcome {
        ChatOutcome::Cached(found) => Ok(found.deep_view()),
        ChatOutcome::Unreachable => Err(
            "failed to call model api: url="@ + url + ", model="@ + cfg.model@
                + " (check network/proxy/LLM_API_KEY)"@,
        ),
        ChatOutcome::Refused(status, body) => Err(
            "model api error ("@ + status@ + "): "@ + (match body {
                Some(s) => s@,
                None => "<no body>"@,
            }),
        ),
        ChatOutcome::Undecodable => Err("failed to decode model api response"@),
        ChatOutcome::Answered(payload, reported) => match first_choice(payload@) {
            None => Err("model response missing choices[0].message"@),
            Some(message) => match reported {
                Some(Err(_)) => Err("model response usage payload was invalid"@),
                Some(Ok(u)) => Ok(AnswerModel { message, usage: u, cached: false }),
                None => Ok(AnswerModel { message, usage: usage::no_usage(), cached: false }),
            },
        },
    }
}

impl OpenAiCompatClient {
    /// A client with the given settings. It has a cache only where that is
    /// switched on.
    pub fn new(cfg: LlmConfig) -> (r: OpenAiCompatClient)
        ensures
            r.cfg == cfg,
            r.cache is Some == cfg.enable_prompt_cache,
            r.cache is Some ==> r.cache->0.dir@ == cfg.prompt_cache_dir@,
    {
        let cache = if cfg.enable_prompt_cache {
            Some(PromptCache::new(cfg.prompt_cache_dir.as_str()))
        } else {
            None
        };
        OpenAiCompatClient { cfg, cache }
    }

    /// The system prompt of every agent that works for another one.
    pub fn subagent_system_prompt(&self) -> (r: &'static str)
        ensures
            r@ == SUBAGENT_SYSTEM_PROMPT@,
    {
        SUBAGENT_SYSTEM_PROMPT
    }

    /// When conversations are compacted.
    pub fn context_compact_config(&self) -> (r: &ContextCompactConfig)
        ensures
            *r == self.cfg.context_compact,
    {
        &self.cfg.context_compact
    }

    /// Whether every exchange is logged.
    pub fn write_model_audit_log_enabled(&self) -> (r: bool)
        ensures
            r == self.cfg.write_model_audit_log,
    {
        self.cfg.write_model_audit_log
    }

    /// The log of a subagent: in a directory beside the configured log, with
    /// the id of the subagent in its name.
    pub fn subagent_audit_log_path(&self, subagent_id: &str) -> (r: String)
        ensures
            r@ == subagent_log(self.cfg.model_audit_log_path@, subagent_id@),
    {
        let configured = self.cfg.model_audit_log_path.as_str();
        let parent = match paths::parent_of(configured) {
            Some(p) => p,
            None => text::owned("."),
        };
        let dir = paths::path_join(parent.as_str(), "subagents");
        let stem = match paths::file_stem_of(configured) {
            Some(s) => s,
            None => text::owned("llm_response_audit"),
        };
        let extension = match paths::extension_of(configured) {
            Some(s) => s,
            None => text::owned("json"),
        };
        let mut name = text::concat3(stem.as_str(), "_subagent_", subagent_id);
        name.append(".");
        name.append(extension.as_str());
        paths::path_join(dir.as_str(), name.as_str())
    }

    /// What is sent for an answer.
    pub fn chat_request(&self, messages: &Vec<Json>, tools: &Vec<ToolDefinition>) -> (r:
        ChatRequest)
        ensures
            r.url@ == self.cfg.base_url@ + "/chat/completions"@,
            r.body@ == request_body(self.cfg.model@, messages.deep_view(), tools.deep_view()),
            r.request_hash@ == request_hash(r.body@),
    {
        let items = json::clone_range(messages, 0, messages.len());
        assert(items.deep_view() =~= messages.deep_view());
        let mut body = Json::empty_object().with("model", Json::text(self.cfg.model.as_str())).with(
            "messages",
            Json::array(items),
        ).with("stream", Json::Bool(false));
        if tools.len() > 0 {
            body = body.with("tools", Json::array(function_tools(tools))).with(
                "tool_choice",
                Json::text("auto"),
            );
        }
        let request_hash = request_hash_hex(&body);
        ChatRequest {
            url: text::concat(self.cfg.base_url.as_str(), "/chat/completions"),
            body,
            request_hash,
        }
    }

    /// What a request comes to.
    pub fn create_chat_completion_with_audit_path(
        &self,
        request: &ChatRequest,
        outcome: ChatOutcome,
    ) -> (r: Result<ChatCompletionResult, String>)
        ensures
            match r {
                Ok(answer) => completion(self.cfg, request.url@, outcome) == Ok::<
                    AnswerModel,
                    Seq<char>,
                >(answer.deep_view()),
                Err(e) => completion(self.cfg, request.url@, outcome) == Err::<
                    AnswerModel,
                    Seq<char>,
                >(e@),
            },
    {
        match outcome {
            ChatOutcome::Cached(found) => Ok(found),
            ChatOutcome::Unreachable => {
                let mut e = text::concat3(
                    "failed to call model api: url=",
                    request.url.as_str(),
                    ", model=",
                );
                e.append(self.cfg.model.as_str());
                e.append(" (check network/proxy/LLM_API_KEY)");
                Err(e)
            },
            ChatOutcome::Refused(status, body) => {
                let mut e = text::concat3("model api error (", status.as_str(), "): ");
                match &body {
                    Some(s) => e.append(s.as_str()),
                    None => e.append("<no body>"),
                }
                Err(e)
            },
            ChatOutcome::Undecodable => Err(text::owned("failed to decode model api response")),
            ChatOutcome::Answered(payload, reported) => {
                let message = match payload.get_array("choices") {
                    Some(choices) => if choices.len() > 0 {
                        assert(choices.deep_view()[0] == choices@[0]@);
                        match choices[0].get("message") {
                            Some(m) => Some(m.clone()),
                            None => None,
                        }
                    } else {
                        None
                    },
                    None => None,
                };
                match message {
                    None => Err(text::owned("model response missing choices[0].message")),
                    Some(message) => match reported {
                        Some(Err(_)) => Err(
                            text::owned("model response usage payload was invalid"),
                        ),
                        Some(Ok(usage)) => Ok(
                            ChatCompletionResult { message, usage, cached: false },
                        ),
                        None => Ok(
                            ChatCompletionResult {
                                message,
                                usage: ModelUsage::default(),
                                cached: false,
                            },
                        ),
                    },
                }
            },
        }
    }

    /// The log that an exchange is written to, if it is.
    pub fn audit_log_path(&self, audit_log_path_override: Option<&str>) -> (r: Option<String>)
        ensures
            r.deep_view() == (if !self.cfg.write_model_audit_log {
                None
            } else {
                match audit_log_path_override {
                    Some(p) => Some(p@),
                    None => Some(self.cfg.model_audit_log_path@),
                }
            }),
    {
        if !self.cfg.write_model_audit_log {
            return None;
        }
        match audit_log_path_override {
            Some(p) => Some(text::owned(p)),
            None => Some(text::owned(self.cfg.model_audit_log_path.as_str())),
        }
    }
}

/// The log of a subagent beside the configured log.
pub open spec fn subagent_log(configured: Seq<char>, subagent_id: Seq<char>) -> Seq<char> {
    let parent = match paths::parent(configured) {
        Some(p) => p,
        None => "."@,
    };
    let stem = match paths::file_stem(configured) {
        Some(s) => s,
        None => "llm_response_audit"@,
    };
    let extension = match paths::extension(configured) {
        Some(s) => s,
        None => "json"@,
    };
    paths::path_joined(
        paths::path_joined(parent, "subagents"@),
        stem + "_subagent_"@ + subagent_id + "."@ + extension,
    )
}

// ---------------------------------------------------------------------------
// The log of all exchanges

/// One exchange in the log.
pub open spec fn audit_record(now_ms: u64, request: JsonModel, response: JsonModel) -> JsonModel {
    JsonModel::empty_object().with("event"@, JsonModel::Text("llm_exchange"@)).with(
        "ts_unix_ms"@,
        JsonModel::uint(now_ms),
    ).with("request"@, request).with("response"@, response)
}

/// The records of a log, none for a blank one.
pub open spec fn audit_records(contents: Seq<char>) -> Option<Seq<JsonModel>> {
    if text::is_blank(contents) {
        Some(seq![])
    } else {
        match json::parsed(contents) {
            Ok(m) => m.as_items(),
            Err(_) => None,
        }
    }
}

/// The text of the log at `path` with one more exchange. `contents` is what the
/// log holds so far; a log that could not be read starts anew. The records that
/// are written are the ones that the log is then read as.
pub fn append_audit_record(
    path: &str,
    contents: Option<&str>,
    now_ms: u64,
    request: &Json,
    response: &Json,
) -> (r: Result<String, String>)
    ensures
        ({
            let before = match contents {
                Some(c) => audit_records(c@),
                None => Some(seq![]),
            };
            match r {
                Ok(log) => {
                    let records = before->0.push(audit_record(now_ms, request@, response@));
                    &&& before is Some
                    &&& log@ == json::pretty_text(JsonModel::Array(records))
                    &&& JsonModel::Array(records).reads_back() ==> audit_records(log@) == Some(
                        records,
                    )
                },
                Err(e) => before is None && e@ == "failed to parse existing audit log: "@ + path@,
            }
        }),
{
    let record = Json::empty_object().with("event", Json::text("llm_exchange")).with(
        "ts_unix_ms",
        Json::uint(now_ms),
    ).with("request", request.clone()).with("response", response.clone());
    let mut records: Vec<Json> = Vec::new();
    assert(records.deep_view() =~= seq![]);
    match contents {
        Some(c) => {
            let trimmed = text::trim(c);
            if text::char_count(trimmed.as_str()) > 0 {
                match json::parse_json(c) {
                    Ok(Json::Array(items)) => {
                        proof {
                            json::lemma_array(items);
                        }
                        records = items;
                    },
                    _ => {
                        return Err(text::concat("failed to parse existing audit log: ", path));
                    },
                }
            }
        },
        None => {},
    }
    let ghost before = records.deep_view();
    let ghost model = record@;
    records.push(record);
    assert(records.deep_view() =~= before.push(model));
    Ok(Json::array(records).to_pretty_string())
}

// ---------------------------------------------------------------------------
// Laws

/// A request carries the model that is asked, the whole conversation and every
/// tool; where there are no tools it does not speak of any.
pub proof fn lemma_request_is_complete(
    model: Seq<char>,
    messages: Seq<JsonModel>,
    tools: Seq<DefinitionModel>,
)
    ensures
        ({
            let body = request_body(model, messages, tools);
            &&& body.text_at("model"@) == Some(model)
            &&& body.items_at("messages"@) == Some(messages)
            &&& body.get("stream"@) == Some(JsonModel::Bool(false))
            &&& tools.len() == 0 ==> body.get("tools"@) is None && body.get("tool_choice"@) is None
            &&& tools.len() > 0 ==> {
                &&& body.text_at("tool_choice"@) == Some("auto"@)
                &&& body.items_at("tools"@) is Some
                &&& body.items_at("tools"@)->0.len() == tools.len()
                &&& forall|i: int|
                    0 <= i < tools.len() ==> #[trigger] body.items_at("tools"@)->0[i]
                        == function_tool(tools[i])
            }
        }),
{
    reveal_strlit("model");
    reveal_strlit("messages");
    reveal_strlit("stream");
    reveal_strlit("tools");
    reveal_strlit("tool_choice");
    assert("model"@.len() != "messages"@.len());
    assert("model"@.len() != "stream"@.len());
    assert("model"@[0] != "tools"@[0]);
    assert("model"@.len() != "tool_choice"@.len());
    assert("messages"@.len() != "stream"@.len());
    assert("messages"@.len() != "tools"@.len());
    assert("messages"@.len() != "tool_choice"@.len());
    assert("stream"@.len() != "tools"@.len());
    assert("stream"@.len() != "tool_choice"@.len());
    assert("tools"@.len() != "tool_choice"@.len());
    let e = JsonModel::empty_object();
    let b1 = e.with("model"@, JsonModel::Text(model));
    let b2 = b1.with("messages"@, JsonModel::Array(messages));
    let b3 = b2.with("stream"@, JsonModel::Bool(false));
    json::lemma_with_is_read(e, "model"@, JsonModel::Text(model));
    json::lemma_with_is_read(b1, "messages"@, JsonModel::Array(messages));
    json::lemma_with_is_read(b2, "stream"@, JsonModel::Bool(false));
    let shown = JsonModel::Array(tools.map_values(|t: DefinitionModel| function_tool(t)));
    json::lemma_with_is_read(b3, "tools"@, shown);
    json::lemma_with_is_read(b3.with("tools"@, shown), "tool_choice"@, JsonModel::Text("auto"@));
    assert(e.get("tools"@) is None);
    assert(e.get("tool_choice"@) is None);
}

/// The model is told of a tool under its name, with what it is for and what it
/// takes.
pub proof fn lemma_tool_is_described(t: DefinitionModel)
    ensures
        ({
            let shown = function_tool(t);
            &&& shown.text_at("type"@) == Some("function"@)
            &&& shown.get("function"@) is Some
            &&& shown.get("function"@)->0.text_at("name"@) == Some(t.name)
            &&& shown.get("function"@)->0.text_at("description"@) == Some(t.description)
            &&& shown.get("function"@)->0.get("parameters"@) == Some(t.input_schema)
        }),
{
    reveal_strlit("type");
    reveal_strlit("function");
    assert("type"@.len() != "function"@.len());
    reveal_strlit("name");
    reveal_strlit("description");
    reveal_strlit("parameters");
    assert("name"@.len() != "description"@.len());
    assert("name"@.len() != "parameters"@.len());
    assert("description"@.len() != "parameters"@.len());
    let e = JsonModel::empty_object();
    let f1 = e.with("name"@, JsonModel::Text(t.name));
    let f2 = f1.with("description"@, JsonModel::Text(t.description));
    json::lemma_with_is_read(e, "name"@, JsonModel::Text(t.name));
    json::lemma_with_is_read(f1, "description"@, JsonModel::Text(t.description));
    json::lemma_with_is_read(f2, "parameters"@, t.input_schema);
    let s1 = e.with("type"@, JsonModel::Text("function"@));
    json::lemma_with_is_read(e, "type"@, JsonModel::Text("function"@));
    json::lemma_with_is_read(s1, "function"@, f2.with("parameters"@, t.input_schema));
}

/// An answer of the service gives the message of its first choice, with the
/// usage that it reports; without such a message, or with a usage that cannot be
/// read, there is no answer. What the cache holds is given as it is.
pub proof fn lemma_first_choice_is_the_answer(
    cfg: LlmConfig,
    url: Seq<char>,
    payload: Json,
    choices: Seq<JsonModel>,
    message: JsonModel,
    u: ModelUsage,
)
    requires
        payload@.items_at("choices"@) == Some(choices),
        choices.len() > 0,
        choices[0].get("message"@) == Some(message),
    ensures
        completion(cfg, url, ChatOutcome::Answered(payload, Some(Ok(u)))) == Ok::<
            AnswerModel,
            Seq<char>,
        >(AnswerModel { message, usage: u, cached: false }),
        completion(cfg, url, ChatOutcome::Answered(payload, None)) == Ok::<AnswerModel, Seq<char>>(
            AnswerModel { message, usage: usage::no_usage(), cached: false },
        ),
{
}

/// An answer without a choice is a failure, and so is a service that cannot be
/// reached, that refuses, or whose answer cannot be read.
pub proof fn lemma_no_choice_no_answer(cfg: LlmConfig, url: Seq<char>, outcome: ChatOutcome)
    ensures
        completion(cfg, url, outcome) is Ok ==> outcome is Cached || outcome is Answered,
        forall|payload: Json, reported: Option<Result<ModelUsage, String>>|
            outcome == ChatOutcome::Answered(payload, reported) && (payload@.items_at("choices"@)
                is None || payload@.items_at("choices"@)->0.len() == 0 || payload@.items_at(
                "choices"@,
            )->0[0].get("message"@) is None) ==> completion(cfg, url, outcome) is Err,
        outcome matches ChatOutcome::Cached(found) ==> completion(cfg, url, outcome) == Ok::<
            AnswerModel,
            Seq<char>,
        >(found.deep_view()),
{
}

/// Everything in a list goes into the text by which a request is recognised.
pub proof fn lemma_items_are_recognised(items: Seq<JsonModel>, i: int)
    requires
        0 <= i < items.len(),
    ensures
        text::has_text(canonical(JsonModel::Array(items)), canonical(items[i])),
{
    lemma_item_stands(items, i);
    text::lemma_has_text_within("["@, canonical_items(items), "]"@, canonical(items[i]));
}

proof fn lemma_item_stands(items: Seq<JsonModel>, i: int)
    requires
        0 <= i < items.len(),
    ensures
        text::has_text(canonical_items(items), canonical(items[i])),
    decreases items.len(),
{
    let wanted = canonical(items[i]);
    if i == items.len() - 1 {
        if items.len() == 1 {
            text::lemma_has_itself(wanted);
        } else {
            text::lemma_has_itself(wanted);
            let head = canonical_items(items.drop_last()) + ","@;
            text::lemma_has_text_within(head, wanted, seq![], wanted);
            assert(head + wanted + seq![] =~= head + wanted);
        }
    } else {
        assert(items.drop_last()[i] == items[i]);
        lemma_item_stands(items.drop_last(), i);
        let head = canonical_items(items.drop_last());
        let tail = ","@ + canonical(items.last());
        text::lemma_has_text_within(seq![], head, tail, wanted);
        assert(seq![] + head + tail =~= canonical_items(items));
    }
}

/// Every entry of an object goes, with its key, into the text by which a request
/// is recognised.
pub proof fn lemma_entries_are_recognised(entries: Seq<(Seq<char>, JsonModel)>, i: int)
    requires
        0 <= i < entries.len(),
    ensures
        text::has_text(
            canonical(JsonModel::Object(entries)),
            json::quoted(entries[i].0) + ":"@ + canonical(entries[i].1),
        ),
{
    lemma_entry_stands(entries, i);
    text::lemma_has_text_within(
        "{"@,
        canonical_entries(entries),
        "}"@,
        json::quoted(entries[i].0) + ":"@ + canonical(entries[i].1),
    );
}

proof fn lemma_entry_stands(entries: Seq<(Seq<char>, JsonModel)>, i: int)
    requires
        0 <= i < entries.len(),
    ensures
        text::has_text(
            canonical_entries(entries),
            json::quoted(entries[i].0) + ":"@ + canonical(entries[i].1),
        ),
    decreases entries.len(),
{
    let wanted = json::quoted(entries[i].0) + ":"@ + canonical(entries[i].1);
    if i == entries.len() - 1 {
        text::lemma_has_itself(wanted);
        if entries.len() > 1 {
            let head = canonical_entries(entries.drop_last()) + ","@;
            text::lemma_has_text_within(head, wanted, seq![], wanted);
            assert(head + wanted + seq![] =~= canonical_entries(entries));
        }
    } else {
        assert(entries.drop_last()[i] == entries[i]);
        lemma_entry_stands(entries.drop_last(), i);
        let head = canonical_entries(entries.drop_last());
        let last = json::quoted(entries.last().0) + ":"@ + canonical(entries.last().1);
        text::lemma_has_text_within(seq![], head, ","@ + last, wanted);
        assert(seq![] + head + (","@ + last) =~= canonical_entries(entries));
    }
}

/// The plain values are told apart.
pub proof fn lemma_plain_values_are_recognised(s: Seq<char>)
    ensures
        canonical(JsonModel::Null) == "null"@,
        canonical(JsonModel::Bool(true)) == "true"@,
        canonical(JsonModel::Bool(false)) == "false"@,
        canonical(JsonModel::Text(s)) == json::quoted(s),
{
}

/// Two digits stand for each byte: different bytes are written differently.
pub proof fn lemma_hex_stands_for_bytes(bytes: Seq<u8>, i: int)
    requires
        0 <= i < bytes.len(),
    ensures
        hex(bytes).len() == 2 * bytes.len(),
        hex(bytes)[2 * i] == hex_digit((bytes[i] / 16) as nat),
        hex(bytes)[2 * i + 1] == hex_digit((bytes[i] % 16) as nat),
    decreases bytes.len(),
{
    let head = hex(bytes.drop_last());
    if bytes.len() == 1 {
        assert(head.len() == 0);
    } else if i == bytes.len() - 1 {
        lemma_hex_stands_for_bytes(bytes.drop_last(), 0);
    } else {
        lemma_hex_stands_for_bytes(bytes.drop_last(), i);
        assert(bytes.drop_last()[i] == bytes[i]);
    }
}

/// The digits are the usual ones.
pub proof fn lemma_hex_digits(n: nat)
    requires
        n < 16,
    ensures
        hex_digit(n) == "0123456789abcdef"@[n as int],
{
    reveal_strlit("0123456789abcdef");
}

/// An exchange is logged with its time, with what was asked and with what was
/// answered.
pub proof fn lemma_exchange_is_logged(now_ms: u64, request: JsonModel, response: JsonModel)
    ensures
        audit_record(now_ms, request, response).get("request"@) == Some(request),
        audit_record(now_ms, request, response).get("response"@) == Some(response),
        audit_record(now_ms, request, response).get("ts_unix_ms"@) == Some(
            JsonModel::uint(now_ms),
        ),
        audit_record(now_ms, request, response).text_at("event"@) == Some("llm_exchange"@),
{
    reveal_strlit("event");
    reveal_strlit("ts_unix_ms");
    reveal_strlit("request");
    reveal_strlit("response");
    assert("event"@.len() != "ts_unix_ms"@.len());
    assert("event"@.len() != "request"@.len());
    assert("event"@.len() != "response"@.len());
    assert("ts_unix_ms"@.len() != "request"@.len());
    assert("ts_unix_ms"@.len() != "response"@.len());
    assert("request"@.len() != "response"@.len());
    let e = JsonModel::empty_object();
    let a1 = e.with("event"@, JsonModel::Text("llm_exchange"@));
    let a2 = a1.with("ts_unix_ms"@, JsonModel::uint(now_ms));
    let a3 = a2.with("request"@, request);
    json::lemma_with_is_read(e, "event"@, JsonModel::Text("llm_exchange"@));
    json::lemma_with_is_read(a1, "ts_unix_ms"@, JsonModel::uint(now_ms));
    json::lemma_with_is_read(a2, "request"@, request);
    json::lemma_with_is_read(a3, "response"@, response);
}

/// A log that holds nothing has no records; one that holds an array has its
/// items, and one that holds anything else is no log.
pub proof fn lemma_log_is_read(contents: Seq<char>, items: Seq<JsonModel>)
    ensures
        text::is_blank(contents) ==> audit_records(contents) == Some(Seq::<JsonModel>::empty()),
        !text::is_blank(contents) && json::parsed(contents) == Ok::<JsonModel, Seq<char>>(
            JsonModel::Array(items),
        ) ==> audit_records(contents) == Some(items),
        !text::is_blank(contents) && json::parsed(contents) is Err ==> audit_records(
            contents,
        ) is None,
        !text::is_blank(contents) && json::parsed(contents) is Ok && !(json::parsed(
            contents,
        )->Ok_0 is Array) ==> audit_records(contents) is None,
{
}

/// A request is recognised by the whole of its canonical text.
pub proof fn lemma_whole_request_is_recognised(body: JsonModel)
    ensures
        request_hash(body) == hex(sha256(vstd::utf8::encode_utf8(canonical(body)))),
{
}

/// The log of a subagent lies beside the main one, in a directory for such logs,
/// under the same name with its own id.
pub proof fn lemma_log_of_subagent(
    dir: Seq<char>,
    stem: Seq<char>,
    ending: Seq<char>,
    id: Seq<char>,
)
    requires
        paths::is_plain_file(dir, stem, ending),
        stem[0] != '/',
    ensures
        subagent_log(dir.push('/') + stem.push('.') + ending, id) == paths::path_joined(
            paths::path_joined(dir, "subagents"@),
            stem + "_subagent_"@ + id + "."@ + ending,
        ),
{
    paths::lemma_parts_of_a_file(dir, stem, ending);
}

} // verus!
