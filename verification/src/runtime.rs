//! The loop between the model and its tools: what is done next, and what an
//! answer or the result of a tool changes.
use crate::compact;
use crate::compact::AutoCompactEvent;
use crate::config::ContextCompactConfig;
use crate::json::{Json, JsonModel};
use crate::llm::session;
use crate::llm::usage;
use crate::llm::usage::{ModelUsage, PromptCacheStats};
use crate::text;
use vstd::prelude::*;

verus! {

/// What happens while a turn runs.
#[derive(Debug)]
pub enum RuntimeEvent {
    AssistantMessage(Json),
    Compaction {
        removed_messages: usize,
        estimated_tokens_before: usize,
        transcript_path: Option<String>,
    },
    ToolCall { tool_call_id: String, name: String, arguments: String },
    ToolResult { tool_call_id: String, name: String, arguments: String, result: String },
}

/// What is to be done next.
#[derive(Debug)]
pub enum LoopAction {
    /// Ask the model for a summary with these messages.
    Summarise(Vec<Json>),
    /// Ask the model to go on with the conversation.
    AskModel,
    /// Call a tool.
    RunTool { tool_call_id: String, name: String, arguments: String },
    /// The turn is over with this answer.
    Finish(String),
    /// The turn has failed.
    Fail(String),
}

/// What is to be done next.
pub enum ActionModel {
    Summarise(Seq<JsonModel>),
    AskModel,
    RunTool(Seq<char>, Seq<char>, Seq<char>),
    Finish(Seq<char>),
    Fail(Seq<char>),
}

impl DeepView for LoopAction {
    type V = ActionModel;

    open spec fn deep_view(&self) -> ActionModel {
        match self {
            LoopAction::Summarise(messages) => ActionModel::Summarise(messages.deep_view()),
            LoopAction::AskModel => ActionModel::AskModel,
            LoopAction::RunTool { tool_call_id, name, arguments } => ActionModel::RunTool(
                tool_call_id@,
                name@,
                arguments@,
            ),
            LoopAction::Finish(s) => ActionModel::Finish(s@),
            LoopAction::Fail(s) => ActionModel::Fail(s@),
        }
    }
}

/// Where a turn stands.
#[derive(Debug)]
enum Phase {
    /// A step begins; the conversation may be too long.
    Begin,
    /// The model is to be asked.
    Ask,
    /// Tools are to be called, starting with the one at the position.
    Tools(Vec<Json>, usize),
    /// The model has given its answer.
    Answered(String),
}

/// Where a turn stands.
pub enum PhaseModel {
    Begin,
    Ask,
    Tools(Seq<JsonModel>, nat),
    Answered(Seq<char>),
}

/// A turn under way.
#[derive(Debug)]
pub struct MessageLoop {
    max_steps: usize,
    steps: usize,
    phase: Phase,
}

/// A turn under way: how often the model may be asked, how often it was, and
/// where the turn stands.
pub struct LoopModel {
    pub max_steps: nat,
    pub steps: nat,
    pub phase: PhaseModel,
}

impl View for MessageLoop {
    type V = LoopModel;

    closed spec fn view(&self) -> LoopModel {
        LoopModel {
            max_steps: self.max_steps as nat,
            steps: self.steps as nat,
            phase: match self.phase {
                Phase::Begin => PhaseModel::Begin,
                Phase::Ask => PhaseModel::Ask,
                Phase::Tools(calls, next) => PhaseModel::Tools(calls.deep_view(), next as nat),
                Phase::Answered(s) => PhaseModel::Answered(s@),
            },
        }
    }
}

impl LoopModel {
    /// The model was not asked more often than it may be, and a tool that is to
    /// be called exists.
    pub open spec fn consistent(self) -> bool {
        &&& self.steps <= self.max_steps
        &&& self.phase matches PhaseModel::Tools(calls, next) ==> next < calls.len()
        &&& self.phase is Ask ==> self.steps < self.max_steps
    }

    /// The tool call that is next, if there is one and nothing is missing from
    /// it.
    pub open spec fn current_call(self) -> Option<(Seq<char>, Seq<char>, Seq<char>)> {
        match self.phase {
            PhaseModel::Tools(calls, next) => match call_of(calls[next as int]) {
                Ok(call) => Some(call),
                Err(_) => None,
            },
            _ => None,
        }
    }
}

/// The failure of a turn in which the model was asked as often as it may be.
pub open spec fn out_of_steps(max_steps: nat) -> Seq<char> {
    "model/tool loop reached max steps ("@ + text::decimal(max_steps) + ") without final answer"@
}

/// What a tool call asks for, or what is missing from it.
pub open spec fn call_of(call: JsonModel) -> Result<(Seq<char>, Seq<char>, Seq<char>), Seq<char>> {
    match call.text_at("id"@) {
        None => Err("tool call id missing"@),
        Some(id) => match call.get("function"@) {
            Some(function) => if function is Object {
                match function.text_at("name"@) {
                    None => Err("tool function name missing"@),
                    Some(name) => match function.text_at("arguments"@) {
                        None => Err("tool function arguments missing"@),
                        Some(arguments) => Ok((id, name, arguments)),
                    },
                }
            } else {
                Err("tool function payload missing"@)
            },
            None => Err("tool function payload missing"@),
        },
    }
}

/// The id of a call.
pub open spec fn call_id(call: Option<(Seq<char>, Seq<char>, Seq<char>)>) -> Seq<char> {
    match call {
        Some((id, _, _)) => id,
        None => seq![],
    }
}

/// The id under which a tool call is answered.
pub open spec fn id_of_call(call: JsonModel) -> Seq<char> {
    match call_of(call) {
        Ok((id, _, _)) => id,
        Err(_) => seq![],
    }
}

/// What is to be done next in a conversation.
pub open spec fn next_action(
    l: LoopModel,
    messages: Seq<JsonModel>,
    cfg: ContextCompactConfig,
) -> ActionModel {
    match l.phase {
        PhaseModel::Begin => if l.steps >= l.max_steps {
            ActionModel::Fail(out_of_steps(l.max_steps))
        } else {
            match compact::compaction_request(messages, cfg) {
                Some(request) => ActionModel::Summarise(request),
                None => ActionModel::AskModel,
            }
        },
        PhaseModel::Ask => ActionModel::AskModel,
        PhaseModel::Tools(calls, next) => match call_of(calls[next as int]) {
            Ok((id, name, arguments)) => ActionModel::RunTool(id, name, arguments),
            Err(e) => ActionModel::Fail(e),
        },
        PhaseModel::Answered(s) => ActionModel::Finish(s),
    }
}

/// The tool calls that a message asks for.
pub open spec fn calls_in(m: JsonModel) -> Seq<JsonModel> {
    match m.items_at("tool_calls"@) {
        Some(calls) => calls,
        None => seq![],
    }
}

/// The answer in a message that asks for no tool calls.
pub open spec fn answer_in(m: JsonModel) -> Seq<char> {
    match m.text_at("content"@) {
        Some(content) => if text::is_blank(content) {
            "(model returned empty response)"@
        } else {
            text::trimmed(content)
        },
        None => "(model returned empty response)"@,
    }
}

/// The turn after the model has answered.
pub open spec fn after_reply(l: LoopModel, reply: JsonModel) -> LoopModel {
    LoopModel {
        max_steps: l.max_steps,
        steps: l.steps + 1,
        phase: if calls_in(reply).len() == 0 {
            PhaseModel::Answered(answer_in(reply))
        } else {
            PhaseModel::Tools(calls_in(reply), 0)
        },
    }
}

/// A message with the result of a tool call.
pub open spec fn tool_message(tool_call_id: Seq<char>, content: Seq<char>) -> JsonModel {
    JsonModel::empty_object().with("role"@, JsonModel::Text("tool"@)).with(
        "tool_call_id"@,
        JsonModel::Text(tool_call_id),
    ).with("content"@, JsonModel::Text(content))
}

/// What the model is told of the result of a tool.
pub open spec fn tool_content(result: Result<Seq<char>, Seq<char>>) -> Seq<char> {
    match result {
        Ok(output) => output,
        Err(e) => "tool_error: "@ + e,
    }
}

/// The turn after a tool was called.
pub open spec fn after_tool(l: LoopModel) -> LoopModel {
    match l.phase {
        PhaseModel::Tools(calls, next) => LoopModel {
            phase: if calls.len() - next > 1 {
                PhaseModel::Tools(calls, next + 1)
            } else {
                PhaseModel::Begin
            },
            ..l
        },
        _ => l,
    }
}

/// The result of a tool as the model is told of it.
pub fn tool_result_content(result: Result<String, String>) -> (r: String)
    ensures
        r@ == tool_content(
            (match result {
                Ok(s) => Ok(s@),
                Err(e) => Err(e@),
            }),
        ),
{
    match result {
        Ok(output) => output,
        Err(e) => text::concat("tool_error: ", e.as_str()),
    }
}

fn action_of_call(call: &Json) -> (r: LoopAction)
    ensures
        r.deep_view() == (match call_of(call@) {
            Ok((id, name, arguments)) => ActionModel::RunTool(id, name, arguments),
            Err(e) => ActionModel::Fail(e),
        }),
{
    let id = match call.get_str("id") {
        Some(s) => s,
        None => {
            return LoopAction::Fail(text::owned("tool call id missing"));
        },
    };
    let function = match call.get("function") {
        Some(f) => f,
        None => {
            return LoopAction::Fail(text::owned("tool function payload missing"));
        },
    };
    match function {
        Json::Object(_) => {},
        _ => {
            return LoopAction::Fail(text::owned("tool function payload missing"));
        },
    }
    let name = match function.get_str("name") {
        Some(s) => s,
        None => {
            return LoopAction::Fail(text::owned("tool function name missing"));
        },
    };
    let arguments = match function.get_str("arguments") {
        Some(s) => s,
        None => {
            return LoopAction::Fail(text::owned("tool function arguments missing"));
        },
    };
    LoopAction::RunTool {
        tool_call_id: text::owned(id),
        name: text::owned(name),
        arguments: text::owned(arguments),
    }
}

impl MessageLoop {
    /// A turn in which the model may be asked so many times, which must not be
    /// never.
    pub fn start(max_steps: usize) -> (r: Result<MessageLoop, String>)
        ensures
            match r {
                Ok(l) => max_steps > 0 && l@ == (LoopModel {
                    max_steps: max_steps as nat,
                    steps: 0,
                    phase: PhaseModel::Begin,
                }) && l@.consistent(),
                Err(e) => max_steps == 0 && e@ == "max_steps must be greater than 0"@,
            },
    {
        if max_steps == 0 {
            return Err(text::owned("max_steps must be greater than 0"));
        }
        Ok(MessageLoop { max_steps, steps: 0, phase: Phase::Begin })
    }

    /// What is to be done next.
    pub fn next(&self, messages: &Vec<Json>, cfg: &ContextCompactConfig) -> (r: LoopAction)
        requires
            self@.consistent(),
        ensures
            r.deep_view() == next_action(self@, messages.deep_view(), *cfg),
    {
        match &self.phase {
            Phase::Begin => {
                if self.steps >= self.max_steps {
                    let number = text::decimal_of(self.max_steps as u128);
                    return LoopAction::Fail(
                        text::concat3(
                            "model/tool loop reached max steps (",
                            number.as_str(),
                            ") without final answer",
                        ),
                    );
                }
                match compact::compact_summary_request(messages, cfg) {
                    Some(request) => LoopAction::Summarise(request),
                    None => LoopAction::AskModel,
                }
            },
            Phase::Ask => LoopAction::AskModel,
            Phase::Tools(calls, next) => {
                assert(calls.deep_view()[*next as int] == calls@[*next as int]@);
                action_of_call(&calls[*next])
            },
            Phase::Answered(s) => LoopAction::Finish(s.clone()),
        }
    }

    /// Takes in the summary that was asked for, or that there was none: the
    /// conversation is compacted if it can be, and the model is asked next.
    pub fn on_summary(
        &mut self,
        messages: &mut Vec<Json>,
        cfg: &ContextCompactConfig,
        reply: Result<Json, String>,
        transcript_path: Option<String>,
    ) -> (r: Option<AutoCompactEvent>)
        requires
            old(self)@.consistent(),
            old(self)@.phase is Begin,
            old(self)@.steps < old(self)@.max_steps,
        ensures
            final(self)@ == (LoopModel { phase: PhaseModel::Ask, ..old(self)@ }),
            final(self)@.consistent(),
            ({
                let before = old(messages).deep_view();
                let summary = match reply {
                    Ok(m) => compact::summary_of_reply(m@),
                    Err(_) => None,
                };
                match (compact::planned(before, *cfg), summary) {
                    (Some(plan), Some(new)) => {
                        &&& final(messages).deep_view() == compact::compacted(
                            before,
                            plan,
                            compact::merged(compact::first_summary(before), new),
                        )
                        &&& r is Some
                        &&& r->0.removed_messages == plan.removed_messages
                        &&& r->0.estimated_tokens_before == plan.estimated_tokens_before
                        &&& r->0.transcript_path == transcript_path
                    },
                    _ => final(messages).deep_view() == before && r is None,
                }
            }),
    {
        self.phase = Phase::Ask;
        compact::auto_compact_if_needed(messages, cfg, reply, transcript_path)
    }

    /// Takes in an answer of the model.
    pub fn on_reply(&mut self, messages: &mut Vec<Json>, reply: Json)
        requires
            old(self)@.consistent(),
            old(self)@.steps < old(self)@.max_steps,
        ensures
            final(self)@ == after_reply(old(self)@, reply@),
            final(self)@.consistent(),
            match reply@.items_at("tool_calls"@) {
                Some(calls) => if calls.len() > 0 {
                    final(self)@.phase == PhaseModel::Tools(calls, 0)
                } else {
                    final(self)@.phase is Answered
                },
                None => final(self)@.phase is Answered,
            },
            final(messages).deep_view() == old(messages).deep_view().push(reply@),
    {
        let ghost before = messages.deep_view();
        let ghost model = reply@;
        self.steps = self.steps + 1;
        let calls = match reply.get_array("tool_calls") {
            Some(v) => {
                let copies = crate::json::clone_range(v, 0, v.len());
                assert(copies.deep_view() =~= v.deep_view());
                copies
            },
            None => {
                let none: Vec<Json> = Vec::new();
                assert(none.deep_view() =~= seq![]);
                none
            },
        };
        if calls.len() > 0 {
            self.phase = Phase::Tools(calls, 0);
        } else {
            let answer = match reply.get_str("content") {
                Some(content) => text::trim(content),
                None => String::new(),
            };
            if text::char_count(answer.as_str()) > 0 {
                self.phase = Phase::Answered(answer);
            } else {
                self.phase = Phase::Answered(text::owned("(model returned empty response)"));
            }
        }
        messages.push(reply);
        assert(messages.deep_view() =~= before.push(model));
    }

    /// Takes in the result of the tool that was to be called.
    pub fn on_tool_result(&mut self, messages: &mut Vec<Json>, content: &str)
        requires
            old(self)@.consistent(),
            old(self)@.current_call() is Some,
        ensures
            final(self)@ == after_tool(old(self)@),
            final(self)@.consistent(),
            final(messages).deep_view() == old(messages).deep_view().push(
                tool_message(call_id(old(self)@.current_call()), content@),
            ),
    {
        let ghost before = messages.deep_view();
        let tool_call_id = match &self.phase {
            Phase::Tools(calls, next) => {
                assert(calls.deep_view()[*next as int] == calls@[*next as int]@);
                match calls[*next].get_str("id") {
                    Some(id) => text::owned(id),
                    None => String::new(),
                }
            },
            _ => String::new(),
        };
        let message = Json::empty_object().with("role", Json::text("tool")).with(
            "tool_call_id",
            Json::text(tool_call_id.as_str()),
        ).with("content", Json::text(content));
        let ghost model = message@;
        messages.push(message);
        assert(messages.deep_view() =~= before.push(model));
        let mut phase = Phase::Begin;
        std::mem::swap(&mut phase, &mut self.phase);
        match phase {
            Phase::Tools(calls, next) => {
                if calls.len() - next > 1 {
                    self.phase = Phase::Tools(calls, next + 1);
                }
            },
            other => {
                self.phase = other;
            },
        }
    }
}

/// Adds an answer to the totals: what the local cache answered did not cost
/// anything.
pub fn record_answer(stats: &mut PromptCacheStats, usage: &ModelUsage, cached: bool)
    requires
        if cached {
            old(stats).total_local_cache_hits < u64::MAX
        } else {
            old(stats).has_room_for(*usage)
        },
    ensures
        *final(stats) == (if cached {
            PromptCacheStats {
                total_local_cache_hits: (old(stats).total_local_cache_hits + 1) as u64,
                last_local_cache_hit: true,
                ..*old(stats)
            }
        } else {
            usage::recorded(*old(stats), *usage)
        }),
{
    if cached {
        stats.record_local_cache_hit();
    } else {
        stats.record_usage(usage);
    }
}

/// The messages that a subagent starts with.
pub fn subagent_messages(system_prompt: &str, user_prompt: &str) -> (r: Vec<Json>)
    ensures
        r.deep_view() == seq![
            session::text_message("system"@, system_prompt@),
            session::text_message("user"@, user_prompt@),
        ],
{
    let mut r: Vec<Json> = Vec::new();
    r.push(session::new_text_message("system", system_prompt));
    r.push(session::new_text_message("user", user_prompt));
    assert(r.deep_view() =~= seq![
        session::text_message("system"@, system_prompt@),
        session::text_message("user"@, user_prompt@),
    ]);
    r
}

/// The id under which the log of a subagent is kept.
pub fn subagent_audit_id(now_ms: u128, sequence: u64) -> (r: String)
    ensures
        r@ == text::decimal(now_ms as nat) + "_"@ + text::decimal(sequence as nat),
{
    let a = text::decimal_of(now_ms);
    let b = text::decimal_of(sequence as u128);
    text::concat3(a.as_str(), "_", b.as_str())
}

/// The note on a compaction for those who watch the program run.
pub fn compaction_note(event: &AutoCompactEvent) -> (r: String)
    ensures
        r@ == "info: auto compact triggered, removed "@ + text::decimal(
            event.removed_messages as nat,
        ) + " messages (estimated tokens: "@ + text::decimal(
            event.estimated_tokens_before as nat,
        ) + "), transcript: "@ + (match event.transcript_path {
            Some(p) => p@,
            None => "<not saved>"@,
        }),
{
    let a = text::decimal_of(event.removed_messages as u128);
    let b = text::decimal_of(event.estimated_tokens_before as u128);
    let mut r = text::concat3(
        "info: auto compact triggered, removed ",
        a.as_str(),
        " messages (estimated tokens: ",
    );
    r.append(b.as_str());
    r.append("), transcript: ");
    match &event.transcript_path {
        Some(p) => r.append(p.as_str()),
        None => r.append("<not saved>"),
    }
    r
}

// ---------------------------------------------------------------------------
// Laws

/// The model is asked, and a summary asked for, only where the model was asked
/// less often than it may be; an answer is one more step, and leaves the turn
/// within its bounds.
pub proof fn lemma_model_is_asked_within_bounds(
    l: LoopModel,
    messages: Seq<JsonModel>,
    cfg: ContextCompactConfig,
    reply: JsonModel,
)
    requires
        l.consistent(),
        next_action(l, messages, cfg) is AskModel || next_action(l, messages, cfg) is Summarise,
    ensures
        l.steps < l.max_steps,
        after_reply(l, reply).steps == l.steps + 1,
        after_reply(l, reply).consistent(),
{
}

/// A tool is to be called only where nothing is missing from its call, and the
/// result leaves the turn within its bounds.
pub proof fn lemma_tools_are_called_within_bounds(
    l: LoopModel,
    messages: Seq<JsonModel>,
    cfg: ContextCompactConfig,
)
    requires
        l.consistent(),
        next_action(l, messages, cfg) is RunTool,
    ensures
        l.current_call() is Some,
        after_tool(l).consistent(),
{
}

/// The steps that tools take lead from one question to the model to the next:
/// after the last of them the model is asked again, unless it was asked as
/// often as it may be.
pub open spec fn after_tools(l: LoopModel, count: nat) -> LoopModel
    decreases count,
{
    if count == 0 {
        l
    } else {
        after_tool(after_tools(l, (count - 1) as nat))
    }
}

/// After an answer with tool calls, calling all of them brings the turn back to
/// its beginning with one more step done.
pub proof fn lemma_tools_lead_back(l: LoopModel, reply: JsonModel)
    requires
        calls_in(reply).len() > 0,
    ensures
        after_tools(after_reply(l, reply), calls_in(reply).len()) == (LoopModel {
            max_steps: l.max_steps,
            steps: l.steps + 1,
            phase: PhaseModel::Begin,
        }),
{
    lemma_tools_progress(l, reply, (calls_in(reply).len() - 1) as nat);
}

proof fn lemma_tools_progress(l: LoopModel, reply: JsonModel, count: nat)
    requires
        count < calls_in(reply).len(),
    ensures
        after_tools(after_reply(l, reply), count) == (LoopModel {
            max_steps: l.max_steps,
            steps: l.steps + 1,
            phase: PhaseModel::Tools(calls_in(reply), count),
        }),
    decreases count,
{
    if count > 0 {
        lemma_tools_progress(l, reply, (count - 1) as nat);
    }
}

/// An answer with tool calls leads to exactly these calls, from the first one
/// on, whatever else the answer says. Only an answer without any ends the turn.
pub proof fn lemma_calls_decide_the_turn(l: LoopModel, reply: JsonModel)
    ensures
        forall|calls: Seq<JsonModel>|
            reply.items_at("tool_calls"@) == Some(calls) && calls.len() > 0 ==> after_reply(
                l,
                reply,
            ).phase == PhaseModel::Tools(calls, 0),
        after_reply(l, reply).phase is Answered <==> (reply.items_at("tool_calls"@) is None
            || reply.items_at("tool_calls"@)->0.len() == 0),
        after_reply(l, reply).steps == l.steps + 1,
        after_reply(l, reply).max_steps == l.max_steps,
{
}

/// Every call of an answer is run, in order, with the id, the name and the
/// arguments that the answer gives, once those before it have been.
pub proof fn lemma_every_call_is_run(
    l: LoopModel,
    reply: JsonModel,
    calls: Seq<JsonModel>,
    k: nat,
    id: Seq<char>,
    function: JsonModel,
    name: Seq<char>,
    arguments: Seq<char>,
    messages: Seq<JsonModel>,
    cfg: ContextCompactConfig,
)
    requires
        reply.items_at("tool_calls"@) == Some(calls),
        k < calls.len(),
        calls[k as int].text_at("id"@) == Some(id),
        calls[k as int].get("function"@) == Some(function),
        function.text_at("name"@) == Some(name),
        function.text_at("arguments"@) == Some(arguments),
    ensures
        next_action(after_tools(after_reply(l, reply), k), messages, cfg) == ActionModel::RunTool(
            id,
            name,
            arguments,
        ),
        after_tools(after_reply(l, reply), k).current_call() == Some((id, name, arguments)),
{
    lemma_tools_progress(l, reply, k);
}

/// A call from which something is missing ends the turn with a failure, and is
/// not run.
pub proof fn lemma_incomplete_call_fails(
    l: LoopModel,
    calls: Seq<JsonModel>,
    k: nat,
    messages: Seq<JsonModel>,
    cfg: ContextCompactConfig,
)
    requires
        l.phase == PhaseModel::Tools(calls, k),
        k < calls.len(),
        calls[k as int].text_at("id"@) is None || calls[k as int].get("function"@) is None
            || calls[k as int].get("function"@)->0.text_at("name"@) is None
            || calls[k as int].get("function"@)->0.text_at("arguments"@) is None,
    ensures
        next_action(l, messages, cfg) is Fail,
{
}

/// Once all calls of an answer have been run, the model is asked again, or for a
/// summary first, unless it was asked as often as it may be; then the turn fails.
pub proof fn lemma_model_is_asked_after_tools(
    l: LoopModel,
    reply: JsonModel,
    calls: Seq<JsonModel>,
    messages: Seq<JsonModel>,
    cfg: ContextCompactConfig,
)
    requires
        reply.items_at("tool_calls"@) == Some(calls),
        calls.len() > 0,
    ensures
        ({
            let action = next_action(
                after_tools(after_reply(l, reply), calls.len()),
                messages,
                cfg,
            );
            if l.steps + 1 >= l.max_steps {
                action is Fail
            } else {
                match compact::compaction_request(messages, cfg) {
                    Some(request) => action == ActionModel::Summarise(request),
                    None => action is AskModel,
                }
            }
        }),
{
    lemma_tools_lead_back(l, reply);
}

/// An answer without tool calls is the end of the turn, and what it says, blanks
/// around it aside, is what the turn gives. One that says nothing is not passed
/// over in silence.
pub proof fn lemma_answer_ends_the_turn(
    l: LoopModel,
    reply: JsonModel,
    messages: Seq<JsonModel>,
    cfg: ContextCompactConfig,
)
    requires
        reply.items_at("tool_calls"@) is None || reply.items_at("tool_calls"@)->0.len() == 0,
    ensures
        next_action(after_reply(l, reply), messages, cfg) is Finish,
        forall|content: Seq<char>|
            reply.text_at("content"@) == Some(content) && !text::is_blank(content)
                ==> next_action(after_reply(l, reply), messages, cfg) == ActionModel::Finish(
                text::trimmed(content),
            ),
        reply.text_at("content"@) is None || text::is_blank(reply.text_at("content"@)->0)
            ==> next_action(after_reply(l, reply), messages, cfg) == ActionModel::Finish(
            "(model returned empty response)"@,
        ),
{
}

/// A turn that begins a step asks the model or for a summary as long as it may,
/// and fails only where the model was asked as often as it may be.
pub proof fn lemma_step_begins(
    l: LoopModel,
    messages: Seq<JsonModel>,
    cfg: ContextCompactConfig,
)
    requires
        l.phase is Begin,
    ensures
        next_action(l, messages, cfg) is Fail <==> l.steps >= l.max_steps,
        next_action(l, messages, cfg) is Summarise <==> l.steps < l.max_steps && compact::planned(
            messages,
            cfg,
        ) is Some,
        next_action(l, messages, cfg) is AskModel <==> l.steps < l.max_steps && compact::planned(
            messages,
            cfg,
        ) is None,
{
}

/// The model is told what a tool gave, as it gave it, under the id of the call;
/// a failure is marked as one.
pub proof fn lemma_tool_result_is_told(id: Seq<char>, output: Seq<char>)
    ensures
        tool_message(id, tool_content(Ok(output))).text_at("role"@) == Some("tool"@),
        tool_message(id, tool_content(Ok(output))).text_at("tool_call_id"@) == Some(id),
        tool_message(id, tool_content(Ok(output))).text_at("content"@) == Some(output),
        tool_message(id, tool_content(Err(output))).text_at("tool_call_id"@) == Some(id),
        tool_message(id, tool_content(Err(output))).text_at("content"@) == Some(
            "tool_error: "@ + output,
        ),
{
    lemma_tool_message_reads(id, output);
    lemma_tool_message_reads(id, "tool_error: "@ + output);
}

/// The result of a tool that the model asked for answers that call: where all
/// tool messages so far answer a call, they still do with it.
pub proof fn lemma_tool_results_answer(
    messages: Seq<JsonModel>,
    caller: int,
    call: int,
    content: Seq<char>,
)
    requires
        compact::all_answer(messages),
        0 <= caller < messages.len(),
        compact::role(messages[caller]) == Some("assistant"@),
        compact::only_tools_between(messages, caller, messages.len() - 1),
        0 <= call < calls_in(messages[caller]).len(),
        call_of(calls_in(messages[caller])[call]) is Ok,
    ensures
        compact::all_answer(
            messages.push(
                tool_message(id_of_call(calls_in(messages[caller])[call]), content),
            ),
        ),
        compact::only_tools_between(
            messages.push(
                tool_message(id_of_call(calls_in(messages[caller])[call]), content),
            ),
            caller,
            messages.len() as int,
        ),
{
    let calls = calls_in(messages[caller]);
    let id = id_of_call(calls[call]);
    let m = tool_message(id, content);
    let after = messages.push(m);
    lemma_tool_message_reads(id, content);
    compact::lemma_ids_of_calls(calls, call);
    assert(after[caller] == messages[caller]);
    assert(compact::call_ids(after[caller]).contains(id));
    assert(compact::only_tools_between(after, caller, messages.len() as int)) by {
        assert forall|k: int| caller < k <= messages.len() implies compact::is_tool_message(
            #[trigger] after[k],
        ) by {
            if k < messages.len() {
                assert(after[k] == messages[k]);
            }
        }
    }
    assert(compact::answers_a_call(after, messages.len() as int));
    compact::lemma_answers_in_longer(messages, m);
}

/// A tool message reads as what it was made of.
proof fn lemma_tool_message_reads(id: Seq<char>, content: Seq<char>)
    ensures
        compact::is_tool_message(tool_message(id, content)),
        tool_message(id, content).text_at("tool_call_id"@) == Some(id),
        tool_message(id, content).text_at("content"@) == Some(content),
{
    let e0 = Seq::<(Seq<char>, JsonModel)>::empty();
    let role = JsonModel::Text("tool"@);
    let e1 = crate::keyed::with_entry(e0, "role"@, role);
    let e2 = crate::keyed::with_entry(e1, "tool_call_id"@, JsonModel::Text(id));
    reveal_strlit("role");
    reveal_strlit("tool_call_id");
    reveal_strlit("content");
    assert("role"@.len() == 4);
    assert("tool_call_id"@.len() == 12);
    assert("content"@.len() == 7);
    crate::keyed::lemma_with_entry_order(e0, "role"@, role);
    crate::keyed::lemma_with_entry_order(e1, "tool_call_id"@, JsonModel::Text(id));
    crate::keyed::lemma_entry_of_with_entry(e0, "role"@, role, "role"@);
    crate::keyed::lemma_entry_of_with_entry(e1, "tool_call_id"@, JsonModel::Text(id), "role"@);
    crate::keyed::lemma_entry_of_with_entry(
        e1,
        "tool_call_id"@,
        JsonModel::Text(id),
        "tool_call_id"@,
    );
    crate::keyed::lemma_entry_of_with_entry(e2, "content"@, JsonModel::Text(content), "role"@);
    crate::keyed::lemma_entry_of_with_entry(
        e2,
        "content"@,
        JsonModel::Text(content),
        "tool_call_id"@,
    );
    crate::keyed::lemma_entry_of_with_entry(e2, "content"@, JsonModel::Text(content), "content"@);
}

/// A turn that fails for having asked too often says how often the model may be
/// asked; one that fails for a call says what is missing from the call.
pub proof fn lemma_failures_are_explained(
    l: LoopModel,
    messages: Seq<JsonModel>,
    cfg: ContextCompactConfig,
    call: JsonModel,
    function: JsonModel,
)
    requires
        l.phase is Begin,
        l.steps >= l.max_steps,
    ensures
        next_action(l, messages, cfg) == ActionModel::Fail(
            "model/tool loop reached max steps ("@ + text::decimal(l.max_steps)
                + ") without final answer"@,
        ),
        call.text_at("id"@) is None ==> call_of(call) == Err::<
            (Seq<char>, Seq<char>, Seq<char>),
            Seq<char>,
        >("tool call id missing"@),
        call.text_at("id"@) is Some && call.get("function"@) is None ==> call_of(call) == Err::<
            (Seq<char>, Seq<char>, Seq<char>),
            Seq<char>,
        >("tool function payload missing"@),
        call.text_at("id"@) is Some && call.get("function"@) == Some(function) && function is Object
            && function.text_at("name"@) is None ==> call_of(call) == Err::<
            (Seq<char>, Seq<char>, Seq<char>),
            Seq<char>,
        >("tool function name missing"@),
        call.text_at("id"@) is Some && call.get("function"@) == Some(function) && function is Object
            && function.text_at("name"@) is Some && function.text_at("arguments"@) is None
            ==> call_of(call) == Err::<(Seq<char>, Seq<char>, Seq<char>), Seq<char>>(
            "tool function arguments missing"@,
        ),
{
}

} // verus!
