//! Messages as they are shown: how a conversation becomes a list of them, the
//! blocks that their text is shown in, and what of a trace is made public.
use crate::json;
use crate::json::{Json, JsonModel};
use crate::llm::session::{ConversationSessionSnapshot, SnapshotModel};
use crate::runtime::RuntimeEvent;
use crate::text;
use vstd::prelude::*;

verus! {

// ---------------------------------------------------------------------------
// Types

/// A part of a message that is shown in one way.
#[derive(Debug, PartialEq, Eq)]
pub struct UiRenderBlock {
    pub block_type: String,
    pub content: String,
}

/// A part of a message that is shown in one way.
#[verifier::ext_equal]
pub struct BlockModel {
    pub block_type: Seq<char>,
    pub content: Seq<char>,
}

impl DeepView for UiRenderBlock {
    type V = BlockModel;

    open spec fn deep_view(&self) -> BlockModel {
        BlockModel { block_type: self.block_type@, content: self.content@ }
    }
}

impl Clone for UiRenderBlock {
    fn clone(&self) -> (r: UiRenderBlock)
        ensures
            r.deep_view() == self.deep_view(),
    {
        UiRenderBlock { block_type: self.block_type.clone(), content: self.content.clone() }
    }
}

/// A message as it is shown.
#[derive(Debug, PartialEq, Eq)]
pub struct UiMessage {
    pub id: String,
    pub role: String,
    pub kind: String,
    pub content: String,
    pub created_at: u128,
    pub turn_id: String,
    pub tool_name: Option<String>,
    pub tool_args: Option<String>,
    pub tool_output: Option<String>,
    pub render_blocks: Vec<UiRenderBlock>,
}

/// A message as it is shown.
#[verifier::ext_equal]
pub struct UiMessageModel {
    pub id: Seq<char>,
    pub role: Seq<char>,
    pub kind: Seq<char>,
    pub content: Seq<char>,
    pub created_at: u128,
    pub turn_id: Seq<char>,
    pub tool_name: Option<Seq<char>>,
    pub tool_args: Option<Seq<char>>,
    pub tool_output: Option<Seq<char>>,
    pub render_blocks: Seq<BlockModel>,
}

impl DeepView for UiMessage {
    type V = UiMessageModel;

    open spec fn deep_view(&self) -> UiMessageModel {
        UiMessageModel {
            id: self.id@,
            role: self.role@,
            kind: self.kind@,
            content: self.content@,
            created_at: self.created_at,
            turn_id: self.turn_id@,
            tool_name: self.tool_name.deep_view(),
            tool_args: self.tool_args.deep_view(),
            tool_output: self.tool_output.deep_view(),
            render_blocks: self.render_blocks.deep_view(),
        }
    }
}

fn clone_blocks(v: &Vec<UiRenderBlock>) -> (r: Vec<UiRenderBlock>)
    ensures
        r.deep_view() == v.deep_view(),
{
    let ghost all = v.deep_view();
    let mut r: Vec<UiRenderBlock> = Vec::new();
    let mut i: usize = 0;
    assert(r.deep_view() =~= all.take(0));
    while i < v.len()
        invariant
            i <= v@.len(),
            all == v.deep_view(),
            r.deep_view() == all.take(i as int),
        decreases v@.len() - i,
    {
        let ghost before = r.deep_view();
        r.push(v[i].clone());
        assert(r.deep_view() =~= before.push(all[i as int]));
        assert(all.take(i + 1) =~= all.take(i as int).push(all[i as int]));
        i = i + 1;
    }
    assert(all.take(all.len() as int) =~= all);
    r
}

impl Clone for UiMessage {
    fn clone(&self) -> (r: UiMessage)
        ensures
            r.deep_view() == self.deep_view(),
    {
        UiMessage {
            id: self.id.clone(),
            role: self.role.clone(),
            kind: self.kind.clone(),
            content: self.content.clone(),
            created_at: self.created_at,
            turn_id: self.turn_id.clone(),
            tool_name: text::clone_text(&self.tool_name),
            tool_args: text::clone_text(&self.tool_args),
            tool_output: text::clone_text(&self.tool_output),
            render_blocks: clone_blocks(&self.render_blocks),
        }
    }
}

/// Copies of messages.
pub fn clone_messages(v: &Vec<UiMessage>) -> (r: Vec<UiMessage>)
    ensures
        r.deep_view() == v.deep_view(),
{
    let ghost all = v.deep_view();
    let mut r: Vec<UiMessage> = Vec::new();
    let mut i: usize = 0;
    assert(r.deep_view() =~= all.take(0));
    while i < v.len()
        invariant
            i <= v@.len(),
            all == v.deep_view(),
            r.deep_view() == all.take(i as int),
        decreases v@.len() - i,
    {
        let ghost before = r.deep_view();
        r.push(v[i].clone());
        assert(r.deep_view() =~= before.push(all[i as int]));
        assert(all.take(i + 1) =~= all.take(i as int).push(all[i as int]));
        i = i + 1;
    }
    assert(all.take(all.len() as int) =~= all);
    r
}

// ---------------------------------------------------------------------------
// Blocks

/// A block of the given kind.
pub open spec fn block(block_type: Seq<char>, content: Seq<char>) -> BlockModel {
    BlockModel { block_type, content }
}

/// A text block, unless nothing but blanks would stand in it.
pub open spec fn text_block(s: Seq<char>) -> Seq<BlockModel> {
    if text::is_blank(s) {
        seq![]
    } else {
        seq![block("text"@, text::trimmed(s))]
    }
}

/// What a fenced part that starts at `fence` consists of: where its language
/// ends, and where its code ends. There is none where either is missing.
pub open spec fn fenced(content: Seq<char>, fence: int) -> Option<(int, int)> {
    let after = fence + 3;
    let line_end = after + text::index_of_char(content.skip(after), '\n');
    if line_end >= content.len() {
        None
    } else {
        match text::first_at(content, "```"@, line_end + 1) {
            Some(end) => Some((line_end, end)),
            None => None,
        }
    }
}

/// The block of a fenced part.
pub open spec fn fenced_block(content: Seq<char>, fence: int, line_end: int, end: int) -> BlockModel {
    let language = text::lowered(text::trimmed(content.subrange(fence + 3, line_end)));
    block(
        if language == "mermaid"@ {
            "mermaid"@
        } else {
            "code"@
        },
        text::trimmed(content.subrange(line_end + 1, end)),
    )
}

/// The blocks of a text from `cursor` on: texts and fenced parts in turn. Where
/// a fence is not closed, the text before it is shown, and again with the rest.
pub open spec fn blocks_after(content: Seq<char>, cursor: int) -> Seq<BlockModel>
    decreases content.len() - cursor,
{
    if cursor < 0 || cursor > content.len() {
        seq![]
    } else {
        match text::first_at(content, "```"@, cursor) {
            None => text_block(content.skip(cursor)),
            Some(fence) => match fenced(content, fence) {
                None => text_block(content.subrange(cursor, fence)) + text_block(
                    content.skip(cursor),
                ),
                Some((line_end, end)) => if cursor <= fence < end && end + 3 <= content.len() {
                    text_block(content.subrange(cursor, fence)) + seq![
                        fenced_block(content, fence, line_end, end),
                    ] + blocks_after(content, end + 3)
                } else {
                    seq![]
                },
            },
        }
    }
}

/// The blocks that a text is shown in.
pub open spec fn render_blocks(content: Seq<char>, kind: Seq<char>) -> Seq<BlockModel> {
    if kind == "tool_call"@ || kind == "tool_result"@ || kind == "assistant_trace"@ || kind
        == "context_compacted"@ {
        seq![block(kind, content)]
    } else {
        let blocks = blocks_after(content, 0);
        if blocks.len() == 0 {
            seq![block("text"@, content)]
        } else {
            blocks
        }
    }
}

fn new_block(block_type: &str, content: &str) -> (r: UiRenderBlock)
    ensures
        r.deep_view() == block(block_type@, content@),
{
    UiRenderBlock { block_type: text::owned(block_type), content: text::owned(content) }
}

fn push_text_block(blocks: &mut Vec<UiRenderBlock>, v: &Vec<char>, from: usize, to: usize)
    requires
        from <= to <= v@.len(),
    ensures
        final(blocks).deep_view() == old(blocks).deep_view() + text_block(
            v@.subrange(from as int, to as int),
        ),
{
    let ghost before = blocks.deep_view();
    let part = text::string_of(v, from, to);
    let inner = text::trim(part.as_str());
    if text::char_count(inner.as_str()) > 0 {
        blocks.push(new_block("text", inner.as_str()));
        assert(blocks.deep_view() =~= before + seq![block("text"@, inner@)]);
    } else {
        assert(blocks.deep_view() =~= before + seq![]);
    }
}

/// The blocks that a text is shown in.
pub fn parse_render_blocks(content: &str, kind: &str) -> (r: Vec<UiRenderBlock>)
    ensures
        r.deep_view() == render_blocks(content@, kind@),
        r@.len() > 0,
{
    let mut blocks: Vec<UiRenderBlock> = Vec::new();
    if text::same_text(kind, "tool_call") || text::same_text(kind, "tool_result")
        || text::same_text(kind, "assistant_trace") || text::same_text(kind, "context_compacted") {
        blocks.push(new_block(kind, content));
        assert(blocks.deep_view() =~= seq![block(kind@, content@)]);
        return blocks;
    }
    let v = text::chars_of(content);
    let ticks = text::chars_of("```");
    proof {
        reveal_strlit("```");
        assert("```"@.len() == 3);
    }
    let mut cursor: usize = 0;
    assert(blocks.deep_view() + blocks_after(content@, 0) =~= blocks_after(content@, 0));
    loop
        invariant_except_break
            v@ == content@,
            ticks@ == "```"@,
            ticks@.len() == 3,
            cursor <= v@.len(),
            blocks.deep_view() + blocks_after(content@, cursor as int) == blocks_after(content@, 0),
        ensures
            blocks.deep_view() == blocks_after(content@, 0),
        decreases v@.len() - cursor,
    {
        let ghost before = blocks.deep_view();
        match text::find_from(&v, &ticks, cursor) {
            None => {
                push_text_block(&mut blocks, &v, cursor, v.len());
                assert(v@.subrange(cursor as int, v@.len() as int) =~= content@.skip(
                    cursor as int,
                ));
                break;
            },
            Some(fence) => {
                push_text_block(&mut blocks, &v, cursor, fence);
                let ghost shown = blocks.deep_view();
                let after: usize = fence + 3;
                let line_end = text::find_char(&v, '\n', after);
                let closing = if line_end < v.len() {
                    text::find_from(&v, &ticks, line_end + 1)
                } else {
                    None
                };
                match closing {
                    None => {
                        push_text_block(&mut blocks, &v, cursor, v.len());
                        proof {
                            assert(v@.subrange(cursor as int, v@.len() as int) =~= content@.skip(
                                cursor as int,
                            ));
                            assert(blocks.deep_view() =~= before + blocks_after(
                                content@,
                                cursor as int,
                            ));
                        }
                        break;
                    },
                    Some(end) => {
                        let language_part = text::string_of(&v, after, line_end);
                        let language = text::to_ascii_lower(
                            text::trim(language_part.as_str()).as_str(),
                        );
                        let code_part = text::string_of(&v, line_end + 1, end);
                        let code = text::trim(code_part.as_str());
                        let kind_of_block = if text::same_text(language.as_str(), "mermaid") {
                            "mermaid"
                        } else {
                            "code"
                        };
                        let new = new_block(kind_of_block, code.as_str());
                        let ghost model = new.deep_view();
                        blocks.push(new);
                        proof {
                            assert(blocks.deep_view() =~= shown.push(model));
                            assert(model == fenced_block(
                                content@,
                                fence as int,
                                line_end as int,
                                end as int,
                            ));
                            assert(blocks.deep_view() + blocks_after(content@, end + 3) =~= before
                                + blocks_after(content@, cursor as int));
                        }
                        cursor = end + 3;
                    },
                }
            },
        }
    }
    if blocks.len() == 0 {
        blocks.push(new_block("text", content));
        assert(blocks.deep_view() =~= seq![block("text"@, content@)]);
    }
    blocks
}

// ---------------------------------------------------------------------------
// Making messages

/// What a message is made of.
pub struct UiMessageInput<'a> {
    pub session_id: &'a str,
    pub index: usize,
    pub role: &'a str,
    pub kind: &'a str,
    pub content: String,
    pub created_at: u128,
    pub tool_name: Option<String>,
    pub tool_args: Option<String>,
    pub tool_output: Option<String>,
    pub turn_id: u64,
}

/// The text, or nothing as the empty text.
pub open spec fn text_or_empty(s: Option<Seq<char>>) -> Seq<char> {
    match s {
        Some(t) => t,
        None => seq![],
    }
}

/// The name of a turn.
pub open spec fn turn_key(session_id: Seq<char>, turn: nat) -> Seq<char> {
    session_id + "-turn-"@ + text::decimal(turn)
}

/// The name of a turn.
pub fn turn_key_of(session_id: &str, turn: u64) -> (r: String)
    ensures
        r@ == turn_key(session_id@, turn as nat),
{
    let number = text::decimal_of(turn as u128);
    text::concat3(session_id, "-turn-", number.as_str())
}

/// A message of the conversation.
pub open spec fn ui_message(
    session_id: Seq<char>,
    index: nat,
    role: Seq<char>,
    kind: Seq<char>,
    content: Seq<char>,
    created_at: u128,
    tool_name: Option<Seq<char>>,
    tool_args: Option<Seq<char>>,
    tool_output: Option<Seq<char>>,
    turn: nat,
) -> UiMessageModel {
    UiMessageModel {
        id: session_id + "-"@ + text::decimal(index) + "-"@ + kind,
        role,
        kind,
        content,
        created_at,
        turn_id: turn_key(session_id, turn),
        tool_name,
        tool_args,
        tool_output,
        render_blocks: render_blocks(
            if kind == "tool_result"@ {
                text_or_empty(tool_output)
            } else if kind == "tool_call"@ {
                text_or_empty(tool_args)
            } else {
                content
            },
            kind,
        ),
    }
}

/// A message of a trace, which is a message with another name.
pub open spec fn trace_message(m: UiMessageModel, session_id: Seq<char>, turn: nat, index: nat) -> UiMessageModel {
    UiMessageModel {
        id: session_id + "-trace-"@ + text::decimal(turn) + "-"@ + text::decimal(index) + "-"@
            + m.kind,
        ..m
    }
}

impl<'a> UiMessageInput<'a> {
    /// The message that is made of this.
    pub open spec fn message(self) -> UiMessageModel {
        ui_message(
            self.session_id@,
            self.index as nat,
            self.role@,
            self.kind@,
            self.content@,
            self.created_at,
            self.tool_name.deep_view(),
            self.tool_args.deep_view(),
            self.tool_output.deep_view(),
            self.turn_id as nat,
        )
    }
}

fn blocks_of_option(s: &Option<String>, kind: &str) -> (r: Vec<UiRenderBlock>)
    ensures
        r.deep_view() == render_blocks(text_or_empty(s.deep_view()), kind@),
{
    match s {
        Some(t) => parse_render_blocks(t.as_str(), kind),
        None => {
            proof {
                reveal_strlit("");
                assert(""@ =~= seq![]);
            }
            parse_render_blocks("", kind)
        },
    }
}

/// A message of the conversation.
pub fn base_ui_message(input: UiMessageInput) -> (r: UiMessage)
    ensures
        r.deep_view() == input.message(),
{
    let render_blocks = if text::same_text(input.kind, "tool_result") {
        blocks_of_option(&input.tool_output, input.kind)
    } else if text::same_text(input.kind, "tool_call") {
        blocks_of_option(&input.tool_args, input.kind)
    } else {
        parse_render_blocks(input.content.as_str(), input.kind)
    };
    let number = text::decimal_of(input.index as u128);
    let mut id = text::concat3(input.session_id, "-", number.as_str());
    id.append("-");
    id.append(input.kind);
    UiMessage {
        id,
        role: text::owned(input.role),
        kind: text::owned(input.kind),
        content: input.content,
        created_at: input.created_at,
        turn_id: turn_key_of(input.session_id, input.turn_id),
        tool_name: input.tool_name,
        tool_args: input.tool_args,
        tool_output: input.tool_output,
        render_blocks,
    }
}

/// A message of a trace.
pub fn base_trace_message(input: UiMessageInput) -> (r: UiMessage)
    ensures
        r.deep_view() == trace_message(
            input.message(),
            input.session_id@,
            input.turn_id as nat,
            input.index as nat,
        ),
{
    let turn = text::decimal_of(input.turn_id as u128);
    let index = text::decimal_of(input.index as u128);
    let mut id = text::concat3(input.session_id, "-trace-", turn.as_str());
    id.append("-");
    id.append(index.as_str());
    id.append("-");
    id.append(input.kind);
    let mut message = base_ui_message(input);
    message.id = id;
    message
}

/// A message that belongs to the conversation rather than to its trace.
pub open spec fn is_visible(m: UiMessageModel) -> bool {
    m.kind == "user"@ || m.kind == "assistant"@ || m.kind == "system"@
}

/// The messages that belong to the conversation.
pub open spec fn visible(messages: Seq<UiMessageModel>) -> Seq<UiMessageModel>
    decreases messages.len(),
{
    if messages.len() == 0 {
        seq![]
    } else if is_visible(messages.last()) {
        visible(messages.drop_last()).push(messages.last())
    } else {
        visible(messages.drop_last())
    }
}

/// Whether a message belongs to the conversation.
pub fn is_visible_ui_message(message: &UiMessage) -> (r: bool)
    ensures
        r == is_visible(message.deep_view()),
{
    text::same_text(message.kind.as_str(), "user") || text::same_text(
        message.kind.as_str(),
        "assistant",
    ) || text::same_text(message.kind.as_str(), "system")
}

/// The messages that belong to the conversation.
pub fn visible_messages_only(messages: &Vec<UiMessage>) -> (r: Vec<UiMessage>)
    ensures
        r.deep_view() == visible(messages.deep_view()),
{
    let ghost all = messages.deep_view();
    let mut r: Vec<UiMessage> = Vec::new();
    let mut i: usize = 0;
    proof {
        assert(all.take(0) =~= seq![]);
        assert(r.deep_view() =~= seq![]);
    }
    while i < messages.len()
        invariant
            i <= messages@.len(),
            all == messages.deep_view(),
            r.deep_view() == visible(all.take(i as int)),
        decreases messages@.len() - i,
    {
        let ghost before = r.deep_view();
        proof {
            assert(all.take(i + 1).drop_last() =~= all.take(i as int));
            assert(all.take(i + 1).last() == messages@[i as int].deep_view());
        }
        if is_visible_ui_message(&messages[i]) {
            r.push(messages[i].clone());
            assert(r.deep_view() =~= before.push(all[i as int]));
        }
        i = i + 1;
    }
    assert(all.take(all.len() as int) =~= all);
    r
}

/// What is left is visible, and filtering it again changes nothing.
pub proof fn lemma_visible_is_visible(messages: Seq<UiMessageModel>)
    ensures
        forall|i: int|
            0 <= i < visible(messages).len() ==> is_visible(#[trigger] visible(messages)[i]),
        visible(visible(messages)) == visible(messages),
    decreases messages.len(),
{
    if messages.len() > 0 {
        lemma_visible_is_visible(messages.drop_last());
        let front = visible(messages.drop_last());
        if is_visible(messages.last()) {
            assert(front.push(messages.last()).drop_last() =~= front);
        }
    }
}

/// What of a trace message is made public: the result of a tool call is not,
/// only whether it failed.
pub open spec fn public_trace(m: UiMessageModel) -> UiMessageModel {
    if m.kind == "tool_result"@ {
        let content = if text::has_text(
            text::lowered(text_or_empty(m.tool_output)),
            "tool_error"@,
        ) {
            "tool_error"@
        } else {
            "completed"@
        };
        UiMessageModel {
            content,
            tool_output: None,
            render_blocks: render_blocks(content, m.kind),
            ..m
        }
    } else if m.kind == "tool_call"@ {
        UiMessageModel {
            tool_output: None,
            render_blocks: render_blocks(text_or_empty(m.tool_args), m.kind),
            ..m
        }
    } else if m.kind == "assistant_trace"@ || m.kind == "context_compacted"@ {
        m
    } else {
        UiMessageModel { tool_args: None, tool_output: None, ..m }
    }
}

/// What of a trace message is made public.
pub fn public_trace_message(message: &UiMessage) -> (r: UiMessage)
    ensures
        r.deep_view() == public_trace(message.deep_view()),
{
    let mut public = message.clone();
    if text::same_text(message.kind.as_str(), "tool_result") {
        let failed = match &message.tool_output {
            Some(output) => {
                let lower = text::to_ascii_lower(output.as_str());
                text::contains(lower.as_str(), "tool_error")
            },
            None => {
                proof {
                    reveal_strlit("");
                    assert(text::lowered(""@) =~= text::lowered(seq![]));
                }
                let lower = text::to_ascii_lower("");
                text::contains(lower.as_str(), "tool_error")
            },
        };
        let content = if failed {
            "tool_error"
        } else {
            "completed"
        };
        public.content = text::owned(content);
        public.tool_output = None;
        public.render_blocks = parse_render_blocks(content, message.kind.as_str());
    } else if text::same_text(message.kind.as_str(), "tool_call") {
        public.tool_output = None;
        public.render_blocks = blocks_of_option(&message.tool_args, message.kind.as_str());
    } else if text::same_text(message.kind.as_str(), "assistant_trace") || text::same_text(
        message.kind.as_str(),
        "context_compacted",
    ) {
    } else {
        public.tool_args = None;
        public.tool_output = None;
    }
    public
}

/// What a tool gave back is not made public, and a message keeps its name and
/// kind.
pub proof fn lemma_public_trace_hides_output(m: UiMessageModel)
    requires
        m.kind != "assistant_trace"@,
        m.kind != "context_compacted"@,
    ensures
        public_trace(m).tool_output is None,
        public_trace(m).kind == m.kind,
        public_trace(m).id == m.id,
{
}

/// A text that starts or ends an interview on behalf of the user and is not
/// shown.
pub open spec fn is_seed(content: Seq<char>) -> bool {
    let t = text::trimmed(content);
    ||| text::begins_with(
        t,
        "Use the following interview materials as your only codebase context."@,
    )
    ||| t == "Understood. I will interview the programmer using only these materials."@
    ||| text::begins_with(t, "Start the interview. Briefly introduce the process"@)
    ||| t == "Begin now."@
    ||| text::begins_with(
        t,
        "Finish the interview now and produce the final evaluation report"@,
    )
}

/// Whether a text starts or ends an interview on behalf of the user.
pub fn is_internal_seed_message(content: &str) -> (r: bool)
    ensures
        r == is_seed(content@),
{
    let trimmed = text::trim(content);
    let t = trimmed.as_str();
    text::starts_with(t, "Use the following interview materials as your only codebase context.")
        || text::same_text(
        t,
        "Understood. I will interview the programmer using only these materials.",
    ) || text::starts_with(t, "Start the interview. Briefly introduce the process")
        || text::same_text(t, "Begin now.") || text::starts_with(
        t,
        "Finish the interview now and produce the final evaluation report",
    )
}

/// The last question that the user asked in person.
pub open spec fn last_question(prompts: Seq<Seq<char>>) -> Option<Seq<char>>
    decreases prompts.len(),
{
    if prompts.len() == 0 {
        None
    } else if is_seed(prompts.last()) {
        last_question(prompts.drop_last())
    } else {
        Some(prompts.last())
    }
}

/// The title of a conversation: the start of its last question.
pub open spec fn title_of(s: SnapshotModel) -> Seq<char> {
    let title = match last_question(s.prompt_history) {
        Some(q) => if text::is_blank(q) {
            "Live conversation"@
        } else {
            q
        },
        None => "Live conversation"@,
    };
    text::first_chars(title, 36)
}

/// The title of a conversation.
pub fn summary_title(snapshot: &ConversationSessionSnapshot) -> (r: String)
    ensures
        r@ == title_of(snapshot.deep_view()),
{
    let ghost all = snapshot.prompt_history.deep_view();
    let mut i: usize = snapshot.prompt_history.len();
    assert(all.take(all.len() as int) =~= all);
    while i > 0
        invariant
            i <= snapshot.prompt_history@.len(),
            all == snapshot.prompt_history.deep_view(),
            last_question(all.take(i as int)) == last_question(all),
        decreases i,
    {
        proof {
            assert(all.take(i as int).drop_last() =~= all.take(i - 1));
            assert(all.take(i as int).last() == snapshot.prompt_history@[i - 1]@);
        }
        let prompt = snapshot.prompt_history[i - 1].as_str();
        if !is_internal_seed_message(prompt) {
            let trimmed = text::trim(prompt);
            if text::char_count(trimmed.as_str()) == 0 {
                return text::take_chars("Live conversation", 36);
            }
            return text::take_chars(prompt, 36);
        }
        i = i - 1;
    }
    text::take_chars("Live conversation", 36)
}

/// The content of the last answer of the assistant.
pub open spec fn last_answer(messages: Seq<UiMessageModel>) -> Option<Seq<char>>
    decreases messages.len(),
{
    if messages.len() == 0 {
        None
    } else if messages.last().role == "assistant"@ && messages.last().kind == "assistant"@ {
        Some(messages.last().content)
    } else {
        last_answer(messages.drop_last())
    }
}

/// The content of the last answer of the assistant.
pub fn latest_assistant_content(messages: &Vec<UiMessage>) -> (r: Option<String>)
    ensures
        r.deep_view() == last_answer(messages.deep_view()),
{
    let ghost all = messages.deep_view();
    let mut i: usize = messages.len();
    assert(all.take(all.len() as int) =~= all);
    while i > 0
        invariant
            i <= messages@.len(),
            all == messages.deep_view(),
            last_answer(all.take(i as int)) == last_answer(all),
        decreases i,
    {
        proof {
            assert(all.take(i as int).drop_last() =~= all.take(i - 1));
            assert(all.take(i as int).last() == messages@[i - 1].deep_view());
        }
        let m = &messages[i - 1];
        if text::same_text(m.role.as_str(), "assistant") && text::same_text(
            m.kind.as_str(),
            "assistant",
        ) {
            return Some(m.content.clone());
        }
        i = i - 1;
    }
    None
}

// ---------------------------------------------------------------------------
// A conversation as messages

/// The messages shown so far and the number of the turn.
#[verifier::ext_equal]
pub struct Flattening {
    pub shown: Seq<UiMessageModel>,
    pub turn: nat,
}

/// A message without anything about tools.
pub open spec fn plain_message(
    session_id: Seq<char>,
    index: nat,
    role: Seq<char>,
    content: Seq<char>,
    created_at: u128,
    turn: nat,
) -> UiMessageModel {
    ui_message(session_id, index, role, role, content, created_at, None, None, None, turn)
}

/// A message asks for tool calls.
pub open spec fn calls_tools(m: JsonModel) -> bool {
    match m.items_at("tool_calls"@) {
        Some(calls) => calls.len() > 0,
        None => false,
    }
}

/// Whether a message asks for tool calls.
pub fn has_tool_calls(m: &Json) -> (r: bool)
    ensures
        r == calls_tools(m@),
{
    match m.get_array("tool_calls") {
        Some(calls) => calls.len() > 0,
        None => false,
    }
}

/// One message of the conversation. System messages, results of tools and texts
/// that drive an interview are not shown, nor what the assistant says while it
/// calls tools. Every question of the user starts a turn.
pub open spec fn flatten_step(
    state: Flattening,
    session_id: Seq<char>,
    index: nat,
    m: JsonModel,
    created_at: u128,
) -> Flattening {
    let role = match m.text_at("role"@) {
        Some(r) => r,
        None => "assistant"@,
    };
    let content = text_or_empty(m.text_at("content"@));
    let turn = if state.turn == 0 {
        1
    } else {
        state.turn
    };
    if role == "system"@ || is_seed(content) {
        state
    } else if role == "user"@ {
        Flattening {
            shown: state.shown.push(
                plain_message(session_id, index, role, content, created_at, state.turn + 1),
            ),
            turn: state.turn + 1,
        }
    } else if role == "assistant"@ {
        if !calls_tools(m) && !text::is_blank(content) {
            Flattening {
                shown: state.shown.push(
                    plain_message(session_id, index, role, content, created_at, turn),
                ),
                ..state
            }
        } else {
            state
        }
    } else if role == "tool"@ {
        state
    } else {
        Flattening {
            shown: state.shown.push(
                plain_message(session_id, index, role, content, created_at, turn),
            ),
            ..state
        }
    }
}

/// The conversation so far as messages.
pub open spec fn flatten_run(
    session_id: Seq<char>,
    messages: Seq<JsonModel>,
    offset: nat,
    created_at: u128,
) -> Flattening
    decreases messages.len(),
{
    if messages.len() == 0 {
        Flattening { shown: seq![], turn: 0 }
    } else {
        flatten_step(
            flatten_run(session_id, messages.drop_last(), offset, created_at),
            session_id,
            (offset + messages.len() - 1) as nat,
            messages.last(),
            created_at,
        )
    }
}

/// The messages that a conversation is shown as.
pub open spec fn flattened(
    session_id: Seq<char>,
    messages: Seq<JsonModel>,
    offset: nat,
    created_at: u128,
) -> Seq<UiMessageModel> {
    flatten_run(session_id, messages, offset, created_at).shown
}

fn new_plain_message(
    session_id: &str,
    index: usize,
    role: &str,
    content: String,
    created_at: u128,
    turn_id: u64,
) -> (r: UiMessage)
    ensures
        r.deep_view() == plain_message(
            session_id@,
            index as nat,
            role@,
            content@,
            created_at,
            turn_id as nat,
        ),
{
    base_ui_message(
        UiMessageInput {
            session_id,
            index,
            role,
            kind: role,
            content,
            created_at,
            tool_name: None,
            tool_args: None,
            tool_output: None,
            turn_id,
        },
    )
}

/// The messages that a conversation is shown as.
pub fn flatten_messages(
    session_id: &str,
    messages: &Vec<Json>,
    offset: usize,
    created_at: u128,
) -> (r: Vec<UiMessage>)
    requires
        offset + messages@.len() <= usize::MAX,
    ensures
        r.deep_view() == flattened(
            session_id@,
            messages.deep_view(),
            offset as nat,
            created_at,
        ),
{
    let ghost all = messages.deep_view();
    let mut shown: Vec<UiMessage> = Vec::new();
    let mut turn: u64 = 0;
    let mut i: usize = 0;
    proof {
        assert(all.take(0) =~= seq![]);
        assert(shown.deep_view() =~= seq![]);
    }
    while i < messages.len()
        invariant
            i <= messages@.len(),
            offset + messages@.len() <= usize::MAX,
            all == messages.deep_view(),
            turn <= i,
            shown.deep_view() == flatten_run(
                session_id@,
                all.take(i as int),
                offset as nat,
                created_at,
            ).shown,
            turn == flatten_run(session_id@, all.take(i as int), offset as nat, created_at).turn,
        decreases messages@.len() - i,
    {
        let ghost before = shown.deep_view();
        let message = &messages[i];
        let index: usize = offset + i;
        proof {
            assert(all.take(i + 1).drop_last() =~= all.take(i as int));
            assert(all.take(i + 1).last() == message@);
            reveal_strlit("");
            assert(""@ =~= seq![]);
        }
        let role = match message.get_str("role") {
            Some(s) => s,
            None => "assistant",
        };
        let content = match message.get_str("content") {
            Some(s) => s,
            None => "",
        };
        let effective: u64 = if turn == 0 {
            1
        } else {
            turn
        };
        if text::same_text(role, "system") || is_internal_seed_message(content) {
        } else if text::same_text(role, "user") {
            turn = turn + 1;
            let m = new_plain_message(
                session_id,
                index,
                role,
                text::owned(content),
                created_at,
                turn,
            );
            let ghost model = m.deep_view();
            shown.push(m);
            assert(shown.deep_view() =~= before.push(model));
        } else if text::same_text(role, "assistant") {
            let trimmed = text::trim(content);
            if !has_tool_calls(message) && text::char_count(trimmed.as_str()) > 0 {
                let m = new_plain_message(
                    session_id,
                    index,
                    role,
                    text::owned(content),
                    created_at,
                    effective,
                );
                let ghost model = m.deep_view();
                shown.push(m);
                assert(shown.deep_view() =~= before.push(model));
            }
        } else if text::same_text(role, "tool") {
        } else {
            let m = new_plain_message(
                session_id,
                index,
                role,
                text::owned(content),
                created_at,
                effective,
            );
            let ghost model = m.deep_view();
            shown.push(m);
            assert(shown.deep_view() =~= before.push(model));
        }
        i = i + 1;
    }
    assert(all.take(all.len() as int) =~= all);
    shown
}

/// No result of a tool and no system message is ever shown.
pub proof fn lemma_flattened_hides_tools(
    session_id: Seq<char>,
    messages: Seq<JsonModel>,
    offset: nat,
    created_at: u128,
)
    ensures
        forall|i: int|
            0 <= i < flattened(session_id, messages, offset, created_at).len() ==> {
                let m = #[trigger] flattened(session_id, messages, offset, created_at)[i];
                m.role != "system"@ && m.role != "tool"@ && m.kind == m.role && m.tool_output is None
                    && !is_seed(m.content)
            },
    decreases messages.len(),
{
    if messages.len() > 0 {
        lemma_flattened_hides_tools(session_id, messages.drop_last(), offset, created_at);
        let before = flattened(session_id, messages.drop_last(), offset, created_at);
        let after = flattened(session_id, messages, offset, created_at);
        reveal_strlit("user");
        reveal_strlit("assistant");
        reveal_strlit("system");
        reveal_strlit("tool");
        assert("user"@.len() == 4);
        assert("user"@[0] != "tool"@[0]);
        assert("assistant"@.len() == 9);
        assert("system"@.len() == 6);
        assert("tool"@.len() == 4);
        assert forall|i: int| 0 <= i < after.len() implies {
            let m = #[trigger] after[i];
            m.role != "system"@ && m.role != "tool"@ && m.kind == m.role && m.tool_output is None
                && !is_seed(m.content)
        } by {
            if i < before.len() {
                assert(after[i] == before[i]);
            }
        }
    }
}

// ---------------------------------------------------------------------------
// Events of a turn as messages

/// A message that has not got its place yet.
#[derive(Debug)]
pub struct PendingUiMessage {
    pub role: String,
    pub kind: String,
    pub content: String,
    pub created_at: u128,
    pub tool_name: Option<String>,
    pub tool_args: Option<String>,
    pub tool_output: Option<String>,
}

/// A message that has not got its place yet.
#[verifier::ext_equal]
pub struct PendingModel {
    pub role: Seq<char>,
    pub kind: Seq<char>,
    pub content: Seq<char>,
    pub created_at: u128,
    pub tool_name: Option<Seq<char>>,
    pub tool_args: Option<Seq<char>>,
    pub tool_output: Option<Seq<char>>,
}

impl DeepView for PendingUiMessage {
    type V = PendingModel;

    open spec fn deep_view(&self) -> PendingModel {
        PendingModel {
            role: self.role@,
            kind: self.kind@,
            content: self.content@,
            created_at: self.created_at,
            tool_name: self.tool_name.deep_view(),
            tool_args: self.tool_args.deep_view(),
            tool_output: self.tool_output.deep_view(),
        }
    }
}

/// A message for the conversation or for its trace.
#[derive(Debug)]
pub enum PendingLiveMessage {
    Visible(PendingUiMessage),
    Trace(PendingUiMessage),
}

/// A message for the conversation or for its trace.
pub enum PendingLiveModel {
    Visible(PendingModel),
    Trace(PendingModel),
}

impl DeepView for PendingLiveMessage {
    type V = PendingLiveModel;

    open spec fn deep_view(&self) -> PendingLiveModel {
        match self {
            PendingLiveMessage::Visible(m) => PendingLiveModel::Visible(m.deep_view()),
            PendingLiveMessage::Trace(m) => PendingLiveModel::Trace(m.deep_view()),
        }
    }
}

/// A message without anything about tools.
pub open spec fn pending_text(
    role: Seq<char>,
    kind: Seq<char>,
    content: Seq<char>,
    created_at: u128,
) -> PendingModel {
    PendingModel {
        role,
        kind,
        content,
        created_at,
        tool_name: None,
        tool_args: None,
        tool_output: None,
    }
}

/// A message without anything about tools.
pub fn new_pending_text(role: &str, kind: &str, content: String, created_at: u128) -> (r:
    PendingUiMessage)
    ensures
        r.deep_view() == pending_text(role@, kind@, content@, created_at),
{
    PendingUiMessage {
        role: text::owned(role),
        kind: text::owned(kind),
        content,
        created_at,
        tool_name: None,
        tool_args: None,
        tool_output: None,
    }
}

/// What is shown of a compaction.
pub open spec fn compaction_note(
    removed_messages: usize,
    estimated_tokens_before: usize,
    transcript_path: Option<Seq<char>>,
) -> JsonModel {
    JsonModel::empty_object().with(
        "removed_messages"@,
        JsonModel::uint(removed_messages as u64),
    ).with("estimated_tokens_before"@, JsonModel::uint(estimated_tokens_before as u64)).with(
        "transcript_path"@,
        JsonModel::optional_text(transcript_path),
    )
}

/// The message that an event becomes. What the assistant says is shown unless
/// it says nothing; everything else belongs to the trace, as does what it says
/// while it calls tools.
pub open spec fn message_of_event(event: RuntimeEvent, now_ms: u128) -> Option<PendingLiveModel> {
    match event {
        RuntimeEvent::AssistantMessage(m) => {
            let content = text_or_empty(m@.text_at("content"@));
            if text::is_blank(content) {
                None
            } else if calls_tools(m@) {
                Some(
                    PendingLiveModel::Trace(
                        pending_text(
                            "assistant"@,
                            "assistant_trace"@,
                            text::trimmed(content),
                            now_ms,
                        ),
                    ),
                )
            } else {
                Some(
                    PendingLiveModel::Visible(
                        pending_text("assistant"@, "assistant"@, text::trimmed(content), now_ms),
                    ),
                )
            }
        },
        RuntimeEvent::Compaction { removed_messages, estimated_tokens_before, transcript_path } =>
            Some(
            PendingLiveModel::Trace(
                pending_text(
                    "system"@,
                    "context_compacted"@,
                    json::compact_text(
                        compaction_note(
                            removed_messages,
                            estimated_tokens_before,
                            transcript_path.deep_view(),
                        ),
                    ),
                    now_ms,
                ),
            ),
        ),
        RuntimeEvent::ToolCall { tool_call_id, name, arguments } => Some(
            PendingLiveModel::Trace(
                PendingModel {
                    role: "assistant"@,
                    kind: "tool_call"@,
                    content: seq![],
                    created_at: now_ms,
                    tool_name: Some(name@),
                    tool_args: Some(arguments@),
                    tool_output: None,
                },
            ),
        ),
        RuntimeEvent::ToolResult { tool_call_id, name, arguments, result } => Some(
            PendingLiveModel::Trace(
                PendingModel {
                    role: "tool"@,
                    kind: "tool_result"@,
                    content: seq![],
                    created_at: now_ms,
                    tool_name: Some(name@),
                    tool_args: Some(arguments@),
                    tool_output: Some(result@),
                },
            ),
        ),
    }
}

/// The message that an event becomes.
pub fn pending_message_from_event(event: RuntimeEvent, now_ms: u128) -> (r: Option<
    PendingLiveMessage,
>)
    ensures
        r.deep_view() == message_of_event(event, now_ms),
{
    match event {
        RuntimeEvent::AssistantMessage(message) => {
            proof {
                reveal_strlit("");
                assert(""@ =~= seq![]);
            }
            let content = match message.get_str("content") {
                Some(s) => text::trim(s),
                None => text::trim(""),
            };
            if text::char_count(content.as_str()) == 0 {
                return None;
            }
            if has_tool_calls(&message) {
                Some(
                    PendingLiveMessage::Trace(
                        new_pending_text("assistant", "assistant_trace", content, now_ms),
                    ),
                )
            } else {
                Some(
                    PendingLiveMessage::Visible(
                        new_pending_text("assistant", "assistant", content, now_ms),
                    ),
                )
            }
        },
        RuntimeEvent::Compaction { removed_messages, estimated_tokens_before, transcript_path } => {
            let note = Json::empty_object().with(
                "removed_messages",
                Json::uint(removed_messages as u64),
            ).with("estimated_tokens_before", Json::uint(estimated_tokens_before as u64)).with(
                "transcript_path",
                Json::optional_text(&transcript_path),
            );
            Some(
                PendingLiveMessage::Trace(
                    new_pending_text(
                        "system",
                        "context_compacted",
                        note.to_compact_string(),
                        now_ms,
                    ),
                ),
            )
        },
        RuntimeEvent::ToolCall { tool_call_id, name, arguments } => {
            let content = String::new();
            assert(content@ =~= seq![]);
            Some(
                PendingLiveMessage::Trace(
                    PendingUiMessage {
                        role: text::owned("assistant"),
                        kind: text::owned("tool_call"),
                        content,
                        created_at: now_ms,
                        tool_name: Some(name),
                        tool_args: Some(arguments),
                        tool_output: None,
                    },
                ),
            )
        },
        RuntimeEvent::ToolResult { tool_call_id, name, arguments, result } => {
            let content = String::new();
            assert(content@ =~= seq![]);
            Some(
                PendingLiveMessage::Trace(
                    PendingUiMessage {
                        role: text::owned("tool"),
                        kind: text::owned("tool_result"),
                        content,
                        created_at: now_ms,
                        tool_name: Some(name),
                        tool_args: Some(arguments),
                        tool_output: Some(result),
                    },
                ),
            )
        },
    }
}

// ---------------------------------------------------------------------------
// Laws

/// Whether one more message is visible does not depend on the others: one from
/// the user, from the assistant or from the system is kept behind those that were
/// kept before, and any other is not.
pub proof fn lemma_visible_by_kind(messages: Seq<UiMessageModel>, m: UiMessageModel)
    ensures
        m.kind == "user"@ || m.kind == "assistant"@ || m.kind == "system"@ ==> visible(
            messages.push(m),
        ) == visible(messages).push(m),
        m.kind != "user"@ && m.kind != "assistant"@ && m.kind != "system"@ ==> visible(
            messages.push(m),
        ) == visible(messages),
        visible(seq![]) == Seq::<UiMessageModel>::empty(),
{
    assert(messages.push(m).drop_last() =~= messages);
}

/// A question of the user is shown as it was asked, and its turn is not that of
/// any question before.
pub proof fn lemma_question_is_shown(
    session_id: Seq<char>,
    messages: Seq<JsonModel>,
    m: JsonModel,
    content: Seq<char>,
    offset: nat,
    created_at: u128,
)
    requires
        m.text_at("role"@) == Some("user"@),
        m.text_at("content"@) == Some(content),
        !is_seed(content),
    ensures
        ({
            let before = flattened(session_id, messages, offset, created_at);
            let after = flattened(session_id, messages.push(m), offset, created_at);
            &&& after.len() == before.len() + 1
            &&& after.drop_last() == before
            &&& after.last().role == "user"@
            &&& after.last().kind == "user"@
            &&& after.last().content == content
            &&& after.last().created_at == created_at
            &&& forall|i: int|
                0 <= i < before.len() && (#[trigger] before[i]).role == "user"@
                    ==> before[i].turn_id != after.last().turn_id
        }),
{
    reveal_strlit("user");
    reveal_strlit("system");
    assert("user"@.len() != "system"@.len());
    assert(messages.push(m).drop_last() =~= messages);
    let before = flattened(session_id, messages, offset, created_at);
    let after = flattened(session_id, messages.push(m), offset, created_at);
    assert(after.drop_last() =~= before);
    lemma_turns_so_far(session_id, messages, offset, created_at);
    let turn = flatten_run(session_id, messages, offset, created_at).turn;
    assert forall|i: int|
        0 <= i < before.len() && (#[trigger] before[i]).role == "user"@ implies before[i].turn_id
        != after.last().turn_id by {
        let t = choose|t: nat|
            1 <= t <= turn && before[i].turn_id == #[trigger] turn_key(session_id, t);
        lemma_turn_keys_differ(session_id, t, turn + 1);
    }
}

/// Turns of a session have keys of their own.
pub proof fn lemma_turn_keys_differ(session_id: Seq<char>, turn: nat, other: nat)
    ensures
        turn != other ==> turn_key(session_id, turn) != turn_key(session_id, other),
{
    if turn_key(session_id, turn) == turn_key(session_id, other) {
        let n = (session_id + "-turn-"@).len() as int;
        assert(turn_key(session_id, turn).skip(n) =~= text::decimal(turn));
        assert(turn_key(session_id, other).skip(n) =~= text::decimal(other));
        text::lemma_decimal_is_read_back(turn);
        text::lemma_decimal_is_read_back(other);
    }
}

/// An answer that asks for no tools is shown as it was given; a remark that comes
/// with tool calls is not, whatever it says, and neither is one that says
/// nothing.
pub proof fn lemma_only_final_answers_are_shown(
    session_id: Seq<char>,
    messages: Seq<JsonModel>,
    m: JsonModel,
    content: Seq<char>,
    offset: nat,
    created_at: u128,
)
    requires
        m.text_at("role"@) == Some("assistant"@),
        m.text_at("content"@) == Some(content),
        !is_seed(content),
    ensures
        ({
            let before = flattened(session_id, messages, offset, created_at);
            let after = flattened(session_id, messages.push(m), offset, created_at);
            let final_answer = !text::is_blank(content) && (m.items_at("tool_calls"@) is None
                || m.items_at("tool_calls"@)->0.len() == 0);
            &&& final_answer ==> after.len() == before.len() + 1 && after.drop_last() == before
                && after.last().role == "assistant"@ && after.last().kind == "assistant"@
                && after.last().content == content
            &&& !final_answer ==> after == before
        }),
{
    assert(messages.push(m).drop_last() =~= messages);
    let before = flattened(session_id, messages, offset, created_at);
    let after = flattened(session_id, messages.push(m), offset, created_at);
    reveal_strlit("user");
    reveal_strlit("system");
    reveal_strlit("assistant");
    assert("user"@.len() != "system"@.len());
    assert("user"@.len() != "assistant"@.len());
    assert("system"@.len() != "assistant"@.len());
    if after.len() > before.len() {
        assert(after.drop_last() =~= before);
    }
}

/// Results of tools and messages of the system are never shown.
pub proof fn lemma_inner_messages_are_not_shown(
    session_id: Seq<char>,
    messages: Seq<JsonModel>,
    m: JsonModel,
    offset: nat,
    created_at: u128,
)
    requires
        m.text_at("role"@) == Some("tool"@) || m.text_at("role"@) == Some("system"@),
    ensures
        flattened(session_id, messages.push(m), offset, created_at) == flattened(
            session_id,
            messages,
            offset,
            created_at,
        ),
{
    assert(messages.push(m).drop_last() =~= messages);
    reveal_strlit("user");
    reveal_strlit("system");
    reveal_strlit("assistant");
    reveal_strlit("tool");
    assert("user"@.len() != "system"@.len());
    assert("user"@.len() != "assistant"@.len());
    assert("user"@[0] != "tool"@[0]);
    assert("system"@.len() != "assistant"@.len());
    assert("system"@.len() != "tool"@.len());
    assert("assistant"@.len() != "tool"@.len());
}

/// The prompts that the program itself puts into a conversation are those of
/// interviews, and no others are hidden.
pub proof fn lemma_only_own_prompts_are_hidden(content: Seq<char>)
    ensures
        is_seed(content) ==> {
            let t = text::trimmed(content);
            ||| text::begins_with(
                t,
                "Use the following interview materials as your only codebase context."@,
            )
            ||| t == "Understood. I will interview the programmer using only these materials."@
            ||| text::begins_with(t, "Start the interview. Briefly introduce the process"@)
            ||| t == "Begin now."@
            ||| text::begins_with(
                t,
                "Finish the interview now and produce the final evaluation report"@,
            )
        },
{
}

/// A conversation is called by the last question that the user asked, the first
/// 36 characters of it.
pub proof fn lemma_title_is_last_question(s: SnapshotModel, question: Seq<char>)
    requires
        s.prompt_history.len() > 0,
        s.prompt_history.last() == question,
        !is_seed(question),
    ensures
        title_of(s).len() <= 36,
        !text::is_blank(question) && question.len() <= 36 ==> title_of(s) == question,
        !text::is_blank(question) && question.len() > 36 ==> title_of(s) == question.take(36),
        text::is_blank(question) ==> title_of(s) == "Live conversation"@,
{
    reveal_strlit("Live conversation");
}

/// Prompts of the program do not change what a conversation is called, and one
/// without questions has a name all the same.
pub proof fn lemma_title_passes_over_own_prompts(
    s: SnapshotModel,
    prompts: Seq<Seq<char>>,
    own: Seq<char>,
)
    requires
        is_seed(own),
        s.prompt_history == prompts.push(own),
    ensures
        title_of(s) == title_of(SnapshotModel { prompt_history: prompts, ..s }),
        last_question(seq![]) is None,
{
    assert(prompts.push(own).drop_last() =~= prompts);
}

/// The last answer is what the assistant said last, whatever else followed.
pub proof fn lemma_last_answer(messages: Seq<UiMessageModel>, m: UiMessageModel)
    ensures
        m.role == "assistant"@ && m.kind == "assistant"@ ==> last_answer(messages.push(m)) == Some(
            m.content,
        ),
        !(m.role == "assistant"@ && m.kind == "assistant"@) ==> last_answer(messages.push(m))
            == last_answer(messages),
        last_answer(seq![]) is None,
{
    assert(messages.push(m).drop_last() =~= messages);
}

/// A text without a fence is one block of text, blanks around it aside.
pub proof fn lemma_plain_text_is_one_block(content: Seq<char>, kind: Seq<char>)
    requires
        kind == "user"@ || kind == "assistant"@ || kind == "system"@,
        !text::has_text(content, "```"@),
        !text::is_blank(content),
    ensures
        render_blocks(content, kind) == seq![block("text"@, text::trimmed(content))],
{
    reveal_strlit("user");
    reveal_strlit("assistant");
    reveal_strlit("system");
    reveal_strlit("tool_call");
    reveal_strlit("tool_result");
    reveal_strlit("assistant_trace");
    reveal_strlit("context_compacted");
    assert("user"@.len() != "tool_call"@.len());
    assert("user"@.len() != "tool_result"@.len());
    assert("user"@.len() != "assistant_trace"@.len());
    assert("user"@.len() != "context_compacted"@.len());
    assert("assistant"@[0] != "tool_call"@[0]);
    assert("assistant"@.len() != "tool_result"@.len());
    assert("assistant"@.len() != "assistant_trace"@.len());
    assert("assistant"@.len() != "context_compacted"@.len());
    assert("system"@.len() != "tool_call"@.len());
    assert("system"@.len() != "tool_result"@.len());
    assert("system"@.len() != "assistant_trace"@.len());
    assert("system"@.len() != "context_compacted"@.len());
    text::lemma_first_at(content, "```"@, 0);
    assert(content.skip(0) =~= content);
}

/// Tool calls, their results, remarks and notes on compactions are each one block
/// of their own kind, with what they hold as it is.
pub proof fn lemma_traces_are_one_block(content: Seq<char>, kind: Seq<char>)
    requires
        kind == "tool_call"@ || kind == "tool_result"@ || kind == "assistant_trace"@ || kind
            == "context_compacted"@,
    ensures
        render_blocks(content, kind) == seq![block(kind, content)],
{
}

/// A fence is found behind a part that holds none.
#[verifier::rlimit(60)]
#[verifier::spinoff_prover]
proof fn lemma_fence_is_found(head: Seq<char>, part: Seq<char>, tail: Seq<char>)
    requires
        !text::has_text(part + "``"@, "```"@),
    ensures
        text::first_at(head + part + "```"@ + tail, "```"@, head.len() as int) == Some(
            (head.len() + part.len()) as int,
        ),
{
    reveal_strlit("```");
    reveal_strlit("``");
    let mark = "```"@;
    let content = head + part + mark + tail;
    let at = head.len() as int;
    let end = at + part.len();
    assert(content.subrange(end, end + 3) =~= mark);
    assert(text::occurs_at(content, mark, end));
    text::lemma_first_at(content, mark, at);
    assert forall|j: int| at <= j < end implies !#[trigger] text::occurs_at(content, mark, j) by {
        if text::occurs_at(content, mark, j) {
            let short = part + "``"@;
            let i = j - at;
            let found = content.subrange(j, j + 3);
            assert(found =~= short.subrange(i, i + 3)) by {
                assert(short[i] == content[j]);
                assert(found[1] == mark[1]);
                assert(found[2] == mark[2]);
                assert(short[i + 1] == mark[1]) by {
                    if i + 1 < part.len() {
                        assert(short[i + 1] == content[j + 1]);
                    }
                }
                assert(short[i + 2] == mark[2]) by {
                    if i + 2 < part.len() {
                        assert(short[i + 2] == content[j + 2]);
                    }
                }
            }
            assert(text::occurs_at(short, mark, i));
        }
    }
}

/// A fenced part of a text is a block of code, or a diagram where its first line
/// says so, with what stands between the fences; what stands before it is text,
/// and what stands behind it is parted likewise.
#[verifier::rlimit(60)]
#[verifier::spinoff_prover]
pub proof fn lemma_fenced_part_is_a_block(
    before: Seq<char>,
    language: Seq<char>,
    code: Seq<char>,
    after: Seq<char>,
)
    requires
        !text::has_text(before + "``"@, "```"@),
        !language.contains('\n'),
        !text::has_text(code + "``"@, "```"@),
    ensures
        ({
            let head = before + "```"@ + language + "\n"@;
            let content = head + code + "```"@ + after;
            let kind = if text::lowered(text::trimmed(language)) == "mermaid"@ {
                "mermaid"@
            } else {
                "code"@
            };
            blocks_after(content, 0) == text_block(before) + seq![
                block(kind, text::trimmed(code)),
            ] + blocks_after(content, (head.len() + code.len() + 3) as int)
        }),
{
    let head = before + "```"@ + language + "\n"@;
    let content = head + code + "```"@ + after;
    lemma_fence_is_found(head, code, after);
    let tail = language + "\n"@ + code + "```"@ + after;
    lemma_fence_is_found(seq![], before, tail);
    assert(Seq::<char>::empty() + before + "```"@ + tail =~= content);
    reveal_strlit("```");
    reveal_strlit("\n");
    let fence = before.len() as int;
    let rest = content.skip(fence + 3);
    assert(rest =~= tail);
    text::lemma_index_of_char(rest, '\n');
    let k = text::index_of_char(rest, '\n');
    assert(tail[language.len() as int] == '\n');
    if k < language.len() {
        assert(tail[k] == language[k]);
        assert(language.contains('\n'));
    }
    assert(k == language.len());
    let line_end = fence + 3 + language.len();
    let end = line_end + 1 + code.len();
    assert(head.len() == line_end + 1);
    assert(fenced(content, fence) == Some((line_end, end)));
    assert(content.subrange(0, fence) =~= before);
    assert(content.subrange(fence + 3, line_end) =~= language);
    assert(content.subrange(line_end + 1, end) =~= code);
}

/// An answer is shown where it is the final one, and is kept as a remark where
/// tools are called with it; one that says nothing is neither.
pub proof fn lemma_answers_become_messages(m: Json, content: Seq<char>, now_ms: u128)
    requires
        m@.text_at("content"@) == Some(content),
    ensures
        ({
            let out = message_of_event(RuntimeEvent::AssistantMessage(m), now_ms);
            let calls = m@.items_at("tool_calls"@) is Some && m@.items_at("tool_calls"@)->0.len()
                > 0;
            &&& text::is_blank(content) ==> out is None
            &&& !text::is_blank(content) && !calls ==> (out matches Some(
                PendingLiveModel::Visible(p),
            ) && p.role == "assistant"@ && p.kind == "assistant"@ && p.content == text::trimmed(
                content,
            ) && p.created_at == now_ms)
            &&& !text::is_blank(content) && calls ==> (out matches Some(
                PendingLiveModel::Trace(p),
            ) && p.role == "assistant"@ && p.kind == "assistant_trace"@ && p.content
                == text::trimmed(content) && p.created_at == now_ms)
        }),
{
}

/// A tool call and its result are kept with the name of the tool and what it was
/// given, and the result with what the tool gave; neither is shown with the
/// answers.
pub proof fn lemma_tools_leave_traces(
    tool_call_id: String,
    name: String,
    arguments: String,
    result: String,
    now_ms: u128,
)
    ensures
        message_of_event(
            RuntimeEvent::ToolCall { tool_call_id, name, arguments },
            now_ms,
        ) matches Some(PendingLiveModel::Trace(p)) && p.kind == "tool_call"@ && p.tool_name
            == Some(name@) && p.tool_args == Some(arguments@) && p.tool_output is None,
        message_of_event(
            RuntimeEvent::ToolResult { tool_call_id, name, arguments, result },
            now_ms,
        ) matches Some(PendingLiveModel::Trace(p)) && p.kind == "tool_result"@ && p.tool_name
            == Some(name@) && p.tool_args == Some(arguments@) && p.tool_output == Some(result@),
{
}

/// A message as it is shown says what it was made of.
pub proof fn lemma_message_is_made(
    session_id: Seq<char>,
    index: nat,
    role: Seq<char>,
    kind: Seq<char>,
    content: Seq<char>,
    created_at: u128,
    turn: nat,
)
    ensures
        ({
            let m = ui_message(
                session_id,
                index,
                role,
                kind,
                content,
                created_at,
                None,
                None,
                None,
                turn,
            );
            &&& m.role == role
            &&& m.kind == kind
            &&& m.content == content
            &&& m.created_at == created_at
            &&& m.turn_id == turn_key(session_id, turn)
            &&& kind == "user"@ || kind == "assistant"@ ==> m.render_blocks == render_blocks(
                content,
                kind,
            )
        }),
{
    reveal_strlit("user");
    reveal_strlit("tool_call");
    reveal_strlit("tool_result");
    assert("user"@.len() != "tool_call"@.len());
    assert("user"@.len() != "tool_result"@.len());
    assert("tool_call"@.len() != "tool_result"@.len());
    reveal_strlit("assistant");
    assert("assistant"@[0] != "tool_call"@[0]);
    assert("assistant"@.len() != "tool_result"@.len());
}

/// What is made public of a tool's result is whether it failed, and nothing of
/// what the tool gave.
pub proof fn lemma_public_results_say_how_it_went(m: UiMessageModel, output: Seq<char>)
    requires
        m.kind == "tool_result"@,
        m.tool_output == Some(output),
    ensures
        text::has_text(text::lowered(output), "tool_error"@) ==> public_trace(m).content
            == "tool_error"@,
        !text::has_text(text::lowered(output), "tool_error"@) ==> public_trace(m).content
            == "completed"@,
        public_trace(m).tool_output is None,
        public_trace(m).tool_name == m.tool_name,
        public_trace(m).tool_args == m.tool_args,
        public_trace(m).id == m.id,
        public_trace(m).turn_id == m.turn_id,
{
}

/// The turns of the questions that are shown so far are the first ones.
proof fn lemma_turns_so_far(
    session_id: Seq<char>,
    messages: Seq<JsonModel>,
    offset: nat,
    created_at: u128,
)
    ensures
        ({
            let run = flatten_run(session_id, messages, offset, created_at);
            forall|i: int|
                0 <= i < run.shown.len() && (#[trigger] run.shown[i]).role == "user"@
                    ==> exists|t: nat|
                    1 <= t <= run.turn && run.shown[i].turn_id == #[trigger] turn_key(
                        session_id,
                        t,
                    )
        }),
    decreases messages.len(),
{
    if messages.len() > 0 {
        reveal_strlit("user");
        reveal_strlit("assistant");
        assert("user"@.len() != "assistant"@.len());
        let head = messages.drop_last();
        lemma_turns_so_far(session_id, head, offset, created_at);
        let before = flatten_run(session_id, head, offset, created_at);
        let run = flatten_run(session_id, messages, offset, created_at);
        assert forall|i: int|
            0 <= i < run.shown.len() && (#[trigger] run.shown[i]).role
                == "user"@ implies exists|t: nat|
            1 <= t <= run.turn && run.shown[i].turn_id == #[trigger] turn_key(session_id, t) by {
            if i < before.shown.len() {
                assert(run.shown[i] == before.shown[i]);
                let t = choose|t: nat|
                    1 <= t <= before.turn && before.shown[i].turn_id == #[trigger] turn_key(
                        session_id,
                        t,
                    );
                assert(run.shown[i].turn_id == turn_key(session_id, t));
            } else {
                assert(run.shown[i].turn_id == turn_key(session_id, before.turn + 1));
            }
        }
    }
}

/// A message of a trace has an id of its own kind, and says what it said before.
pub proof fn lemma_trace_message(
    m: UiMessageModel,
    session_id: Seq<char>,
    turn: nat,
    index: nat,
)
    ensures
        trace_message(m, session_id, turn, index).id == session_id + "-trace-"@ + text::decimal(
            turn,
        ) + "-"@ + text::decimal(index) + "-"@ + m.kind,
        trace_message(m, session_id, turn, index).content == m.content,
        trace_message(m, session_id, turn, index).kind == m.kind,
        trace_message(m, session_id, turn, index).tool_output == m.tool_output,
        trace_message(m, session_id, turn, index).tool_args == m.tool_args,
        trace_message(m, session_id, turn, index).turn_id == m.turn_id,
{
}

/// The note on a compaction says how many messages were removed and how much the
/// conversation counted before.
pub proof fn lemma_compaction_is_noted(
    removed_messages: usize,
    estimated_tokens_before: usize,
    path: Option<Seq<char>>,
)
    ensures
        compaction_note(removed_messages, estimated_tokens_before, path).get(
            "removed_messages"@,
        ) == Some(JsonModel::uint(removed_messages as u64)),
        compaction_note(removed_messages, estimated_tokens_before, path).get(
            "estimated_tokens_before"@,
        ) == Some(JsonModel::uint(estimated_tokens_before as u64)),
        compaction_note(removed_messages, estimated_tokens_before, path).text_at(
            "transcript_path"@,
        ) == path,
{
    reveal_strlit("removed_messages");
    reveal_strlit("estimated_tokens_before");
    reveal_strlit("transcript_path");
    assert("removed_messages"@.len() != "estimated_tokens_before"@.len());
    assert("removed_messages"@.len() != "transcript_path"@.len());
    assert("estimated_tokens_before"@.len() != "transcript_path"@.len());
    let j0 = JsonModel::empty_object();
    let j1 = j0.with("removed_messages"@, JsonModel::uint(removed_messages as u64));
    json::lemma_with_is_read(j0, "removed_messages"@, JsonModel::uint(removed_messages as u64));
    let j2 = j1.with("estimated_tokens_before"@, JsonModel::uint(estimated_tokens_before as u64));
    json::lemma_with_is_read(j1, "estimated_tokens_before"@, JsonModel::uint(estimated_tokens_before as u64));
    let j3 = j2.with("transcript_path"@, JsonModel::optional_text(path));
    json::lemma_with_is_read(j2, "transcript_path"@, JsonModel::optional_text(path));
}

/// Only the texts that the library itself puts into an interview are hidden, with
/// or without blanks around them.
pub proof fn lemma_which_texts_are_hidden(content: Seq<char>)
    ensures
        text::trimmed(content) == "Begin now."@ ==> is_seed(content),
        text::trimmed(content)
            == "Understood. I will interview the programmer using only these materials."@
            ==> is_seed(content),
        text::begins_with(
            text::trimmed(content),
            "Use the following interview materials as your only codebase context."@,
        ) ==> is_seed(content),
        text::begins_with(
            text::trimmed(content),
            "Start the interview. Briefly introduce the process"@,
        ) ==> is_seed(content),
        text::begins_with(
            text::trimmed(content),
            "Finish the interview now and produce the final evaluation report"@,
        ) ==> is_seed(content),
        is_seed(content) ==> {
            let t = text::trimmed(content);
            ||| t == "Begin now."@
            ||| t == "Understood. I will interview the programmer using only these materials."@
            ||| text::begins_with(
                t,
                "Use the following interview materials as your only codebase context."@,
            )
            ||| text::begins_with(t, "Start the interview. Briefly introduce the process"@)
            ||| text::begins_with(
                t,
                "Finish the interview now and produce the final evaluation report"@,
            )
        },
{
}

/// A tool call is drawn from its arguments and a tool result from its output;
/// shown to others, the result is drawn only from whether it failed.
pub proof fn lemma_tools_are_drawn(
    session_id: Seq<char>,
    index: nat,
    content: Seq<char>,
    created_at: u128,
    name: Option<Seq<char>>,
    arguments: Seq<char>,
    output: Seq<char>,
    turn: nat,
)
    ensures
        ({
            let call = ui_message(
                session_id,
                index,
                "assistant"@,
                "tool_call"@,
                content,
                created_at,
                name,
                Some(arguments),
                None,
                turn,
            );
            let result = ui_message(
                session_id,
                index,
                "tool"@,
                "tool_result"@,
                content,
                created_at,
                name,
                Some(arguments),
                Some(output),
                turn,
            );
            &&& call.render_blocks == seq![block("tool_call"@, arguments)]
            &&& result.render_blocks == seq![block("tool_result"@, output)]
            &&& public_trace(call).render_blocks == seq![block("tool_call"@, arguments)]
            &&& public_trace(call).tool_args == Some(arguments)
            &&& public_trace(result).render_blocks == seq![
                block("tool_result"@, public_trace(result).content),
            ]
            &&& text::has_text(text::lowered(output), "tool_error"@) ==> public_trace(
                result,
            ).content == "tool_error"@
            &&& !text::has_text(text::lowered(output), "tool_error"@) ==> public_trace(
                result,
            ).content == "completed"@
        }),
{
    reveal_strlit("tool_call");
    reveal_strlit("tool_result");
    reveal_strlit("assistant_trace");
    reveal_strlit("context_compacted");
    assert("tool_call"@.len() != "tool_result"@.len());
    assert("tool_call"@.len() != "assistant_trace"@.len());
    assert("tool_call"@.len() != "context_compacted"@.len());
    assert("tool_result"@.len() != "assistant_trace"@.len());
    assert("tool_result"@.len() != "context_compacted"@.len());
    assert("assistant_trace"@.len() != "context_compacted"@.len());
}

} // verus!
