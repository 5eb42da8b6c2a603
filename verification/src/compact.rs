//! Keeping a conversation small: when it is compacted, what is asked for a
//! summary, how summaries are merged and shortened, and which tool messages
//! have lost the call that they answer.
use crate::config::ContextCompactConfig;
use crate::json;
use crate::keyed;
use crate::json::{Json, JsonModel};
use crate::paths;
use crate::text;
use vstd::prelude::*;

verus! {

pub const CONTINUATION_PREFIX: &'static str = "[Context compacted]";

pub const CONTINUATION_SUFFIX: &'static str = "Continue from this summary and the recent messages.";

pub const MAX_SUMMARY_SOURCE_CHARS: usize = 60_000;

pub const DEFAULT_SUMMARY_MAX_CHARS: usize = 1_200;

pub const DEFAULT_SUMMARY_MAX_LINES: usize = 24;

pub const DEFAULT_SUMMARY_MAX_LINE_CHARS: usize = 160;

/// What a compaction did.
#[derive(Debug, Clone)]
pub struct AutoCompactEvent {
    pub removed_messages: usize,
    pub estimated_tokens_before: usize,
    pub transcript_path: Option<String>,
}

// ---------------------------------------------------------------------------
// Reading messages

/// The role of a message.
pub open spec fn role(m: JsonModel) -> Option<Seq<char>> {
    m.text_at("role"@)
}

/// A message with the result of a tool call.
pub open spec fn is_tool_message(m: JsonModel) -> bool {
    role(m) == Some("tool"@)
}

/// Whether a message has the given role.
pub fn has_role(m: &Json, name: &str) -> (r: bool)
    ensures
        r == (role(m@) == Some(name@)),
{
    match m.get_str("role") {
        Some(s) => text::same_text(s, name),
        None => false,
    }
}

/// The ids under which an assistant message asks for tool calls.
pub open spec fn ids_of_calls(calls: Seq<JsonModel>) -> Seq<Seq<char>>
    decreases calls.len(),
{
    if calls.len() == 0 {
        seq![]
    } else {
        match calls.last().text_at("id"@) {
            Some(id) => ids_of_calls(calls.drop_last()).push(id),
            None => ids_of_calls(calls.drop_last()),
        }
    }
}

/// The id of every call is among the ids.
pub proof fn lemma_ids_of_calls(calls: Seq<JsonModel>, at: int)
    requires
        0 <= at < calls.len(),
        calls[at].text_at("id"@) is Some,
    ensures
        ids_of_calls(calls).contains(calls[at].text_at("id"@)->0),
    decreases calls.len(),
{
    let id = calls[at].text_at("id"@)->0;
    let ids = ids_of_calls(calls);
    if at == calls.len() - 1 {
        assert(ids[ids.len() - 1] == id);
    } else {
        let front = calls.drop_last();
        assert(front[at] == calls[at]);
        lemma_ids_of_calls(front, at);
        let k = choose|k: int| 0 <= k < ids_of_calls(front).len() && ids_of_calls(front)[k] == id;
        assert(ids[k] == id);
    }
}

/// The ids of the tool calls that a message asks for.
pub open spec fn call_ids(m: JsonModel) -> Seq<Seq<char>> {
    if role(m) != Some("assistant"@) {
        seq![]
    } else {
        match m.items_at("tool_calls"@) {
            Some(calls) => ids_of_calls(calls),
            None => seq![],
        }
    }
}

/// The ids of the tool calls that a message asks for.
pub fn assistant_tool_call_ids(message: &Json) -> (r: Vec<String>)
    ensures
        r.deep_view() == call_ids(message@),
{
    let mut ids: Vec<String> = Vec::new();
    if !has_role(message, "assistant") {
        assert(ids.deep_view() =~= seq![]);
        return ids;
    }
    match message.get_array("tool_calls") {
        None => {
            assert(ids.deep_view() =~= seq![]);
            ids
        },
        Some(calls) => {
            let ghost all = calls.deep_view();
            let mut i: usize = 0;
            assert(all.take(0) =~= seq![]);
            assert(ids.deep_view() =~= seq![]);
            while i < calls.len()
                invariant
                    i <= calls@.len(),
                    all == calls.deep_view(),
                    ids.deep_view() == ids_of_calls(all.take(i as int)),
                decreases calls@.len() - i,
            {
                let ghost before = ids.deep_view();
                proof {
                    assert(all.take(i + 1).drop_last() =~= all.take(i as int));
                    assert(all.take(i + 1).last() == calls@[i as int]@);
                }
                match calls[i].get_str("id") {
                    Some(id) => {
                        let copy = text::owned(id);
                        ids.push(copy);
                        assert(ids.deep_view() =~= before.push(copy@));
                    },
                    None => {},
                }
                i = i + 1;
            }
            assert(all.take(all.len() as int) =~= all);
            ids
        },
    }
}

// ---------------------------------------------------------------------------
// Estimating sizes

/// The largest count that a `usize` can hold stands for every larger one.
pub open spec fn capped(n: nat) -> usize {
    if n <= usize::MAX {
        n as usize
    } else {
        usize::MAX
    }
}

/// The number of characters that a value contributes.
pub open spec fn value_chars(m: JsonModel) -> nat
    decreases m,
{
    match m {
        JsonModel::Null => 0,
        JsonModel::Bool(_) => 4,
        JsonModel::Number(n) => json::number_text(n).len(),
        JsonModel::Text(s) => s.len(),
        JsonModel::Array(items) => items_chars(items),
        JsonModel::Object(entries) => entries_chars(entries),
    }
}

/// The number of characters that the items of an array contribute.
pub open spec fn items_chars(items: Seq<JsonModel>) -> nat
    decreases items,
{
    if items.len() == 0 {
        0
    } else {
        items_chars(items.drop_last()) + value_chars(items.last())
    }
}

/// The number of characters that the entries of an object contribute.
pub open spec fn entries_chars(entries: Seq<(Seq<char>, JsonModel)>) -> nat
    decreases entries,
{
    if entries.len() == 0 {
        0
    } else {
        entries_chars(entries.drop_last()) + entries.last().0.len() + value_chars(
            entries.last().1,
        )
    }
}

/// The number of characters that a value contributes.
pub fn estimate_value_chars(value: &Json) -> (r: usize)
    ensures
        r == capped(value_chars(value@)),
    decreases value,
{
    match value {
        Json::Null => 0,
        Json::Bool(_) => 4,
        Json::Number(n) => text::char_count(json::number_to_string(n).as_str()),
        Json::Text(s) => text::char_count(s.as_str()),
        Json::Array(items) => {
            proof {
                json::lemma_array(*items);
            }
            let ghost all = items.deep_view();
            let mut total: usize = 0;
            let mut i: usize = 0;
            assert(all.take(0) =~= seq![]);
            while i < items.len()
                invariant
                    i <= items@.len(),
                    all == items.deep_view(),
                    decreases_to!(*value => *items),
                    total == capped(items_chars(all.take(i as int))),
                decreases items@.len() - i,
            {
                proof {
                    assert(all.take(i + 1).drop_last() =~= all.take(i as int));
                    assert(all.take(i + 1).last() == items@[i as int]@);
                }
                total = total.saturating_add(estimate_value_chars(&items[i]));
                i = i + 1;
            }
            assert(all.take(all.len() as int) =~= all);
            total
        },
        Json::Object(object) => {
            let ghost all = object@;
            let mut total: usize = 0;
            let mut i: usize = 0;
            assert(all.take(0) =~= seq![]);
            while i < object.len()
                invariant
                    i <= all.len(),
                    all == object@,
                    decreases_to!(*value => *object),
                    total == capped(entries_chars(all.take(i as int))),
                decreases all.len() - i,
            {
                proof {
                    assert(all.take(i + 1).drop_last() =~= all.take(i as int));
                    assert(all.take(i + 1).last() == all[i as int]);
                }
                total = total.saturating_add(text::char_count(object.key_at(i)));
                total = total.saturating_add(estimate_value_chars(object.value_at(i)));
                i = i + 1;
            }
            assert(all.take(all.len() as int) =~= all);
            total
        },
    }
}

/// The number of characters that the value under a key contributes.
pub open spec fn chars_at(m: JsonModel, key: Seq<char>) -> nat {
    match m.get(key) {
        Some(v) => value_chars(v),
        None => 0,
    }
}

/// The number of characters of a message that count: those of its role, its
/// content and its tool calls.
pub open spec fn message_chars(m: JsonModel) -> nat {
    (match role(m) {
        Some(r) => r.len(),
        None => 0,
    }) + chars_at(m, "content"@) + chars_at(m, "tool_calls"@)
}

/// A message counts one token for every four characters, and one more.
pub open spec fn message_tokens(m: JsonModel) -> nat {
    (capped(message_chars(m)) / 4 + 1) as nat
}

/// The tokens of all messages.
pub open spec fn messages_tokens(messages: Seq<JsonModel>) -> nat
    decreases messages.len(),
{
    if messages.len() == 0 {
        0
    } else {
        messages_tokens(messages.drop_last()) + message_tokens(messages.last())
    }
}

fn chars_under(message: &Json, key: &str) -> (r: usize)
    ensures
        r == capped(chars_at(message@, key@)),
{
    match message.get(key) {
        Some(v) => estimate_value_chars(v),
        None => 0,
    }
}

/// The tokens of one message.
pub fn estimate_message_tokens(message: &Json) -> (r: usize)
    ensures
        r == message_tokens(message@),
{
    let mut chars: usize = match message.get_str("role") {
        Some(s) => text::char_count(s),
        None => 0,
    };
    chars = chars.saturating_add(chars_under(message, "content"));
    chars = chars.saturating_add(chars_under(message, "tool_calls"));
    (chars / 4).saturating_add(1)
}

/// The tokens of the messages at `from..`.
fn tokens_from(messages: &Vec<Json>, from: usize) -> (r: usize)
    requires
        from <= messages@.len(),
    ensures
        r == capped(messages_tokens(messages.deep_view().skip(from as int))),
{
    let ghost all = messages.deep_view().skip(from as int);
    let mut total: usize = 0;
    let mut i: usize = from;
    assert(all.take(0) =~= seq![]);
    while i < messages.len()
        invariant
            from <= i <= messages@.len(),
            all == messages.deep_view().skip(from as int),
            total == capped(messages_tokens(all.take(i - from))),
        decreases messages@.len() - i,
    {
        proof {
            assert(all.take(i - from + 1).drop_last() =~= all.take(i - from));
            assert(all.take(i - from + 1).last() == messages@[i as int]@);
        }
        total = total.saturating_add(estimate_message_tokens(&messages[i]));
        i = i + 1;
    }
    assert(all.take(all.len() as int) =~= all);
    total
}

/// The tokens of all messages.
pub fn estimate_messages_tokens(messages: &Vec<Json>) -> (r: usize)
    ensures
        r == capped(messages_tokens(messages.deep_view())),
{
    assert(messages.deep_view().skip(0) =~= messages.deep_view());
    tokens_from(messages, 0)
}

// ---------------------------------------------------------------------------
// Planning a compaction

/// The message that a compaction puts in place of what it removed.
pub open spec fn continuation(summary: Seq<char>) -> Seq<char> {
    CONTINUATION_PREFIX@ + "\n\n"@ + summary + "\n\n"@ + CONTINUATION_SUFFIX@
}

/// The message that a compaction puts in place of what it removed.
pub fn compact_continuation_message(summary: &str) -> (r: String)
    ensures
        r@ == continuation(summary@),
{
    let mut r = text::owned(CONTINUATION_PREFIX);
    r.append("\n\n");
    r.append(summary);
    r.append("\n\n");
    r.append(CONTINUATION_SUFFIX);
    r
}

/// What stands between a summary and the end of its continuation message.
pub open spec fn closing() -> Seq<char> {
    "\n\n"@ + CONTINUATION_SUFFIX@
}

/// What stands before the first `closing`, or all of it.
pub open spec fn before_closing(s: Seq<char>) -> Seq<char> {
    match text::first_at(s, closing(), 0) {
        Some(i) => s.take(i),
        None => s,
    }
}

/// The summary inside the text of a continuation message.
pub open spec fn summary_in(content: Seq<char>) -> Option<Seq<char>> {
    if text::begins_with(content, CONTINUATION_PREFIX@) {
        let rest = text::trim_start_by(
            text::CharClass::One('\n'),
            content.skip(CONTINUATION_PREFIX@.len() as int),
        );
        Some(text::trimmed(before_closing(rest)))
    } else {
        None
    }
}

/// The summary that an earlier compaction left in a message.
pub open spec fn existing_summary(m: JsonModel) -> Option<Seq<char>> {
    if role(m) != Some("system"@) {
        None
    } else {
        match m.text_at("content"@) {
            Some(content) => summary_in(content),
            None => None,
        }
    }
}

/// The summary inside the text of a continuation message.
fn summary_of_content(content: &str) -> (r: Option<String>)
    ensures
        r.deep_view() == summary_in(content@),
{
    if !text::starts_with(content, CONTINUATION_PREFIX) {
        return None;
    }
    let v = text::chars_of(content);
    let tail = text::string_of(&v, text::char_count(CONTINUATION_PREFIX), v.len());
    assert(tail@ =~= content@.skip(CONTINUATION_PREFIX@.len() as int));
    let rest = text::trim_start_class(text::CharClass::One('\n'), tail.as_str());
    let chars = text::chars_of(rest.as_str());
    let mark = text::chars_of(text::concat("\n\n", CONTINUATION_SUFFIX).as_str());
    let end: usize = match text::find_from(&chars, &mark, 0) {
        Some(i) => i,
        None => chars.len(),
    };
    let inner = text::string_of(&chars, 0, end);
    assert(inner@ =~= before_closing(rest@));
    Some(text::trim(inner.as_str()))
}

/// The summary that an earlier compaction left in a message.
pub fn extract_existing_compacted_summary(message: &Json) -> (r: Option<String>)
    ensures
        r.deep_view() == existing_summary(message@),
{
    if !has_role(message, "system") {
        return None;
    }
    match message.get_str("content") {
        Some(content) => summary_of_content(content),
        None => None,
    }
}

/// How many messages at the start stand for an earlier compaction.
pub open spec fn summary_prefix(messages: Seq<JsonModel>) -> int {
    if messages.len() > 0 && existing_summary(messages[0]) is Some {
        1
    } else {
        0
    }
}

/// How many messages at the start stand for an earlier compaction.
pub fn compacted_summary_prefix_len(messages: &Vec<Json>) -> (r: usize)
    ensures
        r == summary_prefix(messages.deep_view()),
{
    if messages.len() > 0 {
        match extract_existing_compacted_summary(&messages[0]) {
            Some(_) => 1,
            None => 0,
        }
    } else {
        0
    }
}

/// The position to cut at, moved to the front until it is no tool message.
pub open spec fn tool_boundary(messages: Seq<JsonModel>, keep_from: int) -> int
    decreases keep_from,
{
    if 0 < keep_from < messages.len() && is_tool_message(messages[keep_from]) {
        tool_boundary(messages, keep_from - 1)
    } else {
        keep_from
    }
}

/// The position to cut at, moved to the front until it is no tool message.
pub fn adjust_keep_from_to_tool_boundary(messages: &Vec<Json>, keep_from: usize) -> (r: usize)
    ensures
        r == tool_boundary(messages.deep_view(), keep_from as int),
        r <= keep_from,
{
    let mut at: usize = keep_from;
    while at > 0 && at < messages.len() && has_role(&messages[at], "tool")
        invariant
            at <= keep_from,
            tool_boundary(messages.deep_view(), at as int) == tool_boundary(
                messages.deep_view(),
                keep_from as int,
            ),
        decreases at,
    {
        at = at - 1;
    }
    at
}

/// Which part of a conversation a compaction replaces.
#[derive(Debug, Clone, Copy, PartialEq, Eq, Structural)]
pub struct CompactPlan {
    pub compacted_prefix_len: usize,
    pub keep_from: usize,
    pub removed_messages: usize,
    pub estimated_tokens_before: usize,
}

/// The position before adjustment: the end less the messages to preserve.
pub open spec fn first_cut(len: nat, preserve: usize) -> int {
    if len >= preserve {
        len - preserve
    } else {
        0
    }
}

/// The compaction that a conversation needs. It needs one if the messages
/// after an earlier summary are more than those to preserve and count at least
/// the threshold, and if something is left to remove once no tool result is
/// cut off from the call that it answers.
pub open spec fn planned(messages: Seq<JsonModel>, cfg: ContextCompactConfig) -> Option<
    CompactPlan,
> {
    let prefix = summary_prefix(messages);
    let keep_from = tool_boundary(
        messages,
        first_cut(messages.len(), cfg.auto_preserve_recent_messages),
    );
    if !cfg.enabled || cfg.auto_token_threshold == 0 {
        None
    } else if messages.len() - prefix <= cfg.auto_preserve_recent_messages {
        None
    } else if messages_tokens(messages.skip(prefix)) < cfg.auto_token_threshold {
        None
    } else if keep_from <= prefix {
        None
    } else {
        Some(
            CompactPlan {
                compacted_prefix_len: prefix as usize,
                keep_from: keep_from as usize,
                removed_messages: (keep_from - prefix) as usize,
                estimated_tokens_before: capped(messages_tokens(messages)),
            },
        )
    }
}

/// The compaction that a conversation needs.
pub fn plan_auto_compact(messages: &Vec<Json>, cfg: &ContextCompactConfig) -> (r: Option<
    CompactPlan,
>)
    ensures
        r == planned(messages.deep_view(), *cfg),
{
    if !cfg.enabled || cfg.auto_token_threshold == 0 {
        return None;
    }
    let prefix = compacted_summary_prefix_len(messages);
    if messages.len() - prefix <= cfg.auto_preserve_recent_messages {
        return None;
    }
    if tokens_from(messages, prefix) < cfg.auto_token_threshold {
        return None;
    }
    let cut: usize = messages.len().saturating_sub(cfg.auto_preserve_recent_messages);
    let keep_from = adjust_keep_from_to_tool_boundary(messages, cut);
    if keep_from <= prefix {
        return None;
    }
    Some(
        CompactPlan {
            compacted_prefix_len: prefix,
            keep_from,
            removed_messages: keep_from - prefix,
            estimated_tokens_before: estimate_messages_tokens(messages),
        },
    )
}

/// A message that a compaction leaves at the start.
pub open spec fn summary_message(summary: Seq<char>) -> JsonModel {
    JsonModel::empty_object().with("role"@, JsonModel::Text("system"@)).with(
        "content"@,
        JsonModel::Text(continuation(summary)),
    )
}

/// The conversation after a compaction.
pub open spec fn compacted(
    messages: Seq<JsonModel>,
    plan: CompactPlan,
    summary: Seq<char>,
) -> Seq<JsonModel> {
    seq![summary_message(summary)] + (if plan.keep_from <= messages.len() {
        messages.skip(plan.keep_from as int)
    } else {
        seq![]
    })
}

/// The conversation after a compaction.
pub fn build_messages_after_compaction(
    messages: &Vec<Json>,
    plan: &CompactPlan,
    summary: &str,
) -> (r: Vec<Json>)
    ensures
        r.deep_view() == compacted(messages.deep_view(), *plan, summary@),
{
    let content = compact_continuation_message(summary);
    let head = Json::empty_object().with("role", Json::text("system")).with(
        "content",
        Json::Text(content),
    );
    let from: usize = if plan.keep_from <= messages.len() {
        plan.keep_from
    } else {
        messages.len()
    };
    let mut next: Vec<Json> = Vec::new();
    next.push(head);
    let mut preserved = json::clone_range(messages, from, messages.len());
    let ghost tail = preserved.deep_view();
    next.append(&mut preserved);
    assert(next.deep_view() =~= seq![summary_message(summary@)] + tail);
    assert(next.deep_view() =~= compacted(messages.deep_view(), *plan, summary@));
    next
}

// ---------------------------------------------------------------------------
// Tool messages without their call

/// A clean-up under way: the messages kept, the ids of calls that still wait
/// for their result, and the number of messages dropped.
#[verifier::ext_equal]
pub struct Cleaning {
    pub kept: Seq<JsonModel>,
    pub pending: Seq<Seq<char>>,
    pub removed: nat,
}

/// The first position of `id`, or the length.
pub open spec fn position_of(ids: Seq<Seq<char>>, id: Seq<char>) -> int
    decreases ids.len(),
{
    if ids.len() == 0 || ids[0] == id {
        0
    } else {
        1 + position_of(ids.skip(1), id)
    }
}

/// The text, or nothing at all as the empty text.
pub open spec fn or_empty(s: Option<Seq<char>>) -> Seq<char> {
    match s {
        Some(t) => t,
        None => seq![],
    }
}

/// An assistant message that asks for tool calls.
pub open spec fn asks_for_tools(m: JsonModel) -> bool {
    role(m) == Some("assistant"@) && m.get("tool_calls"@) is Some
}

/// The messages with the last one rid of tool calls that were never answered.
pub open spec fn last_settled(kept: Seq<JsonModel>) -> Seq<JsonModel> {
    if kept.len() > 0 && asks_for_tools(kept.last()) {
        kept.update(kept.len() - 1, kept.last().without("tool_calls"@))
    } else {
        kept
    }
}

/// One message of the clean-up. A tool message stays if a call waits for it.
/// Any other message ends the waiting: calls of the message just before it are
/// taken out of that message.
pub open spec fn clean_step(state: Cleaning, m: JsonModel) -> Cleaning {
    if or_empty(role(m)) == "tool"@ {
        let at = position_of(state.pending, or_empty(m.text_at("tool_call_id"@)));
        if at < state.pending.len() {
            Cleaning {
                kept: state.kept.push(m),
                pending: state.pending.remove(at),
                removed: state.removed,
            }
        } else {
            Cleaning { removed: state.removed + 1, ..state }
        }
    } else {
        let kept = if state.pending.len() > 0 {
            last_settled(state.kept)
        } else {
            state.kept
        };
        Cleaning { kept: kept.push(m), pending: call_ids(m), removed: state.removed }
    }
}

/// The clean-up after all messages have been seen.
pub open spec fn clean_run(messages: Seq<JsonModel>) -> Cleaning
    decreases messages.len(),
{
    if messages.len() == 0 {
        Cleaning { kept: seq![], pending: seq![], removed: 0 }
    } else {
        clean_step(clean_run(messages.drop_last()), messages.last())
    }
}

/// The messages that a clean-up leaves.
pub open spec fn cleaned(messages: Seq<JsonModel>) -> Seq<JsonModel> {
    let end = clean_run(messages);
    if end.pending.len() > 0 {
        last_settled(end.kept)
    } else {
        end.kept
    }
}

fn find_id(ids: &Vec<String>, id: &str) -> (r: usize)
    ensures
        r == position_of(ids.deep_view(), id@),
        r <= ids@.len(),
{
    let ghost all = ids.deep_view();
    let mut i: usize = 0;
    assert(all.skip(0) =~= all);
    while i < ids.len()
        invariant
            i <= ids@.len(),
            all == ids.deep_view(),
            i + position_of(all.skip(i as int), id@) == position_of(all, id@),
        decreases ids@.len() - i,
    {
        assert(all.skip(i as int)[0] == ids@[i as int]@);
        if text::same_text(ids[i].as_str(), id) {
            return i;
        }
        assert(all.skip(i as int).skip(1) =~= all.skip(i + 1));
        i = i + 1;
    }
    assert(all.skip(i as int) =~= seq![]);
    i
}

fn settle_last(kept: &mut Vec<Json>)
    requires
        old(kept)@.len() > 0,
    ensures
        final(kept).deep_view() == last_settled(old(kept).deep_view()),
{
    let ghost before = kept.deep_view();
    let end: usize = kept.len() - 1;
    assert(before.last() == kept@[end as int]@);
    let unanswered = has_role(&kept[end], "assistant") && kept[end].get("tool_calls").is_some();
    if unanswered {
        match kept.pop() {
            Some(m) => {
                let ghost model = m@;
                kept.push(m.without("tool_calls"));
                assert(kept.deep_view() =~= before.update(
                    before.len() - 1,
                    model.without("tool_calls"@),
                ));
            },
            None => {},
        }
    }
}

/// The length of an id list only grows with a message that is kept.
proof fn lemma_pending_has_message(messages: Seq<JsonModel>)
    ensures
        clean_run(messages).pending.len() > 0 ==> clean_run(messages).kept.len() > 0,
        clean_run(messages).kept.len() + clean_run(messages).removed == messages.len(),
    decreases messages.len(),
{
    if messages.len() > 0 {
        lemma_pending_has_message(messages.drop_last());
    }
}

/// Drops tool messages that answer no call, and tool calls that nothing
/// answers; the result is the number of messages dropped.
pub fn remove_orphan_tool_messages(messages: &mut Vec<Json>) -> (removed: usize)
    ensures
        final(messages).deep_view() == cleaned(old(messages).deep_view()),
        removed == clean_run(old(messages).deep_view()).removed,
{
    let ghost all = messages.deep_view();
    let mut input: Vec<Json> = Vec::new();
    std::mem::swap(&mut input, messages);
    let ghost items = input@;
    let total: usize = input.len();
    let mut kept: Vec<Json> = Vec::new();
    let mut pending: Vec<String> = Vec::new();
    let mut removed: usize = 0;
    let ghost mut done: int = 0;
    proof {
        assert(all.take(0) =~= seq![]);
        assert(items.skip(0) =~= items);
        assert(kept.deep_view() =~= seq![]);
        assert(pending.deep_view() =~= seq![]);
    }
    while input.len() > 0
        invariant
            0 <= done <= items.len(),
            items.len() == total,
            items.len() == all.len(),
            forall|k: int| 0 <= k < items.len() ==> (#[trigger] items[k])@ == all[k],
            input@ == items.skip(done),
            kept.deep_view() == clean_run(all.take(done)).kept,
            pending.deep_view() == clean_run(all.take(done)).pending,
            removed == clean_run(all.take(done)).removed,
        decreases input@.len(),
    {
        let ghost state = clean_run(all.take(done));
        let message = input.remove(0);
        proof {
            assert(message == items[done]);
            assert(input@ =~= items.skip(done + 1));
            assert(all.take(done + 1).drop_last() =~= all.take(done));
            assert(all.take(done + 1).last() == all[done]);
            lemma_pending_has_message(all.take(done));
            done = done + 1;
        }
        let ghost before_kept = kept.deep_view();
        let ghost before_pending = pending.deep_view();
        let is_tool = match message.get_str("role") {
            Some(s) => text::same_text(s, "tool"),
            None => text::same_text("", "tool"),
        };
        proof {
            reveal_strlit("");
            assert(""@ =~= seq![]);
        }
        if is_tool {
            let at = match message.get_str("tool_call_id") {
                Some(id) => find_id(&pending, id),
                None => find_id(&pending, ""),
            };
            if at < pending.len() {
                pending.remove(at);
                assert(pending.deep_view() =~= before_pending.remove(at as int));
                let ghost model = message@;
                kept.push(message);
                assert(kept.deep_view() =~= before_kept.push(model));
            } else {
                removed = removed + 1;
            }
        } else {
            if pending.len() > 0 {
                settle_last(&mut kept);
            }
            let ghost settled = kept.deep_view();
            pending = assistant_tool_call_ids(&message);
            let ghost model = message@;
            kept.push(message);
            assert(kept.deep_view() =~= settled.push(model));
        }
    }
    proof {
        assert(all.take(done) =~= all);
        lemma_pending_has_message(all);
    }
    if pending.len() > 0 {
        settle_last(&mut kept);
    }
    *messages = kept;
    removed
}

/// Every message is kept or counted as dropped.
pub proof fn lemma_cleaning_counts(messages: Seq<JsonModel>)
    ensures
        cleaned(messages).len() + clean_run(messages).removed == messages.len(),
{
    lemma_pending_has_message(messages);
}

/// Settling a message changes neither its role nor any other entry, and leaves
/// it without tool calls.
proof fn lemma_settled_message(m: JsonModel)
    requires
        asks_for_tools(m),
    ensures
        role(m.without("tool_calls"@)) == role(m),
        or_empty(role(m)) != "tool"@,
        !asks_for_tools(m.without("tool_calls"@)),
        call_ids(m.without("tool_calls"@)) == Seq::<Seq<char>>::empty(),
{
    reveal_strlit("role");
    reveal_strlit("tool_calls");
    reveal_strlit("assistant");
    reveal_strlit("tool");
    assert("role"@.len() != "tool_calls"@.len());
    assert("assistant"@.len() != "tool"@.len());
    match m {
        JsonModel::Object(entries) => {
            keyed::lemma_entry_of_without_entry(entries, "tool_calls"@, "role"@);
            keyed::lemma_entry_of_without_entry(entries, "tool_calls"@, "tool_calls"@);
        },
        _ => {},
    }
}

/// A clean-up of what a clean-up kept keeps all of it and waits for the same.
proof fn lemma_clean_run_again(messages: Seq<JsonModel>)
    ensures
        clean_run(clean_run(messages).kept) == (Cleaning {
            removed: 0,
            ..clean_run(messages)
        }),
    decreases messages.len(),
{
    if messages.len() == 0 {
    } else {
        let before = clean_run(messages.drop_last());
        let m = messages.last();
        lemma_clean_run_again(messages.drop_last());
        lemma_pending_has_message(messages.drop_last());
        let after = clean_run(messages);
        if or_empty(role(m)) == "tool"@ {
            let at = position_of(before.pending, or_empty(m.text_at("tool_call_id"@)));
            if at < before.pending.len() {
                assert(after.kept.drop_last() =~= before.kept);
            }
        } else if before.pending.len() > 0 && asks_for_tools(before.kept.last()) {
            lemma_settled_again(before);
            assert(after.kept.drop_last() =~= last_settled(before.kept));
        } else {
            assert(after.kept.drop_last() =~= before.kept);
        }
    }
}

/// Where the last message kept loses its calls, nothing waits any more.
proof fn lemma_settled_again(state: Cleaning)
    requires
        state.kept.len() > 0,
        asks_for_tools(state.kept.last()),
        clean_run(state.kept) == (Cleaning { removed: 0, ..state }),
    ensures
        clean_run(last_settled(state.kept)) == (Cleaning {
            kept: last_settled(state.kept),
            pending: seq![],
            removed: 0,
        }),
{
    let front = state.kept.drop_last();
    let last = state.kept.last();
    let settled = last_settled(state.kept);
    lemma_settled_message(last);
    let earlier = clean_run(front);
    let kept = if earlier.pending.len() > 0 {
        last_settled(earlier.kept)
    } else {
        earlier.kept
    };
    assert(kept.push(last) == state.kept);
    assert(kept =~= front);
    assert(settled.drop_last() =~= front);
    assert(settled =~= front.push(last.without("tool_calls"@)));
}

/// Cleaning a second time changes nothing and drops nothing: what is left holds
/// no tool message without its call.
pub proof fn lemma_cleaning_is_idempotent(messages: Seq<JsonModel>)
    ensures
        cleaned(cleaned(messages)) == cleaned(messages),
        clean_run(cleaned(messages)).removed == 0,
{
    let end = clean_run(messages);
    lemma_clean_run_again(messages);
    lemma_pending_has_message(messages);
    if end.pending.len() > 0 && asks_for_tools(end.kept.last()) {
        lemma_settled_again(end);
    }
}

/// Nothing but tool messages stands after `caller` up to and with `at`.
pub open spec fn only_tools_between(messages: Seq<JsonModel>, caller: int, at: int) -> bool {
    forall|k: int| caller < k <= at ==> is_tool_message(#[trigger] messages[k])
}

/// A tool message answers a call: going back over the tool messages before it
/// leads to a message that asks for tool calls, and its id is one of theirs.
pub open spec fn answers_a_call(messages: Seq<JsonModel>, at: int) -> bool {
    exists|caller: int|
        0 <= caller < at && #[trigger] only_tools_between(messages, caller, at) && call_ids(
            messages[caller],
        ).contains(or_empty(messages[at].text_at("tool_call_id"@)))
}

/// Every tool message answers a call.
pub open spec fn all_answer(messages: Seq<JsonModel>) -> bool {
    forall|at: int|
        0 <= at < messages.len() && is_tool_message(#[trigger] messages[at]) ==> answers_a_call(
            messages,
            at,
        )
}

/// The id of every call that waits was asked for by the message at `caller`.
spec fn asked_by(state: Cleaning, caller: int) -> bool {
    forall|j: int|
        0 <= j < state.pending.len() ==> call_ids(state.kept[caller]).contains(
            #[trigger] state.pending[j],
        )
}

/// Whatever waits was asked for by the last message that is no tool message.
spec fn waits_for_last_caller(state: Cleaning) -> bool {
    state.pending.len() > 0 ==> exists|caller: int|
        0 <= caller < state.kept.len() && #[trigger] only_tools_between(
            state.kept,
            caller,
            state.kept.len() - 1,
        ) && asked_by(state, caller)
}

/// The position found holds the id.
proof fn lemma_position_of(ids: Seq<Seq<char>>, id: Seq<char>)
    ensures
        0 <= position_of(ids, id) <= ids.len(),
        position_of(ids, id) < ids.len() ==> ids[position_of(ids, id)] == id,
        ids.contains(id) ==> position_of(ids, id) < ids.len(),
    decreases ids.len(),
{
    if ids.len() > 0 && ids[0] != id {
        lemma_position_of(ids.skip(1), id);
        if ids.contains(id) {
            let k = choose|k: int| 0 <= k < ids.len() && ids[k] == id;
            assert(ids.skip(1)[k - 1] == id);
        }
    }
}

/// A tool message that is kept answers a call, and what waits after it was
/// asked for by the same message.
proof fn lemma_kept_tool(before: Cleaning, m: JsonModel)
    requires
        waits_for_last_caller(before),
        all_answer(before.kept),
        is_tool_message(m),
        clean_step(before, m).kept.len() > before.kept.len(),
    ensures
        waits_for_last_caller(clean_step(before, m)),
        all_answer(clean_step(before, m).kept),
{
    let after = clean_step(before, m);
    let id = or_empty(m.text_at("tool_call_id"@));
    let at = position_of(before.pending, id);
    lemma_position_of(before.pending, id);
    let last = before.kept.len() as int;
    let caller = choose|caller: int|
        0 <= caller < before.kept.len() && #[trigger] only_tools_between(
            before.kept,
            caller,
            before.kept.len() - 1,
        ) && asked_by(before, caller);
    assert(after.kept[caller] == before.kept[caller]);
    assert(call_ids(after.kept[caller]).contains(before.pending[at]));
    assert(only_tools_between(after.kept, caller, last)) by {
        assert forall|k: int| caller < k <= last implies is_tool_message(
            #[trigger] after.kept[k],
        ) by {
            if k < last {
                assert(after.kept[k] == before.kept[k]);
            }
        }
    }
    assert(after.kept.len() - 1 == last);
    assert(only_tools_between(after.kept, caller, after.kept.len() - 1));
    assert(answers_a_call(after.kept, last));
    assert(asked_by(after, caller)) by {
        assert forall|j: int| 0 <= j < after.pending.len() implies call_ids(
            after.kept[caller],
        ).contains(#[trigger] after.pending[j]) by {
            if j < at {
                assert(after.pending[j] == before.pending[j]);
            } else {
                assert(after.pending[j] == before.pending[j + 1]);
            }
        }
    }
    lemma_answers_in_longer(before.kept, m);
}

proof fn lemma_kept_tools_answer(messages: Seq<JsonModel>)
    ensures
        waits_for_last_caller(clean_run(messages)),
        all_answer(clean_run(messages).kept),
    decreases messages.len(),
{
    if messages.len() > 0 {
        let before = clean_run(messages.drop_last());
        let m = messages.last();
        let after = clean_run(messages);
        lemma_kept_tools_answer(messages.drop_last());
        lemma_tool_role(m);
        if is_tool_message(m) {
            if after.kept.len() > before.kept.len() {
                lemma_kept_tool(before, m);
            }
        } else {
            let kept = if before.pending.len() > 0 {
                last_settled(before.kept)
            } else {
                before.kept
            };
            lemma_answers_in_settled(before.kept, kept);
            lemma_answers_in_longer(kept, m);
            let caller = after.kept.len() - 1;
            assert(after.kept[caller] == m);
            assert(only_tools_between(after.kept, caller, after.kept.len() - 1));
            assert(asked_by(after, caller));
        }
    }
}

/// A message without a role is no tool message.
proof fn lemma_tool_role(m: JsonModel)
    ensures
        is_tool_message(m) <==> or_empty(role(m)) == "tool"@,
{
    reveal_strlit("tool");
    assert("tool"@.len() == 4);
    assert(Seq::<char>::empty().len() == 0);
}

/// What answers a call still does when a message follows that is no tool
/// message or answers a call itself.
pub proof fn lemma_answers_in_longer(short: Seq<JsonModel>, m: JsonModel)
    requires
        all_answer(short),
        !is_tool_message(m) || answers_a_call(short.push(m), short.len() as int),
    ensures
        all_answer(short.push(m)),
{
    let long = short.push(m);
    assert forall|at: int| 0 <= at < long.len() && is_tool_message(#[trigger] long[at]) implies
        answers_a_call(long, at) by {
        if at < short.len() {
            assert(long[at] == short[at]);
            let caller = choose|caller: int|
                0 <= caller < at && #[trigger] only_tools_between(short, caller, at) && call_ids(
                    short[caller],
                ).contains(or_empty(short[at].text_at("tool_call_id"@)));
            assert(long[caller] == short[caller]);
            assert(only_tools_between(long, caller, at)) by {
                assert forall|k: int| caller < k <= at implies is_tool_message(
                    #[trigger] long[k],
                ) by {
                    assert(long[k] == short[k]);
                }
            }
        }
    }
}

/// Settling the last message takes no answer away: nothing followed it.
proof fn lemma_answers_in_settled(kept: Seq<JsonModel>, settled: Seq<JsonModel>)
    requires
        settled == kept || settled == last_settled(kept),
        all_answer(kept),
    ensures
        all_answer(settled),
{
    if kept.len() > 0 && asks_for_tools(kept.last()) && settled == last_settled(kept) {
        lemma_settled_message(kept.last());
        lemma_tool_role(kept.last().without("tool_calls"@));
        assert forall|at: int|
            0 <= at < settled.len() && is_tool_message(
                #[trigger] settled[at],
            ) implies answers_a_call(settled, at) by {
            if at == kept.len() - 1 {
                assert(settled[at] == kept.last().without("tool_calls"@));
            }
            assert(settled[at] == kept[at]);
            let caller = choose|caller: int|
                0 <= caller < at && #[trigger] only_tools_between(kept, caller, at) && call_ids(
                    kept[caller],
                ).contains(or_empty(kept[at].text_at("tool_call_id"@)));
            assert(settled[caller] == kept[caller]);
            assert(only_tools_between(settled, caller, at)) by {
                assert forall|k: int| caller < k <= at implies is_tool_message(
                    #[trigger] settled[k],
                ) by {
                    assert(settled[k] == kept[k]);
                }
            }
        }
    }
}

/// After a clean-up every tool message answers a call of the message before the
/// tool messages that it stands among.
pub proof fn lemma_cleaned_tools_answer(messages: Seq<JsonModel>)
    ensures
        all_answer(cleaned(messages)),
{
    lemma_kept_tools_answer(messages);
    lemma_answers_in_settled(clean_run(messages).kept, cleaned(messages));
}

/// The messages that carry no result of a tool call.
pub open spec fn spoken(messages: Seq<JsonModel>) -> Seq<JsonModel>
    decreases messages.len(),
{
    if messages.len() == 0 {
        seq![]
    } else if is_tool_message(messages.last()) {
        spoken(messages.drop_last())
    } else {
        spoken(messages.drop_last()).push(messages.last())
    }
}

/// The messages are the same, each as it was or without its tool calls.
pub open spec fn same_but_for_calls(kept: Seq<JsonModel>, said: Seq<JsonModel>) -> bool {
    &&& kept.len() == said.len()
    &&& forall|i: int|
        0 <= i < said.len() ==> #[trigger] kept[i] == said[i] || kept[i] == said[i].without(
            "tool_calls"@,
        )
}

/// Where the last message kept loses its calls, it is still the last one that
/// carries no result.
proof fn lemma_settled_is_spoken(kept: Seq<JsonModel>, said: Seq<JsonModel>)
    requires
        same_but_for_calls(spoken(kept), said),
    ensures
        same_but_for_calls(spoken(last_settled(kept)), said),
{
    if kept.len() > 0 && asks_for_tools(kept.last()) {
        let last = kept.last();
        let settled = last_settled(kept);
        lemma_settled_message(last);
        assert(!is_tool_message(last));
        assert(!is_tool_message(settled.last()));
        assert(settled.drop_last() =~= kept.drop_last());
        let at = said.len() - 1;
        let before = spoken(kept);
        assert(before[at] == last);
        assert(last == said[at]) by {
            match said[at] {
                JsonModel::Object(entries) => {
                    keyed::lemma_entry_of_without_entry(entries, "tool_calls"@, "tool_calls"@);
                },
                _ => {},
            }
        }
        assert forall|i: int| 0 <= i < said.len() implies #[trigger] spoken(settled)[i] == said[i]
            || spoken(settled)[i] == said[i].without("tool_calls"@) by {
            if i < at {
                assert(spoken(settled)[i] == before[i]);
            }
        }
    }
}

/// A clean-up under way has kept every message that carries no result.
proof fn lemma_run_keeps_spoken(messages: Seq<JsonModel>)
    ensures
        same_but_for_calls(spoken(clean_run(messages).kept), spoken(messages)),
    decreases messages.len(),
{
    if messages.len() > 0 {
        reveal_strlit("tool");
        assert("tool"@.len() == 4);
        let before = clean_run(messages.drop_last());
        let m = messages.last();
        let after = clean_run(messages);
        lemma_run_keeps_spoken(messages.drop_last());
        if is_tool_message(m) {
            if after.kept.len() > before.kept.len() {
                assert(after.kept.drop_last() =~= before.kept);
            }
        } else {
            assert(or_empty(role(m)) != "tool"@);
            let kept = if before.pending.len() > 0 {
                last_settled(before.kept)
            } else {
                before.kept
            };
            lemma_settled_is_spoken(before.kept, spoken(messages.drop_last()));
            assert(after.kept == kept.push(m));
            assert(after.kept.drop_last() =~= kept);
        }
    }
}

/// A clean-up keeps every message that carries no result of a tool call, in
/// order, each as it was or without its tool calls.
pub proof fn lemma_cleaning_keeps_spoken(messages: Seq<JsonModel>)
    ensures
        same_but_for_calls(spoken(cleaned(messages)), spoken(messages)),
{
    lemma_run_keeps_spoken(messages);
    lemma_settled_is_spoken(clean_run(messages).kept, spoken(messages));
}

/// The ids of the calls that tool messages answer.
pub open spec fn answered_ids(answers: Seq<JsonModel>) -> Seq<Seq<char>> {
    answers.map_values(|m: JsonModel| or_empty(m.text_at("tool_call_id"@)))
}

/// The first items are among all of them.
proof fn lemma_first_among_all(ids: Seq<Seq<char>>, upto: int, id: Seq<char>)
    requires
        0 <= upto <= ids.len(),
    ensures
        ids.take(upto).to_multiset().count(id) <= ids.to_multiset().count(id),
    decreases ids.len() - upto,
{
    broadcast use vstd::seq_lib::group_to_multiset_ensures;

    if upto < ids.len() {
        lemma_first_among_all(ids, upto + 1, id);
        assert(ids.take(upto + 1) =~= ids.take(upto).push(ids[upto]));
    } else {
        assert(ids.take(upto) =~= ids);
    }
}

/// The first answers to the calls of a message are kept, and what waits are the
/// calls that they leave.
proof fn lemma_first_answers_are_kept(
    messages: Seq<JsonModel>,
    caller: JsonModel,
    answers: Seq<JsonModel>,
    upto: int,
)
    requires
        clean_run(messages).pending.len() == 0,
        !is_tool_message(caller),
        forall|i: int| 0 <= i < answers.len() ==> is_tool_message(#[trigger] answers[i]),
        answered_ids(answers).to_multiset() == call_ids(caller).to_multiset(),
        0 <= upto <= answers.len(),
    ensures
        ({
            let before = clean_run(messages);
            let after = clean_run(messages.push(caller) + answers.take(upto));
            &&& after.kept == before.kept.push(caller) + answers.take(upto)
            &&& after.removed == before.removed
            &&& after.pending.to_multiset().add(answered_ids(answers).take(upto).to_multiset())
                == call_ids(caller).to_multiset()
        }),
    decreases upto,
{
    broadcast use vstd::seq_lib::group_to_multiset_ensures;

    reveal_strlit("tool");
    let ids = answered_ids(answers);
    let asked = messages.push(caller);
    let all = asked + answers.take(upto);
    let before = clean_run(messages);
    if upto == 0 {
        assert(all =~= asked);
        assert(asked.drop_last() =~= messages);
        assert("tool"@.len() == 4);
        assert(or_empty(role(caller)) != "tool"@);
        assert(clean_run(asked) == clean_step(before, caller));
        assert(clean_run(asked).kept == before.kept.push(caller));
        assert(before.kept.push(caller) + answers.take(upto) =~= before.kept.push(caller));
        assert(clean_run(all).kept == before.kept.push(caller));
        assert(ids.take(0) =~= seq![]);
        assert(clean_run(asked).pending.to_multiset().add(ids.take(0).to_multiset())
            =~= call_ids(caller).to_multiset());
    } else {
        lemma_first_answers_are_kept(messages, caller, answers, upto - 1);
        let last = answers[upto - 1];
        let id = ids[upto - 1];
        let so_far = clean_run(asked + answers.take(upto - 1));
        assert(all.drop_last() =~= asked + answers.take(upto - 1));
        assert(all.last() == last);
        assert(ids.take(upto) =~= ids.take(upto - 1).push(id));
        lemma_first_among_all(ids, upto, id);
        assert(so_far.pending.to_multiset().count(id) > 0);
        lemma_position_of(so_far.pending, id);
        let at = position_of(so_far.pending, id);
        assert(so_far.pending.contains(id));
        let after = clean_run(all);
        assert(after == clean_step(so_far, last));
        assert(after.pending == so_far.pending.remove(at));
        assert(after.kept =~= before.kept.push(caller) + answers.take(upto));
        assert(after.pending.to_multiset().add(ids.take(upto).to_multiset())
            =~= so_far.pending.to_multiset().add(ids.take(upto - 1).to_multiset()));
    }
}

/// A message and the results of all tool calls that it asks for are kept as they
/// are, in whatever order the results came; a message that asks for none is kept
/// as well. Nothing waits before them, and nothing waits after them.
pub proof fn lemma_answered_calls_are_kept(
    messages: Seq<JsonModel>,
    caller: JsonModel,
    answers: Seq<JsonModel>,
)
    requires
        clean_run(messages).pending.len() == 0,
        !is_tool_message(caller),
        forall|i: int| 0 <= i < answers.len() ==> is_tool_message(#[trigger] answers[i]),
        answered_ids(answers).to_multiset() == call_ids(caller).to_multiset(),
    ensures
        cleaned(messages.push(caller) + answers) == cleaned(messages).push(caller) + answers,
        clean_run(messages.push(caller) + answers).removed == clean_run(messages).removed,
        clean_run(messages.push(caller) + answers).pending.len() == 0,
{
    broadcast use vstd::seq_lib::group_to_multiset_ensures;

    let ids = answered_ids(answers);
    lemma_first_answers_are_kept(messages, caller, answers, answers.len() as int);
    assert(answers.take(answers.len() as int) =~= answers);
    assert(ids.take(ids.len() as int) =~= ids);
    let waiting = clean_run(messages.push(caller) + answers).pending;
    assert(waiting.to_multiset().add(ids.to_multiset()).len() == waiting.to_multiset().len()
        + ids.to_multiset().len());
}

// ---------------------------------------------------------------------------
// Shortening summaries

/// How long a summary may be.
#[derive(Debug, Clone, Copy, PartialEq, Eq, Structural)]
pub struct SummaryCompressionBudget {
    pub max_chars: usize,
    pub max_lines: usize,
    pub max_line_chars: usize,
}

/// The budget of every summary that is kept.
pub open spec fn default_budget() -> SummaryCompressionBudget {
    SummaryCompressionBudget {
        max_chars: DEFAULT_SUMMARY_MAX_CHARS,
        max_lines: DEFAULT_SUMMARY_MAX_LINES,
        max_line_chars: DEFAULT_SUMMARY_MAX_LINE_CHARS,
    }
}

impl Default for SummaryCompressionBudget {
    fn default() -> (r: SummaryCompressionBudget)
        ensures
            r == default_budget(),
    {
        SummaryCompressionBudget {
            max_chars: DEFAULT_SUMMARY_MAX_CHARS,
            max_lines: DEFAULT_SUMMARY_MAX_LINES,
            max_line_chars: DEFAULT_SUMMARY_MAX_LINE_CHARS,
        }
    }
}

/// A line cut to `max_chars` characters, of which the last three are dots. A
/// limit of nothing means no limit, and dots are never cut.
pub open spec fn truncated(line: Seq<char>, max_chars: nat) -> Seq<char> {
    if max_chars == 0 || line.len() <= max_chars {
        line
    } else if max_chars < 3 {
        "..."@
    } else {
        line.take(max_chars - 3) + "..."@
    }
}

/// A line cut to `max_chars` characters.
pub fn truncate_summary_line(line: &str, max_chars: usize) -> (r: String)
    ensures
        r@ == truncated(line@, max_chars as nat),
{
    if max_chars == 0 || text::char_count(line) <= max_chars {
        return text::owned(line);
    }
    let mut r = text::take_chars(line, max_chars.saturating_sub(3));
    let ghost head = r@;
    r.append("...");
    proof {
        if max_chars < 3 {
            assert(head =~= seq![]);
            assert(r@ =~= "..."@);
        }
    }
    r
}

/// One of the lines reads the same, upper and lower case aside.
pub open spec fn has_line(lines: Seq<Seq<char>>, line: Seq<char>) -> bool {
    exists|i: int| 0 <= i < lines.len() && text::lowered(#[trigger] lines[i]) == text::lowered(line)
}

/// The lines with single blanks, cut to length, without empty lines and
/// without those that read like an earlier one.
pub open spec fn normalized(lines: Seq<Seq<char>>, max_line_chars: nat) -> Seq<Seq<char>>
    decreases lines.len(),
{
    if lines.len() == 0 {
        seq![]
    } else {
        let before = normalized(lines.drop_last(), max_line_chars);
        let line = text::collapsed(lines.last());
        let cut = truncated(line, max_line_chars);
        if line.len() == 0 || has_line(before, cut) {
            before
        } else {
            before.push(cut)
        }
    }
}

fn holds_line(lines: &Vec<String>, line: &str) -> (r: bool)
    ensures
        r == has_line(lines.deep_view(), line@),
{
    let ghost all = lines.deep_view();
    let wanted = text::to_ascii_lower(line);
    let mut i: usize = 0;
    while i < lines.len()
        invariant
            i <= lines@.len(),
            all == lines.deep_view(),
            wanted@ == text::lowered(line@),
            forall|k: int| 0 <= k < i ==> text::lowered(#[trigger] all[k]) != wanted@,
        decreases lines@.len() - i,
    {
        assert(all[i as int] == lines@[i as int]@);
        let have = text::to_ascii_lower(lines[i].as_str());
        if text::same_text(have.as_str(), wanted.as_str()) {
            return true;
        }
        i = i + 1;
    }
    false
}

/// The lines of a summary in normal form.
pub fn normalize_summary_lines(summary: &str, max_line_chars: usize) -> (r: Vec<String>)
    ensures
        r.deep_view() == normalized(text::lines(summary@), max_line_chars as nat),
{
    let raw = text::lines_of(summary);
    let ghost all = raw.deep_view();
    let mut lines: Vec<String> = Vec::new();
    let mut i: usize = 0;
    proof {
        assert(all.take(0) =~= seq![]);
        assert(lines.deep_view() =~= seq![]);
    }
    while i < raw.len()
        invariant
            i <= raw@.len(),
            all == raw.deep_view(),
            lines.deep_view() == normalized(all.take(i as int), max_line_chars as nat),
        decreases raw@.len() - i,
    {
        let ghost before = lines.deep_view();
        proof {
            assert(all.take(i + 1).drop_last() =~= all.take(i as int));
            assert(all.take(i + 1).last() == raw@[i as int]@);
        }
        let line = text::collapse_whitespace(raw[i].as_str());
        if text::char_count(line.as_str()) > 0 {
            let cut = truncate_summary_line(line.as_str(), max_line_chars);
            if !holds_line(&lines, cut.as_str()) {
                let ghost model = cut@;
                lines.push(cut);
                assert(lines.deep_view() =~= before.push(model));
            }
        }
        i = i + 1;
    }
    assert(all.take(all.len() as int) =~= all);
    lines
}

/// A line that names one of the details every summary should keep.
pub open spec fn is_core_detail(line: Seq<char>) -> bool {
    ||| text::begins_with(line, "- Scope:"@)
    ||| text::begins_with(line, "- Current work:"@)
    ||| text::begins_with(line, "- Pending work:"@)
    ||| text::begins_with(line, "- Key files referenced:"@)
    ||| text::begins_with(line, "- Tools mentioned:"@)
    ||| text::begins_with(line, "- Recent user requests:"@)
    ||| text::begins_with(line, "- Previously compacted context:"@)
    ||| text::begins_with(line, "- Newly compacted context:"@)
    ||| text::begins_with(line, "  - Scope:"@)
    ||| text::begins_with(line, "  - Current work:"@)
    ||| text::begins_with(line, "  - Pending work:"@)
    ||| text::begins_with(line, "  - Key files referenced:"@)
    ||| text::begins_with(line, "  - Tools mentioned:"@)
    ||| text::begins_with(line, "  - Recent user requests:"@)
}

/// Whether a line names one of the details every summary should keep.
pub fn is_core_summary_detail(line: &str) -> (r: bool)
    ensures
        r == is_core_detail(line@),
{
    text::starts_with(line, "- Scope:") || text::starts_with(line, "- Current work:")
        || text::starts_with(line, "- Pending work:") || text::starts_with(
        line,
        "- Key files referenced:",
    ) || text::starts_with(line, "- Tools mentioned:") || text::starts_with(
        line,
        "- Recent user requests:",
    ) || text::starts_with(line, "- Previously compacted context:") || text::starts_with(
        line,
        "- Newly compacted context:",
    ) || text::starts_with(line, "  - Scope:") || text::starts_with(line, "  - Current work:")
        || text::starts_with(line, "  - Pending work:") || text::starts_with(
        line,
        "  - Key files referenced:",
    ) || text::starts_with(line, "  - Tools mentioned:") || text::starts_with(
        line,
        "  - Recent user requests:",
    )
}

/// How early a line is chosen: titles and core details first, then headings,
/// then items of lists, then the rest.
pub open spec fn priority(line: Seq<char>) -> nat {
    if line == "Summary:"@ || line == "Conversation summary:"@ || is_core_detail(line) {
        0
    } else if text::finishes_with(line, ":"@) {
        1
    } else if text::begins_with(line, "- "@) || text::begins_with(line, "  - "@) {
        2
    } else {
        3
    }
}

/// How early a line is chosen.
pub fn summary_line_priority(line: &str) -> (r: usize)
    ensures
        r == priority(line@),
{
    if text::same_text(line, "Summary:") || text::same_text(line, "Conversation summary:")
        || is_core_summary_detail(line) {
        0
    } else if text::ends_with(line, ":") {
        1
    } else if text::starts_with(line, "- ") || text::starts_with(line, "  - ") {
        2
    } else {
        3
    }
}

/// The lines whose flag is set, in order.
pub open spec fn chosen_lines(lines: Seq<Seq<char>>, flags: Seq<bool>) -> Seq<Seq<char>>
    decreases lines.len(),
{
    if lines.len() == 0 || flags.len() == 0 {
        seq![]
    } else if flags.last() {
        chosen_lines(lines.drop_last(), flags.drop_last()).push(lines.last())
    } else {
        chosen_lines(lines.drop_last(), flags.drop_last())
    }
}

/// The characters of all lines together.
pub open spec fn total_chars(lines: Seq<Seq<char>>) -> nat
    decreases lines.len(),
{
    if lines.len() == 0 {
        0
    } else {
        total_chars(lines.drop_last()) + lines.last().len()
    }
}

/// The length of the lines joined by line feeds.
pub open spec fn joined_chars(lines: Seq<Seq<char>>) -> nat {
    if lines.len() == 0 {
        0
    } else {
        (total_chars(lines) + lines.len() - 1) as nat
    }
}

/// One more line fits: neither too many lines nor too many characters.
pub open spec fn line_fits(
    lines: Seq<Seq<char>>,
    line: Seq<char>,
    budget: SummaryCompressionBudget,
) -> bool {
    lines.len() + 1 <= budget.max_lines && joined_chars(lines.push(line)) <= budget.max_chars
}

/// The choice after the first `upto` lines were offered to the lines of one
/// priority: each is taken if it still fits.
pub open spec fn choose_pass(
    lines: Seq<Seq<char>>,
    budget: SummaryCompressionBudget,
    wanted: nat,
    upto: nat,
    flags: Seq<bool>,
) -> Seq<bool>
    decreases upto,
{
    if upto == 0 {
        flags
    } else {
        let before = choose_pass(lines, budget, wanted, (upto - 1) as nat, flags);
        if !before[upto - 1] && priority(lines[upto - 1]) == wanted && line_fits(
            chosen_lines(lines, before),
            lines[upto - 1],
            budget,
        ) {
            before.update(upto - 1, true)
        } else {
            before
        }
    }
}

/// The choice after the lines of the first `passes` priorities.
pub open spec fn choose_passes(
    lines: Seq<Seq<char>>,
    budget: SummaryCompressionBudget,
    passes: nat,
) -> Seq<bool>
    decreases passes,
{
    if passes == 0 {
        Seq::new(lines.len(), |i: int| false)
    } else {
        choose_pass(
            lines,
            budget,
            (passes - 1) as nat,
            lines.len(),
            choose_passes(lines, budget, (passes - 1) as nat),
        )
    }
}

/// A pass changes no length.
proof fn lemma_choose_pass_len(
    lines: Seq<Seq<char>>,
    budget: SummaryCompressionBudget,
    wanted: nat,
    upto: nat,
    flags: Seq<bool>,
)
    requires
        upto <= flags.len(),
    ensures
        choose_pass(lines, budget, wanted, upto, flags).len() == flags.len(),
    decreases upto,
{
    if upto > 0 {
        lemma_choose_pass_len(lines, budget, wanted, (upto - 1) as nat, flags);
    }
}

/// Every line has a flag.
proof fn lemma_choose_passes_len(
    lines: Seq<Seq<char>>,
    budget: SummaryCompressionBudget,
    passes: nat,
)
    ensures
        choose_passes(lines, budget, passes).len() == lines.len(),
    decreases passes,
{
    if passes > 0 {
        lemma_choose_passes_len(lines, budget, (passes - 1) as nat);
        lemma_choose_pass_len(
            lines,
            budget,
            (passes - 1) as nat,
            lines.len(),
            choose_passes(lines, budget, (passes - 1) as nat),
        );
    }
}

/// Joining by line feeds gives that many characters.
pub proof fn lemma_joined_chars(lines: Seq<Seq<char>>)
    ensures
        text::joined(lines, "\n"@).len() == joined_chars(lines),
    decreases lines.len(),
{
    reveal_strlit("\n");
    if lines.len() > 1 {
        lemma_joined_chars(lines.drop_last());
    } else if lines.len() == 1 {
        assert(lines.drop_last() =~= seq![]);
        reveal_with_fuel(total_chars, 2);
    }
}

/// Taking one more line adds its characters, wherever it stands.
proof fn lemma_chosen_update(lines: Seq<Seq<char>>, flags: Seq<bool>, at: int)
    requires
        lines.len() == flags.len(),
        0 <= at < flags.len(),
        !flags[at],
    ensures
        chosen_lines(lines, flags.update(at, true)).len() == chosen_lines(lines, flags).len() + 1,
        total_chars(chosen_lines(lines, flags.update(at, true))) == total_chars(
            chosen_lines(lines, flags),
        ) + lines[at].len(),
    decreases lines.len(),
{
    let set = flags.update(at, true);
    let shorter = chosen_lines(lines.drop_last(), flags.drop_last());
    if at == lines.len() - 1 {
        assert(set.drop_last() =~= flags.drop_last());
        assert(shorter.push(lines.last()).drop_last() =~= shorter);
    } else {
        lemma_chosen_update(lines.drop_last(), flags.drop_last(), at);
        assert(set.drop_last() =~= flags.drop_last().update(at, true));
        let longer = chosen_lines(lines.drop_last(), set.drop_last());
        assert(shorter.push(lines.last()).drop_last() =~= shorter);
        assert(longer.push(lines.last()).drop_last() =~= longer);
    }
}

/// The characters of lines with one more at the end.
proof fn lemma_total_push(lines: Seq<Seq<char>>, line: Seq<char>)
    ensures
        total_chars(lines.push(line)) == total_chars(lines) + line.len(),
{
    assert(lines.push(line).drop_last() =~= lines);
}

/// No line is chosen where no flag is set.
proof fn lemma_none_chosen(lines: Seq<Seq<char>>)
    ensures
        chosen_lines(lines, Seq::new(lines.len(), |i: int| false)) == Seq::<Seq<char>>::empty(),
    decreases lines.len(),
{
    if lines.len() > 0 {
        let flags = Seq::new(lines.len(), |i: int| false);
        assert(flags.drop_last() =~= Seq::new(lines.drop_last().len(), |i: int| false));
        lemma_none_chosen(lines.drop_last());
    }
}

/// A count of lines and characters fits with one more line.
fn counts_fit(count: usize, chars: usize, line_chars: usize, budget: &SummaryCompressionBudget) -> (r:
    bool)
    ensures
        r == (count + 1 <= budget.max_lines && chars + line_chars + count <= budget.max_chars),
{
    if count >= budget.max_lines {
        return false;
    }
    match chars.checked_add(line_chars) {
        Some(sum) => match sum.checked_add(count) {
            Some(all) => all <= budget.max_chars,
            None => false,
        },
        None => false,
    }
}

/// The flags of the lines that a summary within the budget consists of.
pub fn select_summary_lines(lines: &Vec<String>, budget: &SummaryCompressionBudget) -> (r: Vec<
    bool,
>)
    ensures
        r@ == choose_passes(lines.deep_view(), *budget, 4),
{
    let ghost all = lines.deep_view();
    let mut flags: Vec<bool> = Vec::new();
    let mut count: usize = 0;
    let mut chars: usize = 0;
    let mut i: usize = 0;
    while i < lines.len()
        invariant
            i <= lines@.len(),
            flags@ == Seq::new(i as nat, |k: int| false),
        decreases lines@.len() - i,
    {
        flags.push(false);
        assert(flags@ =~= Seq::new((i + 1) as nat, |k: int| false));
        i = i + 1;
    }
    proof {
        assert(flags@ =~= choose_passes(all, *budget, 0));
        lemma_none_chosen(all);
    }
    let mut pass: usize = 0;
    while pass < 4
        invariant
            pass <= 4,
            all == lines.deep_view(),
            flags@ == choose_passes(all, *budget, pass as nat),
            flags@.len() == all.len(),
            count == chosen_lines(all, flags@).len(),
            chars == total_chars(chosen_lines(all, flags@)),
        decreases 4 - pass,
    {
        let ghost start = flags@;
        let mut at: usize = 0;
        while at < lines.len()
            invariant
                at <= lines@.len(),
                all == lines.deep_view(),
                start.len() == all.len(),
                flags@ == choose_pass(all, *budget, pass as nat, at as nat, start),
                flags@.len() == all.len(),
                count == chosen_lines(all, flags@).len(),
                chars == total_chars(chosen_lines(all, flags@)),
            decreases lines@.len() - at,
        {
            let ghost before = flags@;
            proof {
                lemma_total_push(chosen_lines(all, before), all[at as int]);
                assert(all[at as int] == lines@[at as int]@);
            }
            if !flags[at] && summary_line_priority(lines[at].as_str()) == pass && counts_fit(
                count,
                chars,
                text::char_count(lines[at].as_str()),
                budget,
            ) {
                proof {
                    lemma_chosen_update(all, before, at as int);
                }
                chars = chars + text::char_count(lines[at].as_str());
                count = count + 1;
                flags.set(at, true);
            }
            at = at + 1;
        }
        pass = pass + 1;
    }
    flags
}

/// The note on lines that a summary leaves out.
pub open spec fn omission_note(omitted: nat) -> Seq<char> {
    "- ... "@ + text::decimal(omitted) + " additional line(s) omitted."@
}

/// The lines of a summary within the budget: those chosen, or the first one cut
/// to length where none fits, and a note on how many are left out if it fits.
pub open spec fn compressed_lines(
    lines: Seq<Seq<char>>,
    budget: SummaryCompressionBudget,
) -> Seq<Seq<char>> {
    let chosen = chosen_lines(lines, choose_passes(lines, budget, 4));
    let base = if chosen.len() == 0 {
        seq![truncated(lines[0], budget.max_chars as nat)]
    } else {
        chosen
    };
    if lines.len() > base.len() && line_fits(
        base,
        omission_note((lines.len() - base.len()) as nat),
        budget,
    ) {
        base.push(omission_note((lines.len() - base.len()) as nat))
    } else {
        base
    }
}

/// A summary within the budget.
pub open spec fn compressed(summary: Seq<char>, budget: SummaryCompressionBudget) -> Seq<char> {
    let lines = normalized(text::lines(summary), budget.max_line_chars as nat);
    if lines.len() == 0 || budget.max_chars == 0 || budget.max_lines == 0 {
        seq![]
    } else {
        text::joined(compressed_lines(lines, budget), "\n"@)
    }
}

/// The lines whose flag is set.
fn pick_lines(lines: &Vec<String>, flags: &Vec<bool>) -> (r: Vec<String>)
    requires
        lines@.len() == flags@.len(),
    ensures
        r.deep_view() == chosen_lines(lines.deep_view(), flags@),
{
    let ghost all = lines.deep_view();
    let mut r: Vec<String> = Vec::new();
    let mut i: usize = 0;
    proof {
        assert(all.take(0) =~= seq![]);
        assert(flags@.take(0) =~= seq![]);
        assert(r.deep_view() =~= seq![]);
    }
    while i < lines.len()
        invariant
            i <= lines@.len(),
            lines@.len() == flags@.len(),
            all == lines.deep_view(),
            r.deep_view() == chosen_lines(all.take(i as int), flags@.take(i as int)),
        decreases lines@.len() - i,
    {
        let ghost before = r.deep_view();
        proof {
            assert(all.take(i + 1).drop_last() =~= all.take(i as int));
            assert(flags@.take(i + 1).drop_last() =~= flags@.take(i as int));
            assert(all.take(i + 1).last() == lines@[i as int]@);
            assert(flags@.take(i + 1).last() == flags@[i as int]);
        }
        if flags[i] {
            let copy = lines[i].clone();
            r.push(copy);
            assert(r.deep_view() =~= before.push(copy@));
        }
        i = i + 1;
    }
    proof {
        assert(all.take(all.len() as int) =~= all);
        assert(flags@.take(all.len() as int) =~= flags@);
    }
    r
}

/// The length of the lines joined by line feeds, or nothing where it is over
/// what a count can hold.
fn joined_summary_char_count(lines: &Vec<String>) -> (r: Option<usize>)
    ensures
        match r {
            Some(n) => n == joined_chars(lines.deep_view()),
            None => joined_chars(lines.deep_view()) > usize::MAX,
        },
{
    let ghost all = lines.deep_view();
    let mut total: usize = 0;
    let mut i: usize = 0;
    assert(all.take(0) =~= seq![]);
    while i < lines.len()
        invariant
            i <= lines@.len(),
            all == lines.deep_view(),
            total == joined_chars(all.take(i as int)),
        decreases lines@.len() - i,
    {
        proof {
            assert(all.take(i + 1).drop_last() =~= all.take(i as int));
            assert(all.take(i + 1).last() == lines@[i as int]@);
            lemma_joined_chars_grow(all, i + 1, all.len() as int);
        }
        let separator: usize = if i > 0 {
            1
        } else {
            0
        };
        match total.checked_add(separator) {
            Some(sum) => match sum.checked_add(text::char_count(lines[i].as_str())) {
                Some(next) => {
                    total = next;
                },
                None => {
                    assert(all.take(all.len() as int) =~= all);
                    return None;
                },
            },
            None => {
                assert(all.take(all.len() as int) =~= all);
                return None;
            },
        }
        i = i + 1;
    }
    assert(all.take(all.len() as int) =~= all);
    Some(total)
}

/// More lines have at least as many characters.
proof fn lemma_joined_chars_grow(lines: Seq<Seq<char>>, short: int, long: int)
    requires
        0 <= short <= long <= lines.len(),
    ensures
        joined_chars(lines.take(short)) <= joined_chars(lines.take(long)),
        total_chars(lines.take(short)) <= total_chars(lines.take(long)),
    decreases long - short,
{
    if short < long {
        lemma_joined_chars_grow(lines, short, long - 1);
        assert(lines.take(long).drop_last() =~= lines.take(long - 1));
    }
}

/// Adds a line if the lines with it are within the budget.
pub fn push_summary_line_with_budget(
    lines: &mut Vec<String>,
    line: String,
    budget: &SummaryCompressionBudget,
)
    ensures
        final(lines).deep_view() == (if line_fits(old(lines).deep_view(), line@, *budget) {
            old(lines).deep_view().push(line@)
        } else {
            old(lines).deep_view()
        }),
{
    let ghost before = lines.deep_view();
    let ghost model = line@;
    let count: usize = lines.len();
    lines.push(line);
    assert(lines.deep_view() =~= before.push(model));
    let fits = count < budget.max_lines && match joined_summary_char_count(lines) {
        Some(n) => n <= budget.max_chars,
        None => false,
    };
    if !fits {
        lines.pop();
        assert(lines.deep_view() =~= before);
    }
}

/// A summary within the budget.
pub fn compress_summary(summary: &str, budget: SummaryCompressionBudget) -> (r: String)
    ensures
        r@ == compressed(summary@, budget),
{
    let lines = normalize_summary_lines(summary, budget.max_line_chars);
    if lines.len() == 0 || budget.max_chars == 0 || budget.max_lines == 0 {
        let r = String::new();
        assert(r@ =~= seq![]);
        return r;
    }
    let ghost all = lines.deep_view();
    let flags = select_summary_lines(&lines, &budget);
    proof {
        lemma_choose_passes_len(all, budget, 4);
        lemma_chosen_len(all, flags@);
    }
    let mut chosen = pick_lines(&lines, &flags);
    if chosen.len() == 0 {
        let first = truncate_summary_line(lines[0].as_str(), budget.max_chars);
        let ghost model = first@;
        chosen.push(first);
        assert(chosen.deep_view() =~= seq![model]);
    }
    let ghost base = chosen.deep_view();
    if lines.len() > chosen.len() {
        let omitted: usize = lines.len() - chosen.len();
        let number = text::decimal_of(omitted as u128);
        let note = text::concat3("- ... ", number.as_str(), " additional line(s) omitted.");
        push_summary_line_with_budget(&mut chosen, note, &budget);
    }
    text::join(&chosen, "\n")
}

/// No more lines are chosen than there are.
proof fn lemma_chosen_len(lines: Seq<Seq<char>>, flags: Seq<bool>)
    ensures
        chosen_lines(lines, flags).len() <= lines.len(),
    decreases lines.len(),
{
    if lines.len() > 0 && flags.len() > 0 {
        lemma_chosen_len(lines.drop_last(), flags.drop_last());
    }
}

/// A summary within the budget of every summary that is kept.
pub fn compress_summary_text(summary: &str) -> (r: String)
    ensures
        r@ == compressed(summary@, default_budget()),
{
    compress_summary(summary, SummaryCompressionBudget::default())
}

/// No two lines of a normal form read the same, upper and lower case aside.
pub proof fn lemma_normal_lines_differ(lines: Seq<Seq<char>>, max_line_chars: nat)
    ensures
        forall|i: int, j: int|
            0 <= i < j < normalized(lines, max_line_chars).len() ==> text::lowered(
                #[trigger] normalized(lines, max_line_chars)[i],
            ) != text::lowered(#[trigger] normalized(lines, max_line_chars)[j]),
    decreases lines.len(),
{
    if lines.len() > 0 {
        lemma_normal_lines_differ(lines.drop_last(), max_line_chars);
        let before = normalized(lines.drop_last(), max_line_chars);
        let all = normalized(lines, max_line_chars);
        assert forall|i: int, j: int| 0 <= i < j < all.len() implies text::lowered(
            #[trigger] all[i],
        ) != text::lowered(#[trigger] all[j]) by {
            assert(all[i] == before[i]);
            if j < before.len() {
                assert(all[j] == before[j]);
            }
        }
    }
}

/// The choice is within the budget.
spec fn within(lines: Seq<Seq<char>>, budget: SummaryCompressionBudget) -> bool {
    lines.len() <= budget.max_lines && joined_chars(lines) <= budget.max_chars
}

proof fn lemma_pass_within(
    lines: Seq<Seq<char>>,
    budget: SummaryCompressionBudget,
    wanted: nat,
    upto: nat,
    flags: Seq<bool>,
)
    requires
        flags.len() == lines.len(),
        upto <= lines.len(),
        within(chosen_lines(lines, flags), budget),
    ensures
        within(chosen_lines(lines, choose_pass(lines, budget, wanted, upto, flags)), budget),
    decreases upto,
{
    if upto > 0 {
        let before = choose_pass(lines, budget, wanted, (upto - 1) as nat, flags);
        lemma_pass_within(lines, budget, wanted, (upto - 1) as nat, flags);
        lemma_choose_pass_len(lines, budget, wanted, (upto - 1) as nat, flags);
        if !before[upto - 1] && priority(lines[upto - 1]) == wanted && line_fits(
            chosen_lines(lines, before),
            lines[upto - 1],
            budget,
        ) {
            lemma_chosen_update(lines, before, upto - 1);
            lemma_total_push(chosen_lines(lines, before), lines[upto - 1]);
        }
    }
}

proof fn lemma_passes_within(
    lines: Seq<Seq<char>>,
    budget: SummaryCompressionBudget,
    passes: nat,
)
    ensures
        within(chosen_lines(lines, choose_passes(lines, budget, passes)), budget),
    decreases passes,
{
    if passes == 0 {
        lemma_none_chosen(lines);
    } else {
        lemma_passes_within(lines, budget, (passes - 1) as nat);
        lemma_choose_passes_len(lines, budget, (passes - 1) as nat);
        lemma_pass_within(
            lines,
            budget,
            (passes - 1) as nat,
            lines.len(),
            choose_passes(lines, budget, (passes - 1) as nat),
        );
    }
}

/// A compressed summary has no more characters than its budget allows, as long
/// as the budget has room for three dots.
pub proof fn lemma_compressed_fits(summary: Seq<char>, budget: SummaryCompressionBudget)
    requires
        budget.max_chars >= 3 || budget.max_chars == 0,
    ensures
        compressed(summary, budget).len() <= budget.max_chars,
{
    let lines = normalized(text::lines(summary), budget.max_line_chars as nat);
    if lines.len() > 0 && budget.max_chars > 0 && budget.max_lines > 0 {
        let chosen = chosen_lines(lines, choose_passes(lines, budget, 4));
        lemma_passes_within(lines, budget, 4);
        let result = compressed_lines(lines, budget);
        lemma_joined_chars(result);
        if chosen.len() == 0 {
            let first = truncated(lines[0], budget.max_chars as nat);
            reveal_strlit("...");
            assert(seq![first].drop_last() =~= seq![]);
            assert(total_chars(seq![first]) == first.len()) by {
                reveal_with_fuel(total_chars, 2);
            }
        }
    }
}

/// A compressed summary is made of no more lines than its budget allows.
pub proof fn lemma_compressed_lines_fit(
    lines: Seq<Seq<char>>,
    budget: SummaryCompressionBudget,
)
    requires
        budget.max_lines > 0,
    ensures
        compressed_lines(lines, budget).len() <= budget.max_lines,
{
    lemma_passes_within(lines, budget, 4);
}

// ---------------------------------------------------------------------------
// Merging summaries

/// The lines of a summary that carry a detail, each indented.
pub open spec fn detail_lines(lines: Seq<Seq<char>>) -> Seq<Seq<char>>
    decreases lines.len(),
{
    if lines.len() == 0 {
        seq![]
    } else {
        let before = detail_lines(lines.drop_last());
        let line = text::trimmed(lines.last());
        if line.len() == 0 || line == "Summary:"@ || line == "Conversation summary:"@ {
            before
        } else {
            before.push("  "@ + line)
        }
    }
}

/// The lines of a summary that carry a detail, each indented.
pub fn summary_detail_lines(summary: &str) -> (r: Vec<String>)
    ensures
        r.deep_view() == detail_lines(text::lines(summary@)),
{
    let raw = text::lines_of(summary);
    let ghost all = raw.deep_view();
    let mut r: Vec<String> = Vec::new();
    let mut i: usize = 0;
    proof {
        assert(all.take(0) =~= seq![]);
        assert(r.deep_view() =~= seq![]);
    }
    while i < raw.len()
        invariant
            i <= raw@.len(),
            all == raw.deep_view(),
            r.deep_view() == detail_lines(all.take(i as int)),
        decreases raw@.len() - i,
    {
        let ghost before = r.deep_view();
        proof {
            assert(all.take(i + 1).drop_last() =~= all.take(i as int));
            assert(all.take(i + 1).last() == raw@[i as int]@);
        }
        let line = text::trim(raw[i].as_str());
        if text::char_count(line.as_str()) > 0 && !text::same_text(line.as_str(), "Summary:")
            && !text::same_text(line.as_str(), "Conversation summary:") {
            let indented = text::concat("  ", line.as_str());
            let ghost model = indented@;
            r.push(indented);
            assert(r.deep_view() =~= before.push(model));
        }
        i = i + 1;
    }
    assert(all.take(all.len() as int) =~= all);
    r
}

/// The lines of an earlier summary and a new one under a heading each.
pub open spec fn merged_lines(existing: Seq<char>, new: Seq<char>) -> Seq<Seq<char>> {
    seq!["Conversation summary:"@, "- Previously compacted context:"@] + detail_lines(
        text::lines(existing),
    ) + seq!["- Newly compacted context:"@] + detail_lines(text::lines(new))
}

/// The summary of what was compacted so far, within the budget.
pub open spec fn merged(existing: Option<Seq<char>>, new: Seq<char>) -> Seq<char> {
    match existing {
        Some(e) => if text::is_blank(e) {
            compressed(text::trimmed(new), default_budget())
        } else {
            compressed(
                text::joined(merged_lines(text::trimmed(e), text::trimmed(new)), "\n"@),
                default_budget(),
            )
        },
        None => compressed(text::trimmed(new), default_budget()),
    }
}

/// The summary of what was compacted so far.
pub fn merge_compact_summaries(existing_summary: Option<&str>, new_summary: &str) -> (r: String)
    ensures
        r@ == merged(existing_summary.deep_view(), new_summary@),
{
    let new = text::trim(new_summary);
    match existing_summary {
        None => compress_summary_text(new.as_str()),
        Some(e) => {
            let existing = text::trim(e);
            if text::char_count(existing.as_str()) == 0 {
                return compress_summary_text(new.as_str());
            }
            let mut lines: Vec<String> = Vec::new();
            lines.push(text::owned("Conversation summary:"));
            lines.push(text::owned("- Previously compacted context:"));
            let mut earlier = summary_detail_lines(existing.as_str());
            let ghost earlier_lines = earlier.deep_view();
            lines.append(&mut earlier);
            lines.push(text::owned("- Newly compacted context:"));
            let mut later = summary_detail_lines(new.as_str());
            let ghost later_lines = later.deep_view();
            lines.append(&mut later);
            assert(lines.deep_view() =~= seq![
                "Conversation summary:"@,
                "- Previously compacted context:"@,
            ] + earlier_lines + seq!["- Newly compacted context:"@] + later_lines);
            let all = text::join(&lines, "\n");
            compress_summary_text(all.as_str())
        },
    }
}

// ---------------------------------------------------------------------------
// Asking for a summary

/// The messages from `at` on written out one per line after `out`, until the
/// limit is reached.
pub open spec fn source_from(
    removed: Seq<JsonModel>,
    at: int,
    out: Seq<char>,
) -> Seq<char>
    decreases removed.len() - at,
{
    if at < 0 || at >= removed.len() {
        out
    } else {
        let line = json::compact_text(removed[at]);
        if text::byte_len(out) + text::byte_len(line) + 1 > MAX_SUMMARY_SOURCE_CHARS {
            out + "\n[... truncated after "@ + text::decimal(at as nat)
                + " removed messages due to summary source limit ...]"@
        } else {
            source_from(
                removed,
                at + 1,
                if out.len() == 0 {
                    line
                } else {
                    out + "\n"@ + line
                },
            )
        }
    }
}

/// What is given to the model to be summarised: the messages, one per line.
pub fn build_compact_summary_source(removed: &Vec<Json>) -> (r: String)
    ensures
        r@ == source_from(removed.deep_view(), 0, seq![]),
{
    let ghost all = removed.deep_view();
    let mut out = String::new();
    let mut i: usize = 0;
    assert(out@ =~= seq![]);
    while i < removed.len()
        invariant
            i <= removed@.len(),
            all == removed.deep_view(),
            source_from(all, i as int, out@) == source_from(all, 0, seq![]),
        decreases removed@.len() - i,
    {
        let line = removed[i].to_compact_string();
        assert(line@ == json::compact_text(all[i as int]));
        let next_len: usize = text::count_bytes(out.as_str()).saturating_add(
            text::count_bytes(line.as_str()),
        ).saturating_add(1);
        if next_len > MAX_SUMMARY_SOURCE_CHARS {
            let number = text::decimal_of(i as u128);
            out.append("\n[... truncated after ");
            out.append(number.as_str());
            out.append(" removed messages due to summary source limit ...]");
            return out;
        }
        if text::char_count(out.as_str()) > 0 {
            out.append("\n");
        }
        let ghost head = out@;
        out.append(line.as_str());
        proof {
            if head.len() == 0 {
                assert(out@ =~= line@);
            }
        }
        i = i + 1;
    }
    out
}

/// The question that asks for a summary.
pub open spec fn summary_question(source: Seq<char>) -> Seq<char> {
    "Compress the conversation above into a short summary that preserves the current goal, completed work, open tasks, important file paths, tool usage, and unresolved decisions. Output the summary plainly without extra commentary.\n\nTRANSCRIPT START\n"@
        + source + "\nTRANSCRIPT END"@
}

/// The conversation with the question for a summary at its end.
pub open spec fn summary_request(messages: Seq<JsonModel>, source: Seq<char>) -> Seq<JsonModel> {
    messages.push(
        JsonModel::empty_object().with("role"@, JsonModel::Text("user"@)).with(
            "content"@,
            JsonModel::Text(summary_question(source)),
        ),
    )
}

/// The messages to send for a summary where the conversation needs compaction.
pub open spec fn compaction_request(
    messages: Seq<JsonModel>,
    cfg: ContextCompactConfig,
) -> Option<Seq<JsonModel>> {
    match planned(messages, cfg) {
        Some(plan) => Some(
            summary_request(
                messages,
                source_from(
                    messages.subrange(plan.compacted_prefix_len as int, plan.keep_from as int),
                    0,
                    seq![],
                ),
            ),
        ),
        None => None,
    }
}

/// The cut never moves to the back.
proof fn lemma_tool_boundary(messages: Seq<JsonModel>, keep_from: int)
    requires
        0 <= keep_from,
    ensures
        0 <= tool_boundary(messages, keep_from) <= keep_from,
        forall|k: int|
            tool_boundary(messages, keep_from) < k <= keep_from ==> is_tool_message(
                #[trigger] messages[k],
            ),
        0 < tool_boundary(messages, keep_from) < messages.len() ==> !is_tool_message(
            messages[tool_boundary(messages, keep_from)],
        ),
    decreases keep_from,
{
    if 0 < keep_from < messages.len() && is_tool_message(messages[keep_from]) {
        lemma_tool_boundary(messages, keep_from - 1);
    }
}

/// A compaction removes something, keeps at least the messages to preserve, and
/// what it keeps does not start with a tool message cut off from its call.
pub proof fn lemma_plan_keeps_tool_calls(messages: Seq<JsonModel>, cfg: ContextCompactConfig)
    requires
        planned(messages, cfg) is Some,
        messages.len() <= usize::MAX,
    ensures
        ({
            let plan = planned(messages, cfg)->0;
            &&& summary_prefix(messages) < plan.keep_from <= messages.len()
            &&& plan.removed_messages == plan.keep_from - plan.compacted_prefix_len
            &&& plan.removed_messages > 0
            &&& messages.len() - plan.keep_from >= cfg.auto_preserve_recent_messages
            &&& plan.keep_from < messages.len() ==> !is_tool_message(messages[plan.keep_from as int])
        }),
{
    lemma_tool_boundary(messages, first_cut(messages.len(), cfg.auto_preserve_recent_messages));
}

/// The messages to send for a summary where the conversation needs compaction.
pub fn compact_summary_request(messages: &Vec<Json>, cfg: &ContextCompactConfig) -> (r: Option<
    Vec<Json>,
>)
    ensures
        r.deep_view() == compaction_request(messages.deep_view(), *cfg),
{
    match plan_auto_compact(messages, cfg) {
        None => None,
        Some(plan) => {
            let count: usize = messages.len();
            proof {
                assert(messages.deep_view().len() == count);
                lemma_plan_keeps_tool_calls(messages.deep_view(), *cfg);
            }
            let removed = json::clone_range(messages, plan.compacted_prefix_len, plan.keep_from);
            let source = build_compact_summary_source(&removed);
            let mut request = json::clone_range(messages, 0, count);
            assert(request.deep_view() =~= messages.deep_view());
            let question = text::concat3(
                "Compress the conversation above into a short summary that preserves the current goal, completed work, open tasks, important file paths, tool usage, and unresolved decisions. Output the summary plainly without extra commentary.\n\nTRANSCRIPT START\n",
                source.as_str(),
                "\nTRANSCRIPT END",
            );
            let ghost before = request.deep_view();
            let last = Json::empty_object().with("role", Json::text("user")).with(
                "content",
                Json::Text(question),
            );
            let ghost model = last@;
            request.push(last);
            assert(request.deep_view() =~= before.push(model));
            Some(request)
        },
    }
}

/// The summary in the model's answer.
pub open spec fn summary_of_reply(reply: JsonModel) -> Option<Seq<char>> {
    match reply.text_at("content"@) {
        Some(content) => if text::is_blank(content) {
            None
        } else {
            Some(text::trimmed(content))
        },
        None => None,
    }
}

/// The summary in the model's answer, which has to say something.
pub fn compact_summary_of_reply(reply: &Json) -> (r: Result<String, String>)
    ensures
        match r {
            Ok(s) => summary_of_reply(reply@) == Some(s@),
            Err(e) => summary_of_reply(reply@) is None && e@
                == "compact summary response missing content"@,
        },
{
    match reply.get_str("content") {
        Some(content) => {
            let summary = text::trim(content);
            if text::char_count(summary.as_str()) > 0 {
                Ok(summary)
            } else {
                Err(text::owned("compact summary response missing content"))
            }
        },
        None => Err(text::owned("compact summary response missing content")),
    }
}

/// The summary that stands at the start of a conversation.
pub open spec fn first_summary(messages: Seq<JsonModel>) -> Option<Seq<char>> {
    if messages.len() > 0 {
        existing_summary(messages[0])
    } else {
        None
    }
}

/// Compacts a conversation that needs it with the model's answer to the request
/// for a summary. Without an answer, or with one that says nothing, the
/// conversation stays as it is.
pub fn auto_compact_if_needed(
    messages: &mut Vec<Json>,
    cfg: &ContextCompactConfig,
    reply: Result<Json, String>,
    transcript_path: Option<String>,
) -> (r: Option<AutoCompactEvent>)
    ensures
        ({
            let before = old(messages).deep_view();
            let summary = match reply {
                Ok(m) => summary_of_reply(m@),
                Err(_) => None,
            };
            match (planned(before, *cfg), summary) {
                (Some(plan), Some(new)) => {
                    &&& final(messages).deep_view() == compacted(
                        before,
                        plan,
                        merged(first_summary(before), new),
                    )
                    &&& r is Some
                    &&& r->0.removed_messages == plan.removed_messages
                    &&& r->0.estimated_tokens_before == plan.estimated_tokens_before
                    &&& r->0.transcript_path == transcript_path
                },
                _ => final(messages).deep_view() == before && r is None,
            }
        }),
{
    let plan = match plan_auto_compact(messages, cfg) {
        Some(plan) => plan,
        None => {
            return None;
        },
    };
    let new_summary = match reply {
        Ok(m) => match compact_summary_of_reply(&m) {
            Ok(s) => s,
            Err(_) => {
                return None;
            },
        },
        Err(_) => {
            return None;
        },
    };
    let existing = if messages.len() > 0 {
        extract_existing_compacted_summary(&messages[0])
    } else {
        None
    };
    let summary = match &existing {
        Some(s) => merge_compact_summaries(Some(s.as_str()), new_summary.as_str()),
        None => merge_compact_summaries(None, new_summary.as_str()),
    };
    let next = build_messages_after_compaction(messages, &plan, summary.as_str());
    *messages = next;
    Some(
        AutoCompactEvent {
            removed_messages: plan.removed_messages,
            estimated_tokens_before: plan.estimated_tokens_before,
            transcript_path,
        },
    )
}

// ---------------------------------------------------------------------------
// Transcripts

/// The file that a conversation is saved to before it is compacted.
pub fn transcript_path(dir: &str, now_ms: u128) -> (r: String)
    ensures
        r@ == paths::path_joined(dir@, "transcript_"@ + text::decimal(now_ms as nat) + ".jsonl"@),
{
    let number = text::decimal_of(now_ms);
    let name = text::concat3("transcript_", number.as_str(), ".jsonl");
    paths::path_join(dir, name.as_str())
}

/// Every message on a line of its own.
pub open spec fn transcript(messages: Seq<JsonModel>) -> Seq<char>
    decreases messages.len(),
{
    if messages.len() == 0 {
        seq![]
    } else {
        transcript(messages.drop_last()) + json::compact_text(messages.last()) + "\n"@
    }
}

/// The texts of messages.
pub open spec fn message_texts(messages: Seq<JsonModel>) -> Seq<Seq<char>> {
    messages.map_values(|m: JsonModel| json::compact_text(m))
}

/// Every message on a line of its own: the lines are the texts of the messages,
/// and each of them is read back as the message it was written for.
pub fn transcript_text(messages: &Vec<Json>) -> (r: String)
    ensures
        r@ == transcript(messages.deep_view()),
        text::lines(r@) == message_texts(messages.deep_view()),
        forall|i: int|
            #![trigger messages.deep_view()[i]]
            0 <= i < messages@.len() && messages.deep_view()[i].reads_back() ==> json::parsed(
                text::lines(r@)[i],
            ) == Ok::<JsonModel, Seq<char>>(messages.deep_view()[i]),
{
    let ghost all = messages.deep_view();
    let mut out = String::new();
    let mut i: usize = 0;
    proof {
        assert(all.take(0) =~= seq![]);
        assert(out@ =~= seq![]);
        assert(message_texts(all.take(0)) =~= seq![]);
    }
    while i < messages.len()
        invariant
            i <= messages@.len(),
            all == messages.deep_view(),
            out@ == transcript(all.take(i as int)),
            out@.len() == 0 || out@.last() == '\n',
            text::lines(out@) == message_texts(all.take(i as int)),
            forall|k: int|
                #![trigger all[k]]
                0 <= k < i && all[k].reads_back() ==> json::parsed(json::compact_text(all[k]))
                    == Ok::<JsonModel, Seq<char>>(all[k]),
        decreases messages@.len() - i,
    {
        let ghost before = out@;
        proof {
            reveal_strlit("\n");
            assert(all.take(i + 1).drop_last() =~= all.take(i as int));
            assert(all.take(i + 1).last() == messages@[i as int]@);
            assert(all[i as int] == messages@[i as int]@);
        }
        let line = messages[i].to_compact_string();
        out.append(line.as_str());
        out.append("\n");
        proof {
            text::lemma_line_is_added(before, line@);
            assert(out@ =~= (before + line@).push('\n'));
            assert(message_texts(all.take(i + 1)) =~= message_texts(all.take(i as int)).push(line@));
        }
        i = i + 1;
    }
    assert(all.take(all.len() as int) =~= all);
    out
}

// ---------------------------------------------------------------------------
// A summary is read back from the message that carries it

/// Line feeds in front of a text do not matter to what is left of its start.
proof fn lemma_trim_after_line_feeds(s: Seq<char>)
    ensures
        text::trim_start_by(
            text::CharClass::Whitespace,
            text::trim_start_by(text::CharClass::One('\n'), s),
        ) == text::trim_start_by(text::CharClass::Whitespace, s),
    decreases s.len(),
{
    if s.len() > 0 && s[0] == '\n' {
        lemma_trim_after_line_feeds(s.skip(1));
    }
}

/// Trimming the start of a text stops inside its first part if that has a
/// character outside of the class.
proof fn lemma_trim_start_concat(class: text::CharClass, a: Seq<char>, b: Seq<char>)
    requires
        text::trim_start_by(class, a).len() > 0,
    ensures
        text::trim_start_by(class, a + b) == text::trim_start_by(class, a) + b,
    decreases a.len(),
{
    assert((a + b)[0] == a[0]);
    if class.has(a[0]) {
        lemma_trim_start_concat(class, a.skip(1), b);
        assert((a + b).skip(1) =~= a.skip(1) + b);
    }
}

/// The closing text has line feeds at its first two places only.
proof fn lemma_closing_shape()
    ensures
        closing().len() >= 3,
        closing()[0] == '\n',
        closing()[1] == '\n',
        forall|k: int| 2 <= k < closing().len() ==> #[trigger] closing()[k] != '\n',
{
    reveal_strlit("\n\n");
    reveal_strlit("Continue from this summary and the recent messages.");
    assert(CONTINUATION_SUFFIX@ == "Continue from this summary and the recent messages."@);
    assert forall|k: int| 2 <= k < closing().len() implies #[trigger] closing()[k] != '\n' by {
        assert(closing()[k] == CONTINUATION_SUFFIX@[k - 2]);
    }
}

/// Behind a text without the closing text, the closing text is first found at
/// the end.
proof fn lemma_closing_found(t: Seq<char>)
    requires
        !text::has_text(t, closing()),
    ensures
        before_closing(t + closing()) == t,
{
    let mark = closing();
    let all = t + mark;
    lemma_closing_shape();
    text::lemma_first_at(all, mark, 0);
    assert(all.subrange(t.len() as int, (t.len() + mark.len()) as int) =~= mark);
    assert(text::occurs_at(all, mark, t.len() as int));
    let i = text::first_at(all, mark, 0)->0;
    assert(i <= t.len());
    if i < t.len() {
        let found = all.subrange(i, i + mark.len());
        assert(found == mark);
        if i + mark.len() <= t.len() {
            assert(t.subrange(i, i + mark.len()) =~= found);
            assert(text::occurs_at(t, mark, i));
        } else {
            let k = t.len() - i;
            assert(found[k] == all[t.len() as int]);
            assert(all[t.len() as int] == mark[0]);
            assert(mark[k] == '\n');
            assert(k == 1);
            assert(found[2] == all[t.len() as int + 1]);
            assert(all[t.len() as int + 1] == mark[1]);
        }
    }
    assert(all.take(t.len() as int) =~= t);
}

/// The summary in a continuation message is read back from it, blanks around it
/// aside, unless it is made of line feeds alone or holds the closing text.
pub proof fn lemma_summary_is_read_back(summary: Seq<char>)
    requires
        text::trim_start_by(text::CharClass::One('\n'), summary).len() > 0,
        !text::has_text(summary, closing()),
    ensures
        summary_in(continuation(summary)) == Some(text::trimmed(summary)),
        existing_summary(summary_message(summary)) == Some(text::trimmed(summary)),
{
    let line_feed = text::CharClass::One('\n');
    let content = continuation(summary);
    let prefix = CONTINUATION_PREFIX@;
    let t = text::trim_start_by(line_feed, summary);
    reveal_strlit("\n\n");
    assert(content.take(prefix.len() as int) =~= prefix);
    let rest = content.skip(prefix.len() as int);
    assert(rest =~= "\n\n"@ + (summary + closing()));
    assert(rest.skip(1).skip(1) =~= summary + closing());
    assert(text::trim_start_by(line_feed, rest) == text::trim_start_by(
        line_feed,
        summary + closing(),
    )) by {
        reveal_with_fuel(text::trim_start_by, 3);
    }
    lemma_trim_start_concat(line_feed, summary, closing());
    text::lemma_trim_start(line_feed, summary);
    assert(!text::has_text(t, closing())) by {
        if text::has_text(t, closing()) {
            let i = choose|i: int| text::occurs_at(t, closing(), i);
            let base = summary.len() - t.len();
            assert(t.subrange(i, i + closing().len()) =~= summary.subrange(
                base + i,
                base + i + closing().len(),
            ));
            assert(text::occurs_at(summary, closing(), base + i));
        }
    }
    lemma_closing_found(t);
    lemma_trim_after_line_feeds(summary);
    let bare = Seq::<(Seq<char>, JsonModel)>::empty();
    let with_role = keyed::with_entry(bare, "role"@, JsonModel::Text("system"@));
    keyed::lemma_with_entry_order(bare, "role"@, JsonModel::Text("system"@));
    reveal_strlit("role");
    reveal_strlit("content");
    assert("role"@.len() != "content"@.len());
    keyed::lemma_entry_of_with_entry(bare, "role"@, JsonModel::Text("system"@), "role"@);
    keyed::lemma_entry_of_with_entry(with_role, "content"@, JsonModel::Text(content), "role"@);
    keyed::lemma_entry_of_with_entry(with_role, "content"@, JsonModel::Text(content), "content"@);
}

/// A text on one line.
spec fn one_line(s: Seq<char>) -> bool {
    forall|k: int| 0 <= k < s.len() ==> #[trigger] s[k] != '\n'
}

/// A text without an empty line and without a line feed at its end.
spec fn no_empty_line(s: Seq<char>) -> bool {
    &&& s.len() > 0
    &&& s.last() != '\n'
    &&& forall|k: int| 0 < k < s.len() && #[trigger] s[k] == '\n' ==> s[k - 1] != '\n'
}

spec fn all_one_line(lines: Seq<Seq<char>>) -> bool {
    forall|i: int| 0 <= i < lines.len() ==> one_line(#[trigger] lines[i])
}

spec fn all_lines(lines: Seq<Seq<char>>) -> bool {
    forall|i: int| 0 <= i < lines.len() ==> (#[trigger] lines[i]).len() > 0 && one_line(lines[i])
}

proof fn lemma_word_one_line(s: Seq<char>)
    ensures
        one_line(s.take(text::word_len(s))),
    decreases s.len(),
{
    text::lemma_word_len(s);
    if s.len() > 0 && !text::is_white_space(s[0]) {
        lemma_word_one_line(s.skip(1));
        let word = s.take(text::word_len(s));
        let rest = s.skip(1).take(text::word_len(s.skip(1)));
        assert forall|k: int| 0 <= k < word.len() implies #[trigger] word[k] != '\n' by {
            if k > 0 {
                assert(word[k] == rest[k - 1]);
            }
        }
    }
}

proof fn lemma_words_one_line(s: Seq<char>)
    ensures
        all_one_line(text::words(s)),
    decreases s.len(),
{
    if s.len() > 0 {
        if text::is_white_space(s[0]) {
            lemma_words_one_line(s.skip(1));
        } else {
            let k = text::word_len(s);
            text::lemma_word_len(s);
            lemma_word_one_line(s);
            lemma_words_one_line(s.skip(k));
            let rest = text::words(s.skip(k));
            let all = text::words(s);
            assert forall|i: int| 0 <= i < all.len() implies one_line(#[trigger] all[i]) by {
                if i > 0 {
                    assert(all[i] == rest[i - 1]);
                }
            }
        }
    }
}

proof fn lemma_joined_one_line(parts: Seq<Seq<char>>)
    requires
        all_one_line(parts),
    ensures
        one_line(text::joined(parts, seq![' '])),
    decreases parts.len(),
{
    if parts.len() == 1 {
        assert(one_line(parts[0]));
    } else if parts.len() > 1 {
        let front = parts.drop_last();
        assert forall|i: int| 0 <= i < front.len() implies one_line(#[trigger] front[i]) by {
            assert(front[i] == parts[i]);
        }
        lemma_joined_one_line(front);
        assert(one_line(parts[parts.len() - 1]));
    }
}

proof fn lemma_truncated_line(line: Seq<char>, max_chars: nat)
    requires
        line.len() > 0,
        one_line(line),
    ensures
        truncated(line, max_chars).len() > 0,
        one_line(truncated(line, max_chars)),
{
    reveal_strlit("...");
}

proof fn lemma_normal_lines(lines: Seq<Seq<char>>, max_line_chars: nat)
    ensures
        all_lines(normalized(lines, max_line_chars)),
    decreases lines.len(),
{
    if lines.len() > 0 {
        lemma_normal_lines(lines.drop_last(), max_line_chars);
        let line = text::collapsed(lines.last());
        lemma_words_one_line(lines.last());
        lemma_joined_one_line(text::words(lines.last()));
        if line.len() > 0 {
            lemma_truncated_line(line, max_line_chars);
        }
    }
}

proof fn lemma_chosen_are_lines(lines: Seq<Seq<char>>, flags: Seq<bool>)
    requires
        all_lines(lines),
    ensures
        all_lines(chosen_lines(lines, flags)),
    decreases lines.len(),
{
    if lines.len() > 0 && flags.len() > 0 {
        let front = lines.drop_last();
        assert forall|i: int| 0 <= i < front.len() implies (#[trigger] front[i]).len() > 0
            && one_line(front[i]) by {
            assert(front[i] == lines[i]);
        }
        lemma_chosen_are_lines(front, flags.drop_last());
        assert(one_line(lines[lines.len() - 1]));
    }
}

proof fn lemma_decimal_one_line(n: nat)
    ensures
        one_line(text::decimal(n)),
    decreases n,
{
    if n >= 10 {
        lemma_decimal_one_line(n / 10);
    }
}

proof fn lemma_joined_lines(lines: Seq<Seq<char>>)
    requires
        lines.len() > 0,
        all_lines(lines),
    ensures
        no_empty_line(text::joined(lines, "\n"@)),
    decreases lines.len(),
{
    reveal_strlit("\n");
    let last = lines[lines.len() - 1];
    assert(one_line(last));
    if lines.len() > 1 {
        let front = lines.drop_last();
        assert forall|i: int| 0 <= i < front.len() implies (#[trigger] front[i]).len() > 0
            && one_line(front[i]) by {
            assert(front[i] == lines[i]);
        }
        lemma_joined_lines(front);
        let head = text::joined(front, "\n"@);
        let all = text::joined(lines, "\n"@);
        assert(all == head + "\n"@ + last);
        assert forall|k: int| 0 < k < all.len() && #[trigger] all[k] == '\n' implies all[k - 1]
            != '\n' by {
            if k < head.len() {
                assert(all[k] == head[k]);
                assert(all[k - 1] == head[k - 1]);
            } else if k == head.len() {
                assert(all[k - 1] == head.last());
            } else {
                assert(all[k] == last[k - head.len() - 1]);
            }
        }
        assert(all.last() == last[last.len() - 1]);
    } else {
        assert(text::joined(lines, "\n"@) == lines[0]);
        assert(last.last() != '\n');
    }
}

/// The summary that a compaction leaves is found again, and nothing else, when
/// the conversation is compacted the next time.
pub proof fn lemma_next_compaction_finds_summary(
    messages: Seq<JsonModel>,
    plan: CompactPlan,
    existing: Option<Seq<char>>,
    new: Seq<char>,
)
    requires
        merged(existing, new).len() > 0,
    ensures
        first_summary(compacted(messages, plan, merged(existing, new))) == Some(
            text::trimmed(merged(existing, new)),
        ),
        summary_prefix(compacted(messages, plan, merged(existing, new))) == 1,
{
    let result = merged(existing, new);
    let source = match existing {
        Some(e) => if text::is_blank(e) {
            text::trimmed(new)
        } else {
            text::joined(merged_lines(text::trimmed(e), text::trimmed(new)), "\n"@)
        },
        None => text::trimmed(new),
    };
    lemma_compressed_has_no_empty_line(source, default_budget());
    assert(no_empty_line(result));
    lemma_closing_shape();
    assert(!text::has_text(result, closing())) by {
        if text::has_text(result, closing()) {
            let i = choose|i: int| text::occurs_at(result, closing(), i);
            let found = result.subrange(i, i + closing().len());
            assert(found[0] == result[i]);
            assert(found[1] == result[i + 1]);
        }
    }
    text::lemma_trim_start(text::CharClass::One('\n'), result);
    if text::trim_start_by(text::CharClass::One('\n'), result).len() == 0 {
        assert(text::CharClass::One('\n').has(result[result.len() - 1]));
    }
    lemma_summary_is_read_back(result);
}

proof fn lemma_compressed_has_no_empty_line(
    summary: Seq<char>,
    budget: SummaryCompressionBudget,
)
    requires
        compressed(summary, budget).len() > 0,
    ensures
        no_empty_line(compressed(summary, budget)),
{
    let lines = normalized(text::lines(summary), budget.max_line_chars as nat);
    lemma_normal_lines(text::lines(summary), budget.max_line_chars as nat);
    let flags = choose_passes(lines, budget, 4);
    lemma_chosen_are_lines(lines, flags);
    assert(one_line(lines[0]));
    lemma_truncated_line(lines[0], budget.max_chars as nat);
    let result = compressed_lines(lines, budget);
    let chosen = chosen_lines(lines, flags);
    let base = if chosen.len() == 0 {
        seq![truncated(lines[0], budget.max_chars as nat)]
    } else {
        chosen
    };
    let omitted = (lines.len() - base.len()) as nat;
    reveal_strlit("- ... ");
    reveal_strlit(" additional line(s) omitted.");
    lemma_decimal_one_line(omitted);
    assert(one_line(omission_note(omitted)));
    assert(all_lines(base));
    assert(all_lines(result));
    lemma_joined_lines(result);
}

// ---------------------------------------------------------------------------
// Laws of what a conversation counts

/// The characters that the contents of messages hold where they are texts,
/// whoever the messages are from.
pub open spec fn said_chars(messages: Seq<JsonModel>) -> nat
    decreases messages.len(),
{
    if messages.len() == 0 {
        0
    } else {
        said_chars(messages.drop_last()) + (match messages.last().text_at("content"@) {
            Some(s) => s.len(),
            None => 0,
        })
    }
}

/// Whoever a message is from, its content counts, a token for four characters;
/// so do its role and the tool calls that it asks for.
pub proof fn lemma_content_counts(m: JsonModel, content: Seq<char>)
    requires
        m.text_at("content"@) == Some(content),
        message_chars(m) <= usize::MAX,
    ensures
        message_tokens(m) >= content.len() / 4,
        4 * message_tokens(m) >= content.len(),
        message_tokens(m) >= (content.len() + or_empty(m.text_at("role"@)).len()) / 4,
        m.get("tool_calls"@) matches Some(calls) ==> message_tokens(m) >= (content.len()
            + value_chars(calls)) / 4,
        m.get("tool_calls"@) is None ==> message_tokens(m) == (content.len() + or_empty(
            m.text_at("role"@),
        ).len()) / 4 + 1,
{
    assert(m.get("content"@) == Some(JsonModel::Text(content)));
}

/// A longer content counts no less, everything else being the same.
pub proof fn lemma_longer_content_counts_more(m: JsonModel, other: JsonModel)
    requires
        m.text_at("role"@) == other.text_at("role"@),
        m.get("tool_calls"@) == other.get("tool_calls"@),
        m.text_at("content"@) is Some,
        other.text_at("content"@) is Some,
        m.text_at("content"@)->0.len() <= other.text_at("content"@)->0.len(),
    ensures
        message_tokens(m) <= message_tokens(other),
{
    assert(m.get("content"@) == Some(JsonModel::Text(m.text_at("content"@)->0)));
    assert(other.get("content"@) == Some(JsonModel::Text(other.text_at("content"@)->0)));
}

/// A conversation counts what its messages count.
pub proof fn lemma_messages_count_together(head: Seq<JsonModel>, tail: Seq<JsonModel>)
    ensures
        messages_tokens(head + tail) == messages_tokens(head) + messages_tokens(tail),
        said_chars(head + tail) == said_chars(head) + said_chars(tail),
    decreases tail.len(),
{
    if tail.len() == 0 {
        assert(head + tail =~= head);
    } else {
        assert((head + tail).drop_last() =~= head + tail.drop_last());
        assert((head + tail).last() == tail.last());
        lemma_messages_count_together(head, tail.drop_last());
    }
}

/// One message counts itself.
pub proof fn lemma_one_message_counts(m: JsonModel)
    ensures
        messages_tokens(seq![m]) == message_tokens(m),
{
    assert(seq![m].drop_last() =~= seq![]);
    assert(messages_tokens(seq![]) == 0);
}

/// The tokens of a conversation are at least a fourth of the characters that its
/// contents hold.
pub proof fn lemma_conversation_counts(messages: Seq<JsonModel>)
    requires
        forall|i: int| 0 <= i < messages.len() ==> message_chars(#[trigger] messages[i])
            <= usize::MAX,
    ensures
        4 * messages_tokens(messages) >= said_chars(messages),
        messages_tokens(messages) >= messages.len(),
    decreases messages.len(),
{
    if messages.len() > 0 {
        let m = messages.last();
        lemma_conversation_counts(messages.drop_last());
        assert(message_chars(messages[messages.len() - 1]) <= usize::MAX);
        match m.text_at("content"@) {
            Some(s) => lemma_content_counts(m, s),
            None => {},
        }
    }
}

/// A conversation whose contents hold four times as many characters as the
/// tokens that it may count, and in which some message before those to preserve
/// may be cut away without parting a tool result from its call, is compacted.
pub proof fn lemma_long_conversation_is_compacted(
    messages: Seq<JsonModel>,
    cfg: ContextCompactConfig,
    cut: int,
)
    requires
        cfg.enabled,
        cfg.auto_token_threshold > 0,
        messages.len() <= usize::MAX,
        forall|i: int| 0 <= i < messages.len() ==> message_chars(#[trigger] messages[i])
            <= usize::MAX,
        messages.len() > cfg.auto_preserve_recent_messages + 1,
        said_chars(messages.skip(1)) >= 4 * cfg.auto_token_threshold,
        1 <= cut <= messages.len() - cfg.auto_preserve_recent_messages,
        existing_summary(messages[0]) is Some ==> cut >= 2,
        cut == messages.len() || messages[cut].text_at("role"@) != Some("tool"@),
    ensures
        planned(messages, cfg) is Some,
        compaction_request(messages, cfg) is Some,
{
    let rest = messages.skip(1);
    assert forall|i: int| 0 <= i < rest.len() implies message_chars(#[trigger] rest[i])
        <= usize::MAX by {
        assert(rest[i] == messages[i + 1]);
    }
    lemma_conversation_counts(rest);
    lemma_messages_count_together(messages.take(1), rest);
    assert(messages.take(1) + rest =~= messages);
    assert(messages.skip(0) =~= messages);
    let first = first_cut(messages.len(), cfg.auto_preserve_recent_messages);
    lemma_tool_boundary(messages, first);
    if tool_boundary(messages, first) < cut {
        if cut < messages.len() {
            assert(is_tool_message(messages[cut]));
        } else {
            assert(first == messages.len());
        }
    }
}

/// A conversation that counts less than it may, that has no more messages than
/// are preserved, or that is not to be compacted at all, is left alone.
pub proof fn lemma_short_conversation_is_left(
    messages: Seq<JsonModel>,
    cfg: ContextCompactConfig,
)
    requires
        !cfg.enabled || cfg.auto_token_threshold == 0 || messages.len()
            <= cfg.auto_preserve_recent_messages || messages_tokens(messages)
            < cfg.auto_token_threshold,
    ensures
        planned(messages, cfg) is None,
        compaction_request(messages, cfg) is None,
{
    let prefix = summary_prefix(messages);
    lemma_messages_count_together(messages.take(prefix), messages.skip(prefix));
    assert(messages.take(prefix) + messages.skip(prefix) =~= messages);
}

/// A compacted conversation is a system message with the summary and then the
/// last messages as they were, at least those that are to be preserved.
pub proof fn lemma_compaction_keeps_recent(
    messages: Seq<JsonModel>,
    cfg: ContextCompactConfig,
    summary: Seq<char>,
    i: int,
)
    requires
        planned(messages, cfg) is Some,
        messages.len() <= usize::MAX,
        0 <= i < cfg.auto_preserve_recent_messages,
    ensures
        ({
            let plan = planned(messages, cfg)->0;
            let out = compacted(messages, plan, summary);
            &&& out.len() == messages.len() - plan.keep_from + 1
            &&& out.len() <= messages.len()
            &&& out.len() > cfg.auto_preserve_recent_messages
            &&& out[out.len() - 1 - i] == messages[messages.len() - 1 - i]
            &&& forall|k: int|
                plan.keep_from <= k < messages.len() ==> out[k - plan.keep_from + 1]
                    == #[trigger] messages[k]
            &&& plan.removed_messages + out.len() - 1 + summary_prefix(messages) == messages.len()
        }),
{
    lemma_plan_keeps_tool_calls(messages, cfg);
    let plan = planned(messages, cfg)->0;
    let out = compacted(messages, plan, summary);
    assert forall|k: int| plan.keep_from <= k < messages.len() implies out[k - plan.keep_from + 1]
        == #[trigger] messages[k] by {
        assert(messages.skip(plan.keep_from as int)[k - plan.keep_from] == messages[k]);
    }
    let last = messages.len() - 1 - i;
    assert(out[last - plan.keep_from + 1] == messages[last]);
}

/// What is kept starts just behind the last message before those to preserve
/// that is no tool message: no more is kept than tool calls ask for.
pub proof fn lemma_compaction_keeps_no_more(messages: Seq<JsonModel>, cfg: ContextCompactConfig)
    requires
        planned(messages, cfg) is Some,
        messages.len() <= usize::MAX,
    ensures
        ({
            let plan = planned(messages, cfg)->0;
            forall|k: int|
                plan.keep_from < k <= messages.len() - cfg.auto_preserve_recent_messages
                    ==> messages[k].text_at("role"@) == Some("tool"@)
        }),
{
    let first = first_cut(messages.len(), cfg.auto_preserve_recent_messages);
    lemma_tool_boundary(messages, first);
    let plan = planned(messages, cfg)->0;
    assert forall|k: int|
        plan.keep_from < k <= messages.len()
            - cfg.auto_preserve_recent_messages implies messages[k].text_at("role"@) == Some(
        "tool"@,
    ) by {
        assert(is_tool_message(messages[k]));
    }
}

/// The message that carries a summary is one of the system, and the summary
/// stands in it as it is.
pub proof fn lemma_summary_message_holds_summary(summary: Seq<char>)
    ensures
        summary_message(summary).text_at("role"@) == Some("system"@),
        summary_message(summary).text_at("content"@) is Some,
        text::has_text(summary_message(summary).text_at("content"@)->0, summary),
        text::begins_with(summary_message(summary).text_at("content"@)->0, CONTINUATION_PREFIX@),
        text::finishes_with(
            summary_message(summary).text_at("content"@)->0,
            CONTINUATION_SUFFIX@,
        ),
{
    let content = continuation(summary);
    lemma_text_message_reads("system"@, content);
    let at = (CONTINUATION_PREFIX@ + "\n\n"@).len() as int;
    assert(content.subrange(at, at + summary.len()) =~= summary);
    assert(text::occurs_at(content, summary, at));
    assert(content.take(CONTINUATION_PREFIX@.len() as int) =~= CONTINUATION_PREFIX@);
    assert(content.skip(content.len() - CONTINUATION_SUFFIX@.len()) =~= CONTINUATION_SUFFIX@);
}

proof fn lemma_text_message_reads(role: Seq<char>, content: Seq<char>)
    ensures
        ({
            let m = JsonModel::empty_object().with("role"@, JsonModel::Text(role)).with(
                "content"@,
                JsonModel::Text(content),
            );
            &&& m.text_at("role"@) == Some(role)
            &&& m.text_at("content"@) == Some(content)
        }),
{
    let bare = Seq::<(Seq<char>, JsonModel)>::empty();
    let with_role = keyed::with_entry(bare, "role"@, JsonModel::Text(role));
    keyed::lemma_with_entry_order(bare, "role"@, JsonModel::Text(role));
    reveal_strlit("role");
    reveal_strlit("content");
    assert("role"@.len() != "content"@.len());
    keyed::lemma_entry_of_with_entry(bare, "role"@, JsonModel::Text(role), "role"@);
    keyed::lemma_entry_of_with_entry(with_role, "content"@, JsonModel::Text(content), "role"@);
    keyed::lemma_entry_of_with_entry(with_role, "content"@, JsonModel::Text(content), "content"@);
}

/// Whoever asks for a summary sends the whole conversation, and then a question
/// that holds the source of the summary.
pub proof fn lemma_summary_is_asked_for(messages: Seq<JsonModel>, cfg: ContextCompactConfig)
    requires
        planned(messages, cfg) is Some,
    ensures
        ({
            let plan = planned(messages, cfg)->0;
            let source = source_from(
                messages.subrange(plan.compacted_prefix_len as int, plan.keep_from as int),
                0,
                seq![],
            );
            let request = compaction_request(messages, cfg)->0;
            &&& compaction_request(messages, cfg) is Some
            &&& request.drop_last() == messages
            &&& request.last().text_at("role"@) == Some("user"@)
            &&& request.last().text_at("content"@) is Some
            &&& text::has_text(request.last().text_at("content"@)->0, source)
        }),
{
    let plan = planned(messages, cfg)->0;
    let source = source_from(
        messages.subrange(plan.compacted_prefix_len as int, plan.keep_from as int),
        0,
        seq![],
    );
    let request = compaction_request(messages, cfg)->0;
    assert(request.drop_last() =~= messages);
    let content = summary_question(source);
    lemma_text_message_reads("user"@, content);
    let at = content.len() - "\nTRANSCRIPT END"@.len() - source.len();
    assert(content.subrange(at, at + source.len()) =~= source);
    assert(text::occurs_at(content, source, at));
}

/// The answer to the question for a summary is the summary, blanks around it
/// aside; one that says nothing is none.
pub proof fn lemma_reply_is_summary(reply: JsonModel)
    ensures
        forall|content: Seq<char>|
            reply.text_at("content"@) == Some(content) && !text::is_blank(content)
                ==> summary_of_reply(reply) == Some(text::trimmed(content)),
        summary_of_reply(reply) is Some <==> (reply.text_at("content"@) is Some
            && !text::is_blank(reply.text_at("content"@)->0)),
{
}

/// Messages that are not too much for one question are all told, one on a line,
/// in order, and nothing else is.
pub proof fn lemma_source_tells_all(removed: Seq<JsonModel>)
    requires
        text::byte_len(text::joined(message_texts(removed), "\n"@)) < MAX_SUMMARY_SOURCE_CHARS,
        forall|i: int| 0 <= i < removed.len() ==> json::compact_text(#[trigger] removed[i]).len()
            > 0,
    ensures
        source_from(removed, 0, seq![]) == text::joined(message_texts(removed), "\n"@),
{
    assert(message_texts(removed).take(0) =~= seq![]);
    lemma_source_goes_on(removed, 0);
    assert(message_texts(removed).take(removed.len() as int) =~= message_texts(removed));
}

proof fn lemma_source_goes_on(removed: Seq<JsonModel>, at: int)
    requires
        0 <= at <= removed.len(),
        text::byte_len(text::joined(message_texts(removed), "\n"@)) < MAX_SUMMARY_SOURCE_CHARS,
        forall|i: int| 0 <= i < removed.len() ==> json::compact_text(#[trigger] removed[i]).len()
            > 0,
    ensures
        source_from(removed, at, text::joined(message_texts(removed).take(at), "\n"@))
            == text::joined(message_texts(removed), "\n"@),
    decreases removed.len() - at,
{
    let texts = message_texts(removed);
    let out = text::joined(texts.take(at), "\n"@);
    if at == removed.len() {
        assert(texts.take(at) =~= texts);
    } else {
        let line = json::compact_text(removed[at]);
        assert(texts[at] == line);
        lemma_join_grows(texts, at + 1);
        assert(texts.take(at + 1).drop_last() =~= texts.take(at));
        assert(texts.take(at + 1).last() == line);
        let next = text::joined(texts.take(at + 1), "\n"@);
        if at == 0 {
            assert(texts.take(1)[0] == line);
            assert(next == line);
            assert(out =~= seq![]);
            assert(text::byte_len(out) == 0);
        } else {
            assert(next == out + "\n"@ + line);
            reveal_strlit("\n");
            text::lemma_bytes_add_up(out + "\n"@, line);
            text::lemma_bytes_add_up(out, "\n"@);
            lemma_line_feed_is_a_byte();
            assert(out.len() > 0) by {
                assert(texts.take(at)[0] == json::compact_text(removed[0]));
                if at > 1 {
                    assert(texts.take(at).last() == json::compact_text(removed[at - 1]));
                }
            }
        }
        lemma_source_goes_on(removed, at + 1);
    }
}

proof fn lemma_line_feed_is_a_byte()
    ensures
        text::byte_len("\n"@) == 1,
{
    reveal_strlit("\n");
    assert(vstd::utf8::is_ascii_chars("\n"@));
    vstd::utf8::is_ascii_chars_encode_utf8("\n"@);
}

proof fn lemma_join_grows(parts: Seq<Seq<char>>, n: int)
    requires
        0 <= n <= parts.len(),
    ensures
        text::byte_len(text::joined(parts.take(n), "\n"@)) <= text::byte_len(
            text::joined(parts, "\n"@),
        ),
    decreases parts.len() - n,
{
    if n == parts.len() {
        assert(parts.take(n) =~= parts);
    } else {
        lemma_join_grows(parts, n + 1);
        let longer = parts.take(n + 1);
        assert(longer.drop_last() =~= parts.take(n));
        if n == 0 {
            assert(text::joined(parts.take(0), "\n"@) =~= seq![]);
            assert(text::byte_len(seq![]) == 0);
        } else {
            let out = text::joined(parts.take(n), "\n"@);
            text::lemma_bytes_add_up(out + "\n"@, longer.last());
            text::lemma_bytes_add_up(out, "\n"@);
        }
    }
}

/// A summary that keeps within its budget is kept whole: no line is left out
/// and none is added.
pub proof fn lemma_fitting_summary_is_kept(
    lines: Seq<Seq<char>>,
    budget: SummaryCompressionBudget,
)
    requires
        lines.len() > 0,
        lines.len() <= budget.max_lines,
        joined_chars(lines) <= budget.max_chars,
    ensures
        compressed_lines(lines, budget) == lines,
{
    lemma_passes_take_all(lines, budget, 4);
    let flags = choose_passes(lines, budget, 4);
    lemma_all_chosen(lines, flags);
}

proof fn lemma_all_chosen(lines: Seq<Seq<char>>, flags: Seq<bool>)
    requires
        flags.len() == lines.len(),
        forall|i: int| 0 <= i < lines.len() ==> #[trigger] flags[i],
    ensures
        chosen_lines(lines, flags) == lines,
    decreases lines.len(),
{
    if lines.len() > 0 {
        assert(flags[flags.len() - 1]);
        assert forall|i: int| 0 <= i < lines.len() - 1 implies #[trigger] flags.drop_last()[i] by {
            assert(flags[i]);
        }
        lemma_all_chosen(lines.drop_last(), flags.drop_last());
        assert(lines.drop_last().push(lines.last()) =~= lines);
    } else {
        assert(chosen_lines(lines, flags) =~= lines);
    }
}

/// Lines that are not all chosen leave room for one that is not.
proof fn lemma_room_for_unchosen(lines: Seq<Seq<char>>, flags: Seq<bool>, k: int)
    requires
        flags.len() == lines.len(),
        0 <= k < lines.len(),
        !flags[k],
    ensures
        chosen_lines(lines, flags).len() + 1 <= lines.len(),
        total_chars(chosen_lines(lines, flags)) + lines[k].len() <= total_chars(lines),
    decreases lines.len(),
{
    let head = lines.drop_last();
    let marks = flags.drop_last();
    if k == lines.len() - 1 {
        lemma_chosen_is_no_more(head, marks);
    } else {
        assert(!marks[k]);
        lemma_room_for_unchosen(head, marks, k);
        assert(head[k] == lines[k]);
        if flags.last() {
            let before = chosen_lines(head, marks);
            assert(before.push(lines.last()).drop_last() =~= before);
        }
    }
}

proof fn lemma_chosen_is_no_more(lines: Seq<Seq<char>>, flags: Seq<bool>)
    requires
        flags.len() == lines.len(),
    ensures
        chosen_lines(lines, flags).len() <= lines.len(),
        total_chars(chosen_lines(lines, flags)) <= total_chars(lines),
    decreases lines.len(),
{
    if lines.len() > 0 {
        lemma_chosen_is_no_more(lines.drop_last(), flags.drop_last());
        if flags.last() {
            let before = chosen_lines(lines.drop_last(), flags.drop_last());
            assert(before.push(lines.last()).drop_last() =~= before);
        }
    }
}

proof fn lemma_pass_takes_all(
    lines: Seq<Seq<char>>,
    budget: SummaryCompressionBudget,
    wanted: nat,
    upto: nat,
    flags: Seq<bool>,
)
    requires
        lines.len() <= budget.max_lines,
        joined_chars(lines) <= budget.max_chars,
        flags.len() == lines.len(),
        upto <= lines.len(),
    ensures
        ({
            let after = choose_pass(lines, budget, wanted, upto, flags);
            &&& after.len() == lines.len()
            &&& forall|i: int| 0 <= i < lines.len() && flags[i] ==> #[trigger] after[i]
            &&& forall|i: int|
                0 <= i < upto && priority(lines[i]) == wanted ==> #[trigger] after[i]
        }),
    decreases upto,
{
    if upto > 0 {
        lemma_pass_takes_all(lines, budget, wanted, (upto - 1) as nat, flags);
        let before = choose_pass(lines, budget, wanted, (upto - 1) as nat, flags);
        if !before[upto - 1] {
            lemma_room_for_unchosen(lines, before, upto - 1);
            let chosen = chosen_lines(lines, before);
            assert(chosen.push(lines[upto - 1]).drop_last() =~= chosen);
            assert(line_fits(chosen, lines[upto - 1], budget));
        }
    }
}

proof fn lemma_passes_take_all(
    lines: Seq<Seq<char>>,
    budget: SummaryCompressionBudget,
    passes: nat,
)
    requires
        lines.len() <= budget.max_lines,
        joined_chars(lines) <= budget.max_chars,
    ensures
        ({
            let after = choose_passes(lines, budget, passes);
            &&& after.len() == lines.len()
            &&& forall|i: int|
                0 <= i < lines.len() && priority(lines[i]) < passes ==> #[trigger] after[i]
        }),
    decreases passes,
{
    if passes > 0 {
        lemma_passes_take_all(lines, budget, (passes - 1) as nat);
        lemma_pass_takes_all(
            lines,
            budget,
            (passes - 1) as nat,
            lines.len(),
            choose_passes(lines, budget, (passes - 1) as nat),
        );
    }
}

/// A line of a summary is dropped only where it is blank or where the same line,
/// letter case aside, came before it: what it says is found among the lines, cut
/// to the length that a line may have.
pub proof fn lemma_no_line_of_summary_is_lost(
    lines: Seq<Seq<char>>,
    max_line_chars: nat,
    i: int,
)
    requires
        0 <= i < lines.len(),
        text::words(lines[i]).len() > 0,
        text::collapsed(lines[i]).len() > 0,
    ensures
        exists|k: int|
            0 <= k < normalized(lines, max_line_chars).len() && text::lowered(
                #[trigger] normalized(lines, max_line_chars)[k],
            ) == text::lowered(truncated(text::collapsed(lines[i]), max_line_chars)),
    decreases lines.len(),
{
    let before = normalized(lines.drop_last(), max_line_chars);
    let all = normalized(lines, max_line_chars);
    let cut = truncated(text::collapsed(lines.last()), max_line_chars);
    if i == lines.len() - 1 {
        if has_line(before, cut) {
            let k = choose|k: int|
                0 <= k < before.len() && text::lowered(#[trigger] before[k]) == text::lowered(cut);
            assert(all[k] == before[k]);
        } else {
            assert(all[before.len() as int] == cut);
        }
    } else {
        assert(lines.drop_last()[i] == lines[i]);
        lemma_no_line_of_summary_is_lost(lines.drop_last(), max_line_chars, i);
        let wanted = text::lowered(truncated(text::collapsed(lines[i]), max_line_chars));
        let k = choose|k: int|
            0 <= k < before.len() && text::lowered(#[trigger] before[k]) == wanted;
        assert(all[k] == before[k]);
    }
}

/// Every line that is left says what some line of the summary said.
pub proof fn lemma_no_line_of_summary_is_made_up(
    lines: Seq<Seq<char>>,
    max_line_chars: nat,
    k: int,
)
    requires
        0 <= k < normalized(lines, max_line_chars).len(),
    ensures
        exists|i: int|
            0 <= i < lines.len() && normalized(lines, max_line_chars)[k] == truncated(
                text::collapsed(#[trigger] lines[i]),
                max_line_chars,
            ),
    decreases lines.len(),
{
    let before = normalized(lines.drop_last(), max_line_chars);
    if k < before.len() {
        lemma_no_line_of_summary_is_made_up(lines.drop_last(), max_line_chars, k);
        let i = choose|i: int|
            0 <= i < lines.drop_last().len() && before[k] == truncated(
                text::collapsed(#[trigger] lines.drop_last()[i]),
                max_line_chars,
            );
        assert(lines[i] == lines.drop_last()[i]);
    } else {
        assert(lines[lines.len() - 1] == lines.last());
    }
}

/// The lines that say what the work is about come before all others, then those
/// that head a part, then the points, then the rest.
pub proof fn lemma_core_lines_come_first(rest: Seq<char>)
    ensures
        priority("- Scope:"@ + rest) == 0,
        priority("- Current work:"@ + rest) == 0,
        priority("- Pending work:"@ + rest) == 0,
        priority("- Key files referenced:"@ + rest) == 0,
        priority("- Tools mentioned:"@ + rest) == 0,
        priority("- Recent user requests:"@ + rest) == 0,
        priority("- Previously compacted context:"@ + rest) == 0,
        priority("- Newly compacted context:"@ + rest) == 0,
        priority("Summary:"@) == 0,
        priority("Conversation summary:"@) == 0,
        priority(rest) <= 3,
        text::finishes_with(rest, ":"@) ==> priority(rest) <= 1,
        text::begins_with(rest, "- "@) ==> priority(rest) <= 2,
        text::begins_with(rest, "  - "@) ==> priority(rest) <= 2,
{
    lemma_begins("- Scope:"@, rest);
    lemma_begins("- Current work:"@, rest);
    lemma_begins("- Pending work:"@, rest);
    lemma_begins("- Key files referenced:"@, rest);
    lemma_begins("- Tools mentioned:"@, rest);
    lemma_begins("- Recent user requests:"@, rest);
    lemma_begins("- Previously compacted context:"@, rest);
    lemma_begins("- Newly compacted context:"@, rest);
}

proof fn lemma_begins(head: Seq<char>, rest: Seq<char>)
    ensures
        text::begins_with(head + rest, head),
{
    assert((head + rest).take(head.len() as int) =~= head);
}

/// A line that is not too long is kept as it is; of one that is, no more is kept
/// than may be, from its beginning, and that it was cut is shown.
pub proof fn lemma_lines_are_cut(line: Seq<char>, max_chars: nat)
    ensures
        line.len() <= max_chars || max_chars == 0 ==> truncated(line, max_chars) == line,
        3 <= max_chars < line.len() ==> truncated(line, max_chars).len() == max_chars
            && truncated(line, max_chars).take(max_chars - 3) == line.take(max_chars - 3)
            && text::finishes_with(truncated(line, max_chars), "..."@),
{
    reveal_strlit("...");
    if 3 <= max_chars < line.len() {
        let cut = truncated(line, max_chars);
        assert(cut.take(max_chars - 3) =~= line.take(max_chars - 3));
        assert(cut.skip(cut.len() - 3) =~= "..."@);
    }
}

/// A summary that keeps within its budget is kept whole.
pub proof fn lemma_short_summary_is_kept(summary: Seq<char>, budget: SummaryCompressionBudget)
    requires
        budget.max_chars > 0,
        budget.max_lines > 0,
        ({
            let lines = normalized(text::lines(summary), budget.max_line_chars as nat);
            lines.len() <= budget.max_lines && joined_chars(lines) <= budget.max_chars
        }),
    ensures
        compressed(summary, budget) == text::joined(
            normalized(text::lines(summary), budget.max_line_chars as nat),
            "\n"@,
        ),
{
    let lines = normalized(text::lines(summary), budget.max_line_chars as nat);
    if lines.len() > 0 {
        lemma_fitting_summary_is_kept(lines, budget);
    } else {
        assert(text::joined(lines, "\n"@) =~= seq![]);
    }
}

/// The lines that say what the work is about.
pub open spec fn core_lines(lines: Seq<Seq<char>>) -> Seq<Seq<char>>
    decreases lines.len(),
{
    if lines.len() == 0 {
        seq![]
    } else if priority(lines.last()) == 0 {
        core_lines(lines.drop_last()).push(lines.last())
    } else {
        core_lines(lines.drop_last())
    }
}

spec fn core_flags(lines: Seq<Seq<char>>, upto: int) -> Seq<bool> {
    Seq::new(lines.len(), |i: int| i < upto && priority(lines[i]) == 0)
}

/// Of a summary that is too long, the lines that say what the work is about are
/// all kept as long as they keep within the budget themselves.
pub proof fn lemma_core_lines_are_kept(
    lines: Seq<Seq<char>>,
    budget: SummaryCompressionBudget,
    i: int,
)
    requires
        0 <= i < lines.len(),
        priority(lines[i]) == 0,
        core_lines(lines).len() <= budget.max_lines,
        joined_chars(core_lines(lines)) <= budget.max_chars,
    ensures
        compressed_lines(lines, budget).contains(lines[i]),
{
    lemma_core_is_chosen(lines);
    lemma_core_pass(lines, budget, lines.len());
    let none = Seq::new(lines.len(), |k: int| false);
    assert(choose_passes(lines, budget, 0) =~= none);
    assert(core_flags(lines, 0) =~= none);
    let first = choose_passes(lines, budget, 1);
    assert(first == core_flags(lines, lines.len() as int));
    lemma_choose_passes_len(lines, budget, 1);
    lemma_choose_passes_len(lines, budget, 2);
    lemma_choose_passes_len(lines, budget, 3);
    lemma_choose_passes_len(lines, budget, 4);
    lemma_pass_keeps(lines, budget, 1, lines.len(), first);
    lemma_pass_keeps(lines, budget, 2, lines.len(), choose_passes(lines, budget, 2));
    lemma_pass_keeps(lines, budget, 3, lines.len(), choose_passes(lines, budget, 3));
    let flags = choose_passes(lines, budget, 4);
    assert(first[i]);
    assert(choose_passes(lines, budget, 2)[i]);
    assert(choose_passes(lines, budget, 3)[i]);
    assert(flags[i]);
    lemma_flagged_is_chosen(lines, flags, i);
    let chosen = chosen_lines(lines, flags);
    let k = choose|k: int| 0 <= k < chosen.len() && chosen[k] == lines[i];
    assert(compressed_lines(lines, budget)[k] == lines[i]);
}

proof fn lemma_flagged_is_chosen(lines: Seq<Seq<char>>, flags: Seq<bool>, i: int)
    requires
        flags.len() == lines.len(),
        0 <= i < lines.len(),
        flags[i],
    ensures
        chosen_lines(lines, flags).contains(lines[i]),
    decreases lines.len(),
{
    let chosen = chosen_lines(lines, flags);
    let before = chosen_lines(lines.drop_last(), flags.drop_last());
    if i == lines.len() - 1 {
        assert(chosen[before.len() as int] == lines[i]);
    } else {
        assert(lines.drop_last()[i] == lines[i]);
        lemma_flagged_is_chosen(lines.drop_last(), flags.drop_last(), i);
        let k = choose|k: int| 0 <= k < before.len() && before[k] == lines[i];
        assert(chosen[k] == lines[i]);
    }
}

proof fn lemma_pass_keeps(
    lines: Seq<Seq<char>>,
    budget: SummaryCompressionBudget,
    wanted: nat,
    upto: nat,
    flags: Seq<bool>,
)
    requires
        flags.len() == lines.len(),
        upto <= lines.len(),
    ensures
        choose_pass(lines, budget, wanted, upto, flags).len() == lines.len(),
        forall|i: int|
            0 <= i < lines.len() && flags[i] ==> #[trigger] choose_pass(
                lines,
                budget,
                wanted,
                upto,
                flags,
            )[i],
    decreases upto,
{
    if upto > 0 {
        lemma_pass_keeps(lines, budget, wanted, (upto - 1) as nat, flags);
    }
}

proof fn lemma_core_is_chosen(lines: Seq<Seq<char>>)
    ensures
        chosen_lines(lines, core_flags(lines, lines.len() as int)) == core_lines(lines),
    decreases lines.len(),
{
    if lines.len() > 0 {
        let head = lines.drop_last();
        lemma_core_is_chosen(head);
        assert(core_flags(lines, lines.len() as int).drop_last() =~= core_flags(
            head,
            head.len() as int,
        ));
    }
}

proof fn lemma_core_grows(lines: Seq<Seq<char>>, upto: int)
    requires
        0 <= upto <= lines.len(),
    ensures
        chosen_lines(lines, core_flags(lines, upto)).len() <= core_lines(lines).len(),
        total_chars(chosen_lines(lines, core_flags(lines, upto))) <= total_chars(
            core_lines(lines),
        ),
    decreases lines.len() - upto,
{
    if upto == lines.len() {
        lemma_core_is_chosen(lines);
    } else {
        lemma_core_grows(lines, upto + 1);
        let flags = core_flags(lines, upto);
        if priority(lines[upto]) == 0 {
            assert(core_flags(lines, upto + 1) =~= flags.update(upto, true));
            lemma_chosen_update(lines, flags, upto);
        } else {
            assert(core_flags(lines, upto + 1) =~= flags);
        }
    }
}

proof fn lemma_core_pass(lines: Seq<Seq<char>>, budget: SummaryCompressionBudget, upto: nat)
    requires
        upto <= lines.len(),
        core_lines(lines).len() <= budget.max_lines,
        joined_chars(core_lines(lines)) <= budget.max_chars,
    ensures
        choose_pass(lines, budget, 0, upto, Seq::new(lines.len(), |k: int| false)) == core_flags(
            lines,
            upto as int,
        ),
    decreases upto,
{
    let none = Seq::new(lines.len(), |k: int| false);
    if upto == 0 {
        assert(core_flags(lines, 0) =~= none);
    } else {
        let at = upto - 1;
        lemma_core_pass(lines, budget, at as nat);
        let flags = core_flags(lines, at);
        if priority(lines[at]) == 0 {
            assert(core_flags(lines, upto as int) =~= flags.update(at, true));
            lemma_chosen_update(lines, flags, at);
            lemma_core_grows(lines, upto as int);
            let chosen = chosen_lines(lines, flags);
            assert(chosen.push(lines[at]).drop_last() =~= chosen);
            assert(line_fits(chosen, lines[at], budget));
        } else {
            assert(core_flags(lines, upto as int) =~= flags);
        }
    }
}

/// A summary that is kept has at most twelve hundred characters, whatever it is
/// merged from.
pub proof fn lemma_merged_summary_is_short(existing: Option<Seq<char>>, new: Seq<char>)
    ensures
        merged(existing, new).len() <= 1_200,
{
    lemma_compressed_fits(text::trimmed(new), default_budget());
    match existing {
        Some(e) => lemma_compressed_fits(
            text::joined(merged_lines(text::trimmed(e), text::trimmed(new)), "\n"@),
            default_budget(),
        ),
        None => {},
    }
}

/// Without an earlier summary, or with one that says nothing, the new one stands
/// alone.
pub proof fn lemma_first_summary_stands_alone(existing: Seq<char>, new: Seq<char>)
    ensures
        merged(None, new) == compressed(
            text::trimmed(new),
            SummaryCompressionBudget { max_chars: 1_200, max_lines: 24, max_line_chars: 160 },
        ),
        text::is_blank(existing) ==> merged(Some(existing), new) == merged(None, new),
{
}

/// Two summaries are merged under headings of their own: first what was kept
/// before, then what is new, and every line of either that is neither blank nor a
/// heading is there, set in.
pub proof fn lemma_summaries_are_merged(existing: Seq<char>, new: Seq<char>, i: int)
    ensures
        ({
            let lines = merged_lines(existing, new);
            let old_lines = text::lines(existing);
            let new_lines = text::lines(new);
            let split = 2 + detail_lines(old_lines).len();
            &&& lines.len() == 3 + detail_lines(old_lines).len() + detail_lines(new_lines).len()
            &&& lines[0] == "Conversation summary:"@
            &&& lines[1] == "- Previously compacted context:"@
            &&& lines[split as int] == "- Newly compacted context:"@
            &&& 0 <= i < old_lines.len() && is_detail(old_lines[i]) ==> exists|k: int|
                2 <= k < split && #[trigger] lines[k] == "  "@ + text::trimmed(old_lines[i])
            &&& 0 <= i < new_lines.len() && is_detail(new_lines[i]) ==> exists|k: int|
                split < k < lines.len() && #[trigger] lines[k] == "  "@ + text::trimmed(
                    new_lines[i],
                )
        }),
        forall|e: Seq<char>|
            !text::is_blank(e) ==> #[trigger] merged(Some(e), new) == compressed(
                text::joined(merged_lines(text::trimmed(e), text::trimmed(new)), "\n"@),
                SummaryCompressionBudget { max_chars: 1_200, max_lines: 24, max_line_chars: 160 },
            ),
{
    let lines = merged_lines(existing, new);
    let old_lines = text::lines(existing);
    let new_lines = text::lines(new);
    let split = 2 + detail_lines(old_lines).len();
    if 0 <= i < old_lines.len() && is_detail(old_lines[i]) {
        lemma_detail_is_kept(old_lines, i);
        let wanted = "  "@ + text::trimmed(old_lines[i]);
        let d = detail_lines(old_lines);
        let k = choose|k: int| 0 <= k < d.len() && d[k] == wanted;
        assert(lines[k + 2] == wanted);
    }
    if 0 <= i < new_lines.len() && is_detail(new_lines[i]) {
        lemma_detail_is_kept(new_lines, i);
        let wanted = "  "@ + text::trimmed(new_lines[i]);
        let d = detail_lines(new_lines);
        let k = choose|k: int| 0 <= k < d.len() && d[k] == wanted;
        assert(lines[k + split + 1] == wanted);
    }
}

/// A line says something and is no heading of a summary.
pub open spec fn is_detail(line: Seq<char>) -> bool {
    &&& text::trimmed(line).len() > 0
    &&& text::trimmed(line) != "Summary:"@
    &&& text::trimmed(line) != "Conversation summary:"@
}

proof fn lemma_detail_is_kept(lines: Seq<Seq<char>>, i: int)
    requires
        0 <= i < lines.len(),
        is_detail(lines[i]),
    ensures
        detail_lines(lines).contains("  "@ + text::trimmed(lines[i])),
    decreases lines.len(),
{
    let before = detail_lines(lines.drop_last());
    let all = detail_lines(lines);
    let wanted = "  "@ + text::trimmed(lines[i]);
    if i == lines.len() - 1 {
        assert(all[before.len() as int] == wanted);
    } else {
        assert(lines.drop_last()[i] == lines[i]);
        lemma_detail_is_kept(lines.drop_last(), i);
        let k = choose|k: int| 0 <= k < before.len() && before[k] == wanted;
        assert(all[k] == wanted);
    }
}

/// That lines were left out is said, with their number, where there is room to
/// say it.
pub proof fn lemma_omission_is_said(lines: Seq<Seq<char>>, budget: SummaryCompressionBudget)
    ensures
        ({
            let chosen = chosen_lines(lines, choose_passes(lines, budget, 4));
            let left = lines.len() - chosen.len();
            &&& chosen.len() > 0 && left > 0 && line_fits(
                chosen,
                omission_note(left as nat),
                budget,
            ) ==> compressed_lines(lines, budget) == chosen.push(omission_note(left as nat))
            &&& chosen.len() > 0 && left <= 0 ==> compressed_lines(lines, budget) == chosen
        }),
        forall|n: nat| text::has_text(#[trigger] omission_note(n), text::decimal(n)),
{
    assert forall|n: nat| text::has_text(#[trigger] omission_note(n), text::decimal(n)) by {
        text::lemma_has_itself(text::decimal(n));
        text::lemma_has_text_within(
            "- ... "@,
            text::decimal(n),
            " additional line(s) omitted."@,
            text::decimal(n),
        );
    }
}

/// Everything in a value counts: texts by their length, and lists and objects by
/// what they hold, keys included.
pub proof fn lemma_values_count(
    s: Seq<char>,
    items: Seq<JsonModel>,
    entries: Seq<(Seq<char>, JsonModel)>,
    key: Seq<char>,
    value: JsonModel,
)
    ensures
        value_chars(JsonModel::Text(s)) == s.len(),
        value_chars(JsonModel::Null) == 0,
        value_chars(JsonModel::Bool(true)) == 4,
        value_chars(JsonModel::Bool(false)) == 4,
        value_chars(JsonModel::Array(items.push(value))) == value_chars(JsonModel::Array(items))
            + value_chars(value),
        value_chars(JsonModel::Object(entries.push((key, value)))) == value_chars(
            JsonModel::Object(entries),
        ) + key.len() + value_chars(value),
        value_chars(JsonModel::Array(seq![])) == 0,
        value_chars(JsonModel::Object(seq![])) == 0,
{
    assert(items.push(value).drop_last() =~= items);
    assert(entries.push((key, value)).drop_last() =~= entries);
}

/// An earlier summary is known by the mark at the beginning of a message of the
/// system, and by nothing else.
pub proof fn lemma_summaries_are_known_by_mark(m: JsonModel)
    ensures
        existing_summary(m) is Some <==> m.text_at("role"@) == Some("system"@) && m.text_at(
            "content"@,
        ) is Some && text::begins_with(m.text_at("content"@)->0, "[Context compacted]"@),
        forall|messages: Seq<JsonModel>|
            messages.len() > 0 ==> #[trigger] first_summary(messages) == existing_summary(
                messages[0],
            ),
{
}

/// The calls of a message are those of its list of tool calls, if it is one of
/// the assistant.
pub proof fn lemma_calls_of_a_message(m: JsonModel, calls: Seq<JsonModel>, k: int, id: Seq<char>)
    requires
        m.text_at("role"@) == Some("assistant"@),
        m.items_at("tool_calls"@) == Some(calls),
        0 <= k < calls.len(),
        calls[k].text_at("id"@) == Some(id),
    ensures
        call_ids(m).contains(id),
        call_ids(m).len() <= calls.len(),
    decreases calls.len(),
{
    lemma_ids_of_calls(calls, k);
    lemma_ids_are_no_more(calls);
}

proof fn lemma_ids_are_no_more(calls: Seq<JsonModel>)
    ensures
        ids_of_calls(calls).len() <= calls.len(),
    decreases calls.len(),
{
    if calls.len() > 0 {
        lemma_ids_are_no_more(calls.drop_last());
    }
}

} // verus!
