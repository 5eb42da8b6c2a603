//! The live state of one agent's conversation: which session is open, what is
//! shown of it, and the turn that is under way.
use crate::agents::AgentKind;
use crate::llm::session;
use crate::llm::session::{ConversationSession, ConversationSessionSnapshot, SessionModel, SnapshotModel};
use crate::text;
use crate::web::error;
use crate::web::error::AppError;
use crate::web::messages;
use crate::web::messages::{PendingModel, PendingUiMessage, UiMessage, UiMessageInput, UiMessageModel};
use vstd::prelude::*;

verus! {

// ---------------------------------------------------------------------------
// Types

/// What an agent is doing.
#[derive(Debug, Clone, Copy, PartialEq, Eq, Structural)]
pub enum LiveStatus {
    Idle,
    Thinking,
    WaitingForInput,
    Error,
}

/// The status with the given key; every other text stands for idle.
pub open spec fn status_of_key(key: Seq<char>) -> LiveStatus {
    if key == "thinking"@ {
        LiveStatus::Thinking
    } else if key == "waiting_for_input"@ {
        LiveStatus::WaitingForInput
    } else if key == "error"@ {
        LiveStatus::Error
    } else {
        LiveStatus::Idle
    }
}

impl LiveStatus {
    /// The key of a status.
    pub open spec fn key(self) -> Seq<char> {
        match self {
            LiveStatus::Idle => "idle"@,
            LiveStatus::Thinking => "thinking"@,
            LiveStatus::WaitingForInput => "waiting_for_input"@,
            LiveStatus::Error => "error"@,
        }
    }

    /// The key of a status.
    pub fn as_str(self) -> (r: &'static str)
        ensures
            r@ == self.key(),
    {
        match self {
            LiveStatus::Idle => "idle",
            LiveStatus::Thinking => "thinking",
            LiveStatus::WaitingForInput => "waiting_for_input",
            LiveStatus::Error => "error",
        }
    }

    /// Whether a turn is under way.
    pub fn is_busy(self) -> (r: bool)
        ensures
            r == (self == LiveStatus::Thinking),
    {
        match self {
            LiveStatus::Thinking => true,
            _ => false,
        }
    }
}

/// The status with the given key.
pub fn status_from_str(status: &str) -> (r: LiveStatus)
    ensures
        r == status_of_key(status@),
{
    if text::same_text(status, "thinking") {
        LiveStatus::Thinking
    } else if text::same_text(status, "waiting_for_input") {
        LiveStatus::WaitingForInput
    } else if text::same_text(status, "error") {
        LiveStatus::Error
    } else {
        LiveStatus::Idle
    }
}

/// Reading a status that was written gives it back.
pub proof fn lemma_status_is_read_back(status: LiveStatus)
    ensures
        status_of_key(status.key()) == status,
{
    reveal_strlit("idle");
    reveal_strlit("thinking");
    reveal_strlit("waiting_for_input");
    reveal_strlit("error");
    assert("idle"@.len() == 4);
    assert("thinking"@.len() == 8);
    assert("waiting_for_input"@.len() == 17);
    assert("error"@.len() == 5);
}

/// What is shown of a conversation.
#[derive(Debug)]
pub struct LiveSnapshot {
    pub agent_kind: AgentKind,
    pub title: String,
    pub session_id: Option<String>,
    pub status: String,
    pub last_error: Option<String>,
    pub messages: Vec<UiMessage>,
}

/// What is shown of a conversation.
#[verifier::ext_equal]
pub struct LiveSnapshotModel {
    pub agent_kind: AgentKind,
    pub title: Seq<char>,
    pub session_id: Option<Seq<char>>,
    pub status: Seq<char>,
    pub last_error: Option<Seq<char>>,
    pub messages: Seq<UiMessageModel>,
}

impl DeepView for LiveSnapshot {
    type V = LiveSnapshotModel;

    open spec fn deep_view(&self) -> LiveSnapshotModel {
        LiveSnapshotModel {
            agent_kind: self.agent_kind,
            title: self.title@,
            session_id: self.session_id.deep_view(),
            status: self.status@,
            last_error: self.last_error.deep_view(),
            messages: self.messages.deep_view(),
        }
    }
}

impl Clone for LiveSnapshot {
    fn clone(&self) -> (r: LiveSnapshot)
        ensures
            r.deep_view() == self.deep_view(),
    {
        LiveSnapshot {
            agent_kind: self.agent_kind,
            title: self.title.clone(),
            session_id: text::clone_text(&self.session_id),
            status: self.status.clone(),
            last_error: text::clone_text(&self.last_error),
            messages: messages::clone_messages(&self.messages),
        }
    }
}

/// What is kept of a snapshot: no trace is.
pub open spec fn kept(s: LiveSnapshotModel) -> LiveSnapshotModel {
    LiveSnapshotModel { messages: messages::visible(s.messages), ..s }
}

/// What is kept of a snapshot.
pub fn snapshot_to_keep(s: &LiveSnapshot) -> (r: LiveSnapshot)
    ensures
        r.deep_view() == kept(s.deep_view()),
{
    LiveSnapshot {
        agent_kind: s.agent_kind,
        title: s.title.clone(),
        session_id: text::clone_text(&s.session_id),
        status: s.status.clone(),
        last_error: text::clone_text(&s.last_error),
        messages: messages::visible_messages_only(&s.messages),
    }
}

/// The answer to a question of the user.
#[derive(Debug)]
pub struct LiveSubmitResponse {
    pub agent_kind: AgentKind,
    pub title: String,
    pub session_id: Option<String>,
    pub status: String,
    pub last_error: Option<String>,
    pub new_messages: Vec<UiMessage>,
    pub total_message_count: usize,
}

/// The answer to a question of the user.
#[verifier::ext_equal]
pub struct ResponseModel {
    pub agent_kind: AgentKind,
    pub title: Seq<char>,
    pub session_id: Option<Seq<char>>,
    pub status: Seq<char>,
    pub last_error: Option<Seq<char>>,
    pub new_messages: Seq<UiMessageModel>,
    pub total_message_count: nat,
}

impl DeepView for LiveSubmitResponse {
    type V = ResponseModel;

    open spec fn deep_view(&self) -> ResponseModel {
        ResponseModel {
            agent_kind: self.agent_kind,
            title: self.title@,
            session_id: self.session_id.deep_view(),
            status: self.status@,
            last_error: self.last_error.deep_view(),
            new_messages: self.new_messages.deep_view(),
            total_message_count: self.total_message_count as nat,
        }
    }
}

impl Clone for LiveSubmitResponse {
    fn clone(&self) -> (r: LiveSubmitResponse)
        ensures
            r.deep_view() == self.deep_view(),
    {
        LiveSubmitResponse {
            agent_kind: self.agent_kind,
            title: self.title.clone(),
            session_id: text::clone_text(&self.session_id),
            status: self.status.clone(),
            last_error: text::clone_text(&self.last_error),
            new_messages: messages::clone_messages(&self.new_messages),
            total_message_count: self.total_message_count,
        }
    }
}

/// The turn that is under way, and what to go back to if it is cancelled.
#[derive(Debug, Clone, PartialEq, Eq)]
pub struct ActiveTurn {
    pub session_id: String,
    pub turn_id: u64,
    pub cancelled: bool,
    pub rollback_message_count: usize,
    pub rollback_prompt_history_count: usize,
    pub rollback_ui_message_count: usize,
    pub rollback_next_message_index: usize,
}

/// The turn that is under way, and what to go back to if it is cancelled.
#[verifier::ext_equal]
pub struct TurnModel {
    pub session_id: Seq<char>,
    pub turn_id: u64,
    pub cancelled: bool,
    pub messages: nat,
    pub prompts: nat,
    pub shown: nat,
    pub next_index: nat,
}

impl DeepView for ActiveTurn {
    type V = TurnModel;

    open spec fn deep_view(&self) -> TurnModel {
        TurnModel {
            session_id: self.session_id@,
            turn_id: self.turn_id,
            cancelled: self.cancelled,
            messages: self.rollback_message_count as nat,
            prompts: self.rollback_prompt_history_count as nat,
            shown: self.rollback_ui_message_count as nat,
            next_index: self.rollback_next_message_index as nat,
        }
    }
}

/// The live state of one agent's conversation.
#[derive(Debug)]
pub struct LiveConversation {
    agent_kind: AgentKind,
    session: Option<ConversationSession>,
    title: String,
    session_id: Option<String>,
    ui_messages: Vec<UiMessage>,
    next_message_index: usize,
    next_trace_index: usize,
    status: LiveStatus,
    last_error: Option<String>,
    active_turn: Option<ActiveTurn>,
}

/// The live state of one agent's conversation.
#[verifier::ext_equal]
pub struct LiveModel {
    pub agent_kind: AgentKind,
    pub session: Option<SessionModel>,
    pub title: Seq<char>,
    pub session_id: Option<Seq<char>>,
    pub ui_messages: Seq<UiMessageModel>,
    pub next_message_index: nat,
    pub next_trace_index: nat,
    pub status: LiveStatus,
    pub last_error: Option<Seq<char>>,
    pub active_turn: Option<TurnModel>,
}

/// What a session looks like to others.
pub open spec fn session_view(s: Option<ConversationSession>) -> Option<SessionModel> {
    match s {
        Some(session) => Some(session@),
        None => None,
    }
}

impl View for LiveConversation {
    type V = LiveModel;

    closed spec fn view(&self) -> LiveModel {
        LiveModel {
            agent_kind: self.agent_kind,
            session: session_view(self.session),
            title: self.title@,
            session_id: self.session_id.deep_view(),
            ui_messages: self.ui_messages.deep_view(),
            next_message_index: self.next_message_index as nat,
            next_trace_index: self.next_trace_index as nat,
            status: self.status,
            last_error: self.last_error.deep_view(),
            active_turn: self.active_turn.deep_view(),
        }
    }
}

impl LiveModel {
    /// Every message shown has an index of its own, and a turn can be taken
    /// back to a state that was shown before.
    pub open spec fn consistent(self) -> bool {
        &&& self.next_message_index == self.ui_messages.len()
        &&& self.active_turn matches Some(turn) ==> turn.shown == turn.next_index && turn.shown
            <= self.ui_messages.len()
    }

    /// What is shown of the state.
    pub open spec fn snapshot(self) -> LiveSnapshotModel {
        LiveSnapshotModel {
            agent_kind: self.agent_kind,
            title: self.title,
            session_id: self.session_id,
            status: self.status.key(),
            last_error: self.last_error,
            messages: self.ui_messages,
        }
    }

    /// The turn under way is the given one.
    pub open spec fn runs_turn(self, session_id: Seq<char>, turn_id: u64) -> bool {
        match self.active_turn {
            Some(turn) => turn.session_id == session_id && turn.turn_id == turn_id,
            None => false,
        }
    }

    /// The turn under way is the given one and was not cancelled.
    pub open spec fn listens_to(self, session_id: Seq<char>, turn_id: u64) -> bool {
        self.runs_turn(session_id, turn_id) && !self.active_turn->0.cancelled
    }
}

/// What is shown of a session: its title, its id, its messages, that it waits
/// for the user, and no error.
#[verifier::ext_equal]
pub struct ShownModel {
    pub title: Seq<char>,
    pub session_id: Option<Seq<char>>,
    pub messages: Seq<UiMessageModel>,
    pub status: LiveStatus,
    pub last_error: Option<Seq<char>>,
}

/// What is shown of a session that was never shown before.
pub open spec fn shown_fresh(s: SnapshotModel) -> ShownModel {
    ShownModel {
        title: messages::title_of(s),
        session_id: Some(s.session_id),
        messages: messages::flattened(s.session_id, s.messages, 0, s.updated_at_unix_ms),
        status: LiveStatus::WaitingForInput,
        last_error: None,
    }
}

/// What is shown of a session, as it was shown before if it was.
pub open spec fn shown_again(s: SnapshotModel, ui: Option<LiveSnapshotModel>) -> ShownModel {
    match ui {
        Some(u) => ShownModel {
            title: u.title,
            session_id: u.session_id,
            messages: messages::visible(u.messages),
            status: status_of_key(u.status),
            last_error: u.last_error,
        },
        None => shown_fresh(s),
    }
}

/// What is shown when the program starts. The last state that was shown counts
/// where it belongs to the session; its messages come from the session's own
/// record. Without a session, a state without one counts.
pub open spec fn shown_at_start(
    agent_kind: AgentKind,
    session: Option<SnapshotModel>,
    last: Option<LiveSnapshotModel>,
    ui: Option<LiveSnapshotModel>,
) -> ShownModel {
    match session {
        Some(s) => match last {
            Some(l) => if l.session_id == Some(s.session_id) {
                ShownModel {
                    title: l.title,
                    session_id: l.session_id,
                    messages: shown_again(s, ui).messages,
                    status: status_of_key(l.status),
                    last_error: l.last_error,
                }
            } else {
                shown_again(s, ui)
            },
            None => shown_again(s, ui),
        },
        None => match last {
            Some(l) => if l.session_id is None {
                shown_again_without_session(l)
            } else {
                shown_nothing(agent_kind.shown_title())
            },
            None => shown_nothing(agent_kind.shown_title()),
        },
    }
}

/// What is shown of a state that has no session.
pub open spec fn shown_again_without_session(l: LiveSnapshotModel) -> ShownModel {
    ShownModel {
        title: l.title,
        session_id: None,
        messages: messages::visible(l.messages),
        status: status_of_key(l.status),
        last_error: l.last_error,
    }
}

/// What is shown where there is nothing to show.
pub open spec fn shown_nothing(title: Seq<char>) -> ShownModel {
    ShownModel {
        title,
        session_id: None,
        messages: seq![],
        status: LiveStatus::Idle,
        last_error: None,
    }
}

/// The state with the given session open and nothing under way.
pub open spec fn opened(
    agent_kind: AgentKind,
    session: Option<SessionModel>,
    shown: ShownModel,
) -> LiveModel {
    LiveModel {
        agent_kind,
        session,
        title: shown.title,
        session_id: shown.session_id,
        ui_messages: shown.messages,
        next_message_index: shown.messages.len(),
        next_trace_index: 0,
        status: shown.status,
        last_error: shown.last_error,
        active_turn: None,
    }
}

/// What is shown of a session.
pub struct ShownState {
    pub title: String,
    pub session_id: Option<String>,
    pub messages: Vec<UiMessage>,
    pub status: LiveStatus,
    pub last_error: Option<String>,
}

impl DeepView for ShownState {
    type V = ShownModel;

    open spec fn deep_view(&self) -> ShownModel {
        ShownModel {
            title: self.title@,
            session_id: self.session_id.deep_view(),
            messages: self.messages.deep_view(),
            status: self.status,
            last_error: self.last_error.deep_view(),
        }
    }
}

/// What is shown of a session that was never shown before.
pub fn session_state_from_snapshot(snapshot: &ConversationSessionSnapshot) -> (r: ShownState)
    ensures
        r.deep_view() == shown_fresh(snapshot.deep_view()),
{
    let count: usize = snapshot.messages.len();
    assert(0 + snapshot.messages@.len() <= usize::MAX) by {
        assert(snapshot.messages@.len() == count);
    }
    let messages = messages::flatten_messages(
        snapshot.session_id.as_str(),
        &snapshot.messages,
        0,
        snapshot.updated_at_unix_ms,
    );
    ShownState {
        title: messages::summary_title(snapshot),
        session_id: Some(snapshot.session_id.clone()),
        messages,
        status: LiveStatus::WaitingForInput,
        last_error: None,
    }
}

fn state_again(snapshot: &ConversationSessionSnapshot, ui: &Option<LiveSnapshot>) -> (r: ShownState)
    ensures
        r.deep_view() == shown_again(snapshot.deep_view(), ui.deep_view()),
{
    match ui {
        Some(u) => ShownState {
            title: u.title.clone(),
            session_id: text::clone_text(&u.session_id),
            messages: messages::visible_messages_only(&u.messages),
            status: status_from_str(u.status.as_str()),
            last_error: text::clone_text(&u.last_error),
        },
        None => session_state_from_snapshot(snapshot),
    }
}

fn state_at_start(
    agent_kind: AgentKind,
    session: &Option<ConversationSession>,
    last: &Option<LiveSnapshot>,
    ui: &Option<LiveSnapshot>,
) -> (r: ShownState)
    ensures
        r.deep_view() == shown_at_start(
            agent_kind,
            (match session_view(*session) {
                Some(s) => Some(s.snapshot),
                None => None,
            }),
            last.deep_view(),
            ui.deep_view(),
        ),
{
    match session {
        Some(s) => {
            let again = state_again(s.snapshot(), ui);
            match last {
                Some(l) => {
                    let same = match &l.session_id {
                        Some(id) => text::same_text(id.as_str(), s.snapshot().session_id.as_str()),
                        None => false,
                    };
                    if same {
                        ShownState {
                            title: l.title.clone(),
                            session_id: text::clone_text(&l.session_id),
                            messages: again.messages,
                            status: status_from_str(l.status.as_str()),
                            last_error: text::clone_text(&l.last_error),
                        }
                    } else {
                        again
                    }
                },
                None => again,
            }
        },
        None => match last {
            Some(l) => if l.session_id.is_none() {
                ShownState {
                    title: l.title.clone(),
                    session_id: None,
                    messages: messages::visible_messages_only(&l.messages),
                    status: status_from_str(l.status.as_str()),
                    last_error: text::clone_text(&l.last_error),
                }
            } else {
                empty_state(agent_kind)
            },
            None => empty_state(agent_kind),
        },
    }
}

fn empty_state(agent_kind: AgentKind) -> (r: ShownState)
    ensures
        r.deep_view() == shown_nothing(agent_kind.shown_title()),
{
    let messages: Vec<UiMessage> = Vec::new();
    assert(messages.deep_view() =~= seq![]);
    ShownState {
        title: text::owned(agent_kind.title()),
        session_id: None,
        messages,
        status: LiveStatus::Idle,
        last_error: None,
    }
}

// ---------------------------------------------------------------------------
// Transitions

/// The state in which a turn is about to start: the session is handed out.
pub open spec fn turn_begun(l: LiveModel) -> LiveModel {
    LiveModel { status: LiveStatus::Thinking, last_error: None, session: None, ..l }
}

/// The place that a cancelled turn goes back to.
#[derive(Debug, Clone, Copy, PartialEq, Eq, Structural)]
pub struct RollbackPoint {
    pub message_count: usize,
    pub prompt_history_count: usize,
}

/// The state in which a turn has started: the question is shown, unless it
/// drives an interview.
pub open spec fn turn_running(
    l: LiveModel,
    s: SnapshotModel,
    rollback: RollbackPoint,
    prompt: Seq<char>,
    turn_id: u64,
    now_ms: u128,
) -> LiveModel {
    let question = messages::plain_message(
        s.session_id,
        l.next_message_index,
        "user"@,
        prompt,
        now_ms,
        turn_id as nat,
    );
    let shown = if messages::is_seed(prompt) {
        seq![]
    } else {
        seq![question]
    };
    LiveModel {
        title: messages::title_of(s),
        session_id: Some(s.session_id),
        active_turn: Some(
            TurnModel {
                session_id: s.session_id,
                turn_id,
                cancelled: false,
                messages: rollback.message_count as nat,
                prompts: rollback.prompt_history_count as nat,
                shown: l.ui_messages.len(),
                next_index: l.next_message_index,
            },
        ),
        ui_messages: l.ui_messages + shown,
        next_message_index: l.next_message_index + shown.len(),
        ..l
    }
}

/// The answer when a turn has started.
pub open spec fn started_response(l: LiveModel, s: SnapshotModel, before: nat) -> ResponseModel {
    ResponseModel {
        agent_kind: l.agent_kind,
        title: l.title,
        session_id: Some(s.session_id),
        status: LiveStatus::Thinking.key(),
        last_error: None,
        new_messages: l.ui_messages.skip(before as int),
        total_message_count: l.ui_messages.len(),
    }
}

/// A message that was pending, at its place in the conversation.
pub open spec fn placed_message(
    p: PendingModel,
    session_id: Seq<char>,
    index: nat,
    turn_id: u64,
) -> UiMessageModel {
    messages::ui_message(
        session_id,
        index,
        p.role,
        p.kind,
        p.content,
        p.created_at,
        p.tool_name,
        p.tool_args,
        p.tool_output,
        turn_id as nat,
    )
}

/// The state with one more message.
pub open spec fn message_shown(l: LiveModel, m: UiMessageModel) -> LiveModel {
    LiveModel {
        ui_messages: l.ui_messages.push(m),
        next_message_index: l.next_message_index + 1,
        ..l
    }
}

/// The state after a turn, with or without an error.
pub open spec fn turn_over(l: LiveModel, s: SessionModel, error: Option<Seq<char>>) -> LiveModel {
    LiveModel {
        title: messages::title_of(s.snapshot),
        session_id: Some(s.snapshot.session_id),
        session: Some(s),
        active_turn: None,
        status: if error is Some {
            LiveStatus::Error
        } else {
            LiveStatus::WaitingForInput
        },
        last_error: error,
        ..l
    }
}

/// The messages of a turn.
pub open spec fn of_turn(shown: Seq<UiMessageModel>, key: Seq<char>) -> Seq<UiMessageModel>
    decreases shown.len(),
{
    if shown.len() == 0 {
        seq![]
    } else if shown.last().turn_id == key {
        of_turn(shown.drop_last(), key).push(shown.last())
    } else {
        of_turn(shown.drop_last(), key)
    }
}

/// The answer when a turn is over.
pub open spec fn finished_response(l: LiveModel, key: Seq<char>) -> ResponseModel {
    ResponseModel {
        agent_kind: l.agent_kind,
        title: l.title,
        session_id: l.session_id,
        status: l.status.key(),
        last_error: l.last_error,
        new_messages: of_turn(l.ui_messages, key),
        total_message_count: l.ui_messages.len(),
    }
}

/// The state in which the turn under way is marked as cancelled.
pub open spec fn cancel_marked(l: LiveModel) -> LiveModel {
    LiveModel {
        active_turn: match l.active_turn {
            Some(turn) => Some(TurnModel { cancelled: true, ..turn }),
            None => None,
        },
        ..l
    }
}

/// The state after the turn under way was taken back.
pub open spec fn turn_taken_back(l: LiveModel, s: SessionModel) -> LiveModel {
    match l.active_turn {
        Some(turn) => LiveModel {
            ui_messages: l.ui_messages.take(turn.shown as int),
            next_message_index: turn.next_index,
            title: messages::title_of(s.snapshot),
            session_id: Some(s.snapshot.session_id),
            session: Some(s),
            status: LiveStatus::WaitingForInput,
            last_error: None,
            active_turn: None,
            ..l
        },
        None => l,
    }
}

/// What is shown of a session that takes the place of another: it waits for the
/// user, whatever was shown before.
pub open spec fn shown_in_place(s: SnapshotModel, ui: Option<LiveSnapshotModel>) -> ShownModel {
    ShownModel {
        title: messages::title_of(s),
        session_id: Some(s.session_id),
        messages: shown_again(s, ui).messages,
        status: LiveStatus::WaitingForInput,
        last_error: None,
    }
}

/// The session to open when the program starts: the one that was shown last, or
/// the latest one.
pub fn session_to_restore(
    named: Option<ConversationSession>,
    latest: Option<ConversationSession>,
) -> (r: Option<ConversationSession>)
    ensures
        session_view(r) == (if named is Some {
            session_view(named)
        } else {
            session_view(latest)
        }),
{
    match named {
        Some(s) => Some(s),
        None => latest,
    }
}

fn copy_turn(turn: &Option<ActiveTurn>) -> (r: Option<ActiveTurn>)
    ensures
        r.deep_view() == turn.deep_view(),
{
    match turn {
        Some(t) => Some(
            ActiveTurn {
                session_id: t.session_id.clone(),
                turn_id: t.turn_id,
                cancelled: t.cancelled,
                rollback_message_count: t.rollback_message_count,
                rollback_prompt_history_count: t.rollback_prompt_history_count,
                rollback_ui_message_count: t.rollback_ui_message_count,
                rollback_next_message_index: t.rollback_next_message_index,
            },
        ),
        None => None,
    }
}

/// Adds a question to a session; the result is the place to go back to.
pub fn append_prompt_for_turn(session: &mut ConversationSession, prompt: &str, now_ms: Option<u128>) -> (r:
    RollbackPoint)
    ensures
        final(session)@ == session::with_prompt(old(session)@, prompt@, now_ms),
        r.message_count == old(session)@.snapshot.messages.len(),
        r.prompt_history_count == old(session)@.snapshot.prompt_history.len(),
{
    let message_count = session.snapshot().messages.len();
    let prompt_history_count = session.snapshot().prompt_history.len();
    session.append_user_prompt(text::owned(prompt), now_ms);
    RollbackPoint { message_count, prompt_history_count }
}

/// Takes a session back to where it was before a turn.
pub fn roll_back_session(session: &mut ConversationSession, turn: &ActiveTurn, now_ms: Option<u128>)
    ensures
        final(session)@ == session::cut_back(
            old(session)@,
            turn.rollback_message_count,
            turn.rollback_prompt_history_count,
            now_ms,
        ),
{
    session.truncate_to(
        turn.rollback_message_count,
        turn.rollback_prompt_history_count,
        now_ms,
    );
}

impl LiveConversation {
    fn open(agent_kind: AgentKind, session: Option<ConversationSession>, shown: ShownState) -> (r:
        LiveConversation)
        ensures
            r@ == opened(agent_kind, session_view(session), shown.deep_view()),
            r@.consistent(),
    {
        let next_message_index = shown.messages.len();
        LiveConversation {
            agent_kind,
            session,
            title: shown.title,
            session_id: shown.session_id,
            ui_messages: shown.messages,
            next_message_index,
            next_trace_index: 0,
            status: shown.status,
            last_error: shown.last_error,
            active_turn: None,
        }
    }

    /// The state when the program starts, with the session to restore, the last
    /// state that was shown and the record of what was shown of the session.
    pub fn bootstrap(
        agent_kind: AgentKind,
        session: Option<ConversationSession>,
        persisted: Option<LiveSnapshot>,
        ui_snapshot: Option<LiveSnapshot>,
    ) -> (r: LiveConversation)
        ensures
            r@ == opened(
                agent_kind,
                session_view(session),
                shown_at_start(
                    agent_kind,
                    (match session_view(session) {
                        Some(s) => Some(s.snapshot),
                        None => None,
                    }),
                    persisted.deep_view(),
                    ui_snapshot.deep_view(),
                ),
            ),
            r@.consistent(),
    {
        let shown = state_at_start(agent_kind, &session, &persisted, &ui_snapshot);
        Self::open(agent_kind, session, shown)
    }

    /// What is shown of the state.
    pub fn snapshot(&self) -> (r: LiveSnapshot)
        ensures
            r.deep_view() == self@.snapshot(),
    {
        LiveSnapshot {
            agent_kind: self.agent_kind,
            title: self.title.clone(),
            session_id: text::clone_text(&self.session_id),
            status: text::owned(self.status.as_str()),
            last_error: text::clone_text(&self.last_error),
            messages: messages::clone_messages(&self.ui_messages),
        }
    }

    /// Whether a turn is under way.
    pub fn is_busy(&self) -> (r: bool)
        ensures
            r == (self@.status == LiveStatus::Thinking),
    {
        self.status.is_busy()
    }

    /// The place of the next message of a trace.
    pub fn next_trace_index(&self) -> (r: usize)
        ensures
            r == self@.next_trace_index,
    {
        self.next_trace_index
    }

    /// Refuses while a turn is under way.
    pub fn ensure_not_busy(&self) -> (r: Result<(), AppError>)
        ensures
            match r {
                Ok(_) => self@.status != LiveStatus::Thinking,
                Err(e) => self@.status == LiveStatus::Thinking && e.deep_view()
                    == error::conflict_error("agent is still working on the current turn"@),
            },
    {
        if self.status.is_busy() {
            Err(AppError::conflict("agent is still working on the current turn"))
        } else {
            Ok(())
        }
    }

    /// Opens a session that was asked for: `None` is one that does not exist,
    /// which leaves nothing open. Refuses while a turn is under way.
    pub fn select_session(
        &mut self,
        session: Option<ConversationSession>,
        ui_snapshot: Option<LiveSnapshot>,
    ) -> (r: Result<Option<LiveSnapshot>, AppError>)
        ensures
            ({
                let before = old(self)@;
                let after = final(self)@;
                if before.status == LiveStatus::Thinking {
                    &&& after == before
                    &&& r matches Err(e) && e.deep_view() == error::conflict_error(
                        "agent is still working on the current turn"@,
                    )
                } else {
                    &&& after == opened(
                        before.agent_kind,
                        session_view(session),
                        (match session_view(session) {
                            Some(s) => shown_again(s.snapshot, ui_snapshot.deep_view()),
                            None => shown_nothing(before.agent_kind.shown_title()),
                        }),
                    )
                    &&& after.consistent()
                    &&& r is Ok
                    &&& r->Ok_0.deep_view() == (if session is Some {
                        Some(after.snapshot())
                    } else {
                        None
                    })
                }
            }),
    {
        if self.status.is_busy() {
            return Err(AppError::conflict("agent is still working on the current turn"));
        }
        match session {
            Some(s) => {
                let shown = state_again(s.snapshot(), &ui_snapshot);
                *self = Self::open(self.agent_kind, Some(s), shown);
                Ok(Some(self.snapshot()))
            },
            None => {
                *self = Self::open(self.agent_kind, None, empty_state(self.agent_kind));
                Ok(None)
            },
        }
    }

    /// Opens a session that has just been made.
    pub fn reset_to_new_session(&mut self, session: ConversationSession) -> (r: LiveSnapshot)
        ensures
            final(self)@ == opened(
                old(self)@.agent_kind,
                Some(session@),
                shown_fresh(session@.snapshot),
            ),
            final(self)@.consistent(),
            r.deep_view() == final(self)@.snapshot(),
    {
        let shown = session_state_from_snapshot(session.snapshot());
        *self = Self::open(self.agent_kind, Some(session), shown);
        self.snapshot()
    }

    /// Puts a session in the place of the open one.
    pub fn replace_session(
        &mut self,
        session: ConversationSession,
        ui_snapshot: Option<LiveSnapshot>,
    ) -> (r: LiveSnapshot)
        ensures
            final(self)@ == opened(
                old(self)@.agent_kind,
                Some(session@),
                shown_in_place(session@.snapshot, ui_snapshot.deep_view()),
            ),
            final(self)@.consistent(),
            r.deep_view() == final(self)@.snapshot(),
    {
        let again = state_again(session.snapshot(), &ui_snapshot);
        let shown = ShownState {
            title: messages::summary_title(session.snapshot()),
            session_id: Some(session.snapshot().session_id.clone()),
            messages: again.messages,
            status: LiveStatus::WaitingForInput,
            last_error: None,
        };
        *self = Self::open(self.agent_kind, Some(session), shown);
        self.snapshot()
    }

    /// Hands out the open session for a turn; where none is open, one has to be
    /// made. Refuses while a turn is under way.
    pub fn begin_turn(&mut self) -> (r: Result<Option<ConversationSession>, AppError>)
        requires
            old(self)@.consistent(),
        ensures
            final(self)@.consistent(),
            match r {
                Ok(s) => old(self)@.status != LiveStatus::Thinking && final(self)@ == turn_begun(
                    old(self)@,
                ) && session_view(s) == old(self)@.session,
                Err(e) => old(self)@.status == LiveStatus::Thinking && final(self)@ == old(self)@
                    && e.deep_view() == error::conflict_error(
                    "agent is still working on the current turn"@,
                ),
            },
    {
        if self.status.is_busy() {
            return Err(AppError::conflict("agent is still working on the current turn"));
        }
        self.status = LiveStatus::Thinking;
        self.last_error = None;
        let mut session: Option<ConversationSession> = None;
        std::mem::swap(&mut session, &mut self.session);
        Ok(session)
    }

    /// Starts a turn with a session that the question was added to.
    pub fn start_turn(
        &mut self,
        session: &ConversationSession,
        rollback: RollbackPoint,
        prompt: &str,
        turn_id: u64,
        now_ms: u128,
    ) -> (r: LiveSubmitResponse)
        requires
            old(self)@.consistent(),
        ensures
            final(self)@ == turn_running(
                old(self)@,
                session@.snapshot,
                rollback,
                prompt@,
                turn_id,
                now_ms,
            ),
            final(self)@.consistent(),
            r.deep_view() == started_response(
                final(self)@,
                session@.snapshot,
                old(self)@.ui_messages.len(),
            ),
    {
        let ghost before = self@;
        let snapshot = session.snapshot();
        let shown_before: usize = self.ui_messages.len();
        self.title = messages::summary_title(snapshot);
        self.session_id = Some(snapshot.session_id.clone());
        self.active_turn = Some(
            ActiveTurn {
                session_id: snapshot.session_id.clone(),
                turn_id,
                cancelled: false,
                rollback_message_count: rollback.message_count,
                rollback_prompt_history_count: rollback.prompt_history_count,
                rollback_ui_message_count: shown_before,
                rollback_next_message_index: self.next_message_index,
            },
        );
        let mut new_messages: Vec<UiMessage> = Vec::new();
        if !messages::is_internal_seed_message(prompt) {
            let question = messages::base_ui_message(
                UiMessageInput {
                    session_id: snapshot.session_id.as_str(),
                    index: self.next_message_index,
                    role: "user",
                    kind: "user",
                    content: text::owned(prompt),
                    created_at: now_ms,
                    tool_name: None,
                    tool_args: None,
                    tool_output: None,
                    turn_id,
                },
            );
            let ghost model = question.deep_view();
            new_messages.push(question.clone());
            self.ui_messages.push(question);
            self.next_message_index = self.ui_messages.len();
            proof {
                assert(self.ui_messages.deep_view() =~= before.ui_messages + seq![model]);
                assert(new_messages.deep_view() =~= seq![model]);
            }
        } else {
            proof {
                assert(self.ui_messages.deep_view() =~= before.ui_messages + seq![]);
                assert(new_messages.deep_view() =~= seq![]);
            }
        }
        assert(self@.ui_messages.skip(before.ui_messages.len() as int)
            =~= new_messages.deep_view());
        LiveSubmitResponse {
            agent_kind: self.agent_kind,
            title: self.title.clone(),
            session_id: Some(snapshot.session_id.clone()),
            status: text::owned(LiveStatus::Thinking.as_str()),
            last_error: None,
            new_messages,
            total_message_count: self.ui_messages.len(),
        }
    }

    fn runs(&self, session_id: &str, turn_id: u64) -> (r: bool)
        ensures
            r == self@.runs_turn(session_id@, turn_id),
    {
        match &self.active_turn {
            Some(turn) => text::same_text(turn.session_id.as_str(), session_id) && turn.turn_id
                == turn_id,
            None => false,
        }
    }

    /// Whether the given turn is under way and was not cancelled.
    pub fn is_active_turn(&self, session_id: &str, turn_id: u64) -> (r: bool)
        ensures
            r == self@.listens_to(session_id@, turn_id),
    {
        match &self.active_turn {
            Some(turn) => text::same_text(turn.session_id.as_str(), session_id) && turn.turn_id
                == turn_id && !turn.cancelled,
            None => false,
        }
    }

    /// Adds a message of a turn, unless that turn is over or cancelled.
    pub fn append_visible_message(
        &mut self,
        session_id: &str,
        turn_id: u64,
        pending: PendingUiMessage,
    ) -> (r: Option<UiMessage>)
        requires
            old(self)@.consistent(),
        ensures
            final(self)@.consistent(),
            ({
                let m = placed_message(
                    pending.deep_view(),
                    session_id@,
                    old(self)@.next_message_index,
                    turn_id,
                );
                if old(self)@.listens_to(session_id@, turn_id) {
                    final(self)@ == message_shown(old(self)@, m) && r.deep_view() == Some(m)
                } else {
                    final(self)@ == old(self)@ && r is None
                }
            }),
    {
        if !self.is_active_turn(session_id, turn_id) {
            return None;
        }
        let ghost before = self@;
        let message = messages::base_ui_message(
            UiMessageInput {
                session_id,
                index: self.next_message_index,
                role: pending.role.as_str(),
                kind: pending.kind.as_str(),
                content: pending.content,
                created_at: pending.created_at,
                tool_name: pending.tool_name,
                tool_args: pending.tool_args,
                tool_output: pending.tool_output,
                turn_id,
            },
        );
        let ghost model = message.deep_view();
        self.ui_messages.push(message.clone());
        self.next_message_index = self.ui_messages.len();
        assert(self.ui_messages.deep_view() =~= before.ui_messages.push(model));
        Some(message)
    }

    /// The next message of a turn's trace, unless that turn is over or
    /// cancelled.
    pub fn append_trace_message(
        &mut self,
        session_id: &str,
        turn_id: u64,
        pending: PendingUiMessage,
    ) -> (r: Option<UiMessage>)
        requires
            old(self)@.consistent(),
            old(self)@.next_trace_index < usize::MAX,
        ensures
            final(self)@.consistent(),
            if old(self)@.listens_to(session_id@, turn_id) {
                &&& final(self)@ == (LiveModel {
                    next_trace_index: old(self)@.next_trace_index + 1,
                    ..old(self)@
                })
                &&& r.deep_view() == Some(
                    messages::trace_message(
                        placed_message(
                            pending.deep_view(),
                            session_id@,
                            old(self)@.next_trace_index,
                            turn_id,
                        ),
                        session_id@,
                        turn_id as nat,
                        old(self)@.next_trace_index,
                    ),
                )
            } else {
                final(self)@ == old(self)@ && r is None
            },
    {
        if !self.is_active_turn(session_id, turn_id) {
            return None;
        }
        let message = messages::base_trace_message(
            UiMessageInput {
                session_id,
                index: self.next_trace_index,
                role: pending.role.as_str(),
                kind: pending.kind.as_str(),
                content: pending.content,
                created_at: pending.created_at,
                tool_name: pending.tool_name,
                tool_args: pending.tool_args,
                tool_output: pending.tool_output,
                turn_id,
            },
        );
        self.next_trace_index = self.next_trace_index + 1;
        Some(message)
    }

    fn messages_of_turn(&self, key: &str) -> (r: Vec<UiMessage>)
        ensures
            r.deep_view() == of_turn(self@.ui_messages, key@),
    {
        let ghost all = self@.ui_messages;
        let mut r: Vec<UiMessage> = Vec::new();
        let mut i: usize = 0;
        proof {
            assert(all.take(0) =~= seq![]);
            assert(r.deep_view() =~= seq![]);
        }
        while i < self.ui_messages.len()
            invariant
                i <= self.ui_messages@.len(),
                all == self.ui_messages.deep_view(),
                r.deep_view() == of_turn(all.take(i as int), key@),
            decreases self.ui_messages@.len() - i,
        {
            let ghost before = r.deep_view();
            proof {
                assert(all.take(i + 1).drop_last() =~= all.take(i as int));
                assert(all.take(i + 1).last() == self.ui_messages@[i as int].deep_view());
            }
            if text::same_text(self.ui_messages[i].turn_id.as_str(), key) {
                r.push(self.ui_messages[i].clone());
                assert(r.deep_view() =~= before.push(all[i as int]));
            }
            i = i + 1;
        }
        assert(all.take(all.len() as int) =~= all);
        r
    }

    /// Ends a turn, unless it is over or cancelled. The session is open again,
    /// and an error is kept until the next turn.
    pub fn finish_turn(
        &mut self,
        session: ConversationSession,
        session_id: &str,
        turn_id: u64,
        error_text: Option<String>,
    ) -> (r: Option<LiveSubmitResponse>)
        requires
            old(self)@.consistent(),
        ensures
            final(self)@.consistent(),
            if old(self)@.listens_to(session_id@, turn_id) {
                &&& final(self)@ == turn_over(old(self)@, session@, error_text.deep_view())
                &&& r.deep_view() == Some(
                    finished_response(
                        final(self)@,
                        messages::turn_key(session_id@, turn_id as nat),
                    ),
                )
            } else {
                final(self)@ == old(self)@ && r is None
            },
    {
        if !self.is_active_turn(session_id, turn_id) {
            return None;
        }
        self.title = messages::summary_title(session.snapshot());
        self.session_id = Some(session.snapshot().session_id.clone());
        self.session = Some(session);
        self.active_turn = None;
        self.status = if error_text.is_some() {
            LiveStatus::Error
        } else {
            LiveStatus::WaitingForInput
        };
        self.last_error = error_text;
        let key = messages::turn_key_of(session_id, turn_id);
        let new_messages = self.messages_of_turn(key.as_str());
        Some(
            LiveSubmitResponse {
                agent_kind: self.agent_kind,
                title: self.title.clone(),
                session_id: text::clone_text(&self.session_id),
                status: text::owned(self.status.as_str()),
                last_error: text::clone_text(&self.last_error),
                new_messages,
                total_message_count: self.ui_messages.len(),
            },
        )
    }

    /// Marks the turn under way as cancelled, so that nothing is added to it any
    /// more; the result is that turn.
    pub fn begin_cancel(&mut self) -> (r: Result<ActiveTurn, AppError>)
        requires
            old(self)@.consistent(),
        ensures
            final(self)@ == cancel_marked(old(self)@),
            final(self)@.consistent(),
            match r {
                Ok(turn) => final(self)@.active_turn == Some(turn.deep_view()),
                Err(e) => old(self)@.active_turn is None && e.deep_view() == error::conflict_error(
                    "no active turn to cancel"@,
                ),
            },
    {
        match copy_turn(&self.active_turn) {
            Some(turn) => {
                let mut marked = turn;
                marked.cancelled = true;
                let result = ActiveTurn {
                    session_id: marked.session_id.clone(),
                    turn_id: marked.turn_id,
                    cancelled: marked.cancelled,
                    rollback_message_count: marked.rollback_message_count,
                    rollback_prompt_history_count: marked.rollback_prompt_history_count,
                    rollback_ui_message_count: marked.rollback_ui_message_count,
                    rollback_next_message_index: marked.rollback_next_message_index,
                };
                self.active_turn = Some(marked);
                Ok(result)
            },
            None => Err(AppError::conflict("no active turn to cancel")),
        }
    }

    /// Takes the given turn back with the session as it was before, unless
    /// another turn is under way by now.
    pub fn finish_cancel(
        &mut self,
        session: ConversationSession,
        session_id: &str,
        turn_id: u64,
    ) -> (r: LiveSnapshot)
        requires
            old(self)@.consistent(),
        ensures
            final(self)@ == (if old(self)@.runs_turn(session_id@, turn_id) {
                turn_taken_back(old(self)@, session@)
            } else {
                old(self)@
            }),
            final(self)@.consistent(),
            r.deep_view() == final(self)@.snapshot(),
    {
        if !self.runs(session_id, turn_id) {
            return self.snapshot();
        }
        let ghost before = self@;
        match copy_turn(&self.active_turn) {
            Some(turn) => {
                self.ui_messages.truncate(turn.rollback_ui_message_count);
                assert(self.ui_messages.deep_view() =~= before.ui_messages.take(
                    turn.rollback_ui_message_count as int,
                ));
                self.next_message_index = turn.rollback_next_message_index;
                self.title = messages::summary_title(session.snapshot());
                self.session_id = Some(session.snapshot().session_id.clone());
                self.session = Some(session);
                self.status = LiveStatus::WaitingForInput;
                self.last_error = None;
                self.active_turn = None;
            },
            None => {},
        }
        self.snapshot()
    }
}

/// What was kept of a conversation is shown again when its session is opened
/// anew, and so is what was kept while there was no session.
pub proof fn lemma_kept_conversation_is_shown_again(l: LiveModel, session: SessionModel)
    ensures
        ({
            let last = kept(l.snapshot());
            let again = shown_at_start(
                l.agent_kind,
                Some(session.snapshot),
                Some(last),
                Some(last),
            );
            let without = shown_at_start(l.agent_kind, None, Some(last), None);
            &&& l.session_id == Some(session.snapshot.session_id) ==> opened(
                l.agent_kind,
                Some(session),
                again,
            ).snapshot() == last
            &&& l.session_id is None ==> opened(l.agent_kind, None, without).snapshot() == last
        }),
{
    lemma_status_is_read_back(l.status);
    messages::lemma_visible_is_visible(l.ui_messages);
}

/// Adding messages one after another.
pub open spec fn messages_shown(l: LiveModel, added: Seq<UiMessageModel>) -> LiveModel
    decreases added.len(),
{
    if added.len() == 0 {
        l
    } else {
        message_shown(messages_shown(l, added.drop_last()), added.last())
    }
}

proof fn lemma_messages_shown(l: LiveModel, added: Seq<UiMessageModel>)
    ensures
        messages_shown(l, added).ui_messages == l.ui_messages + added,
        messages_shown(l, added).active_turn == l.active_turn,
        messages_shown(l, added) == (LiveModel {
            ui_messages: l.ui_messages + added,
            next_message_index: l.next_message_index + added.len(),
            ..l
        }),
    decreases added.len(),
{
    if added.len() > 0 {
        lemma_messages_shown(l, added.drop_last());
        assert((l.ui_messages + added.drop_last()).push(added.last()) =~= l.ui_messages + added);
    } else {
        assert(l.ui_messages + added =~= l.ui_messages);
    }
}

/// A turn that is cancelled leaves nothing behind: what is shown, and the place
/// of the next message, are as before the turn, whatever was added to it.
pub proof fn lemma_cancel_undoes_turn(
    l: LiveModel,
    asked: SnapshotModel,
    rollback: RollbackPoint,
    prompt: Seq<char>,
    turn_id: u64,
    now_ms: u128,
    added: Seq<UiMessageModel>,
    restored: SessionModel,
)
    requires
        l.consistent(),
    ensures
        ({
            let running = turn_running(turn_begun(l), asked, rollback, prompt, turn_id, now_ms);
            let over = turn_taken_back(cancel_marked(messages_shown(running, added)), restored);
            &&& over.ui_messages == l.ui_messages
            &&& over.next_message_index == l.next_message_index
            &&& over.session == Some(restored)
            &&& over.status == LiveStatus::WaitingForInput
            &&& over.active_turn is None
            &&& over.last_error is None
            &&& over.next_trace_index == l.next_trace_index
        }),
{
    let running = turn_running(turn_begun(l), asked, rollback, prompt, turn_id, now_ms);
    lemma_messages_shown(running, added);
    let marked = cancel_marked(messages_shown(running, added));
    assert(marked.ui_messages.take(l.ui_messages.len() as int) =~= l.ui_messages);
}

/// Once a turn is cancelled nothing more is added to it, and it does not end
/// either: neither its messages nor its result reach the conversation.
pub proof fn lemma_cancelled_turn_is_deaf(l: LiveModel, session_id: Seq<char>, turn_id: u64)
    ensures
        !cancel_marked(l).listens_to(session_id, turn_id),
{
}

/// A turn that is over is not busy: the next question is accepted.
pub proof fn lemma_turn_over_accepts_next(
    l: LiveModel,
    s: SessionModel,
    error: Option<Seq<char>>,
)
    ensures
        turn_over(l, s, error).status != LiveStatus::Thinking,
        turn_over(l, s, error).active_turn is None,
        turn_over(l, s, error).session == Some(s),
{
}

/// A question is shown at once, behind what was shown before, and is told to
/// whoever asked it; a prompt of the program is not shown. The turn is the one
/// that is under way, and knows how to be taken back.
pub proof fn lemma_question_starts_turn(
    l: LiveModel,
    s: SnapshotModel,
    rollback: RollbackPoint,
    prompt: Seq<char>,
    turn_id: u64,
    now_ms: u128,
)
    requires
        l.consistent(),
    ensures
        ({
            let running = turn_running(l, s, rollback, prompt, turn_id, now_ms);
            let told = started_response(running, s, l.ui_messages.len());
            &&& running.ui_messages.take(l.ui_messages.len() as int) == l.ui_messages
            &&& !messages::is_seed(prompt) ==> {
                &&& running.ui_messages.len() == l.ui_messages.len() + 1
                &&& running.ui_messages.last().role == "user"@
                &&& running.ui_messages.last().content == prompt
                &&& running.ui_messages.last().turn_id == messages::turn_key(
                    s.session_id,
                    turn_id as nat,
                )
                &&& told.new_messages == seq![running.ui_messages.last()]
            }
            &&& messages::is_seed(prompt) ==> running.ui_messages == l.ui_messages
                && told.new_messages.len() == 0
            &&& told.total_message_count == running.ui_messages.len()
            &&& told.status == "thinking"@
            &&& running.listens_to(s.session_id, turn_id)
            &&& running.active_turn->0.messages == rollback.message_count
            &&& running.active_turn->0.prompts == rollback.prompt_history_count
            &&& running.session_id == Some(s.session_id)
            &&& running.consistent()
        }),
{
    let running = turn_running(l, s, rollback, prompt, turn_id, now_ms);
    let told = started_response(running, s, l.ui_messages.len());
    assert(running.ui_messages.take(l.ui_messages.len() as int) =~= l.ui_messages);
    if messages::is_seed(prompt) {
        assert(running.ui_messages =~= l.ui_messages);
    } else {
        assert(told.new_messages =~= seq![running.ui_messages.last()]);
    }
}

/// Only the turn under way is listened to: one of another session, another turn
/// of the same session, or any while none is under way, is not.
pub proof fn lemma_only_own_turn_is_heard(l: LiveModel, session_id: Seq<char>, turn_id: u64)
    ensures
        l.active_turn is None ==> !l.listens_to(session_id, turn_id),
        l.active_turn is Some && l.active_turn->0.session_id != session_id ==> !l.listens_to(
            session_id,
            turn_id,
        ),
        l.active_turn is Some && l.active_turn->0.turn_id != turn_id ==> !l.listens_to(
            session_id,
            turn_id,
        ),
        l.active_turn is Some && !l.active_turn->0.cancelled ==> l.listens_to(
            l.active_turn->0.session_id,
            l.active_turn->0.turn_id,
        ),
{
}

/// A turn that went wrong is shown as an error, with what went wrong; one that
/// did not waits for the next question. What was said in it stays shown.
pub proof fn lemma_turn_ends(l: LiveModel, s: SessionModel, error: Option<Seq<char>>)
    ensures
        ({
            let over = turn_over(l, s, error);
            &&& error is Some ==> over.status == LiveStatus::Error
            &&& error is None ==> over.status == LiveStatus::WaitingForInput
            &&& over.last_error == error
            &&& over.ui_messages == l.ui_messages
            &&& over.next_message_index == l.next_message_index
            &&& over.session_id == Some(s.snapshot.session_id)
        }),
{
}

/// Whoever asked is told, at the end of a turn, the messages of that turn and no
/// others, in order.
pub proof fn lemma_messages_of_turn(
    shown: Seq<UiMessageModel>,
    m: UiMessageModel,
    key: Seq<char>,
)
    ensures
        m.turn_id == key ==> of_turn(shown.push(m), key) == of_turn(shown, key).push(m),
        m.turn_id != key ==> of_turn(shown.push(m), key) == of_turn(shown, key),
        of_turn(seq![], key).len() == 0,
{
    assert(shown.push(m).drop_last() =~= shown);
}

/// At the end of a turn its messages, the state and the error are told.
pub proof fn lemma_end_of_turn_is_told(l: LiveModel, key: Seq<char>)
    ensures
        finished_response(l, key).new_messages == of_turn(l.ui_messages, key),
        finished_response(l, key).total_message_count == l.ui_messages.len(),
        finished_response(l, key).last_error == l.last_error,
        finished_response(l, key).session_id == l.session_id,
        l.status == LiveStatus::Error ==> finished_response(l, key).status == "error"@,
        l.status == LiveStatus::WaitingForInput ==> finished_response(l, key).status
            == "waiting_for_input"@,
{
}

/// A message that is added stands behind the others, and is placed under its
/// number and its turn with what it says.
pub proof fn lemma_message_is_placed(
    l: LiveModel,
    p: PendingModel,
    session_id: Seq<char>,
    turn_id: u64,
)
    requires
        l.consistent(),
    ensures
        ({
            let m = placed_message(p, session_id, l.next_message_index, turn_id);
            let after = message_shown(l, m);
            &&& after.ui_messages.drop_last() == l.ui_messages
            &&& after.ui_messages.last() == m
            &&& after.next_message_index == l.next_message_index + 1
            &&& m.role == p.role
            &&& m.kind == p.kind
            &&& m.content == p.content
            &&& m.created_at == p.created_at
            &&& m.tool_name == p.tool_name
            &&& m.tool_args == p.tool_args
            &&& m.tool_output == p.tool_output
            &&& m.turn_id == messages::turn_key(session_id, turn_id as nat)
            &&& after.consistent()
        }),
{
    let m = placed_message(p, session_id, l.next_message_index, turn_id);
    assert(message_shown(l, m).ui_messages.drop_last() =~= l.ui_messages);
}

/// A session that is opened without anything kept of it shows what was said in
/// it, and waits for a question; without a session and anything kept nothing is
/// shown.
pub proof fn lemma_opened_session_is_shown(
    agent_kind: AgentKind,
    s: SnapshotModel,
    last: LiveSnapshotModel,
)
    ensures
        ({
            let fresh = shown_at_start(agent_kind, Some(s), None, None);
            let nothing = shown_at_start(agent_kind, None, None, None);
            &&& fresh.messages == messages::flattened(
                s.session_id,
                s.messages,
                0,
                s.updated_at_unix_ms,
            )
            &&& fresh.session_id == Some(s.session_id)
            &&& fresh.status == LiveStatus::WaitingForInput
            &&& fresh.title == messages::title_of(s)
            &&& nothing.messages.len() == 0
            &&& nothing.session_id is None
            &&& nothing.status == LiveStatus::Idle
            &&& last.session_id is Some && last.session_id != Some(s.session_id)
                ==> shown_at_start(agent_kind, Some(s), Some(last), None) == fresh
            &&& last.session_id is Some ==> shown_at_start(agent_kind, None, Some(last), None)
                == nothing
        }),
{
}

/// What was kept of a session is shown again in the place of what was said in it,
/// the messages that are visible and no others.
pub proof fn lemma_kept_messages_are_shown(s: SnapshotModel, ui: LiveSnapshotModel)
    ensures
        shown_again(s, Some(ui)).messages == messages::visible(ui.messages),
        shown_again(s, Some(ui)).title == ui.title,
        shown_again(s, None).messages == messages::flattened(
            s.session_id,
            s.messages,
            0,
            s.updated_at_unix_ms,
        ),
        shown_in_place(s, Some(ui)).messages == messages::visible(ui.messages),
        shown_in_place(s, Some(ui)).session_id == Some(s.session_id),
        shown_in_place(s, Some(ui)).status == LiveStatus::WaitingForInput,
        shown_in_place(s, Some(ui)).title == messages::title_of(s),
        shown_in_place(s, None).messages == shown_again(s, None).messages,
{
}

/// What is shown of a session at the start is what was kept of that session,
/// whatever else was shown last; without it, what was said in it.
pub proof fn lemma_session_is_shown_at_start(
    agent_kind: AgentKind,
    s: SnapshotModel,
    last: Option<LiveSnapshotModel>,
    ui: LiveSnapshotModel,
)
    ensures
        shown_at_start(agent_kind, Some(s), last, Some(ui)).messages == messages::visible(
            ui.messages,
        ),
        shown_at_start(agent_kind, Some(s), last, None).messages == messages::flattened(
            s.session_id,
            s.messages,
            0,
            s.updated_at_unix_ms,
        ),
        shown_at_start(agent_kind, None, None, Some(ui)).messages.len() == 0,
        shown_at_start(agent_kind, None, None, Some(ui)).title == agent_kind.shown_title(),
        forall|l: LiveSnapshotModel|
            last == Some(l) && l.session_id == Some(s.session_id) ==> {
                let shown = #[trigger] shown_at_start(agent_kind, Some(s), Some(l), Some(ui));
                shown.title == l.title && shown.last_error == l.last_error && shown.status
                    == status_of_key(l.status)
            },
{
}

} // verus!
