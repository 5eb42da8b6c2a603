//! Conversations: what is said, what was asked, and the file that keeps it.
use crate::agents::AgentKind;
use crate::json;
use crate::json::{Json, JsonModel};
use crate::keyed;
use crate::llm::usage;
use crate::llm::usage::PromptCacheStats;
use crate::paths;
use crate::text;
use vstd::prelude::*;

verus! {

/// The form in which sessions are kept.
pub const SESSION_SCHEMA_VERSION: u32 = 1;

/// Everything that is kept of a conversation.
#[derive(Debug)]
pub struct ConversationSessionSnapshot {
    pub schema_version: u32,
    pub agent_kind: AgentKind,
    pub session_id: String,
    pub created_at_unix_ms: u128,
    pub updated_at_unix_ms: u128,
    pub prompt_history: Vec<String>,
    pub messages: Vec<Json>,
    pub prompt_cache_stats: PromptCacheStats,
}

/// Everything that is kept of a conversation.
#[verifier::ext_equal]
pub struct SnapshotModel {
    pub schema_version: u32,
    pub agent_kind: AgentKind,
    pub session_id: Seq<char>,
    pub created_at_unix_ms: u128,
    pub updated_at_unix_ms: u128,
    pub prompt_history: Seq<Seq<char>>,
    pub messages: Seq<JsonModel>,
    pub prompt_cache_stats: PromptCacheStats,
}

impl DeepView for ConversationSessionSnapshot {
    type V = SnapshotModel;

    open spec fn deep_view(&self) -> SnapshotModel {
        SnapshotModel {
            schema_version: self.schema_version,
            agent_kind: self.agent_kind,
            session_id: self.session_id@,
            created_at_unix_ms: self.created_at_unix_ms,
            updated_at_unix_ms: self.updated_at_unix_ms,
            prompt_history: self.prompt_history.deep_view(),
            messages: self.messages.deep_view(),
            prompt_cache_stats: self.prompt_cache_stats,
        }
    }
}

/// Copies of strings.
pub fn clone_strings(v: &Vec<String>) -> (r: Vec<String>)
    ensures
        r.deep_view() == v.deep_view(),
{
    let ghost all = v.deep_view();
    let mut r: Vec<String> = Vec::new();
    let mut i: usize = 0;
    assert(r.deep_view() =~= all.take(0));
    while i < v.len()
        invariant
            i <= v@.len(),
            all == v.deep_view(),
            r.deep_view() == all.take(i as int),
        decreases v@.len() - i,
    {
        let ghost before = r.deep_view();
        let copy = v[i].clone();
        r.push(copy);
        assert(r.deep_view() =~= before.push(copy@));
        assert(all.take(i + 1) =~= all.take(i as int).push(all[i as int]));
        i = i + 1;
    }
    assert(all.take(all.len() as int) =~= all);
    r
}

impl Clone for ConversationSessionSnapshot {
    fn clone(&self) -> (r: ConversationSessionSnapshot)
        ensures
            r.deep_view() == self.deep_view(),
    {
        let messages = json::clone_range(&self.messages, 0, self.messages.len());
        assert(messages.deep_view() =~= self.messages.deep_view());
        ConversationSessionSnapshot {
            schema_version: self.schema_version,
            agent_kind: self.agent_kind,
            session_id: self.session_id.clone(),
            created_at_unix_ms: self.created_at_unix_ms,
            updated_at_unix_ms: self.updated_at_unix_ms,
            prompt_history: clone_strings(&self.prompt_history),
            messages,
            prompt_cache_stats: self.prompt_cache_stats.clone(),
        }
    }
}

/// A conversation and the file that keeps it.
#[derive(Debug)]
pub struct ConversationSession {
    snapshot: ConversationSessionSnapshot,
    session_path: String,
}

/// A conversation and the file that keeps it.
#[verifier::ext_equal]
pub struct SessionModel {
    pub snapshot: SnapshotModel,
    pub path: Seq<char>,
}

impl View for ConversationSession {
    type V = SessionModel;

    closed spec fn view(&self) -> SessionModel {
        SessionModel { snapshot: self.snapshot.deep_view(), path: self.session_path@ }
    }
}

/// A message with a role and a text.
pub open spec fn text_message(role: Seq<char>, content: Seq<char>) -> JsonModel {
    JsonModel::empty_object().with("role"@, JsonModel::Text(role)).with(
        "content"@,
        JsonModel::Text(content),
    )
}

/// The role and the text of a message are found in it.
pub proof fn lemma_text_message(role: Seq<char>, content: Seq<char>)
    ensures
        text_message(role, content).text_at("role"@) == Some(role),
        text_message(role, content).text_at("content"@) == Some(content),
{
    reveal_strlit("role");
    reveal_strlit("content");
    let none = Seq::<(Seq<char>, JsonModel)>::empty();
    let one = keyed::with_entry(none, "role"@, JsonModel::Text(role));
    assert("role"@.len() != "content"@.len());
    assert(none =~= seq![]);
    keyed::lemma_with_entry_order(none, "role"@, JsonModel::Text(role));
    keyed::lemma_entry_of_with_entry(none, "role"@, JsonModel::Text(role), "role"@);
    keyed::lemma_entry_of_with_entry(one, "content"@, JsonModel::Text(content), "role"@);
    keyed::lemma_entry_of_with_entry(one, "content"@, JsonModel::Text(content), "content"@);
}

/// A message with a role and a text.
pub fn new_text_message(role: &str, content: &str) -> (r: Json)
    ensures
        r@ == text_message(role@, content@),
{
    Json::empty_object().with("role", Json::text(role)).with("content", Json::text(content))
}

/// The file of a session: below the directory of its agent.
pub open spec fn session_file(
    transcript_dir: Seq<char>,
    agent_kind: AgentKind,
    session_id: Seq<char>,
) -> Seq<char> {
    paths::path_joined(
        paths::path_joined(
            paths::path_joined(transcript_dir, agent_kind.key()),
            "sessions"@,
        ),
        session_id + ".json"@,
    )
}

/// The file of a session.
pub fn session_snapshot_path(
    transcript_dir: &str,
    agent_kind: AgentKind,
    session_id: &str,
) -> (r: String)
    ensures
        r@ == session_file(transcript_dir@, agent_kind, session_id@),
{
    let agent_dir = paths::path_join(transcript_dir, agent_kind.as_str());
    let dir = paths::path_join(agent_dir.as_str(), "sessions");
    let name = text::concat(session_id, ".json");
    paths::path_join(dir.as_str(), name.as_str())
}

/// A session that starts at the given time.
pub open spec fn fresh_session(
    agent_kind: AgentKind,
    session_id: Seq<char>,
    messages: Seq<JsonModel>,
    prompt_history: Seq<Seq<char>>,
    transcript_dir: Seq<char>,
    now_ms: u128,
) -> SessionModel {
    SessionModel {
        snapshot: SnapshotModel {
            schema_version: SESSION_SCHEMA_VERSION,
            agent_kind,
            session_id,
            created_at_unix_ms: now_ms,
            updated_at_unix_ms: now_ms,
            prompt_history,
            messages,
            prompt_cache_stats: usage::no_calls(),
        },
        path: session_file(transcript_dir, agent_kind, session_id),
    }
}

/// The id of a session that starts at the given time.
pub open spec fn session_id_at(now_ms: u128) -> Seq<char> {
    "session_"@ + text::decimal(now_ms as nat)
}

/// The time of a change, if the clock gives one.
pub open spec fn touched(before: u128, now_ms: Option<u128>) -> u128 {
    match now_ms {
        Some(t) => t,
        None => before,
    }
}

/// A session with one more question of the user.
pub open spec fn with_prompt(s: SessionModel, prompt: Seq<char>, now_ms: Option<u128>) -> SessionModel {
    SessionModel {
        snapshot: SnapshotModel {
            prompt_history: s.snapshot.prompt_history.push(prompt),
            messages: s.snapshot.messages.push(text_message("user"@, prompt)),
            updated_at_unix_ms: touched(s.snapshot.updated_at_unix_ms, now_ms),
            ..s.snapshot
        },
        ..s
    }
}

/// The first items, or all of them where there are no more.
pub open spec fn first_items<A>(s: Seq<A>, count: usize) -> Seq<A> {
    if s.len() <= count {
        s
    } else {
        s.take(count as int)
    }
}

/// A session cut back to a number of messages and a number of questions.
pub open spec fn cut_back(
    s: SessionModel,
    message_count: usize,
    prompt_history_count: usize,
    now_ms: Option<u128>,
) -> SessionModel {
    SessionModel {
        snapshot: SnapshotModel {
            prompt_history: first_items(s.snapshot.prompt_history, prompt_history_count),
            messages: first_items(s.snapshot.messages, message_count),
            updated_at_unix_ms: touched(s.snapshot.updated_at_unix_ms, now_ms),
            ..s.snapshot
        },
        ..s
    }
}

/// The session that was kept in a file, or why it is not accepted.
pub open spec fn loaded(snapshot: SnapshotModel, path: Seq<char>) -> Result<
    SessionModel,
    Seq<char>,
> {
    if snapshot.schema_version == SESSION_SCHEMA_VERSION {
        Ok(SessionModel { snapshot, path })
    } else {
        Err(
            "unsupported session schema version "@ + text::decimal(snapshot.schema_version as nat)
                + " in "@ + path,
        )
    }
}

impl ConversationSession {
    /// A session that starts with a question of the user.
    pub fn new(
        agent_kind: AgentKind,
        initial_prompt: String,
        system_prompt: &str,
        transcript_dir: &str,
        now_ms: u128,
    ) -> (r: ConversationSession)
        ensures
            r@ == fresh_session(
                agent_kind,
                session_id_at(now_ms),
                seq![
                    text_message("system"@, system_prompt@),
                    text_message("user"@, initial_prompt@),
                ],
                seq![initial_prompt@],
                transcript_dir@,
                now_ms,
            ),
    {
        let mut messages: Vec<Json> = Vec::new();
        messages.push(new_text_message("system", system_prompt));
        messages.push(new_text_message("user", initial_prompt.as_str()));
        assert(messages.deep_view() =~= seq![
            text_message("system"@, system_prompt@),
            text_message("user"@, initial_prompt@),
        ]);
        let ghost prompt = initial_prompt@;
        let mut prompt_history: Vec<String> = Vec::new();
        prompt_history.push(initial_prompt);
        assert(prompt_history.deep_view() =~= seq![prompt]);
        Self::new_with_messages(agent_kind, messages, prompt_history, transcript_dir, now_ms)
    }

    /// A session in which nothing has been asked yet.
    pub fn new_empty(
        agent_kind: AgentKind,
        system_prompt: &str,
        transcript_dir: &str,
        now_ms: u128,
    ) -> (r: ConversationSession)
        ensures
            r@ == fresh_session(
                agent_kind,
                session_id_at(now_ms),
                seq![text_message("system"@, system_prompt@)],
                seq![],
                transcript_dir@,
                now_ms,
            ),
    {
        let mut messages: Vec<Json> = Vec::new();
        messages.push(new_text_message("system", system_prompt));
        assert(messages.deep_view() =~= seq![text_message("system"@, system_prompt@)]);
        let prompt_history: Vec<String> = Vec::new();
        assert(prompt_history.deep_view() =~= seq![]);
        Self::new_with_messages(agent_kind, messages, prompt_history, transcript_dir, now_ms)
    }

    /// A session with the given messages, named after the time it starts at.
    pub fn new_with_messages(
        agent_kind: AgentKind,
        messages: Vec<Json>,
        prompt_history: Vec<String>,
        transcript_dir: &str,
        now_ms: u128,
    ) -> (r: ConversationSession)
        ensures
            r@ == fresh_session(
                agent_kind,
                session_id_at(now_ms),
                messages.deep_view(),
                prompt_history.deep_view(),
                transcript_dir@,
                now_ms,
            ),
    {
        let number = text::decimal_of(now_ms);
        let session_id = text::concat("session_", number.as_str());
        Self::new_with_session_id(
            agent_kind,
            session_id,
            messages,
            prompt_history,
            transcript_dir,
            now_ms,
        )
    }

    /// A session with the given id and messages.
    pub fn new_with_session_id(
        agent_kind: AgentKind,
        session_id: String,
        messages: Vec<Json>,
        prompt_history: Vec<String>,
        transcript_dir: &str,
        now_ms: u128,
    ) -> (r: ConversationSession)
        ensures
            r@ == fresh_session(
                agent_kind,
                session_id@,
                messages.deep_view(),
                prompt_history.deep_view(),
                transcript_dir@,
                now_ms,
            ),
    {
        let session_path = session_snapshot_path(transcript_dir, agent_kind, session_id.as_str());
        ConversationSession {
            snapshot: ConversationSessionSnapshot {
                schema_version: SESSION_SCHEMA_VERSION,
                agent_kind,
                session_id,
                created_at_unix_ms: now_ms,
                updated_at_unix_ms: now_ms,
                prompt_history,
                messages,
                prompt_cache_stats: PromptCacheStats::default(),
            },
            session_path,
        }
    }

    /// The session that was kept in a file. Only the present form is accepted.
    pub fn load(snapshot: ConversationSessionSnapshot, session_path: &str) -> (r: Result<
        ConversationSession,
        String,
    >)
        ensures
            match r {
                Ok(s) => loaded(snapshot.deep_view(), session_path@) == Ok::<
                    SessionModel,
                    Seq<char>,
                >(s@),
                Err(e) => loaded(snapshot.deep_view(), session_path@) == Err::<
                    SessionModel,
                    Seq<char>,
                >(e@),
            },
    {
        if snapshot.schema_version != SESSION_SCHEMA_VERSION {
            let number = text::decimal_of(snapshot.schema_version as u128);
            let mut e = text::concat3(
                "unsupported session schema version ",
                number.as_str(),
                " in ",
            );
            e.append(session_path);
            return Err(e);
        }
        Ok(ConversationSession { snapshot, session_path: text::owned(session_path) })
    }

    /// The messages and the totals, to be changed in place.
    pub fn messages_and_prompt_cache_stats_mut(&mut self) -> (r: (
        &mut Vec<Json>,
        &mut PromptCacheStats,
    ))
        ensures
            r.0.deep_view() == old(self)@.snapshot.messages,
            *r.1 == old(self)@.snapshot.prompt_cache_stats,
            final(self)@ == (SessionModel {
                snapshot: SnapshotModel {
                    messages: final(r.0).deep_view(),
                    prompt_cache_stats: *final(r.1),
                    ..old(self)@.snapshot
                },
                ..old(self)@
            }),
    {
        (&mut self.snapshot.messages, &mut self.snapshot.prompt_cache_stats)
    }

    /// Adds a question of the user.
    pub fn append_user_prompt(&mut self, prompt: String, now_ms: Option<u128>)
        ensures
            final(self)@ == with_prompt(old(self)@, prompt@, now_ms),
    {
        let ghost before = self@;
        let message = new_text_message("user", prompt.as_str());
        let ghost asked = prompt@;
        let ghost said = message@;
        self.snapshot.prompt_history.push(prompt);
        self.snapshot.messages.push(message);
        match now_ms {
            Some(t) => {
                self.snapshot.updated_at_unix_ms = t;
            },
            None => {},
        }
        proof {
            assert(self@.snapshot.prompt_history =~= before.snapshot.prompt_history.push(asked));
            assert(self@.snapshot.messages =~= before.snapshot.messages.push(said));
        }
    }

    /// Cuts back to a number of messages and a number of questions.
    pub fn truncate_to(
        &mut self,
        message_count: usize,
        prompt_history_count: usize,
        now_ms: Option<u128>,
    )
        ensures
            final(self)@ == cut_back(old(self)@, message_count, prompt_history_count, now_ms),
    {
        let ghost before = self@;
        self.snapshot.messages.truncate(message_count);
        self.snapshot.prompt_history.truncate(prompt_history_count);
        match now_ms {
            Some(t) => {
                self.snapshot.updated_at_unix_ms = t;
            },
            None => {},
        }
        proof {
            assert(self@.snapshot.prompt_history =~= first_items(
                before.snapshot.prompt_history,
                prompt_history_count,
            ));
            assert(self@.snapshot.messages =~= first_items(
                before.snapshot.messages,
                message_count,
            ));
        }
    }

    /// What is kept of the conversation.
    pub fn snapshot(&self) -> (r: &ConversationSessionSnapshot)
        ensures
            r.deep_view() == self@.snapshot,
    {
        &self.snapshot
    }

    /// The file that keeps the conversation.
    pub fn path(&self) -> (r: &str)
        ensures
            r@ == self@.path,
    {
        self.session_path.as_str()
    }
}

/// A question that is taken back leaves no trace but the time of the change,
/// whatever was said after it.
pub proof fn lemma_cut_back_undoes_prompt(
    s: SessionModel,
    prompt: Seq<char>,
    said: Seq<JsonModel>,
    asked_at: Option<u128>,
    cut_at: u128,
)
    requires
        s.snapshot.messages.len() <= usize::MAX,
        s.snapshot.prompt_history.len() <= usize::MAX,
    ensures
        ({
            let asked = with_prompt(s, prompt, asked_at);
            let answered = SessionModel {
                snapshot: SnapshotModel {
                    messages: asked.snapshot.messages + said,
                    ..asked.snapshot
                },
                ..asked
            };
            cut_back(
                answered,
                s.snapshot.messages.len() as usize,
                s.snapshot.prompt_history.len() as usize,
                Some(cut_at),
            ) == (SessionModel {
                snapshot: SnapshotModel { updated_at_unix_ms: cut_at, ..s.snapshot },
                ..s
            })
        }),
{
    let asked = with_prompt(s, prompt, asked_at);
    let messages = asked.snapshot.messages + said;
    assert(messages.take(s.snapshot.messages.len() as int) =~= s.snapshot.messages);
    assert(asked.snapshot.prompt_history.take(s.snapshot.prompt_history.len() as int)
        =~= s.snapshot.prompt_history);
}

/// A session is of the form in which sessions are kept.
pub open spec fn of_present_form(s: SessionModel) -> bool {
    s.snapshot.schema_version == SESSION_SCHEMA_VERSION
}

/// A session that is kept in its file is loaded from there as it was.
pub proof fn lemma_kept_session_is_loaded(s: SessionModel)
    requires
        of_present_form(s),
    ensures
        loaded(s.snapshot, s.path) == Ok::<SessionModel, Seq<char>>(s),
{
}

/// A new session is of the form in which sessions are kept.
pub proof fn lemma_new_session_is_of_present_form(
    agent_kind: AgentKind,
    session_id: Seq<char>,
    messages: Seq<JsonModel>,
    prompt_history: Seq<Seq<char>>,
    transcript_dir: Seq<char>,
    now_ms: u128,
)
    ensures
        of_present_form(
            fresh_session(
                agent_kind,
                session_id,
                messages,
                prompt_history,
                transcript_dir,
                now_ms,
            ),
        ),
{
}

/// A session stays of the form in which sessions are kept when a question is
/// added to it and when it is cut back.
pub proof fn lemma_session_stays_of_present_form(
    s: SessionModel,
    prompt: Seq<char>,
    message_count: usize,
    prompt_history_count: usize,
    now_ms: Option<u128>,
)
    requires
        of_present_form(s),
    ensures
        of_present_form(with_prompt(s, prompt, now_ms)),
        of_present_form(cut_back(s, message_count, prompt_history_count, now_ms)),
{
}

/// Different sessions of an agent have different files.
pub proof fn lemma_sessions_have_own_files(
    transcript_dir: Seq<char>,
    agent_kind: AgentKind,
    session_id: Seq<char>,
    other: Seq<char>,
)
    requires
        session_id.len() > 0 ==> session_id[0] != '/',
        other.len() > 0 ==> other[0] != '/',
        session_file(transcript_dir, agent_kind, session_id) == session_file(
            transcript_dir,
            agent_kind,
            other,
        ),
    ensures
        session_id == other,
{
    reveal_strlit(".json");
    let dir = paths::path_joined(
        paths::path_joined(transcript_dir, agent_kind.key()),
        "sessions"@,
    );
    paths::lemma_names_have_own_files(dir, session_id, other, ".json"@);
}

/// A question is the last thing that a conversation says, from the user, and
/// the last of the questions that it keeps; everything before stays.
pub proof fn lemma_prompt_is_asked_last(s: SessionModel, prompt: Seq<char>, now_ms: Option<u128>)
    ensures
        ({
            let asked = with_prompt(s, prompt, now_ms);
            let messages = asked.snapshot.messages;
            &&& messages.len() == s.snapshot.messages.len() + 1
            &&& messages.drop_last() == s.snapshot.messages
            &&& messages.last().text_at("role"@) == Some("user"@)
            &&& messages.last().text_at("content"@) == Some(prompt)
            &&& asked.snapshot.prompt_history.last() == prompt
            &&& asked.snapshot.prompt_history.drop_last() == s.snapshot.prompt_history
            &&& now_ms is Some ==> asked.snapshot.updated_at_unix_ms == now_ms->0
            &&& now_ms is None ==> asked.snapshot.updated_at_unix_ms
                == s.snapshot.updated_at_unix_ms
            &&& asked.snapshot.created_at_unix_ms == s.snapshot.created_at_unix_ms
            &&& asked.snapshot.session_id == s.snapshot.session_id
            &&& asked.snapshot.agent_kind == s.snapshot.agent_kind
            &&& asked.path == s.path
        }),
{
    lemma_text_message("user"@, prompt);
    let asked = with_prompt(s, prompt, now_ms);
    assert(asked.snapshot.messages.drop_last() =~= s.snapshot.messages);
    assert(asked.snapshot.prompt_history.drop_last() =~= s.snapshot.prompt_history);
}

/// Cutting back keeps the first messages and questions, no more than are asked
/// for, and all where there are no more.
pub proof fn lemma_cut_back_keeps_first(
    s: SessionModel,
    message_count: usize,
    prompt_history_count: usize,
    now_ms: Option<u128>,
    i: int,
)
    ensures
        ({
            let cut = cut_back(s, message_count, prompt_history_count, now_ms).snapshot;
            &&& cut.messages.len() == vstd::math::min(
                s.snapshot.messages.len() as int,
                message_count as int,
            )
            &&& cut.prompt_history.len() == vstd::math::min(
                s.snapshot.prompt_history.len() as int,
                prompt_history_count as int,
            )
            &&& 0 <= i < cut.messages.len() ==> cut.messages[i] == s.snapshot.messages[i]
            &&& 0 <= i < cut.prompt_history.len() ==> cut.prompt_history[i]
                == s.snapshot.prompt_history[i]
            &&& cut.session_id == s.snapshot.session_id
        }),
{
}

/// A session of another form than the present one is not loaded.
pub proof fn lemma_other_forms_are_refused(snapshot: SnapshotModel, path: Seq<char>)
    ensures
        loaded(snapshot, path) is Ok <==> snapshot.schema_version == SESSION_SCHEMA_VERSION,
        loaded(snapshot, path) is Ok ==> loaded(snapshot, path)->Ok_0.snapshot == snapshot
            && loaded(snapshot, path)->Ok_0.path == path,
{
}

/// A new session starts with what it is given, at the time at which it is made,
/// and has not asked the model yet.
pub proof fn lemma_fresh_session(
    agent_kind: AgentKind,
    session_id: Seq<char>,
    messages: Seq<JsonModel>,
    prompt_history: Seq<Seq<char>>,
    transcript_dir: Seq<char>,
    now_ms: u128,
)
    ensures
        ({
            let s = fresh_session(
                agent_kind,
                session_id,
                messages,
                prompt_history,
                transcript_dir,
                now_ms,
            ).snapshot;
            &&& s.messages == messages
            &&& s.prompt_history == prompt_history
            &&& s.agent_kind == agent_kind
            &&& s.session_id == session_id
            &&& s.created_at_unix_ms == now_ms
            &&& s.updated_at_unix_ms == now_ms
            &&& s.prompt_cache_stats.total_model_calls == 0
            &&& s.prompt_cache_stats.total_local_cache_hits == 0
        }),
{
}

/// Sessions that are made at different times have different ids.
pub proof fn lemma_session_ids_differ(now_ms: u128, later_ms: u128)
    requires
        session_id_at(now_ms) == session_id_at(later_ms),
    ensures
        now_ms == later_ms,
{
    let a = session_id_at(now_ms);
    let b = session_id_at(later_ms);
    let n = "session_"@.len() as int;
    assert(a.skip(n) =~= text::decimal(now_ms as nat));
    assert(b.skip(n) =~= text::decimal(later_ms as nat));
    text::lemma_decimal_is_read_back(now_ms as nat);
    text::lemma_decimal_is_read_back(later_ms as nat);
}

/// A session is kept below the directory of its agent, under its id.
pub proof fn lemma_where_sessions_are_kept(
    transcript_dir: Seq<char>,
    agent_kind: AgentKind,
    session_id: Seq<char>,
)
    ensures
        session_file(transcript_dir, agent_kind, session_id) == paths::path_joined(
            paths::path_joined(
                paths::path_joined(transcript_dir, agent_kind.key()),
                "sessions"@,
            ),
            session_id + ".json"@,
        ),
        agent_kind.key() == "interview_materials"@ || agent_kind.key() == "programmer_interview"@,
{
}

} // verus!
