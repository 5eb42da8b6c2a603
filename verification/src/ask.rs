//! Where the files of an agent live, how its sessions begin, which of them
//! comes first, and which tools its agents have.
use crate::agents::AgentKind;
use crate::keyed;
use crate::llm::session;
use crate::llm::session::{ConversationSession, ConversationSessionSnapshot, SessionModel, SnapshotModel};
use crate::json::Json;
use crate::order;
use crate::paths;
use crate::text;
use crate::tools::registry;
use crate::tools::registry::{GlobalToolRegistry, HandlerModel, ToolHandler};
use vstd::prelude::*;

verus! {

/// The directory that everything is kept in.
#[derive(Debug)]
pub struct AskApp {
    pub transcript_dir: String,
}

/// The directory of an agent.
pub open spec fn agent_home(transcript_dir: Seq<char>, agent_kind: AgentKind) -> Seq<char> {
    paths::path_joined(transcript_dir, agent_kind.key())
}

/// A file below the directory of an agent.
pub open spec fn agent_file(
    transcript_dir: Seq<char>,
    agent_kind: AgentKind,
    dir: Seq<char>,
    name: Seq<char>,
) -> Seq<char> {
    paths::path_joined(paths::path_joined(agent_home(transcript_dir, agent_kind), dir), name)
}

/// The file of a session from the time before agents had their own.
pub open spec fn legacy_session_file(transcript_dir: Seq<char>, session_id: Seq<char>) -> Seq<char> {
    paths::path_joined(
        paths::path_joined(transcript_dir, "sessions"@),
        session_id + ".json"@,
    )
}

/// The context that an interview starts with.
pub open spec fn interview_context(materials: Seq<char>) -> Seq<char> {
    "Use the following interview materials as your only codebase context. Do not inspect the repository directly.\n\n---\n\n"@
        + materials
}

/// A session for an interview: the materials are given and acknowledged before
/// the first question.
pub open spec fn seeded_session(
    session_id: Seq<char>,
    materials: Seq<char>,
    initial_prompt: Seq<char>,
    transcript_dir: Seq<char>,
    now_ms: u128,
) -> SessionModel {
    session::with_prompt(
        session::fresh_session(
            AgentKind::ProgrammerInterview,
            session_id,
            seq![
                session::text_message("system"@, AgentKind::ProgrammerInterview.prompt()),
                session::text_message("user"@, interview_context(materials)),
                session::text_message(
                    "assistant"@,
                    "Understood. I will interview the programmer using only these materials."@,
                ),
            ],
            seq![],
            transcript_dir,
            now_ms,
        ),
        initial_prompt,
        Some(now_ms),
    )
}

impl AskApp {
    /// Everything is kept in the given directory.
    pub fn new(transcript_dir: String) -> (r: AskApp)
        ensures
            r.transcript_dir@ == transcript_dir@,
    {
        AskApp { transcript_dir }
    }

    /// A session that starts with a question of the user.
    pub fn new_session(&self, agent_kind: AgentKind, initial_prompt: String, now_ms: u128) -> (r:
        ConversationSession)
        ensures
            r@ == session::fresh_session(
                agent_kind,
                session::session_id_at(now_ms),
                seq![
                    session::text_message("system"@, agent_kind.prompt()),
                    session::text_message("user"@, initial_prompt@),
                ],
                seq![initial_prompt@],
                self.transcript_dir@,
                now_ms,
            ),
    {
        ConversationSession::new(
            agent_kind,
            initial_prompt,
            agent_kind.system_prompt(),
            self.transcript_dir.as_str(),
            now_ms,
        )
    }

    /// A session in which nothing has been asked yet.
    pub fn new_empty_session(&self, agent_kind: AgentKind, now_ms: u128) -> (r: ConversationSession)
        ensures
            r@ == session::fresh_session(
                agent_kind,
                session::session_id_at(now_ms),
                seq![session::text_message("system"@, agent_kind.prompt())],
                seq![],
                self.transcript_dir@,
                now_ms,
            ),
    {
        ConversationSession::new_empty(
            agent_kind,
            agent_kind.system_prompt(),
            self.transcript_dir.as_str(),
            now_ms,
        )
    }

    /// A session for an interview about the given materials.
    pub fn new_seeded_interview_session(
        &self,
        session_id: String,
        materials: &str,
        initial_prompt: String,
        now_ms: u128,
    ) -> (r: ConversationSession)
        ensures
            r@ == seeded_session(
                session_id@,
                materials@,
                initial_prompt@,
                self.transcript_dir@,
                now_ms,
            ),
    {
        let context = text::concat(
            "Use the following interview materials as your only codebase context. Do not inspect the repository directly.\n\n---\n\n",
            materials,
        );
        let mut messages: Vec<Json> = Vec::new();
        messages.push(
            session::new_text_message("system", AgentKind::ProgrammerInterview.system_prompt()),
        );
        messages.push(session::new_text_message("user", context.as_str()));
        messages.push(
            session::new_text_message(
                "assistant",
                "Understood. I will interview the programmer using only these materials.",
            ),
        );
        let prompts: Vec<String> = Vec::new();
        proof {
            assert(messages.deep_view() =~= seq![
                session::text_message("system"@, AgentKind::ProgrammerInterview.prompt()),
                session::text_message("user"@, interview_context(materials@)),
                session::text_message(
                    "assistant"@,
                    "Understood. I will interview the programmer using only these materials."@,
                ),
            ]);
            assert(prompts.deep_view() =~= seq![]);
        }
        let mut r = ConversationSession::new_with_session_id(
            AgentKind::ProgrammerInterview,
            session_id,
            messages,
            prompts,
            self.transcript_dir.as_str(),
            now_ms,
        );
        r.append_user_prompt(initial_prompt, Some(now_ms));
        r
    }

    fn agent_dir(&self, agent_kind: AgentKind) -> (r: String)
        ensures
            r@ == agent_home(self.transcript_dir@, agent_kind),
    {
        paths::path_join(self.transcript_dir.as_str(), agent_kind.as_str())
    }

    fn file_below(&self, agent_kind: AgentKind, dir: &str, name: &str) -> (r: String)
        ensures
            r@ == agent_file(self.transcript_dir@, agent_kind, dir@, name@),
    {
        let home = self.agent_dir(agent_kind);
        let below = paths::path_join(home.as_str(), dir);
        paths::path_join(below.as_str(), name)
    }

    /// The last state that was shown of an agent.
    pub fn live_ui_snapshot_path(&self, agent_kind: AgentKind) -> (r: String)
        ensures
            r@ == paths::path_joined(
                agent_home(self.transcript_dir@, agent_kind),
                "live_ui_snapshot.json"@,
            ),
    {
        let home = self.agent_dir(agent_kind);
        paths::path_join(home.as_str(), "live_ui_snapshot.json")
    }

    /// What was shown of a session.
    pub fn ui_session_snapshot_path(&self, agent_kind: AgentKind, session_id: &str) -> (r: String)
        ensures
            r@ == agent_file(
                self.transcript_dir@,
                agent_kind,
                "ui_sessions"@,
                session_id@ + ".json"@,
            ),
    {
        let name = text::concat(session_id, ".json");
        self.file_below(agent_kind, "ui_sessions", name.as_str())
    }

    /// The trace of a turn.
    pub fn trace_turn_path(&self, agent_kind: AgentKind, session_id: &str, turn_id: &str) -> (r:
        String)
        ensures
            r@ == paths::path_joined(
                agent_file(self.transcript_dir@, agent_kind, "traces"@, session_id@),
                turn_id@ + ".jsonl"@,
            ),
    {
        let dir = self.file_below(agent_kind, "traces", session_id);
        let name = text::concat(turn_id, ".jsonl");
        paths::path_join(dir.as_str(), name.as_str())
    }

    /// The state of the workflow.
    pub fn workflow_snapshot_path(&self) -> (r: String)
        ensures
            r@ == paths::path_joined(self.transcript_dir@, "workflow_snapshot.json"@),
    {
        paths::path_join(self.transcript_dir.as_str(), "workflow_snapshot.json")
    }

    /// The materials that were written last.
    pub fn latest_materials_path(&self) -> (r: String)
        ensures
            r@ == paths::path_joined(
                agent_home(self.transcript_dir@, AgentKind::InterviewMaterials),
                "latest_materials.md"@,
            ),
    {
        let home = self.agent_dir(AgentKind::InterviewMaterials);
        paths::path_join(home.as_str(), "latest_materials.md")
    }

    /// The materials of a session.
    pub fn session_materials_path(&self, session_id: &str) -> (r: String)
        ensures
            r@ == agent_file(
                self.transcript_dir@,
                AgentKind::InterviewMaterials,
                "materials"@,
                session_id@ + ".md"@,
            ),
    {
        let name = text::concat(session_id, ".md");
        self.file_below(AgentKind::InterviewMaterials, "materials", name.as_str())
    }

    /// The report that was written last.
    pub fn latest_report_path(&self) -> (r: String)
        ensures
            r@ == paths::path_joined(
                agent_home(self.transcript_dir@, AgentKind::ProgrammerInterview),
                "latest_evaluation_report.md"@,
            ),
    {
        let home = self.agent_dir(AgentKind::ProgrammerInterview);
        paths::path_join(home.as_str(), "latest_evaluation_report.md")
    }

    /// The report on a session.
    pub fn session_report_path(&self, session_id: &str) -> (r: String)
        ensures
            r@ == agent_file(
                self.transcript_dir@,
                AgentKind::ProgrammerInterview,
                "reports"@,
                session_id@ + ".md"@,
            ),
    {
        let name = text::concat(session_id, ".md");
        self.file_below(AgentKind::ProgrammerInterview, "reports", name.as_str())
    }

    /// The directories that hold the sessions of an agent.
    pub fn session_dirs(&self, agent_kind: AgentKind) -> (r: Vec<String>)
        ensures
            r.deep_view() == (match agent_kind {
                AgentKind::InterviewMaterials => seq![
                    paths::path_joined(
                        agent_home(self.transcript_dir@, agent_kind),
                        "sessions"@,
                    ),
                    paths::path_joined(self.transcript_dir@, "sessions"@),
                ],
                AgentKind::ProgrammerInterview => seq![
                    paths::path_joined(
                        agent_home(self.transcript_dir@, agent_kind),
                        "sessions"@,
                    ),
                ],
            }),
    {
        let home = self.agent_dir(agent_kind);
        let mut dirs: Vec<String> = Vec::new();
        let own = paths::path_join(home.as_str(), "sessions");
        let ghost a = own@;
        dirs.push(own);
        match agent_kind {
            AgentKind::InterviewMaterials => {
                let legacy = paths::path_join(self.transcript_dir.as_str(), "sessions");
                let ghost b = legacy@;
                dirs.push(legacy);
                assert(dirs.deep_view() =~= seq![a, b]);
            },
            AgentKind::ProgrammerInterview => {
                assert(dirs.deep_view() =~= seq![a]);
            },
        }
        dirs
    }

    /// The file of a session.
    pub fn session_path(&self, agent_kind: AgentKind, session_id: &str) -> (r: String)
        ensures
            r@ == session::session_file(self.transcript_dir@, agent_kind, session_id@),
    {
        session::session_snapshot_path(self.transcript_dir.as_str(), agent_kind, session_id)
    }

    /// The file of a session from the time before agents had their own.
    pub fn legacy_session_path(&self, session_id: &str) -> (r: String)
        ensures
            r@ == legacy_session_file(self.transcript_dir@, session_id@),
    {
        let dir = paths::path_join(self.transcript_dir.as_str(), "sessions");
        let name = text::concat(session_id, ".json");
        paths::path_join(dir.as_str(), name.as_str())
    }

    /// The file to load a session from: its own, or the legacy one where only
    /// that exists and the agent is the one that had sessions then.
    pub fn session_path_to_load(
        &self,
        agent_kind: AgentKind,
        session_id: &str,
        exists: bool,
        legacy_exists: bool,
    ) -> (r: String)
        ensures
            r@ == (if !exists && legacy_exists && agent_kind == AgentKind::InterviewMaterials {
                legacy_session_file(self.transcript_dir@, session_id@)
            } else {
                session::session_file(self.transcript_dir@, agent_kind, session_id@)
            }),
    {
        if !exists && legacy_exists && agent_kind == AgentKind::InterviewMaterials {
            self.legacy_session_path(session_id)
        } else {
            self.session_path(agent_kind, session_id)
        }
    }
}

/// Whether a file in a session directory is a session.
pub fn is_session_file(path: &str) -> (r: bool)
    ensures
        r == (paths::extension(path@) == Some("json"@)),
{
    match paths::extension_of(path) {
        Some(e) => text::same_text(e.as_str(), "json"),
        None => false,
    }
}

// ---------------------------------------------------------------------------
// The order of sessions

/// Sessions by the time of their last change, then by that of their start, the
/// latest first.
pub open spec fn recency(s: SnapshotModel) -> (u128, u128) {
    (
        (u128::MAX - s.updated_at_unix_ms) as u128,
        (u128::MAX - s.created_at_unix_ms) as u128,
    )
}

/// The sessions of an agent.
pub open spec fn of_agent(snapshots: Seq<SnapshotModel>, agent_kind: AgentKind) -> Seq<SnapshotModel>
    decreases snapshots.len(),
{
    if snapshots.len() == 0 {
        seq![]
    } else if snapshots.last().agent_kind == agent_kind {
        of_agent(snapshots.drop_last(), agent_kind).push(snapshots.last())
    } else {
        of_agent(snapshots.drop_last(), agent_kind)
    }
}

/// The sessions of an agent, the latest first.
pub open spec fn listed(snapshots: Seq<SnapshotModel>, agent_kind: AgentKind) -> Seq<SnapshotModel> {
    let own = of_agent(snapshots, agent_kind);
    order::arranged(own, order::ordered_by(own.map_values(|s: SnapshotModel| recency(s))))
}

/// The sessions of an agent among those that were found, the latest first.
pub fn list_session_snapshots(
    found: &Vec<ConversationSessionSnapshot>,
    agent_kind: AgentKind,
) -> (r: Vec<ConversationSessionSnapshot>)
    ensures
        r.deep_view() == listed(found.deep_view(), agent_kind),
{
    let ghost all = found.deep_view();
    let mut own: Vec<ConversationSessionSnapshot> = Vec::new();
    let mut keys: Vec<(u128, u128)> = Vec::new();
    let mut i: usize = 0;
    proof {
        assert(all.take(0) =~= seq![]);
        assert(own.deep_view() =~= seq![]);
        assert(keys@ =~= own.deep_view().map_values(|s: SnapshotModel| recency(s)));
    }
    while i < found.len()
        invariant
            i <= found@.len(),
            all == found.deep_view(),
            own.deep_view() == of_agent(all.take(i as int), agent_kind),
            keys@ == own.deep_view().map_values(|s: SnapshotModel| recency(s)),
        decreases found@.len() - i,
    {
        let ghost before = own.deep_view();
        proof {
            assert(all.take(i + 1).drop_last() =~= all.take(i as int));
            assert(all.take(i + 1).last() == found@[i as int].deep_view());
        }
        if found[i].agent_kind == agent_kind {
            own.push(found[i].clone());
            keys.push(
                (
                    u128::MAX - found[i].updated_at_unix_ms,
                    u128::MAX - found[i].created_at_unix_ms,
                ),
            );
            proof {
                assert(own.deep_view() =~= before.push(all[i as int]));
                assert(keys@ =~= own.deep_view().map_values(|s: SnapshotModel| recency(s)));
            }
        }
        i = i + 1;
    }
    assert(all.take(all.len() as int) =~= all);
    let positions = order::stable_order(&keys);
    let ghost model = own.deep_view();
    let ghost wanted = order::arranged(model, order::ordered_by(keys@));
    proof {
        order::lemma_order_is_permutation(keys@);
    }
    let mut r: Vec<ConversationSessionSnapshot> = Vec::new();
    let mut k: usize = 0;
    assert(r.deep_view() =~= wanted.take(0));
    while k < positions.len()
        invariant
            k <= positions@.len(),
            model == own.deep_view(),
            keys@.len() == model.len(),
            order::as_ints(positions@) == order::ordered_by(keys@),
            forall|j: int|
                0 <= j < keys@.len() ==> 0 <= #[trigger] order::ordered_by(keys@)[j] < keys@.len(),
            order::ordered_by(keys@).len() == keys@.len(),
            wanted == order::arranged(model, order::ordered_by(keys@)),
            r.deep_view() == wanted.take(k as int),
        decreases positions@.len() - k,
    {
        let ghost before = r.deep_view();
        proof {
            assert(order::as_ints(positions@)[k as int] == positions@[k as int]);
            assert(0 <= order::ordered_by(keys@)[k as int] < keys@.len());
        }
        r.push(own[positions[k]].clone());
        proof {
            assert(r.deep_view() =~= before.push(model[positions@[k as int] as int]));
            assert(wanted.take(k + 1) =~= wanted.take(k as int).push(wanted[k as int]));
        }
        k = k + 1;
    }
    assert(wanted.take(k as int) =~= wanted);
    r
}

/// In the list of sessions none stands before one that was changed later.
pub proof fn lemma_listed_is_latest_first(
    snapshots: Seq<SnapshotModel>,
    agent_kind: AgentKind,
    a: int,
    b: int,
)
    requires
        0 <= a < b < listed(snapshots, agent_kind).len(),
    ensures
        listed(snapshots, agent_kind)[a].updated_at_unix_ms >= listed(
            snapshots,
            agent_kind,
        )[b].updated_at_unix_ms,
        listed(snapshots, agent_kind)[a].updated_at_unix_ms == listed(
            snapshots,
            agent_kind,
        )[b].updated_at_unix_ms ==> listed(snapshots, agent_kind)[a].created_at_unix_ms >= listed(
            snapshots,
            agent_kind,
        )[b].created_at_unix_ms,
        listed(snapshots, agent_kind).len() == of_agent(snapshots, agent_kind).len(),
{
    let own = of_agent(snapshots, agent_kind);
    let keys = own.map_values(|s: SnapshotModel| recency(s));
    order::lemma_order_is_permutation(keys);
    order::lemma_order_is_sorted(keys);
    let positions = order::ordered_by(keys);
    assert(0 <= positions[a] < keys.len());
    assert(0 <= positions[b] < keys.len());
    assert(!order::key_below(keys[positions[b]], keys[positions[a]]));
}

// ---------------------------------------------------------------------------
// The tools of the agents

/// The registries of the agent that talks to the user and of those that work
/// for it.
#[derive(Debug)]
pub struct AgentRegistries {
    pub child: GlobalToolRegistry,
    pub parent: GlobalToolRegistry,
}

/// The tools that an agent starts with: publishing needs an account.
pub open spec fn available_tools(
    base: Seq<(Seq<char>, HandlerModel)>,
    github_auth: bool,
) -> Seq<(Seq<char>, HandlerModel)> {
    if github_auth {
        base
    } else {
        keyed::without_entry(
            keyed::without_entry(base, "github_wiki_publish"@),
            "github_pages_publish"@,
        )
    }
}

/// The registries of the agents: those that work for another one have no tool
/// to hand work on; the agent that talks to the user has the given tools for
/// tasks and teams as well.
pub fn agent_registries(
    base: GlobalToolRegistry,
    github_auth: bool,
    delegation_tools: Vec<ToolHandler>,
) -> (r: Result<AgentRegistries, String>)
    ensures
        ({
            let start = available_tools(base@, github_auth);
            let all = registry::with_all(start, delegation_tools.deep_view());
            match r {
                Ok(regs) => regs.child@ == keyed::without_entry(start, "task"@) && all == Ok::<
                    Seq<(Seq<char>, HandlerModel)>,
                    Seq<char>,
                >(regs.parent@),
                Err(e) => all is Err && e@ == "tool name conflicts with existing handler: "@
                    + all->Err_0,
            }
        }),
{
    let start = if github_auth {
        base
    } else {
        base.without_tool("github_wiki_publish").without_tool("github_pages_publish")
    };
    let child = start.without_tool("task");
    let ghost first = start@;
    let ghost all = delegation_tools.deep_view();
    let mut parent = start;
    let mut i: usize = 0;
    assert(all.take(0) =~= seq![]);
    while i < delegation_tools.len()
        invariant
            i <= delegation_tools@.len(),
            first == available_tools(base@, github_auth),
            all == delegation_tools.deep_view(),
            registry::with_all(first, all.take(i as int)) == Ok::<
                Seq<(Seq<char>, HandlerModel)>,
                Seq<char>,
            >(parent@),
        decreases delegation_tools@.len() - i,
    {
        let tool = delegation_tools[i].clone();
        proof {
            assert(all.take(i + 1).drop_last() =~= all.take(i as int));
            assert(all.take(i + 1).last() == tool@);
        }
        match parent.with_tool(tool) {
            Ok(next) => {
                parent = next;
            },
            Err(e) => {
                proof {
                    registry::lemma_with_all_stops(first, all, i + 1);
                }
                return Err(e);
            },
        }
        i = i + 1;
    }
    assert(all.take(all.len() as int) =~= all);
    Ok(AgentRegistries { child, parent })
}

// ---------------------------------------------------------------------------
// The command that asks

/// What an agent is told first: what the environment says, if it says anything.
pub open spec fn first_prompt(env: Option<Seq<char>>, kind: AgentKind) -> Seq<char> {
    match env {
        Some(p) => if text::is_blank(p) {
            kind.prompt()
        } else {
            p
        },
        None => kind.prompt(),
    }
}

/// What an agent is told first.
pub fn ask_system_prompt(env: Option<String>, kind: AgentKind) -> (r: String)
    ensures
        r@ == first_prompt(env.deep_view(), kind),
{
    match env {
        Some(p) => {
            let trimmed = text::trim(p.as_str());
            if text::char_count(trimmed.as_str()) == 0 {
                text::owned(kind.system_prompt())
            } else {
                p
            }
        },
        None => text::owned(kind.system_prompt()),
    }
}

// ---------------------------------------------------------------------------
// Laws

/// The list of an agent's sessions holds exactly those of the sessions found
/// that are its own, each as it is.
pub proof fn lemma_listed_are_own(
    snapshots: Seq<SnapshotModel>,
    agent_kind: AgentKind,
    s: SnapshotModel,
)
    ensures
        listed(snapshots, agent_kind).contains(s) <==> snapshots.contains(s) && s.agent_kind
            == agent_kind,
{
    let own = of_agent(snapshots, agent_kind);
    let keys = own.map_values(|t: SnapshotModel| recency(t));
    let positions = order::ordered_by(keys);
    let out = listed(snapshots, agent_kind);
    order::lemma_order_is_permutation(keys);
    lemma_own_sessions(snapshots, agent_kind, s);
    if out.contains(s) {
        let k = choose|k: int| 0 <= k < out.len() && out[k] == s;
        assert(0 <= positions[k] < keys.len());
        assert(own[positions[k]] == s);
    }
    if own.contains(s) {
        let j = choose|j: int| 0 <= j < own.len() && own[j] == s;
        assert(positions.contains(j));
        let k = choose|k: int| 0 <= k < positions.len() && positions[k] == j;
        assert(out[k] == s);
    }
}

proof fn lemma_own_sessions(
    snapshots: Seq<SnapshotModel>,
    agent_kind: AgentKind,
    s: SnapshotModel,
)
    ensures
        of_agent(snapshots, agent_kind).contains(s) <==> snapshots.contains(s) && s.agent_kind
            == agent_kind,
    decreases snapshots.len(),
{
    if snapshots.len() > 0 {
        let head = snapshots.drop_last();
        lemma_own_sessions(head, agent_kind, s);
        let before = of_agent(head, agent_kind);
        let after = of_agent(snapshots, agent_kind);
        if before.contains(s) {
            let k = choose|k: int| 0 <= k < before.len() && before[k] == s;
            assert(after[k] == s);
        }
        if snapshots.last().agent_kind == agent_kind {
            assert(after[after.len() - 1] == snapshots.last());
        }
        if after.contains(s) {
            let k = choose|k: int| 0 <= k < after.len() && after[k] == s;
            if k < before.len() {
                assert(before[k] == s);
            }
        }
        if snapshots.contains(s) {
            let k = choose|k: int| 0 <= k < snapshots.len() && snapshots[k] == s;
            if k < head.len() {
                assert(head[k] == s);
            }
        }
        if head.contains(s) {
            let k = choose|k: int| 0 <= k < head.len() && head[k] == s;
            assert(snapshots[k] == s);
        }
        assert(snapshots[snapshots.len() - 1] == snapshots.last());
    }
}

/// An interview starts with the instructions of the interviewer, then the
/// materials as they are, then the consent of the interviewer, and then the first
/// question of the user, which is the only one that is kept as such.
pub proof fn lemma_interview_starts_from_materials(
    session_id: Seq<char>,
    materials: Seq<char>,
    initial_prompt: Seq<char>,
    transcript_dir: Seq<char>,
    now_ms: u128,
)
    ensures
        ({
            let s = seeded_session(session_id, materials, initial_prompt, transcript_dir, now_ms);
            let m = s.snapshot.messages;
            &&& m.len() == 4
            &&& m[0].text_at("role"@) == Some("system"@)
            &&& m[0].text_at("content"@) == Some(AgentKind::ProgrammerInterview.prompt())
            &&& m[1].text_at("role"@) == Some("user"@)
            &&& m[1].text_at("content"@) is Some
            &&& text::finishes_with(m[1].text_at("content"@)->0, materials)
            &&& m[2].text_at("role"@) == Some("assistant"@)
            &&& m[3].text_at("role"@) == Some("user"@)
            &&& m[3].text_at("content"@) == Some(initial_prompt)
            &&& s.snapshot.prompt_history == seq![initial_prompt]
            &&& s.snapshot.agent_kind == AgentKind::ProgrammerInterview
            &&& s.snapshot.session_id == session_id
        }),
{
    session::lemma_text_message("system"@, AgentKind::ProgrammerInterview.prompt());
    session::lemma_text_message("user"@, interview_context(materials));
    session::lemma_text_message(
        "assistant"@,
        "Understood. I will interview the programmer using only these materials."@,
    );
    session::lemma_text_message("user"@, initial_prompt);
    let content = interview_context(materials);
    assert(content.skip(content.len() - materials.len()) =~= materials);
    let s = seeded_session(session_id, materials, initial_prompt, transcript_dir, now_ms);
    assert(s.snapshot.prompt_history =~= seq![initial_prompt]);
}

/// Without an account the two tools that publish are not there; every other tool
/// is, and with an account all are.
pub proof fn lemma_publishing_needs_an_account(
    base: Seq<(Seq<char>, HandlerModel)>,
    name: Seq<char>,
)
    requires
        keyed::keys_increase(base),
    ensures
        keyed::entry(available_tools(base, true), name) == keyed::entry(base, name),
        keyed::entry(available_tools(base, false), "github_wiki_publish"@) is None,
        keyed::entry(available_tools(base, false), "github_pages_publish"@) is None,
        name != "github_wiki_publish"@ && name != "github_pages_publish"@ ==> keyed::entry(
            available_tools(base, false),
            name,
        ) == keyed::entry(base, name),
{
    reveal_strlit("github_wiki_publish");
    reveal_strlit("github_pages_publish");
    assert("github_wiki_publish"@.len() != "github_pages_publish"@.len());
    let once = keyed::without_entry(base, "github_wiki_publish"@);
    keyed::lemma_without_entry_order(base, "github_wiki_publish"@);
    keyed::lemma_entry_of_without_entry(base, "github_wiki_publish"@, name);
    keyed::lemma_entry_of_without_entry(base, "github_wiki_publish"@, "github_wiki_publish"@);
    keyed::lemma_entry_of_without_entry(once, "github_pages_publish"@, name);
    keyed::lemma_entry_of_without_entry(once, "github_pages_publish"@, "github_wiki_publish"@);
    keyed::lemma_entry_of_without_entry(once, "github_pages_publish"@, "github_pages_publish"@);
}

/// What the environment says is what an agent is told first, and the agent's own
/// instructions where it says nothing.
pub proof fn lemma_first_prompt(env: Seq<char>, kind: AgentKind)
    ensures
        !text::is_blank(env) ==> first_prompt(Some(env), kind) == env,
        text::is_blank(env) ==> first_prompt(Some(env), kind) == kind.prompt(),
        first_prompt(None, kind) == kind.prompt(),
{
}

/// What an agent keeps lies below its own directory.
pub proof fn lemma_where_agents_keep_files(
    transcript_dir: Seq<char>,
    kind: AgentKind,
    dir: Seq<char>,
    name: Seq<char>,
)
    requires
        !paths::is_absolute(dir),
        !paths::is_absolute(name),
    ensures
        paths::is_within(transcript_dir, agent_file(transcript_dir, kind, dir, name)),
        paths::names(agent_file(transcript_dir, kind, dir, name)) == paths::names(transcript_dir)
            + paths::names(kind.key()) + paths::names(dir) + paths::names(name),
        legacy_session_file(transcript_dir, name) == paths::path_joined(
            paths::path_joined(transcript_dir, "sessions"@),
            name + ".json"@,
        ),
{
    reveal_strlit("interview_materials");
    reveal_strlit("programmer_interview");
    assert(!paths::is_absolute(kind.key()));
    let home = paths::path_joined(transcript_dir, kind.key());
    let sub = paths::path_joined(home, dir);
    paths::lemma_joined_path_lies_within(transcript_dir, kind.key());
    paths::lemma_joined_path_lies_within(home, dir);
    paths::lemma_joined_path_lies_within(sub, name);
    let all = agent_file(transcript_dir, kind, dir, name);
    assert(paths::names(all).take(paths::names(transcript_dir).len() as int)
        =~= paths::names(transcript_dir));
}

} // verus!
