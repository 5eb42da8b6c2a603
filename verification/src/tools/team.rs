//! A team of agents that work side by side: who is in it, what is said, and
//! what each of them does next.
use crate::json;
use crate::json::{Json, JsonModel};
use crate::paths;
use crate::text;
use crate::tools::registry;
use crate::tools::registry::{HandlerModel, ToolAction, ToolHandler};
use crate::tools::task_registry;
use crate::tools::task_registry::{RegistryModel, TaskModel, TaskRegistry, TaskStatus};
use vstd::prelude::*;

verus! {

/// How long an agent without messages waits before it looks again.
pub const TEAM_LOOP_IDLE_MS: u64 = 400;

/// The longest result that is kept with a task.
pub const TASK_RESULT_PREVIEW_CHARS: usize = 2_000;

/// How long a huddle waits where nothing else is said.
pub const DEFAULT_HUDDLE_WAIT_MS: u64 = 5_000;

pub const TEAM_TODO_COORDINATION_CONTRACT: &'static str = "Team planning contract: for multi-step work, maintain a single shared todo_write plan with exactly one in_progress item. Lead owns final todo_write updates; teammates should propose plan changes back to lead unless explicitly asked to edit the plan directly.";

pub const TEAM_ANALYSIS_CONTRACT: &'static str = "Team analysis contract: teammates may analyze single-repo or cross-repo systems, including microservice interactions. Use concrete evidence from available code and docs. If asked for teaching output, return tutorial-style, step-by-step explanations. If architecture or flow is requested, return diagram-ready structure (for example Mermaid) and explicitly note missing repositories or interfaces instead of guessing.";

// ---------------------------------------------------------------------------
// Types

/// What a member of the team is doing.
#[derive(Debug, Clone, Copy, PartialEq, Eq, Structural)]
pub enum MemberStatus {
    Working,
    Idle,
    Shutdown,
}

impl MemberStatus {
    /// The key of a status.
    pub open spec fn key(self) -> Seq<char> {
        match self {
            MemberStatus::Working => "working"@,
            MemberStatus::Idle => "idle"@,
            MemberStatus::Shutdown => "shutdown"@,
        }
    }

    /// The key of a status.
    pub fn as_str(self) -> (r: &'static str)
        ensures
            r@ == self.key(),
    {
        match self {
            MemberStatus::Working => "working",
            MemberStatus::Idle => "idle",
            MemberStatus::Shutdown => "shutdown",
        }
    }
}

/// A member of the team.
#[derive(Debug)]
pub struct TeamMember {
    pub name: String,
    pub role: String,
    pub task_id: Option<String>,
    pub status: MemberStatus,
    pub created_at_unix_ms: u128,
}

/// A member of the team.
#[verifier::ext_equal]
pub struct MemberModel {
    pub name: Seq<char>,
    pub role: Seq<char>,
    pub task_id: Option<Seq<char>>,
    pub status: MemberStatus,
    pub created_at_unix_ms: u128,
}

impl MemberModel {
    /// The time of the member can be written as a JSON number.
    pub open spec fn timely(self) -> bool {
        self.created_at_unix_ms <= u64::MAX
    }
}

impl TeamMember {
    /// Whether the time of the member can be written as a JSON number.
    pub fn is_timely(&self) -> (r: bool)
        ensures
            r == self.deep_view().timely(),
    {
        self.created_at_unix_ms <= u64::MAX as u128
    }
}

impl DeepView for TeamMember {
    type V = MemberModel;

    open spec fn deep_view(&self) -> MemberModel {
        MemberModel {
            name: self.name@,
            role: self.role@,
            task_id: self.task_id.deep_view(),
            status: self.status,
            created_at_unix_ms: self.created_at_unix_ms,
        }
    }
}

/// The members of the team, in the order in which they joined.
#[derive(Debug)]
pub struct TeamState {
    pub members: Vec<TeamMember>,
}

impl View for TeamState {
    type V = Seq<MemberModel>;

    open spec fn view(&self) -> Seq<MemberModel> {
        self.members.deep_view()
    }
}

/// A message from one member to another.
#[derive(Debug)]
pub struct TeamMessage {
    pub msg_type: String,
    pub from: String,
    pub content: String,
    pub timestamp_unix_ms: u128,
}

/// A message from one member to another.
#[verifier::ext_equal]
pub struct MessageModel {
    pub msg_type: Seq<char>,
    pub from: Seq<char>,
    pub content: Seq<char>,
    pub timestamp_unix_ms: u128,
}

impl MessageModel {
    /// The time of the message can be written as a JSON number.
    pub open spec fn timely(self) -> bool {
        self.timestamp_unix_ms <= u64::MAX
    }
}

impl TeamMessage {
    /// Whether the time of the message can be written as a JSON number.
    pub fn is_timely(&self) -> (r: bool)
        ensures
            r == self.deep_view().timely(),
    {
        self.timestamp_unix_ms <= u64::MAX as u128
    }
}

impl DeepView for TeamMessage {
    type V = MessageModel;

    open spec fn deep_view(&self) -> MessageModel {
        MessageModel {
            msg_type: self.msg_type@,
            from: self.from@,
            content: self.content@,
            timestamp_unix_ms: self.timestamp_unix_ms,
        }
    }
}

/// A message and the inbox that it goes to.
#[derive(Debug)]
pub struct Delivery {
    pub inbox_file: String,
    pub message: TeamMessage,
}

/// A message and the inbox that it goes to.
#[verifier::ext_equal]
pub struct DeliveryModel {
    pub inbox_file: Seq<char>,
    pub message: MessageModel,
}

impl DeepView for Delivery {
    type V = DeliveryModel;

    open spec fn deep_view(&self) -> DeliveryModel {
        DeliveryModel { inbox_file: self.inbox_file@, message: self.message.deep_view() }
    }
}

/// Messages to deliver, and what to answer once they are.
#[derive(Debug)]
pub struct Sending {
    pub deliveries: Vec<Delivery>,
    pub response: String,
}

/// What happens to a member whose task does not exist.
#[derive(Debug, Clone, Copy, PartialEq, Eq, Structural)]
pub enum TaskBindingMode {
    BestEffort,
    Strict,
}

/// A member that runs, and whether it was asked to stop.
#[derive(Debug)]
pub struct WorkerHandle {
    pub name: String,
    pub shutdown: bool,
}

/// A member that runs, and whether it was asked to stop.
#[verifier::ext_equal]
pub struct WorkerModel {
    pub name: Seq<char>,
    pub shutdown: bool,
}

impl DeepView for WorkerHandle {
    type V = WorkerModel;

    open spec fn deep_view(&self) -> WorkerModel {
        WorkerModel { name: self.name@, shutdown: self.shutdown }
    }
}

/// Where the team keeps its files, and which members run.
#[derive(Debug)]
pub struct TeamManager {
    team_dir: String,
    config_path: String,
    inbox_dir: String,
    workers: Vec<WorkerHandle>,
}

/// Where the team keeps its files, and which members run.
#[verifier::ext_equal]
pub struct TeamModel {
    pub team_dir: Seq<char>,
    pub config_path: Seq<char>,
    pub inbox_dir: Seq<char>,
    pub workers: Seq<WorkerModel>,
}

impl View for TeamManager {
    type V = TeamModel;

    closed spec fn view(&self) -> TeamModel {
        TeamModel {
            team_dir: self.team_dir@,
            config_path: self.config_path@,
            inbox_dir: self.inbox_dir@,
            workers: self.workers.deep_view(),
        }
    }
}

// ---------------------------------------------------------------------------
// Names, messages and inboxes

/// A member's name as it was given, or what is wrong with it.
pub fn normalize_member_name(raw: &str) -> (r: Result<String, String>)
    ensures
        match r {
            Ok(s) => text::label(raw@, "member name"@) == Ok::<Seq<char>, Seq<char>>(s@),
            Err(e) => text::label(raw@, "member name"@) == Err::<Seq<char>, Seq<char>>(e@),
        },
{
    text::normalize_label(raw, "member name")
}

/// The inbox of a member.
pub open spec fn inbox_of(inbox_dir: Seq<char>, name: Seq<char>) -> Seq<char> {
    paths::path_joined(inbox_dir, name + ".jsonl"@)
}

/// A message that is sent at the given time.
pub open spec fn plain_message(from: Seq<char>, content: Seq<char>, now_ms: u128) -> MessageModel {
    MessageModel { msg_type: "message"@, from, content, timestamp_unix_ms: now_ms }
}

/// The position of a running member, or the number of them.
pub open spec fn worker_place(workers: Seq<WorkerModel>, name: Seq<char>) -> int
    decreases workers.len(),
{
    if workers.len() == 0 || workers[0].name == name {
        0
    } else {
        1 + worker_place(workers.skip(1), name)
    }
}

/// The position of a member, or the number of them.
pub open spec fn member_place(members: Seq<MemberModel>, name: Seq<char>) -> int
    decreases members.len(),
{
    if members.len() == 0 || members[0].name == name {
        0
    } else {
        1 + member_place(members.skip(1), name)
    }
}

/// A member of that name exists.
pub open spec fn has_member(members: Seq<MemberModel>, name: Seq<char>) -> bool {
    member_place(members, name) < members.len()
}

/// What is sent to all members.
pub open spec fn deliveries_to_all(
    inbox_dir: Seq<char>,
    members: Seq<MemberModel>,
    message: MessageModel,
) -> Seq<DeliveryModel> {
    members.map_values(
        |m: MemberModel| DeliveryModel { inbox_file: inbox_of(inbox_dir, m.name), message },
    )
}

fn find_member(state: &TeamState, name: &str) -> (r: usize)
    ensures
        r == member_place(state@, name@),
        r <= state.members@.len(),
{
    let ghost all = state@;
    let mut i: usize = 0;
    assert(all.skip(0) =~= all);
    while i < state.members.len()
        invariant
            i <= state.members@.len(),
            all == state.members.deep_view(),
            i + member_place(all.skip(i as int), name@) == member_place(all, name@),
        decreases state.members@.len() - i,
    {
        assert(all.skip(i as int)[0] == state.members@[i as int].deep_view());
        if text::same_text(state.members[i].name.as_str(), name) {
            return i;
        }
        assert(all.skip(i as int).skip(1) =~= all.skip(i + 1));
        i = i + 1;
    }
    assert(all.skip(i as int) =~= seq![]);
    i
}

/// A place among the running members, or the one behind them.
proof fn lemma_worker_place(workers: Seq<WorkerModel>, name: Seq<char>)
    ensures
        0 <= worker_place(workers, name) <= workers.len(),
    decreases workers.len(),
{
    if workers.len() > 0 && workers[0].name != name {
        lemma_worker_place(workers.skip(1), name);
    }
}

/// The place found holds a member of that name.
proof fn lemma_member_place(members: Seq<MemberModel>, name: Seq<char>)
    ensures
        0 <= member_place(members, name) <= members.len(),
        has_member(members, name) ==> members[member_place(members, name)].name == name,
        !has_member(members, name) ==> forall|k: int|
            0 <= k < members.len() ==> (#[trigger] members[k]).name != name,
    decreases members.len(),
{
    if members.len() > 0 && members[0].name != name {
        lemma_member_place(members.skip(1), name);
        if !has_member(members, name) {
            assert forall|k: int| 0 <= k < members.len() implies (#[trigger] members[k]).name
                != name by {
                if k > 0 {
                    assert(members.skip(1)[k - 1] == members[k]);
                }
            }
        }
    }
}

/// The members with one of them in another status.
pub open spec fn status_set(members: Seq<MemberModel>, name: Seq<char>, status: MemberStatus) -> Seq<
    MemberModel,
> {
    members.update(
        member_place(members, name),
        MemberModel { status, ..members[member_place(members, name)] },
    )
}

/// No two members have the same name.
pub open spec fn names_differ(members: Seq<MemberModel>) -> bool {
    forall|i: int, j: int|
        0 <= i < j < members.len() ==> (#[trigger] members[i]).name != (#[trigger] members[j]).name
}

/// The names of the members stay different when one joins whose name is not
/// taken, and when a status changes.
pub proof fn lemma_names_stay_different(
    members: Seq<MemberModel>,
    member: MemberModel,
    name: Seq<char>,
    status: MemberStatus,
)
    requires
        names_differ(members),
    ensures
        !has_member(members, member.name) ==> names_differ(members.push(member)),
        has_member(members, name) ==> names_differ(status_set(members, name, status)),
{
    lemma_member_place(members, member.name);
    lemma_member_place(members, name);
    if has_member(members, name) {
        let after = status_set(members, name, status);
        assert forall|i: int, j: int| 0 <= i < j < after.len() implies (#[trigger] after[i]).name
            != (#[trigger] after[j]).name by {
            assert(after[i].name == members[i].name);
            assert(after[j].name == members[j].name);
        }
    }
}

impl TeamState {
    /// No members yet.
    pub fn empty() -> (r: TeamState)
        ensures
            r@ == Seq::<MemberModel>::empty(),
    {
        let r = TeamState { members: Vec::new() };
        assert(r@ =~= Seq::<MemberModel>::empty());
        r
    }

    /// Notes what a member is doing.
    pub fn update_member_status(&mut self, name: &str, status: MemberStatus) -> (r: Result<
        (),
        String,
    >)
        ensures
            if has_member(old(self)@, name@) {
                r is Ok && final(self)@ == status_set(old(self)@, name@, status)
            } else {
                final(self)@ == old(self)@ && (r matches Err(e) && e@ == "teammate '"@ + name@
                    + "' not found"@)
            },
    {
        let ghost before = self@;
        proof {
            lemma_member_place(before, name@);
        }
        let at = find_member(self, name);
        if at == self.members.len() {
            return Err(text::concat3("teammate '", name, "' not found"));
        }
        let old_member = &self.members[at];
        let member = TeamMember {
            name: old_member.name.clone(),
            role: old_member.role.clone(),
            task_id: text::clone_text(&old_member.task_id),
            status,
            created_at_unix_ms: old_member.created_at_unix_ms,
        };
        let ghost model = member.deep_view();
        self.members.set(at, member);
        assert(self.members.deep_view() =~= before.update(at as int, model));
        Ok(())
    }
}

fn new_message(from: &str, content: &str, now_ms: u128) -> (r: TeamMessage)
    ensures
        r.deep_view() == plain_message(from@, content@, now_ms),
{
    TeamMessage {
        msg_type: text::owned("message"),
        from: text::owned(from),
        content: text::owned(content),
        timestamp_unix_ms: now_ms,
    }
}

/// The sender and the text of a message as they are sent, or what is wrong with
/// them.
pub fn check_message(from: &str, content: &str) -> (r: Result<(String, String), String>)
    ensures
        match text::label(from@, "member name"@) {
            Err(wrong) => r matches Err(e) && e@ == wrong,
            Ok(f) => if text::is_blank(content@) {
                r matches Err(e) && e@ == "message content cannot be empty"@
            } else {
                r matches Ok(m) && m.0@ == f && m.1@ == text::trimmed(content@)
            },
        },
{
    let from = match normalize_member_name(from) {
        Ok(n) => n,
        Err(e) => {
            return Err(e);
        },
    };
    let content = text::trim(content);
    if text::char_count(content.as_str()) == 0 {
        return Err(text::owned("message content cannot be empty"));
    }
    Ok((from, content))
}

/// The lines of an inbox that hold a message.
pub open spec fn filled_lines(lines: Seq<Seq<char>>) -> Seq<Seq<char>>
    decreases lines.len(),
{
    if lines.len() == 0 {
        seq![]
    } else if text::is_blank(lines.last()) {
        filled_lines(lines.drop_last())
    } else {
        filled_lines(lines.drop_last()).push(lines.last())
    }
}

/// The lines of an inbox that hold a message.
pub fn inbox_lines(content: &str) -> (r: Vec<String>)
    ensures
        r.deep_view() == filled_lines(text::lines(content@)),
{
    let lines = text::lines_of(content);
    let ghost all = lines.deep_view();
    let mut r: Vec<String> = Vec::new();
    let mut i: usize = 0;
    proof {
        assert(all.take(0) =~= seq![]);
        assert(r.deep_view() =~= seq![]);
    }
    while i < lines.len()
        invariant
            i <= lines@.len(),
            all == lines.deep_view(),
            r.deep_view() == filled_lines(all.take(i as int)),
        decreases lines@.len() - i,
    {
        let ghost before = r.deep_view();
        proof {
            assert(all.take(i + 1).drop_last() =~= all.take(i as int));
            assert(all.take(i + 1).last() == lines@[i as int]@);
        }
        let trimmed = text::trim(lines[i].as_str());
        if text::char_count(trimmed.as_str()) > 0 {
            let copy = lines[i].clone();
            r.push(copy);
            assert(r.deep_view() =~= before.push(copy@));
        }
        i = i + 1;
    }
    assert(all.take(all.len() as int) =~= all);
    r
}

// ---------------------------------------------------------------------------
// Tasks of members

/// Why a member cannot be bound to the task that it is to have.
pub open spec fn binding_refused(
    tasks: RegistryModel,
    task_id: Option<Seq<char>>,
    mode: TaskBindingMode,
) -> Option<Seq<char>> {
    match task_id {
        None => None,
        Some(raw) => {
            let id = text::trimmed(raw);
            if id.len() == 0 {
                Some("task_id cannot be empty when provided"@)
            } else if !tasks.knows(id) && mode == TaskBindingMode::Strict {
                Some("task_id '"@ + id + "' not found (validation_mode=strict)"@)
            } else {
                None
            }
        },
    }
}

/// The task that a member is bound to.
pub open spec fn bound_task(tasks: RegistryModel, task_id: Option<Seq<char>>) -> Option<Seq<char>> {
    match task_id {
        None => None,
        Some(raw) => if tasks.knows(text::trimmed(raw)) {
            Some(text::trimmed(raw))
        } else {
            None
        },
    }
}

/// What is said where a member is bound to nothing although it was to be.
pub open spec fn binding_note(tasks: RegistryModel, task_id: Option<Seq<char>>) -> Option<Seq<char>> {
    match task_id {
        None => None,
        Some(raw) => if tasks.knows(text::trimmed(raw)) {
            None
        } else {
            Some(
                "task_id '"@ + text::trimmed(raw)
                    + "' not found; continuing without task binding"@,
            )
        },
    }
}

/// The tasks after a member was bound to one.
pub open spec fn bound_tasks(
    tasks: RegistryModel,
    teammate: Seq<char>,
    task_id: Option<Seq<char>>,
    now_ms: u128,
) -> RegistryModel {
    match task_id {
        None => tasks,
        Some(raw) => match tasks.task(text::trimmed(raw)) {
            Some(task) => tasks.changed(
                text::trimmed(raw),
                TaskModel {
                    assigned_teammate: Some(teammate),
                    updated_at_unix_ms: now_ms,
                    ..task
                },
            ),
            None => tasks,
        },
    }
}

/// What a member is bound to: a task that exists, or nothing and a note where
/// it does not and need not.
#[derive(Debug)]
pub struct Binding {
    pub task_id: Option<String>,
    pub note: Option<String>,
}

/// Binds a member to a task.
pub fn resolve_task_binding(
    tasks: &mut TaskRegistry,
    teammate: &str,
    task_id: Option<&str>,
    mode: TaskBindingMode,
    now_ms: u128,
) -> (r: Result<Binding, String>)
    ensures
        match binding_refused(old(tasks)@, task_id.deep_view(), mode) {
            Some(wrong) => final(tasks)@ == old(tasks)@ && (r matches Err(e) && e@ == wrong),
            None => {
                &&& final(tasks)@ == bound_tasks(
                    old(tasks)@,
                    teammate@,
                    task_id.deep_view(),
                    now_ms,
                )
                &&& r matches Ok(b) && b.task_id.deep_view() == bound_task(
                    old(tasks)@,
                    task_id.deep_view(),
                ) && b.note.deep_view() == binding_note(old(tasks)@, task_id.deep_view())
            },
        },
{
    match task_id {
        None => Ok(Binding { task_id: None, note: None }),
        Some(raw) => {
            let id = text::trim(raw);
            if text::char_count(id.as_str()) == 0 {
                return Err(text::owned("task_id cannot be empty when provided"));
            }
            if tasks.has_task(id.as_str()) {
                match tasks.bind_teammate(id.as_str(), teammate, now_ms) {
                    Ok(_) => Ok(Binding { task_id: Some(id), note: None }),
                    Err(e) => Err(e),
                }
            } else {
                match mode {
                    TaskBindingMode::Strict => Err(
                        text::concat3(
                            "task_id '",
                            id.as_str(),
                            "' not found (validation_mode=strict)",
                        ),
                    ),
                    TaskBindingMode::BestEffort => Ok(
                        Binding {
                            task_id: None,
                            note: Some(
                                text::concat3(
                                    "task_id '",
                                    id.as_str(),
                                    "' not found; continuing without task binding",
                                ),
                            ),
                        },
                    ),
                }
            }
        },
    }
}

/// What a member is told of its task.
pub open spec fn task_context(tasks: RegistryModel, task_id: Option<Seq<char>>) -> Seq<char> {
    match task_id {
        None => "No task binding for this teammate."@,
        Some(id) => match tasks.task(id) {
            None => "Task binding requested ('"@ + id
                + "'), but task is not currently registered."@,
            Some(task) => "Task context: id='"@ + task.id + "', status='"@ + task.status.name()
                + "', assigned_teammate='"@ + (match task.assigned_teammate {
                Some(t) => t,
                None => "<none>"@,
            }) + "', prompt='"@ + task.prompt + "'"@,
        },
    }
}

/// What a member is told of its task.
pub fn render_task_context(tasks: &TaskRegistry, task_id: &Option<String>) -> (r: String)
    ensures
        r@ == task_context(tasks@, task_id.deep_view()),
{
    match task_id {
        None => text::owned("No task binding for this teammate."),
        Some(id) => match tasks.get(id.as_str()) {
            None => text::concat3(
                "Task binding requested ('",
                id.as_str(),
                "'), but task is not currently registered.",
            ),
            Some(task) => {
                let mut r = text::concat3("Task context: id='", task.id.as_str(), "', status='");
                r.append(task.status.name_str());
                r.append("', assigned_teammate='");
                match &task.assigned_teammate {
                    Some(t) => r.append(t.as_str()),
                    None => r.append("<none>"),
                }
                r.append("', prompt='");
                r.append(task.prompt.as_str());
                r.append("'");
                r
            },
        },
    }
}

/// A result as it is kept with a task.
pub open spec fn preview_of(s: Seq<char>) -> Seq<char> {
    text::first_chars(text::trimmed(s), TASK_RESULT_PREVIEW_CHARS as nat)
}

/// A result as it is kept with a task.
pub fn truncate_preview(s: &str) -> (r: String)
    ensures
        r@ == preview_of(s@),
{
    let trimmed = text::trim(s);
    text::take_chars(trimmed.as_str(), TASK_RESULT_PREVIEW_CHARS)
}

// ---------------------------------------------------------------------------
// The team

/// A new member that was checked and bound to its task and has not joined yet.
#[derive(Debug)]
pub struct NewTeammate {
    pub name: String,
    pub role: String,
    pub prompt: String,
    pub task_id: Option<String>,
    pub note: Option<String>,
}

/// A new member that was checked and bound to its task and has not joined yet.
#[verifier::ext_equal]
pub struct NewTeammateModel {
    pub name: Seq<char>,
    pub role: Seq<char>,
    pub prompt: Seq<char>,
    pub task_id: Option<Seq<char>>,
    pub note: Option<Seq<char>>,
}

impl DeepView for NewTeammate {
    type V = NewTeammateModel;

    open spec fn deep_view(&self) -> NewTeammateModel {
        NewTeammateModel {
            name: self.name@,
            role: self.role@,
            prompt: self.prompt@,
            task_id: self.task_id.deep_view(),
            note: self.note.deep_view(),
        }
    }
}

/// A new member: what it is told, and the answer to whoever asked for it.
#[derive(Debug)]
pub struct SpawnedTeammate {
    pub name: String,
    pub role: String,
    pub prompt: String,
    pub task_id: Option<String>,
    pub response: String,
}

/// The answer to whoever asked for a new member.
pub open spec fn spawn_response(
    name: Seq<char>,
    role: Seq<char>,
    task_id: Option<Seq<char>>,
    note: Option<Seq<char>>,
) -> Seq<char> {
    "spawned teammate '"@ + name + "' with role '"@ + role + "'"@ + (match task_id {
        Some(id) => " (bound to task '"@ + id + "')"@,
        None => seq![],
    }) + (match note {
        Some(n) => "; "@ + n,
        None => seq![],
    })
}

/// Refuses a name that is taken.
pub open spec fn taken(name: Seq<char>) -> Seq<char> {
    "teammate '"@ + name + "' already exists"@
}

impl TeamState {
    /// A new member joins the others if its name is not taken.
    pub fn join(&mut self, teammate: NewTeammate, now_ms: u128) -> (r: Result<
        SpawnedTeammate,
        String,
    >)
        ensures
            ({
                let t = teammate.deep_view();
                if has_member(old(self)@, t.name) {
                    &&& r matches Err(e) && e@ == taken(t.name)
                    &&& final(self)@ == old(self)@
                } else {
                    &&& r matches Ok(s) && s.name@ == t.name && s.role@ == t.role && s.prompt@
                        == t.prompt && s.task_id.deep_view() == t.task_id && s.response@
                        == spawn_response(t.name, t.role, t.task_id, t.note)
                    &&& final(self)@ == old(self)@.push(
                        MemberModel {
                            name: t.name,
                            role: t.role,
                            task_id: t.task_id,
                            status: MemberStatus::Working,
                            created_at_unix_ms: now_ms,
                        },
                    )
                }
            }),
    {
        if find_member(self, teammate.name.as_str()) < self.members.len() {
            return Err(text::concat3("teammate '", teammate.name.as_str(), "' already exists"));
        }
        let ghost before = self@;
        let member = TeamMember {
            name: teammate.name.clone(),
            role: teammate.role.clone(),
            task_id: text::clone_text(&teammate.task_id),
            status: MemberStatus::Working,
            created_at_unix_ms: now_ms,
        };
        let ghost model = member.deep_view();
        self.members.push(member);
        assert(self.members.deep_view() =~= before.push(model));
        let mut response = text::concat3(
            "spawned teammate '",
            teammate.name.as_str(),
            "' with role '",
        );
        response.append(teammate.role.as_str());
        response.append("'");
        let ghost head = response@;
        match &teammate.task_id {
            Some(id) => {
                let part = text::concat3(" (bound to task '", id.as_str(), "')");
                response.append(part.as_str());
            },
            None => {
                assert(response@ =~= head + seq![]);
            },
        }
        let ghost longer = response@;
        match &teammate.note {
            Some(note) => {
                let part = text::concat("; ", note.as_str());
                response.append(part.as_str());
            },
            None => {
                assert(response@ =~= longer + seq![]);
            },
        }
        Ok(
            SpawnedTeammate {
                name: teammate.name,
                role: teammate.role,
                prompt: teammate.prompt,
                task_id: teammate.task_id,
                response,
            },
        )
    }
}

impl TeamManager {
    /// A team that keeps its files in the given directory.
    pub fn new(team_dir: &str) -> (r: TeamManager)
        ensures
            r@ == (TeamModel {
                team_dir: team_dir@,
                config_path: paths::path_joined(team_dir@, "config.json"@),
                inbox_dir: paths::path_joined(team_dir@, "inbox"@),
                workers: seq![],
            }),
    {
        let r = TeamManager {
            team_dir: text::owned(team_dir),
            config_path: paths::path_join(team_dir, "config.json"),
            inbox_dir: paths::path_join(team_dir, "inbox"),
            workers: Vec::new(),
        };
        assert(r.workers.deep_view() =~= seq![]);
        r
    }

    /// The file that the members are kept in.
    pub fn config_path(&self) -> (r: &str)
        ensures
            r@ == self@.config_path,
    {
        self.config_path.as_str()
    }

    /// The directory of all inboxes.
    pub fn inbox_dir(&self) -> (r: &str)
        ensures
            r@ == self@.inbox_dir,
    {
        self.inbox_dir.as_str()
    }

    /// The inbox of a member.
    pub fn inbox_file(&self, name: &str) -> (r: String)
        ensures
            r@ == inbox_of(self@.inbox_dir, name@),
    {
        let file = text::concat(name, ".jsonl");
        paths::path_join(self.inbox_dir.as_str(), file.as_str())
    }

    fn find_worker(&self, name: &str) -> (r: usize)
        ensures
            r == worker_place(self@.workers, name@),
            r <= self.workers@.len(),
    {
        let ghost all = self@.workers;
        let mut i: usize = 0;
        assert(all.skip(0) =~= all);
        while i < self.workers.len()
            invariant
                i <= self.workers@.len(),
                all == self.workers.deep_view(),
                i + worker_place(all.skip(i as int), name@) == worker_place(all, name@),
            decreases self.workers@.len() - i,
        {
            assert(all.skip(i as int)[0] == self.workers@[i as int].deep_view());
            if text::same_text(self.workers[i].name.as_str(), name) {
                return i;
            }
            assert(all.skip(i as int).skip(1) =~= all.skip(i + 1));
            i = i + 1;
        }
        assert(all.skip(i as int) =~= seq![]);
        i
    }

    /// Whether a member was asked to stop.
    pub fn shutdown_requested(&self, name: &str) -> (r: bool)
        ensures
            r == (worker_place(self@.workers, name@) < self@.workers.len()
                && self@.workers[worker_place(self@.workers, name@)].shutdown),
    {
        let at = self.find_worker(name);
        if at < self.workers.len() {
            assert(self@.workers[at as int] == self.workers@[at as int].deep_view());
            self.workers[at].shutdown
        } else {
            false
        }
    }

    /// Checks a new member: its name and role are looked at, it is bound to its
    /// task, and no member that runs may have its name.
    pub fn check_teammate(
        &self,
        tasks: &mut TaskRegistry,
        name: &str,
        role: &str,
        prompt: &str,
        task_id: Option<&str>,
        mode: TaskBindingMode,
        now_ms: u128,
    ) -> (r: Result<NewTeammate, String>)
        ensures
            match text::label(name@, "member name"@) {
                Err(wrong) => {
                    &&& r matches Err(e) && e@ == wrong
                    &&& final(tasks)@ == old(tasks)@
                },
                Ok(n) => if text::is_blank(role@) {
                    &&& r matches Err(e) && e@ == "teammate role cannot be empty"@
                    &&& final(tasks)@ == old(tasks)@
                } else {
                    match binding_refused(old(tasks)@, task_id.deep_view(), mode) {
                        Some(wrong) => {
                            &&& r matches Err(e) && e@ == wrong
                            &&& final(tasks)@ == old(tasks)@
                        },
                        None => {
                            &&& final(tasks)@ == bound_tasks(
                                old(tasks)@,
                                n,
                                task_id.deep_view(),
                                now_ms,
                            )
                            &&& if worker_place(self@.workers, n) < self@.workers.len() {
                                r matches Err(e) && e@ == taken(n)
                            } else {
                                r matches Ok(t) && t.deep_view() == (NewTeammateModel {
                                    name: n,
                                    role: text::trimmed(role@),
                                    prompt: text::trimmed(prompt@),
                                    task_id: bound_task(old(tasks)@, task_id.deep_view()),
                                    note: binding_note(old(tasks)@, task_id.deep_view()),
                                })
                            }
                        },
                    }
                },
            },
    {
        let name = match normalize_member_name(name) {
            Ok(n) => n,
            Err(e) => {
                return Err(e);
            },
        };
        let role = text::trim(role);
        if text::char_count(role.as_str()) == 0 {
            return Err(text::owned("teammate role cannot be empty"));
        }
        let binding = match resolve_task_binding(tasks, name.as_str(), task_id, mode, now_ms) {
            Ok(b) => b,
            Err(e) => {
                return Err(e);
            },
        };
        if self.find_worker(name.as_str()) < self.workers.len() {
            return Err(text::concat3("teammate '", name.as_str(), "' already exists"));
        }
        Ok(
            NewTeammate {
                name,
                role,
                prompt: text::trim(prompt),
                task_id: binding.task_id,
                note: binding.note,
            },
        )
    }

    /// Takes in a new member: its name and role are checked, it is bound to its
    /// task, and it joins the others if its name is not taken.
    pub fn spawn_teammate(
        &self,
        state: &mut TeamState,
        tasks: &mut TaskRegistry,
        name: &str,
        role: &str,
        prompt: &str,
        task_id: Option<&str>,
        mode: TaskBindingMode,
        now_ms: u128,
    ) -> (r: Result<SpawnedTeammate, String>)
        ensures
            match r {
                Ok(s) => {
                    &&& text::label(name@, "member name"@) == Ok::<Seq<char>, Seq<char>>(s.name@)
                    &&& !text::is_blank(role@) && s.role@ == text::trimmed(role@)
                    &&& s.prompt@ == text::trimmed(prompt@)
                    &&& binding_refused(old(tasks)@, task_id.deep_view(), mode) is None
                    &&& s.task_id.deep_view() == bound_task(old(tasks)@, task_id.deep_view())
                    &&& final(tasks)@ == bound_tasks(
                        old(tasks)@,
                        s.name@,
                        task_id.deep_view(),
                        now_ms,
                    )
                    &&& worker_place(self@.workers, s.name@) == self@.workers.len()
                    &&& !has_member(old(state)@, s.name@)
                    &&& final(state)@ == old(state)@.push(
                        MemberModel {
                            name: s.name@,
                            role: s.role@,
                            task_id: s.task_id.deep_view(),
                            status: MemberStatus::Working,
                            created_at_unix_ms: now_ms,
                        },
                    )
                    &&& s.response@ == spawn_response(
                        s.name@,
                        s.role@,
                        s.task_id.deep_view(),
                        binding_note(old(tasks)@, task_id.deep_view()),
                    )
                },
                Err(e) => {
                    &&& final(state)@ == old(state)@
                    &&& match text::label(name@, "member name"@) {
                        Err(wrong) => e@ == wrong && final(tasks)@ == old(tasks)@,
                        Ok(n) => if text::is_blank(role@) {
                            e@ == "teammate role cannot be empty"@ && final(tasks)@ == old(tasks)@
                        } else {
                            match binding_refused(old(tasks)@, task_id.deep_view(), mode) {
                                Some(wrong) => e@ == wrong && final(tasks)@ == old(tasks)@,
                                None => {
                                    &&& e@ == taken(n)
                                    &&& worker_place(self@.workers, n) < self@.workers.len()
                                        || has_member(old(state)@, n)
                                    &&& final(tasks)@ == bound_tasks(
                                        old(tasks)@,
                                        n,
                                        task_id.deep_view(),
                                        now_ms,
                                    )
                                },
                            }
                        },
                    }
                },
            },
    {
        match self.check_teammate(tasks, name, role, prompt, task_id, mode, now_ms) {
            Ok(teammate) => {
                proof {
                    lemma_worker_place(self@.workers, teammate.name@);
                }
                state.join(teammate, now_ms)
            },
            Err(e) => Err(e),
        }
    }

    /// Notes that a member runs.
    pub fn add_worker(&mut self, name: &str)
        ensures
            final(self)@ == (TeamModel {
                workers: old(self)@.workers.push(WorkerModel { name: name@, shutdown: false }),
                ..old(self)@
            }),
    {
        let ghost before = self@.workers;
        self.workers.push(WorkerHandle { name: text::owned(name), shutdown: false });
        assert(self.workers.deep_view() =~= before.push(
            WorkerModel { name: name@, shutdown: false },
        ));
    }

    /// Notes that a member does not run any more.
    pub fn remove_worker(&mut self, name: &str)
        ensures
            final(self)@ == (TeamModel {
                workers: if worker_place(old(self)@.workers, name@) < old(self)@.workers.len() {
                    old(self)@.workers.remove(worker_place(old(self)@.workers, name@))
                } else {
                    old(self)@.workers
                },
                ..old(self)@
            }),
    {
        let ghost before = self@.workers;
        let at = self.find_worker(name);
        if at < self.workers.len() {
            self.workers.remove(at);
            assert(self.workers.deep_view() =~= before.remove(at as int));
        }
    }

    /// Asks a member to stop.
    pub fn shutdown_teammate(&mut self, name: &str) -> (r: Result<String, String>)
        ensures
            match text::label(name@, "member name"@) {
                Err(wrong) => final(self)@ == old(self)@ && (r matches Err(e) && e@ == wrong),
                Ok(n) => {
                    let at = worker_place(old(self)@.workers, n);
                    if at < old(self)@.workers.len() {
                        &&& r matches Ok(s) && s@ == "shutdown signal sent to teammate '"@ + n
                            + "'"@
                        &&& final(self)@ == (TeamModel {
                            workers: old(self)@.workers.update(
                                at,
                                WorkerModel { shutdown: true, ..old(self)@.workers[at] },
                            ),
                            ..old(self)@
                        })
                    } else {
                        &&& r matches Err(e) && e@ == "teammate '"@ + n + "' not running"@
                        &&& final(self)@ == old(self)@
                    }
                },
            },
    {
        let name = match normalize_member_name(name) {
            Ok(n) => n,
            Err(e) => {
                return Err(e);
            },
        };
        let ghost before = self@.workers;
        let at = self.find_worker(name.as_str());
        if at == self.workers.len() {
            return Err(text::concat3("teammate '", name.as_str(), "' not running"));
        }
        let marked = WorkerHandle { name: self.workers[at].name.clone(), shutdown: true };
        let ghost model = marked.deep_view();
        self.workers.set(at, marked);
        assert(self.workers.deep_view() =~= before.update(at as int, model));
        Ok(text::concat3("shutdown signal sent to teammate '", name.as_str(), "'"))
    }

    /// A message from one member to another.
    pub fn send(&self, from: &str, to: &str, content: &str, now_ms: u128) -> (r: Result<
        Sending,
        String,
    >)
        ensures
            match (text::label(from@, "member name"@), text::label(to@, "member name"@)) {
                (Err(wrong), _) => r matches Err(e) && e@ == wrong,
                (Ok(_), Err(wrong)) => r matches Err(e) && e@ == wrong,
                (Ok(f), Ok(t)) => if text::is_blank(content@) {
                    r matches Err(e) && e@ == "message content cannot be empty"@
                } else {
                    &&& r is Ok
                    &&& r->Ok_0.deliveries.deep_view() == seq![
                        DeliveryModel {
                            inbox_file: inbox_of(self@.inbox_dir, t),
                            message: plain_message(f, text::trimmed(content@), now_ms),
                        },
                    ]
                    &&& r->Ok_0.response@ == "sent message to '"@ + t + "'"@
                },
            },
    {
        let from = match normalize_member_name(from) {
            Ok(n) => n,
            Err(e) => {
                return Err(e);
            },
        };
        let to = match normalize_member_name(to) {
            Ok(n) => n,
            Err(e) => {
                return Err(e);
            },
        };
        let content = text::trim(content);
        if text::char_count(content.as_str()) == 0 {
            return Err(text::owned("message content cannot be empty"));
        }
        let delivery = Delivery {
            inbox_file: self.inbox_file(to.as_str()),
            message: new_message(from.as_str(), content.as_str(), now_ms),
        };
        let ghost model = delivery.deep_view();
        let mut deliveries: Vec<Delivery> = Vec::new();
        deliveries.push(delivery);
        assert(deliveries.deep_view() =~= seq![model]);
        Ok(
            Sending {
                deliveries,
                response: text::concat3("sent message to '", to.as_str(), "'"),
            },
        )
    }

    /// A message from one member to all.
    pub fn broadcast(&self, state: &TeamState, from: &str, content: &str, now_ms: u128) -> (r: Result<
        Sending,
        String,
    >)
        ensures
            match text::label(from@, "member name"@) {
                Err(wrong) => r matches Err(e) && e@ == wrong,
                Ok(f) => if text::is_blank(content@) {
                    r matches Err(e) && e@ == "message content cannot be empty"@
                } else {
                    &&& r is Ok
                    &&& r->Ok_0.deliveries.deep_view() == deliveries_to_all(
                        self@.inbox_dir,
                        state@,
                        plain_message(f, text::trimmed(content@), now_ms),
                    )
                    &&& r->Ok_0.response@ == "broadcast message sent to "@ + text::decimal(
                        state@.len(),
                    ) + " teammate(s)"@
                },
            },
    {
        let (from, content) = match check_message(from, content) {
            Ok(checked) => checked,
            Err(e) => {
                return Err(e);
            },
        };
        let ghost message = plain_message(from@, content@, now_ms);
        let ghost wanted = deliveries_to_all(self@.inbox_dir, state@, message);
        let mut deliveries: Vec<Delivery> = Vec::new();
        let mut i: usize = 0;
        assert(deliveries.deep_view() =~= wanted.take(0));
        while i < state.members.len()
            invariant
                i <= state.members@.len(),
                message == plain_message(from@, content@, now_ms),
                wanted == deliveries_to_all(self@.inbox_dir, state@, message),
                deliveries.deep_view() == wanted.take(i as int),
            decreases state.members@.len() - i,
        {
            let ghost before = deliveries.deep_view();
            let delivery = Delivery {
                inbox_file: self.inbox_file(state.members[i].name.as_str()),
                message: new_message(from.as_str(), content.as_str(), now_ms),
            };
            let ghost model = delivery.deep_view();
            assert(model == wanted[i as int]);
            deliveries.push(delivery);
            assert(deliveries.deep_view() =~= before.push(model));
            assert(wanted.take(i + 1) =~= wanted.take(i as int).push(wanted[i as int]));
            i = i + 1;
        }
        assert(wanted.take(i as int) =~= wanted);
        let number = text::decimal_of(state.members.len() as u128);
        Ok(
            Sending {
                deliveries,
                response: text::concat3(
                    "broadcast message sent to ",
                    number.as_str(),
                    " teammate(s)",
                ),
            },
        )
    }
}

// ---------------------------------------------------------------------------
// The state of the team as the model is told of it

/// What is shown of a member's task.
pub open spec fn task_snapshot(
    tasks: Option<RegistryModel>,
    task_id: Option<Seq<char>>,
) -> JsonModel {
    let unavailable = JsonModel::empty_object().with("available"@, JsonModel::Bool(false));
    match tasks {
        None => unavailable.with("reason"@, JsonModel::Text("task registry unavailable"@)),
        Some(r) => match task_id {
            None => unavailable.with("reason"@, JsonModel::Text("no task bound"@)),
            Some(id) => match r.task(id) {
                None => unavailable.with("reason"@, JsonModel::Text("task not found"@)).with(
                    "task_id"@,
                    JsonModel::Text(id),
                ),
                Some(task) => JsonModel::empty_object().with(
                    "available"@,
                    JsonModel::Bool(true),
                ).with("task_id"@, JsonModel::Text(task.id)).with(
                    "status"@,
                    JsonModel::Text(task.status.key()),
                ).with(
                    "assigned_teammate"@,
                    JsonModel::optional_text(task.assigned_teammate),
                ).with("result_preview"@, JsonModel::optional_text(task.result_preview)).with(
                    "error"@,
                    JsonModel::optional_text(task.error),
                ).with(
                    "updated_at_unix_ms"@,
                    JsonModel::uint(task.updated_at_unix_ms as u64),
                ).with("is_terminal"@, JsonModel::Bool(task.status.terminal())),
            },
        },
    }
}

/// The status of a member's task, if the task is known.
pub open spec fn task_status(
    tasks: Option<RegistryModel>,
    task_id: Option<Seq<char>>,
) -> Option<TaskStatus> {
    match tasks {
        Some(r) => match task_id {
            Some(id) => match r.task(id) {
                Some(task) => Some(task.status),
                None => None,
            },
            None => None,
        },
        None => None,
    }
}

/// An item of the plan that the tasks of the members make up.
#[verifier::ext_equal]
pub struct PlanItem {
    pub teammate: Seq<char>,
    pub task_id: Seq<char>,
    pub task_status: Option<TaskStatus>,
    pub active: bool,
}

impl PlanItem {
    /// The status of the item: only the active one is in progress.
    pub open spec fn todo_status(self) -> Seq<char> {
        if self.active {
            "in_progress"@
        } else if self.task_status == Some(TaskStatus::Completed) {
            "completed"@
        } else {
            "pending"@
        }
    }

    /// The item as it is shown.
    pub open spec fn shown(self) -> JsonModel {
        JsonModel::empty_object().with("id"@, JsonModel::Text(self.task_id)).with(
            "content"@,
            JsonModel::Text("teammate '"@ + self.teammate + "' task"@),
        ).with("status"@, JsonModel::Text(self.todo_status())).with(
            "source"@,
            JsonModel::empty_object().with("teammate"@, JsonModel::Text(self.teammate)).with(
                "task_id"@,
                JsonModel::Text(self.task_id),
            ).with(
                "task_status"@,
                JsonModel::Text(
                    match self.task_status {
                        Some(s) => s.key(),
                        None => "unknown"@,
                    },
                ),
            ).with("active"@, JsonModel::Bool(self.active)),
        )
    }
}

/// What is known of the members so far: how many tasks stand how, the plan, and
/// the tasks one by one.
#[verifier::ext_equal]
pub struct Survey {
    pub running: nat,
    pub completed: nat,
    pub failed: nat,
    pub unavailable: nat,
    pub assigned: bool,
    pub plan: Seq<PlanItem>,
    pub snapshots: Seq<JsonModel>,
}

/// One more member. The first running task is the one in progress.
pub open spec fn survey_step(s: Survey, tasks: Option<RegistryModel>, m: MemberModel) -> Survey {
    let status = task_status(tasks, m.task_id);
    let active = m.task_id is Some && status == Some(TaskStatus::Running) && !s.assigned;
    Survey {
        running: s.running + (if status == Some(TaskStatus::Running) {
            1nat
        } else {
            0nat
        }),
        completed: s.completed + (if status == Some(TaskStatus::Completed) {
            1nat
        } else {
            0nat
        }),
        failed: s.failed + (if status == Some(TaskStatus::Failed) {
            1nat
        } else {
            0nat
        }),
        unavailable: s.unavailable + (if status is None {
            1nat
        } else {
            0nat
        }),
        assigned: s.assigned || active,
        plan: match m.task_id {
            Some(id) => s.plan.push(
                PlanItem { teammate: m.name, task_id: id, task_status: status, active },
            ),
            None => s.plan,
        },
        snapshots: s.snapshots.push(
            JsonModel::empty_object().with("teammate"@, JsonModel::Text(m.name)).with(
                "task_id"@,
                JsonModel::optional_text(m.task_id),
            ).with("snapshot"@, task_snapshot(tasks, m.task_id)),
        ),
    }
}

/// What is known of the members.
pub open spec fn survey(tasks: Option<RegistryModel>, members: Seq<MemberModel>) -> Survey
    decreases members.len(),
{
    if members.len() == 0 {
        Survey {
            running: 0,
            completed: 0,
            failed: 0,
            unavailable: 0,
            assigned: false,
            plan: seq![],
            snapshots: seq![],
        }
    } else {
        survey_step(survey(tasks, members.drop_last()), tasks, members.last())
    }
}

/// A member as it is shown.
pub open spec fn member_shown(m: MemberModel) -> JsonModel {
    JsonModel::empty_object().with("name"@, JsonModel::Text(m.name)).with(
        "role"@,
        JsonModel::Text(m.role),
    ).with("task_id"@, JsonModel::optional_text(m.task_id)).with(
        "status"@,
        JsonModel::Text(m.status.key()),
    ).with("created_at_unix_ms"@, JsonModel::uint(m.created_at_unix_ms as u64))
}

/// The state of the team as the model is told of it.
pub open spec fn team_shown(
    team: TeamModel,
    members: Seq<MemberModel>,
    tasks: Option<RegistryModel>,
) -> JsonModel {
    let s = survey(tasks, members);
    JsonModel::empty_object().with("team_dir"@, JsonModel::Text(team.team_dir)).with(
        "members"@,
        JsonModel::Array(members.map_values(|m: MemberModel| member_shown(m))),
    ).with(
        "active_workers"@,
        JsonModel::Array(team.workers.map_values(|w: WorkerModel| JsonModel::Text(w.name))),
    ).with("inbox_dir"@, JsonModel::Text(team.inbox_dir)).with(
        "task_snapshots"@,
        JsonModel::Array(s.snapshots),
    ).with(
        "task_snapshot_summary"@,
        JsonModel::empty_object().with("running"@, JsonModel::uint(s.running as u64)).with(
            "completed"@,
            JsonModel::uint(s.completed as u64),
        ).with("failed"@, JsonModel::uint(s.failed as u64)).with(
            "unavailable"@,
            JsonModel::uint(s.unavailable as u64),
        ),
    ).with(
        "todo_projection"@,
        JsonModel::Array(s.plan.map_values(|i: PlanItem| i.shown())),
    )
}

/// The plan has at most one item in progress, and has one exactly where some
/// member's task runs.
pub proof fn lemma_one_item_in_progress(
    tasks: Option<RegistryModel>,
    members: Seq<MemberModel>,
)
    ensures
        forall|i: int, j: int|
            0 <= i < j < survey(tasks, members).plan.len() ==> !((
            #[trigger] survey(tasks, members).plan[i]).active && (
            #[trigger] survey(tasks, members).plan[j]).active),
        survey(tasks, members).assigned <==> exists|i: int|
            0 <= i < survey(tasks, members).plan.len() && (
            #[trigger] survey(tasks, members).plan[i]).active,
        survey(tasks, members).assigned <==> survey(tasks, members).running > 0,
        survey(tasks, members).running + survey(tasks, members).completed + survey(
            tasks,
            members,
        ).failed + survey(tasks, members).unavailable == members.len(),
    decreases members.len(),
{
    if members.len() > 0 {
        let before = survey(tasks, members.drop_last());
        let after = survey(tasks, members);
        lemma_one_item_in_progress(tasks, members.drop_last());
        assert forall|i: int, j: int| 0 <= i < j < after.plan.len() implies !((
        #[trigger] after.plan[i]).active && (#[trigger] after.plan[j]).active) by {
            assert(after.plan[i] == before.plan[i]);
            if j < before.plan.len() {
                assert(after.plan[j] == before.plan[j]);
            }
        }
        if before.assigned {
            let k = choose|k: int| 0 <= k < before.plan.len() && (
            #[trigger] before.plan[k]).active;
            assert(after.plan[k] == before.plan[k]);
        } else if after.assigned {
            assert(after.plan[before.plan.len() as int].active);
        } else {
            assert forall|k: int| 0 <= k < after.plan.len() implies !(
            #[trigger] after.plan[k]).active by {
                if k < before.plan.len() {
                    assert(after.plan[k] == before.plan[k]);
                }
            }
        }
    }
}

/// The time that is shown of a member's task can be written as a JSON number.
pub open spec fn snapshot_timely(
    tasks: Option<RegistryModel>,
    task_id: Option<Seq<char>>,
) -> bool {
    match tasks {
        Some(r) => match task_id {
            Some(id) => match r.task(id) {
                Some(task) => task.updated_at_unix_ms <= u64::MAX,
                None => true,
            },
            None => true,
        },
        None => true,
    }
}

/// All times that are shown of the team can be written as JSON numbers.
pub open spec fn team_timely(members: Seq<MemberModel>, tasks: Option<RegistryModel>) -> bool {
    forall|i: int|
        0 <= i < members.len() ==> (#[trigger] members[i]).timely() && snapshot_timely(
            tasks,
            members[i].task_id,
        )
}

fn task_snapshot_value(tasks: Option<&TaskRegistry>, task_id: &Option<String>) -> (r: (
    Json,
    Option<TaskStatus>,
))
    requires
        snapshot_timely(registry_view(tasks), task_id.deep_view()),
    ensures
        r.0@ == task_snapshot(registry_view(tasks), task_id.deep_view()),
        r.1 == task_status(registry_view(tasks), task_id.deep_view()),
{
    let registry = match tasks {
        Some(t) => t,
        None => {
            return (
                Json::empty_object().with("available", Json::Bool(false)).with(
                    "reason",
                    Json::text("task registry unavailable"),
                ),
                None,
            );
        },
    };
    let id = match task_id {
        Some(id) => id,
        None => {
            return (
                Json::empty_object().with("available", Json::Bool(false)).with(
                    "reason",
                    Json::text("no task bound"),
                ),
                None,
            );
        },
    };
    match registry.get(id.as_str()) {
        None => (
            Json::empty_object().with("available", Json::Bool(false)).with(
                "reason",
                Json::text("task not found"),
            ).with("task_id", Json::text(id.as_str())),
            None,
        ),
        Some(task) => {
            let terminal = match task.status {
                TaskStatus::Running => false,
                _ => true,
            };
            (
                Json::empty_object().with("available", Json::Bool(true)).with(
                    "task_id",
                    Json::text(task.id.as_str()),
                ).with(
                    "status",
                    Json::text(task_registry::task_status_str(task.status)),
                ).with("assigned_teammate", Json::optional_text(&task.assigned_teammate)).with(
                    "result_preview",
                    Json::optional_text(&task.result_preview),
                ).with("error", Json::optional_text(&task.error)).with(
                    "updated_at_unix_ms",
                    Json::uint(task.updated_at_unix_ms as u64),
                ).with("is_terminal", Json::Bool(terminal)),
                Some(task.status),
            )
        },
    }
}

/// The tasks, where there are any.
pub open spec fn registry_view(tasks: Option<&TaskRegistry>) -> Option<RegistryModel> {
    match tasks {
        Some(t) => Some(t@),
        None => None,
    }
}

fn plan_item_json(
    teammate: &str,
    task_id: &str,
    task_status: Option<TaskStatus>,
    active: bool,
) -> (r: Json)
    ensures
        r@ == (PlanItem { teammate: teammate@, task_id: task_id@, task_status, active }).shown(),
{
    let todo_status = if active {
        "in_progress"
    } else {
        match task_status {
            Some(TaskStatus::Completed) => "completed",
            _ => "pending",
        }
    };
    let status = match task_status {
        Some(s) => task_registry::task_status_str(s),
        None => "unknown",
    };
    let content = text::concat3("teammate '", teammate, "' task");
    let source = Json::empty_object().with("teammate", Json::text(teammate)).with(
        "task_id",
        Json::text(task_id),
    ).with("task_status", Json::text(status)).with("active", Json::Bool(active));
    Json::empty_object().with("id", Json::text(task_id)).with("content", Json::Text(content)).with(
        "status",
        Json::text(todo_status),
    ).with("source", source)
}

fn member_json(m: &TeamMember) -> (r: Json)
    requires
        m.deep_view().timely(),
    ensures
        r@ == member_shown(m.deep_view()),
{
    Json::empty_object().with("name", Json::text(m.name.as_str())).with(
        "role",
        Json::text(m.role.as_str()),
    ).with("task_id", Json::optional_text(&m.task_id)).with(
        "status",
        Json::text(m.status.as_str()),
    ).with("created_at_unix_ms", Json::uint(m.created_at_unix_ms as u64))
}

impl TeamManager {
    fn worker_names_json(&self) -> (r: Vec<Json>)
        ensures
            r.deep_view() == self@.workers.map_values(|w: WorkerModel| JsonModel::Text(w.name)),
    {
        let ghost wanted = self@.workers.map_values(|w: WorkerModel| JsonModel::Text(w.name));
        let mut r: Vec<Json> = Vec::new();
        let mut i: usize = 0;
        assert(r.deep_view() =~= wanted.take(0));
        while i < self.workers.len()
            invariant
                i <= self.workers@.len(),
                wanted == self@.workers.map_values(|w: WorkerModel| JsonModel::Text(w.name)),
                wanted.len() == self.workers@.len(),
                r.deep_view() == wanted.take(i as int),
            decreases self.workers@.len() - i,
        {
            let ghost before = r.deep_view();
            let value = Json::text(self.workers[i].name.as_str());
            let ghost model = value@;
            assert(model == wanted[i as int]);
            r.push(value);
            assert(r.deep_view() =~= before.push(model));
            assert(wanted.take(i + 1) =~= wanted.take(i as int).push(wanted[i as int]));
            i = i + 1;
        }
        assert(wanted.take(i as int) =~= wanted);
        r
    }

    /// Whether all times that are shown of the team can be written as JSON
    /// numbers.
    pub fn can_show_status(&self, state: &TeamState, tasks: Option<&TaskRegistry>) -> (r: bool)
        ensures
            r == team_timely(state@, registry_view(tasks)),
    {
        let ghost members = state@;
        let ghost known = registry_view(tasks);
        let mut i: usize = 0;
        while i < state.members.len()
            invariant
                i <= state.members@.len(),
                members == state.members.deep_view(),
                known == registry_view(tasks),
                forall|k: int|
                    0 <= k < i ==> (#[trigger] members[k]).timely() && snapshot_timely(
                        known,
                        members[k].task_id,
                    ),
            decreases state.members@.len() - i,
        {
            let m = &state.members[i];
            assert(members[i as int] == m.deep_view());
            let bound = match tasks {
                Some(registry) => match &m.task_id {
                    Some(id) => registry.get(id.as_str()),
                    None => None,
                },
                None => None,
            };
            let shown = match bound {
                Some(task) => task.updated_at_unix_ms <= u64::MAX as u128,
                None => true,
            };
            if !m.is_timely() || !shown {
                return false;
            }
            i = i + 1;
        }
        true
    }

    /// The state of the team as the model is told of it.
    pub fn status_json(&self, state: &TeamState, tasks: Option<&TaskRegistry>) -> (r: String)
        requires
            team_timely(state@, registry_view(tasks)),
        ensures
            r@ == json::pretty_text(team_shown(self@, state@, registry_view(tasks))),
    {
        let ghost members = state@;
        let ghost known = registry_view(tasks);
        let ghost shown = members.map_values(|m: MemberModel| member_shown(m));
        let mut running: u64 = 0;
        let mut completed: u64 = 0;
        let mut failed: u64 = 0;
        let mut unavailable: u64 = 0;
        let mut assigned: bool = false;
        let mut plan: Vec<Json> = Vec::new();
        let mut snapshots: Vec<Json> = Vec::new();
        let mut listed: Vec<Json> = Vec::new();
        let mut i: usize = 0;
        proof {
            assert(members.take(0) =~= seq![]);
            assert(plan.deep_view() =~= Seq::<PlanItem>::empty().map_values(
                |p: PlanItem| p.shown(),
            ));
            assert(snapshots.deep_view() =~= seq![]);
            assert(listed.deep_view() =~= shown.take(0));
        }
        while i < state.members.len()
            invariant
                i <= state.members@.len(),
                members == state.members.deep_view(),
                known == registry_view(tasks),
                team_timely(members, known),
                shown == members.map_values(|m: MemberModel| member_shown(m)),
                running <= i,
                completed <= i,
                failed <= i,
                unavailable <= i,
                running == survey(known, members.take(i as int)).running,
                completed == survey(known, members.take(i as int)).completed,
                failed == survey(known, members.take(i as int)).failed,
                unavailable == survey(known, members.take(i as int)).unavailable,
                assigned == survey(known, members.take(i as int)).assigned,
                plan.deep_view() == survey(known, members.take(i as int)).plan.map_values(
                    |p: PlanItem| p.shown(),
                ),
                snapshots.deep_view() == survey(known, members.take(i as int)).snapshots,
                listed.deep_view() == shown.take(i as int),
            decreases state.members@.len() - i,
        {
            let ghost before = survey(known, members.take(i as int));
            let ghost plan_before = plan.deep_view();
            let ghost snapshots_before = snapshots.deep_view();
            let ghost listed_before = listed.deep_view();
            let m = &state.members[i];
            proof {
                assert(members[i as int] == m.deep_view());
                assert(members.take(i + 1).drop_last() =~= members.take(i as int));
                assert(members.take(i + 1).last() == m.deep_view());
            }
            let (snapshot, status) = task_snapshot_value(tasks, &m.task_id);
            match status {
                Some(TaskStatus::Running) => {
                    running = running + 1;
                },
                Some(TaskStatus::Completed) => {
                    completed = completed + 1;
                },
                Some(TaskStatus::Failed) => {
                    failed = failed + 1;
                },
                None => {
                    unavailable = unavailable + 1;
                },
            }
            match &m.task_id {
                Some(id) => {
                    let active = match status {
                        Some(TaskStatus::Running) => !assigned,
                        _ => false,
                    };
                    if active {
                        assigned = true;
                    }
                    let item = plan_item_json(m.name.as_str(), id.as_str(), status, active);
                    let ghost model = item@;
                    plan.push(item);
                    proof {
                        assert(plan.deep_view() =~= plan_before.push(model));
                        let entry = PlanItem {
                            teammate: m.name@,
                            task_id: id@,
                            task_status: status,
                            active,
                        };
                        assert(before.plan.push(entry).map_values(|p: PlanItem| p.shown())
                            =~= plan_before.push(model));
                    }
                },
                None => {},
            }
            let value = Json::empty_object().with("teammate", Json::text(m.name.as_str())).with(
                "task_id",
                Json::optional_text(&m.task_id),
            ).with("snapshot", snapshot);
            let ghost value_model = value@;
            snapshots.push(value);
            assert(snapshots.deep_view() =~= snapshots_before.push(value_model));
            let member = member_json(m);
            let ghost member_model = member@;
            assert(member_model == shown[i as int]);
            listed.push(member);
            proof {
                assert(listed.deep_view() =~= listed_before.push(member_model));
                assert(shown.take(i + 1) =~= shown.take(i as int).push(shown[i as int]));
            }
            i = i + 1;
        }
        proof {
            assert(members.take(i as int) =~= members);
            assert(shown.take(i as int) =~= shown);
        }
        let summary = Json::empty_object().with("running", Json::uint(running)).with(
            "completed",
            Json::uint(completed),
        ).with("failed", Json::uint(failed)).with("unavailable", Json::uint(unavailable));
        let output = Json::empty_object().with("team_dir", Json::text(self.team_dir.as_str())).with(
            "members",
            Json::array(listed),
        ).with("active_workers", Json::array(self.worker_names_json())).with(
            "inbox_dir",
            Json::text(self.inbox_dir.as_str()),
        ).with("task_snapshots", Json::array(snapshots)).with(
            "task_snapshot_summary",
            summary,
        ).with("todo_projection", Json::array(plan));
        output.to_pretty_string()
    }
}

// ---------------------------------------------------------------------------
// Messages and huddles as the model is told of them

/// A message as it is shown.
pub open spec fn message_shown(m: MessageModel) -> JsonModel {
    JsonModel::empty_object().with("type"@, JsonModel::Text(m.msg_type)).with(
        "from"@,
        JsonModel::Text(m.from),
    ).with("content"@, JsonModel::Text(m.content)).with(
        "timestamp_unix_ms"@,
        JsonModel::uint(m.timestamp_unix_ms as u64),
    )
}

/// Messages as they are shown.
pub open spec fn messages_shown(messages: Seq<MessageModel>) -> JsonModel {
    JsonModel::Array(messages.map_values(|m: MessageModel| message_shown(m)))
}

fn message_json(m: &TeamMessage) -> (r: Json)
    requires
        m.deep_view().timely(),
    ensures
        r@ == message_shown(m.deep_view()),
{
    Json::empty_object().with("type", Json::text(m.msg_type.as_str())).with(
        "from",
        Json::text(m.from.as_str()),
    ).with("content", Json::text(m.content.as_str())).with(
        "timestamp_unix_ms",
        Json::uint(m.timestamp_unix_ms as u64),
    )
}

/// The times of all messages can be written as JSON numbers.
pub open spec fn messages_timely(messages: Seq<MessageModel>) -> bool {
    forall|i: int| 0 <= i < messages.len() ==> (#[trigger] messages[i]).timely()
}

fn messages_json(messages: &Vec<TeamMessage>) -> (r: Json)
    requires
        messages_timely(messages.deep_view()),
    ensures
        r@ == messages_shown(messages.deep_view()),
{
    let ghost wanted = messages.deep_view().map_values(|m: MessageModel| message_shown(m));
    let mut r: Vec<Json> = Vec::new();
    let mut i: usize = 0;
    assert(r.deep_view() =~= wanted.take(0));
    while i < messages.len()
        invariant
            i <= messages@.len(),
            messages_timely(messages.deep_view()),
            wanted == messages.deep_view().map_values(|m: MessageModel| message_shown(m)),
            r.deep_view() == wanted.take(i as int),
        decreases messages@.len() - i,
    {
        let ghost before = r.deep_view();
        assert(messages.deep_view()[i as int] == messages@[i as int].deep_view());
        let value = message_json(&messages[i]);
        let ghost model = value@;
        assert(model == wanted[i as int]);
        r.push(value);
        assert(r.deep_view() =~= before.push(model));
        assert(wanted.take(i + 1) =~= wanted.take(i as int).push(wanted[i as int]));
        i = i + 1;
    }
    assert(wanted.take(i as int) =~= wanted);
    Json::array(r)
}

/// The line that a message takes up in an inbox.
pub open spec fn inbox_line(m: MessageModel) -> Seq<char> {
    "{\"type\":"@ + json::quoted(m.msg_type) + ",\"from\":"@ + json::quoted(m.from)
        + ",\"content\":"@ + json::quoted(m.content) + ",\"timestamp_unix_ms\":"@ + text::decimal(
        m.timestamp_unix_ms as nat,
    ) + "}"@
}

/// The line that a message takes up in an inbox.
pub fn message_line(m: &TeamMessage) -> (r: String)
    ensures
        r@ == inbox_line(m.deep_view()),
        text::fills_line(r@),
{
    let msg_type = json::quoted_text(m.msg_type.as_str());
    let from = json::quoted_text(m.from.as_str());
    let content = json::quoted_text(m.content.as_str());
    let at = text::decimal_of(m.timestamp_unix_ms);
    let mut r = text::concat3("{\"type\":", msg_type.as_str(), ",\"from\":");
    r.append(from.as_str());
    r.append(",\"content\":");
    r.append(content.as_str());
    r.append(",\"timestamp_unix_ms\":");
    r.append(at.as_str());
    r.append("}");
    proof {
        reveal_strlit("{\"type\":");
        reveal_strlit(",\"from\":");
        reveal_strlit(",\"content\":");
        reveal_strlit(",\"timestamp_unix_ms\":");
        reveal_strlit("}");
        text::lemma_decimal_has_no_controls(m.timestamp_unix_ms as nat);
    }
    r
}

/// A message that is added to an inbox is the last one that is drained from it,
/// and all lines of the inbox end.
pub proof fn lemma_sent_message_is_drained(inbox: Seq<char>, line: Seq<char>)
    requires
        inbox.len() == 0 || inbox.last() == '\n',
        text::fills_line(line),
    ensures
        filled_lines(text::lines((inbox + line).push('\n'))) == filled_lines(
            text::lines(inbox),
        ).push(line),
        (inbox + line).push('\n').last() == '\n',
{
    text::lemma_line_is_added(inbox, line);
    text::lemma_trimmed_line(line);
    let before = text::lines(inbox);
    assert(before.push(line).drop_last() =~= before);
}

/// A message of an inbox as the model is told of it, set off by two blanks.
pub open spec fn inbox_entry(m: MessageModel) -> Seq<char> {
    "  {\n    \"type\": "@ + json::quoted(m.msg_type) + ",\n    \"from\": "@ + json::quoted(m.from)
        + ",\n    \"content\": "@ + json::quoted(m.content) + ",\n    \"timestamp_unix_ms\": "@
        + text::decimal(m.timestamp_unix_ms as nat) + "\n  }"@
}

/// The messages of an inbox as the model is told of them: a JSON array.
pub open spec fn inbox_shown(messages: Seq<MessageModel>) -> Seq<char> {
    if messages.len() == 0 {
        "[]"@
    } else {
        "[\n"@ + text::joined(messages.map_values(|m: MessageModel| inbox_entry(m)), ",\n"@)
            + "\n]"@
    }
}

fn inbox_entry_of(m: &TeamMessage) -> (r: String)
    ensures
        r@ == inbox_entry(m.deep_view()),
{
    let msg_type = json::quoted_text(m.msg_type.as_str());
    let from = json::quoted_text(m.from.as_str());
    let content = json::quoted_text(m.content.as_str());
    let at = text::decimal_of(m.timestamp_unix_ms);
    let mut r = text::concat3("  {\n    \"type\": ", msg_type.as_str(), ",\n    \"from\": ");
    r.append(from.as_str());
    r.append(",\n    \"content\": ");
    r.append(content.as_str());
    r.append(",\n    \"timestamp_unix_ms\": ");
    r.append(at.as_str());
    r.append("\n  }");
    r
}

/// The messages of an inbox as the model is told of them.
pub fn read_inbox_json(messages: &Vec<TeamMessage>) -> (r: String)
    ensures
        r@ == inbox_shown(messages.deep_view()),
{
    if messages.len() == 0 {
        return text::owned("[]");
    }
    let ghost wanted = messages.deep_view().map_values(|m: MessageModel| inbox_entry(m));
    let mut entries: Vec<String> = Vec::new();
    let mut i: usize = 0;
    assert(entries.deep_view() =~= wanted.take(0));
    while i < messages.len()
        invariant
            i <= messages@.len(),
            wanted == messages.deep_view().map_values(|m: MessageModel| inbox_entry(m)),
            entries.deep_view() == wanted.take(i as int),
        decreases messages@.len() - i,
    {
        let ghost before = entries.deep_view();
        let entry = inbox_entry_of(&messages[i]);
        let ghost shown = entry@;
        assert(shown == wanted[i as int]);
        entries.push(entry);
        assert(entries.deep_view() =~= before.push(shown));
        assert(wanted.take(i + 1) =~= wanted.take(i as int).push(wanted[i as int]));
        i = i + 1;
    }
    assert(wanted.take(i as int) =~= wanted);
    let body = text::join(&entries, ",\n");
    text::concat3("[\n", body.as_str(), "\n]")
}

/// What the model is told of a huddle.
pub open spec fn huddle_shown(
    spawned: Seq<Seq<char>>,
    messages: Seq<MessageModel>,
    status: Seq<char>,
) -> JsonModel {
    JsonModel::empty_object().with(
        "spawned"@,
        JsonModel::Array(spawned.map_values(|s: Seq<char>| JsonModel::Text(s))),
    ).with("lead_messages"@, messages_shown(messages)).with(
        "status"@,
        match json::parsed(status) {
            Ok(m) => m,
            Err(_) => JsonModel::empty_object().with(
                "status"@,
                JsonModel::Text("unavailable"@),
            ),
        },
    )
}

/// What the model is told of a huddle.
pub fn team_huddle_json(
    spawned: &Vec<String>,
    messages: &Vec<TeamMessage>,
    status: &str,
) -> (r: String)
    requires
        messages_timely(messages.deep_view()),
    ensures
        r@ == json::pretty_text(
            huddle_shown(spawned.deep_view(), messages.deep_view(), status@),
        ),
{
    let ghost wanted = spawned.deep_view().map_values(|s: Seq<char>| JsonModel::Text(s));
    let mut names: Vec<Json> = Vec::new();
    let mut i: usize = 0;
    assert(names.deep_view() =~= wanted.take(0));
    while i < spawned.len()
        invariant
            i <= spawned@.len(),
            wanted == spawned.deep_view().map_values(|s: Seq<char>| JsonModel::Text(s)),
            names.deep_view() == wanted.take(i as int),
        decreases spawned@.len() - i,
    {
        let ghost before = names.deep_view();
        let value = Json::text(spawned[i].as_str());
        let ghost model = value@;
        assert(model == wanted[i as int]);
        names.push(value);
        assert(names.deep_view() =~= before.push(model));
        assert(wanted.take(i + 1) =~= wanted.take(i as int).push(wanted[i as int]));
        i = i + 1;
    }
    assert(wanted.take(i as int) =~= wanted);
    let state = match json::parse_json(status) {
        Ok(v) => v,
        Err(_) => Json::empty_object().with("status", Json::text("unavailable")),
    };
    Json::empty_object().with("spawned", Json::array(names)).with(
        "lead_messages",
        messages_json(messages),
    ).with("status", state).to_pretty_string()
}

/// A huddle needs somebody.
pub fn check_huddle(member_count: usize) -> (r: Result<(), String>)
    ensures
        match r {
            Ok(_) => member_count > 0,
            Err(e) => member_count == 0 && e@ == "team_huddle requires at least one member"@,
        },
{
    if member_count == 0 {
        Err(text::owned("team_huddle requires at least one member"))
    } else {
        Ok(())
    }
}

/// A member exists and has nothing to do.
pub open spec fn is_settled(members: Seq<MemberModel>, name: Seq<char>) -> bool {
    has_member(members, name) && members[member_place(members, name)].status
        != MemberStatus::Working
}

/// All of the named members exist and have nothing to do.
pub open spec fn all_settled(members: Seq<MemberModel>, names: Seq<Seq<char>>) -> bool {
    forall|i: int| 0 <= i < names.len() ==> is_settled(members, #[trigger] names[i])
}

/// Whether a huddle need not wait any longer: everybody has nothing to do, or
/// the time is up.
pub fn wait_is_over(state: &TeamState, names: &Vec<String>, now_ms: u128, deadline_ms: u128) -> (r:
    bool)
    ensures
        r == (all_settled(state@, names.deep_view()) || now_ms >= deadline_ms),
{
    if now_ms >= deadline_ms {
        return true;
    }
    let ghost all = names.deep_view();
    let mut i: usize = 0;
    while i < names.len()
        invariant
            i <= names@.len(),
            all == names.deep_view(),
            now_ms < deadline_ms,
            forall|k: int| 0 <= k < i ==> is_settled(state@, #[trigger] all[k]),
        decreases names@.len() - i,
    {
        assert(all[i as int] == names@[i as int]@);
        let at = find_member(state, names[i].as_str());
        if at == state.members.len() {
            return false;
        }
        assert(state@[at as int] == state.members@[at as int].deep_view());
        match state.members[at].status {
            MemberStatus::Working => {
                return false;
            },
            _ => {},
        }
        i = i + 1;
    }
    true
}

// ---------------------------------------------------------------------------
// What a member does

/// What a member is to do next.
#[derive(Debug)]
pub enum WorkerAction {
    /// Send a message.
    Send { from: String, to: String, content: String },
    /// Have the prompt answered.
    Ask(String),
    /// Note what the member is doing.
    SetStatus(MemberStatus),
    /// See whether the member is to stop, and what is in its inbox.
    Watch,
    /// Wait before looking again.
    Sleep,
    /// The member is done.
    Stop,
    /// The member cannot go on.
    Fail(String),
}

/// What a member is to do next.
pub enum WorkerActionModel {
    Send(Seq<char>, Seq<char>, Seq<char>),
    Ask(Seq<char>),
    SetStatus(MemberStatus),
    Watch,
    Sleep,
    Stop,
    Fail(Seq<char>),
}

impl DeepView for WorkerAction {
    type V = WorkerActionModel;

    open spec fn deep_view(&self) -> WorkerActionModel {
        match self {
            WorkerAction::Send { from, to, content } => WorkerActionModel::Send(
                from@,
                to@,
                content@,
            ),
            WorkerAction::Ask(s) => WorkerActionModel::Ask(s@),
            WorkerAction::SetStatus(s) => WorkerActionModel::SetStatus(*s),
            WorkerAction::Watch => WorkerActionModel::Watch,
            WorkerAction::Sleep => WorkerActionModel::Sleep,
            WorkerAction::Stop => WorkerActionModel::Stop,
            WorkerAction::Fail(s) => WorkerActionModel::Fail(s@),
        }
    }
}

/// Where a member stands in its work.
#[derive(Debug)]
enum WorkerPhase {
    Announce,
    Assign,
    Report(String),
    Settle,
    Watch,
    Nap,
    Wake(String),
    Handle(String),
    Leave,
    Farewell,
    Gone,
    Broken(String),
}

/// Where a member stands in its work.
pub enum WorkerPhaseModel {
    /// It says that it is there.
    Announce,
    /// It works on what it was first told to do.
    Assign,
    /// It has a result to report.
    Report(Seq<char>),
    /// It has nothing to do any more.
    Settle,
    /// It waits for messages.
    Watch,
    /// There were none.
    Nap,
    /// There were some.
    Wake(Seq<char>),
    /// It works on them.
    Handle(Seq<char>),
    /// It was asked to stop.
    Leave,
    /// It says that it has stopped.
    Farewell,
    /// It is done.
    Gone,
    /// It cannot go on.
    Broken(Seq<char>),
}

/// A member at work.
#[derive(Debug)]
pub struct WorkerLoop {
    name: String,
    role: String,
    prompt: String,
    task_id: Option<String>,
    phase: WorkerPhase,
}

/// A member at work.
pub struct WorkerLoopModel {
    pub name: Seq<char>,
    pub role: Seq<char>,
    pub prompt: Seq<char>,
    pub task_id: Option<Seq<char>>,
    pub phase: WorkerPhaseModel,
}

impl View for WorkerLoop {
    type V = WorkerLoopModel;

    closed spec fn view(&self) -> WorkerLoopModel {
        WorkerLoopModel {
            name: self.name@,
            role: self.role@,
            prompt: self.prompt@,
            task_id: self.task_id.deep_view(),
            phase: match self.phase {
                WorkerPhase::Announce => WorkerPhaseModel::Announce,
                WorkerPhase::Assign => WorkerPhaseModel::Assign,
                WorkerPhase::Report(s) => WorkerPhaseModel::Report(s@),
                WorkerPhase::Settle => WorkerPhaseModel::Settle,
                WorkerPhase::Watch => WorkerPhaseModel::Watch,
                WorkerPhase::Nap => WorkerPhaseModel::Nap,
                WorkerPhase::Wake(s) => WorkerPhaseModel::Wake(s@),
                WorkerPhase::Handle(s) => WorkerPhaseModel::Handle(s@),
                WorkerPhase::Leave => WorkerPhaseModel::Leave,
                WorkerPhase::Farewell => WorkerPhaseModel::Farewell,
                WorkerPhase::Gone => WorkerPhaseModel::Gone,
                WorkerPhase::Broken(s) => WorkerPhaseModel::Broken(s@),
            },
        }
    }
}

/// What every prompt of a member starts with.
pub open spec fn prompt_head(w: WorkerLoopModel, tasks: RegistryModel) -> Seq<char> {
    TEAM_TODO_COORDINATION_CONTRACT@ + "\n"@ + TEAM_ANALYSIS_CONTRACT@ + "\n\n"@ + task_context(
        tasks,
        w.task_id,
    ) + "\n\nYou are teammate '"@ + w.name + "' with role '"@ + w.role
}

/// What a member is first told to do.
pub open spec fn assignment_prompt(w: WorkerLoopModel, tasks: RegistryModel) -> Seq<char> {
    prompt_head(w, tasks) + "'. Initial assignment:\n"@ + text::trimmed(w.prompt)
}

/// What a member is told to do with its messages.
pub open spec fn inbox_prompt(w: WorkerLoopModel, tasks: RegistryModel, inbox: Seq<char>) -> Seq<
    char,
> {
    prompt_head(w, tasks)
        + "'. Handle the inbox items below and return a concise, actionable response.\n\n"@ + inbox
}

/// The messages of an inbox as a member is told of them.
pub open spec fn inbox_text(messages: Seq<MessageModel>) -> Seq<char>
    decreases messages.len(),
{
    if messages.len() == 0 {
        seq![]
    } else {
        inbox_text(messages.drop_last()) + "from "@ + messages.last().from + ": "@
            + messages.last().content + "\n"@
    }
}

/// What a member is to do next.
pub open spec fn worker_action(w: WorkerLoopModel, tasks: RegistryModel) -> WorkerActionModel {
    match w.phase {
        WorkerPhaseModel::Announce => WorkerActionModel::Send(
            "system"@,
            "lead"@,
            "teammate '"@ + w.name + "' is online (role: "@ + w.role + ")"@,
        ),
        WorkerPhaseModel::Assign => WorkerActionModel::Ask(assignment_prompt(w, tasks)),
        WorkerPhaseModel::Report(s) => WorkerActionModel::Send(w.name, "lead"@, s),
        WorkerPhaseModel::Settle => WorkerActionModel::SetStatus(MemberStatus::Idle),
        WorkerPhaseModel::Watch => WorkerActionModel::Watch,
        WorkerPhaseModel::Nap => WorkerActionModel::Sleep,
        WorkerPhaseModel::Wake(_) => WorkerActionModel::SetStatus(MemberStatus::Working),
        WorkerPhaseModel::Handle(s) => WorkerActionModel::Ask(inbox_prompt(w, tasks, s)),
        WorkerPhaseModel::Leave => WorkerActionModel::SetStatus(MemberStatus::Shutdown),
        WorkerPhaseModel::Farewell => WorkerActionModel::Send(
            "system"@,
            "lead"@,
            "teammate '"@ + w.name + "' has shut down"@,
        ),
        WorkerPhaseModel::Gone => WorkerActionModel::Stop,
        WorkerPhaseModel::Broken(s) => WorkerActionModel::Fail(s),
    }
}

/// Where a member stands once it has done what it was to do.
pub open spec fn after_action(w: WorkerLoopModel) -> WorkerLoopModel {
    let phase = match w.phase {
        WorkerPhaseModel::Announce => if text::is_blank(w.prompt) {
            WorkerPhaseModel::Settle
        } else {
            WorkerPhaseModel::Assign
        },
        WorkerPhaseModel::Report(_) => WorkerPhaseModel::Settle,
        WorkerPhaseModel::Settle => WorkerPhaseModel::Watch,
        WorkerPhaseModel::Nap => WorkerPhaseModel::Watch,
        WorkerPhaseModel::Wake(s) => WorkerPhaseModel::Handle(s),
        WorkerPhaseModel::Leave => WorkerPhaseModel::Farewell,
        WorkerPhaseModel::Farewell => WorkerPhaseModel::Gone,
        other => other,
    };
    WorkerLoopModel { phase, ..w }
}

/// Where a member stands once it has looked: it stops if it is to, and works on
/// its messages if there are any.
pub open spec fn after_watch(w: WorkerLoopModel, shutdown: bool, messages: Seq<MessageModel>) -> WorkerLoopModel {
    let phase = if shutdown {
        WorkerPhaseModel::Leave
    } else if messages.len() == 0 {
        WorkerPhaseModel::Nap
    } else {
        WorkerPhaseModel::Wake(inbox_text(messages))
    };
    WorkerLoopModel { phase, ..w }
}

/// The member's task after its prompt was answered: done, or failed.
pub open spec fn tasks_after_answer(
    tasks: RegistryModel,
    task_id: Option<Seq<char>>,
    outcome: Result<Seq<char>, Seq<char>>,
    now_ms: u128,
) -> RegistryModel {
    match task_id {
        None => tasks,
        Some(id) => match tasks.task(id) {
            None => tasks,
            Some(task) => tasks.changed(
                id,
                match outcome {
                    Ok(s) => TaskModel {
                        status: TaskStatus::Completed,
                        result_preview: Some(preview_of(s)),
                        error: None,
                        updated_at_unix_ms: now_ms,
                        ..task
                    },
                    Err(e) => TaskModel {
                        status: TaskStatus::Failed,
                        result_preview: None,
                        error: Some(e),
                        updated_at_unix_ms: now_ms,
                        ..task
                    },
                },
            ),
        },
    }
}

/// Where a member stands once its prompt was answered. A first assignment that
/// fails, or whose task cannot be marked, breaks it; messages do not.
pub open spec fn after_answer(
    w: WorkerLoopModel,
    tasks: RegistryModel,
    outcome: Result<Seq<char>, Seq<char>>,
) -> WorkerLoopModel {
    let phase = match w.phase {
        WorkerPhaseModel::Assign => match outcome {
            Err(_) => WorkerPhaseModel::Broken(
                "initial assignment failed for teammate '"@ + w.name + "'"@,
            ),
            Ok(s) => match w.task_id {
                Some(id) => if tasks.knows(id) {
                    WorkerPhaseModel::Report(s)
                } else {
                    WorkerPhaseModel::Broken("failed to mark task '"@ + id + "' completed"@)
                },
                None => WorkerPhaseModel::Report(s),
            },
        },
        WorkerPhaseModel::Handle(_) => match outcome {
            Ok(s) => WorkerPhaseModel::Report(s),
            Err(e) => WorkerPhaseModel::Report(
                "teammate '"@ + w.name + "' failed to handle inbox: "@ + e,
            ),
        },
        other => other,
    };
    WorkerLoopModel { phase, ..w }
}

/// The outcome of a prompt by its text.
pub open spec fn outcome_view(outcome: Result<String, String>) -> Result<Seq<char>, Seq<char>> {
    match outcome {
        Ok(s) => Ok(s@),
        Err(e) => Err(e@),
    }
}

/// The messages of an inbox as a member is told of them.
fn render_inbox(messages: &Vec<TeamMessage>) -> (r: String)
    ensures
        r@ == inbox_text(messages.deep_view()),
{
    let ghost all = messages.deep_view();
    let mut r = String::new();
    let mut i: usize = 0;
    proof {
        assert(all.take(0) =~= seq![]);
        assert(r@ =~= seq![]);
    }
    while i < messages.len()
        invariant
            i <= messages@.len(),
            all == messages.deep_view(),
            r@ == inbox_text(all.take(i as int)),
        decreases messages@.len() - i,
    {
        proof {
            assert(all.take(i + 1).drop_last() =~= all.take(i as int));
            assert(all.take(i + 1).last() == messages@[i as int].deep_view());
        }
        r.append("from ");
        r.append(messages[i].from.as_str());
        r.append(": ");
        r.append(messages[i].content.as_str());
        r.append("\n");
        i = i + 1;
    }
    assert(all.take(all.len() as int) =~= all);
    r
}

impl WorkerLoop {
    /// A member that is about to start.
    pub fn new(name: &str, role: &str, prompt: &str, task_id: Option<String>) -> (r: WorkerLoop)
        ensures
            r@ == (WorkerLoopModel {
                name: name@,
                role: role@,
                prompt: prompt@,
                task_id: task_id.deep_view(),
                phase: WorkerPhaseModel::Announce,
            }),
    {
        WorkerLoop {
            name: text::owned(name),
            role: text::owned(role),
            prompt: text::owned(prompt),
            task_id,
            phase: WorkerPhase::Announce,
        }
    }

    fn head(&self, tasks: &TaskRegistry) -> (r: String)
        ensures
            r@ == prompt_head(self@, tasks@),
    {
        let context = render_task_context(tasks, &self.task_id);
        let mut r = text::concat3(TEAM_TODO_COORDINATION_CONTRACT, "\n", TEAM_ANALYSIS_CONTRACT);
        r.append("\n\n");
        r.append(context.as_str());
        r.append("\n\nYou are teammate '");
        r.append(self.name.as_str());
        r.append("' with role '");
        r.append(self.role.as_str());
        r
    }

    fn send_to_lead(&self, from: &str, content: String) -> (r: WorkerAction)
        ensures
            r.deep_view() == WorkerActionModel::Send(from@, "lead"@, content@),
    {
        WorkerAction::Send { from: text::owned(from), to: text::owned("lead"), content }
    }

    /// What the member is to do next.
    pub fn next(&self, tasks: &TaskRegistry) -> (r: WorkerAction)
        ensures
            r.deep_view() == worker_action(self@, tasks@),
    {
        match &self.phase {
            WorkerPhase::Announce => {
                let mut content = text::concat3(
                    "teammate '",
                    self.name.as_str(),
                    "' is online (role: ",
                );
                content.append(self.role.as_str());
                content.append(")");
                self.send_to_lead("system", content)
            },
            WorkerPhase::Assign => {
                let mut prompt = self.head(tasks);
                prompt.append("'. Initial assignment:\n");
                prompt.append(text::trim(self.prompt.as_str()).as_str());
                WorkerAction::Ask(prompt)
            },
            WorkerPhase::Report(s) => self.send_to_lead(self.name.as_str(), s.clone()),
            WorkerPhase::Settle => WorkerAction::SetStatus(MemberStatus::Idle),
            WorkerPhase::Watch => WorkerAction::Watch,
            WorkerPhase::Nap => WorkerAction::Sleep,
            WorkerPhase::Wake(_) => WorkerAction::SetStatus(MemberStatus::Working),
            WorkerPhase::Handle(s) => {
                let mut prompt = self.head(tasks);
                prompt.append(
                    "'. Handle the inbox items below and return a concise, actionable response.\n\n",
                );
                prompt.append(s.as_str());
                WorkerAction::Ask(prompt)
            },
            WorkerPhase::Leave => WorkerAction::SetStatus(MemberStatus::Shutdown),
            WorkerPhase::Farewell => {
                let content = text::concat3("teammate '", self.name.as_str(), "' has shut down");
                self.send_to_lead("system", content)
            },
            WorkerPhase::Gone => WorkerAction::Stop,
            WorkerPhase::Broken(s) => WorkerAction::Fail(s.clone()),
        }
    }

    /// Notes that what was to be done is done.
    pub fn on_done(&mut self)
        ensures
            final(self)@ == after_action(old(self)@),
    {
        let mut phase = WorkerPhase::Gone;
        std::mem::swap(&mut phase, &mut self.phase);
        self.phase = match phase {
            WorkerPhase::Announce => {
                let trimmed = text::trim(self.prompt.as_str());
                if text::char_count(trimmed.as_str()) == 0 {
                    WorkerPhase::Settle
                } else {
                    WorkerPhase::Assign
                }
            },
            WorkerPhase::Report(_) => WorkerPhase::Settle,
            WorkerPhase::Settle => WorkerPhase::Watch,
            WorkerPhase::Nap => WorkerPhase::Watch,
            WorkerPhase::Wake(s) => WorkerPhase::Handle(s),
            WorkerPhase::Leave => WorkerPhase::Farewell,
            WorkerPhase::Farewell => WorkerPhase::Gone,
            other => other,
        };
    }

    /// Notes what was seen: whether to stop, and the messages.
    pub fn on_watch(&mut self, shutdown: bool, messages: &Vec<TeamMessage>)
        ensures
            final(self)@ == after_watch(old(self)@, shutdown, messages.deep_view()),
    {
        self.phase = if shutdown {
            WorkerPhase::Leave
        } else if messages.len() == 0 {
            WorkerPhase::Nap
        } else {
            WorkerPhase::Wake(render_inbox(messages))
        };
    }

    /// Notes the answer to a prompt, with the member and with its task.
    pub fn on_answer(
        &mut self,
        tasks: &mut TaskRegistry,
        outcome: Result<String, String>,
        now_ms: u128,
    )
        requires
            old(self)@.phase is Assign || old(self)@.phase is Handle,
        ensures
            final(self)@ == after_answer(old(self)@, old(tasks)@, outcome_view(outcome)),
            final(tasks)@ == tasks_after_answer(
                old(tasks)@,
                old(self)@.task_id,
                outcome_view(outcome),
                now_ms,
            ),
    {
        let assigned = match &self.phase {
            WorkerPhase::Assign => true,
            _ => false,
        };
        match outcome {
            Ok(s) => {
                let marked = match &self.task_id {
                    Some(id) => {
                        let preview = truncate_preview(s.as_str());
                        tasks.complete_task(id.as_str(), preview.as_str(), now_ms).is_ok()
                    },
                    None => true,
                };
                self.phase = if assigned && !marked {
                    match &self.task_id {
                        Some(id) => WorkerPhase::Broken(
                            text::concat3("failed to mark task '", id.as_str(), "' completed"),
                        ),
                        None => WorkerPhase::Report(s),
                    }
                } else {
                    WorkerPhase::Report(s)
                };
            },
            Err(e) => {
                match &self.task_id {
                    Some(id) => {
                        let _ = tasks.fail_task(id.as_str(), e.as_str(), now_ms);
                    },
                    None => {},
                }
                self.phase = if assigned {
                    WorkerPhase::Broken(
                        text::concat3(
                            "initial assignment failed for teammate '",
                            self.name.as_str(),
                            "'",
                        ),
                    )
                } else {
                    let mut report = text::concat3(
                        "teammate '",
                        self.name.as_str(),
                        "' failed to handle inbox: ",
                    );
                    report.append(e.as_str());
                    WorkerPhase::Report(report)
                };
            },
        }
    }

    /// What the lead is told of a member that could not go on.
    pub fn failure_note(&self, failure: &str) -> (r: String)
        ensures
            r@ == "teammate '"@ + self@.name + "' worker loop failed: "@ + failure@,
    {
        let mut r = text::concat3("teammate '", self.name.as_str(), "' worker loop failed: ");
        r.append(failure);
        r
    }
}

/// A member that has been asked to stop notes that it has stopped, says so, and
/// is done, in three steps and whatever it was to do otherwise.
pub proof fn lemma_shutdown_ends_worker(
    w: WorkerLoopModel,
    messages: Seq<MessageModel>,
    tasks: RegistryModel,
)
    ensures
        ({
            let leaving = after_watch(w, true, messages);
            &&& worker_action(leaving, tasks) == WorkerActionModel::SetStatus(
                MemberStatus::Shutdown,
            )
            &&& worker_action(after_action(leaving), tasks) == WorkerActionModel::Send(
                "system"@,
                "lead"@,
                "teammate '"@ + w.name + "' has shut down"@,
            )
            &&& worker_action(after_action(after_action(leaving)), tasks) is Stop
        }),
{
}

/// Every answer is reported to the lead before the member has nothing to do
/// again.
pub proof fn lemma_answer_is_reported(
    w: WorkerLoopModel,
    tasks: RegistryModel,
    later: RegistryModel,
    answer: Seq<char>,
)
    requires
        w.phase is Handle,
    ensures
        ({
            let answered = after_answer(w, tasks, Ok(answer));
            &&& worker_action(answered, later) == WorkerActionModel::Send(w.name, "lead"@, answer)
            &&& worker_action(after_action(answered), later) == WorkerActionModel::SetStatus(
                MemberStatus::Idle,
            )
            &&& worker_action(after_action(after_action(answered)), later) is Watch
        }),
{
}

// ---------------------------------------------------------------------------
// Definitions

pub const SPAWN_DESCRIPTION: &'static str = "Spawn a persistent teammate worker with a role and an initial assignment. The teammate keeps listening on its inbox and reports back to lead.";

pub const SPAWN_SCHEMA: &'static str = r#"{
  "type": "object",
  "properties": {
    "name": {"type": "string", "description": "Unique teammate name, letters/digits/_/- only."},
    "role": {"type": "string", "description": "Teammate role, such as coder/tester/researcher."},
    "prompt": {"type": "string", "description": "Initial assignment for the teammate."},
    "task_id": {"type": "string", "description": "Optional task id to bind this teammate to."},
    "validation_mode": {"type": "string", "enum": ["best_effort", "strict"], "description": "Binding validation behavior for task_id. Default: best_effort."}
  },
  "required": ["name", "role", "prompt"],
  "additionalProperties": false
}"#;

pub const HUDDLE_DESCRIPTION: &'static str = "Spawn a small set of teammates, let them work in parallel, and return a structured lead summary. This is the simplest fan-out/fan-in team orchestration tool.";

pub const HUDDLE_SCHEMA: &'static str = r#"{
  "type": "object",
  "properties": {
    "members": {
      "type": "array",
      "description": "Teammates to spawn for this huddle.",
      "items": {
        "type": "object",
        "properties": {
          "name": {"type": "string"},
          "role": {"type": "string"},
          "prompt": {"type": "string"},
          "task_id": {"type": "string"},
          "validation_mode": {"type": "string", "enum": ["best_effort", "strict"]}
        },
        "required": ["name", "role", "prompt"],
        "additionalProperties": false
      }
    },
    "wait_ms": {"type": "integer", "minimum": 0, "description": "How long to wait for teammate replies before returning."}
  },
  "required": ["members"],
  "additionalProperties": false
}"#;

pub const SEND_DESCRIPTION: &'static str = "Send a direct inbox message to one teammate.";

pub const SEND_SCHEMA: &'static str = r#"{
  "type": "object",
  "properties": {
    "to": {"type": "string", "description": "Recipient teammate name."},
    "content": {"type": "string", "description": "Message content."},
    "from": {"type": "string", "description": "Sender name, default is lead."}
  },
  "required": ["to", "content"],
  "additionalProperties": false
}"#;

pub const BROADCAST_DESCRIPTION: &'static str = "Broadcast a message to all teammates currently in the team roster.";

pub const BROADCAST_SCHEMA: &'static str = r#"{
  "type": "object",
  "properties": {
    "content": {"type": "string", "description": "Message content."},
    "from": {"type": "string", "description": "Sender name, default is lead."}
  },
  "required": ["content"],
  "additionalProperties": false
}"#;

pub const INBOX_DESCRIPTION: &'static str = "Read and drain one inbox in JSON format. Defaults to lead inbox.";

pub const INBOX_SCHEMA: &'static str = r#"{
  "type": "object",
  "properties": {
    "name": {"type": "string", "description": "Inbox owner name. Default: lead."}
  },
  "additionalProperties": false
}"#;

pub const STATUS_DESCRIPTION: &'static str = "Show team roster and current teammate statuses.";

pub const STATUS_SCHEMA: &'static str = r#"{
  "type": "object",
  "properties": {},
  "additionalProperties": false
}"#;

pub const SHUTDOWN_DESCRIPTION: &'static str = "Gracefully stop a running teammate worker.";

pub const SHUTDOWN_SCHEMA: &'static str = r#"{
  "type": "object",
  "properties": {
    "name": {"type": "string", "description": "Teammate name."}
  },
  "required": ["name"],
  "additionalProperties": false
}"#;

/// A tool of the team.
pub open spec fn team_tool(
    name: Seq<char>,
    description: Seq<char>,
    schema: Seq<char>,
    action: ToolAction,
) -> HandlerModel {
    HandlerModel { definition: registry::definition_of(name, description, schema), action }
}

/// The tools of the team.
pub fn team_tool_handlers() -> (r: Vec<ToolHandler>)
    ensures
        r.deep_view() == seq![
            team_tool(
                "spawn_teammate"@,
                SPAWN_DESCRIPTION@,
                SPAWN_SCHEMA@,
                ToolAction::SpawnTeammate,
            ),
            team_tool("team_huddle"@, HUDDLE_DESCRIPTION@, HUDDLE_SCHEMA@, ToolAction::TeamHuddle),
            team_tool(
                "send_teammate_message"@,
                SEND_DESCRIPTION@,
                SEND_SCHEMA@,
                ToolAction::SendTeammateMessage,
            ),
            team_tool(
                "broadcast_teammate_message"@,
                BROADCAST_DESCRIPTION@,
                BROADCAST_SCHEMA@,
                ToolAction::BroadcastTeammateMessage,
            ),
            team_tool(
                "read_teammate_inbox"@,
                INBOX_DESCRIPTION@,
                INBOX_SCHEMA@,
                ToolAction::ReadTeammateInbox,
            ),
            team_tool("team_status"@, STATUS_DESCRIPTION@, STATUS_SCHEMA@, ToolAction::TeamStatus),
            team_tool(
                "shutdown_teammate"@,
                SHUTDOWN_DESCRIPTION@,
                SHUTDOWN_SCHEMA@,
                ToolAction::ShutdownTeammate,
            ),
        ],
{
    let a = registry::new_handler(
        "spawn_teammate",
        SPAWN_DESCRIPTION,
        SPAWN_SCHEMA,
        ToolAction::SpawnTeammate,
    );
    let b = registry::new_handler(
        "team_huddle",
        HUDDLE_DESCRIPTION,
        HUDDLE_SCHEMA,
        ToolAction::TeamHuddle,
    );
    let c = registry::new_handler(
        "send_teammate_message",
        SEND_DESCRIPTION,
        SEND_SCHEMA,
        ToolAction::SendTeammateMessage,
    );
    let d = registry::new_handler(
        "broadcast_teammate_message",
        BROADCAST_DESCRIPTION,
        BROADCAST_SCHEMA,
        ToolAction::BroadcastTeammateMessage,
    );
    let e = registry::new_handler(
        "read_teammate_inbox",
        INBOX_DESCRIPTION,
        INBOX_SCHEMA,
        ToolAction::ReadTeammateInbox,
    );
    let f = registry::new_handler(
        "team_status",
        STATUS_DESCRIPTION,
        STATUS_SCHEMA,
        ToolAction::TeamStatus,
    );
    let g = registry::new_handler(
        "shutdown_teammate",
        SHUTDOWN_DESCRIPTION,
        SHUTDOWN_SCHEMA,
        ToolAction::ShutdownTeammate,
    );
    let ghost models = seq![a@, b@, c@, d@, e@, f@, g@];
    let mut r: Vec<ToolHandler> = Vec::new();
    r.push(a);
    r.push(b);
    r.push(c);
    r.push(d);
    r.push(e);
    r.push(f);
    r.push(g);
    assert(r.deep_view() =~= models);
    r
}

/// The request for the state of the team has to be an object.
pub fn check_status_request(input_json: &str) -> (r: Result<(), String>)
    ensures
        match json::parsed(input_json@) {
            Err(_) => r matches Err(e) && e@ == "invalid input JSON for team_status"@,
            Ok(m) => if m is Object {
                r is Ok
            } else {
                r matches Err(e) && e@ == "team_status expects an object payload"@
            },
        },
{
    match json::parse_json(input_json) {
        Err(_) => Err(text::owned("invalid input JSON for team_status")),
        Ok(Json::Object(_)) => Ok(()),
        Ok(_) => Err(text::owned("team_status expects an object payload")),
    }
}

// ---------------------------------------------------------------------------
// Laws of the team

/// A message to all goes to the inbox of every member, once to each, as it is.
pub proof fn lemma_broadcast_reaches_all(
    inbox_dir: Seq<char>,
    members: Seq<MemberModel>,
    message: MessageModel,
    i: int,
)
    requires
        0 <= i < members.len(),
    ensures
        deliveries_to_all(inbox_dir, members, message).len() == members.len(),
        deliveries_to_all(inbox_dir, members, message)[i].message == message,
        deliveries_to_all(inbox_dir, members, message)[i].inbox_file == inbox_of(
            inbox_dir,
            members[i].name,
        ),
{
}

/// Members have inboxes of their own.
pub proof fn lemma_members_have_own_inboxes(inbox_dir: Seq<char>, name: Seq<char>, other: Seq<char>)
    requires
        name.len() > 0 ==> name[0] != '/',
        other.len() > 0 ==> other[0] != '/',
        inbox_of(inbox_dir, name) == inbox_of(inbox_dir, other),
    ensures
        name == other,
{
    reveal_strlit(".jsonl");
    paths::lemma_names_have_own_files(inbox_dir, name, other, ".jsonl"@);
}

/// A message says who sent it, what it is about and when.
pub proof fn lemma_message_says_who(from: Seq<char>, content: Seq<char>, now_ms: u128)
    ensures
        plain_message(from, content, now_ms).from == from,
        plain_message(from, content, now_ms).content == content,
        plain_message(from, content, now_ms).timestamp_unix_ms == now_ms,
        plain_message(from, content, now_ms).msg_type == "message"@,
{
}

/// A member is found by its name, and by no other.
pub proof fn lemma_member_is_found(members: Seq<MemberModel>, name: Seq<char>, i: int)
    ensures
        0 <= i < members.len() && members[i].name == name ==> has_member(members, name),
        has_member(members, name) ==> members[member_place(members, name)].name == name,
{
    lemma_member_place(members, name);
}

/// A change of status changes the status of the named member and nothing else.
pub proof fn lemma_status_is_set(
    members: Seq<MemberModel>,
    name: Seq<char>,
    status: MemberStatus,
    i: int,
)
    requires
        has_member(members, name),
        0 <= i < members.len(),
        names_differ(members),
    ensures
        status_set(members, name, status).len() == members.len(),
        members[i].name == name ==> status_set(members, name, status)[i] == (MemberModel {
            status,
            ..members[i]
        }),
        members[i].name != name ==> status_set(members, name, status)[i] == members[i],
{
    lemma_member_place(members, name);
    let at = member_place(members, name);
    if members[i].name == name && i != at {
        if i < at {
            assert(members[i].name != members[at].name);
        } else {
            assert(members[at].name != members[i].name);
        }
    }
}

/// A member is bound to a task that exists; a task that does not is refused where
/// that is asked for, and passed over with a note where it is not. An empty id is
/// always refused, and without an id nothing is bound.
pub proof fn lemma_task_is_bound(
    tasks: RegistryModel,
    raw: Seq<char>,
    teammate: Seq<char>,
    mode: TaskBindingMode,
    now_ms: u128,
)
    ensures
        ({
            let id = text::trimmed(raw);
            let after = bound_tasks(tasks, teammate, Some(raw), now_ms);
            &&& id.len() == 0 ==> binding_refused(tasks, Some(raw), mode) is Some
            &&& id.len() > 0 && tasks.knows(id) ==> {
                &&& binding_refused(tasks, Some(raw), mode) is None
                &&& bound_task(tasks, Some(raw)) == Some(id)
                &&& binding_note(tasks, Some(raw)) is None
                &&& after.task(id) is Some
                &&& after.task(id)->0.assigned_teammate == Some(teammate)
                &&& after.task(id)->0.updated_at_unix_ms == now_ms
                &&& after.task(id)->0.status == tasks.task(id)->0.status
                &&& after.task(id)->0.prompt == tasks.task(id)->0.prompt
            }
            &&& id.len() > 0 && !tasks.knows(id) ==> {
                &&& binding_refused(tasks, Some(raw), TaskBindingMode::Strict) is Some
                &&& binding_refused(tasks, Some(raw), TaskBindingMode::BestEffort) is None
                &&& bound_task(tasks, Some(raw)) is None
                &&& binding_note(tasks, Some(raw)) is Some
                &&& after == tasks
            }
            &&& binding_refused(tasks, None, mode) is None
            &&& bound_task(tasks, None) is None
            &&& binding_note(tasks, None) is None
            &&& bound_tasks(tasks, teammate, None, now_ms) == tasks
        }),
{
    let id = text::trimmed(raw);
    if tasks.knows(id) {
        task_registry::lemma_place_of(tasks.tasks, id);
        let task = tasks.task(id)->0;
        let changed = TaskModel {
            assigned_teammate: Some(teammate),
            updated_at_unix_ms: now_ms,
            ..task
        };
        task_registry::lemma_changed_task_is_found(tasks, id, changed, id);
    }
}

/// The answer to whoever asked for a new member names the member and its role,
/// the task that it is bound to, and what is to be noted.
pub proof fn lemma_spawn_is_told(
    name: Seq<char>,
    role: Seq<char>,
    id: Seq<char>,
    note: Seq<char>,
)
    ensures
        spawn_response(name, role, None, None) == "spawned teammate '"@ + name + "' with role '"@
            + role + "'"@,
        spawn_response(name, role, Some(id), None) == "spawned teammate '"@ + name
            + "' with role '"@ + role + "'"@ + " (bound to task '"@ + id + "')"@,
        spawn_response(name, role, None, Some(note)) == "spawned teammate '"@ + name
            + "' with role '"@ + role + "'"@ + "; "@ + note,
{
    let head = "spawned teammate '"@ + name + "' with role '"@ + role + "'"@;
    assert(head + seq![] =~= head);
    assert(head + seq![] + seq![] =~= head);
    assert(spawn_response(name, role, Some(id), None) =~= head + " (bound to task '"@ + id
        + "')"@);
    assert(spawn_response(name, role, None, Some(note)) =~= head + "; "@ + note);
}

/// Each of five parts is held by all of them together, and the last one ends them.
proof fn lemma_parts_are_held(
    h: Seq<char>,
    context: Seq<char>,
    who: Seq<char>,
    role: Seq<char>,
    end: Seq<char>,
)
    ensures
        ({
            let all = h + context + who + role + end;
            &&& text::has_text(all, context)
            &&& text::has_text(all, who)
            &&& text::has_text(all, role)
            &&& text::finishes_with(all, end)
        }),
{
    let all = h + context + who + role + end;
    assert(text::has_text(all, context)) by {
        text::lemma_has_itself(context);
        text::lemma_has_text_within(h, context, who + role + end, context);
        assert(all =~= h + context + (who + role + end));
    }
    assert(text::has_text(all, who)) by {
        text::lemma_has_itself(who);
        text::lemma_has_text_within(h + context, who, role + end, who);
        assert(all =~= h + context + who + (role + end));
    }
    assert(text::has_text(all, role)) by {
        text::lemma_has_itself(role);
        text::lemma_has_text_within(h + context + who, role, end, role);
    }
    assert(all.skip(all.len() - end.len()) =~= end);
}

/// A member is told who it is, what its task is and what it is to do.
#[verifier::spinoff_prover]
pub proof fn lemma_member_is_told_its_work(w: WorkerLoopModel, tasks: RegistryModel, inbox: Seq<char>)
    ensures
        text::finishes_with(assignment_prompt(w, tasks), text::trimmed(w.prompt)),
        text::finishes_with(inbox_prompt(w, tasks, inbox), inbox),
        text::has_text(assignment_prompt(w, tasks), "\n\nYou are teammate '"@ + w.name),
        text::has_text(assignment_prompt(w, tasks), "' with role '"@ + w.role),
        text::has_text(assignment_prompt(w, tasks), task_context(tasks, w.task_id)),
        text::has_text(inbox_prompt(w, tasks, inbox), "\n\nYou are teammate '"@ + w.name),
        text::has_text(inbox_prompt(w, tasks, inbox), "' with role '"@ + w.role),
        text::has_text(inbox_prompt(w, tasks, inbox), task_context(tasks, w.task_id)),
{
    let a = assignment_prompt(w, tasks);
    let b = inbox_prompt(w, tasks, inbox);
    let told = text::trimmed(w.prompt);
    let context = task_context(tasks, w.task_id);
    let h = TEAM_TODO_COORDINATION_CONTRACT@ + "\n"@ + TEAM_ANALYSIS_CONTRACT@ + "\n\n"@;
    let who = "\n\nYou are teammate '"@ + w.name;
    let role = "' with role '"@ + w.role;
    let asked = "'. Initial assignment:\n"@;
    let handed =
        "'. Handle the inbox items below and return a concise, actionable response.\n\n"@;
    assert(a =~= h + context + who + role + (asked + told));
    assert(b =~= h + context + who + role + (handed + inbox));
    lemma_parts_are_held(h, context, who, role, asked + told);
    lemma_parts_are_held(h, context, who, role, handed + inbox);
    assert(a.skip(a.len() - told.len()) =~= told);
    assert(b.skip(b.len() - inbox.len()) =~= inbox);
}

/// Of a task that it is bound to a member is told the id, the status and what it
/// is to do.
pub proof fn lemma_task_is_told(tasks: RegistryModel, id: Seq<char>, t: TaskModel)
    requires
        tasks.task(id) == Some(t),
    ensures
        text::begins_with(
            task_context(tasks, Some(id)),
            "Task context: id='"@ + t.id + "', status='"@ + t.status.name(),
        ),
        text::finishes_with(task_context(tasks, Some(id)), "', prompt='"@ + t.prompt + "'"@),
        task_context(tasks, None) == "No task binding for this teammate."@,
{
    let all = task_context(tasks, Some(id));
    let first = "Task context: id='"@ + t.id + "', status='"@ + t.status.name();
    let last = "', prompt='"@ + t.prompt + "'"@;
    assert(all.take(first.len() as int) =~= first);
    assert(all.skip(all.len() - last.len()) =~= last);
}

/// Of its messages a member is told each one, with its sender, in order.
pub proof fn lemma_messages_are_told(messages: Seq<MessageModel>, m: MessageModel)
    ensures
        inbox_text(messages.push(m)) == inbox_text(messages) + "from "@ + m.from + ": "@
            + m.content + "\n"@,
        inbox_text(seq![]).len() == 0,
{
    assert(messages.push(m).drop_last() =~= messages);
}

/// A member says that it is there, then works on what it was first told to do, if
/// it was told anything, and reports the result before it waits for messages.
pub proof fn lemma_member_starts(
    w: WorkerLoopModel,
    tasks: RegistryModel,
    answer: Seq<char>,
)
    requires
        w.phase is Announce,
    ensures
        worker_action(w, tasks) is Send,
        !text::is_blank(w.prompt) ==> worker_action(after_action(w), tasks)
            == WorkerActionModel::Ask(assignment_prompt(after_action(w), tasks)),
        text::is_blank(w.prompt) ==> worker_action(after_action(w), tasks)
            == WorkerActionModel::SetStatus(MemberStatus::Idle),
        !text::is_blank(w.prompt) && (w.task_id matches Some(id) ==> tasks.knows(id))
            ==> worker_action(after_answer(after_action(w), tasks, Ok(answer)), tasks)
            == WorkerActionModel::Send(w.name, "lead"@, answer),
        !text::is_blank(w.prompt) ==> worker_action(
            after_answer(after_action(w), tasks, Err(answer)),
            tasks,
        ) is Fail,
{
}

/// A member that finds messages goes to work on them, on all of them, and one
/// that finds none waits before it looks again.
pub proof fn lemma_member_handles_messages(
    w: WorkerLoopModel,
    tasks: RegistryModel,
    messages: Seq<MessageModel>,
)
    ensures
        ({
            let seen = after_watch(w, false, messages);
            &&& messages.len() == 0 ==> worker_action(seen, tasks) is Sleep && worker_action(
                after_action(seen),
                tasks,
            ) is Watch
            &&& messages.len() > 0 ==> worker_action(seen, tasks) == WorkerActionModel::SetStatus(
                MemberStatus::Working,
            ) && worker_action(after_action(seen), tasks) == WorkerActionModel::Ask(
                inbox_prompt(after_action(seen), tasks, inbox_text(messages)),
            )
        }),
{
}

/// What a member gives back is kept with its task: the answer of one that is
/// done, and the failure of one that is not.
pub proof fn lemma_answer_is_kept_with_task(
    tasks: RegistryModel,
    id: Seq<char>,
    answer: Seq<char>,
    now_ms: u128,
)
    requires
        tasks.knows(id),
    ensures
        ({
            let done = tasks_after_answer(tasks, Some(id), Ok(answer), now_ms).task(id);
            let failed = tasks_after_answer(tasks, Some(id), Err(answer), now_ms).task(id);
            &&& done is Some
            &&& done->0.status == TaskStatus::Completed
            &&& done->0.error is None
            &&& done->0.result_preview is Some
            &&& text::trimmed(answer).len() <= 2_000 ==> done->0.result_preview == Some(
                text::trimmed(answer),
            )
            &&& text::trimmed(answer).len() > 2_000 ==> done->0.result_preview == Some(
                text::trimmed(answer).take(2_000),
            )
            &&& done->0.updated_at_unix_ms == now_ms
            &&& failed is Some
            &&& failed->0.status == TaskStatus::Failed
            &&& failed->0.error == Some(answer)
            &&& failed->0.result_preview is None
            &&& tasks_after_answer(tasks, None, Ok(answer), now_ms) == tasks
        }),
{
    task_registry::lemma_place_of(tasks.tasks, id);
    let task = tasks.task(id)->0;
    let done = TaskModel {
        status: TaskStatus::Completed,
        result_preview: Some(preview_of(answer)),
        error: None,
        updated_at_unix_ms: now_ms,
        ..task
    };
    let failed = TaskModel {
        status: TaskStatus::Failed,
        result_preview: None,
        error: Some(answer),
        updated_at_unix_ms: now_ms,
        ..task
    };
    task_registry::lemma_changed_task_is_found(tasks, id, done, id);
    task_registry::lemma_changed_task_is_found(tasks, id, failed, id);
}

/// A huddle waits for everybody: as long as one of its members works or has not
/// come yet, and the time is not up, it goes on.
pub proof fn lemma_huddle_waits_for_all(
    members: Seq<MemberModel>,
    names: Seq<Seq<char>>,
    i: int,
)
    requires
        0 <= i < names.len(),
    ensures
        !has_member(members, names[i]) ==> !all_settled(members, names),
        has_member(members, names[i]) && members[member_place(members, names[i])].status
            == MemberStatus::Working ==> !all_settled(members, names),
        (forall|k: int|
            0 <= k < names.len() ==> has_member(members, #[trigger] names[k])
                && members[member_place(members, names[k])].status != MemberStatus::Working)
            ==> all_settled(members, names),
{
    if !is_settled(members, names[i]) {
        assert(!all_settled(members, names));
    }
}

/// Blank lines of an inbox are passed over; every other line is a message, in
/// order.
pub proof fn lemma_lines_of_inbox(lines: Seq<Seq<char>>, line: Seq<char>)
    ensures
        text::is_blank(line) ==> filled_lines(lines.push(line)) == filled_lines(lines),
        !text::is_blank(line) ==> filled_lines(lines.push(line)) == filled_lines(lines).push(line),
        filled_lines(seq![]).len() == 0,
{
    assert(lines.push(line).drop_last() =~= lines);
}

/// One more member adds its task to the numbers, to the plan if it has one, and
/// to the list of tasks.
pub proof fn lemma_member_is_surveyed(
    tasks: RegistryModel,
    members: Seq<MemberModel>,
    m: MemberModel,
    id: Seq<char>,
    t: TaskModel,
)
    requires
        m.task_id == Some(id),
        tasks.task(id) == Some(t),
    ensures
        ({
            let before = survey(Some(tasks), members);
            let after = survey(Some(tasks), members.push(m));
            &&& t.status == TaskStatus::Running ==> after.running == before.running + 1
                && after.completed == before.completed && after.failed == before.failed
            &&& t.status == TaskStatus::Completed ==> after.completed == before.completed + 1
                && after.running == before.running && after.failed == before.failed
            &&& t.status == TaskStatus::Failed ==> after.failed == before.failed + 1
                && after.running == before.running && after.completed == before.completed
            &&& after.unavailable == before.unavailable
            &&& after.plan.drop_last() == before.plan
            &&& after.plan.last().teammate == m.name
            &&& after.plan.last().task_id == id
            &&& after.plan.last().task_status == Some(t.status)
            &&& t.status == TaskStatus::Completed ==> after.plan.last().todo_status()
                == "completed"@
            &&& t.status == TaskStatus::Failed ==> after.plan.last().todo_status() == "pending"@
            &&& t.status == TaskStatus::Running && before.running == 0
                ==> after.plan.last().todo_status() == "in_progress"@
            &&& t.status == TaskStatus::Running && before.running > 0
                ==> after.plan.last().todo_status() == "pending"@
            &&& after.snapshots.len() == before.snapshots.len() + 1
        }),
{
    assert(members.push(m).drop_last() =~= members);
    lemma_one_item_in_progress(Some(tasks), members);
    let before = survey(Some(tasks), members);
    let after = survey(Some(tasks), members.push(m));
    assert(after.plan.drop_last() =~= before.plan);
}

/// A member without a task, or whose task is not known, counts as one of which
/// nothing is known.
pub proof fn lemma_member_without_task(
    tasks: Option<RegistryModel>,
    members: Seq<MemberModel>,
    m: MemberModel,
)
    requires
        m.task_id is None,
    ensures
        survey(tasks, members.push(m)).unavailable == survey(tasks, members).unavailable + 1,
        survey(tasks, members.push(m)).plan == survey(tasks, members).plan,
        survey(tasks, members.push(m)).running == survey(tasks, members).running,
{
    assert(members.push(m).drop_last() =~= members);
}

/// A member as it is shown says who it is, what it does and how it stands.
pub proof fn lemma_member_is_shown(m: MemberModel)
    ensures
        member_shown(m).text_at("name"@) == Some(m.name),
        member_shown(m).text_at("role"@) == Some(m.role),
        member_shown(m).text_at("task_id"@) == m.task_id,
        member_shown(m).text_at("status"@) == Some(m.status.key()),
        member_shown(m).get("created_at_unix_ms"@) == Some(
            JsonModel::uint(m.created_at_unix_ms as u64),
        ),
        MemberStatus::Working.key() == "working"@,
        MemberStatus::Idle.key() == "idle"@,
        MemberStatus::Shutdown.key() == "shutdown"@,
{
    reveal_strlit("name");
    reveal_strlit("role");
    reveal_strlit("task_id");
    reveal_strlit("status");
    reveal_strlit("created_at_unix_ms");
    assert("name"@[0] != "role"@[0]);
    assert("name"@.len() != "task_id"@.len());
    assert("name"@.len() != "status"@.len());
    assert("name"@.len() != "created_at_unix_ms"@.len());
    assert("role"@.len() != "task_id"@.len());
    assert("role"@.len() != "status"@.len());
    assert("role"@.len() != "created_at_unix_ms"@.len());
    assert("task_id"@.len() != "status"@.len());
    assert("task_id"@.len() != "created_at_unix_ms"@.len());
    assert("status"@.len() != "created_at_unix_ms"@.len());
    let j0 = JsonModel::empty_object();
    let j1 = j0.with("name"@, JsonModel::Text(m.name));
    json::lemma_with_is_read(j0, "name"@, JsonModel::Text(m.name));
    let j2 = j1.with("role"@, JsonModel::Text(m.role));
    json::lemma_with_is_read(j1, "role"@, JsonModel::Text(m.role));
    let j3 = j2.with("task_id"@, JsonModel::optional_text(m.task_id));
    json::lemma_with_is_read(j2, "task_id"@, JsonModel::optional_text(m.task_id));
    let j4 = j3.with("status"@, JsonModel::Text(m.status.key()));
    json::lemma_with_is_read(j3, "status"@, JsonModel::Text(m.status.key()));
    let j5 = j4.with("created_at_unix_ms"@, JsonModel::uint(m.created_at_unix_ms as u64));
    json::lemma_with_is_read(j4, "created_at_unix_ms"@, JsonModel::uint(m.created_at_unix_ms as u64));
}

/// The state of the team shows every member, who runs, and the tasks with their
/// numbers and the plan that they make up.
pub proof fn lemma_team_is_shown(
    team: TeamModel,
    members: Seq<MemberModel>,
    tasks: Option<RegistryModel>,
)
    ensures
        ({
            let shown = team_shown(team, members, tasks);
            let s = survey(tasks, members);
            &&& shown.text_at("team_dir"@) == Some(team.team_dir)
            &&& shown.text_at("inbox_dir"@) == Some(team.inbox_dir)
            &&& shown.items_at("members"@) == Some(
                members.map_values(|m: MemberModel| member_shown(m)),
            )
            &&& shown.items_at("active_workers"@) == Some(
                team.workers.map_values(|w: WorkerModel| JsonModel::Text(w.name)),
            )
            &&& shown.items_at("task_snapshots"@) == Some(s.snapshots)
            &&& shown.items_at("todo_projection"@) == Some(
                s.plan.map_values(|i: PlanItem| i.shown()),
            )
            &&& shown.get("task_snapshot_summary"@) is Some
            &&& shown.get("task_snapshot_summary"@)->0.get("running"@) == Some(
                JsonModel::uint(s.running as u64),
            )
            &&& shown.get("task_snapshot_summary"@)->0.get("completed"@) == Some(
                JsonModel::uint(s.completed as u64),
            )
            &&& shown.get("task_snapshot_summary"@)->0.get("failed"@) == Some(
                JsonModel::uint(s.failed as u64),
            )
            &&& shown.get("task_snapshot_summary"@)->0.get("unavailable"@) == Some(
                JsonModel::uint(s.unavailable as u64),
            )
        }),
{
    let s = survey(tasks, members);
    let listed = JsonModel::Array(members.map_values(|m: MemberModel| member_shown(m)));
    let running = JsonModel::Array(
        team.workers.map_values(|w: WorkerModel| JsonModel::Text(w.name)),
    );
    let plan = JsonModel::Array(s.plan.map_values(|i: PlanItem| i.shown()));
    reveal_strlit("running");
    reveal_strlit("completed");
    reveal_strlit("failed");
    reveal_strlit("unavailable");
    assert("running"@.len() != "completed"@.len());
    assert("running"@.len() != "failed"@.len());
    assert("running"@.len() != "unavailable"@.len());
    assert("completed"@.len() != "failed"@.len());
    assert("completed"@.len() != "unavailable"@.len());
    assert("failed"@.len() != "unavailable"@.len());
    let n0 = JsonModel::empty_object();
    let n1 = n0.with("running"@, JsonModel::uint(s.running as u64));
    json::lemma_with_is_read(n0, "running"@, JsonModel::uint(s.running as u64));
    let n2 = n1.with("completed"@, JsonModel::uint(s.completed as u64));
    json::lemma_with_is_read(n1, "completed"@, JsonModel::uint(s.completed as u64));
    let n3 = n2.with("failed"@, JsonModel::uint(s.failed as u64));
    json::lemma_with_is_read(n2, "failed"@, JsonModel::uint(s.failed as u64));
    let n4 = n3.with("unavailable"@, JsonModel::uint(s.unavailable as u64));
    json::lemma_with_is_read(n3, "unavailable"@, JsonModel::uint(s.unavailable as u64));
    reveal_strlit("team_dir");
    reveal_strlit("members");
    reveal_strlit("active_workers");
    reveal_strlit("inbox_dir");
    reveal_strlit("task_snapshots");
    reveal_strlit("task_snapshot_summary");
    reveal_strlit("todo_projection");
    assert("team_dir"@.len() != "members"@.len());
    assert("team_dir"@.len() != "active_workers"@.len());
    assert("team_dir"@.len() != "inbox_dir"@.len());
    assert("team_dir"@.len() != "task_snapshots"@.len());
    assert("team_dir"@.len() != "task_snapshot_summary"@.len());
    assert("team_dir"@.len() != "todo_projection"@.len());
    assert("members"@.len() != "active_workers"@.len());
    assert("members"@.len() != "inbox_dir"@.len());
    assert("members"@.len() != "task_snapshots"@.len());
    assert("members"@.len() != "task_snapshot_summary"@.len());
    assert("members"@.len() != "todo_projection"@.len());
    assert("active_workers"@.len() != "inbox_dir"@.len());
    assert("active_workers"@[0] != "task_snapshots"@[0]);
    assert("active_workers"@.len() != "task_snapshot_summary"@.len());
    assert("active_workers"@.len() != "todo_projection"@.len());
    assert("inbox_dir"@.len() != "task_snapshots"@.len());
    assert("inbox_dir"@.len() != "task_snapshot_summary"@.len());
    assert("inbox_dir"@.len() != "todo_projection"@.len());
    assert("task_snapshots"@.len() != "task_snapshot_summary"@.len());
    assert("task_snapshots"@.len() != "todo_projection"@.len());
    assert("task_snapshot_summary"@.len() != "todo_projection"@.len());
    let j0 = JsonModel::empty_object();
    let j1 = j0.with("team_dir"@, JsonModel::Text(team.team_dir));
    json::lemma_with_is_read(j0, "team_dir"@, JsonModel::Text(team.team_dir));
    let j2 = j1.with("members"@, listed);
    json::lemma_with_is_read(j1, "members"@, listed);
    let j3 = j2.with("active_workers"@, running);
    json::lemma_with_is_read(j2, "active_workers"@, running);
    let j4 = j3.with("inbox_dir"@, JsonModel::Text(team.inbox_dir));
    json::lemma_with_is_read(j3, "inbox_dir"@, JsonModel::Text(team.inbox_dir));
    let j5 = j4.with("task_snapshots"@, JsonModel::Array(s.snapshots));
    json::lemma_with_is_read(j4, "task_snapshots"@, JsonModel::Array(s.snapshots));
    let j6 = j5.with("task_snapshot_summary"@, n4);
    json::lemma_with_is_read(j5, "task_snapshot_summary"@, n4);
    let j7 = j6.with("todo_projection"@, plan);
    json::lemma_with_is_read(j6, "todo_projection"@, plan);
}

/// What comes of a huddle: who was spawned, what they told the lead, and the
/// state of the team.
pub proof fn lemma_huddle_is_shown(
    spawned: Seq<Seq<char>>,
    messages: Seq<MessageModel>,
    status: Seq<char>,
    state: JsonModel,
)
    requires
        json::parsed(status) == Ok::<JsonModel, Seq<char>>(state),
    ensures
        ({
            let shown = huddle_shown(spawned, messages, status);
            &&& shown.items_at("spawned"@) == Some(
                spawned.map_values(|s: Seq<char>| JsonModel::Text(s)),
            )
            &&& shown.items_at("lead_messages"@) == Some(
                messages.map_values(|m: MessageModel| message_shown(m)),
            )
            &&& shown.get("status"@) == Some(state)
        }),
{
    let who = JsonModel::Array(spawned.map_values(|s: Seq<char>| JsonModel::Text(s)));
    reveal_strlit("spawned");
    reveal_strlit("lead_messages");
    reveal_strlit("status");
    assert("spawned"@.len() != "lead_messages"@.len());
    assert("spawned"@.len() != "status"@.len());
    assert("lead_messages"@.len() != "status"@.len());
    let j0 = JsonModel::empty_object();
    let j1 = j0.with("spawned"@, who);
    json::lemma_with_is_read(j0, "spawned"@, who);
    let j2 = j1.with("lead_messages"@, messages_shown(messages));
    json::lemma_with_is_read(j1, "lead_messages"@, messages_shown(messages));
    let j3 = j2.with("status"@, state);
    json::lemma_with_is_read(j2, "status"@, state);
}

/// A message as it is shown says who sent it, what it is about and when.
pub proof fn lemma_message_is_shown(m: MessageModel)
    ensures
        message_shown(m).text_at("type"@) == Some(m.msg_type),
        message_shown(m).text_at("from"@) == Some(m.from),
        message_shown(m).text_at("content"@) == Some(m.content),
        message_shown(m).get("timestamp_unix_ms"@) == Some(
            JsonModel::uint(m.timestamp_unix_ms as u64),
        ),
{
    reveal_strlit("type");
    reveal_strlit("from");
    reveal_strlit("content");
    reveal_strlit("timestamp_unix_ms");
    assert("type"@[0] != "from"@[0]);
    assert("type"@.len() != "content"@.len());
    assert("type"@.len() != "timestamp_unix_ms"@.len());
    assert("from"@.len() != "content"@.len());
    assert("from"@.len() != "timestamp_unix_ms"@.len());
    assert("content"@.len() != "timestamp_unix_ms"@.len());
    let j0 = JsonModel::empty_object();
    let j1 = j0.with("type"@, JsonModel::Text(m.msg_type));
    json::lemma_with_is_read(j0, "type"@, JsonModel::Text(m.msg_type));
    let j2 = j1.with("from"@, JsonModel::Text(m.from));
    json::lemma_with_is_read(j1, "from"@, JsonModel::Text(m.from));
    let j3 = j2.with("content"@, JsonModel::Text(m.content));
    json::lemma_with_is_read(j2, "content"@, JsonModel::Text(m.content));
    let j4 = j3.with("timestamp_unix_ms"@, JsonModel::uint(m.timestamp_unix_ms as u64));
    json::lemma_with_is_read(j3, "timestamp_unix_ms"@, JsonModel::uint(m.timestamp_unix_ms as u64));
}

/// Of a task that is known its state is shown, and of one that is not, why not.
pub proof fn lemma_snapshot_of_task(tasks: RegistryModel, id: Seq<char>, t: TaskModel)
    requires
        tasks.task(id) == Some(t),
    ensures
        ({
            let shown = task_snapshot(Some(tasks), Some(id));
            &&& shown.get("available"@) == Some(JsonModel::Bool(true))
            &&& shown.text_at("task_id"@) == Some(t.id)
            &&& shown.text_at("status"@) == Some(t.status.key())
            &&& shown.text_at("assigned_teammate"@) == t.assigned_teammate
            &&& shown.text_at("result_preview"@) == t.result_preview
            &&& shown.text_at("error"@) == t.error
            &&& shown.get("updated_at_unix_ms"@) == Some(
                JsonModel::uint(t.updated_at_unix_ms as u64),
            )
            &&& shown.get("is_terminal"@) == Some(
                JsonModel::Bool(t.status != TaskStatus::Running),
            )
        }),
{
    reveal_strlit("available");
    reveal_strlit("task_id");
    reveal_strlit("status");
    reveal_strlit("assigned_teammate");
    reveal_strlit("result_preview");
    reveal_strlit("error");
    reveal_strlit("updated_at_unix_ms");
    reveal_strlit("is_terminal");
    assert("available"@.len() != "task_id"@.len());
    assert("available"@.len() != "status"@.len());
    assert("available"@.len() != "assigned_teammate"@.len());
    assert("available"@.len() != "result_preview"@.len());
    assert("available"@.len() != "error"@.len());
    assert("available"@.len() != "updated_at_unix_ms"@.len());
    assert("available"@.len() != "is_terminal"@.len());
    assert("task_id"@.len() != "status"@.len());
    assert("task_id"@.len() != "assigned_teammate"@.len());
    assert("task_id"@.len() != "result_preview"@.len());
    assert("task_id"@.len() != "error"@.len());
    assert("task_id"@.len() != "updated_at_unix_ms"@.len());
    assert("task_id"@.len() != "is_terminal"@.len());
    assert("status"@.len() != "assigned_teammate"@.len());
    assert("status"@.len() != "result_preview"@.len());
    assert("status"@.len() != "error"@.len());
    assert("status"@.len() != "updated_at_unix_ms"@.len());
    assert("status"@.len() != "is_terminal"@.len());
    assert("assigned_teammate"@.len() != "result_preview"@.len());
    assert("assigned_teammate"@.len() != "error"@.len());
    assert("assigned_teammate"@.len() != "updated_at_unix_ms"@.len());
    assert("assigned_teammate"@.len() != "is_terminal"@.len());
    assert("result_preview"@.len() != "error"@.len());
    assert("result_preview"@.len() != "updated_at_unix_ms"@.len());
    assert("result_preview"@.len() != "is_terminal"@.len());
    assert("error"@.len() != "updated_at_unix_ms"@.len());
    assert("error"@.len() != "is_terminal"@.len());
    assert("updated_at_unix_ms"@.len() != "is_terminal"@.len());
    let j0 = JsonModel::empty_object();
    let j1 = j0.with("available"@, JsonModel::Bool(true));
    json::lemma_with_is_read(j0, "available"@, JsonModel::Bool(true));
    let j2 = j1.with("task_id"@, JsonModel::Text(t.id));
    json::lemma_with_is_read(j1, "task_id"@, JsonModel::Text(t.id));
    let j3 = j2.with("status"@, JsonModel::Text(t.status.key()));
    json::lemma_with_is_read(j2, "status"@, JsonModel::Text(t.status.key()));
    let j4 = j3.with("assigned_teammate"@, JsonModel::optional_text(t.assigned_teammate));
    json::lemma_with_is_read(j3, "assigned_teammate"@, JsonModel::optional_text(t.assigned_teammate));
    let j5 = j4.with("result_preview"@, JsonModel::optional_text(t.result_preview));
    json::lemma_with_is_read(j4, "result_preview"@, JsonModel::optional_text(t.result_preview));
    let j6 = j5.with("error"@, JsonModel::optional_text(t.error));
    json::lemma_with_is_read(j5, "error"@, JsonModel::optional_text(t.error));
    let j7 = j6.with("updated_at_unix_ms"@, JsonModel::uint(t.updated_at_unix_ms as u64));
    json::lemma_with_is_read(j6, "updated_at_unix_ms"@, JsonModel::uint(t.updated_at_unix_ms as u64));
    let j8 = j7.with("is_terminal"@, JsonModel::Bool(t.status.terminal()));
    json::lemma_with_is_read(j7, "is_terminal"@, JsonModel::Bool(t.status.terminal()));
}

/// A task that is not known is shown as not available.
pub proof fn lemma_snapshot_without_task(tasks: RegistryModel, id: Seq<char>)
    requires
        tasks.task(id) is None,
    ensures
        task_snapshot(Some(tasks), Some(id)).get("available"@) == Some(JsonModel::Bool(false)),
        task_snapshot(Some(tasks), None).get("available"@) == Some(JsonModel::Bool(false)),
        task_snapshot(None, Some(id)).get("available"@) == Some(JsonModel::Bool(false)),
        task_snapshot(Some(tasks), Some(id)).text_at("task_id"@) == Some(id),
{
    reveal_strlit("available");
    reveal_strlit("reason");
    reveal_strlit("task_id");
    assert("available"@.len() != "reason"@.len());
    assert("available"@.len() != "task_id"@.len());
    assert("reason"@.len() != "task_id"@.len());
    let j0 = JsonModel::empty_object();
    let j1 = j0.with("available"@, JsonModel::Bool(false));
    json::lemma_with_is_read(j0, "available"@, JsonModel::Bool(false));
    let j2 = j1.with("reason"@, JsonModel::Text("task not found"@));
    json::lemma_with_is_read(j1, "reason"@, JsonModel::Text("task not found"@));
    let j3 = j2.with("task_id"@, JsonModel::Text(id));
    json::lemma_with_is_read(j2, "task_id"@, JsonModel::Text(id));
    json::lemma_with_is_read(j1, "reason"@, JsonModel::Text("no task bound"@));
    json::lemma_with_is_read(j1, "reason"@, JsonModel::Text("task registry unavailable"@));
}

/// An item of the plan names the member, its task and how the task stands.
pub proof fn lemma_plan_item_is_shown(item: PlanItem)
    ensures
        item.shown().text_at("id"@) == Some(item.task_id),
        item.shown().text_at("status"@) == Some(item.todo_status()),
        item.shown().text_at("content"@) == Some("teammate '"@ + item.teammate + "' task"@),
        item.active ==> item.todo_status() == "in_progress"@,
        !item.active && item.task_status == Some(TaskStatus::Completed) ==> item.todo_status()
            == "completed"@,
        !item.active && item.task_status != Some(TaskStatus::Completed) ==> item.todo_status()
            == "pending"@,
{
    let source = JsonModel::empty_object().with("teammate"@, JsonModel::Text(item.teammate)).with(
        "task_id"@,
        JsonModel::Text(item.task_id),
    ).with(
        "task_status"@,
        JsonModel::Text(
            match item.task_status {
                Some(s) => s.key(),
                None => "unknown"@,
            },
        ),
    ).with("active"@, JsonModel::Bool(item.active));
    reveal_strlit("id");
    reveal_strlit("content");
    reveal_strlit("status");
    reveal_strlit("source");
    assert("id"@.len() != "content"@.len());
    assert("id"@.len() != "status"@.len());
    assert("id"@.len() != "source"@.len());
    assert("content"@.len() != "status"@.len());
    assert("content"@.len() != "source"@.len());
    assert("status"@[1] != "source"@[1]);
    let j0 = JsonModel::empty_object();
    let j1 = j0.with("id"@, JsonModel::Text(item.task_id));
    json::lemma_with_is_read(j0, "id"@, JsonModel::Text(item.task_id));
    let j2 = j1.with("content"@, JsonModel::Text("teammate '"@ + item.teammate + "' task"@));
    json::lemma_with_is_read(j1, "content"@, JsonModel::Text("teammate '"@ + item.teammate + "' task"@));
    let j3 = j2.with("status"@, JsonModel::Text(item.todo_status()));
    json::lemma_with_is_read(j2, "status"@, JsonModel::Text(item.todo_status()));
    let j4 = j3.with("source"@, source);
    json::lemma_with_is_read(j3, "source"@, source);
}

/// The line of a message holds, quoted, its kind, its sender and its content, and
/// then its time.
#[verifier::spinoff_prover]
pub proof fn lemma_line_holds_message(m: MessageModel)
    ensures
        text::begins_with(inbox_line(m), "{\"type\":"@ + json::quoted(m.msg_type)),
        text::has_text(inbox_line(m), ",\"from\":"@ + json::quoted(m.from)),
        text::has_text(inbox_line(m), ",\"content\":"@ + json::quoted(m.content)),
        text::finishes_with(inbox_line(m), text::decimal(m.timestamp_unix_ms as nat) + "}"@),
{
    let all = inbox_line(m);
    let kind = "{\"type\":"@ + json::quoted(m.msg_type);
    let from = ",\"from\":"@ + json::quoted(m.from);
    let content = ",\"content\":"@ + json::quoted(m.content);
    let end = text::decimal(m.timestamp_unix_ms as nat) + "}"@;
    let tail = ",\"timestamp_unix_ms\":"@ + end;
    assert(all =~= kind + from + content + tail);
    text::lemma_has_itself(from);
    text::lemma_has_itself(content);
    assert(text::has_text(all, from)) by {
        text::lemma_has_text_within(kind, from, content + tail, from);
        assert(all =~= kind + from + (content + tail));
    }
    assert(text::has_text(all, content)) by {
        text::lemma_has_text_within(kind + from, content, tail, content);
    }
    assert(all.skip(all.len() - end.len()) =~= end);
    assert(all.take(kind.len() as int) =~= kind);
}

/// The messages of an inbox are told one after the other, all of them.
pub proof fn lemma_inbox_tells_all(messages: Seq<MessageModel>, m: MessageModel)
    ensures
        inbox_shown(seq![]) == "[]"@,
        inbox_shown(seq![m]) == "[\n"@ + inbox_entry(m) + "\n]"@,
        messages.len() > 0 ==> inbox_shown(messages.push(m)) == "[\n"@ + text::joined(
            messages.map_values(|n: MessageModel| inbox_entry(n)),
            ",\n"@,
        ) + ",\n"@ + inbox_entry(m) + "\n]"@,
{
    let entries = messages.map_values(|n: MessageModel| inbox_entry(n));
    let more = messages.push(m).map_values(|n: MessageModel| inbox_entry(n));
    assert(more =~= entries.push(inbox_entry(m)));
    text::lemma_parts_are_joined(entries, inbox_entry(m), ",\n"@);
    assert(seq![m].map_values(|n: MessageModel| inbox_entry(n)) =~= seq![inbox_entry(m)]);
    if messages.len() > 0 {
        let body = text::joined(entries, ",\n"@);
        assert(inbox_shown(messages.push(m)) =~= "[\n"@ + body + ",\n"@ + inbox_entry(m) + "\n]"@);
    }
}

/// A running member is found by its name.
pub proof fn lemma_worker_is_found(workers: Seq<WorkerModel>, name: Seq<char>, i: int)
    ensures
        0 <= i < workers.len() && workers[i].name == name ==> worker_place(workers, name)
            < workers.len(),
        worker_place(workers, name) < workers.len() ==> workers[worker_place(workers, name)].name
            == name,
    decreases workers.len(),
{
    lemma_worker_place(workers, name);
    if workers.len() > 0 && workers[0].name != name {
        lemma_worker_is_found(workers.skip(1), name, i - 1);
        let place = worker_place(workers.skip(1), name);
        lemma_worker_place(workers.skip(1), name);
        if place < workers.len() - 1 {
            assert(workers.skip(1)[place] == workers[place + 1]);
        }
        if 0 <= i < workers.len() && workers[i].name == name {
            assert(workers.skip(1)[i - 1] == workers[i]);
        }
    }
}

/// The status of a team that cannot be read is told as one that there is not.
pub proof fn lemma_unreadable_status_is_told(
    spawned: Seq<Seq<char>>,
    messages: Seq<MessageModel>,
    status: Seq<char>,
)
    requires
        json::parsed(status) is Err,
    ensures
        huddle_shown(spawned, messages, status).get("status"@) matches Some(told) && told.text_at(
            "status"@,
        ) == Some("unavailable"@),
{
    reveal_strlit("status");
    let u0 = JsonModel::empty_object();
    let u1 = u0.with("status"@, JsonModel::Text("unavailable"@));
    json::lemma_with_is_read(u0, "status"@, JsonModel::Text("unavailable"@));
    reveal_strlit("spawned");
    reveal_strlit("lead_messages");
    reveal_strlit("status");
    assert("spawned"@.len() != "lead_messages"@.len());
    assert("spawned"@.len() != "status"@.len());
    assert("lead_messages"@.len() != "status"@.len());
    let j0 = JsonModel::empty_object();
    let j1 = j0.with("spawned"@, JsonModel::Array(spawned.map_values(|s: Seq<char>| JsonModel::Text(s))));
    json::lemma_with_is_read(j0, "spawned"@, JsonModel::Array(spawned.map_values(|s: Seq<char>| JsonModel::Text(s))));
    let j2 = j1.with("lead_messages"@, messages_shown(messages));
    json::lemma_with_is_read(j1, "lead_messages"@, messages_shown(messages));
    let j3 = j2.with("status"@, u1);
    json::lemma_with_is_read(j2, "status"@, u1);
}

} // verus!
