//! The workflow of an interview: materials first, then the interview itself,
//! then the report.
use crate::agents;
use crate::agents::AgentKind;
use crate::ask;
use crate::json::JsonModel;
use crate::llm::session;
use crate::llm::session::ConversationSessionSnapshot;
use crate::text;
use crate::web::error;
use crate::web::error::AppError;
use crate::web::live::{LiveSnapshot, LiveSnapshotModel, LiveSubmitResponse, ResponseModel};
use crate::web::messages;
use crate::web::messages::{UiMessage, UiMessageModel};
use vstd::prelude::*;

verus! {

// ---------------------------------------------------------------------------
// Types

/// How far the interview of a session has come.
#[derive(Debug, Clone, Copy, PartialEq, Eq, Structural)]
pub enum InterviewStatus {
    NotStarted,
    InProgress,
    Completed,
}

/// The report on an interview.
#[derive(Debug)]
pub struct ReportMeta {
    pub path: String,
    pub updated_at: u128,
}

/// The materials of a session.
#[derive(Debug)]
pub struct MaterialsMeta {
    pub exists: bool,
    pub path: String,
    pub updated_at: Option<u128>,
}

/// An agent that can be talked to.
#[derive(Debug)]
pub struct AgentInfo {
    pub kind: AgentKind,
    pub id: String,
    pub title: String,
}

/// The state of the workflow.
#[derive(Debug)]
pub struct WorkflowSnapshot {
    pub active_agent: AgentKind,
    pub available_agents: Vec<AgentInfo>,
    pub materials: MaterialsMeta,
    pub interview_status: InterviewStatus,
    pub interview_phase: String,
    pub materials_session_id: Option<String>,
    pub interview_session_id: Option<String>,
    pub report: Option<ReportMeta>,
}

/// The report on an interview.
#[verifier::ext_equal]
pub struct ReportModel {
    pub path: Seq<char>,
    pub updated_at: u128,
}

/// The materials of a session.
#[verifier::ext_equal]
pub struct MaterialsModel {
    pub exists: bool,
    pub path: Seq<char>,
    pub updated_at: Option<u128>,
}

/// An agent that can be talked to.
#[verifier::ext_equal]
pub struct AgentModel {
    pub kind: AgentKind,
    pub id: Seq<char>,
    pub title: Seq<char>,
}

/// The state of the workflow.
#[verifier::ext_equal]
pub struct WorkflowModel {
    pub active_agent: AgentKind,
    pub available_agents: Seq<AgentModel>,
    pub materials: MaterialsModel,
    pub interview_status: InterviewStatus,
    pub interview_phase: Seq<char>,
    pub materials_session_id: Option<Seq<char>>,
    pub interview_session_id: Option<Seq<char>>,
    pub report: Option<ReportModel>,
}

impl DeepView for ReportMeta {
    type V = ReportModel;

    open spec fn deep_view(&self) -> ReportModel {
        ReportModel { path: self.path@, updated_at: self.updated_at }
    }
}

impl DeepView for MaterialsMeta {
    type V = MaterialsModel;

    open spec fn deep_view(&self) -> MaterialsModel {
        MaterialsModel {
            exists: self.exists,
            path: self.path@,
            updated_at: self.updated_at,
        }
    }
}

impl DeepView for AgentInfo {
    type V = AgentModel;

    open spec fn deep_view(&self) -> AgentModel {
        AgentModel { kind: self.kind, id: self.id@, title: self.title@ }
    }
}

impl DeepView for WorkflowSnapshot {
    type V = WorkflowModel;

    open spec fn deep_view(&self) -> WorkflowModel {
        WorkflowModel {
            active_agent: self.active_agent,
            available_agents: self.available_agents.deep_view(),
            materials: self.materials.deep_view(),
            interview_status: self.interview_status,
            interview_phase: self.interview_phase@,
            materials_session_id: self.materials_session_id.deep_view(),
            interview_session_id: self.interview_session_id.deep_view(),
            report: self.report.deep_view(),
        }
    }
}

impl Clone for ReportMeta {
    fn clone(&self) -> (r: ReportMeta)
        ensures
            r.deep_view() == self.deep_view(),
    {
        ReportMeta { path: self.path.clone(), updated_at: self.updated_at }
    }
}

impl Clone for WorkflowSnapshot {
    fn clone(&self) -> (r: WorkflowSnapshot)
        ensures
            r.deep_view() == self.deep_view(),
    {
        let ghost all = self.available_agents.deep_view();
        let mut agents: Vec<AgentInfo> = Vec::new();
        let mut i: usize = 0;
        assert(agents.deep_view() =~= all.take(0));
        while i < self.available_agents.len()
            invariant
                i <= self.available_agents@.len(),
                all == self.available_agents.deep_view(),
                agents.deep_view() == all.take(i as int),
            decreases self.available_agents@.len() - i,
        {
            let ghost before = agents.deep_view();
            let a = &self.available_agents[i];
            agents.push(AgentInfo { kind: a.kind, id: a.id.clone(), title: a.title.clone() });
            assert(agents.deep_view() =~= before.push(all[i as int]));
            assert(all.take(i + 1) =~= all.take(i as int).push(all[i as int]));
            i = i + 1;
        }
        assert(all.take(all.len() as int) =~= all);
        WorkflowSnapshot {
            active_agent: self.active_agent,
            available_agents: agents,
            materials: MaterialsMeta {
                exists: self.materials.exists,
                path: self.materials.path.clone(),
                updated_at: self.materials.updated_at,
            },
            interview_status: self.interview_status,
            interview_phase: self.interview_phase.clone(),
            materials_session_id: text::clone_text(&self.materials_session_id),
            interview_session_id: text::clone_text(&self.interview_session_id),
            report: match &self.report {
                Some(m) => Some(m.clone()),
                None => None,
            },
        }
    }
}

/// What is known of a file: whether there is one, and when it was changed.
#[derive(Debug, Clone, Copy, PartialEq, Eq, Structural)]
pub struct FileFacts {
    pub is_file: bool,
    pub modified_ms: Option<u128>,
}

// ---------------------------------------------------------------------------
// Files of a session

/// The agents that can be talked to.
pub open spec fn all_agents() -> Seq<AgentModel> {
    seq![
        AgentModel {
            kind: AgentKind::InterviewMaterials,
            id: AgentKind::InterviewMaterials.key(),
            title: AgentKind::InterviewMaterials.shown_title(),
        },
        AgentModel {
            kind: AgentKind::ProgrammerInterview,
            id: AgentKind::ProgrammerInterview.key(),
            title: AgentKind::ProgrammerInterview.shown_title(),
        },
    ]
}

fn agent_info(kind: AgentKind) -> (r: AgentInfo)
    ensures
        r.deep_view() == (AgentModel { kind, id: kind.key(), title: kind.shown_title() }),
{
    AgentInfo { kind, id: text::owned(kind.as_str()), title: text::owned(kind.title()) }
}

fn agent_infos() -> (r: Vec<AgentInfo>)
    ensures
        r.deep_view() == all_agents(),
{
    let mut r: Vec<AgentInfo> = Vec::new();
    r.push(agent_info(AgentKind::InterviewMaterials));
    r.push(agent_info(AgentKind::ProgrammerInterview));
    assert(r.deep_view() =~= all_agents());
    r
}

/// The latest materials may stand in for those of a session: the session asked
/// for something, and there are some.
pub fn allows_latest_materials_fallback(prompt_count: Option<usize>, latest_is_file: bool) -> (r:
    bool)
    ensures
        r == (latest_is_file && prompt_count is Some && prompt_count->0 > 0),
{
    match prompt_count {
        Some(n) => n > 0 && latest_is_file,
        None => false,
    }
}

/// The file that holds the materials of a session: its own one, or the latest
/// one where that may stand in for it. Without a session it is the latest one.
pub open spec fn materials_file(
    session_file: Option<Seq<char>>,
    session_is_file: bool,
    fallback: bool,
    latest: Seq<char>,
) -> Seq<char> {
    match session_file {
        Some(p) => if session_is_file || !fallback {
            p
        } else {
            latest
        },
        None => latest,
    }
}

/// The file that holds the materials of a session.
pub fn materials_path(
    session_file: Option<String>,
    session_is_file: bool,
    fallback: bool,
    latest: String,
) -> (r: String)
    ensures
        r@ == materials_file(session_file.deep_view(), session_is_file, fallback, latest@),
{
    match session_file {
        Some(p) => if session_is_file || !fallback {
            p
        } else {
            latest
        },
        None => latest,
    }
}

/// What is shown of the materials in a file.
pub fn materials_meta(path: String, facts: FileFacts) -> (r: MaterialsMeta)
    ensures
        r.deep_view() == (MaterialsModel {
            exists: facts.is_file,
            path: path@,
            updated_at: facts.modified_ms,
        }),
{
    MaterialsMeta { exists: facts.is_file, path, updated_at: facts.modified_ms }
}

/// The file that holds the report on a session: its own one if there is one,
/// else the latest one.
pub open spec fn report_file(
    session_file: Option<Seq<char>>,
    session_is_file: bool,
    latest: Seq<char>,
) -> Seq<char> {
    match session_file {
        Some(p) => if session_is_file {
            p
        } else {
            latest
        },
        None => latest,
    }
}

/// The file that holds the report on a session.
pub fn report_path(session_file: Option<String>, session_is_file: bool, latest: String) -> (r:
    String)
    ensures
        r@ == report_file(session_file.deep_view(), session_is_file, latest@),
{
    match session_file {
        Some(p) => if session_is_file {
            p
        } else {
            latest
        },
        None => latest,
    }
}

/// What is shown of the report in a file; there is none where there is no file.
pub open spec fn report_in(path: Seq<char>, facts: FileFacts, now_ms: u128) -> Option<ReportModel> {
    if facts.is_file {
        Some(
            ReportModel {
                path,
                updated_at: match facts.modified_ms {
                    Some(t) => t,
                    None => now_ms,
                },
            },
        )
    } else {
        None
    }
}

/// What is shown of the report in a file.
pub fn report_meta(path: String, facts: FileFacts, now_ms: u128) -> (r: Option<ReportMeta>)
    ensures
        r.deep_view() == report_in(path@, facts, now_ms),
{
    if !facts.is_file {
        return None;
    }
    Some(
        ReportMeta {
            path,
            updated_at: match facts.modified_ms {
                Some(t) => t,
                None => now_ms,
            },
        },
    )
}

/// How far the interview of a session has come: a report means that it is over,
/// a session of its own that it has begun.
pub open spec fn status_for(report_exists: bool, interview_exists: bool) -> InterviewStatus {
    if report_exists {
        InterviewStatus::Completed
    } else if interview_exists {
        InterviewStatus::InProgress
    } else {
        InterviewStatus::NotStarted
    }
}

/// How far the interview of a session has come.
pub fn interview_status_for_session(report_exists: bool, interview_exists: bool) -> (r:
    InterviewStatus)
    ensures
        r == status_for(report_exists, interview_exists),
{
    if report_exists {
        InterviewStatus::Completed
    } else if interview_exists {
        InterviewStatus::InProgress
    } else {
        InterviewStatus::NotStarted
    }
}

/// The phase that a status is shown with.
pub open spec fn phase_for(status: InterviewStatus) -> Seq<char> {
    match status {
        InterviewStatus::NotStarted => "INIT"@,
        InterviewStatus::InProgress => "IN_PROGRESS"@,
        InterviewStatus::Completed => "REPORT"@,
    }
}

/// The phase that a status is shown with.
pub fn interview_phase_for_status(status: InterviewStatus) -> (r: &'static str)
    ensures
        r@ == phase_for(status),
{
    match status {
        InterviewStatus::NotStarted => "INIT",
        InterviewStatus::InProgress => "IN_PROGRESS",
        InterviewStatus::Completed => "REPORT",
    }
}

/// The materials of a session as they were read. Nothing in them is as bad as
/// nothing at all.
pub fn read_materials(path: &str, contents: Option<String>) -> (r: Result<String, AppError>)
    ensures
        match contents {
            None => r matches Err(e) && e.deep_view() == error::conflict_error(
                "interview materials not found at "@ + path@,
            ),
            Some(c) => if text::is_blank(c@) {
                r matches Err(e) && e.deep_view() == error::conflict_error(
                    "interview materials file is empty"@,
                )
            } else {
                r matches Ok(m) && m@ == c@
            },
        },
{
    match contents {
        None => {
            let message = text::concat("interview materials not found at ", path);
            Err(AppError::conflict(message.as_str()))
        },
        Some(c) => {
            let trimmed = text::trim(c.as_str());
            if text::char_count(trimmed.as_str()) == 0 {
                Err(AppError::conflict("interview materials file is empty"))
            } else {
                Ok(c)
            }
        },
    }
}

// ---------------------------------------------------------------------------
// Transitions

/// What is found out about a workflow before it is shown.
pub struct WorkflowFacts {
    pub materials_session_id: Option<String>,
    pub interview_session_id: Option<String>,
    pub materials: MaterialsMeta,
    pub report: Option<ReportMeta>,
    /// A report on the interview that is open exists.
    pub interview_report_exists: bool,
}

/// The workflow before anything has happened.
pub open spec fn initial(materials: MaterialsModel, report: Option<ReportModel>) -> WorkflowModel {
    WorkflowModel {
        active_agent: AgentKind::InterviewMaterials,
        available_agents: all_agents(),
        materials,
        interview_status: InterviewStatus::NotStarted,
        interview_phase: "INIT"@,
        materials_session_id: None,
        interview_session_id: None,
        report,
    }
}

/// The workflow before anything has happened.
pub fn default_workflow_snapshot(materials: MaterialsMeta, report: Option<ReportMeta>) -> (r:
    WorkflowSnapshot)
    ensures
        r.deep_view() == initial(materials.deep_view(), report.deep_view()),
{
    WorkflowSnapshot {
        active_agent: AgentKind::InterviewMaterials,
        available_agents: agent_infos(),
        materials,
        interview_status: InterviewStatus::NotStarted,
        interview_phase: text::owned("INIT"),
        materials_session_id: None,
        interview_session_id: None,
        report,
    }
}

/// The workflow with what was found out. Without an interview it has not
/// started; with a report on the open one it is over.
pub open spec fn refreshed(w: WorkflowModel, facts: WorkflowFacts) -> WorkflowModel {
    let status = if facts.interview_session_id is None {
        InterviewStatus::NotStarted
    } else if facts.interview_report_exists {
        InterviewStatus::Completed
    } else {
        w.interview_status
    };
    let phase = if facts.interview_session_id is None {
        "INIT"@
    } else if facts.interview_report_exists {
        "REPORT"@
    } else {
        w.interview_phase
    };
    WorkflowModel {
        active_agent: w.active_agent,
        available_agents: all_agents(),
        materials: facts.materials.deep_view(),
        interview_status: status,
        interview_phase: phase,
        materials_session_id: facts.materials_session_id.deep_view(),
        interview_session_id: facts.interview_session_id.deep_view(),
        report: facts.report.deep_view(),
    }
}

/// The workflow after a session was selected.
pub open spec fn session_selected(
    w: WorkflowModel,
    active_agent: AgentKind,
    status: InterviewStatus,
    session_id: Seq<char>,
    interview_session_id: Option<Seq<char>>,
    materials: MaterialsModel,
    report: Option<ReportModel>,
) -> WorkflowModel {
    WorkflowModel {
        active_agent,
        interview_status: status,
        interview_phase: phase_for(status),
        materials_session_id: Some(session_id),
        interview_session_id,
        materials,
        report,
        ..w
    }
}

/// The workflow with a new session.
pub open spec fn session_reset(
    w: WorkflowModel,
    session_id: Seq<char>,
    materials: MaterialsModel,
) -> WorkflowModel {
    WorkflowModel {
        active_agent: AgentKind::InterviewMaterials,
        interview_status: InterviewStatus::NotStarted,
        interview_phase: "INIT"@,
        materials_session_id: Some(session_id),
        interview_session_id: None,
        materials,
        report: None,
        ..w
    }
}

/// The workflow while or after an agent works.
pub open spec fn agent_at_work(w: WorkflowModel, agent_kind: AgentKind) -> WorkflowModel {
    match agent_kind {
        AgentKind::InterviewMaterials => WorkflowModel { active_agent: agent_kind, ..w },
        AgentKind::ProgrammerInterview => WorkflowModel {
            active_agent: agent_kind,
            interview_status: InterviewStatus::InProgress,
            interview_phase: "IN_PROGRESS"@,
            ..w
        },
    }
}

/// The workflow when an interview starts.
pub open spec fn interview_started(
    w: WorkflowModel,
    session_id: Seq<char>,
    materials: MaterialsModel,
    report: Option<ReportModel>,
) -> WorkflowModel {
    WorkflowModel {
        active_agent: AgentKind::ProgrammerInterview,
        interview_status: InterviewStatus::InProgress,
        interview_phase: "INTRODUCTION"@,
        materials_session_id: Some(session_id),
        interview_session_id: Some(session_id),
        materials,
        report,
        ..w
    }
}

/// The workflow while the report is written.
pub open spec fn report_requested(w: WorkflowModel) -> WorkflowModel {
    WorkflowModel {
        active_agent: AgentKind::ProgrammerInterview,
        interview_status: InterviewStatus::InProgress,
        interview_phase: "REPORT"@,
        ..w
    }
}

/// The workflow when the interview is over.
pub open spec fn interview_completed(w: WorkflowModel, path: Seq<char>, now_ms: u128) -> WorkflowModel {
    WorkflowModel {
        active_agent: AgentKind::ProgrammerInterview,
        interview_status: InterviewStatus::Completed,
        interview_phase: "REPORT"@,
        report: Some(ReportModel { path, updated_at: now_ms }),
        ..w
    }
}

impl WorkflowSnapshot {
    /// Brings the workflow up to date with what was found out.
    pub fn refresh(&mut self, facts: WorkflowFacts)
        ensures
            final(self).deep_view() == refreshed(old(self).deep_view(), facts),
    {
        self.available_agents = agent_infos();
        if facts.interview_session_id.is_none() {
            self.interview_status = InterviewStatus::NotStarted;
            self.interview_phase = text::owned("INIT");
        } else if facts.interview_report_exists {
            self.interview_status = InterviewStatus::Completed;
            self.interview_phase = text::owned("REPORT");
        }
        self.materials_session_id = facts.materials_session_id;
        self.interview_session_id = facts.interview_session_id;
        self.materials = facts.materials;
        self.report = facts.report;
    }

    /// Selects a session.
    pub fn select_session(
        &mut self,
        active_agent: AgentKind,
        status: InterviewStatus,
        session_id: &str,
        interview_session_id: Option<String>,
        materials: MaterialsMeta,
        report: Option<ReportMeta>,
    )
        ensures
            final(self).deep_view() == session_selected(
                old(self).deep_view(),
                active_agent,
                status,
                session_id@,
                interview_session_id.deep_view(),
                materials.deep_view(),
                report.deep_view(),
            ),
    {
        self.active_agent = active_agent;
        self.interview_status = status;
        self.interview_phase = text::owned(interview_phase_for_status(status));
        self.materials_session_id = Some(text::owned(session_id));
        self.interview_session_id = interview_session_id;
        self.materials = materials;
        self.report = report;
    }

    /// Starts over with a new session.
    pub fn reset_to_new_session(&mut self, session_id: &str, materials: MaterialsMeta)
        ensures
            final(self).deep_view() == session_reset(
                old(self).deep_view(),
                session_id@,
                materials.deep_view(),
            ),
    {
        self.active_agent = AgentKind::InterviewMaterials;
        self.interview_status = InterviewStatus::NotStarted;
        self.interview_phase = text::owned("INIT");
        self.materials_session_id = Some(text::owned(session_id));
        self.interview_session_id = None;
        self.materials = materials;
        self.report = None;
    }

    /// Notes that an agent works or has worked on a question.
    pub fn mark_agent_turn(&mut self, agent_kind: AgentKind)
        ensures
            final(self).deep_view() == agent_at_work(old(self).deep_view(), agent_kind),
    {
        self.active_agent = agent_kind;
        match agent_kind {
            AgentKind::InterviewMaterials => {},
            AgentKind::ProgrammerInterview => {
                self.interview_status = InterviewStatus::InProgress;
                self.interview_phase = text::owned("IN_PROGRESS");
            },
        }
    }

    /// Notes that the turn of an agent was cancelled.
    pub fn mark_cancelled(&mut self, agent_kind: AgentKind)
        ensures
            final(self).deep_view() == (WorkflowModel {
                active_agent: agent_kind,
                ..old(self).deep_view()
            }),
    {
        self.active_agent = agent_kind;
    }

    /// Notes that the interview of a session starts.
    pub fn start_interview(
        &mut self,
        session_id: &str,
        materials: MaterialsMeta,
        report: Option<ReportMeta>,
    )
        ensures
            final(self).deep_view() == interview_started(
                old(self).deep_view(),
                session_id@,
                materials.deep_view(),
                report.deep_view(),
            ),
    {
        self.active_agent = AgentKind::ProgrammerInterview;
        self.interview_status = InterviewStatus::InProgress;
        self.interview_phase = text::owned("INTRODUCTION");
        self.materials_session_id = Some(text::owned(session_id));
        self.interview_session_id = Some(text::owned(session_id));
        self.materials = materials;
        self.report = report;
    }

    /// Notes that the report is being written.
    pub fn finish_interview(&mut self)
        ensures
            final(self).deep_view() == report_requested(old(self).deep_view()),
    {
        self.active_agent = AgentKind::ProgrammerInterview;
        self.interview_status = InterviewStatus::InProgress;
        self.interview_phase = text::owned("REPORT");
    }

    /// Notes that the report was written to a file.
    pub fn complete_interview(&mut self, report_path: &str, now_ms: u128)
        ensures
            final(self).deep_view() == interview_completed(
                old(self).deep_view(),
                report_path@,
                now_ms,
            ),
    {
        self.active_agent = AgentKind::ProgrammerInterview;
        self.interview_status = InterviewStatus::Completed;
        self.interview_phase = text::owned("REPORT");
        self.report = Some(ReportMeta { path: text::owned(report_path), updated_at: now_ms });
    }
}

/// What is shown after a session was selected: the interview if it was shown
/// before and the session has one, else the materials.
pub fn selected_snapshot(
    previous_active: AgentKind,
    materials: LiveSnapshot,
    interview: Option<LiveSnapshot>,
) -> (r: LiveSnapshot)
    ensures
        r.deep_view() == (if previous_active == AgentKind::ProgrammerInterview
            && interview is Some {
            interview->0.deep_view()
        } else {
            materials.deep_view()
        }),
{
    match previous_active {
        AgentKind::ProgrammerInterview => match interview {
            Some(s) => s,
            None => materials,
        },
        AgentKind::InterviewMaterials => materials,
    }
}

/// The session that an interview is about has to exist.
pub fn session_for_interview(materials_session_id: Option<String>) -> (r: Result<String, AppError>)
    ensures
        match materials_session_id {
            Some(id) => r matches Ok(s) && s@ == id@,
            None => r matches Err(e) && e.deep_view() == error::conflict_error(
                "create or select a session before starting interview"@,
            ),
        },
{
    match materials_session_id {
        Some(id) => Ok(id),
        None => Err(AppError::conflict("create or select a session before starting interview")),
    }
}

/// The interview that is to be finished has to be under way.
pub fn session_to_finish(interview_session_id: Option<String>) -> (r: Result<String, AppError>)
    ensures
        match interview_session_id {
            Some(id) => r matches Ok(s) && s@ == id@,
            None => r matches Err(e) && e.deep_view() == error::conflict_error(
                "no interview session is in progress"@,
            ),
        },
{
    match interview_session_id {
        Some(id) => Ok(id),
        None => Err(AppError::conflict("no interview session is in progress")),
    }
}

/// An answer of the candidate needs an interview.
pub fn check_submission(agent_kind: AgentKind, interview_session_id: &Option<String>) -> (r: Result<
    (),
    AppError,
>)
    ensures
        match r {
            Ok(_) => agent_kind == AgentKind::InterviewMaterials || interview_session_id is Some,
            Err(e) => agent_kind == AgentKind::ProgrammerInterview && interview_session_id is None
                && e.deep_view() == error::conflict_error(
                "start the interview before sending candidate answers"@,
            ),
        },
{
    match agent_kind {
        AgentKind::InterviewMaterials => Ok(()),
        AgentKind::ProgrammerInterview => if interview_session_id.is_none() {
            Err(AppError::conflict("start the interview before sending candidate answers"))
        } else {
            Ok(())
        },
    }
}

/// A new session needs both agents to be at rest.
pub fn check_reset(materials_busy: bool, interview_busy: bool) -> (r: Result<(), AppError>)
    ensures
        match r {
            Ok(_) => !materials_busy && !interview_busy,
            Err(e) => (materials_busy || interview_busy) && e.deep_view() == error::conflict_error(
                "agent is still working on the current turn"@,
            ),
        },
{
    if materials_busy || interview_busy {
        Err(AppError::conflict("agent is still working on the current turn"))
    } else {
        Ok(())
    }
}

/// The report that the last answer of an interview gives.
pub open spec fn report_of(new_messages: Seq<UiMessageModel>) -> Seq<char> {
    match messages::last_answer(new_messages) {
        Some(content) => content,
        None => "No evaluation report was produced."@,
    }
}

/// The report that the last answer of an interview gives.
pub fn report_text(new_messages: &Vec<UiMessage>) -> (r: String)
    ensures
        r@ == report_of(new_messages.deep_view()),
{
    match messages::latest_assistant_content(new_messages) {
        Some(content) => content,
        None => text::owned("No evaluation report was produced."),
    }
}

/// With a report on the open interview, refreshing shows it as completed, and
/// refreshing again with the same facts changes nothing.
pub proof fn lemma_refresh_is_stable(w: WorkflowModel, facts: WorkflowFacts)
    ensures
        refreshed(refreshed(w, facts), facts) == refreshed(w, facts),
        facts.interview_session_id is Some && facts.interview_report_exists ==> refreshed(
            w,
            facts,
        ).interview_status == InterviewStatus::Completed,
        facts.interview_session_id is None ==> refreshed(w, facts).interview_status
            == InterviewStatus::NotStarted,
{
}

/// A completed interview stays completed while its report exists and another
/// session is not selected, also after the agent was asked something else.
pub proof fn lemma_report_keeps_interview_completed(
    w: WorkflowModel,
    agent_kind: AgentKind,
    facts: WorkflowFacts,
)
    requires
        facts.interview_session_id is Some,
        facts.interview_report_exists,
    ensures
        refreshed(agent_at_work(w, agent_kind), facts).interview_status
            == InterviewStatus::Completed,
        refreshed(agent_at_work(w, agent_kind), facts).interview_phase == "REPORT"@,
{
}

// ---------------------------------------------------------------------------
// Sessions in a list

/// A session in the list of sessions.
#[derive(Debug)]
pub struct SessionListItem {
    pub session_id: String,
    pub title: String,
    pub created_at_unix_ms: u128,
    pub updated_at_unix_ms: u128,
    pub prompt_count: usize,
    pub message_count: usize,
    pub is_active: bool,
    pub interview_status: InterviewStatus,
    pub materials_exists: bool,
    pub report_exists: bool,
}

/// A session as it stands in the list of sessions.
pub fn session_list_item(
    snapshot: &ConversationSessionSnapshot,
    active_session_id: &Option<String>,
    interview_exists: bool,
    materials_exists: bool,
    report_exists: bool,
) -> (r: SessionListItem)
    ensures
        r.session_id@ == snapshot.session_id@,
        r.title@ == messages::title_of(snapshot.deep_view()),
        r.created_at_unix_ms == snapshot.created_at_unix_ms,
        r.updated_at_unix_ms == snapshot.updated_at_unix_ms,
        r.prompt_count == snapshot.prompt_history@.len(),
        r.message_count == snapshot.messages@.len(),
        r.is_active == (active_session_id.deep_view() == Some(snapshot.session_id@)),
        r.interview_status == status_for(report_exists, interview_exists),
        r.materials_exists == materials_exists,
        r.report_exists == report_exists,
{
    let is_active = match active_session_id {
        Some(id) => text::same_text(id.as_str(), snapshot.session_id.as_str()),
        None => false,
    };
    SessionListItem {
        session_id: snapshot.session_id.clone(),
        title: messages::summary_title(snapshot),
        created_at_unix_ms: snapshot.created_at_unix_ms,
        updated_at_unix_ms: snapshot.updated_at_unix_ms,
        prompt_count: snapshot.prompt_history.len(),
        message_count: snapshot.messages.len(),
        is_active,
        interview_status: interview_status_for_session(report_exists, interview_exists),
        materials_exists,
        report_exists,
    }
}

// ---------------------------------------------------------------------------
// Requests

/// The agent that a request names.
pub fn parse_agent_kind(value: &str) -> (r: Result<AgentKind, AppError>)
    ensures
        match r {
            Ok(kind) => agents::kind_of_key(value@) == Some(kind),
            Err(e) => agents::kind_of_key(value@) is None && e.deep_view()
                == error::bad_request_error("unknown agent kind: "@ + value@),
        },
{
    match AgentKind::parse(value) {
        Some(kind) => Ok(kind),
        None => {
            let message = text::concat("unknown agent kind: ", value);
            Err(AppError::bad_request(message.as_str()))
        },
    }
}

/// A text without blanks around it, which has to say something.
fn non_empty(value: &str, complaint: &str) -> (r: Result<String, AppError>)
    ensures
        match r {
            Ok(s) => !text::is_blank(value@) && s@ == text::trimmed(value@),
            Err(e) => text::is_blank(value@) && e.deep_view() == error::bad_request_error(
                complaint@,
            ),
        },
{
    let trimmed = text::trim(value);
    if text::char_count(trimmed.as_str()) == 0 {
        Err(AppError::bad_request(complaint))
    } else {
        Ok(trimmed)
    }
}

/// The question in a request.
pub fn non_empty_prompt(prompt: &str) -> (r: Result<String, AppError>)
    ensures
        match r {
            Ok(s) => !text::is_blank(prompt@) && s@ == text::trimmed(prompt@),
            Err(e) => text::is_blank(prompt@) && e.deep_view() == error::bad_request_error(
                "prompt must not be empty"@,
            ),
        },
{
    non_empty(prompt, "prompt must not be empty")
}

/// The session that a request names.
pub fn requested_session_id(session_id: &str) -> (r: Result<String, AppError>)
    ensures
        match r {
            Ok(s) => !text::is_blank(session_id@) && s@ == text::trimmed(session_id@),
            Err(e) => text::is_blank(session_id@) && e.deep_view() == error::bad_request_error(
                "session_id must not be empty"@,
            ),
        },
{
    non_empty(session_id, "session_id must not be empty")
}

/// The ids in a request for a trace have to say something.
pub fn check_trace_request(session_id: &str, turn_id: &str) -> (r: Result<(), AppError>)
    ensures
        match r {
            Ok(_) => !text::is_blank(session_id@) && !text::is_blank(turn_id@),
            Err(e) => (text::is_blank(session_id@) || text::is_blank(turn_id@)) && e.deep_view()
                == error::bad_request_error("session_id and turn_id must not be empty"@),
        },
{
    let a = text::trim(session_id);
    let b = text::trim(turn_id);
    if text::char_count(a.as_str()) == 0 || text::char_count(b.as_str()) == 0 {
        Err(AppError::bad_request("session_id and turn_id must not be empty"))
    } else {
        Ok(())
    }
}

/// A session that was asked for and does not exist.
pub fn unknown_session(session_id: &str) -> (r: AppError)
    ensures
        r.deep_view() == error::bad_request_error("unknown session_id: "@ + session_id@),
{
    let message = text::concat("unknown session_id: ", session_id);
    AppError::bad_request(message.as_str())
}

// ---------------------------------------------------------------------------
// Events

/// An event for those who watch a conversation.
#[derive(Debug)]
pub struct LiveEvent {
    pub event_type: String,
    pub agent_kind: AgentKind,
    pub snapshot: Option<LiveSnapshot>,
    pub response: Option<LiveSubmitResponse>,
    pub message: Option<UiMessage>,
    pub workflow: Option<WorkflowSnapshot>,
    pub error: Option<String>,
}

/// An event for those who watch a conversation.
#[verifier::ext_equal]
pub struct LiveEventModel {
    pub event_type: Seq<char>,
    pub agent_kind: AgentKind,
    pub snapshot: Option<LiveSnapshotModel>,
    pub response: Option<ResponseModel>,
    pub message: Option<UiMessageModel>,
    pub workflow: Option<WorkflowModel>,
    pub error: Option<Seq<char>>,
}

impl DeepView for LiveEvent {
    type V = LiveEventModel;

    open spec fn deep_view(&self) -> LiveEventModel {
        LiveEventModel {
            event_type: self.event_type@,
            agent_kind: self.agent_kind,
            snapshot: self.snapshot.deep_view(),
            response: self.response.deep_view(),
            message: self.message.deep_view(),
            workflow: self.workflow.deep_view(),
            error: self.error.deep_view(),
        }
    }
}

/// An event that says nothing but its type and its agent.
pub open spec fn bare_event(event_type: Seq<char>, agent_kind: AgentKind) -> LiveEventModel {
    LiveEventModel {
        event_type,
        agent_kind,
        snapshot: None,
        response: None,
        message: None,
        workflow: None,
        error: None,
    }
}

fn new_event(event_type: &str, agent_kind: AgentKind) -> (r: LiveEvent)
    ensures
        r.deep_view() == bare_event(event_type@, agent_kind),
{
    LiveEvent {
        event_type: text::owned(event_type),
        agent_kind,
        snapshot: None,
        response: None,
        message: None,
        workflow: None,
        error: None,
    }
}

impl LiveEvent {
    /// The whole state of a conversation.
    pub fn snapshot(
        agent_kind: AgentKind,
        snapshot: LiveSnapshot,
        workflow: Option<WorkflowSnapshot>,
    ) -> (r: LiveEvent)
        ensures
            r.deep_view() == (LiveEventModel {
                snapshot: Some(snapshot.deep_view()),
                workflow: workflow.deep_view(),
                ..bare_event("snapshot"@, agent_kind)
            }),
    {
        let mut e = new_event("snapshot", agent_kind);
        e.snapshot = Some(snapshot);
        e.workflow = workflow;
        e
    }

    /// A turn has started.
    pub fn turn_started(response: LiveSubmitResponse, workflow: Option<WorkflowSnapshot>) -> (r:
        LiveEvent)
        ensures
            r.deep_view() == (LiveEventModel {
                response: Some(response.deep_view()),
                workflow: workflow.deep_view(),
                ..bare_event("turn_started"@, response.agent_kind)
            }),
    {
        let mut e = new_event("turn_started", response.agent_kind);
        e.response = Some(response);
        e.workflow = workflow;
        e
    }

    /// A message was added.
    pub fn message_added(agent_kind: AgentKind, message: UiMessage) -> (r: LiveEvent)
        ensures
            r.deep_view() == (LiveEventModel {
                message: Some(message.deep_view()),
                ..bare_event("message_added"@, agent_kind)
            }),
    {
        let mut e = new_event("message_added", agent_kind);
        e.message = Some(message);
        e
    }

    /// A message was added to a trace.
    pub fn trace_added(agent_kind: AgentKind, message: UiMessage) -> (r: LiveEvent)
        ensures
            r.deep_view() == (LiveEventModel {
                message: Some(message.deep_view()),
                ..bare_event("trace_added"@, agent_kind)
            }),
    {
        let mut e = new_event("trace_added", agent_kind);
        e.message = Some(message);
        e
    }

    /// A turn is over.
    pub fn turn_finished(response: LiveSubmitResponse, workflow: Option<WorkflowSnapshot>) -> (r:
        LiveEvent)
        ensures
            r.deep_view() == (LiveEventModel {
                response: Some(response.deep_view()),
                workflow: workflow.deep_view(),
                ..bare_event("turn_finished"@, response.agent_kind)
            }),
    {
        let mut e = new_event("turn_finished", response.agent_kind);
        e.response = Some(response);
        e.workflow = workflow;
        e
    }

    /// A turn has failed.
    pub fn turn_failed(response: LiveSubmitResponse, error: String) -> (r: LiveEvent)
        ensures
            r.deep_view() == (LiveEventModel {
                response: Some(response.deep_view()),
                error: Some(error@),
                ..bare_event("turn_failed"@, response.agent_kind)
            }),
    {
        let mut e = new_event("turn_failed", response.agent_kind);
        e.response = Some(response);
        e.error = Some(error);
        e
    }

    /// A turn was cancelled.
    pub fn turn_cancelled(
        agent_kind: AgentKind,
        snapshot: LiveSnapshot,
        workflow: Option<WorkflowSnapshot>,
    ) -> (r: LiveEvent)
        ensures
            r.deep_view() == (LiveEventModel {
                snapshot: Some(snapshot.deep_view()),
                workflow: workflow.deep_view(),
                ..bare_event("turn_cancelled"@, agent_kind)
            }),
    {
        let mut e = new_event("turn_cancelled", agent_kind);
        e.snapshot = Some(snapshot);
        e.workflow = workflow;
        e
    }
}

// ---------------------------------------------------------------------------
// What is said on behalf of the user

/// The first question of an interview.
pub const START_PROMPT: &'static str = "Start the interview. Briefly introduce the process, then ask the first architecture question.";

/// What lets a new interview begin.
pub const BEGIN_PROMPT: &'static str = "Begin now.";

/// What ends an interview.
pub const FINISH_PROMPT: &'static str = "Finish the interview now and produce the final evaluation report in Markdown.";

/// A text that neither starts nor ends with white space is left as it is.
proof fn lemma_nothing_trimmed(s: Seq<char>)
    requires
        s.len() > 0,
        !text::is_white_space(s[0]),
        !text::is_white_space(s.last()),
    ensures
        text::trimmed(s) == s,
{
    let class = text::CharClass::Whitespace;
    assert(text::trim_start_by(class, s) == s);
    assert(text::trim_end_by(class, s) == s);
}

/// What is said on behalf of the user is not shown.
pub proof fn lemma_own_prompts_are_hidden()
    ensures
        messages::is_seed(START_PROMPT@),
        messages::is_seed(BEGIN_PROMPT@),
        messages::is_seed(FINISH_PROMPT@),
{
    reveal_strlit(
        "Start the interview. Briefly introduce the process, then ask the first architecture question.",
    );
    reveal_strlit("Start the interview. Briefly introduce the process");
    reveal_strlit("Begin now.");
    reveal_strlit("Finish the interview now and produce the final evaluation report in Markdown.");
    reveal_strlit("Finish the interview now and produce the final evaluation report");
    lemma_nothing_trimmed(START_PROMPT@);
    lemma_nothing_trimmed(BEGIN_PROMPT@);
    lemma_nothing_trimmed(FINISH_PROMPT@);
    let start = "Start the interview. Briefly introduce the process"@;
    assert(START_PROMPT@.take(start.len() as int) =~= start);
    let finish = "Finish the interview now and produce the final evaluation report"@;
    assert(FINISH_PROMPT@.take(finish.len() as int) =~= finish);
}

/// The materials of an interview, and their acknowledgement, are not shown.
proof fn lemma_context_is_hidden(materials: Seq<char>)
    ensures
        messages::is_seed(ask::interview_context(materials)),
        messages::is_seed(
            "Understood. I will interview the programmer using only these materials."@,
        ),
{
    let class = text::CharClass::Whitespace;
    reveal_strlit(
        "Use the following interview materials as your only codebase context. Do not inspect the repository directly.\n\n---\n\n",
    );
    reveal_strlit("Use the following interview materials as your only codebase context.");
    reveal_strlit("Understood. I will interview the programmer using only these materials.");
    lemma_nothing_trimmed(
        "Understood. I will interview the programmer using only these materials."@,
    );
    let head = "Use the following interview materials as your only codebase context."@;
    let context = ask::interview_context(materials);
    assert(context[0] == head[0]);
    assert(text::trim_start_by(class, context) == context);
    text::lemma_trim_end(class, context);
    let kept = text::trim_end_by(class, context);
    assert(context[head.len() - 1] == head[head.len() - 1]);
    assert(!class.has(context[head.len() - 1]));
    assert(kept.len() >= head.len());
    assert(kept.take(head.len() as int) =~= head);
}

/// A new interview shows nothing before the interviewer has spoken: neither the
/// materials nor what is said on behalf of the user.
pub proof fn lemma_new_interview_shows_nothing(
    session_id: Seq<char>,
    materials: Seq<char>,
    transcript_dir: Seq<char>,
    now_ms: u128,
)
    ensures
        messages::flattened(
            session_id,
            ask::seeded_session(
                session_id,
                materials,
                START_PROMPT@,
                transcript_dir,
                now_ms,
            ).snapshot.messages,
            0,
            now_ms,
        ) == Seq::<UiMessageModel>::empty(),
{
    lemma_own_prompts_are_hidden();
    lemma_context_is_hidden(materials);
    let system = session::text_message("system"@, AgentKind::ProgrammerInterview.prompt());
    let context = session::text_message("user"@, ask::interview_context(materials));
    let ready = session::text_message(
        "assistant"@,
        "Understood. I will interview the programmer using only these materials."@,
    );
    let start = session::text_message("user"@, START_PROMPT@);
    session::lemma_text_message("system"@, AgentKind::ProgrammerInterview.prompt());
    session::lemma_text_message("user"@, ask::interview_context(materials));
    session::lemma_text_message(
        "assistant"@,
        "Understood. I will interview the programmer using only these materials."@,
    );
    session::lemma_text_message("user"@, START_PROMPT@);
    let m0 = Seq::<JsonModel>::empty();
    let m1 = m0.push(system);
    let m2 = m1.push(context);
    let m3 = m2.push(ready);
    let m4 = m3.push(start);
    assert(ask::seeded_session(
        session_id,
        materials,
        START_PROMPT@,
        transcript_dir,
        now_ms,
    ).snapshot.messages =~= m4);
    assert(m1.drop_last() =~= m0);
    assert(m2.drop_last() =~= m1);
    assert(m3.drop_last() =~= m2);
    assert(m4.drop_last() =~= m3);
    let nothing = messages::Flattening { shown: seq![], turn: 0 };
    assert(messages::flatten_run(session_id, m0, 0, now_ms) == nothing);
    assert(messages::flatten_run(session_id, m1, 0, now_ms) == nothing);
    assert(messages::flatten_run(session_id, m2, 0, now_ms) == nothing);
    assert(messages::flatten_run(session_id, m3, 0, now_ms) == nothing);
    assert(messages::flatten_run(session_id, m4, 0, now_ms) == nothing);
}

// ---------------------------------------------------------------------------
// Laws

/// An interview with a report is completed, one without a report is in progress,
/// and without an interview there is none; its phase says the same.
pub proof fn lemma_status_of_interview(report_exists: bool, interview_exists: bool)
    ensures
        report_exists ==> status_for(report_exists, interview_exists)
            == InterviewStatus::Completed,
        !report_exists && interview_exists ==> status_for(report_exists, interview_exists)
            == InterviewStatus::InProgress,
        !report_exists && !interview_exists ==> status_for(report_exists, interview_exists)
            == InterviewStatus::NotStarted,
        phase_for(InterviewStatus::Completed) == "REPORT"@,
        phase_for(InterviewStatus::InProgress) == "IN_PROGRESS"@,
        phase_for(InterviewStatus::NotStarted) == "INIT"@,
{
}

/// The materials of a session are its own; the latest ones stand in only where
/// it has none and they may, or where there is no session.
pub proof fn lemma_materials_are_own(
    own: Seq<char>,
    session_is_file: bool,
    fallback: bool,
    latest: Seq<char>,
)
    ensures
        session_is_file ==> materials_file(Some(own), session_is_file, fallback, latest) == own,
        !fallback ==> materials_file(Some(own), session_is_file, fallback, latest) == own,
        !session_is_file && fallback ==> materials_file(
            Some(own),
            session_is_file,
            fallback,
            latest,
        ) == latest,
        materials_file(None, session_is_file, fallback, latest) == latest,
        report_file(Some(own), true, latest) == own,
        report_file(Some(own), false, latest) == latest,
        report_file(None, session_is_file, latest) == latest,
{
}

/// A report is shown exactly where its file exists, with the time of the file if
/// it has one.
pub proof fn lemma_report_is_shown(path: Seq<char>, facts: FileFacts, now_ms: u128)
    ensures
        report_in(path, facts, now_ms) is Some <==> facts.is_file,
        facts.is_file ==> report_in(path, facts, now_ms)->0.path == path,
        facts.is_file && facts.modified_ms is Some ==> report_in(path, facts, now_ms)->0.updated_at
            == facts.modified_ms->0,
        facts.is_file && facts.modified_ms is None ==> report_in(path, facts, now_ms)->0.updated_at
            == now_ms,
{
}

/// Starting an interview puts the interviewer to work on the session; finishing
/// it asks for the report, and the report completes it.
pub proof fn lemma_interview_runs(
    w: WorkflowModel,
    session_id: Seq<char>,
    materials: MaterialsModel,
    report: Option<ReportModel>,
    path: Seq<char>,
    now_ms: u128,
)
    ensures
        ({
            let started = interview_started(w, session_id, materials, report);
            let asked = report_requested(started);
            let done = interview_completed(asked, path, now_ms);
            &&& started.active_agent == AgentKind::ProgrammerInterview
            &&& started.interview_status == InterviewStatus::InProgress
            &&& started.interview_session_id == Some(session_id)
            &&& started.materials_session_id == Some(session_id)
            &&& asked.interview_status == InterviewStatus::InProgress
            &&& asked.interview_phase == "REPORT"@
            &&& asked.interview_session_id == Some(session_id)
            &&& done.interview_status == InterviewStatus::Completed
            &&& done.interview_phase == "REPORT"@
            &&& done.report == Some(ReportModel { path, updated_at: now_ms })
            &&& done.interview_session_id == Some(session_id)
            &&& done.active_agent == AgentKind::ProgrammerInterview
        }),
{
}

/// A new session starts over: with the agent that makes the materials, without
/// an interview and without a report.
pub proof fn lemma_new_session_starts_over(
    w: WorkflowModel,
    session_id: Seq<char>,
    materials: MaterialsModel,
)
    ensures
        ({
            let fresh = session_reset(w, session_id, materials);
            &&& fresh.active_agent == AgentKind::InterviewMaterials
            &&& fresh.interview_status == InterviewStatus::NotStarted
            &&& fresh.interview_session_id is None
            &&& fresh.materials_session_id == Some(session_id)
            &&& fresh.report is None
            &&& fresh.materials == materials
        }),
{
}

/// An agent that is asked is the one at work; only the interviewer's work changes
/// how the interview stands.
pub proof fn lemma_agent_at_work(w: WorkflowModel, agent_kind: AgentKind)
    ensures
        agent_at_work(w, agent_kind).active_agent == agent_kind,
        agent_kind == AgentKind::InterviewMaterials ==> agent_at_work(
            w,
            agent_kind,
        ).interview_status == w.interview_status,
        agent_kind == AgentKind::ProgrammerInterview ==> agent_at_work(
            w,
            agent_kind,
        ).interview_status == InterviewStatus::InProgress,
{
}

/// The state is refreshed with what is found: the sessions, the materials and the
/// report; how an interview without a report stands is kept.
pub proof fn lemma_refresh_takes_facts(w: WorkflowModel, facts: WorkflowFacts)
    ensures
        ({
            let fresh = refreshed(w, facts);
            &&& fresh.active_agent == w.active_agent
            &&& fresh.materials == facts.materials.deep_view()
            &&& fresh.materials_session_id == facts.materials_session_id.deep_view()
            &&& fresh.interview_session_id == facts.interview_session_id.deep_view()
            &&& fresh.report == facts.report.deep_view()
            &&& facts.interview_session_id is Some && !facts.interview_report_exists
                ==> fresh.interview_status == w.interview_status && fresh.interview_phase
                == w.interview_phase
        }),
{
}

/// A session that is selected is the one that is shown, with its own materials,
/// interview and report.
pub proof fn lemma_selected_session_is_shown(
    w: WorkflowModel,
    active_agent: AgentKind,
    status: InterviewStatus,
    session_id: Seq<char>,
    interview: Option<Seq<char>>,
    materials: MaterialsModel,
    report: Option<ReportModel>,
)
    ensures
        ({
            let chosen = session_selected(
                w,
                active_agent,
                status,
                session_id,
                interview,
                materials,
                report,
            );
            &&& chosen.materials_session_id == Some(session_id)
            &&& chosen.interview_session_id == interview
            &&& chosen.materials == materials
            &&& chosen.report == report
            &&& chosen.active_agent == active_agent
            &&& chosen.interview_status == status
            &&& chosen.interview_phase == phase_for(status)
        }),
{
}

/// The report of an interview is what the interviewer said last; where nothing
/// was said, that is what it says.
pub proof fn lemma_report_is_last_answer(said: Seq<UiMessageModel>, m: UiMessageModel)
    ensures
        m.role == "assistant"@ && m.kind == "assistant"@ ==> report_of(said.push(m)) == m.content,
        !(m.role == "assistant"@ && m.kind == "assistant"@) ==> report_of(said.push(m))
            == report_of(said),
        report_of(seq![]) == "No evaluation report was produced."@,
{
    messages::lemma_last_answer(said, m);
}

/// All agents can be chosen, each under its own name.
pub proof fn lemma_agents_can_be_chosen(kind: AgentKind)
    ensures
        exists|i: int|
            0 <= i < all_agents().len() && (#[trigger] all_agents()[i]).kind == kind
                && all_agents()[i].id == kind.key() && all_agents()[i].title
                == kind.shown_title(),
{
    match kind {
        AgentKind::InterviewMaterials => {
            assert(all_agents()[0].kind == kind);
        },
        AgentKind::ProgrammerInterview => {
            assert(all_agents()[1].kind == kind);
        },
    }
}

/// An interview that is started is introduced first, and belongs to the session
/// of its materials; one whose report is asked for is in its last phase.
pub proof fn lemma_phases_of_interview(
    w: WorkflowModel,
    session_id: Seq<char>,
    materials: MaterialsModel,
    report: Option<ReportModel>,
)
    ensures
        interview_started(w, session_id, materials, report).interview_phase == "INTRODUCTION"@,
        interview_started(w, session_id, materials, report).interview_status
            == InterviewStatus::InProgress,
        interview_started(w, session_id, materials, report).active_agent
            == AgentKind::ProgrammerInterview,
        interview_started(w, session_id, materials, report).materials_session_id == Some(
            session_id,
        ),
        interview_started(w, session_id, materials, report).interview_session_id == Some(
            session_id,
        ),
        report_requested(w).interview_phase == "REPORT"@,
        report_requested(w).interview_status == InterviewStatus::InProgress,
        report_requested(w).interview_session_id == w.interview_session_id,
        initial(materials, report).interview_phase == "INIT"@,
        initial(materials, report).interview_status == InterviewStatus::NotStarted,
        initial(materials, report).interview_session_id is None,
        initial(materials, report).materials == materials,
        initial(materials, report).report == report,
{
}

/// Where the materials of a session are asked for, those of another are only
/// given where that is allowed.
pub proof fn lemma_materials_of_session(
    own: Seq<char>,
    is_file: bool,
    fallback: bool,
    latest: Seq<char>,
)
    ensures
        materials_file(Some(own), is_file, fallback, latest) == own || (fallback && !is_file),
        fallback && !is_file ==> materials_file(Some(own), is_file, fallback, latest) == latest,
        materials_file(None, is_file, fallback, latest) == latest,
        is_file ==> report_file(Some(own), is_file, latest) == own,
        !is_file ==> report_file(Some(own), is_file, latest) == latest,
        report_file(None, is_file, latest) == latest,
{
}

/// An event says what happened and in which conversation, and holds nothing until
/// it is given something.
pub proof fn lemma_event_says_what_happened(event_type: Seq<char>, agent_kind: AgentKind)
    ensures
        bare_event(event_type, agent_kind).event_type == event_type,
        bare_event(event_type, agent_kind).agent_kind == agent_kind,
        bare_event(event_type, agent_kind).snapshot is None,
        bare_event(event_type, agent_kind).response is None,
        bare_event(event_type, agent_kind).message is None,
        bare_event(event_type, agent_kind).workflow is None,
        bare_event(event_type, agent_kind).error is None,
{
}

} // verus!
