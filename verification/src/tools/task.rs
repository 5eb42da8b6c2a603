//! The tools that hand a task to another agent and ask how it went.
use crate::json::{Json, JsonModel};
use crate::json;
use crate::text;
use crate::tools::registry;
use crate::tools::registry::{HandlerModel, ToolAction, ToolHandler};
use crate::tools::task_registry;
use vstd::prelude::*;

pub use crate::tools::task_registry::{TaskModel, TaskRecord, TaskRegistry, TaskStatus};

verus! {

/// The longest summary that a task gives back.
pub const MAX_TASK_RESULT_CHARS: usize = 50_000;

pub const TODO_COORDINATION_CONTRACT: &'static str = "Planning contract: if this subtask is multi-step, call todo_write early with the full list, keep exactly one item in_progress, and mark completed items promptly.";

pub const TASK_ANALYSIS_CONTRACT: &'static str = "Analysis contract: this assistant can analyze any codebase scope, including multi-repo and microservice architectures. When asked for learning output, prefer tutorial-style, step-by-step documentation. When architecture or execution flow is requested, provide evidence-backed diagram-ready structure (for example Mermaid) and clearly state missing repository/service context instead of guessing. If the task asks to produce a document, write the final markdown to a workspace-relative file with write_file and return the file path.";

pub const TASK_DESCRIPTION: &'static str = "Spawn a subagent with fresh context to work on an isolated subtask and return a concise summary only.";

pub const TASK_SCHEMA: &'static str = r#"{
  "type": "object",
  "properties": {
    "prompt": {"type": "string", "description": "The isolated subtask prompt for the subagent."},
    "task_id": {"type": "string", "description": "Optional stable task identifier. If omitted, one is generated."}
  },
  "required": ["prompt"],
  "additionalProperties": false
}"#;

pub const TASK_GET_DESCRIPTION: &'static str = "Get one task by task_id with status, ownership, and output summary fields.";

pub const TASK_ID_SCHEMA: &'static str = r#"{
  "type": "object",
  "properties": {
    "task_id": {"type": "string", "description": "Task id returned by the task tool."}
  },
  "required": ["task_id"],
  "additionalProperties": false
}"#;

pub const TASK_LIST_DESCRIPTION: &'static str = "List tasks with optional status filtering and limit. Returns counts by status for planning.";

pub const TASK_LIST_SCHEMA: &'static str = r#"{
  "type": "object",
  "properties": {
    "status": {
      "type": "array",
      "items": {"type": "string", "enum": ["running", "completed", "failed"]},
      "description": "Optional status filter list."
    },
    "limit": {
      "type": "integer",
      "minimum": 1,
      "maximum": 200,
      "description": "Optional max tasks to return."
    }
  },
  "additionalProperties": false
}"#;

pub const TASK_OUTPUT_DESCRIPTION: &'static str = "Get output-like view for one task, including preview, error, and availability flags.";

// ---------------------------------------------------------------------------
// Definitions

/// The tool that hands a task to another agent.
pub fn task_handler() -> (r: ToolHandler)
    ensures
        r@ == (HandlerModel {
            definition: registry::definition_of("task"@, TASK_DESCRIPTION@, TASK_SCHEMA@),
            action: ToolAction::Task,
        }),
{
    registry::new_handler("task", TASK_DESCRIPTION, TASK_SCHEMA, ToolAction::Task)
}

/// The tools that ask how tasks went.
pub fn task_query_handlers() -> (r: Vec<ToolHandler>)
    ensures
        r.deep_view() == seq![
            HandlerModel {
                definition: registry::definition_of(
                    "task_get"@,
                    TASK_GET_DESCRIPTION@,
                    TASK_ID_SCHEMA@,
                ),
                action: ToolAction::TaskGet,
            },
            HandlerModel {
                definition: registry::definition_of(
                    "task_list"@,
                    TASK_LIST_DESCRIPTION@,
                    TASK_LIST_SCHEMA@,
                ),
                action: ToolAction::TaskList,
            },
            HandlerModel {
                definition: registry::definition_of(
                    "task_output"@,
                    TASK_OUTPUT_DESCRIPTION@,
                    TASK_ID_SCHEMA@,
                ),
                action: ToolAction::TaskOutput,
            },
        ],
{
    let a = registry::new_handler(
        "task_get",
        TASK_GET_DESCRIPTION,
        TASK_ID_SCHEMA,
        ToolAction::TaskGet,
    );
    let b = registry::new_handler(
        "task_list",
        TASK_LIST_DESCRIPTION,
        TASK_LIST_SCHEMA,
        ToolAction::TaskList,
    );
    let c = registry::new_handler(
        "task_output",
        TASK_OUTPUT_DESCRIPTION,
        TASK_ID_SCHEMA,
        ToolAction::TaskOutput,
    );
    let ghost models = seq![a@, b@, c@];
    let mut r: Vec<ToolHandler> = Vec::new();
    r.push(a);
    r.push(b);
    r.push(c);
    assert(r.deep_view() =~= models);
    r
}

// ---------------------------------------------------------------------------
// Running a task

/// What another agent is told to do.
pub open spec fn subtask_prompt(prompt: Seq<char>) -> Seq<char> {
    TODO_COORDINATION_CONTRACT@ + "\n"@ + TASK_ANALYSIS_CONTRACT@ + "\n\nSubtask:\n"@ + prompt
}

/// A task that has been started: its id, and what the agent is told.
#[derive(Debug)]
pub struct StartedTask {
    pub task_id: String,
    pub prompt: String,
}

/// Starts a task. A prompt that says nothing is refused, and so is an id that
/// cannot be had.
pub fn begin_task(
    tasks: &mut TaskRegistry,
    prompt: &str,
    task_id: Option<&str>,
    now_ms: u128,
) -> (r: Result<StartedTask, String>)
    ensures
        ({
            let before = old(tasks)@;
            let after = final(tasks)@;
            let hint = task_id.deep_view();
            let next_id = task_registry::next_after(before.next_id, hint);
            if text::is_blank(prompt@) {
                &&& after == before
                &&& r matches Err(e) && e@ == "task prompt cannot be empty"@
            } else {
                match task_registry::id_for(before.next_id, hint) {
                    Err(_) => {
                        &&& after == before
                        &&& r matches Err(e) && e@ == "failed to register task"@
                    },
                    Ok(id) => if before.knows(id) {
                        &&& after == (task_registry::RegistryModel { next_id, ..before })
                        &&& r matches Err(e) && e@ == "failed to register task"@
                    } else {
                        &&& after == (task_registry::RegistryModel {
                            tasks: before.tasks.push(
                                task_registry::started(id, text::trimmed(prompt@), now_ms),
                            ),
                            next_id,
                        })
                        &&& r matches Ok(s) && s.task_id@ == id && s.prompt@ == subtask_prompt(
                            text::trimmed(prompt@),
                        )
                    },
                }
            }
        }),
{
    let trimmed = text::trim(prompt);
    if text::char_count(trimmed.as_str()) == 0 {
        return Err(text::owned("task prompt cannot be empty"));
    }
    match tasks.start_task(task_id, trimmed.as_str(), now_ms) {
        Err(_) => Err(text::owned("failed to register task")),
        Ok(id) => {
            let mut wrapped = text::concat3(
                TODO_COORDINATION_CONTRACT,
                "\n",
                TASK_ANALYSIS_CONTRACT,
            );
            wrapped.append("\n\nSubtask:\n");
            wrapped.append(trimmed.as_str());
            Ok(StartedTask { task_id: id, prompt: wrapped })
        },
    }
}

/// A summary as it is given back: something, and not too much of it.
pub open spec fn summary_shown(summary: Seq<char>) -> Seq<char> {
    if text::is_blank(summary) {
        "(no summary)"@
    } else {
        text::first_chars(text::trimmed(summary), MAX_TASK_RESULT_CHARS as nat)
    }
}

/// A summary as it is given back.
pub fn truncate_summary(summary: &str) -> (r: String)
    ensures
        r@ == summary_shown(summary@),
{
    let trimmed = text::trim(summary);
    if text::char_count(trimmed.as_str()) == 0 {
        return text::owned("(no summary)");
    }
    text::take_chars(trimmed.as_str(), MAX_TASK_RESULT_CHARS)
}

/// What the model is told of a task that is done.
pub open spec fn completed_output(task_id: Seq<char>, summary: Seq<char>) -> JsonModel {
    JsonModel::empty_object().with("task_id"@, JsonModel::Text(task_id)).with(
        "status"@,
        JsonModel::Text("completed"@),
    ).with("summary"@, JsonModel::Text(summary))
}

/// Ends a task with what the agent gave back.
pub fn finish_task(
    tasks: &mut TaskRegistry,
    task_id: &str,
    outcome: Result<String, String>,
    now_ms: u128,
) -> (r: Result<String, String>)
    ensures
        match outcome {
            Err(failure) => {
                &&& r matches Err(e) && e@ == "subagent execution failed for task '"@ + task_id@
                    + "': "@ + failure@
                &&& final(tasks)@ == (match old(tasks)@.task(task_id@) {
                    Some(task) => old(tasks)@.changed(
                        task_id@,
                        TaskModel {
                            status: TaskStatus::Failed,
                            result_preview: None,
                            error: Some(failure@),
                            updated_at_unix_ms: now_ms,
                            ..task
                        },
                    ),
                    None => old(tasks)@,
                })
            },
            Ok(summary) => match old(tasks)@.task(task_id@) {
                Some(task) => {
                    &&& r matches Ok(s) && s@ == json::pretty_text(
                        completed_output(task_id@, summary_shown(summary@)),
                    )
                    &&& final(tasks)@ == old(tasks)@.changed(
                        task_id@,
                        TaskModel {
                            status: TaskStatus::Completed,
                            result_preview: Some(summary_shown(summary@)),
                            error: None,
                            updated_at_unix_ms: now_ms,
                            ..task
                        },
                    )
                },
                None => {
                    &&& r matches Err(e) && e@ == "failed to update task completion state"@
                    &&& final(tasks)@ == old(tasks)@
                },
            },
        },
{
    match outcome {
        Err(failure) => {
            let _ = tasks.fail_task(task_id, failure.as_str(), now_ms);
            let mut e = text::concat3("subagent execution failed for task '", task_id, "': ");
            e.append(failure.as_str());
            Err(e)
        },
        Ok(summary) => {
            let shown = truncate_summary(summary.as_str());
            match tasks.complete_task(task_id, shown.as_str(), now_ms) {
                Err(_) => Err(text::owned("failed to update task completion state")),
                Ok(_) => {
                    let output = Json::empty_object().with("task_id", Json::text(task_id)).with(
                        "status",
                        Json::text("completed"),
                    ).with("summary", Json::text(shown.as_str()));
                    Ok(output.to_pretty_string())
                },
            }
        },
    }
}

// ---------------------------------------------------------------------------
// Asking how tasks went

/// A task as it is shown.
pub open spec fn task_shown(task: TaskModel, include_prompt: bool) -> JsonModel {
    let value = JsonModel::empty_object().with("task_id"@, JsonModel::Text(task.id)).with(
        "status"@,
        JsonModel::Text(task.status.key()),
    ).with("assigned_teammate"@, JsonModel::optional_text(task.assigned_teammate)).with(
        "result_preview"@,
        JsonModel::optional_text(task.result_preview),
    ).with("error"@, JsonModel::optional_text(task.error)).with(
        "created_at_unix_ms"@,
        JsonModel::uint(task.created_at_unix_ms as u64),
    ).with("updated_at_unix_ms"@, JsonModel::uint(task.updated_at_unix_ms as u64)).with(
        "has_output"@,
        JsonModel::Bool(task.result_preview is Some || task.error is Some),
    ).with("is_terminal"@, JsonModel::Bool(task.status.terminal()));
    if include_prompt {
        value.with("prompt"@, JsonModel::Text(task.prompt))
    } else {
        value
    }
}

/// A task as it is shown.
pub fn task_record_json(task: &TaskRecord, include_prompt: bool) -> (r: Json)
    requires
        task@.timely(),
    ensures
        r@ == task_shown(task@, include_prompt),
{
    let terminal = match task.status {
        TaskStatus::Running => false,
        _ => true,
    };
    let value = Json::empty_object().with("task_id", Json::text(task.id.as_str())).with(
        "status",
        Json::text(task_registry::task_status_str(task.status)),
    ).with("assigned_teammate", Json::optional_text(&task.assigned_teammate)).with(
        "result_preview",
        Json::optional_text(&task.result_preview),
    ).with("error", Json::optional_text(&task.error)).with(
        "created_at_unix_ms",
        Json::uint(task.created_at_unix_ms as u64),
    ).with("updated_at_unix_ms", Json::uint(task.updated_at_unix_ms as u64)).with(
        "has_output",
        Json::Bool(task.result_preview.is_some() || task.error.is_some()),
    ).with("is_terminal", Json::Bool(terminal));
    if include_prompt {
        value.with("prompt", Json::text(task.prompt.as_str()))
    } else {
        value
    }
}

/// What the model is told of a task that does not exist.
pub open spec fn not_found(task_id: Seq<char>) -> JsonModel {
    JsonModel::empty_object().with("ok"@, JsonModel::Bool(false)).with(
        "error"@,
        JsonModel::empty_object().with("code"@, JsonModel::Text("task_not_found"@)).with(
            "message"@,
            JsonModel::Text(task_registry::no_such_task(task_id)),
        ).with("task_id"@, JsonModel::Text(task_id)),
    )
}

fn task_not_found_json(task_id: &str) -> (r: String)
    ensures
        r@ == json::pretty_text(not_found(task_id@)),
{
    let message = text::concat3("task '", task_id, "' not found");
    let inner = Json::empty_object().with("code", Json::text("task_not_found")).with(
        "message",
        Json::Text(message),
    ).with("task_id", Json::text(task_id));
    Json::empty_object().with("ok", Json::Bool(false)).with("error", inner).to_pretty_string()
}

/// What the model is told of one task.
pub open spec fn get_output(task: Option<TaskModel>, task_id: Seq<char>) -> JsonModel {
    match task {
        Some(t) => JsonModel::empty_object().with("ok"@, JsonModel::Bool(true)).with(
            "task"@,
            task_shown(t, true),
        ),
        None => not_found(task_id),
    }
}

/// What the model is told of one task, blanks around its id aside.
pub fn task_get(tasks: &TaskRegistry, task_id: &str) -> (r: Result<String, String>)
    requires
        tasks@.task(text::trimmed(task_id@)) matches Some(t) ==> t.timely(),
    ensures
        match r {
            Ok(s) => !text::is_blank(task_id@) && s@ == json::pretty_text(
                get_output(tasks@.task(text::trimmed(task_id@)), text::trimmed(task_id@)),
            ),
            Err(e) => text::is_blank(task_id@) && e@ == "task_id cannot be empty"@,
        },
{
    let id = text::trim(task_id);
    if text::char_count(id.as_str()) == 0 {
        return Err(text::owned("task_id cannot be empty"));
    }
    match tasks.get(id.as_str()) {
        Some(record) => {
            let shown = task_record_json(&record, true);
            Ok(
                Json::empty_object().with("ok", Json::Bool(true)).with(
                    "task",
                    shown,
                ).to_pretty_string(),
            )
        },
        None => Ok(task_not_found_json(id.as_str())),
    }
}

/// What the model is told of the output of one task.
pub open spec fn output_output(task: Option<TaskModel>, task_id: Seq<char>) -> JsonModel {
    match task {
        Some(t) => JsonModel::empty_object().with("ok"@, JsonModel::Bool(true)).with(
            "task_id"@,
            JsonModel::Text(t.id),
        ).with("status"@, JsonModel::Text(t.status.key())).with(
            "output"@,
            JsonModel::empty_object().with(
                "output"@,
                JsonModel::optional_text(t.result_preview),
            ).with("preview"@, JsonModel::optional_text(t.result_preview)).with(
                "error"@,
                JsonModel::optional_text(t.error),
            ).with(
                "has_output"@,
                JsonModel::Bool(t.result_preview is Some || t.error is Some),
            ).with("truncated"@, JsonModel::Bool(true)).with(
                "output_truncated"@,
                JsonModel::Bool(true),
            ),
        ),
        None => not_found(task_id),
    }
}

/// What the model is told of the output of one task, blanks around its id aside.
pub fn task_output(tasks: &TaskRegistry, task_id: &str) -> (r: Result<String, String>)
    ensures
        match r {
            Ok(s) => !text::is_blank(task_id@) && s@ == json::pretty_text(
                output_output(tasks@.task(text::trimmed(task_id@)), text::trimmed(task_id@)),
            ),
            Err(e) => text::is_blank(task_id@) && e@ == "task_id cannot be empty"@,
        },
{
    let id = text::trim(task_id);
    if text::char_count(id.as_str()) == 0 {
        return Err(text::owned("task_id cannot be empty"));
    }
    match tasks.get(id.as_str()) {
        Some(t) => {
            let inner = Json::empty_object().with(
                "output",
                Json::optional_text(&t.result_preview),
            ).with("preview", Json::optional_text(&t.result_preview)).with(
                "error",
                Json::optional_text(&t.error),
            ).with(
                "has_output",
                Json::Bool(t.result_preview.is_some() || t.error.is_some()),
            ).with("truncated", Json::Bool(true)).with("output_truncated", Json::Bool(true));
            let value = Json::empty_object().with("ok", Json::Bool(true)).with(
                "task_id",
                Json::text(t.id.as_str()),
            ).with("status", Json::text(task_registry::task_status_str(t.status))).with(
                "output",
                inner,
            );
            Ok(value.to_pretty_string())
        },
        None => Ok(task_not_found_json(id.as_str())),
    }
}

/// The number of tasks with a status.
pub open spec fn count_of(tasks: Seq<TaskModel>, status: TaskStatus) -> nat
    decreases tasks.len(),
{
    if tasks.len() == 0 {
        0
    } else {
        count_of(tasks.drop_last(), status) + (if tasks.last().status == status {
            1nat
        } else {
            0nat
        })
    }
}

/// The numbers of tasks by status.
pub open spec fn counts(tasks: Seq<TaskModel>) -> JsonModel {
    JsonModel::empty_object().with(
        "running"@,
        JsonModel::uint(count_of(tasks, TaskStatus::Running) as u64),
    ).with(
        "completed"@,
        JsonModel::uint(count_of(tasks, TaskStatus::Completed) as u64),
    ).with("failed"@, JsonModel::uint(count_of(tasks, TaskStatus::Failed) as u64))
}

/// The numbers of tasks by status.
pub fn count_by_status(tasks: &Vec<TaskRecord>) -> (r: Json)
    ensures
        r@ == counts(tasks.deep_view()),
{
    let ghost all = tasks.deep_view();
    let mut running: u64 = 0;
    let mut completed: u64 = 0;
    let mut failed: u64 = 0;
    let mut i: usize = 0;
    assert(all.take(0) =~= seq![]);
    while i < tasks.len()
        invariant
            i <= tasks@.len(),
            all == tasks.deep_view(),
            running <= i,
            completed <= i,
            failed <= i,
            running == count_of(all.take(i as int), TaskStatus::Running),
            completed == count_of(all.take(i as int), TaskStatus::Completed),
            failed == count_of(all.take(i as int), TaskStatus::Failed),
        decreases tasks@.len() - i,
    {
        proof {
            assert(all.take(i + 1).drop_last() =~= all.take(i as int));
            assert(all.take(i + 1).last() == tasks@[i as int].deep_view());
        }
        match tasks[i].status {
            TaskStatus::Running => {
                running = running + 1;
            },
            TaskStatus::Completed => {
                completed = completed + 1;
            },
            TaskStatus::Failed => {
                failed = failed + 1;
            },
        }
        i = i + 1;
    }
    assert(all.take(all.len() as int) =~= all);
    Json::empty_object().with("running", Json::uint(running)).with(
        "completed",
        Json::uint(completed),
    ).with("failed", Json::uint(failed))
}

/// Every task has one of the three statuses.
pub proof fn lemma_counts_add_up(tasks: Seq<TaskModel>)
    ensures
        count_of(tasks, TaskStatus::Running) + count_of(tasks, TaskStatus::Completed) + count_of(
            tasks,
            TaskStatus::Failed,
        ) == tasks.len(),
    decreases tasks.len(),
{
    if tasks.len() > 0 {
        lemma_counts_add_up(tasks.drop_last());
    }
}

/// What the model is told of many tasks.
pub open spec fn list_output(listed: Seq<TaskModel>, all: Seq<TaskModel>) -> JsonModel {
    JsonModel::empty_object().with("ok"@, JsonModel::Bool(true)).with(
        "tasks"@,
        JsonModel::Array(listed.map_values(|t: TaskModel| task_shown(t, false))),
    ).with("count"@, JsonModel::uint(listed.len() as u64)).with("by_status"@, counts(all))
}

/// The statuses that are asked for; none means all.
pub open spec fn wanted_statuses(status: Seq<TaskStatus>) -> Option<Seq<TaskStatus>> {
    if status.len() == 0 {
        None
    } else {
        Some(status)
    }
}

/// So many tasks may be asked for.
pub open spec fn limit_fits(limit: Option<usize>) -> bool {
    match limit {
        Some(n) => 1 <= n <= 200,
        None => true,
    }
}

/// The tasks that are listed can be shown: their times can be written as JSON
/// numbers.
pub open spec fn listable(
    tasks: Seq<TaskModel>,
    status: Seq<TaskStatus>,
    limit: Option<usize>,
) -> bool {
    let listed = task_registry::listed_tasks(tasks, wanted_statuses(status), limit);
    limit_fits(limit) ==> forall|i: int| 0 <= i < listed.len() ==> (#[trigger] listed[i]).timely()
}

fn list_for(tasks: &TaskRegistry, status: &Vec<TaskStatus>, limit: Option<usize>) -> (r: Vec<
    TaskRecord,
>)
    ensures
        r.deep_view() == task_registry::listed_tasks(
            tasks@.tasks,
            wanted_statuses(status@),
            limit,
        ),
{
    if status.len() == 0 {
        tasks.list_tasks(None, limit)
    } else {
        tasks.list_tasks(Some(status), limit)
    }
}

fn has_room(limit: Option<usize>) -> (r: bool)
    ensures
        r == limit_fits(limit),
{
    match limit {
        Some(n) => 1 <= n && n <= 200,
        None => true,
    }
}

/// Whether the tasks that are listed can be shown.
pub fn can_list_tasks(tasks: &TaskRegistry, status: &Vec<TaskStatus>, limit: Option<usize>) -> (r:
    bool)
    ensures
        r == listable(tasks@.tasks, status@, limit),
{
    if !has_room(limit) {
        return true;
    }
    let listed = list_for(tasks, status, limit);
    let ghost models = listed.deep_view();
    let mut i: usize = 0;
    while i < listed.len()
        invariant
            i <= listed@.len(),
            models == listed.deep_view(),
            models == task_registry::listed_tasks(tasks@.tasks, wanted_statuses(status@), limit),
            limit_fits(limit),
            forall|k: int| 0 <= k < i ==> (#[trigger] models[k]).timely(),
        decreases listed@.len() - i,
    {
        assert(models[i as int] == listed@[i as int]@);
        if !listed[i].is_timely() {
            return false;
        }
        i = i + 1;
    }
    true
}

/// What the model is told of the tasks with the given statuses.
pub fn task_list(tasks: &TaskRegistry, status: &Vec<TaskStatus>, limit: Option<usize>) -> (r: Result<
    String,
    String,
>)
    requires
        listable(tasks@.tasks, status@, limit),
    ensures
        match r {
            Ok(s) => limit_fits(limit) && s@ == json::pretty_text(
                list_output(
                    task_registry::listed_tasks(tasks@.tasks, wanted_statuses(status@), limit),
                    task_registry::by_start(tasks@.tasks),
                ),
            ),
            Err(e) => !limit_fits(limit) && e@ == "limit must be between 1 and 200"@,
        },
{
    if !has_room(limit) {
        return Err(text::owned("limit must be between 1 and 200"));
    }
    let listed = list_for(tasks, status, limit);
    let all = tasks.all_tasks();
    let by_status = count_by_status(&all);
    let ghost models = listed.deep_view();
    let ghost wanted = models.map_values(|t: TaskModel| task_shown(t, false));
    let mut values: Vec<Json> = Vec::new();
    let mut i: usize = 0;
    assert(values.deep_view() =~= wanted.take(0));
    while i < listed.len()
        invariant
            i <= listed@.len(),
            models == listed.deep_view(),
            wanted == models.map_values(|t: TaskModel| task_shown(t, false)),
            forall|k: int| 0 <= k < models.len() ==> (#[trigger] models[k]).timely(),
            values.deep_view() == wanted.take(i as int),
        decreases listed@.len() - i,
    {
        let ghost before = values.deep_view();
        assert(models[i as int] == listed@[i as int]@);
        let value = task_record_json(&listed[i], false);
        let ghost model = value@;
        assert(model == wanted[i as int]);
        values.push(value);
        proof {
            assert(values.deep_view() =~= before.push(model));
            assert(wanted.take(i + 1) =~= wanted.take(i as int).push(wanted[i as int]));
        }
        i = i + 1;
    }
    assert(wanted.take(i as int) =~= wanted);
    let count: usize = listed.len();
    let output = Json::empty_object().with("ok", Json::Bool(true)).with(
        "tasks",
        Json::array(values),
    ).with("count", Json::uint(count as u64)).with("by_status", by_status);
    Ok(output.to_pretty_string())
}

// ---------------------------------------------------------------------------
// Laws

/// An agent that is given a task is told what to do, as it was put, behind what
/// every such agent is told.
pub proof fn lemma_subtask_is_told(prompt: Seq<char>)
    ensures
        text::finishes_with(subtask_prompt(prompt), "\n\nSubtask:\n"@ + prompt),
        text::begins_with(subtask_prompt(prompt), TODO_COORDINATION_CONTRACT@),
        text::has_text(subtask_prompt(prompt), TASK_ANALYSIS_CONTRACT@),
{
    let all = subtask_prompt(prompt);
    let end = "\n\nSubtask:\n"@ + prompt;
    assert(all.skip(all.len() - end.len()) =~= end);
    assert(all.take(TODO_COORDINATION_CONTRACT@.len() as int) =~= TODO_COORDINATION_CONTRACT@);
    let head = TODO_COORDINATION_CONTRACT@ + "\n"@;
    text::lemma_has_itself(TASK_ANALYSIS_CONTRACT@);
    text::lemma_has_text_within(head, TASK_ANALYSIS_CONTRACT@, end, TASK_ANALYSIS_CONTRACT@);
    assert(head + TASK_ANALYSIS_CONTRACT@ + end =~= all);
}

/// A summary is given back as it is, blanks around it aside, the first fifty
/// thousand characters of it; one that says nothing is not passed over.
pub proof fn lemma_summary_is_given_back(summary: Seq<char>)
    ensures
        !text::is_blank(summary) && text::trimmed(summary).len() <= 50_000 ==> summary_shown(
            summary,
        ) == text::trimmed(summary),
        text::trimmed(summary).len() > 50_000 ==> summary_shown(summary) == text::trimmed(
            summary,
        ).take(50_000),
        text::is_blank(summary) ==> summary_shown(summary) == "(no summary)"@,
{
}

/// A task as it is shown says how it stands, who works on it, what came of it and
/// when; what it is to do is shown only where it is asked for.
pub proof fn lemma_task_is_shown(t: TaskModel)
    ensures
        ({
            let shown = task_shown(t, true);
            &&& shown.text_at("task_id"@) == Some(t.id)
            &&& shown.text_at("status"@) == Some(t.status.key())
            &&& shown.text_at("assigned_teammate"@) == t.assigned_teammate
            &&& shown.text_at("result_preview"@) == t.result_preview
            &&& shown.text_at("error"@) == t.error
            &&& shown.text_at("prompt"@) == Some(t.prompt)
            &&& shown.get("created_at_unix_ms"@) == Some(
                JsonModel::uint(t.created_at_unix_ms as u64),
            )
            &&& shown.get("updated_at_unix_ms"@) == Some(
                JsonModel::uint(t.updated_at_unix_ms as u64),
            )
            &&& shown.get("has_output"@) == Some(
                JsonModel::Bool(t.result_preview is Some || t.error is Some),
            )
            &&& shown.get("is_terminal"@) == Some(
                JsonModel::Bool(t.status != TaskStatus::Running),
            )
            &&& task_shown(t, false).get("prompt"@) is None
            &&& forall|key: Seq<char>|
                key != "prompt"@ ==> #[trigger] task_shown(t, false).get(key) == shown.get(key)
        }),
{
    reveal_strlit("task_id");
    reveal_strlit("status");
    reveal_strlit("assigned_teammate");
    reveal_strlit("result_preview");
    reveal_strlit("error");
    reveal_strlit("created_at_unix_ms");
    reveal_strlit("updated_at_unix_ms");
    reveal_strlit("has_output");
    reveal_strlit("is_terminal");
    reveal_strlit("prompt");
    assert("task_id"@.len() != "status"@.len());
    assert("task_id"@.len() != "assigned_teammate"@.len());
    assert("task_id"@.len() != "result_preview"@.len());
    assert("task_id"@.len() != "error"@.len());
    assert("task_id"@.len() != "created_at_unix_ms"@.len());
    assert("task_id"@.len() != "updated_at_unix_ms"@.len());
    assert("task_id"@.len() != "has_output"@.len());
    assert("task_id"@.len() != "is_terminal"@.len());
    assert("task_id"@.len() != "prompt"@.len());
    assert("status"@.len() != "assigned_teammate"@.len());
    assert("status"@.len() != "result_preview"@.len());
    assert("status"@.len() != "error"@.len());
    assert("status"@.len() != "created_at_unix_ms"@.len());
    assert("status"@.len() != "updated_at_unix_ms"@.len());
    assert("status"@.len() != "has_output"@.len());
    assert("status"@.len() != "is_terminal"@.len());
    assert("status"@[0] != "prompt"@[0]);
    assert("assigned_teammate"@.len() != "result_preview"@.len());
    assert("assigned_teammate"@.len() != "error"@.len());
    assert("assigned_teammate"@.len() != "created_at_unix_ms"@.len());
    assert("assigned_teammate"@.len() != "updated_at_unix_ms"@.len());
    assert("assigned_teammate"@.len() != "has_output"@.len());
    assert("assigned_teammate"@.len() != "is_terminal"@.len());
    assert("assigned_teammate"@.len() != "prompt"@.len());
    assert("result_preview"@.len() != "error"@.len());
    assert("result_preview"@.len() != "created_at_unix_ms"@.len());
    assert("result_preview"@.len() != "updated_at_unix_ms"@.len());
    assert("result_preview"@.len() != "has_output"@.len());
    assert("result_preview"@.len() != "is_terminal"@.len());
    assert("result_preview"@.len() != "prompt"@.len());
    assert("error"@.len() != "created_at_unix_ms"@.len());
    assert("error"@.len() != "updated_at_unix_ms"@.len());
    assert("error"@.len() != "has_output"@.len());
    assert("error"@.len() != "is_terminal"@.len());
    assert("error"@.len() != "prompt"@.len());
    assert("created_at_unix_ms"@[0] != "updated_at_unix_ms"@[0]);
    assert("created_at_unix_ms"@.len() != "has_output"@.len());
    assert("created_at_unix_ms"@.len() != "is_terminal"@.len());
    assert("created_at_unix_ms"@.len() != "prompt"@.len());
    assert("updated_at_unix_ms"@.len() != "has_output"@.len());
    assert("updated_at_unix_ms"@.len() != "is_terminal"@.len());
    assert("updated_at_unix_ms"@.len() != "prompt"@.len());
    assert("has_output"@.len() != "is_terminal"@.len());
    assert("has_output"@.len() != "prompt"@.len());
    assert("is_terminal"@.len() != "prompt"@.len());
    let j0 = JsonModel::empty_object();
    let j1 = j0.with("task_id"@, JsonModel::Text(t.id));
    json::lemma_with_is_read(j0, "task_id"@, JsonModel::Text(t.id));
    let j2 = j1.with("status"@, JsonModel::Text(t.status.key()));
    json::lemma_with_is_read(j1, "status"@, JsonModel::Text(t.status.key()));
    let j3 = j2.with("assigned_teammate"@, JsonModel::optional_text(t.assigned_teammate));
    json::lemma_with_is_read(j2, "assigned_teammate"@, JsonModel::optional_text(t.assigned_teammate));
    let j4 = j3.with("result_preview"@, JsonModel::optional_text(t.result_preview));
    json::lemma_with_is_read(j3, "result_preview"@, JsonModel::optional_text(t.result_preview));
    let j5 = j4.with("error"@, JsonModel::optional_text(t.error));
    json::lemma_with_is_read(j4, "error"@, JsonModel::optional_text(t.error));
    let j6 = j5.with("created_at_unix_ms"@, JsonModel::uint(t.created_at_unix_ms as u64));
    json::lemma_with_is_read(j5, "created_at_unix_ms"@, JsonModel::uint(t.created_at_unix_ms as u64));
    let j7 = j6.with("updated_at_unix_ms"@, JsonModel::uint(t.updated_at_unix_ms as u64));
    json::lemma_with_is_read(j6, "updated_at_unix_ms"@, JsonModel::uint(t.updated_at_unix_ms as u64));
    let j8 = j7.with("has_output"@, JsonModel::Bool(t.result_preview is Some || t.error is Some));
    json::lemma_with_is_read(j7, "has_output"@, JsonModel::Bool(t.result_preview is Some || t.error is Some));
    let j9 = j8.with("is_terminal"@, JsonModel::Bool(t.status.terminal()));
    json::lemma_with_is_read(j8, "is_terminal"@, JsonModel::Bool(t.status.terminal()));
    let j10 = j9.with("prompt"@, JsonModel::Text(t.prompt));
    json::lemma_with_is_read(j9, "prompt"@, JsonModel::Text(t.prompt));
    assert(j0.get("prompt"@) is None);
    assert(j9 == task_shown(t, false));
}

/// The statuses have names of their own.
pub proof fn lemma_statuses_have_names()
    ensures
        TaskStatus::Running.key() == "running"@,
        TaskStatus::Completed.key() == "completed"@,
        TaskStatus::Failed.key() == "failed"@,
        !TaskStatus::Running.terminal(),
        TaskStatus::Completed.terminal(),
        TaskStatus::Failed.terminal(),
{
}

/// A task that is done is reported with its id and its summary.
pub proof fn lemma_done_task_is_reported(task_id: Seq<char>, summary: Seq<char>)
    ensures
        completed_output(task_id, summary).text_at("task_id"@) == Some(task_id),
        completed_output(task_id, summary).text_at("summary"@) == Some(summary),
        completed_output(task_id, summary).text_at("status"@) == Some("completed"@),
{
    reveal_strlit("task_id");
    reveal_strlit("status");
    reveal_strlit("summary");
    assert("task_id"@.len() != "status"@.len());
    assert("task_id"@[0] != "summary"@[0]);
    assert("status"@.len() != "summary"@.len());
    let j0 = JsonModel::empty_object();
    let j1 = j0.with("task_id"@, JsonModel::Text(task_id));
    json::lemma_with_is_read(j0, "task_id"@, JsonModel::Text(task_id));
    let j2 = j1.with("status"@, JsonModel::Text("completed"@));
    json::lemma_with_is_read(j1, "status"@, JsonModel::Text("completed"@));
    let j3 = j2.with("summary"@, JsonModel::Text(summary));
    json::lemma_with_is_read(j2, "summary"@, JsonModel::Text(summary));
}

/// A task that is asked for is shown in full; one that there is not is said to be
/// missing, by its id.
pub proof fn lemma_task_is_found_or_missing(t: TaskModel, task_id: Seq<char>)
    ensures
        get_output(Some(t), task_id).get("ok"@) == Some(JsonModel::Bool(true)),
        get_output(Some(t), task_id).get("task"@) == Some(task_shown(t, true)),
        get_output(None, task_id).get("ok"@) == Some(JsonModel::Bool(false)),
        get_output(None, task_id).get("error"@) is Some,
        get_output(None, task_id).get("error"@)->0.text_at("code"@) == Some("task_not_found"@),
        get_output(None, task_id).get("error"@)->0.text_at("task_id"@) == Some(task_id),
{
    reveal_strlit("ok");
    reveal_strlit("task");
    assert("ok"@.len() != "task"@.len());
    let j0 = JsonModel::empty_object();
    let j1 = j0.with("ok"@, JsonModel::Bool(true));
    json::lemma_with_is_read(j0, "ok"@, JsonModel::Bool(true));
    let j2 = j1.with("task"@, task_shown(t, true));
    json::lemma_with_is_read(j1, "task"@, task_shown(t, true));
    reveal_strlit("code");
    reveal_strlit("message");
    reveal_strlit("task_id");
    assert("code"@.len() != "message"@.len());
    assert("code"@.len() != "task_id"@.len());
    assert("message"@[0] != "task_id"@[0]);
    let e0 = JsonModel::empty_object();
    let e1 = e0.with("code"@, JsonModel::Text("task_not_found"@));
    json::lemma_with_is_read(e0, "code"@, JsonModel::Text("task_not_found"@));
    let e2 = e1.with("message"@, JsonModel::Text(task_registry::no_such_task(task_id)));
    json::lemma_with_is_read(e1, "message"@, JsonModel::Text(task_registry::no_such_task(task_id)));
    let e3 = e2.with("task_id"@, JsonModel::Text(task_id));
    json::lemma_with_is_read(e2, "task_id"@, JsonModel::Text(task_id));
    reveal_strlit("ok");
    reveal_strlit("error");
    assert("ok"@.len() != "error"@.len());
    let n0 = JsonModel::empty_object();
    let n1 = n0.with("ok"@, JsonModel::Bool(false));
    json::lemma_with_is_read(n0, "ok"@, JsonModel::Bool(false));
    let n2 = n1.with("error"@, e3);
    json::lemma_with_is_read(n1, "error"@, e3);
}

/// The tasks that are listed are shown one by one, with their number, and with the
/// numbers of all tasks by status.
pub proof fn lemma_tasks_are_shown(listed: Seq<TaskModel>, all: Seq<TaskModel>)
    ensures
        ({
            let out = list_output(listed, all);
            &&& out.items_at("tasks"@) is Some
            &&& out.items_at("tasks"@)->0.len() == listed.len()
            &&& forall|i: int|
                0 <= i < listed.len() ==> #[trigger] out.items_at("tasks"@)->0[i] == task_shown(
                    listed[i],
                    false,
                )
            &&& out.get("count"@) == Some(JsonModel::uint(listed.len() as u64))
            &&& out.get("by_status"@) is Some
            &&& out.get("by_status"@)->0.get("running"@) == Some(
                JsonModel::uint(count_of(all, TaskStatus::Running) as u64),
            )
            &&& out.get("by_status"@)->0.get("completed"@) == Some(
                JsonModel::uint(count_of(all, TaskStatus::Completed) as u64),
            )
            &&& out.get("by_status"@)->0.get("failed"@) == Some(
                JsonModel::uint(count_of(all, TaskStatus::Failed) as u64),
            )
        }),
{
    let rows = JsonModel::Array(listed.map_values(|t: TaskModel| task_shown(t, false)));
    reveal_strlit("running");
    reveal_strlit("completed");
    reveal_strlit("failed");
    assert("running"@.len() != "completed"@.len());
    assert("running"@.len() != "failed"@.len());
    assert("completed"@.len() != "failed"@.len());
    let c0 = JsonModel::empty_object();
    let c1 = c0.with("running"@, JsonModel::uint(count_of(all, TaskStatus::Running) as u64));
    json::lemma_with_is_read(c0, "running"@, JsonModel::uint(count_of(all, TaskStatus::Running) as u64));
    let c2 = c1.with("completed"@, JsonModel::uint(count_of(all, TaskStatus::Completed) as u64));
    json::lemma_with_is_read(c1, "completed"@, JsonModel::uint(count_of(all, TaskStatus::Completed) as u64));
    let c3 = c2.with("failed"@, JsonModel::uint(count_of(all, TaskStatus::Failed) as u64));
    json::lemma_with_is_read(c2, "failed"@, JsonModel::uint(count_of(all, TaskStatus::Failed) as u64));
    reveal_strlit("ok");
    reveal_strlit("tasks");
    reveal_strlit("count");
    reveal_strlit("by_status");
    assert("ok"@.len() != "tasks"@.len());
    assert("ok"@.len() != "count"@.len());
    assert("ok"@.len() != "by_status"@.len());
    assert("tasks"@[0] != "count"@[0]);
    assert("tasks"@.len() != "by_status"@.len());
    assert("count"@.len() != "by_status"@.len());
    let j0 = JsonModel::empty_object();
    let j1 = j0.with("ok"@, JsonModel::Bool(true));
    json::lemma_with_is_read(j0, "ok"@, JsonModel::Bool(true));
    let j2 = j1.with("tasks"@, rows);
    json::lemma_with_is_read(j1, "tasks"@, rows);
    let j3 = j2.with("count"@, JsonModel::uint(listed.len() as u64));
    json::lemma_with_is_read(j2, "count"@, JsonModel::uint(listed.len() as u64));
    let j4 = j3.with("by_status"@, counts(all));
    json::lemma_with_is_read(j3, "by_status"@, counts(all));
}

/// One more task counts under its own status, and under no other.
pub proof fn lemma_task_counts_once(tasks: Seq<TaskModel>, t: TaskModel, status: TaskStatus)
    ensures
        count_of(tasks.push(t), status) == count_of(tasks, status) + (if t.status == status {
            1nat
        } else {
            0nat
        }),
        count_of(seq![], status) == 0,
{
    assert(tasks.push(t).drop_last() =~= tasks);
}

/// At least one task and at most two hundred may be asked for at a time.
pub proof fn lemma_how_many_may_be_asked_for(n: usize)
    ensures
        limit_fits(Some(n)) <==> 1 <= n <= 200,
        limit_fits(None),
{
}

/// The output of a task is its result or its failure; of a task that there is not,
/// it is said that it is missing.
pub proof fn lemma_output_of_task(t: TaskModel, task_id: Seq<char>)
    ensures
        ({
            let out = output_output(Some(t), task_id);
            &&& out.get("ok"@) == Some(JsonModel::Bool(true))
            &&& out.text_at("task_id"@) == Some(t.id)
            &&& out.text_at("status"@) == Some(t.status.key())
            &&& out.get("output"@) is Some
            &&& out.get("output"@)->0.text_at("output"@) == t.result_preview
            &&& out.get("output"@)->0.text_at("preview"@) == t.result_preview
            &&& out.get("output"@)->0.text_at("error"@) == t.error
            &&& out.get("output"@)->0.get("has_output"@) == Some(
                JsonModel::Bool(t.result_preview is Some || t.error is Some),
            )
        }),
        output_output(None, task_id) == get_output(None, task_id),
{
    reveal_strlit("output");
    reveal_strlit("preview");
    reveal_strlit("error");
    reveal_strlit("has_output");
    reveal_strlit("truncated");
    reveal_strlit("output_truncated");
    assert("output"@.len() != "preview"@.len());
    assert("output"@.len() != "error"@.len());
    assert("output"@.len() != "has_output"@.len());
    assert("output"@.len() != "truncated"@.len());
    assert("output"@.len() != "output_truncated"@.len());
    assert("preview"@.len() != "error"@.len());
    assert("preview"@.len() != "has_output"@.len());
    assert("preview"@.len() != "truncated"@.len());
    assert("preview"@.len() != "output_truncated"@.len());
    assert("error"@.len() != "has_output"@.len());
    assert("error"@.len() != "truncated"@.len());
    assert("error"@.len() != "output_truncated"@.len());
    assert("has_output"@.len() != "truncated"@.len());
    assert("has_output"@.len() != "output_truncated"@.len());
    assert("truncated"@.len() != "output_truncated"@.len());
    let o0 = JsonModel::empty_object();
    let o1 = o0.with("output"@, JsonModel::optional_text(t.result_preview));
    json::lemma_with_is_read(o0, "output"@, JsonModel::optional_text(t.result_preview));
    let o2 = o1.with("preview"@, JsonModel::optional_text(t.result_preview));
    json::lemma_with_is_read(o1, "preview"@, JsonModel::optional_text(t.result_preview));
    let o3 = o2.with("error"@, JsonModel::optional_text(t.error));
    json::lemma_with_is_read(o2, "error"@, JsonModel::optional_text(t.error));
    let o4 = o3.with("has_output"@, JsonModel::Bool(t.result_preview is Some || t.error is Some));
    json::lemma_with_is_read(o3, "has_output"@, JsonModel::Bool(t.result_preview is Some || t.error is Some));
    let o5 = o4.with("truncated"@, JsonModel::Bool(true));
    json::lemma_with_is_read(o4, "truncated"@, JsonModel::Bool(true));
    let o6 = o5.with("output_truncated"@, JsonModel::Bool(true));
    json::lemma_with_is_read(o5, "output_truncated"@, JsonModel::Bool(true));
    reveal_strlit("ok");
    reveal_strlit("task_id");
    reveal_strlit("status");
    reveal_strlit("output");
    assert("ok"@.len() != "task_id"@.len());
    assert("ok"@.len() != "status"@.len());
    assert("ok"@.len() != "output"@.len());
    assert("task_id"@.len() != "status"@.len());
    assert("task_id"@.len() != "output"@.len());
    assert("status"@[0] != "output"@[0]);
    let j0 = JsonModel::empty_object();
    let j1 = j0.with("ok"@, JsonModel::Bool(true));
    json::lemma_with_is_read(j0, "ok"@, JsonModel::Bool(true));
    let j2 = j1.with("task_id"@, JsonModel::Text(t.id));
    json::lemma_with_is_read(j1, "task_id"@, JsonModel::Text(t.id));
    let j3 = j2.with("status"@, JsonModel::Text(t.status.key()));
    json::lemma_with_is_read(j2, "status"@, JsonModel::Text(t.status.key()));
    let j4 = j3.with("output"@, o6);
    json::lemma_with_is_read(j3, "output"@, o6);
}

/// Where no status is asked for, all are.
pub proof fn lemma_no_status_means_all(status: Seq<TaskStatus>)
    ensures
        status.len() == 0 ==> wanted_statuses(status) is None,
        status.len() > 0 ==> wanted_statuses(status) == Some(status),
{
}

} // verus!
