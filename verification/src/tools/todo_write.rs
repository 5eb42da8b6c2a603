//! The plan of a piece of work: the list of its steps, what is accepted as one,
//! and what is said when it changes.
use crate::json::{Json, JsonModel};
use crate::json;
use crate::text;
use crate::tools::registry;
use crate::tools::registry::{HandlerModel, ToolAction, ToolHandler};
use vstd::prelude::*;

verus! {

/// The longest plan.
pub const MAX_TODOS: usize = 20;

/// The variable of the environment that says where the plan is kept.
pub const TODO_STORE_ENV: &'static str = "TODO_WRITE_PATH";

/// Where the plan is kept if nothing else is said.
pub const DEFAULT_TODO_STORE_PATH: &'static str = ".scribe-todos.json";

pub const TODO_DESCRIPTION: &'static str = "Update the task plan for multi-step work. Provide the full todos list each time.";

pub const TODO_SCHEMA: &'static str = r#"{
  "type": "object",
  "properties": {
    "todos": {
      "type": "array",
      "description": "Complete todo list state after this update.",
      "items": {
        "type": "object",
        "properties": {
          "id": {
            "type": "string",
            "description": "Optional stable identifier for the task."
          },
          "content": {
            "type": "string",
            "description": "Task text. Must be non-empty."
          },
          "status": {
            "type": "string",
            "enum": ["pending", "in_progress", "completed"],
            "description": "Current task status."
          }
        },
        "required": ["content", "status"],
        "additionalProperties": false
      },
      "maxItems": 20
    }
  },
  "required": ["todos"],
  "additionalProperties": false
}"#;

/// How far a step is.
#[derive(Debug, Clone, Copy, PartialEq, Eq, Structural)]
pub enum TodoStatus {
    Pending,
    InProgress,
    Completed,
}

impl TodoStatus {
    /// The name under which the state is stored.
    pub open spec fn name(self) -> Seq<char> {
        match self {
            TodoStatus::Pending => "pending"@,
            TodoStatus::InProgress => "in_progress"@,
            TodoStatus::Completed => "completed"@,
        }
    }

    /// The name under which the state is stored.
    pub fn as_str(self) -> (r: &'static str)
        ensures
            r@ == self.name(),
    {
        match self {
            TodoStatus::Pending => "pending",
            TodoStatus::InProgress => "in_progress",
            TodoStatus::Completed => "completed",
        }
    }
}

/// One step of the plan.
#[derive(Debug)]
pub struct TodoItem {
    pub id: Option<String>,
    pub content: String,
    pub status: TodoStatus,
}

/// One step of the plan.
#[verifier::ext_equal]
pub struct TodoModel {
    pub id: Option<Seq<char>>,
    pub content: Seq<char>,
    pub status: TodoStatus,
}

impl DeepView for TodoItem {
    type V = TodoModel;

    open spec fn deep_view(&self) -> TodoModel {
        TodoModel { id: self.id.deep_view(), content: self.content@, status: self.status }
    }
}

// ---------------------------------------------------------------------------
// What is accepted

/// How many steps are in the given state.
pub open spec fn count_of(todos: Seq<TodoModel>, status: TodoStatus) -> nat
    decreases todos.len(),
{
    if todos.len() == 0 {
        0
    } else {
        count_of(todos.drop_last(), status) + if todos.last().status == status {
            1nat
        } else {
            0nat
        }
    }
}

/// A step says nothing.
pub open spec fn has_blank_step(todos: Seq<TodoModel>) -> bool {
    exists|i: int| 0 <= i < todos.len() && text::is_blank(#[trigger] todos[i].content)
}

/// What is wrong with a plan: it is too long, a step says nothing, or more than
/// one is in progress.
pub open spec fn todo_problem(todos: Seq<TodoModel>) -> Option<Seq<char>> {
    if todos.len() > MAX_TODOS {
        Some(
            "too many todo items: "@ + text::decimal(todos.len()) + " (max: "@ + text::decimal(
                MAX_TODOS as nat,
            ) + ")"@,
        )
    } else if has_blank_step(todos) {
        Some("todo content cannot be empty"@)
    } else if count_of(todos, TodoStatus::InProgress) > 1 {
        Some("at most one todo item can be in_progress"@)
    } else {
        None
    }
}

/// A plan that is accepted.
pub open spec fn is_plan(todos: Seq<TodoModel>) -> bool {
    todo_problem(todos) is None
}

fn count_status(todos: &Vec<TodoItem>, status: TodoStatus) -> (r: usize)
    ensures
        r == count_of(todos.deep_view(), status),
        r <= todos@.len(),
{
    let ghost all = todos.deep_view();
    let mut n: usize = 0;
    let mut i: usize = 0;
    assert(all.take(0) =~= seq![]);
    while i < todos.len()
        invariant
            i <= todos@.len(),
            n <= i,
            all == todos.deep_view(),
            n == count_of(all.take(i as int), status),
        decreases todos@.len() - i,
    {
        proof {
            assert(all.take(i + 1).drop_last() =~= all.take(i as int));
            assert(all.take(i + 1).last() == todos@[i as int].deep_view());
        }
        if todos[i].status == status {
            n = n + 1;
        }
        i = i + 1;
    }
    assert(all.take(all.len() as int) =~= all);
    n
}

/// Accepts a plan or says what is wrong with it.
pub fn validate_todos(todos: &Vec<TodoItem>) -> (r: Result<(), String>)
    ensures
        match r {
            Ok(_) => is_plan(todos.deep_view()),
            Err(e) => todo_problem(todos.deep_view()) == Some(e@),
        },
{
    if todos.len() > MAX_TODOS {
        let count = text::decimal_of(todos.len() as u128);
        let limit = text::decimal_of(MAX_TODOS as u128);
        let mut e = text::concat3("too many todo items: ", count.as_str(), " (max: ");
        e.append(limit.as_str());
        e.append(")");
        return Err(e);
    }
    let mut i: usize = 0;
    while i < todos.len()
        invariant
            i <= todos@.len(),
            todos@.len() <= MAX_TODOS,
            forall|k: int|
                0 <= k < i ==> !text::is_blank(#[trigger] todos.deep_view()[k].content),
        decreases todos@.len() - i,
    {
        let trimmed = text::trim(todos[i].content.as_str());
        if text::char_count(trimmed.as_str()) == 0 {
            assert(text::is_blank(todos.deep_view()[i as int].content));
            return Err(text::owned("todo content cannot be empty"));
        }
        i = i + 1;
    }
    if count_status(todos, TodoStatus::InProgress) > 1 {
        return Err(text::owned("at most one todo item can be in_progress"));
    }
    Ok(())
}

/// Two steps in progress count as two.
proof fn lemma_count_two(todos: Seq<TodoModel>, i: int, j: int, status: TodoStatus)
    requires
        0 <= i < j < todos.len(),
        todos[i].status == status,
        todos[j].status == status,
    ensures
        count_of(todos, status) >= 2,
    decreases todos.len(),
{
    if j < todos.len() - 1 {
        lemma_count_two(todos.drop_last(), i, j, status);
    } else {
        lemma_count_one(todos.drop_last(), i, status);
    }
}

proof fn lemma_count_one(todos: Seq<TodoModel>, i: int, status: TodoStatus)
    requires
        0 <= i < todos.len(),
        todos[i].status == status,
    ensures
        count_of(todos, status) >= 1,
    decreases todos.len(),
{
    if i < todos.len() - 1 {
        lemma_count_one(todos.drop_last(), i, status);
    }
}

/// No two steps of an accepted plan are in progress, and every step says
/// something.
pub proof fn lemma_plan_has_one_step_in_progress(todos: Seq<TodoModel>, i: int, j: int)
    requires
        is_plan(todos),
        0 <= i < todos.len(),
        0 <= j < todos.len(),
    ensures
        todos[i].status == TodoStatus::InProgress && todos[j].status == TodoStatus::InProgress
            ==> i == j,
        !text::is_blank(todos[i].content),
        todos.len() <= MAX_TODOS,
{
    if todos[i].status == TodoStatus::InProgress && todos[j].status == TodoStatus::InProgress {
        if i < j {
            lemma_count_two(todos, i, j, TodoStatus::InProgress);
        } else if j < i {
            lemma_count_two(todos, j, i, TodoStatus::InProgress);
        }
    }
}

// ---------------------------------------------------------------------------
// What a change of the plan brings

/// There are steps, and all of them are done.
pub open spec fn all_done(todos: Seq<TodoModel>) -> bool {
    &&& todos.len() > 0
    &&& forall|i: int|
        0 <= i < todos.len() ==> (#[trigger] todos[i]).status == TodoStatus::Completed
}

/// A step speaks of checking the work.
pub open spec fn checks_work(content: Seq<char>) -> bool {
    let c = text::lowered(content);
    ||| text::has_text(c, "verify"@)
    ||| text::has_text(c, "validation"@)
    ||| text::has_text(c, "test"@)
    ||| text::has_text(c, "check"@)
    ||| text::has_text(c, "review"@)
}

/// All is done, and nothing was checked.
pub open spec fn needs_nudge(todos: Seq<TodoModel>) -> bool {
    &&& all_done(todos)
    &&& forall|i: int| 0 <= i < todos.len() ==> !checks_work(#[trigger] todos[i].content)
}

fn all_completed(todos: &Vec<TodoItem>) -> (r: bool)
    ensures
        r == all_done(todos.deep_view()),
{
    let ghost all = todos.deep_view();
    let mut i: usize = 0;
    while i < todos.len()
        invariant
            i <= todos@.len(),
            all == todos.deep_view(),
            forall|k: int| 0 <= k < i ==> (#[trigger] all[k]).status == TodoStatus::Completed,
        decreases todos@.len() - i,
    {
        if todos[i].status != TodoStatus::Completed {
            assert(all[i as int].status != TodoStatus::Completed);
            return false;
        }
        i = i + 1;
    }
    todos.len() > 0
}

fn speaks_of_checking(content: &str) -> (r: bool)
    ensures
        r == checks_work(content@),
{
    let lower = text::to_ascii_lower(content);
    let c = lower.as_str();
    text::contains(c, "verify") || text::contains(c, "validation") || text::contains(c, "test")
        || text::contains(c, "check") || text::contains(c, "review")
}

/// All is done, and nothing was checked.
pub fn verify_nudge_needed(todos: &Vec<TodoItem>) -> (r: bool)
    ensures
        r == needs_nudge(todos.deep_view()),
{
    if !all_completed(todos) {
        return false;
    }
    let ghost all = todos.deep_view();
    let mut i: usize = 0;
    while i < todos.len()
        invariant
            i <= todos@.len(),
            all == todos.deep_view(),
            forall|k: int| 0 <= k < i ==> !checks_work(#[trigger] all[k].content),
        decreases todos@.len() - i,
    {
        if speaks_of_checking(todos[i].content.as_str()) {
            assert(checks_work(all[i as int].content));
            return false;
        }
        i = i + 1;
    }
    true
}

/// A step as it is reported.
pub open spec fn step_json(item: TodoModel) -> JsonModel {
    JsonModel::empty_object().with("id"@, JsonModel::optional_text(item.id)).with(
        "content"@,
        JsonModel::Text(item.content),
    ).with("status"@, JsonModel::Text(item.status.name()))
}

/// A plan as it is reported.
pub open spec fn steps_json(todos: Seq<TodoModel>) -> JsonModel {
    JsonModel::Array(todos.map_values(|t: TodoModel| step_json(t)))
}

/// What is said when a plan takes the place of another.
pub open spec fn update_report(old_todos: Seq<TodoModel>, todos: Seq<TodoModel>, path: Seq<char>) -> JsonModel {
    let total = todos.len();
    let completed = count_of(todos, TodoStatus::Completed);
    JsonModel::empty_object().with(
        "summary"@,
        JsonModel::Text(
            "Todo list updated: "@ + text::decimal(completed) + "/"@ + text::decimal(total)
                + " completed"@,
        ),
    ).with(
        "stats"@,
        JsonModel::empty_object().with("total"@, JsonModel::uint(total as u64)).with(
            "completed"@,
            JsonModel::uint(completed as u64),
        ).with("active"@, JsonModel::uint((total - completed) as u64)),
    ).with("old_todos"@, steps_json(old_todos)).with("new_todos"@, steps_json(todos)).with(
        "verification_nudge_needed"@,
        JsonModel::Bool(needs_nudge(todos)),
    ).with("store_path"@, JsonModel::Text(path))
}

fn new_step_json(item: &TodoItem) -> (r: Json)
    ensures
        r@ == step_json(item.deep_view()),
{
    Json::empty_object().with("id", Json::optional_text(&item.id)).with(
        "content",
        Json::text(item.content.as_str()),
    ).with("status", Json::text(item.status.as_str()))
}

fn new_steps_json(todos: &Vec<TodoItem>) -> (r: Json)
    ensures
        r@ == steps_json(todos.deep_view()),
{
    let ghost wanted = todos.deep_view().map_values(|t: TodoModel| step_json(t));
    let mut items: Vec<Json> = Vec::new();
    let mut i: usize = 0;
    while i < todos.len()
        invariant
            i <= todos@.len(),
            wanted == todos.deep_view().map_values(|t: TodoModel| step_json(t)),
            items.deep_view() == wanted.take(i as int),
        decreases todos@.len() - i,
    {
        let ghost before = items.deep_view();
        let item = new_step_json(&todos[i]);
        let ghost model = item@;
        items.push(item);
        proof {
            assert(items.deep_view() =~= before.push(model));
            assert(model == wanted[i as int]);
            assert(wanted.take(i + 1) =~= wanted.take(i as int).push(wanted[i as int]));
        }
        i = i + 1;
    }
    assert(wanted.take(wanted.len() as int) =~= wanted);
    Json::array(items)
}

/// A plan that was accepted and is about to take the place of another.
#[derive(Debug)]
pub struct TodoUpdate {
    todos: Vec<TodoItem>,
}

impl View for TodoUpdate {
    type V = Seq<TodoModel>;

    closed spec fn view(&self) -> Seq<TodoModel> {
        self.todos.deep_view()
    }
}

impl TodoUpdate {
    #[verifier::type_invariant]
    spec fn accepted(self) -> bool {
        is_plan(self.todos.deep_view())
    }

    /// The plan to be stored; nothing if all is done, and the store is to be
    /// cleared.
    pub fn to_store(&self) -> (r: Option<&Vec<TodoItem>>)
        ensures
            match r {
                None => all_done(self@),
                Some(todos) => !all_done(self@) && todos.deep_view() == self@,
            },
    {
        if all_completed(&self.todos) {
            None
        } else {
            Some(&self.todos)
        }
    }
}

/// The plan as it stands.
#[derive(Debug)]
pub struct TodoManager {
    todos: Vec<TodoItem>,
    store_path: String,
}

/// The plan as it stands.
pub struct ManagerModel {
    pub todos: Seq<TodoModel>,
    pub store_path: Seq<char>,
}

impl View for TodoManager {
    type V = ManagerModel;

    closed spec fn view(&self) -> ManagerModel {
        ManagerModel { todos: self.todos.deep_view(), store_path: self.store_path@ }
    }
}

/// The plan that was found in the store: an empty one if it could not be read or
/// is not accepted.
pub open spec fn restored(found: Option<Seq<TodoModel>>) -> Seq<TodoModel> {
    match found {
        Some(todos) => if is_plan(todos) {
            todos
        } else {
            seq![]
        },
        None => seq![],
    }
}

impl TodoManager {
    #[verifier::type_invariant]
    spec fn holds_plan(self) -> bool {
        is_plan(self.todos.deep_view())
    }

    /// The plan that was found in the store.
    pub fn new(found: Option<Vec<TodoItem>>, store_path: String) -> (r: TodoManager)
        ensures
            r@.todos == restored(found.deep_view()),
            r@.store_path == store_path@,
    {
        match found {
            Some(todos) => {
                if validate_todos(&todos).is_ok() {
                    return TodoManager { todos, store_path };
                }
            },
            None => {},
        }
        let todos: Vec<TodoItem> = Vec::new();
        assert(todos.deep_view() =~= seq![]);
        TodoManager { todos, store_path }
    }

    /// The plan that is held is always one that is accepted.
    pub fn todos(&self) -> (r: &Vec<TodoItem>)
        ensures
            r.deep_view() == self@.todos,
            is_plan(self@.todos),
    {
        proof {
            use_type_invariant(self);
        }
        &self.todos
    }

    /// Where the plan is kept.
    pub fn store_path(&self) -> (r: &str)
        ensures
            r@ == self@.store_path,
    {
        self.store_path.as_str()
    }

    /// Accepts a plan that is to take the place of the present one. Nothing
    /// changes until the store has been written.
    pub fn plan_update(&self, todos: Vec<TodoItem>) -> (r: Result<TodoUpdate, String>)
        ensures
            match r {
                Ok(u) => is_plan(todos.deep_view()) && u@ == todos.deep_view(),
                Err(e) => todo_problem(todos.deep_view()) == Some(e@),
            },
    {
        match validate_todos(&todos) {
            Ok(_) => Ok(TodoUpdate { todos }),
            Err(e) => Err(e),
        }
    }

    /// Takes over the new plan and says what has changed.
    pub fn update(&mut self, update: TodoUpdate) -> (r: String)
        ensures
            final(self)@ == (ManagerModel { todos: update@, ..old(self)@ }),
            r@ == json::pretty_text(
                update_report(old(self)@.todos, update@, old(self)@.store_path),
            ),
    {
        proof {
            use_type_invariant(&*self);
            use_type_invariant(&update);
        }
        let report = self.render_update_json(&update);
        self.todos = update.todos;
        report
    }

    /// What is said when the plan is replaced.
    pub fn render_update_json(&self, update: &TodoUpdate) -> (r: String)
        ensures
            r@ == json::pretty_text(update_report(self@.todos, update@, self@.store_path)),
    {
        let total = update.todos.len();
        let completed = count_status(&update.todos, TodoStatus::Completed);
        let completed_text = text::decimal_of(completed as u128);
        let total_text = text::decimal_of(total as u128);
        let mut summary = text::concat3("Todo list updated: ", completed_text.as_str(), "/");
        summary.append(total_text.as_str());
        summary.append(" completed");
        let stats = Json::empty_object().with("total", Json::uint(total as u64)).with(
            "completed",
            Json::uint(completed as u64),
        ).with("active", Json::uint((total - completed) as u64));
        let report = Json::empty_object().with("summary", Json::text(summary.as_str())).with(
            "stats",
            stats,
        ).with("old_todos", new_steps_json(&self.todos)).with(
            "new_todos",
            new_steps_json(&update.todos),
        ).with(
            "verification_nudge_needed",
            Json::Bool(verify_nudge_needed(&update.todos)),
        ).with("store_path", Json::text(self.store_path.as_str()));
        report.to_pretty_string()
    }
}

/// A plan that was stored is found again as it was.
pub proof fn lemma_stored_plan_is_restored(todos: Seq<TodoModel>)
    requires
        is_plan(todos),
    ensures
        restored(Some(todos)) == todos,
{
}

// ---------------------------------------------------------------------------
// The store

/// Where the plan is kept: as the environment says, if it says anything.
pub open spec fn store_path_of(env: Option<Seq<char>>) -> Seq<char> {
    match env {
        Some(v) => if text::is_blank(v) {
            DEFAULT_TODO_STORE_PATH@
        } else {
            v
        },
        None => DEFAULT_TODO_STORE_PATH@,
    }
}

/// Where the plan is kept.
pub fn resolve_store_path(env: Option<String>) -> (r: String)
    ensures
        r@ == store_path_of(env.deep_view()),
{
    match env {
        Some(v) => {
            let trimmed = text::trim(v.as_str());
            if text::char_count(trimmed.as_str()) == 0 {
                text::owned(DEFAULT_TODO_STORE_PATH)
            } else {
                v
            }
        },
        None => text::owned(DEFAULT_TODO_STORE_PATH),
    }
}

/// The store holds an accepted plan with a step that is not done.
pub open spec fn has_active(found: Option<Seq<TodoModel>>) -> bool {
    exists|i: int|
        0 <= i < restored(found).len() && (#[trigger] restored(found)[i]).status
            != TodoStatus::Completed
}

/// The store holds an accepted plan with a step that is not done.
pub fn has_persisted_active_todos(found: Option<Vec<TodoItem>>) -> (r: bool)
    ensures
        r == has_active(found.deep_view()),
{
    let todos = match found {
        Some(todos) => todos,
        None => {
            return false;
        },
    };
    if validate_todos(&todos).is_err() {
        return false;
    }
    let ghost all = todos.deep_view();
    let mut i: usize = 0;
    while i < todos.len()
        invariant
            i <= todos@.len(),
            all == todos.deep_view(),
            all == restored(found.deep_view()),
            forall|k: int| 0 <= k < i ==> (#[trigger] all[k]).status == TodoStatus::Completed,
        decreases todos@.len() - i,
    {
        if todos[i].status != TodoStatus::Completed {
            assert(all[i as int].status != TodoStatus::Completed);
            return true;
        }
        i = i + 1;
    }
    false
}

/// The tool that changes the plan.
pub fn todo_write_handler() -> (r: ToolHandler)
    ensures
        r@ == (HandlerModel {
            definition: registry::definition_of("todo_write"@, TODO_DESCRIPTION@, TODO_SCHEMA@),
            action: ToolAction::TodoWrite,
        }),
{
    registry::new_handler("todo_write", TODO_DESCRIPTION, TODO_SCHEMA, ToolAction::TodoWrite)
}

// ---------------------------------------------------------------------------
// Laws

/// A plan is accepted exactly where it has at most twenty steps, each of them
/// says something, and no two of them are in progress.
pub proof fn lemma_which_plans_are_accepted(todos: Seq<TodoModel>)
    ensures
        is_plan(todos) <==> {
            &&& todos.len() <= 20
            &&& forall|i: int|
                0 <= i < todos.len() ==> text::trimmed(#[trigger] todos[i].content).len() > 0
            &&& forall|i: int, j: int|
                0 <= i < j < todos.len() ==> !((#[trigger] todos[i]).status
                    == TodoStatus::InProgress && (#[trigger] todos[j]).status
                    == TodoStatus::InProgress)
        },
{
    let one = forall|i: int, j: int|
        0 <= i < j < todos.len() ==> !((#[trigger] todos[i]).status == TodoStatus::InProgress && (
        #[trigger] todos[j]).status == TodoStatus::InProgress);
    if is_plan(todos) {
        assert forall|i: int, j: int| 0 <= i < j < todos.len() implies !((
        #[trigger] todos[i]).status == TodoStatus::InProgress && (#[trigger] todos[j]).status
            == TodoStatus::InProgress) by {
            lemma_plan_has_one_step_in_progress(todos, i, j);
        }
        assert forall|i: int| 0 <= i < todos.len() implies text::trimmed(
            #[trigger] todos[i].content,
        ).len() > 0 by {
            lemma_plan_has_one_step_in_progress(todos, i, i);
        }
    } else if one {
        lemma_at_most_one_counts(todos, TodoStatus::InProgress);
        if has_blank_step(todos) {
            let i = choose|i: int|
                0 <= i < todos.len() && text::is_blank(#[trigger] todos[i].content);
            assert(text::trimmed(todos[i].content).len() == 0);
        }
    }
}

proof fn lemma_at_most_one_counts(todos: Seq<TodoModel>, status: TodoStatus)
    requires
        forall|i: int, j: int|
            0 <= i < j < todos.len() ==> !((#[trigger] todos[i]).status == status && (
            #[trigger] todos[j]).status == status),
    ensures
        count_of(todos, status) <= 1,
        count_of(todos, status) == 1 ==> exists|i: int|
            0 <= i < todos.len() && (#[trigger] todos[i]).status == status,
    decreases todos.len(),
{
    if todos.len() > 0 {
        let head = todos.drop_last();
        assert forall|i: int, j: int| 0 <= i < j < head.len() implies !((
        #[trigger] head[i]).status == status && (#[trigger] head[j]).status == status) by {
            assert(head[i] == todos[i]);
            assert(head[j] == todos[j]);
        }
        lemma_at_most_one_counts(head, status);
        if count_of(head, status) == 1 {
            let i = choose|i: int| 0 <= i < head.len() && (#[trigger] head[i]).status == status;
            assert(todos[i].status == status);
            assert(todos[todos.len() - 1] == todos.last());
        } else if todos.last().status == status {
            assert(todos[todos.len() - 1].status == status);
        }
    }
}

/// Whoever has done all steps is reminded to check the work, unless some step
/// was a check: one that speaks of verifying, validation, a test, a check or a
/// review, in whatever letter case.
pub proof fn lemma_when_a_check_is_asked_for(todos: Seq<TodoModel>)
    ensures
        (exists|i: int|
            0 <= i < todos.len() && (#[trigger] todos[i]).status != TodoStatus::Completed)
            ==> !needs_nudge(todos),
        todos.len() == 0 ==> !needs_nudge(todos),
        forall|i: int|
            0 <= i < todos.len() && (text::has_text(
                text::lowered((#[trigger] todos[i]).content),
                "verify"@,
            ) || text::has_text(text::lowered(todos[i].content), "validation"@) || text::has_text(
                text::lowered(todos[i].content),
                "test"@,
            ) || text::has_text(text::lowered(todos[i].content), "check"@) || text::has_text(
                text::lowered(todos[i].content),
                "review"@,
            )) ==> !needs_nudge(todos),
        todos.len() > 0 && (forall|i: int|
            0 <= i < todos.len() ==> (#[trigger] todos[i]).status == TodoStatus::Completed
                && !text::has_text(text::lowered(todos[i].content), "verify"@) && !text::has_text(
                text::lowered(todos[i].content),
                "validation"@,
            ) && !text::has_text(text::lowered(todos[i].content), "test"@) && !text::has_text(
                text::lowered(todos[i].content),
                "check"@,
            ) && !text::has_text(text::lowered(todos[i].content), "review"@)) ==> needs_nudge(
            todos,
        ),
{
    assert forall|i: int|
        0 <= i < todos.len() && (text::has_text(
            text::lowered((#[trigger] todos[i]).content),
            "verify"@,
        ) || text::has_text(text::lowered(todos[i].content), "validation"@) || text::has_text(
            text::lowered(todos[i].content),
            "test"@,
        ) || text::has_text(text::lowered(todos[i].content), "check"@) || text::has_text(
            text::lowered(todos[i].content),
            "review"@,
        )) implies !needs_nudge(todos) by {
        assert(checks_work(todos[i].content));
    }
}

/// What is reported of a new plan: the steps before and after, how many there
/// are, how many of them are done and how many are left, and where they are kept.
pub proof fn lemma_update_is_reported(
    old_todos: Seq<TodoModel>,
    todos: Seq<TodoModel>,
    path: Seq<char>,
)
    requires
        todos.len() <= 20,
    ensures
        ({
            let report = update_report(old_todos, todos, path);
            let done = count_of(todos, TodoStatus::Completed);
            &&& report.items_at("old_todos"@) == Some(
                old_todos.map_values(|t: TodoModel| step_json(t)),
            )
            &&& report.items_at("new_todos"@) == Some(
                todos.map_values(|t: TodoModel| step_json(t)),
            )
            &&& report.text_at("store_path"@) == Some(path)
            &&& report.get("verification_nudge_needed"@) == Some(
                JsonModel::Bool(needs_nudge(todos)),
            )
            &&& report.text_at("summary"@) == Some(
                "Todo list updated: "@ + text::decimal(done) + "/"@ + text::decimal(todos.len())
                    + " completed"@,
            )
            &&& report.get("stats"@) is Some
            &&& report.get("stats"@)->0.get("total"@) == Some(JsonModel::uint(todos.len() as u64))
            &&& report.get("stats"@)->0.get("completed"@) == Some(JsonModel::uint(done as u64))
            &&& report.get("stats"@)->0.get("active"@) == Some(
                JsonModel::uint((todos.len() - done) as u64),
            )
        }),
{
    reveal_strlit("summary");
    reveal_strlit("stats");
    reveal_strlit("old_todos");
    reveal_strlit("new_todos");
    reveal_strlit("verification_nudge_needed");
    reveal_strlit("store_path");
    assert("summary"@.len() != "stats"@.len());
    assert("summary"@.len() != "old_todos"@.len());
    assert("summary"@.len() != "new_todos"@.len());
    assert("summary"@.len() != "verification_nudge_needed"@.len());
    assert("summary"@.len() != "store_path"@.len());
    assert("stats"@.len() != "old_todos"@.len());
    assert("stats"@.len() != "new_todos"@.len());
    assert("stats"@.len() != "verification_nudge_needed"@.len());
    assert("stats"@.len() != "store_path"@.len());
    assert("old_todos"@[0] != "new_todos"@[0]);
    assert("old_todos"@.len() != "verification_nudge_needed"@.len());
    assert("old_todos"@.len() != "store_path"@.len());
    assert("new_todos"@.len() != "verification_nudge_needed"@.len());
    assert("new_todos"@.len() != "store_path"@.len());
    assert("verification_nudge_needed"@.len() != "store_path"@.len());
    reveal_strlit("total");
    reveal_strlit("completed");
    reveal_strlit("active");
    assert("total"@.len() != "completed"@.len());
    assert("total"@.len() != "active"@.len());
    assert("completed"@.len() != "active"@.len());
    let done = count_of(todos, TodoStatus::Completed);
    let e = JsonModel::empty_object();
    let total = JsonModel::uint(todos.len() as u64);
    let s1 = e.with("total"@, total);
    let s2 = s1.with("completed"@, JsonModel::uint(done as u64));
    json::lemma_with_is_read(e, "total"@, total);
    json::lemma_with_is_read(s1, "completed"@, JsonModel::uint(done as u64));
    json::lemma_with_is_read(s2, "active"@, JsonModel::uint((todos.len() - done) as u64));
    let stats = s2.with("active"@, JsonModel::uint((todos.len() - done) as u64));
    let summary = JsonModel::Text(
        "Todo list updated: "@ + text::decimal(done) + "/"@ + text::decimal(todos.len())
            + " completed"@,
    );
    let r1 = e.with("summary"@, summary);
    let r2 = r1.with("stats"@, stats);
    let r3 = r2.with("old_todos"@, steps_json(old_todos));
    let r4 = r3.with("new_todos"@, steps_json(todos));
    let r5 = r4.with("verification_nudge_needed"@, JsonModel::Bool(needs_nudge(todos)));
    json::lemma_with_is_read(e, "summary"@, summary);
    json::lemma_with_is_read(r1, "stats"@, stats);
    json::lemma_with_is_read(r2, "old_todos"@, steps_json(old_todos));
    json::lemma_with_is_read(r3, "new_todos"@, steps_json(todos));
    json::lemma_with_is_read(
        r4,
        "verification_nudge_needed"@,
        JsonModel::Bool(needs_nudge(todos)),
    );
    json::lemma_with_is_read(r5, "store_path"@, JsonModel::Text(path));
}

/// A step as it is shown has its id, if it has one, its content and the name of
/// its status.
pub proof fn lemma_step_is_shown(item: TodoModel)
    ensures
        step_json(item).text_at("content"@) == Some(item.content),
        step_json(item).text_at("id"@) == item.id,
        item.status == TodoStatus::Pending ==> step_json(item).text_at("status"@) == Some(
            "pending"@,
        ),
        item.status == TodoStatus::InProgress ==> step_json(item).text_at("status"@) == Some(
            "in_progress"@,
        ),
        item.status == TodoStatus::Completed ==> step_json(item).text_at("status"@) == Some(
            "completed"@,
        ),
{
    reveal_strlit("id");
    reveal_strlit("content");
    reveal_strlit("status");
    assert("id"@.len() != "content"@.len());
    assert("id"@.len() != "status"@.len());
    assert("content"@.len() != "status"@.len());
    let e = JsonModel::empty_object();
    let s1 = e.with("id"@, JsonModel::optional_text(item.id));
    let s2 = s1.with("content"@, JsonModel::Text(item.content));
    json::lemma_with_is_read(e, "id"@, JsonModel::optional_text(item.id));
    json::lemma_with_is_read(s1, "content"@, JsonModel::Text(item.content));
    json::lemma_with_is_read(s2, "status"@, JsonModel::Text(item.status.name()));
}

/// A stored plan that would not be accepted is passed over, and one with a step
/// that is not done is one that work goes on with.
pub proof fn lemma_stored_plan_is_looked_at(todos: Seq<TodoModel>, i: int)
    ensures
        !is_plan(todos) ==> restored(Some(todos)).len() == 0,
        restored(None).len() == 0,
        !has_active(None),
        is_plan(todos) && 0 <= i < todos.len() && todos[i].status != TodoStatus::Completed
            ==> has_active(Some(todos)),
        (forall|k: int|
            0 <= k < todos.len() ==> (#[trigger] todos[k]).status == TodoStatus::Completed)
            ==> !has_active(Some(todos)),
{
    if is_plan(todos) && 0 <= i < todos.len() && todos[i].status != TodoStatus::Completed {
        assert(restored(Some(todos))[i].status != TodoStatus::Completed);
    }
}

/// The plan is kept where the environment says, if it says anything.
pub proof fn lemma_where_the_plan_is_kept(env: Seq<char>)
    ensures
        !text::is_blank(env) ==> store_path_of(Some(env)) == env,
        text::is_blank(env) ==> store_path_of(Some(env)) == store_path_of(None),
        store_path_of(None) == ".scribe-todos.json"@,
{
}

} // verus!
