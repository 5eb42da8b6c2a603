//! Tasks that were handed to other agents, and how they went.
use crate::order;
use crate::text;
use vstd::prelude::*;

verus! {

/// How a task stands.
#[derive(Debug, Clone, Copy, PartialEq, Eq, Structural)]
pub enum TaskStatus {
    Running,
    Completed,
    Failed,
}

impl TaskStatus {
    /// The key of a status.
    pub open spec fn key(self) -> Seq<char> {
        match self {
            TaskStatus::Running => "running"@,
            TaskStatus::Completed => "completed"@,
            TaskStatus::Failed => "failed"@,
        }
    }

    /// The name of a status.
    pub open spec fn name(self) -> Seq<char> {
        match self {
            TaskStatus::Running => "Running"@,
            TaskStatus::Completed => "Completed"@,
            TaskStatus::Failed => "Failed"@,
        }
    }

    /// The task is over.
    pub open spec fn terminal(self) -> bool {
        self != TaskStatus::Running
    }

    /// The name of a status.
    pub fn name_str(self) -> (r: &'static str)
        ensures
            r@ == self.name(),
    {
        match self {
            TaskStatus::Running => "Running",
            TaskStatus::Completed => "Completed",
            TaskStatus::Failed => "Failed",
        }
    }
}

/// The key of a status.
pub fn task_status_str(status: TaskStatus) -> (r: &'static str)
    ensures
        r@ == status.key(),
{
    match status {
        TaskStatus::Running => "running",
        TaskStatus::Completed => "completed",
        TaskStatus::Failed => "failed",
    }
}

/// A task.
#[derive(Debug, PartialEq, Eq)]
pub struct TaskRecord {
    pub id: String,
    pub prompt: String,
    pub status: TaskStatus,
    pub assigned_teammate: Option<String>,
    pub result_preview: Option<String>,
    pub error: Option<String>,
    pub created_at_unix_ms: u128,
    pub updated_at_unix_ms: u128,
}

/// A task.
#[verifier::ext_equal]
pub struct TaskModel {
    pub id: Seq<char>,
    pub prompt: Seq<char>,
    pub status: TaskStatus,
    pub assigned_teammate: Option<Seq<char>>,
    pub result_preview: Option<Seq<char>>,
    pub error: Option<Seq<char>>,
    pub created_at_unix_ms: u128,
    pub updated_at_unix_ms: u128,
}

impl TaskModel {
    /// The times of the task can be written as JSON numbers.
    pub open spec fn timely(self) -> bool {
        self.created_at_unix_ms <= u64::MAX && self.updated_at_unix_ms <= u64::MAX
    }
}

impl DeepView for TaskRecord {
    type V = TaskModel;

    open spec fn deep_view(&self) -> TaskModel {
        TaskModel {
            id: self.id@,
            prompt: self.prompt@,
            status: self.status,
            assigned_teammate: self.assigned_teammate.deep_view(),
            result_preview: self.result_preview.deep_view(),
            error: self.error.deep_view(),
            created_at_unix_ms: self.created_at_unix_ms,
            updated_at_unix_ms: self.updated_at_unix_ms,
        }
    }
}

impl TaskRecord {
    /// Whether the times of the task can be written as JSON numbers.
    pub fn is_timely(&self) -> (r: bool)
        ensures
            r == self.deep_view().timely(),
    {
        self.created_at_unix_ms <= u64::MAX as u128 && self.updated_at_unix_ms <= u64::MAX as u128
    }
}

impl Clone for TaskRecord {
    fn clone(&self) -> (r: TaskRecord)
        ensures
            r.deep_view() == self.deep_view(),
    {
        TaskRecord {
            id: self.id.clone(),
            prompt: self.prompt.clone(),
            status: self.status,
            assigned_teammate: text::clone_text(&self.assigned_teammate),
            result_preview: text::clone_text(&self.result_preview),
            error: text::clone_text(&self.error),
            created_at_unix_ms: self.created_at_unix_ms,
            updated_at_unix_ms: self.updated_at_unix_ms,
        }
    }
}

/// All tasks, in the order in which they were started, and the number of the
/// next task that gets no name.
#[derive(Debug)]
pub struct TaskRegistry {
    tasks: Vec<TaskRecord>,
    next_id: u64,
}

/// All tasks, and the number of the next task that gets no name.
#[verifier::ext_equal]
pub struct RegistryModel {
    pub tasks: Seq<TaskModel>,
    pub next_id: u64,
}

/// The position of a task, or the number of tasks.
pub open spec fn place_of(tasks: Seq<TaskModel>, id: Seq<char>) -> int
    decreases tasks.len(),
{
    if tasks.len() == 0 || tasks[0].id == id {
        0
    } else {
        1 + place_of(tasks.skip(1), id)
    }
}

/// No two tasks have the same id.
pub open spec fn well_kept(tasks: Seq<TaskModel>) -> bool {
    forall|i: int, j: int|
        0 <= i < j < tasks.len() ==> (#[trigger] tasks[i]).id != (#[trigger] tasks[j]).id
}

/// The place found holds the task, and there is one exactly where some task has
/// the id.
pub proof fn lemma_place_of(tasks: Seq<TaskModel>, id: Seq<char>)
    ensures
        0 <= place_of(tasks, id) <= tasks.len(),
        place_of(tasks, id) < tasks.len() ==> tasks[place_of(tasks, id)].id == id,
        forall|k: int| 0 <= k < place_of(tasks, id) ==> (#[trigger] tasks[k]).id != id,
    decreases tasks.len(),
{
    if tasks.len() > 0 && tasks[0].id != id {
        lemma_place_of(tasks.skip(1), id);
        assert forall|k: int| 0 <= k < place_of(tasks, id) implies (#[trigger] tasks[k]).id
            != id by {
            if k > 0 {
                assert(tasks.skip(1)[k - 1] == tasks[k]);
            }
        }
    }
}

impl RegistryModel {
    /// A task has the id.
    pub open spec fn knows(self, id: Seq<char>) -> bool {
        place_of(self.tasks, id) < self.tasks.len()
    }

    /// The task with the id.
    pub open spec fn task(self, id: Seq<char>) -> Option<TaskModel> {
        if self.knows(id) {
            Some(self.tasks[place_of(self.tasks, id)])
        } else {
            None
        }
    }

    /// The registry with one task changed.
    pub open spec fn changed(self, id: Seq<char>, task: TaskModel) -> RegistryModel {
        RegistryModel { tasks: self.tasks.update(place_of(self.tasks, id), task), ..self }
    }
}

/// A task that has just been started.
pub open spec fn started(id: Seq<char>, prompt: Seq<char>, now_ms: u128) -> TaskModel {
    TaskModel {
        id,
        prompt,
        status: TaskStatus::Running,
        assigned_teammate: None,
        result_preview: None,
        error: None,
        created_at_unix_ms: now_ms,
        updated_at_unix_ms: now_ms,
    }
}

/// The id that a new task gets, or what is wrong with the one it is to have.
pub open spec fn id_for(next_id: u64, hint: Option<Seq<char>>) -> Result<Seq<char>, Seq<char>> {
    match hint {
        Some(raw) => text::label(raw, "task_id"@),
        None => Ok("task-"@ + text::decimal(next_id as nat)),
    }
}

/// The number of the next task without a name, once one has been named.
pub open spec fn next_after(next_id: u64, hint: Option<Seq<char>>) -> u64 {
    match hint {
        Some(_) => next_id,
        None => if next_id == u64::MAX {
            0
        } else {
            (next_id + 1) as u64
        },
    }
}

/// The failure of a change to a task that does not exist.
pub open spec fn no_such_task(id: Seq<char>) -> Seq<char> {
    "task '"@ + id + "' not found"@
}

/// The tasks in the order in which they were started by the clock.
pub open spec fn by_start(tasks: Seq<TaskModel>) -> Seq<TaskModel> {
    order::arranged(
        tasks,
        order::ordered_by(tasks.map_values(|t: TaskModel| (t.created_at_unix_ms, 0u128))),
    )
}

/// The tasks with one of the statuses.
pub open spec fn with_status(tasks: Seq<TaskModel>, wanted: Seq<TaskStatus>) -> Seq<TaskModel>
    decreases tasks.len(),
{
    if tasks.len() == 0 {
        seq![]
    } else if wanted.contains(tasks.last().status) {
        with_status(tasks.drop_last(), wanted).push(tasks.last())
    } else {
        with_status(tasks.drop_last(), wanted)
    }
}

/// At most the first tasks.
pub open spec fn at_most(tasks: Seq<TaskModel>, limit: Option<usize>) -> Seq<TaskModel> {
    match limit {
        Some(n) => if tasks.len() <= n {
            tasks
        } else {
            tasks.take(n as int)
        },
        None => tasks,
    }
}

/// The tasks with one of the statuses, if any is asked for, and at most so many.
pub open spec fn listed_tasks(
    tasks: Seq<TaskModel>,
    wanted: Option<Seq<TaskStatus>>,
    limit: Option<usize>,
) -> Seq<TaskModel> {
    at_most(
        match wanted {
            Some(w) => with_status(by_start(tasks), w),
            None => by_start(tasks),
        },
        limit,
    )
}

/// A task's id as it was given, or what is wrong with it.
pub fn normalize_task_id(raw: &str) -> (r: Result<String, String>)
    ensures
        match r {
            Ok(s) => text::label(raw@, "task_id"@) == Ok::<Seq<char>, Seq<char>>(s@),
            Err(e) => text::label(raw@, "task_id"@) == Err::<Seq<char>, Seq<char>>(e@),
        },
{
    text::normalize_label(raw, "task_id")
}

impl View for TaskRegistry {
    type V = RegistryModel;

    closed spec fn view(&self) -> RegistryModel {
        RegistryModel { tasks: self.tasks.deep_view(), next_id: self.next_id }
    }
}

impl TaskRegistry {
    #[verifier::type_invariant]
    spec fn kept(self) -> bool {
        well_kept(self.tasks.deep_view())
    }

    /// No tasks yet.
    pub fn new() -> (r: TaskRegistry)
        ensures
            r@ == (RegistryModel { tasks: seq![], next_id: 1 }),
    {
        let r = TaskRegistry { tasks: Vec::new(), next_id: 1 };
        assert(r.tasks.deep_view() =~= seq![]);
        r
    }

    fn find(&self, task_id: &str) -> (r: usize)
        ensures
            r == place_of(self@.tasks, task_id@),
            r <= self.tasks@.len(),
    {
        let ghost all = self@.tasks;
        let mut i: usize = 0;
        assert(all.skip(0) =~= all);
        while i < self.tasks.len()
            invariant
                i <= self.tasks@.len(),
                all == self.tasks.deep_view(),
                i + place_of(all.skip(i as int), task_id@) == place_of(all, task_id@),
            decreases self.tasks@.len() - i,
        {
            assert(all.skip(i as int)[0] == self.tasks@[i as int].deep_view());
            if text::same_text(self.tasks[i].id.as_str(), task_id) {
                return i;
            }
            assert(all.skip(i as int).skip(1) =~= all.skip(i + 1));
            i = i + 1;
        }
        assert(all.skip(i as int) =~= seq![]);
        i
    }

    fn generate_task_id(&mut self) -> (r: String)
        ensures
            final(self)@ == (RegistryModel {
                next_id: next_after(old(self)@.next_id, None),
                ..old(self)@
            }),
            r@ == "task-"@ + text::decimal(old(self)@.next_id as nat),
    {
        proof {
            use_type_invariant(&*self);
        }
        let number = text::decimal_of(self.next_id as u128);
        self.next_id = self.next_id.wrapping_add(1);
        text::concat("task-", number.as_str())
    }

    /// Starts a task under the id that is wished for, or under a new one.
    pub fn start_task(&mut self, id_hint: Option<&str>, prompt: &str, now_ms: u128) -> (r: Result<
        String,
        String,
    >)
        ensures
            ({
                let before = old(self)@;
                let after = final(self)@;
                let hint = id_hint.deep_view();
                let next_id = next_after(before.next_id, hint);
                match id_for(before.next_id, hint) {
                    Err(wrong) => {
                        &&& r matches Err(e) && e@ == wrong
                        &&& after == before
                    },
                    Ok(id) => if before.knows(id) {
                        &&& r matches Err(e) && e@ == "task id '"@ + id + "' already exists"@
                        &&& after == (RegistryModel { next_id, ..before })
                    } else {
                        &&& r matches Ok(s) && s@ == id
                        &&& after == (RegistryModel {
                            tasks: before.tasks.push(started(id, prompt@, now_ms)),
                            next_id,
                        })
                    },
                }
            }),
    {
        proof {
            use_type_invariant(&*self);
        }
        let task_id = match id_hint {
            Some(raw) => match normalize_task_id(raw) {
                Ok(id) => id,
                Err(e) => {
                    return Err(e);
                },
            },
            None => self.generate_task_id(),
        };
        let at = self.find(task_id.as_str());
        if at < self.tasks.len() {
            return Err(text::concat3("task id '", task_id.as_str(), "' already exists"));
        }
        let record = TaskRecord {
            id: task_id.clone(),
            prompt: text::owned(prompt),
            status: TaskStatus::Running,
            assigned_teammate: None,
            result_preview: None,
            error: None,
            created_at_unix_ms: now_ms,
            updated_at_unix_ms: now_ms,
        };
        let ghost before = self@.tasks;
        let ghost model = record.deep_view();
        let mut tasks: Vec<TaskRecord> = Vec::new();
        assert(tasks.deep_view() =~= seq![]);
        std::mem::swap(&mut tasks, &mut self.tasks);
        tasks.push(record);
        proof {
            assert(tasks.deep_view() =~= before.push(model));
            lemma_place_of(before, task_id@);
            assert forall|i: int, j: int| 0 <= i < j < tasks.deep_view().len() implies (
            #[trigger] tasks.deep_view()[i]).id != (#[trigger] tasks.deep_view()[j]).id by {
                assert(tasks.deep_view()[i] == before[i]);
                if j < before.len() {
                    assert(tasks.deep_view()[j] == before[j]);
                }
            }
            assert(well_kept(tasks.deep_view()));
        }
        self.tasks = tasks;
        Ok(task_id)
    }

    /// Puts a changed record in the place of one with the same id.
    fn replace(&mut self, at: usize, record: TaskRecord)
        requires
            at < old(self)@.tasks.len(),
            record@.id == old(self)@.tasks[at as int].id,
        ensures
            final(self)@ == (RegistryModel {
                tasks: old(self)@.tasks.update(at as int, record@),
                ..old(self)@
            }),
    {
        proof {
            use_type_invariant(&*self);
        }
        let ghost before = self@.tasks;
        let ghost model = record.deep_view();
        let mut tasks: Vec<TaskRecord> = Vec::new();
        assert(tasks.deep_view() =~= seq![]);
        std::mem::swap(&mut tasks, &mut self.tasks);
        tasks.set(at, record);
        proof {
            let after = tasks.deep_view();
            assert(after =~= before.update(at as int, model));
            assert forall|i: int, j: int| 0 <= i < j < after.len() implies (
            #[trigger] after[i]).id != (#[trigger] after[j]).id by {
                assert(after[i].id == before[i].id);
                assert(after[j].id == before[j].id);
            }
            assert(well_kept(after));
        }
        self.tasks = tasks;
    }

    fn update_task(
        &mut self,
        task_id: &str,
        status: TaskStatus,
        result_preview: Option<&str>,
        error: Option<&str>,
        now_ms: u128,
    ) -> (r: Result<(), String>)
        ensures
            match old(self)@.task(task_id@) {
                Some(task) => r is Ok && final(self)@ == old(self)@.changed(
                    task_id@,
                    TaskModel {
                        status,
                        result_preview: result_preview.deep_view(),
                        error: error.deep_view(),
                        updated_at_unix_ms: now_ms,
                        ..task
                    },
                ),
                None => final(self)@ == old(self)@ && (r matches Err(e) && e@ == no_such_task(
                    task_id@,
                )),
            },
    {
        proof {
            use_type_invariant(&*self);
            lemma_place_of(self@.tasks, task_id@);
        }
        let at = self.find(task_id);
        if at == self.tasks.len() {
            return Err(text::concat3("task '", task_id, "' not found"));
        }
        let mut record = self.tasks[at].clone();
        record.status = status;
        record.result_preview = text::owned_option(result_preview);
        record.error = text::owned_option(error);
        record.updated_at_unix_ms = now_ms;
        self.replace(at, record);
        Ok(())
    }

    /// Notes that a task is done.
    pub fn complete_task(&mut self, task_id: &str, result_preview: &str, now_ms: u128) -> (r: Result<
        (),
        String,
    >)
        ensures
            match old(self)@.task(task_id@) {
                Some(task) => r is Ok && final(self)@ == old(self)@.changed(
                    task_id@,
                    TaskModel {
                        status: TaskStatus::Completed,
                        result_preview: Some(result_preview@),
                        error: None,
                        updated_at_unix_ms: now_ms,
                        ..task
                    },
                ),
                None => final(self)@ == old(self)@ && (r matches Err(e) && e@ == no_such_task(
                    task_id@,
                )),
            },
    {
        self.update_task(task_id, TaskStatus::Completed, Some(result_preview), None, now_ms)
    }

    /// Notes that a task has failed.
    pub fn fail_task(&mut self, task_id: &str, error: &str, now_ms: u128) -> (r: Result<(), String>)
        ensures
            match old(self)@.task(task_id@) {
                Some(task) => r is Ok && final(self)@ == old(self)@.changed(
                    task_id@,
                    TaskModel {
                        status: TaskStatus::Failed,
                        result_preview: None,
                        error: Some(error@),
                        updated_at_unix_ms: now_ms,
                        ..task
                    },
                ),
                None => final(self)@ == old(self)@ && (r matches Err(e) && e@ == no_such_task(
                    task_id@,
                )),
            },
    {
        self.update_task(task_id, TaskStatus::Failed, None, Some(error), now_ms)
    }

    /// Notes who works on a task.
    pub fn bind_teammate(&mut self, task_id: &str, teammate: &str, now_ms: u128) -> (r: Result<
        (),
        String,
    >)
        ensures
            match old(self)@.task(task_id@) {
                Some(task) => r is Ok && final(self)@ == old(self)@.changed(
                    task_id@,
                    TaskModel {
                        assigned_teammate: Some(teammate@),
                        updated_at_unix_ms: now_ms,
                        ..task
                    },
                ),
                None => final(self)@ == old(self)@ && (r matches Err(e) && e@ == no_such_task(
                    task_id@,
                )),
            },
    {
        proof {
            use_type_invariant(&*self);
            lemma_place_of(self@.tasks, task_id@);
        }
        let at = self.find(task_id);
        if at == self.tasks.len() {
            return Err(text::concat3("task '", task_id, "' not found"));
        }
        let mut record = self.tasks[at].clone();
        record.assigned_teammate = Some(text::owned(teammate));
        record.updated_at_unix_ms = now_ms;
        self.replace(at, record);
        Ok(())
    }

    /// The task with the id.
    pub fn get(&self, task_id: &str) -> (r: Option<TaskRecord>)
        ensures
            r.deep_view() == self@.task(task_id@),
    {
        proof {
            use_type_invariant(self);
        }
        let at = self.find(task_id);
        if at < self.tasks.len() {
            Some(self.tasks[at].clone())
        } else {
            None
        }
    }

    /// All tasks in the order in which they were started.
    pub fn all_tasks(&self) -> (r: Vec<TaskRecord>)
        ensures
            r.deep_view() == by_start(self@.tasks),
            well_kept(self@.tasks),
    {
        proof {
            use_type_invariant(self);
        }
        let ghost all = self@.tasks;
        let ghost wanted_keys = all.map_values(|t: TaskModel| (t.created_at_unix_ms, 0u128));
        let mut keys: Vec<(u128, u128)> = Vec::new();
        let mut i: usize = 0;
        assert(keys@ =~= wanted_keys.take(0));
        while i < self.tasks.len()
            invariant
                i <= self.tasks@.len(),
                all == self.tasks.deep_view(),
                wanted_keys == all.map_values(|t: TaskModel| (t.created_at_unix_ms, 0u128)),
                keys@ == wanted_keys.take(i as int),
            decreases self.tasks@.len() - i,
        {
            keys.push((self.tasks[i].created_at_unix_ms, 0));
            proof {
                assert(all[i as int] == self.tasks@[i as int].deep_view());
                assert(wanted_keys.take(i + 1) =~= wanted_keys.take(i as int).push(
                    wanted_keys[i as int],
                ));
            }
            i = i + 1;
        }
        assert(wanted_keys.take(i as int) =~= wanted_keys);
        let positions = order::stable_order(&keys);
        proof {
            order::lemma_order_is_permutation(keys@);
        }
        let ghost places = order::ordered_by(keys@);
        let ghost wanted = order::arranged(all, places);
        let mut r: Vec<TaskRecord> = Vec::new();
        let mut k: usize = 0;
        assert(r.deep_view() =~= wanted.take(0));
        while k < positions.len()
            invariant
                k <= positions@.len(),
                r@.len() == k,
                all == self.tasks.deep_view(),
                order::as_ints(positions@) == places,
                places.len() == all.len(),
                forall|j: int| 0 <= j < all.len() ==> 0 <= #[trigger] places[j] < all.len(),
                wanted == order::arranged(all, places),
                r.deep_view() == wanted.take(k as int),
            decreases positions@.len() - k,
        {
            let ghost before = r.deep_view();
            proof {
                assert(order::as_ints(positions@)[k as int] == positions@[k as int]);
                assert(0 <= places[k as int] < all.len());
            }
            r.push(self.tasks[positions[k]].clone());
            proof {
                assert(r.deep_view() =~= before.push(all[positions@[k as int] as int]));
                assert(wanted.take(k + 1) =~= wanted.take(k as int).push(wanted[k as int]));
            }
            k = k + 1;
        }
        assert(wanted.take(k as int) =~= wanted);
        r
    }

    /// The tasks with one of the statuses, if any is asked for, and at most so
    /// many, in the order in which they were started.
    pub fn list_tasks(&self, status_filter: Option<&Vec<TaskStatus>>, limit: Option<usize>) -> (r:
        Vec<TaskRecord>)
        ensures
            r.deep_view() == listed_tasks(
                self@.tasks,
                (match status_filter {
                    Some(w) => Some(w@),
                    None => None,
                }),
                limit,
            ),
    {
        let all = self.all_tasks();
        let mut records = match status_filter {
            Some(wanted) => keep_with_status(all, wanted),
            None => all,
        };
        let ghost before = records.deep_view();
        match limit {
            Some(n) => {
                records.truncate(n);
                proof {
                    if n <= before.len() {
                        assert(records.deep_view() =~= before.take(n as int));
                    } else {
                        assert(records.deep_view() =~= before);
                    }
                }
            },
            None => {},
        }
        records
    }

    /// Whether a task has the id.
    pub fn has_task(&self, task_id: &str) -> (r: bool)
        ensures
            r == self@.knows(task_id@),
    {
        self.find(task_id) < self.tasks.len()
    }
}

fn is_wanted(status: TaskStatus, wanted: &Vec<TaskStatus>) -> (r: bool)
    ensures
        r == wanted@.contains(status),
{
    let mut i: usize = 0;
    while i < wanted.len()
        invariant
            i <= wanted@.len(),
            forall|k: int| 0 <= k < i ==> #[trigger] wanted@[k] != status,
        decreases wanted@.len() - i,
    {
        if wanted[i] == status {
            assert(wanted@[i as int] == status);
            return true;
        }
        i = i + 1;
    }
    false
}

fn keep_with_status(all: Vec<TaskRecord>, wanted: &Vec<TaskStatus>) -> (r: Vec<TaskRecord>)
    ensures
        r.deep_view() == with_status(all.deep_view(), wanted@),
{
    let ghost given = all.deep_view();
    let mut r: Vec<TaskRecord> = Vec::new();
    let mut i: usize = 0;
    proof {
        assert(given.take(0) =~= seq![]);
        assert(r.deep_view() =~= seq![]);
    }
    while i < all.len()
        invariant
            i <= all@.len(),
            given == all.deep_view(),
            r.deep_view() == with_status(given.take(i as int), wanted@),
        decreases all@.len() - i,
    {
        let ghost before = r.deep_view();
        proof {
            assert(given.take(i + 1).drop_last() =~= given.take(i as int));
            assert(given.take(i + 1).last() == all@[i as int].deep_view());
        }
        if is_wanted(all[i].status, wanted) {
            r.push(all[i].clone());
            assert(r.deep_view() =~= before.push(given[i as int]));
        }
        i = i + 1;
    }
    assert(given.take(given.len() as int) =~= given);
    r
}

impl View for TaskRecord {
    type V = TaskModel;

    open spec fn view(&self) -> TaskModel {
        self.deep_view()
    }
}

// ---------------------------------------------------------------------------
// Laws

/// A task that was started is found again, is running, and leaves all others as
/// they were.
pub proof fn lemma_started_task_is_found(
    r: RegistryModel,
    id: Seq<char>,
    prompt: Seq<char>,
    now_ms: u128,
    other: Seq<char>,
)
    requires
        !r.knows(id),
    ensures
        ({
            let after = RegistryModel { tasks: r.tasks.push(started(id, prompt, now_ms)), ..r };
            after.task(other) == (if other == id {
                Some(started(id, prompt, now_ms))
            } else {
                r.task(other)
            })
        }),
{
    let after = r.tasks.push(started(id, prompt, now_ms));
    lemma_place_of(r.tasks, id);
    lemma_place_of(r.tasks, other);
    lemma_place_of(after, other);
    lemma_place_is_first(r.tasks, other);
    let at = place_of(after, other);
    if other == id {
        assert(after[r.tasks.len() as int].id == id);
        assert(at <= r.tasks.len());
        if at < r.tasks.len() {
            assert(after[at] == r.tasks[at]);
        }
    } else {
        if r.knows(other) {
            let p = place_of(r.tasks, other);
            assert(after[p] == r.tasks[p]);
            assert(at <= p);
            assert(after[at] == r.tasks[at]);
        } else if at < after.len() {
            if at < r.tasks.len() {
                assert(after[at] == r.tasks[at]);
            }
        }
    }
}

/// Where some task has the id, a place is found.
proof fn lemma_place_is_first(tasks: Seq<TaskModel>, id: Seq<char>)
    ensures
        forall|k: int|
            0 <= k < tasks.len() && (#[trigger] tasks[k]).id == id ==> place_of(tasks, id) <= k,
{
    lemma_place_of(tasks, id);
}

/// Changing a task changes what is found under its id and nothing else.
pub proof fn lemma_changed_task_is_found(
    r: RegistryModel,
    id: Seq<char>,
    task: TaskModel,
    other: Seq<char>,
)
    requires
        r.knows(id),
        task.id == id,
    ensures
        r.changed(id, task).task(other) == (if other == id {
            Some(task)
        } else {
            r.task(other)
        }),
{
    let after = r.changed(id, task).tasks;
    let p = place_of(r.tasks, id);
    lemma_place_of(r.tasks, id);
    lemma_place_of(r.tasks, other);
    lemma_place_of(after, other);
    assert forall|k: int| 0 <= k < after.len() implies (#[trigger] after[k]).id
        == r.tasks[k].id by {}
    let q = place_of(r.tasks, other);
    let at = place_of(after, other);
    if q < r.tasks.len() {
        assert(after[q].id == other);
        assert(at <= q);
        assert(r.tasks[at].id == other);
    } else if at < after.len() {
        assert(r.tasks[at].id == other);
    }
}

/// The list of all tasks holds each of them, and none before an earlier one.
pub proof fn lemma_tasks_are_in_order(tasks: Seq<TaskModel>, a: int, b: int)
    requires
        0 <= a < b < tasks.len(),
    ensures
        by_start(tasks).len() == tasks.len(),
        by_start(tasks)[a].created_at_unix_ms <= by_start(tasks)[b].created_at_unix_ms,
        by_start(tasks).contains(tasks[a]),
{
    let keys = tasks.map_values(|t: TaskModel| (t.created_at_unix_ms, 0u128));
    let places = order::ordered_by(keys);
    order::lemma_order_is_permutation(keys);
    order::lemma_order_is_sorted(keys);
    assert(0 <= places[a] < keys.len());
    assert(0 <= places[b] < keys.len());
    assert(by_start(tasks)[a] == tasks[places[a]]);
    assert(by_start(tasks)[b] == tasks[places[b]]);
    assert(!order::key_below(keys[places[b]], keys[places[a]]));
    assert(places.contains(a));
    let i = choose|i: int| 0 <= i < places.len() && places[i] == a;
    assert(by_start(tasks)[i] == tasks[a]);
}

/// The list of tasks holds exactly the tasks that there are.
pub proof fn lemma_all_tasks_are_listed(tasks: Seq<TaskModel>, t: TaskModel)
    ensures
        by_start(tasks).contains(t) <==> tasks.contains(t),
        by_start(tasks).len() == tasks.len(),
{
    let keys = tasks.map_values(|t: TaskModel| (t.created_at_unix_ms, 0u128));
    let places = order::ordered_by(keys);
    order::lemma_order_is_permutation(keys);
    let out = by_start(tasks);
    if out.contains(t) {
        let k = choose|k: int| 0 <= k < out.len() && out[k] == t;
        assert(0 <= places[k] < keys.len());
        assert(tasks[places[k]] == t);
    }
    if tasks.contains(t) {
        let j = choose|j: int| 0 <= j < tasks.len() && tasks[j] == t;
        assert(places.contains(j));
        let k = choose|k: int| 0 <= k < places.len() && places[k] == j;
        assert(out[k] == t);
    }
}

/// Asked for by their status, exactly the tasks with one of the statuses are
/// listed, all of them where no limit is set.
pub proof fn lemma_tasks_are_listed_by_status(
    tasks: Seq<TaskModel>,
    wanted: Seq<TaskStatus>,
    t: TaskModel,
)
    ensures
        listed_tasks(tasks, Some(wanted), None).contains(t) <==> tasks.contains(t)
            && wanted.contains(t.status),
        listed_tasks(tasks, None, None).contains(t) <==> tasks.contains(t),
{
    lemma_all_tasks_are_listed(tasks, t);
    lemma_kept_by_status(by_start(tasks), wanted, t);
}

proof fn lemma_kept_by_status(tasks: Seq<TaskModel>, wanted: Seq<TaskStatus>, t: TaskModel)
    ensures
        with_status(tasks, wanted).contains(t) <==> tasks.contains(t) && wanted.contains(t.status),
    decreases tasks.len(),
{
    if tasks.len() > 0 {
        let head = tasks.drop_last();
        lemma_kept_by_status(head, wanted, t);
        let before = with_status(head, wanted);
        let after = with_status(tasks, wanted);
        if before.contains(t) {
            let k = choose|k: int| 0 <= k < before.len() && before[k] == t;
            assert(after[k] == t);
        }
        if wanted.contains(tasks.last().status) {
            assert(after[after.len() - 1] == tasks.last());
        }
        if after.contains(t) {
            let k = choose|k: int| 0 <= k < after.len() && after[k] == t;
            if k < before.len() {
                assert(before[k] == t);
            }
        }
        if tasks.contains(t) {
            let k = choose|k: int| 0 <= k < tasks.len() && tasks[k] == t;
            if k < head.len() {
                assert(head[k] == t);
            }
        }
        if head.contains(t) {
            let k = choose|k: int| 0 <= k < head.len() && head[k] == t;
            assert(tasks[k] == t);
        }
        assert(tasks[tasks.len() - 1] == tasks.last());
    }
}

/// With a limit, no more tasks are listed, and those that are, are the first
/// ones.
pub proof fn lemma_listing_is_limited(
    tasks: Seq<TaskModel>,
    wanted: Option<Seq<TaskStatus>>,
    n: usize,
    i: int,
)
    ensures
        ({
            let all = listed_tasks(tasks, wanted, None);
            let some = listed_tasks(tasks, wanted, Some(n));
            &&& some.len() <= n
            &&& all.len() <= n ==> some == all
            &&& all.len() > n ==> some.len() == n
            &&& 0 <= i < some.len() ==> some[i] == all[i]
        }),
{
}

/// A task that is started runs, from the given time on, with what it is to do,
/// and nobody works on it yet.
pub proof fn lemma_started_task(id: Seq<char>, prompt: Seq<char>, now_ms: u128)
    ensures
        ({
            let t = started(id, prompt, now_ms);
            &&& t.id == id
            &&& t.prompt == prompt
            &&& t.status == TaskStatus::Running
            &&& t.assigned_teammate is None
            &&& t.result_preview is None
            &&& t.error is None
            &&& t.created_at_unix_ms == now_ms
            &&& t.updated_at_unix_ms == now_ms
        }),
{
}

/// A task gets the id that is wished for, without blanks around it, or one of the
/// program's own, which the next task does not get.
pub proof fn lemma_ids_of_tasks(next_id: u64, wish: Seq<char>)
    ensures
        id_for(next_id, Some(wish)) is Ok ==> id_for(next_id, Some(wish))->Ok_0 == text::trimmed(
            wish,
        ),
        id_for(next_id, None) == Ok::<Seq<char>, Seq<char>>(
            "task-"@ + text::decimal(next_id as nat),
        ),
        next_after(next_id, Some(wish)) == next_id,
        next_id < u64::MAX ==> next_after(next_id, None) == next_id + 1,
        next_id < u64::MAX ==> id_for(next_after(next_id, None), None) != id_for(next_id, None),
{
    if next_id < u64::MAX {
        let a = "task-"@ + text::decimal(next_id as nat);
        let b = "task-"@ + text::decimal((next_id + 1) as nat);
        if a == b {
            assert(a.skip("task-"@.len() as int) =~= text::decimal(next_id as nat));
            assert(b.skip("task-"@.len() as int) =~= text::decimal((next_id + 1) as nat));
            text::lemma_decimal_is_read_back(next_id as nat);
            text::lemma_decimal_is_read_back((next_id + 1) as nat);
        }
    }
}

/// Each status has its own key and its own name.
pub proof fn lemma_names_of_statuses()
    ensures
        TaskStatus::Running.key() == "running"@,
        TaskStatus::Completed.key() == "completed"@,
        TaskStatus::Failed.key() == "failed"@,
        TaskStatus::Running.name() == "Running"@,
        TaskStatus::Completed.name() == "Completed"@,
        TaskStatus::Failed.name() == "Failed"@,
        forall|s: TaskStatus| #[trigger] s.terminal() <==> s != TaskStatus::Running,
{
}

} // verus!
