//! The task operations of the daemon's core, on the stored task record with
//! its cached hash. Each operation runs in one store transaction: the
//! application reads the running task (the one whose `end` is `None`) and the
//! task an operation names, and these functions decide the writes.
use vstd::prelude::*;

use crate::common::utils::{generate_random_id, is_alphanumeric};
use crate::storage::task::{merged_content, same_content, Task, TaskBuilder, TaskUpdate};
use crate::text::{copy_opt_string, copy_string, copy_strings, str_eq, string_eq};
use crate::config::{
    default_profile_word, default_storage_location, or_default, profile_position, tilde_expansion, Config,
    ConfigError,
};

verus! {

/// What a user gives to start a task, with the computer it runs on.
#[derive(Clone, Debug)]
pub struct StartTaskInput {
    pub task_name: String,
    pub project: Option<String>,
    pub tags: Vec<String>,
    pub computer_name: String,
}

/// A reference to a task: the running one, or one by id.
#[derive(Clone, Debug)]
pub enum TaskRef {
    Current,
    Id(String),
}

/// A write to the task table, also reported to listeners.
#[derive(Clone, Debug)]
pub enum TaskAction {
    Upsert(Task),
    Delete(String),
}

/// The word that names the running task.
pub open spec fn current_word() -> Seq<char> {
    seq!['c', 'u', 'r', 'r', 'e', 'n', 't']
}

impl TaskRef {
    /// Reads a task reference: `"current"` names the running task, any other
    /// text is a task id. Reading never fails.
    pub fn from_str(s: &str) -> (r: Result<TaskRef, String>)
        ensures
            s@ == current_word() ==> r matches Ok(TaskRef::Current),
            s@ != current_word() ==> (r matches Ok(TaskRef::Id(id)) && id@ == s@),
    {
        proof {
            reveal_strlit("current");
            assert("current"@ =~= current_word());
        }
        if str_eq(s, "current") {
            Ok(TaskRef::Current)
        } else {
            Ok(TaskRef::Id(s.to_owned()))
        }
    }
}

/// Why an edit failed.
#[derive(Clone, Debug)]
pub enum CoreError {
    /// The edit named the running task and none runs.
    NoCurrentTask,
    /// No task has the id the edit named.
    TaskNotFound(String),
}

impl CoreError {
    /// The error's message.
    pub fn message(&self) -> (r: String)
        ensures
            r@ == match *self {
                CoreError::NoCurrentTask => "No current task to edit"@,
                CoreError::TaskNotFound(id) => "Task with ID '"@ + id@ + "' not found"@,
            },
    {
        match self {
            CoreError::NoCurrentTask => String::from_str("No current task to edit"),
            CoreError::TaskNotFound(id) => {
                let mut m = String::from_str("Task with ID '");
                m.append(id.as_str());
                m.append("' not found");
                m
            },
        }
    }
}

/// The daemon's core, for one computer.
#[derive(Clone, Debug)]
pub struct Core {
    pub name: String,
}

/// `a` is `b` stopped at `end`.
pub open spec fn stopped_at(a: Task, b: Task, end: u64) -> bool {
    &&& a.id@ == b.id@
    &&& a.task_name@ == b.task_name@
    &&& a.project == b.project
    &&& a.tags@ == b.tags@
    &&& a.start == b.start
    &&& a.computer_name@ == b.computer_name@
    &&& a.end == Some(end)
}

/// A copy of `t` that ends at `end`, with its hash recomputed.
fn stop_at(t: &Task, end: u64) -> (r: Task)
    ensures
        stopped_at(r, *t, end),
{
    let mut r = Task {
        id: copy_string(&t.id),
        task_name: copy_string(&t.task_name),
        project: copy_opt_string(&t.project),
        tags: copy_strings(&t.tags),
        start: t.start,
        computer_name: copy_string(&t.computer_name),
        end: Some(end),
        __hash: 0,
    };
    r.compute_new_hash();
    r
}

/// A copy of a stored task, hash included.
fn copy_stored(t: &Task) -> (r: Task)
    ensures
        r.id == t.id,
        r.task_name == t.task_name,
        r.project == t.project,
        r.tags@ == t.tags@,
        r.start == t.start,
        r.computer_name == t.computer_name,
        r.end == t.end,
        r.__hash == t.__hash,
{
    Task {
        id: copy_string(&t.id),
        task_name: copy_string(&t.task_name),
        project: copy_opt_string(&t.project),
        tags: copy_strings(&t.tags),
        start: t.start,
        computer_name: copy_string(&t.computer_name),
        end: t.end,
        __hash: t.__hash,
    }
}

/// The database file inside a storage directory: `storage.db` joined to it
/// as a path joins a relative name.
pub open spec fn storage_db_path(dir: Seq<char>) -> Seq<char> {
    let name = seq!['s', 't', 'o', 'r', 'a', 'g', 'e', '.', 'd', 'b'];
    if dir.len() == 0 || dir.last() == '/' {
        dir + name
    } else {
        dir.push('/') + name
    }
}

impl Core {
    /// The core of this computer for the configuration's current profile,
    /// with the path of the profile's database: `storage.db` in its storage
    /// location; `ProfileNotFound` when the profile is missing.
    pub fn try_new(config: &Config) -> (r: Result<(Core, String), ConfigError>)
        ensures
            ({
                let name = or_default(config.0.core.default_profile_name, default_profile_word());
                &&& r is Ok <==> exists|i: int| profile_position(config.0.profile@, name, i)
                &&& r matches Ok((core, path)) ==> {
                    &&& core.name@ == config.0.core.computer_name@
                    &&& exists|i: int, loc: Seq<char>|
                        #![trigger profile_position(config.0.profile@, name, i), storage_db_path(loc)]
                        profile_position(config.0.profile@, name, i) && tilde_expansion(
                            or_default(config.0.profile@[i].1.storage_location, default_storage_location()),
                            loc,
                        ) && path@ == storage_db_path(loc)
                }
            }),
    {
        let profile = match config.get_current_profile() {
            Ok(p) => p,
            Err(e) => return Err(e),
        };
        let location = profile.get_storage_location();
        let ghost loc = location@;
        let n = location.as_str().unicode_len();
        let mut path = location;
        if n > 0 && path.as_str().get_char(n - 1) != '/' {
            path.append("/");
        }
        proof {
            reveal_strlit("/");
            reveal_strlit("storage.db");
        }
        path.append("storage.db");
        proof {
            assert(path@ =~= storage_db_path(loc));
        }
        Ok((Core { name: copy_string(&config.0.core.computer_name) }, path))
    }

    /// Starts a task at `now`, given the running task `current`: the running
    /// task, if any, is stopped at `now` and written first; then the new task
    /// is written, with a fresh random id of seven letters and digits,
    /// starting at `now` and running.
    pub fn start_new_task(&self, input: StartTaskInput, now: u64, current: Option<Task>) -> (r: Vec<TaskAction>)
        ensures
            r@.len() == (if current is Some { 2int } else { 1int }),
            current matches Some(c) ==> (r@[0] matches TaskAction::Upsert(s) && stopped_at(s, c, now)),
            current is Some ==> (r@[0] matches TaskAction::Upsert(s) && r@.last() matches TaskAction::Upsert(
                t,
            ) && s.id@ == current.unwrap().id@ && s.start == current.unwrap().start && s.end == Some(t.start)),
            r@.last() matches TaskAction::Upsert(t) && {
                &&& t.id@.len() == 7
                &&& forall|i: int| 0 <= i < 7 ==> is_alphanumeric(#[trigger] t.id@[i])
                &&& t.task_name@ == input.task_name@
                &&& t.project == input.project
                &&& t.tags@ == input.tags@
                &&& t.start == now
                &&& t.computer_name@ == input.computer_name@
                &&& t.end is None
            },
    {
        let mut actions: Vec<TaskAction> = Vec::new();
        if let Some(c) = &current {
            actions.push(TaskAction::Upsert(stop_at(c, now)));
        }
        let task_id = generate_random_id(7);
        let builder = TaskBuilder::new()
            .id(task_id)
            .task_name(input.task_name)
            .project(input.project)
            .computer_name(input.computer_name)
            .tags(input.tags)
            .start(now)
            .end(None);
        let new_task = match builder.try_build() {
            Ok(t) => t,
            Err(_) => {
                proof {
                    assert(false);
                }
                return actions;
            },
        };
        actions.push(TaskAction::Upsert(new_task));
        actions
    }

    /// Stops the running task `current`, if any, at `now`.
    pub fn stop_current_task(&self, now: u64, current: Option<Task>) -> (r: Vec<TaskAction>)
        ensures
            current is None ==> r@.len() == 0,
            current matches Some(c) ==> (r@.len() == 1 && (r@[0] matches TaskAction::Upsert(s)
                && stopped_at(s, c, now))),
    {
        let mut actions: Vec<TaskAction> = Vec::new();
        if let Some(c) = &current {
            actions.push(TaskAction::Upsert(stop_at(c, now)));
        }
        actions
    }

    /// Deletes the running task `current`, if any.
    pub fn cancel_current_task(&self, current: Option<Task>) -> (r: Vec<TaskAction>)
        ensures
            current is None ==> r@.len() == 0,
            current matches Some(c) ==> (r@.len() == 1 && (r@[0] matches TaskAction::Delete(id) && id
                == c.id)),
    {
        let mut actions: Vec<TaskAction> = Vec::new();
        if let Some(c) = current {
            actions.push(TaskAction::Delete(c.id));
        }
        actions
    }

    /// Deletes the task `task_id`, which the store holds as `found`; nothing
    /// when it holds none.
    pub fn delete_task(&self, task_id: String, found: Option<Task>) -> (r: Vec<TaskAction>)
        ensures
            found is None ==> r@.len() == 0,
            found is Some ==> (r@.len() == 1 && (r@[0] matches TaskAction::Delete(id) && id == task_id)),
    {
        let mut actions: Vec<TaskAction> = Vec::new();
        if found.is_some() {
            actions.push(TaskAction::Delete(task_id));
        }
        actions
    }

    /// The id of the task an edit names: the running task's, or the given id.
    pub fn resolve_task_ref(&self, task_ref: TaskRef, current: &Option<Task>) -> (r: Result<String, CoreError>)
        ensures
            task_ref matches TaskRef::Id(id) ==> r == Ok::<String, CoreError>(id),
            task_ref is Current && current is None ==> r matches Err(CoreError::NoCurrentTask),
            task_ref is Current && current is Some ==> r == Ok::<String, CoreError>(current.unwrap().id),
    {
        match task_ref {
            TaskRef::Current => match current {
                Some(c) => Ok(copy_string(&c.id)),
                None => Err(CoreError::NoCurrentTask),
            },
            TaskRef::Id(id) => Ok(id),
        }
    }

    /// Edits the task `task_id`, which the store holds as `stored`, with
    /// `update`, given the running task `current` and the time `now`. The
    /// edited task, its hash recomputed, is written last. When the edit turns
    /// a stopped task into a running one, the task that ran until then, if it
    /// is another task, is stopped at `now` and written first.
    pub fn edit_task(
        &self,
        task_id: String,
        stored: Option<Task>,
        update: TaskUpdate,
        current: Option<Task>,
        now: u64,
    ) -> (r: Result<Vec<TaskAction>, CoreError>)
        ensures
            stored is None ==> (r matches Err(CoreError::TaskNotFound(id)) && id == task_id),
            stored matches Some(o) ==> (r matches Ok(actions) && {
                let resumes = (match update.end { Some(e) => e, None => o.end }) is None && o.end is Some;
                let new_id = match update.id { Some(v) => v@, None => o.id@ };
                let stops_other = resumes && (current matches Some(c) && c.id@ != new_id);
                &&& actions@.len() == (if stops_other { 2int } else { 1int })
                &&& stops_other ==> (actions@[0] matches TaskAction::Upsert(s) && stopped_at(s, current.unwrap(), now))
                &&& actions@.last() matches TaskAction::Upsert(e) && merged_content(update, o, e)
            }),
    {
        let stored_task = match stored {
            Some(o) => o,
            None => return Err(CoreError::TaskNotFound(task_id)),
        };
        let ghost upd = update;
        let new_task = update.merge_with_task(&stored_task);
        let was_running = stored_task.end.is_none();
        let is_now_running = new_task.end.is_none();
        let mut actions: Vec<TaskAction> = Vec::new();
        if is_now_running && !was_running {
            if let Some(other) = &current {
                if !string_eq(&other.id, &new_task.id) {
                    actions.push(TaskAction::Upsert(stop_at(other, now)));
                }
            }
        }
        let written = copy_stored(&new_task);
        proof {
            assert(merged_content(upd, stored_task, written));
        }
        actions.push(TaskAction::Upsert(written));
        Ok(actions)
    }

    /// The `count` tasks that started last, newest first, from the tasks
    /// listed by increasing start.
    pub fn list_last_tasks(&self, by_start: Vec<Task>, count: u64) -> (r: Vec<Task>)
        ensures
            r@.len() == (if count < by_start@.len() { count as int } else { by_start@.len() as int }),
            forall|i: int| 0 <= i < r@.len() ==> same_content(#[trigger] r@[i], by_start@[by_start@.len() - 1 - i])
                && r@[i].__hash == by_start@[by_start@.len() - 1 - i].__hash,
    {
        let mut r: Vec<Task> = Vec::new();
        let n = by_start.len();
        while (r.len() as u64) < count && r.len() < n
            invariant
                n == by_start@.len(),
                r@.len() <= n,
                r@.len() <= count,
                forall|i: int| 0 <= i < r@.len() ==> same_content(#[trigger] r@[i], by_start@[n - 1 - i])
                    && r@[i].__hash == by_start@[n - 1 - i].__hash,
            decreases n - r@.len(),
        {
            let k = r.len();
            let t = copy_stored(&by_start[n - 1 - k]);
            r.push(t);
        }
        r
    }

    /// Of the tasks listed by increasing start, those that start at or after
    /// `start_timestamp` and before `end_timestamp`, in the same order.
    pub fn list_task_range(&self, by_start: Vec<Task>, start_timestamp: u64, end_timestamp: u64) -> (r: Vec<Task>)
        ensures
            forall|i: int| 0 <= i < r@.len() ==> start_timestamp <= (#[trigger] r@[i]).start < end_timestamp,
            r@.len() == by_start@.filter(|t: Task| start_timestamp <= t.start < end_timestamp).len(),
            forall|i: int| 0 <= i < r@.len() ==> same_content(#[trigger] r@[i], by_start@.filter(
                |t: Task| start_timestamp <= t.start < end_timestamp,
            )[i]),
    {
        let ghost pred = |t: Task| start_timestamp <= t.start < end_timestamp;
        let mut r: Vec<Task> = Vec::new();
        let mut i: usize = 0;
        while i < by_start.len()
            invariant
                i <= by_start@.len(),
                pred == (|t: Task| start_timestamp <= t.start < end_timestamp),
                r@.len() == by_start@.take(i as int).filter(pred).len(),
                forall|k: int| 0 <= k < r@.len() ==> same_content(#[trigger] r@[k], by_start@.take(i as int).filter(pred)[k]),
                forall|k: int| 0 <= k < r@.len() ==> start_timestamp <= (#[trigger] r@[k]).start < end_timestamp,
            decreases by_start@.len() - i,
        {
            proof {
                reveal(Seq::filter);
                assert(by_start@.take(i + 1int).drop_last() =~= by_start@.take(i as int));
            }
            if start_timestamp <= by_start[i].start && by_start[i].start < end_timestamp {
                r.push(copy_stored(&by_start[i]));
            }
            i = i + 1;
        }
        proof {
            assert(by_start@.take(by_start@.len() as int) =~= by_start@);
        }
        r
    }
}

/// The table `m` (tasks by id) after the writes `a`, in order.
pub open spec fn apply_core_actions(m: Map<Seq<char>, Task>, a: Seq<TaskAction>) -> Map<Seq<char>, Task>
    decreases a.len(),
{
    if a.len() == 0 {
        m
    } else {
        let m0 = apply_core_actions(m, a.drop_last());
        match a.last() {
            TaskAction::Upsert(t) => m0.insert(t.id@, t),
            TaskAction::Delete(id) => m0.remove(id@),
        }
    }
}

/// Every task of the table is stored under its own id.
pub open spec fn core_keyed(m: Map<Seq<char>, Task>) -> bool {
    forall|k: Seq<char>| #[trigger] m.dom().contains(k) ==> m[k].id@ == k
}

/// No two tasks of the table run.
pub open spec fn core_one_running(m: Map<Seq<char>, Task>) -> bool {
    forall|a: Seq<char>, b: Seq<char>|
        #![trigger m[a], m[b]]
        m.dom().contains(a) && m.dom().contains(b) && m[a].end is None && m[b].end is None ==> a
            == b
}

/// `current` is what the table reports as its running task.
pub open spec fn core_current(m: Map<Seq<char>, Task>, current: Option<Task>) -> bool {
    match current {
        Some(t) => m.dom().contains(t.id@) && t.end is None && m[t.id@].end is None,
        None => forall|k: Seq<char>| #[trigger] m.dom().contains(k) ==> m[k].end is Some,
    }
}

/// Starting a task through the core leaves exactly the new task running:
/// the running task is stopped first, so a table with at most one running
/// task keeps at most one, and the new task is it.
pub proof fn law_core_start_keeps_one_running(
    m: Map<Seq<char>, Task>,
    current: Option<Task>,
    now: u64,
    actions: Seq<TaskAction>,
)
    requires
        core_keyed(m),
        core_one_running(m),
        core_current(m, current),
        actions.len() == (if current is Some { 2int } else { 1int }),
        current matches Some(c) ==> (actions[0] matches TaskAction::Upsert(s) && stopped_at(s, c, now)),
        actions.last() matches TaskAction::Upsert(t) && t.end is None && !m.dom().contains(t.id@),
    ensures
        core_keyed(apply_core_actions(m, actions)),
        core_one_running(apply_core_actions(m, actions)),
        ({
            let t = actions.last()->Upsert_0;
            &&& apply_core_actions(m, actions).dom().contains(t.id@)
            &&& apply_core_actions(m, actions)[t.id@].end is None
        }),
{
    let t = actions.last()->Upsert_0;
    let r = apply_core_actions(m, actions);
    if current is Some {
        reveal_with_fuel(apply_core_actions, 3);
        assert(actions.drop_last() =~= seq![actions[0]]);
        assert(seq![actions[0]].drop_last() =~= Seq::<TaskAction>::empty());
        let c = current.unwrap();
        let s = actions[0]->Upsert_0;
        let m1 = m.insert(s.id@, s);
        assert(apply_core_actions(m, seq![actions[0]]) == m1);
        assert(r == m1.insert(t.id@, t));
        assert forall|a: Seq<char>, b: Seq<char>|
            #![trigger r[a], r[b]]
            r.dom().contains(a) && r.dom().contains(b) && r[a].end is None && r[b].end is None implies a
                == b by {
            if a != t.id@ {
                assert(a != c.id@);
                assert(m.dom().contains(a) && m[a].end is None);
                assert(m.dom().contains(c.id@) && m[c.id@].end is None);
            }
            if b != t.id@ {
                assert(b != c.id@);
                assert(m.dom().contains(b) && m[b].end is None);
            }
        }
    } else {
        reveal_with_fuel(apply_core_actions, 2);
        assert(actions.drop_last() =~= Seq::<TaskAction>::empty());
        assert(r == m.insert(t.id@, t));
        assert forall|a: Seq<char>, b: Seq<char>|
            #![trigger r[a], r[b]]
            r.dom().contains(a) && r.dom().contains(b) && r[a].end is None && r[b].end is None implies a
                == b by {
            if a != t.id@ {
                assert(m.dom().contains(a));
            }
            if b != t.id@ {
                assert(m.dom().contains(b));
            }
        }
    }
}

} // verus!
