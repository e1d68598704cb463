//! The decisions of the task repository.
//!
//! Every change to the task table happens in one store transaction: the
//! application reads the running task (the one task whose `end` is `None`) and,
//! where needed, the task an operation names; the functions here decide what
//! the operation returns and which writes (`TaskAction`s) the transaction makes.
use vstd::prelude::*;

use crate::common::utils::{generate_random_id, is_alphanumeric};
use crate::entities::task::{merged, same_task, Task, TaskUpdate};
use crate::text::{copy_opt_string, copy_string, copy_strings, str_starts_with};

verus! {

/// An explicit start, and optional end, for a new task.
#[derive(Clone, Copy, Debug)]
pub struct StartTaskAt {
    pub start: u64,
    pub end: Option<u64>,
}

/// What a user gives to start a task.
#[derive(Clone, Debug)]
pub struct StartTaskInput {
    pub task_name: String,
    pub project: Option<String>,
    pub tags: Vec<String>,
    pub at: Option<StartTaskAt>,
}

/// A reference to a task: the running one, or one by id.
#[derive(Clone, Debug)]
pub enum TaskRef {
    Current,
    Id(String),
}

/// A write to the task table, also reported to listeners.
#[derive(Clone, Debug)]
pub enum TaskAction {
    Upsert(Task),
    Delete(String),
}

/// Why an edit failed.
#[derive(Clone, Debug)]
pub enum TaskRepositoryError {
    /// The edit named the running task and none runs.
    NoCurrentTask,
    /// No task has the id the edit named.
    TaskNotFound(String),
}

impl TaskRepositoryError {
    /// The error's message.
    pub fn message(&self) -> (r: String)
        ensures
            r@ == match *self {
                TaskRepositoryError::NoCurrentTask => "No current task to edit"@,
                TaskRepositoryError::TaskNotFound(id) => "Task with ID '"@ + id@ + "' not found"@,
            },
    {
        match self {
            TaskRepositoryError::NoCurrentTask => String::from_str("No current task to edit"),
            TaskRepositoryError::TaskNotFound(id) => {
                let mut m = String::from_str("Task with ID '");
                m.append(id.as_str());
                m.append("' not found");
                m
            },
        }
    }
}

/// The task repository of one computer.
#[derive(Clone, Debug)]
pub struct TaskRepositoryInner {
    pub computer_name: String,
}

/// The word that names the running task.
pub open spec fn current_word() -> Seq<char> {
    seq!['c', 'u', 'r', 'r', 'e', 'n', 't']
}

/// What a textual task reference names.
pub open spec fn spec_task_ref(value: Seq<char>) -> TaskRef {
    if value == current_word() {
        TaskRef::Current
    } else {
        TaskRef::Id(arbitrary())
    }
}

impl TaskRef {
    /// `"current"` names the running task; any other text is a task id.
    pub fn from(value: &str) -> (r: TaskRef)
        ensures
            value@ == current_word() ==> r is Current,
            value@ != current_word() ==> (r matches TaskRef::Id(id) && id@ == value@),
    {
        let n = value.unicode_len();
        let word = "current";
        proof {
            reveal_strlit("current");
        }
        let mut same = n == 7;
        let mut i: usize = 0;
        while same && i < n
            invariant
                n == value@.len(),
                word@ == current_word(),
                same ==> n == 7,
                i <= n,
                same == (n == 7 && forall|j: int| 0 <= j < i ==> value@[j] == word@[j]),
            decreases n - i,
        {
            if value.get_char(i) != word.get_char(i) {
                same = false;
            }
            i = i + 1;
        }
        if same {
            assert(value@ =~= current_word());
            TaskRef::Current
        } else {
            TaskRef::Id(value.to_owned())
        }
    }
}

/// `a` is `b` with its end set to `end`.
pub open spec fn ended(a: Task, b: Task, end: u64) -> bool {
    &&& a.id == b.id
    &&& a.task_name == b.task_name
    &&& a.project == b.project
    &&& a.tags@ == b.tags@
    &&& a.start == b.start
    &&& a.computer_name == b.computer_name
    &&& a.end == Some(end)
}

/// The start and end of a task started with `input` at time `now`.
pub open spec fn start_bounds(input: StartTaskInput, now: u64) -> (u64, Option<u64>) {
    match input.at {
        Some(at) => (at.start, at.end),
        None => (now, None),
    }
}

/// Starting the task interrupts the running task `current`: the new task is
/// open and does not begin before the running one.
pub open spec fn start_stops_current(input: StartTaskInput, now: u64, current: Option<Task>) -> bool {
    let (start, end) = start_bounds(input, now);
    end is None && (current matches Some(c) && start >= c.start)
}

/// The outcome of starting a task: `task` is the new task and `actions` the
/// writes: the interrupted running task ended at the new start, when it is
/// interrupted, then the new task.
pub open spec fn planned_start(
    computer_name: String,
    input: StartTaskInput,
    now: u64,
    current: Option<Task>,
    task: Task,
    actions: Seq<TaskAction>,
) -> bool {
    let (start, end) = start_bounds(input, now);
    &&& task.id@.len() == 7
    &&& forall|i: int| 0 <= i < 7 ==> is_alphanumeric(#[trigger] task.id@[i])
    &&& task.task_name == input.task_name
    &&& task.project == input.project
    &&& task.tags@ == input.tags@
    &&& task.start == start
    &&& task.computer_name == computer_name
    &&& task.end == end
    &&& if start_stops_current(input, now, current) {
        &&& actions.len() == 2
        &&& actions[0] matches TaskAction::Upsert(s) && ended(s, current.unwrap(), start)
        &&& actions[1] matches TaskAction::Upsert(t) && same_task(t, task)
    } else {
        &&& actions.len() == 1
        &&& actions[0] matches TaskAction::Upsert(t) && same_task(t, task)
    }
}

/// A copy of a task.
pub fn copy_task(t: &Task) -> (r: Task)
    ensures
        same_task(r, *t),
{
    Task {
        id: copy_string(&t.id),
        task_name: copy_string(&t.task_name),
        project: copy_opt_string(&t.project),
        tags: copy_strings(&t.tags),
        start: t.start,
        computer_name: copy_string(&t.computer_name),
        end: t.end,
    }
}

/// A copy of `t` with its end set to `end`.
fn end_task(t: &Task, end: u64) -> (r: Task)
    ensures
        ended(r, *t, end),
{
    let mut r = copy_task(t);
    r.end = Some(end);
    r
}

impl TaskRepositoryInner {
    /// Starts a task from `input` at time `now`, given the running task
    /// `current`. The new task runs from `input.at`'s start to its end, or from
    /// `now` on when no time is given, and gets a fresh random id of seven
    /// letters and digits and this repository's computer name. An open task
    /// that does not begin before the running one ends the running one at its
    /// start; a closed task, or an open one inserted before the running one,
    /// leaves it alone.
    pub fn start_new_task(&self, input: StartTaskInput, now: u64, current: Option<Task>) -> (r: (
        Task,
        Vec<TaskAction>,
    ))
        ensures
            planned_start(self.computer_name, input, now, current, r.0, r.1@),
    {
        let ghost input0 = input;
        let (start_ts, end_ts) = match input.at {
            Some(at) => (at.start, at.end),
            None => (now, None),
        };
        let mut actions: Vec<TaskAction> = Vec::new();
        if end_ts.is_none() {
            if let Some(c) = &current {
                if start_ts >= c.start {
                    actions.push(TaskAction::Upsert(end_task(c, start_ts)));
                }
            }
        }
        let task = Task {
            id: generate_random_id(7),
            task_name: input.task_name,
            project: input.project,
            computer_name: copy_string(&self.computer_name),
            tags: input.tags,
            start: start_ts,
            end: end_ts,
        };
        actions.push(TaskAction::Upsert(copy_task(&task)));
        proof {
            assert(task.task_name == input0.task_name);
        }
        (task, actions)
    }

    /// Stops the running task `current` at time `now`: the stopped task is
    /// returned and written; with no running task nothing happens.
    pub fn stop_current_task(&self, now: u64, current: Option<Task>) -> (r: (
        Option<Task>,
        Vec<TaskAction>,
    ))
        ensures
            current is None ==> r.0 is None && r.1@.len() == 0,
            current matches Some(c) ==> {
                &&& r.0 matches Some(s) && ended(s, c, now)
                &&& r.1@.len() == 1
                &&& r.1@[0] matches TaskAction::Upsert(s) && ended(s, c, now)
            },
    {
        match &current {
            Some(c) => {
                let stopped = end_task(c, now);
                let mut actions: Vec<TaskAction> = Vec::new();
                actions.push(TaskAction::Upsert(copy_task(&stopped)));
                (Some(stopped), actions)
            },
            None => (None, Vec::new()),
        }
    }

    /// Cancels the running task `current`: it is deleted and returned; with no
    /// running task nothing happens.
    pub fn cancel_current_task(&self, current: Option<Task>) -> (r: (Option<Task>, Vec<TaskAction>))
        ensures
            current is None ==> r.0 is None && r.1@.len() == 0,
            current matches Some(c) ==> {
                &&& r.0 == Some(c)
                &&& r.1@.len() == 1
                &&& r.1@[0] matches TaskAction::Delete(id) && id@ == c.id@
            },
    {
        match current {
            Some(c) => {
                let mut actions: Vec<TaskAction> = Vec::new();
                actions.push(TaskAction::Delete(copy_string(&c.id)));
                (Some(c), actions)
            },
            None => (None, Vec::new()),
        }
    }

    /// Deletes the task `task_id`, which the store holds as `found`: it is
    /// deleted and returned; when there is no such task nothing happens.
    pub fn delete_task(&self, task_id: String, found: Option<Task>) -> (r: (
        Option<Task>,
        Vec<TaskAction>,
    ))
        ensures
            found is None ==> r.0 is None && r.1@.len() == 0,
            found matches Some(t) ==> {
                &&& r.0 == Some(t)
                &&& r.1@.len() == 1
                &&& r.1@[0] matches TaskAction::Delete(id) && id == task_id
            },
    {
        match found {
            Some(t) => {
                let mut actions: Vec<TaskAction> = Vec::new();
                actions.push(TaskAction::Delete(task_id));
                (Some(t), actions)
            },
            None => (None, Vec::new()),
        }
    }

    /// The id of the task an edit names: the running task's, or the given id.
    pub fn resolve_task_ref(&self, task_ref: TaskRef, current: &Option<Task>) -> (r: Result<
        String,
        TaskRepositoryError,
    >)
        ensures
            task_ref matches TaskRef::Id(id) ==> r == Ok::<String, TaskRepositoryError>(id),
            task_ref is Current && current is None ==> r matches Err(
                TaskRepositoryError::NoCurrentTask,
            ),
            task_ref is Current && current is Some ==> r == Ok::<String, TaskRepositoryError>(
                current.unwrap().id,
            ),
    {
        match task_ref {
            TaskRef::Current => match current {
                Some(c) => Ok(copy_string(&c.id)),
                None => Err(TaskRepositoryError::NoCurrentTask),
            },
            TaskRef::Id(id) => Ok(id),
        }
    }

    /// Edits the task `task_id`, which the store holds as `stored`, with
    /// `update`, given the running task `current` and the time `now`. The
    /// edited task is written and returned. When the edit turns a stopped task
    /// into a running one, the task that ran until then, if it is another task,
    /// is stopped at `now` and written first.
    pub fn edit_task(
        &self,
        task_id: String,
        stored: Option<Task>,
        update: TaskUpdate,
        current: Option<Task>,
        now: u64,
    ) -> (r: Result<(Task, Vec<TaskAction>), TaskRepositoryError>)
        ensures
            stored is None ==> (r matches Err(TaskRepositoryError::TaskNotFound(id)) && id
                == task_id),
            stored matches Some(o) ==> (r matches Ok((t, actions)) && {
                let n = merged(update, o);
                let resumes = n.end is None && o.end is Some;
                let stops_other = resumes && (current matches Some(c) && c.id@ != n.id@);
                &&& same_task(t, n)
                &&& if stops_other {
                    &&& actions@.len() == 2
                    &&& actions@[0] matches TaskAction::Upsert(s) && ended(s, current.unwrap(), now)
                    &&& actions@[1] matches TaskAction::Upsert(e) && same_task(e, n)
                } else {
                    &&& actions@.len() == 1
                    &&& actions@[0] matches TaskAction::Upsert(e) && same_task(e, n)
                }
            }),
    {
        let stored_task = match stored {
            Some(o) => o,
            None => return Err(TaskRepositoryError::TaskNotFound(task_id)),
        };
        let ghost upd = update;
        let new_task = update.merge_with_task(&stored_task);
        let was_running = stored_task.end.is_none();
        let is_now_running = new_task.end.is_none();
        let mut actions: Vec<TaskAction> = Vec::new();
        if is_now_running && !was_running {
            if let Some(other) = &current {
                if other.id != new_task.id {
                    actions.push(TaskAction::Upsert(end_task(other, now)));
                }
            }
        }
        actions.push(TaskAction::Upsert(copy_task(&new_task)));
        proof {
            assert(same_task(new_task, merged(upd, stored_task)));
        }
        Ok((new_task, actions))
    }
}

/// The tasks of a table listed by increasing start, newest first, after
/// skipping `offset` of them, and at most `count` of them.
pub open spec fn last_tasks(by_start: Seq<Task>, offset: int, count: int) -> Seq<Task> {
    let newest_first = by_start.reverse();
    let skipped = if offset < newest_first.len() { newest_first.skip(offset) } else { Seq::empty() };
    if count < skipped.len() { skipped.take(count) } else { skipped }
}

/// Two lists of tasks agree task by task.
pub open spec fn same_tasks(a: Seq<Task>, b: Seq<Task>) -> bool {
    &&& a.len() == b.len()
    &&& forall|i: int| 0 <= i < a.len() ==> same_task(#[trigger] a[i], b[i])
}

/// The tasks, among those listed by increasing start, that start in
/// `[lo, hi)`, in the same order.
pub open spec fn tasks_in_range(by_start: Seq<Task>, lo: u64, hi: u64) -> Seq<Task>
    decreases by_start.len(),
{
    if by_start.len() == 0 {
        Seq::empty()
    } else {
        let rest = tasks_in_range(by_start.drop_last(), lo, hi);
        let t = by_start.last();
        if lo <= t.start && t.start < hi {
            rest.push(t)
        } else {
            rest
        }
    }
}

/// The tasks whose id starts with `prefix`, in the same order.
pub open spec fn tasks_with_prefix(tasks: Seq<Task>, prefix: Seq<char>) -> Seq<Task>
    decreases tasks.len(),
{
    if tasks.len() == 0 {
        Seq::empty()
    } else {
        let rest = tasks_with_prefix(tasks.drop_last(), prefix);
        let t = tasks.last();
        if prefix.len() <= t.id@.len() && t.id@.take(prefix.len() as int) == prefix {
            rest.push(t)
        } else {
            rest
        }
    }
}


impl TaskRepositoryInner {
    /// Picks, from tasks listed by increasing start, the page that begins `offset`
    /// tasks after the newest one and holds at most `count` tasks, newest first.
    pub fn list_last_tasks(&self, by_start: Vec<Task>, offset: u64, count: u64) -> (r: Vec<Task>)
        ensures
            r@ == last_tasks(by_start@, offset as int, count as int),
    {
        let ghost expected = last_tasks(by_start@, offset as int, count as int);
        let mut r: Vec<Task> = Vec::new();
        let mut src = by_start;
        let ghost all = src@;
        let mut skipped: u64 = 0;
        let mut taken: u64 = 0;
        while src.len() > 0 && taken < count
            invariant
                src@ == all.take(src@.len() as int),
                src@.len() <= all.len(),
                skipped <= offset,
                skipped < offset ==> taken == 0,
                skipped == all.len() - src@.len() || (skipped == offset && offset <= all.len() - src@.len()),
                taken <= count,
                r@.len() == taken,
                skipped == offset ==> r@ == all.reverse().subrange(offset as int, offset + taken),
                skipped == offset ==> all.len() - src@.len() == offset + taken,
                skipped < offset ==> all.len() - src@.len() == skipped,
            decreases src@.len(),
        {
            let t = src.pop().unwrap();
            let ghost k = all.len() - src@.len() - 1;
            assert(t == all.reverse()[k]) by {
                assert(all.reverse()[k] == all[all.len() - 1 - k]);
            };
            proof {
                assert(src@ =~= all.take(src@.len() as int)) by {
                    assert(all.take(src@.len() + 1int).drop_last() =~= all.take(src@.len() as int));
                }
            }
            if skipped < offset {
                skipped = skipped + 1;
            } else {
                r.push(t);
                taken = taken + 1;
                proof {
                    assert(r@ =~= all.reverse().subrange(offset as int, offset + taken));
                }
            }
        }
        proof {
            let nf = all.reverse();
            if offset >= all.len() {
                assert(expected =~= Seq::<Task>::empty());
                if skipped == offset {
                    assert(r@.len() == 0);
                }
                assert(r@ =~= expected);
            } else if count == 0 {
                assert(r@ =~= expected);
            } else {
                assert(skipped == offset);
                assert(r@ =~= expected);
            }
        }
        r
    }

    /// Of the tasks listed by increasing start, those that start at or after
    /// `start_timestamp` and before `end_timestamp`, in the same order.
    pub fn list_task_range(&self, by_start: Vec<Task>, start_timestamp: u64, end_timestamp: u64) -> (r: Vec<Task>)
        ensures
            same_tasks(r@, tasks_in_range(by_start@, start_timestamp, end_timestamp)),
    {
        let mut r: Vec<Task> = Vec::new();
        let mut i: usize = 0;
        let ghost all = by_start@;
        while i < by_start.len()
            invariant
                by_start@ == all,
                i <= all.len(),
                same_tasks(r@, tasks_in_range(all.take(i as int), start_timestamp, end_timestamp)),
            decreases all.len() - i,
        {
            proof {
                assert(all.take(i + 1int).drop_last() =~= all.take(i as int));
            }
            if start_timestamp <= by_start[i].start && by_start[i].start < end_timestamp {
                r.push(copy_task(&by_start[i]));
            }
            i = i + 1;
        }
        proof {
            assert(all.take(all.len() as int) =~= all);
        }
        r
    }

    /// Of the tasks listed by id, those whose id starts with `task_id_prefix`,
    /// in the same order.
    pub fn match_prefix(&self, by_id: Vec<Task>, task_id_prefix: &str) -> (r: Vec<Task>)
        ensures
            same_tasks(r@, tasks_with_prefix(by_id@, task_id_prefix@)),
    {
        let mut r: Vec<Task> = Vec::new();
        let mut i: usize = 0;
        let ghost all = by_id@;
        while i < by_id.len()
            invariant
                by_id@ == all,
                i <= all.len(),
                same_tasks(r@, tasks_with_prefix(all.take(i as int), task_id_prefix@)),
            decreases all.len() - i,
        {
            proof {
                assert(all.take(i + 1int).drop_last() =~= all.take(i as int));
            }
            if str_starts_with(by_id[i].id.as_str(), task_id_prefix) {
                r.push(copy_task(&by_id[i]));
            }
            i = i + 1;
        }
        proof {
            assert(all.take(all.len() as int) =~= all);
        }
        r
    }
}

/// The tasks of a table keyed by id.
pub open spec fn keyed(m: Map<Seq<char>, Task>) -> bool {
    forall|k: Seq<char>| #[trigger] m.dom().contains(k) ==> m[k].id@ == k
}

/// At most one task of the table runs.
pub open spec fn at_most_one_running(m: Map<Seq<char>, Task>) -> bool {
    forall|a: Seq<char>, b: Seq<char>|
        #![trigger m.dom().contains(a), m.dom().contains(b)]
        m.dom().contains(a) && m.dom().contains(b) && m[a].end is None && m[b].end is None ==> a
            == b
}

/// `current` is what the table reports as its running task.
pub open spec fn is_current(m: Map<Seq<char>, Task>, current: Option<Task>) -> bool {
    match current {
        Some(t) => m.dom().contains(t.id@) && t.end is None && m[t.id@].end is None,
        None => forall|k: Seq<char>| #[trigger] m.dom().contains(k) ==> m[k].end is Some,
    }
}

/// The table `m` after the writes `a`, in order.
pub open spec fn apply_actions(m: Map<Seq<char>, Task>, a: Seq<TaskAction>) -> Map<Seq<char>, Task>
    decreases a.len(),
{
    if a.len() == 0 {
        m
    } else {
        let m0 = apply_actions(m, a.drop_last());
        match a.last() {
            TaskAction::Upsert(t) => m0.insert(t.id@, t),
            TaskAction::Delete(id) => m0.remove(id@),
        }
    }
}

proof fn lemma_apply_two(m: Map<Seq<char>, Task>, a: Seq<TaskAction>)
    requires
        a.len() == 2,
    ensures
        apply_actions(m, a) == apply_actions(apply_actions(m, seq![a[0]]), seq![a[1]]),
{
    reveal_with_fuel(apply_actions, 3);
    assert(a.drop_last() =~= seq![a[0]]);
    assert(seq![a[0]].drop_last() =~= Seq::<TaskAction>::empty());
    assert(seq![a[1]].drop_last() =~= Seq::<TaskAction>::empty());
}

proof fn lemma_apply_one(m: Map<Seq<char>, Task>, a: Seq<TaskAction>)
    requires
        a.len() == 1,
    ensures
        apply_actions(m, a) == (match a[0] {
            TaskAction::Upsert(t) => m.insert(t.id@, t),
            TaskAction::Delete(id) => m.remove(id@),
        }),
{
    reveal_with_fuel(apply_actions, 2);
    assert(a.drop_last() =~= Seq::<TaskAction>::empty());
}

/// Starting a task keeps at most one task running, when the table held at
/// most one, `current` is its running task, the new id is not taken, and the
/// start does not open a task before the running one.
pub proof fn law_start_keeps_one_running(
    m: Map<Seq<char>, Task>,
    computer_name: String,
    input: StartTaskInput,
    now: u64,
    current: Option<Task>,
    task: Task,
    actions: Seq<TaskAction>,
)
    requires
        keyed(m),
        at_most_one_running(m),
        is_current(m, current),
        planned_start(computer_name, input, now, current, task, actions),
        !m.dom().contains(task.id@),
        !(start_bounds(input, now).1 is None && current is Some && !start_stops_current(
            input,
            now,
            current,
        )),
    ensures
        keyed(apply_actions(m, actions)),
        at_most_one_running(apply_actions(m, actions)),
        apply_actions(m, actions).dom().contains(task.id@),
{
    let r = apply_actions(m, actions);
    if start_stops_current(input, now, current) {
        lemma_apply_two(m, actions);
        let c = current.unwrap();
        let s = actions[0]->Upsert_0;
        lemma_apply_one(m, seq![actions[0]]);
        lemma_apply_one(m.insert(s.id@, s), seq![actions[1]]);
        assert(at_most_one_running(r)) by {
            assert forall|a: Seq<char>, b: Seq<char>|
                r.dom().contains(a) && r.dom().contains(b) && r[a].end is None && r[b].end
                    is None implies a == b by {
                if a != task.id@ {
                    assert(m.dom().contains(a));
                    if a == c.id@ {
                    } else {
                        assert(m.dom().contains(c.id@));
                    }
                }
                if b != task.id@ {
                    assert(m.dom().contains(b));
                    if b == c.id@ {
                    } else {
                        assert(m.dom().contains(c.id@));
                    }
                }
            }
        }
    } else {
        lemma_apply_one(m, actions);
        assert(at_most_one_running(r)) by {
            assert forall|a: Seq<char>, b: Seq<char>|
                r.dom().contains(a) && r.dom().contains(b) && r[a].end is None && r[b].end
                    is None implies a == b by {
                if task.end is None {
                    assert(current is None);
                    if a != task.id@ {
                        assert(m.dom().contains(a));
                    }
                    if b != task.id@ {
                        assert(m.dom().contains(b));
                    }
                } else {
                    assert(m.dom().contains(a));
                    assert(m.dom().contains(b));
                }
            }
        }
    }
}

/// After stopping the running task no task runs, when `current` was the
/// table's running task.
pub proof fn law_stop_leaves_none_running(
    m: Map<Seq<char>, Task>,
    now: u64,
    current: Option<Task>,
    actions: Seq<TaskAction>,
)
    requires
        keyed(m),
        at_most_one_running(m),
        is_current(m, current),
        current is None ==> actions.len() == 0,
        current matches Some(c) ==> {
            &&& actions.len() == 1
            &&& actions[0] matches TaskAction::Upsert(s) && ended(s, c, now)
        },
    ensures
        is_current(apply_actions(m, actions), None),
        keyed(apply_actions(m, actions)),
{
    if current is Some {
        lemma_apply_one(m, actions);
        let c = current.unwrap();
        let r = apply_actions(m, actions);
        assert forall|k: Seq<char>| #[trigger] r.dom().contains(k) implies r[k].end is Some by {
            if k != c.id@ {
                assert(m.dom().contains(k));
                assert(m.dom().contains(c.id@));
            }
        }
    }
}

/// Cancelling the running task removes it and leaves no task running.
pub proof fn law_cancel_removes_running(
    m: Map<Seq<char>, Task>,
    current: Option<Task>,
    actions: Seq<TaskAction>,
)
    requires
        keyed(m),
        at_most_one_running(m),
        is_current(m, current),
        current is None ==> actions.len() == 0,
        current matches Some(c) ==> {
            &&& actions.len() == 1
            &&& actions[0] matches TaskAction::Delete(id) && id@ == c.id@
        },
    ensures
        is_current(apply_actions(m, actions), None),
        current matches Some(c) ==> !apply_actions(m, actions).dom().contains(c.id@),
{
    if current is Some {
        lemma_apply_one(m, actions);
        let c = current.unwrap();
        let r = apply_actions(m, actions);
        assert forall|k: Seq<char>| #[trigger] r.dom().contains(k) implies r[k].end is Some by {
            assert(m.dom().contains(k));
            assert(m.dom().contains(c.id@));
        }
    }
}

/// An edit that keeps the task's id keeps at most one task running, when
/// `current` is the table's running task.
pub proof fn law_edit_keeps_one_running(
    m: Map<Seq<char>, Task>,
    stored: Task,
    update: TaskUpdate,
    current: Option<Task>,
    now: u64,
    edited: Task,
    actions: Seq<TaskAction>,
)
    requires
        keyed(m),
        at_most_one_running(m),
        is_current(m, current),
        m.dom().contains(stored.id@),
        m[stored.id@] == stored,
        update.id is None,
        ({
            let n = merged(update, stored);
            let resumes = n.end is None && stored.end is Some;
            let stops_other = resumes && (current matches Some(c) && c.id@ != n.id@);
            &&& same_task(edited, n)
            &&& if stops_other {
                &&& actions.len() == 2
                &&& actions[0] matches TaskAction::Upsert(s) && ended(s, current.unwrap(), now)
                &&& actions[1] matches TaskAction::Upsert(e) && same_task(e, n)
            } else {
                &&& actions.len() == 1
                &&& actions[0] matches TaskAction::Upsert(e) && same_task(e, n)
            }
        }),
    ensures
        keyed(apply_actions(m, actions)),
        at_most_one_running(apply_actions(m, actions)),
{
    let n = merged(update, stored);
    let r = apply_actions(m, actions);
    assert(n.id == stored.id);
    if actions.len() == 2 {
        lemma_apply_two(m, actions);
        let c = current.unwrap();
        let s = actions[0]->Upsert_0;
        lemma_apply_one(m, seq![actions[0]]);
        lemma_apply_one(m.insert(s.id@, s), seq![actions[1]]);
        assert forall|a: Seq<char>, b: Seq<char>|
            r.dom().contains(a) && r.dom().contains(b) && r[a].end is None && r[b].end
                is None implies a == b by {
            if a != n.id@ {
                assert(m.dom().contains(a));
                assert(m.dom().contains(c.id@));
            }
            if b != n.id@ {
                assert(m.dom().contains(b));
                assert(m.dom().contains(c.id@));
            }
        }
    } else {
        lemma_apply_one(m, actions);
        assert forall|a: Seq<char>, b: Seq<char>|
            r.dom().contains(a) && r.dom().contains(b) && r[a].end is None && r[b].end
                is None implies a == b by {
            if n.end is None {
                if a != n.id@ {
                    assert(m.dom().contains(a));
                    if stored.end is None {
                        assert(m.dom().contains(stored.id@));
                    } else if current is Some {
                        assert(m.dom().contains(current.unwrap().id@));
                    }
                }
                if b != n.id@ {
                    assert(m.dom().contains(b));
                    if stored.end is None {
                        assert(m.dom().contains(stored.id@));
                    } else if current is Some {
                        assert(m.dom().contains(current.unwrap().id@));
                    }
                }
            } else {
                if a != n.id@ {
                    assert(m.dom().contains(a));
                }
                if b != n.id@ {
                    assert(m.dom().contains(b));
                }
            }
        }
    }
}

/// Starting an open task that does not begin before the running one stops
/// the running one exactly where the new one starts, so the two never
/// overlap: the first write is the running task, unchanged but for its end,
/// which is the new task's start, and the second is the new task. Any other
/// start writes the new task alone and leaves the running task as it is.
pub proof fn law_start_ends_running_task_at_new_start(
    computer_name: String,
    input: StartTaskInput,
    now: u64,
    current: Option<Task>,
    task: Task,
    actions: Seq<TaskAction>,
)
    requires
        planned_start(computer_name, input, now, current, task, actions),
    ensures
        task.start == (match input.at {
            Some(at) => at.start,
            None => now,
        }),
        current is Some && task.end is None && task.start >= current.unwrap().start ==> {
            &&& actions.len() == 2
            &&& actions[0] matches TaskAction::Upsert(s) && {
                &&& s.id == current.unwrap().id
                &&& s.start == current.unwrap().start
                &&& s.end == Some(task.start)
            }
            &&& actions[1] matches TaskAction::Upsert(t) && t.id == task.id && t.start == task.start
        },
        !(current is Some && task.end is None && task.start >= current.unwrap().start) ==> {
            &&& actions.len() == 1
            &&& actions[0] matches TaskAction::Upsert(t) && t.id == task.id
        },
{
}

/// A range listing holds exactly the tasks that start in the range, whatever
/// their end: every listed task is one of the given tasks and starts in
/// `[lo, hi)`, and every given task that starts there is listed.
pub proof fn law_range_lists_every_task_started_in_it(by_start: Seq<Task>, lo: u64, hi: u64)
    ensures
        forall|i: int|
            0 <= i < by_start.len() && lo <= by_start[i].start && by_start[i].start < hi
                ==> #[trigger] tasks_in_range(by_start, lo, hi).contains(by_start[i]),
        forall|t: Task|
            #[trigger] tasks_in_range(by_start, lo, hi).contains(t) ==> by_start.contains(t) && lo <= t.start
                && t.start < hi,
        (forall|i: int, j: int| 0 <= i < j < by_start.len() ==> by_start[i].start <= by_start[j].start) ==> (
        forall|a: int, b: int|
            0 <= a < b < tasks_in_range(by_start, lo, hi).len() ==> tasks_in_range(by_start, lo, hi)[a].start
                <= tasks_in_range(by_start, lo, hi)[b].start),
    decreases by_start.len(),
{
    if by_start.len() > 0 {
        let init = by_start.drop_last();
        law_range_lists_every_task_started_in_it(init, lo, hi);
        let rest = tasks_in_range(init, lo, hi);
        let r = tasks_in_range(by_start, lo, hi);
        if forall|i: int, j: int| 0 <= i < j < by_start.len() ==> by_start[i].start <= by_start[j].start {
            assert forall|i: int, j: int| 0 <= i < j < init.len() implies init[i].start <= init[j].start by {
                assert(init[i] == by_start[i] && init[j] == by_start[j]);
            }
            assert forall|a: int, b: int| 0 <= a < b < r.len() implies r[a].start <= r[b].start by {
                if b < rest.len() {
                    assert(r[a] == rest[a] && r[b] == rest[b]);
                } else {
                    assert(r[a] == rest[a]);
                    assert(rest.contains(rest[a]));
                    let j = choose|j: int| 0 <= j < init.len() && init[j] == rest[a];
                    assert(by_start[j] == init[j]);
                    assert(r[b] == by_start[by_start.len() - 1]);
                }
            }
        }
        assert forall|i: int|
            0 <= i < by_start.len() && lo <= by_start[i].start && by_start[i].start < hi implies #[trigger] r.contains(
            by_start[i],
        ) by {
            if i < by_start.len() - 1 {
                assert(init[i] == by_start[i]);
                assert(rest.contains(init[i]));
                let k = choose|k: int| 0 <= k < rest.len() && rest[k] == init[i];
                assert(r[k] == rest[k]);
            } else {
                assert(r[r.len() - 1] == by_start[i]);
            }
        }
        assert forall|t: Task| #[trigger] r.contains(t) implies by_start.contains(t) && lo <= t.start && t.start
            < hi by {
            let k = choose|k: int| 0 <= k < r.len() && r[k] == t;
            if k < rest.len() {
                assert(rest[k] == t);
                assert(rest.contains(t));
                let j = choose|j: int| 0 <= j < init.len() && init[j] == t;
                assert(by_start[j] == t);
            } else {
                assert(t == by_start.last());
                assert(by_start[by_start.len() - 1] == t);
            }
        }
    }
}

} // verus!
