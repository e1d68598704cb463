//! A stored task that carries its content hash, with its builder and its
//! partial-update type.
use vstd::prelude::*;

use crate::entities::task::task_content_hash;
use crate::text::{
    copy_opt_string, copy_string, copy_strings, opt_string_eq, opt_u64_eq, string_eq, strings_eq,
    strings_view, opt_string_view,
};

verus! {

pub type TaskId = String;

/// A unit of tracked work whose content hash is kept with it.
#[derive(Clone, Debug)]
pub struct Task {
    pub id: String,
    pub task_name: String,
    pub project: Option<String>,
    pub tags: Vec<String>,
    pub start: u64,
    pub computer_name: String,
    pub end: Option<u64>,
    pub __hash: u64,
}

/// Why a task could not be built or diffed.
#[derive(Clone, Copy, Debug, PartialEq, Eq, Structural)]
pub enum TaskError {
    IdNotSet,
    TaskNameNotSet,
    StartNotSet,
    DiffIdMismatch,
    IdRequired,
}

impl TaskError {
    /// The error's message.
    pub fn message(&self) -> (r: String)
        ensures
            r@ == match *self {
                TaskError::IdNotSet => "field id is not set"@,
                TaskError::TaskNameNotSet => "field task_name is not set"@,
                TaskError::StartNotSet => "field start is not set"@,
                TaskError::DiffIdMismatch => "diff between task with different id"@,
                TaskError::IdRequired => "task id is a required field"@,
            },
    {
        match self {
            TaskError::IdNotSet => String::from_str("field id is not set"),
            TaskError::TaskNameNotSet => String::from_str("field task_name is not set"),
            TaskError::StartNotSet => String::from_str("field start is not set"),
            TaskError::DiffIdMismatch => String::from_str("diff between task with different id"),
            TaskError::IdRequired => String::from_str("task id is a required field"),
        }
    }
}

/// Collects the fields of a task before it is built; `None` means "not set".
#[derive(Clone, Debug)]
pub struct TaskBuilder {
    pub id: Option<String>,
    pub task_name: Option<String>,
    pub project: Option<Option<String>>,
    pub tags: Option<Vec<String>>,
    pub start: Option<u64>,
    pub computer_name: Option<String>,
    pub end: Option<Option<u64>>,
}

/// A partial task: each field that is `Some` replaces the task's field on a merge.
#[derive(Clone, Debug)]
pub struct TaskUpdate {
    pub id: Option<String>,
    pub task_name: Option<String>,
    pub project: Option<Option<String>>,
    pub tags: Option<Vec<String>>,
    pub start: Option<u64>,
    pub computer_name: Option<String>,
    pub end: Option<Option<u64>>,
}

/// Two stored tasks agree on every field but the cached hash.
pub open spec fn same_content(a: Task, b: Task) -> bool {
    &&& a.id@ == b.id@
    &&& a.task_name@ == b.task_name@
    &&& opt_string_view(a.project) == opt_string_view(b.project)
    &&& strings_view(a.tags@) == strings_view(b.tags@)
    &&& a.start == b.start
    &&& a.computer_name@ == b.computer_name@
    &&& a.end == b.end
}

impl Task {
    /// The cached content hash.
    pub open spec fn hash_value(&self) -> u64 {
        self.__hash
    }

    /// Recomputes the cached hash from the task's content; the content is unchanged.
    pub fn compute_new_hash(&mut self)
        ensures
            final(self).id == old(self).id,
            final(self).task_name == old(self).task_name,
            final(self).project == old(self).project,
            final(self).tags == old(self).tags,
            final(self).start == old(self).start,
            final(self).computer_name == old(self).computer_name,
            final(self).end == old(self).end,
    {
        let h = task_content_hash(&self.id, &self.task_name, &self.project, &self.tags, self.start, self.end);
        self.__hash = h;
    }

    /// The cached content hash.
    pub fn get_hash(&self) -> (r: u64)
        ensures
            r == self.hash_value(),
    {
        self.__hash
    }
}

impl TaskBuilder {
    /// A builder with no field set.
    pub fn new() -> (r: TaskBuilder)
        ensures
            r.id is None,
            r.task_name is None,
            r.project is None,
            r.tags is None,
            r.start is None,
            r.computer_name is None,
            r.end is None,
    {
        TaskBuilder {
            id: None,
            task_name: None,
            project: None,
            tags: None,
            start: None,
            computer_name: None,
            end: None,
        }
    }

    pub fn id(self, value: String) -> (r: TaskBuilder)
        ensures
            r == (TaskBuilder { id: Some(value), ..self }),
    {
        TaskBuilder { id: Some(value), ..self }
    }

    pub fn task_name(self, value: String) -> (r: TaskBuilder)
        ensures
            r == (TaskBuilder { task_name: Some(value), ..self }),
    {
        TaskBuilder { task_name: Some(value), ..self }
    }

    pub fn project(self, value: Option<String>) -> (r: TaskBuilder)
        ensures
            r == (TaskBuilder { project: Some(value), ..self }),
    {
        TaskBuilder { project: Some(value), ..self }
    }

    pub fn tags(self, value: Vec<String>) -> (r: TaskBuilder)
        ensures
            r == (TaskBuilder { tags: Some(value), ..self }),
    {
        TaskBuilder { tags: Some(value), ..self }
    }

    pub fn start(self, value: u64) -> (r: TaskBuilder)
        ensures
            r == (TaskBuilder { start: Some(value), ..self }),
    {
        TaskBuilder { start: Some(value), ..self }
    }

    pub fn computer_name(self, value: String) -> (r: TaskBuilder)
        ensures
            r == (TaskBuilder { computer_name: Some(value), ..self }),
    {
        TaskBuilder { computer_name: Some(value), ..self }
    }

    pub fn end(self, value: Option<u64>) -> (r: TaskBuilder)
        ensures
            r == (TaskBuilder { end: Some(value), ..self }),
    {
        TaskBuilder { end: Some(value), ..self }
    }

    /// Builds the task: `id`, `task_name` and `start` must be set (checked in
    /// that order); the project and the end default to `None`, the tags to an
    /// empty list and the computer name to an empty string. The hash is computed.
    pub fn try_build(&self) -> (r: Result<Task, TaskError>)
        ensures
            self.id is None ==> r == Err::<Task, TaskError>(TaskError::IdNotSet),
            self.id is Some && self.task_name is None
                ==> r == Err::<Task, TaskError>(TaskError::TaskNameNotSet),
            self.id is Some && self.task_name is Some && self.start is None
                ==> r == Err::<Task, TaskError>(TaskError::StartNotSet),
            self.id is Some && self.task_name is Some && self.start is Some ==> (r matches Ok(t) && {
                &&& t.id@ == self.id.unwrap()@
                &&& t.task_name@ == self.task_name.unwrap()@
                &&& t.project == (match self.project { Some(p) => p, None => None })
                &&& t.tags@ == (match self.tags { Some(v) => v@, None => Seq::empty() })
                &&& t.start == self.start.unwrap()
                &&& t.computer_name@ == (match self.computer_name {
                    Some(c) => c@,
                    None => Seq::empty(),
                })
                &&& t.end == (match self.end { Some(e) => e, None => None })
            }),
    {
        let id = match &self.id {
            Some(v) => copy_string(v),
            None => return Err(TaskError::IdNotSet),
        };
        let task_name = match &self.task_name {
            Some(v) => copy_string(v),
            None => return Err(TaskError::TaskNameNotSet),
        };
        let start = match self.start {
            Some(v) => v,
            None => return Err(TaskError::StartNotSet),
        };
        let project = match &self.project {
            Some(p) => copy_opt_string(p),
            None => None,
        };
        let computer_name = match &self.computer_name {
            Some(c) => copy_string(c),
            None => String::new(),
        };
        let tags = match &self.tags {
            Some(v) => copy_strings(v),
            None => Vec::new(),
        };
        let end = match self.end {
            Some(e) => e,
            None => None,
        };
        let mut task = Task { id, task_name, project, tags, start, computer_name, end, __hash: 0 };
        task.compute_new_hash();
        Ok(task)
    }
}

/// The update that `from_task_diff(left, right)` yields when the ids agree:
/// the id is set to the shared id, and each of name, project, tags, start and
/// end is set to the right-hand value exactly where the two tasks differ.
pub open spec fn diff_fields(update: TaskUpdate, left: Task, right: Task) -> bool {
    &&& update.id matches Some(i) && i@ == left.id@
    &&& update.computer_name is None
    &&& if left.task_name@ == right.task_name@ {
        update.task_name is None
    } else {
        update.task_name matches Some(n) && n@ == right.task_name@
    }
    &&& if opt_string_view(left.project) == opt_string_view(right.project) {
        update.project is None
    } else {
        update.project matches Some(p) && p == right.project
    }
    &&& if strings_view(left.tags@) == strings_view(right.tags@) {
        update.tags is None
    } else {
        update.tags matches Some(t) && t@ == right.tags@
    }
    &&& if left.start == right.start {
        update.start is None
    } else {
        update.start == Some(right.start)
    }
    &&& if left.end == right.end {
        update.end is None
    } else {
        update.end == Some(right.end)
    }
}

/// What merging `update` into `task` yields, field by field (the hash aside).
pub open spec fn merged_content(update: TaskUpdate, task: Task, r: Task) -> bool {
    &&& r.id == (match update.id { Some(v) => v, None => task.id })
    &&& r.task_name == (match update.task_name { Some(v) => v, None => task.task_name })
    &&& r.project == (match update.project { Some(v) => v, None => task.project })
    &&& r.tags@ == (match update.tags { Some(v) => v@, None => task.tags@ })
    &&& r.start == (match update.start { Some(v) => v, None => task.start })
    &&& r.computer_name == (match update.computer_name {
        Some(v) => v,
        None => task.computer_name,
    })
    &&& r.end == (match update.end { Some(v) => v, None => task.end })
}

impl TaskUpdate {
    /// An update that sets nothing.
    pub fn new() -> (r: TaskUpdate)
        ensures
            r.id is None,
            r.task_name is None,
            r.project is None,
            r.tags is None,
            r.start is None,
            r.computer_name is None,
            r.end is None,
    {
        TaskUpdate {
            id: None,
            task_name: None,
            project: None,
            tags: None,
            start: None,
            computer_name: None,
            end: None,
        }
    }

    pub fn set_id(self, value: String) -> (r: TaskUpdate)
        ensures
            r == (TaskUpdate { id: Some(value), ..self }),
    {
        TaskUpdate { id: Some(value), ..self }
    }

    pub fn set_task_name(self, value: String) -> (r: TaskUpdate)
        ensures
            r == (TaskUpdate { task_name: Some(value), ..self }),
    {
        TaskUpdate { task_name: Some(value), ..self }
    }

    pub fn set_project(self, value: Option<String>) -> (r: TaskUpdate)
        ensures
            r == (TaskUpdate { project: Some(value), ..self }),
    {
        TaskUpdate { project: Some(value), ..self }
    }

    pub fn set_tags(self, value: Vec<String>) -> (r: TaskUpdate)
        ensures
            r == (TaskUpdate { tags: Some(value), ..self }),
    {
        TaskUpdate { tags: Some(value), ..self }
    }

    pub fn set_start(self, value: u64) -> (r: TaskUpdate)
        ensures
            r == (TaskUpdate { start: Some(value), ..self }),
    {
        TaskUpdate { start: Some(value), ..self }
    }

    pub fn set_computer_name(self, value: String) -> (r: TaskUpdate)
        ensures
            r == (TaskUpdate { computer_name: Some(value), ..self }),
    {
        TaskUpdate { computer_name: Some(value), ..self }
    }

    pub fn set_end(self, value: Option<u64>) -> (r: TaskUpdate)
        ensures
            r == (TaskUpdate { end: Some(value), ..self }),
    {
        TaskUpdate { end: Some(value), ..self }
    }

    pub fn set_opt_task_name(self, value: Option<String>) -> (r: TaskUpdate)
        ensures
            r == (TaskUpdate { task_name: value, ..self }),
    {
        TaskUpdate { task_name: value, ..self }
    }

    pub fn set_opt_project(self, value: Option<Option<String>>) -> (r: TaskUpdate)
        ensures
            r == (TaskUpdate { project: value, ..self }),
    {
        TaskUpdate { project: value, ..self }
    }

    pub fn set_opt_tags(self, value: Option<Vec<String>>) -> (r: TaskUpdate)
        ensures
            r == (TaskUpdate { tags: value, ..self }),
    {
        TaskUpdate { tags: value, ..self }
    }

    pub fn set_opt_start(self, value: Option<u64>) -> (r: TaskUpdate)
        ensures
            r == (TaskUpdate { start: value, ..self }),
    {
        TaskUpdate { start: value, ..self }
    }

    pub fn set_opt_end(self, value: Option<Option<u64>>) -> (r: TaskUpdate)
        ensures
            r == (TaskUpdate { end: value, ..self }),
    {
        TaskUpdate { end: value, ..self }
    }

    /// The update that turns `left` into `right`: it fails when the two ids
    /// differ; otherwise it carries the id and every field (name, project,
    /// tags, start, end) on which the tasks differ, with `right`'s value.
    pub fn from_task_diff(left: &Task, right: &Task) -> (r: Result<TaskUpdate, TaskError>)
        ensures
            left.id@ != right.id@ ==> r == Err::<TaskUpdate, TaskError>(TaskError::DiffIdMismatch),
            left.id@ == right.id@ ==> (r matches Ok(u) && diff_fields(u, *left, *right)),
    {
        if !string_eq(&left.id, &right.id) {
            return Err(TaskError::DiffIdMismatch);
        }
        let mut res = TaskUpdate::new().set_id(copy_string(&left.id));
        if !string_eq(&left.task_name, &right.task_name) {
            res = res.set_task_name(copy_string(&right.task_name));
        }
        if !opt_string_eq(&left.project, &right.project) {
            res = res.set_project(copy_opt_string(&right.project));
        }
        if !strings_eq(&left.tags, &right.tags) {
            res = res.set_tags(copy_strings(&right.tags));
        }
        if left.start != right.start {
            res = res.set_start(right.start);
        }
        if !opt_u64_eq(left.end, right.end) {
            res = res.set_end(right.end);
        }
        Ok(res)
    }

    /// Applies this update to `task` and recomputes the hash of the result.
    pub fn merge_with_task(self, task: &Task) -> (r: Task)
        ensures
            merged_content(self, *task, r),
    {
        let mut t = Task {
            id: match self.id { Some(v) => v, None => copy_string(&task.id) },
            task_name: match self.task_name { Some(v) => v, None => copy_string(&task.task_name) },
            project: match self.project { Some(v) => v, None => copy_opt_string(&task.project) },
            computer_name: match self.computer_name {
                Some(v) => v,
                None => copy_string(&task.computer_name),
            },
            tags: match self.tags { Some(v) => v, None => copy_strings(&task.tags) },
            start: match self.start { Some(v) => v, None => task.start },
            end: match self.end { Some(v) => v, None => task.end },
            __hash: 0,
        };
        t.compute_new_hash();
        t
    }

    /// The id this update carries, which callers require.
    pub fn get_id(&self) -> (r: Result<String, TaskError>)
        ensures
            self.id is None ==> r == Err::<String, TaskError>(TaskError::IdRequired),
            self.id matches Some(i) ==> (r matches Ok(v) && v == i),
    {
        match &self.id {
            Some(id) => Ok(copy_string(id)),
            None => Err(TaskError::IdRequired),
        }
    }
}

/// Merging the diff of two tasks with the same id into the left task gives
/// back the right task's content, except the computer name, which the diff
/// does not carry and which stays the left task's.
pub proof fn law_diff_then_merge(left: Task, right: Task, update: TaskUpdate, r: Task)
    requires
        left.id@ == right.id@,
        diff_fields(update, left, right),
        merged_content(update, left, r),
    ensures
        r.id@ == right.id@,
        r.task_name@ == right.task_name@,
        opt_string_view(r.project) == opt_string_view(right.project),
        strings_view(r.tags@) == strings_view(right.tags@),
        r.start == right.start,
        r.end == right.end,
        r.computer_name == left.computer_name,
{
}

} // verus!
