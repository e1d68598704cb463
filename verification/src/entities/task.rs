//! A tracked task, with a content hash computed on demand.
use std::hash::{DefaultHasher, Hash, Hasher};
use vstd::prelude::*;

use crate::text::{copy_opt_string, copy_string, copy_strings};

verus! {

pub type TaskId = String;

/// A unit of tracked work. A task whose `end` is `None` is running.
#[derive(Clone, Debug)]
pub struct Task {
    pub id: String,
    pub task_name: String,
    pub project: Option<String>,
    pub tags: Vec<String>,
    pub start: u64,
    pub computer_name: String,
    pub end: Option<u64>,
}

/// A partial task: each field that is `Some` replaces the task's field on a merge.
#[derive(Clone, Debug)]
pub struct TaskUpdate {
    pub id: Option<String>,
    pub task_name: Option<String>,
    pub project: Option<Option<String>>,
    pub tags: Option<Vec<String>>,
    pub start: Option<u64>,
    pub computer_name: Option<String>,
    pub end: Option<Option<u64>>,
}

/// The fields of a task that its hash covers, in hashing order.
pub type HashedFields<'a> = (&'a String, &'a String, &'a Option<String>, &'a Vec<String>, u64, Option<u64>);

/// Feeds the hashed fields of a task to a hasher through `Hash::hash`.
/// The bytes std writes for these values (length prefixes, native-endian
/// integers) depend on the platform, so nothing is stated of the new state.
#[verifier::external_body]
fn feed_hasher(fields: &HashedFields, state: &mut DefaultHasher) {
    fields.hash(state)
}

/// The hash of a task's identifying content: id, name, project, tags, start and end
/// (the computer name is left out), as std's `DefaultHasher` computes it.
pub(crate) fn task_content_hash(
    id: &String,
    task_name: &String,
    project: &Option<String>,
    tags: &Vec<String>,
    start: u64,
    end: Option<u64>,
) -> u64 {
    let mut hasher = DefaultHasher::new();
    let fields: HashedFields = (id, task_name, project, tags, start, end);
    feed_hasher(&fields, &mut hasher);
    hasher.finish()
}

impl Task {
    /// A digest of the id, name, project, tags, start and end.
    pub fn get_hash(&self) -> u64 {
        task_content_hash(&self.id, &self.task_name, &self.project, &self.tags, self.start, self.end)
    }
}

/// What merging `update` into `task` yields: each field of the update that is
/// set wins, every other field is the task's.
pub open spec fn merged(update: TaskUpdate, task: Task) -> Task {
    Task {
        id: match update.id { Some(v) => v, None => task.id },
        task_name: match update.task_name { Some(v) => v, None => task.task_name },
        project: match update.project { Some(v) => v, None => task.project },
        tags: match update.tags { Some(v) => v, None => task.tags },
        start: match update.start { Some(v) => v, None => task.start },
        computer_name: match update.computer_name { Some(v) => v, None => task.computer_name },
        end: match update.end { Some(v) => v, None => task.end },
    }
}

/// Two tasks agree on every field (tags compared element by element).
pub open spec fn same_task(a: Task, b: Task) -> bool {
    &&& a.id == b.id
    &&& a.task_name == b.task_name
    &&& a.project == b.project
    &&& a.tags@ == b.tags@
    &&& a.start == b.start
    &&& a.computer_name == b.computer_name
    &&& a.end == b.end
}

impl TaskUpdate {
    /// An update that sets nothing.
    pub fn empty() -> (r: TaskUpdate)
        ensures
            r.id is None,
            r.task_name is None,
            r.project is None,
            r.tags is None,
            r.start is None,
            r.computer_name is None,
            r.end is None,
    {
        TaskUpdate {
            id: None,
            task_name: None,
            project: None,
            tags: None,
            start: None,
            computer_name: None,
            end: None,
        }
    }

    /// Applies this update to `task`.
    pub fn merge_with_task(self, task: &Task) -> (r: Task)
        ensures
            same_task(r, merged(self, *task)),
    {
        Task {
            id: match self.id { Some(v) => v, None => copy_string(&task.id) },
            task_name: match self.task_name { Some(v) => v, None => copy_string(&task.task_name) },
            project: match self.project { Some(v) => v, None => copy_opt_string(&task.project) },
            computer_name: match self.computer_name {
                Some(v) => v,
                None => copy_string(&task.computer_name),
            },
            tags: match self.tags { Some(v) => v, None => copy_strings(&task.tags) },
            start: match self.start { Some(v) => v, None => task.start },
            end: match self.end { Some(v) => v, None => task.end },
        }
    }
}

} // verus!
