//! The records that the daemon exchanges over D-Bus, and their conversions
//! to and from the library's own types.
use vstd::prelude::*;

use crate::entities::activity::Activity;
use crate::entities::task::{Task, TaskUpdate};
use crate::repositories::task::{StartTaskAt, StartTaskInput, TaskAction};
use crate::services::storage_bridge::{DbOperation, DbResult};
use crate::services::task::TaskWithMeta;

verus! {

/// A task as clients see it, with the prefix that names it.
#[derive(Clone, Debug)]
pub struct TaskDto {
    pub id_prefix: String,
    pub __hash: u64,
    pub id: String,
    pub task_name: String,
    pub project: Option<String>,
    pub tags: Vec<String>,
    pub computer_name: String,
    pub start: u64,
    pub end: Option<u64>,
}

/// When a task given to start ends: at a time, or after a duration from its
/// start (both in milliseconds).
#[derive(Clone, Copy, Debug, PartialEq, Eq, Structural)]
pub enum TaskUpdateEndDto {
    Absolute(u64),
    Relative(u64),
}

/// A request to start a task, with an optional start and end.
#[derive(Clone, Debug)]
pub struct StartTaskInputDto {
    pub task_name: String,
    pub project: Option<String>,
    pub tags: Vec<String>,
    pub start: Option<u64>,
    pub end: Option<TaskUpdateEndDto>,
}

/// A request to change fields of a task; `None` leaves a field as it is.
#[derive(Clone, Debug)]
pub struct TaskUpdateDto {
    pub task_name: Option<String>,
    pub project: Option<Option<String>>,
    pub tags: Option<Vec<String>>,
    pub start: Option<u64>,
    pub end: Option<Option<u64>>,
}

/// A task written to the store, as listeners are told of it.
#[derive(Clone, Debug)]
pub struct TaskActionUpsertDto {
    pub __hash: u64,
    pub id: String,
    pub task_name: String,
    pub project: Option<String>,
    pub tags: Vec<String>,
    pub computer_name: String,
    pub start: u64,
    pub end: Option<u64>,
}

/// A write to the task table, as listeners are told of it.
#[derive(Clone, Debug)]
pub enum TaskActionDto {
    Upsert(TaskActionUpsertDto),
    Delete(String),
}

/// The kind of a storage query.
#[derive(Clone, Copy, Debug, PartialEq, Eq, Structural)]
pub enum DbOperationTypeDto {
    ListTables,
    ScanTable,
}

/// A storage query as a client sends it.
#[derive(Clone, Debug)]
pub struct DbOperationDto {
    pub operation_type: DbOperationTypeDto,
    pub table_name: Option<String>,
}

/// The answer to a storage query.
#[derive(Clone, Debug)]
pub enum DbResultDto {
    TableList(Vec<String>),
    TableRows(Vec<String>),
}

/// An activity as clients see it.
#[derive(Clone, Debug)]
pub struct ActivityDto {
    pub id: String,
    pub app_name: String,
    pub start: u64,
    pub last_active: u64,
    pub computer_name: String,
}

/// The end that a request gives a task starting at `start`.
pub open spec fn end_time(start: u64, end: TaskUpdateEndDto) -> int {
    match end {
        TaskUpdateEndDto::Absolute(ts) => ts as int,
        TaskUpdateEndDto::Relative(ms) => start + ms,
    }
}

/// The message of a start request that gives an end without a start.
pub open spec fn end_without_start_message() -> Seq<char> {
    seq![
        'E', 'n', 'd', ' ', 't', 'i', 'm', 'e', ' ', 'o', 'r', ' ', 'd', 'u', 'r', 'a', 't', 'i',
        'o', 'n', ' ', 'c', 'a', 'n', 'n', 'o', 't', ' ', 'b', 'e', ' ', 's', 'p', 'e', 'c', 'i',
        'f', 'i', 'e', 'd', ' ', 'w', 'i', 't', 'h', 'o', 'u', 't', ' ', 'a', ' ', 's', 't', 'a',
        'r', 't', ' ', 't', 'i', 'm', 'e', '.'
    ]
}

/// The message of a table scan that names no table.
pub open spec fn missing_table_name_message() -> Seq<char> {
    seq![
        'S', 'c', 'a', 'n', 'T', 'a', 'b', 'l', 'e', ' ', 'o', 'p', 'e', 'r', 'a', 't', 'i', 'o',
        'n', ' ', 'r', 'e', 'q', 'u', 'i', 'r', 'e', 's', ' ', 'a', ' ', '\'', 't', 'a', 'b', 'l',
        'e', '_', 'n', 'a', 'm', 'e', '\''
    ]
}

impl TaskDto {
    /// The task with its prefix; its hash is the task's content hash.
    pub fn from(v: TaskWithMeta) -> (r: TaskDto)
        ensures
            r.id_prefix == v.prefix,
            r.id == v.task.id,
            r.task_name == v.task.task_name,
            r.project == v.task.project,
            r.tags == v.task.tags,
            r.computer_name == v.task.computer_name,
            r.start == v.task.start,
            r.end == v.task.end,
    {
        let hash = v.task.get_hash();
        TaskDto {
            id_prefix: v.prefix,
            __hash: hash,
            id: v.task.id,
            task_name: v.task.task_name,
            project: v.task.project,
            tags: v.task.tags,
            computer_name: v.task.computer_name,
            start: v.task.start,
            end: v.task.end,
        }
    }
}

impl StartTaskInput {
    /// A start request: an end, absolute or relative to the start, needs a
    /// start; without one the request is refused.
    pub fn try_from(dto: StartTaskInputDto) -> (r: Result<StartTaskInput, String>)
        requires
            dto.start matches Some(s) ==> (dto.end matches Some(e) ==> end_time(s, e) <= u64::MAX),
        ensures
            dto.start is None && dto.end is Some <==> r is Err,
            r matches Err(m) ==> m@ == end_without_start_message(),
            r matches Ok(input) ==> {
                &&& input.task_name == dto.task_name
                &&& input.project == dto.project
                &&& input.tags == dto.tags
                &&& match dto.start {
                    None => input.at is None,
                    Some(s) => input.at matches Some(at) && at.start == s && match dto.end {
                        None => at.end is None,
                        Some(e) => at.end == Some(end_time(s, e) as u64),
                    },
                }
            },
    {
        let at = match dto.start {
            Some(start) => {
                let end = match dto.end {
                    Some(TaskUpdateEndDto::Absolute(ts)) => Some(ts),
                    Some(TaskUpdateEndDto::Relative(ms)) => Some(start + ms),
                    None => None,
                };
                Some(StartTaskAt { start, end })
            },
            None => {
                if dto.end.is_some() {
                    proof {
                        reveal_strlit("End time or duration cannot be specified without a start time.");
                        assert("End time or duration cannot be specified without a start time."@
                            =~= end_without_start_message());
                    }
                    return Err(
                        String::from_str(
                            "End time or duration cannot be specified without a start time.",
                        ),
                    );
                }
                None
            },
        };
        Ok(StartTaskInput { task_name: dto.task_name, project: dto.project, tags: dto.tags, at })
    }
}

impl TaskUpdate {
    /// The update that a request asks for; it never changes the id or the
    /// computer.
    pub fn from(dto: TaskUpdateDto) -> (r: TaskUpdate)
        ensures
            r.id is None,
            r.task_name == dto.task_name,
            r.project == dto.project,
            r.tags == dto.tags,
            r.start == dto.start,
            r.computer_name is None,
            r.end == dto.end,
    {
        TaskUpdate {
            id: None,
            task_name: dto.task_name,
            project: dto.project,
            tags: dto.tags,
            start: dto.start,
            computer_name: None,
            end: dto.end,
        }
    }
}

impl TaskActionUpsertDto {
    /// The written task; its hash is the task's content hash.
    pub fn from(value: Task) -> (r: TaskActionUpsertDto)
        ensures
            r.id == value.id,
            r.task_name == value.task_name,
            r.project == value.project,
            r.tags == value.tags,
            r.computer_name == value.computer_name,
            r.start == value.start,
            r.end == value.end,
    {
        let hash = value.get_hash();
        TaskActionUpsertDto {
            __hash: hash,
            id: value.id,
            task_name: value.task_name,
            project: value.project,
            tags: value.tags,
            computer_name: value.computer_name,
            start: value.start,
            end: value.end,
        }
    }
}

impl TaskActionDto {
    /// The write as listeners are told of it.
    pub fn from(action: TaskAction) -> (r: TaskActionDto)
        ensures
            match action {
                TaskAction::Upsert(t) => r matches TaskActionDto::Upsert(u) && u.id == t.id
                    && u.task_name == t.task_name && u.project == t.project && u.tags == t.tags
                    && u.computer_name == t.computer_name && u.start == t.start && u.end == t.end,
                TaskAction::Delete(id) => r == TaskActionDto::Delete(id),
            },
    {
        match action {
            TaskAction::Upsert(task) => TaskActionDto::Upsert(TaskActionUpsertDto::from(task)),
            TaskAction::Delete(task_id) => TaskActionDto::Delete(task_id),
        }
    }
}

impl DbOperation {
    /// The query a client asks for; a table scan must name its table.
    pub fn try_from(dto: DbOperationDto) -> (r: Result<DbOperation, String>)
        ensures
            match dto.operation_type {
                DbOperationTypeDto::ListTables => r matches Ok(DbOperation::ListTables),
                DbOperationTypeDto::ScanTable => match dto.table_name {
                    Some(name) => r matches Ok(DbOperation::ScanTable { table_name }) && table_name
                        == name,
                    None => r matches Err(m) && m@ == missing_table_name_message(),
                },
            },
    {
        match dto.operation_type {
            DbOperationTypeDto::ListTables => Ok(DbOperation::ListTables),
            DbOperationTypeDto::ScanTable => {
                if let Some(table_name) = dto.table_name {
                    Ok(DbOperation::ScanTable { table_name })
                } else {
                    proof {
                        reveal_strlit("ScanTable operation requires a 'table_name'");
                        assert("ScanTable operation requires a 'table_name'"@
                            =~= missing_table_name_message());
                    }
                    Err(String::from_str("ScanTable operation requires a 'table_name'"))
                }
            },
        }
    }
}

impl DbResultDto {
    /// The answer as the client receives it.
    pub fn from(result: DbResult) -> (r: DbResultDto)
        ensures
            match result {
                DbResult::TableList(t) => r == DbResultDto::TableList(t),
                DbResult::TableRows(t) => r == DbResultDto::TableRows(t),
            },
    {
        match result {
            DbResult::TableList(tables) => DbResultDto::TableList(tables),
            DbResult::TableRows(rows) => DbResultDto::TableRows(rows),
        }
    }
}

impl ActivityDto {
    /// The activity as clients see it.
    pub fn from(value: Activity) -> (r: ActivityDto)
        ensures
            r.id == value.id,
            r.app_name == value.app_name,
            r.start == value.start,
            r.last_active == value.last_active,
            r.computer_name == value.computer_name,
    {
        ActivityDto {
            id: value.id,
            app_name: value.app_name,
            start: value.start,
            last_active: value.last_active,
            computer_name: value.computer_name,
        }
    }
}

} // verus!
