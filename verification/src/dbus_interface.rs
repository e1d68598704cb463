//! The task actions that the daemon and its GUI exchange over D-Bus: an
//! action type and a payload that must agree with it.
use vstd::prelude::*;

verus! {

/// The kind of a task action.
#[derive(Clone, Copy, Debug, PartialEq, Eq, Structural)]
pub enum DbusTaskActionType {
    Upsert,
    Delete,
}

/// The payload of an upsert: the task as the synchronised store records it.
#[derive(Clone, Debug)]
pub struct DbusTaskActionUpsert {
    pub ulid: String,
    pub task_name: String,
    pub project: Option<String>,
    pub tags: Vec<String>,
    pub start: u64,
    pub end: Option<u64>,
    pub __version: u32,
}

/// The payload of a delete: the id of the deleted task.
#[derive(Clone, Debug)]
pub struct DbusTaskActionDelete {
    pub ulid: String,
}

/// What a D-Bus task action carries; the message encodes it as a variant.
#[derive(Clone, Debug)]
pub enum DbusActionPayload {
    Upsert(DbusTaskActionUpsert),
    Delete(DbusTaskActionDelete),
}

/// A task action as it travels over D-Bus.
#[derive(Clone, Debug)]
pub struct DbusTaskAction {
    pub action_type: DbusTaskActionType,
    pub action: DbusActionPayload,
}

/// A task of the synchronised store.
#[derive(Clone, Debug)]
pub struct StorageTask {
    pub ulid: String,
    pub task_name: String,
    pub project: Option<String>,
    pub tags: Vec<String>,
    pub start: u64,
    pub end: Option<u64>,
    pub __version: u32,
}

/// A write to the synchronised store.
#[derive(Clone, Debug)]
pub enum StorageTaskAction {
    Upsert(StorageTask),
    Delete(String),
}

/// Why a D-Bus task action could not be read.
#[derive(Clone, Copy, Debug, PartialEq, Eq, Structural)]
pub enum DbusActionError {
    /// The payload is not of the kind that the action type announces.
    PayloadMismatch,
}

/// `u` carries the fields of `t`.
pub open spec fn upsert_of(t: StorageTask, u: DbusTaskActionUpsert) -> bool {
    &&& u.ulid == t.ulid
    &&& u.task_name == t.task_name
    &&& u.project == t.project
    &&& u.tags == t.tags
    &&& u.start == t.start
    &&& u.end == t.end
    &&& u.__version == t.__version
}

impl DbusTaskAction {
    /// The upsert action with the given payload.
    pub fn try_new_upsert(action: DbusTaskActionUpsert) -> (r: DbusTaskAction)
        ensures
            r.action_type == DbusTaskActionType::Upsert,
            r.action == DbusActionPayload::Upsert(action),
    {
        DbusTaskAction { action_type: DbusTaskActionType::Upsert, action: DbusActionPayload::Upsert(action) }
    }

    /// The delete action with the given payload.
    pub fn try_new_delete(action: DbusTaskActionDelete) -> (r: DbusTaskAction)
        ensures
            r.action_type == DbusTaskActionType::Delete,
            r.action == DbusActionPayload::Delete(action),
    {
        DbusTaskAction { action_type: DbusTaskActionType::Delete, action: DbusActionPayload::Delete(action) }
    }

    /// The D-Bus form of a store write.
    pub fn try_from(value: StorageTaskAction) -> (r: DbusTaskAction)
        ensures
            match value {
                StorageTaskAction::Upsert(t) => r.action_type == DbusTaskActionType::Upsert
                    && (r.action matches DbusActionPayload::Upsert(u) && upsert_of(t, u)),
                StorageTaskAction::Delete(id) => r.action_type == DbusTaskActionType::Delete
                    && r.action == DbusActionPayload::Delete(DbusTaskActionDelete { ulid: id }),
            },
    {
        match value {
            StorageTaskAction::Upsert(task) => DbusTaskAction::try_new_upsert(
                DbusTaskActionUpsert {
                    ulid: task.ulid,
                    task_name: task.task_name,
                    project: task.project,
                    tags: task.tags,
                    start: task.start,
                    end: task.end,
                    __version: task.__version,
                },
            ),
            StorageTaskAction::Delete(ulid) => DbusTaskAction::try_new_delete(DbusTaskActionDelete { ulid }),
        }
    }
}

impl StorageTaskAction {
    /// The store write that a D-Bus action carries; `PayloadMismatch` when the
    /// payload is not of the announced kind.
    pub fn try_from(value: DbusTaskAction) -> (r: Result<StorageTaskAction, DbusActionError>)
        ensures
            match (value.action_type, value.action) {
                (DbusTaskActionType::Upsert, DbusActionPayload::Upsert(u)) => r matches Ok(
                    StorageTaskAction::Upsert(t),
                ) && upsert_of(t, u),
                (DbusTaskActionType::Delete, DbusActionPayload::Delete(d)) => r matches Ok(
                    StorageTaskAction::Delete(id),
                ) && id == d.ulid,
                _ => r == Err::<StorageTaskAction, DbusActionError>(DbusActionError::PayloadMismatch),
            },
    {
        match value.action_type {
            DbusTaskActionType::Upsert => match value.action {
                DbusActionPayload::Upsert(action) => Ok(
                    StorageTaskAction::Upsert(
                        StorageTask {
                            ulid: action.ulid,
                            task_name: action.task_name,
                            project: action.project,
                            tags: action.tags,
                            start: action.start,
                            end: action.end,
                            __version: action.__version,
                        },
                    ),
                ),
                DbusActionPayload::Delete(_) => Err(DbusActionError::PayloadMismatch),
            },
            DbusTaskActionType::Delete => match value.action {
                DbusActionPayload::Delete(action) => Ok(StorageTaskAction::Delete(action.ulid)),
                DbusActionPayload::Upsert(_) => Err(DbusActionError::PayloadMismatch),
            },
        }
    }
}

/// Reading back the D-Bus form of a store write gives the write again.
pub proof fn law_dbus_round_trip(value: StorageTaskAction, wire: DbusTaskAction, back: Result<StorageTaskAction, DbusActionError>)
    requires
        match value {
            StorageTaskAction::Upsert(t) => wire.action_type == DbusTaskActionType::Upsert
                && (wire.action matches DbusActionPayload::Upsert(u) && upsert_of(t, u)),
            StorageTaskAction::Delete(id) => wire.action_type == DbusTaskActionType::Delete
                && wire.action == DbusActionPayload::Delete(DbusTaskActionDelete { ulid: id }),
        },
        match (wire.action_type, wire.action) {
            (DbusTaskActionType::Upsert, DbusActionPayload::Upsert(u)) => back matches Ok(
                StorageTaskAction::Upsert(t),
            ) && upsert_of(t, u),
            (DbusTaskActionType::Delete, DbusActionPayload::Delete(d)) => back matches Ok(
                StorageTaskAction::Delete(id),
            ) && id == d.ulid,
            _ => back == Err::<StorageTaskAction, DbusActionError>(DbusActionError::PayloadMismatch),
        },
    ensures
        back == Ok::<StorageTaskAction, DbusActionError>(value),
{
}

} // verus!
