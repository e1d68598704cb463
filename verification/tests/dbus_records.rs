use o324_daemon::dto::{
    ActivityDto, DbOperationDto, DbOperationTypeDto, DbResultDto, StartTaskInputDto, TaskActionDto, TaskDto,
    TaskUpdateDto, TaskUpdateEndDto,
};
use o324_daemon::entities::activity::Activity;
use o324_daemon::entities::task::{Task, TaskUpdate};
use o324_daemon::repositories::task::{StartTaskInput, TaskAction};
use o324_daemon::services::storage_bridge::{DbOperation, DbResult};
use o324_daemon::services::task::{TaskServiceError, TaskWithMeta};

fn dto(start: Option<u64>, end: Option<TaskUpdateEndDto>) -> StartTaskInputDto {
    StartTaskInputDto { task_name: "n".to_string(), project: None, tags: vec!["t".to_string()], start, end }
}

fn task() -> Task {
    Task {
        id: "abc1234".to_string(),
        task_name: "n".to_string(),
        project: Some("p".to_string()),
        tags: vec![],
        start: 5,
        computer_name: "pc".to_string(),
        end: None,
    }
}

#[test]
fn start_requests() {
    let input = StartTaskInput::try_from(dto(None, None)).ok().unwrap();
    assert!(input.at.is_none());
    assert_eq!(input.tags, vec!["t".to_string()]);
    let input = StartTaskInput::try_from(dto(Some(100), Some(TaskUpdateEndDto::Relative(50)))).ok().unwrap();
    let at = input.at.unwrap();
    assert_eq!((at.start, at.end), (100, Some(150)));
    let input = StartTaskInput::try_from(dto(Some(100), Some(TaskUpdateEndDto::Absolute(120)))).ok().unwrap();
    assert_eq!(input.at.unwrap().end, Some(120));
    let input = StartTaskInput::try_from(dto(Some(100), None)).ok().unwrap();
    assert_eq!(input.at.unwrap().end, None);
    assert_eq!(
        StartTaskInput::try_from(dto(None, Some(TaskUpdateEndDto::Absolute(1)))).err(),
        Some("End time or duration cannot be specified without a start time.".to_string())
    );
}

#[test]
fn storage_query_requests() {
    let op = DbOperation::try_from(DbOperationDto { operation_type: DbOperationTypeDto::ListTables, table_name: None });
    assert!(matches!(op, Ok(DbOperation::ListTables)));
    let op = DbOperation::try_from(DbOperationDto {
        operation_type: DbOperationTypeDto::ScanTable,
        table_name: Some("task".to_string()),
    });
    assert!(matches!(op, Ok(DbOperation::ScanTable { table_name }) if table_name == "task"));
    let op = DbOperation::try_from(DbOperationDto { operation_type: DbOperationTypeDto::ScanTable, table_name: None });
    assert_eq!(op.err(), Some("ScanTable operation requires a 'table_name'".to_string()));
    assert!(matches!(DbResultDto::from(DbResult::TableRows(vec!["{}".to_string()])), DbResultDto::TableRows(r) if r.len() == 1));
}

#[test]
fn task_records() {
    let meta = TaskWithMeta { task: task(), prefix: "ab".to_string(), project_color_hue: Some(3) };
    let d = TaskDto::from(meta);
    assert_eq!((d.id_prefix.as_str(), d.id.as_str(), d.start, d.end), ("ab", "abc1234", 5, None));
    assert_eq!(d.__hash, task().get_hash());
    assert!(matches!(TaskActionDto::from(TaskAction::Delete("x".to_string())), TaskActionDto::Delete(id) if id == "x"));
    match TaskActionDto::from(TaskAction::Upsert(task())) {
        TaskActionDto::Upsert(u) => assert_eq!((u.id.as_str(), u.__hash), ("abc1234", task().get_hash())),
        TaskActionDto::Delete(_) => panic!("an upsert"),
    }
    let u = TaskUpdate::from(TaskUpdateDto { task_name: None, project: Some(None), tags: None, start: Some(1), end: Some(Some(2)) });
    assert!(u.id.is_none() && u.computer_name.is_none());
    assert_eq!((u.project, u.start, u.end), (Some(None), Some(1), Some(Some(2))));
    let a = ActivityDto::from(Activity { id: "i".to_string(), app_name: "a".to_string(), start: 1, last_active: 2, computer_name: "pc".to_string() });
    assert_eq!((a.id.as_str(), a.start, a.last_active), ("i", 1, 2));
    assert!(matches!(TaskServiceError::from("boom".to_string()), TaskServiceError::Default(m) if m == "boom"));
}

use o324_daemon::dbus_interface::{
    DbusActionError, DbusActionPayload, DbusTaskAction, DbusTaskActionDelete, DbusTaskActionType, StorageTask,
    StorageTaskAction,
};

#[test]
fn gui_actions_round_trip() {
    let task = StorageTask {
        ulid: "01H".to_string(),
        task_name: "n".to_string(),
        project: None,
        tags: vec!["a".to_string()],
        start: 3,
        end: Some(4),
        __version: 2,
    };
    let wire = DbusTaskAction::try_from(StorageTaskAction::Upsert(task));
    assert_eq!(wire.action_type, DbusTaskActionType::Upsert);
    match StorageTaskAction::try_from(wire) {
        Ok(StorageTaskAction::Upsert(t)) => assert_eq!((t.ulid.as_str(), t.end, t.__version), ("01H", Some(4), 2)),
        _ => panic!("an upsert"),
    }
    let wire = DbusTaskAction::try_from(StorageTaskAction::Delete("01H".to_string()));
    assert!(matches!(StorageTaskAction::try_from(wire), Ok(StorageTaskAction::Delete(id)) if id == "01H"));
    let mismatched = DbusTaskAction {
        action_type: DbusTaskActionType::Upsert,
        action: DbusActionPayload::Delete(DbusTaskActionDelete { ulid: "x".to_string() }),
    };
    assert_eq!(StorageTaskAction::try_from(mismatched).err(), Some(DbusActionError::PayloadMismatch));
}
