use o324_daemon::config::{Config, ConfigInner, CoreConfig, ProfileConfig};
use o324_daemon::common::task_core::{Core, CoreError, StartTaskInput, TaskAction, TaskRef};
use o324_daemon::storage::task::{Task, TaskBuilder, TaskError, TaskUpdate};

fn stored(id: &str, start: u64, end: Option<u64>) -> Task {
    TaskBuilder::new()
        .id(id.to_string())
        .task_name(format!("task {id}"))
        .start(start)
        .computer_name("laptop".to_string())
        .end(end)
        .try_build()
        .ok()
        .unwrap()
}

fn journal() -> Core {
    Core { name: "laptop".to_string() }
}

#[test]
fn builder_requires_id_name_and_start() {
    assert_eq!(TaskBuilder::new().try_build().err(), Some(TaskError::IdNotSet));
    let b = TaskBuilder::new().id("a".to_string());
    assert_eq!(b.try_build().err(), Some(TaskError::TaskNameNotSet));
    let b = TaskBuilder::new().id("a".to_string()).task_name("n".to_string());
    assert_eq!(b.try_build().err(), Some(TaskError::StartNotSet));
    let t = TaskBuilder::new().id("a".to_string()).task_name("n".to_string()).start(4).try_build().ok().unwrap();
    assert_eq!((t.project.clone(), t.tags.len(), t.computer_name.as_str(), t.end), (None, 0, "", None));
    assert_eq!(TaskError::StartNotSet.message(), "field start is not set");
}

#[test]
fn stored_hash_follows_content() {
    let mut t = stored("a", 1, None);
    let h = t.get_hash();
    t.end = Some(9);
    t.compute_new_hash();
    assert_ne!(t.get_hash(), h);
    t.end = None;
    t.compute_new_hash();
    assert_eq!(t.get_hash(), h);
}

#[test]
fn diff_then_merge_gives_right_task() {
    let left = stored("a", 1, None);
    let mut right = stored("a", 5, Some(9));
    right.task_name = "other".to_string();
    right.compute_new_hash();
    let update = TaskUpdate::from_task_diff(&left, &right).ok().unwrap();
    assert_eq!(update.task_name, Some("other".to_string()));
    assert_eq!(update.project, None);
    let merged = update.merge_with_task(&left);
    assert_eq!((merged.task_name.as_str(), merged.start, merged.end), ("other", 5, Some(9)));
    assert_eq!(merged.get_hash(), right.get_hash());
    let other = stored("b", 1, None);
    assert_eq!(TaskUpdate::from_task_diff(&left, &other).err(), Some(TaskError::DiffIdMismatch));
    assert_eq!(TaskUpdate::new().get_id().err(), Some(TaskError::IdRequired));
}

#[test]
fn core_start_stops_running_task() {
    let input = StartTaskInput {
        task_name: "n".to_string(),
        project: None,
        tags: vec![],
        computer_name: "laptop".to_string(),
    };
    let actions = journal().start_new_task(input, 50, Some(stored("run", 1, None)));
    assert_eq!(actions.len(), 2);
    assert!(matches!(&actions[0], TaskAction::Upsert(s) if s.id == "run" && s.end == Some(50)));
    match &actions[1] {
        TaskAction::Upsert(t) => {
            assert_eq!(t.id.len(), 7);
            assert_eq!((t.start, t.end), (50, None));
        }
        TaskAction::Delete(_) => panic!("an upsert"),
    }
}

#[test]
fn core_stop_cancel_delete() {
    assert!(journal().stop_current_task(5, None).is_empty());
    let a = journal().stop_current_task(5, Some(stored("run", 1, None)));
    assert!(matches!(&a[0], TaskAction::Upsert(s) if s.end == Some(5)));
    let a = journal().cancel_current_task(Some(stored("run", 1, None)));
    assert!(matches!(&a[0], TaskAction::Delete(id) if id == "run"));
    assert!(journal().delete_task("x".to_string(), None).is_empty());
    assert_eq!(journal().delete_task("x".to_string(), Some(stored("x", 1, Some(2)))).len(), 1);
}

#[test]
fn core_edit() {
    assert!(matches!(journal().resolve_task_ref(TaskRef::Current, &None), Err(CoreError::NoCurrentTask)));
    let r = journal().edit_task("gone".to_string(), None, TaskUpdate::new(), None, 1);
    assert_eq!(r.err().unwrap().message(), "Task with ID 'gone' not found");
    let update = TaskUpdate::new().set_end(None);
    let a = journal()
        .edit_task("old".to_string(), Some(stored("old", 1, Some(2))), update, Some(stored("run", 3, None)), 9)
        .ok()
        .unwrap();
    assert_eq!(a.len(), 2);
    assert!(matches!(&a[0], TaskAction::Upsert(s) if s.id == "run" && s.end == Some(9)));
}

#[test]
fn core_listing() {
    let by_start = vec![stored("a", 1, Some(2)), stored("b", 3, Some(4)), stored("c", 5, None)];
    let last = journal().list_last_tasks(by_start.clone(), 2);
    assert_eq!(last.iter().map(|t| t.id.as_str()).collect::<Vec<_>>(), vec!["c", "b"]);
    let range = journal().list_task_range(by_start, 1, 4);
    assert_eq!(range.iter().map(|t| t.id.as_str()).collect::<Vec<_>>(), vec!["a", "b"]);
}

#[test]
fn core_task_refs_and_setup() {
    assert!(matches!(TaskRef::from_str("current"), Ok(TaskRef::Current)));
    assert!(matches!(TaskRef::from_str("abc"), Ok(TaskRef::Id(id)) if id == "abc"));
    let profile = ProfileConfig {
        dbus_connection_name: None,
        dbus_service_path: None,
        storage_location: Some("/var/lib/o324".to_string()),
    };
    let config = Config(ConfigInner {
        core: CoreConfig { computer_name: "pc".to_string(), default_profile_name: None },
        profile: vec![("default".to_string(), profile)],
    });
    let (core, path) = Core::try_new(&config).ok().unwrap();
    assert_eq!(core.name, "pc");
    assert_eq!(path, "/var/lib/o324/storage.db");
    let empty = Config(ConfigInner {
        core: CoreConfig { computer_name: "pc".to_string(), default_profile_name: None },
        profile: vec![],
    });
    assert!(Core::try_new(&empty).is_err());
}
