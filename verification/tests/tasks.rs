use o324_daemon::entities::task::{Task, TaskUpdate};
use o324_daemon::repositories::task::{
    StartTaskAt, StartTaskInput, TaskAction, TaskRef, TaskRepositoryError, TaskRepositoryInner,
};

fn task(id: &str, start: u64, end: Option<u64>) -> Task {
    Task {
        id: id.to_string(),
        task_name: format!("task {id}"),
        project: None,
        tags: vec![],
        start,
        computer_name: "laptop".to_string(),
        end,
    }
}

fn repo() -> TaskRepositoryInner {
    TaskRepositoryInner { computer_name: "laptop".to_string() }
}

fn input(at: Option<StartTaskAt>) -> StartTaskInput {
    StartTaskInput {
        task_name: "write".to_string(),
        project: Some("book".to_string()),
        tags: vec!["focus".to_string()],
        at,
    }
}

#[test]
fn task_ref_from_text() {
    assert!(matches!(TaskRef::from("current"), TaskRef::Current));
    match TaskRef::from("abc1234") {
        TaskRef::Id(id) => assert_eq!(id, "abc1234"),
        TaskRef::Current => panic!("an id"),
    }
    assert!(matches!(TaskRef::from("Current"), TaskRef::Id(_)));
}

#[test]
fn starting_stops_the_running_task() {
    let current = task("run0001", 100, None);
    let (t, actions) = repo().start_new_task(input(None), 500, Some(current));
    assert_eq!(t.id.len(), 7);
    assert!(t.id.chars().all(|c| c.is_ascii_alphanumeric()));
    assert_eq!(t.start, 500);
    assert_eq!(t.end, None);
    assert_eq!(t.computer_name, "laptop");
    assert_eq!(actions.len(), 2);
    match &actions[0] {
        TaskAction::Upsert(s) => {
            assert_eq!(s.id, "run0001");
            assert_eq!(s.end, Some(500));
        }
        TaskAction::Delete(_) => panic!("an upsert"),
    }
    match &actions[1] {
        TaskAction::Upsert(n) => assert_eq!(n.id, t.id),
        TaskAction::Delete(_) => panic!("an upsert"),
    }
}

#[test]
fn backfilled_task_leaves_running_task_alone() {
    let current = task("run0001", 100, None);
    let at = StartTaskAt { start: 10, end: Some(50) };
    let (t, actions) = repo().start_new_task(input(Some(at)), 500, Some(current));
    assert_eq!((t.start, t.end), (10, Some(50)));
    assert_eq!(actions.len(), 1);
    let before = StartTaskAt { start: 50, end: None };
    let (_, actions) = repo().start_new_task(input(Some(before)), 500, Some(task("run0001", 100, None)));
    assert_eq!(actions.len(), 1);
}

#[test]
fn stop_and_cancel() {
    let (stopped, actions) = repo().stop_current_task(700, Some(task("run0001", 100, None)));
    assert_eq!(stopped.unwrap().end, Some(700));
    assert_eq!(actions.len(), 1);
    let (none, actions) = repo().stop_current_task(700, None);
    assert!(none.is_none() && actions.is_empty());
    let (cancelled, actions) = repo().cancel_current_task(Some(task("run0001", 100, None)));
    assert_eq!(cancelled.unwrap().id, "run0001");
    assert!(matches!(&actions[0], TaskAction::Delete(id) if id == "run0001"));
    let (deleted, actions) = repo().delete_task("x".to_string(), None);
    assert!(deleted.is_none() && actions.is_empty());
}

#[test]
fn edit_errors() {
    let r = repo().resolve_task_ref(TaskRef::Current, &None);
    assert!(matches!(r, Err(TaskRepositoryError::NoCurrentTask)));
    assert_eq!(TaskRepositoryError::NoCurrentTask.message(), "No current task to edit");
    let r = repo().edit_task("gone".to_string(), None, TaskUpdate::empty(), None, 5);
    match r {
        Err(e) => assert_eq!(e.message(), "Task with ID 'gone' not found"),
        Ok(_) => panic!("no such task"),
    }
    let r = repo().resolve_task_ref(TaskRef::Current, &Some(task("run0001", 1, None)));
    assert_eq!(r.ok(), Some("run0001".to_string()));
}

#[test]
fn resuming_a_task_stops_the_running_one() {
    let stored = task("old0001", 10, Some(20));
    let running = task("run0001", 30, None);
    let mut update = TaskUpdate::empty();
    update.end = Some(None);
    let (t, actions) = repo()
        .edit_task("old0001".to_string(), Some(stored), update, Some(running), 99)
        .ok()
        .unwrap();
    assert_eq!(t.end, None);
    assert_eq!(actions.len(), 2);
    assert!(matches!(&actions[0], TaskAction::Upsert(s) if s.id == "run0001" && s.end == Some(99)));
    assert!(matches!(&actions[1], TaskAction::Upsert(s) if s.id == "old0001" && s.end.is_none()));
}

#[test]
fn renaming_keeps_the_rest() {
    let stored = task("old0001", 10, Some(20));
    let mut update = TaskUpdate::empty();
    update.task_name = Some("renamed".to_string());
    let (t, actions) = repo().edit_task("old0001".to_string(), Some(stored), update, None, 99).ok().unwrap();
    assert_eq!(t.task_name, "renamed");
    assert_eq!((t.start, t.end), (10, Some(20)));
    assert_eq!(actions.len(), 1);
}

#[test]
fn last_tasks_are_newest_first() {
    let by_start = vec![task("a", 1, Some(2)), task("b", 3, Some(4)), task("c", 5, None)];
    let page = repo().list_last_tasks(by_start.clone(), 0, 2);
    assert_eq!(page.iter().map(|t| t.id.as_str()).collect::<Vec<_>>(), vec!["c", "b"]);
    let page = repo().list_last_tasks(by_start.clone(), 1, 5);
    assert_eq!(page.iter().map(|t| t.id.as_str()).collect::<Vec<_>>(), vec!["b", "a"]);
    assert!(repo().list_last_tasks(by_start, 3, 5).is_empty());
}

#[test]
fn range_and_prefix_filters() {
    let by_start = vec![task("abc", 1, Some(2)), task("abd", 3, Some(4)), task("xyz", 5, None)];
    let r = repo().list_task_range(by_start.clone(), 2, 5);
    assert_eq!(r.iter().map(|t| t.id.as_str()).collect::<Vec<_>>(), vec!["abd"]);
    let r = repo().match_prefix(by_start, "ab");
    assert_eq!(r.iter().map(|t| t.id.as_str()).collect::<Vec<_>>(), vec!["abc", "abd"]);
}

#[test]
fn merge_prefers_set_fields() {
    let base = task("id00001", 10, None);
    let mut update = TaskUpdate::empty();
    update.project = Some(Some("p".to_string()));
    update.start = Some(3);
    let m = update.merge_with_task(&base);
    assert_eq!(m.project, Some("p".to_string()));
    assert_eq!(m.start, 3);
    assert_eq!(m.id, "id00001");
    assert_eq!(m.task_name, "task id00001");
}

#[test]
fn hash_ignores_computer_name_but_not_content() {
    let a = task("id00001", 10, None);
    let mut b = task("id00001", 10, None);
    b.computer_name = "desktop".to_string();
    assert_eq!(a.get_hash(), b.get_hash());
    let c = task("id00001", 11, None);
    assert_ne!(a.get_hash(), c.get_hash());
}
