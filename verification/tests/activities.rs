use o324_daemon::entities::activity::Activity;
use o324_daemon::repositories::activity::{ActivityError, ActivityRepositoryInner, StartActivity};
use o324_daemon::services::activity::{ActivityEvent, ActivityPlan, ActivityServiceInner, JOIN_GAP_MS};
use o324_daemon::window::sway::{SwayEvent, SwayNode, SwayRect};
use o324_daemon::window::WindowInfo;

fn window(id: &str, app: &str) -> WindowInfo {
    WindowInfo {
        id: id.to_string(),
        title: "t".to_string(),
        app_name: app.to_string(),
        pid: None,
        is_focused: true,
        workspace: None,
        geometry: None,
        details: None,
    }
}

fn activity(id: &str, start: u64) -> Activity {
    Activity { id: id.to_string(), app_name: "a".to_string(), start, last_active: start, computer_name: "pc".to_string() }
}

#[test]
fn register_builds_a_fresh_activity() {
    let repo = ActivityRepositoryInner { computer_name: "pc".to_string() };
    let a = repo.register(StartActivity { app_name: "firefox".to_string(), at: 77 });
    assert_eq!(a.id.len(), 7);
    assert!(a.id.chars().all(|c| c.is_ascii_alphanumeric()));
    assert_eq!((a.start, a.last_active), (77, 77));
    assert_eq!(a.app_name, "firefox");
    assert_eq!(a.computer_name, "pc");
}

#[test]
fn update_last_event_needs_the_activity() {
    let repo = ActivityRepositoryInner { computer_name: "pc".to_string() };
    assert_eq!(repo.update_last_event(None, 5).err(), Some(ActivityError::NotFound));
    assert_eq!(ActivityError::NotFound.message(), "Task not found");
    let b = repo.update_last_event(Some(activity("x", 1)), 9).ok().unwrap();
    assert_eq!((b.start, b.last_active), (1, 9));
}

#[test]
fn activity_range() {
    let repo = ActivityRepositoryInner { computer_name: "pc".to_string() };
    let r = repo.list_activity_range(vec![activity("a", 1), activity("b", 5), activity("c", 9)], 2, 9);
    assert_eq!(r.iter().map(|a| a.id.as_str()).collect::<Vec<_>>(), vec!["b"]);
}

#[test]
fn first_window_opens_an_activity() {
    let service = ActivityServiceInner::new();
    match service.handle_window_event(&ActivityEvent::WindowFocused(window("w1", "code")), 1000) {
        ActivityPlan::Switch { close, app_name, window_id, at } => {
            assert!(close.is_none());
            assert_eq!((app_name.as_str(), window_id.as_str(), at), ("code", "w1", 1000));
        }
        _ => panic!("a switch"),
    }
}

#[test]
fn same_window_renews_and_switches_join_or_pad() {
    let mut service = ActivityServiceInner::new();
    service.record_switch("w1".to_string(), "act1".to_string(), 1000);
    match service.handle_window_event(&ActivityEvent::WindowFocused(window("w1", "code")), 2000) {
        ActivityPlan::Renew(r) => assert_eq!((r.activity_id.as_str(), r.at), ("act1", 2000)),
        _ => panic!("a renewal"),
    }
    service.record_renewal(2000);
    match service.handle_window_event(&ActivityEvent::WindowFocused(window("w2", "term")), 2000 + JOIN_GAP_MS - 1) {
        ActivityPlan::Switch { close: Some(c), .. } => assert_eq!(c.at, 2000 + JOIN_GAP_MS - 1),
        _ => panic!("a switch"),
    }
    match service.handle_window_event(&ActivityEvent::WindowFocused(window("w2", "term")), 500_000) {
        ActivityPlan::Switch { close: Some(c), at, .. } => {
            assert_eq!(c.at, 2000 + JOIN_GAP_MS);
            assert_eq!(at, 500_000);
        }
        _ => panic!("a switch"),
    }
}

#[test]
fn other_events_are_ignored() {
    let mut service = ActivityServiceInner::new();
    service.record_switch("w1".to_string(), "act1".to_string(), 1000);
    assert!(matches!(service.handle_window_event(&ActivityEvent::WindowClosed("w1".to_string()), 5), ActivityPlan::Ignore));
    let mut title_window = window("w1", "code");
    title_window.title = "x".to_string();
    let title = ActivityEvent::WindowTitleChanged(title_window);
    assert!(matches!(service.handle_window_event(&title, 1500), ActivityPlan::Renew(r) if r.activity_id == "act1" && r.at == 1500));
}

#[test]
fn title_change_of_another_window_switches() {
    let mut service = ActivityServiceInner::new();
    service.record_switch("w1".to_string(), "act1".to_string(), 1000);
    let other = ActivityEvent::WindowTitleChanged(window("w9", "term"));
    match service.handle_window_event(&other, 1500) {
        ActivityPlan::Switch { close, app_name, window_id, at } => {
            let c = close.expect("the previous activity is closed");
            assert_eq!((c.activity_id.as_str(), c.at), ("act1", 1500));
            assert_eq!(app_name, "term");
            assert_eq!(window_id, "w9");
            assert_eq!(at, 1500);
        }
        _ => panic!("a switch"),
    }
    match service.handle_window_event(&other, 1000 + JOIN_GAP_MS + 5) {
        ActivityPlan::Switch { close: Some(c), .. } => assert_eq!(c.at, 1000 + JOIN_GAP_MS),
        _ => panic!("a switch"),
    }
}

#[test]
fn sway_events_for_the_activity_service() {
    let container = || SwayNode {
        id: 7,
        name: Some("node 7".to_string()),
        app_id: Some("kitty".to_string()),
        pid: Some(70),
        focused: true,
        rect: SwayRect { x: 1, y: 2, width: 3, height: 4 },
        nodes: vec![],
        floating_nodes: vec![],
    };
    let ev = |change: &str| SwayEvent { change: change.to_string(), container: container() };
    assert!(matches!(ActivityEvent::from_sway_event(&ev("title")), Some(ActivityEvent::WindowTitleChanged(w)) if w.id == "7" && w.title == "node 7" && w.app_name == "kitty"));
    assert!(matches!(ActivityEvent::from_sway_event(&ev("focus")), Some(ActivityEvent::WindowFocused(w)) if w.id == "7"));
    assert!(matches!(ActivityEvent::from_sway_event(&ev("new")), Some(ActivityEvent::WindowOpened(_))));
    assert!(matches!(ActivityEvent::from_sway_event(&ev("close")), Some(ActivityEvent::WindowClosed(id)) if id == "7"));
    assert!(ActivityEvent::from_sway_event(&ev("move")).is_none());
}
