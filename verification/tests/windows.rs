use o324_daemon::window::polling::{FocusPoller, IdFocusPoller};
use o324_daemon::window::process::{parse_u32, split_cmdline, split_pieces, status_uid, Separator};
use o324_daemon::window::providers::{
    is_hyprland_focus_event, DbusWindowProperties, Extent, FhtWindow, HyprlandClient, HyprlandWorkspace,
    Position,
};
use o324_daemon::window::sway::{SwayEvent, SwayNode, SwayProvider, SwayRect};
use o324_daemon::window::x11::{class_name, X11Geometry, X11WindowProperties};
use o324_daemon::window::{
    detect_environment, tracker_setup, Compositor, DisplayServer, ProviderKind, SessionFacts, WindowEvent,
    WindowGeometry, WindowInfo, WindowTrackerError,
};

fn facts() -> SessionFacts {
    SessionFacts {
        hyprland_signature: false,
        swaysock: false,
        niri_on_bus: false,
        current_desktop: String::new(),
        kde_full_session: false,
        wayland_display: false,
        display: false,
    }
}

#[test]
fn environment_detection_order() {
    let mut f = facts();
    assert_eq!(detect_environment(&f), None);
    f.current_desktop = "ubuntu:GNOME".to_string();
    f.wayland_display = true;
    assert_eq!(detect_environment(&f), Some(Compositor::Gnome(DisplayServer::Wayland)));
    f.current_desktop = "KDE".to_string();
    f.wayland_display = false;
    f.display = true;
    assert_eq!(detect_environment(&f), Some(Compositor::Kde(DisplayServer::X11)));
    f.current_desktop = "fht-compositor".to_string();
    assert_eq!(detect_environment(&f), Some(Compositor::Fht));
    f.swaysock = true;
    assert_eq!(detect_environment(&f), Some(Compositor::Sway));
    f.hyprland_signature = true;
    assert_eq!(detect_environment(&f), Some(Compositor::Hyprland));
}

#[test]
fn tracker_setup_choices() {
    match tracker_setup(None) {
        Err(WindowTrackerError::UnsupportedDisplayServer(m)) => {
            assert_eq!(m, "Could not detect a supported display server or compositor.")
        }
        _ => panic!("nothing detected"),
    }
    let s = tracker_setup(Some(Compositor::Unknown)).ok().unwrap();
    assert_eq!((s.provider, s.display_server), (ProviderKind::Ewmh, DisplayServer::X11));
    let s = tracker_setup(Some(Compositor::Kde(DisplayServer::Wayland))).ok().unwrap();
    assert_eq!(s.provider, ProviderKind::Kde(DisplayServer::Wayland));
    match tracker_setup(Some(Compositor::River)) {
        Err(WindowTrackerError::UnsupportedCompositor(m)) => assert_eq!(m, "River is not yet supported"),
        _ => panic!("unsupported"),
    }
    assert_eq!(Compositor::Sway.display_server(), DisplayServer::Wayland);
}

fn node(id: i64, focused: bool, pid: Option<u32>, nodes: Vec<SwayNode>) -> SwayNode {
    SwayNode {
        id,
        name: Some(format!("node {id}")),
        app_id: None,
        pid,
        focused,
        rect: SwayRect { x: 1, y: 2, width: 3, height: 4 },
        nodes,
        floating_nodes: vec![],
    }
}

#[test]
fn sway_tree() {
    let tree = node(1, false, None, vec![node(2, false, Some(20), vec![]), node(3, true, Some(30), vec![])]);
    assert_eq!(SwayProvider::find_focused_node(&tree).map(|n| n.id), Some(3));
    let mut windows = Vec::new();
    SwayProvider::collect_windows(&tree, &mut windows);
    assert_eq!(windows.iter().map(|w| w.id.as_str()).collect::<Vec<_>>(), vec!["2", "3"]);
    let w = WindowInfo::from_sway_node(&node(-5, true, None, vec![])).unwrap();
    assert_eq!((w.id.as_str(), w.title.as_str(), w.app_name.as_str()), ("-5", "node -5", ""));
    assert_eq!(w.geometry, Some(WindowGeometry { x: 1, y: 2, width: 3, height: 4 }));
}

#[test]
fn sway_events() {
    let ev = |change: &str| SwayEvent { change: change.to_string(), container: node(7, true, Some(70), vec![]) };
    assert!(matches!(WindowEvent::from_sway_event(&ev("focus")), Some(WindowEvent::WindowFocused(w)) if w.id == "7"));
    assert!(matches!(WindowEvent::from_sway_event(&ev("new")), Some(WindowEvent::WindowOpened(_))));
    assert!(matches!(WindowEvent::from_sway_event(&ev("close")), Some(WindowEvent::WindowClosed(id)) if id == "7"));
    assert!(matches!(
        WindowEvent::from_sway_event(&ev("title")),
        Some(WindowEvent::WindowTitleChanged { id, new_title }) if id == "7" && new_title == "node 7"
    ));
    assert!(WindowEvent::from_sway_event(&ev("move")).is_none());
}

#[test]
fn hyprland_and_fht_windows() {
    let client = HyprlandClient {
        address: "0xabc".to_string(),
        at: Position { x: 10, y: 20 },
        size: Extent { width: 300, height: 200 },
        workspace: HyprlandWorkspace { id: 1, name: "main".to_string() },
        class: "kitty".to_string(),
        title: "shell".to_string(),
        pid: 4242,
        focus_history_id: 0,
    };
    let w = WindowInfo::from_hyprland_client(&client, true);
    assert_eq!((w.id.as_str(), w.app_name.as_str(), w.pid), ("0xabc", "kitty", Some(4242)));
    assert_eq!(w.workspace.as_deref(), Some("main"));
    assert_eq!(w.geometry, Some(WindowGeometry { x: 10, y: 20, width: 300, height: 200 }));
    let mut no_pid = client.clone();
    no_pid.pid = -1;
    assert_eq!(WindowInfo::from_hyprland_client(&no_pid, false).pid, None);
    let fht = FhtWindow {
        id: 99,
        title: "doc".to_string(),
        app_id: "zathura".to_string(),
        size: Extent { width: 5, height: 6 },
        location: Position { x: 7, y: 8 },
        focused: true,
    };
    let w = WindowInfo::from_fht_window(&fht);
    assert_eq!((w.id.as_str(), w.pid, w.is_focused), ("99", None, true));
    assert_eq!(w.geometry, Some(WindowGeometry { x: 7, y: 8, width: 5, height: 6 }));
}

#[test]
fn hyprland_focus_lines() {
    assert!(is_hyprland_focus_event("activewindow>>kitty,shell"));
    assert!(!is_hyprland_focus_event("activewindowv2>>0xabc"));
    assert!(!is_hyprland_focus_event("workspace>>2"));
    assert!(!is_hyprland_focus_event("activewindow"));
}

#[test]
fn dbus_windows() {
    let props = DbusWindowProperties { title: Some("t".to_string()), app_name: None, pid: Some(0) };
    let w = WindowInfo::from_kde_client(12, &props, true);
    assert_eq!((w.id.as_str(), w.title.as_str(), w.app_name.as_str(), w.pid), ("12", "t", "", None));
    let props = DbusWindowProperties { title: None, app_name: Some("a".to_string()), pid: Some(5) };
    let w = WindowInfo::from_niri_window(&"/re/sonny/niri/Window/3".to_string(), &props, false);
    assert_eq!((w.id.as_str(), w.title.as_str(), w.pid), ("/re/sonny/niri/Window/3", "", Some(5)));
}

#[test]
fn x11_windows() {
    assert_eq!(class_name(&b"navigator\0firefox\0".to_vec()), b"firefox".to_vec());
    assert_eq!(class_name(&b"only".to_vec()), Vec::<u8>::new());
    assert_eq!(class_name(&b"a\0b".to_vec()), b"b".to_vec());
    let props = X11WindowProperties {
        title: "Über".as_bytes().to_vec(),
        class: b"x\0Term\0".to_vec(),
        pid: Some(11),
        geometry: X11Geometry { x: -3, y: 4, width: 640, height: 480 },
    };
    let w = WindowInfo::from_x11_properties(77, props.clone(), false).unwrap();
    assert_eq!((w.id.as_str(), w.title.as_str(), w.app_name.as_str(), w.pid), ("77", "Über", "Term", Some(11)));
    assert_eq!(w.geometry, Some(WindowGeometry { x: -3, y: 4, width: 640, height: 480 }));
    assert!(WindowInfo::from_x11_properties(0, props.clone(), false).is_none());
    let mut bad = props;
    bad.title = vec![0xff, 0xfe];
    bad.class = vec![0, 0xff];
    let w = WindowInfo::from_x11_properties(1, bad, false).unwrap();
    assert_eq!(w.title, "");
    assert_eq!(w.app_name, "\u{fffd}");
}

#[test]
fn process_table_parsing() {
    assert_eq!(split_cmdline("/usr/bin/vim\0-p\0\0notes.txt\0"), vec!["/usr/bin/vim", "-p", "notes.txt"]);
    assert_eq!(split_cmdline(""), Vec::<String>::new());
    assert_eq!(split_pieces("a\n\nb", Separator::Newline, true), vec!["a", "", "b"]);
    assert_eq!(split_pieces(" a \t b\u{3000}c ", Separator::Whitespace, false), vec!["a", "b", "c"]);
    assert_eq!(parse_u32("1000"), Some(1000));
    assert_eq!(parse_u32("+7"), Some(7));
    assert_eq!(parse_u32("4294967295"), Some(u32::MAX));
    assert_eq!(parse_u32("4294967296"), None);
    assert_eq!(parse_u32("-1"), None);
    assert_eq!(parse_u32("+"), None);
    assert_eq!(parse_u32(""), None);
    assert_eq!(parse_u32("12a"), None);
    let status = "Name:\tbash\nUmask:\t0022\nUid:\t1000\t1000\t1000\t1000\nGid:\t100\n";
    assert_eq!(status_uid(status), Some(1000));
    assert_eq!(status_uid("Name: x\n"), None);
    assert_eq!(status_uid("Uid:\n"), None);
    for text in ["Uid: 5 6\n", "Uid:9", "X\nUid:  42  \nUid: 7\n"] {
        let expected = text
            .lines()
            .find(|l| l.starts_with("Uid:"))
            .and_then(|l| l.split_whitespace().nth(1))
            .and_then(|u| u.parse::<u32>().ok());
        assert_eq!(status_uid(text), expected);
    }
}

fn focused(id: &str, title: &str) -> WindowInfo {
    WindowInfo {
        id: id.to_string(),
        title: title.to_string(),
        app_name: "app".to_string(),
        pid: None,
        is_focused: true,
        workspace: None,
        geometry: None,
        details: None,
    }
}

#[test]
fn polling_reports_focus_changes_only() {
    let mut poller = FocusPoller::new();
    assert!(poller.observe(None).is_none());
    assert!(matches!(poller.observe(Some(focused("1", "a"))), Some(WindowEvent::WindowFocused(w)) if w.id == "1"));
    assert!(poller.observe(Some(focused("1", "a"))).is_none());
    assert!(poller.observe(Some(focused("1", "b"))).is_some());
    assert!(poller.observe(Some(focused("2", "b"))).is_some());
    assert!(poller.observe(None).is_none());
    assert!(poller.observe(Some(focused("2", "b"))).is_some());
}

#[test]
fn id_polling_reports_window_changes_only() {
    let mut poller = IdFocusPoller::new();
    assert!(poller.observe(None).is_none());
    assert!(matches!(poller.observe(Some(focused("1", "a"))), Some(WindowEvent::WindowFocused(w)) if w.id == "1"));
    assert!(poller.observe(Some(focused("1", "a"))).is_none());
    assert!(poller.observe(Some(focused("1", "b"))).is_none());
    assert!(poller.observe(None).is_none());
    assert!(poller.observe(Some(focused("1", "c"))).is_none());
    assert!(matches!(poller.observe(Some(focused("2", "c"))), Some(WindowEvent::WindowFocused(w)) if w.id == "2"));
}
