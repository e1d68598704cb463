//! Window records of Hyprland (`hyprctl -j`) and fht-compositor (`fht-compositor ipc -j`).
use vstd::prelude::*;

use crate::text::{copy_string, decimal, u64_to_string};
use crate::window::{WindowGeometry, WindowInfo};

verus! {

/// A position on the screen, in pixels.
#[derive(Clone, Copy, Debug, PartialEq, Eq)]
pub struct Position {
    pub x: i32,
    pub y: i32,
}

/// A width and a height, in pixels.
#[derive(Clone, Copy, Debug, PartialEq, Eq)]
pub struct Extent {
    pub width: u32,
    pub height: u32,
}

/// A client of `hyprctl -j clients` / `activewindow`.
#[derive(Clone, Debug)]
pub struct HyprlandClient {
    pub address: String,
    pub at: Position,
    pub size: Extent,
    pub workspace: HyprlandWorkspace,
    pub class: String,
    pub title: String,
    pub pid: i64,
    pub focus_history_id: i32,
}

/// The workspace of a Hyprland client.
#[derive(Clone, Debug)]
pub struct HyprlandWorkspace {
    pub id: i32,
    pub name: String,
}

/// A window of `fht-compositor ipc -j windows` / `focused-window`.
#[derive(Clone, Debug)]
pub struct FhtWindow {
    pub id: u64,
    pub title: String,
    pub app_id: String,
    pub size: Extent,
    pub location: Position,
    pub focused: bool,
}

/// The properties that a D-Bus window object reports (KDE's `caption`,
/// `resourceClass` and `pid`; Niri's `title`, `app-id` and `pid`), each
/// present when the object has it with the expected type.
#[derive(Clone, Debug)]
pub struct DbusWindowProperties {
    pub title: Option<String>,
    pub app_name: Option<String>,
    pub pid: Option<u32>,
}

/// The text of an optional string, empty when absent.
pub open spec fn or_empty(o: Option<String>) -> Seq<char> {
    match o {
        Some(s) => s@,
        None => Seq::empty(),
    }
}

/// A pid of zero, or none, means that the window has no known process.
pub open spec fn known_pid(pid: Option<u32>) -> Option<u32> {
    match pid {
        Some(p) if p > 0 => Some(p),
        _ => None,
    }
}

/// `r` is the window with id `id` that `props` describe: absent texts are
/// empty, a pid of zero is no pid, and there is no workspace, geometry or
/// process details yet.
pub open spec fn dbus_window(id: Seq<char>, props: DbusWindowProperties, is_focused: bool, r: WindowInfo) -> bool {
    &&& r.id@ == id
    &&& r.title@ == or_empty(props.title)
    &&& r.app_name@ == or_empty(props.app_name)
    &&& r.pid == known_pid(props.pid)
    &&& r.is_focused == is_focused
    &&& r.workspace is None
    &&& r.geometry is None
    &&& r.details is None
}

fn text_or_empty(o: &Option<String>) -> (r: String)
    ensures
        r@ == or_empty(*o),
{
    match o {
        Some(s) => copy_string(s),
        None => String::new(),
    }
}

fn from_dbus_properties(id: String, props: &DbusWindowProperties, is_focused: bool) -> (r: WindowInfo)
    ensures
        dbus_window(id@, *props, is_focused, r),
{
    let pid = match props.pid {
        Some(p) => if p > 0 { Some(p) } else { None },
        None => None,
    };
    WindowInfo {
        id,
        title: text_or_empty(&props.title),
        app_name: text_or_empty(&props.app_name),
        pid,
        is_focused,
        workspace: None,
        geometry: None,
        details: None,
    }
}

impl WindowInfo {
    /// The KDE window `/client/<client_id>`: its id in decimal, with its
    /// caption as the title and its resource class as the application.
    pub fn from_kde_client(client_id: u64, props: &DbusWindowProperties, is_focused: bool) -> (r: WindowInfo)
        ensures
            dbus_window(decimal(client_id as nat), *props, is_focused, r),
    {
        from_dbus_properties(u64_to_string(client_id), props, is_focused)
    }

    /// The Niri window at object path `window_path`, the path as its id.
    pub fn from_niri_window(window_path: &String, props: &DbusWindowProperties, is_focused: bool) -> (r: WindowInfo)
        ensures
            dbus_window(window_path@, *props, is_focused, r),
    {
        from_dbus_properties(copy_string(window_path), props, is_focused)
    }

    /// The window of a Hyprland client: its address as id, its class as the
    /// application, its workspace's name, and its pid when positive (cut to
    /// 32 bits, as `as u32` does); no process details yet.
    pub fn from_hyprland_client(client: &HyprlandClient, is_focused: bool) -> (r: WindowInfo)
        ensures
            r.id@ == client.address@,
            r.title@ == client.title@,
            r.app_name@ == client.class@,
            r.pid == (if client.pid > 0 { Some(client.pid as u32) } else { None }),
            r.is_focused == is_focused,
            r.workspace matches Some(w) && w@ == client.workspace.name@,
            r.geometry == Some(
                WindowGeometry {
                    x: client.at.x,
                    y: client.at.y,
                    width: client.size.width,
                    height: client.size.height,
                },
            ),
            r.details is None,
    {
        let pid = if client.pid > 0 {
            Some(#[verifier::truncate] (client.pid as u32))
        } else {
            None
        };
        WindowInfo {
            id: copy_string(&client.address),
            title: copy_string(&client.title),
            app_name: copy_string(&client.class),
            pid,
            is_focused,
            workspace: Some(copy_string(&client.workspace.name)),
            geometry: Some(
                WindowGeometry {
                    x: client.at.x,
                    y: client.at.y,
                    width: client.size.width,
                    height: client.size.height,
                },
            ),
            details: None,
        }
    }

    /// The window of an fht-compositor window: its id in decimal; the
    /// compositor reports no pid, so there are no process details.
    pub fn from_fht_window(w: &FhtWindow) -> (r: WindowInfo)
        ensures
            r.id@ == decimal(w.id as nat),
            r.title@ == w.title@,
            r.app_name@ == w.app_id@,
            r.pid is None,
            r.is_focused == w.focused,
            r.workspace is None,
            r.geometry == Some(
                WindowGeometry {
                    x: w.location.x,
                    y: w.location.y,
                    width: w.size.width,
                    height: w.size.height,
                },
            ),
            r.details is None,
    {
        WindowInfo {
            id: u64_to_string(w.id),
            title: copy_string(&w.title),
            app_name: copy_string(&w.app_id),
            pid: None,
            is_focused: w.focused,
            workspace: None,
            geometry: Some(
                WindowGeometry {
                    x: w.location.x,
                    y: w.location.y,
                    width: w.size.width,
                    height: w.size.height,
                },
            ),
            details: None,
        }
    }
}

/// The start of a line of Hyprland's event socket that reports a change of
/// the active window.
pub open spec fn active_window_tag() -> Seq<char> {
    seq!['a', 'c', 't', 'i', 'v', 'e', 'w', 'i', 'n', 'd', 'o', 'w', '>', '>']
}

/// Whether a line of Hyprland's event socket (`EVENT>>DATA`) reports a
/// change of the active window: its event name, before the first `>>`, is
/// `activewindow`.
pub fn is_hyprland_focus_event(line: &str) -> (r: bool)
    ensures
        r == (line@.len() >= 14 && line@.take(14) == active_window_tag()),
{
    let tag = "activewindow>>";
    proof {
        reveal_strlit("activewindow>>");
        assert(tag@ =~= active_window_tag());
    }
    let n = line.unicode_len();
    if n < 14 {
        return false;
    }
    let mut i: usize = 0;
    while i < 14
        invariant
            n == line@.len(),
            n >= 14,
            tag@ == active_window_tag(),
            i <= 14,
            forall|j: int| 0 <= j < i ==> line@[j] == tag@[j],
        decreases 14 - i,
    {
        if line.get_char(i) != tag.get_char(i) {
            proof {
                assert(line@.take(14)[i as int] != active_window_tag()[i as int]);
            }
            return false;
        }
        i = i + 1;
    }
    proof {
        assert(line@.take(14) =~= active_window_tag());
    }
    true
}

} // verus!
