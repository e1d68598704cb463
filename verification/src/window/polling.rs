//! Focus tracking by polling, for the compositors that report no events:
//! each poll reads the active window, and a focus event goes out when the
//! active window, or its title, differs from the one seen before.
use vstd::prelude::*;

use crate::text::{copy_opt_string, copy_string, copy_strings, string_eq};
use crate::window::{ProcessDetails, WindowEvent, WindowInfo};

verus! {

/// The character views of an optional list of strings.
pub open spec fn opt_strings_view(o: Option<Vec<String>>) -> Option<Seq<String>> {
    match o {
        Some(v) => Some(v@),
        None => None,
    }
}

/// Two records of a process agree on every field.
pub open spec fn same_details(a: ProcessDetails, b: ProcessDetails) -> bool {
    &&& a.user == b.user
    &&& a.exe == b.exe
    &&& opt_strings_view(a.cmd) == opt_strings_view(b.cmd)
    &&& a.cwd == b.cwd
}

/// Two window records agree on every field.
pub open spec fn same_window(a: WindowInfo, b: WindowInfo) -> bool {
    &&& a.id == b.id
    &&& a.title == b.title
    &&& a.app_name == b.app_name
    &&& a.pid == b.pid
    &&& a.is_focused == b.is_focused
    &&& a.workspace == b.workspace
    &&& a.geometry == b.geometry
    &&& match (a.details, b.details) {
        (None, None) => true,
        (Some(x), Some(y)) => same_details(x, y),
        _ => false,
    }
}

/// A copy of a window record.
pub fn copy_window(w: &WindowInfo) -> (r: WindowInfo)
    ensures
        same_window(r, *w),
{
    let details = match &w.details {
        Some(d) => Some(
            ProcessDetails {
                user: copy_opt_string(&d.user),
                exe: copy_opt_string(&d.exe),
                cmd: match &d.cmd {
                    Some(v) => Some(copy_strings(v)),
                    None => None,
                },
                cwd: copy_opt_string(&d.cwd),
            },
        ),
        None => None,
    };
    WindowInfo {
        id: copy_string(&w.id),
        title: copy_string(&w.title),
        app_name: copy_string(&w.app_name),
        pid: w.pid,
        is_focused: w.is_focused,
        workspace: copy_opt_string(&w.workspace),
        geometry: w.geometry,
        details,
    }
}

/// `current` is news after `last`: no window was seen before, or the one seen
/// had another id or another title.
pub open spec fn focus_changed(last: Option<WindowInfo>, current: WindowInfo) -> bool {
    match last {
        None => true,
        Some(l) => l.id@ != current.id@ || l.title@ != current.title@,
    }
}

/// The window that the last successful poll found active, if any.
#[derive(Clone, Debug)]
pub struct FocusPoller {
    pub last_focused_window: Option<WindowInfo>,
}

impl FocusPoller {
    /// A poller that has seen nothing yet.
    pub fn new() -> (r: FocusPoller)
        ensures
            r.last_focused_window is None,
    {
        FocusPoller { last_focused_window: None }
    }

    /// A poll found `current` active (none when no window is): a focus event
    /// for it when it is news, and the poller remembers it either way.
    pub fn observe(&mut self, current: Option<WindowInfo>) -> (r: Option<WindowEvent>)
        ensures
            match current {
                None => r is None && final(self).last_focused_window is None,
                Some(c) => {
                    &&& (focus_changed(old(self).last_focused_window, c) ==> r == Some(WindowEvent::WindowFocused(c)))
                    &&& (!focus_changed(old(self).last_focused_window, c) ==> r is None)
                    &&& final(self).last_focused_window matches Some(l) && same_window(l, c)
                },
            },
    {
        match current {
            None => {
                self.last_focused_window = None;
                None
            },
            Some(c) => {
                let changed = match &self.last_focused_window {
                    None => true,
                    Some(l) => !string_eq(&l.id, &c.id) || !string_eq(&l.title, &c.title),
                };
                self.last_focused_window = Some(copy_window(&c));
                if changed {
                    Some(WindowEvent::WindowFocused(c))
                } else {
                    None
                }
            },
        }
    }
}

/// `current` is news after `last` by id alone: no window was seen before,
/// or the one seen had another id.
pub open spec fn focus_moved(last: Option<WindowInfo>, current: WindowInfo) -> bool {
    match last {
        None => true,
        Some(l) => l.id@ != current.id@,
    }
}

/// The window that the last focus event reported, for a poller that goes by
/// window id alone (the rule used under GNOME on X11): a title change of the
/// same window is no news, and a poll that finds no active window forgets
/// nothing.
#[derive(Clone, Debug)]
pub struct IdFocusPoller {
    pub last_focused_window: Option<WindowInfo>,
}

impl IdFocusPoller {
    /// A poller that has seen nothing yet.
    pub fn new() -> (r: IdFocusPoller)
        ensures
            r.last_focused_window is None,
    {
        IdFocusPoller { last_focused_window: None }
    }

    /// A poll found `current` active (none when no window is): a focus event
    /// for it when its id differs from the last one reported, which it then
    /// becomes; otherwise nothing, and the poller is unchanged.
    pub fn observe(&mut self, current: Option<WindowInfo>) -> (r: Option<WindowEvent>)
        ensures
            match current {
                None => r is None && final(self).last_focused_window == old(self).last_focused_window,
                Some(c) => if focus_moved(old(self).last_focused_window, c) {
                    &&& r == Some(WindowEvent::WindowFocused(c))
                    &&& final(self).last_focused_window matches Some(l) && same_window(l, c)
                } else {
                    &&& r is None
                    &&& final(self).last_focused_window == old(self).last_focused_window
                },
            },
    {
        match current {
            None => None,
            Some(c) => {
                let moved = match &self.last_focused_window {
                    None => true,
                    Some(l) => !string_eq(&l.id, &c.id),
                };
                if moved {
                    self.last_focused_window = Some(copy_window(&c));
                    Some(WindowEvent::WindowFocused(c))
                } else {
                    None
                }
            },
        }
    }
}

} // verus!
