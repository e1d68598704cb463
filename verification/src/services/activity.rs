//! Activity tracking: what the activity service does when the focused window
//! changes. A window that keeps the focus renews its activity; a switch to
//! another window closes the previous activity and opens a new one.
use vstd::prelude::*;

use crate::text::{copy_string, i64_to_string, str_eq, string_eq};
use crate::window::sway::{sway_event_kind, sway_window, SwayEvent};
use crate::window::WindowInfo;

verus! {

/// A switch of window that comes less than this many milliseconds after the
/// previous activity was last seen extends that activity up to the switch.
pub const JOIN_GAP_MS: u64 = 60000;

/// A window event as the activity service takes it. A focus change and a
/// title change both carry the record of the window concerned.
#[derive(Clone, Debug)]
pub enum ActivityEvent {
    WindowFocused(WindowInfo),
    WindowOpened(WindowInfo),
    /// The id of the closed window.
    WindowClosed(String),
    WindowTitleChanged(WindowInfo),
}

impl ActivityEvent {
    /// The event of a Sway window event: "focus", "new" and "title" give a
    /// focus, an opening and a title change of the container's window,
    /// "close" the closing of the container's id; other changes give none.
    pub fn from_sway_event(event: &SwayEvent) -> (r: Option<ActivityEvent>)
        ensures
            sway_event_kind(event.change@) == 0 ==> r is None,
            sway_event_kind(event.change@) == 1 ==> (r matches Some(ActivityEvent::WindowFocused(info))
                && sway_window(event.container, info)),
            sway_event_kind(event.change@) == 2 ==> (r matches Some(ActivityEvent::WindowOpened(info))
                && sway_window(event.container, info)),
            sway_event_kind(event.change@) == 3 ==> (r matches Some(
                ActivityEvent::WindowTitleChanged(info),
            ) && sway_window(event.container, info)),
            sway_event_kind(event.change@) == 4 ==> (r matches Some(ActivityEvent::WindowClosed(id))
                && id@ == crate::text::signed_decimal(event.container.id as int)),
    {
        proof {
            reveal_strlit("focus");
            reveal_strlit("new");
            reveal_strlit("title");
            reveal_strlit("close");
        }
        let change = event.change.as_str();
        let is_focus = str_eq(change, "focus");
        let is_new = str_eq(change, "new");
        let is_title = str_eq(change, "title");
        assert("focus"@ =~= seq!['f', 'o', 'c', 'u', 's']);
        assert("new"@ =~= seq!['n', 'e', 'w']);
        assert("title"@ =~= seq!['t', 'i', 't', 'l', 'e']);
        assert("close"@ =~= seq!['c', 'l', 'o', 's', 'e']);
        if is_focus || is_new || is_title {
            let info = match WindowInfo::from_sway_node(&event.container) {
                Some(info) => info,
                None => return None,
            };
            if is_focus {
                Some(ActivityEvent::WindowFocused(info))
            } else if is_new {
                Some(ActivityEvent::WindowOpened(info))
            } else {
                Some(ActivityEvent::WindowTitleChanged(info))
            }
        } else if str_eq(change, "close") {
            Some(ActivityEvent::WindowClosed(i64_to_string(event.container.id)))
        } else {
            None
        }
    }
}

/// The window that the activity service follows, with its open activity.
#[derive(Clone, Debug)]
pub struct LastActiveWindowData {
    pub window_id: String,
    pub activity_id: String,
    pub last_active: u64,
}

/// The renewal of an activity's last activity time.
#[derive(Clone, Debug)]
pub struct ActivityRenewal {
    pub activity_id: String,
    pub at: u64,
}

/// What to do for a window event.
#[derive(Clone, Debug)]
pub enum ActivityPlan {
    /// Nothing: the event does not change the active window.
    Ignore,
    /// The followed window is still active: renew its activity at `renew.at`.
    Renew(ActivityRenewal),
    /// Another window became active: renew the previous activity (if there
    /// is one) as `close` says, then register an activity of `app_name`
    /// starting `at`, and follow `window_id`.
    Switch { close: Option<ActivityRenewal>, app_name: String, window_id: String, at: u64 },
}

/// The activity service's memory: the window it follows, if any.
#[derive(Clone, Debug)]
pub struct ActivityServiceInner {
    pub last_active_window: Option<LastActiveWindowData>,
}

/// When the previous activity is closed on a switch at `now`: at the switch
/// when it was seen less than a minute before, else a minute after it was
/// last seen.
pub open spec fn close_time(last_active: u64, now: u64) -> int {
    if now - last_active < JOIN_GAP_MS {
        now as int
    } else {
        last_active + JOIN_GAP_MS
    }
}

/// The plan for `info` becoming the active window at `now`.
pub open spec fn plan_for(last: Option<LastActiveWindowData>, info: WindowInfo, now: u64, plan: ActivityPlan) -> bool {
    match last {
        Some(l) if l.window_id@ == info.id@ => plan matches ActivityPlan::Renew(r)
            && r.activity_id@ == l.activity_id@ && r.at == now,
        _ => plan matches ActivityPlan::Switch { close, app_name, window_id, at } && {
            &&& app_name@ == info.app_name@
            &&& window_id@ == info.id@
            &&& at == now
            &&& match last {
                None => close is None,
                Some(l) => close matches Some(c) && c.activity_id@ == l.activity_id@
                    && c.at == close_time(l.last_active, now),
            }
        },
    }
}

/// The window that a focus or title change reports, if the event is one.
pub open spec fn reported_window(event: ActivityEvent) -> Option<WindowInfo> {
    match event {
        ActivityEvent::WindowFocused(info) => Some(info),
        ActivityEvent::WindowTitleChanged(info) => Some(info),
        _ => None,
    }
}

/// The followed window's last activity is not after `now` when another
/// window's focus or title change is reported (a switch measures the gap
/// from it).
pub open spec fn clock_ordered(last: Option<LastActiveWindowData>, event: ActivityEvent, now: u64) -> bool {
    match (last, reported_window(event)) {
        (Some(l), Some(info)) => l.window_id@ != info.id@ ==> l.last_active <= now,
        _ => true,
    }
}

impl ActivityServiceInner {
    /// A service that follows no window yet.
    pub fn new() -> (r: ActivityServiceInner)
        ensures
            r.last_active_window is None,
    {
        ActivityServiceInner { last_active_window: None }
    }

    /// What to do for `event` at `now`. A focus or title change of the
    /// followed window renews its activity; one of another window closes the
    /// previous activity (at the switch when the gap is under a minute, else
    /// a minute after it was last seen) and opens one for the new window.
    /// Other events change nothing.
    pub fn handle_window_event(&self, event: &ActivityEvent, now: u64) -> (r: ActivityPlan)
        requires
            clock_ordered(self.last_active_window, *event, now),
        ensures
            match reported_window(*event) {
                Some(info) => plan_for(self.last_active_window, info, now, r),
                None => r is Ignore,
            },
    {
        match event {
            ActivityEvent::WindowFocused(info) => self.plan_focus(info, now),
            ActivityEvent::WindowTitleChanged(info) => self.plan_focus(info, now),
            _ => ActivityPlan::Ignore,
        }
    }

    fn plan_focus(&self, info: &WindowInfo, now: u64) -> (r: ActivityPlan)
        requires
            self.last_active_window matches Some(l) ==> (l.window_id@ != info.id@ ==> l.last_active
                <= now),
        ensures
            plan_for(self.last_active_window, *info, now, r),
    {
        let close = match &self.last_active_window {
            Some(l) => {
                if string_eq(&l.window_id, &info.id) {
                    return ActivityPlan::Renew(
                        ActivityRenewal { activity_id: copy_string(&l.activity_id), at: now },
                    );
                }
                let at = if now - l.last_active < JOIN_GAP_MS {
                    now
                } else {
                    l.last_active + JOIN_GAP_MS
                };
                Some(ActivityRenewal { activity_id: copy_string(&l.activity_id), at })
            },
            None => None,
        };
        ActivityPlan::Switch {
            close,
            app_name: copy_string(&info.app_name),
            window_id: copy_string(&info.id),
            at: now,
        }
    }

    /// The followed activity was renewed at `at`.
    pub fn record_renewal(&mut self, at: u64)
        ensures
            match old(self).last_active_window {
                Some(l) => final(self).last_active_window matches Some(m) && m.window_id@
                    == l.window_id@ && m.activity_id@ == l.activity_id@ && m.last_active == at,
                None => final(self).last_active_window is None,
            },
    {
        match &mut self.last_active_window {
            Some(l) => {
                l.last_active = at;
            },
            None => {},
        }
    }

    /// The service now follows `window_id`, whose new activity is
    /// `activity_id`, seen at `at`.
    pub fn record_switch(&mut self, window_id: String, activity_id: String, at: u64)
        ensures
            final(self).last_active_window matches Some(m) && m.window_id@ == window_id@
                && m.activity_id@ == activity_id@ && m.last_active == at,
    {
        self.last_active_window = Some(
            LastActiveWindowData { window_id, activity_id, last_active: at },
        );
    }
}

/// A switch never closes the previous activity after the new one starts, and
/// never earlier than that activity was last seen: the activities a window
/// switch separates do not overlap.
pub proof fn law_switch_keeps_activities_apart(
    last: LastActiveWindowData,
    info: WindowInfo,
    now: u64,
    plan: ActivityPlan,
)
    requires
        last.last_active <= now,
        last.window_id@ != info.id@,
        plan_for(Some(last), info, now, plan),
    ensures
        plan matches ActivityPlan::Switch { close, at, .. } && close matches Some(c) && last.last_active
            <= c.at <= at,
{
}

} // verus!
