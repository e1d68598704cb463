//! What the daemon knows of the desktop's windows, and how it recognises the
//! compositor it runs under.
//!
//! The providers that talk to each compositor (command output, D-Bus, X11)
//! live in the application; they hand the records they read to the
//! conversions of this module and its submodules.
use vstd::prelude::*;

use crate::text::{contains_seq, str_contains, str_eq};

pub mod sway;
pub mod providers;
pub mod process;
pub mod x11;
pub mod polling;

verus! {

/// A window as a provider reports it.
#[derive(Clone, Debug)]
pub struct WindowInfo {
    pub id: String,
    pub title: String,
    pub app_name: String,
    pub pid: Option<u32>,
    pub is_focused: bool,
    pub workspace: Option<String>,
    pub geometry: Option<WindowGeometry>,
    /// What the system reports of the window's process; filled in by the
    /// application from the process table.
    pub details: Option<ProcessDetails>,
}

/// The process behind a window.
#[derive(Clone, Debug)]
pub struct ProcessDetails {
    pub user: Option<String>,
    pub exe: Option<String>,
    pub cmd: Option<Vec<String>>,
    pub cwd: Option<String>,
}

/// Where a window lies on screen.
#[derive(Clone, Copy, Debug, PartialEq, Eq, Structural)]
pub struct WindowGeometry {
    pub x: i32,
    pub y: i32,
    pub width: u32,
    pub height: u32,
}

/// The display protocol of the session.
#[derive(Clone, Copy, Debug, PartialEq, Eq, Structural)]
pub enum DisplayServer {
    X11,
    Wayland,
}

/// The compositor or window manager of the session.
#[derive(Clone, Copy, Debug, PartialEq, Eq, Structural)]
pub enum Compositor {
    Sway,
    Gnome(DisplayServer),
    Kde(DisplayServer),
    Hyprland,
    River,
    Niri,
    Fht,
    Unknown,
}

/// A change of the desktop's windows.
#[derive(Clone, Debug)]
pub enum WindowEvent {
    WindowFocused(WindowInfo),
    WindowOpened(WindowInfo),
    /// The id of the closed window.
    WindowClosed(String),
    WindowTitleChanged { id: String, new_title: String },
}

/// The X11 connection could not be opened.
#[derive(Clone, Debug)]
pub struct X11InitError(pub String);

/// The display server that a compositor runs on: GNOME and KDE say so
/// themselves, the generic X11 fallback is X11, the others are Wayland.
pub open spec fn spec_display_server(c: Compositor) -> DisplayServer {
    match c {
        Compositor::Gnome(ds) => ds,
        Compositor::Kde(ds) => ds,
        Compositor::Unknown => DisplayServer::X11,
        _ => DisplayServer::Wayland,
    }
}

impl Compositor {
    /// The display server this compositor runs on.
    pub fn display_server(&self) -> (r: DisplayServer)
        ensures
            r == spec_display_server(*self),
    {
        match self {
            Compositor::Gnome(ds) | Compositor::Kde(ds) => *ds,
            Compositor::Sway | Compositor::Hyprland | Compositor::River | Compositor::Niri
            | Compositor::Fht => DisplayServer::Wayland,
            Compositor::Unknown => DisplayServer::X11,
        }
    }
}

/// The lowercase form of a string as std's `str::to_lowercase` computes it
/// (full Unicode case mapping).
pub uninterp spec fn unicode_lowercase(s: Seq<char>) -> Seq<char>;

/// The ASCII lowercase form of a character.
pub open spec fn ascii_lower(c: char) -> char {
    if 'A' <= c && c <= 'Z' {
        ((c as u32) + 32) as char
    } else {
        c
    }
}

/// std's `str::to_lowercase`. Its result is named `unicode_lowercase`; for an
/// ASCII string, as std documents, it is the ASCII lowercase form.
#[verifier::external_body]
fn to_lowercase(s: &str) -> (r: String)
    ensures
        r@ == unicode_lowercase(s@),
        vstd::utf8::is_ascii_chars(s@) ==> r@ == s@.map_values(|c: char| ascii_lower(c)),
{
    s.to_lowercase()
}

/// What the environment of the session shows of its compositor.
#[derive(Clone, Debug)]
pub struct SessionFacts {
    /// `HYPRLAND_INSTANCE_SIGNATURE` is set.
    pub hyprland_signature: bool,
    /// `SWAYSOCK` is set.
    pub swaysock: bool,
    /// The session bus has an owner for `re.sonny.niri`.
    pub niri_on_bus: bool,
    /// `XDG_CURRENT_DESKTOP`, empty when unset.
    pub current_desktop: String,
    /// `KDE_FULL_SESSION` is set.
    pub kde_full_session: bool,
    /// `WAYLAND_DISPLAY` is set.
    pub wayland_display: bool,
    /// `DISPLAY` is set.
    pub display: bool,
}

pub open spec fn gnome_word() -> Seq<char> {
    seq!['g', 'n', 'o', 'm', 'e']
}

pub open spec fn kde_word() -> Seq<char> {
    seq!['k', 'd', 'e']
}

pub open spec fn fht_word() -> Seq<char> {
    seq!['f', 'h', 't', '-', 'c', 'o', 'm', 'p', 'o', 's', 'i', 't', 'o', 'r']
}

/// What GNOME's detection finds, from the lowercase desktop name.
pub open spec fn spec_detect_gnome(f: SessionFacts, desktop: Seq<char>) -> Option<Compositor> {
    if contains_seq(desktop, gnome_word()) {
        if f.wayland_display {
            Some(Compositor::Gnome(DisplayServer::Wayland))
        } else if f.display {
            Some(Compositor::Gnome(DisplayServer::X11))
        } else {
            None
        }
    } else {
        None
    }
}

/// What KDE's detection finds, from the lowercase desktop name.
pub open spec fn spec_detect_kde(f: SessionFacts, desktop: Seq<char>) -> Option<Compositor> {
    if contains_seq(desktop, kde_word()) || f.kde_full_session {
        if f.wayland_display {
            Some(Compositor::Kde(DisplayServer::Wayland))
        } else if f.display {
            Some(Compositor::Kde(DisplayServer::X11))
        } else {
            None
        }
    } else {
        None
    }
}

/// The compositor of the session: the first of Hyprland, Sway, Niri,
/// fht-compositor, GNOME and KDE whose detection succeeds, in that order. The
/// generic X11 fallback is never detected.
pub open spec fn spec_detect_environment(f: SessionFacts) -> Option<Compositor> {
    let desktop = unicode_lowercase(f.current_desktop@);
    if f.hyprland_signature {
        Some(Compositor::Hyprland)
    } else if f.swaysock {
        Some(Compositor::Sway)
    } else if f.niri_on_bus {
        Some(Compositor::Niri)
    } else if desktop == fht_word() {
        Some(Compositor::Fht)
    } else if spec_detect_gnome(f, desktop) is Some {
        spec_detect_gnome(f, desktop)
    } else {
        spec_detect_kde(f, desktop)
    }
}

/// Recognises the compositor from what the session's environment shows.
pub fn detect_environment(facts: &SessionFacts) -> (r: Option<Compositor>)
    ensures
        r == spec_detect_environment(*facts),
{
    let desktop = to_lowercase(facts.current_desktop.as_str());
    let ghost d = desktop@;
    proof {
        reveal_strlit("gnome");
        reveal_strlit("kde");
        reveal_strlit("fht-compositor");
    }
    if facts.hyprland_signature {
        return Some(Compositor::Hyprland);
    }
    if facts.swaysock {
        return Some(Compositor::Sway);
    }
    if facts.niri_on_bus {
        return Some(Compositor::Niri);
    }
    if str_eq(desktop.as_str(), "fht-compositor") {
        assert("fht-compositor"@ =~= fht_word());
        return Some(Compositor::Fht);
    }
    assert("fht-compositor"@ =~= fht_word());
    assert("gnome"@ =~= gnome_word());
    assert("kde"@ =~= kde_word());
    if str_contains(desktop.as_str(), "gnome") {
        if facts.wayland_display {
            return Some(Compositor::Gnome(DisplayServer::Wayland));
        } else if facts.display {
            return Some(Compositor::Gnome(DisplayServer::X11));
        }
    }
    if str_contains(desktop.as_str(), "kde") || facts.kde_full_session {
        if facts.wayland_display {
            return Some(Compositor::Kde(DisplayServer::Wayland));
        }
        if facts.display {
            return Some(Compositor::Kde(DisplayServer::X11));
        }
    }
    None
}

/// Why window tracking failed.
#[derive(Clone, Debug)]
pub enum WindowTrackerError {
    UnsupportedDisplayServer(String),
    UnsupportedCompositor(String),
    CommandFailed(String),
    ParseError(String),
    PermissionDenied,
    NotAvailable(String),
    X11InitError(X11InitError),
    /// A failure of the X11 connection, D-Bus or I/O, with its message.
    System(String),
}

/// The source of window information for a compositor.
#[derive(Clone, Copy, Debug, PartialEq, Eq, Structural)]
pub enum ProviderKind {
    Sway,
    Hyprland,
    Niri,
    Fht,
    Gnome(DisplayServer),
    Kde(DisplayServer),
    /// Any EWMH window manager, over X11.
    Ewmh,
}

/// The provider that serves a compositor, if one does.
pub open spec fn spec_provider(c: Compositor) -> Option<ProviderKind> {
    match c {
        Compositor::Sway => Some(ProviderKind::Sway),
        Compositor::Hyprland => Some(ProviderKind::Hyprland),
        Compositor::Niri => Some(ProviderKind::Niri),
        Compositor::Fht => Some(ProviderKind::Fht),
        Compositor::Gnome(ds) => Some(ProviderKind::Gnome(ds)),
        Compositor::Kde(ds) => Some(ProviderKind::Kde(ds)),
        Compositor::Unknown => Some(ProviderKind::Ewmh),
        Compositor::River => None,
    }
}

/// The message of a compositor that no provider serves.
pub open spec fn river_unsupported_message() -> Seq<char> {
    seq!['R', 'i', 'v', 'e', 'r', ' ', 'i', 's', ' ', 'n', 'o', 't', ' ', 'y', 'e', 't', ' ', 's', 'u', 'p', 'p', 'o', 'r', 't', 'e', 'd']
}

/// The message when no compositor was recognised.
pub open spec fn undetected_message() -> Seq<char> {
    seq![
        'C', 'o', 'u', 'l', 'd', ' ', 'n', 'o', 't', ' ', 'd', 'e', 't', 'e', 'c', 't', ' ', 'a',
        ' ', 's', 'u', 'p', 'p', 'o', 'r', 't', 'e', 'd', ' ', 'd', 'i', 's', 'p', 'l', 'a', 'y',
        ' ', 's', 'e', 'r', 'v', 'e', 'r', ' ', 'o', 'r', ' ', 'c', 'o', 'm', 'p', 'o', 's', 'i',
        't', 'o', 'r', '.'
    ]
}

impl Compositor {
    /// The provider that serves this compositor; River has none yet.
    pub fn into_provider(self) -> (r: Result<ProviderKind, WindowTrackerError>)
        ensures
            match spec_provider(self) {
                Some(p) => r == Ok::<ProviderKind, WindowTrackerError>(p),
                None => r matches Err(WindowTrackerError::UnsupportedCompositor(m)) && m@
                    == river_unsupported_message(),
            },
    {
        match self {
            Compositor::Sway => Ok(ProviderKind::Sway),
            Compositor::Hyprland => Ok(ProviderKind::Hyprland),
            Compositor::Niri => Ok(ProviderKind::Niri),
            Compositor::Fht => Ok(ProviderKind::Fht),
            Compositor::Gnome(ds) => Ok(ProviderKind::Gnome(ds)),
            Compositor::Kde(ds) => Ok(ProviderKind::Kde(ds)),
            Compositor::Unknown => Ok(ProviderKind::Ewmh),
            Compositor::River => {
                proof {
                    reveal_strlit("River is not yet supported");
                    assert("River is not yet supported"@ =~= river_unsupported_message());
                }
                Err(WindowTrackerError::UnsupportedCompositor(String::from_str("River is not yet supported")))
            },
        }
    }
}

/// How window tracking is set up: the compositor, its provider and its
/// display server.
#[derive(Clone, Copy, Debug, PartialEq, Eq, Structural)]
pub struct TrackerSetup {
    pub compositor: Compositor,
    pub provider: ProviderKind,
    pub display_server: DisplayServer,
}

/// The set-up of window tracking for the compositor that detection found:
/// none found is an unsupported display server, a compositor without a
/// provider is an unsupported compositor.
pub fn tracker_setup(detected: Option<Compositor>) -> (r: Result<TrackerSetup, WindowTrackerError>)
    ensures
        match detected {
            None => r matches Err(WindowTrackerError::UnsupportedDisplayServer(m)) && m@ == undetected_message(),
            Some(c) => match spec_provider(c) {
                Some(p) => r == Ok::<TrackerSetup, WindowTrackerError>(
                    TrackerSetup { compositor: c, provider: p, display_server: spec_display_server(c) },
                ),
                None => r matches Err(WindowTrackerError::UnsupportedCompositor(_)),
            },
        },
{
    match detected {
        None => {
            proof {
                reveal_strlit("Could not detect a supported display server or compositor.");
                assert("Could not detect a supported display server or compositor."@ =~= undetected_message());
            }
            Err(
                WindowTrackerError::UnsupportedDisplayServer(
                    String::from_str("Could not detect a supported display server or compositor."),
                ),
            )
        },
        Some(c) => {
            let provider = match c.into_provider() {
                Ok(p) => p,
                Err(e) => {
                    return Err(e);
                },
            };
            Ok(TrackerSetup { compositor: c, provider, display_server: c.display_server() })
        },
    }
}

/// Detection follows the signals of the session in a fixed order: Hyprland,
/// Sway, Niri, fht-compositor; then a desktop named GNOME gives GNOME on
/// Wayland when a Wayland display is set, else on X11 when an X display is
/// set; then a desktop named KDE (or a full KDE session) likewise gives KDE.
/// So a session whose desktop names GNOME or KDE and that has a display is
/// always detected; with no signal at all nothing is.
pub proof fn law_detection_follows_the_session(f: SessionFacts)
    ensures
        ({
            let desktop = unicode_lowercase(f.current_desktop@);
            let earlier = f.hyprland_signature || f.swaysock || f.niri_on_bus || desktop == fht_word();
            let gnome = contains_seq(desktop, gnome_word());
            let kde = contains_seq(desktop, kde_word()) || f.kde_full_session;
            let r = spec_detect_environment(f);
            &&& f.hyprland_signature ==> r == Some(Compositor::Hyprland)
            &&& !f.hyprland_signature && f.swaysock ==> r == Some(Compositor::Sway)
            &&& !f.hyprland_signature && !f.swaysock && f.niri_on_bus ==> r == Some(Compositor::Niri)
            &&& !f.hyprland_signature && !f.swaysock && !f.niri_on_bus && desktop == fht_word() ==> r
                == Some(Compositor::Fht)
            &&& !earlier && gnome && f.wayland_display ==> r == Some(Compositor::Gnome(DisplayServer::Wayland))
            &&& !earlier && gnome && !f.wayland_display && f.display ==> r == Some(
                Compositor::Gnome(DisplayServer::X11),
            )
            &&& !earlier && !gnome && kde && f.wayland_display ==> r == Some(Compositor::Kde(DisplayServer::Wayland))
            &&& !earlier && !gnome && kde && !f.wayland_display && f.display ==> r == Some(
                Compositor::Kde(DisplayServer::X11),
            )
            &&& (gnome || kde) && (f.display || f.wayland_display) ==> r is Some
            &&& !earlier && !gnome && !kde ==> r is None
            &&& !earlier && !f.display && !f.wayland_display ==> r is None
        }),
{
}

} // verus!
