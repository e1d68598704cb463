//! Windows of an X11 session (any EWMH window manager): the properties the
//! server reports for a window, turned into a window record.
use vstd::prelude::*;
use vstd::utf8::{decode_utf8, valid_utf8};

use crate::text::{decimal, u64_to_string};
use crate::window::{WindowGeometry, WindowInfo};

verus! {

/// The window id that X11 uses for "no window".
pub const X11_NONE: u32 = 0;

/// A window's geometry as the X server reports it.
#[derive(Clone, Copy, Debug, PartialEq, Eq, Structural)]
pub struct X11Geometry {
    pub x: i16,
    pub y: i16,
    pub width: u16,
    pub height: u16,
}

/// What the X server reports of one window: its `_NET_WM_NAME`, its
/// `WM_CLASS`, its `_NET_WM_PID` (if set) and its geometry.
#[derive(Clone, Debug)]
pub struct X11WindowProperties {
    pub title: Vec<u8>,
    pub class: Vec<u8>,
    pub pid: Option<u32>,
    pub geometry: X11Geometry,
}

/// The text that `String::from_utf8_lossy` makes of `bytes`: their decoding,
/// each invalid sequence replaced by U+FFFD.
pub uninterp spec fn utf8_lossy(bytes: Seq<u8>) -> Seq<char>;

/// std's `String::from_utf8`: the text that `bytes` encode when they are
/// valid UTF-8, as std documents; none otherwise.
#[verifier::external_body]
fn utf8_text(bytes: Vec<u8>) -> (r: Option<String>)
    ensures
        r is Some <==> valid_utf8(bytes@),
        r matches Some(s) ==> s@ == decode_utf8(bytes@),
{
    String::from_utf8(bytes).ok()
}

/// std's `String::from_utf8_lossy`. Its result is named `utf8_lossy`; for
/// valid UTF-8, as std documents, it is the text the bytes encode.
#[verifier::external_body]
fn utf8_text_lossy(bytes: &[u8]) -> (r: String)
    ensures
        r@ == utf8_lossy(bytes@),
        valid_utf8(bytes@) ==> r@ == decode_utf8(bytes@),
{
    String::from_utf8_lossy(bytes).into_owned()
}

/// The index of the first NUL byte at or after `k`, or the length when there
/// is none.
pub open spec fn nul_from(bytes: Seq<u8>, k: int) -> int
    decreases bytes.len() - k,
{
    if k >= bytes.len() {
        bytes.len() as int
    } else if bytes[k] == 0 {
        k
    } else {
        nul_from(bytes, k + 1)
    }
}

/// The second NUL-separated field of `WM_CLASS` (the class name), empty
/// when there is no second field.
pub open spec fn class_name_bytes(class: Seq<u8>) -> Seq<u8> {
    let first = nul_from(class, 0);
    if first >= class.len() {
        Seq::empty()
    } else {
        class.subrange(first + 1, nul_from(class, first + 1))
    }
}

proof fn lemma_nul_from_bounds(bytes: Seq<u8>, k: int)
    requires
        0 <= k <= bytes.len(),
    ensures
        k <= nul_from(bytes, k) <= bytes.len(),
    decreases bytes.len() - k,
{
    if k < bytes.len() && bytes[k] != 0 {
        lemma_nul_from_bounds(bytes, k + 1);
    }
}

/// The index of the first NUL byte at or after `k`, or the length.
fn find_nul(bytes: &Vec<u8>, k: usize) -> (r: usize)
    requires
        k <= bytes@.len(),
    ensures
        r == nul_from(bytes@, k as int),
{
    let mut i = k;
    while i < bytes.len() && bytes[i] != 0
        invariant
            k <= i <= bytes@.len(),
            nul_from(bytes@, k as int) == nul_from(bytes@, i as int),
        decreases bytes@.len() - i,
    {
        i = i + 1;
    }
    i
}

/// The class name field of `WM_CLASS` (see `class_name_bytes`).
pub fn class_name(class: &Vec<u8>) -> (r: Vec<u8>)
    ensures
        r@ == class_name_bytes(class@),
{
    let first = find_nul(class, 0);
    let mut r: Vec<u8> = Vec::new();
    if first >= class.len() {
        return r;
    }
    let end = find_nul(class, first + 1);
    proof {
        lemma_nul_from_bounds(class@, first + 1);
    }
    let mut i = first + 1;
    while i < end
        invariant
            first + 1 <= i <= end,
            end <= class@.len(),
            r@ == class@.subrange(first + 1, i as int),
        decreases end - i,
    {
        r.push(class[i]);
        proof {
            assert(class@.subrange(first + 1, i + 1int) =~= class@.subrange(first + 1, i as int).push(class@[i as int]));
        }
        i = i + 1;
    }
    r
}

impl WindowInfo {
    /// The window that X11 window `window` stands for: none for the "no
    /// window" id; else its id in decimal, its name (empty unless valid
    /// UTF-8), its class name (decoded leniently), its pid and geometry, no
    /// workspace, and no process details yet.
    pub fn from_x11_properties(window: u32, props: X11WindowProperties, is_focused: bool) -> (r: Option<WindowInfo>)
        ensures
            window == X11_NONE ==> r is None,
            window != X11_NONE ==> (r matches Some(w) && {
                &&& w.id@ == decimal(window as nat)
                &&& w.title@ == (if valid_utf8(props.title@) { decode_utf8(props.title@) } else { Seq::empty() })
                &&& w.app_name@ == utf8_lossy(class_name_bytes(props.class@))
                &&& w.pid == props.pid
                &&& w.is_focused == is_focused
                &&& w.workspace is None
                &&& w.geometry == Some(
                    WindowGeometry {
                        x: props.geometry.x as i32,
                        y: props.geometry.y as i32,
                        width: props.geometry.width as u32,
                        height: props.geometry.height as u32,
                    },
                )
                &&& w.details is None
            }),
    {
        if window == X11_NONE {
            return None;
        }
        let title = match utf8_text(props.title) {
            Some(t) => t,
            None => String::new(),
        };
        let class = class_name(&props.class);
        let app_name = utf8_text_lossy(class.as_slice());
        Some(
            WindowInfo {
                id: u64_to_string(window as u64),
                title,
                app_name,
                pid: props.pid,
                is_focused,
                workspace: None,
                geometry: Some(
                    WindowGeometry {
                        x: props.geometry.x as i32,
                        y: props.geometry.y as i32,
                        width: props.geometry.width as u32,
                        height: props.geometry.height as u32,
                    },
                ),
                details: None,
            },
        )
    }
}

} // verus!
