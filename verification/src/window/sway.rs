//! Sway's window tree and window events, as `swaymsg` reports them.
use vstd::prelude::*;

use crate::text::{copy_string, i64_to_string, signed_decimal, str_eq};
use crate::window::{WindowEvent, WindowGeometry, WindowInfo};

verus! {

/// A node of Sway's container tree.
#[derive(Debug)]
pub struct SwayNode {
    pub id: i64,
    pub name: Option<String>,
    pub app_id: Option<String>,
    pub pid: Option<u32>,
    pub focused: bool,
    pub rect: SwayRect,
    pub nodes: Vec<SwayNode>,
    pub floating_nodes: Vec<SwayNode>,
}

/// A node's rectangle.
#[derive(Clone, Copy, Debug)]
pub struct SwayRect {
    pub x: i32,
    pub y: i32,
    pub width: u32,
    pub height: u32,
}

/// A window event of Sway's event stream.
#[derive(Debug)]
pub struct SwayEvent {
    pub change: String,
    pub container: SwayNode,
}

/// The characters of an optional string, empty when absent.
pub open spec fn text_or_empty(o: Option<String>) -> Seq<char> {
    match o {
        Some(s) => s@,
        None => Seq::empty(),
    }
}

/// `info` is the window that the Sway node `node` stands for: the id is the
/// node's id in decimal, the title its name, the application its app id (both
/// empty when absent), with the node's pid, focus and rectangle, no workspace,
/// and no process details yet.
pub open spec fn sway_window(node: SwayNode, info: WindowInfo) -> bool {
    &&& info.id@ == signed_decimal(node.id as int)
    &&& info.title@ == text_or_empty(node.name)
    &&& info.app_name@ == text_or_empty(node.app_id)
    &&& info.pid == node.pid
    &&& info.is_focused == node.focused
    &&& info.workspace is None
    &&& info.geometry == Some(
        WindowGeometry {
            x: node.rect.x,
            y: node.rect.y,
            width: node.rect.width,
            height: node.rect.height,
        },
    )
    &&& info.details is None
}

fn text_of(o: &Option<String>) -> (r: String)
    ensures
        r@ == text_or_empty(*o),
{
    match o {
        Some(s) => copy_string(s),
        None => String::new(),
    }
}

impl WindowInfo {
    /// The window that a Sway node stands for (see `sway_window`); every
    /// node gives one.
    pub fn from_sway_node(node: &SwayNode) -> (r: Option<WindowInfo>)
        ensures
            r matches Some(info) && sway_window(*node, info),
    {
        Some(WindowInfo {
            id: i64_to_string(node.id),
            title: text_of(&node.name),
            app_name: text_of(&node.app_id),
            pid: node.pid,
            is_focused: node.focused,
            workspace: None,
            geometry: Some(
                WindowGeometry {
                    x: node.rect.x,
                    y: node.rect.y,
                    width: node.rect.width,
                    height: node.rect.height,
                },
            ),
            details: None,
        })
    }
}

/// The first focused node of a tree, in pre-order: the node itself, then its
/// tiled children, then its floating children.
pub open spec fn focused_in(node: SwayNode) -> Option<SwayNode>
    decreases node, 0int,
{
    if node.focused {
        Some(node)
    } else {
        match focused_in_list(node.nodes@, 0) {
            Some(n) => Some(n),
            None => focused_in_list(node.floating_nodes@, 0),
        }
    }
}

/// The first focused node, in pre-order, of the trees `list[i..]`.
pub open spec fn focused_in_list(list: Seq<SwayNode>, i: int) -> Option<SwayNode>
    decreases list, list.len() - i,
{
    if i < 0 || i >= list.len() {
        None
    } else {
        match focused_in(list[i]) {
            Some(n) => Some(n),
            None => focused_in_list(list, i + 1),
        }
    }
}

/// The nodes of a tree that have a pid, in pre-order.
pub open spec fn nodes_with_pid(node: SwayNode) -> Seq<SwayNode>
    decreases node, 0int,
{
    (if node.pid is Some { seq![node] } else { Seq::empty() }) + nodes_with_pid_list(
        node.nodes@,
        0,
    ) + nodes_with_pid_list(node.floating_nodes@, 0)
}

/// The nodes with a pid, in pre-order, of the trees `list[i..]`.
pub open spec fn nodes_with_pid_list(list: Seq<SwayNode>, i: int) -> Seq<SwayNode>
    decreases list, list.len() - i,
{
    if i < 0 || i >= list.len() {
        Seq::empty()
    } else {
        nodes_with_pid(list[i]) + nodes_with_pid_list(list, i + 1)
    }
}

/// The Sway provider's reading of the container tree.
pub struct SwayProvider {}

impl SwayProvider {
    /// The focused node of a tree, if any (see `focused_in`).
    pub fn find_focused_node(node: &SwayNode) -> (r: Option<&SwayNode>)
        ensures
            match r {
                Some(n) => focused_in(*node) == Some(*n),
                None => focused_in(*node) is None,
            },
        decreases node, 0int,
    {
        if node.focused {
            return Some(node);
        }
        match Self::find_focused_in_list(&node.nodes, 0) {
            Some(n) => Some(n),
            None => Self::find_focused_in_list(&node.floating_nodes, 0),
        }
    }

    fn find_focused_in_list(list: &Vec<SwayNode>, i: usize) -> (r: Option<&SwayNode>)
        requires
            i <= list@.len(),
        ensures
            match r {
                Some(n) => focused_in_list(list@, i as int) == Some(*n),
                None => focused_in_list(list@, i as int) is None,
            },
        decreases list@, list@.len() - i,
    {
        if i >= list.len() {
            return None;
        }
        match Self::find_focused_node(&list[i]) {
            Some(n) => Some(n),
            None => Self::find_focused_in_list(list, i + 1),
        }
    }

    /// Appends the windows of the nodes of a tree that have a pid, in pre-order.
    pub fn collect_windows(node: &SwayNode, windows: &mut Vec<WindowInfo>)
        ensures
            final(windows)@.len() == old(windows)@.len() + nodes_with_pid(*node).len(),
            forall|k: int| 0 <= k < old(windows)@.len() ==> final(windows)@[k] == old(windows)@[k],
            forall|k: int|
                0 <= k < nodes_with_pid(*node).len() ==> sway_window(
                    #[trigger] nodes_with_pid(*node)[k],
                    final(windows)@[old(windows)@.len() + k],
                ),
        decreases node, 0int,
    {
        let ghost w0 = windows@;
        let ghost own: Seq<SwayNode> = if node.pid.is_some() { seq![*node] } else { Seq::empty() };
        if node.pid.is_some() {
            if let Some(info) = WindowInfo::from_sway_node(node) {
                windows.push(info);
            }
        }
        let ghost w1 = windows@;
        Self::collect_windows_list(&node.nodes, 0, windows);
        let ghost w2 = windows@;
        Self::collect_windows_list(&node.floating_nodes, 0, windows);
        proof {
            let a = nodes_with_pid_list(node.nodes@, 0);
            let b = nodes_with_pid_list(node.floating_nodes@, 0);
            assert(nodes_with_pid(*node) == own + a + b);
            assert forall|k: int| 0 <= k < nodes_with_pid(*node).len() implies sway_window(
                #[trigger] nodes_with_pid(*node)[k],
                windows@[w0.len() + k],
            ) by {
                if k < own.len() {
                    assert(nodes_with_pid(*node)[k] == *node);
                } else if k < own.len() + a.len() {
                    assert(nodes_with_pid(*node)[k] == a[k - own.len()]);
                } else {
                    assert(nodes_with_pid(*node)[k] == b[k - own.len() - a.len()]);
                }
            }
        }
    }

    fn collect_windows_list(list: &Vec<SwayNode>, i: usize, windows: &mut Vec<WindowInfo>)
        requires
            i <= list@.len(),
        ensures
            final(windows)@.len() == old(windows)@.len() + nodes_with_pid_list(list@, i as int).len(),
            forall|k: int| 0 <= k < old(windows)@.len() ==> final(windows)@[k] == old(windows)@[k],
            forall|k: int|
                0 <= k < nodes_with_pid_list(list@, i as int).len() ==> sway_window(
                    #[trigger] nodes_with_pid_list(list@, i as int)[k],
                    final(windows)@[old(windows)@.len() + k],
                ),
        decreases list@, list@.len() - i,
    {
        if i >= list.len() {
            return;
        }
        let ghost w0 = windows@;
        Self::collect_windows(&list[i], windows);
        Self::collect_windows_list(list, i + 1, windows);
        proof {
            let a = nodes_with_pid(list@[i as int]);
            let b = nodes_with_pid_list(list@, i + 1);
            assert(nodes_with_pid_list(list@, i as int) == a + b);
            assert forall|k: int| 0 <= k < nodes_with_pid_list(list@, i as int).len() implies sway_window(
                #[trigger] nodes_with_pid_list(list@, i as int)[k],
                windows@[w0.len() + k],
            ) by {
                if k < a.len() {
                    assert(nodes_with_pid_list(list@, i as int)[k] == a[k]);
                } else {
                    assert(nodes_with_pid_list(list@, i as int)[k] == b[k - a.len()]);
                }
            }
        }
    }
}

/// The event that a Sway window event stands for: a focus, a new window and
/// a title change carry the container's window; a close carries the
/// container's id; any other change gives no event.
pub open spec fn sway_event_kind(change: Seq<char>) -> int {
    if change == seq!['f', 'o', 'c', 'u', 's'] {
        1
    } else if change == seq!['n', 'e', 'w'] {
        2
    } else if change == seq!['t', 'i', 't', 'l', 'e'] {
        3
    } else if change == seq!['c', 'l', 'o', 's', 'e'] {
        4
    } else {
        0
    }
}

impl WindowEvent {
    /// The event of a Sway window event: "focus", "new" and "title" give a
    /// focus, an opening and a title change of the container's window,
    /// "close" the closing of the container's id; other changes give none.
    pub fn from_sway_event(event: &SwayEvent) -> (r: Option<WindowEvent>)
        ensures
            sway_event_kind(event.change@) == 0 ==> r is None,
            sway_event_kind(event.change@) == 1 ==> (r matches Some(WindowEvent::WindowFocused(info))
                && sway_window(event.container, info)),
            sway_event_kind(event.change@) == 2 ==> (r matches Some(WindowEvent::WindowOpened(info))
                && sway_window(event.container, info)),
            sway_event_kind(event.change@) == 3 ==> (r matches Some(
                WindowEvent::WindowTitleChanged { id, new_title },
            ) && id@ == signed_decimal(event.container.id as int) && new_title@ == text_or_empty(
                event.container.name,
            )),
            sway_event_kind(event.change@) == 4 ==> (r matches Some(WindowEvent::WindowClosed(id))
                && id@ == signed_decimal(event.container.id as int)),
    {
        proof {
            reveal_strlit("focus");
            reveal_strlit("new");
            reveal_strlit("title");
            reveal_strlit("close");
        }
        let change = event.change.as_str();
        let is_focus = str_eq(change, "focus");
        let is_new = str_eq(change, "new");
        let is_title = str_eq(change, "title");
        assert("focus"@ =~= seq!['f', 'o', 'c', 'u', 's']);
        assert("new"@ =~= seq!['n', 'e', 'w']);
        assert("title"@ =~= seq!['t', 'i', 't', 'l', 'e']);
        assert("close"@ =~= seq!['c', 'l', 'o', 's', 'e']);
        if is_focus || is_new || is_title {
            let info = match WindowInfo::from_sway_node(&event.container) {
                Some(info) => info,
                None => return None,
            };
            if is_focus {
                Some(WindowEvent::WindowFocused(info))
            } else if is_new {
                Some(WindowEvent::WindowOpened(info))
            } else {
                Some(WindowEvent::WindowTitleChanged { id: info.id, new_title: info.title })
            }
        } else if str_eq(change, "close") {
            Some(WindowEvent::WindowClosed(i64_to_string(event.container.id)))
        } else {
            None
        }
    }
}

} // verus!
