//! The window tree a tiling compositor reports: finding the windows on the
//! visible workspaces, and the focused window.
use vstd::prelude::*;
use crate::capture::{format_window_box, window_box_text, window_geometry, window_geometry_spec, WindowRect};
use crate::text::{chars_eq, chars_of};

verus! {

/// One node of the window tree.
#[derive(Debug)]
pub struct SwayNode {
    /// The node's type: `root`, `output`, `workspace`, `con`, ...
    pub kind: String,
    pub name: Option<String>,
    pub focused: bool,
    /// Whether the node carries an application id.
    pub has_app_id: bool,
    /// Whether the node carries X11 window properties.
    pub has_window_properties: bool,
    pub rect: WindowRect,
    pub nodes: Vec<SwayNode>,
    pub floating_nodes: Vec<SwayNode>,
}

/// A container holding an application window.
pub open spec fn is_window_spec(n: SwayNode) -> bool {
    n.kind@ == "con"@ && (n.has_app_id || n.has_window_properties)
}

pub open spec fn names_of(v: Seq<String>) -> Seq<Seq<char>> {
    v.map_values(|s: String| s@)
}

/// Whether the subtree at `n` is on a visible workspace: a workspace node
/// decides by its name, any other node inherits from its parent.
pub open spec fn visible_below(n: SwayNode, visible_workspaces: Seq<Seq<char>>, visible: bool) -> bool {
    if n.kind@ == "workspace"@ {
        match n.name {
            Some(s) => visible_workspaces.contains(s@),
            None => false,
        }
    } else {
        visible
    }
}

/// The selector line of `n` itself, if it is a visible window with a valid rectangle.
pub open spec fn own_box(n: SwayNode, visible: bool) -> Seq<Seq<char>> {
    if visible && is_window_spec(n) {
        match window_geometry_spec(n.rect) {
            Ok(g) => seq![
                window_box_text(
                    g.x as int,
                    g.y as int,
                    g.width as int,
                    g.height as int,
                    match n.name {
                        Some(t) => t@,
                        None => Seq::empty(),
                    },
                ),
            ],
            Err(_) => Seq::empty(),
        }
    } else {
        Seq::empty()
    }
}

/// Selector lines of the visible windows under `n`, in tree order: the node,
/// then its tiled children, then its floating ones.
pub open spec fn tree_boxes(n: SwayNode, ws: Seq<Seq<char>>, visible: bool) -> Seq<Seq<char>>
    decreases n, 0int,
{
    let v = visible_below(n, ws, visible);
    own_box(n, v) + list_boxes(n.nodes@, ws, v, 0) + list_boxes(n.floating_nodes@, ws, v, 0)
}

pub open spec fn list_boxes(children: Seq<SwayNode>, ws: Seq<Seq<char>>, visible: bool, k: int) -> Seq<
    Seq<char>,
>
    decreases children, children.len() - k,
{
    if 0 <= k < children.len() {
        tree_boxes(children[k], ws, visible) + list_boxes(children, ws, visible, k + 1)
    } else {
        Seq::empty()
    }
}

fn is_window(n: &SwayNode) -> (r: bool)
    ensures
        r == is_window_spec(*n),
{
    let kind = chars_of(n.kind.as_str());
    let con = chars_of("con");
    chars_eq(&kind, &con) && (n.has_app_id || n.has_window_properties)
}

fn name_listed(names: &Vec<String>, name: &String) -> (r: bool)
    ensures
        r == names_of(names@).contains(name@),
{
    let mut k: usize = 0;
    while k < names.len()
        invariant
            k <= names.len(),
            forall|m: int| 0 <= m < k ==> names@[m]@ != name@,
        decreases names.len() - k,
    {
        if names[k] == *name {
            assert(names_of(names@)[k as int] == name@);
            return true;
        }
        k = k + 1;
    }
    assert forall|m: int| 0 <= m < names_of(names@).len() implies names_of(names@)[m] != name@ by {
        assert(names_of(names@)[m] == names@[m]@);
    }
    false
}

fn visible_below_exec(n: &SwayNode, visible_workspaces: &Vec<String>, visible: bool) -> (r: bool)
    ensures
        r == visible_below(*n, names_of(visible_workspaces@), visible),
{
    let kind = chars_of(n.kind.as_str());
    let workspace = chars_of("workspace");
    if chars_eq(&kind, &workspace) {
        match &n.name {
            Some(s) => name_listed(visible_workspaces, s),
            None => false,
        }
    } else {
        visible
    }
}

/// Appends the selector lines of the visible windows under `node`.
pub fn collect_visible_windows(
    node: &SwayNode,
    visible_workspaces: &Vec<String>,
    visible: bool,
    boxes: &mut Vec<String>,
)
    ensures
        names_of(final(boxes)@) == names_of(old(boxes)@) + tree_boxes(
            *node,
            names_of(visible_workspaces@),
            visible,
        ),
    decreases node, 0int,
{
    let ghost ws = names_of(visible_workspaces@);
    let v = visible_below_exec(node, visible_workspaces, visible);
    let ghost start = names_of(boxes@);
    if v && is_window(node) {
        if let Ok(g) = window_geometry(&node.rect) {
            let title = match &node.name {
                Some(t) => t.as_str(),
                None => "",
            };
            proof {
                reveal_strlit("");
            }
            if let Some(line) = format_window_box(g.x, g.y, g.width, g.height, title) {
                boxes.push(line);
            }
        }
    }
    assert(names_of(boxes@) =~= start + own_box(*node, v));
    collect_list(&node.nodes, visible_workspaces, v, boxes, 0);
    collect_list(&node.floating_nodes, visible_workspaces, v, boxes, 0);
    assert(names_of(boxes@) =~= start + tree_boxes(*node, ws, visible));
}

fn collect_list(
    children: &Vec<SwayNode>,
    visible_workspaces: &Vec<String>,
    visible: bool,
    boxes: &mut Vec<String>,
    k: usize,
)
    requires
        k <= children.len(),
    ensures
        names_of(final(boxes)@) == names_of(old(boxes)@) + list_boxes(
            children@,
            names_of(visible_workspaces@),
            visible,
            k as int,
        ),
    decreases children@, children@.len() - k,
{
    if k < children.len() {
        let ghost start = names_of(boxes@);
        collect_visible_windows(&children[k], visible_workspaces, visible, boxes);
        collect_list(children, visible_workspaces, visible, boxes, k + 1);
        assert(names_of(boxes@) =~= start + list_boxes(
            children@,
            names_of(visible_workspaces@),
            visible,
            k as int,
        ));
    } else {
        assert(names_of(boxes@) =~= names_of(old(boxes)@) + list_boxes(
            children@,
            names_of(visible_workspaces@),
            visible,
            k as int,
        ));
    }
}

/// The rectangle of the first focused window under `n`, in tree order.
pub open spec fn focused_rect(n: SwayNode) -> Option<WindowRect>
    decreases n, 0int,
{
    if n.focused && is_window_spec(n) {
        Some(n.rect)
    } else {
        match focused_in_list(n.nodes@, 0) {
            Some(r) => Some(r),
            None => focused_in_list(n.floating_nodes@, 0),
        }
    }
}

pub open spec fn focused_in_list(children: Seq<SwayNode>, k: int) -> Option<WindowRect>
    decreases children, children.len() - k,
{
    if 0 <= k < children.len() {
        match focused_rect(children[k]) {
            Some(r) => Some(r),
            None => focused_in_list(children, k + 1),
        }
    } else {
        None
    }
}

/// The rectangle of the focused window under `node`.
pub fn find_focused_window(node: &SwayNode) -> (r: Option<WindowRect>)
    ensures
        r == focused_rect(*node),
    decreases node, 0int,
{
    if node.focused && is_window(node) {
        return Some(node.rect);
    }
    match find_in_list(&node.nodes, 0) {
        Some(r) => Some(r),
        None => find_in_list(&node.floating_nodes, 0),
    }
}

fn find_in_list(children: &Vec<SwayNode>, k: usize) -> (r: Option<WindowRect>)
    requires
        k <= children.len(),
    ensures
        r == focused_in_list(children@, k as int),
    decreases children@, children@.len() - k,
{
    if k < children.len() {
        match find_focused_window(&children[k]) {
            Some(r) => Some(r),
            None => find_in_list(children, k + 1),
        }
    } else {
        None
    }
}

} // verus!
