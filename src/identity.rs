//! How a window is named for grouping (its identity) and addressed for a
//! focus command (its numeric handle).
use vstd::prelude::*;

verus! {

/// The kind of a node of the window tree.
#[derive(Clone, Copy, Debug, PartialEq, Eq, Structural)]
pub enum NodeKind {
    Root,
    Output,
    Workspace,
    Con,
    FloatingCon,
    Dockarea,
}

/// The X11 properties of a window that the identity reads.
#[derive(Clone, Debug)]
pub struct WindowProps {
    pub class: Option<String>,
}

/// A node of the window tree, with the fields that the logic reads.
///
/// `nodes` holds the children, tiling and floating alike.
#[derive(Debug)]
pub struct WinNode {
    pub id: i64,
    pub kind: NodeKind,
    pub app_id: Option<String>,
    pub window_properties: Option<WindowProps>,
    pub nodes: Vec<WinNode>,
}

/// A node is a window when it is a (tiling or floating) container without
/// children.
pub open spec fn is_window(n: WinNode) -> bool {
    (n.kind == NodeKind::Con || n.kind == NodeKind::FloatingCon) && n.nodes@.len() == 0
}

/// The node reached from `t` by following `path`, a list of child
/// positions, if every position is in range.
pub open spec fn node_at(t: WinNode, path: Seq<int>) -> Option<WinNode>
    decreases path.len(),
{
    if path.len() == 0 {
        Some(t)
    } else if 0 <= path[0] < t.nodes@.len() {
        node_at(t.nodes@[path[0]], path.drop_first())
    } else {
        None
    }
}

/// The tree `t` holds a window with identity `k` and handle `h`, and `k` is
/// a known identity.
pub open spec fn tree_has(t: WinNode, k: IdentityView, h: i64) -> bool {
    exists|path: Seq<int>|
        match #[trigger] node_at(t, path) {
            Some(w) => is_window(w) && identity_of(w) == k && w.id == h && !(k is Unknown),
            None => false,
        }
}

/// A window is the only node of its tree; any other tree holds exactly
/// what its children hold.
pub proof fn lemma_tree_has(t: WinNode, k: IdentityView, h: i64)
    ensures
        is_window(t) ==> (tree_has(t, k, h) <==> identity_of(t) == k && t.id == h && !(
        k is Unknown)),
        !is_window(t) ==> (tree_has(t, k, h) <==> exists|j: int|
            0 <= j < t.nodes@.len() && #[trigger] tree_has(t.nodes@[j], k, h)),
{
    if is_window(t) {
        if tree_has(t, k, h) {
            let path = choose|path: Seq<int>|
                match #[trigger] node_at(t, path) {
                    Some(w) => is_window(w) && identity_of(w) == k && w.id == h && !(k is Unknown),
                    None => false,
                };
            assert(path.len() == 0);
        }
        if identity_of(t) == k && t.id == h && !(k is Unknown) {
            assert(node_at(t, Seq::empty()) == Some(t));
        }
    } else {
        if tree_has(t, k, h) {
            let path = choose|path: Seq<int>|
                match #[trigger] node_at(t, path) {
                    Some(w) => is_window(w) && identity_of(w) == k && w.id == h && !(k is Unknown),
                    None => false,
                };
            assert(path.len() > 0);
            let j = path[0];
            assert(node_at(t.nodes@[j], path.drop_first()) == node_at(t, path));
            assert(tree_has(t.nodes@[j], k, h));
        }
        if exists|j: int| 0 <= j < t.nodes@.len() && #[trigger] tree_has(t.nodes@[j], k, h) {
            let j = choose|j: int| 0 <= j < t.nodes@.len() && #[trigger] tree_has(t.nodes@[j], k, h);
            let c = t.nodes@[j];
            let p = choose|path: Seq<int>|
                match #[trigger] node_at(c, path) {
                    Some(w) => is_window(w) && identity_of(w) == k && w.id == h && !(k is Unknown),
                    None => false,
                };
            let path = seq![j].add(p);
            assert(path.drop_first() =~= p);
            assert(node_at(t, path) == node_at(c, p));
        }
    }
}

/// The identity of a window, by which windows are grouped.
#[derive(Clone, Debug, Hash)]
pub enum ConId {
    /// A wayland window, named by its application id.
    Wayland(String),
    /// An X11 window, named by its window class.
    X(String),
    /// A window with neither; it is never indexed.
    Unknown,
}

/// The mathematical value of a [`ConId`].
pub enum IdentityView {
    Wayland(Seq<char>),
    X(Seq<char>),
    Unknown,
}

impl View for ConId {
    type V = IdentityView;

    open spec fn view(&self) -> IdentityView {
        match self {
            ConId::Wayland(s) => IdentityView::Wayland(s@),
            ConId::X(s) => IdentityView::X(s@),
            ConId::Unknown => IdentityView::Unknown,
        }
    }
}

/// The identity of a window record: its application id if it has one, else
/// its X11 class (empty when the properties carry none), else unknown.
pub open spec fn identity_of(n: WinNode) -> IdentityView {
    match n.app_id {
        Some(a) => IdentityView::Wayland(a@),
        None => match n.window_properties {
            Some(p) => IdentityView::X(
                match p.class {
                    Some(c) => c@,
                    None => Seq::empty(),
                },
            ),
            None => IdentityView::Unknown,
        },
    }
}

/// The text of an identity: its application id or class, empty if unknown.
pub open spec fn id_text(k: IdentityView) -> Seq<char> {
    match k {
        IdentityView::Wayland(s) => s,
        IdentityView::X(s) => s,
        IdentityView::Unknown => Seq::empty(),
    }
}

impl ConId {
    /// The identity of a window record.
    pub fn take_from_node(node: &WinNode) -> (r: ConId)
        ensures
            r@ == identity_of(*node),
    {
        match &node.app_id {
            Some(app_id) => ConId::Wayland(app_id.clone()),
            None => match &node.window_properties {
                Some(win) => match &win.class {
                    Some(class) => ConId::X(class.clone()),
                    None => ConId::X(String::new()),
                },
                None => ConId::Unknown,
            },
        }
    }

    /// The text of the identity.
    pub fn id(&self) -> (r: &str)
        ensures
            r@ == id_text(self@),
    {
        match self {
            ConId::Wayland(app_id) => app_id.as_str(),
            ConId::X(class) => class.as_str(),
            ConId::Unknown => {
                proof {
                    reveal_strlit("");
                }
                ""
            },
        }
    }
}

impl PartialEq for ConId {
    /// Two identities are equal when they have the same tag and the same
    /// text; an application id never equals a window class.
    fn eq(&self, other: &ConId) -> (r: bool)
        ensures
            r == (self@ == other@),
    {
        match (self, other) {
            (ConId::Wayland(a), ConId::Wayland(b)) => *a == *b,
            (ConId::X(a), ConId::X(b)) => *a == *b,
            (ConId::Unknown, ConId::Unknown) => true,
            _ => false,
        }
    }
}

impl vstd::std_specs::cmp::PartialEqSpecImpl for ConId {
    open spec fn obeys_eq_spec() -> bool {
        true
    }

    open spec fn eq_spec(&self, other: &ConId) -> bool {
        self@ == other@
    }
}

impl Eq for ConId {

}

/// The decimal notation of an integer: a minus sign for a negative one, then
/// the digits of its absolute value without leading zeros.
pub open spec fn decimal_text(n: int) -> Seq<char> {
    if n < 0 {
        seq!['-'] + digits_text((-n) as nat)
    } else {
        digits_text(n as nat)
    }
}

/// The decimal digits of a natural number.
pub open spec fn digits_text(n: nat) -> Seq<char>
    decreases n,
{
    if n < 10 {
        seq![digit_char(n)]
    } else {
        digits_text(n / 10).push(digit_char(n % 10))
    }
}

pub open spec fn digit_char(d: nat) -> char {
    if d == 0 { '0' }
    else if d == 1 { '1' }
    else if d == 2 { '2' }
    else if d == 3 { '3' }
    else if d == 4 { '4' }
    else if d == 5 { '5' }
    else if d == 6 { '6' }
    else if d == 7 { '7' }
    else if d == 8 { '8' }
    else { '9' }
}

/// Relies on `ToString` for `i64` (through its `Display`): the decimal
/// notation of the number.
#[verifier::external_body]
fn decimal_string(n: i64) -> (r: String)
    ensures
        r@ == decimal_text(n as int),
{
    n.to_string()
}

/// The criteria text that addresses the window with handle `h`.
pub open spec fn criteria_text(h: i64) -> Seq<char> {
    "[con_id="@ + decimal_text(h as int) + "]"@
}

/// The command that focuses the window with handle `h`.
pub open spec fn focus_command(h: i64) -> Seq<char> {
    criteria_text(h) + " focus"@
}

/// A value that names windows to the window manager.
pub trait Criteria {
    /// The criteria text of this value.
    spec fn criteria_spec(&self) -> Seq<char>;

    /// The criteria text, which selects the windows that the value names.
    fn criteria(&self) -> (r: String)
        ensures
            r@ == self.criteria_spec(),
    ;

    /// The command that focuses the windows that the value names.
    fn focus(&self) -> (r: String)
        ensures
            r@ == self.criteria_spec() + " focus"@,
    {
        let mut s = self.criteria();
        s.append(" focus");
        s
    }
}

impl Criteria for i64 {
    open spec fn criteria_spec(&self) -> Seq<char> {
        criteria_text(*self)
    }

    fn criteria(&self) -> (r: String)
        ensures
            r@ == criteria_text(*self),
    {
        let mut s = String::from_str("[con_id=");
        let d = decimal_string(*self);
        s.append(d.as_str());
        s.append("]");
        s
    }
}

} // verus!
