//! The focus state shared by the event monitor and the request facade, the
//! way window events change it, and the decisions taken from it.
use vstd::prelude::*;

use crate::history::{after_focus, contains_handle, history_ok, last_of, now_of, without, Recency};
use crate::identity::{
    focus_command, identity_of, is_window, lemma_tree_has, tree_has, ConId, Criteria, IdentityView, NodeKind, WinNode,
};
use crate::index::{
    add_window, indexed, lemma_add_window_indexed, remove_window, WindowIndex,
};
use crate::map_manager::{bind_cmds, unbind_cmds, Keymap, MapManager};
use crate::rule::{exec_command, texts, RuleSet, RuleView};

verus! {

/// What happened to a window.
#[derive(Clone, Copy, Debug, PartialEq, Eq, Structural)]
pub enum WindowChange {
    New,
    Close,
    Focus,
    /// Any other change, which the state ignores.
    Other,
}

/// A window event: what happened, and the window it happened to.
#[derive(Debug)]
pub struct WindowEvent {
    pub change: WindowChange,
    pub container: WinNode,
}

/// A configuration: the rules by name and the key map.
pub struct ChangeUpConfig {
    pub ruleset: RuleSet,
    pub actions: Vec<Keymap>,
}

/// The failures that a request can report to its caller.
#[derive(Clone, Copy, Debug, PartialEq, Eq, Structural)]
pub enum ChangeUpError {
    /// No rule has the requested name.
    NoSuchRule,
    /// No live window has the requested identity.
    NotFound,
}

impl ChangeUpError {
    /// The text reported to the caller.
    pub fn message(&self) -> (r: &'static str)
        ensures
            r@ == match *self {
                ChangeUpError::NoSuchRule => "No such rule set"@,
                ChangeUpError::NotFound => "node not found"@,
            },
    {
        match self {
            ChangeUpError::NoSuchRule => "No such rule set",
            ChangeUpError::NotFound => "node not found",
        }
    }
}

/// The decision of a rule.
#[derive(Debug)]
pub enum FocusMode {
    /// A window of the rule is focused already: go back to the previous one.
    JumpBack,
    /// Focus this window of the rule.
    Focus(i64),
    /// No window of the rule is live: run this command, if there is one.
    Exec(Option<String>),
}

/// The mathematical value of a [`FocusMode`].
pub enum ModeView {
    JumpBack,
    Focus(i64),
    Exec(Option<Seq<char>>),
}

/// The view of an optional string.
pub open spec fn opt_text(o: Option<String>) -> Option<Seq<char>> {
    match o {
        Some(s) => Some(s@),
        None => None,
    }
}

impl View for FocusMode {
    type V = ModeView;

    open spec fn view(&self) -> ModeView {
        match self {
            FocusMode::JumpBack => ModeView::JumpBack,
            FocusMode::Focus(h) => ModeView::Focus(*h),
            FocusMode::Exec(c) => ModeView::Exec(opt_text(*c)),
        }
    }
}

/// The mathematical value of the focus state.
pub struct FocusState {
    /// The recency list, oldest first.
    pub visited: Seq<i64>,
    /// For each identity, the handles of its live windows.
    pub index: Map<IdentityView, Seq<i64>>,
    /// The rules by name.
    pub rules: Map<Seq<char>, RuleView>,
    /// The key map.
    pub actions: Seq<Keymap>,
}

/// The state before any window is seen or any configuration is loaded.
pub open spec fn initial_state() -> FocusState {
    FocusState {
        visited: Seq::empty(),
        index: Map::empty(),
        rules: Map::empty(),
        actions: Seq::empty(),
    }
}

/// The state after one window event.
pub open spec fn step(s: FocusState, ev: WindowEvent) -> FocusState {
    let c = ev.container;
    match ev.change {
        WindowChange::Focus => FocusState { visited: after_focus(s.visited, c.id), ..s },
        WindowChange::Close => FocusState {
            visited: without(s.visited, c.id),
            index: remove_window(s.index, identity_of(c), c.id),
            ..s
        },
        WindowChange::New => FocusState { index: add_window(s.index, identity_of(c), c.id), ..s },
        WindowChange::Other => s,
    }
}

/// The state after a sequence of window events, in order.
pub open spec fn replay(s: FocusState, evs: Seq<WindowEvent>) -> FocusState
    decreases evs.len(),
{
    if evs.len() == 0 {
        s
    } else {
        step(replay(s, evs.drop_last()), evs.last())
    }
}

/// The state after a configuration is loaded: new rules and key map, the
/// windows untouched.
pub open spec fn reloaded(s: FocusState, rules: Map<Seq<char>, RuleView>, actions: Seq<Keymap>) -> FocusState {
    FocusState { rules, actions, ..s }
}

/// The handles of the first of `links` that has live windows, looking each
/// up as an application id.
pub open spec fn first_indexed(links: Seq<Seq<char>>, index: Map<IdentityView, Seq<i64>>) -> Option<
    Seq<i64>,
>
    decreases links.len(),
{
    if links.len() == 0 {
        None
    } else if index.contains_key(IdentityView::Wayland(links[0])) {
        Some(index[IdentityView::Wayland(links[0])])
    } else {
        first_indexed(links.drop_first(), index)
    }
}

/// The decision of the rule named `name`: jump back if the first of its
/// links with live windows holds the focused window, else focus the first
/// window of that link; with no such link, run the rule's fallback.
pub open spec fn decide(s: FocusState, name: Seq<char>) -> Result<ModeView, ChangeUpError> {
    if !s.rules.contains_key(name) {
        Err(ChangeUpError::NoSuchRule)
    } else {
        let rule = s.rules[name];
        match first_indexed(rule.links, s.index) {
            Some(hs) => {
                let focused_here = match now_of(s.visited) {
                    Some(n) => hs.contains(n),
                    None => false,
                };
                if focused_here {
                    Ok(ModeView::JumpBack)
                } else {
                    Ok(ModeView::Focus(hs[0]))
                }
            },
            None => Ok(
                ModeView::Exec(
                    match rule.fallback {
                        Some(e) => Some(exec_command(e)),
                        None => None,
                    },
                ),
            ),
        }
    }
}

/// The command that focuses the previously focused window, if there is one.
pub open spec fn jump_command(s: FocusState) -> Option<Seq<char>> {
    match last_of(s.visited) {
        Some(h) => Some(focus_command(h)),
        None => None,
    }
}

/// The command that carries out a decision, if any.
pub open spec fn mode_command(s: FocusState, m: ModeView) -> Option<Seq<char>> {
    match m {
        ModeView::JumpBack => jump_command(s),
        ModeView::Focus(h) => Some(focus_command(h)),
        ModeView::Exec(c) => c,
    }
}

/// The command that focuses a window of the application `target`, or
/// `NotFound` when it has no live window.
pub open spec fn focus_request(s: FocusState, target: Seq<char>) -> Result<Seq<char>, ChangeUpError> {
    let k = IdentityView::Wayland(target);
    if s.index.contains_key(k) && s.index[k].len() > 0 {
        Ok(focus_command(s.index[k][0]))
    } else {
        Err(ChangeUpError::NotFound)
    }
}

/// Adds every window of the tree `t` to `index`.
fn scan_tree(index: &mut WindowIndex, t: &WinNode)
    ensures
        forall|k: IdentityView, h: i64|
            #![trigger indexed(final(index)@, k, h)]
            #![trigger tree_has(*t, k, h)]
            indexed(final(index)@, k, h) <==> indexed(old(index)@, k, h) || tree_has(*t, k, h),
    decreases t,
{
    let ghost m0 = index@;
    if t.nodes.len() == 0 && (t.kind == NodeKind::Con || t.kind == NodeKind::FloatingCon) {
        let id = ConId::take_from_node(t);
        proof {
            lemma_add_window_indexed(m0, id@, t.id);
        }
        index.insert(id, t.id);
        proof {
            assert(is_window(*t));
            assert forall|k: IdentityView, h: i64|
                indexed(index@, k, h) <==> indexed(m0, k, h) || tree_has(*t, k, h) by {
                lemma_tree_has(*t, k, h);
            }
        }
    } else {
        let mut i: usize = 0;
        while i < t.nodes.len()
            invariant
                0 <= i <= t.nodes@.len(),
                forall|k: IdentityView, h: i64| #![trigger indexed(index@, k, h)]
                    indexed(index@, k, h) <==> indexed(m0, k, h) || exists|j: int|
                        0 <= j < i && #[trigger] tree_has(t.nodes@[j], k, h),
            decreases t.nodes@.len() - i,
        {
            let ghost before = index@;
            scan_tree(index, &t.nodes[i]);
            proof {
                assert forall|k: IdentityView, h: i64|
                    indexed(index@, k, h) <==> indexed(m0, k, h) || exists|j: int|
                        0 <= j < i + 1 && #[trigger] tree_has(t.nodes@[j], k, h) by {
                    if tree_has(t.nodes@[i as int], k, h) {
                        assert(0 <= i < i + 1);
                    }
                    if exists|j: int| 0 <= j < i + 1 && #[trigger] tree_has(t.nodes@[j], k, h) {
                        let j = choose|j: int| 0 <= j < i + 1 && #[trigger] tree_has(t.nodes@[j], k, h);
                        if j < i {
                            assert(indexed(before, k, h));
                        }
                    }
                }
            }
            i = i + 1;
        }
        proof {
            assert(!is_window(*t));
            assert forall|k: IdentityView, h: i64|
                indexed(index@, k, h) <==> indexed(m0, k, h) || tree_has(*t, k, h) by {
                lemma_tree_has(*t, k, h);
            }
        }
    }
}

/// The focus state.
pub struct ChangeUp {
    visited: Recency,
    index: WindowIndex,
    ruleset: RuleSet,
    map_manager: MapManager,
}

impl View for ChangeUp {
    type V = FocusState;

    closed spec fn view(&self) -> FocusState {
        FocusState {
            visited: self.visited@,
            index: self.index@,
            rules: self.ruleset@,
            actions: self.map_manager@,
        }
    }
}

impl ChangeUp {
    /// An empty state: no window seen, no rule, no key.
    pub fn new() -> (r: ChangeUp)
        ensures
            r@ == initial_state(),
    {
        ChangeUp {
            visited: Recency::new(),
            index: WindowIndex::new(),
            ruleset: RuleSet::new(),
            map_manager: MapManager::new(),
        }
    }

    /// The recency list of this state is well formed.
    pub fn history_is_ok(&self)
        ensures
            history_ok(self@.visited),
    {
        self.visited.well_formed();
    }

    /// The handle focused now, if any.
    pub fn now_on(&self) -> (r: Option<i64>)
        ensures
            r == now_of(self@.visited),
    {
        self.visited.now_on()
    }

    /// The handle focused before the current one, if any.
    pub fn last_focus(&self) -> (r: Option<i64>)
        ensures
            r == last_of(self@.visited),
    {
        self.visited.last()
    }

    /// Whether a previously focused window is known.
    pub fn last_viewed_exist(&self) -> (r: bool)
        ensures
            r == (last_of(self@.visited) is Some),
    {
        self.last_focus().is_some()
    }

    /// The previously focused window, or -1 when there is none.
    pub fn last_viewed(&self) -> (r: i64)
        ensures
            r == match last_of(self@.visited) {
                Some(h) => h as int,
                None => -1,
            },
    {
        match self.last_focus() {
            Some(h) => h,
            None => -1,
        }
    }

    /// The recency list, oldest first.
    pub fn visited(&self) -> (r: &Vec<i64>)
        ensures
            r@ == self@.visited,
    {
        self.visited.as_vec()
    }

    /// The index of live windows.
    pub fn index(&self) -> (r: &WindowIndex)
        ensures
            r@ == self@.index,
    {
        &self.index
    }

    /// The rules in force.
    pub fn ruleset(&self) -> (r: &RuleSet)
        ensures
            r@ == self@.rules,
    {
        &self.ruleset
    }

    /// The key map in force.
    pub fn map_manager(&self) -> (r: &MapManager)
        ensures
            r@ == self@.actions,
    {
        &self.map_manager
    }

    /// Applies one window event.
    pub fn handle_event(&mut self, ev: &WindowEvent)
        ensures
            final(self)@ == step(old(self)@, *ev),
    {
        let c = &ev.container;
        match ev.change {
            WindowChange::Focus => {
                self.visited.focus(c.id);
            },
            WindowChange::Close => {
                self.visited.close(c.id);
                let id = ConId::take_from_node(c);
                self.index.remove(&id, c.id);
            },
            WindowChange::New => {
                let id = ConId::take_from_node(c);
                self.index.insert(id, c.id);
            },
            WindowChange::Other => {},
        }
    }

    /// The decision of the rule named `app_kind`.
    pub fn resolve(&self, app_kind: &String) -> (r: Result<FocusMode, ChangeUpError>)
        ensures
            match r {
                Ok(m) => decide(self@, app_kind@) == Ok::<ModeView, ChangeUpError>(m@),
                Err(e) => decide(self@, app_kind@) == Err::<ModeView, ChangeUpError>(e),
            },
    {
        let rule = match self.ruleset.get(app_kind) {
            Some(rule) => rule,
            None => {
                return Err(ChangeUpError::NoSuchRule);
            },
        };
        let now = self.now_on();
        let links = rule.links();
        let ghost all = texts(links@);
        proof {
            assert(all.subrange(0, all.len() as int) =~= all);
        }
        let mut i: usize = 0;
        while i < links.len()
            invariant
                0 <= i <= links@.len(),
                all == texts(links@),
                self@.rules.contains_key(app_kind@),
                all == self@.rules[app_kind@].links,
                rule@ == self@.rules[app_kind@],
                now == now_of(self@.visited),
                first_indexed(all, self@.index) == first_indexed(
                    all.subrange(i as int, all.len() as int),
                    self@.index,
                ),
            decreases links@.len() - i,
        {
            let key = ConId::Wayland(links[i].clone());
            proof {
                let rest = all.subrange(i as int, all.len() as int);
                assert(rest[0] == links@[i as int]@);
                assert(rest.drop_first() =~= all.subrange(i + 1, all.len() as int));
            }
            match self.index.get(&key) {
                Some(set) => {
                    if let Some(n) = now {
                        if contains_handle(set, n) {
                            return Ok(FocusMode::JumpBack);
                        }
                    }
                    return Ok(FocusMode::Focus(set[0]));
                },
                None => {},
            }
            i = i + 1;
        }
        proof {
            assert(all.subrange(i as int, all.len() as int) =~= Seq::<Seq<char>>::empty());
        }
        Ok(FocusMode::Exec(rule.exec()))
    }

    /// The command that carries out the rule named `app_kind`, if any.
    pub fn rule_focus(&self, app_kind: &String) -> (r: Result<Option<String>, ChangeUpError>)
        ensures
            match decide(self@, app_kind@) {
                Ok(m) => r is Ok && opt_text(r->Ok_0) == mode_command(self@, m),
                Err(e) => r == Err::<Option<String>, ChangeUpError>(e),
            },
    {
        match self.resolve(app_kind) {
            Ok(FocusMode::JumpBack) => Ok(self.jump_to_last_viewed()),
            Ok(FocusMode::Focus(h)) => Ok(Some(h.focus())),
            Ok(FocusMode::Exec(c)) => Ok(c),
            Err(e) => Err(e),
        }
    }

    /// The command that focuses the previously focused window, if any.
    pub fn jump_to_last_viewed(&self) -> (r: Option<String>)
        ensures
            opt_text(r) == jump_command(self@),
    {
        match self.last_focus() {
            Some(h) => Some(h.focus()),
            None => None,
        }
    }

    /// The command that focuses a window of the application `target`.
    pub fn focus(&self, target: &String) -> (r: Result<String, ChangeUpError>)
        ensures
            match focus_request(self@, target@) {
                Ok(c) => r is Ok && (r->Ok_0)@ == c,
                Err(e) => r == Err::<String, ChangeUpError>(e),
            },
    {
        let key = ConId::Wayland(target.clone());
        match self.index.get(&key) {
            Some(set) => {
                if set.len() > 0 {
                    Ok(set[0].focus())
                } else {
                    Err(ChangeUpError::NotFound)
                }
            },
            None => Err(ChangeUpError::NotFound),
        }
    }

    /// Adds every window of the tree `tree` to the index; nothing else
    /// changes.
    pub fn scan(&mut self, tree: &WinNode)
        ensures
            final(self)@.visited == old(self)@.visited,
            final(self)@.rules == old(self)@.rules,
            final(self)@.actions == old(self)@.actions,
            forall|k: IdentityView, h: i64|
                #![trigger indexed(final(self)@.index, k, h)]
                indexed(final(self)@.index, k, h) <==> indexed(old(self)@.index, k, h) || tree_has(
                    *tree,
                    k,
                    h,
                ),
    {
        scan_tree(&mut self.index, tree);
    }

    /// Loads a configuration: its rules and key map replace those in force.
    /// The result holds the commands that bring the window manager's key
    /// bindings in line: every old key unbound, then every new key bound.
    pub fn reload_config(&mut self, config: ChangeUpConfig) -> (r: Vec<String>)
        ensures
            final(self)@ == reloaded(old(self)@, config.ruleset@, config.actions@),
            texts(r@) == unbind_cmds(old(self)@.actions) + bind_cmds(config.actions@),
    {
        let ChangeUpConfig { ruleset, actions } = config;
        self.ruleset = ruleset;
        let old_as = self.map_manager.replace_actions(actions);
        MapManager::replace(&old_as, self.map_manager.actions())
    }
}

} // verus!
