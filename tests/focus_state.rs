use changeup::{
    ChangeUp, ChangeUpConfig, ChangeUpError, FocusMode, KeyC, Keymap, NodeKind, Rule, RuleSet,
    WinNode, WindowChange, WindowEvent, LEN,
};

fn node(id: i64, kind: NodeKind, app_id: Option<&str>, nodes: Vec<WinNode>) -> WinNode {
    WinNode { id, kind, app_id: app_id.map(|s| s.to_string()), window_properties: None, nodes }
}

fn app(id: i64, app_id: &str) -> WinNode {
    node(id, NodeKind::Con, Some(app_id), Vec::new())
}

fn event(change: WindowChange, container: WinNode) -> WindowEvent {
    WindowEvent { change, container }
}

fn focus(cu: &mut ChangeUp, id: i64, app_id: &str) {
    cu.handle_event(&event(WindowChange::Focus, app(id, app_id)));
}

fn term_rule(exec: Option<&str>) -> ChangeUpConfig {
    let mut ruleset = RuleSet::new();
    ruleset.insert(
        "term".to_string(),
        Rule::new(vec!["term".to_string()], exec.map(|s| s.to_string())),
    );
    ChangeUpConfig { ruleset, actions: Vec::new() }
}

fn tree_with(windows: Vec<WinNode>) -> WinNode {
    let ws = node(10, NodeKind::Workspace, None, windows);
    let out = node(11, NodeKind::Output, None, vec![ws]);
    node(12, NodeKind::Root, None, vec![out])
}

#[test]
fn scan_then_focus_back_and_forth() {
    let mut cu = ChangeUp::new();
    cu.scan(&tree_with(vec![app(1, "term")]));
    focus(&mut cu, 1, "term");
    cu.handle_event(&event(WindowChange::New, app(2, "browser")));
    focus(&mut cu, 2, "browser");
    focus(&mut cu, 1, "term");
    assert_eq!(cu.last_focus(), Some(2));
    assert_eq!(cu.now_on(), Some(1));
    assert_eq!(cu.last_viewed(), 2);
    assert!(cu.last_viewed_exist());
}

#[test]
fn scan_indexes_nested_and_floating_windows() {
    let split = node(20, NodeKind::Con, None, vec![app(1, "term"), app(2, "browser")]);
    let floating = node(3, NodeKind::FloatingCon, Some("term"), Vec::new());
    let empty_ws = node(30, NodeKind::Workspace, None, Vec::new());
    let mut cu = ChangeUp::new();
    cu.scan(&node(12, NodeKind::Root, None, vec![tree_with(vec![split, floating]), empty_ws]));
    let term = cu.index().get(&changeup::ConId::Wayland("term".to_string())).unwrap();
    assert_eq!(term.len(), 2);
    assert!(term.contains(&1) && term.contains(&3));
    assert_eq!(cu.index().get(&changeup::ConId::Wayland("browser".to_string())), Some(&vec![2]));
    assert_eq!(cu.index().get(&changeup::ConId::Unknown), None);
}

#[test]
fn rule_without_live_window_runs_exec() {
    let mut cu = ChangeUp::new();
    cu.reload_config(term_rule(Some("launch-term")));
    let name = "term".to_string();
    match cu.resolve(&name) {
        Ok(FocusMode::Exec(Some(c))) => assert_eq!(c, "exec launch-term"),
        other => panic!("unexpected decision {:?}", other),
    }
    assert_eq!(cu.rule_focus(&name), Ok(Some("exec launch-term".to_string())));
}

#[test]
fn rule_without_live_window_nor_exec_does_nothing() {
    let mut cu = ChangeUp::new();
    cu.reload_config(term_rule(None));
    let name = "term".to_string();
    assert!(matches!(cu.resolve(&name), Ok(FocusMode::Exec(None))));
    assert_eq!(cu.rule_focus(&name), Ok(None));
}

#[test]
fn rule_focuses_unfocused_live_window() {
    let mut cu = ChangeUp::new();
    cu.reload_config(term_rule(None));
    cu.handle_event(&event(WindowChange::New, app(5, "term")));
    cu.handle_event(&event(WindowChange::New, app(6, "browser")));
    focus(&mut cu, 6, "browser");
    let name = "term".to_string();
    assert!(matches!(cu.resolve(&name), Ok(FocusMode::Focus(5))));
    assert_eq!(cu.rule_focus(&name), Ok(Some("[con_id=5] focus".to_string())));
}

#[test]
fn rule_on_focused_window_jumps_back() {
    let mut cu = ChangeUp::new();
    cu.reload_config(term_rule(Some("launch-term")));
    cu.handle_event(&event(WindowChange::New, app(5, "term")));
    cu.handle_event(&event(WindowChange::New, app(6, "browser")));
    focus(&mut cu, 6, "browser");
    focus(&mut cu, 5, "term");
    let name = "term".to_string();
    assert!(matches!(cu.resolve(&name), Ok(FocusMode::JumpBack)));
    assert_eq!(cu.rule_focus(&name), Ok(Some("[con_id=6] focus".to_string())));
}

#[test]
fn rule_checks_links_in_order() {
    let mut ruleset = RuleSet::new();
    ruleset.insert(
        "web".to_string(),
        Rule::new(vec!["firefox".to_string(), "chrome".to_string()], None),
    );
    let mut cu = ChangeUp::new();
    cu.reload_config(ChangeUpConfig { ruleset, actions: Vec::new() });
    cu.handle_event(&event(WindowChange::New, app(7, "chrome")));
    cu.handle_event(&event(WindowChange::New, app(8, "firefox")));
    assert_eq!(cu.rule_focus(&"web".to_string()), Ok(Some("[con_id=8] focus".to_string())));
}

#[test]
fn unknown_rule_is_reported() {
    let cu = ChangeUp::new();
    let name = "nope".to_string();
    assert!(matches!(cu.resolve(&name), Err(ChangeUpError::NoSuchRule)));
    assert_eq!(cu.rule_focus(&name), Err(ChangeUpError::NoSuchRule));
    assert_eq!(ChangeUpError::NoSuchRule.message(), "No such rule set");
}

#[test]
fn focus_request_without_window_is_not_found() {
    let mut cu = ChangeUp::new();
    cu.handle_event(&event(WindowChange::New, app(2, "browser")));
    focus(&mut cu, 2, "browser");
    let before = cu.visited().clone();
    assert_eq!(cu.focus(&"term".to_string()), Err(ChangeUpError::NotFound));
    assert_eq!(ChangeUpError::NotFound.message(), "node not found");
    assert_eq!(cu.visited(), &before);
    assert_eq!(cu.index().get(&changeup::ConId::Wayland("browser".to_string())), Some(&vec![2]));
}

#[test]
fn focus_request_focuses_live_window() {
    let mut cu = ChangeUp::new();
    cu.handle_event(&event(WindowChange::New, app(4, "term")));
    assert_eq!(cu.focus(&"term".to_string()), Ok("[con_id=4] focus".to_string()));
}

#[test]
fn jump_without_previous_window_does_nothing() {
    let mut cu = ChangeUp::new();
    assert_eq!(cu.jump_to_last_viewed(), None);
    assert_eq!(cu.last_viewed(), -1);
    assert!(!cu.last_viewed_exist());
    focus(&mut cu, 1, "term");
    assert_eq!(cu.jump_to_last_viewed(), None);
    focus(&mut cu, 2, "term");
    assert_eq!(cu.jump_to_last_viewed(), Some("[con_id=1] focus".to_string()));
}

#[test]
fn many_events_keep_history_bounded_and_distinct() {
    let mut cu = ChangeUp::new();
    for i in 0..100i64 {
        focus(&mut cu, i % 40, "term");
        if i % 7 == 0 {
            cu.handle_event(&event(WindowChange::Close, app(i % 40, "term")));
        }
    }
    let v = cu.visited();
    assert!(v.len() <= LEN);
    for a in 0..v.len() {
        for b in (a + 1)..v.len() {
            assert_ne!(v[a], v[b]);
        }
    }
}

#[test]
fn focus_event_sets_now_and_last() {
    let mut cu = ChangeUp::new();
    focus(&mut cu, 1, "a");
    focus(&mut cu, 2, "b");
    focus(&mut cu, 3, "c");
    focus(&mut cu, 3, "c");
    assert_eq!(cu.now_on(), Some(3));
    assert_eq!(cu.last_focus(), Some(2));
    focus(&mut cu, 1, "a");
    assert_eq!(cu.now_on(), Some(1));
    assert_eq!(cu.last_focus(), Some(3));
}

#[test]
fn closing_focused_and_previous_windows_recomputes() {
    let mut cu = ChangeUp::new();
    for h in 1..=4 {
        focus(&mut cu, h, "a");
    }
    cu.handle_event(&event(WindowChange::Close, app(4, "a")));
    assert_eq!(cu.now_on(), Some(3));
    assert_eq!(cu.last_focus(), Some(2));
    cu.handle_event(&event(WindowChange::Close, app(2, "a")));
    assert_eq!(cu.now_on(), Some(3));
    assert_eq!(cu.last_focus(), Some(1));
    cu.handle_event(&event(WindowChange::Close, app(1, "a")));
    assert_eq!(cu.now_on(), Some(3));
    assert_eq!(cu.last_focus(), None);
}

#[test]
fn close_removes_window_from_index_once() {
    let mut cu = ChangeUp::new();
    cu.handle_event(&event(WindowChange::New, app(1, "term")));
    cu.handle_event(&event(WindowChange::New, app(2, "term")));
    cu.handle_event(&event(WindowChange::Close, app(1, "term")));
    let term = changeup::ConId::Wayland("term".to_string());
    assert_eq!(cu.index().get(&term), Some(&vec![2]));
    cu.handle_event(&event(WindowChange::Close, app(1, "term")));
    assert_eq!(cu.index().get(&term), Some(&vec![2]));
    cu.handle_event(&event(WindowChange::Close, app(2, "term")));
    assert_eq!(cu.index().get(&term), None);
}

#[test]
fn other_events_change_nothing() {
    let mut cu = ChangeUp::new();
    focus(&mut cu, 1, "a");
    cu.handle_event(&event(WindowChange::Other, app(2, "b")));
    assert_eq!(cu.visited(), &vec![1]);
    assert_eq!(cu.index().get(&changeup::ConId::Wayland("b".to_string())), None);
}

#[test]
fn repeated_rule_decisions_agree() {
    let mut cu = ChangeUp::new();
    cu.reload_config(term_rule(None));
    cu.handle_event(&event(WindowChange::New, app(5, "term")));
    cu.handle_event(&event(WindowChange::New, app(9, "term")));
    let name = "term".to_string();
    let first = cu.rule_focus(&name);
    let second = cu.rule_focus(&name);
    assert_eq!(first, second);
    assert_eq!(first, Ok(Some("[con_id=5] focus".to_string())));
}

#[test]
fn reload_then_actions_round_trip() {
    let mut cu = ChangeUp::new();
    let first = vec![Keymap::Last { key: KeyC { key: "Alt+C".to_string() } }];
    let cmds = cu.reload_config(ChangeUpConfig { ruleset: RuleSet::new(), actions: first });
    assert_eq!(cmds, vec!["bindsym Alt+C exec changeup-client last".to_string()]);
    let second = vec![Keymap::RuleFocus {
        key: KeyC { key: "Alt+T".to_string() },
        target: "term".to_string(),
    }];
    let cmds = cu.reload_config(ChangeUpConfig { ruleset: RuleSet::new(), actions: second });
    assert_eq!(
        cmds,
        vec![
            "unbindsym Alt+C".to_string(),
            "bindsym Alt+T exec changeup-client rule-focus term".to_string(),
        ]
    );
    let now = cu.map_manager().actions();
    assert_eq!(now.len(), 1);
    assert_eq!(now[0].key(), "Alt+T");
    assert!(matches!(&now[0], Keymap::RuleFocus { target, .. } if target == "term"));
}
