use changeup::{
    ConId, Criteria, KeyC, Keymap, MapManager, NodeKind, Recency, Rule, RuleSet, WinNode,
    WindowIndex, WindowProps, LEN,
};

fn window(id: i64, app_id: Option<&str>, class: Option<Option<&str>>) -> WinNode {
    WinNode {
        id,
        kind: NodeKind::Con,
        app_id: app_id.map(|s| s.to_string()),
        window_properties: class.map(|c| WindowProps { class: c.map(|s| s.to_string()) }),
        nodes: Vec::new(),
    }
}

#[test]
fn identity_prefers_app_id() {
    let w = window(3, Some("term"), Some(Some("XTerm")));
    assert_eq!(ConId::take_from_node(&w), ConId::Wayland("term".to_string()));
}

#[test]
fn identity_falls_back_to_class() {
    let w = window(3, None, Some(Some("XTerm")));
    assert_eq!(ConId::take_from_node(&w), ConId::X("XTerm".to_string()));
    let w = window(3, None, Some(None));
    assert_eq!(ConId::take_from_node(&w), ConId::X(String::new()));
}

#[test]
fn identity_unknown_without_either() {
    let w = window(3, None, None);
    assert_eq!(ConId::take_from_node(&w), ConId::Unknown);
    assert_eq!(ConId::Unknown.id(), "");
}

#[test]
fn identity_equality_is_tagged() {
    assert_eq!(ConId::Wayland("a".to_string()).id(), "a");
    assert_eq!(ConId::X("a".to_string()).id(), "a");
    assert_ne!(ConId::Wayland("a".to_string()), ConId::X("a".to_string()));
    assert_ne!(ConId::Wayland("a".to_string()), ConId::Wayland("b".to_string()));
    assert_eq!(ConId::X("a".to_string()), ConId::X("a".to_string()));
}

#[test]
fn criteria_of_handle() {
    assert_eq!(42i64.criteria(), "[con_id=42]");
    assert_eq!(42i64.focus(), "[con_id=42] focus");
    assert_eq!((-7i64).focus(), "[con_id=-7] focus");
    assert_eq!(0i64.criteria(), "[con_id=0]");
}

#[test]
fn recency_moves_refocused_window_to_tail() {
    let mut r = Recency::new();
    r.focus(1);
    r.focus(2);
    r.focus(3);
    r.focus(1);
    assert_eq!(r.as_vec(), &vec![2, 3, 1]);
    assert_eq!(r.now_on(), Some(1));
    assert_eq!(r.last(), Some(3));
}

#[test]
fn recency_evicts_oldest_beyond_capacity() {
    let mut r = Recency::new();
    for h in 0..(LEN as i64 + 1) {
        r.focus(h);
    }
    assert_eq!(r.as_vec().len(), LEN);
    assert_eq!(r.as_vec()[0], 1);
    assert_eq!(r.now_on(), Some(LEN as i64));
}

#[test]
fn recency_close_of_absent_handle_is_noop() {
    let mut r = Recency::new();
    r.focus(1);
    r.focus(2);
    r.close(9);
    assert_eq!(r.as_vec(), &vec![1, 2]);
    r.close(2);
    assert_eq!(r.as_vec(), &vec![1]);
    assert_eq!(r.last(), None);
    assert_eq!(r.now_on(), Some(1));
}

#[test]
fn index_groups_handles_by_identity() {
    let mut idx = WindowIndex::new();
    let term = ConId::Wayland("term".to_string());
    idx.insert(term.clone(), 1);
    idx.insert(term.clone(), 2);
    idx.insert(term.clone(), 1);
    idx.insert(ConId::X("term".to_string()), 3);
    assert_eq!(idx.get(&term), Some(&vec![1, 2]));
    assert_eq!(idx.get(&ConId::X("term".to_string())), Some(&vec![3]));
}

#[test]
fn index_never_holds_unknown() {
    let mut idx = WindowIndex::new();
    idx.insert(ConId::Unknown, 5);
    assert_eq!(idx.get(&ConId::Unknown), None);
}

#[test]
fn index_drops_identity_with_last_window() {
    let mut idx = WindowIndex::new();
    let term = ConId::Wayland("term".to_string());
    idx.insert(term.clone(), 1);
    idx.insert(term.clone(), 2);
    idx.remove(&term, 1);
    assert_eq!(idx.get(&term), Some(&vec![2]));
    idx.remove(&term, 2);
    assert_eq!(idx.get(&term), None);
    idx.remove(&term, 2);
    assert_eq!(idx.get(&term), None);
}

#[test]
fn rule_exec_prefixes_command() {
    let r = Rule::new(vec!["term".to_string()], Some("launch-term".to_string()));
    assert_eq!(r.exec(), Some("exec launch-term".to_string()));
    assert_eq!(r.links(), &["term".to_string()][..]);
    assert_eq!(r.fallback(), &Some("launch-term".to_string()));
    let r = Rule::new(vec![], None);
    assert_eq!(r.exec(), None);
}

#[test]
fn ruleset_insert_replaces_same_name() {
    let mut rs = RuleSet::new();
    rs.insert("t".to_string(), Rule::new(vec!["a".to_string()], None));
    rs.insert("u".to_string(), Rule::new(vec!["b".to_string()], None));
    rs.insert("t".to_string(), Rule::new(vec!["c".to_string()], None));
    assert_eq!(rs.as_slice().len(), 2);
    assert_eq!(rs.get(&"t".to_string()).unwrap().links(), &["c".to_string()][..]);
    assert!(rs.get(&"v".to_string()).is_none());
}

fn last_key(k: &str) -> Keymap {
    Keymap::Last { key: KeyC { key: k.to_string() } }
}

fn rule_key(k: &str, target: &str) -> Keymap {
    Keymap::RuleFocus { key: KeyC { key: k.to_string() }, target: target.to_string() }
}

#[test]
fn keymap_key_of_last() {
    assert_eq!(last_key("Alt+C").key(), "Alt+C");
    assert_eq!(rule_key("Alt+T", "term").key(), "Alt+T");
}

#[test]
fn keymap_commands() {
    assert_eq!(last_key("Alt+C").load(), "bindsym Alt+C exec changeup-client last");
    assert_eq!(
        rule_key("Alt+T", "term").load(),
        "bindsym Alt+T exec changeup-client rule-focus term"
    );
    assert_eq!(rule_key("Alt+T", "term").unload(), "unbindsym Alt+T");
}

#[test]
fn map_manager_unbinds_old_then_binds_new() {
    let old = vec![last_key("A"), rule_key("B", "x")];
    let new = vec![rule_key("C", "y")];
    let cmds = MapManager::replace(&old, &new);
    assert_eq!(
        cmds,
        vec![
            "unbindsym A".to_string(),
            "unbindsym B".to_string(),
            "bindsym C exec changeup-client rule-focus y".to_string(),
        ]
    );
}

#[test]
fn map_manager_replace_returns_previous() {
    let mut m = MapManager::new();
    let first = m.replace_actions(vec![last_key("A")]);
    assert!(first.is_empty());
    let second = m.replace_actions(vec![rule_key("B", "x")]);
    assert_eq!(second.len(), 1);
    assert_eq!(second[0].key(), "A");
    assert_eq!(m.actions().len(), 1);
    assert_eq!(m.actions()[0].key(), "B");
    assert_eq!(m.reload_actions(), vec!["bindsym B exec changeup-client rule-focus x".to_string()]);
}
