use erigui_widgets::accessibility::{
    AccessibilityAction, AccessibilityManager, AccessibilityNode, AccessibilityRole, AccessibilityState,
};
use erigui_widgets::geometry::{Rect, WidgetId};

fn node(id: u64, role: AccessibilityRole, label: &str, parent: Option<u64>) -> AccessibilityNode {
    AccessibilityNode {
        id: WidgetId(id),
        role,
        label: label.to_string(),
        description: None,
        bounds: Rect::new(0, 0, 10, 10),
        state: AccessibilityState::default(),
        children: vec![],
        parent: parent.map(WidgetId),
        actions: vec![AccessibilityAction::Click, AccessibilityAction::Check],
    }
}

#[test]
fn focus_announces_label_role_and_state() {
    let mut m = AccessibilityManager::new();
    let mut n = node(1, AccessibilityRole::CheckBox, "Accept", None);
    n.state.checked = Some(false);
    n.state.disabled = Some(true);
    n.description = Some("Terms".to_string());
    m.register_node(n);
    m.set_focus(Some(WidgetId(1)));
    assert_eq!(m.get_announcements(), vec!["Accept checkbox not checked disabled. Terms".to_string()]);
    assert!(m.get_announcements().is_empty());
    assert_eq!(m.get_focused_node().map(|n| n.id), Some(WidgetId(1)));
    m.set_focus(Some(WidgetId(99)));
    assert!(m.get_announcements().is_empty());
    assert!(m.get_focused_node().is_none());
}

#[test]
fn state_changes_are_announced() {
    let mut m = AccessibilityManager::new();
    m.register_node(node(1, AccessibilityRole::Button, "Go", None));
    let mut s = AccessibilityState::default();
    s.checked = Some(true);
    s.expanded = Some(false);
    s.value = Some("5".to_string());
    m.update_node_state(WidgetId(1), s);
    assert_eq!(
        m.get_announcements(),
        vec!["Go checked".to_string(), "Go collapsed".to_string(), "Go 5".to_string()]
    );
    let mut s2 = AccessibilityState::default();
    s2.checked = Some(true);
    s2.expanded = Some(false);
    s2.value = Some("5".to_string());
    m.update_node_state(WidgetId(1), s2);
    assert!(m.get_announcements().is_empty());
}

#[test]
fn children_are_listed_once_and_removed_with_the_child() {
    let mut m = AccessibilityManager::new();
    m.register_node(node(1, AccessibilityRole::List, "List", None));
    m.register_node(node(2, AccessibilityRole::ListItem, "A", Some(1)));
    m.register_node(node(2, AccessibilityRole::ListItem, "A", Some(1)));
    m.set_focus(Some(WidgetId(1)));
    m.get_announcements();
    assert_eq!(m.get_focused_node().unwrap().children, vec![WidgetId(2)]);
    m.unregister_node(WidgetId(2));
    assert!(m.get_focused_node().unwrap().children.is_empty());
    m.unregister_node(WidgetId(1));
    assert!(m.get_focused_node().is_none());
}

#[test]
fn supported_actions_announce() {
    let mut m = AccessibilityManager::new();
    m.register_node(node(1, AccessibilityRole::Button, "OK", None));
    assert!(m.perform_action(WidgetId(1), AccessibilityAction::Click));
    assert!(!m.perform_action(WidgetId(1), AccessibilityAction::Expand));
    assert!(!m.perform_action(WidgetId(2), AccessibilityAction::Click));
    assert_eq!(m.get_announcements(), vec!["OK clicked".to_string()]);
    m.update_node_label(WidgetId(1), "Fine".to_string());
    m.announce("done".to_string());
    assert!(m.perform_action(WidgetId(1), AccessibilityAction::Check));
    assert_eq!(m.get_announcements(), vec!["done".to_string(), "Fine checked".to_string()]);
}
