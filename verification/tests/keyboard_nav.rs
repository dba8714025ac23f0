use erigui_widgets::event::Key;
use erigui_widgets::geometry::{Rect, WidgetId};
use erigui_widgets::keyboard_nav::{FocusableWidget, KeyboardNavigationManager, NavigationDirection};

fn w(id: u64, x: i32, y: i32, tab: Option<i32>, group: Option<&str>) -> FocusableWidget {
    FocusableWidget {
        id: WidgetId(id),
        bounds: Rect::new(x, y, 20, 20),
        tab_index: tab,
        focusable: true,
        group_id: group.map(|g| g.to_string()),
    }
}

#[test]
fn tab_order_uses_tab_index_then_position() {
    let mut m = KeyboardNavigationManager::new();
    m.register_widget(w(1, 100, 0, None, None));
    m.register_widget(w(2, 0, 50, None, None));
    m.register_widget(w(3, 0, 0, None, None));
    m.register_widget(w(4, 500, 500, Some(2), None));
    m.register_widget(w(5, 500, 500, Some(1), None));
    let order: Vec<u64> = m.focus_order().iter().map(|i| i.0).collect();
    assert_eq!(order, vec![5, 4, 3, 1, 2]);
}

#[test]
fn tab_cycles_and_shift_tab_returns() {
    let mut m = KeyboardNavigationManager::new();
    m.register_widget(w(1, 0, 0, None, None));
    m.register_widget(w(2, 50, 0, None, None));
    m.register_widget(w(3, 100, 0, None, None));
    assert_eq!(m.handle_key(Key::Tab), Some(WidgetId(1)));
    assert_eq!(m.handle_key(Key::Tab), Some(WidgetId(2)));
    assert_eq!(m.handle_navigation(NavigationDirection::Backward), Some(WidgetId(1)));
    assert_eq!(m.handle_navigation(NavigationDirection::Backward), Some(WidgetId(3)));
    assert_eq!(m.handle_key(Key::Tab), Some(WidgetId(1)));
}

#[test]
fn trap_confines_tab_to_group() {
    let mut m = KeyboardNavigationManager::new();
    m.register_widget(w(1, 0, 0, None, None));
    m.register_widget(w(2, 50, 0, None, Some("dlg")));
    m.register_widget(w(3, 100, 0, None, Some("dlg")));
    m.set_focus_trap(Some("dlg".to_string()));
    m.set_focus(Some(WidgetId(2)));
    assert_eq!(m.handle_key(Key::Tab), Some(WidgetId(3)));
    assert_eq!(m.handle_key(Key::Tab), Some(WidgetId(2)));
    m.set_focus(Some(WidgetId(1)));
    // the focused widget is not a candidate: nothing moves
    assert_eq!(m.handle_key(Key::Tab), None);
    assert_eq!(m.get_focused_widget(), Some(WidgetId(1)));
}

#[test]
fn arrows_move_to_nearest_widget_that_way() {
    let mut m = KeyboardNavigationManager::new();
    m.register_widget(w(1, 0, 0, None, None));
    m.register_widget(w(2, 100, 0, None, None));
    m.register_widget(w(3, 40, 0, None, None));
    m.register_widget(w(4, 0, 100, None, None));
    m.set_focus(Some(WidgetId(1)));
    assert_eq!(m.handle_key(Key::Right), Some(WidgetId(3)));
    assert_eq!(m.handle_key(Key::Right), Some(WidgetId(2)));
    assert_eq!(m.handle_key(Key::Right), None);
    assert_eq!(m.handle_key(Key::Down), Some(WidgetId(4)));
    assert_eq!(m.handle_key(Key::Up), Some(WidgetId(1)));
    assert_eq!(m.handle_key(Key::Enter), None);
}

#[test]
fn unregister_drops_focus_and_order() {
    let mut m = KeyboardNavigationManager::new();
    m.register_widget(w(1, 0, 0, None, Some("g")));
    m.register_widget(w(2, 50, 0, None, Some("g")));
    m.set_focus(Some(WidgetId(1)));
    m.unregister_widget(WidgetId(1));
    assert_eq!(m.get_focused_widget(), None);
    let order: Vec<u64> = m.focus_order().iter().map(|i| i.0).collect();
    assert_eq!(order, vec![2]);
    m.set_focus_trap(Some("g".to_string()));
    assert_eq!(m.handle_key(Key::Tab), Some(WidgetId(2)));
}

#[test]
fn reregistering_replaces_and_non_focusable_is_skipped() {
    let mut m = KeyboardNavigationManager::new();
    m.register_widget(w(1, 0, 0, None, None));
    let mut hidden = w(2, 10, 0, None, None);
    hidden.focusable = false;
    m.register_widget(hidden);
    m.register_widget(w(1, 0, 0, Some(5), None));
    let order: Vec<u64> = m.focus_order().iter().map(|i| i.0).collect();
    assert_eq!(order, vec![1]);
    m.update_widget_bounds(WidgetId(1), Rect::new(9, 9, 1, 1));
    let empty = KeyboardNavigationManager::default();
    assert!(empty.focus_order().is_empty());
}

#[test]
fn forward_then_backward_returns_after_a_widget_moved() {
    let mut m = KeyboardNavigationManager::new();
    m.register_widget(w(1, 0, 0, None, None));
    m.register_widget(w(2, 50, 0, None, None));
    m.register_widget(w(3, 100, 0, None, None));
    // moving a widget keeps the old tab order
    m.update_widget_bounds(WidgetId(3), Rect::new(-100, 0, 20, 20));
    let order: Vec<u64> = m.focus_order().iter().map(|i| i.0).collect();
    assert_eq!(order, vec![1, 2, 3]);
    m.set_focus(Some(WidgetId(3)));
    assert_eq!(m.handle_navigation(NavigationDirection::Forward), Some(WidgetId(1)));
    assert_eq!(m.handle_navigation(NavigationDirection::Backward), Some(WidgetId(3)));
    assert_eq!(m.get_focused_widget(), Some(WidgetId(3)));
}
