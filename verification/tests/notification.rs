use erigui_widgets::event::{Event, EventResult};
use erigui_widgets::geometry::{Point, Rect, WidgetId};
use erigui_widgets::notification::{Notification, NotificationManager, NotificationPosition};

#[test]
fn show_drops_the_oldest_beyond_max() {
    let mut m = NotificationManager::new(WidgetId(1)).with_max_visible(2);
    assert!(m.show(Notification::new("a", "A", "", 0)).is_empty());
    assert!(m.show(Notification::new("b", "B", "", 0)).is_empty());
    let closed = m.show(Notification::new("c", "C", "", 0));
    assert_eq!(closed, vec!["a".to_string()]);
    assert_eq!(m.notification_count(), 2);
    assert_eq!(m.notification_at(0).id, "b");
}

#[test]
fn layout_stacks_from_top_right() {
    let mut m = NotificationManager::new(WidgetId(1));
    m.show(Notification::new("a", "A", "", 0));
    m.show(Notification::new("b", "B", "", 0).with_action("Undo"));
    m.set_animation_offset(0, 0);
    m.set_animation_offset(1, 0);
    m.layout(Rect::new(0, 0, 1000, 800));
    let (b0, c0, a0, _, _) = m.item_layout(0);
    assert_eq!(b0, Rect::new(1000 - 350 - 20, 20, 350, 80));
    assert_eq!(c0, Some(Rect::new(1000 - 20 - 28, 28, 20, 20)));
    assert_eq!(a0, None);
    let (b1, _, a1, _, _) = m.item_layout(1);
    assert_eq!(b1.y, 20 + 90);
    assert_eq!(a1, Some(Rect::new(1000 - 20 - 88, 110 + 80 - 32, 80, 24)));
}

#[test]
fn bottom_left_stacks_upwards() {
    let mut m = NotificationManager::new(WidgetId(1)).with_position(NotificationPosition::BottomLeft);
    m.show(Notification::new("a", "A", "", 0));
    m.show(Notification::new("b", "B", "", 0));
    m.layout(Rect::new(0, 0, 1000, 800));
    let (b0, _, _, _, _) = m.item_layout(0);
    let (b1, _, _, _, _) = m.item_layout(1);
    assert_eq!(b0, Rect::new(20 + 350, 800 - 20 - 90 + 10, 350, 80));
    assert_eq!(b1.y, 800 - 20 - 180 + 10);
}

#[test]
fn close_button_release_closes() {
    let mut m = NotificationManager::new(WidgetId(1));
    m.show(Notification::new("a", "A", "", 0).with_action("Go"));
    m.set_animation_offset(0, 0);
    m.layout(Rect::new(0, 0, 1000, 800));
    let (_, c, a, _, _) = m.item_layout(0);
    let a = a.unwrap();
    let (r, closed, action) = m.handle_event(&Event::left_button(Point::new(a.x + 1, a.y + 1), false));
    assert_eq!(r, EventResult::Consumed);
    assert_eq!(closed, None);
    assert_eq!(action, Some("a".to_string()));
    let c = c.unwrap();
    let (r, _) = (m.handle_event(&Event::mouse_move(Point::new(c.x + 1, c.y + 1))).0, ());
    assert_eq!(r, EventResult::Consumed);
    assert!(m.item_layout(0).3);
    let (r, closed, _) = m.handle_event(&Event::left_button(Point::new(c.x + 1, c.y + 1), false));
    assert_eq!(r, EventResult::Consumed);
    assert_eq!(closed, Some("a".to_string()));
    assert_eq!(m.notification_count(), 0);
}

#[test]
fn expired_notifications_are_removed_last_first() {
    let mut m = NotificationManager::new(WidgetId(1));
    m.show(Notification::new("a", "A", "", 0).with_duration(100));
    m.show(Notification::new("b", "B", "", 0).with_duration(1000));
    m.show(Notification::new("c", "C", "", 50).with_duration(100));
    assert!(Notification::new("x", "", "", 10).with_duration(5).is_expired(15));
    let closed = m.remove_expired(150);
    assert_eq!(closed, vec!["c".to_string(), "a".to_string()]);
    assert_eq!(m.notification_count(), 1);
    let closed = m.remove("b");
    assert_eq!(closed, vec!["b".to_string()]);
    m.show(Notification::new("d", "D", "", 0));
    m.clear();
    assert_eq!(m.notification_count(), 0);
}
