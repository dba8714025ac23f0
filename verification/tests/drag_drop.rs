use erigui_widgets::drag_drop::{DragDropEffect, DragDropManager};
use erigui_widgets::geometry::{Point, Rect, WidgetId};

#[test]
fn drop_target_must_accept_the_type() {
    let mut m: DragDropManager<u32> = DragDropManager::new();
    m.register_drop_target(WidgetId(7), vec!["text".to_string()]);
    m.register_drop_target(WidgetId(8), vec!["image".to_string()]);
    assert!(!m.check_drop_target(WidgetId(7), Rect::new(0, 0, 100, 100)));
    m.start_drag(WidgetId(1), "text".to_string(), 42, Point::new(3, 4));
    assert!(m.is_dragging());
    assert_eq!(m.get_drag_effect(), DragDropEffect::Move);
    m.update_drag_position(Point::new(10, 10));
    assert!(m.check_drop_target(WidgetId(7), Rect::new(0, 0, 100, 100)));
    assert_eq!(m.get_current_drop_target(), Some(WidgetId(7)));
    assert!(!m.check_drop_target(WidgetId(8), Rect::new(0, 0, 100, 100)));
    assert_eq!(m.get_current_drop_target(), Some(WidgetId(7)));
    let p = m.get_drag_visual_position();
    assert_eq!((p.x, p.y), (7, 6));
}

#[test]
fn leaving_bounds_clears_current_target() {
    let mut m: DragDropManager<()> = DragDropManager::new();
    m.register_drop_target(WidgetId(7), vec!["text".to_string()]);
    m.start_drag(WidgetId(1), "text".to_string(), (), Point::zero());
    m.update_drag_position(Point::new(10, 10));
    assert!(m.check_drop_target(WidgetId(7), Rect::new(0, 0, 100, 100)));
    m.update_drag_position(Point::new(500, 500));
    assert!(!m.check_drop_target(WidgetId(7), Rect::new(0, 0, 100, 100)));
    assert_eq!(m.get_current_drop_target(), None);
}

#[test]
fn complete_drop_hands_out_the_payload() {
    let mut m: DragDropManager<String> = DragDropManager::new();
    m.start_drag(WidgetId(3), "text".to_string(), "payload".to_string(), Point::zero());
    let d = m.complete_drop().unwrap();
    assert_eq!(d.source_widget, WidgetId(3));
    assert_eq!(d.data, "payload");
    assert!(!m.is_dragging());
    assert!(m.complete_drop().is_none());
}

#[test]
fn cancel_resets_effect_and_unregister_removes_target() {
    let mut m: DragDropManager<u8> = DragDropManager::new();
    m.register_drop_target(WidgetId(7), vec!["a".to_string()]);
    m.start_drag(WidgetId(1), "a".to_string(), 1, Point::zero());
    m.set_drag_effect(DragDropEffect::Copy);
    assert_eq!(m.get_drag_effect(), DragDropEffect::Copy);
    m.unregister_drop_target(WidgetId(7));
    assert!(!m.check_drop_target(WidgetId(7), Rect::new(-10, -10, 100, 100)));
    m.cancel_drag();
    assert!(!m.is_dragging());
    assert_eq!(m.get_drag_effect(), DragDropEffect::NoEffect);
}
