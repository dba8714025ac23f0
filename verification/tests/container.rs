use erigui_widgets::container::Container;
use erigui_widgets::event::EventResult;
use erigui_widgets::geometry::{Rect, Size, WidgetId};

#[test]
fn children_keep_their_order_and_leave_one_at_a_time() {
    let mut c = Container::new(WidgetId(1));
    assert!(c.children().is_empty());
    for i in [5u64, 6, 7, 6, 8, 9, 10, 11, 12, 13] {
        c.add_child(WidgetId(i));
    }
    assert_eq!(c.children().len(), 10);
    assert!(c.remove_child(WidgetId(6)));
    let ids: Vec<u64> = c.children().iter().map(|w| w.0).collect();
    assert_eq!(ids, vec![5, 7, 6, 8, 9, 10, 11, 12, 13]);
    assert!(!c.remove_child(WidgetId(99)));
    c.clear_children();
    assert!(c.children().is_empty());
}

#[test]
fn a_container_reflects_its_limits() {
    let mut c = Container::new(WidgetId(1));
    assert_eq!(c.measure(Some(300), None), Size::new(300, 0));
    c.layout(Rect::new(1, 2, 3, 4));
    assert_eq!(c.bounds(), Rect::new(1, 2, 3, 4));
    assert_eq!(c.handle_event(), EventResult::Ignored);
    assert!(!c.can_focus());
}
