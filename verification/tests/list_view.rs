use erigui_widgets::event::{Event, EventResult, Key};
use erigui_widgets::geometry::{Point, Rect, WidgetId};
use erigui_widgets::list_view::{ListItem, ListView};

fn item(n: usize) -> ListItem {
    ListItem { id: format!("id{}", n), text: format!("Item {}", n), icon: None, selected: false }
}

fn list(n: usize, height: i32) -> ListView {
    let mut l = ListView::new(WidgetId(1));
    for i in 0..n {
        l.add_item(item(i));
    }
    l.layout(Rect::new(0, 0, 200, height));
    l
}

#[test]
fn selecting_past_the_end_is_refused() {
    let mut l = list(3, 100);
    assert!(!l.set_selected_index(Some(3)));
    assert_eq!(l.selected_index(), None);
    assert!(l.set_selected_index(Some(2)));
    assert_eq!(l.selected_item().map(|i| i.text.clone()), Some("Item 2".to_string()));
}

#[test]
fn selection_scrolls_into_view() {
    let mut l = list(20, 100);
    assert!(l.set_selected_index(Some(10)));
    // row 10 spans 240..264; viewport 100 high
    assert_eq!(l.scroll_offset(), 264 - 100);
    assert!(l.set_selected_index(Some(0)));
    assert_eq!(l.scroll_offset(), 0);
}

#[test]
fn wheel_scrolls_three_rows_and_clamps() {
    let mut l = list(20, 100);
    let wheel = |dy: i32| Event::MouseWheel(erigui_widgets::event::MouseWheelEvent {
        position: Point::new(10, 10),
        delta: Point::new(0, dy),
        modifiers: erigui_widgets::event::Modifiers::empty(),
    });
    let (r, _) = l.handle_event(&wheel(-1));
    assert_eq!(r, EventResult::Consumed);
    assert_eq!(l.scroll_offset(), 72);
    l.handle_event(&wheel(-100));
    assert_eq!(l.scroll_offset(), 20 * 24 - 100);
    l.handle_event(&wheel(100));
    assert_eq!(l.scroll_offset(), 0);
}

#[test]
fn click_selects_and_focuses() {
    let mut l = list(5, 100);
    let (r, fired) = l.handle_event(&Event::left_button(Point::new(5, 30), true));
    assert_eq!(r, EventResult::Consumed);
    assert!(fired);
    assert_eq!(l.selected_index(), Some(1));
    assert!(l.is_focused());
}

#[test]
fn keyboard_moves_the_selection() {
    let mut l = list(30, 100);
    l.set_focused(true);
    l.handle_event(&Event::key(Key::Down));
    assert_eq!(l.selected_index(), Some(1));
    l.handle_event(&Event::key(Key::PageDown));
    assert_eq!(l.selected_index(), Some(11));
    l.handle_event(&Event::key(Key::End));
    assert_eq!(l.selected_index(), Some(29));
    l.handle_event(&Event::key(Key::Down));
    assert_eq!(l.selected_index(), Some(29));
    l.handle_event(&Event::key(Key::PageUp));
    assert_eq!(l.selected_index(), Some(19));
    l.handle_event(&Event::key(Key::Home));
    assert_eq!(l.selected_index(), Some(0));
    l.handle_event(&Event::key(Key::Up));
    assert_eq!(l.selected_index(), Some(0));
    let (r, _) = l.handle_event(&Event::key(Key::Tab));
    assert_eq!(r, EventResult::Ignored);
}

#[test]
fn multi_select_click_toggles_mark() {
    let mut l = list(3, 100).with_multi_select(true);
    let (r, fired) = l.handle_event(&Event::left_button(Point::new(5, 5), true));
    assert_eq!(r, EventResult::Consumed);
    assert!(!fired);
    assert!(l.is_item_marked(0));
    l.handle_event(&Event::left_button(Point::new(5, 5), true));
    assert!(!l.is_item_marked(0));
    assert_eq!(l.selected_index(), None);
}

#[test]
fn layout_clamps_scroll_offset() {
    let mut l = list(20, 100);
    l.set_selected_index(Some(19));
    assert_eq!(l.scroll_offset(), 480 - 100);
    l.layout(Rect::new(0, 0, 200, 400));
    assert_eq!(l.scroll_offset(), 80);
    let s = l.measure(None, Some(50));
    assert_eq!((s.width, s.height), (200, 50));
}
