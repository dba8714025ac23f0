use erigui_widgets::combo_box::{contains_text, ComboBox};
use erigui_widgets::event::{Event, EventResult, Key};
use erigui_widgets::geometry::{Point, Rect, WidgetId};

fn fruit() -> ComboBox {
    let items = vec![
        "Apple".to_string(),
        "Banana".to_string(),
        "Cherry".to_string(),
        "apricot".to_string(),
    ];
    let mut c = ComboBox::new(WidgetId(9)).with_items(items);
    c.layout(Rect::new(0, 0, 200, 24));
    c
}

#[test]
fn substring_search() {
    assert!(contains_text("hello", "ll"));
    assert!(contains_text("hello", ""));
    assert!(contains_text("", ""));
    assert!(!contains_text("a", "ab"));
    assert!(!contains_text("hello", "lo!"));
}

#[test]
fn selection_is_only_taken_in_range() {
    let mut c = fruit();
    assert_eq!(c.selected_index(), None);
    assert_eq!(c.selected_text(), None);
    assert!(c.set_selected(Some(2)));
    assert_eq!(c.selected_text().map(|s| s.as_str()), Some("Cherry"));
    assert!(!c.set_selected(Some(4)));
    assert_eq!(c.selected_index(), Some(2));
    assert!(c.set_selected(None));
    assert_eq!(c.selected_index(), None);
    let c = fruit().with_selected(1).with_selected(10);
    assert_eq!(c.selected_index(), Some(1));
}

#[test]
fn typing_filters_case_insensitively_and_clicking_selects() {
    let mut c = fruit();
    let (r, sel) = c.handle_event(&Event::left_button(Point::new(10, 10), true));
    assert_eq!((r, sel), (EventResult::Consumed, None));
    assert!(c.is_open());
    assert_eq!(c.shown_items(), &vec![0usize, 1, 2, 3]);
    c.handle_event(&Event::key(Key::Character('A')));
    c.handle_event(&Event::key(Key::Character('p')));
    assert_eq!(c.filter_text(), "Ap");
    assert_eq!(c.shown_items(), &vec![0usize, 3]);
    // The list opens under the box: row 1 of the filtered list is item 3.
    let (r, sel) = c.handle_event(&Event::left_button(Point::new(10, 54), true));
    assert_eq!((r, sel), (EventResult::Consumed, Some(3)));
    assert!(!c.is_open());
    assert_eq!(c.selected_text().map(|s| s.as_str()), Some("apricot"));
}

#[test]
fn backspace_and_escape_edit_the_filter() {
    let mut c = fruit();
    c.set_open(true);
    c.handle_event(&Event::key(Key::Character('c')));
    assert_eq!(c.shown_items(), &vec![2usize, 3]);
    c.handle_event(&Event::key(Key::Backspace));
    assert_eq!(c.shown_items(), &vec![0usize, 1, 2, 3]);
    c.handle_event(&Event::key(Key::Character('z')));
    assert!(c.shown_items().is_empty());
    let (r, _) = c.handle_event(&Event::key(Key::Escape));
    assert_eq!(r, EventResult::Consumed);
    assert!(!c.is_open());
    assert_eq!(c.filter_text(), "");
    assert_eq!(c.shown_items().len(), 4);
    // Keys are ignored while closed.
    let (r, _) = c.handle_event(&Event::key(Key::Character('x')));
    assert_eq!(r, EventResult::Ignored);
}

#[test]
fn rows_and_hover() {
    let mut c = fruit();
    c.set_open(true);
    assert_eq!(c.get_item_rect(2), Some(Rect::new(0, 74, 200, 25)));
    assert_eq!(c.get_item_rect(7), None);
    let (r, _) = c.handle_event(&Event::mouse_move(Point::new(5, 30)));
    assert_eq!(r, EventResult::Consumed);
    assert_eq!(c.hover_index(), Some(0));
    c.handle_event(&Event::mouse_move(Point::new(500, 30)));
    assert_eq!(c.hover_index(), None);
    // A press outside the box and the list closes it without a choice.
    let (r, sel) = c.handle_event(&Event::left_button(Point::new(500, 500), true));
    assert_eq!((r, sel), (EventResult::Consumed, None));
    assert!(!c.is_open());
    let s = c.measure(14);
    assert_eq!((s.width, s.height), (200, 26));
}
