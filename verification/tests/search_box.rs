use erigui_widgets::event::{Event, EventResult, Key, Modifiers, MouseButton, MouseButtonEvent};
use erigui_widgets::geometry::{Point, Rect, Size, WidgetId};
use erigui_widgets::search_box::{SearchBox, SearchOutcome};

fn boxed() -> SearchBox {
    let mut b = SearchBox::new(WidgetId(1));
    b.layout(Rect::new(0, 0, 300, 30), 14);
    b
}

#[test]
fn history_promotes_and_caps() {
    let mut b = boxed();
    for i in 0..25 {
        b.add_to_history(format!("q{}", i));
    }
    let h = b.history_snapshot();
    assert_eq!(h.len(), 20);
    assert_eq!(h[0], "q24");
    assert_eq!(h[19], "q5");
    b.add_to_history("q10".to_string());
    let h = b.history_snapshot();
    assert_eq!(h.len(), 20);
    assert_eq!(h[0], "q10");
    assert_eq!(h[1], "q24");
    b.add_to_history(String::new());
    assert_eq!(b.history_snapshot().len(), 20);
}

#[test]
fn set_text_filters_history_ignoring_case() {
    let mut b = boxed();
    b.add_to_history("Rust".to_string());
    b.add_to_history("python".to_string());
    b.add_to_history("TRUST".to_string());
    let changed = b.set_text("rus", None);
    assert_eq!(changed, "rus");
    assert_eq!(b.suggestions_snapshot(), vec!["TRUST".to_string(), "Rust".to_string()]);
    assert!(b.is_showing_suggestions());
    assert_eq!(b.selected_suggestion(), None);
    b.set_text("zzz", Some(vec!["provided".to_string()]));
    assert_eq!(b.suggestions_snapshot(), vec!["provided".to_string()]);
}

#[test]
fn empty_text_suggests_history() {
    let mut b = boxed();
    b.add_to_history("one".to_string());
    let changed = b.clear();
    assert_eq!(changed, "");
    assert_eq!(b.suggestion_count(), 1);
    assert!(b.is_showing_suggestions());
}

#[test]
fn debounce_fires_once_after_delay() {
    let mut b = boxed().with_debounce_delay(300);
    let r = b.input_edited("ab", EventResult::Consumed, 1000, None);
    assert_eq!(r, EventResult::Consumed);
    assert!(b.has_pending_change());
    assert_eq!(b.poll_debounce(1200, None), None);
    assert_eq!(b.poll_debounce(1300, None), Some("ab".to_string()));
    assert!(!b.has_pending_change());
    assert_eq!(b.poll_debounce(5000, None), None);
}

#[test]
fn enter_searches_and_records() {
    let mut b = boxed();
    b.set_focused(true);
    b.set_text("hello", None);
    let (out, fired) = b.handle_event(&Event::key(Key::Enter), 14, 0, None);
    assert_eq!(out, SearchOutcome::Done(EventResult::Consumed));
    assert_eq!(fired.searched, Some("hello".to_string()));
    assert_eq!(b.history_snapshot(), vec!["hello".to_string()]);
    assert!(!b.is_showing_suggestions());
}

#[test]
fn arrows_cycle_suggestions_and_enter_chooses() {
    let mut b = boxed();
    b.add_to_history("alpha".to_string());
    b.add_to_history("beta".to_string());
    b.clear();
    b.set_focused(true);
    b.handle_event(&Event::key(Key::Down), 14, 0, None);
    assert_eq!(b.selected_suggestion(), Some(0));
    b.handle_event(&Event::key(Key::Down), 14, 0, None);
    assert_eq!(b.selected_suggestion(), Some(1));
    b.handle_event(&Event::key(Key::Down), 14, 0, None);
    assert_eq!(b.selected_suggestion(), Some(0));
    b.handle_event(&Event::key(Key::Up), 14, 0, None);
    assert_eq!(b.selected_suggestion(), Some(1));
    let (_, fired) = b.handle_event(&Event::key(Key::Enter), 14, 0, None);
    assert_eq!(fired.searched, Some("alpha".to_string()));
    assert_eq!(b.get_text(), "alpha");
    assert_eq!(b.history_snapshot()[0], "alpha");
}

#[test]
fn escape_closes_and_other_keys_go_to_the_field() {
    let mut b = boxed();
    b.add_to_history("x".to_string());
    b.clear();
    b.set_focused(true);
    let (out, _) = b.handle_event(&Event::key(Key::Escape), 14, 0, None);
    assert_eq!(out, SearchOutcome::Done(EventResult::Consumed));
    assert!(!b.is_showing_suggestions());
    let (out, _) = b.handle_event(&Event::key(Key::Character('a')), 14, 0, None);
    assert_eq!(out, SearchOutcome::EditToInput);
    b.set_focused(false);
    let (out, _) = b.handle_event(&Event::key(Key::Enter), 14, 0, None);
    assert_eq!(out, SearchOutcome::Done(EventResult::Ignored));
}

#[test]
fn clear_button_press_empties_the_field() {
    let mut b = boxed();
    b.set_text("abc", None);
    let c = b.clear_button_rect();
    let (out, fired) = b.handle_event(&Event::left_button(Point::new(c.x + 5, c.y + 5), true), 14, 0, None);
    assert_eq!(out, SearchOutcome::Done(EventResult::Consumed));
    assert_eq!(fired.changes, vec![String::new()]);
    assert!(fired.focus_input);
    assert_eq!(b.get_text(), "");
    assert!(b.is_focused());
    let (out, _) = b.handle_event(&Event::left_button(Point::new(100, 10), true), 14, 0, None);
    assert_eq!(out, SearchOutcome::PressToInput);
    let right = Event::MouseButton(MouseButtonEvent {
        button: MouseButton::Right,
        position: Point::new(100, 10),
        pressed: true,
        modifiers: Modifiers::empty(),
    });
    let (out, _) = b.handle_event(&right, 14, 0, None);
    assert_eq!(out, SearchOutcome::EditToInput);
}

#[test]
fn suggestion_click_chooses_row() {
    let mut b = boxed();
    b.add_to_history("first".to_string());
    b.add_to_history("second".to_string());
    b.clear();
    // list under the box: y = 32, rows of 22
    let (out, fired) = b.handle_event(&Event::left_button(Point::new(10, 32 + 22 + 3), true), 14, 0, None);
    assert_eq!(out, SearchOutcome::Done(EventResult::Consumed));
    assert_eq!(fired.searched, Some("first".to_string()));
    assert_eq!(b.get_text(), "first");
}

#[test]
fn layout_places_icon_field_and_button() {
    let b = boxed();
    assert_eq!(b.input_rect(), Rect::new(36, 0, 228, 30));
    assert_eq!(b.clear_button_rect(), Rect::new(272, 5, 20, 20));
    let s = b.measure(Size::new(150, 30));
    assert_eq!((s.width, s.height), (200, 30));
}
