use erigui_widgets::event::{Event, EventResult, Key, KeyPressEvent, Modifiers};
use erigui_widgets::geometry::{Point, Rect, WidgetId};
use erigui_widgets::spin_box::{SpinAction, SpinButton, SpinControl};

fn key(k: Key) -> Event {
    Event::KeyPress(KeyPressEvent { key: k, modifiers: Modifiers::empty() })
}

fn spin() -> SpinControl {
    let mut c = SpinControl::new(WidgetId(2), "5".to_string());
    c.state.bounds = Rect::new(0, 0, 120, 28);
    c
}

#[test]
fn buttons_step_and_hold() {
    let mut c = spin();
    assert_eq!(c.button_from_point(Point::new(110, 5)), Some(SpinButton::Up));
    assert_eq!(c.button_from_point(Point::new(110, 20)), Some(SpinButton::Down));
    assert_eq!(c.button_from_point(Point::new(50, 20)), None);
    let r = c.handle_event(&Event::left_button(Point::new(110, 20), true), 1000);
    assert_eq!(r, (EventResult::Consumed, SpinAction::Step(SpinButton::Down)));
    assert_eq!(c.pressed_button, Some(SpinButton::Down));
    // not yet repeating
    assert_eq!(c.update(1400), None);
    // past the delay: the count starts, then repeats every interval
    assert_eq!(c.update(1501), None);
    assert_eq!(c.update(1540), None);
    assert_eq!(c.update(1552), Some(SpinButton::Down));
    let r = c.handle_event(&Event::left_button(Point::new(110, 20), false), 1600);
    assert_eq!(r, (EventResult::Ignored, SpinAction::Nothing));
    assert_eq!(c.update(2000), None);
}

#[test]
fn typing_edits_the_text() {
    let mut c = spin();
    assert_eq!(c.handle_event(&key(Key::Up), 0), (EventResult::Consumed, SpinAction::Step(SpinButton::Up)));
    assert_eq!(c.handle_event(&Event::left_button(Point::new(10, 10), true), 0), (EventResult::Consumed, SpinAction::Nothing));
    assert!(c.is_focused());
    assert_eq!(c.handle_event(&key(Key::Backspace), 0).0, EventResult::Consumed);
    assert_eq!(c.text_value, "");
    assert_eq!(c.handle_event(&key(Key::Character('-')), 0).0, EventResult::Consumed);
    assert_eq!(c.handle_event(&key(Key::Character('1')), 0).0, EventResult::Consumed);
    assert_eq!(c.handle_event(&key(Key::Character('-')), 0).0, EventResult::Ignored);
    assert_eq!(c.handle_event(&key(Key::Character('x')), 0).0, EventResult::Ignored);
    assert_eq!(c.handle_event(&key(Key::Character('.')), 0).0, EventResult::Consumed);
    assert_eq!(c.handle_event(&key(Key::Character('٣')), 0).0, EventResult::Consumed);
    assert_eq!(c.text_value, "-1.٣");
    assert_eq!(c.handle_event(&key(Key::Enter), 0), (EventResult::Consumed, SpinAction::CommitText));
    assert!(!c.is_focused());
}

#[test]
fn escape_drops_and_leaving_commits() {
    let mut c = spin();
    c.handle_event(&Event::left_button(Point::new(10, 10), true), 0);
    assert_eq!(c.handle_event(&key(Key::Escape), 0), (EventResult::Consumed, SpinAction::RestoreText));
    c.handle_event(&Event::left_button(Point::new(10, 10), true), 0);
    assert_eq!(c.handle_event(&Event::left_button(Point::new(500, 10), true), 0), (EventResult::Ignored, SpinAction::CommitText));
    c.handle_event(&Event::left_button(Point::new(10, 10), true), 0);
    assert!(c.set_focused(false));
    assert!(!c.set_focused(false));
    c.set_enabled(false);
    assert_eq!(c.handle_event(&key(Key::Up), 0), (EventResult::Ignored, SpinAction::Nothing));
}
