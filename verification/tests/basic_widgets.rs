use erigui_widgets::button::{Button, ButtonIcon};
use erigui_widgets::checkbox::Checkbox;
use erigui_widgets::clipboard::{clear_clipboard, get_clipboard, set_clipboard, Clipboard};
use erigui_widgets::event::{Event, EventResult, Key};
use erigui_widgets::geometry::{Point, Rect, WidgetId};
use erigui_widgets::node_progress::NodeProgress;
use erigui_widgets::widget::ThemeMetrics;

fn theme() -> ThemeMetrics {
    ThemeMetrics {
        font_size_base: 14,
        font_size_small: 12,
        font_size_large: 18,
        gap_small: 4,
        padding_top: 6,
        padding_right: 12,
        padding_bottom: 6,
        padding_left: 12,
    }
}

#[test]
fn checkbox_toggles_on_click_and_keys() {
    let mut c = Checkbox::new(WidgetId(1), "Wrap");
    c.layout(Rect::new(0, 0, 100, 20));
    assert!(!c.is_checked());
    let (r, now) = c.handle_event(&Event::left_button(Point::new(5, 5), true));
    assert_eq!((r, now), (EventResult::Consumed, Some(true)));
    assert!(c.is_checked());
    assert!(c.is_focused());
    // Releasing does nothing; a press outside does nothing.
    let (r, now) = c.handle_event(&Event::left_button(Point::new(5, 5), false));
    assert_eq!((r, now), (EventResult::Ignored, None));
    let (r, _) = c.handle_event(&Event::left_button(Point::new(500, 5), true));
    assert_eq!(r, EventResult::Ignored);
    let (r, now) = c.handle_event(&Event::key(Key::Space));
    assert_eq!((r, now), (EventResult::Consumed, Some(false)));
    let (_, now) = c.handle_event(&Event::key(Key::Enter));
    assert_eq!(now, Some(true));
}

#[test]
fn checkbox_reports_only_changes() {
    let mut c = Checkbox::new(WidgetId(1), "Wrap").with_checked(true);
    assert_eq!(c.set_checked(true), None);
    assert_eq!(c.set_checked(false), Some(false));
    assert!(c.toggle());
    assert!(c.is_checked());
}

#[test]
fn checkbox_hover_and_size() {
    let mut c = Checkbox::new(WidgetId(1), "Wrap");
    c.layout(Rect::new(0, 0, 100, 20));
    let (r, _) = c.handle_event(&Event::mouse_move(Point::new(5, 5)));
    assert_eq!(r, EventResult::Consumed);
    assert!(c.is_hovering());
    let (r, _) = c.handle_event(&Event::mouse_move(Point::new(6, 5)));
    assert_eq!(r, EventResult::Ignored);
    // 16-pixel box, 8 apart, four bytes at 7 pixels.
    let s = c.measure(14);
    assert_eq!((s.width, s.height), (52, 16));
    assert_eq!(c.get_box_rect(), Rect::new(0, 2, 16, 16));
    let mut d = Checkbox::new(WidgetId(2), "x");
    d.set_enabled(false);
    let (r, now) = d.handle_event(&Event::left_button(Point::new(0, 0), true));
    assert_eq!((r, now), (EventResult::Ignored, None));
}

#[test]
fn button_clicks_on_release_while_hovered() {
    let mut b = Button::new(WidgetId(1), "OK");
    b.layout(Rect::new(0, 0, 60, 30));
    // A press and release without hovering first is no click.
    let (r, clicked) = b.handle_event(&Event::left_button(Point::new(10, 10), true));
    assert_eq!((r, clicked), (EventResult::Consumed, false));
    assert!(b.is_pressed());
    let (_, clicked) = b.handle_event(&Event::left_button(Point::new(10, 10), false));
    assert!(!clicked);
    b.handle_event(&Event::mouse_move(Point::new(10, 10)));
    assert!(b.is_hovered());
    b.handle_event(&Event::left_button(Point::new(10, 10), true));
    let (r, clicked) = b.handle_event(&Event::left_button(Point::new(10, 10), false));
    assert_eq!((r, clicked), (EventResult::Consumed, true));
    assert!(!b.is_pressed());
    // Focused, Enter activates too.
    let (_, clicked) = b.handle_event(&Event::key(Key::Enter));
    assert!(clicked);
    let (_, clicked) = b.handle_event(&Event::key(Key::Escape));
    assert!(!clicked);
}

#[test]
fn button_sizes_follow_the_theme() {
    let t = theme();
    let s = Button::new(WidgetId(1), "OK").measure(&t);
    assert_eq!((s.width, s.height), (38, 26));
    let s = Button::new(WidgetId(1), "").with_icon(ButtonIcon::Home).measure(&t);
    assert_eq!((s.width, s.height), (48, 36));
    let s = Button::new(WidgetId(1), "Go").with_icon(ButtonIcon::Home).measure(&t);
    assert_eq!((s.width, s.height), (66, 36));
    let s = Button::new(WidgetId(1), "").measure(&t);
    assert_eq!((s.width, s.height), (56, 44));
    let mut b = Button::new(WidgetId(1), "a");
    b.set_text("Cancel");
    assert_eq!(b.text(), "Cancel");
    assert!(b.icon().is_none());
}

#[test]
fn clipboard_keeps_the_last_text() {
    let mut c = Clipboard::new();
    assert_eq!(get_clipboard(&c), "");
    set_clipboard(&mut c, "one");
    set_clipboard(&mut c, "two");
    assert_eq!(get_clipboard(&c), "two");
    clear_clipboard(&mut c);
    assert_eq!(get_clipboard(&c), "");
}

#[test]
fn node_progress_steps_and_errors() {
    let mut p = NodeProgress::default_progress();
    assert!(!p.is_error());
    p.set_step(3, 10, "sampling");
    p.set_error("out of memory");
    assert!(p.is_error());
    assert_eq!((p.current, p.total), (3, 10));
    assert_eq!(p.label, "sampling");
    p.set_step(4, 10, "sampling");
    assert!(!p.is_error());
    assert_eq!(p.current, 4);
}
