use erigui_widgets::event::{Event, EventResult, Key, KeyPressEvent, Modifiers};
use erigui_widgets::geometry::{Point, Rect, WidgetId};
use erigui_widgets::menu::{MenuBar, MenuItem};

fn file_menu() -> Vec<MenuItem> {
    let mut disabled = MenuItem::new("Print");
    disabled.enabled = false;
    vec![
        MenuItem::new("New").with_on_click(1),
        MenuItem::separator(),
        disabled,
        MenuItem::new("Quit").with_shortcut("Ctrl+Q").with_on_click(2),
    ]
}

fn bar() -> MenuBar {
    let mut m = MenuBar::new(WidgetId(1));
    m.add_menu("File", file_menu());
    m.add_menu("Edit", vec![MenuItem::new("Undo").with_on_click(3)]);
    m.layout(Rect::new(0, 0, 400, 28));
    m
}

fn alt(key: Key) -> Event {
    Event::KeyPress(KeyPressEvent { key, modifiers: Modifiers { shift: false, ctrl: false, alt: true, meta: false } })
}

#[test]
fn menu_titles_are_measured_by_characters() {
    let mut m = MenuBar::new(WidgetId(1));
    m.add_menu("Ä", vec![]);
    // one character: 8 pixels plus three paddings of 8
    let s = m.measure(14);
    assert_eq!(s.width, 100);
    assert_eq!(s.height, 30);
    assert_eq!(m.menu_index_at(Point::new(5, 5)), -1);
    m.layout(Rect::new(0, 0, 300, 28));
    assert_eq!(m.menu_index_at(Point::new(5, 5)), 0);
    assert_eq!(m.menu_index_at(Point::new(4 + 32, 5)), -1);
}

#[test]
fn dropdown_width_is_per_menu() {
    let mut m = MenuBar::new(WidgetId(1));
    let wide = MenuItem::new("A very long menu entry label that is wide");
    m.add_menu("A", vec![wide]);
    m.add_menu("B", vec![MenuItem::new("x")]);
    assert_eq!(m.dropdown_width_at(0), 41 * 8 + 32);
    assert_eq!(m.dropdown_width_at(1), 200);
    assert_eq!(m.dropdown_width_at(7), 200);
}

#[test]
fn title_press_opens_and_second_press_closes() {
    let mut m = bar();
    let (r, a) = m.handle_event(&Event::left_button(Point::new(10, 10), true));
    assert_eq!(r, EventResult::Consumed);
    assert_eq!(a, None);
    assert!(m.is_dropdown_visible());
    assert_eq!(m.active_menu(), 0);
    // first focusable row is "New"
    assert_eq!(m.dropdown_hover(), 0);
    m.handle_event(&Event::left_button(Point::new(10, 10), true));
    assert!(!m.is_dropdown_visible());
    assert_eq!(m.active_menu(), -1);
}

#[test]
fn arrows_skip_separators_and_disabled_entries() {
    let mut m = bar();
    m.handle_event(&Event::left_button(Point::new(10, 10), true));
    m.handle_event(&Event::key(Key::Down));
    assert_eq!(m.dropdown_hover(), 3);
    m.handle_event(&Event::key(Key::Down));
    assert_eq!(m.dropdown_hover(), 0);
    m.handle_event(&Event::key(Key::Up));
    assert_eq!(m.dropdown_hover(), 3);
}

#[test]
fn enter_activates_and_closes() {
    let mut m = bar();
    m.handle_event(&Event::left_button(Point::new(10, 10), true));
    m.handle_event(&Event::key(Key::Down));
    let (r, a) = m.handle_event(&Event::key(Key::Enter));
    assert_eq!(r, EventResult::Consumed);
    assert_eq!(a, Some(2));
    assert!(!m.is_dropdown_visible());
}

#[test]
fn press_on_disabled_entry_keeps_menu_open() {
    let mut m = bar();
    m.handle_event(&Event::left_button(Point::new(10, 10), true));
    let d = m.dropdown_rect_for(0);
    // rows: New 28, separator 14, Print 28
    let p = Point::new(d.x + 5, d.y + 28 + 14 + 5);
    let (r, a) = m.handle_event(&Event::left_button(p, true));
    assert_eq!(r, EventResult::Consumed);
    assert_eq!(a, None);
    assert!(m.is_dropdown_visible());
    let p = Point::new(d.x + 5, d.y + 3);
    let (_, a) = m.handle_event(&Event::left_button(p, true));
    assert_eq!(a, Some(1));
    assert!(!m.is_dropdown_visible());
}

#[test]
fn escape_and_outside_press_close() {
    let mut m = bar();
    m.handle_event(&Event::left_button(Point::new(10, 10), true));
    let (r, _) = m.handle_event(&Event::key(Key::Escape));
    assert_eq!(r, EventResult::Consumed);
    assert!(!m.is_dropdown_visible());
    m.handle_event(&Event::left_button(Point::new(10, 10), true));
    let (r, _) = m.handle_event(&Event::left_button(Point::new(390, 900), true));
    assert_eq!(r, EventResult::Consumed);
    assert!(!m.is_dropdown_visible());
}

#[test]
fn left_and_right_cycle_menus() {
    let mut m = bar();
    m.handle_event(&Event::left_button(Point::new(10, 10), true));
    m.handle_event(&Event::key(Key::Right));
    assert_eq!(m.active_menu(), 1);
    m.handle_event(&Event::key(Key::Right));
    assert_eq!(m.active_menu(), 0);
    m.handle_event(&Event::key(Key::Left));
    assert_eq!(m.active_menu(), 1);
}

#[test]
fn alt_letter_opens_matching_menu() {
    let mut m = bar();
    let (r, _) = m.handle_event(&alt(Key::E));
    assert_eq!(r, EventResult::Consumed);
    assert_eq!(m.active_menu(), 1);
    let (r, _) = m.handle_event(&alt(Key::Character('F')));
    assert_eq!(r, EventResult::Consumed);
    assert_eq!(m.active_menu(), 0);
    let mut m2 = bar();
    let (r, _) = m2.handle_event(&alt(Key::Z));
    assert_eq!(r, EventResult::Ignored);
}

#[test]
fn dropdown_flips_above_when_viewport_is_short() {
    let mut m = MenuBar::new(WidgetId(1));
    m.add_menu("File", file_menu());
    m.layout(Rect::new(0, 500, 400, 28));
    m.set_viewport(Rect::new(0, 0, 400, 560));
    let d = m.dropdown_rect_for(0);
    // 28 + 14 + 28 + 28 rows
    assert_eq!(d.height, 98);
    assert_eq!(d.y, 500 - 98);
    assert_eq!(d.x, 4);
}

#[test]
fn hover_over_dropdown_tracks_rows() {
    let mut m = bar();
    m.handle_event(&Event::left_button(Point::new(10, 10), true));
    let d = m.dropdown_rect_for(0);
    m.handle_event(&Event::mouse_move(Point::new(d.x + 3, d.y + 28 + 14 + 28 + 5)));
    assert_eq!(m.dropdown_hover(), 3);
    assert_eq!(m.submenu_open(), None);
}
