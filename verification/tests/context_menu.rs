use erigui_widgets::context_menu::{ContextMenu, ContextMenuItem, ItemHit};
use erigui_widgets::event::{Event, EventResult, Key};
use erigui_widgets::geometry::{Point, Rect, WidgetId};

fn edit_menu() -> ContextMenu {
    ContextMenu::new(WidgetId(5)).with_items(vec![
        ContextMenuItem::new("Cut").with_shortcut("Ctrl+X").with_on_click(1),
        ContextMenuItem::separator(),
        ContextMenuItem::new("Paste").with_on_click(2).disabled(),
        ContextMenuItem::new("More").with_submenu(vec![
            ContextMenuItem::new("Alpha").with_on_click(10),
            ContextMenuItem::new("Beta").with_on_click(11),
        ]),
    ])
}

#[test]
fn size_covers_the_widest_entry_and_all_rows() {
    let m = edit_menu();
    let s = m.measure();
    // Rows of 25 pixels, a 9-pixel separator and 4 of padding.
    assert_eq!((s.width, s.height), (150, 88));
    let wide = ContextMenu::new(WidgetId(6))
        .with_items(vec![ContextMenuItem::new("A very long entry").with_shortcut("Ctrl+Shift+L")]);
    // 40 + 17 * 7 + 12 * 7 + 20
    assert_eq!(wide.measure().width, 263);
    assert_eq!(m.item_count(), 4);
}

#[test]
fn points_are_classified_by_row() {
    let mut m = edit_menu();
    m.show_at(Point::new(100, 100));
    assert!(m.is_open());
    assert_eq!(m.bounds(), Rect::new(100, 100, 150, 88));
    assert_eq!(m.classify_point(Point::new(110, 110)), ItemHit::Item(0));
    assert_eq!(m.classify_point(Point::new(110, 130)), ItemHit::Separator);
    assert_eq!(m.classify_point(Point::new(110, 140)), ItemHit::Disabled(2));
    assert_eq!(m.classify_point(Point::new(110, 170)), ItemHit::Item(3));
    assert_eq!(m.classify_point(Point::new(10, 10)), ItemHit::Outside);
}

#[test]
fn a_viewport_keeps_the_menu_inside() {
    let mut m = edit_menu();
    m.show_at_bounded(Point::new(750, 580), Some(Rect::new(0, 0, 800, 600)));
    assert_eq!(m.bounds(), Rect::new(650, 512, 150, 88));
}

#[test]
fn clicking_an_entry_reports_its_action_and_closes() {
    let mut m = edit_menu();
    m.show_at(Point::new(100, 100));
    let (r, a) = m.handle_event(&Event::left_button(Point::new(110, 110), true));
    assert_eq!((r, a), (EventResult::Consumed, Some(1)));
    assert!(!m.is_open());
    // A closed menu ignores events.
    let (r, a) = m.handle_event(&Event::left_button(Point::new(110, 110), true));
    assert_eq!((r, a), (EventResult::Ignored, None));
}

#[test]
fn disabled_entries_and_separators_do_nothing() {
    let mut m = edit_menu();
    m.show_at(Point::new(100, 100));
    let (r, a) = m.handle_event(&Event::left_button(Point::new(110, 140), true));
    assert_eq!((r, a), (EventResult::Consumed, None));
    let (r, a) = m.handle_event(&Event::left_button(Point::new(110, 130), true));
    assert_eq!((r, a), (EventResult::Consumed, None));
    assert!(m.is_open());
    // A press elsewhere closes the menu.
    let (r, _) = m.handle_event(&Event::left_button(Point::new(10, 10), true));
    assert_eq!(r, EventResult::Consumed);
    assert!(!m.is_open());
}

#[test]
fn keyboard_skips_what_cannot_be_focused() {
    let m = edit_menu();
    assert_eq!(m.step_hover(None, true), Some(0));
    assert_eq!(m.step_hover(Some(0), true), Some(3));
    assert_eq!(m.step_hover(Some(3), true), Some(0));
    assert_eq!(m.step_hover(None, false), Some(3));
    assert_eq!(m.step_hover(Some(3), false), Some(0));
}

#[test]
fn keyboard_opens_the_submenu_and_activates_in_it() {
    let mut m = edit_menu();
    m.show_at(Point::new(100, 100));
    m.handle_event(&Event::key(Key::Down));
    m.handle_event(&Event::key(Key::Down));
    assert_eq!(m.hover_index(), Some(3));
    let (r, a) = m.handle_event(&Event::key(Key::Right));
    assert_eq!((r, a), (EventResult::Consumed, None));
    assert_eq!(m.submenu_open_index(), Some(3));
    assert!(m.has_submenu());
    // Opened beside row 3, which starts 59 pixels below the top padding.
    assert_eq!(m.submenu_bounds(), Some(Rect::new(250, 161, 150, 54)));
    let (r, a) = m.handle_event(&Event::key(Key::Enter));
    assert_eq!((r, a), (EventResult::Consumed, Some(10)));
}

#[test]
fn left_closes_the_submenu_and_escape_the_menu() {
    let mut m = edit_menu();
    m.show_at(Point::new(100, 100));
    m.handle_event(&Event::key(Key::Up));
    assert_eq!(m.hover_index(), Some(3));
    m.handle_event(&Event::key(Key::Enter));
    assert_eq!(m.submenu_open_index(), Some(3));
    m.hide_menu();
    assert!(!m.is_open());
    assert!(!m.has_submenu());
    m.show_at(Point::new(100, 100));
    let (r, _) = m.handle_event(&Event::key(Key::Escape));
    assert_eq!(r, EventResult::Consumed);
    assert!(!m.is_open());
}

#[test]
fn reshowing_at_the_same_anchor_keeps_the_submenu() {
    let mut m = edit_menu();
    let vp = Some(Rect::new(0, 0, 800, 600));
    m.show_at_bounded(Point::new(750, 580), vp);
    assert_eq!(m.bounds(), Rect::new(650, 512, 150, 88));
    m.handle_event(&Event::key(Key::Up));
    m.handle_event(&Event::key(Key::Right));
    assert_eq!(m.submenu_open_index(), Some(3));
    // Same anchor, although the menu was moved into the viewport: kept.
    m.show_at_bounded(Point::new(750, 580), vp);
    assert!(m.has_submenu());
    assert_eq!(m.submenu_open_index(), Some(3));
    assert_eq!(m.hover_index(), Some(3));
    // A new anchor starts afresh.
    m.show_at_bounded(Point::new(700, 580), vp);
    assert!(!m.has_submenu());
    assert_eq!(m.hover_index(), None);
}
