use erigui_widgets::dock_panel::{DockEventOutcome, DockPanel, DockPosition, DockablePanel};
use erigui_widgets::event::{Event, EventResult};
use erigui_widgets::geometry::{Point, Rect, WidgetId};
use erigui_widgets::widget::ThemeMetrics;

fn theme() -> ThemeMetrics {
    ThemeMetrics {
        font_size_base: 14,
        font_size_small: 12,
        font_size_large: 18,
        gap_small: 4,
        padding_top: 6,
        padding_right: 12,
        padding_bottom: 6,
        padding_left: 12,
    }
}

fn workspace() -> DockPanel {
    let mut d = DockPanel::new(WidgetId(11));
    d.add_panel(DockablePanel::new("files", "Files"), DockPosition::Center);
    d.add_panel(DockablePanel::new("props", "Properties"), DockPosition::Right);
    d.add_panel(DockablePanel::new("log", "Log"), DockPosition::Bottom);
    d.add_panel(DockablePanel::new("out", "Outline"), DockPosition::Center);
    d.layout(Rect::new(0, 0, 1000, 600), &theme());
    d
}

#[test]
fn center_joins_the_first_tab_group() {
    let d = workspace();
    assert_eq!(d.first_leaf_panels_for_test(), vec!["files".to_string(), "out".to_string()]);
    assert_eq!(d.first_leaf_active_index_for_test(), Some(0));
}

#[test]
fn sides_split_the_whole_layout() {
    let d = workspace();
    let leaves: Vec<(Vec<usize>, Rect, Rect)> =
        d.leaf_layout().iter().map(|l| (l.path.indices.clone(), l.tab_rect, l.content_rect)).collect();
    assert_eq!(
        leaves,
        vec![
            (vec![0, 0], Rect::new(0, 0, 698, 30), Rect::new(0, 30, 698, 388)),
            (vec![0, 1], Rect::new(702, 0, 298, 30), Rect::new(702, 30, 298, 388)),
            (vec![1], Rect::new(0, 422, 1000, 30), Rect::new(0, 452, 1000, 148)),
        ]
    );
    let dividers: Vec<(Vec<usize>, Rect)> =
        d.splitter_layout().iter().map(|s| (s.path.indices.clone(), s.rect)).collect();
    assert_eq!(dividers, vec![(vec![0], Rect::new(698, 0, 4, 418)), (vec![], Rect::new(0, 418, 1000, 4))]);
}

#[test]
fn dragging_a_divider_moves_it() {
    let mut d = workspace();
    let r = d.handle_event(&Event::left_button(Point::new(700, 100), true));
    assert_eq!(r, DockEventOutcome::Done(EventResult::Consumed));
    let r = d.handle_event(&Event::mouse_move(Point::new(500, 100)));
    assert_eq!(r, DockEventOutcome::Done(EventResult::Consumed));
    let r = d.handle_event(&Event::left_button(Point::new(500, 100), false));
    assert_eq!(r, DockEventOutcome::ToPanels);
    d.layout(Rect::new(0, 0, 1000, 600), &theme());
    assert_eq!(d.leaf_layout()[0].tab_rect, Rect::new(0, 0, 498, 30));
    // The divider is held between a tenth and nine tenths.
    d.handle_event(&Event::left_button(Point::new(500, 100), true));
    d.handle_event(&Event::mouse_move(Point::new(10, 100)));
    d.layout(Rect::new(0, 0, 1000, 600), &theme());
    assert_eq!(d.leaf_layout()[0].tab_rect, Rect::new(0, 0, 98, 30));
    // Presses elsewhere are for the panels.
    let r = d.handle_event(&Event::left_button(Point::new(300, 300), true));
    assert_eq!(r, DockEventOutcome::ToPanels);
}

#[test]
fn floating_windows_move_by_their_title() {
    let mut d = workspace();
    d.add_panel(DockablePanel::new("tools", "Tools"), DockPosition::Floating);
    assert_eq!(d.floating_windows()[0].bounds, Rect::new(100, 100, 400, 300));
    let r = d.handle_event(&Event::left_button(Point::new(150, 110), true));
    assert_eq!(r, DockEventOutcome::Done(EventResult::Consumed));
    d.handle_event(&Event::mouse_move(Point::new(250, 210)));
    assert_eq!(d.floating_windows()[0].bounds, Rect::new(200, 200, 400, 300));
    d.handle_event(&Event::left_button(Point::new(250, 210), false));
    assert!(!d.floating_windows()[0].dragging);
    // The title bar is a line of text plus 8 high.
    assert_eq!(d.floating_content_rect(0), Rect::new(200, 222, 400, 278));
}

#[test]
fn removing_a_panel_collapses_its_split() {
    let mut d = workspace();
    let p = d.remove_panel("props").unwrap();
    assert_eq!(p.title, "Properties");
    assert!(d.remove_panel("props").is_none());
    d.layout(Rect::new(0, 0, 1000, 600), &theme());
    assert_eq!(d.leaf_layout().len(), 2);
    assert_eq!(d.splitter_layout().len(), 1);
    assert_eq!(d.leaf_layout()[0].tab_rect, Rect::new(0, 0, 1000, 30));
}

#[test]
fn selecting_a_tab() {
    let mut d = workspace();
    assert!(d.set_active_tab(&vec![0, 0], 1));
    assert_eq!(d.first_leaf_active_index_for_test(), Some(1));
    assert!(!d.set_active_tab(&vec![0, 0], 5));
    let s = d.measure(None, Some(300));
    assert_eq!((s.width, s.height), (800, 300));
}

#[test]
fn a_removed_panel_leaves_every_tab_group_and_window() {
    let mut d = workspace();
    d.add_panel(DockablePanel::new("float", "Float"), DockPosition::Floating);
    assert_eq!(d.floating_windows().len(), 1);
    assert_eq!(d.remove_panel("out").unwrap().title, "Outline");
    assert_eq!(d.first_leaf_panels_for_test(), vec!["files".to_string()]);
    assert_eq!(d.remove_panel("float").unwrap().title, "Float");
    assert_eq!(d.floating_windows().len(), 0);
    // removing again finds nothing and changes nothing
    assert!(d.remove_panel("out").is_none());
    assert!(d.remove_panel("float").is_none());
    assert_eq!(d.first_leaf_panels_for_test(), vec!["files".to_string()]);
    d.layout(Rect::new(0, 0, 1000, 600), &theme());
    assert_eq!(d.leaf_layout().len(), 3);
}
