use erigui_widgets::accordion::{Accordion, AccordionOutcome, AccordionPanel, PanelToggle};
use erigui_widgets::event::{Event, EventResult, Key};
use erigui_widgets::geometry::{Point, Rect, WidgetId};

fn three() -> Accordion {
    let mut a = Accordion::new(WidgetId(2)).with_panels(vec![
        AccordionPanel::new("General").with_expanded(true),
        AccordionPanel::new("Locked").with_enabled(false),
        AccordionPanel::new("Advanced"),
    ]);
    a.layout(Rect::new(0, 0, 300, 400));
    a
}

fn expanded(a: &Accordion) -> Vec<bool> {
    a.panels().iter().map(|p| p.expanded).collect()
}

#[test]
fn headers_stack_with_the_open_contents() {
    let a = three();
    let vis = vec![100, 0, 0];
    assert_eq!(a.header_rect_at(0, &vis), Rect::new(0, 0, 300, 40));
    assert_eq!(a.header_rect_at(1, &vis), Rect::new(0, 141, 300, 40));
    assert_eq!(a.header_rect_at(2, &vis), Rect::new(0, 182, 300, 40));
    let s = a.measure(None, &vis);
    assert_eq!((s.width, s.height), (300, 222));
    assert_eq!(a.measure(Some(120), &vis).width, 120);
}

#[test]
fn press_and_release_on_a_header_toggles_it() {
    let mut a = three();
    let vis = vec![100, 0, 0];
    let r = a.handle_event(&Event::left_button(Point::new(10, 190), true), &vis);
    assert_eq!(r, AccordionOutcome::Done(EventResult::Consumed, None));
    assert_eq!(a.pressed_panel(), Some(2));
    let r = a.handle_event(&Event::left_button(Point::new(10, 190), false), &vis);
    assert_eq!(r, AccordionOutcome::Done(EventResult::Consumed, Some(PanelToggle { index: 2, expanded: true })));
    assert_eq!(expanded(&a), vec![true, false, true]);
    assert_eq!(a.pressed_panel(), None);
}

#[test]
fn disabled_headers_and_content_clicks() {
    let mut a = three();
    let vis = vec![100, 0, 0];
    let r = a.handle_event(&Event::left_button(Point::new(10, 150), true), &vis);
    assert_eq!(r, AccordionOutcome::Done(EventResult::Ignored, None));
    // A click in the open content goes nowhere here; a right click goes to the contents.
    let r = a.handle_event(&Event::left_button(Point::new(10, 80), true), &vis);
    assert_eq!(r, AccordionOutcome::Done(EventResult::Ignored, None));
    let r = a.handle_event(&Event::mouse_move(Point::new(10, 150)), &vis);
    assert_eq!(r, AccordionOutcome::Done(EventResult::Consumed, None));
    assert_eq!(a.hovered_panel(), Some(1));
    let r = a.handle_event(&Event::mouse_move(Point::new(900, 150)), &vis);
    assert_eq!(r, AccordionOutcome::Done(EventResult::Ignored, None));
    assert_eq!(a.hovered_panel(), None);
}

#[test]
fn single_open_mode_closes_the_others() {
    let mut a = three().with_allow_multiple(false);
    assert_eq!(a.toggle_panel(2), Some(PanelToggle { index: 2, expanded: true }));
    assert_eq!(expanded(&a), vec![false, false, true]);
    assert_eq!(a.toggle_panel(1), None);
    assert_eq!(a.toggle_panel(7), None);
    assert_eq!(a.collapse_panel(2), Some(PanelToggle { index: 2, expanded: false }));
    assert_eq!(a.collapse_panel(2), None);
    assert_eq!(a.expand_panel(0), Some(PanelToggle { index: 0, expanded: true }));
    a.expand_all();
    assert_eq!(expanded(&a), vec![true, false, false]);
}

#[test]
fn expand_and_collapse_all() {
    let mut a = three();
    a.expand_all();
    assert_eq!(expanded(&a), vec![true, false, true]);
    a.collapse_all();
    assert_eq!(expanded(&a), vec![false, false, false]);
    let removed = a.remove_panel(1).unwrap();
    assert_eq!(removed.title, "Locked");
    assert!(a.remove_panel(5).is_none());
    assert_eq!(a.panels().len(), 2);
}

#[test]
fn keys_move_between_enabled_panels() {
    let mut a = three();
    let vis = vec![100, 0, 0];
    // Keys reach the panels only when the accordion has focus.
    let r = a.handle_event(&Event::key(Key::Down), &vis);
    assert_eq!(r, AccordionOutcome::ToContent);
    a.set_focused(true);
    a.handle_event(&Event::key(Key::Down), &vis);
    assert_eq!(a.focused_panel(), Some(0));
    a.handle_event(&Event::key(Key::Down), &vis);
    assert_eq!(a.focused_panel(), Some(2));
    a.handle_event(&Event::key(Key::Down), &vis);
    assert_eq!(a.focused_panel(), Some(0));
    a.handle_event(&Event::key(Key::Up), &vis);
    assert_eq!(a.focused_panel(), Some(2));
    let r = a.handle_event(&Event::key(Key::Enter), &vis);
    assert_eq!(r, AccordionOutcome::Done(EventResult::Consumed, Some(PanelToggle { index: 2, expanded: true })));
}

#[test]
fn keys_go_nowhere_when_only_the_focused_panel_is_enabled() {
    let mut a = Accordion::new(WidgetId(3)).with_panels(vec![
        AccordionPanel::new("Only"),
        AccordionPanel::new("Locked").with_enabled(false),
    ]);
    a.layout(Rect::new(0, 0, 300, 400));
    a.set_focused(true);
    let vis = vec![0, 0];
    a.handle_event(&Event::key(Key::Down), &vis);
    assert_eq!(a.focused_panel(), Some(0));
    let r = a.handle_event(&Event::key(Key::Down), &vis);
    assert_eq!(r, AccordionOutcome::Done(EventResult::Ignored, None));
    let r = a.handle_event(&Event::key(Key::Up), &vis);
    assert_eq!(r, AccordionOutcome::Done(EventResult::Ignored, None));
    assert_eq!(a.focused_panel(), Some(0));
}
