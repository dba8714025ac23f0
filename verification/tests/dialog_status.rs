use erigui_widgets::dialog::{Dialog, DialogButton, DialogType};
use erigui_widgets::event::{Event, EventResult};
use erigui_widgets::geometry::{Point, Rect, WidgetId};
use erigui_widgets::status_bar::{StatusBar, StatusPanel};

fn question() -> Dialog {
    let mut d = Dialog::new(WidgetId(4), "Save?", "Save changes?").with_standard_buttons(DialogType::Question);
    d.layout(Rect::new(100, 100, 400, 200));
    d.show();
    d
}

#[test]
fn buttons_are_centred_along_the_bottom() {
    let d = question();
    assert_eq!(d.get_button_rect(0), Rect::new(215, 265, 80, 30));
    assert_eq!(d.get_button_rect(1), Rect::new(305, 265, 80, 30));
    assert_eq!(d.get_title_rect(), Rect::new(100, 100, 400, 30));
    assert_eq!(d.get_content_rect(), Rect::new(100, 130, 400, 120));
    assert_eq!(d.get_button_area_rect(), Rect::new(100, 260, 400, 40));
}

#[test]
fn clicking_a_button_answers_and_closes() {
    let mut d = question();
    assert!(d.is_open());
    assert_eq!(d.result(), None);
    let (r, b) = d.handle_event(&Event::left_button(Point::new(310, 270), true));
    assert_eq!((r, b), (EventResult::Consumed, Some(DialogButton::No)));
    assert_eq!(d.result(), Some(DialogButton::No));
    assert!(!d.is_open());
    // A closed dialog ignores events; showing it again clears the answer.
    let (r, _) = d.handle_event(&Event::left_button(Point::new(220, 270), true));
    assert_eq!(r, EventResult::Ignored);
    d.show();
    assert_eq!(d.result(), None);
}

#[test]
fn the_close_box_closes_without_an_answer() {
    let mut d = question();
    let (r, b) = d.handle_event(&Event::left_button(Point::new(480, 110), true));
    assert_eq!((r, b), (EventResult::Consumed, None));
    assert!(!d.is_open());
    assert_eq!(d.result(), None);
}

#[test]
fn dragging_the_title_moves_the_dialog() {
    let mut d = question();
    d.handle_event(&Event::left_button(Point::new(150, 110), true));
    let (r, _) = d.handle_event(&Event::mouse_move(Point::new(250, 210)));
    assert_eq!(r, EventResult::Consumed);
    assert_eq!(d.bounds(), Rect::new(200, 200, 400, 200));
    d.handle_event(&Event::left_button(Point::new(250, 210), false));
    let (r, _) = d.handle_event(&Event::mouse_move(Point::new(0, 0)));
    assert_eq!(r, EventResult::Ignored);
    assert_eq!(d.bounds(), Rect::new(200, 200, 400, 200));
}

#[test]
fn a_modal_dialog_swallows_clicks() {
    let mut d = question();
    let (r, b) = d.handle_event(&Event::left_button(Point::new(5, 5), true));
    assert_eq!((r, b), (EventResult::Consumed, None));
    assert!(d.is_open());
}

#[test]
fn standard_buttons_per_type() {
    let mut d = Dialog::new(WidgetId(4), "Oops", "It failed").with_standard_buttons(DialogType::Error);
    d.layout(Rect::new(0, 0, 300, 150));
    d.show();
    // A single Close button, centred.
    assert_eq!(d.get_button_rect(0), Rect::new(110, 115, 80, 30));
    let (_, b) = d.handle_event(&Event::left_button(Point::new(150, 130), true));
    assert_eq!(b, Some(DialogButton::Close));
    let mut w = Dialog::new(WidgetId(5), "Careful", "Sure?").with_standard_buttons(DialogType::Warning);
    w.layout(Rect::new(0, 0, 300, 150));
    w.show();
    let (_, b) = w.handle_event(&Event::left_button(Point::new(100, 130), true));
    assert_eq!(b, Some(DialogButton::Okay));
    let s = w.measure(14);
    assert_eq!((s.width, s.height), (300, 150));
}

#[test]
fn status_panels_share_the_spare_width() {
    let mut bar = StatusBar::new(WidgetId(8));
    bar.layout(Rect::new(0, 0, 500, 24));
    bar.add_panel(StatusPanel::new("Ready"));
    bar.add_panel(StatusPanel::new("Ln 1").with_content_width());
    bar.add_panel(StatusPanel::new("UTF-8").with_fixed_width(100));
    bar.add_panel(StatusPanel::new(""));
    let rects = bar.calculate_panel_rects();
    assert_eq!(
        rects,
        vec![
            Rect::new(0, 0, 175, 24),
            Rect::new(177, 0, 44, 24),
            Rect::new(223, 0, 100, 24),
            Rect::new(325, 0, 175, 24),
        ]
    );
    bar.set_panel_text(1, "Ln 12");
    let rects = bar.calculate_panel_rects();
    assert_eq!(rects[1], Rect::new(173, 0, 51, 24));
    assert_eq!(rects[0].width, 171);
    bar.clear_panels();
    assert!(bar.calculate_panel_rects().is_empty());
    assert_eq!(bar.handle_event(&Event::left_button(Point::new(1, 1), true)), EventResult::Ignored);
    let s = bar.measure();
    assert_eq!((s.width, s.height), (100, 24));
}
