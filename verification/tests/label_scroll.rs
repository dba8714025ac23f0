use erigui_widgets::event::{Event, EventResult, Modifiers, MouseWheelEvent};
use erigui_widgets::geometry::{Point, Rect, WidgetId};
use erigui_widgets::label::{Label, TextAlign};
use erigui_widgets::scroll_view::ScrollView;

#[test]
fn label_measures_half_font_per_byte() {
    let mut l = Label::new(WidgetId(1), "abcd").with_align(TextAlign::Center);
    let s = l.measure(14);
    assert_eq!((s.width, s.height), (28, 14));
    l.set_text("é");
    assert_eq!(l.measure(15).width, 15);
    assert_eq!(l.text(), "é");
    assert_eq!(l.align(), TextAlign::Center);
    assert_eq!(l.handle_event(&Event::Update), EventResult::Ignored);
}

#[test]
fn scroll_view_clamps_to_content() {
    let mut v = ScrollView::new(WidgetId(1)).with_child(WidgetId(2));
    v.layout(Rect::new(0, 0, 400, 300));
    assert_eq!((v.content_size().width, v.content_size().height), (800, 1200));
    v.set_scroll_offset(Point::new(-5, 5000));
    // viewport 388 x 288 once both bars show
    assert_eq!(v.scroll_offset(), Point::new(0, 1200 - 288));
    v.scroll_to_top();
    assert_eq!(v.scroll_offset().y, 0);
    v.scroll_to_bottom();
    assert_eq!(v.scroll_offset().y, 912);
    assert_eq!(v.vertical_scrollbar_rect(), Rect::new(388, 0, 12, 288));
    assert_eq!(v.horizontal_scrollbar_rect(), Rect::new(0, 288, 388, 12));
    assert_eq!(v.children(), vec![WidgetId(2)]);
}

#[test]
fn wheel_scrolls_twenty_pixels_a_notch() {
    let mut v = ScrollView::new(WidgetId(1)).with_child(WidgetId(2));
    v.layout(Rect::new(0, 0, 400, 300));
    let e = Event::MouseWheel(MouseWheelEvent { position: Point::new(5, 5), delta: Point::new(-1, -2), modifiers: Modifiers::empty() });
    assert_eq!(v.handle_event(&e), EventResult::Consumed);
    assert_eq!(v.scroll_offset(), Point::new(20, 40));
    let outside = Event::MouseWheel(MouseWheelEvent { position: Point::new(500, 5), delta: Point::new(-1, -2), modifiers: Modifiers::empty() });
    assert_eq!(v.handle_event(&outside), EventResult::Ignored);
}
