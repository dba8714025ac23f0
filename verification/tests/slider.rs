use erigui_widgets::event::{Event, EventResult};
use erigui_widgets::geometry::{Point, Rect, Size, WidgetId};
use erigui_widgets::slider::{SliderControl, SliderOrientation};

fn laid_out() -> SliderControl {
    let mut c = SliderControl::new(WidgetId(3));
    c.layout(Rect::new(0, 0, 200, 24));
    c
}

#[test]
fn track_and_thumb_geometry() {
    let c = laid_out();
    assert_eq!(c.track_rect(), Rect::new(10, 9, 180, 6));
    assert_eq!(c.thumb_rect(90), Rect::new(90, 2, 20, 20));
    let v = c.with_orientation(SliderOrientation::Vertical);
    assert_eq!(v.track_rect(), Rect::new(97, 10, 6, 4));
    assert_eq!(v.thumb_rect(0), Rect::new(90, 4, 20, 20));
    assert!(c.fits(90));
    assert!(!c.fits(i32::MAX));
}

#[test]
fn layout_picks_the_orientation_from_the_shape() {
    let mut c = SliderControl::new(WidgetId(3));
    c.layout(Rect::new(0, 0, 24, 200));
    assert_eq!(c.orientation, SliderOrientation::Vertical);
    c.layout(Rect::new(0, 0, 40, 30));
    assert_eq!(c.orientation, SliderOrientation::Vertical);
    c.layout(Rect::new(0, 0, 200, 24));
    assert_eq!(c.orientation, SliderOrientation::Horizontal);
    assert_eq!(c.measure(), Size::new(200, 24));
}

#[test]
fn pressing_the_track_jumps_and_drags() {
    let mut c = laid_out();
    // thumb at the left end
    let (r, to) = c.handle_event(&Event::left_button(Point::new(150, 12), true), 0);
    assert_eq!(r, EventResult::Consumed);
    assert_eq!(to, Some(Point::new(150, 12)));
    assert!(c.is_dragging);
    let (r, to) = c.handle_event(&Event::mouse_move(Point::new(160, 12)), 145);
    assert_eq!((r, to), (EventResult::Consumed, Some(Point::new(160, 12))));
    assert!(c.is_hovering);
    let (r, _) = c.handle_event(&Event::left_button(Point::new(160, 12), false), 150);
    assert_eq!(r, EventResult::Consumed);
    assert!(!c.is_dragging);
    let (r, to) = c.handle_event(&Event::mouse_move(Point::new(5, 50)), 150);
    assert_eq!((r, to), (EventResult::Ignored, None));
    assert!(!c.is_hovering);
}

#[test]
fn pressing_the_thumb_drags_without_moving() {
    let mut c = laid_out();
    let (r, to) = c.handle_event(&Event::left_button(Point::new(100, 12), true), 90);
    assert_eq!((r, to), (EventResult::Consumed, None));
    assert!(c.is_dragging);
    c.set_enabled(false);
    assert!(!c.is_dragging);
    let (r, _) = c.handle_event(&Event::left_button(Point::new(100, 12), true), 90);
    assert_eq!(r, EventResult::Ignored);
}
