use erigui_widgets::event::{Event, EventResult};
use erigui_widgets::geometry::{Point, Rect, WidgetId};
use erigui_widgets::radio_button::{RadioButton, RadioGroup};

fn click_at(p: Point) -> [Event; 2] {
    [Event::left_button(p, true), Event::left_button(p, false)]
}

fn move_to(p: Point) -> Event {
    Event::mouse_move(p)
}

fn dummy_id() -> WidgetId {
    WidgetId::default_id()
}

#[test]
fn radio_group_starts_unselected() {
    let g = RadioGroup::new();
    assert_eq!(g.selected(), None);
    assert!(!g.is_selected(dummy_id()));
}

#[test]
fn radio_group_select_and_clear() {
    let mut g = RadioGroup::new();
    let id = dummy_id();
    g.select(id);
    assert_eq!(g.selected(), Some(id));
    assert!(g.is_selected(id));
    g.clear();
    assert_eq!(g.selected(), None);
}

#[test]
fn radio_button_new_does_not_touch_global() {
    let group = RadioGroup::new();
    let r1 = RadioButton::new(dummy_id(), "a");
    let r2 = RadioButton::new(dummy_id(), "b");
    assert!(!r1.is_checked(&group));
    assert!(!r2.is_checked(&group));
    assert!(!r1.is_grouped());
    assert!(!r2.is_grouped());
}

#[test]
fn two_radios_in_same_group_mutually_exclude() {
    let mut group = RadioGroup::new();
    let bounds_a = Rect::new(0, 0, 50, 20);
    let bounds_b = Rect::new(0, 30, 50, 20);

    let mut a = RadioButton::new(WidgetId(1), "A").with_group(&mut group);
    let mut b = RadioButton::new(WidgetId(2), "B").with_group(&mut group);
    a.layout(bounds_a);
    b.layout(bounds_b);

    for ev in &click_at(Point::new(10, 10)) {
        a.handle_event(ev, &mut group);
    }
    assert!(a.is_checked(&group));
    assert!(!b.is_checked(&group));
    assert_eq!(group.selected(), Some(a.id()));

    for ev in &click_at(Point::new(10, 40)) {
        b.handle_event(ev, &mut group);
    }
    assert!(!a.is_checked(&group));
    assert!(b.is_checked(&group));
    assert_eq!(group.selected(), Some(b.id()));
}

#[test]
fn two_groups_do_not_cross_talk() {
    let mut group_x = RadioGroup::new();
    let mut group_y = RadioGroup::new();

    let mut x1 = RadioButton::new(WidgetId(1), "X1").with_group(&mut group_x);
    let mut x2 = RadioButton::new(WidgetId(2), "X2").with_group(&mut group_x);
    let mut y1 = RadioButton::new(WidgetId(3), "Y1").with_group(&mut group_y);
    let mut y2 = RadioButton::new(WidgetId(4), "Y2").with_group(&mut group_y);

    x1.layout(Rect::new(0, 0, 50, 20));
    x2.layout(Rect::new(0, 30, 50, 20));
    y1.layout(Rect::new(100, 0, 50, 20));
    y2.layout(Rect::new(100, 30, 50, 20));

    for ev in &click_at(Point::new(10, 40)) {
        x2.handle_event(ev, &mut group_x);
    }
    for ev in &click_at(Point::new(110, 10)) {
        y1.handle_event(ev, &mut group_y);
    }

    assert!(x2.is_checked(&group_x));
    assert!(!x1.is_checked(&group_x));
    assert!(y1.is_checked(&group_y));
    assert!(!y2.is_checked(&group_y));
    assert_eq!(group_x.selected(), Some(x2.id()));
    assert_eq!(group_y.selected(), Some(y1.id()));
}

#[test]
fn with_checked_seeds_group_selection() {
    let mut group = RadioGroup::new();
    let a = RadioButton::new(WidgetId(1), "A")
        .with_group(&mut group)
        .with_checked(true, &mut group);
    let b = RadioButton::new(WidgetId(2), "B").with_group(&mut group);

    assert!(a.is_checked(&group));
    assert!(!b.is_checked(&group));
    assert_eq!(group.selected(), Some(a.id()));
}

#[test]
fn with_checked_before_with_group_still_seeds() {
    let mut group = RadioGroup::new();
    let a = RadioButton::new(dummy_id(), "A")
        .with_checked(true, &mut group)
        .with_group(&mut group);
    assert!(a.is_checked(&group));
    assert_eq!(group.selected(), Some(a.id()));
}

#[test]
fn set_checked_propagates_to_group_and_fires_callback() {
    let mut group = RadioGroup::new();
    let mut fired = 0;
    let mut a = RadioButton::new(dummy_id(), "A").with_group(&mut group);

    if a.set_checked(true, &mut group) == Some(true) {
        fired += 1;
    }
    assert!(a.is_checked(&group));
    assert_eq!(group.selected(), Some(a.id()));
    assert_eq!(fired, 1);

    if a.set_checked(true, &mut group) == Some(true) {
        fired += 1;
    }
    assert_eq!(fired, 1);
}

#[test]
fn groupless_radio_acts_as_local_toggle() {
    let mut group = RadioGroup::new();
    let mut a = RadioButton::new(dummy_id(), "alone").with_checked(true, &mut group);
    assert!(a.is_checked(&group));
    a.set_checked(false, &mut group);
    assert!(!a.is_checked(&group));
}

#[test]
fn click_outside_bounds_does_not_select() {
    let mut group = RadioGroup::new();
    let mut a = RadioButton::new(dummy_id(), "A").with_group(&mut group);
    a.layout(Rect::new(0, 0, 50, 20));

    for ev in &click_at(Point::new(500, 500)) {
        a.handle_event(ev, &mut group);
    }
    assert!(!a.is_checked(&group));
    assert_eq!(group.selected(), None);
}

#[test]
fn hover_state_updates_on_mouse_move() {
    let mut group = RadioGroup::new();
    let mut a = RadioButton::new(dummy_id(), "A");
    a.layout(Rect::new(0, 0, 50, 20));

    a.handle_event(&move_to(Point::new(10, 10)), &mut group);
    assert!(a.is_hovered());

    a.handle_event(&move_to(Point::new(500, 500)), &mut group);
    assert!(!a.is_hovered());
}

#[test]
fn disabled_radio_ignores_clicks() {
    let mut group = RadioGroup::new();
    let mut a = RadioButton::new(dummy_id(), "A").with_group(&mut group);
    a.layout(Rect::new(0, 0, 50, 20));
    a.set_enabled(false);

    for ev in &click_at(Point::new(10, 10)) {
        a.handle_event(ev, &mut group);
    }
    assert!(!a.is_checked(&group));
    assert_eq!(group.selected(), None);
}

#[test]
fn update_event_no_longer_polls_group() {
    let mut group = RadioGroup::new();
    let mut a = RadioButton::new(dummy_id(), "A").with_group(&mut group);

    for _ in 0..10 {
        a.handle_event(&Event::Update, &mut group);
    }
    assert!(!a.is_checked(&group));

    group.select(a.id());
    a.handle_event(&Event::Update, &mut group);
    assert!(a.is_checked(&group));
}

#[test]
fn click_reports_the_change_once() {
    let mut group = RadioGroup::new();
    let mut a = RadioButton::new(WidgetId(9), "A").with_group(&mut group);
    a.layout(Rect::new(0, 0, 50, 20));
    let (r1, c1) = a.handle_event(&Event::left_button(Point::new(5, 5), true), &mut group);
    assert_eq!(r1, EventResult::Consumed);
    assert_eq!(c1, None);
    let (r2, c2) = a.handle_event(&Event::left_button(Point::new(5, 5), false), &mut group);
    assert_eq!(r2, EventResult::Consumed);
    assert_eq!(c2, Some(true));
    for ev in &click_at(Point::new(5, 5)) {
        let (_, c) = a.handle_event(ev, &mut group);
        assert_eq!(c, None);
    }
}
