use erigui_widgets::breadcrumb::{Breadcrumb, BreadcrumbItem};
use erigui_widgets::event::{Event, EventResult};
use erigui_widgets::geometry::{Point, Rect, WidgetId};

fn trail() -> Breadcrumb {
    let mut b = Breadcrumb::new(WidgetId(7));
    b.push(BreadcrumbItem::new("Projects", "p"));
    b.push(BreadcrumbItem::new("Demo", "d"));
    b.push(BreadcrumbItem::new("src", "s"));
    b.layout(Rect::new(0, 0, 400, 30), 14);
    b
}

fn click(b: &mut Breadcrumb, x: i32) -> (EventResult, Option<(String, usize)>) {
    b.handle_event(&Event::left_button(Point::new(x, 10), true));
    let (r, nav) = b.handle_event(&Event::left_button(Point::new(x, 10), false));
    (r, nav.map(|n| (n.id, n.index)))
}

#[test]
fn path_starts_with_home() {
    let b = trail();
    assert_eq!(b.get_path(), vec!["Home".to_string(), "Projects".into(), "Demo".into(), "src".into()]);
    // Home icon 20 + 24, each separator 8 + 7 + 8, each item half the font per byte + 24.
    let s = b.measure(14);
    assert_eq!((s.width, s.height), (290, 38));
}

#[test]
fn clicking_an_item_cuts_the_trail_after_it() {
    let mut b = trail();
    // "Demo" sits from x = 170 to 222.
    let (r, nav) = click(&mut b, 180);
    assert_eq!(r, EventResult::Consumed);
    assert_eq!(nav, Some(("d".to_string(), 2)));
    assert_eq!(b.get_path(), vec!["Home".to_string(), "Projects".into(), "Demo".into()]);
}

#[test]
fn clicking_the_last_item_does_not_navigate() {
    let mut b = trail();
    // "src" sits from x = 245 to 290.
    let (r, nav) = click(&mut b, 250);
    assert_eq!(r, EventResult::Consumed);
    assert_eq!(nav, None);
    assert_eq!(b.get_path().len(), 4);
}

#[test]
fn home_clears_the_trail() {
    let mut b = trail();
    let (_, nav) = click(&mut b, 10);
    assert_eq!(nav, Some(("home".to_string(), 0)));
    assert_eq!(b.get_path(), vec!["Home".to_string()]);
}

#[test]
fn separators_and_disabled_items_are_not_targets() {
    let mut b = trail();
    let (r, nav) = click(&mut b, 155);
    assert_eq!((r, nav), (EventResult::Ignored, None));
    let mut c = Breadcrumb::new(WidgetId(8));
    c.push(BreadcrumbItem::new("Projects", "p").with_enabled(false));
    c.push(BreadcrumbItem::new("Demo", "d"));
    c.layout(Rect::new(0, 0, 400, 30), 14);
    let (r, nav) = click(&mut c, 80);
    assert_eq!((r, nav), (EventResult::Ignored, None));
}

#[test]
fn navigate_and_pop() {
    let mut b = trail();
    let nav = b.navigate_to(1).unwrap();
    assert_eq!((nav.id.as_str(), nav.index), ("p", 1));
    assert_eq!(b.get_path().len(), 2);
    assert!(b.navigate_to(9).is_none());
    let popped = b.pop().unwrap();
    assert_eq!(popped.id, "p");
    assert!(b.pop().is_none());
    b.set_path(vec![BreadcrumbItem::new("a", "1"), BreadcrumbItem::new("b", "2")]);
    assert_eq!(b.get_path(), vec!["Home".to_string(), "a".into(), "b".into()]);
    b.clear();
    assert_eq!(b.get_path(), vec!["Home".to_string()]);
}
