use erigui_widgets::color_picker::{format_hex, parse_hex, ColorAction, ColorPicker, ColorPickerStyle, Rgba};
use erigui_widgets::event::{Event, EventResult, Key};
use erigui_widgets::geometry::{Point, Rect, WidgetId};

#[test]
fn hex_parsing_follows_from_str_radix() {
    assert_eq!(parse_hex(&vec!['f', 'F']), Some(255));
    assert_eq!(parse_hex(&vec!['1', '2', 'a', 'B', '3', '4']), Some(0x12AB34));
    assert_eq!(parse_hex(&vec!['+', '1']), Some(1));
    assert_eq!(parse_hex(&vec![]), None);
    assert_eq!(parse_hex(&vec!['+']), None);
    assert_eq!(parse_hex(&vec!['g']), None);
    assert_eq!(parse_hex(&vec!['f'; 8]), Some(u32::MAX));
    assert_eq!(parse_hex(&vec!['1', '0', '0', '0', '0', '0', '0', '0', '0']), None);
}

#[test]
fn hex_text_is_upper_case_rgb() {
    assert_eq!(format_hex(Rgba { r: 255, g: 0, b: 171, a: 1 }), "FF00AB");
    assert_eq!(format_hex(Rgba::from_hex(0x0a0b0c)), "0A0B0C");
    assert_eq!(Rgba::from_hex(0x12345678), Rgba { r: 0x34, g: 0x56, b: 0x78, a: 255 });
}

#[test]
fn new_picker_is_opaque_red() {
    let c = ColorPicker::new(WidgetId(3));
    assert_eq!(c.get_color(), Rgba { r: 255, g: 0, b: 0, a: 255 });
    assert_eq!(c.hex_input(), "FF0000");
    assert_eq!(c.hex_cursor(), 6);
    assert!(!c.is_popup_visible());
    let s = c.measure();
    assert_eq!((s.width, s.height), (250, 300));
    let s = ColorPicker::new(WidgetId(3)).with_style(ColorPickerStyle::Compact).measure();
    assert_eq!((s.width, s.height), (44, 32));
}

#[test]
fn set_color_and_alpha() {
    let mut c = ColorPicker::new(WidgetId(3));
    c.set_color(Rgba { r: 1, g: 2, b: 3, a: 4 });
    assert_eq!(c.hex_input(), "010203");
    let got = c.apply_rgb(16, 32, 48);
    assert_eq!(got, Rgba { r: 16, g: 32, b: 48, a: 4 });
    assert_eq!(c.hex_input(), "102030");
    let got = c.set_alpha(200);
    assert_eq!(got, Rgba { r: 16, g: 32, b: 48, a: 200 });
    assert_eq!(c.get_color(), got);
}

fn open_compact() -> ColorPicker {
    let mut c = ColorPicker::new(WidgetId(3)).with_style(ColorPickerStyle::Compact);
    c.layout(Rect::new(0, 0, 44, 32));
    let (r, a) = c.handle_event(&Event::left_button(Point::new(10, 10), true));
    assert_eq!(r, EventResult::Consumed);
    assert_eq!(a, ColorAction::Nothing);
    assert!(c.is_popup_visible());
    c
}

#[test]
fn popup_regions_ask_for_picks() {
    let mut c = open_compact();
    // The saturation/value square starts at (10, 46).
    let (r, a) = c.handle_event(&Event::left_button(Point::new(60, 96), true));
    assert_eq!(r, EventResult::Consumed);
    assert_eq!(a, ColorAction::PickSv { dx: 50, dy: 50 });
    let (_, a) = c.handle_event(&Event::mouse_move(Point::new(70, 100)));
    assert_eq!(a, ColorAction::PickSv { dx: 60, dy: 54 });
    // The hue bar at (10, 256).
    let (_, a) = c.handle_event(&Event::left_button(Point::new(110, 260), true));
    assert_eq!(a, ColorAction::PickHue { dx: 100 });
    // The alpha bar at (10, 286).
    let (_, a) = c.handle_event(&Event::left_button(Point::new(30, 290), true));
    assert_eq!(a, ColorAction::PickAlpha { dx: 20 });
    // A press outside the popup closes it.
    let (r, _) = c.handle_event(&Event::left_button(Point::new(600, 600), true));
    assert_eq!(r, EventResult::Consumed);
    assert!(!c.is_popup_visible());
}

#[test]
fn typing_hex_digits_sets_the_colour() {
    let mut c = open_compact();
    // The hex field sits at (10, 316).
    c.handle_event(&Event::left_button(Point::new(20, 320), true));
    assert!(c.is_hex_focused());
    c.handle_event(&Event::key(Key::Backspace));
    let (r, a) = c.handle_event(&Event::key(Key::Backspace));
    assert_eq!(r, EventResult::Consumed);
    assert_eq!(a, ColorAction::FromHex(Rgba { r: 0, g: 255, b: 0, a: 255 }));
    assert_eq!(c.hex_input(), "FF00");
    c.handle_event(&Event::key(Key::Character('a')));
    let (_, a) = c.handle_event(&Event::key(Key::Character('b')));
    assert_eq!(a, ColorAction::FromHex(Rgba { r: 255, g: 0, b: 0xAB, a: 255 }));
    assert_eq!(c.hex_input(), "FF00AB");
    assert_eq!(c.get_color(), Rgba { r: 255, g: 0, b: 0xAB, a: 255 });
    // The field is full.
    let (r, a) = c.handle_event(&Event::key(Key::Character('c')));
    assert_eq!(r, EventResult::Consumed);
    assert_eq!(a, ColorAction::Nothing);
    // Not a hex digit.
    c.handle_event(&Event::key(Key::Left));
    c.handle_event(&Event::key(Key::Delete));
    assert_eq!(c.hex_input(), "FF00A");
    let (_, a) = c.handle_event(&Event::key(Key::Character('z')));
    assert_eq!(a, ColorAction::Nothing);
    assert_eq!(c.hex_input(), "FF00A");
}
