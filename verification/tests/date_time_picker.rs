use erigui_widgets::date_time_picker::{
    calendar_day_at, days_in_month, first_day_of_week, format_two_digits, format_value, parse_u32, DateFormat,
    DateTime, DateTimePicker, DateTimePickerMode, DayCell, TimeFormat,
};
use erigui_widgets::event::{Event, EventResult, Key};
use erigui_widgets::geometry::{Point, Rect, WidgetId};

fn march_15() -> DateTime {
    DateTime { year: 2024, month: 3, day: 15, hour: 10, minute: 5, second: 30, nanosecond: 0 }
}

#[test]
fn month_lengths_follow_the_gregorian_calendar() {
    assert_eq!(days_in_month(2024, 2), 29);
    assert_eq!(days_in_month(2023, 2), 28);
    assert_eq!(days_in_month(1900, 2), 28);
    assert_eq!(days_in_month(2000, 2), 29);
    assert_eq!(days_in_month(2023, 4), 30);
    assert_eq!(days_in_month(2023, 12), 31);
    assert_eq!(days_in_month(2023, 13), 0);
    assert_eq!(days_in_month(2023, 0), 0);
}

#[test]
fn first_weekday_counts_from_sunday() {
    // 1 March 2024 was a Friday, 1 September 2024 a Sunday.
    assert_eq!(first_day_of_week(2024, 3), 5);
    assert_eq!(first_day_of_week(2024, 9), 0);
}

#[test]
fn parse_u32_reads_like_str_parse() {
    assert_eq!(parse_u32("12"), Some(12));
    assert_eq!(parse_u32("+12"), Some(12));
    assert_eq!(parse_u32("007"), Some(7));
    assert_eq!(parse_u32("4294967295"), Some(u32::MAX));
    assert_eq!(parse_u32("4294967296"), None);
    assert_eq!(parse_u32(""), None);
    assert_eq!(parse_u32("+"), None);
    assert_eq!(parse_u32("-1"), None);
    assert_eq!(parse_u32("1a"), None);
}

#[test]
fn two_digit_padding() {
    assert_eq!(format_two_digits(5), "05");
    assert_eq!(format_two_digits(0), "00");
    assert_eq!(format_two_digits(42), "42");
    assert_eq!(format_two_digits(123), "123");
}

#[test]
fn values_are_formatted_per_mode() {
    let t = march_15();
    assert_eq!(format_value(t, DateTimePickerMode::Date, DateFormat::YMD, TimeFormat::H24), "2024-03-15");
    assert_eq!(format_value(t, DateTimePickerMode::Date, DateFormat::DMY, TimeFormat::H24), "15/03/2024");
    assert_eq!(format_value(t, DateTimePickerMode::Date, DateFormat::MDY, TimeFormat::H24), "03/15/2024");
    assert_eq!(format_value(t, DateTimePickerMode::Time, DateFormat::YMD, TimeFormat::H24), "10:05");
    assert_eq!(format_value(t, DateTimePickerMode::Time, DateFormat::YMD, TimeFormat::H12), "10:05 AM");
    assert_eq!(
        format_value(t, DateTimePickerMode::DateTime, DateFormat::YMD, TimeFormat::H24),
        "2024-03-15 10:05"
    );
    let midnight = DateTime { hour: 0, ..t };
    assert_eq!(format_value(midnight, DateTimePickerMode::Time, DateFormat::YMD, TimeFormat::H12), "12:05 AM");
    let afternoon = DateTime { hour: 13, ..t };
    assert_eq!(format_value(afternoon, DateTimePickerMode::Time, DateFormat::YMD, TimeFormat::H12), "01:05 PM");
    let noon = DateTime { hour: 12, ..t };
    assert_eq!(format_value(noon, DateTimePickerMode::Time, DateFormat::YMD, TimeFormat::H12), "12:05 PM");
}

#[test]
fn calendar_cells_map_to_days() {
    let c = Rect::new(0, 26, 250, 280);
    // March 2024 starts on a Friday: day 1 sits in column 5 of row 0.
    assert_eq!(calendar_day_at(c, 5, 31, Point::new(165, 91)), Some(1));
    assert_eq!(calendar_day_at(c, 5, 31, Point::new(105, 181)), Some(20));
    // The cells before the first day are empty.
    assert_eq!(calendar_day_at(c, 5, 31, Point::new(15, 91)), None);
    // Outside the grid.
    assert_eq!(calendar_day_at(c, 5, 31, Point::new(5, 30)), None);
}

#[test]
fn new_picker_shows_its_value() {
    let p = DateTimePicker::new_at(WidgetId(1), march_15());
    assert_eq!(p.get_value(), march_15());
    assert_eq!(p.input_text(), "2024-03-15");
    assert_eq!(p.placeholder(), "Select date...");
    assert!(!p.is_calendar_open());
    let p = p.with_mode(DateTimePickerMode::Time);
    assert_eq!(p.placeholder(), "HH:MM");
    let s = p.measure(14);
    assert_eq!((s.width, s.height), (234, 30));
}

#[test]
fn picking_a_day_sets_the_date_and_closes_the_calendar() {
    let mut p = DateTimePicker::new_at(WidgetId(1), march_15());
    p.layout(Rect::new(0, 0, 234, 24));
    // The button occupies the last 30 pixels.
    let (r, changed) = p.handle_event(&Event::left_button(Point::new(220, 10), true), EventResult::Ignored);
    assert_eq!(r, EventResult::Consumed);
    assert_eq!(changed, None);
    assert!(p.is_calendar_open());
    let (r, changed) = p.handle_event(&Event::left_button(Point::new(105, 181), true), EventResult::Ignored);
    assert_eq!(r, EventResult::Consumed);
    let picked = DateTime { day: 20, ..march_15() };
    assert_eq!(changed, Some(picked));
    assert_eq!(p.get_value(), picked);
    assert_eq!(p.input_text(), "2024-03-20");
    assert!(!p.is_calendar_open());
}

#[test]
fn calendar_arrows_change_the_shown_month() {
    let mut p = DateTimePicker::new_at(WidgetId(1), march_15());
    p.layout(Rect::new(0, 0, 234, 24));
    p.handle_event(&Event::left_button(Point::new(220, 10), true), EventResult::Ignored);
    // Previous-month arrow at (10, 33) in the calendar.
    let (r, changed) = p.handle_event(&Event::left_button(Point::new(15, 38), true), EventResult::Ignored);
    assert_eq!(r, EventResult::Consumed);
    assert_eq!(changed, None);
    assert_eq!(p.viewing(), (2024, 2));
    // Next-month arrow twice.
    p.handle_event(&Event::left_button(Point::new(230, 38), true), EventResult::Ignored);
    p.handle_event(&Event::left_button(Point::new(230, 38), true), EventResult::Ignored);
    assert_eq!(p.viewing(), (2024, 4));
    // The value did not change.
    assert_eq!(p.get_value(), march_15());
}

#[test]
fn pressing_outside_closes_the_popups() {
    let mut p = DateTimePicker::new_at(WidgetId(1), march_15());
    p.layout(Rect::new(0, 0, 234, 24));
    p.handle_event(&Event::left_button(Point::new(220, 10), true), EventResult::Ignored);
    assert!(p.is_calendar_open());
    let (r, _) = p.handle_event(&Event::left_button(Point::new(900, 900), true), EventResult::Ignored);
    assert_eq!(r, EventResult::Ignored);
    assert!(!p.is_calendar_open());
}

#[test]
fn typing_in_the_time_fields_edits_the_time() {
    let mut p = DateTimePicker::new_at(WidgetId(1), march_15()).with_mode(DateTimePickerMode::Time);
    p.layout(Rect::new(0, 0, 234, 24));
    p.handle_event(&Event::left_button(Point::new(220, 10), true), EventResult::Ignored);
    assert!(p.is_time_picker_open());
    // The hour field: centre of the popup (100, 66), 70 to the left.
    let (r, changed) = p.handle_event(&Event::left_button(Point::new(40, 60), true), EventResult::Ignored);
    assert_eq!(r, EventResult::Consumed);
    assert_eq!(changed, None);
    let (_, changed) = p.handle_event(&Event::key(Key::Backspace), EventResult::Ignored);
    let t = changed.unwrap();
    assert_eq!((t.hour, t.minute, t.second), (1, 5, 0));
    assert_eq!(p.input_text(), "01:05");
    let (_, changed) = p.handle_event(&Event::key(Key::Character('9')), EventResult::Ignored);
    assert_eq!(changed.unwrap().hour, 19);
    // The field is full: the key is swallowed without a change.
    let (r, changed) = p.handle_event(&Event::key(Key::Character('5')), EventResult::Ignored);
    assert_eq!(r, EventResult::Consumed);
    assert_eq!(changed, None);
    // Letters are not read.
    let (r, _) = p.handle_event(&Event::key(Key::Character('x')), EventResult::Ignored);
    assert_eq!(r, EventResult::Ignored);
    // Tab moves to the minutes, Enter closes the popup.
    p.handle_event(&Event::key(Key::Tab), EventResult::Ignored);
    let (_, changed) = p.handle_event(&Event::key(Key::Backspace), EventResult::Ignored);
    assert_eq!(changed.unwrap().minute, 0);
    p.handle_event(&Event::key(Key::Enter), EventResult::Ignored);
    assert!(!p.is_time_picker_open());
    assert_eq!(p.input_text(), "19:00");
}

#[test]
fn set_value_moves_the_shown_month() {
    let mut p = DateTimePicker::new_at(WidgetId(1), march_15());
    let t = DateTime { year: 1999, month: 12, day: 31, hour: 23, minute: 59, second: 0, nanosecond: 0 };
    p.set_value(t);
    assert_eq!(p.get_value(), t);
    assert_eq!(p.viewing(), (1999, 12));
    assert_eq!(p.input_text(), "1999-12-31");
    let p = p.with_date_format(DateFormat::DMY);
    assert_eq!(p.input_text(), "31/12/1999");
}

#[test]
fn the_open_calendar_marks_the_selected_and_hovered_days() {
    let mut p = DateTimePicker::new_at(WidgetId(1), march_15());
    p.layout(Rect::new(0, 0, 234, 24));
    assert!(p.calendar_cells().is_empty());
    p.handle_event(&Event::left_button(Point::new(220, 10), true), EventResult::Ignored);
    assert!(p.is_calendar_open());
    p.handle_event(&Event::mouse_move(Point::new(165, 90)), EventResult::Ignored);
    let cells = p.calendar_cells();
    assert_eq!(cells.len(), 31);
    // 1 March 2024 is a Friday: the sixth column of the first row
    assert_eq!(cells[0], DayCell { day: 1, rect: Rect::new(160, 86, 30, 30), selected: false, hovered: true });
    assert_eq!(cells[14], DayCell { day: 15, rect: Rect::new(160, 146, 30, 30), selected: true, hovered: false });
    assert_eq!(cells.iter().filter(|c| c.selected).count(), 1);
    assert_eq!(cells.iter().filter(|c| c.hovered).count(), 1);
}

#[test]
fn first_weekdays_follow_the_proleptic_gregorian_calendar() {
    assert_eq!(first_day_of_week(1970, 1), 4);
    assert_eq!(first_day_of_week(2000, 2), 2);
    assert_eq!(first_day_of_week(1600, 2), 2);
    assert_eq!(first_day_of_week(1, 1), 1);
    assert_eq!(first_day_of_week(0, 1), 6);
    assert_eq!(first_day_of_week(-1, 3), 1);
    assert_eq!(first_day_of_week(-400, 2), 2);
    assert_eq!(first_day_of_week(-262143, 1), 4);
    assert_eq!(first_day_of_week(262142, 12), 6);
}
