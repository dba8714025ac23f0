//! Picking a date and a time: the calendar arithmetic, the text shown for a
//! value, and the state machine of the picker's popups.

use vstd::prelude::*;
use crate::text::{pop_char, push_char};
use chrono::Datelike;
use crate::geometry::{Point, Rect, fits_i32, trunc_div};
use crate::text::{decimal, decimal_padded, push_decimal_padded};
use crate::status_bar::{byte_len, utf8_len};
use crate::event::{Event, EventResult, Key, MouseButton};
use crate::geometry::{Size, WidgetId};
use crate::widget::WidgetState;

verus! {

broadcast use vstd::string::group_string_axioms;

#[derive(Clone, Copy, Debug, PartialEq, Eq, Structural)]
pub enum DateTimePickerMode {
    Date,
    Time,
    DateTime,
}

#[derive(Clone, Copy, Debug, PartialEq, Eq, Structural)]
pub enum DateFormat {
    /// `YYYY-MM-DD`
    YMD,
    /// `DD/MM/YYYY`
    DMY,
    /// `MM/DD/YYYY`
    MDY,
}

#[derive(Clone, Copy, Debug, PartialEq, Eq, Structural)]
pub enum TimeFormat {
    /// 24-hour clock.
    H24,
    /// 12-hour clock with AM/PM.
    H12,
}

/// The earliest and latest years a calendar date can have.
pub const MIN_YEAR: i32 = -262143;
pub const MAX_YEAR: i32 = 262142;

/// Whether `year` is a leap year of the proleptic Gregorian calendar.
pub open spec fn is_leap_year(year: int) -> bool {
    (year % 4 == 0 && year % 100 != 0) || year % 400 == 0
}

/// Days in `month` of `year`; 0 for a number that is no month.
pub open spec fn month_days(year: int, month: int) -> int {
    if month == 1 || month == 3 || month == 5 || month == 7 || month == 8 || month == 10 || month == 12 {
        31
    } else if month == 4 || month == 6 || month == 9 || month == 11 {
        30
    } else if month == 2 {
        if is_leap_year(year) { 29 } else { 28 }
    } else {
        0
    }
}

/// A date and a time of day, without time zone.
#[derive(Clone, Copy, Debug, PartialEq, Eq, Structural)]
pub struct DateTime {
    pub year: i32,
    pub month: u32,
    pub day: u32,
    pub hour: u32,
    pub minute: u32,
    pub second: u32,
    pub nanosecond: u32,
}

impl DateTime {
    /// An existing calendar day in the supported years and a time of day
    /// (a leap second shows as a nanosecond count of a second or more).
    pub open spec fn valid(self) -> bool {
        &&& MIN_YEAR <= self.year <= MAX_YEAR
        &&& 1 <= self.month <= 12
        &&& 1 <= self.day <= month_days(self.year as int, self.month as int)
        &&& self.hour < 24
        &&& self.minute < 60
        &&& self.second < 60
        &&& self.nanosecond < 2_000_000_000
    }
}

/// Days in `month` of `year`, 0 when `month` is not in `1..=12`.
pub fn days_in_month(year: i32, month: u32) -> (d: u32)
    ensures
        d == month_days(year as int, month as int),
{
    match month {
        1 | 3 | 5 | 7 | 8 | 10 | 12 => 31,
        4 | 6 | 9 | 11 => 30,
        2 => {
            if (year % 4 == 0 && year % 100 != 0) || (year % 400 == 0) {
                29
            } else {
                28
            }
        },
        _ => 0,
    }
}

/// Days from 1 January 1970 to day `d` of month `m` of year `y` in the
/// proleptic Gregorian calendar (negative before it). March starts the
/// counted year, so that the leap day comes last.
pub open spec fn days_from_epoch(y: int, m: int, d: int) -> int {
    let yy = if m <= 2 { y - 1 } else { y };
    let mp = (m + 9) % 12;
    365 * yy + yy / 4 - yy / 100 + yy / 400 + (153 * mp + 2) / 5 + d - 1 - 719468
}

/// The weekday of a day of the proleptic Gregorian calendar, counted from
/// Sunday (0) to Saturday (6); 1 January 1970 was a Thursday.
pub open spec fn gregorian_weekday(y: int, m: int, d: int) -> int {
    (days_from_epoch(y, m, d) + 4) % 7
}

/// chrono's `NaiveDate::from_ymd_opt(year, month, day)` followed by
/// `weekday().num_days_from_sunday()`. Claimed: the result is the weekday
/// of that day in the proleptic Gregorian calendar, which chrono's dates
/// follow, counted from Sunday. The day must exist, so that the date
/// is built.
#[verifier::external_body]
fn weekday_from_sunday(year: i32, month: u32, day: u32) -> (w: u32)
    requires
        MIN_YEAR <= year <= MAX_YEAR,
        1 <= month <= 12,
        1 <= day <= month_days(year as int, month as int),
    ensures
        w == gregorian_weekday(year as int, month as int, day as int),
{
    chrono::NaiveDate::from_ymd_opt(year, month, day).unwrap().weekday().num_days_from_sunday()
}

/// The weekday, counted from Sunday, of the first day of `month` in `year`.
pub fn first_day_of_week(year: i32, month: u32) -> (w: u32)
    requires
        MIN_YEAR <= year <= MAX_YEAR,
        1 <= month <= 12,
    ensures
        w == gregorian_weekday(year as int, month as int, 1),
        w < 7,
{
    weekday_from_sunday(year, month, 1)
}

/// `n` in decimal with at least two digits.
pub open spec fn pad2(n: nat) -> Seq<char> {
    decimal_padded(n, 2)
}

/// A year with at least four digits, a minus sign counting as one.
pub open spec fn year_text(y: int) -> Seq<char> {
    if y < 0 {
        seq!['-'] + decimal_padded((-y) as nat, 3)
    } else {
        decimal_padded(y as nat, 4)
    }
}

/// The date of `t` in format `f`.
pub open spec fn date_text(t: DateTime, f: DateFormat) -> Seq<char> {
    match f {
        DateFormat::YMD => year_text(t.year as int) + seq!['-'] + pad2(t.month as nat) + seq!['-'] + pad2(t.day as nat),
        DateFormat::DMY => pad2(t.day as nat) + seq!['/'] + pad2(t.month as nat) + seq!['/'] + year_text(t.year as int),
        DateFormat::MDY => pad2(t.month as nat) + seq!['/'] + pad2(t.day as nat) + seq!['/'] + year_text(t.year as int),
    }
}

/// The hour of `h` on a 12-hour clock: 0 is 12, the afternoon counts
/// from 1 again.
pub open spec fn hour12(h: int) -> int {
    if h == 0 { 12 } else if h > 12 { h - 12 } else { h }
}

/// The time of `t` in format `f`.
pub open spec fn time_text(t: DateTime, f: TimeFormat) -> Seq<char> {
    match f {
        TimeFormat::H24 => pad2(t.hour as nat) + seq![':'] + pad2(t.minute as nat),
        TimeFormat::H12 => pad2(hour12(t.hour as int) as nat) + seq![':'] + pad2(t.minute as nat) + seq![' ']
            + (if t.hour < 12 { seq!['A', 'M'] } else { seq!['P', 'M'] }),
    }
}

/// What the picker's text field shows for `t`.
pub open spec fn value_text(t: DateTime, mode: DateTimePickerMode, df: DateFormat, tf: TimeFormat) -> Seq<char> {
    match mode {
        DateTimePickerMode::Date => date_text(t, df),
        DateTimePickerMode::Time => time_text(t, tf),
        DateTimePickerMode::DateTime => date_text(t, df) + seq![' '] + time_text(t, tf),
    }
}

fn push_year(s: &mut String, y: i32)
    requires
        MIN_YEAR <= y <= MAX_YEAR,
    ensures
        final(s)@ == old(s)@ + year_text(y as int),
{
    if y < 0 {
        s.append("-");
        proof {
            reveal_strlit("-");
        }
        push_decimal_padded(s, (-y) as u128, 3);
        assert(final(s)@ =~= old(s)@ + year_text(y as int));
    } else {
        push_decimal_padded(s, y as u128, 4);
    }
}

fn push_date(s: &mut String, t: DateTime, f: DateFormat)
    requires
        t.valid(),
    ensures
        final(s)@ == old(s)@ + date_text(t, f),
{
    proof {
        reveal_strlit("-");
        reveal_strlit("/");
    }
    match f {
        DateFormat::YMD => {
            push_year(s, t.year);
            s.append("-");
            push_decimal_padded(s, t.month as u128, 2);
            s.append("-");
            push_decimal_padded(s, t.day as u128, 2);
        },
        DateFormat::DMY => {
            push_decimal_padded(s, t.day as u128, 2);
            s.append("/");
            push_decimal_padded(s, t.month as u128, 2);
            s.append("/");
            push_year(s, t.year);
        },
        DateFormat::MDY => {
            push_decimal_padded(s, t.month as u128, 2);
            s.append("/");
            push_decimal_padded(s, t.day as u128, 2);
            s.append("/");
            push_year(s, t.year);
        },
    }
    assert(final(s)@ =~= old(s)@ + date_text(t, f));
}

fn push_time(s: &mut String, t: DateTime, f: TimeFormat)
    requires
        t.valid(),
    ensures
        final(s)@ == old(s)@ + time_text(t, f),
{
    proof {
        reveal_strlit(":");
        reveal_strlit(" AM");
        reveal_strlit(" PM");
    }
    match f {
        TimeFormat::H24 => {
            push_decimal_padded(s, t.hour as u128, 2);
            s.append(":");
            push_decimal_padded(s, t.minute as u128, 2);
        },
        TimeFormat::H12 => {
            let h = if t.hour == 0 {
                12
            } else if t.hour > 12 {
                t.hour - 12
            } else {
                t.hour
            };
            push_decimal_padded(s, h as u128, 2);
            s.append(":");
            push_decimal_padded(s, t.minute as u128, 2);
            if t.hour < 12 {
                s.append(" AM");
            } else {
                s.append(" PM");
            }
        },
    }
    assert(final(s)@ =~= old(s)@ + time_text(t, f));
}

/// The text shown for `t` in the given mode and formats.
pub fn format_value(t: DateTime, mode: DateTimePickerMode, df: DateFormat, tf: TimeFormat) -> (s: String)
    requires
        t.valid(),
    ensures
        s@ == value_text(t, mode, df, tf),
{
    let mut s = String::new();
    match mode {
        DateTimePickerMode::Date => push_date(&mut s, t, df),
        DateTimePickerMode::Time => push_time(&mut s, t, tf),
        DateTimePickerMode::DateTime => {
            push_date(&mut s, t, df);
            s.append(" ");
            proof {
                reveal_strlit(" ");
            }
            push_time(&mut s, t, tf);
        },
    }
    assert(s@ =~= value_text(t, mode, df, tf));
    s
}

/// `n` in decimal, at least two digits.
pub fn format_two_digits(n: u32) -> (s: String)
    ensures
        s@ == pad2(n as nat),
{
    let mut s = String::new();
    push_decimal_padded(&mut s, n as u128, 2);
    assert(s@ =~= pad2(n as nat));
    s
}

pub open spec fn is_ascii_digit(c: char) -> bool {
    '0' <= c <= '9'
}

/// The number written by the ASCII digits `s`.
pub open spec fn digits_value(s: Seq<char>) -> int
    decreases s.len(),
{
    if s.len() == 0 {
        0
    } else {
        digits_value(s.drop_last()) * 10 + (s.last() as int - '0' as int)
    }
}

/// `s` without a leading `+`.
pub open spec fn unsigned_digits(s: Seq<char>) -> Seq<char> {
    if s.len() > 0 && s[0] == '+' { s.drop_first() } else { s }
}

pub open spec fn all_ascii_digits(d: Seq<char>) -> bool {
    forall|i: int| 0 <= i < d.len() ==> is_ascii_digit(#[trigger] d[i])
}

/// The `u32` that `s` denotes as `str::parse` reads it: decimal ASCII
/// digits after an optional `+`, at least one digit, no overflow.
pub open spec fn parse_u32_spec(s: Seq<char>) -> Option<u32> {
    let d = unsigned_digits(s);
    if d.len() == 0 || !all_ascii_digits(d) || digits_value(d) > u32::MAX {
        None
    } else {
        Some(digits_value(d) as u32)
    }
}

proof fn lemma_digits_grow(d: Seq<char>, k: int)
    requires
        0 <= k <= d.len(),
        forall|i: int| 0 <= i < d.len() ==> is_ascii_digit(#[trigger] d[i]),
    ensures
        digits_value(d.subrange(0, k)) <= digits_value(d),
    decreases d.len() - k,
{
    if k < d.len() {
        lemma_digits_grow(d, k + 1);
        let p = d.subrange(0, k + 1);
        assert(p.drop_last() =~= d.subrange(0, k));
        assert(is_ascii_digit(d[k]));
        lemma_digits_nonneg(d.subrange(0, k));
    } else {
        assert(d.subrange(0, k) =~= d);
    }
}

proof fn lemma_digits_nonneg(d: Seq<char>)
    requires
        forall|i: int| 0 <= i < d.len() ==> is_ascii_digit(#[trigger] d[i]),
    ensures
        digits_value(d) >= 0,
    decreases d.len(),
{
    if d.len() > 0 {
        lemma_digits_nonneg(d.drop_last());
    }
}

/// Reads a `u32` the way `str::parse` does; `None` where it fails.
pub fn parse_u32(s: &str) -> (r: Option<u32>)
    ensures
        r == parse_u32_spec(s@),
{
    let cs = crate::text::chars_of(s);
    let ghost sv = s@;
    let start: usize = if cs.len() > 0 && cs[0] == '+' { 1 } else { 0 };
    let ghost d = sv.subrange(start as int, sv.len() as int);
    assert(d =~= unsigned_digits(sv));
    assert(d.subrange(0, 0) =~= Seq::<char>::empty());
    if start == cs.len() {
        return None;
    }
    let mut acc: u64 = 0;
    let mut i: usize = start;
    while i < cs.len()
        invariant
            cs@ == sv,
            sv == s@,
            start <= i <= cs@.len(),
            d == sv.subrange(start as int, sv.len() as int),
            start == 0 || start == 1,
            d == unsigned_digits(sv),
            forall|j: int| 0 <= j < i - start ==> is_ascii_digit(#[trigger] d[j]),
            acc == digits_value(d.subrange(0, i - start)),
            acc <= u32::MAX,
        decreases cs.len() - i,
    {
        let c = cs[i];
        if !('0' <= c && c <= '9') {
            assert(d[i - start] == c);
            assert(!is_ascii_digit(d[i - start as int]));
            assert(!all_ascii_digits(d));
            return None;
        }
        let ghost pre = d.subrange(0, i - start);
        let ghost next = d.subrange(0, i + 1 - start);
        assert(next.drop_last() =~= pre);
        assert(next.last() == c);
        assert(digits_value(next) == digits_value(pre) * 10 + (c as int - '0' as int));
        acc = acc * 10 + (c as u64 - '0' as u64);
        i = i + 1;
        assert(acc == digits_value(d.subrange(0, i - start)));
        if acc > 0xffff_ffff {
            proof {
                if all_ascii_digits(d) {
                    lemma_digits_grow(d, i - start);
                }
            }
            return None;
        }
    }
    assert(d.subrange(0, d.len() as int) =~= d);
    Some(acc as u32)
}

/// Whether Unicode counts `c` as numeric (general category Nd, Nl or No).
pub uninterp spec fn unicode_is_numeric(c: char) -> bool;

/// `char::is_numeric`. Claimed: the result is Unicode's numeric property
/// of `c`, which the ASCII digits have.
#[verifier::external_body]
pub(crate) fn is_numeric_char(c: char) -> (b: bool)
    ensures
        b == unicode_is_numeric(c),
        '0' <= c <= '9' ==> b,
{
    c.is_numeric()
}

/// The calendar's arrow to the previous month.
pub open spec fn prev_arrow(c: Rect) -> Rect {
    Rect { x: (c.x + 10) as i32, y: (c.y + 7) as i32, width: 16, height: 16 }
}

/// The calendar's arrow to the next month.
pub open spec fn next_arrow(c: Rect) -> Rect {
    Rect { x: (c.x + c.width - 26) as i32, y: (c.y + 7) as i32, width: 16, height: 16 }
}

/// The cell of day `d` in a calendar whose month starts on weekday `first`:
/// seven 30-pixel columns from Sunday, rows from 60 pixels below the top.
pub open spec fn day_cell(c: Rect, first: int, d: int) -> Rect {
    let g = first + d - 1;
    Rect { x: (c.x + 10 + (g % 7) * 30) as i32, y: (c.y + 60 + (g / 7) * 30) as i32, width: 30, height: 30 }
}

proof fn lemma_day_hit_range(c: Rect, first: int, days: int, p: Point, d: int)
    ensures
        day_hit(c, first, days, p, d) matches Some(k) ==> d <= k <= days && 1 <= k,
    decreases days + 1 - d,
{
    if 1 <= d <= days {
        lemma_day_hit_range(c, first, days, p, d + 1);
    }
}

/// The first day from `d` on, up to `days`, whose cell contains `p`.
pub open spec fn day_hit(c: Rect, first: int, days: int, p: Point, d: int) -> Option<int>
    decreases days + 1 - d,
{
    if d < 1 || d > days {
        None
    } else if day_cell(c, first, d).contains_spec(p) {
        Some(d)
    } else {
        day_hit(c, first, days, p, d + 1)
    }
}

/// Every coordinate of a calendar popup at `c` is an `i32`.
pub open spec fn calendar_fits(c: Rect) -> bool {
    &&& fits_i32(c.x + 190)
    &&& fits_i32(c.y + 210)
    &&& fits_i32(c.x + c.width)
    &&& fits_i32(c.x + c.width - 26)
    &&& fits_i32(c.x + trunc_div(c.width as int, 2))
}

pub open spec fn center_x(t: Rect) -> int {
    t.x + trunc_div(t.width as int, 2)
}

pub open spec fn center_y(t: Rect) -> int {
    t.y + trunc_div(t.height as int, 2)
}

/// Every coordinate of a time popup at `t` is an `i32`.
pub open spec fn time_fits(t: Rect) -> bool {
    &&& fits_i32(center_x(t) - 70)
    &&& fits_i32(center_x(t) + 10)
    &&& fits_i32(center_y(t) - 15)
    &&& fits_i32(center_y(t) + 50)
}

/// The hour field, minute field, AM and PM buttons of a time popup.
pub open spec fn hour_box(t: Rect) -> Rect {
    Rect { x: (center_x(t) - 70) as i32, y: (center_y(t) - 15) as i32, width: 60, height: 30 }
}

pub open spec fn minute_box(t: Rect) -> Rect {
    Rect { x: (center_x(t) + 10) as i32, y: (center_y(t) - 15) as i32, width: 60, height: 30 }
}

pub open spec fn am_box(t: Rect) -> Rect {
    Rect { x: (center_x(t) - 40) as i32, y: (center_y(t) + 50) as i32, width: 35, height: 25 }
}

pub open spec fn pm_box(t: Rect) -> Rect {
    Rect { x: (center_x(t) + 5) as i32, y: (center_y(t) + 50) as i32, width: 35, height: 25 }
}

fn day_cell_rect(c: Rect, first: u32, d: u32) -> (r: Rect)
    requires
        calendar_fits(c),
        first < 7,
        1 <= d <= 31,
    ensures
        r == day_cell(c, first as int, d as int),
{
    let g = first + d - 1;
    let row = (g / 7) as i32;
    let col = (g % 7) as i32;
    Rect::new(c.x + 10 + col * 30, c.y + 60 + row * 30, 30, 30)
}

/// The day of the shown month under `p`, in a calendar at `c` whose month
/// has `days` days and starts on weekday `first`.
pub fn calendar_day_at(c: Rect, first: u32, days: u32, p: Point) -> (r: Option<u32>)
    requires
        calendar_fits(c),
        first < 7,
        days <= 31,
    ensures
        match r {
            Some(d) => day_hit(c, first as int, days as int, p, 1) == Some(d as int) && 1 <= d <= days,
            None => day_hit(c, first as int, days as int, p, 1) is None,
        },
{
    proof {
        lemma_day_hit_range(c, first as int, days as int, p, 1);
    }
    let mut d: u32 = 1;
    while d <= days
        invariant
            1 <= d <= days + 1,
            days <= 31,
            first < 7,
            calendar_fits(c),
            day_hit(c, first as int, days as int, p, 1) == day_hit(c, first as int, days as int, p, d as int),
        decreases days + 1 - d,
    {
        let cell = day_cell_rect(c, first, d);
        if cell.contains(p) {
            return Some(d);
        }
        d = d + 1;
    }
    None
}

/// A day of the shown month as the calendar draws it: its cell, whether it
/// is the value's date (drawn filled) and whether the pointer is over it
/// (drawn highlighted).
#[derive(Clone, Copy, Debug, PartialEq, Eq, Structural)]
pub struct DayCell {
    pub day: u32,
    pub rect: Rect,
    pub selected: bool,
    pub hovered: bool,
}

/// The mathematical state of a [`DateTimePicker`].
pub struct PickerView {
    pub state: WidgetState,
    pub mode: DateTimePickerMode,
    pub date_format: DateFormat,
    pub time_format: TimeFormat,
    pub value: DateTime,
    pub show_calendar: bool,
    pub show_time_picker: bool,
    pub calendar_rect: Rect,
    pub time_picker_rect: Rect,
    pub input_rect: Rect,
    pub button_rect: Rect,
    pub viewing_year: i32,
    pub viewing_month: u32,
    pub hovered_day: Option<u32>,
    pub editing_hour: bool,
    pub editing_minute: bool,
    pub hour_input: Seq<char>,
    pub minute_input: Seq<char>,
    pub pm: bool,
    pub input_text: Seq<char>,
    pub placeholder: Seq<char>,
}

pub open spec fn picker_wf(v: PickerView) -> bool {
    &&& v.value.valid()
    &&& 1 <= v.viewing_month <= 12
    &&& calendar_fits(v.calendar_rect)
    &&& time_fits(v.time_picker_rect)
}

/// The text field showing the value in the current mode and formats.
pub open spec fn refresh_text(v: PickerView) -> PickerView {
    PickerView { input_text: value_text(v.value, v.mode, v.date_format, v.time_format), ..v }
}

/// The hour and minute fields (and AM/PM) showing the value's time.
pub open spec fn refresh_time_inputs(v: PickerView) -> PickerView {
    let h = v.value.hour as int;
    let v2 = match v.time_format {
        TimeFormat::H24 => PickerView { hour_input: pad2(h as nat), ..v },
        TimeFormat::H12 => PickerView { hour_input: pad2(hour12(h) as nat), pm: h >= 12, ..v },
    };
    PickerView { minute_input: pad2(v.value.minute as nat), ..v2 }
}

/// The hour the fields ask for: typed hours past the clock are held to it,
/// and on a 12-hour clock 12 AM is midnight and 12 PM noon.
pub open spec fn chosen_hour(typed: int, f: TimeFormat, pm: bool) -> int {
    match f {
        TimeFormat::H24 => if typed > 23 { 23 } else { typed },
        TimeFormat::H12 => {
            let h = if typed > 12 { 12 } else if typed < 1 { 1 } else { typed };
            if h == 12 {
                if pm { 12 } else { 0 }
            } else {
                if pm { h + 12 } else { h }
            }
        },
    }
}

/// The number the field `s` holds, 0 when it holds none.
pub open spec fn field_number(s: Seq<char>) -> int {
    match parse_u32_spec(s) {
        Some(n) => n as int,
        None => 0,
    }
}

/// The value after reading the time from the fields: their hour and
/// minute (at most 59), seconds zero; the text follows.
pub open spec fn apply_time_inputs(v: PickerView) -> PickerView {
    let m = field_number(v.minute_input);
    let t = DateTime {
        hour: chosen_hour(field_number(v.hour_input), v.time_format, v.pm) as u32,
        minute: (if m > 59 { 59 } else { m }) as u32,
        second: 0,
        nanosecond: 0,
        ..v.value
    };
    refresh_text(PickerView { value: t, ..v })
}

pub open spec fn prev_month(v: PickerView) -> PickerView {
    if v.viewing_month == 1 {
        PickerView { viewing_month: 12, viewing_year: (v.viewing_year - 1) as i32, ..v }
    } else {
        PickerView { viewing_month: (v.viewing_month - 1) as u32, ..v }
    }
}

pub open spec fn next_month(v: PickerView) -> PickerView {
    if v.viewing_month == 12 {
        PickerView { viewing_month: 1, viewing_year: (v.viewing_year + 1) as i32, ..v }
    } else {
        PickerView { viewing_month: (v.viewing_month + 1) as u32, ..v }
    }
}

/// The weekday the shown month starts on.
pub open spec fn shown_first_day(v: PickerView) -> int {
    gregorian_weekday(v.viewing_year as int, v.viewing_month as int, 1)
}

/// Day `d` of the shown month in the calendar.
pub open spec fn day_cell_view(v: PickerView, d: int) -> DayCell {
    DayCell {
        day: d as u32,
        rect: day_cell(v.calendar_rect, shown_first_day(v), d),
        selected: v.value.year == v.viewing_year && v.value.month == v.viewing_month && v.value.day == d,
        hovered: v.hovered_day == Some(d as u32),
    }
}

/// A click at `p` inside the calendar: the arrows change the shown month;
/// a day becomes the value's date (closing the calendar in date mode) and
/// is reported. `None` when the click hits neither.
pub open spec fn calendar_click(v: PickerView, p: Point) -> Option<(PickerView, Option<DateTime>)> {
    let c = v.calendar_rect;
    if prev_arrow(c).contains_spec(p) {
        Some((prev_month(v), None))
    } else if next_arrow(c).contains_spec(p) {
        Some((next_month(v), None))
    } else {
        match day_hit(c, shown_first_day(v), month_days(v.viewing_year as int, v.viewing_month as int), p, 1) {
            Some(d) => {
                let t = DateTime { year: v.viewing_year, month: v.viewing_month, day: d as u32, ..v.value };
                let v2 = refresh_text(PickerView { value: t, ..v });
                let v3 = if v.mode == DateTimePickerMode::Date { PickerView { show_calendar: false, ..v2 } } else { v2 };
                Some((v3, Some(t)))
            },
            None => None,
        }
    }
}

/// A click at `p` inside the time popup: the fields start editing, AM and
/// PM apply to the value. `None` when the click hits none of them.
pub open spec fn time_click(v: PickerView, p: Point) -> Option<(PickerView, Option<DateTime>)> {
    let t = v.time_picker_rect;
    if hour_box(t).contains_spec(p) {
        Some((PickerView { editing_hour: true, editing_minute: false, ..v }, None))
    } else if minute_box(t).contains_spec(p) {
        Some((PickerView { editing_hour: false, editing_minute: true, ..v }, None))
    } else if v.time_format == TimeFormat::H12 && am_box(t).contains_spec(p) {
        let v2 = apply_time_inputs(PickerView { pm: false, ..v });
        Some((v2, Some(v2.value)))
    } else if v.time_format == TimeFormat::H12 && pm_box(t).contains_spec(p) {
        let v2 = apply_time_inputs(PickerView { pm: true, ..v });
        Some((v2, Some(v2.value)))
    } else {
        None
    }
}

/// A key typed while a time field is edited: digits (up to two bytes of
/// text) and backspace edit the field and apply it, Tab moves to the other
/// field, Enter ends editing and closes the time popup. `None` for other
/// keys.
pub open spec fn time_key(v: PickerView, key: Key) -> Option<(PickerView, Option<DateTime>)> {
    match key {
        Key::Character(ch) => if unicode_is_numeric(ch) {
            if v.editing_hour {
                if utf8_len(v.hour_input) < 2 {
                    let v2 = apply_time_inputs(PickerView { hour_input: v.hour_input.push(ch), ..v });
                    Some((v2, Some(v2.value)))
                } else {
                    Some((v, None))
                }
            } else {
                if utf8_len(v.minute_input) < 2 {
                    let v2 = apply_time_inputs(PickerView { minute_input: v.minute_input.push(ch), ..v });
                    Some((v2, Some(v2.value)))
                } else {
                    Some((v, None))
                }
            }
        } else {
            None
        },
        Key::Backspace => {
            let v2 = if v.editing_hour {
                apply_time_inputs(PickerView { hour_input: if v.hour_input.len() > 0 { v.hour_input.drop_last() } else { v.hour_input }, ..v })
            } else {
                apply_time_inputs(PickerView { minute_input: if v.minute_input.len() > 0 { v.minute_input.drop_last() } else { v.minute_input }, ..v })
            };
            Some((v2, Some(v2.value)))
        },
        Key::Tab => if v.editing_hour {
            Some((PickerView { editing_hour: false, editing_minute: true, ..v }, None))
        } else {
            Some((PickerView { editing_minute: false, editing_hour: true, ..v }, None))
        },
        Key::Enter => Some((
            PickerView {
                editing_hour: false,
                editing_minute: false,
                show_time_picker: false,
                show_calendar: if v.mode == DateTimePickerMode::Time { false } else { v.show_calendar },
                ..v
            },
            None,
        )),
        _ => None,
    }
}

/// The button opens or closes the popups the mode has.
pub open spec fn toggle_popups(v: PickerView) -> PickerView {
    match v.mode {
        DateTimePickerMode::Date => PickerView { show_calendar: !v.show_calendar, show_time_picker: false, ..v },
        DateTimePickerMode::Time => PickerView { show_calendar: false, show_time_picker: !v.show_time_picker, ..v },
        DateTimePickerMode::DateTime => PickerView { show_calendar: !v.show_calendar, show_time_picker: !v.show_calendar, ..v },
    }
}

pub open spec fn close_popups(v: PickerView) -> PickerView {
    PickerView { show_calendar: false, show_time_picker: false, editing_hour: false, editing_minute: false, ..v }
}

/// A left press at `p`: the button toggles the popups; a click in an open
/// popup goes to it; a click outside the picker and its popups closes them.
pub open spec fn press_event(v: PickerView, p: Point, rest: EventResult) -> (PickerView, EventResult, Option<DateTime>) {
    if v.button_rect.contains_spec(p) {
        (toggle_popups(v), EventResult::Consumed, None)
    } else {
        let cal = if v.show_calendar && v.calendar_rect.contains_spec(p) { calendar_click(v, p) } else { None };
        match cal {
            Some((v2, n)) => (v2, EventResult::Consumed, n),
            None => {
                let tp = if v.show_time_picker && v.time_picker_rect.contains_spec(p) { time_click(v, p) } else { None };
                match tp {
                    Some((v2, n)) => (v2, EventResult::Consumed, n),
                    None => {
                        let outside = !v.state.bounds.contains_spec(p) && !v.calendar_rect.contains_spec(p)
                            && !v.time_picker_rect.contains_spec(p);
                        (if outside { close_popups(v) } else { v }, rest, None)
                    },
                }
            },
        }
    }
}

/// A pointer move over the open calendar marks the day under it.
pub open spec fn move_event(v: PickerView, p: Point, rest: EventResult) -> (PickerView, EventResult, Option<DateTime>) {
    if v.show_calendar && v.calendar_rect.contains_spec(p) {
        let hit = day_hit(v.calendar_rect, shown_first_day(v), month_days(v.viewing_year as int, v.viewing_month as int), p, 1);
        (PickerView { hovered_day: match hit { Some(d) => Some(d as u32), None => None }, ..v }, EventResult::Consumed, None)
    } else {
        (v, rest, None)
    }
}

/// A key goes to the time field being edited, if any.
pub open spec fn key_event(v: PickerView, key: Key, rest: EventResult) -> (PickerView, EventResult, Option<DateTime>) {
    if v.editing_hour || v.editing_minute {
        match time_key(v, key) {
            Some((v2, n)) => (v2, EventResult::Consumed, n),
            None => (v, rest, None),
        }
    } else {
        (v, rest, None)
    }
}

/// The picker's answer to an event, `children` being what its text field
/// and button answered: the new state, the result, and the value reported
/// as changed, if any.
pub open spec fn picker_event(v: PickerView, e: Event, children: EventResult) -> (PickerView, EventResult, Option<DateTime>) {
    let rest = if children == EventResult::Consumed { EventResult::Consumed } else { EventResult::Ignored };
    if !v.state.enabled || !v.state.visible {
        (v, EventResult::Ignored, None)
    } else {
        match e {
            Event::MouseButton(mb) => if mb.button == MouseButton::Left && mb.pressed {
                press_event(v, mb.position, rest)
            } else {
                (v, rest, None)
            },
            Event::MouseMove(mm) => move_event(v, mm.position, rest),
            Event::KeyPress(k) => key_event(v, k.key, rest),
            _ => (v, rest, None),
        }
    }
}

/// The event reaches the calendar only for a shown year, and moves the
/// shown month only within `i32` years.
pub open spec fn picker_event_ok(v: PickerView, e: Event) -> bool {
    let year_ok = MIN_YEAR <= v.viewing_year <= MAX_YEAR;
    match e {
        Event::MouseButton(mb) => {
            let p = mb.position;
            (mb.button == MouseButton::Left && mb.pressed && !v.button_rect.contains_spec(p) && v.show_calendar
                && v.calendar_rect.contains_spec(p)) ==> {
                &&& prev_arrow(v.calendar_rect).contains_spec(p) ==> (v.viewing_month == 1 ==> v.viewing_year > i32::MIN)
                &&& !prev_arrow(v.calendar_rect).contains_spec(p) && next_arrow(v.calendar_rect).contains_spec(p)
                    ==> (v.viewing_month == 12 ==> v.viewing_year < i32::MAX)
                &&& !prev_arrow(v.calendar_rect).contains_spec(p) && !next_arrow(v.calendar_rect).contains_spec(p) ==> year_ok
            }
        },
        Event::MouseMove(mm) => v.show_calendar && v.calendar_rect.contains_spec(mm.position) ==> year_ok,
        _ => true,
    }
}

/// The hint the empty text field shows for the mode and formats.
pub open spec fn placeholder_text(mode: DateTimePickerMode, df: DateFormat, tf: TimeFormat) -> Seq<char> {
    match mode {
        DateTimePickerMode::Date => match df {
            DateFormat::YMD => "YYYY-MM-DD"@,
            DateFormat::DMY => "DD/MM/YYYY"@,
            DateFormat::MDY => "MM/DD/YYYY"@,
        },
        DateTimePickerMode::Time => match tf {
            TimeFormat::H24 => "HH:MM"@,
            TimeFormat::H12 => "HH:MM AM/PM"@,
        },
        DateTimePickerMode::DateTime => match df {
            DateFormat::YMD => "YYYY-MM-DD HH:MM"@,
            DateFormat::DMY => "DD/MM/YYYY HH:MM"@,
            DateFormat::MDY => "MM/DD/YYYY HH:MM"@,
        },
    }
}

/// A new picker showing the date `now` in the date mode, `YYYY-MM-DD`,
/// 24-hour clock, with its popups closed and the month of `now` shown.
pub open spec fn initial_view(id: WidgetId, now: DateTime) -> PickerView {
    PickerView {
        state: WidgetState::new_spec(id),
        mode: DateTimePickerMode::Date,
        date_format: DateFormat::YMD,
        time_format: TimeFormat::H24,
        value: now,
        show_calendar: false,
        show_time_picker: false,
        calendar_rect: Rect { x: 0, y: 0, width: 0, height: 0 },
        time_picker_rect: Rect { x: 0, y: 0, width: 0, height: 0 },
        input_rect: Rect { x: 0, y: 0, width: 0, height: 0 },
        button_rect: Rect { x: 0, y: 0, width: 0, height: 0 },
        viewing_year: now.year,
        viewing_month: now.month,
        hovered_day: None,
        editing_hour: false,
        editing_minute: false,
        hour_input: pad2(now.hour as nat),
        minute_input: pad2(now.minute as nat),
        pm: now.hour >= 12,
        input_text: value_text(now, DateTimePickerMode::Date, DateFormat::YMD, TimeFormat::H24),
        placeholder: "Select date..."@,
    }
}

/// A date and time entry: a text field with a button that opens a month
/// calendar and an hour / minute popup.
pub struct DateTimePicker {
    state: WidgetState,
    mode: DateTimePickerMode,
    date_format: DateFormat,
    time_format: TimeFormat,
    selected_datetime: DateTime,
    show_calendar: bool,
    show_time_picker: bool,
    calendar_rect: Rect,
    time_picker_rect: Rect,
    input_rect: Rect,
    button_rect: Rect,
    viewing_year: i32,
    viewing_month: u32,
    hovered_day: Option<u32>,
    editing_hour: bool,
    editing_minute: bool,
    hour_input: String,
    minute_input: String,
    am_pm_selected: bool,
    input_text: String,
    placeholder: String,
}

impl DateTimePicker {
    pub closed spec fn view(&self) -> PickerView {
        PickerView {
            state: self.state,
            mode: self.mode,
            date_format: self.date_format,
            time_format: self.time_format,
            value: self.selected_datetime,
            show_calendar: self.show_calendar,
            show_time_picker: self.show_time_picker,
            calendar_rect: self.calendar_rect,
            time_picker_rect: self.time_picker_rect,
            input_rect: self.input_rect,
            button_rect: self.button_rect,
            viewing_year: self.viewing_year,
            viewing_month: self.viewing_month,
            hovered_day: self.hovered_day,
            editing_hour: self.editing_hour,
            editing_minute: self.editing_minute,
            hour_input: self.hour_input@,
            minute_input: self.minute_input@,
            pm: self.am_pm_selected,
            input_text: self.input_text@,
            placeholder: self.placeholder@,
        }
    }

    pub open spec fn wf(&self) -> bool {
        picker_wf(self.view())
    }

    /// A picker showing `now`; see [`initial_view`].
    pub fn new_at(id: WidgetId, now: DateTime) -> (p: DateTimePicker)
        requires
            now.valid(),
        ensures
            p.wf(),
            p.view() == initial_view(id, now),
    {
        DateTimePicker {
            state: WidgetState::new(id),
            mode: DateTimePickerMode::Date,
            date_format: DateFormat::YMD,
            time_format: TimeFormat::H24,
            selected_datetime: now,
            show_calendar: false,
            show_time_picker: false,
            calendar_rect: Rect::empty(),
            time_picker_rect: Rect::empty(),
            input_rect: Rect::empty(),
            button_rect: Rect::empty(),
            viewing_year: now.year,
            viewing_month: now.month,
            hovered_day: None,
            editing_hour: false,
            editing_minute: false,
            hour_input: format_two_digits(now.hour),
            minute_input: format_two_digits(now.minute),
            am_pm_selected: now.hour >= 12,
            input_text: format_value(now, DateTimePickerMode::Date, DateFormat::YMD, TimeFormat::H24),
            placeholder: String::from_str("Select date..."),
        }
    }

    fn update_placeholder(&mut self)
        ensures
            final(self).view() == (PickerView {
                placeholder: placeholder_text(old(self).view().mode, old(self).view().date_format, old(self).view().time_format),
                ..old(self).view()
            }),
    {
        let text = match self.mode {
            DateTimePickerMode::Date => match self.date_format {
                DateFormat::YMD => "YYYY-MM-DD",
                DateFormat::DMY => "DD/MM/YYYY",
                DateFormat::MDY => "MM/DD/YYYY",
            },
            DateTimePickerMode::Time => match self.time_format {
                TimeFormat::H24 => "HH:MM",
                TimeFormat::H12 => "HH:MM AM/PM",
            },
            DateTimePickerMode::DateTime => match self.date_format {
                DateFormat::YMD => "YYYY-MM-DD HH:MM",
                DateFormat::DMY => "DD/MM/YYYY HH:MM",
                DateFormat::MDY => "MM/DD/YYYY HH:MM",
            },
        };
        self.placeholder = String::from_str(text);
    }

    fn update_input_text(&mut self)
        requires
            old(self).view().value.valid(),
        ensures
            final(self).view() == refresh_text(old(self).view()),
    {
        self.input_text = format_value(self.selected_datetime, self.mode, self.date_format, self.time_format);
    }

    fn update_time_inputs(&mut self)
        requires
            old(self).view().value.valid(),
        ensures
            final(self).view() == refresh_time_inputs(old(self).view()),
    {
        let h = self.selected_datetime.hour;
        match self.time_format {
            TimeFormat::H24 => {
                self.hour_input = format_two_digits(h);
            },
            TimeFormat::H12 => {
                let h12 = if h == 0 {
                    12
                } else if h > 12 {
                    h - 12
                } else {
                    h
                };
                self.hour_input = format_two_digits(h12);
                self.am_pm_selected = h >= 12;
            },
        }
        self.minute_input = format_two_digits(self.selected_datetime.minute);
    }

    /// Reads the time from the fields into the value; returns the value.
    fn update_time_from_inputs(&mut self) -> (t: DateTime)
        requires
            old(self).wf(),
        ensures
            final(self).view() == apply_time_inputs(old(self).view()),
            t == final(self).view().value,
            final(self).wf(),
    {
        let hour: u32 = match parse_u32(self.hour_input.as_str()) {
            Some(n) => n,
            None => 0,
        };
        let minute: u32 = match parse_u32(self.minute_input.as_str()) {
            Some(n) => n,
            None => 0,
        };
        let final_hour = match self.time_format {
            TimeFormat::H24 => if hour > 23 {
                23
            } else {
                hour
            },
            TimeFormat::H12 => {
                let h = if hour > 12 {
                    12
                } else if hour < 1 {
                    1
                } else {
                    hour
                };
                if h == 12 {
                    if self.am_pm_selected {
                        12
                    } else {
                        0
                    }
                } else {
                    if self.am_pm_selected {
                        h + 12
                    } else {
                        h
                    }
                }
            },
        };
        let final_minute = if minute > 59 {
            59
        } else {
            minute
        };
        let t = DateTime { hour: final_hour, minute: final_minute, second: 0, nanosecond: 0, ..self.selected_datetime };
        self.selected_datetime = t;
        self.update_input_text();
        t
    }

    pub fn with_mode(self, mode: DateTimePickerMode) -> (p: DateTimePicker)
        ensures
            p.view() == (PickerView {
                mode,
                placeholder: placeholder_text(mode, self.view().date_format, self.view().time_format),
                ..self.view()
            }),
    {
        let mut p = self;
        p.mode = mode;
        p.update_placeholder();
        p
    }

    pub fn with_date_format(self, format: DateFormat) -> (p: DateTimePicker)
        requires
            self.wf(),
        ensures
            p.wf(),
            p.view() == refresh_text(PickerView { date_format: format, ..self.view() }),
    {
        let mut p = self;
        p.date_format = format;
        p.update_input_text();
        p
    }

    pub fn with_time_format(self, format: TimeFormat) -> (p: DateTimePicker)
        requires
            self.wf(),
        ensures
            p.wf(),
            p.view() == refresh_time_inputs(refresh_text(PickerView { time_format: format, ..self.view() })),
    {
        let mut p = self;
        p.time_format = format;
        p.update_input_text();
        p.update_time_inputs();
        p
    }

    pub fn with_value(self, datetime: DateTime) -> (p: DateTimePicker)
        requires
            self.wf(),
            datetime.valid(),
        ensures
            p.wf(),
            p.view() == refresh_time_inputs(
                refresh_text(
                    PickerView { value: datetime, viewing_year: datetime.year, viewing_month: datetime.month, ..self.view() },
                ),
            ),
    {
        let mut p = self;
        p.set_value(datetime);
        p
    }

    pub fn get_value(&self) -> (t: DateTime)
        ensures
            t == self.view().value,
    {
        self.selected_datetime
    }

    /// Shows `datetime` and its month; the new value is to be reported as
    /// a change.
    pub fn set_value(&mut self, datetime: DateTime)
        requires
            old(self).wf(),
            datetime.valid(),
        ensures
            final(self).wf(),
            final(self).view() == refresh_time_inputs(
                refresh_text(
                    PickerView {
                        value: datetime,
                        viewing_year: datetime.year,
                        viewing_month: datetime.month,
                        ..old(self).view()
                    },
                ),
            ),
    {
        self.selected_datetime = datetime;
        self.viewing_year = datetime.year;
        self.viewing_month = datetime.month;
        self.update_input_text();
        self.update_time_inputs();
    }
}

/// The picker laid out in `r`: the text field leaves 34 pixels on the
/// right, where the 30-pixel button sits; the popups open 2 pixels below,
/// the time popup beside the calendar in date-and-time mode.
pub open spec fn layout_view(v: PickerView, r: Rect) -> PickerView {
    let below = (r.y + r.height + 2) as i32;
    PickerView {
        state: WidgetState { bounds: r, ..v.state },
        input_rect: Rect { x: r.x, y: r.y, width: (r.width - 34) as i32, height: r.height },
        button_rect: Rect { x: (r.x + r.width - 30) as i32, y: r.y, width: 30, height: r.height },
        calendar_rect: Rect { x: r.x, y: below, width: 250, height: 280 },
        time_picker_rect: Rect {
            x: if v.mode == DateTimePickerMode::DateTime { (r.x + 260) as i32 } else { r.x },
            y: below,
            width: 200,
            height: if v.time_format == TimeFormat::H12 { 120 } else { 80 },
        },
        ..v
    }
}

/// Laying out in `r` computes only `i32` coordinates, and so do later
/// clicks in the popups.
pub open spec fn layout_ok(v: PickerView, r: Rect) -> bool {
    &&& fits_i32(r.width - 34)
    &&& fits_i32(r.x + r.width)
    &&& fits_i32(r.x + r.width - 30)
    &&& fits_i32(r.y + r.height)
    &&& fits_i32(r.y + r.height + 2)
    &&& v.mode == DateTimePickerMode::DateTime ==> fits_i32(r.x + 260)
    &&& calendar_fits(layout_view(v, r).calendar_rect)
    &&& time_fits(layout_view(v, r).time_picker_rect)
}

impl DateTimePicker {
    fn handle_calendar_click(&mut self, p: Point) -> (r: Option<Option<DateTime>>)
        requires
            old(self).wf(),
            prev_arrow(old(self).view().calendar_rect).contains_spec(p) ==> (old(self).view().viewing_month == 1
                ==> old(self).view().viewing_year > i32::MIN),
            !prev_arrow(old(self).view().calendar_rect).contains_spec(p) && next_arrow(old(self).view().calendar_rect).contains_spec(p)
                ==> (old(self).view().viewing_month == 12 ==> old(self).view().viewing_year < i32::MAX),
            !prev_arrow(old(self).view().calendar_rect).contains_spec(p) && !next_arrow(old(self).view().calendar_rect).contains_spec(p)
                ==> MIN_YEAR <= old(self).view().viewing_year <= MAX_YEAR,
        ensures
            final(self).wf(),
            match calendar_click(old(self).view(), p) {
                Some((v2, n)) => r == Some(n) && final(self).view() == v2,
                None => r is None && final(self).view() == old(self).view(),
            },
    {
        let c = self.calendar_rect;
        let prev = Rect::new(c.x + 10, c.y + 7, 16, 16);
        let next = Rect::new(c.x + c.width - 10 - 16, c.y + 7, 16, 16);
        if prev.contains(p) {
            if self.viewing_month == 1 {
                self.viewing_month = 12;
                self.viewing_year = self.viewing_year - 1;
            } else {
                self.viewing_month = self.viewing_month - 1;
            }
            return Some(None);
        }
        if next.contains(p) {
            if self.viewing_month == 12 {
                self.viewing_month = 1;
                self.viewing_year = self.viewing_year + 1;
            } else {
                self.viewing_month = self.viewing_month + 1;
            }
            return Some(None);
        }
        let first = first_day_of_week(self.viewing_year, self.viewing_month);
        let days = days_in_month(self.viewing_year, self.viewing_month);
        match calendar_day_at(c, first, days, p) {
            Some(d) => {
                let t = DateTime { year: self.viewing_year, month: self.viewing_month, day: d, ..self.selected_datetime };
                self.selected_datetime = t;
                self.update_input_text();
                match self.mode {
                    DateTimePickerMode::Date => {
                        self.show_calendar = false;
                    },
                    _ => {},
                }
                Some(Some(t))
            },
            None => None,
        }
    }

    fn handle_time_picker_click(&mut self, p: Point) -> (r: Option<Option<DateTime>>)
        requires
            old(self).wf(),
        ensures
            final(self).wf(),
            match time_click(old(self).view(), p) {
                Some((v2, n)) => r == Some(n) && final(self).view() == v2,
                None => r is None && final(self).view() == old(self).view(),
            },
    {
        let t = self.time_picker_rect;
        let cx = t.x + t.width / 2;
        let cy = t.y + t.height / 2;
        let hour_rect = Rect::new(cx - 60 - 10, cy - 15, 60, 30);
        if hour_rect.contains(p) {
            self.editing_hour = true;
            self.editing_minute = false;
            return Some(None);
        }
        let minute_rect = Rect::new(cx + 10, cy - 15, 60, 30);
        if minute_rect.contains(p) {
            self.editing_hour = false;
            self.editing_minute = true;
            return Some(None);
        }
        match self.time_format {
            TimeFormat::H12 => {
                let row = cy + 30 + 20;
                let am_rect = Rect::new(cx - 40, row, 35, 25);
                let pm_rect = Rect::new(cx + 5, row, 35, 25);
                if am_rect.contains(p) {
                    self.am_pm_selected = false;
                    let v = self.update_time_from_inputs();
                    return Some(Some(v));
                }
                if pm_rect.contains(p) {
                    self.am_pm_selected = true;
                    let v = self.update_time_from_inputs();
                    return Some(Some(v));
                }
            },
            TimeFormat::H24 => {},
        }
        None
    }

    fn handle_time_key(&mut self, key: Key) -> (r: Option<Option<DateTime>>)
        requires
            old(self).wf(),
            old(self).view().editing_hour || old(self).view().editing_minute,
        ensures
            final(self).wf(),
            match time_key(old(self).view(), key) {
                Some((v2, n)) => r == Some(n) && final(self).view() == v2,
                None => r is None && final(self).view() == old(self).view(),
            },
    {
        match key {
            Key::Character(ch) => {
                if !is_numeric_char(ch) {
                    return None;
                }
                if self.editing_hour {
                    if byte_len(&self.hour_input) < 2 {
                        push_char(&mut self.hour_input, ch);
                        let v = self.update_time_from_inputs();
                        return Some(Some(v));
                    }
                } else {
                    if byte_len(&self.minute_input) < 2 {
                        push_char(&mut self.minute_input, ch);
                        let v = self.update_time_from_inputs();
                        return Some(Some(v));
                    }
                }
                Some(None)
            },
            Key::Backspace => {
                if self.editing_hour {
                    let _ = pop_char(&mut self.hour_input);
                } else {
                    let _ = pop_char(&mut self.minute_input);
                }
                let v = self.update_time_from_inputs();
                Some(Some(v))
            },
            Key::Tab => {
                if self.editing_hour {
                    self.editing_hour = false;
                    self.editing_minute = true;
                } else {
                    self.editing_minute = false;
                    self.editing_hour = true;
                }
                Some(None)
            },
            Key::Enter => {
                self.editing_hour = false;
                self.editing_minute = false;
                self.show_time_picker = false;
                match self.mode {
                    DateTimePickerMode::Time => {
                        self.show_calendar = false;
                    },
                    _ => {},
                }
                Some(None)
            },
            _ => None,
        }
    }

    fn handle_press(&mut self, p: Point, rest: EventResult) -> (r: (EventResult, Option<DateTime>))
        requires
            old(self).wf(),
            picker_event_ok(
                old(self).view(),
                Event::MouseButton(
                    crate::event::MouseButtonEvent {
                        button: MouseButton::Left,
                        position: p,
                        pressed: true,
                        modifiers: crate::event::Modifiers { shift: false, ctrl: false, alt: false, meta: false },
                    },
                ),
            ),
        ensures
            final(self).wf(),
            (final(self).view(), r.0, r.1) == press_event(old(self).view(), p, rest),
    {
        if self.button_rect.contains(p) {
            match self.mode {
                DateTimePickerMode::Date => {
                    self.show_calendar = !self.show_calendar;
                    self.show_time_picker = false;
                },
                DateTimePickerMode::Time => {
                    self.show_calendar = false;
                    self.show_time_picker = !self.show_time_picker;
                },
                DateTimePickerMode::DateTime => {
                    self.show_calendar = !self.show_calendar;
                    self.show_time_picker = self.show_calendar;
                },
            }
            return (EventResult::Consumed, None);
        }
        if self.show_calendar && self.calendar_rect.contains(p) {
            match self.handle_calendar_click(p) {
                Some(n) => {
                    return (EventResult::Consumed, n);
                },
                None => {},
            }
        }
        if self.show_time_picker && self.time_picker_rect.contains(p) {
            match self.handle_time_picker_click(p) {
                Some(n) => {
                    return (EventResult::Consumed, n);
                },
                None => {},
            }
        }
        if !self.state.bounds.contains(p) && !self.calendar_rect.contains(p) && !self.time_picker_rect.contains(p) {
            self.show_calendar = false;
            self.show_time_picker = false;
            self.editing_hour = false;
            self.editing_minute = false;
        }
        (rest, None)
    }

    fn handle_move(&mut self, p: Point, rest: EventResult) -> (r: (EventResult, Option<DateTime>))
        requires
            old(self).wf(),
            old(self).view().show_calendar && old(self).view().calendar_rect.contains_spec(p)
                ==> MIN_YEAR <= old(self).view().viewing_year <= MAX_YEAR,
        ensures
            final(self).wf(),
            (final(self).view(), r.0, r.1) == move_event(old(self).view(), p, rest),
    {
        if self.show_calendar && self.calendar_rect.contains(p) {
            let first = first_day_of_week(self.viewing_year, self.viewing_month);
            let days = days_in_month(self.viewing_year, self.viewing_month);
            self.hovered_day = calendar_day_at(self.calendar_rect, first, days, p);
            return (EventResult::Consumed, None);
        }
        (rest, None)
    }

    /// Handles an event; `children` is what the picker's text field and
    /// button answered to it. Returns the result and the value to report
    /// as changed, if any; see [`picker_event`].
    pub fn handle_event(&mut self, event: &Event, children: EventResult) -> (r: (EventResult, Option<DateTime>))
        requires
            old(self).wf(),
            picker_event_ok(old(self).view(), *event),
        ensures
            final(self).wf(),
            (final(self).view(), r.0, r.1) == picker_event(old(self).view(), *event, children),
    {
        if !self.state.enabled || !self.state.visible {
            return (EventResult::Ignored, None);
        }
        let rest = match children {
            EventResult::Consumed => EventResult::Consumed,
            EventResult::Ignored => EventResult::Ignored,
        };
        match event {
            Event::MouseButton(mb) => {
                let left = match mb.button {
                    MouseButton::Left => true,
                    _ => false,
                };
                if left && mb.pressed {
                    self.handle_press(mb.position, rest)
                } else {
                    (rest, None)
                }
            },
            Event::MouseMove(mm) => self.handle_move(mm.position, rest),
            Event::KeyPress(k) => {
                if self.editing_hour || self.editing_minute {
                    match self.handle_time_key(k.key) {
                        Some(n) => {
                            return (EventResult::Consumed, n);
                        },
                        None => {},
                    }
                }
                (rest, None)
            },
            _ => (rest, None),
        }
    }

    /// A 200-pixel field and a 30-pixel button 4 apart, a line of base text
    /// plus 16 high.
    pub fn measure(&self, font_size_base: i32) -> (s: Size)
        requires
            fits_i32(font_size_base + 16),
        ensures
            s.width == 234,
            s.height == font_size_base + 16,
    {
        Size::new(200 + 30 + 4, font_size_base + 16)
    }

    pub fn layout(&mut self, rect: Rect)
        requires
            old(self).wf(),
            layout_ok(old(self).view(), rect),
        ensures
            final(self).wf(),
            final(self).view() == layout_view(old(self).view(), rect),
    {
        self.state.bounds = rect;
        let right = rect.x + rect.width;
        let bottom = rect.y + rect.height;
        self.input_rect = Rect::new(rect.x, rect.y, rect.width - 30 - 4, rect.height);
        self.button_rect = Rect::new(right - 30, rect.y, 30, rect.height);
        self.calendar_rect = Rect::new(rect.x, bottom + 2, 250, 280);
        let th = match self.time_format {
            TimeFormat::H12 => 120,
            TimeFormat::H24 => 80,
        };
        self.time_picker_rect = match self.mode {
            DateTimePickerMode::DateTime => Rect::new(rect.x + 250 + 10, bottom + 2, 200, th),
            _ => Rect::new(rect.x, bottom + 2, 200, th),
        };
    }

    /// What the text field shows.
    pub fn input_text(&self) -> (r: &String)
        ensures
            r@ == self.view().input_text,
    {
        &self.input_text
    }

    /// The hint the empty text field shows.
    pub fn placeholder(&self) -> (r: &String)
        ensures
            r@ == self.view().placeholder,
    {
        &self.placeholder
    }

    pub fn is_calendar_open(&self) -> (b: bool)
        ensures
            b == self.view().show_calendar,
    {
        self.show_calendar
    }

    pub fn is_time_picker_open(&self) -> (b: bool)
        ensures
            b == self.view().show_time_picker,
    {
        self.show_time_picker
    }

    /// The year and month the calendar shows.
    pub fn viewing(&self) -> (r: (i32, u32))
        ensures
            r == (self.view().viewing_year, self.view().viewing_month),
    {
        (self.viewing_year, self.viewing_month)
    }

    pub fn hovered_day(&self) -> (r: Option<u32>)
        ensures
            r == self.view().hovered_day,
    {
        self.hovered_day
    }

    /// The days the open calendar shows, first to last; none while it is
    /// closed.
    pub fn calendar_cells(&self) -> (r: Vec<DayCell>)
        requires
            self.wf(),
            self.view().show_calendar ==> MIN_YEAR <= self.view().viewing_year <= MAX_YEAR,
        ensures
            !self.view().show_calendar ==> r@.len() == 0,
            self.view().show_calendar ==> r@.len() == month_days(self.view().viewing_year as int, self.view().viewing_month as int),
            self.view().show_calendar ==> forall|i: int| 0 <= i < r@.len() ==> r@[i] == day_cell_view(self.view(), i + 1),
    {
        let mut cells: Vec<DayCell> = Vec::new();
        if !self.show_calendar {
            return cells;
        }
        let ghost v = self.view();
        let first = first_day_of_week(self.viewing_year, self.viewing_month);
        let days = days_in_month(self.viewing_year, self.viewing_month);
        let sel = self.selected_datetime;
        let mut d: u32 = 1;
        while d <= days
            invariant
                v == self.view(),
                picker_wf(v),
                first as int == shown_first_day(v),
                first < 7,
                days as int == month_days(v.viewing_year as int, v.viewing_month as int),
                days <= 31,
                sel == v.value,
                1 <= d <= days + 1,
                cells@.len() == d - 1,
                forall|i: int| 0 <= i < cells@.len() ==> cells@[i] == day_cell_view(v, i + 1),
            decreases days + 1 - d,
        {
            let cell = DayCell {
                day: d,
                rect: day_cell_rect(self.calendar_rect, first, d),
                selected: sel.year == self.viewing_year && sel.month == self.viewing_month && sel.day == d,
                hovered: self.hovered_day == Some(d),
            };
            cells.push(cell);
            d = d + 1;
        }
        cells
    }

    pub fn id(&self) -> (r: WidgetId)
        ensures
            r == self.view().state.id,
    {
        self.state.id
    }

    pub fn bounds(&self) -> (r: Rect)
        ensures
            r == self.view().state.bounds,
    {
        self.state.bounds
    }

    pub fn set_bounds(&mut self, bounds: Rect)
        ensures
            final(self).view() == (PickerView { state: WidgetState { bounds, ..old(self).view().state }, ..old(self).view() }),
    {
        self.state.bounds = bounds;
    }

    pub fn is_visible(&self) -> (b: bool)
        ensures
            b == self.view().state.visible,
    {
        self.state.visible
    }

    pub fn set_visible(&mut self, visible: bool)
        ensures
            final(self).view() == (PickerView { state: WidgetState { visible, ..old(self).view().state }, ..old(self).view() }),
    {
        self.state.visible = visible;
    }

    pub fn is_enabled(&self) -> (b: bool)
        ensures
            b == self.view().state.enabled,
    {
        self.state.enabled
    }

    pub fn set_enabled(&mut self, enabled: bool)
        ensures
            final(self).view() == (PickerView { state: WidgetState { enabled, ..old(self).view().state }, ..old(self).view() }),
    {
        self.state.enabled = enabled;
    }

    pub fn is_focused(&self) -> (b: bool)
        ensures
            b == self.view().state.focused,
    {
        self.state.focused
    }

    /// Focuses or unfocuses the picker (its text field follows).
    pub fn set_focused(&mut self, focused: bool)
        ensures
            final(self).view() == (PickerView { state: WidgetState { focused, ..old(self).view().state }, ..old(self).view() }),
    {
        self.state.focused = focused;
    }

    pub fn can_focus(&self) -> (b: bool)
        ensures
            b == (self.view().state.enabled && self.view().state.visible),
    {
        self.state.enabled && self.state.visible
    }
}

proof fn lemma_digit_char(d: nat)
    requires
        d < 10,
    ensures
        is_ascii_digit(crate::text::digit_char(d)),
        crate::text::digit_char(d) as int - '0' as int == d,
{
}

/// A two-digit field reads back the number it was written from.
proof fn lemma_pad2_parses(n: nat)
    requires
        n < 100,
    ensures
        parse_u32_spec(pad2(n)) == Some(n as u32),
{
    let s = pad2(n);
    if n < 10 {
        lemma_digit_char(n);
        assert(decimal(n) == seq![crate::text::digit_char(n)]);
        assert(s =~= seq!['0', crate::text::digit_char(n)]);
    } else {
        lemma_digit_char(n / 10);
        lemma_digit_char(n % 10);
        assert(decimal(n / 10) == seq![crate::text::digit_char(n / 10)]);
        assert(s =~= seq![crate::text::digit_char(n / 10), crate::text::digit_char(n % 10)]);
    }
    assert(unsigned_digits(s) == s);
    assert(s.drop_last().drop_last() =~= Seq::<char>::empty());
    assert(all_ascii_digits(s));
    assert(digits_value(s.drop_last().drop_last()) == 0);
    assert(digits_value(s.drop_last()) == s[0] as int - '0' as int);
    assert(digits_value(s) == (s[0] as int - '0' as int) * 10 + (s[1] as int - '0' as int));
    if n >= 10 {
        assert(n == (n / 10) * 10 + n % 10);
    }
}

/// Showing the value's time in the fields and reading the fields back
/// gives the value's hour and minute again, on either clock; seconds
/// become zero.
pub proof fn law_time_fields_round_trip(v: PickerView)
    requires
        v.value.valid(),
    ensures
        apply_time_inputs(refresh_time_inputs(v)).value == (DateTime { second: 0, nanosecond: 0, ..v.value }),
{
    let h = v.value.hour as int;
    lemma_pad2_parses(v.value.minute as nat);
    match v.time_format {
        TimeFormat::H24 => {
            lemma_pad2_parses(h as nat);
        },
        TimeFormat::H12 => {
            lemma_pad2_parses(hour12(h) as nat);
        },
    }
}

/// In the calendar each day of the shown month stands in the column of
/// its own weekday: the column of day `d`, counted on from the weekday of
/// the first, is the weekday of `d`.
pub proof fn law_days_sit_under_their_weekday(year: int, month: int, d: int)
    requires
        1 <= month <= 12,
        1 <= d <= month_days(year, month),
    ensures
        (gregorian_weekday(year, month, 1) + d - 1) % 7 == gregorian_weekday(year, month, d),
{
    let a = days_from_epoch(year, month, 1) + 4;
    assert(days_from_epoch(year, month, d) + 4 == a + (d - 1));
    vstd::arithmetic::div_mod::lemma_add_mod_noop(a, d - 1, 7);
    vstd::arithmetic::div_mod::lemma_mod_twice(d - 1, 7);
    vstd::arithmetic::div_mod::lemma_add_mod_noop(a % 7, d - 1, 7);
}

/// The calendar's arrows move the shown month by exactly one calendar
/// month, counting months as `12 * year + month`: the previous arrow one
/// back, the next arrow one on, crossing a year where it must; nothing else
/// changes and nothing is reported.
pub proof fn law_arrows_step_one_month(v: PickerView, p: Point)
    requires
        1 <= v.viewing_month <= 12,
        i32::MIN < v.viewing_year < i32::MAX,
    ensures
        prev_arrow(v.calendar_rect).contains_spec(p) ==> (calendar_click(v, p) matches Some((w, r)) && {
            &&& r is None
            &&& 12 * w.viewing_year + w.viewing_month == 12 * v.viewing_year + v.viewing_month - 1
            &&& 1 <= w.viewing_month <= 12
            &&& w == (PickerView { viewing_year: w.viewing_year, viewing_month: w.viewing_month, ..v })
        }),
        !prev_arrow(v.calendar_rect).contains_spec(p) && next_arrow(v.calendar_rect).contains_spec(p)
            ==> (calendar_click(v, p) matches Some((w, r)) && {
            &&& r is None
            &&& 12 * w.viewing_year + w.viewing_month == 12 * v.viewing_year + v.viewing_month + 1
            &&& 1 <= w.viewing_month <= 12
            &&& w == (PickerView { viewing_year: w.viewing_year, viewing_month: w.viewing_month, ..v })
        }),
{
}

/// Going to the next month and back shows the month shown before.
pub proof fn law_month_navigation_undoes(v: PickerView)
    requires
        1 <= v.viewing_month <= 12,
        v.viewing_year < i32::MAX,
    ensures
        prev_month(next_month(v)) == v,
        next_month(v).viewing_month >= 1 && next_month(v).viewing_month <= 12,
{
}

} // verus!
