//! A colour picker: its popup's regions, dragging in them, and the hex
//! field with its cursor.
//!
//! Turning a drag position into hue, saturation and value, and those into
//! red, green and blue, is done by the picker's owner in floating point;
//! the picker reports which drag happened and where, and takes the
//! resulting colour back.

use vstd::prelude::*;
use crate::geometry::{Point, Rect, Size, WidgetId, fits_i32};
use crate::event::{Event, EventResult, Key, MouseButton};
use crate::widget::WidgetState;

verus! {

#[derive(Clone, Copy, Debug, PartialEq, Eq, Structural)]
pub enum ColorPickerStyle {
    Compact,
    Wheel,
    Square,
    Sliders,
}

/// A colour with 8-bit red, green, blue and alpha.
#[derive(Clone, Copy, Debug, PartialEq, Eq, Structural)]
pub struct Rgba {
    pub r: u8,
    pub g: u8,
    pub b: u8,
    pub a: u8,
}

/// The opaque colour `0xRRGGBB`.
pub open spec fn rgb_of(v: u32) -> Rgba {
    Rgba { r: ((v / 65536) % 256) as u8, g: ((v / 256) % 256) as u8, b: (v % 256) as u8, a: 255 }
}

impl Rgba {
    /// The opaque colour `0xRRGGBB` (higher bits are ignored).
    pub fn from_hex(v: u32) -> (c: Rgba)
        ensures
            c == rgb_of(v),
    {
        Rgba { r: ((v / 65536) % 256) as u8, g: ((v / 256) % 256) as u8, b: (v % 256) as u8, a: 255 }
    }
}

pub open spec fn is_hex_digit(c: char) -> bool {
    ('0' <= c <= '9') || ('a' <= c <= 'f') || ('A' <= c <= 'F')
}

pub open spec fn hex_digit_value(c: char) -> int {
    if '0' <= c <= '9' {
        c as int - '0' as int
    } else if 'a' <= c <= 'f' {
        c as int - 'a' as int + 10
    } else {
        c as int - 'A' as int + 10
    }
}

/// The number the hex digits `s` write.
pub open spec fn hex_value(s: Seq<char>) -> int
    decreases s.len(),
{
    if s.len() == 0 { 0 } else { hex_value(s.drop_last()) * 16 + hex_digit_value(s.last()) }
}

pub open spec fn all_hex(s: Seq<char>) -> bool {
    forall|i: int| 0 <= i < s.len() ==> is_hex_digit(#[trigger] s[i])
}

/// What `u32::from_str_radix(s, 16)` gives: hex digits after an optional
/// `+`, at least one, without overflow.
pub open spec fn parse_hex_spec(s: Seq<char>) -> Option<u32> {
    let d = if s.len() > 0 && s[0] == '+' { s.drop_first() } else { s };
    if d.len() == 0 || !all_hex(d) || hex_value(d) > u32::MAX { None } else { Some(hex_value(d) as u32) }
}

proof fn lemma_hex_grow(d: Seq<char>, k: int)
    requires
        0 <= k <= d.len(),
        all_hex(d),
    ensures
        hex_value(d.subrange(0, k)) <= hex_value(d),
        hex_value(d.subrange(0, k)) >= 0,
    decreases d.len() - k,
{
    if k < d.len() {
        lemma_hex_grow(d, k + 1);
        let p = d.subrange(0, k + 1);
        assert(p.drop_last() =~= d.subrange(0, k));
        assert(is_hex_digit(d[k]));
    } else {
        assert(d.subrange(0, k) =~= d);
        lemma_hex_nonneg(d);
    }
}

proof fn lemma_hex_nonneg(d: Seq<char>)
    requires
        all_hex(d),
    ensures
        hex_value(d) >= 0,
    decreases d.len(),
{
    if d.len() > 0 {
        lemma_hex_nonneg(d.drop_last());
    }
}

/// Reads hex digits the way `u32::from_str_radix(_, 16)` does.
pub fn parse_hex(s: &Vec<char>) -> (r: Option<u32>)
    ensures
        r == parse_hex_spec(s@),
{
    let ghost sv = s@;
    let start: usize = if s.len() > 0 && s[0] == '+' { 1 } else { 0 };
    let ghost d = if sv.len() > 0 && sv[0] == '+' { sv.drop_first() } else { sv };
    assert(d =~= sv.subrange(start as int, sv.len() as int));
    assert(d.subrange(0, 0) =~= Seq::<char>::empty());
    if start == s.len() {
        return None;
    }
    let mut acc: u64 = 0;
    let mut i: usize = start;
    while i < s.len()
        invariant
            s@ == sv,
            start == 0 || start == 1,
            start <= i <= s@.len(),
            d == sv.subrange(start as int, sv.len() as int),
            d == (if sv.len() > 0 && sv[0] == '+' { sv.drop_first() } else { sv }),
            forall|j: int| 0 <= j < i - start ==> is_hex_digit(#[trigger] d[j]),
            acc == hex_value(d.subrange(0, i - start)),
            acc <= u32::MAX,
        decreases s@.len() - i,
    {
        let c = s[i];
        let v: u64 = if '0' <= c && c <= '9' {
            (c as u64) - ('0' as u64)
        } else if 'a' <= c && c <= 'f' {
            (c as u64) - ('a' as u64) + 10
        } else if 'A' <= c && c <= 'F' {
            (c as u64) - ('A' as u64) + 10
        } else {
            assert(d[i - start] == c);
            assert(!is_hex_digit(d[i - start as int]));
            assert(!all_hex(d));
            return None;
        };
        let ghost pre = d.subrange(0, i - start);
        let ghost next = d.subrange(0, i + 1 - start);
        assert(next.drop_last() =~= pre);
        assert(next.last() == c);
        assert(hex_value(next) == hex_value(pre) * 16 + hex_digit_value(c));
        acc = acc * 16 + v;
        i = i + 1;
        assert(acc == hex_value(d.subrange(0, i - start)));
        if acc > 0xffff_ffff {
            proof {
                if all_hex(d) {
                    lemma_hex_grow(d, i - start);
                }
            }
            return None;
        }
    }
    assert(d.subrange(0, d.len() as int) =~= d);
    Some(acc as u32)
}

/// The upper-case hex digit for `d < 16`.
pub open spec fn hex_char(d: int) -> char {
    if d < 10 { ('0' as int + d) as char } else { ('A' as int + d - 10) as char }
}

/// Two upper-case hex digits for a byte.
pub open spec fn hex2(n: u8) -> Seq<char> {
    seq![hex_char(n as int / 16), hex_char(n as int % 16)]
}

/// `RRGGBB` in upper-case hex.
pub open spec fn hex_text(c: Rgba) -> Seq<char> {
    hex2(c.r) + hex2(c.g) + hex2(c.b)
}

fn hex_digit_char(d: u8) -> (c: char)
    requires
        d < 16,
    ensures
        c == hex_char(d as int),
{
    let table = ['0', '1', '2', '3', '4', '5', '6', '7', '8', '9', 'A', 'B', 'C', 'D', 'E', 'F'];
    table[d as usize]
}

fn hex_chars(c: Rgba) -> (v: Vec<char>)
    ensures
        v@ == hex_text(c),
{
    let mut v: Vec<char> = Vec::new();
    v.push(hex_digit_char(c.r / 16));
    v.push(hex_digit_char(c.r % 16));
    v.push(hex_digit_char(c.g / 16));
    v.push(hex_digit_char(c.g % 16));
    v.push(hex_digit_char(c.b / 16));
    v.push(hex_digit_char(c.b % 16));
    assert(v@ =~= hex_text(c));
    v
}

/// The colour's hex text, `RRGGBB`.
pub fn format_hex(c: Rgba) -> (s: String)
    ensures
        s@ == hex_text(c),
{
    crate::text::string_of(&hex_chars(c))
}

pub open spec fn ascii_upper(c: char) -> char {
    if 'a' <= c <= 'z' { ((c as int) - 32) as char } else { c }
}

/// What a drag in the popup asks the owner to compute, in pixels from the
/// region's top left: saturation and value from the square, the hue or the
/// alpha from their bars; or the colour typed into the hex field.
#[derive(Clone, Copy, Debug, PartialEq, Eq, Structural)]
pub enum ColorAction {
    Nothing,
    PickSv { dx: i32, dy: i32 },
    PickHue { dx: i32 },
    PickAlpha { dx: i32 },
    FromHex(Rgba),
}

/// The mathematical state of a [`ColorPicker`].
pub struct ColorPickerView {
    pub state: WidgetState,
    pub color: Rgba,
    pub style: ColorPickerStyle,
    pub show_alpha: bool,
    pub popup_visible: bool,
    pub dragging_hue: bool,
    pub dragging_sv: bool,
    pub dragging_alpha: bool,
    pub hover_preview: bool,
    pub hex: Seq<char>,
    pub hex_focused: bool,
    pub hex_cursor: usize,
}

/// The swatch a compact picker shows, 32 pixels high.
pub open spec fn preview_rect(b: Rect) -> Rect {
    Rect { x: b.x, y: b.y, width: b.width, height: 32 }
}

/// The popup, 250 by 300, 4 pixels below the picker.
pub open spec fn popup_rect(b: Rect) -> Rect {
    Rect { x: b.x, y: (b.y + b.height + 4) as i32, width: 250, height: 300 }
}

/// Top of the popup's contents.
pub open spec fn content_top(b: Rect) -> int {
    b.y + b.height + 14
}

pub open spec fn sv_rect(b: Rect) -> Rect {
    Rect { x: (b.x + 10) as i32, y: content_top(b) as i32, width: 200, height: 200 }
}

pub open spec fn hue_rect(b: Rect) -> Rect {
    Rect { x: (b.x + 10) as i32, y: (content_top(b) + 210) as i32, width: 200, height: 20 }
}

pub open spec fn alpha_rect(b: Rect) -> Rect {
    Rect { x: (b.x + 10) as i32, y: (content_top(b) + 240) as i32, width: 200, height: 20 }
}

pub open spec fn hex_rect(b: Rect, show_alpha: bool) -> Rect {
    Rect { x: (b.x + 10) as i32, y: (content_top(b) + if show_alpha { 270int } else { 240int }) as i32, width: 80, height: 24 }
}

/// A bar takes clicks up to 5 pixels above and below it, and at its right
/// edge.
pub open spec fn near_bar(r: Rect, p: Point) -> bool {
    r.contains_spec(p) || (p.y >= r.y - 5 && p.y <= r.y + r.height + 5 && p.x >= r.x && p.x <= r.x + r.width)
}

pub open spec fn let_go(v: ColorPickerView) -> ColorPickerView {
    ColorPickerView { dragging_hue: false, dragging_sv: false, dragging_alpha: false, ..v }
}

/// The colour after reading the hex field, when it holds a number.
pub open spec fn hex_update(v: ColorPickerView) -> (ColorPickerView, ColorAction) {
    match parse_hex_spec(v.hex) {
        Some(n) => (ColorPickerView { color: rgb_of(n), ..v }, ColorAction::FromHex(rgb_of(n))),
        None => (v, ColorAction::Nothing),
    }
}

/// A left press or release at `p`.
pub open spec fn color_button(v: ColorPickerView, p: Point, pressed: bool) -> (ColorPickerView, EventResult, ColorAction) {
    let b = v.state.bounds;
    let tail = (if !pressed { let_go(v) } else { v }, EventResult::Ignored, ColorAction::Nothing);
    if v.style == ColorPickerStyle::Compact && preview_rect(b).contains_spec(p) && pressed {
        (ColorPickerView { popup_visible: !v.popup_visible, ..v }, EventResult::Consumed, ColorAction::Nothing)
    } else if v.popup_visible {
        if popup_rect(b).contains_spec(p) {
            let sv = sv_rect(b);
            let hue = hue_rect(b);
            let alpha = alpha_rect(b);
            if sv.contains_spec(p) {
                if pressed {
                    (
                        ColorPickerView { dragging_sv: true, ..v },
                        EventResult::Consumed,
                        ColorAction::PickSv { dx: (p.x - sv.x) as i32, dy: (p.y - sv.y) as i32 },
                    )
                } else {
                    (v, EventResult::Consumed, ColorAction::Nothing)
                }
            } else if near_bar(hue, p) {
                if pressed {
                    (ColorPickerView { dragging_hue: true, ..v }, EventResult::Consumed, ColorAction::PickHue { dx: (p.x - hue.x) as i32 })
                } else {
                    (v, EventResult::Consumed, ColorAction::Nothing)
                }
            } else if v.show_alpha && near_bar(alpha, p) {
                if pressed {
                    (
                        ColorPickerView { dragging_alpha: true, ..v },
                        EventResult::Consumed,
                        ColorAction::PickAlpha { dx: (p.x - alpha.x) as i32 },
                    )
                } else {
                    (v, EventResult::Consumed, ColorAction::Nothing)
                }
            } else if hex_rect(b, v.show_alpha).contains_spec(p) && pressed {
                (ColorPickerView { hex_focused: true, ..v }, EventResult::Consumed, ColorAction::Nothing)
            } else {
                let v2 = ColorPickerView { hex_focused: false, ..v };
                (if !pressed { let_go(v2) } else { v2 }, EventResult::Ignored, ColorAction::Nothing)
            }
        } else if pressed {
            (ColorPickerView { popup_visible: false, ..v }, EventResult::Consumed, ColorAction::Nothing)
        } else {
            tail
        }
    } else {
        tail
    }
}

/// A pointer move to `p`: continues a drag in the open popup, else tracks
/// hovering over a compact picker's swatch.
pub open spec fn color_move(v: ColorPickerView, p: Point) -> (ColorPickerView, EventResult, ColorAction) {
    let b = v.state.bounds;
    if v.popup_visible && v.dragging_sv {
        (v, EventResult::Consumed, ColorAction::PickSv { dx: (p.x - sv_rect(b).x) as i32, dy: (p.y - sv_rect(b).y) as i32 })
    } else if v.popup_visible && v.dragging_hue {
        (v, EventResult::Consumed, ColorAction::PickHue { dx: (p.x - hue_rect(b).x) as i32 })
    } else if v.popup_visible && v.dragging_alpha && v.show_alpha {
        (v, EventResult::Consumed, ColorAction::PickAlpha { dx: (p.x - alpha_rect(b).x) as i32 })
    } else {
        (
            if v.style == ColorPickerStyle::Compact { ColorPickerView { hover_preview: preview_rect(b).contains_spec(p), ..v } } else { v },
            EventResult::Ignored,
            ColorAction::Nothing,
        )
    }
}

/// A key typed into the focused hex field: Backspace and Delete remove a
/// digit before or after the cursor, Left and Right move it, a hex digit
/// is inserted in upper case while the field holds fewer than six; each
/// edit reads the field.
pub open spec fn color_key(v: ColorPickerView, key: Key) -> (ColorPickerView, EventResult, ColorAction) {
    let c = v.hex_cursor as int;
    match key {
        Key::Backspace => if c > 0 {
            let (v2, a) = hex_update(ColorPickerView { hex: v.hex.remove(c - 1), hex_cursor: (c - 1) as usize, ..v });
            (v2, EventResult::Consumed, a)
        } else {
            (v, EventResult::Consumed, ColorAction::Nothing)
        },
        Key::Delete => if c < v.hex.len() {
            let (v2, a) = hex_update(ColorPickerView { hex: v.hex.remove(c), ..v });
            (v2, EventResult::Consumed, a)
        } else {
            (v, EventResult::Consumed, ColorAction::Nothing)
        },
        Key::Left => (ColorPickerView { hex_cursor: if c > 0 { (c - 1) as usize } else { v.hex_cursor }, ..v }, EventResult::Consumed, ColorAction::Nothing),
        Key::Right => (
            ColorPickerView { hex_cursor: if c < v.hex.len() { (c + 1) as usize } else { v.hex_cursor }, ..v },
            EventResult::Consumed,
            ColorAction::Nothing,
        ),
        Key::Character(ch) => if v.hex.len() < 6 && is_hex_digit(ch) {
            let (v2, a) = hex_update(ColorPickerView { hex: v.hex.insert(c, ascii_upper(ch)), hex_cursor: (c + 1) as usize, ..v });
            (v2, EventResult::Consumed, a)
        } else {
            (v, EventResult::Consumed, ColorAction::Nothing)
        },
        _ => (v, EventResult::Ignored, ColorAction::Nothing),
    }
}

/// The picker's answer to an event: the new state, the result, and what
/// the owner is to compute or take over.
pub open spec fn color_event(v: ColorPickerView, e: Event) -> (ColorPickerView, EventResult, ColorAction) {
    if !v.state.enabled || !v.state.visible {
        (v, EventResult::Ignored, ColorAction::Nothing)
    } else {
        match e {
            Event::MouseButton(mb) => if mb.button == MouseButton::Left {
                color_button(v, mb.position, mb.pressed)
            } else {
                (v, EventResult::Ignored, ColorAction::Nothing)
            },
            Event::MouseMove(mm) => color_move(v, mm.position),
            Event::KeyPress(k) => if v.hex_focused { color_key(v, k.key) } else { (v, EventResult::Ignored, ColorAction::Nothing) },
            _ => (v, EventResult::Ignored, ColorAction::Nothing),
        }
    }
}

/// The popup's coordinates, and the offsets into it of a pointer at `p`,
/// are `i32`s.
pub open spec fn popup_fits(b: Rect, p: Point) -> bool {
    &&& fits_i32(b.y + b.height)
    &&& fits_i32(b.y + b.height + 309)
    &&& fits_i32(b.x + 210)
    &&& fits_i32(p.x - (b.x + 10))
    &&& fits_i32(p.y - content_top(b))
}

pub open spec fn color_event_ok(v: ColorPickerView, e: Event) -> bool {
    match e {
        Event::MouseButton(mb) => v.popup_visible ==> popup_fits(v.state.bounds, mb.position),
        Event::MouseMove(mm) => v.popup_visible ==> popup_fits(v.state.bounds, mm.position),
        _ => true,
    }
}

/// The field holds at most six hex digits and the cursor is within it.
pub open spec fn color_wf(v: ColorPickerView) -> bool {
    &&& v.hex.len() <= 6
    &&& v.hex_cursor <= v.hex.len()
}

fn upper_ascii(ch: char) -> (r: char)
    ensures
        r == ascii_upper(ch),
{
    if 'a' <= ch && ch <= 'z' {
        ((ch as u8) - 32) as char
    } else {
        ch
    }
}

/// A colour swatch with a popup to pick hue, saturation, value, alpha or
/// a hex code.
pub struct ColorPicker {
    state: WidgetState,
    color: Rgba,
    style: ColorPickerStyle,
    show_alpha: bool,
    popup_visible: bool,
    dragging_hue: bool,
    dragging_sv: bool,
    dragging_alpha: bool,
    hover_preview: bool,
    hex_input: Vec<char>,
    hex_focused: bool,
    hex_cursor: usize,
}

impl ColorPicker {
    pub closed spec fn view(&self) -> ColorPickerView {
        ColorPickerView {
            state: self.state,
            color: self.color,
            style: self.style,
            show_alpha: self.show_alpha,
            popup_visible: self.popup_visible,
            dragging_hue: self.dragging_hue,
            dragging_sv: self.dragging_sv,
            dragging_alpha: self.dragging_alpha,
            hover_preview: self.hover_preview,
            hex: self.hex_input@,
            hex_focused: self.hex_focused,
            hex_cursor: self.hex_cursor,
        }
    }

    pub open spec fn wf(&self) -> bool {
        color_wf(self.view())
    }

    /// An opaque red square-style picker with an alpha bar, popup closed.
    pub fn new(id: WidgetId) -> (c: ColorPicker)
        ensures
            c.wf(),
            c.view() == (ColorPickerView {
                state: WidgetState::new_spec(id),
                color: Rgba { r: 255, g: 0, b: 0, a: 255 },
                style: ColorPickerStyle::Square,
                show_alpha: true,
                popup_visible: false,
                dragging_hue: false,
                dragging_sv: false,
                dragging_alpha: false,
                hover_preview: false,
                hex: hex_text(Rgba { r: 255, g: 0, b: 0, a: 255 }),
                hex_focused: false,
                hex_cursor: 6,
            }),
    {
        let red = Rgba::from_hex(0xFF0000);
        ColorPicker {
            state: WidgetState::new(id),
            color: red,
            style: ColorPickerStyle::Square,
            show_alpha: true,
            popup_visible: false,
            dragging_hue: false,
            dragging_sv: false,
            dragging_alpha: false,
            hover_preview: false,
            hex_input: hex_chars(red),
            hex_focused: false,
            hex_cursor: 6,
        }
    }

    /// Shows `color`; the hex field follows.
    pub fn with_color(self, color: Rgba) -> (c: ColorPicker)
        requires
            self.wf(),
        ensures
            c.wf(),
            c.view() == (ColorPickerView { color, hex: hex_text(color), ..self.view() }),
    {
        ColorPicker { color, hex_input: hex_chars(color), ..self }
    }

    pub fn with_style(self, style: ColorPickerStyle) -> (c: ColorPicker)
        ensures
            c.view() == (ColorPickerView { style, ..self.view() }),
    {
        ColorPicker { style, ..self }
    }

    pub fn with_alpha(self, show_alpha: bool) -> (c: ColorPicker)
        ensures
            c.view() == (ColorPickerView { show_alpha, ..self.view() }),
    {
        ColorPicker { show_alpha, ..self }
    }

    pub fn get_color(&self) -> (c: Rgba)
        ensures
            c == self.view().color,
    {
        self.color
    }

    /// Shows `color`, which is to be reported as the new colour.
    pub fn set_color(&mut self, color: Rgba)
        requires
            old(self).wf(),
        ensures
            final(self).wf(),
            final(self).view() == (ColorPickerView { color, hex: hex_text(color), ..old(self).view() }),
    {
        self.color = color;
        self.hex_input = hex_chars(color);
    }

    /// Takes red, green and blue computed from the picked hue, saturation
    /// and value, keeping the alpha; returns the colour to report.
    pub fn apply_rgb(&mut self, r: u8, g: u8, b: u8) -> (c: Rgba)
        requires
            old(self).wf(),
        ensures
            final(self).wf(),
            c == (Rgba { r, g, b, a: old(self).view().color.a }),
            final(self).view() == (ColorPickerView { color: c, hex: hex_text(c), ..old(self).view() }),
    {
        let c = Rgba { r, g, b, a: self.color.a };
        self.color = c;
        self.hex_input = hex_chars(c);
        c
    }

    /// Takes the alpha computed from the picked position; returns the
    /// colour to report.
    pub fn set_alpha(&mut self, a: u8) -> (c: Rgba)
        ensures
            c == (Rgba { a, ..old(self).view().color }),
            final(self).view() == (ColorPickerView { color: c, ..old(self).view() }),
    {
        self.color = Rgba { a, ..self.color };
        self.color
    }

    fn update_from_hex(&mut self) -> (a: ColorAction)
        ensures
            (final(self).view(), a) == hex_update(old(self).view()),
    {
        match parse_hex(&self.hex_input) {
            Some(n) => {
                let c = Rgba::from_hex(n);
                self.color = c;
                ColorAction::FromHex(c)
            },
            None => ColorAction::Nothing,
        }
    }

    #[verifier::rlimit(40)]
    fn handle_key(&mut self, key: Key) -> (r: (EventResult, ColorAction))
        requires
            old(self).wf(),
        ensures
            final(self).wf(),
            (final(self).view(), r.0, r.1) == color_key(old(self).view(), key),
    {
        let c = self.hex_cursor;
        match key {
            Key::Backspace => {
                if c > 0 {
                    self.hex_input.remove(c - 1);
                    self.hex_cursor = c - 1;
                    let a = self.update_from_hex();
                    (EventResult::Consumed, a)
                } else {
                    (EventResult::Consumed, ColorAction::Nothing)
                }
            },
            Key::Delete => {
                if c < self.hex_input.len() {
                    self.hex_input.remove(c);
                    let a = self.update_from_hex();
                    (EventResult::Consumed, a)
                } else {
                    (EventResult::Consumed, ColorAction::Nothing)
                }
            },
            Key::Left => {
                if c > 0 {
                    self.hex_cursor = c - 1;
                }
                (EventResult::Consumed, ColorAction::Nothing)
            },
            Key::Right => {
                if c < self.hex_input.len() {
                    self.hex_cursor = c + 1;
                }
                (EventResult::Consumed, ColorAction::Nothing)
            },
            Key::Character(ch) => {
                let hex = ('0' <= ch && ch <= '9') || ('a' <= ch && ch <= 'f') || ('A' <= ch && ch <= 'F');
                if self.hex_input.len() < 6 && hex {
                    let up = upper_ascii(ch);
                    self.hex_input.insert(c, up);
                    self.hex_cursor = c + 1;
                    let a = self.update_from_hex();
                    (EventResult::Consumed, a)
                } else {
                    (EventResult::Consumed, ColorAction::Nothing)
                }
            },
            _ => (EventResult::Ignored, ColorAction::Nothing),
        }
    }

    fn handle_button(&mut self, p: Point, pressed: bool) -> (r: (EventResult, ColorAction))
        requires
            old(self).view().popup_visible ==> popup_fits(old(self).view().state.bounds, p),
        ensures
            (final(self).view(), r.0, r.1) == color_button(old(self).view(), p, pressed),
    {
        let b = self.state.bounds;
        let compact = match self.style {
            ColorPickerStyle::Compact => true,
            _ => false,
        };
        if compact && Rect::new(b.x, b.y, b.width, 32).contains(p) && pressed {
            self.popup_visible = !self.popup_visible;
            return (EventResult::Consumed, ColorAction::Nothing);
        }
        if self.popup_visible {
            let popup = Rect::new(b.x, b.y + b.height + 4, 250, 300);
            if popup.contains(p) {
                let cx = popup.x + 10;
                let mut y = popup.y + 10;
                let sv = Rect::new(cx, y, 200, 200);
                if sv.contains(p) {
                    if pressed {
                        self.dragging_sv = true;
                        return (EventResult::Consumed, ColorAction::PickSv { dx: p.x - sv.x, dy: p.y - sv.y });
                    }
                    return (EventResult::Consumed, ColorAction::Nothing);
                }
                y = y + 210;
                let hue = Rect::new(cx, y, 200, 20);
                if hue.contains(p) || (p.y >= hue.y - 5 && p.y <= hue.y + 20 + 5 && p.x >= hue.x && p.x <= hue.x + 200) {
                    if pressed {
                        self.dragging_hue = true;
                        return (EventResult::Consumed, ColorAction::PickHue { dx: p.x - hue.x });
                    }
                    return (EventResult::Consumed, ColorAction::Nothing);
                }
                y = y + 30;
                if self.show_alpha {
                    let alpha = Rect::new(cx, y, 200, 20);
                    if alpha.contains(p) || (p.y >= alpha.y - 5 && p.y <= alpha.y + 20 + 5 && p.x >= alpha.x && p.x <= alpha.x + 200) {
                        if pressed {
                            self.dragging_alpha = true;
                            return (EventResult::Consumed, ColorAction::PickAlpha { dx: p.x - alpha.x });
                        }
                        return (EventResult::Consumed, ColorAction::Nothing);
                    }
                    y = y + 30;
                }
                let hex = Rect::new(cx, y, 80, 24);
                if hex.contains(p) && pressed {
                    self.hex_focused = true;
                    return (EventResult::Consumed, ColorAction::Nothing);
                } else {
                    self.hex_focused = false;
                }
            } else if pressed {
                self.popup_visible = false;
                return (EventResult::Consumed, ColorAction::Nothing);
            }
        }
        if !pressed {
            self.dragging_hue = false;
            self.dragging_sv = false;
            self.dragging_alpha = false;
        }
        (EventResult::Ignored, ColorAction::Nothing)
    }

    fn handle_move(&mut self, p: Point) -> (r: (EventResult, ColorAction))
        requires
            old(self).view().popup_visible ==> popup_fits(old(self).view().state.bounds, p),
        ensures
            (final(self).view(), r.0, r.1) == color_move(old(self).view(), p),
    {
        let b = self.state.bounds;
        if self.popup_visible {
            let cx = b.x + 10;
            let top = b.y + b.height + 4 + 10;
            if self.dragging_sv {
                return (EventResult::Consumed, ColorAction::PickSv { dx: p.x - cx, dy: p.y - top });
            }
            if self.dragging_hue {
                return (EventResult::Consumed, ColorAction::PickHue { dx: p.x - cx });
            }
            if self.dragging_alpha && self.show_alpha {
                return (EventResult::Consumed, ColorAction::PickAlpha { dx: p.x - cx });
            }
        }
        match self.style {
            ColorPickerStyle::Compact => {
                self.hover_preview = Rect::new(b.x, b.y, b.width, 32).contains(p);
            },
            _ => {},
        }
        (EventResult::Ignored, ColorAction::Nothing)
    }

    /// Handles an event; returns the result and what the owner is to
    /// compute or take over. See [`color_event`].
    pub fn handle_event(&mut self, event: &Event) -> (r: (EventResult, ColorAction))
        requires
            old(self).wf(),
            color_event_ok(old(self).view(), *event),
        ensures
            final(self).wf(),
            (final(self).view(), r.0, r.1) == color_event(old(self).view(), *event),
    {
        if !self.state.enabled || !self.state.visible {
            return (EventResult::Ignored, ColorAction::Nothing);
        }
        match event {
            Event::MouseButton(mb) => {
                match mb.button {
                    MouseButton::Left => self.handle_button(mb.position, mb.pressed),
                    _ => (EventResult::Ignored, ColorAction::Nothing),
                }
            },
            Event::MouseMove(mm) => self.handle_move(mm.position),
            Event::KeyPress(k) => {
                if self.hex_focused {
                    self.handle_key(k.key)
                } else {
                    (EventResult::Ignored, ColorAction::Nothing)
                }
            },
            _ => (EventResult::Ignored, ColorAction::Nothing),
        }
    }

    /// A compact picker asks for its 32-pixel swatch and a 12-pixel arrow;
    /// the others for 250 by 300.
    pub fn measure(&self) -> (s: Size)
        ensures
            self.view().style == ColorPickerStyle::Compact ==> s == (Size { width: 44, height: 32 }),
            self.view().style != ColorPickerStyle::Compact ==> s == (Size { width: 250, height: 300 }),
    {
        match self.style {
            ColorPickerStyle::Compact => Size::new(32 + 12, 32),
            _ => Size::new(250, 300),
        }
    }

    pub fn layout(&mut self, rect: Rect)
        ensures
            final(self).view() == (ColorPickerView { state: WidgetState { bounds: rect, ..old(self).view().state }, ..old(self).view() }),
    {
        self.state.bounds = rect;
    }

    /// The hex field's text.
    pub fn hex_input(&self) -> (s: String)
        ensures
            s@ == self.view().hex,
    {
        crate::text::string_of(&self.hex_input)
    }

    pub fn hex_cursor(&self) -> (c: usize)
        ensures
            c == self.view().hex_cursor,
    {
        self.hex_cursor
    }

    pub fn is_hex_focused(&self) -> (b: bool)
        ensures
            b == self.view().hex_focused,
    {
        self.hex_focused
    }

    pub fn is_popup_visible(&self) -> (b: bool)
        ensures
            b == self.view().popup_visible,
    {
        self.popup_visible
    }

    pub fn is_preview_hovered(&self) -> (b: bool)
        ensures
            b == self.view().hover_preview,
    {
        self.hover_preview
    }

    pub fn id(&self) -> (r: WidgetId)
        ensures
            r == self.view().state.id,
    {
        self.state.id
    }

    pub fn bounds(&self) -> (r: Rect)
        ensures
            r == self.view().state.bounds,
    {
        self.state.bounds
    }

    pub fn set_bounds(&mut self, bounds: Rect)
        ensures
            final(self).view() == (ColorPickerView { state: WidgetState { bounds, ..old(self).view().state }, ..old(self).view() }),
    {
        self.state.bounds = bounds;
    }

    pub fn is_visible(&self) -> (b: bool)
        ensures
            b == self.view().state.visible,
    {
        self.state.visible
    }

    pub fn set_visible(&mut self, visible: bool)
        ensures
            final(self).view() == (ColorPickerView { state: WidgetState { visible, ..old(self).view().state }, ..old(self).view() }),
    {
        self.state.visible = visible;
    }

    pub fn is_enabled(&self) -> (b: bool)
        ensures
            b == self.view().state.enabled,
    {
        self.state.enabled
    }

    pub fn set_enabled(&mut self, enabled: bool)
        ensures
            final(self).view() == (ColorPickerView { state: WidgetState { enabled, ..old(self).view().state }, ..old(self).view() }),
    {
        self.state.enabled = enabled;
    }

    pub fn is_focused(&self) -> (b: bool)
        ensures
            b == self.view().state.focused,
    {
        self.state.focused
    }

    pub fn set_focused(&mut self, focused: bool)
        ensures
            final(self).view() == (ColorPickerView { state: WidgetState { focused, ..old(self).view().state }, ..old(self).view() }),
    {
        self.state.focused = focused;
    }

    pub fn can_focus(&self) -> (b: bool)
        ensures
            b == (self.view().state.enabled && self.view().state.visible),
    {
        self.state.enabled && self.state.visible
    }
}

/// The hex field reads back the colour it shows, made opaque.
pub proof fn law_hex_round_trip(c: Rgba)
    ensures
        parse_hex_spec(hex_text(c)) == Some(((c.r as u32) * 65536 + (c.g as u32) * 256 + (c.b as u32)) as u32),
        rgb_of(((c.r as u32) * 65536 + (c.g as u32) * 256 + (c.b as u32)) as u32) == (Rgba { a: 255, ..c }),
{
    let s = hex_text(c);
    assert forall|i: int| 0 <= i < s.len() implies is_hex_digit(#[trigger] s[i]) by {}
    assert(s.len() == 6);
    let d1 = s.drop_last();
    let d2 = d1.drop_last();
    let d3 = d2.drop_last();
    let d4 = d3.drop_last();
    let d5 = d4.drop_last();
    let d6 = d5.drop_last();
    assert(d6 =~= Seq::<char>::empty());
    assert(d5 =~= seq![s[0]]);
    assert(d4 =~= seq![s[0], s[1]]);
    assert(d3 =~= seq![s[0], s[1], s[2]]);
    assert(d2 =~= seq![s[0], s[1], s[2], s[3]]);
    assert(d1 =~= seq![s[0], s[1], s[2], s[3], s[4]]);
    assert(hex_value(d6) == 0);
    assert(hex_value(d5) == hex_digit_value(s[0]));
    assert(hex_value(d4) == hex_value(d5) * 16 + hex_digit_value(s[1]));
    assert(hex_value(d3) == hex_value(d4) * 16 + hex_digit_value(s[2]));
    assert(hex_value(d2) == hex_value(d3) * 16 + hex_digit_value(s[3]));
    assert(hex_value(d1) == hex_value(d2) * 16 + hex_digit_value(s[4]));
    assert(hex_value(s) == hex_value(d1) * 16 + hex_digit_value(s[5]));
    let v: int = (c.r as u32) * 65536 + (c.g as u32) * 256 + (c.b as u32);
    assert(v / 65536 % 256 == c.r && v / 256 % 256 == c.g && v % 256 == c.b) by (nonlinear_arith)
        requires
            v == (c.r as u32) * 65536 + (c.g as u32) * 256 + (c.b as u32),
            c.r < 256,
            c.g < 256,
            c.b < 256,
    {}
}

} // verus!
