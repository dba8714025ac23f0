//! A dialog box: a title bar that drags it and closes it, a message, and a
//! centred row of buttons that answer it.

use vstd::prelude::*;
use crate::geometry::{Point, Rect, Size, WidgetId, fits_i32, trunc_div};
use crate::event::{Event, EventResult, MouseButton};
use crate::status_bar::{byte_len, utf8_len};
use crate::widget::WidgetState;

verus! {

broadcast use vstd::string::group_string_axioms;

#[derive(Clone, Copy, Debug, PartialEq, Eq, Structural)]
pub enum DialogType {
    Info,
    Warning,
    Error,
    Question,
    Custom,
}

#[derive(Clone, Copy, Debug, PartialEq, Eq, Structural)]
pub enum DialogButton {
    Okay,
    Cancel,
    Yes,
    No,
    Close,
    Custom(u32),
}

/// Height of the title bar.
pub const TITLE_HEIGHT: i32 = 30;
/// Size of a button.
pub const BUTTON_HEIGHT: i32 = 30;
pub const BUTTON_WIDTH: i32 = 80;

/// The title bar of a dialog at `b`.
pub open spec fn title_rect(b: Rect) -> Rect {
    Rect { x: b.x, y: b.y, width: b.width, height: 30 }
}

/// The close box at the right end of the title bar.
pub open spec fn close_rect(b: Rect) -> Rect {
    Rect { x: (b.x + b.width - 25) as i32, y: (b.y + 5) as i32, width: 20, height: 20 }
}

/// The message area between the title bar and the buttons.
pub open spec fn content_rect(b: Rect) -> Rect {
    Rect { x: b.x, y: (b.y + 30) as i32, width: b.width, height: (b.height - 80) as i32 }
}

/// The strip along the bottom holding the buttons.
pub open spec fn button_area(b: Rect) -> Rect {
    Rect { x: b.x, y: (b.y + b.height - 40) as i32, width: b.width, height: 40 }
}

/// Left edge of the first of `n` buttons: the row, 80-pixel buttons 10
/// apart, is centred in the dialog.
pub open spec fn buttons_start(b: Rect, n: int) -> int {
    b.x + trunc_div(b.width as int, 2) - trunc_div(n * 80 + (n - 1) * 10, 2)
}

/// Button `i` of `n`.
pub open spec fn button_rect(b: Rect, n: int, i: int) -> Rect {
    Rect { x: (buttons_start(b, n) + i * 90) as i32, y: (b.y + b.height - 35) as i32, width: 80, height: 30 }
}

/// Every coordinate of a dialog at `b` with `n` buttons is an `i32`.
pub open spec fn dialog_fits(b: Rect, n: int) -> bool {
    &&& fits_i32(b.x + b.width)
    &&& fits_i32(b.x + b.width - 25)
    &&& fits_i32(b.y + 5)
    &&& fits_i32(b.y + 30)
    &&& fits_i32(b.y + b.height)
    &&& fits_i32(b.y + b.height - 40)
    &&& fits_i32(b.height - 80)
    &&& fits_i32(b.x + trunc_div(b.width as int, 2))
    &&& n <= 20_000_000
    &&& fits_i32(buttons_start(b, n))
    &&& fits_i32(buttons_start(b, n) + n * 90)
}

/// The first button from `i` on containing `p`.
pub open spec fn button_hit(b: Rect, n: int, p: Point, i: int) -> Option<int>
    decreases n - i,
{
    if i < 0 || i >= n {
        None
    } else if button_rect(b, n, i).contains_spec(p) {
        Some(i)
    } else {
        button_hit(b, n, p, i + 1)
    }
}

/// The mathematical state of a [`Dialog`].
pub struct DialogView {
    pub state: WidgetState,
    pub title: Seq<char>,
    pub message: Seq<char>,
    pub dialog_type: DialogType,
    pub buttons: Seq<DialogButton>,
    pub labels: Seq<Seq<char>>,
    pub result: Option<DialogButton>,
    pub is_modal: bool,
    pub is_open: bool,
    pub is_dragging: bool,
    pub drag_offset: Point,
    pub hover_button: Option<usize>,
}

/// The dialog's answer to an event: the new state, the result, and the
/// button that was clicked, if any. Only an open dialog takes events. A
/// press on the close box closes it, one on the title bar starts dragging
/// it, one on a button answers and closes it; a modal dialog takes every
/// click.
pub open spec fn dialog_event(v: DialogView, e: Event) -> (DialogView, EventResult, Option<DialogButton>) {
    let b = v.state.bounds;
    let n = v.buttons.len() as int;
    if !v.state.visible || !v.state.enabled || !v.is_open {
        (v, EventResult::Ignored, None)
    } else {
        match e {
            Event::MouseMove(mm) => {
                let p = mm.position;
                if v.is_dragging {
                    let nb = Rect { x: (p.x - v.drag_offset.x) as i32, y: (p.y - v.drag_offset.y) as i32, ..b };
                    (DialogView { state: WidgetState { bounds: nb, ..v.state }, ..v }, EventResult::Consumed, None)
                } else {
                    let hit = button_hit(b, n, p, 0);
                    (DialogView { hover_button: match hit { Some(i) => Some(i as usize), None => None }, ..v }, EventResult::Ignored, None)
                }
            },
            Event::MouseButton(mb) => {
                let p = mb.position;
                let rest = if v.is_modal { EventResult::Consumed } else { EventResult::Ignored };
                if mb.button == MouseButton::Left && mb.pressed {
                    if close_rect(b).contains_spec(p) {
                        (DialogView { is_open: false, ..v }, EventResult::Consumed, None)
                    } else if title_rect(b).contains_spec(p) {
                        (
                            DialogView {
                                is_dragging: true,
                                drag_offset: Point { x: (p.x - b.x) as i32, y: (p.y - b.y) as i32 },
                                ..v
                            },
                            EventResult::Consumed,
                            None,
                        )
                    } else {
                        match button_hit(b, n, p, 0) {
                            Some(i) => (
                                DialogView { result: Some(v.buttons[i]), is_open: false, ..v },
                                EventResult::Consumed,
                                Some(v.buttons[i]),
                            ),
                            None => (v, rest, None),
                        }
                    }
                } else if mb.button == MouseButton::Left {
                    (DialogView { is_dragging: false, ..v }, rest, None)
                } else {
                    (v, rest, None)
                }
            },
            _ => (v, EventResult::Ignored, None),
        }
    }
}

/// The coordinates an event makes the dialog compute are `i32`s.
pub open spec fn dialog_event_ok(v: DialogView, e: Event) -> bool {
    (v.state.visible && v.state.enabled && v.is_open && (e is MouseMove || e is MouseButton)) ==> {
        &&& dialog_fits(v.state.bounds, v.buttons.len() as int)
        &&& match e {
            Event::MouseMove(mm) => v.is_dragging ==> fits_i32(mm.position.x - v.drag_offset.x) && fits_i32(
                mm.position.y - v.drag_offset.y,
            ),
            _ => true,
        }
    }
}

pub open spec fn standard_buttons(t: DialogType) -> Seq<DialogButton> {
    match t {
        DialogType::Info => seq![DialogButton::Okay],
        DialogType::Warning => seq![DialogButton::Okay, DialogButton::Cancel],
        DialogType::Error => seq![DialogButton::Close],
        DialogType::Question => seq![DialogButton::Yes, DialogButton::No],
        DialogType::Custom => seq![DialogButton::Okay],
    }
}

pub open spec fn standard_labels(t: DialogType) -> Seq<Seq<char>> {
    match t {
        DialogType::Info => seq!["OK"@],
        DialogType::Warning => seq!["OK"@, "Cancel"@],
        DialogType::Error => seq!["Close"@],
        DialogType::Question => seq!["Yes"@, "No"@],
        DialogType::Custom => seq!["OK"@],
    }
}

pub open spec fn button_kinds(v: Seq<(DialogButton, String)>) -> Seq<DialogButton> {
    v.map_values(|e: (DialogButton, String)| e.0)
}

pub open spec fn button_labels(v: Seq<(DialogButton, String)>) -> Seq<Seq<char>> {
    v.map_values(|e: (DialogButton, String)| e.1@)
}

/// A titled message box with buttons.
pub struct Dialog {
    state: WidgetState,
    title: String,
    message: String,
    dialog_type: DialogType,
    buttons: Vec<(DialogButton, String)>,
    result: Option<DialogButton>,
    is_modal: bool,
    is_open: bool,
    is_dragging: bool,
    drag_offset: Point,
    hover_button: Option<usize>,
}

impl Dialog {
    pub closed spec fn view(&self) -> DialogView {
        DialogView {
            state: self.state,
            title: self.title@,
            message: self.message@,
            dialog_type: self.dialog_type,
            buttons: button_kinds(self.buttons@),
            labels: button_labels(self.buttons@),
            result: self.result,
            is_modal: self.is_modal,
            is_open: self.is_open,
            is_dragging: self.is_dragging,
            drag_offset: self.drag_offset,
            hover_button: self.hover_button,
        }
    }

    /// A closed, modal information dialog with an OK button.
    pub fn new(id: WidgetId, title: &str, message: &str) -> (d: Dialog)
        ensures
            d.view() == (DialogView {
                state: WidgetState::new_spec(id),
                title: title@,
                message: message@,
                dialog_type: DialogType::Info,
                buttons: seq![DialogButton::Okay],
                labels: seq!["OK"@],
                result: None,
                is_modal: true,
                is_open: false,
                is_dragging: false,
                drag_offset: Point { x: 0, y: 0 },
                hover_button: None,
            }),
    {
        let mut buttons: Vec<(DialogButton, String)> = Vec::new();
        buttons.push((DialogButton::Okay, String::from_str("OK")));
        let d = Dialog {
            state: WidgetState::new(id),
            title: String::from_str(title),
            message: String::from_str(message),
            dialog_type: DialogType::Info,
            buttons,
            result: None,
            is_modal: true,
            is_open: false,
            is_dragging: false,
            drag_offset: Point::zero(),
            hover_button: None,
        };
        assert(d.view().buttons =~= seq![DialogButton::Okay]);
        assert(d.view().labels =~= seq!["OK"@]);
        d
    }

    pub fn with_type(self, dialog_type: DialogType) -> (d: Dialog)
        ensures
            d.view() == (DialogView { dialog_type, ..self.view() }),
    {
        Dialog { dialog_type, ..self }
    }

    pub fn with_buttons(self, buttons: Vec<(DialogButton, String)>) -> (d: Dialog)
        ensures
            d.view() == (DialogView { buttons: button_kinds(buttons@), labels: button_labels(buttons@), ..self.view() }),
    {
        Dialog { buttons, ..self }
    }

    /// The type's usual buttons: OK; OK and Cancel for a warning; Close for
    /// an error; Yes and No for a question.
    pub fn with_standard_buttons(self, dialog_type: DialogType) -> (d: Dialog)
        ensures
            d.view() == (DialogView {
                dialog_type,
                buttons: standard_buttons(dialog_type),
                labels: standard_labels(dialog_type),
                ..self.view()
            }),
    {
        let mut buttons: Vec<(DialogButton, String)> = Vec::new();
        match dialog_type {
            DialogType::Info | DialogType::Custom => {
                buttons.push((DialogButton::Okay, String::from_str("OK")));
            },
            DialogType::Warning => {
                buttons.push((DialogButton::Okay, String::from_str("OK")));
                buttons.push((DialogButton::Cancel, String::from_str("Cancel")));
            },
            DialogType::Error => {
                buttons.push((DialogButton::Close, String::from_str("Close")));
            },
            DialogType::Question => {
                buttons.push((DialogButton::Yes, String::from_str("Yes")));
                buttons.push((DialogButton::No, String::from_str("No")));
            },
        }
        assert(button_kinds(buttons@) =~= standard_buttons(dialog_type));
        assert(button_labels(buttons@) =~= standard_labels(dialog_type));
        Dialog { dialog_type, buttons, ..self }
    }

    /// Opens the dialog with no answer yet.
    pub fn show(&mut self)
        ensures
            final(self).view() == (DialogView { is_open: true, result: None, ..old(self).view() }),
    {
        self.is_open = true;
        self.result = None;
    }

    pub fn close(&mut self)
        ensures
            final(self).view() == (DialogView { is_open: false, ..old(self).view() }),
    {
        self.is_open = false;
    }

    pub fn is_open(&self) -> (b: bool)
        ensures
            b == self.view().is_open,
    {
        self.is_open
    }

    /// The button that answered the dialog, if any.
    pub fn result(&self) -> (r: Option<DialogButton>)
        ensures
            r == self.view().result,
    {
        self.result
    }

    pub fn get_title_rect(&self) -> (r: Rect)
        ensures
            r == title_rect(self.view().state.bounds),
    {
        let b = self.state.bounds;
        Rect::new(b.x, b.y, b.width, TITLE_HEIGHT)
    }

    pub fn get_content_rect(&self) -> (r: Rect)
        requires
            fits_i32(self.view().state.bounds.y + 30),
            fits_i32(self.view().state.bounds.height - 80),
        ensures
            r == content_rect(self.view().state.bounds),
    {
        let b = self.state.bounds;
        Rect::new(b.x, b.y + TITLE_HEIGHT, b.width, b.height - TITLE_HEIGHT - BUTTON_HEIGHT - 20)
    }

    pub fn get_button_area_rect(&self) -> (r: Rect)
        requires
            fits_i32(self.view().state.bounds.y + self.view().state.bounds.height),
            fits_i32(self.view().state.bounds.y + self.view().state.bounds.height - 40),
        ensures
            r == button_area(self.view().state.bounds),
    {
        let b = self.state.bounds;
        Rect::new(b.x, b.y + b.height - BUTTON_HEIGHT - 10, b.width, BUTTON_HEIGHT + 10)
    }

    /// Button `index` of the centred row.
    pub fn get_button_rect(&self, index: usize) -> (r: Rect)
        requires
            index < self.view().buttons.len(),
            dialog_fits(self.view().state.bounds, self.view().buttons.len() as int),
        ensures
            r == button_rect(self.view().state.bounds, self.view().buttons.len() as int, index as int),
    {
        let area = self.get_button_area_rect();
        let n = self.buttons.len() as i32;
        let total = n * BUTTON_WIDTH + (n - 1) * 10;
        let cx = area.x + area.width / 2;
        let start = cx - total / 2;
        assert(start + index * 90 <= buttons_start(self.view().state.bounds, n as int) + n * 90);
        Rect::new(start + (index as i32) * (BUTTON_WIDTH + 10), area.y + 5, BUTTON_WIDTH, BUTTON_HEIGHT)
    }

    fn find_button(&self, p: Point) -> (r: Option<usize>)
        requires
            dialog_fits(self.view().state.bounds, self.view().buttons.len() as int),
        ensures
            match r {
                Some(i) => button_hit(self.view().state.bounds, self.view().buttons.len() as int, p, 0) == Some(i as int)
                    && i < self.view().buttons.len(),
                None => button_hit(self.view().state.bounds, self.view().buttons.len() as int, p, 0) is None,
            },
    {
        let ghost b = self.view().state.bounds;
        let ghost n = self.view().buttons.len() as int;
        let mut i: usize = 0;
        while i < self.buttons.len()
            invariant
                i <= self.buttons@.len(),
                b == self.view().state.bounds,
                n == self.view().buttons.len(),
                dialog_fits(b, n),
                button_hit(b, n, p, 0) == button_hit(b, n, p, i as int),
            decreases self.buttons@.len() - i,
        {
            if self.get_button_rect(i).contains(p) {
                return Some(i);
            }
            i = i + 1;
        }
        None
    }

    /// Handles an event; returns the result and the button clicked, if
    /// any. See [`dialog_event`].
    pub fn handle_event(&mut self, event: &Event) -> (r: (EventResult, Option<DialogButton>))
        requires
            dialog_event_ok(old(self).view(), *event),
        ensures
            (final(self).view(), r.0, r.1) == dialog_event(old(self).view(), *event),
    {
        if !self.state.visible || !self.state.enabled || !self.is_open {
            return (EventResult::Ignored, None);
        }
        match event {
            Event::MouseMove(mm) => {
                let p = mm.position;
                if self.is_dragging {
                    let b = self.state.bounds;
                    self.state.bounds = Rect::new(p.x - self.drag_offset.x, p.y - self.drag_offset.y, b.width, b.height);
                    return (EventResult::Consumed, None);
                }
                self.hover_button = self.find_button(p);
                (EventResult::Ignored, None)
            },
            Event::MouseButton(mb) => {
                let p = mb.position;
                let left = match mb.button {
                    MouseButton::Left => true,
                    _ => false,
                };
                if left {
                    if mb.pressed {
                        let b = self.state.bounds;
                        let close = Rect::new(b.x + b.width - 20 - 5, b.y + (TITLE_HEIGHT - 20) / 2, 20, 20);
                        if close.contains(p) {
                            self.close();
                            return (EventResult::Consumed, None);
                        }
                        if self.get_title_rect().contains(p) {
                            self.is_dragging = true;
                            self.drag_offset = Point::new(p.x - b.x, p.y - b.y);
                            return (EventResult::Consumed, None);
                        }
                        match self.find_button(p) {
                            Some(i) => {
                                let button = self.buttons[i].0;
                                self.result = Some(button);
                                self.close();
                                return (EventResult::Consumed, Some(button));
                            },
                            None => {},
                        }
                    } else {
                        self.is_dragging = false;
                    }
                }
                if self.is_modal {
                    (EventResult::Consumed, None)
                } else {
                    (EventResult::Ignored, None)
                }
            },
            _ => (EventResult::Ignored, None),
        }
    }

    /// At least 300 pixels wide, wide enough for the message (half the font
    /// size per byte) plus 40; 150 high.
    pub fn measure(&self, font_size_base: i32) -> (s: Size)
        requires
            utf8_len(self.view().message) * font_size_base <= i32::MAX,
            utf8_len(self.view().message) * font_size_base >= i32::MIN,
            utf8_len(self.view().message) <= i32::MAX,
            fits_i32(trunc_div(utf8_len(self.view().message) * font_size_base, 2) + 40),
        ensures
            s.width == (if trunc_div(utf8_len(self.view().message) * font_size_base, 2) + 40 > 300 {
                trunc_div(utf8_len(self.view().message) * font_size_base, 2) + 40
            } else {
                300
            }),
            s.height == 150,
    {
        let len = byte_len(&self.message) as i32;
        let text_width = len * font_size_base / 2;
        let w = text_width + 40;
        Size::new(if w > 300 { w } else { 300 }, 150)
    }

    pub fn layout(&mut self, rect: Rect)
        ensures
            final(self).view() == (DialogView { state: WidgetState { bounds: rect, ..old(self).view().state }, ..old(self).view() }),
    {
        self.state.bounds = rect;
    }

    pub fn id(&self) -> (r: WidgetId)
        ensures
            r == self.view().state.id,
    {
        self.state.id
    }

    pub fn bounds(&self) -> (r: Rect)
        ensures
            r == self.view().state.bounds,
    {
        self.state.bounds
    }

    pub fn set_bounds(&mut self, bounds: Rect)
        ensures
            final(self).view() == (DialogView { state: WidgetState { bounds, ..old(self).view().state }, ..old(self).view() }),
    {
        self.state.bounds = bounds;
    }

    pub fn is_visible(&self) -> (b: bool)
        ensures
            b == self.view().state.visible,
    {
        self.state.visible
    }

    pub fn set_visible(&mut self, visible: bool)
        ensures
            final(self).view() == (DialogView { state: WidgetState { visible, ..old(self).view().state }, ..old(self).view() }),
    {
        self.state.visible = visible;
    }

    pub fn is_enabled(&self) -> (b: bool)
        ensures
            b == self.view().state.enabled,
    {
        self.state.enabled
    }

    pub fn set_enabled(&mut self, enabled: bool)
        ensures
            final(self).view() == (DialogView { state: WidgetState { enabled, ..old(self).view().state }, ..old(self).view() }),
    {
        self.state.enabled = enabled;
    }

    /// A dialog counts as focused while it is open.
    pub fn is_focused(&self) -> (b: bool)
        ensures
            b == self.view().is_open,
    {
        self.is_open
    }

    /// Losing focus ends a drag.
    pub fn set_focused(&mut self, focused: bool)
        ensures
            final(self).view() == (DialogView { is_dragging: if focused { old(self).view().is_dragging } else { false }, ..old(self).view() }),
    {
        if !focused {
            self.is_dragging = false;
        }
    }

    pub fn can_focus(&self) -> (b: bool)
        ensures
            b,
    {
        true
    }

    pub fn hover_button(&self) -> (r: Option<usize>)
        ensures
            r == self.view().hover_button,
    {
        self.hover_button
    }
}

} // verus!
