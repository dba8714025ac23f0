//! Spin boxes: the up and down buttons, the text being typed, and when a
//! held button repeats. The value is a floating-point number the host
//! keeps; the control tells it when to step, to take the typed text, or
//! to show the value again.

use vstd::prelude::*;
use crate::geometry::{Point, Rect, Size, WidgetId, fits_i32, trunc_div};
use crate::event::{Event, EventResult, Key, MouseButton};
use crate::widget::WidgetState;
use crate::date_time_picker::{is_numeric_char, unicode_is_numeric};
use crate::text::{pop_char, push_char};

verus! {

broadcast use vstd::string::group_string_axioms;

/// Width of the up and down buttons.
pub const BUTTON_WIDTH: i32 = 20;

/// Held this long (milliseconds), a button starts repeating.
pub const REPEAT_DELAY_MS: u64 = 500;

/// Between two repeats, at least this long passes (milliseconds).
pub const REPEAT_INTERVAL_MS: u64 = 50;

#[derive(Clone, Copy, Debug, PartialEq, Eq, Structural)]
pub enum SpinButton {
    Up,
    Down,
}

/// What the host does with the value after an event.
#[derive(Clone, Copy, Debug, PartialEq, Eq, Structural)]
pub enum SpinAction {
    Nothing,
    /// Step the value up or down.
    Step(SpinButton),
    /// Take the typed text as the value, or show the value again when it
    /// does not read as a number.
    CommitText,
    /// Show the value again, dropping the typed text.
    RestoreText,
}

/// Everything of a spin box but its value: the widget state, the text
/// shown or typed, whether it is being typed, the button under the pointer
/// and the one held, and when (in the host's milliseconds) the held button
/// went down and last repeated.
pub struct SpinControl {
    pub state: WidgetState,
    pub text_value: String,
    pub is_editing: bool,
    pub hover_button: Option<SpinButton>,
    pub pressed_button: Option<SpinButton>,
    pub repeat_start: Option<u64>,
    pub last_repeat: Option<u64>,
}

/// The mathematical content of a [`SpinControl`].
pub struct SpinView {
    pub state: WidgetState,
    pub text: Seq<char>,
    pub is_editing: bool,
    pub hover_button: Option<SpinButton>,
    pub pressed_button: Option<SpinButton>,
    pub repeat_start: Option<u64>,
    pub last_repeat: Option<u64>,
}

impl SpinControl {
    pub open spec fn view(&self) -> SpinView {
        SpinView {
            state: self.state,
            text: self.text_value@,
            is_editing: self.is_editing,
            hover_button: self.hover_button,
            pressed_button: self.pressed_button,
            repeat_start: self.repeat_start,
            last_repeat: self.last_repeat,
        }
    }
}

/// The text field: the bounds but the buttons' column.
pub open spec fn text_rect(b: Rect) -> Rect {
    Rect { x: b.x, y: b.y, width: (b.width - 20) as i32, height: b.height }
}

/// The up button: the upper half of the 20-pixel column at the right.
pub open spec fn up_rect(b: Rect) -> Rect {
    Rect { x: (b.x + b.width - 20) as i32, y: b.y, width: 20, height: trunc_div(b.height as int, 2) as i32 }
}

/// The down button, below the up button.
pub open spec fn down_rect(b: Rect) -> Rect {
    let h = trunc_div(b.height as int, 2);
    Rect { x: (b.x + b.width - 20) as i32, y: (b.y + h) as i32, width: 20, height: h as i32 }
}

/// The button at `p`, if any.
pub open spec fn button_at(b: Rect, p: Point) -> Option<SpinButton> {
    if up_rect(b).contains_spec(p) {
        Some(SpinButton::Up)
    } else if down_rect(b).contains_spec(p) {
        Some(SpinButton::Down)
    } else {
        None
    }
}

/// The parts of a spin box at `b` can be computed.
pub open spec fn spin_fits(b: Rect) -> bool {
    &&& fits_i32(b.x + b.width)
    &&& fits_i32(b.x + b.width - 20)
    &&& fits_i32(b.width - 20)
    &&& fits_i32(b.y + trunc_div(b.height as int, 2))
}

/// Whether a typed `ch` goes into the text `t`: a numeric character, a
/// point, or a minus sign first.
pub open spec fn accepts_char(t: Seq<char>, ch: char) -> bool {
    unicode_is_numeric(ch) || ch == '.' || (ch == '-' && t.len() == 0)
}

/// The spin box's answer to an event at time `now`: the new control,
/// whether the event was consumed, and what the host does with the value.
/// A hidden or disabled box ignores everything. A move sets the hovered
/// button. A left press on a button holds it and steps once; on the text
/// starts typing; elsewhere ends typing, taking the text. Releasing the
/// left button lets go of the held one. While typing, numeric characters,
/// points and a leading minus are added, Backspace removes the last
/// character, Enter takes the text and Escape drops it; otherwise Up and
/// Down step.
pub open spec fn spin_event(v: SpinView, e: Event, now: u64) -> (SpinView, EventResult, SpinAction) {
    if !v.state.visible || !v.state.enabled {
        (v, EventResult::Ignored, SpinAction::Nothing)
    } else {
        let b = v.state.bounds;
        match e {
            Event::MouseMove(m) => (SpinView { hover_button: button_at(b, m.position), ..v }, EventResult::Ignored, SpinAction::Nothing),
            Event::MouseButton(mb) => if mb.button != MouseButton::Left {
                (v, EventResult::Ignored, SpinAction::Nothing)
            } else if !mb.pressed {
                (SpinView { pressed_button: None, repeat_start: None, last_repeat: None, ..v }, EventResult::Ignored, SpinAction::Nothing)
            } else {
                match button_at(b, mb.position) {
                    Some(btn) => (
                        SpinView { pressed_button: Some(btn), repeat_start: Some(now), last_repeat: None, ..v },
                        EventResult::Consumed,
                        SpinAction::Step(btn),
                    ),
                    None => if text_rect(b).contains_spec(mb.position) {
                        (SpinView { is_editing: true, ..v }, EventResult::Consumed, SpinAction::Nothing)
                    } else if v.is_editing {
                        (SpinView { is_editing: false, ..v }, EventResult::Ignored, SpinAction::CommitText)
                    } else {
                        (v, EventResult::Ignored, SpinAction::Nothing)
                    },
                }
            },
            Event::KeyPress(k) => if v.is_editing {
                match k.key {
                    Key::Character(ch) => if accepts_char(v.text, ch) {
                        (SpinView { text: v.text.push(ch), ..v }, EventResult::Consumed, SpinAction::Nothing)
                    } else {
                        (v, EventResult::Ignored, SpinAction::Nothing)
                    },
                    Key::Backspace => (
                        SpinView { text: if v.text.len() > 0 { v.text.drop_last() } else { v.text }, ..v },
                        EventResult::Consumed,
                        SpinAction::Nothing,
                    ),
                    Key::Enter => (SpinView { is_editing: false, ..v }, EventResult::Consumed, SpinAction::CommitText),
                    Key::Escape => (SpinView { is_editing: false, ..v }, EventResult::Consumed, SpinAction::RestoreText),
                    _ => (v, EventResult::Ignored, SpinAction::Nothing),
                }
            } else {
                match k.key {
                    Key::Up => (v, EventResult::Consumed, SpinAction::Step(SpinButton::Up)),
                    Key::Down => (v, EventResult::Consumed, SpinAction::Step(SpinButton::Down)),
                    _ => (v, EventResult::Ignored, SpinAction::Nothing),
                }
            },
            _ => (v, EventResult::Ignored, SpinAction::Nothing),
        }
    }
}

/// A tick at time `now` (not before the button went down): a button held
/// for more than the delay repeats once the interval has passed since its
/// last repeat; the first tick after the delay only starts the count.
pub open spec fn spin_tick(v: SpinView, now: u64) -> (SpinView, Option<SpinButton>) {
    match (v.pressed_button, v.repeat_start) {
        (Some(btn), Some(s)) => if now - s > REPEAT_DELAY_MS {
            match v.last_repeat {
                Some(l) => if now - l > REPEAT_INTERVAL_MS {
                    (SpinView { last_repeat: Some(now), ..v }, Some(btn))
                } else {
                    (v, None)
                },
                None => (SpinView { last_repeat: Some(now), ..v }, None),
            }
        } else {
            (v, None)
        },
        _ => (v, None),
    }
}

impl SpinControl {
    /// A spin box showing `text`, not being typed in, with no button
    /// hovered or held.
    pub fn new(id: WidgetId, text: String) -> (c: SpinControl)
        ensures
            c.view() == (SpinView {
                state: WidgetState::new_spec(id),
                text: text@,
                is_editing: false,
                hover_button: None,
                pressed_button: None,
                repeat_start: None,
                last_repeat: None,
            }),
    {
        SpinControl {
            state: WidgetState::new(id),
            text_value: text,
            is_editing: false,
            hover_button: None,
            pressed_button: None,
            repeat_start: None,
            last_repeat: None,
        }
    }

    /// The button at `p`; see [`button_at`].
    pub fn button_from_point(&self, p: Point) -> (r: Option<SpinButton>)
        requires
            spin_fits(self.state.bounds),
        ensures
            r == button_at(self.state.bounds, p),
    {
        let b = self.state.bounds;
        let h = b.height / 2;
        let up = Rect::new(b.x + b.width - BUTTON_WIDTH, b.y, BUTTON_WIDTH, h);
        let down = Rect::new(b.x + b.width - BUTTON_WIDTH, b.y + h, BUTTON_WIDTH, h);
        if up.contains(p) {
            Some(SpinButton::Up)
        } else if down.contains(p) {
            Some(SpinButton::Down)
        } else {
            None
        }
    }

    /// The text field; see [`text_rect`].
    pub fn text_rect(&self) -> (r: Rect)
        requires
            spin_fits(self.state.bounds),
        ensures
            r == text_rect(self.state.bounds),
    {
        let b = self.state.bounds;
        Rect::new(b.x, b.y, b.width - BUTTON_WIDTH, b.height)
    }

    /// Handles an event at time `now`; see [`spin_event`].
    pub fn handle_event(&mut self, event: &Event, now: u64) -> (r: (EventResult, SpinAction))
        requires
            spin_fits(old(self).state.bounds),
        ensures
            (final(self).view(), r.0, r.1) == spin_event(old(self).view(), *event, now),
    {
        if !self.state.visible || !self.state.enabled {
            return (EventResult::Ignored, SpinAction::Nothing);
        }
        match event {
            Event::MouseMove(m) => {
                self.hover_button = self.button_from_point(m.position);
                (EventResult::Ignored, SpinAction::Nothing)
            },
            Event::MouseButton(mb) => {
                if mb.button != MouseButton::Left {
                    (EventResult::Ignored, SpinAction::Nothing)
                } else if !mb.pressed {
                    self.pressed_button = None;
                    self.repeat_start = None;
                    self.last_repeat = None;
                    (EventResult::Ignored, SpinAction::Nothing)
                } else {
                    match self.button_from_point(mb.position) {
                        Some(btn) => {
                            self.pressed_button = Some(btn);
                            self.repeat_start = Some(now);
                            self.last_repeat = None;
                            (EventResult::Consumed, SpinAction::Step(btn))
                        },
                        None => {
                            if self.text_rect().contains(mb.position) {
                                self.is_editing = true;
                                (EventResult::Consumed, SpinAction::Nothing)
                            } else if self.is_editing {
                                self.is_editing = false;
                                (EventResult::Ignored, SpinAction::CommitText)
                            } else {
                                (EventResult::Ignored, SpinAction::Nothing)
                            }
                        },
                    }
                }
            },
            Event::KeyPress(k) => {
                if self.is_editing {
                    match k.key {
                        Key::Character(ch) => {
                            let ok = is_numeric_char(ch) || ch == '.' || (ch == '-' && self.text_value.unicode_len() == 0);
                            if ok {
                                push_char(&mut self.text_value, ch);
                                (EventResult::Consumed, SpinAction::Nothing)
                            } else {
                                (EventResult::Ignored, SpinAction::Nothing)
                            }
                        },
                        Key::Backspace => {
                            pop_char(&mut self.text_value);
                            (EventResult::Consumed, SpinAction::Nothing)
                        },
                        Key::Enter => {
                            self.is_editing = false;
                            (EventResult::Consumed, SpinAction::CommitText)
                        },
                        Key::Escape => {
                            self.is_editing = false;
                            (EventResult::Consumed, SpinAction::RestoreText)
                        },
                        _ => (EventResult::Ignored, SpinAction::Nothing),
                    }
                } else {
                    match k.key {
                        Key::Up => (EventResult::Consumed, SpinAction::Step(SpinButton::Up)),
                        Key::Down => (EventResult::Consumed, SpinAction::Step(SpinButton::Down)),
                        _ => (EventResult::Ignored, SpinAction::Nothing),
                    }
                }
            },
            _ => (EventResult::Ignored, SpinAction::Nothing),
        }
    }

    /// A tick at time `now`; see [`spin_tick`]. Returns the button to step
    /// by, if it repeats.
    pub fn update(&mut self, now: u64) -> (r: Option<SpinButton>)
        requires
            old(self).repeat_start matches Some(s) ==> s <= now,
            old(self).last_repeat matches Some(l) ==> l <= now,
        ensures
            (final(self).view(), r) == spin_tick(old(self).view(), now),
    {
        match (self.pressed_button, self.repeat_start) {
            (Some(btn), Some(s)) => {
                if now - s > REPEAT_DELAY_MS {
                    match self.last_repeat {
                        Some(l) => {
                            if now - l > REPEAT_INTERVAL_MS {
                                self.last_repeat = Some(now);
                                Some(btn)
                            } else {
                                None
                            }
                        },
                        None => {
                            self.last_repeat = Some(now);
                            None
                        },
                    }
                } else {
                    None
                }
            },
            _ => None,
        }
    }

    /// 120 pixels wide and a line of base text plus 12 high.
    pub fn measure(&self, font_size_base: i32) -> (s: Size)
        requires
            font_size_base <= i32::MAX - 12,
        ensures
            s == (Size { width: 120, height: (font_size_base + 12) as i32 }),
    {
        Size::new(120, font_size_base + 12)
    }

    /// Enables or disables the box; disabling ends typing and lets go of
    /// the held button.
    pub fn set_enabled(&mut self, enabled: bool)
        ensures
            final(self).view() == (if enabled {
                SpinView { state: WidgetState { enabled, ..old(self).view().state }, ..old(self).view() }
            } else {
                SpinView {
                    state: WidgetState { enabled, ..old(self).view().state },
                    is_editing: false,
                    pressed_button: None,
                    ..old(self).view()
                }
            }),
    {
        self.state.enabled = enabled;
        if !enabled {
            self.is_editing = false;
            self.pressed_button = None;
        }
    }

    /// Losing the focus while typing ends typing; returns whether the host
    /// is to take the typed text.
    pub fn set_focused(&mut self, focused: bool) -> (commit: bool)
        ensures
            commit == (!focused && old(self).is_editing),
            final(self).view() == (if commit { SpinView { is_editing: false, ..old(self).view() } } else { old(self).view() }),
    {
        if !focused && self.is_editing {
            self.is_editing = false;
            true
        } else {
            false
        }
    }

    /// The box has the focus while it is being typed in.
    pub fn is_focused(&self) -> (b: bool)
        ensures
            b == self.is_editing,
    {
        self.is_editing
    }
}

} // verus!
