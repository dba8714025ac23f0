//! Check boxes: toggling by click or keyboard, and where the box sits.

use vstd::prelude::*;
use crate::geometry::{Rect, Size, WidgetId, fits_i32, trunc_div};
use crate::event::{Event, EventResult, Key, MouseButton};
use crate::status_bar::{byte_len, utf8_len};
use crate::widget::WidgetState;

verus! {

broadcast use vstd::string::group_string_axioms;

/// Side of the box.
pub const BOX_SIZE: i32 = 16;

/// The mathematical state of a [`Checkbox`].
pub struct CheckboxView {
    pub state: WidgetState,
    pub text: Seq<char>,
    pub checked: bool,
    pub hovering: bool,
}

/// The check box's answer to an event, and the new state to report when
/// it toggled: hovering in or out is consumed; a left press on it toggles
/// it and focuses it; Space or Enter toggles a focused box.
pub open spec fn checkbox_event(v: CheckboxView, e: Event) -> (CheckboxView, EventResult, Option<bool>) {
    if !v.state.visible || !v.state.enabled {
        (v, EventResult::Ignored, None)
    } else {
        match e {
            Event::MouseMove(mm) => {
                let h = v.state.bounds.contains_spec(mm.position);
                (CheckboxView { hovering: h, ..v }, if h != v.hovering { EventResult::Consumed } else { EventResult::Ignored }, None)
            },
            Event::MouseButton(mb) => if mb.button == MouseButton::Left && mb.pressed && v.state.bounds.contains_spec(mb.position) {
                (
                    CheckboxView { checked: !v.checked, state: WidgetState { focused: true, ..v.state }, ..v },
                    EventResult::Consumed,
                    Some(!v.checked),
                )
            } else {
                (v, EventResult::Ignored, None)
            },
            Event::KeyPress(k) => if v.state.focused && (k.key == Key::Space || k.key == Key::Enter) {
                (CheckboxView { checked: !v.checked, ..v }, EventResult::Consumed, Some(!v.checked))
            } else {
                (v, EventResult::Ignored, None)
            },
            _ => (v, EventResult::Ignored, None),
        }
    }
}

/// The box: 16 pixels square at the left edge, centred vertically.
pub open spec fn box_rect(b: Rect) -> Rect {
    Rect { x: b.x, y: (b.y + trunc_div(b.height as int, 2) - 8) as i32, width: 16, height: 16 }
}

/// A labelled check box.
pub struct Checkbox {
    state: WidgetState,
    text: String,
    checked: bool,
    is_hovering: bool,
}

impl Checkbox {
    pub closed spec fn view(&self) -> CheckboxView {
        CheckboxView { state: self.state, text: self.text@, checked: self.checked, hovering: self.is_hovering }
    }

    /// An unchecked box labelled `text`.
    pub fn new(id: WidgetId, text: &str) -> (c: Checkbox)
        ensures
            c.view() == (CheckboxView { state: WidgetState::new_spec(id), text: text@, checked: false, hovering: false }),
    {
        Checkbox { state: WidgetState::new(id), text: String::from_str(text), checked: false, is_hovering: false }
    }

    pub fn with_checked(self, checked: bool) -> (c: Checkbox)
        ensures
            c.view() == (CheckboxView { checked, ..self.view() }),
    {
        Checkbox { checked, ..self }
    }

    pub fn is_checked(&self) -> (b: bool)
        ensures
            b == self.view().checked,
    {
        self.checked
    }

    /// Sets the state; a change is to be reported with the new state.
    pub fn set_checked(&mut self, checked: bool) -> (report: Option<bool>)
        ensures
            final(self).view() == (CheckboxView { checked, ..old(self).view() }),
            report == (if checked != old(self).view().checked { Some(checked) } else { None }),
    {
        if self.checked != checked {
            self.checked = checked;
            Some(checked)
        } else {
            None
        }
    }

    /// Flips the state, which is to be reported.
    pub fn toggle(&mut self) -> (now: bool)
        ensures
            final(self).view() == (CheckboxView { checked: !old(self).view().checked, ..old(self).view() }),
            now == !old(self).view().checked,
    {
        let c = !self.checked;
        let _ = self.set_checked(c);
        c
    }

    pub fn get_box_rect(&self) -> (r: Rect)
        requires
            fits_i32(self.view().state.bounds.x + trunc_div(self.view().state.bounds.width as int, 2)),
            fits_i32(self.view().state.bounds.y + trunc_div(self.view().state.bounds.height as int, 2)),
            fits_i32(self.view().state.bounds.y + trunc_div(self.view().state.bounds.height as int, 2) - 8),
        ensures
            r == box_rect(self.view().state.bounds),
    {
        let b = self.state.bounds;
        Rect::new(b.x, b.y + b.height / 2 - BOX_SIZE / 2, BOX_SIZE, BOX_SIZE)
    }

    /// The box, an 8-pixel gap and the label at half the font size per
    /// byte; as high as the box or the font, whichever is more.
    pub fn measure(&self, font_size_base: i32) -> (s: Size)
        requires
            utf8_len(self.view().text) <= i32::MAX,
            fits_i32(utf8_len(self.view().text) * font_size_base),
            fits_i32(24 + trunc_div(utf8_len(self.view().text) * font_size_base, 2)),
        ensures
            s.width == 24 + trunc_div(utf8_len(self.view().text) * font_size_base, 2),
            s.height == (if font_size_base > 16 { font_size_base } else { 16 }),
    {
        let n = byte_len(&self.text) as i32;
        let text_width = n * font_size_base / 2;
        Size::new(BOX_SIZE + 8 + text_width, if font_size_base > BOX_SIZE { font_size_base } else { BOX_SIZE })
    }

    pub fn layout(&mut self, rect: Rect)
        ensures
            final(self).view() == (CheckboxView { state: WidgetState { bounds: rect, ..old(self).view().state }, ..old(self).view() }),
    {
        self.state.bounds = rect;
    }

    /// Handles an event; returns the result and the state to report if the
    /// box toggled. See [`checkbox_event`].
    pub fn handle_event(&mut self, event: &Event) -> (r: (EventResult, Option<bool>))
        ensures
            (final(self).view(), r.0, r.1) == checkbox_event(old(self).view(), *event),
    {
        if !self.state.visible || !self.state.enabled {
            return (EventResult::Ignored, None);
        }
        match event {
            Event::MouseMove(mm) => {
                let was = self.is_hovering;
                self.is_hovering = self.state.bounds.contains(mm.position);
                if was != self.is_hovering {
                    (EventResult::Consumed, None)
                } else {
                    (EventResult::Ignored, None)
                }
            },
            Event::MouseButton(mb) => {
                let left = match mb.button {
                    MouseButton::Left => true,
                    _ => false,
                };
                if left && mb.pressed && self.state.bounds.contains(mb.position) {
                    let now = self.toggle();
                    self.state.focused = true;
                    (EventResult::Consumed, Some(now))
                } else {
                    (EventResult::Ignored, None)
                }
            },
            Event::KeyPress(k) => {
                let activates = match k.key {
                    Key::Space | Key::Enter => true,
                    _ => false,
                };
                if self.state.focused && activates {
                    let now = self.toggle();
                    (EventResult::Consumed, Some(now))
                } else {
                    (EventResult::Ignored, None)
                }
            },
            _ => (EventResult::Ignored, None),
        }
    }

    pub fn text(&self) -> (r: &String)
        ensures
            r@ == self.view().text,
    {
        &self.text
    }

    pub fn is_hovering(&self) -> (b: bool)
        ensures
            b == self.view().hovering,
    {
        self.is_hovering
    }

    pub fn id(&self) -> (r: WidgetId)
        ensures
            r == self.view().state.id,
    {
        self.state.id
    }

    pub fn bounds(&self) -> (r: Rect)
        ensures
            r == self.view().state.bounds,
    {
        self.state.bounds
    }

    pub fn set_bounds(&mut self, bounds: Rect)
        ensures
            final(self).view() == (CheckboxView { state: WidgetState { bounds, ..old(self).view().state }, ..old(self).view() }),
    {
        self.state.bounds = bounds;
    }

    pub fn is_visible(&self) -> (b: bool)
        ensures
            b == self.view().state.visible,
    {
        self.state.visible
    }

    pub fn set_visible(&mut self, visible: bool)
        ensures
            final(self).view() == (CheckboxView { state: WidgetState { visible, ..old(self).view().state }, ..old(self).view() }),
    {
        self.state.visible = visible;
    }

    pub fn is_enabled(&self) -> (b: bool)
        ensures
            b == self.view().state.enabled,
    {
        self.state.enabled
    }

    pub fn set_enabled(&mut self, enabled: bool)
        ensures
            final(self).view() == (CheckboxView { state: WidgetState { enabled, ..old(self).view().state }, ..old(self).view() }),
    {
        self.state.enabled = enabled;
    }

    pub fn is_focused(&self) -> (b: bool)
        ensures
            b == self.view().state.focused,
    {
        self.state.focused
    }

    pub fn set_focused(&mut self, focused: bool)
        ensures
            final(self).view() == (CheckboxView { state: WidgetState { focused, ..old(self).view().state }, ..old(self).view() }),
    {
        self.state.focused = focused;
    }

    /// A check box takes focus while enabled.
    pub fn can_focus(&self) -> (b: bool)
        ensures
            b == self.view().state.enabled,
    {
        self.state.enabled
    }
}

} // verus!
