//! Push buttons: hover, press, click and keyboard activation, and the size
//! a button asks for.

use vstd::prelude::*;
use crate::geometry::{Rect, Size, WidgetId, fits_i32, trunc_div};
use crate::event::{Event, EventResult, Key, MouseButton};
use crate::status_bar::{byte_len, utf8_len};
use crate::widget::{ThemeMetrics, WidgetState};

verus! {

broadcast use vstd::string::group_string_axioms;

#[derive(Clone, Copy, Debug, PartialEq, Eq, Structural)]
pub enum ButtonStyle {
    Primary,
    Toolbar,
}

/// The pictures a button can show beside or instead of its text.
#[derive(Clone, Debug, PartialEq, Eq)]
pub enum ButtonIcon {
    Back,
    Forward,
    Up,
    Home,
    Refresh,
    Folder,
    FolderNew,
    Delete,
    File,
    Search,
    Bitmap { width: i32, height: i32, data: Vec<u8> },
}

/// The mathematical state of a [`Button`].
pub struct ButtonView {
    pub state: WidgetState,
    pub text: Seq<char>,
    pub has_icon: bool,
    pub pressed: bool,
    pub hovered: bool,
    pub style: ButtonStyle,
    pub tooltip: Option<Seq<char>>,
}

/// The button's answer to an event, and whether it was clicked: hovering
/// in or out is consumed; a left press or release on it is consumed and
/// focuses it, a release while hovered clicks it; Space or Enter clicks
/// a focused button.
pub open spec fn button_event(v: ButtonView, e: Event) -> (ButtonView, EventResult, bool) {
    if !v.state.enabled || !v.state.visible {
        (v, EventResult::Ignored, false)
    } else {
        match e {
            Event::MouseMove(mm) => {
                let h = v.state.bounds.contains_spec(mm.position);
                (ButtonView { hovered: h, ..v }, if h != v.hovered { EventResult::Consumed } else { EventResult::Ignored }, false)
            },
            Event::MouseButton(mb) => if mb.button == MouseButton::Left && v.state.bounds.contains_spec(mb.position) {
                (
                    ButtonView { pressed: mb.pressed, state: WidgetState { focused: true, ..v.state }, ..v },
                    EventResult::Consumed,
                    !mb.pressed && v.hovered,
                )
            } else {
                (v, EventResult::Ignored, false)
            },
            Event::KeyPress(k) => if v.state.focused && (k.key == Key::Space || k.key == Key::Enter) {
                (v, EventResult::Consumed, true)
            } else {
                (v, EventResult::Ignored, false)
            },
            _ => (v, EventResult::Ignored, false),
        }
    }
}

/// Width and height of the content: a 24-pixel icon, a small gap, and the
/// text at half the font size per byte; a 32-pixel square when empty.
pub open spec fn button_content(has_icon: bool, text_bytes: int, t: ThemeMetrics) -> (int, int) {
    let text_w = if text_bytes > 0 { trunc_div(text_bytes * t.font_size_base, 2) } else { 0 };
    let icon_w = if has_icon { 24 + if text_bytes > 0 { t.gap_small as int } else { 0 } } else { 0 };
    let h = if has_icon && t.font_size_base < 24 { 24 } else { t.font_size_base as int };
    let w = icon_w + text_w;
    if w == 0 { (32, 32) } else { (w, h) }
}

/// The size a button asks for: its content plus the theme's padding.
pub open spec fn button_size(has_icon: bool, text_bytes: int, t: ThemeMetrics) -> (int, int) {
    let (w, h) = button_content(has_icon, text_bytes, t);
    (w + (t.padding_left + t.padding_right), h + (t.padding_top + t.padding_bottom))
}

/// Every step of measuring stays within `i32`.
pub open spec fn button_measure_ok(has_icon: bool, text_bytes: int, t: ThemeMetrics) -> bool {
    let (w, h) = button_content(has_icon, text_bytes, t);
    &&& text_bytes <= i32::MAX
    &&& fits_i32(text_bytes * t.font_size_base)
    &&& fits_i32(24 + t.gap_small)
    &&& fits_i32(w)
    &&& fits_i32(t.padding_left + t.padding_right)
    &&& fits_i32(t.padding_top + t.padding_bottom)
    &&& fits_i32(w + (t.padding_left + t.padding_right))
    &&& fits_i32(h + (t.padding_top + t.padding_bottom))
}

/// A clickable button with text and an optional icon.
pub struct Button {
    state: WidgetState,
    text: String,
    icon: Option<ButtonIcon>,
    pressed: bool,
    hovered: bool,
    style: ButtonStyle,
    tooltip: Option<String>,
}

impl Button {
    pub closed spec fn view(&self) -> ButtonView {
        ButtonView {
            state: self.state,
            text: self.text@,
            has_icon: self.icon is Some,
            pressed: self.pressed,
            hovered: self.hovered,
            style: self.style,
            tooltip: match self.tooltip {
                Some(t) => Some(t@),
                None => None,
            },
        }
    }

    /// A primary-style button showing `text`.
    pub fn new(id: WidgetId, text: &str) -> (b: Button)
        ensures
            b.view() == (ButtonView {
                state: WidgetState::new_spec(id),
                text: text@,
                has_icon: false,
                pressed: false,
                hovered: false,
                style: ButtonStyle::Primary,
                tooltip: None,
            }),
    {
        Button {
            state: WidgetState::new(id),
            text: String::from_str(text),
            icon: None,
            pressed: false,
            hovered: false,
            style: ButtonStyle::Primary,
            tooltip: None,
        }
    }

    pub fn with_icon(self, icon: ButtonIcon) -> (b: Button)
        ensures
            b.view() == (ButtonView { has_icon: true, ..self.view() }),
    {
        Button { icon: Some(icon), ..self }
    }

    pub fn with_style(self, style: ButtonStyle) -> (b: Button)
        ensures
            b.view() == (ButtonView { style, ..self.view() }),
    {
        Button { style, ..self }
    }

    pub fn with_tooltip(self, tooltip: &str) -> (b: Button)
        ensures
            b.view() == (ButtonView { tooltip: Some(tooltip@), ..self.view() }),
    {
        Button { tooltip: Some(String::from_str(tooltip)), ..self }
    }

    pub fn set_text(&mut self, text: &str)
        ensures
            final(self).view() == (ButtonView { text: text@, ..old(self).view() }),
    {
        self.text = String::from_str(text);
    }

    pub fn text(&self) -> (r: &String)
        ensures
            r@ == self.view().text,
    {
        &self.text
    }

    pub fn icon(&self) -> (r: &Option<ButtonIcon>)
        ensures
            (*r is Some) == self.view().has_icon,
    {
        &self.icon
    }

    /// The size the button asks for under `theme`; see [`button_size`].
    pub fn measure(&self, theme: &ThemeMetrics) -> (s: Size)
        requires
            button_measure_ok(self.view().has_icon, utf8_len(self.view().text) as int, *theme),
        ensures
            (s.width as int, s.height as int) == button_size(self.view().has_icon, utf8_len(self.view().text) as int, *theme),
    {
        let n = byte_len(&self.text);
        let mut width: i32 = 0;
        let mut height: i32 = theme.font_size_base;
        let has_icon = match self.icon {
            Some(_) => true,
            None => false,
        };
        if has_icon {
            width = width + 24;
            if height < 24 {
                height = 24;
            }
            if n > 0 {
                width = width + theme.gap_small;
            }
        }
        if n > 0 {
            width = width + (n as i32) * theme.font_size_base / 2;
        }
        if width == 0 {
            width = 32;
            height = 32;
        }
        Size::new(width + (theme.padding_left + theme.padding_right), height + (theme.padding_top + theme.padding_bottom))
    }

    pub fn layout(&mut self, rect: Rect)
        ensures
            final(self).view() == (ButtonView { state: WidgetState { bounds: rect, ..old(self).view().state }, ..old(self).view() }),
    {
        self.state.bounds = rect;
    }

    /// Handles an event; returns the result and whether the button was
    /// clicked. See [`button_event`].
    pub fn handle_event(&mut self, event: &Event) -> (r: (EventResult, bool))
        ensures
            (final(self).view(), r.0, r.1) == button_event(old(self).view(), *event),
    {
        if !self.state.enabled || !self.state.visible {
            return (EventResult::Ignored, false);
        }
        match event {
            Event::MouseMove(mm) => {
                let was = self.hovered;
                self.hovered = self.state.bounds.contains(mm.position);
                if was != self.hovered {
                    (EventResult::Consumed, false)
                } else {
                    (EventResult::Ignored, false)
                }
            },
            Event::MouseButton(mb) => {
                let left = match mb.button {
                    MouseButton::Left => true,
                    _ => false,
                };
                if left && self.state.bounds.contains(mb.position) {
                    self.pressed = mb.pressed;
                    let clicked = !mb.pressed && self.hovered;
                    self.state.focused = true;
                    (EventResult::Consumed, clicked)
                } else {
                    (EventResult::Ignored, false)
                }
            },
            Event::KeyPress(k) => {
                let activates = match k.key {
                    Key::Space | Key::Enter => true,
                    _ => false,
                };
                if self.state.focused && activates {
                    (EventResult::Consumed, true)
                } else {
                    (EventResult::Ignored, false)
                }
            },
            _ => (EventResult::Ignored, false),
        }
    }

    pub fn is_pressed(&self) -> (b: bool)
        ensures
            b == self.view().pressed,
    {
        self.pressed
    }

    pub fn is_hovered(&self) -> (b: bool)
        ensures
            b == self.view().hovered,
    {
        self.hovered
    }

    pub fn id(&self) -> (r: WidgetId)
        ensures
            r == self.view().state.id,
    {
        self.state.id
    }

    pub fn bounds(&self) -> (r: Rect)
        ensures
            r == self.view().state.bounds,
    {
        self.state.bounds
    }

    pub fn set_bounds(&mut self, bounds: Rect)
        ensures
            final(self).view() == (ButtonView { state: WidgetState { bounds, ..old(self).view().state }, ..old(self).view() }),
    {
        self.state.bounds = bounds;
    }

    pub fn is_visible(&self) -> (b: bool)
        ensures
            b == self.view().state.visible,
    {
        self.state.visible
    }

    pub fn set_visible(&mut self, visible: bool)
        ensures
            final(self).view() == (ButtonView { state: WidgetState { visible, ..old(self).view().state }, ..old(self).view() }),
    {
        self.state.visible = visible;
    }

    pub fn is_enabled(&self) -> (b: bool)
        ensures
            b == self.view().state.enabled,
    {
        self.state.enabled
    }

    pub fn set_enabled(&mut self, enabled: bool)
        ensures
            final(self).view() == (ButtonView { state: WidgetState { enabled, ..old(self).view().state }, ..old(self).view() }),
    {
        self.state.enabled = enabled;
    }

    pub fn is_focused(&self) -> (b: bool)
        ensures
            b == self.view().state.focused,
    {
        self.state.focused
    }

    pub fn set_focused(&mut self, focused: bool)
        ensures
            final(self).view() == (ButtonView { state: WidgetState { focused, ..old(self).view().state }, ..old(self).view() }),
    {
        self.state.focused = focused;
    }

    pub fn can_focus(&self) -> (b: bool)
        ensures
            b == (self.view().state.enabled && self.view().state.visible),
    {
        self.state.enabled && self.state.visible
    }
}

} // verus!
