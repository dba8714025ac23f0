//! A line of static text.

use vstd::prelude::*;
use crate::geometry::{Rect, Size, WidgetId, fits_i32, trunc_div};
use crate::color_picker::Rgba;
use crate::status_bar::{byte_len, utf8_len};
use crate::widget::WidgetState;
use crate::event::{Event, EventResult};

verus! {

#[derive(Clone, Copy, Debug, PartialEq, Eq, Structural)]
pub enum TextAlign {
    Left,
    Center,
    Right,
}

/// The mathematical state of a [`Label`].
pub struct LabelView {
    pub state: WidgetState,
    pub text: Seq<char>,
    pub color: Option<Rgba>,
    pub align: TextAlign,
}

pub struct Label {
    state: WidgetState,
    text: String,
    color: Option<Rgba>,
    align: TextAlign,
}

/// The size a label measures: half the font size per byte of its text,
/// one font size high.
pub open spec fn label_size(text: Seq<char>, font: int) -> (int, int) {
    (trunc_div(utf8_len(text) * font, 2), font)
}

impl Label {
    pub closed spec fn view(&self) -> LabelView {
        LabelView { state: self.state, text: self.text@, color: self.color, align: self.align }
    }

    /// A left-aligned label in the theme's text colour.
    pub fn new(id: WidgetId, text: &str) -> (l: Label)
        ensures
            l.view() == (LabelView { state: WidgetState::new_spec(id), text: text@, color: None, align: TextAlign::Left }),
    {
        Label { state: WidgetState::new(id), text: text.to_string(), color: None, align: TextAlign::Left }
    }

    pub fn with_color(self, color: Rgba) -> (l: Label)
        ensures
            l.view() == (LabelView { color: Some(color), ..self.view() }),
    {
        Label { color: Some(color), ..self }
    }

    pub fn with_align(self, align: TextAlign) -> (l: Label)
        ensures
            l.view() == (LabelView { align, ..self.view() }),
    {
        Label { align, ..self }
    }

    pub fn set_text(&mut self, text: &str)
        ensures
            final(self).view() == (LabelView { text: text@, ..old(self).view() }),
    {
        self.text = text.to_string();
    }

    pub fn text(&self) -> (t: &str)
        ensures
            t@ == self.view().text,
    {
        self.text.as_str()
    }

    /// Sets the colour; `None` is the theme's text colour.
    pub fn set_color(&mut self, color: Option<Rgba>)
        ensures
            final(self).view() == (LabelView { color, ..old(self).view() }),
    {
        self.color = color;
    }

    pub fn color(&self) -> (c: Option<Rgba>)
        ensures
            c == self.view().color,
    {
        self.color
    }

    pub fn set_align(&mut self, align: TextAlign)
        ensures
            final(self).view() == (LabelView { align, ..old(self).view() }),
    {
        self.align = align;
    }

    pub fn align(&self) -> (a: TextAlign)
        ensures
            a == self.view().align,
    {
        self.align
    }

    /// See [`label_size`].
    pub fn measure(&self, font_size_base: i32) -> (s: Size)
        requires
            fits_i32(utf8_len(self.view().text) * font_size_base),
        ensures
            s.width == label_size(self.view().text, font_size_base as int).0,
            s.height == font_size_base,
    {
        let n = byte_len(&self.text);
        let w = (n as i128) * (font_size_base as i128);
        assert(w == utf8_len(self.text@) * font_size_base);
        Size::new((w / 2) as i32, font_size_base)
    }

    /// A label answers no event.
    pub fn handle_event(&self, _event: &Event) -> (r: EventResult)
        ensures
            r == EventResult::Ignored,
    {
        EventResult::Ignored
    }

    pub fn layout(&mut self, rect: Rect)
        ensures
            final(self).view() == (LabelView { state: WidgetState { bounds: rect, ..old(self).view().state }, ..old(self).view() }),
    {
        self.state.bounds = rect;
    }

    pub fn id(&self) -> (id: WidgetId)
        ensures
            id == self.view().state.id,
    {
        self.state.id
    }

    pub fn bounds(&self) -> (r: Rect)
        ensures
            r == self.view().state.bounds,
    {
        self.state.bounds
    }

    pub fn set_bounds(&mut self, bounds: Rect)
        ensures
            final(self).view() == (LabelView { state: WidgetState { bounds, ..old(self).view().state }, ..old(self).view() }),
    {
        self.state.bounds = bounds;
    }

    pub fn is_visible(&self) -> (b: bool)
        ensures
            b == self.view().state.visible,
    {
        self.state.visible
    }

    pub fn set_visible(&mut self, visible: bool)
        ensures
            final(self).view() == (LabelView { state: WidgetState { visible, ..old(self).view().state }, ..old(self).view() }),
    {
        self.state.visible = visible;
    }

    pub fn is_enabled(&self) -> (b: bool)
        ensures
            b == self.view().state.enabled,
    {
        self.state.enabled
    }

    pub fn set_enabled(&mut self, enabled: bool)
        ensures
            final(self).view() == (LabelView { state: WidgetState { enabled, ..old(self).view().state }, ..old(self).view() }),
    {
        self.state.enabled = enabled;
    }

    /// A label never takes the focus.
    pub fn is_focused(&self) -> (b: bool)
        ensures
            !b,
    {
        false
    }

    pub fn set_focused(&mut self, _focused: bool)
        ensures
            final(self).view() == old(self).view(),
    {
    }

    pub fn can_focus(&self) -> (b: bool)
        ensures
            !b,
    {
        false
    }
}

} // verus!
