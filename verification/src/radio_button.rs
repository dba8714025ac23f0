//! Radio buttons: at most one button of a group is selected.
//!
//! The group is held by whoever owns the buttons and is handed to each
//! call that reads or changes the selection. A button outside any group
//! keeps its own checked flag.

use vstd::prelude::*;
use crate::geometry::{Rect, Size, WidgetId, fits_i32};
use crate::event::{Event, EventResult, MouseButton};
use crate::status_bar::{byte_len, utf8_len};
use crate::widget::{ThemeMetrics, WidgetState};

verus! {

broadcast use vstd::string::group_string_axioms;

#[derive(Clone, Copy, Debug, PartialEq, Eq, Structural)]
pub enum LabelPosition {
    Left,
    Right,
    Top,
    Bottom,
}

/// The selection of a group of radio buttons: the id of the selected
/// button, if any.
#[derive(Clone, Copy, Debug, PartialEq, Eq, Structural)]
pub struct RadioGroup {
    selected: Option<WidgetId>,
}

impl RadioGroup {
    pub closed spec fn selection(&self) -> Option<WidgetId> {
        self.selected
    }

    /// A group with nothing selected.
    pub fn new() -> (g: RadioGroup)
        ensures
            g.selection() is None,
    {
        RadioGroup { selected: None }
    }

    pub fn default() -> (g: RadioGroup)
        ensures
            g.selection() is None,
    {
        RadioGroup { selected: None }
    }

    pub fn selected(&self) -> (r: Option<WidgetId>)
        ensures
            r == self.selection(),
    {
        self.selected
    }

    pub fn select(&mut self, id: WidgetId)
        ensures
            final(self).selection() == Some(id),
    {
        self.selected = Some(id);
    }

    pub fn is_selected(&self, id: WidgetId) -> (b: bool)
        ensures
            b == (self.selection() == Some(id)),
    {
        match self.selected {
            Some(s) => s == id,
            None => false,
        }
    }

    pub fn clear(&mut self)
        ensures
            final(self).selection() is None,
    {
        self.selected = None;
    }
}

/// Side of the round button.
pub const BUTTON_SIZE: i32 = 16;

/// How far the selection dot grows or shrinks per frame, in thousandths of
/// its full size.
pub const DOT_STEP: u32 = 80;

/// The mathematical state of a [`RadioButton`].
pub struct RadioView {
    pub state: WidgetState,
    pub text: Seq<char>,
    pub grouped: bool,
    pub own_checked: bool,
    pub label_position: LabelPosition,
    pub hover: bool,
    pub pressed: bool,
    pub dot: u32,
}

/// Whether the button is checked: selected in its group, or checked on
/// its own when it has no group.
pub open spec fn checked_in(v: RadioView, g: Option<WidgetId>) -> bool {
    if v.grouped { g == Some(v.state.id) } else { v.own_checked }
}

/// The group and button after setting the button checked or not: a
/// grouped button selects itself, or clears the group if it was the one
/// selected; the dot jumps to full or none.
pub open spec fn set_checked_spec(v: RadioView, g: Option<WidgetId>, checked: bool) -> (RadioView, Option<WidgetId>) {
    let g2 = if v.grouped {
        if checked { Some(v.state.id) } else if g == Some(v.state.id) { None } else { g }
    } else {
        g
    };
    let v2 = RadioView {
        own_checked: if v.grouped { v.own_checked } else { checked },
        dot: if checked { 1000 } else { 0 },
        ..v
    };
    (v2, g2)
}

/// The dot snapped to the state when it is off by more than a thousandth.
pub open spec fn synced(v: RadioView, g: Option<WidgetId>) -> RadioView {
    let t: int = if checked_in(v, g) { 1000 } else { 0 };
    let d = v.dot as int;
    if d - t > 1 || t - d > 1 { RadioView { dot: t as u32, ..v } } else { v }
}

/// One frame of the dot moving toward the state.
pub open spec fn animated(v: RadioView, g: Option<WidgetId>) -> RadioView {
    let t: int = if checked_in(v, g) { 1000 } else { 0 };
    let d = v.dot as int;
    let n = if d < t {
        if d + 80 < t { d + 80 } else { t }
    } else if d > t {
        if d - 80 > t { d - 80 } else { t }
    } else {
        d
    };
    RadioView { dot: n as u32, ..v }
}

/// The button's answer to an event with group selection `g`: the new
/// button and group, the result, and the change to report, if any. A left
/// press on the button arms it and the release on it checks it; a release
/// elsewhere disarms it. A frame tick moves the dot and is consumed while
/// the dot is between none and full.
pub open spec fn radio_event(v: RadioView, g: Option<WidgetId>, e: Event) -> (RadioView, Option<WidgetId>, EventResult, Option<bool>) {
    if !v.state.enabled || !v.state.visible {
        (v, g, EventResult::Ignored, None)
    } else {
        let s = synced(v, g);
        match e {
            Event::MouseButton(mb) => if mb.button == MouseButton::Left {
                if s.state.bounds.contains_spec(mb.position) {
                    if mb.pressed {
                        (RadioView { pressed: true, ..s }, g, EventResult::Consumed, None)
                    } else if s.pressed {
                        let s2 = RadioView { pressed: false, ..s };
                        if !checked_in(s2, g) {
                            let (s3, g3) = set_checked_spec(s2, g, true);
                            (s3, g3, EventResult::Consumed, Some(true))
                        } else {
                            (s2, g, EventResult::Consumed, None)
                        }
                    } else {
                        (s, g, EventResult::Consumed, None)
                    }
                } else {
                    (RadioView { pressed: false, ..s }, g, EventResult::Ignored, None)
                }
            } else {
                (s, g, EventResult::Ignored, None)
            },
            Event::MouseMove(mm) => {
                let h = s.state.bounds.contains_spec(mm.position);
                (RadioView { hover: h, ..s }, g, if h != s.hover { EventResult::Consumed } else { EventResult::Ignored }, None)
            },
            Event::Update => {
                let s2 = animated(s, g);
                (s2, g, if 0 < s2.dot < 1000 { EventResult::Consumed } else { EventResult::Ignored }, None)
            },
            _ => (s, g, EventResult::Ignored, None),
        }
    }
}

/// Within one group, checking a button leaves every other button of the
/// group unchecked.
pub proof fn law_group_is_exclusive(a: RadioView, b: RadioView, g: Option<WidgetId>)
    requires
        a.grouped,
        b.grouped,
        a.state.id != b.state.id,
    ensures
        checked_in(a, set_checked_spec(a, g, true).1),
        !checked_in(b, set_checked_spec(a, g, true).1),
{
}

/// Checking a button and then unchecking it leaves it unchecked and, for
/// a grouped button, the group with nothing selected.
pub proof fn law_uncheck_undoes_check(a: RadioView, g: Option<WidgetId>)
    ensures
        !checked_in(
            set_checked_spec(set_checked_spec(a, g, true).0, set_checked_spec(a, g, true).1, false).0,
            set_checked_spec(set_checked_spec(a, g, true).0, set_checked_spec(a, g, true).1, false).1,
        ),
        a.grouped ==> set_checked_spec(set_checked_spec(a, g, true).0, set_checked_spec(a, g, true).1, false).1 is None,
{
}

/// Width and height of the label at three fifths of the font size per
/// byte, none when empty.
pub open spec fn label_size(text_bytes: int, font: int) -> (int, int) {
    if text_bytes > 0 { (crate::geometry::trunc_div(text_bytes * font * 3, 5), font) } else { (0, 0) }
}

/// The size a radio button asks for: the button and the label side by
/// side or one above the other, a small gap between.
pub open spec fn radio_size(pos: LabelPosition, text_bytes: int, t: ThemeMetrics) -> (int, int) {
    let (tw, th) = label_size(text_bytes, t.font_size_base as int);
    match pos {
        LabelPosition::Left | LabelPosition::Right => (16 + t.gap_small + tw, if th > 16 { th } else { 16 }),
        LabelPosition::Top | LabelPosition::Bottom => (if tw > 16 { tw } else { 16 }, 16 + t.gap_small + th),
    }
}

/// A radio button with a label.
pub struct RadioButton {
    state: WidgetState,
    text: String,
    grouped: bool,
    initially_checked: bool,
    label_position: LabelPosition,
    hover: bool,
    pressed: bool,
    dot: u32,
}

impl RadioButton {
    pub closed spec fn view(&self) -> RadioView {
        RadioView {
            state: self.state,
            text: self.text@,
            grouped: self.grouped,
            own_checked: self.initially_checked,
            label_position: self.label_position,
            hover: self.hover,
            pressed: self.pressed,
            dot: self.dot,
        }
    }

    /// An unchecked button without group, label on the right.
    pub fn new(id: WidgetId, text: &str) -> (r: RadioButton)
        ensures
            r.view() == (RadioView {
                state: WidgetState::new_spec(id),
                text: text@,
                grouped: false,
                own_checked: false,
                label_position: LabelPosition::Right,
                hover: false,
                pressed: false,
                dot: 0,
            }),
    {
        RadioButton {
            state: WidgetState::new(id),
            text: String::from_str(text),
            grouped: false,
            initially_checked: false,
            label_position: LabelPosition::Right,
            hover: false,
            pressed: false,
            dot: 0,
        }
    }

    /// Puts the button in `group`; a button already checked selects itself
    /// there.
    pub fn with_group(self, group: &mut RadioGroup) -> (r: RadioButton)
        ensures
            r.view() == (RadioView { grouped: true, ..self.view() }),
            self.view().own_checked ==> final(group).selection() == Some(self.view().state.id),
            !self.view().own_checked ==> final(group).selection() == old(group).selection(),
    {
        if self.initially_checked {
            group.select(self.state.id);
        }
        RadioButton { grouped: true, ..self }
    }

    /// Checks or unchecks the button before it is shown; a grouped button
    /// selects itself in `group`, or clears it if it was the one selected.
    pub fn with_checked(self, checked: bool, group: &mut RadioGroup) -> (r: RadioButton)
        ensures
            r.view() == (RadioView { own_checked: checked, dot: if checked { 1000 } else { 0 }, ..self.view() }),
            final(group).selection() == (if self.view().grouped {
                if checked {
                    Some(self.view().state.id)
                } else if old(group).selection() == Some(self.view().state.id) {
                    None
                } else {
                    old(group).selection()
                }
            } else {
                old(group).selection()
            }),
    {
        let mut r = self;
        r.initially_checked = checked;
        if checked {
            if r.grouped {
                group.select(r.state.id);
            }
            r.dot = 1000;
        } else {
            if r.grouped && group.is_selected(r.state.id) {
                group.clear();
            }
            r.dot = 0;
        }
        r
    }

    pub fn with_label_position(self, position: LabelPosition) -> (r: RadioButton)
        ensures
            r.view() == (RadioView { label_position: position, ..self.view() }),
    {
        RadioButton { label_position: position, ..self }
    }

    /// Whether the button is in a group.
    pub fn is_grouped(&self) -> (b: bool)
        ensures
            b == self.view().grouped,
    {
        self.grouped
    }

    /// Whether the button is checked, its group being `group`.
    pub fn is_checked(&self, group: &RadioGroup) -> (b: bool)
        ensures
            b == checked_in(self.view(), group.selection()),
    {
        if self.grouped {
            group.is_selected(self.state.id)
        } else {
            self.initially_checked
        }
    }

    /// Checks or unchecks the button; returns the change to report, if
    /// any. See [`set_checked_spec`].
    pub fn set_checked(&mut self, checked: bool, group: &mut RadioGroup) -> (changed: Option<bool>)
        ensures
            (final(self).view(), final(group).selection()) == set_checked_spec(old(self).view(), old(group).selection(), checked),
            changed == (if checked_in(old(self).view(), old(group).selection()) != checked { Some(checked) } else { None }),
    {
        let was = self.is_checked(group);
        if self.grouped {
            if checked {
                group.select(self.state.id);
            } else if group.is_selected(self.state.id) {
                group.clear();
            }
        } else {
            self.initially_checked = checked;
        }
        self.dot = if checked {
            1000
        } else {
            0
        };
        if was != checked {
            Some(checked)
        } else {
            None
        }
    }

    fn sync_dot(&mut self, group: &RadioGroup)
        ensures
            final(self).view() == synced(old(self).view(), group.selection()),
    {
        let t: u32 = if self.is_checked(group) {
            1000
        } else {
            0
        };
        let off = if self.dot > t {
            self.dot - t
        } else {
            t - self.dot
        };
        if off > 1 {
            self.dot = t;
        }
    }

    fn animate_dot(&mut self, group: &RadioGroup)
        ensures
            final(self).view() == animated(old(self).view(), group.selection()),
    {
        let t: u32 = if self.is_checked(group) {
            1000
        } else {
            0
        };
        if self.dot < t {
            self.dot = if t - self.dot > DOT_STEP {
                self.dot + DOT_STEP
            } else {
                t
            };
        } else if self.dot > t {
            self.dot = if self.dot - t > DOT_STEP {
                self.dot - DOT_STEP
            } else {
                t
            };
        }
    }

    /// Handles an event, `group` being the button's group; returns the
    /// result and the change to report, if any. See [`radio_event`].
    pub fn handle_event(&mut self, event: &Event, group: &mut RadioGroup) -> (r: (EventResult, Option<bool>))
        ensures
            (final(self).view(), final(group).selection(), r.0, r.1) == radio_event(old(self).view(), old(group).selection(), *event),
    {
        if !self.state.enabled || !self.state.visible {
            return (EventResult::Ignored, None);
        }
        self.sync_dot(group);
        match event {
            Event::MouseButton(mb) => {
                match mb.button {
                    MouseButton::Left => {},
                    _ => {
                        return (EventResult::Ignored, None);
                    },
                }
                if self.state.bounds.contains(mb.position) {
                    if mb.pressed {
                        self.pressed = true;
                        (EventResult::Consumed, None)
                    } else if self.pressed {
                        self.pressed = false;
                        if !self.is_checked(group) {
                            let c = self.set_checked(true, group);
                            (EventResult::Consumed, c)
                        } else {
                            (EventResult::Consumed, None)
                        }
                    } else {
                        (EventResult::Consumed, None)
                    }
                } else {
                    self.pressed = false;
                    (EventResult::Ignored, None)
                }
            },
            Event::MouseMove(mm) => {
                let was = self.hover;
                self.hover = self.state.bounds.contains(mm.position);
                if was != self.hover {
                    (EventResult::Consumed, None)
                } else {
                    (EventResult::Ignored, None)
                }
            },
            Event::Update => {
                self.animate_dot(group);
                if 0 < self.dot && self.dot < 1000 {
                    (EventResult::Consumed, None)
                } else {
                    (EventResult::Ignored, None)
                }
            },
            _ => (EventResult::Ignored, None),
        }
    }

    /// How far the selection dot is drawn, in thousandths of its full size.
    pub fn dot_progress(&self) -> (d: u32)
        ensures
            d == self.view().dot,
    {
        self.dot
    }

    pub fn is_hovered(&self) -> (b: bool)
        ensures
            b == self.view().hover,
    {
        self.hover
    }

    pub fn is_pressed(&self) -> (b: bool)
        ensures
            b == self.view().pressed,
    {
        self.pressed
    }

    /// The size the button asks for under `theme`; see [`radio_size`].
    pub fn measure(&self, theme: &ThemeMetrics) -> (s: Size)
        requires
            utf8_len(self.view().text) <= i32::MAX,
            fits_i32(utf8_len(self.view().text) * theme.font_size_base),
            fits_i32(utf8_len(self.view().text) * theme.font_size_base * 3),
            fits_i32(16 + theme.gap_small),
            fits_i32(radio_size(self.view().label_position, utf8_len(self.view().text) as int, *theme).0),
            fits_i32(radio_size(self.view().label_position, utf8_len(self.view().text) as int, *theme).1),
        ensures
            (s.width as int, s.height as int) == radio_size(self.view().label_position, utf8_len(self.view().text) as int, *theme),
    {
        let n = byte_len(&self.text);
        let font = theme.font_size_base;
        let (tw, th): (i32, i32) = if n > 0 {
            ((n as i32) * font * 3 / 5, font)
        } else {
            (0, 0)
        };
        let sp = theme.gap_small;
        match self.label_position {
            LabelPosition::Left | LabelPosition::Right => Size::new(BUTTON_SIZE + sp + tw, if th > BUTTON_SIZE { th } else { BUTTON_SIZE }),
            LabelPosition::Top | LabelPosition::Bottom => Size::new(if tw > BUTTON_SIZE { tw } else { BUTTON_SIZE }, BUTTON_SIZE + sp + th),
        }
    }

    pub fn layout(&mut self, rect: Rect)
        ensures
            final(self).view() == (RadioView { state: WidgetState { bounds: rect, ..old(self).view().state }, ..old(self).view() }),
    {
        self.state.bounds = rect;
    }

    pub fn id(&self) -> (r: WidgetId)
        ensures
            r == self.view().state.id,
    {
        self.state.id
    }

    pub fn bounds(&self) -> (r: Rect)
        ensures
            r == self.view().state.bounds,
    {
        self.state.bounds
    }

    pub fn set_bounds(&mut self, bounds: Rect)
        ensures
            final(self).view() == (RadioView { state: WidgetState { bounds, ..old(self).view().state }, ..old(self).view() }),
    {
        self.state.bounds = bounds;
    }

    pub fn is_visible(&self) -> (b: bool)
        ensures
            b == self.view().state.visible,
    {
        self.state.visible
    }

    pub fn set_visible(&mut self, visible: bool)
        ensures
            final(self).view() == (RadioView { state: WidgetState { visible, ..old(self).view().state }, ..old(self).view() }),
    {
        self.state.visible = visible;
    }

    pub fn is_enabled(&self) -> (b: bool)
        ensures
            b == self.view().state.enabled,
    {
        self.state.enabled
    }

    pub fn set_enabled(&mut self, enabled: bool)
        ensures
            final(self).view() == (RadioView { state: WidgetState { enabled, ..old(self).view().state }, ..old(self).view() }),
    {
        self.state.enabled = enabled;
    }

    pub fn is_focused(&self) -> (b: bool)
        ensures
            b == self.view().state.focused,
    {
        self.state.focused
    }

    pub fn set_focused(&mut self, focused: bool)
        ensures
            final(self).view() == (RadioView { state: WidgetState { focused, ..old(self).view().state }, ..old(self).view() }),
    {
        self.state.focused = focused;
    }

    pub fn can_focus(&self) -> (b: bool)
        ensures
            b == (self.view().state.enabled && self.view().state.visible),
    {
        self.state.enabled && self.state.visible
    }
}

} // verus!
