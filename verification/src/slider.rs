//! Sliders: where the track and thumb lie, how the layout picks the
//! orientation, and what a pointer event does. The value itself is a
//! floating-point number the host keeps: it maps the thumb's offset along
//! the track to and from the value.

use vstd::prelude::*;
use crate::geometry::{Point, Rect, Size, WidgetId, fits_i32, trunc_div};
use crate::event::{Event, EventResult, MouseButton};
use crate::widget::WidgetState;

verus! {

#[derive(Clone, Copy, Debug, PartialEq, Eq, Structural)]
pub enum SliderOrientation {
    Horizontal,
    Vertical,
}

/// Everything of a slider but its value: its state, orientation, whether
/// the thumb is being dragged or hovered, and the sizes of thumb and track.
#[derive(Clone, Copy, Debug, PartialEq, Eq, Structural)]
pub struct SliderControl {
    pub state: WidgetState,
    pub orientation: SliderOrientation,
    pub is_dragging: bool,
    pub is_hovering: bool,
    pub thumb_size: i32,
    pub track_thickness: i32,
}

/// The track: inset by half a thumb at both ends, `thickness` across,
/// centred across the bounds.
pub open spec fn track_rect_spec(c: SliderControl) -> Rect {
    let b = c.state.bounds;
    match c.orientation {
        SliderOrientation::Horizontal => Rect {
            x: (b.x + trunc_div(c.thumb_size as int, 2)) as i32,
            y: (b.center_y_spec() - trunc_div(c.track_thickness as int, 2)) as i32,
            width: (b.width - c.thumb_size) as i32,
            height: c.track_thickness,
        },
        SliderOrientation::Vertical => Rect {
            x: (b.center_x_spec() - trunc_div(c.track_thickness as int, 2)) as i32,
            y: (b.y + trunc_div(c.thumb_size as int, 2)) as i32,
            width: c.track_thickness,
            height: (b.height - c.thumb_size) as i32,
        },
    }
}

/// The thumb when its centre lies `along` pixels along the track: from
/// the left end, or up from the bottom end of a vertical track.
pub open spec fn thumb_rect_spec(c: SliderControl, along: int) -> Rect {
    let b = c.state.bounds;
    let t = track_rect_spec(c);
    let half = trunc_div(c.thumb_size as int, 2);
    match c.orientation {
        SliderOrientation::Horizontal => Rect {
            x: (t.x + along - half) as i32,
            y: (b.center_y_spec() - half) as i32,
            width: c.thumb_size,
            height: c.thumb_size,
        },
        SliderOrientation::Vertical => Rect {
            x: (b.center_x_spec() - half) as i32,
            y: (t.y + t.height - along - half) as i32,
            width: c.thumb_size,
            height: c.thumb_size,
        },
    }
}

/// Every coordinate of the track is an `i32`.
pub open spec fn track_fits(c: SliderControl) -> bool {
    let b = c.state.bounds;
    let half = trunc_div(c.thumb_size as int, 2);
    &&& c.thumb_size >= 0
    &&& c.track_thickness >= 0
    &&& fits_i32(b.center_x_spec())
    &&& fits_i32(b.center_y_spec())
    &&& fits_i32(b.x + half)
    &&& fits_i32(b.y + half)
    &&& fits_i32(b.width - c.thumb_size)
    &&& fits_i32(b.height - c.thumb_size)
    &&& fits_i32(b.center_x_spec() - trunc_div(c.track_thickness as int, 2))
    &&& fits_i32(b.center_y_spec() - trunc_div(c.track_thickness as int, 2))
    &&& fits_i32(b.center_x_spec() - half)
    &&& fits_i32(b.center_y_spec() - half)
}

/// Every coordinate of the track, and of the thumb `along` pixels along
/// it, is an `i32`.
pub open spec fn slider_fits(c: SliderControl, along: int) -> bool {
    let half = trunc_div(c.thumb_size as int, 2);
    let t = track_rect_spec(c);
    &&& track_fits(c)
    &&& fits_i32(t.x + along)
    &&& fits_i32(t.x + along - half)
    &&& fits_i32(t.y + t.height)
    &&& fits_i32(t.y + t.height - along)
    &&& fits_i32(t.y + t.height - along - half)
}

/// The slider's answer to an event, the thumb lying `along` pixels along
/// the track: the new control, whether the event was consumed, and the
/// point whose position along the track the value is to take, if any. A
/// hidden or disabled slider ignores everything. A move sets the hover
/// over the thumb and, while dragging, moves the value; a left press on
/// the thumb starts a drag, one elsewhere on the track also moves the
/// value there; releasing the left button ends a drag.
pub open spec fn slider_event(c: SliderControl, e: Event, along: int) -> (SliderControl, EventResult, Option<Point>) {
    if !c.state.visible || !c.state.enabled {
        (c, EventResult::Ignored, None)
    } else {
        let thumb = thumb_rect_spec(c, along);
        match e {
            Event::MouseMove(m) => {
                let c1 = SliderControl { is_hovering: thumb.contains_spec(m.position), ..c };
                if c.is_dragging {
                    (c1, EventResult::Consumed, Some(m.position))
                } else {
                    (c1, EventResult::Ignored, None)
                }
            },
            Event::MouseButton(b) => if b.button != MouseButton::Left {
                (c, EventResult::Ignored, None)
            } else if b.pressed {
                if thumb.contains_spec(b.position) {
                    (SliderControl { is_dragging: true, ..c }, EventResult::Consumed, None)
                } else if track_rect_spec(c).contains_spec(b.position) {
                    (SliderControl { is_dragging: true, ..c }, EventResult::Consumed, Some(b.position))
                } else {
                    (c, EventResult::Ignored, None)
                }
            } else if c.is_dragging {
                (SliderControl { is_dragging: false, ..c }, EventResult::Consumed, None)
            } else {
                (c, EventResult::Ignored, None)
            },
            _ => (c, EventResult::Ignored, None),
        }
    }
}

/// The orientation after a layout into `r`: horizontal when it is more
/// than twice as wide as high, vertical when more than twice as high as
/// wide, else as it was.
pub open spec fn laid_out_orientation(o: SliderOrientation, r: Rect) -> SliderOrientation {
    if r.width > r.height * 2 {
        SliderOrientation::Horizontal
    } else if r.height > r.width * 2 {
        SliderOrientation::Vertical
    } else {
        o
    }
}

impl SliderControl {
    /// A horizontal slider, not dragged or hovered, with a 20-pixel thumb
    /// on a 6-pixel track.
    pub fn new(id: WidgetId) -> (c: SliderControl)
        ensures
            c == (SliderControl {
                state: WidgetState::new_spec(id),
                orientation: SliderOrientation::Horizontal,
                is_dragging: false,
                is_hovering: false,
                thumb_size: 20,
                track_thickness: 6,
            }),
    {
        SliderControl {
            state: WidgetState::new(id),
            orientation: SliderOrientation::Horizontal,
            is_dragging: false,
            is_hovering: false,
            thumb_size: 20,
            track_thickness: 6,
        }
    }

    pub fn with_orientation(self, orientation: SliderOrientation) -> (c: SliderControl)
        ensures
            c == (SliderControl { orientation, ..self }),
    {
        SliderControl { orientation, ..self }
    }

    /// Whether the track and the thumb `along` pixels along it can be
    /// computed; see [`slider_fits`].
    pub fn fits(&self, along: i32) -> (b: bool)
        ensures
            b == slider_fits(*self, along as int),
    {
        let b = self.state.bounds;
        let (x, y, w, h) = (b.x as i64, b.y as i64, b.width as i64, b.height as i64);
        let th = self.thumb_size as i64;
        let tk = self.track_thickness as i64;
        let a = along as i64;
        if th < 0 || tk < 0 {
            return false;
        }
        let half = th / 2;
        let cx = x + w / 2;
        let cy = y + h / 2;
        let lo = i32::MIN as i64;
        let hi = i32::MAX as i64;
        let ok_track = lo <= cx && cx <= hi && lo <= cy && cy <= hi && x + half <= hi && y + half <= hi
            && lo <= w - th && lo <= h - th && lo <= cx - tk / 2 && lo <= cy - tk / 2 && lo <= cx - half
            && lo <= cy - half;
        if !ok_track {
            return false;
        }
        let (tx, ty, tw, tht) = match self.orientation {
            SliderOrientation::Horizontal => (x + half, cy - tk / 2, w - th, tk),
            SliderOrientation::Vertical => (cx - tk / 2, y + half, tk, h - th),
        };
        let end = ty + tht;
        lo <= tx + a && tx + a <= hi && lo <= tx + a - half && tx + a - half <= hi && lo <= end && end <= hi
            && lo <= end - a && end - a <= hi && lo <= end - a - half && end - a - half <= hi
    }

    /// The track; see [`track_rect_spec`].
    pub fn track_rect(&self) -> (r: Rect)
        requires
            track_fits(*self),
        ensures
            r == track_rect_spec(*self),
    {
        let b = self.state.bounds;
        let c = b.center();
        match self.orientation {
            SliderOrientation::Horizontal => Rect::new(
                b.x + self.thumb_size / 2,
                c.y - self.track_thickness / 2,
                b.width - self.thumb_size,
                self.track_thickness,
            ),
            SliderOrientation::Vertical => Rect::new(
                c.x - self.track_thickness / 2,
                b.y + self.thumb_size / 2,
                self.track_thickness,
                b.height - self.thumb_size,
            ),
        }
    }

    /// The thumb `along` pixels along the track; see [`thumb_rect_spec`].
    pub fn thumb_rect(&self, along: i32) -> (r: Rect)
        requires
            slider_fits(*self, along as int),
        ensures
            r == thumb_rect_spec(*self, along as int),
    {
        let t = self.track_rect();
        let c = self.state.bounds.center();
        let half = self.thumb_size / 2;
        match self.orientation {
            SliderOrientation::Horizontal => Rect::new(t.x + along - half, c.y - half, self.thumb_size, self.thumb_size),
            SliderOrientation::Vertical => Rect::new(c.x - half, t.y + t.height - along - half, self.thumb_size, self.thumb_size),
        }
    }

    /// Handles an event, the thumb lying `along` pixels along the track;
    /// see [`slider_event`].
    pub fn handle_event(&mut self, event: &Event, along: i32) -> (r: (EventResult, Option<Point>))
        requires
            slider_fits(*old(self), along as int),
        ensures
            (*final(self), r.0, r.1) == slider_event(*old(self), *event, along as int),
    {
        if !self.state.visible || !self.state.enabled {
            return (EventResult::Ignored, None);
        }
        let thumb = self.thumb_rect(along);
        match event {
            Event::MouseMove(m) => {
                self.is_hovering = thumb.contains(m.position);
                if self.is_dragging {
                    (EventResult::Consumed, Some(m.position))
                } else {
                    (EventResult::Ignored, None)
                }
            },
            Event::MouseButton(b) => {
                if b.button != MouseButton::Left {
                    (EventResult::Ignored, None)
                } else if b.pressed {
                    if thumb.contains(b.position) {
                        self.is_dragging = true;
                        (EventResult::Consumed, None)
                    } else if self.track_rect().contains(b.position) {
                        self.is_dragging = true;
                        (EventResult::Consumed, Some(b.position))
                    } else {
                        (EventResult::Ignored, None)
                    }
                } else if self.is_dragging {
                    self.is_dragging = false;
                    (EventResult::Consumed, None)
                } else {
                    (EventResult::Ignored, None)
                }
            },
            _ => (EventResult::Ignored, None),
        }
    }

    /// 200 pixels along, the thumb and 4 across.
    pub fn measure(&self) -> (s: Size)
        requires
            self.thumb_size <= i32::MAX - 4,
        ensures
            s == (match self.orientation {
                SliderOrientation::Horizontal => Size { width: 200, height: (self.thumb_size + 4) as i32 },
                SliderOrientation::Vertical => Size { width: (self.thumb_size + 4) as i32, height: 200 },
            }),
    {
        match self.orientation {
            SliderOrientation::Horizontal => Size::new(200, self.thumb_size + 4),
            SliderOrientation::Vertical => Size::new(self.thumb_size + 4, 200),
        }
    }

    /// Takes the bounds `rect` and picks the orientation from its shape;
    /// see [`laid_out_orientation`].
    pub fn layout(&mut self, rect: Rect)
        ensures
            *final(self) == (SliderControl {
                state: WidgetState { bounds: rect, ..old(self).state },
                orientation: laid_out_orientation(old(self).orientation, rect),
                ..*old(self)
            }),
    {
        self.state.bounds = rect;
        let w = rect.width as i64;
        let h = rect.height as i64;
        if w > h * 2 {
            self.orientation = SliderOrientation::Horizontal;
        } else if h > w * 2 {
            self.orientation = SliderOrientation::Vertical;
        }
    }

    /// Enables or disables the slider; disabling ends a drag and the hover.
    pub fn set_enabled(&mut self, enabled: bool)
        ensures
            *final(self) == (if enabled {
                SliderControl { state: WidgetState { enabled, ..old(self).state }, ..*old(self) }
            } else {
                SliderControl {
                    state: WidgetState { enabled, ..old(self).state },
                    is_dragging: false,
                    is_hovering: false,
                    ..*old(self)
                }
            }),
    {
        self.state.enabled = enabled;
        if !enabled {
            self.is_dragging = false;
            self.is_hovering = false;
        }
    }

    pub fn set_visible(&mut self, visible: bool)
        ensures
            *final(self) == (SliderControl { state: WidgetState { visible, ..old(self).state }, ..*old(self) }),
    {
        self.state.visible = visible;
    }

    /// A slider takes the focus while enabled.
    pub fn can_focus(&self) -> (b: bool)
        ensures
            b == self.state.enabled,
    {
        self.state.enabled
    }
}

} // verus!
