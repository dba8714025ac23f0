//! A viewport onto one child that scrolls with the mouse wheel, keeping
//! the offset within the content.

use vstd::prelude::*;
use crate::geometry::{Point, Rect, Size, WidgetId, fits_i32};
use crate::event::{Event, EventResult};
use crate::widget::WidgetState;

verus! {

/// The mathematical state of a [`ScrollView`].
pub struct ScrollViewView {
    pub state: WidgetState,
    pub child: Option<WidgetId>,
    pub offset: Point,
    pub content: Size,
    pub show_horizontal: bool,
    pub show_vertical: bool,
    pub bar_width: i32,
}

pub open spec fn needs_vertical(v: ScrollViewView) -> bool {
    v.content.height > v.state.bounds.height
}

pub open spec fn needs_horizontal(v: ScrollViewView) -> bool {
    v.content.width > v.state.bounds.width
}

/// The visible part: the bounds less a scroll bar on each side that
/// needs and shows one.
pub open spec fn viewport(v: ScrollViewView) -> (int, int) {
    let b = v.state.bounds;
    (
        b.width - (if v.show_vertical && needs_vertical(v) { v.bar_width as int } else { 0 }),
        b.height - (if v.show_horizontal && needs_horizontal(v) { v.bar_width as int } else { 0 }),
    )
}

/// `o` kept between 0 and `content - view` (0 when the content fits).
pub open spec fn clamp_axis(o: int, content: int, view: int) -> int {
    let m = if content - view > 0 { content - view } else { 0 };
    let lo = if o > 0 { o } else { 0 };
    if lo < m { lo } else { m }
}

/// The view with its offset clamped on both axes.
pub open spec fn clamped(v: ScrollViewView) -> ScrollViewView {
    let (vw, vh) = viewport(v);
    ScrollViewView {
        offset: Point {
            x: clamp_axis(v.offset.x as int, v.content.width as int, vw) as i32,
            y: clamp_axis(v.offset.y as int, v.content.height as int, vh) as i32,
        },
        ..v
    }
}

/// Everything the view computes is an `i32`.
pub open spec fn scroll_fits(v: ScrollViewView) -> bool {
    let b = v.state.bounds;
    &&& fits_i32(b.width - v.bar_width)
    &&& fits_i32(b.height - v.bar_width)
    &&& fits_i32(v.content.width - viewport(v).0)
    &&& fits_i32(v.content.height - viewport(v).1)
    &&& fits_i32(b.x + b.width)
    &&& fits_i32(b.y + b.height)
    &&& fits_i32(b.x + b.width - v.bar_width)
    &&& fits_i32(b.y + b.height - v.bar_width)
}

/// A wheel turn by `d` notches over the view scrolls 20 pixels a notch,
/// then the offset is clamped.
pub open spec fn wheel_spec(v: ScrollViewView, d: Point) -> ScrollViewView {
    clamped(ScrollViewView {
        offset: Point { x: (v.offset.x - d.x * 20) as i32, y: (v.offset.y - d.y * 20) as i32 },
        ..v
    })
}

pub open spec fn wheel_fits(v: ScrollViewView, d: Point) -> bool {
    &&& fits_i32(d.x * 20)
    &&& fits_i32(d.y * 20)
    &&& fits_i32(v.offset.x - d.x * 20)
    &&& fits_i32(v.offset.y - d.y * 20)
}

pub struct ScrollView {
    state: WidgetState,
    child: Option<WidgetId>,
    scroll_offset: Point,
    content_size: Size,
    show_horizontal_scrollbar: bool,
    show_vertical_scrollbar: bool,
    scrollbar_width: i32,
}

impl ScrollView {
    pub closed spec fn view(&self) -> ScrollViewView {
        ScrollViewView {
            state: self.state,
            child: self.child,
            offset: self.scroll_offset,
            content: self.content_size,
            show_horizontal: self.show_horizontal_scrollbar,
            show_vertical: self.show_vertical_scrollbar,
            bar_width: self.scrollbar_width,
        }
    }

    /// An empty view, both scroll bars allowed, 12 pixels wide.
    pub fn new(id: WidgetId) -> (s: ScrollView)
        ensures
            s.view() == (ScrollViewView {
                state: WidgetState::new_spec(id),
                child: None,
                offset: Point { x: 0, y: 0 },
                content: Size { width: 0, height: 0 },
                show_horizontal: true,
                show_vertical: true,
                bar_width: 12,
            }),
    {
        ScrollView {
            state: WidgetState::new(id),
            child: None,
            scroll_offset: Point::zero(),
            content_size: Size::new(0, 0),
            show_horizontal_scrollbar: true,
            show_vertical_scrollbar: true,
            scrollbar_width: 12,
        }
    }

    pub fn with_child(self, child: WidgetId) -> (s: ScrollView)
        ensures
            s.view() == (ScrollViewView { child: Some(child), ..self.view() }),
    {
        ScrollView { child: Some(child), ..self }
    }

    pub fn set_child(&mut self, child: Option<WidgetId>)
        ensures
            final(self).view() == (ScrollViewView { child, ..old(self).view() }),
    {
        self.child = child;
    }

    /// The child, as a list of at most one.
    pub fn children(&self) -> (c: Vec<WidgetId>)
        ensures
            c@ == (match self.view().child { Some(id) => seq![id], None => Seq::<WidgetId>::empty() }),
    {
        let mut c: Vec<WidgetId> = Vec::new();
        match self.child {
            Some(id) => c.push(id),
            None => {},
        }
        assert(c@ =~= (match self.view().child { Some(id) => seq![id], None => Seq::<WidgetId>::empty() }));
        c
    }

    pub fn scroll_offset(&self) -> (p: Point)
        ensures
            p == self.view().offset,
    {
        self.scroll_offset
    }

    pub fn content_size(&self) -> (s: Size)
        ensures
            s == self.view().content,
    {
        self.content_size
    }

    fn viewport_size(&self) -> (s: Size)
        requires
            scroll_fits(self.view()),
        ensures
            s.width == viewport(self.view()).0,
            s.height == viewport(self.view()).1,
    {
        let mut width = self.state.bounds.width;
        let mut height = self.state.bounds.height;
        if self.show_vertical_scrollbar && self.content_size.height > self.state.bounds.height {
            width = width - self.scrollbar_width;
        }
        if self.show_horizontal_scrollbar && self.content_size.width > self.state.bounds.width {
            height = height - self.scrollbar_width;
        }
        Size::new(width, height)
    }

    fn clamp_scroll_offset(&mut self)
        requires
            scroll_fits(old(self).view()),
        ensures
            final(self).view() == clamped(old(self).view()),
    {
        let vp = self.viewport_size();
        let mx = self.content_size.width - vp.width;
        let mx = if mx > 0 { mx } else { 0 };
        let my = self.content_size.height - vp.height;
        let my = if my > 0 { my } else { 0 };
        let x = if self.scroll_offset.x > 0 { self.scroll_offset.x } else { 0 };
        let y = if self.scroll_offset.y > 0 { self.scroll_offset.y } else { 0 };
        self.scroll_offset = Point::new(if x < mx { x } else { mx }, if y < my { y } else { my });
    }

    /// Scrolls to `offset`, clamped to the content.
    pub fn set_scroll_offset(&mut self, offset: Point)
        requires
            scroll_fits(old(self).view()),
        ensures
            final(self).view() == clamped(ScrollViewView { offset, ..old(self).view() }),
    {
        self.scroll_offset = offset;
        self.clamp_scroll_offset();
    }

    /// Scrolls to the top (the horizontal offset stays).
    pub fn scroll_to_top(&mut self)
        ensures
            final(self).view() == (ScrollViewView {
                offset: Point { y: 0, ..old(self).view().offset },
                ..old(self).view()
            }),
    {
        self.scroll_offset.y = 0;
    }

    /// Scrolls to the bottom of the content (to the top when it fits).
    pub fn scroll_to_bottom(&mut self)
        requires
            scroll_fits(old(self).view()),
        ensures
            ({
                let v = old(self).view();
                let m = v.content.height - viewport(v).1;
                final(self).view() == (ScrollViewView {
                    offset: Point { y: (if m > 0 { m } else { 0 }) as i32, ..v.offset },
                    ..v
                })
            }),
    {
        let vp = self.viewport_size();
        let m = self.content_size.height - vp.height;
        self.scroll_offset.y = if m > 0 { m } else { 0 };
    }

    /// The vertical scroll bar's track, along the right edge.
    pub fn vertical_scrollbar_rect(&self) -> (r: Rect)
        requires
            scroll_fits(self.view()),
        ensures
            r == (Rect {
                x: (self.view().state.bounds.x + self.view().state.bounds.width - self.view().bar_width) as i32,
                y: self.view().state.bounds.y,
                width: self.view().bar_width,
                height: viewport(self.view()).1 as i32,
            }),
    {
        let vp = self.viewport_size();
        Rect::new(
            self.state.bounds.x + self.state.bounds.width - self.scrollbar_width,
            self.state.bounds.y,
            self.scrollbar_width,
            vp.height,
        )
    }

    /// The horizontal scroll bar's track, along the bottom edge.
    pub fn horizontal_scrollbar_rect(&self) -> (r: Rect)
        requires
            scroll_fits(self.view()),
        ensures
            r == (Rect {
                x: self.view().state.bounds.x,
                y: (self.view().state.bounds.y + self.view().state.bounds.height - self.view().bar_width) as i32,
                width: viewport(self.view()).0 as i32,
                height: self.view().bar_width,
            }),
    {
        let vp = self.viewport_size();
        Rect::new(
            self.state.bounds.x,
            self.state.bounds.y + self.state.bounds.height - self.scrollbar_width,
            vp.width,
            self.scrollbar_width,
        )
    }

    /// 400 by 300 unless constrained.
    pub fn measure(&self, max_width: Option<i32>, max_height: Option<i32>) -> (s: Size)
        ensures
            s.width == (match max_width { Some(w) => w, None => 400 }),
            s.height == (match max_height { Some(h) => h, None => 300 }),
    {
        let width = match max_width {
            Some(w) => w,
            None => 400,
        };
        let height = match max_height {
            Some(h) => h,
            None => 300,
        };
        Size::new(width, height)
    }

    /// Places the view; with a child the content is taken to be 800 by
    /// 1200 pixels. The offset is clamped.
    pub fn layout(&mut self, rect: Rect)
        requires
            ({
                let v = old(self).view();
                let v1 = ScrollViewView {
                    state: WidgetState { bounds: rect, ..v.state },
                    content: if v.child is Some { Size { width: 800, height: 1200 } } else { v.content },
                    ..v
                };
                scroll_fits(v1)
            }),
        ensures
            ({
                let v = old(self).view();
                let v1 = ScrollViewView {
                    state: WidgetState { bounds: rect, ..v.state },
                    content: if v.child is Some { Size { width: 800, height: 1200 } } else { v.content },
                    ..v
                };
                final(self).view() == clamped(v1)
            }),
    {
        self.state.bounds = rect;
        if self.child.is_some() {
            self.content_size = Size::new(800, 1200);
        }
        self.clamp_scroll_offset();
    }

    /// A wheel turn over the view scrolls it; see [`wheel_spec`].
    pub fn handle_event(&mut self, event: &Event) -> (r: EventResult)
        requires
            scroll_fits(old(self).view()),
            event matches Event::MouseWheel(w) ==> wheel_fits(old(self).view(), w.delta),
        ensures
            ({
                let v = old(self).view();
                match *event {
                    Event::MouseWheel(w) => if v.state.enabled && v.state.visible && v.state.bounds.contains_spec(w.position) {
                        final(self).view() == wheel_spec(v, w.delta) && r == EventResult::Consumed
                    } else {
                        final(self).view() == v && r == EventResult::Ignored
                    },
                    _ => final(self).view() == v && r == EventResult::Ignored,
                }
            }),
    {
        if !self.state.enabled || !self.state.visible {
            return EventResult::Ignored;
        }
        match event {
            Event::MouseWheel(w) => {
                if self.state.bounds.contains(w.position) {
                    self.scroll_offset.x = self.scroll_offset.x - w.delta.x * 20;
                    self.scroll_offset.y = self.scroll_offset.y - w.delta.y * 20;
                    self.clamp_scroll_offset();
                    EventResult::Consumed
                } else {
                    EventResult::Ignored
                }
            },
            _ => EventResult::Ignored,
        }
    }

    pub fn id(&self) -> (id: WidgetId)
        ensures
            id == self.view().state.id,
    {
        self.state.id
    }

    pub fn bounds(&self) -> (r: Rect)
        ensures
            r == self.view().state.bounds,
    {
        self.state.bounds
    }

    pub fn set_bounds(&mut self, bounds: Rect)
        ensures
            final(self).view() == (ScrollViewView { state: WidgetState { bounds, ..old(self).view().state }, ..old(self).view() }),
    {
        self.state.bounds = bounds;
    }

    pub fn is_visible(&self) -> (b: bool)
        ensures
            b == self.view().state.visible,
    {
        self.state.visible
    }

    pub fn set_visible(&mut self, visible: bool)
        ensures
            final(self).view() == (ScrollViewView { state: WidgetState { visible, ..old(self).view().state }, ..old(self).view() }),
    {
        self.state.visible = visible;
    }

    pub fn is_enabled(&self) -> (b: bool)
        ensures
            b == self.view().state.enabled,
    {
        self.state.enabled
    }

    pub fn set_enabled(&mut self, enabled: bool)
        ensures
            final(self).view() == (ScrollViewView { state: WidgetState { enabled, ..old(self).view().state }, ..old(self).view() }),
    {
        self.state.enabled = enabled;
    }

    /// A scroll view never takes the focus itself.
    pub fn is_focused(&self) -> (b: bool)
        ensures
            !b,
    {
        false
    }

    pub fn set_focused(&mut self, _focused: bool)
        ensures
            final(self).view() == old(self).view(),
    {
    }

    pub fn can_focus(&self) -> (b: bool)
        ensures
            !b,
    {
        false
    }
}

/// A clamped offset lies between 0 and the content's overhang on each
/// axis.
pub proof fn law_clamped_offset_in_range(v: ScrollViewView)
    requires
        scroll_fits(v),
    ensures
        ({
            let c = clamped(v);
            let (vw, vh) = viewport(v);
            &&& 0 <= c.offset.x
            &&& c.offset.x <= (if v.content.width - vw > 0 { v.content.width - vw } else { 0 })
            &&& 0 <= c.offset.y
            &&& c.offset.y <= (if v.content.height - vh > 0 { v.content.height - vh } else { 0 })
        }),
{
}

/// Clamping twice is clamping once.
pub proof fn law_clamp_idempotent(v: ScrollViewView)
    requires
        scroll_fits(v),
    ensures
        clamped(clamped(v)) == clamped(v),
{
}

} // verus!
