//! A vertical list of rows, 24 pixels each, with a single selection (or a
//! per-row mark in multi-select mode), wheel scrolling and keyboard
//! navigation.

use vstd::prelude::*;
use crate::geometry::{Point, Rect, Size, WidgetId, fits_i32};
use crate::event::{Event, EventResult, Key, MouseButton};
use crate::widget::WidgetState;

verus! {

/// Height of every row.
pub const ITEM_HEIGHT: i32 = 24;

/// One row of a [`ListView`].
pub struct ListItem {
    pub id: String,
    pub text: String,
    pub icon: Option<String>,
    pub selected: bool,
}

/// The mathematical state of a [`ListView`].
pub struct ListViewView {
    pub state: WidgetState,
    pub items: Seq<ListItem>,
    pub selected: Option<usize>,
    pub scroll: i32,
    pub multi_select: bool,
}

/// Height of all rows.
pub open spec fn content_height(v: ListViewView) -> int {
    (v.items.len() * 24) as int
}

/// The largest scroll offset: the last row ends at the bottom of the
/// viewport; 0 when the rows fit.
pub open spec fn max_scroll(v: ListViewView) -> int {
    let m = content_height(v) - v.state.bounds.height;
    if m > 0 { m } else { 0 }
}

pub open spec fn clamped(s: int, max: int) -> int {
    if s < 0 { 0 } else if s > max { max } else { s }
}

/// The scroll offset that brings row `i` into view: unchanged when the row
/// is fully visible, else its top or bottom aligned with the viewport,
/// then clamped.
pub open spec fn scrolled_to(v: ListViewView, i: int) -> int {
    let top = i * 24;
    let bottom = top + 24;
    let vt = v.scroll as int;
    let vb = vt + v.state.bounds.height;
    let s = if top < vt { top } else if bottom > vb { bottom - v.state.bounds.height } else { vt };
    clamped(s, max_scroll(v))
}

/// The list after a selection request: an index past the end is refused
/// and changes nothing; otherwise the selection is taken and scrolled into
/// view.
pub open spec fn select_spec(v: ListViewView, index: Option<usize>) -> ListViewView {
    match index {
        Some(i) => if i < v.items.len() {
            ListViewView { selected: Some(i), scroll: scrolled_to(v, i as int) as i32, ..v }
        } else {
            v
        },
        None => ListViewView { selected: None, ..v },
    }
}

pub open spec fn select_accepted(v: ListViewView, index: Option<usize>) -> bool {
    match index {
        Some(i) => i < v.items.len(),
        None => true,
    }
}

/// The row under `p`, if any.
pub open spec fn item_at(v: ListViewView, p: Point) -> Option<usize> {
    let b = v.state.bounds;
    if !b.contains_spec(p) {
        None
    } else {
        let index = (p.y - b.y + v.scroll) / 24;
        if index < v.items.len() { Some(index as usize) } else { None }
    }
}

/// `a + b` saturated to the `i32` range.
pub open spec fn saturate(x: int) -> int {
    if x > i32::MAX { i32::MAX as int } else if x < i32::MIN { i32::MIN as int } else { x }
}

/// The row a navigation key moves the selection to, from the selected
/// row (the first when none is selected).
pub open spec fn key_target(v: ListViewView, k: Key) -> Option<int> {
    let cur: int = match v.selected { Some(i) => i as int, None => 0 };
    let last = v.items.len() - 1;
    let down = |step: int| if cur + step < last { cur + step } else { last };
    let up = |step: int| if cur >= step { cur - step } else { 0 };
    match k {
        Key::Down => Some(down(1)),
        Key::Up => Some(up(1)),
        Key::Home => Some(0),
        Key::End => Some(last),
        Key::PageDown => Some(down(10)),
        Key::PageUp => Some(up(10)),
        _ => None,
    }
}

/// A left press at `p`: on a row it toggles the row's mark in
/// multi-select mode and selects it otherwise, and focuses the list.
pub open spec fn press_spec(v: ListViewView, p: Point) -> (ListViewView, EventResult, bool) {
    match item_at(v, p) {
        Some(i) => {
            let v1 = if v.multi_select {
                ListViewView {
                    items: v.items.update(i as int, ListItem { selected: !v.items[i as int].selected, ..v.items[i as int] }),
                    ..v
                }
            } else {
                select_spec(v, Some(i))
            };
            (ListViewView { state: WidgetState { focused: true, ..v1.state }, ..v1 }, EventResult::Consumed, !v.multi_select)
        },
        None => (v, EventResult::Ignored, false),
    }
}

/// What a list does with an event: the new state, the result, and whether
/// the selection was (re)set, which is when the selection callback fires.
/// A press on a row toggles its mark in multi-select mode and selects it
/// otherwise, and focuses the list; the wheel over the list scrolls by
/// three rows a notch; when focused, Up, Down, Home, End, PageUp and
/// PageDown move the selection.
pub open spec fn list_event(v: ListViewView, e: Event) -> (ListViewView, EventResult, bool) {
    let ignored = (v, EventResult::Ignored, false);
    if !v.state.enabled || !v.state.visible {
        ignored
    } else {
        match e {
            Event::MouseButton(mb) => if mb.button == MouseButton::Left && mb.pressed {
                press_spec(v, mb.position)
            } else {
                ignored
            },
            Event::MouseWheel(w) => if v.state.bounds.contains_spec(w.position) {
                let pixels = saturate(-w.delta.y * 72);
                let s = saturate(v.scroll + pixels);
                (ListViewView { scroll: clamped(s, max_scroll(v)) as i32, ..v }, EventResult::Consumed, false)
            } else {
                ignored
            },
            Event::KeyPress(k) => if !v.state.focused || v.items.len() == 0 {
                ignored
            } else {
                match key_target(v, k.key) {
                    Some(t) => (select_spec(v, Some(t as usize)), EventResult::Consumed, select_accepted(v, Some(t as usize))),
                    None => ignored,
                }
            },
            _ => ignored,
        }
    }
}

/// The list's invariant: the height of all rows and the offset of the
/// selected one are `i32`s, and the scroll offset is not negative.
pub open spec fn list_wf(v: ListViewView) -> bool {
    &&& v.items.len() * 24 <= i32::MAX
    &&& v.scroll >= 0
    &&& (v.selected matches Some(i) ==> i * 24 <= i32::MAX)
}

/// The largest scroll offset is an `i32`.
pub open spec fn list_fits(v: ListViewView) -> bool {
    fits_i32(content_height(v) - v.state.bounds.height)
}

/// The scroll offset lies between 0 and [`max_scroll`].
pub open spec fn scroll_in_range(v: ListViewView) -> bool {
    0 <= v.scroll <= max_scroll(v)
}

/// Events the list can answer without overflow: a wheel delta that can be
/// negated.
pub open spec fn list_event_ok(e: Event) -> bool {
    e matches Event::MouseWheel(w) ==> w.delta.y != i32::MIN
}

pub struct ListView {
    state: WidgetState,
    items: Vec<ListItem>,
    selected_index: Option<usize>,
    scroll_offset: i32,
    multi_select: bool,
}

fn saturate_exec(x: i64) -> (r: i32)
    ensures
        r == saturate(x as int),
{
    if x > i32::MAX as i64 {
        i32::MAX
    } else if x < i32::MIN as i64 {
        i32::MIN
    } else {
        x as i32
    }
}

impl ListView {
    pub closed spec fn view(&self) -> ListViewView {
        ListViewView {
            state: self.state,
            items: self.items@,
            selected: self.selected_index,
            scroll: self.scroll_offset,
            multi_select: self.multi_select,
        }
    }

    /// An empty list, not scrolled, with nothing selected.
    pub fn new(id: WidgetId) -> (l: ListView)
        ensures
            list_wf(l.view()),
            l.view() == (ListViewView {
                state: WidgetState::new_spec(id),
                items: Seq::empty(),
                selected: None,
                scroll: 0,
                multi_select: false,
            }),
    {
        ListView {
            state: WidgetState::new(id),
            items: Vec::new(),
            selected_index: None,
            scroll_offset: 0,
            multi_select: false,
        }
    }

    fn content_height(&self) -> (h: i32)
        requires
            self.view().items.len() * 24 <= i32::MAX,
        ensures
            h == content_height(self.view()),
    {
        self.items.len() as i32 * ITEM_HEIGHT
    }

    fn max_scroll(&self) -> (m: i64)
        requires
            self.view().items.len() * 24 <= i32::MAX,
        ensures
            m == max_scroll(self.view()),
    {
        let m = self.content_height() as i64 - self.state.bounds.height as i64;
        if m > 0 {
            m
        } else {
            0
        }
    }

    fn clamp_scroll(&mut self)
        requires
            list_wf(ListViewView { scroll: 0, ..old(self).view() }),
            list_fits(old(self).view()),
        ensures
            final(self).view() == (ListViewView {
                scroll: clamped(old(self).view().scroll as int, max_scroll(old(self).view())) as i32,
                ..old(self).view()
            }),
            list_wf(final(self).view()),
            scroll_in_range(final(self).view()),
    {
        let max = self.max_scroll();
        if self.scroll_offset < 0 {
            self.scroll_offset = 0;
        } else if self.scroll_offset as i64 > max {
            self.scroll_offset = max as i32;
        }
    }

    fn scroll_to_selected(&mut self)
        requires
            list_wf(old(self).view()),
            list_fits(old(self).view()),
            old(self).view().selected matches Some(i) && i < old(self).view().items.len(),
        ensures
            final(self).view() == (ListViewView {
                scroll: scrolled_to(old(self).view(), old(self).view().selected->0 as int) as i32,
                ..old(self).view()
            }),
            list_wf(final(self).view()),
            scroll_in_range(final(self).view()),
    {
        let i = match self.selected_index {
            Some(i) => i,
            None => {
                return;
            },
        };
        let height = self.state.bounds.height as i64;
        let item_top = i as i64 * 24;
        let item_bottom = item_top + 24;
        let viewport_top = self.scroll_offset as i64;
        let viewport_bottom = viewport_top + height;
        if item_top < viewport_top {
            self.scroll_offset = item_top as i32;
        } else if item_bottom > viewport_bottom {
            self.scroll_offset = (item_bottom - height) as i32;
        }
        self.clamp_scroll();
    }

    /// The vertical scroll offset in pixels.
    pub fn scroll_offset(&self) -> (s: i32)
        ensures
            s == self.view().scroll,
    {
        self.scroll_offset
    }

    /// Replaces the rows; the selection and scroll offset are kept as they
    /// are.
    pub fn with_items(self, items: Vec<ListItem>) -> (l: ListView)
        requires
            list_wf(self.view()),
            list_wf(ListViewView { items: items@, ..self.view() }),
        ensures
            l.view() == (ListViewView { items: items@, ..self.view() }),
    {
        ListView { items, ..self }
    }

    pub fn with_multi_select(self, multi_select: bool) -> (l: ListView)
        ensures
            l.view() == (ListViewView { multi_select, ..self.view() }),
    {
        ListView { multi_select, ..self }
    }

    pub fn add_item(&mut self, item: ListItem)
        requires
            list_wf(old(self).view()),
            (old(self).view().items.len() + 1) * 24 <= i32::MAX,
            fits_i32((old(self).view().items.len() + 1) * 24 - old(self).view().state.bounds.height),
        ensures
            final(self).view() == (ListViewView { items: old(self).view().items.push(item), ..old(self).view() }),
            list_wf(final(self).view()),
    {
        self.items.push(item);
    }

    /// Removes every row and the selection.
    pub fn clear_items(&mut self)
        requires
            list_wf(old(self).view()),
        ensures
            list_wf(final(self).view()),
            final(self).view() == (ListViewView { items: Seq::empty(), selected: None, ..old(self).view() }),
    {
        self.items.clear();
        self.selected_index = None;
    }

    /// Selects row `index` (or nothing) and scrolls it into view; an index
    /// past the end is refused. Returns whether the selection was taken,
    /// which is when the selection callback fires.
    pub fn set_selected_index(&mut self, index: Option<usize>) -> (accepted: bool)
        requires
            list_wf(old(self).view()),
            list_fits(old(self).view()),
        ensures
            accepted == select_accepted(old(self).view(), index),
            final(self).view() == select_spec(old(self).view(), index),
            list_wf(final(self).view()),
    {
        let ok = match index {
            Some(i) => i < self.items.len(),
            None => true,
        };
        if ok {
            self.selected_index = index;
            if index.is_some() {
                self.scroll_to_selected();
            }
        }
        ok
    }

    /// The selected row, if the selection names one.
    pub fn selected_item(&self) -> (r: Option<&ListItem>)
        ensures
            r == (match self.view().selected {
                Some(i) => if i < self.view().items.len() { Some(&self.view().items[i as int]) } else { None },
                None => None,
            }),
    {
        match self.selected_index {
            Some(i) => if i < self.items.len() {
                Some(&self.items[i])
            } else {
                None
            },
            None => None,
        }
    }

    /// The selected index.
    pub fn selected_index(&self) -> (r: Option<usize>)
        ensures
            r == self.view().selected,
    {
        self.selected_index
    }

    /// The number of rows.
    pub fn item_count(&self) -> (n: usize)
        ensures
            n == self.view().items.len(),
    {
        self.items.len()
    }

    /// Whether row `index` carries the multi-select mark.
    pub fn is_item_marked(&self, index: usize) -> (b: bool)
        requires
            index < self.view().items.len(),
        ensures
            b == self.view().items[index as int].selected,
    {
        self.items[index].selected
    }

    /// The rectangle of row `index`, shifted by the scroll offset.
    pub fn item_rect(&self, index: usize) -> (r: Rect)
        requires
            list_wf(self.view()),
            index < self.view().items.len(),
            fits_i32(self.view().state.bounds.y + index * 24 - self.view().scroll),
        ensures
            r == (Rect {
                x: self.view().state.bounds.x,
                y: (self.view().state.bounds.y + index * 24 - self.view().scroll) as i32,
                width: self.view().state.bounds.width,
                height: 24,
            }),
    {
        let y = self.state.bounds.y as i64 + (index as i64) * 24 - self.scroll_offset as i64;
        Rect::new(self.state.bounds.x, y as i32, self.state.bounds.width, ITEM_HEIGHT)
    }

    fn item_at_position(&self, position: Point) -> (r: Option<usize>)
        requires
            list_wf(self.view()),
        ensures
            r == item_at(self.view(), position),
    {
        if !self.state.bounds.contains(position) {
            return None;
        }
        let relative_y = position.y as i64 - self.state.bounds.y as i64 + self.scroll_offset as i64;
        let index = relative_y / 24;
        if index < self.items.len() as i64 {
            Some(index as usize)
        } else {
            None
        }
    }

    /// Height of all rows, at most `max_height`; width `max_width`, 200
    /// when unconstrained.
    pub fn measure(&self, max_width: Option<i32>, max_height: Option<i32>) -> (s: Size)
        requires
            list_wf(self.view()),
        ensures
            s.width == (match max_width { Some(w) => w, None => 200 }),
            s.height == (match max_height {
                Some(h) => if content_height(self.view()) < h { content_height(self.view()) } else { h as int },
                None => content_height(self.view()),
            }),
    {
        let content = self.content_height();
        let limit = match max_height {
            Some(h) => h,
            None => i32::MAX,
        };
        let height = if content < limit { content } else { limit };
        let width = match max_width {
            Some(w) => w,
            None => 200,
        };
        Size::new(width, height)
    }

    /// Places the list and clamps the scroll offset to the new height.
    pub fn layout(&mut self, rect: Rect)
        requires
            list_wf(old(self).view()),
            fits_i32(content_height(old(self).view()) - rect.height),
        ensures
            scroll_in_range(final(self).view()),
            ({
                let v1 = ListViewView { state: WidgetState { bounds: rect, ..old(self).view().state }, ..old(self).view() };
                final(self).view() == (ListViewView {
                    scroll: clamped(v1.scroll as int, max_scroll(v1)) as i32,
                    ..v1
                })
            }),
            list_wf(final(self).view()),
    {
        self.state.bounds = rect;
        self.clamp_scroll();
    }

    fn handle_press(&mut self, position: Point) -> (r: (EventResult, bool))
        requires
            list_wf(old(self).view()),
            list_fits(old(self).view()),
        ensures
            final(self).view() == press_spec(old(self).view(), position).0,
            r.0 == press_spec(old(self).view(), position).1,
            r.1 == press_spec(old(self).view(), position).2,
            list_wf(final(self).view()),
    {
        match self.item_at_position(position) {
            Some(index) => {
                let mut fired = false;
                if self.multi_select {
                    let ghost before = self.items@;
                    let mut item = self.items.remove(index);
                    item.selected = !item.selected;
                    self.items.insert(index, item);
                    assert(self.items@ =~= before.update(
                        index as int,
                        ListItem { selected: !before[index as int].selected, ..before[index as int] },
                    ));
                } else {
                    fired = self.set_selected_index(Some(index));
                }
                self.state.focused = true;
                (EventResult::Consumed, fired)
            },
            None => (EventResult::Ignored, false),
        }
    }

    fn handle_key(&mut self, key: Key) -> (r: (EventResult, bool))
        requires
            list_wf(old(self).view()),
            list_fits(old(self).view()),
            old(self).view().state.focused,
            old(self).view().items.len() > 0,
        ensures
            ({
                match key_target(old(self).view(), key) {
                    Some(t) => {
                        &&& final(self).view() == select_spec(old(self).view(), Some(t as usize))
                        &&& r.0 == EventResult::Consumed
                        &&& r.1 == select_accepted(old(self).view(), Some(t as usize))
                    },
                    None => final(self).view() == old(self).view() && r.0 == EventResult::Ignored && !r.1,
                }
            }),
            list_wf(final(self).view()),
    {
        let cur: usize = match self.selected_index {
            Some(i) => i,
            None => 0,
        };
        let last = self.items.len() - 1;
        let target: Option<usize> = match key {
            Key::Down => Some(if cur + 1 < last { cur + 1 } else { last }),
            Key::Up => Some(if cur >= 1 { cur - 1 } else { 0 }),
            Key::Home => Some(0),
            Key::End => Some(last),
            Key::PageDown => Some(if cur + 10 < last { cur + 10 } else { last }),
            Key::PageUp => Some(if cur >= 10 { cur - 10 } else { 0 }),
            _ => None,
        };
        match target {
            Some(t) => {
                let fired = self.set_selected_index(Some(t));
                (EventResult::Consumed, fired)
            },
            None => (EventResult::Ignored, false),
        }
    }

    /// Answers an event; see [`list_event`]. Returns the result and whether
    /// the selection was set.
    pub fn handle_event(&mut self, event: &Event) -> (r: (EventResult, bool))
        requires
            list_wf(old(self).view()),
            list_fits(old(self).view()),
            list_event_ok(*event),
        ensures
            final(self).view() == list_event(old(self).view(), *event).0,
            r.0 == list_event(old(self).view(), *event).1,
            r.1 == list_event(old(self).view(), *event).2,
            list_wf(final(self).view()),
    {
        if !self.state.enabled || !self.state.visible {
            return (EventResult::Ignored, false);
        }
        match event {
            Event::MouseButton(mb) => {
                if mb.button == MouseButton::Left && mb.pressed {
                    self.handle_press(mb.position)
                } else {
                    (EventResult::Ignored, false)
                }
            },
            Event::MouseWheel(w) => {
                if self.state.bounds.contains(w.position) {
                    let pixels = saturate_exec(-(w.delta.y as i64) * 72);
                    self.scroll_offset = saturate_exec(self.scroll_offset as i64 + pixels as i64);
                    self.clamp_scroll();
                    (EventResult::Consumed, false)
                } else {
                    (EventResult::Ignored, false)
                }
            },
            Event::KeyPress(k) => {
                if !self.state.focused || self.items.len() == 0 {
                    (EventResult::Ignored, false)
                } else {
                    self.handle_key(k.key)
                }
            },
            _ => (EventResult::Ignored, false),
        }
    }

    pub fn id(&self) -> (id: WidgetId)
        ensures
            id == self.view().state.id,
    {
        self.state.id
    }

    pub fn bounds(&self) -> (r: Rect)
        ensures
            r == self.view().state.bounds,
    {
        self.state.bounds
    }

    /// Sets the bounds without clamping the scroll offset.
    pub fn set_bounds(&mut self, bounds: Rect)
        ensures
            final(self).view() == (ListViewView {
                state: WidgetState { bounds, ..old(self).view().state },
                ..old(self).view()
            }),
    {
        self.state.bounds = bounds;
    }

    pub fn is_visible(&self) -> (b: bool)
        ensures
            b == self.view().state.visible,
    {
        self.state.visible
    }

    pub fn set_visible(&mut self, visible: bool)
        ensures
            final(self).view() == (ListViewView {
                state: WidgetState { visible, ..old(self).view().state },
                ..old(self).view()
            }),
    {
        self.state.visible = visible;
    }

    pub fn is_enabled(&self) -> (b: bool)
        ensures
            b == self.view().state.enabled,
    {
        self.state.enabled
    }

    pub fn set_enabled(&mut self, enabled: bool)
        ensures
            final(self).view() == (ListViewView {
                state: WidgetState { enabled, ..old(self).view().state },
                ..old(self).view()
            }),
    {
        self.state.enabled = enabled;
    }

    pub fn is_focused(&self) -> (b: bool)
        ensures
            b == self.view().state.focused,
    {
        self.state.focused
    }

    pub fn set_focused(&mut self, focused: bool)
        ensures
            final(self).view() == (ListViewView {
                state: WidgetState { focused, ..old(self).view().state },
                ..old(self).view()
            }),
    {
        self.state.focused = focused;
    }

    pub fn can_focus(&self) -> (b: bool)
        ensures
            b == (self.view().state.enabled && self.view().state.visible),
    {
        self.state.enabled && self.state.visible
    }
}

/// An event keeps a scroll offset that lies between 0 and the largest
/// offset in that range.
pub proof fn law_scroll_stays_in_range(v: ListViewView, e: Event)
    requires
        list_wf(v),
        list_fits(v),
        scroll_in_range(v),
        list_event_ok(e),
    ensures
        scroll_in_range(list_event(v, e).0),
{
}

/// Selecting a row in a viewport at least one row high leaves that row
/// fully visible.
pub proof fn law_selection_scrolled_into_view(v: ListViewView, i: usize)
    requires
        list_wf(v),
        list_fits(v),
        scroll_in_range(v),
        i < v.items.len(),
        v.state.bounds.height >= 24,
    ensures
        ({
            let v2 = select_spec(v, Some(i));
            &&& v2.selected == Some(i)
            &&& v2.scroll <= i * 24
            &&& (i + 1) * 24 <= v2.scroll + v.state.bounds.height
        }),
{
}

/// Keyboard navigation in a focused, non-empty list whose selection names
/// a row keeps a selection that names a row.
pub proof fn law_navigation_selects_a_row(v: ListViewView, k: Key)
    requires
        list_wf(v),
        list_fits(v),
        v.state.focused,
        v.items.len() > 0,
        v.selected matches Some(i) ==> i < v.items.len(),
        key_target(v, k) is Some,
    ensures
        ({
            let v2 = select_spec(v, Some(key_target(v, k)->0 as usize));
            v2.selected matches Some(j) && j < v.items.len()
        }),
{
}

} // verus!
