//! A drop-down list with type-to-filter: which items match the typed text,
//! which item the pointer is on, and what is selected.

use vstd::prelude::*;
use crate::text::{pop_char, push_char};
use crate::geometry::{Point, Rect, Size, WidgetId, fits_i32};
use crate::event::{Event, EventResult, Key, MouseButton};
use crate::widget::WidgetState;

verus! {

broadcast use vstd::string::group_string_axioms;

/// What `str::to_lowercase` returns for a string (full Unicode case mapping).
pub uninterp spec fn unicode_lowercase(s: Seq<char>) -> Seq<char>;

/// Calls `str::to_lowercase`. Its result is named: the Unicode lower case
/// of the argument, depending on nothing else.
#[verifier::external_body]
pub(crate) fn to_lowercase(s: &str) -> (r: String)
    ensures
        r@ == unicode_lowercase(s@),
{
    s.to_lowercase()
}

/// Whether `needle` occurs in `hay` as a run of consecutive characters.
pub open spec fn occurs_in(needle: Seq<char>, hay: Seq<char>) -> bool {
    exists|i: int| 0 <= i && i + needle.len() <= hay.len() && #[trigger] hay.subrange(i, i + needle.len()) == needle
}

fn matches_at(hay: &Vec<char>, needle: &Vec<char>, i: usize) -> (b: bool)
    requires
        i + needle@.len() <= hay@.len(),
    ensures
        b == (hay@.subrange(i as int, i + needle@.len()) == needle@),
{
    let hl = hay.len();
    let mut k: usize = 0;
    while k < needle.len()
        invariant
            hl == hay@.len(),
            i + needle@.len() <= hay@.len(),
            k <= needle@.len(),
            forall|j: int| 0 <= j < k ==> hay@[i + j] == needle@[j],
        decreases needle@.len() - k,
    {
        if hay[i + k] != needle[k] {
            assert(hay@.subrange(i as int, i + needle@.len())[k as int] != needle@[k as int]);
            return false;
        }
        k = k + 1;
    }
    assert(hay@.subrange(i as int, i + needle@.len()) =~= needle@);
    true
}

/// Whether `needle` occurs in `hay`.
pub fn contains_text(hay: &str, needle: &str) -> (b: bool)
    ensures
        b == occurs_in(needle@, hay@),
{
    let h = crate::text::chars_of(hay);
    let n = crate::text::chars_of(needle);
    if n.len() > h.len() {
        return false;
    }
    let last = h.len() - n.len();
    let mut i: usize = 0;
    while i <= last
        invariant
            h@ == hay@,
            n@ == needle@,
            last == h@.len() - n@.len(),
            n@.len() <= h@.len(),
            i <= last + 1,
            forall|j: int| 0 <= j < i ==> #[trigger] h@.subrange(j, j + n@.len()) != n@,
        decreases last + 1 - i,
    {
        if matches_at(&h, &n, i) {
            return true;
        }
        if i == last {
            return false;
        }
        i = i + 1;
    }
    false
}

/// Whether an item shows under the filter `f`: always for an empty
/// filter, else when the lower-cased filter occurs in the lower-cased item.
pub open spec fn item_matches(item: Seq<char>, f: Seq<char>) -> bool {
    f.len() == 0 || occurs_in(unicode_lowercase(f), unicode_lowercase(item))
}

pub open spec fn item_texts(items: Seq<String>) -> Seq<Seq<char>> {
    items.map_values(|s: String| s@)
}

/// Indices, in order, of the first `n` items that show under `f`.
pub open spec fn filter_upto(items: Seq<Seq<char>>, f: Seq<char>, n: int) -> Seq<usize>
    decreases n,
{
    if n <= 0 {
        Seq::empty()
    } else {
        filter_upto(items, f, n - 1) + if item_matches(items[n - 1], f) { seq![(n - 1) as usize] } else { Seq::empty() }
    }
}

pub open spec fn filtered(items: Seq<Seq<char>>, f: Seq<char>) -> Seq<usize> {
    filter_upto(items, f, items.len() as int)
}

/// Height of one row of the drop-down list.
pub const ITEM_HEIGHT: i32 = 25;

/// The mathematical state of a [`ComboBox`].
pub struct ComboView {
    pub state: WidgetState,
    pub items: Seq<Seq<char>>,
    pub selected: Option<usize>,
    pub is_open: bool,
    pub hover: Option<usize>,
    pub filter: Seq<char>,
    pub shown: Seq<usize>,
    pub dropdown_height: i32,
    pub max_visible_items: usize,
}

/// The drop-down list below the box: a row per shown item, at most
/// `max_visible_items` rows and at most `dropdown_height` high.
pub open spec fn dropdown_rect(v: ComboView) -> Rect {
    let rows = if v.shown.len() < v.max_visible_items { v.shown.len() as int } else { v.max_visible_items as int };
    let h = if rows * 25 < v.dropdown_height { rows * 25 } else { v.dropdown_height as int };
    Rect { x: v.state.bounds.x, y: (v.state.bounds.y + v.state.bounds.height) as i32, width: v.state.bounds.width, height: h as i32 }
}

/// The item of the row under `p`, if `p` is over the list.
pub open spec fn item_at(v: ComboView, p: Point) -> Option<usize> {
    let d = dropdown_rect(v);
    if !d.contains_spec(p) {
        None
    } else {
        let pos = (p.y - d.y) / 25;
        if pos < v.shown.len() { Some(v.shown[pos]) } else { None }
    }
}

/// The filter cleared and every item shown again.
pub open spec fn cleared(v: ComboView) -> ComboView {
    ComboView { filter: Seq::empty(), shown: filtered(v.items, Seq::empty()), ..v }
}

/// The combo box's answer to an event: the new state, the result, and the
/// index reported as newly selected, if any. A press on the box opens or
/// closes the list (opening shows every item); with the list open, a
/// press elsewhere selects the item under it, if any, and closes the list;
/// moves mark the item under the pointer; typing filters, Backspace
/// unfilters, Escape closes.
pub open spec fn combo_event(v: ComboView, e: Event) -> (ComboView, EventResult, Option<usize>) {
    if !v.state.visible || !v.state.enabled {
        (v, EventResult::Ignored, None)
    } else {
        match e {
            Event::MouseButton(mb) => if mb.button == MouseButton::Left && mb.pressed {
                if v.state.bounds.contains_spec(mb.position) {
                    let v2 = ComboView { is_open: !v.is_open, ..v };
                    (if v2.is_open { cleared(v2) } else { v2 }, EventResult::Consumed, None)
                } else if v.is_open {
                    match item_at(v, mb.position) {
                        Some(i) => (
                            ComboView { selected: Some(i), is_open: false, filter: Seq::empty(), ..v },
                            EventResult::Consumed,
                            Some(i),
                        ),
                        None => (ComboView { is_open: false, filter: Seq::empty(), ..v }, EventResult::Consumed, None),
                    }
                } else {
                    (v, EventResult::Ignored, None)
                }
            } else {
                (v, EventResult::Ignored, None)
            },
            Event::MouseMove(mm) => if v.is_open {
                (ComboView { hover: item_at(v, mm.position), ..v }, EventResult::Consumed, None)
            } else {
                (v, EventResult::Ignored, None)
            },
            Event::KeyPress(k) => if v.is_open {
                match k.key {
                    Key::Escape => (cleared(ComboView { is_open: false, ..v }), EventResult::Consumed, None),
                    Key::Character(ch) => {
                        let f = v.filter.push(ch);
                        (ComboView { filter: f, shown: filtered(v.items, f), ..v }, EventResult::Consumed, None)
                    },
                    Key::Backspace => {
                        let f = if v.filter.len() > 0 { v.filter.drop_last() } else { v.filter };
                        (ComboView { filter: f, shown: filtered(v.items, f), ..v }, EventResult::Consumed, None)
                    },
                    _ => (v, EventResult::Ignored, None),
                }
            } else {
                (v, EventResult::Ignored, None)
            },
            _ => (v, EventResult::Ignored, None),
        }
    }
}

/// The list's coordinates are `i32`s and every shown index names an item.
pub open spec fn combo_wf(v: ComboView) -> bool {
    &&& fits_i32(v.state.bounds.y + v.state.bounds.height)
    &&& forall|k: int| 0 <= k < v.shown.len() ==> #[trigger] v.shown[k] < v.items.len()
    &&& v.selected matches Some(i) ==> i < v.items.len()
}

proof fn lemma_filter_upto(items: Seq<Seq<char>>, f: Seq<char>, n: int)
    requires
        0 <= n <= items.len(),
        items.len() <= usize::MAX,
    ensures
        forall|k: int| 0 <= k < filter_upto(items, f, n).len() ==> #[trigger] filter_upto(items, f, n)[k] < n,
        forall|k: int|
            0 <= k < filter_upto(items, f, n).len() ==> item_matches(items[#[trigger] filter_upto(items, f, n)[k] as int], f),
        filter_upto(items, f, n).len() <= n,
    decreases n,
{
    if n > 0 {
        lemma_filter_upto(items, f, n - 1);
        let pre = filter_upto(items, f, n - 1);
        let cur = filter_upto(items, f, n);
        assert forall|k: int| 0 <= k < cur.len() implies #[trigger] cur[k] < n && item_matches(items[cur[k] as int], f) by {
            if k < pre.len() {
                assert(cur[k] == pre[k]);
            } else {
                assert(cur[k] == (n - 1) as usize);
            }
        }
    }
}

/// Every item shown under a filter exists and matches it, no item shows
/// twice, and an empty filter shows every item in order.
pub proof fn law_filter_shows_matches(items: Seq<Seq<char>>, f: Seq<char>)
    requires
        items.len() <= usize::MAX,
    ensures
        forall|k: int| 0 <= k < filtered(items, f).len() ==> #[trigger] filtered(items, f)[k] < items.len(),
        forall|k: int| 0 <= k < filtered(items, f).len() ==> item_matches(items[#[trigger] filtered(items, f)[k] as int], f),
        forall|a: int, b: int| 0 <= a < b < filtered(items, f).len() ==> filtered(items, f)[a] < filtered(items, f)[b],
        f.len() == 0 ==> filtered(items, f) == Seq::new(items.len(), |i: int| i as usize),
{
    lemma_filter_upto(items, f, items.len() as int);
    lemma_filter_sorted(items, f, items.len() as int);
    if f.len() == 0 {
        lemma_filter_all(items, f, items.len() as int);
    }
}

proof fn lemma_filter_sorted(items: Seq<Seq<char>>, f: Seq<char>, n: int)
    requires
        0 <= n <= items.len(),
        items.len() <= usize::MAX,
    ensures
        forall|a: int, b: int| 0 <= a < b < filter_upto(items, f, n).len() ==> filter_upto(items, f, n)[a] < filter_upto(items, f, n)[b],
    decreases n,
{
    if n > 0 {
        lemma_filter_sorted(items, f, n - 1);
        lemma_filter_upto(items, f, n - 1);
        let pre = filter_upto(items, f, n - 1);
        let cur = filter_upto(items, f, n);
        assert forall|a: int, b: int| 0 <= a < b < cur.len() implies cur[a] < cur[b] by {
            assert(cur[a] == pre[a]);
            if b < pre.len() {
                assert(cur[b] == pre[b]);
            } else {
                assert(cur[b] == (n - 1) as usize);
                assert(pre[a] < n - 1);
            }
        }
    }
}

proof fn lemma_filter_all(items: Seq<Seq<char>>, f: Seq<char>, n: int)
    requires
        0 <= n <= items.len(),
        items.len() <= usize::MAX,
        f.len() == 0,
    ensures
        filter_upto(items, f, n) == Seq::new(n as nat, |i: int| i as usize),
    decreases n,
{
    if n > 0 {
        lemma_filter_all(items, f, n - 1);
        assert(filter_upto(items, f, n) =~= Seq::new(n as nat, |i: int| i as usize));
    }
}

/// The first position from `i` on where `s` holds `x`.
pub open spec fn position_from(s: Seq<usize>, x: usize, i: int) -> Option<int>
    decreases s.len() - i,
{
    if i < 0 || i >= s.len() {
        None
    } else if s[i] == x {
        Some(i)
    } else {
        position_from(s, x, i + 1)
    }
}

/// The events the combo box computes list coordinates for keep them
/// within `i32`.
pub open spec fn combo_event_ok(v: ComboView, e: Event) -> bool {
    (e is MouseButton || e is MouseMove) && v.is_open ==> fits_i32(v.state.bounds.y + v.state.bounds.height)
}

/// A box showing the selected item that drops down a filterable list.
pub struct ComboBox {
    state: WidgetState,
    items: Vec<String>,
    selected_index: Option<usize>,
    is_open: bool,
    hover_index: Option<usize>,
    filter_text: String,
    filtered_indices: Vec<usize>,
    dropdown_height: i32,
    max_visible_items: usize,
}

impl ComboBox {
    pub closed spec fn view(&self) -> ComboView {
        ComboView {
            state: self.state,
            items: item_texts(self.items@),
            selected: self.selected_index,
            is_open: self.is_open,
            hover: self.hover_index,
            filter: self.filter_text@,
            shown: self.filtered_indices@,
            dropdown_height: self.dropdown_height,
            max_visible_items: self.max_visible_items,
        }
    }

    /// Every shown index names an item, and the list shows at most 8 rows.
    pub open spec fn wf(&self) -> bool {
        &&& forall|k: int| 0 <= k < self.view().shown.len() ==> #[trigger] self.view().shown[k] < self.view().items.len()
        &&& self.view().max_visible_items == 8
    }

    /// An empty, closed combo box whose list shows at most 8 rows and is at
    /// most 200 pixels high.
    pub fn new(id: WidgetId) -> (c: ComboBox)
        ensures
            c.wf(),
            c.view() == (ComboView {
                state: WidgetState::new_spec(id),
                items: Seq::empty(),
                selected: None,
                is_open: false,
                hover: None,
                filter: Seq::empty(),
                shown: Seq::empty(),
                dropdown_height: 200,
                max_visible_items: 8,
            }),
    {
        let c = ComboBox {
            state: WidgetState::new(id),
            items: Vec::new(),
            selected_index: None,
            is_open: false,
            hover_index: None,
            filter_text: String::new(),
            filtered_indices: Vec::new(),
            dropdown_height: 200,
            max_visible_items: 8,
        };
        assert(c.view().items =~= Seq::<Seq<char>>::empty());
        c
    }

    fn update_filter(&mut self)
        ensures
            final(self).view() == (ComboView { shown: filtered(old(self).view().items, old(self).view().filter), ..old(self).view() }),
            forall|k: int| 0 <= k < final(self).view().shown.len() ==> #[trigger] final(self).view().shown[k] < final(self).view().items.len(),
    {
        let ghost items = item_texts(self.items@);
        let ghost f = self.filter_text@;
        let n = self.items.len();
        let empty = self.filter_text.as_str().unicode_len() == 0;
        let lower = to_lowercase(self.filter_text.as_str());
        let mut out: Vec<usize> = Vec::new();
        let mut i: usize = 0;
        while i < n
            invariant
                n == self.items@.len(),
                items == item_texts(self.items@),
                f == self.filter_text@,
                empty == (f.len() == 0),
                lower@ == unicode_lowercase(f),
                i <= n,
                out@ == filter_upto(items, f, i as int),
            decreases n - i,
        {
            let keep = if empty {
                true
            } else {
                let item_lower = to_lowercase(self.items[i].as_str());
                contains_text(item_lower.as_str(), lower.as_str())
            };
            if keep {
                out.push(i);
            }
            assert(out@ =~= filter_upto(items, f, i + 1));
            i = i + 1;
        }
        proof {
            lemma_filter_upto(items, f, n as int);
        }
        self.filtered_indices = out;
    }

    pub fn with_items(self, items: Vec<String>) -> (c: ComboBox)
        requires
            self.wf(),
        ensures
            c.wf(),
            c.view() == (ComboView { items: item_texts(items@), shown: filtered(item_texts(items@), self.view().filter), ..self.view() }),
    {
        let mut c = ComboBox { items, ..self };
        c.update_filter();
        c
    }

    /// Selects item `index` if there is one.
    pub fn with_selected(self, index: usize) -> (c: ComboBox)
        requires
            self.wf(),
        ensures
            c.wf(),
            index < self.view().items.len() ==> c.view() == (ComboView { selected: Some(index), ..self.view() }),
            index >= self.view().items.len() ==> c.view() == self.view(),
    {
        if index < self.items.len() {
            ComboBox { selected_index: Some(index), ..self }
        } else {
            self
        }
    }

    pub fn add_item(&mut self, item: String)
        requires
            old(self).wf(),
        ensures
            final(self).wf(),
            final(self).view() == (ComboView {
                items: old(self).view().items.push(item@),
                shown: filtered(old(self).view().items.push(item@), old(self).view().filter),
                ..old(self).view()
            }),
    {
        let ghost before = self.items@;
        self.items.push(item);
        assert(item_texts(self.items@) =~= item_texts(before).push(item@));
        self.update_filter();
    }

    pub fn selected_index(&self) -> (r: Option<usize>)
        ensures
            r == self.view().selected,
    {
        self.selected_index
    }

    /// The text of the selected item, if it names one.
    pub fn selected_text(&self) -> (r: Option<&String>)
        ensures
            match self.view().selected {
                Some(i) => if i < self.view().items.len() {
                    r matches Some(t) && t@ == self.view().items[i as int]
                } else {
                    r is None
                },
                None => r is None,
            },
    {
        match self.selected_index {
            Some(i) => if i < self.items.len() {
                Some(&self.items[i])
            } else {
                None
            },
            None => None,
        }
    }

    /// Selects item `index` (or nothing) if that is a valid choice, and
    /// says whether it did; a selection made is to be reported.
    pub fn set_selected(&mut self, index: Option<usize>) -> (accepted: bool)
        requires
            old(self).wf(),
        ensures
            final(self).wf(),
            accepted == (match index { Some(i) => i < old(self).view().items.len(), None => true }),
            accepted ==> final(self).view() == (ComboView { selected: index, ..old(self).view() }),
            !accepted ==> final(self).view() == old(self).view(),
    {
        let ok = match index {
            Some(i) => i < self.items.len(),
            None => true,
        };
        if ok {
            self.selected_index = index;
        }
        ok
    }

    pub fn is_open(&self) -> (b: bool)
        ensures
            b == self.view().is_open,
    {
        self.is_open
    }

    /// Opens or closes the list; opening clears the filter.
    pub fn set_open(&mut self, open: bool)
        requires
            old(self).wf(),
        ensures
            final(self).wf(),
            open ==> final(self).view() == cleared(ComboView { is_open: true, ..old(self).view() }),
            !open ==> final(self).view() == (ComboView { is_open: false, ..old(self).view() }),
    {
        self.is_open = open;
        if open {
            self.filter_text = String::new();
            self.update_filter();
        }
    }

    fn get_dropdown_rect(&self) -> (r: Rect)
        requires
            self.wf(),
            fits_i32(self.view().state.bounds.y + self.view().state.bounds.height),
        ensures
            r == dropdown_rect(self.view()),
    {
        let visible = if self.filtered_indices.len() < self.max_visible_items {
            self.filtered_indices.len()
        } else {
            self.max_visible_items
        };
        let h: i32 = (visible as i32) * 25;
        let height: i32 = if h < self.dropdown_height {
            h
        } else {
            self.dropdown_height
        };
        let b = self.state.bounds;
        proof {
            let vv = self.view();
            let vr = if vv.shown.len() < vv.max_visible_items { vv.shown.len() as int } else { vv.max_visible_items as int };
            assert(vr == visible);
        }
        Rect::new(b.x, b.y + b.height, b.width, height)
    }

    /// The row of item `index` in the list, if the list shows it.
    pub fn get_item_rect(&self, index: usize) -> (r: Option<Rect>)
        requires
            self.wf(),
            self.view().shown.len() * 25 <= i32::MAX,
            fits_i32(self.view().state.bounds.y + self.view().state.bounds.height),
            fits_i32(self.view().state.bounds.y + self.view().state.bounds.height + self.view().shown.len() * 25),
        ensures
            match position_from(self.view().shown, index, 0) {
                Some(pos) => r == Some(Rect {
                    x: dropdown_rect(self.view()).x,
                    y: (dropdown_rect(self.view()).y + pos * 25) as i32,
                    width: dropdown_rect(self.view()).width,
                    height: 25,
                }),
                None => r is None,
            },
    {
        let d = self.get_dropdown_rect();
        let mut pos: usize = 0;
        while pos < self.filtered_indices.len()
            invariant
                pos <= self.filtered_indices@.len(),
                d == dropdown_rect(self.view()),
                fits_i32(d.y + self.view().shown.len() * 25),
                self.view().shown.len() * 25 <= i32::MAX,
                position_from(self.view().shown, index, 0) == position_from(self.view().shown, index, pos as int),
            decreases self.filtered_indices@.len() - pos,
        {
            if self.filtered_indices[pos] == index {
                assert(d.y + pos * 25 <= d.y + self.view().shown.len() * 25);
                return Some(Rect::new(d.x, d.y + (pos as i32) * 25, d.width, 25));
            }
            pos = pos + 1;
        }
        None
    }

    fn index_from_point(&self, p: Point) -> (r: Option<usize>)
        requires
            self.wf(),
            fits_i32(self.view().state.bounds.y + self.view().state.bounds.height),
        ensures
            r == item_at(self.view(), p),
    {
        let d = self.get_dropdown_rect();
        if !d.contains(p) {
            return None;
        }
        let rel = p.y - d.y;
        let pos = (rel / 25) as usize;
        if pos < self.filtered_indices.len() {
            Some(self.filtered_indices[pos])
        } else {
            None
        }
    }
}

impl ComboBox {
    /// Handles an event; returns the result and the index reported as
    /// newly selected, if any. See [`combo_event`].
    pub fn handle_event(&mut self, event: &Event) -> (r: (EventResult, Option<usize>))
        requires
            old(self).wf(),
            combo_event_ok(old(self).view(), *event),
        ensures
            final(self).wf(),
            (final(self).view(), r.0, r.1) == combo_event(old(self).view(), *event),
    {
        if !self.state.visible || !self.state.enabled {
            return (EventResult::Ignored, None);
        }
        match event {
            Event::MouseButton(mb) => {
                let left = match mb.button {
                    MouseButton::Left => true,
                    _ => false,
                };
                if !(left && mb.pressed) {
                    return (EventResult::Ignored, None);
                }
                if self.state.bounds.contains(mb.position) {
                    self.is_open = !self.is_open;
                    if self.is_open {
                        self.filter_text = String::new();
                        self.update_filter();
                    }
                    (EventResult::Consumed, None)
                } else if self.is_open {
                    match self.index_from_point(mb.position) {
                        Some(index) => {
                            self.selected_index = Some(index);
                            self.is_open = false;
                            self.filter_text = String::new();
                            (EventResult::Consumed, Some(index))
                        },
                        None => {
                            self.is_open = false;
                            self.filter_text = String::new();
                            (EventResult::Consumed, None)
                        },
                    }
                } else {
                    (EventResult::Ignored, None)
                }
            },
            Event::MouseMove(mm) => {
                if self.is_open {
                    self.hover_index = self.index_from_point(mm.position);
                    (EventResult::Consumed, None)
                } else {
                    (EventResult::Ignored, None)
                }
            },
            Event::KeyPress(k) => {
                if !self.is_open {
                    return (EventResult::Ignored, None);
                }
                match k.key {
                    Key::Escape => {
                        self.is_open = false;
                        self.filter_text = String::new();
                        self.update_filter();
                        (EventResult::Consumed, None)
                    },
                    Key::Character(ch) => {
                        push_char(&mut self.filter_text, ch);
                        self.update_filter();
                        (EventResult::Consumed, None)
                    },
                    Key::Backspace => {
                        let _ = pop_char(&mut self.filter_text);
                        self.update_filter();
                        (EventResult::Consumed, None)
                    },
                    _ => (EventResult::Ignored, None),
                }
            },
            _ => (EventResult::Ignored, None),
        }
    }

    /// 200 pixels wide, a line of base text plus 12 high.
    pub fn measure(&self, font_size_base: i32) -> (s: Size)
        requires
            fits_i32(font_size_base + 12),
        ensures
            s.width == 200,
            s.height == font_size_base + 12,
    {
        Size::new(200, font_size_base + 12)
    }

    pub fn layout(&mut self, rect: Rect)
        ensures
            final(self).view() == (ComboView { state: WidgetState { bounds: rect, ..old(self).view().state }, ..old(self).view() }),
    {
        self.state.bounds = rect;
    }

    /// The typed filter.
    pub fn filter_text(&self) -> (r: &String)
        ensures
            r@ == self.view().filter,
    {
        &self.filter_text
    }

    /// The indices of the items the list shows, in order.
    pub fn shown_items(&self) -> (r: &Vec<usize>)
        ensures
            r@ == self.view().shown,
    {
        &self.filtered_indices
    }

    pub fn hover_index(&self) -> (r: Option<usize>)
        ensures
            r == self.view().hover,
    {
        self.hover_index
    }

    pub fn id(&self) -> (r: WidgetId)
        ensures
            r == self.view().state.id,
    {
        self.state.id
    }

    pub fn bounds(&self) -> (r: Rect)
        ensures
            r == self.view().state.bounds,
    {
        self.state.bounds
    }

    pub fn set_bounds(&mut self, bounds: Rect)
        ensures
            final(self).view() == (ComboView { state: WidgetState { bounds, ..old(self).view().state }, ..old(self).view() }),
    {
        self.state.bounds = bounds;
    }

    pub fn is_visible(&self) -> (b: bool)
        ensures
            b == self.view().state.visible,
    {
        self.state.visible
    }

    pub fn set_visible(&mut self, visible: bool)
        ensures
            final(self).view() == (ComboView { state: WidgetState { visible, ..old(self).view().state }, ..old(self).view() }),
    {
        self.state.visible = visible;
    }

    pub fn is_enabled(&self) -> (b: bool)
        ensures
            b == self.view().state.enabled,
    {
        self.state.enabled
    }

    /// Enables or disables the box; disabling closes the list.
    pub fn set_enabled(&mut self, enabled: bool)
        ensures
            final(self).view() == (ComboView {
                state: WidgetState { enabled, ..old(self).view().state },
                is_open: if enabled { old(self).view().is_open } else { false },
                ..old(self).view()
            }),
    {
        self.state.enabled = enabled;
        if !enabled {
            self.is_open = false;
        }
    }

    /// The box counts as focused while its list is open.
    pub fn is_focused(&self) -> (b: bool)
        ensures
            b == self.view().is_open,
    {
        self.is_open
    }

    /// Losing focus closes the list; gaining it changes nothing.
    pub fn set_focused(&mut self, focused: bool)
        ensures
            final(self).view() == (ComboView { is_open: if focused { old(self).view().is_open } else { false }, ..old(self).view() }),
    {
        if !focused {
            self.is_open = false;
        }
    }

    pub fn can_focus(&self) -> (b: bool)
        ensures
            b == self.view().state.enabled,
    {
        self.state.enabled
    }
}

} // verus!
