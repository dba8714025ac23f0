//! Breadcrumb trail: a home entry followed by the path items, separated by
//! a separator string; clicking an earlier entry navigates back to it.

use vstd::prelude::*;
use crate::event::{Event, EventResult, MouseButton};
use crate::geometry::{fits_i32, trunc_div, Rect, Size, WidgetId};
use crate::status_bar::{byte_len, utf8_len};
use crate::widget::WidgetState;

verus! {

broadcast use vstd::string::group_string_axioms;

pub struct BreadcrumbItem {
    pub text: String,
    pub id: String,
    pub enabled: bool,
}

impl BreadcrumbItem {
    /// An enabled item.
    pub fn new(text: &str, id: &str) -> (item: BreadcrumbItem)
        ensures
            item.text@ == text@,
            item.id@ == id@,
            item.enabled,
    {
        BreadcrumbItem { text: text.to_owned(), id: id.to_owned(), enabled: true }
    }

    pub fn with_enabled(self, enabled: bool) -> (item: BreadcrumbItem)
        ensures
            item == (BreadcrumbItem { enabled, ..self }),
    {
        BreadcrumbItem { enabled, ..self }
    }

    pub fn deep_clone(&self) -> (item: BreadcrumbItem)
        ensures
            item.text@ == self.text@,
            item.id@ == self.id@,
            item.enabled == self.enabled,
    {
        BreadcrumbItem { text: self.text.clone(), id: self.id.clone(), enabled: self.enabled }
    }
}

/// A navigation the user asked for: the target item's id and its index in
/// the trail (the home entry, when present, is index 0).
pub struct Navigation {
    pub id: String,
    pub index: usize,
}

pub struct Breadcrumb {
    state: WidgetState,
    items: Vec<BreadcrumbItem>,
    separator: String,
    show_home_icon: bool,
    home_item: Option<BreadcrumbItem>,
    hovered_index: Option<usize>,
    pressed_index: Option<usize>,
    item_rects: Vec<Rect>,
    spacing: i32,
    padding: i32,
}

impl Breadcrumb {
    pub closed spec fn state(&self) -> WidgetState {
        self.state
    }

    pub closed spec fn items(&self) -> Seq<BreadcrumbItem> {
        self.items@
    }

    pub closed spec fn separator(&self) -> Seq<char> {
        self.separator@
    }

    pub closed spec fn show_home_icon(&self) -> bool {
        self.show_home_icon
    }

    pub closed spec fn home(&self) -> Option<BreadcrumbItem> {
        self.home_item
    }

    pub closed spec fn hovered(&self) -> Option<usize> {
        self.hovered_index
    }

    pub closed spec fn pressed(&self) -> Option<usize> {
        self.pressed_index
    }

    pub closed spec fn rects(&self) -> Seq<Rect> {
        self.item_rects@
    }

    pub closed spec fn spacing(&self) -> i32 {
        self.spacing
    }

    pub closed spec fn padding(&self) -> i32 {
        self.padding
    }

    /// Number of entries: the home entry, if any, and the items.
    pub open spec fn entry_count(&self) -> int {
        self.items().len() + self.home_offset()
    }

    /// Index of the first item among the entries: 1 after a home entry, else 0.
    pub open spec fn home_offset(&self) -> int {
        if self.home() is Some { 1int } else { 0int }
    }

    /// A trail with only the home entry ("Home", id "home"), `/` as
    /// separator, the home icon shown, 8 pixels of spacing and 12 of padding.
    pub fn new(id: WidgetId) -> (b: Breadcrumb)
        ensures
            b.state() == WidgetState::new_spec(id),
            b.items().len() == 0,
            b.separator() == seq!['/'],
            b.show_home_icon(),
            b.home() matches Some(h) && h.text@ == seq!['H', 'o', 'm', 'e'] && h.id@ == seq!['h', 'o', 'm', 'e'] && h.enabled,
            b.hovered() is None,
            b.pressed() is None,
            b.rects().len() == 0,
            b.spacing() == 8,
            b.padding() == 12,
    {
        proof {
            reveal_strlit("/");
            reveal_strlit("Home");
            reveal_strlit("home");
        }
        Breadcrumb {
            state: WidgetState::new(id),
            items: Vec::new(),
            separator: String::from_str("/"),
            show_home_icon: true,
            home_item: Some(BreadcrumbItem::new("Home", "home")),
            hovered_index: None,
            pressed_index: None,
            item_rects: Vec::new(),
            spacing: 8,
            padding: 12,
        }
    }

    pub open spec fn same_except_items(&self, other: &Breadcrumb) -> bool {
        &&& self.state() == other.state()
        &&& self.separator() == other.separator()
        &&& self.show_home_icon() == other.show_home_icon()
        &&& self.home() == other.home()
        &&& self.hovered() == other.hovered()
        &&& self.pressed() == other.pressed()
        &&& self.rects() == other.rects()
        &&& self.spacing() == other.spacing()
        &&& self.padding() == other.padding()
    }

    pub fn with_items(self, items: Vec<BreadcrumbItem>) -> (b: Breadcrumb)
        ensures
            b.items() == items@,
            b.same_except_items(&self),
    {
        Breadcrumb { items, ..self }
    }

    pub fn with_separator(self, separator: &str) -> (b: Breadcrumb)
        ensures
            b.separator() == separator@,
            b.items() == self.items(),
            b.home() == self.home(),
            b.show_home_icon() == self.show_home_icon(),
            b.state() == self.state(),
    {
        Breadcrumb { separator: separator.to_owned(), ..self }
    }

    pub fn with_home_icon(self, show: bool) -> (b: Breadcrumb)
        ensures
            b.show_home_icon() == show,
            b.items() == self.items(),
            b.home() == self.home(),
            b.separator() == self.separator(),
            b.state() == self.state(),
    {
        Breadcrumb { show_home_icon: show, ..self }
    }

    pub fn with_home_item(self, item: BreadcrumbItem) -> (b: Breadcrumb)
        ensures
            b.home() == Some(item),
            b.items() == self.items(),
            b.show_home_icon() == self.show_home_icon(),
            b.separator() == self.separator(),
            b.state() == self.state(),
    {
        Breadcrumb { home_item: Some(item), ..self }
    }

    pub fn push(&mut self, item: BreadcrumbItem)
        ensures
            final(self).items() == old(self).items().push(item),
            final(self).same_except_items(old(self)),
    {
        self.items.push(item);
    }

    pub fn pop(&mut self) -> (r: Option<BreadcrumbItem>)
        ensures
            old(self).items().len() == 0 ==> r is None && final(self).items() == old(self).items(),
            old(self).items().len() > 0 ==> r == Some(old(self).items().last())
                && final(self).items() == old(self).items().drop_last(),
            final(self).same_except_items(old(self)),
    {
        self.items.pop()
    }

    pub fn clear(&mut self)
        ensures
            final(self).items().len() == 0,
            final(self).same_except_items(old(self)),
    {
        self.items.clear();
    }

    pub fn set_path(&mut self, items: Vec<BreadcrumbItem>)
        ensures
            final(self).items() == items@,
            final(self).same_except_items(old(self)),
    {
        self.items = items;
    }

    /// The texts of the trail: the home entry's first, then the items'.
    pub fn get_path(&self) -> (path: Vec<String>)
        ensures
            path.len() == self.entry_count(),
            self.home() matches Some(h) ==> path[0]@ == h.text@,
            forall|i: int| 0 <= i < self.items().len() ==>
                path[i + self.home_offset()]@ == #[trigger] self.items()[i].text@,
    {
        let mut path: Vec<String> = Vec::new();
        if let Some(home) = &self.home_item {
            path.push(home.text.clone());
        }
        let off: usize = if self.home_item.is_some() {
            1
        } else {
            0
        };
        let mut i: usize = 0;
        while i < self.items.len()
            invariant
                i <= self.items.len(),
                off == if self.home_item is Some { 1int } else { 0int },
                path.len() == off + i,
                self.home_item matches Some(h) ==> path[0]@ == h.text@,
                forall|k: int| 0 <= k < i ==> path[k + off]@ == #[trigger] self.items@[k].text@,
            decreases self.items.len() - i,
        {
            path.push(self.items[i].text.clone());
            i = i + 1;
        }
        path
    }

    /// The items after navigating to entry `index`: none for the home
    /// entry, those up to and including the target item for an item, and
    /// unchanged when there is no such entry.
    pub open spec fn navigated_items(&self, index: int) -> Seq<BreadcrumbItem> {
        if self.home() is Some && index == 0 {
            Seq::empty()
        } else {
            let actual = index - self.home_offset();
            if 0 <= actual < self.items().len() {
                self.items().take(actual + 1)
            } else {
                self.items()
            }
        }
    }

    /// The id reported by navigating to entry `index`, if it exists.
    pub open spec fn navigation_id(&self, index: int) -> Option<Seq<char>> {
        if self.home() is Some && index == 0 {
            Some(self.home()->0.id@)
        } else {
            let actual = index - self.home_offset();
            if 0 <= actual < self.items().len() {
                Some(self.items()[actual].id@)
            } else {
                None
            }
        }
    }

    /// Navigates to entry `index`: the home entry clears the path; an item
    /// truncates the path after it. Returns the navigation, or `None` when
    /// there is no such entry.
    pub fn navigate_to(&mut self, index: usize) -> (nav: Option<Navigation>)
        ensures
            final(self).same_except_items(old(self)),
            final(self).items() == old(self).navigated_items(index as int),
            match old(self).navigation_id(index as int) {
                Some(id) => nav matches Some(n) && n.id@ == id && n.index == index,
                None => nav is None,
            },
    {
        if self.home_item.is_some() && index == 0 {
            self.items.clear();
            match &self.home_item {
                Some(home) => Some(Navigation { id: home.id.clone(), index: 0 }),
                None => None,
            }
        } else {
            let actual_index = if self.home_item.is_some() {
                index - 1
            } else {
                index
            };
            if actual_index < self.items.len() {
                let item_id = self.items[actual_index].id.clone();
                self.items.truncate(actual_index + 1);
                Some(Navigation { id: item_id, index })
            } else {
                None
            }
        }
    }
}

/// Width of a text at `font`: half the font size per byte.
pub open spec fn text_width(font: int, t: Seq<char>) -> int {
    trunc_div(font * utf8_len(t), 2)
}

impl Breadcrumb {
    pub open spec fn home_width(&self, font: int) -> int {
        if self.show_home_icon() {
            20 + self.padding() * 2
        } else {
            text_width(font, self.home()->0.text@) + self.padding() * 2
        }
    }

    pub open spec fn separator_advance(&self, font: int) -> int {
        self.spacing() + text_width(font, self.separator()) + self.spacing()
    }

    /// Space taken by the separator before item `i`: every item but a
    /// leading one (no home entry) follows a separator.
    pub open spec fn gap_before(&self, i: int, font: int) -> int {
        if i > 0 || self.home() is Some { self.separator_advance(font) } else { 0 }
    }

    pub open spec fn item_width(&self, i: int, font: int) -> int {
        text_width(font, self.items()[i].text@) + self.padding() * 2
    }

    /// Where the layout cursor stands after the home entry and `i` items.
    pub open spec fn cursor_after(&self, i: int, x0: int, font: int) -> int
        decreases i,
    {
        if i <= 0 {
            x0 + if self.home() is Some { self.home_width(font) } else { 0 }
        } else {
            self.cursor_after(i - 1, x0, font) + self.gap_before(i - 1, font) + self.item_width(i - 1, font)
        }
    }

    /// The rectangles of the entries laid out in `rect`.
    pub open spec fn layout_rects(&self, rect: Rect, font: int) -> Seq<Rect> {
        let home = if self.home() is Some {
            seq![Rect { x: rect.x, y: rect.y, width: self.home_width(font) as i32, height: rect.height }]
        } else {
            Seq::empty()
        };
        home + Seq::new(
            self.items().len(),
            |i: int|
                Rect {
                    x: (self.cursor_after(i, rect.x as int, font) + self.gap_before(i, font)) as i32,
                    y: rect.y,
                    width: self.item_width(i, font) as i32,
                    height: rect.height,
                },
        )
    }

    /// Laying out from `x0` at `font` stays within `i32`.
    pub open spec fn layout_arith_ok(&self, x0: int, font: int) -> bool {
        let n = self.items().len() as int;
        &&& fits_i32(self.padding() * 2)
        &&& (self.home() is Some && !self.show_home_icon() ==> {
            &&& utf8_len(self.home()->0.text@) <= i32::MAX
            &&& fits_i32(font * utf8_len(self.home()->0.text@))
        })
        &&& (self.home() is Some ==> fits_i32(self.home_width(font)))
        &&& utf8_len(self.separator()) <= i32::MAX
        &&& fits_i32(font * utf8_len(self.separator()))
        &&& fits_i32(self.spacing() + text_width(font, self.separator()))
        &&& fits_i32(self.separator_advance(font))
        &&& forall|i: int| 0 <= i < n ==> utf8_len(#[trigger] self.items()[i].text@) <= i32::MAX
        &&& forall|i: int| 0 <= i < n ==> fits_i32(font * utf8_len(#[trigger] self.items()[i].text@))
        &&& forall|i: int| 0 <= i < n ==> fits_i32(#[trigger] self.item_width(i, font))
        &&& forall|i: int| 0 <= i <= n ==> fits_i32(#[trigger] self.cursor_after(i, x0, font))
        &&& forall|i: int| 0 <= i < n ==> fits_i32(#[trigger] self.cursor_after(i, x0, font) + self.gap_before(i, font))
        &&& forall|i: int| 0 <= i < n ==> fits_i32(#[trigger] self.cursor_after(i, x0, font) + self.spacing())
        &&& forall|i: int| 0 <= i < n ==> fits_i32(#[trigger] self.cursor_after(i, x0, font) + self.spacing() + text_width(font, self.separator()))
        &&& forall|i: int| 0 <= i < n ==> fits_i32(#[trigger] self.cursor_after(i, x0, font) + self.gap_before(i, font) + text_width(font, self.items()[i].text@))
    }

    fn text_px(font: i32, s: &String) -> (w: i32)
        requires
            utf8_len(s@) <= i32::MAX,
            fits_i32(font * utf8_len(s@)),
        ensures
            w == text_width(font as int, s@),
    {
        font * byte_len(s) as i32 / 2
    }

    /// The size the trail asks for at font size `font`: its entries and
    /// separators side by side, one line of text plus padding high.
    pub fn measure(&self, font: i32) -> (s: Size)
        requires
            self.layout_arith_ok(0, font as int),
            fits_i32(font + self.padding() * 2),
        ensures
            s.width == self.cursor_after(self.items().len() as int, 0, font as int),
            s.height == font + self.padding() * 2,
    {
        let ghost n = self.items@.len() as int;
        let mut width: i32 = 0;
        let height = font + self.padding * 2;
        if let Some(home) = &self.home_item {
            if self.show_home_icon {
                width = width + 20 + self.padding * 2;
            } else {
                let text_size = Self::text_px(font, &home.text);
                width = width + text_size + self.padding * 2;
            }
        }
        let mut i: usize = 0;
        while i < self.items.len()
            invariant
                i <= self.items.len(),
                self.layout_arith_ok(0, font as int),
                width == self.cursor_after(i as int, 0, font as int),
            decreases self.items.len() - i,
        {
            assert(fits_i32(self.cursor_after(i as int, 0, font as int) + self.spacing()));
            assert(fits_i32(self.cursor_after(i as int, 0, font as int) + self.gap_before(i as int, font as int)));
            assert(fits_i32(self.cursor_after(i as int, 0, font as int) + self.spacing() + text_width(font as int, self.separator())));
            assert(fits_i32(self.cursor_after(i as int, 0, font as int) + self.gap_before(i as int, font as int) + text_width(font as int, self.items()[i as int].text@)));
            if i > 0 || self.home_item.is_some() {
                let sep_width = Self::text_px(font, &self.separator);
                width = width + self.spacing + sep_width + self.spacing;
            }
            assert(fits_i32(self.item_width(i as int, font as int)));
            assert(fits_i32(self.cursor_after(i + 1, 0, font as int)));
            let text_size = Self::text_px(font, &self.items[i].text);
            width = width + text_size + self.padding * 2;
            i = i + 1;
        }
        Size::new(width, height)
    }

    /// Places the trail in `rect` and records each entry's rectangle.
    pub fn layout(&mut self, rect: Rect, font: i32)
        requires
            old(self).layout_arith_ok(rect.x as int, font as int),
        ensures
            final(self).rects() == old(self).layout_rects(rect, font as int),
            final(self).state() == (WidgetState { bounds: rect, ..old(self).state() }),
            final(self).items() == old(self).items(),
            final(self).home() == old(self).home(),
            final(self).separator() == old(self).separator(),
            final(self).show_home_icon() == old(self).show_home_icon(),
            final(self).hovered() == old(self).hovered(),
            final(self).pressed() == old(self).pressed(),
            final(self).spacing() == old(self).spacing(),
            final(self).padding() == old(self).padding(),
    {
        let mut rects: Vec<Rect> = Vec::new();
        let mut x = rect.x;
        let height = rect.height;
        if let Some(home) = &self.home_item {
            let width = if self.show_home_icon {
                20 + self.padding * 2
            } else {
                let text_size = Self::text_px(font, &home.text);
                text_size + self.padding * 2
            };
            rects.push(Rect::new(x, rect.y, width, height));
            assert(fits_i32(self.cursor_after(0, rect.x as int, font as int)));
            x = x + width;
        }
        let ghost off = rects.len() as int;
        let ghost expected = self.layout_rects(rect, font as int);
        assert(off == self.home_offset());
        let mut i: usize = 0;
        while i < self.items.len()
            invariant
                i <= self.items.len(),
                self.layout_arith_ok(rect.x as int, font as int),
                expected == self.layout_rects(rect, font as int),
                off == self.home_offset(),
                rects.len() == off + i,
                forall|k: int| 0 <= k < off + i ==> #[trigger] rects@[k] == expected[k],
                x == self.cursor_after(i as int, rect.x as int, font as int),
                height == rect.height,
            decreases self.items.len() - i,
        {
            assert(fits_i32(self.cursor_after(i as int, rect.x as int, font as int) + self.gap_before(i as int, font as int)));
            assert(fits_i32(self.cursor_after(i as int, rect.x as int, font as int) + self.spacing()));
            assert(fits_i32(self.cursor_after(i as int, rect.x as int, font as int) + self.spacing() + text_width(font as int, self.separator())));
            assert(fits_i32(self.cursor_after(i as int, rect.x as int, font as int) + self.gap_before(i as int, font as int) + text_width(font as int, self.items()[i as int].text@)));
            if i > 0 || self.home_item.is_some() {
                let sep_width = Self::text_px(font, &self.separator);
                x = x + self.spacing + sep_width + self.spacing;
            }
            assert(fits_i32(self.item_width(i as int, font as int)));
            let text_size = Self::text_px(font, &self.items[i].text);
            let width = text_size + self.padding * 2;
            rects.push(Rect::new(x, rect.y, width, height));
            assert(fits_i32(self.cursor_after(i + 1, rect.x as int, font as int)));
            x = x + width;
            i = i + 1;
        }
        assert(rects@ =~= expected);
        self.item_rects = rects;
        self.state.bounds = rect;
    }
}


/// First index `>= from` whose rectangle contains `p`.
pub open spec fn first_hit(rects: Seq<Rect>, p: crate::geometry::Point, from: int) -> Option<usize>
    decreases rects.len() - from,
{
    if from < 0 || from >= rects.len() {
        None
    } else if rects[from].contains_spec(p) {
        Some(from as usize)
    } else {
        first_hit(rects, p, from + 1)
    }
}

impl Breadcrumb {
    /// Whether entry `i` (the home entry is 0 when present) is enabled.
    pub open spec fn entry_enabled(&self, i: int) -> bool {
        if i == 0 && self.home() is Some {
            self.home()->0.enabled
        } else {
            let a = i - self.home_offset();
            0 <= a < self.items().len() && self.items()[a].enabled
        }
    }

    /// First entry `>= from` under `p` that is enabled.
    pub open spec fn first_enabled_hit(&self, p: crate::geometry::Point, from: int) -> Option<usize>
        decreases self.rects().len() - from,
    {
        if from < 0 || from >= self.rects().len() {
            None
        } else if self.rects()[from].contains_spec(p) && self.entry_enabled(from) {
            Some(from as usize)
        } else {
            self.first_enabled_hit(p, from + 1)
        }
    }

    /// Whether entry `i` is the last one of the trail.
    pub open spec fn is_last(&self, i: int) -> bool {
        i == self.entry_count() - 1
    }

    fn find_hit(&self, position: crate::geometry::Point) -> (r: Option<usize>)
        ensures
            r == first_hit(self.rects(), position, 0),
    {
        let mut i: usize = 0;
        while i < self.item_rects.len()
            invariant
                i <= self.item_rects.len(),
                first_hit(self.item_rects@, position, 0) == first_hit(self.item_rects@, position, i as int),
            decreases self.item_rects.len() - i,
        {
            if self.item_rects[i].contains(position) {
                return Some(i);
            }
            i = i + 1;
        }
        None
    }

    fn find_enabled_hit(&self, position: crate::geometry::Point) -> (r: Option<usize>)
        ensures
            r == self.first_enabled_hit(position, 0),
            r matches Some(i) ==> i < self.rects().len() && self.entry_enabled(i as int),
    {
        let mut i: usize = 0;
        while i < self.item_rects.len()
            invariant
                i <= self.item_rects.len(),
                self.first_enabled_hit(position, 0) == self.first_enabled_hit(position, i as int),
            decreases self.item_rects.len() - i,
        {
            if self.item_rects[i].contains(position) && self.entry_enabled_exec(i) {
                return Some(i);
            }
            i = i + 1;
        }
        None
    }

    fn entry_enabled_exec(&self, i: usize) -> (b: bool)
        ensures
            b == self.entry_enabled(i as int),
    {
        if i == 0 && self.home_item.is_some() {
            match &self.home_item {
                Some(h) => h.enabled,
                None => false,
            }
        } else {
            let actual_index = if self.home_item.is_some() {
                i - 1
            } else {
                i
            };
            actual_index < self.items.len() && self.items[actual_index].enabled
        }
    }

    /// Pointer handling. A left press on an enabled entry marks it pressed;
    /// releasing over the same entry navigates to it, unless it is the last
    /// one. Moving the pointer updates the hovered entry.
    pub fn handle_event(&mut self, event: &Event) -> (r: (EventResult, Option<Navigation>))
        ensures
            final(self).state() == old(self).state(),
            final(self).rects() == old(self).rects(),
            final(self).home() == old(self).home(),
            final(self).separator() == old(self).separator(),
            ({
                let b = old(self);
                let unchanged = final(self).items() == b.items() && final(self).hovered() == b.hovered()
                    && final(self).pressed() == b.pressed() && r.1 is None;
                if !b.state().enabled || !b.state().visible {
                    unchanged && r.0 == EventResult::Ignored
                } else {
                    match *event {
                        Event::MouseButton(m) => if m.button != MouseButton::Left {
                            unchanged && r.0 == EventResult::Ignored
                        } else if !b.state().bounds.contains_spec(m.position) {
                            unchanged && r.0 == EventResult::Ignored
                        } else {
                            match b.first_enabled_hit(m.position, 0) {
                                Some(i) => {
                                    &&& r.0 == EventResult::Consumed
                                    &&& final(self).hovered() == b.hovered()
                                    &&& if m.pressed {
                                        final(self).pressed() == Some(i) && final(self).items() == b.items() && r.1 is None
                                    } else if b.pressed() == Some(i) {
                                        &&& final(self).pressed() is None
                                        &&& if b.is_last(i as int) {
                                            final(self).items() == b.items() && r.1 is None
                                        } else {
                                            &&& final(self).items() == b.navigated_items(i as int)
                                            &&& match b.navigation_id(i as int) {
                                                Some(id) => r.1 matches Some(n) && n.id@ == id && n.index == i,
                                                None => r.1 is None,
                                            }
                                        }
                                    } else {
                                        final(self).pressed() == b.pressed() && final(self).items() == b.items() && r.1 is None
                                    }
                                },
                                None => {
                                    &&& r.0 == EventResult::Ignored
                                    &&& r.1 is None
                                    &&& final(self).items() == b.items()
                                    &&& final(self).hovered() == b.hovered()
                                    &&& final(self).pressed() == if m.pressed { b.pressed() } else { None }
                                },
                            }
                        },
                        Event::MouseMove(m) => {
                            &&& final(self).items() == b.items()
                            &&& final(self).pressed() == b.pressed()
                            &&& r.1 is None
                            &&& if !b.state().bounds.contains_spec(m.position) {
                                final(self).hovered() is None && r.0 == EventResult::Ignored
                            } else {
                                final(self).hovered() == first_hit(b.rects(), m.position, 0) && r.0 == EventResult::Consumed
                            }
                        },
                        _ => unchanged && r.0 == EventResult::Ignored,
                    }
                }
            }),
    {
        if !self.state.enabled || !self.state.visible {
            return (EventResult::Ignored, None);
        }
        match event {
            Event::MouseButton(m) => {
                match m.button {
                    MouseButton::Left => {},
                    _ => {
                        return (EventResult::Ignored, None);
                    },
                }
                let position = m.position;
                let pressed = m.pressed;
                if !self.state.bounds.contains(position) {
                    return (EventResult::Ignored, None);
                }
                match self.find_enabled_hit(position) {
                    Some(i) => {
                        let was_pressed = match self.pressed_index {
                            Some(j) => j == i,
                            None => false,
                        };
                        if pressed {
                            self.pressed_index = Some(i);
                        } else if was_pressed {
                            let is_last = if self.home_item.is_some() {
                                i == self.items.len()
                            } else {
                                i == self.items.len() - 1
                            };
                            let mut nav = None;
                            if !is_last {
                                nav = self.navigate_to(i);
                            }
                            self.pressed_index = None;
                            return (EventResult::Consumed, nav);
                        }
                        (EventResult::Consumed, None)
                    },
                    None => {
                        if !pressed {
                            self.pressed_index = None;
                        }
                        (EventResult::Ignored, None)
                    },
                }
            },
            Event::MouseMove(m) => {
                if !self.state.bounds.contains(m.position) {
                    self.hovered_index = None;
                    return (EventResult::Ignored, None);
                }
                let found = self.find_hit(m.position);
                self.hovered_index = found;
                (EventResult::Consumed, None)
            },
            _ => (EventResult::Ignored, None),
        }
    }

    pub fn bounds(&self) -> (r: Rect)
        ensures
            r == self.state().bounds,
    {
        self.state.bounds
    }

    pub fn set_visible(&mut self, visible: bool)
        ensures
            final(self).state() == (WidgetState { visible, ..old(self).state() }),
            final(self).same_except_state(old(self)),
    {
        self.state.visible = visible;
    }

    pub fn set_enabled(&mut self, enabled: bool)
        ensures
            final(self).state() == (WidgetState { enabled, ..old(self).state() }),
            final(self).same_except_state(old(self)),
    {
        self.state.enabled = enabled;
    }

    pub fn set_focused(&mut self, focused: bool)
        ensures
            final(self).state() == (WidgetState { focused, ..old(self).state() }),
            final(self).same_except_state(old(self)),
    {
        self.state.focused = focused;
    }

    pub open spec fn same_except_state(&self, other: &Breadcrumb) -> bool {
        &&& self.items() == other.items()
        &&& self.separator() == other.separator()
        &&& self.show_home_icon() == other.show_home_icon()
        &&& self.home() == other.home()
        &&& self.hovered() == other.hovered()
        &&& self.pressed() == other.pressed()
        &&& self.rects() == other.rects()
        &&& self.spacing() == other.spacing()
        &&& self.padding() == other.padding()
    }

    /// The trail is navigated with the pointer only.
    pub fn can_focus(&self) -> (b: bool)
        ensures
            !b,
    {
        false
    }
}

} // verus!
