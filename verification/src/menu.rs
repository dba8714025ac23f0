//! A menu bar: its titles, the drop-down menu of the active title, and
//! navigation by pointer, arrow keys and Alt mnemonics.

use vstd::prelude::*;
use crate::geometry::{Point, Rect, Size, WidgetId, fits_i32};
use crate::event::{Event, EventResult, Key, KeyPressEvent, MouseButton};
use crate::text::char_count;
use crate::widget::WidgetState;

verus! {

broadcast use vstd::string::group_string_axioms;

/// One entry of a drop-down menu; it may carry a submenu of its own.
pub struct MenuItem {
    pub text: String,
    pub shortcut: String,
    pub enabled: bool,
    pub is_separator: bool,
    pub submenu_items: Vec<MenuItem>,
    pub data: i32,
    /// Action reported when the entry is activated.
    pub on_click: Option<u32>,
}

impl MenuItem {
    /// An enabled entry labelled `text`, without shortcut or submenu.
    pub fn new(text: &str) -> (item: MenuItem)
        ensures
            item.text@ == text@,
            item.shortcut@ == Seq::<char>::empty(),
            item.enabled,
            !item.is_separator,
            item.submenu_items@ == Seq::<MenuItem>::empty(),
            item.data == 0,
            item.on_click is None,
    {
        MenuItem {
            text: text.to_owned(),
            shortcut: String::new(),
            enabled: true,
            is_separator: false,
            submenu_items: Vec::new(),
            data: 0,
            on_click: None,
        }
    }

    pub fn with_shortcut(self, shortcut: &str) -> (item: MenuItem)
        ensures
            item == (MenuItem { shortcut: item.shortcut, ..self }),
            item.shortcut@ == shortcut@,
    {
        MenuItem { shortcut: shortcut.to_owned(), ..self }
    }

    pub fn with_submenu(self, items: Vec<MenuItem>) -> (item: MenuItem)
        ensures
            item == (MenuItem { submenu_items: items, ..self }),
    {
        MenuItem { submenu_items: items, ..self }
    }

    pub fn with_on_click(self, action: u32) -> (item: MenuItem)
        ensures
            item == (MenuItem { on_click: Some(action), ..self }),
    {
        MenuItem { on_click: Some(action), ..self }
    }

    /// A separator line.
    pub fn separator() -> (item: MenuItem)
        ensures
            item.text@ == Seq::<char>::empty(),
            item.shortcut@ == Seq::<char>::empty(),
            item.enabled,
            item.is_separator,
            item.submenu_items@ == Seq::<MenuItem>::empty(),
            item.data == 0,
            item.on_click is None,
    {
        MenuItem {
            text: String::new(),
            shortcut: String::new(),
            enabled: true,
            is_separator: true,
            submenu_items: Vec::new(),
            data: 0,
            on_click: None,
        }
    }
}

/// What a drop-down row needs from its entry.
#[derive(Clone, Copy, Debug, PartialEq, Eq, Structural)]
pub struct EntryKind {
    pub enabled: bool,
    pub is_separator: bool,
    pub has_submenu: bool,
    pub action: Option<u32>,
}

pub open spec fn entry_kind(it: MenuItem) -> EntryKind {
    EntryKind { enabled: it.enabled, is_separator: it.is_separator, has_submenu: it.submenu_items@.len() > 0, action: it.on_click }
}

pub open spec fn entry_kinds(items: Seq<MenuItem>) -> Seq<EntryKind> {
    items.map_values(|it: MenuItem| entry_kind(it))
}

/// Height of a drop-down row: 28 pixels, half for a separator.
pub open spec fn row_height(e: EntryKind) -> int {
    if e.is_separator { 14 } else { 28 }
}

/// Total height of the first `k` rows.
pub open spec fn rows_upto(es: Seq<EntryKind>, k: int) -> int
    decreases k,
{
    if k <= 0 { 0 } else { rows_upto(es, k - 1) + row_height(es[k - 1]) }
}

/// Width a title takes in the bar: 8 pixels a character and three paddings.
pub open spec fn title_width(t: Seq<char>) -> int {
    (t.len() * 8 + 24) as int
}

/// Width an entry asks of its drop-down: 8 pixels a character of text, 7
/// of shortcut, and four paddings.
pub open spec fn entry_width(it: MenuItem) -> int {
    (it.text@.len() * 8 + it.shortcut@.len() * 7 + 32) as int
}

/// Width of a drop-down: its widest non-separator entry, at least 200.
pub open spec fn dropdown_width_of(items: Seq<MenuItem>, k: int) -> int
    decreases k,
{
    if k <= 0 {
        200
    } else {
        let w = dropdown_width_of(items, k - 1);
        if !items[k - 1].is_separator && entry_width(items[k - 1]) > w { entry_width(items[k - 1]) } else { w }
    }
}

/// The mathematical state of a [`MenuBar`]: titles, entries per menu, the
/// widths measured when each menu was added, the active menu and hovered
/// title and row (`-1` for none), and the viewport drop-downs stay in.
pub struct MenuBarView {
    pub state: WidgetState,
    pub titles: Seq<Seq<char>>,
    pub menus: Seq<Seq<EntryKind>>,
    pub item_widths: Seq<i32>,
    pub dropdown_widths: Seq<i32>,
    pub active: i32,
    pub hover_item: i32,
    pub dropdown_visible: bool,
    pub hover: i32,
    pub viewport: Option<Rect>,
    pub submenu_open: Option<(i32, i32)>,
}

/// Left edge of title `i`: 4 pixels in, after the titles before it.
pub open spec fn menu_x(v: MenuBarView, i: int) -> int
    decreases i,
{
    if i <= 0 { v.state.bounds.x + 4 } else { menu_x(v, i - 1) + v.item_widths[i - 1] }
}

pub open spec fn menu_rect(v: MenuBarView, i: int) -> Rect {
    Rect { x: menu_x(v, i) as i32, y: v.state.bounds.y, width: v.item_widths[i], height: v.state.bounds.height }
}

pub open spec fn dropdown_width(v: MenuBarView, i: int) -> int {
    if i < 0 || i >= v.dropdown_widths.len() { 200 } else { v.dropdown_widths[i] as int }
}

/// The drop-down of menu `i`: below its title, shifted left to end at the
/// viewport's (or the bar's) right edge but not left of the bar, and
/// flipped above the title (not above 0) when it would pass the
/// viewport's bottom.
pub open spec fn dropdown_rect(v: MenuBarView, i: int) -> Rect {
    let b = v.state.bounds;
    let m = menu_rect(v, i);
    let h = rows_upto(v.menus[i], v.menus[i].len() as int);
    let w = dropdown_width(v, i);
    let right: int = match v.viewport { Some(vp) => vp.x + vp.width, None => b.x + b.width };
    let x1 = if m.x + w > right { right - w } else { m.x as int };
    let x = if x1 < b.x { b.x as int } else { x1 };
    let y0 = m.y + m.height;
    let y = match v.viewport {
        Some(vp) => if y0 + h > vp.y + vp.height { if m.y - h > 0 { m.y - h } else { 0 } } else { y0 },
        None => y0,
    };
    Rect { x: x as i32, y: y as i32, width: w as i32, height: h as i32 }
}

/// The first title from `i` on under `p`.
pub open spec fn title_hit(v: MenuBarView, p: Point, i: int) -> int
    decreases v.titles.len() - i,
{
    if i < 0 || i >= v.titles.len() {
        -1
    } else if menu_x(v, i) <= p.x < menu_x(v, i) + v.item_widths[i] {
        i
    } else {
        title_hit(v, p, i + 1)
    }
}

/// The title under `p`, `-1` off the bar or between titles.
pub open spec fn menu_at(v: MenuBarView, p: Point) -> int {
    if !v.state.bounds.contains_spec(p) { -1 } else { title_hit(v, p, 0) }
}

/// The first row from `k` on spanning offset `ry` from the drop-down's top.
pub open spec fn row_hit(es: Seq<EntryKind>, ry: int, k: int) -> int
    decreases es.len() - k,
{
    if k < 0 || k >= es.len() {
        -1
    } else if rows_upto(es, k) <= ry < rows_upto(es, k) + row_height(es[k]) {
        k
    } else {
        row_hit(es, ry, k + 1)
    }
}

/// The row of menu `i`'s drop-down under `p`, `-1` if none.
pub open spec fn entry_at(v: MenuBarView, p: Point, i: int) -> int {
    if i < 0 || i >= v.menus.len() {
        -1
    } else {
        let d = dropdown_rect(v, i);
        if !d.contains_spec(p) || p.y - d.y < 0 { -1 } else { row_hit(v.menus[i], p.y - d.y, 0) }
    }
}

pub open spec fn focusable(e: EntryKind) -> bool {
    !e.is_separator && e.enabled
}

/// The first focusable row from `k` on.
pub open spec fn first_focusable_from(es: Seq<EntryKind>, k: int) -> int
    decreases es.len() - k,
{
    if k < 0 || k >= es.len() {
        -1
    } else if focusable(es[k]) {
        k
    } else {
        first_focusable_from(es, k + 1)
    }
}

pub open spec fn first_focusable(v: MenuBarView, i: int) -> int {
    if i < 0 || i >= v.menus.len() { -1 } else { first_focusable_from(v.menus[i], 0) }
}

/// The row one step from `i` among `n`, going round.
pub open spec fn step_row(i: int, n: int, forward: bool) -> int {
    if forward { (i + 1) % n } else if i == 0 { n - 1 } else { i - 1 }
}

/// Stepping `left` more times from row `i`: the first focusable row
/// reached, else `fallback`.
pub open spec fn step_search(es: Seq<EntryKind>, i: int, forward: bool, left: int, fallback: int) -> int
    decreases left,
{
    if left <= 0 {
        fallback
    } else {
        let j = step_row(i, es.len() as int, forward);
        if focusable(es[j]) { j } else { step_search(es, j, forward, left - 1, fallback) }
    }
}

/// The hovered row after Down (`forward`) or Up in the active drop-down:
/// the next focusable row round from the hovered one (from the end or the
/// start when none is hovered); the hovered row stays when none is
/// focusable.
pub open spec fn stepped_hover(v: MenuBarView, i: int, forward: bool) -> int {
    if i < 0 || i >= v.menus.len() || v.menus[i].len() == 0 {
        -1
    } else {
        let n = v.menus[i].len() as int;
        let start = if v.hover >= 0 { v.hover as int } else if forward { n - 1 } else { 0 };
        step_search(v.menus[i], start, forward, n, v.hover as int)
    }
}

/// The letter a key stands for in a mnemonic, lower-cased.
pub open spec fn mnemonic_letter(k: Key) -> Option<char> {
    match k {
        Key::Character(c) => Some(if 'A' <= c <= 'Z' { ((c as int) + 32) as char } else { c }),
        Key::A => Some('a'),
        Key::B => Some('b'),
        Key::C => Some('c'),
        Key::D => Some('d'),
        Key::E => Some('e'),
        Key::F => Some('f'),
        Key::G => Some('g'),
        Key::H => Some('h'),
        Key::I => Some('i'),
        Key::J => Some('j'),
        Key::K => Some('k'),
        Key::L => Some('l'),
        Key::M => Some('m'),
        Key::N => Some('n'),
        Key::O => Some('o'),
        Key::P => Some('p'),
        Key::Q => Some('q'),
        Key::R => Some('r'),
        Key::S => Some('s'),
        Key::T => Some('t'),
        Key::U => Some('u'),
        Key::V => Some('v'),
        Key::W => Some('w'),
        Key::X => Some('x'),
        Key::Y => Some('y'),
        Key::Z => Some('z'),
        _ => None,
    }
}

pub open spec fn ascii_lower(c: char) -> char {
    if 'A' <= c <= 'Z' { ((c as int) + 32) as char } else { c }
}

/// The first menu from `i` on whose title starts with letter `t`, either
/// case.
pub open spec fn mnemonic_from(titles: Seq<Seq<char>>, t: char, i: int) -> int
    decreases titles.len() - i,
{
    if i < 0 || i >= titles.len() {
        -1
    } else if titles[i].len() > 0 && ascii_lower(titles[i][0]) == t {
        i
    } else {
        mnemonic_from(titles, t, i + 1)
    }
}

pub open spec fn closed(v: MenuBarView) -> MenuBarView {
    MenuBarView { dropdown_visible: false, active: -1i32, hover: -1i32, submenu_open: None, ..v }
}

pub open spec fn opened(v: MenuBarView, i: int) -> MenuBarView {
    MenuBarView { active: i as i32, dropdown_visible: true, hover: first_focusable(v, i) as i32, ..v }
}

/// A left press at `p`: on a title it opens that menu, or closes it when it
/// is the open one; in the open drop-down a press on an enabled entry
/// activates it (its action is reported) and closes the menu, a press on a
/// separator or a disabled entry changes nothing; a press outside both the
/// bar and the drop-down closes the menu.
pub open spec fn press_event(v: MenuBarView, p: Point) -> (MenuBarView, EventResult, Option<u32>) {
    let mi = menu_at(v, p);
    if mi >= 0 {
        if v.active == mi {
            (closed(v), EventResult::Consumed, None)
        } else {
            (MenuBarView { submenu_open: None, ..opened(v, mi) }, EventResult::Consumed, None)
        }
    } else if v.dropdown_visible && v.active >= 0 {
        let di = entry_at(v, p, v.active as int);
        if di >= 0 {
            let en = v.menus[v.active as int][di];
            if en.is_separator || !en.enabled {
                (v, EventResult::Consumed, None)
            } else {
                (closed(v), EventResult::Consumed, en.action)
            }
        } else if !dropdown_rect(v, v.active as int).contains_spec(p) && !v.state.bounds.contains_spec(p) {
            (closed(v), EventResult::Consumed, None)
        } else {
            (v, EventResult::Ignored, None)
        }
    } else {
        (v, EventResult::Ignored, None)
    }
}

/// A key press: Escape closes an open menu; in an open drop-down Up and
/// Down move over the focusable rows, Left and Right open the neighbouring
/// menu (going round), Enter activates the hovered entry if it is
/// focusable; otherwise Alt with a letter opens the first menu whose title
/// starts with it.
pub open spec fn key_event(v: MenuBarView, k: KeyPressEvent) -> (MenuBarView, EventResult, Option<u32>) {
    let n = v.menus.len() as int;
    let a = v.active as int;
    let open = v.dropdown_visible && v.active >= 0;
    if k.key == Key::Escape && v.dropdown_visible {
        (closed(v), EventResult::Consumed, None)
    } else if open && k.key == Key::Down {
        (MenuBarView { hover: stepped_hover(v, a, true) as i32, ..v }, EventResult::Consumed, None)
    } else if open && k.key == Key::Up {
        (MenuBarView { hover: stepped_hover(v, a, false) as i32, ..v }, EventResult::Consumed, None)
    } else if open && k.key == Key::Left {
        if n > 1 {
            let prev = if a == 0 { n - 1 } else { a - 1 };
            (MenuBarView { active: prev as i32, hover: first_focusable(v, prev) as i32, ..v }, EventResult::Consumed, None)
        } else {
            (v, EventResult::Consumed, None)
        }
    } else if open && k.key == Key::Right {
        if n > 1 {
            let next = if a + 1 == n { 0 } else { a + 1 };
            (MenuBarView { active: next as i32, hover: first_focusable(v, next) as i32, ..v }, EventResult::Consumed, None)
        } else {
            (v, EventResult::Consumed, None)
        }
    } else if open && k.key == Key::Enter {
        if v.hover >= 0 && focusable(v.menus[a][v.hover as int]) {
            (closed(v), EventResult::Consumed, v.menus[a][v.hover as int].action)
        } else {
            (v, EventResult::Consumed, None)
        }
    } else if k.modifiers.alt && mnemonic_letter(k.key) is Some
        && mnemonic_from(v.titles, mnemonic_letter(k.key)->0, 0) >= 0 {
        (opened(v, mnemonic_from(v.titles, mnemonic_letter(k.key)->0, 0)), EventResult::Consumed, None)
    } else {
        (v, EventResult::Ignored, None)
    }
}

/// A pointer move to `p`: over the open drop-down it tracks the hovered row
/// (and the submenu of that row, if it has one); elsewhere it tracks the
/// hovered title. It is consumed over the bar or while a menu is open.
pub open spec fn move_event(v: MenuBarView, p: Point) -> (MenuBarView, EventResult, Option<u32>) {
    let open = v.dropdown_visible && v.active >= 0;
    let v2 = if open {
        if dropdown_rect(v, v.active as int).contains_spec(p) {
            let h = entry_at(v, p, v.active as int);
            MenuBarView {
                hover: h as i32,
                hover_item: -1i32,
                submenu_open: if h >= 0 && v.menus[v.active as int][h].has_submenu {
                    Some((v.active, h as i32))
                } else {
                    None
                },
                ..v
            }
        } else {
            MenuBarView { hover: -1i32, hover_item: menu_at(v, p) as i32, ..v }
        }
    } else {
        MenuBarView { hover_item: menu_at(v, p) as i32, hover: -1i32, ..v }
    };
    let r = if v.state.bounds.contains_spec(p) || open { EventResult::Consumed } else { EventResult::Ignored };
    (v2, r, None)
}

/// The menu bar's answer to an event: the new state, the result, and the
/// action of an entry activated, if any. A hidden or disabled bar ignores
/// everything.
pub open spec fn menu_bar_event(v: MenuBarView, e: Event) -> (MenuBarView, EventResult, Option<u32>) {
    if !v.state.visible || !v.state.enabled {
        (v, EventResult::Ignored, None)
    } else {
        match e {
            Event::MouseButton(mb) => if mb.button == MouseButton::Left && mb.pressed {
                press_event(v, mb.position)
            } else {
                (v, EventResult::Ignored, None)
            },
            Event::KeyPress(k) => key_event(v, k),
            Event::MouseMove(mm) => move_event(v, mm.position),
            _ => (v, EventResult::Ignored, None),
        }
    }
}

/// The menus line up with their widths, and the active menu and hovered
/// title and row name existing ones.
pub open spec fn menu_bar_wf(v: MenuBarView) -> bool {
    let n = v.menus.len() as int;
    &&& v.titles.len() == n
    &&& v.item_widths.len() == n
    &&& v.dropdown_widths.len() == n
    &&& n < i32::MAX
    &&& -1 <= v.active < n
    &&& -1 <= v.hover_item < n
    &&& v.hover == -1 || (0 <= v.active && 0 <= v.hover < v.menus[v.active as int].len())
    &&& forall|i: int| 0 <= i < n ==> #[trigger] v.menus[i].len() < i32::MAX
    &&& forall|i: int| 0 <= i < n ==> #[trigger] v.item_widths[i] >= 0
}

/// Every coordinate the bar computes for its titles and drop-downs is an
/// `i32`.
pub open spec fn menu_bar_fits(v: MenuBarView) -> bool {
    let b = v.state.bounds;
    let n = v.menus.len() as int;
    &&& fits_i32(b.x + b.width)
    &&& fits_i32(b.y + b.height)
    &&& (v.viewport matches Some(vp) ==> fits_i32(vp.x + vp.width) && fits_i32(vp.y + vp.height))
    &&& forall|i: int| 0 <= i <= n ==> fits_i32(#[trigger] menu_x(v, i))
    &&& forall|i: int|
        0 <= i < n ==> {
            let h = #[trigger] rows_upto(v.menus[i], v.menus[i].len() as int);
            let w = dropdown_width(v, i);
            let right: int = match v.viewport { Some(vp) => vp.x + vp.width, None => b.x + b.width };
            &&& fits_i32(h)
            &&& fits_i32(menu_x(v, i) + w)
            &&& fits_i32(right - w)
            &&& fits_i32(b.y + b.height + h)
            &&& fits_i32(b.y - h)
        }
}

/// Sum of the first `k` widths.
pub open spec fn widths_sum(ws: Seq<i32>, k: int) -> int
    decreases k,
{
    if k <= 0 { 0 } else { widths_sum(ws, k - 1) + ws[k - 1] }
}

/// The bar after a menu titled `title` with entries `items` is added.
pub open spec fn added(v: MenuBarView, title: Seq<char>, items: Seq<MenuItem>) -> MenuBarView {
    MenuBarView {
        titles: v.titles.push(title),
        menus: v.menus.push(entry_kinds(items)),
        item_widths: v.item_widths.push(title_width(title) as i32),
        dropdown_widths: v.dropdown_widths.push(dropdown_width_of(items, items.len() as int) as i32),
        ..v
    }
}

proof fn lemma_rows_mono(es: Seq<EntryKind>, j: int, k: int)
    requires
        0 <= j <= k,
    ensures
        0 <= rows_upto(es, j) <= rows_upto(es, k),
    decreases k,
{
    if k > 0 {
        lemma_rows_mono(es, if j == k { k - 1 } else { j }, k - 1);
    }
}

proof fn lemma_width_mono(items: Seq<MenuItem>, j: int, k: int)
    requires
        0 <= j <= k,
    ensures
        200 <= dropdown_width_of(items, j) <= dropdown_width_of(items, k),
    decreases k,
{
    if k > 0 {
        lemma_width_mono(items, if j == k { k - 1 } else { j }, k - 1);
    }
}

proof fn lemma_sum_mono(ws: Seq<i32>, j: int, k: int)
    requires
        0 <= j <= k <= ws.len(),
        forall|i: int| 0 <= i < ws.len() ==> #[trigger] ws[i] >= 0,
    ensures
        0 <= widths_sum(ws, j) <= widths_sum(ws, k),
    decreases k,
{
    if k > 0 {
        lemma_sum_mono(ws, if j == k { k - 1 } else { j }, k - 1);
    }
}

/// Views that agree on the bar's bounds, titles and widths place titles
/// alike.
proof fn lemma_same_titles(v: MenuBarView, w: MenuBarView, p: Point)
    requires
        v.state.bounds == w.state.bounds,
        v.titles == w.titles,
        v.item_widths == w.item_widths,
    ensures
        menu_at(v, p) == menu_at(w, p),
        forall|i: int| menu_x(v, i) == #[trigger] menu_x(w, i),
{
    assert forall|i: int| menu_x(v, i) == #[trigger] menu_x(w, i) by {
        lemma_menu_x_same(v, w, i);
    }
    lemma_title_hit_same(v, w, p, 0);
}

proof fn lemma_menu_x_same(v: MenuBarView, w: MenuBarView, i: int)
    requires
        v.state.bounds == w.state.bounds,
        v.item_widths == w.item_widths,
    ensures
        menu_x(v, i) == menu_x(w, i),
    decreases i,
{
    if i > 0 {
        lemma_menu_x_same(v, w, i - 1);
    }
}

proof fn lemma_title_hit_same(v: MenuBarView, w: MenuBarView, p: Point, i: int)
    requires
        v.state.bounds == w.state.bounds,
        v.titles == w.titles,
        v.item_widths == w.item_widths,
        forall|j: int| menu_x(v, j) == #[trigger] menu_x(w, j),
    ensures
        title_hit(v, p, i) == title_hit(w, p, i),
    decreases v.titles.len() - i,
{
    if 0 <= i < v.titles.len() {
        lemma_title_hit_same(v, w, p, i + 1);
    }
}

/// A bar of menu titles, each opening a drop-down of entries.
pub struct MenuBar {
    state: WidgetState,
    menu_items: Vec<MenuItem>,
    item_widths: Vec<i32>,
    active_menu: i32,
    hover_item: i32,
    dropdown_visible: bool,
    dropdown_hover: i32,
    dropdown_widths: Vec<i32>,
    viewport: Option<Rect>,
    submenu_open: Option<(i32, i32)>,
}

impl MenuBar {
    pub closed spec fn view(&self) -> MenuBarView {
        MenuBarView {
            state: self.state,
            titles: self.menu_items@.map_values(|m: MenuItem| m.text@),
            menus: self.menu_items@.map_values(|m: MenuItem| entry_kinds(m.submenu_items@)),
            item_widths: self.item_widths@,
            dropdown_widths: self.dropdown_widths@,
            active: self.active_menu,
            hover_item: self.hover_item,
            dropdown_visible: self.dropdown_visible,
            hover: self.dropdown_hover,
            viewport: self.viewport,
            submenu_open: self.submenu_open,
        }
    }

    /// An empty, closed bar.
    pub fn new(id: WidgetId) -> (m: MenuBar)
        ensures
            menu_bar_wf(m.view()),
            m.view() == (MenuBarView {
                state: WidgetState::new_spec(id),
                titles: Seq::empty(),
                menus: Seq::empty(),
                item_widths: Seq::empty(),
                dropdown_widths: Seq::empty(),
                active: -1i32,
                hover_item: -1i32,
                dropdown_visible: false,
                hover: -1i32,
                viewport: None,
                submenu_open: None,
            }),
    {
        let m = MenuBar {
            state: WidgetState::new(id),
            menu_items: Vec::new(),
            item_widths: Vec::new(),
            active_menu: -1,
            hover_item: -1,
            dropdown_visible: false,
            dropdown_hover: -1,
            dropdown_widths: Vec::new(),
            viewport: None,
            submenu_open: None,
        };
        assert(m.view().titles =~= Seq::<Seq<char>>::empty());
        assert(m.view().menus =~= Seq::<Seq<EntryKind>>::empty());
        m
    }

    /// The open submenu, as (menu, row), if any.
    pub fn submenu_open(&self) -> (r: Option<(i32, i32)>)
        ensures
            r == self.view().submenu_open,
    {
        self.submenu_open
    }

    /// The area drop-downs are kept in.
    pub fn set_viewport(&mut self, viewport: Rect)
        ensures
            final(self).view() == (MenuBarView { viewport: Some(viewport), ..old(self).view() }),
    {
        self.viewport = Some(viewport);
    }

    /// Adds a menu titled `text` with the entries `items`; its title width
    /// and drop-down width are measured now.
    pub fn add_menu(&mut self, text: &str, items: Vec<MenuItem>)
        requires
            menu_bar_wf(old(self).view()),
            old(self).view().menus.len() + 1 < i32::MAX,
            items@.len() < i32::MAX,
            title_width(text@) <= i32::MAX,
            dropdown_width_of(items@, items@.len() as int) <= i32::MAX,
        ensures
            menu_bar_wf(final(self).view()),
            final(self).view() == added(old(self).view(), text@, items@),
    {
        let ghost v0 = self.view();
        let text_width = char_count(text) * 8 + 24;
        let mut menu_width: i32 = 200;
        let mut i: usize = 0;
        while i < items.len()
            invariant
                i <= items@.len(),
                dropdown_width_of(items@, items@.len() as int) <= i32::MAX,
                menu_width == dropdown_width_of(items@, i as int),
            decreases items@.len() - i,
        {
            proof {
                lemma_width_mono(items@, i + 1, items@.len() as int);
            }
            let item = &items[i];
            if !item.is_separator {
                assert(entry_width(items@[i as int]) <= dropdown_width_of(items@, i + 1));
                let text_len = char_count(item.text.as_str()) * 8;
                let shortcut_len = char_count(item.shortcut.as_str()) * 7;
                let total = text_len + shortcut_len + 32;
                if total > menu_width {
                    menu_width = total;
                }
            }
            i = i + 1;
        }
        self.item_widths.push(text_width);
        self.dropdown_widths.push(menu_width);
        let mut menu = MenuItem::new(text);
        menu.submenu_items = items;
        self.menu_items.push(menu);
        proof {
            let v1 = self.view();
            let a = added(v0, text@, items@);
            assert(v1.titles =~= a.titles);
            assert(v1.menus =~= a.menus);
            assert(v1.item_widths =~= a.item_widths);
            assert(v1.dropdown_widths =~= a.dropdown_widths);
            assert(forall|k: int| 0 <= k < v1.menus.len() ==> #[trigger] v1.menus[k].len() < i32::MAX);
        }
    }

    fn dropdown_width_for(&self, menu_index: i32) -> (w: i32)
        requires
            menu_bar_wf(self.view()),
        ensures
            w == dropdown_width(self.view(), menu_index as int),
    {
        if menu_index < 0 || menu_index as usize >= self.dropdown_widths.len() {
            200
        } else {
            self.dropdown_widths[menu_index as usize]
        }
    }

    pub fn is_dropdown_visible(&self) -> (b: bool)
        ensures
            b == self.view().dropdown_visible,
    {
        self.dropdown_visible
    }

    /// The open menu, `-1` for none.
    pub fn active_menu(&self) -> (i: i32)
        ensures
            i == self.view().active,
    {
        self.active_menu
    }

    /// The hovered row of the open drop-down, `-1` for none.
    pub fn dropdown_hover(&self) -> (i: i32)
        ensures
            i == self.view().hover,
    {
        self.dropdown_hover
    }

    /// The drop-down rectangle of menu `menu_index`.
    pub fn dropdown_rect_for(&self, menu_index: i32) -> (r: Rect)
        requires
            menu_bar_wf(self.view()),
            menu_bar_fits(self.view()),
            0 <= menu_index < self.view().menus.len(),
        ensures
            r == dropdown_rect(self.view(), menu_index as int),
    {
        self.get_dropdown_rect(menu_index)
    }

    /// The drop-down width of menu `menu_index` (200 for no such menu).
    pub fn dropdown_width_at(&self, menu_index: i32) -> (w: i32)
        requires
            menu_bar_wf(self.view()),
        ensures
            w == dropdown_width(self.view(), menu_index as int),
    {
        self.dropdown_width_for(menu_index)
    }

    /// The title under `point`, `-1` for none.
    pub fn menu_index_at(&self, point: Point) -> (i: i32)
        requires
            menu_bar_wf(self.view()),
            menu_bar_fits(self.view()),
        ensures
            i == menu_at(self.view(), point),
    {
        self.menu_index_from_point(point)
    }

    /// Closes the open menu.
    pub fn hide_dropdown(&mut self)
        ensures
            final(self).view() == closed(old(self).view()),
    {
        self.close_dropdown_internal();
    }

    fn close_dropdown_internal(&mut self)
        ensures
            final(self).view() == closed(old(self).view()),
    {
        self.dropdown_visible = false;
        self.active_menu = -1;
        self.dropdown_hover = -1;
        self.submenu_open = None;
    }

    fn get_menu_rect(&self, menu_index: i32) -> (r: Rect)
        requires
            menu_bar_wf(self.view()),
            menu_bar_fits(self.view()),
            0 <= menu_index < self.view().menus.len(),
        ensures
            r == menu_rect(self.view(), menu_index as int),
    {
        let ghost v = self.view();
        assert(fits_i32(menu_x(v, 0)));
        let mut x = self.state.bounds.x + 4;
        let mut i: usize = 0;
        while i < menu_index as usize
            invariant
                v == self.view(),
                menu_bar_wf(v),
                menu_bar_fits(v),
                0 <= menu_index < v.menus.len(),
                i <= menu_index,
                x == menu_x(v, i as int),
            decreases menu_index - i,
        {
            assert(fits_i32(menu_x(v, i + 1)));
            x = x + self.item_widths[i];
            i = i + 1;
        }
        Rect::new(x, self.state.bounds.y, self.item_widths[menu_index as usize], self.state.bounds.height)
    }

    fn rows_height_of(&self, menu_index: i32) -> (h: i32)
        requires
            menu_bar_wf(self.view()),
            menu_bar_fits(self.view()),
            0 <= menu_index < self.view().menus.len(),
        ensures
            h == rows_upto(self.view().menus[menu_index as int], self.view().menus[menu_index as int].len() as int),
    {
        let ghost v = self.view();
        let ghost es = v.menus[menu_index as int];
        let items = &self.menu_items[menu_index as usize].submenu_items;
        assert(es == entry_kinds(items@));
        assert(fits_i32(rows_upto(es, es.len() as int)));
        let mut h: i32 = 0;
        let mut i: usize = 0;
        while i < items.len()
            invariant
                es == entry_kinds(items@),
                fits_i32(rows_upto(es, es.len() as int)),
                i <= items@.len(),
                h == rows_upto(es, i as int),
            decreases items@.len() - i,
        {
            proof {
                lemma_rows_mono(es, i + 1, es.len() as int);
            }
            assert(es[i as int] == entry_kind(items@[i as int]));
            h = h + if items[i].is_separator { 14 } else { 28 };
            i = i + 1;
        }
        h
    }

    fn get_dropdown_rect(&self, menu_index: i32) -> (r: Rect)
        requires
            menu_bar_wf(self.view()),
            menu_bar_fits(self.view()),
            0 <= menu_index < self.view().menus.len(),
        ensures
            r == dropdown_rect(self.view(), menu_index as int),
    {
        let ghost v = self.view();
        let menu_rect = self.get_menu_rect(menu_index);
        let dropdown_height = self.rows_height_of(menu_index);
        let width = self.dropdown_width_for(menu_index);
        assert(fits_i32(menu_x(v, menu_index as int)));
        let right = match self.viewport {
            Some(vp) => vp.right(),
            None => self.state.bounds.right(),
        };
        let mut x = menu_rect.x;
        if x + width > right {
            x = right - width;
        }
        if x < self.state.bounds.x {
            x = self.state.bounds.x;
        }
        let mut y = self.state.bounds.bottom();
        match self.viewport {
            Some(vp) => {
                if y + dropdown_height > vp.bottom() {
                    let above = menu_rect.y - dropdown_height;
                    y = if above > 0 { above } else { 0 };
                }
            },
            None => {},
        }
        Rect::new(x, y, width, dropdown_height)
    }

    fn menu_index_from_point(&self, point: Point) -> (r: i32)
        requires
            menu_bar_wf(self.view()),
            menu_bar_fits(self.view()),
        ensures
            r == menu_at(self.view(), point),
            -1 <= r < self.view().menus.len(),
    {
        let ghost v = self.view();
        proof {
            lemma_title_hit_range(v, point, 0);
        }
        if !self.state.bounds.contains(point) {
            return -1;
        }
        assert(fits_i32(menu_x(v, 0)));
        let mut x = self.state.bounds.x + 4;
        let mut i: usize = 0;
        while i < self.menu_items.len()
            invariant
                v == self.view(),
                menu_bar_wf(v),
                menu_bar_fits(v),
                v.state.bounds.contains_spec(point),
                i <= v.menus.len(),
                x == menu_x(v, i as int),
                title_hit(v, point, 0) == title_hit(v, point, i as int),
            decreases v.menus.len() - i,
        {
            assert(fits_i32(menu_x(v, i + 1)));
            let w = self.item_widths[i];
            if point.x >= x && point.x < x + w {
                return i as i32;
            }
            x = x + w;
            i = i + 1;
        }
        -1
    }

    fn first_focusable_in(&self, menu_index: i32) -> (r: i32)
        requires
            menu_bar_wf(self.view()),
        ensures
            r == first_focusable(self.view(), menu_index as int),
            r == -1 || 0 <= r < self.view().menus[menu_index as int].len(),
    {
        let ghost v = self.view();
        proof {
            if 0 <= menu_index < v.menus.len() {
                lemma_first_focusable_range(v.menus[menu_index as int], 0);
            }
        }
        if menu_index < 0 || menu_index as usize >= self.menu_items.len() {
            return -1;
        }
        let items = &self.menu_items[menu_index as usize].submenu_items;
        let ghost es = v.menus[menu_index as int];
        assert(es == entry_kinds(items@));
        assert(es.len() < i32::MAX);
        let mut i: usize = 0;
        while i < items.len()
            invariant
                v == self.view(),
                0 <= menu_index < v.menus.len(),
                es == v.menus[menu_index as int],
                es == entry_kinds(items@),
                es.len() < i32::MAX,
                i <= items@.len(),
                first_focusable_from(es, 0) == first_focusable_from(es, i as int),
            decreases items@.len() - i,
        {
            assert(es[i as int] == entry_kind(items@[i as int]));
            if !items[i].is_separator && items[i].enabled {
                return i as i32;
            }
            i = i + 1;
        }
        -1
    }

    fn step_dropdown_hover(&self, menu_index: i32, forward: bool) -> (r: i32)
        requires
            menu_bar_wf(self.view()),
            self.view().hover == -1 || self.view().active == menu_index,
        ensures
            r == stepped_hover(self.view(), menu_index as int, forward),
    {
        let ghost v = self.view();
        if menu_index < 0 || menu_index as usize >= self.menu_items.len() {
            return -1;
        }
        let items = &self.menu_items[menu_index as usize].submenu_items;
        let ghost es = v.menus[menu_index as int];
        assert(es == entry_kinds(items@));
        assert(es.len() < i32::MAX);
        let n = items.len() as i32;
        if n == 0 {
            return -1;
        }
        let start = if self.dropdown_hover >= 0 {
            self.dropdown_hover
        } else if forward {
            n - 1
        } else {
            0
        };
        let mut i = start;
        let mut k: i32 = 0;
        while k < n
            invariant
                v == self.view(),
                0 <= menu_index < v.menus.len(),
                es == v.menus[menu_index as int],
                es == entry_kinds(items@),
                n == es.len(),
                0 < n < i32::MAX,
                0 <= i < n,
                0 <= k <= n,
                stepped_hover(v, menu_index as int, forward) == step_search(es, start as int, forward, n as int, v.hover as int),
                step_search(es, start as int, forward, n as int, v.hover as int)
                    == step_search(es, i as int, forward, (n - k) as int, v.hover as int),
            decreases n - k,
        {
            i = if forward {
                (i + 1) % n
            } else if i == 0 {
                n - 1
            } else {
                i - 1
            };
            assert(es[i as int] == entry_kind(items@[i as int]));
            if !items[i as usize].is_separator && items[i as usize].enabled {
                return i;
            }
            k = k + 1;
        }
        assert(step_search(es, i as int, forward, 0, v.hover as int) == v.hover);
        self.dropdown_hover
    }

    fn find_mnemonic_match(&self, key: Key) -> (r: i32)
        requires
            menu_bar_wf(self.view()),
        ensures
            r == (match mnemonic_letter(key) {
                Some(t) => mnemonic_from(self.view().titles, t, 0),
                None => -1,
            }),
    {
        let ghost v = self.view();
        let target = match key {
            Key::Character(c) => ascii_lower_exec(c),
            Key::A => 'a',
            Key::B => 'b',
            Key::C => 'c',
            Key::D => 'd',
            Key::E => 'e',
            Key::F => 'f',
            Key::G => 'g',
            Key::H => 'h',
            Key::I => 'i',
            Key::J => 'j',
            Key::K => 'k',
            Key::L => 'l',
            Key::M => 'm',
            Key::N => 'n',
            Key::O => 'o',
            Key::P => 'p',
            Key::Q => 'q',
            Key::R => 'r',
            Key::S => 's',
            Key::T => 't',
            Key::U => 'u',
            Key::V => 'v',
            Key::W => 'w',
            Key::X => 'x',
            Key::Y => 'y',
            Key::Z => 'z',
            _ => {
                return -1;
            },
        };
        assert(mnemonic_letter(key) == Some(target));
        let mut i: usize = 0;
        while i < self.menu_items.len()
            invariant
                v == self.view(),
                menu_bar_wf(v),
                i <= v.titles.len(),
                mnemonic_letter(key) == Some(target),
                mnemonic_from(v.titles, target, 0) == mnemonic_from(v.titles, target, i as int),
            decreases v.titles.len() - i,
        {
            let t = self.menu_items[i].text.as_str();
            assert(t@ == v.titles[i as int]);
            if t.unicode_len() > 0 {
                let first = t.get_char(0);
                if ascii_lower_exec(first) == target {
                    return i as i32;
                }
            }
            i = i + 1;
        }
        -1
    }

    fn dropdown_item_from_point(&self, point: Point, menu_index: i32) -> (r: i32)
        requires
            menu_bar_wf(self.view()),
            menu_bar_fits(self.view()),
        ensures
            r == entry_at(self.view(), point, menu_index as int),
            r == -1 || 0 <= r < self.view().menus[menu_index as int].len(),
    {
        let ghost v = self.view();
        proof {
            if 0 <= menu_index < v.menus.len() {
                lemma_row_hit_range(v.menus[menu_index as int], point.y - dropdown_rect(v, menu_index as int).y, 0);
            }
        }
        if menu_index < 0 || menu_index as usize >= self.menu_items.len() {
            return -1;
        }
        let drect = self.get_dropdown_rect(menu_index);
        if !drect.contains(point) {
            return -1;
        }
        let relative_y = point.y - drect.y;
        if relative_y < 0 {
            return -1;
        }
        let items = &self.menu_items[menu_index as usize].submenu_items;
        let ghost es = v.menus[menu_index as int];
        assert(es == entry_kinds(items@));
        assert(es.len() < i32::MAX);
        assert(fits_i32(rows_upto(es, es.len() as int)));
        let mut acc: i32 = 0;
        let mut i: usize = 0;
        while i < items.len()
            invariant
                v == self.view(),
                0 <= menu_index < v.menus.len(),
                es == v.menus[menu_index as int],
                drect == dropdown_rect(v, menu_index as int),
                drect.contains_spec(point),
                relative_y == point.y - drect.y,
                es == entry_kinds(items@),
                es.len() < i32::MAX,
                fits_i32(rows_upto(es, es.len() as int)),
                i <= items@.len(),
                acc == rows_upto(es, i as int),
                row_hit(es, relative_y as int, 0) == row_hit(es, relative_y as int, i as int),
            decreases items@.len() - i,
        {
            proof {
                lemma_rows_mono(es, i + 1, es.len() as int);
            }
            assert(es[i as int] == entry_kind(items@[i as int]));
            let row_h: i32 = if items[i].is_separator { 14 } else { 28 };
            if relative_y >= acc && relative_y < acc + row_h {
                return i as i32;
            }
            acc = acc + row_h;
            i = i + 1;
        }
        -1
    }
}

/// `char::to_ascii_lowercase`.
fn ascii_lower_exec(c: char) -> (r: char)
    ensures
        r == ascii_lower(c),
{
    if 'A' <= c && c <= 'Z' {
        ((c as u32) + 32) as u8 as char
    } else {
        c
    }
}

impl MenuBar {
    fn handle_press(&mut self, point: Point) -> (r: (EventResult, Option<u32>))
        requires
            menu_bar_wf(old(self).view()),
            menu_bar_fits(old(self).view()),
        ensures
            final(self).view() == press_event(old(self).view(), point).0,
            r.0 == press_event(old(self).view(), point).1,
            r.1 == press_event(old(self).view(), point).2,
    {
        let ghost v = self.view();
        let menu_index = self.menu_index_from_point(point);
        if menu_index >= 0 {
            if self.active_menu == menu_index {
                self.close_dropdown_internal();
            } else {
                let h = self.first_focusable_in(menu_index);
                self.active_menu = menu_index;
                self.dropdown_visible = true;
                self.dropdown_hover = h;
                self.submenu_open = None;
            }
            return (EventResult::Consumed, None);
        }
        if self.dropdown_visible && self.active_menu >= 0 {
            let a = self.active_menu;
            let dropdown_rect = self.get_dropdown_rect(a);
            let di = self.dropdown_item_from_point(point, a);
            if di >= 0 {
                let item = &self.menu_items[a as usize].submenu_items[di as usize];
                assert(v.menus[a as int][di as int] == entry_kind(self.menu_items@[a as int].submenu_items@[di as int]));
                if item.is_separator || !item.enabled {
                    return (EventResult::Consumed, None);
                }
                let action = item.on_click;
                self.close_dropdown_internal();
                return (EventResult::Consumed, action);
            } else if !dropdown_rect.contains(point) && !self.state.bounds.contains(point) {
                self.close_dropdown_internal();
                return (EventResult::Consumed, None);
            }
        }
        (EventResult::Ignored, None)
    }

    fn handle_key(&mut self, k: KeyPressEvent) -> (r: (EventResult, Option<u32>))
        requires
            menu_bar_wf(old(self).view()),
        ensures
            final(self).view() == key_event(old(self).view(), k).0,
            r.0 == key_event(old(self).view(), k).1,
            r.1 == key_event(old(self).view(), k).2,
    {
        let ghost v = self.view();
        let key = k.key;
        if key == Key::Escape && self.dropdown_visible {
            self.close_dropdown_internal();
            return (EventResult::Consumed, None);
        }
        if self.dropdown_visible && self.active_menu >= 0 {
            let a = self.active_menu;
            let n = self.menu_items.len() as i32;
            match key {
                Key::Down => {
                    self.dropdown_hover = self.step_dropdown_hover(a, true);
                    return (EventResult::Consumed, None);
                },
                Key::Up => {
                    self.dropdown_hover = self.step_dropdown_hover(a, false);
                    return (EventResult::Consumed, None);
                },
                Key::Left => {
                    if n > 1 {
                        let prev = if a == 0 { n - 1 } else { a - 1 };
                        let h = self.first_focusable_in(prev);
                        self.active_menu = prev;
                        self.dropdown_hover = h;
                    }
                    return (EventResult::Consumed, None);
                },
                Key::Right => {
                    if n > 1 {
                        let next = if a + 1 == n { 0 } else { a + 1 };
                        let h = self.first_focusable_in(next);
                        self.active_menu = next;
                        self.dropdown_hover = h;
                    }
                    return (EventResult::Consumed, None);
                },
                Key::Enter => {
                    if self.dropdown_hover >= 0 {
                        let item = &self.menu_items[a as usize].submenu_items[self.dropdown_hover as usize];
                        assert(v.menus[a as int][v.hover as int] == entry_kind(
                            self.menu_items@[a as int].submenu_items@[v.hover as int],
                        ));
                        if item.enabled && !item.is_separator {
                            let action = item.on_click;
                            self.close_dropdown_internal();
                            return (EventResult::Consumed, action);
                        }
                    }
                    return (EventResult::Consumed, None);
                },
                _ => {},
            }
        }
        if k.modifiers.alt {
            let idx = self.find_mnemonic_match(key);
            if idx >= 0 {
                let h = self.first_focusable_in(idx);
                self.active_menu = idx;
                self.dropdown_visible = true;
                self.dropdown_hover = h;
                return (EventResult::Consumed, None);
            }
        }
        (EventResult::Ignored, None)
    }

    fn handle_move(&mut self, point: Point) -> (r: EventResult)
        requires
            menu_bar_wf(old(self).view()),
            menu_bar_fits(old(self).view()),
        ensures
            final(self).view() == move_event(old(self).view(), point).0,
            r == move_event(old(self).view(), point).1,
    {
        let ghost v = self.view();
        let title = self.menu_index_from_point(point);
        let open = self.dropdown_visible && self.active_menu >= 0;
        if open {
            let a = self.active_menu;
            let dropdown_rect = self.get_dropdown_rect(a);
            if dropdown_rect.contains(point) {
                let h = self.dropdown_item_from_point(point, a);
                let sub = if h >= 0 {
                    assert(v.menus[a as int][h as int] == entry_kind(self.menu_items@[a as int].submenu_items@[h as int]));
                    if self.menu_items[a as usize].submenu_items[h as usize].submenu_items.len() > 0 {
                        Some((a, h))
                    } else {
                        None
                    }
                } else {
                    None
                };
                self.dropdown_hover = h;
                self.hover_item = -1;
                self.submenu_open = sub;
            } else {
                self.dropdown_hover = -1;
                self.hover_item = title;
            }
        } else {
            self.hover_item = title;
            self.dropdown_hover = -1;
        }
        if self.state.bounds.contains(point) || open {
            EventResult::Consumed
        } else {
            EventResult::Ignored
        }
    }

    /// Answers an event; see [`menu_bar_event`]. Returns the result and the
    /// action of the entry activated, if any.
    pub fn handle_event(&mut self, event: &Event) -> (r: (EventResult, Option<u32>))
        requires
            menu_bar_wf(old(self).view()),
            menu_bar_fits(old(self).view()),
        ensures
            menu_bar_wf(final(self).view()),
            final(self).view() == menu_bar_event(old(self).view(), *event).0,
            r.0 == menu_bar_event(old(self).view(), *event).1,
            r.1 == menu_bar_event(old(self).view(), *event).2,
    {
        proof {
            lemma_event_keeps_wf(self.view(), *event);
        }
        if !self.state.visible || !self.state.enabled {
            return (EventResult::Ignored, None);
        }
        match event {
            Event::MouseButton(mb) => {
                if mb.button == MouseButton::Left && mb.pressed {
                    self.handle_press(mb.position)
                } else {
                    (EventResult::Ignored, None)
                }
            },
            Event::KeyPress(k) => self.handle_key(*k),
            Event::MouseMove(mm) => {
                let r = self.handle_move(mm.position);
                (r, None)
            },
            _ => (EventResult::Ignored, None),
        }
    }

    /// Total width of the titles (at least 100) by the font size plus two
    /// paddings.
    pub fn measure(&self, font_size_base: i32) -> (s: Size)
        requires
            menu_bar_wf(self.view()),
            fits_i32(widths_sum(self.view().item_widths, self.view().item_widths.len() as int)),
            fits_i32(font_size_base + 16),
        ensures
            s.width == (if widths_sum(self.view().item_widths, self.view().item_widths.len() as int) > 100 {
                widths_sum(self.view().item_widths, self.view().item_widths.len() as int)
            } else {
                100
            }),
            s.height == font_size_base + 16,
    {
        let ghost ws = self.item_widths@;
        let mut total: i32 = 0;
        let mut i: usize = 0;
        while i < self.item_widths.len()
            invariant
                ws == self.item_widths@,
                forall|j: int| 0 <= j < ws.len() ==> #[trigger] ws[j] >= 0,
                fits_i32(widths_sum(ws, ws.len() as int)),
                i <= ws.len(),
                total == widths_sum(ws, i as int),
            decreases ws.len() - i,
        {
            proof {
                lemma_sum_mono(ws, i + 1, ws.len() as int);
            }
            total = total + self.item_widths[i];
            i = i + 1;
        }
        let width = if total > 100 { total } else { 100 };
        Size::new(width, font_size_base + 16)
    }

    pub fn layout(&mut self, rect: Rect)
        ensures
            final(self).view() == (MenuBarView {
                state: WidgetState { bounds: rect, ..old(self).view().state },
                ..old(self).view()
            }),
    {
        self.state.bounds = rect;
    }

    pub fn id(&self) -> (id: WidgetId)
        ensures
            id == self.view().state.id,
    {
        self.state.id
    }

    pub fn bounds(&self) -> (r: Rect)
        ensures
            r == self.view().state.bounds,
    {
        self.state.bounds
    }

    pub fn set_bounds(&mut self, bounds: Rect)
        ensures
            final(self).view() == (MenuBarView {
                state: WidgetState { bounds, ..old(self).view().state },
                ..old(self).view()
            }),
    {
        self.state.bounds = bounds;
    }

    pub fn is_visible(&self) -> (b: bool)
        ensures
            b == self.view().state.visible,
    {
        self.state.visible
    }

    pub fn set_visible(&mut self, visible: bool)
        ensures
            final(self).view() == (MenuBarView {
                state: WidgetState { visible, ..old(self).view().state },
                ..old(self).view()
            }),
    {
        self.state.visible = visible;
    }

    pub fn is_enabled(&self) -> (b: bool)
        ensures
            b == self.view().state.enabled,
    {
        self.state.enabled
    }

    pub fn set_enabled(&mut self, enabled: bool)
        ensures
            final(self).view() == (MenuBarView {
                state: WidgetState { enabled, ..old(self).view().state },
                ..old(self).view()
            }),
    {
        self.state.enabled = enabled;
    }

    /// A menu bar never holds the keyboard focus itself.
    pub fn is_focused(&self) -> (b: bool)
        ensures
            !b,
    {
        false
    }

    /// Focus requests are ignored.
    pub fn set_focused(&mut self, _focused: bool)
        ensures
            final(self).view() == old(self).view(),
    {
    }

    pub fn can_focus(&self) -> (b: bool)
        ensures
            b,
    {
        true
    }
}

proof fn lemma_first_focusable_range(es: Seq<EntryKind>, k: int)
    requires
        0 <= k,
    ensures
        first_focusable_from(es, k) == -1 || (k <= first_focusable_from(es, k) < es.len()
            && focusable(es[first_focusable_from(es, k)])),
    decreases es.len() - k,
{
    if k < es.len() && !focusable(es[k]) {
        lemma_first_focusable_range(es, k + 1);
    }
}

proof fn lemma_step_search_range(es: Seq<EntryKind>, i: int, forward: bool, left: int, fallback: int)
    requires
        0 <= i < es.len(),
    ensures
        step_search(es, i, forward, left, fallback) == fallback || {
            let r = step_search(es, i, forward, left, fallback);
            0 <= r < es.len() && focusable(es[r])
        },
    decreases left,
{
    if left > 0 {
        let j = step_row(i, es.len() as int, forward);
        if !focusable(es[j]) {
            lemma_step_search_range(es, j, forward, left - 1, fallback);
        }
    }
}

proof fn lemma_row_hit_range(es: Seq<EntryKind>, ry: int, k: int)
    requires
        0 <= k,
    ensures
        row_hit(es, ry, k) == -1 || k <= row_hit(es, ry, k) < es.len(),
    decreases es.len() - k,
{
    if k < es.len() {
        lemma_row_hit_range(es, ry, k + 1);
    }
}

proof fn lemma_title_hit_range(v: MenuBarView, p: Point, k: int)
    requires
        0 <= k,
    ensures
        title_hit(v, p, k) == -1 || k <= title_hit(v, p, k) < v.titles.len(),
    decreases v.titles.len() - k,
{
    if k < v.titles.len() {
        lemma_title_hit_range(v, p, k + 1);
    }
}

proof fn lemma_mnemonic_range(titles: Seq<Seq<char>>, t: char, k: int)
    requires
        0 <= k,
    ensures
        mnemonic_from(titles, t, k) == -1 || k <= mnemonic_from(titles, t, k) < titles.len(),
    decreases titles.len() - k,
{
    if k < titles.len() {
        lemma_mnemonic_range(titles, t, k + 1);
    }
}

/// Every event leaves the bar well formed.
proof fn lemma_event_keeps_wf(v: MenuBarView, e: Event)
    requires
        menu_bar_wf(v),
    ensures
        menu_bar_wf(menu_bar_event(v, e).0),
{
    let n = v.menus.len() as int;
    assert forall|i: int| 0 <= i < n implies first_focusable(v, i) == -1 || 0 <= first_focusable(v, i) < v.menus[i].len() by {
        lemma_first_focusable_range(v.menus[i], 0);
    }
    assert forall|p: Point| -1 <= #[trigger] menu_at(v, p) < n by {
        lemma_title_hit_range(v, p, 0);
    }
    assert forall|p: Point, i: int| 0 <= i < n implies -1 <= #[trigger] entry_at(v, p, i) < v.menus[i].len() by {
        let d = dropdown_rect(v, i);
        lemma_row_hit_range(v.menus[i], p.y - d.y, 0);
    }
    if v.active >= 0 && v.menus[v.active as int].len() > 0 {
        let es = v.menus[v.active as int];
        let m = es.len() as int;
        let start = if v.hover >= 0 { v.hover as int } else { m - 1 };
        lemma_step_search_range(es, start, true, m, v.hover as int);
        let start2 = if v.hover >= 0 { v.hover as int } else { 0 };
        lemma_step_search_range(es, start2, false, m, v.hover as int);
    }
    match e {
        Event::KeyPress(k) => {
            match mnemonic_letter(k.key) {
                Some(t) => lemma_mnemonic_range(v.titles, t, 0),
                None => {},
            }
        },
        _ => {},
    }
}


/// Up and Down in an open drop-down land on a focusable row, or leave the
/// hovered row as it was when there is none to land on.
pub proof fn law_menu_navigation_lands_on_focusable(v: MenuBarView, k: KeyPressEvent)
    requires
        menu_bar_wf(v),
        v.state.visible && v.state.enabled,
        v.dropdown_visible && v.active >= 0,
        k.key == Key::Down || k.key == Key::Up,
    ensures
        ({
            let v2 = menu_bar_event(v, Event::KeyPress(k)).0;
            let es = v.menus[v.active as int];
            &&& v2.active == v.active
            &&& (v2.hover == v.hover || (0 <= v2.hover < es.len() && focusable(es[v2.hover as int])))
        }),
{
    let es = v.menus[v.active as int];
    let m = es.len() as int;
    if m > 0 {
        let fwd = k.key == Key::Down;
        let start = if v.hover >= 0 { v.hover as int } else if fwd { m - 1 } else { 0 };
        lemma_step_search_range(es, start, fwd, m, v.hover as int);
    }
}

/// Pressing a title that is not open opens its menu; pressing the same
/// place again closes it.
pub proof fn law_title_press_toggles(v: MenuBarView, p: Point)
    requires
        menu_bar_wf(v),
        menu_at(v, p) >= 0,
        v.active != menu_at(v, p),
    ensures
        ({
            let v1 = press_event(v, p).0;
            let v2 = press_event(v1, p).0;
            &&& v1.active == menu_at(v, p) && v1.dropdown_visible
            &&& v2 == closed(v1)
            &&& !v2.dropdown_visible && v2.active == -1
        }),
{
    lemma_title_hit_range(v, p, 0);
    let v1 = press_event(v, p).0;
    lemma_same_titles(v, v1, p);
}

/// A press on a separator or a disabled entry of the open drop-down is
/// consumed and changes nothing.
pub proof fn law_inert_entry_press_keeps_menu(v: MenuBarView, p: Point)
    requires
        menu_bar_wf(v),
        menu_at(v, p) < 0,
        v.dropdown_visible && v.active >= 0,
        entry_at(v, p, v.active as int) >= 0,
        !focusable(v.menus[v.active as int][entry_at(v, p, v.active as int)]),
    ensures
        press_event(v, p) == (v, EventResult::Consumed, None::<u32>),
{
}

/// A press on an enabled entry reports its action and closes the menu.
pub proof fn law_entry_press_activates_and_closes(v: MenuBarView, p: Point)
    requires
        menu_bar_wf(v),
        menu_at(v, p) < 0,
        v.dropdown_visible && v.active >= 0,
        entry_at(v, p, v.active as int) >= 0,
        focusable(v.menus[v.active as int][entry_at(v, p, v.active as int)]),
    ensures
        press_event(v, p) == (
            closed(v),
            EventResult::Consumed,
            v.menus[v.active as int][entry_at(v, p, v.active as int)].action,
        ),
{
}

/// Escape closes an open menu.
pub proof fn law_escape_closes_menu(v: MenuBarView, k: KeyPressEvent)
    requires
        v.state.visible && v.state.enabled,
        v.dropdown_visible,
        k.key == Key::Escape,
    ensures
        menu_bar_event(v, Event::KeyPress(k)) == (closed(v), EventResult::Consumed, None::<u32>),
{
}

/// With a viewport, a drop-down that fits between the bar's left edge and
/// the viewport's right edge ends inside the viewport; one that would pass
/// the viewport's bottom and has room above the bar is placed right above
/// it.
pub proof fn law_dropdown_placement(v: MenuBarView, i: int, vp: Rect)
    requires
        menu_bar_wf(v),
        0 <= i < v.menus.len(),
        v.viewport == Some(vp),
        menu_bar_fits(v),
    ensures
        ({
            let d = dropdown_rect(v, i);
            let b = v.state.bounds;
            let h = rows_upto(v.menus[i], v.menus[i].len() as int);
            &&& b.x + dropdown_width(v, i) <= vp.x + vp.width ==> d.x + d.width <= vp.x + vp.width
            &&& d.x >= b.x
            &&& (b.y + b.height + h > vp.y + vp.height && b.y - h > 0 ==> d.y + d.height == b.y)
            &&& (b.y + b.height + h <= vp.y + vp.height ==> d.y == b.y + b.height)
        }),
{
    assert(fits_i32(rows_upto(v.menus[i], v.menus[i].len() as int)));
    assert(fits_i32(menu_x(v, i)));
}

/// Adding a menu keeps the titles, entries and widths of the menus
/// already there.
pub proof fn law_add_menu_keeps_others(v: MenuBarView, title: Seq<char>, items: Seq<MenuItem>, i: int)
    requires
        menu_bar_wf(v),
        0 <= i < v.menus.len(),
    ensures
        ({
            let a = added(v, title, items);
            &&& a.titles[i] == v.titles[i]
            &&& a.menus[i] == v.menus[i]
            &&& dropdown_width(a, i) == dropdown_width(v, i)
            &&& menu_x(a, i) == menu_x(v, i)
            &&& dropdown_width(a, v.menus.len() as int) == dropdown_width_of(items, items.len() as int) as i32
        }),
{
    let a = added(v, title, items);
    lemma_menu_x_prefix(v, a, i);
}

proof fn lemma_menu_x_prefix(v: MenuBarView, a: MenuBarView, i: int)
    requires
        a.state.bounds == v.state.bounds,
        0 <= i <= v.item_widths.len(),
        v.item_widths.len() <= a.item_widths.len(),
        forall|j: int| 0 <= j < v.item_widths.len() ==> a.item_widths[j] == v.item_widths[j],
    ensures
        menu_x(a, i) == menu_x(v, i),
    decreases i,
{
    if i > 0 {
        lemma_menu_x_prefix(v, a, i - 1);
    }
}

} // verus!
