//! Pop-up context menu with nested submenus, pointer and keyboard handling.
//!
//! An item's click handler is identified by an action number; when an item
//! is activated, `handle_event` reports that number and the host runs the
//! handler it registered under it.

use vstd::prelude::*;
use crate::event::{Event, EventResult, Key, KeyPressEvent, MouseButton};
use crate::geometry::{fits_i32, Point, Rect, Size, WidgetId};
use crate::text::char_count;
use crate::widget::WidgetState;

verus! {

/// Height of a separator row.
pub const SEPARATOR_HEIGHT: i32 = 9;

/// Height of an ordinary row.
pub const ITEM_HEIGHT: i32 = 25;

/// Narrowest a menu is drawn.
pub const MIN_WIDTH: i32 = 150;

/// One entry of a context menu.
pub struct ContextMenuItem {
    pub text: String,
    pub shortcut: String,
    pub enabled: bool,
    pub is_separator: bool,
    pub submenu: Option<Vec<ContextMenuItem>>,
    /// Action reported when the item is activated.
    pub on_click: Option<u32>,
}

/// The mathematical content of a `ContextMenuItem`.
pub struct EntryModel {
    pub text: Seq<char>,
    pub shortcut: Seq<char>,
    pub enabled: bool,
    pub is_separator: bool,
    pub submenu: Option<Seq<EntryModel>>,
    pub on_click: Option<u32>,
}

impl ContextMenuItem {
    pub open spec fn model(&self) -> EntryModel
        decreases self,
    {
        EntryModel {
            text: self.text@,
            shortcut: self.shortcut@,
            enabled: self.enabled,
            is_separator: self.is_separator,
            submenu: match &self.submenu {
                Some(v) => Some(
                    Seq::new(
                        v.len() as nat,
                        |i: int|
                            if 0 <= i < v.len() {
                                v@[i].model()
                            } else {
                                arbitrary()
                            },
                    ),
                ),
                None => None,
            },
            on_click: self.on_click,
        }
    }
}


/// The models of a sequence of items.
pub open spec fn models(items: Seq<ContextMenuItem>) -> Seq<EntryModel> {
    Seq::new(items.len(), |i: int| items[i].model())
}

impl ContextMenuItem {
    pub fn new(text: &str) -> (item: ContextMenuItem)
        ensures
            item.model() == (EntryModel {
                text: text@,
                shortcut: Seq::empty(),
                enabled: true,
                is_separator: false,
                submenu: None,
                on_click: None,
            }),
    {
        ContextMenuItem {
            text: text.to_owned(),
            shortcut: String::new(),
            enabled: true,
            is_separator: false,
            submenu: None,
            on_click: None,
        }
    }

    pub fn separator() -> (item: ContextMenuItem)
        ensures
            item.model() == (EntryModel {
                text: Seq::empty(),
                shortcut: Seq::empty(),
                enabled: true,
                is_separator: true,
                submenu: None,
                on_click: None,
            }),
    {
        ContextMenuItem {
            text: String::new(),
            shortcut: String::new(),
            enabled: true,
            is_separator: true,
            submenu: None,
            on_click: None,
        }
    }

    pub fn with_shortcut(self, shortcut: &str) -> (item: ContextMenuItem)
        ensures
            item.model() == (EntryModel { shortcut: shortcut@, ..self.model() }),
    {
        ContextMenuItem { shortcut: shortcut.to_owned(), ..self }
    }

    pub fn with_on_click(self, action: u32) -> (item: ContextMenuItem)
        ensures
            item.model() == (EntryModel { on_click: Some(action), ..self.model() }),
    {
        ContextMenuItem { on_click: Some(action), ..self }
    }

    pub fn with_submenu(self, items: Vec<ContextMenuItem>) -> (item: ContextMenuItem)
        ensures
            item.model() == (EntryModel { submenu: Some(models(items@)), ..self.model() }),
    {
        let r = ContextMenuItem { submenu: Some(items), ..self };
        assert(r.model().submenu->0 =~= models(r.submenu->0@));
        r
    }

    pub fn disabled(self) -> (item: ContextMenuItem)
        ensures
            item.model() == (EntryModel { enabled: false, ..self.model() }),
    {
        ContextMenuItem { enabled: false, ..self }
    }

    /// A copy of the item and of its whole submenu tree.
    pub fn deep_clone(&self) -> (item: ContextMenuItem)
        ensures
            item.model() == self.model(),
        decreases self,
    {
        let submenu = match &self.submenu {
            Some(v) => Some(clone_items(v)),
            None => None,
        };
        let r = ContextMenuItem {
            text: self.text.clone(),
            shortcut: self.shortcut.clone(),
            enabled: self.enabled,
            is_separator: self.is_separator,
            submenu,
            on_click: self.on_click,
        };
        assert(r.model().submenu == self.model().submenu) by {
            if self.submenu is Some {
                assert(r.model().submenu->0 =~= models(r.submenu->0@));
                assert(self.model().submenu->0 =~= models(self.submenu->0@));
            }
        }
        r
    }
}

/// Deep copies of all of `items`.
pub fn clone_items(items: &Vec<ContextMenuItem>) -> (r: Vec<ContextMenuItem>)
    ensures
        models(r@) == models(items@),
    decreases items,
{
    let mut r: Vec<ContextMenuItem> = Vec::new();
    let mut i: usize = 0;
    while i < items.len()
        invariant
            i <= items.len(),
            r.len() == i,
            forall|k: int| 0 <= k < i ==> #[trigger] r@[k].model() == items@[k].model(),
        decreases items.len() - i,
    {
        assert(decreases_to!(items => items@[i as int]));
        r.push(items[i].deep_clone());
        i = i + 1;
    }
    assert(models(r@) =~= models(items@));
    r
}

// ----------------------------------------------------------------------
// Geometry of a menu, as functions of its entries
// ----------------------------------------------------------------------

pub open spec fn row_height(e: EntryModel) -> int {
    if e.is_separator { SEPARATOR_HEIGHT as int } else { ITEM_HEIGHT as int }
}

/// Total height of the first `n` rows.
pub open spec fn rows_height(es: Seq<EntryModel>, n: int) -> int
    decreases n,
{
    if n <= 0 { 0 } else { rows_height(es, n - 1) + row_height(es[n - 1]) }
}

pub open spec fn menu_height(es: Seq<EntryModel>) -> int {
    rows_height(es, es.len() as int) + 4
}

/// Width an entry asks for: padding, its label, its shortcut and a
/// submenu arrow, seven pixels per character.
pub open spec fn entry_width(e: EntryModel) -> int {
    40 + e.text.len() * 7 + (if e.shortcut.len() == 0 { 0 } else { e.shortcut.len() * 7 + 20 })
        + (if e.submenu is Some { 20int } else { 0int })
}

/// The widest of `MIN_WIDTH` and the first `n` non-separator entries.
pub open spec fn width_upto(es: Seq<EntryModel>, n: int) -> int
    decreases n,
{
    if n <= 0 {
        MIN_WIDTH as int
    } else {
        let w = width_upto(es, n - 1);
        if es[n - 1].is_separator || entry_width(es[n - 1]) <= w {
            w
        } else {
            entry_width(es[n - 1])
        }
    }
}

pub open spec fn menu_width(es: Seq<EntryModel>) -> int {
    width_upto(es, es.len() as int)
}

/// Every entry's width and the menu's height are representable.
pub open spec fn sizes_ok(es: Seq<EntryModel>) -> bool {
    &&& forall|i: int| 0 <= i < es.len() ==> entry_width(#[trigger] es[i]) <= i32::MAX
    &&& menu_height(es) <= i32::MAX
}

/// Where a menu of size `w` by `h` requested at `p` is placed: moved left
/// and up to end inside the viewport, then right and down to start in it.
pub open spec fn placed_x(p: Point, vp: Option<Rect>, w: int) -> int {
    match vp {
        Some(v) => {
            let x1 = if p.x + w > v.x + v.width { v.x + v.width - w } else { p.x as int };
            if x1 < v.x { v.x as int } else { x1 }
        },
        None => p.x as int,
    }
}

pub open spec fn placed_y(p: Point, vp: Option<Rect>, h: int) -> int {
    match vp {
        Some(v) => {
            let y1 = if p.y + h > v.y + v.height { v.y + v.height - h } else { p.y as int };
            if y1 < v.y { v.y as int } else { y1 }
        },
        None => p.y as int,
    }
}

/// The arithmetic of placing the menu does not overflow.
pub open spec fn placement_ok(es: Seq<EntryModel>, p: Point, vp: Option<Rect>) -> bool {
    let w = menu_width(es);
    let h = menu_height(es);
    &&& sizes_ok(es)
    &&& (vp matches Some(v) ==> {
        &&& fits_i32(p.x + w)
        &&& fits_i32(p.y + h)
        &&& fits_i32(v.x + v.width)
        &&& fits_i32(v.y + v.height)
        &&& fits_i32(v.x + v.width - w)
        &&& fits_i32(v.y + v.height - h)
    })
    &&& fits_i32(placed_x(p, vp, w))
    &&& fits_i32(placed_y(p, vp, h))
}

/// Top of row `i` of a menu whose bounds are `b`.
pub open spec fn row_top(es: Seq<EntryModel>, b: Rect, i: int) -> int {
    b.y + 2 + rows_height(es, i)
}

/// A menu with entries `es` laid out in `b` can be used without overflow:
/// its rows and right edge are representable, and so is every submenu it
/// can open, recursively.
pub open spec fn layout_ok(es: Seq<EntryModel>, b: Rect, vp: Option<Rect>) -> bool
    decreases es, 0int,
{
    &&& sizes_ok(es)
    &&& fits_i32(b.x + b.width)
    &&& fits_i32(row_top(es, b, es.len() as int))
    &&& forall|i: int|
        #![trigger es[i]]
        0 <= i < es.len() && es[i].submenu is Some ==> open_ok(
            es[i].submenu->0,
            Point { x: (b.x + b.width) as i32, y: row_top(es, b, i) as i32 },
            vp,
        )
}

/// Opening a menu with entries `es` at `p` within `vp` does not overflow,
/// nor does anything it can open afterwards.
pub open spec fn open_ok(es: Seq<EntryModel>, p: Point, vp: Option<Rect>) -> bool
    decreases es, 1int,
{
    &&& placement_ok(es, p, vp)
    &&& layout_ok(es, shown_bounds(es, p, vp), vp)
}

/// Bounds of a menu with entries `es` shown at `p` within `vp`.
pub open spec fn shown_bounds(es: Seq<EntryModel>, p: Point, vp: Option<Rect>) -> Rect {
    Rect {
        x: placed_x(p, vp, menu_width(es)) as i32,
        y: placed_y(p, vp, menu_height(es)) as i32,
        width: menu_width(es) as i32,
        height: menu_height(es) as i32,
    }
}


// ----------------------------------------------------------------------
// The menu
// ----------------------------------------------------------------------

/// What a point of the screen is, relative to an open menu.
#[derive(Clone, Copy, Debug, PartialEq, Eq, Structural)]
pub enum ItemHit {
    Outside,
    Separator,
    Disabled(usize),
    Item(usize),
}

pub struct ContextMenu {
    state: WidgetState,
    items: Vec<ContextMenuItem>,
    is_open: bool,
    hover_index: Option<usize>,
    position: Point,
    /// The point the menu was last asked to open at, before it was moved
    /// into the viewport.
    anchor: Point,
    submenu_open: Option<usize>,
    submenu: Option<Box<ContextMenu>>,
    viewport: Option<Rect>,
}

/// The mathematical content of a `ContextMenu`.
pub struct MenuView {
    pub state: WidgetState,
    pub items: Seq<EntryModel>,
    pub is_open: bool,
    pub hover_index: Option<usize>,
    pub position: Point,
    pub anchor: Point,
    pub submenu_open: Option<usize>,
    pub submenu: Option<Box<MenuView>>,
    pub viewport: Option<Rect>,
}

impl ContextMenu {
    pub closed spec fn view(&self) -> MenuView
        decreases self,
    {
        MenuView {
            state: self.state,
            items: models(self.items@),
            is_open: self.is_open,
            hover_index: self.hover_index,
            position: self.position,
            anchor: self.anchor,
            submenu_open: self.submenu_open,
            submenu: match &self.submenu {
                Some(b) => Some(Box::new((**b).view())),
                None => None,
            },
            viewport: self.viewport,
        }
    }

    pub closed spec fn wf(&self) -> bool {
        menu_wf(self.view())
    }
}

/// The invariant of a menu: hover and submenu indices are valid, a closed
/// menu has neither, an open submenu shows the entries of its parent row,
/// and the layout of the menu and of all it can open is representable.
pub open spec fn menu_wf(v: MenuView) -> bool
    decreases v, 1int,
{
    &&& layout_ok(v.items, v.state.bounds, v.viewport)
    &&& structure_ok(v)
}

/// The part of the invariant that does not concern the layout of the menu
/// itself.
pub open spec fn structure_ok(v: MenuView) -> bool
    decreases v, 0int,
{
    &&& v.items.len() <= usize::MAX
    &&& (v.hover_index matches Some(h) ==> h < v.items.len())
    &&& (v.submenu_open is Some <==> v.submenu is Some)
    &&& (!v.is_open ==> v.hover_index is None && v.submenu is None)
    &&& (v.submenu_open matches Some(i) ==> {
        &&& i < v.items.len()
        &&& v.items[i as int].submenu is Some
        &&& v.submenu->0.items == v.items[i as int].submenu->0
        &&& menu_wf(*v.submenu->0)
    })
}

/// A fresh, visible and enabled menu, with `es` as entries, shown at `p`.
pub open spec fn shown_menu(es: Seq<EntryModel>, p: Point, vp: Option<Rect>) -> MenuView {
    MenuView {
        state: WidgetState {
            id: WidgetId(0),
            bounds: shown_bounds(es, p, vp),
            visible: true,
            enabled: true,
            focused: false,
        },
        items: es,
        is_open: true,
        hover_index: None,
        position: Point { x: placed_x(p, vp, menu_width(es)) as i32, y: placed_y(p, vp, menu_height(es)) as i32 },
        anchor: p,
        submenu_open: None,
        submenu: None,
        viewport: vp,
    }
}

/// `v` after `show_at_bounded(p, vp)`: hover and submenu are dropped
/// unless the menu was already open at the same requested anchor `p`.
pub open spec fn show_spec(v: MenuView, p: Point, vp: Option<Rect>) -> MenuView {
    let reset = !v.is_open || v.anchor != p;
    let w = menu_width(v.items);
    let h = menu_height(v.items);
    let q = Point { x: placed_x(p, vp, w) as i32, y: placed_y(p, vp, h) as i32 };
    MenuView {
        state: WidgetState { bounds: Rect { x: q.x, y: q.y, width: w as i32, height: h as i32 }, ..v.state },
        is_open: true,
        hover_index: if reset { None } else { v.hover_index },
        submenu_open: if reset { None } else { v.submenu_open },
        submenu: if reset { None } else { v.submenu },
        position: q,
        anchor: p,
        viewport: vp,
        ..v
    }
}

/// `v` after `hide()`.
pub open spec fn hide_spec(v: MenuView) -> MenuView {
    MenuView { is_open: false, hover_index: None, submenu_open: None, submenu: None, ..v }
}

/// An entry keyboard navigation can land on.
pub open spec fn focusable(e: EntryModel) -> bool {
    !e.is_separator && e.enabled
}

/// The index `j` steps from `start`, cyclically, forward or backward.
pub open spec fn cyclic(start: int, j: int, n: int, forward: bool) -> int {
    if forward { (start + j) % n } else { (start - j) % n }
}

/// First focusable index at `j`, `j + 1`, ... `n` steps from `start`.
pub open spec fn search_focusable(es: Seq<EntryModel>, start: int, j: int, forward: bool) -> Option<usize>
    decreases es.len() + 1 - j,
{
    if j > es.len() || j < 1 {
        None
    } else if focusable(es[cyclic(start, j, es.len() as int, forward)]) {
        Some(cyclic(start, j, es.len() as int, forward) as usize)
    } else {
        search_focusable(es, start, j + 1, forward)
    }
}

/// The hover index after one keyboard step: the next focusable entry after
/// `current` (after the end, for a forward step from nothing; before the
/// start, backward), wrapping around; `current` when there is none.
pub open spec fn step_spec(es: Seq<EntryModel>, current: Option<usize>, forward: bool) -> Option<usize> {
    if es.len() == 0 {
        None
    } else {
        let start = match current {
            Some(c) => c as int,
            None => if forward { es.len() - 1 } else { 0 },
        };
        match search_focusable(es, start, 1, forward) {
            Some(i) => Some(i),
            None => current,
        }
    }
}

/// The row under `py` among rows `i..`, for rows starting at `top`.
pub open spec fn row_at(es: Seq<EntryModel>, top: int, py: int, i: int) -> Option<usize>
    decreases es.len() - i,
{
    if i < 0 || i >= es.len() {
        None
    } else if top + rows_height(es, i) <= py < top + rows_height(es, i + 1) {
        Some(i as usize)
    } else {
        row_at(es, top, py, i + 1)
    }
}

pub open spec fn classify_spec(v: MenuView, p: Point) -> ItemHit {
    if !v.state.bounds.contains_spec(p) {
        ItemHit::Outside
    } else {
        match row_at(v.items, v.state.bounds.y + 2, p.y as int, 0) {
            None => ItemHit::Outside,
            Some(i) => if v.items[i as int].is_separator {
                ItemHit::Separator
            } else if !v.items[i as int].enabled {
                ItemHit::Disabled(i)
            } else {
                ItemHit::Item(i)
            },
        }
    }
}

/// The submenu of row `i`, opened to the right of that row.
pub open spec fn opened_submenu(v: MenuView, i: int) -> MenuView {
    shown_menu(
        v.items[i].submenu->0,
        Point { x: (v.state.bounds.x + v.state.bounds.width) as i32, y: row_top(v.items, v.state.bounds, i) as i32 },
        v.viewport,
    )
}

/// `v` with the submenu of row `i` open, its first focusable entry
/// highlighted when `preselect`.
pub open spec fn open_sub_spec(v: MenuView, i: int, preselect: bool) -> MenuView {
    let s = opened_submenu(v, i);
    let s2 = if preselect { MenuView { hover_index: step_spec(s.items, None, true), ..s } } else { s };
    MenuView { submenu_open: Some(i as usize), submenu: Some(Box::new(s2)), ..v }
}

pub open spec fn close_sub_spec(v: MenuView) -> MenuView {
    MenuView { submenu_open: None, submenu: None, ..v }
}

/// The result of handling an event: new state, answer, activated action.
pub struct Handled {
    pub view: MenuView,
    pub result: EventResult,
    pub action: Option<u32>,
}

pub open spec fn handled(view: MenuView, result: EventResult, action: Option<u32>) -> Handled {
    Handled { view, result, action }
}

pub open spec fn sub_contains(v: MenuView, p: Point) -> bool {
    v.submenu matches Some(s) && s.state.bounds.contains_spec(p)
}

/// Pointer movement over the menu itself.
#[verifier::opaque]
pub open spec fn move_spec(v: MenuView, p: Point) -> Handled {
    if sub_contains(v, p) {
        handled(v, EventResult::Consumed, None)
    } else {
        let hover = match classify_spec(v, p) {
            ItemHit::Item(i) => Some(i),
            _ => None,
        };
        let v1 = MenuView { hover_index: hover, ..v };
        let v2 = match hover {
            Some(h) => if v.items[h as int].submenu is Some {
                if v.submenu_open != Some(h) { open_sub_spec(v1, h as int, false) } else { v1 }
            } else if v.submenu_open is Some {
                close_sub_spec(v1)
            } else {
                v1
            },
            None => if v.submenu_open is Some && !v.state.bounds.contains_spec(p) {
                close_sub_spec(v1)
            } else {
                v1
            },
        };
        let r = if v.state.bounds.contains_spec(p) || sub_contains(v2, p) {
            EventResult::Consumed
        } else {
            EventResult::Ignored
        };
        handled(v2, r, None)
    }
}

/// A left press on the menu itself.
#[verifier::opaque]
pub open spec fn press_spec(v: MenuView, p: Point) -> Handled {
    match classify_spec(v, p) {
        ItemHit::Item(i) => if v.items[i as int].submenu is None {
            handled(hide_spec(v), EventResult::Consumed, v.items[i as int].on_click)
        } else {
            handled(v, EventResult::Consumed, None)
        },
        ItemHit::Separator | ItemHit::Disabled(_) => handled(v, EventResult::Consumed, None),
        ItemHit::Outside => if sub_contains(v, p) {
            handled(v, EventResult::Ignored, None)
        } else {
            handled(hide_spec(v), EventResult::Consumed, None)
        },
    }
}

/// A key press on the menu itself.
#[verifier::opaque]
pub open spec fn key_spec(v: MenuView, k: Key) -> Handled {
    match k {
        Key::Up => handled(MenuView { hover_index: step_spec(v.items, v.hover_index, false), ..v }, EventResult::Consumed, None),
        Key::Down => handled(MenuView { hover_index: step_spec(v.items, v.hover_index, true), ..v }, EventResult::Consumed, None),
        Key::Escape => handled(hide_spec(v), EventResult::Consumed, None),
        Key::Enter | Key::Space => match v.hover_index {
            Some(i) => {
                let e = v.items[i as int];
                if focusable(e) {
                    if e.submenu is Some {
                        if v.submenu_open != Some(i) {
                            handled(open_sub_spec(v, i as int, true), EventResult::Consumed, None)
                        } else {
                            handled(v, EventResult::Consumed, None)
                        }
                    } else {
                        handled(hide_spec(v), EventResult::Consumed, e.on_click)
                    }
                } else {
                    handled(v, EventResult::Consumed, None)
                }
            },
            None => handled(v, EventResult::Consumed, None),
        },
        Key::Right => match v.hover_index {
            Some(i) => if v.items[i as int].submenu is Some && v.submenu_open != Some(i) {
                handled(open_sub_spec(v, i as int, true), EventResult::Consumed, None)
            } else {
                handled(v, EventResult::Consumed, None)
            },
            None => handled(v, EventResult::Consumed, None),
        },
        Key::Left => handled(
            if v.submenu_open is Some { close_sub_spec(v) } else { v },
            EventResult::Consumed,
            None,
        ),
        _ => handled(v, EventResult::Ignored, None),
    }
}

/// The event as the menu itself handles it, once its submenu has declined it.
#[verifier::opaque]
pub open spec fn own_spec(v: MenuView, e: Event) -> Handled {
    match e {
        Event::MouseMove(m) => move_spec(v, m.position),
        Event::MouseButton(b) => if b.pressed && b.button == MouseButton::Left {
            press_spec(v, b.position)
        } else {
            handled(v, EventResult::Ignored, None)
        },
        Event::KeyPress(k) => key_spec(v, k.key),
        _ => handled(v, EventResult::Ignored, None),
    }
}

/// `handle_event`: an open, visible and enabled menu first offers the
/// event to its open submenu; what the submenu consumes goes no further.
pub open spec fn handle_spec(v: MenuView, e: Event) -> Handled
    decreases v,
{
    if !v.state.visible || !v.state.enabled || !v.is_open {
        handled(v, EventResult::Ignored, None)
    } else {
        match v.submenu {
            Some(s) => {
                let h = handle_spec(*s, e);
                let v1 = MenuView { submenu: Some(Box::new(h.view)), ..v };
                if h.result == EventResult::Consumed {
                    handled(v1, EventResult::Consumed, h.action)
                } else {
                    own_spec(v1, e)
                }
            },
            None => own_spec(v, e),
        }
    }
}


pub open spec fn depth(v: MenuView) -> nat
    decreases v,
{
    match v.submenu {
        Some(s) => 1 + depth(*s),
        None => 0,
    }
}

proof fn lemma_rows_mono(es: Seq<EntryModel>, i: int, j: int)
    requires
        0 <= i <= j,
    ensures
        0 <= rows_height(es, i) <= rows_height(es, j),
    decreases j,
{
    if j > i {
        lemma_rows_mono(es, i, j - 1);
    } else if i > 0 {
        lemma_rows_mono(es, 0, i - 1);
    }
}

proof fn lemma_width_bounds(es: Seq<EntryModel>, n: int)
    requires
        0 <= n <= es.len(),
        sizes_ok(es),
    ensures
        MIN_WIDTH <= width_upto(es, n) <= i32::MAX,
    decreases n,
{
    if n > 0 {
        lemma_width_bounds(es, n - 1);
    }
}

proof fn lemma_models_push(items: Seq<ContextMenuItem>, item: ContextMenuItem)
    ensures
        models(items.push(item)) == models(items).push(item.model()),
{
    assert(models(items.push(item)) =~= models(items).push(item.model()));
}

impl ContextMenu {
    pub fn new(id: WidgetId) -> (m: ContextMenu)
        ensures
            m.wf(),
            m.view() == (MenuView {
                state: WidgetState {
                    id,
                    bounds: Rect { x: 0, y: 0, width: 0, height: 0 },
                    visible: true,
                    enabled: true,
                    focused: false,
                },
                items: Seq::empty(),
                is_open: false,
                hover_index: None,
                position: Point { x: 0, y: 0 },
                anchor: Point { x: 0, y: 0 },
                submenu_open: None,
                submenu: None,
                viewport: None,
            }),
    {
        let m = ContextMenu {
            state: WidgetState::new(id),
            items: Vec::new(),
            is_open: false,
            hover_index: None,
            position: Point::zero(),
            anchor: Point::zero(),
            submenu_open: None,
            submenu: None,
            viewport: None,
        };
        assert(m.view().items =~= Seq::<EntryModel>::empty());
        m
    }

    pub fn with_items(self, items: Vec<ContextMenuItem>) -> (m: ContextMenu)
        requires
            self.wf(),
            menu_wf(MenuView { items: models(items@), ..self.view() }),
        ensures
            m.wf(),
            m.view() == (MenuView { items: models(items@), ..self.view() }),
    {
        ContextMenu { items, ..self }
    }

    pub fn add_item(&mut self, item: ContextMenuItem)
        requires
            old(self).wf(),
            menu_wf(MenuView { items: old(self).view().items.push(item.model()), ..old(self).view() }),
        ensures
            final(self).wf(),
            final(self).view() == (MenuView {
                items: old(self).view().items.push(item.model()),
                ..old(self).view()
            }),
    {
        proof {
            lemma_models_push(self.items@, item);
        }
        self.items.push(item);
    }

    /// Width of the menu: the widest entry, at least `MIN_WIDTH`.
    fn calculate_width(&self) -> (w: i32)
        requires
            sizes_ok(models(self.items@)),
        ensures
            w == menu_width(models(self.items@)),
    {
        let ghost es = models(self.items@);
        let mut max_width = MIN_WIDTH;
        let mut i: usize = 0;
        while i < self.items.len()
            invariant
                es == models(self.items@),
                sizes_ok(es),
                i <= self.items.len(),
                max_width == width_upto(es, i as int),
            decreases self.items.len() - i,
        {
            let item = &self.items[i];
            assert(es[i as int] == item.model());
            if !item.is_separator {
                assert(entry_width(es[i as int]) <= i32::MAX);
                let text_width = char_count(item.text.as_str()) * 7;
                let shortcut_width = if item.shortcut.as_str().unicode_len() == 0 {
                    0
                } else {
                    char_count(item.shortcut.as_str()) * 7 + 20
                };
                let submenu_arrow = if item.submenu.is_some() {
                    20
                } else {
                    0
                };
                let total_width = 40 + text_width + shortcut_width + submenu_arrow;
                if total_width > max_width {
                    max_width = total_width;
                }
            }
            i = i + 1;
        }
        max_width
    }

    /// Height of the menu: all rows plus 4 pixels of padding.
    fn calculate_height(&self) -> (h: i32)
        requires
            sizes_ok(models(self.items@)),
        ensures
            h == menu_height(models(self.items@)),
    {
        let ghost es = models(self.items@);
        let mut height: i32 = 0;
        let mut i: usize = 0;
        while i < self.items.len()
            invariant
                es == models(self.items@),
                sizes_ok(es),
                i <= self.items.len(),
                height == rows_height(es, i as int),
            decreases self.items.len() - i,
        {
            proof {
                lemma_rows_mono(es, i + 1, es.len() as int);
            }
            assert(es[i as int] == self.items@[i as int].model());
            height = height + if self.items[i].is_separator {
                SEPARATOR_HEIGHT
            } else {
                ITEM_HEIGHT
            };
            i = i + 1;
        }
        height + 4
    }

    fn item_height_at(&self, index: usize) -> (h: i32)
        requires
            index < self.items.len(),
        ensures
            h == row_height(models(self.items@)[index as int]),
    {
        if self.items[index].is_separator {
            SEPARATOR_HEIGHT
        } else {
            ITEM_HEIGHT
        }
    }

    /// The rectangle of row `index`.
    fn get_item_rect(&self, index: usize) -> (r: Rect)
        requires
            self.wf(),
            index < self.items.len(),
        ensures
            r == (Rect {
                x: self.state.bounds.x,
                y: row_top(models(self.items@), self.state.bounds, index as int) as i32,
                width: self.state.bounds.width,
                height: row_height(models(self.items@)[index as int]) as i32,
            }),
            fits_i32(row_top(models(self.items@), self.state.bounds, index as int)),
    {
        let ghost es = models(self.items@);
        proof {
            reveal(ContextMenu::view);
            lemma_rows_mono(es, index as int, es.len() as int);
            lemma_rows_mono(es, 0, index as int);
        }
        let mut y = self.state.bounds.y + 2;
        let mut i: usize = 0;
        while i < index
            invariant
                es == models(self.items@),
                i <= index < self.items.len(),
                y == row_top(es, self.state.bounds, i as int),
                fits_i32(row_top(es, self.state.bounds, es.len() as int)),
                self.state.bounds.y + 2 <= row_top(es, self.state.bounds, index as int) <= row_top(es, self.state.bounds, es.len() as int),
            decreases index - i,
        {
            proof {
                lemma_rows_mono(es, i + 1, index as int);
            }
            y = y + self.item_height_at(i);
            i = i + 1;
        }
        let height = self.item_height_at(index);
        Rect::new(self.state.bounds.x, y, self.state.bounds.width, height)
    }
}


proof fn lemma_row_at_none(es: Seq<EntryModel>, top: int, py: int, i: int)
    requires
        0 <= i <= es.len(),
        py >= top + rows_height(es, es.len() as int),
    ensures
        row_at(es, top, py, i) is None,
    decreases es.len() - i,
{
    if i < es.len() {
        lemma_rows_mono(es, i + 1, es.len() as int);
        lemma_row_at_none(es, top, py, i + 1);
    }
}

/// One cyclic step from `i`, the `step`-th index from `start`, gives the next.
proof fn lemma_cyclic_step(start: int, step: int, n: int, forward: bool, i: int)
    requires
        n > 0,
        i == cyclic(start, step, n, forward),
    ensures
        0 <= i < n,
        cyclic(start, step + 1, n, forward) == if forward {
            (i + 1) % n
        } else if i == 0 {
            n - 1
        } else {
            i - 1
        },
{
    vstd::arithmetic::div_mod::lemma_mod_bound(if forward { start + step } else { start - step }, n);
    if forward {
        vstd::arithmetic::div_mod::lemma_add_mod_noop(start + step, 1, n);
        if n == 1 {
            vstd::arithmetic::div_mod::lemma_mod_bound(start + step + 1, 1);
            vstd::arithmetic::div_mod::lemma_mod_bound(i + 1, 1);
        } else {
            vstd::arithmetic::div_mod::lemma_small_mod(1, n as nat);
        }
    } else {
        vstd::arithmetic::div_mod::lemma_sub_mod_noop(start - step, 1, n);
        if n == 1 {
            assert((start - step - 1) % 1 == 0) by {
                vstd::arithmetic::div_mod::lemma_mod_bound(start - step - 1, 1);
            }
        } else {
            vstd::arithmetic::div_mod::lemma_small_mod(1, n as nat);
            if i == 0 {
                vstd::arithmetic::div_mod::lemma_mod_add_multiples_vanish(-1, n);
                vstd::arithmetic::div_mod::lemma_small_mod((n - 1) as nat, n as nat);
            } else {
                vstd::arithmetic::div_mod::lemma_small_mod((i - 1) as nat, n as nat);
            }
        }
    }
}

proof fn lemma_search_range(es: Seq<EntryModel>, start: int, j: int, forward: bool)
    requires
        0 < es.len() <= usize::MAX,
    ensures
        search_focusable(es, start, j, forward) matches Some(i) ==> i < es.len() && focusable(es[i as int]),
    decreases es.len() + 1 - j,
{
    if 1 <= j <= es.len() {
        if forward {
            vstd::arithmetic::div_mod::lemma_mod_bound(start + j, es.len() as int);
        } else {
            vstd::arithmetic::div_mod::lemma_mod_bound(start - j, es.len() as int);
        }
        lemma_search_range(es, start, j + 1, forward);
    }
}

impl ContextMenu {
    /// What lies under `point`: nothing of the menu, a separator, a
    /// disabled entry or an entry that can be activated.
    pub fn classify_point(&self, point: Point) -> (hit: ItemHit)
        requires
            self.wf(),
        ensures
            hit == classify_spec(self.view(), point),
            match hit {
                ItemHit::Item(i) | ItemHit::Disabled(i) => i < self.view().items.len(),
                _ => true,
            },
    {
        proof {
            reveal(ContextMenu::view);
        }
        let ghost es = models(self.items@);
        if !self.state.bounds.contains(point) {
            return ItemHit::Outside;
        }
        proof {
            lemma_rows_mono(es, 0, es.len() as int);
        }
        let mut y = self.state.bounds.y + 2;
        let mut i: usize = 0;
        while i < self.items.len()
            invariant
                es == models(self.items@),
                i <= self.items.len(),
                self.state.bounds.contains_spec(point),
                y == row_top(es, self.state.bounds, i as int),
                fits_i32(row_top(es, self.state.bounds, es.len() as int)),
                row_at(es, self.state.bounds.y + 2, point.y as int, 0) == row_at(
                    es,
                    self.state.bounds.y + 2,
                    point.y as int,
                    i as int,
                ),
            decreases self.items.len() - i,
        {
            proof {
                lemma_rows_mono(es, i + 1, es.len() as int);
            }
            let item = &self.items[i];
            assert(es[i as int] == item.model());
            let h = if item.is_separator {
                SEPARATOR_HEIGHT
            } else {
                ITEM_HEIGHT
            };
            assert(rows_height(es, i + 1) == rows_height(es, i as int) + row_height(es[i as int]));
            if point.y >= y && point.y < y + h {
                assert(row_at(es, self.state.bounds.y + 2, point.y as int, i as int) == Some(i));
                assert(self.view().items == es);
                assert(self.view().state == self.state);
                assert(self.state.bounds.contains_spec(point));
                assert(row_at(es, self.state.bounds.y + 2, point.y as int, 0) == Some(i));
                assert(classify_spec(self.view(), point) == if es[i as int].is_separator {
                    ItemHit::Separator
                } else if !es[i as int].enabled {
                    ItemHit::Disabled(i)
                } else {
                    ItemHit::Item(i)
                });
                if item.is_separator {
                    return ItemHit::Separator;
                }
                if !item.enabled {
                    return ItemHit::Disabled(i);
                }
                return ItemHit::Item(i);
            }
            y = y + h;
            i = i + 1;
        }
        ItemHit::Outside
    }

    fn item_from_point(&self, point: Point) -> (r: Option<usize>)
        requires
            self.wf(),
        ensures
            r == match classify_spec(self.view(), point) {
                ItemHit::Item(i) => Some(i),
                _ => None,
            },
            r matches Some(i) ==> i < self.view().items.len(),
    {
        match self.classify_point(point) {
            ItemHit::Item(i) => Some(i),
            _ => None,
        }
    }

    /// The entry a keyboard step from `current` lands on (see `step_spec`).
    pub fn step_hover(&self, current: Option<usize>, forward: bool) -> (r: Option<usize>)
        requires
            current matches Some(c) ==> c < self.view().items.len(),
        ensures
            r == step_spec(self.view().items, current, forward),
    {
        proof {
            reveal(ContextMenu::view);
        }
        let ghost es = models(self.items@);
        let n = self.items.len();
        if n == 0 {
            return None;
        }
        let start = match current {
            Some(c) => c,
            None => if forward {
                n - 1
            } else {
                0
            },
        };
        let mut i = start;
        let mut step: usize = 0;
        proof {
            vstd::arithmetic::div_mod::lemma_small_mod(start as nat, n as nat);
            if !forward {
                assert(start - 0 == start);
            }
        }
        while step < n
            invariant
                es == models(self.items@),
                n == self.items.len(),
                0 < n,
                start < n,
                step <= n,
                i == cyclic(start as int, step as int, n as int, forward),
                step_spec(es, current, forward) == match search_focusable(es, start as int, step + 1, forward) {
                    Some(k) => Some(k),
                    None => current,
                },
            decreases n - step,
        {
            proof {
                lemma_cyclic_step(start as int, step as int, n as int, forward, i as int);
            }
            i = if forward {
                (i + 1) % n
            } else if i == 0 {
                n - 1
            } else {
                i - 1
            };
            let item = &self.items[i];
            assert(es[i as int] == item.model());
            if !item.is_separator && item.enabled {
                return Some(i);
            }
            step = step + 1;
        }
        current
    }

    pub fn hide_menu(&mut self)
        requires
            old(self).wf(),
        ensures
            final(self).wf(),
            final(self).view() == hide_spec(old(self).view()),
    {
        proof {
            reveal(ContextMenu::view);
        }
        self.is_open = false;
        self.hover_index = None;
        self.submenu_open = None;
        self.submenu = None;
    }

    pub fn is_open(&self) -> (b: bool)
        ensures
            b == self.view().is_open,
    {
        proof {
            reveal(ContextMenu::view);
        }
        self.is_open
    }

    /// Whether a submenu is currently active.
    pub fn has_submenu(&self) -> (b: bool)
        ensures
            b == self.view().submenu is Some,
    {
        proof {
            reveal(ContextMenu::view);
        }
        self.submenu.is_some()
    }

    /// Bounds of the active submenu, if any.
    pub fn submenu_bounds(&self) -> (r: Option<Rect>)
        ensures
            r == match self.view().submenu {
                Some(s) => Some(s.state.bounds),
                None => None,
            },
    {
        proof {
            reveal(ContextMenu::view);
        }
        match &self.submenu {
            Some(s) => {
                assert(s.view().state == s.state);
                Some(s.state.bounds)
            },
            None => None,
        }
    }

    /// Index of the currently hovered entry.
    pub fn hover_index(&self) -> (r: Option<usize>)
        ensures
            r == self.view().hover_index,
    {
        proof {
            reveal(ContextMenu::view);
        }
        self.hover_index
    }

    /// Index of the entry whose submenu is open.
    pub fn submenu_open_index(&self) -> (r: Option<usize>)
        ensures
            r == self.view().submenu_open,
    {
        proof {
            reveal(ContextMenu::view);
        }
        self.submenu_open
    }

    /// Number of entries.
    pub fn item_count(&self) -> (n: usize)
        ensures
            n == self.view().items.len(),
    {
        proof {
            reveal(ContextMenu::view);
        }
        self.items.len()
    }
}


proof fn lemma_step_valid(es: Seq<EntryModel>, current: Option<usize>, forward: bool)
    requires
        es.len() <= usize::MAX,
        current matches Some(c) ==> c < es.len(),
    ensures
        step_spec(es, current, forward) matches Some(i) ==> i < es.len(),
{
    if es.len() > 0 {
        let start = match current {
            Some(c) => c as int,
            None => if forward { es.len() - 1 } else { 0 },
        };
        lemma_search_range(es, start, 1, forward);
    }
}

impl ContextMenu {
    /// Opens the menu at `position` (see `show_at_bounded`), without a viewport.
    pub fn show_at(&mut self, position: Point)
        requires
            old(self).wf(),
            open_ok(old(self).view().items, position, None),
        ensures
            final(self).wf(),
            final(self).view() == show_spec(old(self).view(), position, None),
    {
        self.show_at_bounded(position, None);
    }

    /// Opens the menu at `position`, moved to stay inside `viewport` where
    /// one is given. Hover and submenu state are reset unless the menu was
    /// already open at this very anchor (the point asked for, before any
    /// move into the viewport).
    pub fn show_at_bounded(&mut self, position: Point, viewport: Option<Rect>)
        requires
            old(self).wf(),
            open_ok(old(self).view().items, position, viewport),
        ensures
            final(self).wf(),
            final(self).view() == show_spec(old(self).view(), position, viewport),
    {
        self.show_impl(position, viewport);
    }

    fn show_impl(&mut self, position: Point, viewport: Option<Rect>)
        requires
            structure_ok(old(self).view()),
            open_ok(old(self).view().items, position, viewport),
        ensures
            final(self).wf(),
            final(self).view() == show_spec(old(self).view(), position, viewport),
    {
        proof {
            reveal(ContextMenu::view);
        }
        let position_changed = self.anchor != position;
        let was_closed = !self.is_open;
        self.is_open = true;
        if was_closed || position_changed {
            self.hover_index = None;
            self.submenu_open = None;
            self.submenu = None;
        }
        self.viewport = viewport;
        let width = self.calculate_width();
        let height = self.calculate_height();
        let (x, y) = match viewport {
            Some(vp) => {
                let mut x = position.x;
                let mut y = position.y;
                if x + width > vp.right() {
                    x = vp.right() - width;
                }
                if y + height > vp.bottom() {
                    y = vp.bottom() - height;
                }
                if x < vp.x {
                    x = vp.x;
                }
                if y < vp.y {
                    y = vp.y;
                }
                (x, y)
            },
            None => (position.x, position.y),
        };
        self.position = Point::new(x, y);
        self.anchor = position;
        self.state.bounds = Rect::new(x, y, width, height);
    }

    /// Opens the submenu of row `idx` to its right, optionally with its
    /// first focusable entry highlighted.
    fn open_submenu(&mut self, idx: usize, preselect: bool)
        requires
            old(self).wf(),
            old(self).view().is_open,
            idx < old(self).view().items.len(),
            old(self).view().items[idx as int].submenu is Some,
        ensures
            final(self).wf(),
            final(self).view() == open_sub_spec(old(self).view(), idx as int, preselect),
    {
        proof {
            reveal(ContextMenu::view);
        }
        let ghost v = self.view();
        let item_rect = self.get_item_rect(idx);
        let pos = Point::new(item_rect.right(), item_rect.y);
        let mut sub = ContextMenu::new(WidgetId::default_id());
        let sub_items = match &self.items[idx].submenu {
            Some(items) => {
                assert(v.items[idx as int].submenu->0 =~= models(items@));
                clone_items(items)
            },
            None => Vec::new(),
        };
        sub.items = sub_items;
        assert(sub.view().items == v.items[idx as int].submenu->0);
        assert(structure_ok(sub.view()));
        sub.show_impl(pos, self.viewport);
        assert(sub.view() == opened_submenu(v, idx as int));
        let ghost s0 = sub.view();
        if preselect {
            proof {
                lemma_step_valid(sub.view().items, None, true);
            }
            let h = sub.step_hover(None, true);
            sub.hover_index = h;
            assert(sub.view() == MenuView { hover_index: h, ..s0 });
        }
        assert(menu_wf(sub.view()));
        let ghost sv = sub.view();
        self.submenu_open = Some(idx);
        self.submenu = Some(Box::new(sub));
        assert(*self.view().submenu->0 == sv);
        assert(self.view() == open_sub_spec(v, idx as int, preselect));
    }

    fn close_submenu(&mut self)
        requires
            old(self).wf(),
        ensures
            final(self).wf(),
            final(self).view() == close_sub_spec(old(self).view()),
    {
        proof {
            reveal(ContextMenu::view);
        }
        self.submenu_open = None;
        self.submenu = None;
    }
}


impl ContextMenu {
    fn sub_contains_exec(&self, position: Point) -> (b: bool)
        ensures
            b == sub_contains(self.view(), position),
    {
        proof {
            reveal(ContextMenu::view);
        }
        match &self.submenu {
            Some(sub) => {
                assert(sub.view().state == sub.state);
                sub.state.bounds.contains(position)
            },
            None => false,
        }
    }

    fn submenu_open_is(&self, h: usize) -> (b: bool)
        ensures
            b == (self.view().submenu_open == Some(h)),
    {
        proof {
            reveal(ContextMenu::view);
        }
        match self.submenu_open {
            Some(j) => j == h,
            None => false,
        }
    }

    fn handle_move(&mut self, position: Point) -> (r: EventResult)
        requires
            old(self).wf(),
            old(self).view().is_open,
        ensures
            final(self).wf(),
            move_spec(old(self).view(), position) == handled(final(self).view(), r, None),
            final(self).view().items == old(self).view().items,
    {
        proof {
            reveal(ContextMenu::view);
            reveal(move_spec);
        }
        let ghost v = self.view();
        if self.sub_contains_exec(position) {
            return EventResult::Consumed;
        }
        let hover = self.item_from_point(position);
        self.hover_index = hover;
        let ghost v1 = self.view();
        assert(v1 == MenuView { hover_index: hover, ..v });
        match hover {
            Some(h) => {
                if self.items[h].submenu.is_some() {
                    assert(v.items[h as int].submenu is Some);
                    if !self.submenu_open_is(h) {
                        self.open_submenu(h, false);
                    }
                } else if self.submenu_open.is_some() {
                    self.close_submenu();
                }
            },
            None => {
                if self.submenu_open.is_some() && !self.state.bounds.contains(position) {
                    if !self.sub_contains_exec(position) {
                        self.close_submenu();
                    }
                }
            },
        }
        if self.state.bounds.contains(position) {
            EventResult::Consumed
        } else if self.sub_contains_exec(position) {
            EventResult::Consumed
        } else {
            EventResult::Ignored
        }
    }

    fn handle_press(&mut self, position: Point) -> (r: (EventResult, Option<u32>))
        requires
            old(self).wf(),
            old(self).view().is_open,
        ensures
            final(self).wf(),
            press_spec(old(self).view(), position) == handled(final(self).view(), r.0, r.1),
            final(self).view().items == old(self).view().items,
    {
        proof {
            reveal(ContextMenu::view);
            reveal(press_spec);
        }
        let ghost v = self.view();
        match self.classify_point(position) {
            ItemHit::Item(index) => {
                assert(v.items[index as int] == self.items@[index as int].model());
                if self.items[index].submenu.is_none() {
                    let action = self.items[index].on_click;
                    self.hide_menu();
                    return (EventResult::Consumed, action);
                }
                (EventResult::Consumed, None)
            },
            ItemHit::Separator | ItemHit::Disabled(_) => (EventResult::Consumed, None),
            ItemHit::Outside => {
                if self.sub_contains_exec(position) {
                    return (EventResult::Ignored, None);
                }
                self.hide_menu();
                (EventResult::Consumed, None)
            },
        }
    }

    fn handle_key(&mut self, key: Key) -> (r: (EventResult, Option<u32>))
        requires
            old(self).wf(),
            old(self).view().is_open,
        ensures
            final(self).wf(),
            key_spec(old(self).view(), key) == handled(final(self).view(), r.0, r.1),
            final(self).view().items == old(self).view().items,
    {
        proof {
            reveal(ContextMenu::view);
            reveal(key_spec);
        }
        let ghost v = self.view();
        match key {
            Key::Up => {
                proof {
                    lemma_step_valid(v.items, v.hover_index, false);
                }
                self.hover_index = self.step_hover(self.hover_index, false);
                (EventResult::Consumed, None)
            },
            Key::Down => {
                proof {
                    lemma_step_valid(v.items, v.hover_index, true);
                }
                self.hover_index = self.step_hover(self.hover_index, true);
                (EventResult::Consumed, None)
            },
            Key::Escape => {
                self.hide_menu();
                (EventResult::Consumed, None)
            },
            Key::Enter | Key::Space => {
                if let Some(idx) = self.hover_index {
                    assert(v.items[idx as int] == self.items@[idx as int].model());
                    let enabled = self.items[idx].enabled;
                    let is_separator = self.items[idx].is_separator;
                    if enabled && !is_separator {
                        if self.items[idx].submenu.is_some() {
                            if !self.submenu_open_is(idx) {
                                self.open_submenu(idx, true);
                            }
                        } else {
                            let action = self.items[idx].on_click;
                            self.hide_menu();
                            return (EventResult::Consumed, action);
                        }
                    }
                }
                (EventResult::Consumed, None)
            },
            Key::Right => {
                if let Some(idx) = self.hover_index {
                    assert(v.items[idx as int] == self.items@[idx as int].model());
                    if self.items[idx].submenu.is_some() && !self.submenu_open_is(idx) {
                        self.open_submenu(idx, true);
                    }
                }
                (EventResult::Consumed, None)
            },
            Key::Left => {
                if self.submenu_open.is_some() {
                    self.close_submenu();
                }
                (EventResult::Consumed, None)
            },
            _ => (EventResult::Ignored, None),
        }
    }

    fn handle_own(&mut self, event: &Event) -> (r: (EventResult, Option<u32>))
        requires
            old(self).wf(),
            old(self).view().is_open,
        ensures
            final(self).wf(),
            own_spec(old(self).view(), *event) == handled(final(self).view(), r.0, r.1),
            final(self).view().items == old(self).view().items,
    {
        proof {
            reveal(own_spec);
        }
        match event {
            Event::MouseMove(m) => (self.handle_move(m.position), None),
            Event::MouseButton(b) => {
                if b.pressed && b.button == MouseButton::Left {
                    self.handle_press(b.position)
                } else {
                    (EventResult::Ignored, None)
                }
            },
            Event::KeyPress(KeyPressEvent { key, .. }) => self.handle_key(*key),
            _ => (EventResult::Ignored, None),
        }
    }

    /// Handles an event (see `handle_spec`). Returns the answer and, when an
    /// entry was activated, its action.
    pub fn handle_event(&mut self, event: &Event) -> (r: (EventResult, Option<u32>))
        requires
            old(self).wf(),
        ensures
            final(self).wf(),
            final(self).view().items == old(self).view().items,
            handle_spec(old(self).view(), *event) == handled(final(self).view(), r.0, r.1),
        decreases depth(old(self).view()),
    {
        proof {
            reveal(ContextMenu::view);
        }
        let ghost v = self.view();
        if !self.state.visible || !self.state.enabled || !self.is_open {
            return (EventResult::Ignored, None);
        }
        let taken = self.submenu.take();
        match taken {
            Some(boxed) => {
                let mut sub = *boxed;
                assert(sub.view() == *v.submenu->0);
                let (r, a) = sub.handle_event(event);
                let ghost sv = sub.view();
                self.submenu = Some(Box::new(sub));
                assert(*self.view().submenu->0 == sv);
                assert(self.view() == MenuView { submenu: Some(Box::new(sv)), ..v });
                if r.is_consumed() {
                    return (EventResult::Consumed, a);
                }
                self.handle_own(event)
            },
            None => self.handle_own(event),
        }
    }
}


impl ContextMenu {
    pub fn id(&self) -> (id: WidgetId)
        ensures
            id == self.view().state.id,
    {
        proof {
            reveal(ContextMenu::view);
        }
        self.state.id
    }

    /// The size the menu asks for: as wide as its widest entry (at least
    /// `MIN_WIDTH`), as tall as its rows plus padding.
    pub fn measure(&self) -> (s: Size)
        requires
            self.wf(),
        ensures
            s.width == menu_width(self.view().items),
            s.height == menu_height(self.view().items),
    {
        proof {
            reveal(ContextMenu::view);
        }
        Size::new(self.calculate_width(), self.calculate_height())
    }

    pub fn bounds(&self) -> (r: Rect)
        ensures
            r == self.view().state.bounds,
    {
        proof {
            reveal(ContextMenu::view);
        }
        self.state.bounds
    }

    pub fn set_bounds(&mut self, bounds: Rect)
        requires
            old(self).wf(),
            layout_ok(old(self).view().items, bounds, old(self).view().viewport),
        ensures
            final(self).wf(),
            final(self).view() == (MenuView {
                state: WidgetState { bounds, ..old(self).view().state },
                ..old(self).view()
            }),
    {
        proof {
            reveal(ContextMenu::view);
        }
        self.state.bounds = bounds;
    }

    pub fn is_visible(&self) -> (b: bool)
        ensures
            b == self.view().state.visible,
    {
        proof {
            reveal(ContextMenu::view);
        }
        self.state.visible
    }

    pub fn set_visible(&mut self, visible: bool)
        requires
            old(self).wf(),
        ensures
            final(self).wf(),
            final(self).view() == (MenuView {
                state: WidgetState { visible, ..old(self).view().state },
                ..old(self).view()
            }),
    {
        proof {
            reveal(ContextMenu::view);
        }
        self.state.visible = visible;
    }

    pub fn is_enabled(&self) -> (b: bool)
        ensures
            b == self.view().state.enabled,
    {
        proof {
            reveal(ContextMenu::view);
        }
        self.state.enabled
    }

    pub fn set_enabled(&mut self, enabled: bool)
        requires
            old(self).wf(),
        ensures
            final(self).wf(),
            final(self).view() == (MenuView {
                state: WidgetState { enabled, ..old(self).view().state },
                ..old(self).view()
            }),
    {
        proof {
            reveal(ContextMenu::view);
        }
        self.state.enabled = enabled;
    }

    /// An open menu holds the focus.
    pub fn is_focused(&self) -> (b: bool)
        ensures
            b == self.view().is_open,
    {
        self.is_open()
    }

    /// Focus changes (window resizes among them) never close the menu; it
    /// closes on an outside click or through `hide_menu`.
    pub fn set_focused(&mut self, _focused: bool)
        ensures
            final(self).view() == old(self).view(),
    {
    }

    pub fn can_focus(&self) -> (b: bool)
        ensures
            b,
    {
        true
    }
}

// ----------------------------------------------------------------------
// Laws
// ----------------------------------------------------------------------

proof fn lemma_search_finds(es: Seq<EntryModel>, start: int, j0: int, j: int, forward: bool)
    requires
        0 < es.len() <= usize::MAX,
        1 <= j0 <= j <= es.len(),
        focusable(es[cyclic(start, j, es.len() as int, forward)]),
    ensures
        search_focusable(es, start, j0, forward) is Some,
    decreases j - j0,
{
    if j0 < j && !focusable(es[cyclic(start, j0, es.len() as int, forward)]) {
        lemma_search_finds(es, start, j0 + 1, j, forward);
    }
}

/// Keyboard navigation never lands on a separator or a disabled entry:
/// when the menu has any focusable entry, a step from a valid position (or
/// from none) lands on a focusable entry.
pub proof fn law_step_lands_on_focusable(es: Seq<EntryModel>, current: Option<usize>, forward: bool, k: int)
    requires
        es.len() <= usize::MAX,
        current matches Some(c) ==> c < es.len(),
        0 <= k < es.len(),
        focusable(es[k]),
    ensures
        step_spec(es, current, forward) matches Some(i) && i < es.len() && focusable(es[i as int]),
{
    let n = es.len() as int;
    let start = match current {
        Some(c) => c as int,
        None => if forward { n - 1 } else { 0 },
    };
    // The number of steps from `start` to `k`, in 1..=n.
    let d = if forward { (k - start) % n } else { (start - k) % n };
    let j = if d == 0 { n } else { d };
    vstd::arithmetic::div_mod::lemma_mod_bound(if forward { k - start } else { start - k }, n);
    assert(cyclic(start, j, n, forward) == k) by {
        vstd::arithmetic::div_mod::lemma_small_mod(k as nat, n as nat);
        vstd::arithmetic::div_mod::lemma_small_mod(start as nat, n as nat);
        if d == 0 {
            let x = if forward { k - start } else { start - k };
            vstd::arithmetic::div_mod::lemma_fundamental_div_mod(x, n);
            assert(x == 0) by (nonlinear_arith)
                requires
                    x == n * (x / n) + 0,
                    -n < x < n,
            {}
            if forward {
                vstd::arithmetic::div_mod::lemma_mod_add_multiples_vanish(start, n);
            } else {
                vstd::arithmetic::div_mod::lemma_mod_sub_multiples_vanish(start, n);
            }
        } else if forward {
            vstd::arithmetic::div_mod::lemma_add_mod_noop_right(start, k - start, n);
        } else {
            vstd::arithmetic::div_mod::lemma_sub_mod_noop_right(start, start - k, n);
        }
    }
    lemma_search_finds(es, start, 1, j, forward);
    lemma_search_range(es, start, 1, forward);
}

/// A menu shown within a viewport that can hold it lies inside that viewport.
pub proof fn law_shown_menu_inside_viewport(es: Seq<EntryModel>, p: Point, vp: Rect)
    requires
        menu_width(es) <= vp.width,
        menu_height(es) <= vp.height,
    ensures
        vp.x <= placed_x(p, Some(vp), menu_width(es)),
        placed_x(p, Some(vp), menu_width(es)) + menu_width(es) <= vp.x + vp.width,
        vp.y <= placed_y(p, Some(vp), menu_height(es)),
        placed_y(p, Some(vp), menu_height(es)) + menu_height(es) <= vp.y + vp.height,
{
}

/// While the pointer is over an open menu, pointer movement never reaches
/// the widgets beneath it.
pub proof fn law_move_inside_is_consumed(v: MenuView, p: Point, e: Event)
    requires
        v.state.visible && v.state.enabled && v.is_open,
        v.state.bounds.contains_spec(p),
        e matches Event::MouseMove(m) && m.position == p,
    ensures
        handle_spec(v, e).result == EventResult::Consumed,
{
    reveal(own_spec);
    reveal(move_spec);
}

/// A press on a separator or a disabled entry neither closes the menu nor
/// activates anything.
pub proof fn law_inert_press_keeps_menu(v: MenuView, p: Point, e: Event)
    requires
        v.state.visible && v.state.enabled && v.is_open,
        v.submenu is None,
        classify_spec(v, p) == ItemHit::Separator || classify_spec(v, p) is Disabled,
        e matches Event::MouseButton(b) && b.pressed && b.button == MouseButton::Left && b.position == p,
    ensures
        handle_spec(v, e) == handled(v, EventResult::Consumed, None),
{
    reveal(own_spec);
    reveal(press_spec);
}

/// Activating an entry, by pointer or keyboard, closes the menu and reports
/// the entry's action.
pub proof fn law_activation_closes(v: MenuView, e: Event, i: usize)
    requires
        v.state.visible && v.state.enabled && v.is_open,
        v.submenu is None,
        i < v.items.len(),
        v.items[i as int].submenu is None,
        focusable(v.items[i as int]),
        (e matches Event::MouseButton(b) && b.pressed && b.button == MouseButton::Left
            && classify_spec(v, b.position) == ItemHit::Item(i))
        || (e matches Event::KeyPress(k) && (k.key == Key::Enter || k.key == Key::Space)
            && v.hover_index == Some(i)),
    ensures
        !handle_spec(v, e).view.is_open,
        handle_spec(v, e).action == v.items[i as int].on_click,
        handle_spec(v, e).result == EventResult::Consumed,
{
    reveal(own_spec);
    reveal(press_spec);
    reveal(key_spec);
}

/// Escape closes an open menu whose submenu does not take the key.
pub proof fn law_escape_closes(v: MenuView, e: Event)
    requires
        v.state.visible && v.state.enabled && v.is_open,
        v.submenu is None,
        e matches Event::KeyPress(k) && k.key == Key::Escape,
    ensures
        handle_spec(v, e) == handled(hide_spec(v), EventResult::Consumed, None),
{
    reveal(own_spec);
    reveal(key_spec);
}

} // verus!
