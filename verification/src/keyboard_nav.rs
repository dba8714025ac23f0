//! The Tab cycle above all widgets: a registry of focusable widgets, their
//! tab order, focus groups and an optional focus trap, and navigation by
//! Tab, Shift+Tab and the arrow keys.

use vstd::prelude::*;
use crate::geometry::{Rect, WidgetId};
use crate::event::Key;
use crate::text::{chars_of, same_text, string_of};

verus! {

#[derive(Clone, Copy, Debug, PartialEq, Eq, Structural)]
pub enum NavigationDirection {
    Forward,
    Backward,
    Up,
    Down,
    Left,
    Right,
}

/// A widget as the registry knows it.
pub struct FocusableWidget {
    pub id: WidgetId,
    pub bounds: Rect,
    pub tab_index: Option<i32>,
    pub focusable: bool,
    pub group_id: Option<String>,
}

/// The mathematical content of a [`FocusableWidget`].
pub struct FocusInfo {
    pub id: WidgetId,
    pub bounds: Rect,
    pub tab_index: Option<i32>,
    pub focusable: bool,
    pub group: Option<Seq<char>>,
}

pub open spec fn info(w: FocusableWidget) -> FocusInfo {
    FocusInfo {
        id: w.id,
        bounds: w.bounds,
        tab_index: w.tab_index,
        focusable: w.focusable,
        group: match w.group_id { Some(g) => Some(g@), None => None },
    }
}

pub open spec fn infos(ws: Seq<FocusableWidget>) -> Seq<FocusInfo> {
    ws.map_values(|w: FocusableWidget| info(w))
}

/// What the tab order is sorted by.
#[derive(Clone, Copy, Debug, PartialEq, Eq, Structural)]
pub struct OrderEntry {
    pub id: WidgetId,
    pub tab_index: Option<i32>,
    pub x: i32,
    pub y: i32,
}

pub open spec fn entry_of(w: FocusInfo) -> OrderEntry {
    OrderEntry { id: w.id, tab_index: w.tab_index, x: w.bounds.x, y: w.bounds.y }
}

/// Tab order: widgets with a tab index first, by index; then the others
/// from top to bottom and left to right.
pub open spec fn key_le(a: OrderEntry, b: OrderEntry) -> bool {
    match a.tab_index {
        Some(i) => match b.tab_index {
            Some(j) => i <= j,
            None => true,
        },
        None => match b.tab_index {
            Some(_) => false,
            None => a.y < b.y || (a.y == b.y && a.x <= b.x),
        },
    }
}

/// `w` put into `s` after every entry that does not come after it.
pub open spec fn insert_entry(s: Seq<OrderEntry>, w: OrderEntry) -> Seq<OrderEntry>
    decreases s.len(),
{
    if s.len() == 0 {
        seq![w]
    } else if key_le(s[0], w) {
        seq![s[0]] + insert_entry(s.drop_first(), w)
    } else {
        seq![w] + s
    }
}

/// The focusable widgets among the first `k`, sorted by [`key_le`]; equal
/// keys keep registration order.
pub open spec fn sorted_entries(ws: Seq<FocusInfo>, k: int) -> Seq<OrderEntry>
    decreases k,
{
    if k <= 0 {
        seq![]
    } else if ws[k - 1].focusable {
        insert_entry(sorted_entries(ws, k - 1), entry_of(ws[k - 1]))
    } else {
        sorted_entries(ws, k - 1)
    }
}

/// The tab order of the registered widgets.
pub open spec fn tab_order(ws: Seq<FocusInfo>) -> Seq<WidgetId> {
    sorted_entries(ws, ws.len() as int).map_values(|e: OrderEntry| e.id)
}

/// A named group of widgets; a widget may be listed more than once.
pub struct GroupView {
    pub name: Seq<char>,
    pub members: Seq<WidgetId>,
}

/// The mathematical state of a [`KeyboardNavigationManager`].
pub struct NavView {
    pub widgets: Seq<FocusInfo>,
    pub order: Seq<WidgetId>,
    pub current: Option<WidgetId>,
    pub groups: Seq<GroupView>,
    pub trap: Option<Seq<char>>,
}

/// The first index from `k` on of the widget `id`, `-1` if none.
pub open spec fn find_widget(ws: Seq<FocusInfo>, id: WidgetId, k: int) -> int
    decreases ws.len() - k,
{
    if k < 0 || k >= ws.len() {
        -1
    } else if ws[k].id == id {
        k
    } else {
        find_widget(ws, id, k + 1)
    }
}

/// The first index from `k` on of the group `name`, `-1` if none.
pub open spec fn find_group(gs: Seq<GroupView>, name: Seq<char>, k: int) -> int
    decreases gs.len() - k,
{
    if k < 0 || k >= gs.len() {
        -1
    } else if gs[k].name == name {
        k
    } else {
        find_group(gs, name, k + 1)
    }
}

/// The first position from `k` on of `id` in `s`, `-1` if none.
pub open spec fn position(s: Seq<WidgetId>, id: WidgetId, k: int) -> int
    decreases s.len() - k,
{
    if k < 0 || k >= s.len() {
        -1
    } else if s[k] == id {
        k
    } else {
        position(s, id, k + 1)
    }
}

/// `s` without any `id`.
pub open spec fn without(s: Seq<WidgetId>, id: WidgetId) -> Seq<WidgetId>
    decreases s.len(),
{
    if s.len() == 0 {
        s
    } else if s.last() == id {
        without(s.drop_last(), id)
    } else {
        without(s.drop_last(), id).push(s.last())
    }
}

/// The members of the first `k` of `s` that `members` lists.
pub open spec fn kept_in(s: Seq<WidgetId>, members: Seq<WidgetId>, k: int) -> Seq<WidgetId>
    decreases k,
{
    if k <= 0 {
        seq![]
    } else if members.contains(s[k - 1]) {
        kept_in(s, members, k - 1).push(s[k - 1])
    } else {
        kept_in(s, members, k - 1)
    }
}

/// `id` added to the group `name`, which is made if it does not exist.
pub open spec fn add_member(gs: Seq<GroupView>, name: Seq<char>, id: WidgetId) -> Seq<GroupView> {
    let j = find_group(gs, name, 0);
    if j >= 0 {
        gs.update(j, GroupView { members: gs[j].members.push(id), ..gs[j] })
    } else {
        gs.push(GroupView { name, members: seq![id] })
    }
}

/// The manager after `w` is registered: it replaces a widget with the same
/// id or is added last, joins its group, and the tab order is rebuilt.
pub open spec fn register_spec(v: NavView, w: FocusInfo) -> NavView {
    let i = find_widget(v.widgets, w.id, 0);
    let ws = if i >= 0 { v.widgets.update(i, w) } else { v.widgets.push(w) };
    NavView {
        widgets: ws,
        order: tab_order(ws),
        groups: match w.group {
            Some(g) => add_member(v.groups, g, w.id),
            None => v.groups,
        },
        ..v
    }
}

/// The manager after the widget `id` is unregistered: it leaves the
/// registry and its group, loses the focus if it had it, and the tab order
/// is rebuilt. An unknown id changes nothing.
pub open spec fn unregister_spec(v: NavView, id: WidgetId) -> NavView {
    let i = find_widget(v.widgets, id, 0);
    if i < 0 {
        v
    } else {
        let ws = v.widgets.remove(i);
        NavView {
            widgets: ws,
            order: tab_order(ws),
            groups: match v.widgets[i].group {
                Some(g) => {
                    let j = find_group(v.groups, g, 0);
                    if j >= 0 {
                        v.groups.update(j, GroupView { members: without(v.groups[j].members, id), ..v.groups[j] })
                    } else {
                        v.groups
                    }
                },
                None => v.groups,
            },
            current: if v.current == Some(id) { None } else { v.current },
            ..v
        }
    }
}

/// The widgets focus may move to: the whole tab order, or, while a trap is
/// set on an existing group, those of it that the group lists.
pub open spec fn candidates(v: NavView) -> Seq<WidgetId> {
    match v.trap {
        Some(t) => {
            let j = find_group(v.groups, t, 0);
            if j >= 0 { kept_in(v.order, v.groups[j].members, v.order.len() as int) } else { v.order }
        },
        None => v.order,
    }
}

/// The widget Tab (`forward`) or Shift+Tab moves focus to: the next or
/// previous candidate round from the focused one, the first when focus is
/// not in the tab order; none when the tab order or the candidates are
/// empty, or the focused widget is not a candidate.
pub open spec fn tab_target(v: NavView, forward: bool) -> Option<WidgetId> {
    let c = candidates(v);
    let n = c.len() as int;
    if v.order.len() == 0 || n == 0 {
        None
    } else {
        let in_order = match v.current { Some(id) => position(v.order, id, 0) >= 0, None => false };
        if !in_order {
            Some(c[0])
        } else {
            let p = position(c, v.current->0, 0);
            if p < 0 {
                None
            } else if forward {
                Some(c[if p + 1 == n { 0 } else { p + 1 }])
            } else {
                Some(c[if p == 0 { n - 1 } else { p - 1 }])
            }
        }
    }
}

/// The centre of `r`, in integers.
pub open spec fn center_of(r: Rect) -> (int, int) {
    (r.center_x_spec(), r.center_y_spec())
}

/// Whether a centre `to` lies in `dir` from `from`.
pub open spec fn in_direction(from: (int, int), to: (int, int), dir: NavigationDirection) -> bool {
    match dir {
        NavigationDirection::Up => to.1 < from.1,
        NavigationDirection::Down => to.1 > from.1,
        NavigationDirection::Left => to.0 < from.0,
        NavigationDirection::Right => to.0 > from.0,
        _ => false,
    }
}

pub open spec fn dist2(a: (int, int), b: (int, int)) -> int {
    (b.0 - a.0) * (b.0 - a.0) + (b.1 - a.1) * (b.1 - a.1)
}

/// Whether widget `w` may take focus from `cur` by an arrow key `dir`.
pub open spec fn eligible(v: NavView, cur: FocusInfo, w: FocusInfo, dir: NavigationDirection) -> bool {
    &&& w.id != cur.id
    &&& w.focusable
    &&& in_direction(center_of(cur.bounds), center_of(w.bounds), dir)
    &&& match v.trap {
        Some(t) => {
            let j = find_group(v.groups, t, 0);
            j >= 0 ==> v.groups[j].members.contains(w.id)
        },
        None => true,
    }
}

/// Among the first `k` widgets, the index of the first eligible one
/// nearest to `cur`, if any.
pub open spec fn nearest(v: NavView, cur: FocusInfo, dir: NavigationDirection, k: int) -> Option<int>
    decreases k,
{
    if k <= 0 {
        None
    } else {
        let prev = nearest(v, cur, dir, k - 1);
        let w = v.widgets[k - 1];
        if eligible(v, cur, w, dir) && (prev matches Some(j) ==> dist2(center_of(cur.bounds), center_of(w.bounds))
            < dist2(center_of(cur.bounds), center_of(v.widgets[j].bounds))) {
            Some(k - 1)
        } else {
            prev
        }
    }
}

/// The widget an arrow key moves focus to: the nearest eligible one (by
/// the distance between centres; the first registered among equals); none
/// without a focused registered widget or an eligible one.
pub open spec fn arrow_target(v: NavView, dir: NavigationDirection) -> Option<WidgetId> {
    match v.current {
        Some(id) => {
            let i = find_widget(v.widgets, id, 0);
            if i < 0 {
                None
            } else {
                match nearest(v, v.widgets[i], dir, v.widgets.len() as int) {
                    Some(j) => Some(v.widgets[j].id),
                    None => None,
                }
            }
        },
        None => None,
    }
}

/// The manager after moving focus to `t` (when there is a target).
pub open spec fn moved(v: NavView, t: Option<WidgetId>) -> NavView {
    match t {
        Some(id) => NavView { current: Some(id), ..v },
        None => v,
    }
}

/// The registry's invariant: each widget is registered once and stands at
/// most once in the tab order, and the counts fit the machine.
pub open spec fn nav_wf(v: NavView) -> bool {
    &&& forall|i: int, j: int| 0 <= i < j < v.widgets.len() ==> v.widgets[i].id != v.widgets[j].id
    &&& ids_distinct(v.order)
    &&& v.widgets.len() < usize::MAX
    &&& v.groups.len() < usize::MAX
    &&& forall|j: int| 0 <= j < v.groups.len() ==> #[trigger] v.groups[j].members.len() < usize::MAX
}


struct FocusGroup {
    name: String,
    members: Vec<WidgetId>,
}

/// The registry of focusable widgets that Tab and the arrow keys move the
/// focus over.
pub struct KeyboardNavigationManager {
    focusable_widgets: Vec<FocusableWidget>,
    focus_order: Vec<WidgetId>,
    current_focus: Option<WidgetId>,
    focus_groups: Vec<FocusGroup>,
    focus_trap: Option<String>,
}

spec fn group_view(g: FocusGroup) -> GroupView {
    GroupView { name: g.name@, members: g.members@ }
}

proof fn lemma_insert_at(s: Seq<OrderEntry>, w: OrderEntry, p: int)
    requires
        0 <= p <= s.len(),
        forall|j: int| 0 <= j < p ==> key_le(#[trigger] s[j], w),
        p < s.len() ==> !key_le(s[p], w),
    ensures
        insert_entry(s, w) == s.take(p).push(w) + s.skip(p),
    decreases s.len(),
{
    if s.len() == 0 {
        assert(s.take(p).push(w) + s.skip(p) =~= seq![w]);
    } else if p == 0 {
        assert(s.take(0).push(w) + s.skip(0) =~= seq![w] + s);
    } else {
        let t = s.drop_first();
        assert forall|j: int| 0 <= j < p - 1 implies key_le(#[trigger] t[j], w) by {
            assert(t[j] == s[j + 1]);
        }
        lemma_insert_at(t, w, p - 1);
        assert(s.take(p).push(w) + s.skip(p) =~= seq![s[0]] + (t.take(p - 1).push(w) + t.skip(p - 1)));
    }
}

fn insert_sorted(s: &mut Vec<OrderEntry>, w: OrderEntry)
    requires
        old(s)@.len() < usize::MAX,
    ensures
        final(s)@ == insert_entry(old(s)@, w),
{
    let ghost s0 = s@;
    let mut p: usize = 0;
    while p < s.len()
        invariant
            s@ == s0,
            p <= s0.len(),
            forall|j: int| 0 <= j < p ==> key_le(#[trigger] s0[j], w),
        ensures
            p < s0.len() ==> !key_le(s0[p as int], w),
        decreases s0.len() - p,
    {
        let e = s[p];
        let le = match e.tab_index {
            Some(i) => match w.tab_index {
                Some(j) => i <= j,
                None => true,
            },
            None => match w.tab_index {
                Some(_) => false,
                None => e.y < w.y || (e.y == w.y && e.x <= w.x),
            },
        };
        if !le {
            break;
        }
        p = p + 1;
    }
    proof {
        lemma_insert_at(s0, w, p as int);
    }
    s.insert(p, w);
    assert(s@ =~= s0.take(p as int).push(w) + s0.skip(p as int));
}

proof fn lemma_sorted_len(ws: Seq<FocusInfo>, k: int)
    requires
        0 <= k,
    ensures
        sorted_entries(ws, k).len() <= k,
    decreases k,
{
    if k > 0 {
        lemma_sorted_len(ws, k - 1);
        if ws[k - 1].focusable {
            lemma_insert_len(sorted_entries(ws, k - 1), entry_of(ws[k - 1]));
        }
    }
}

proof fn lemma_insert_len(s: Seq<OrderEntry>, w: OrderEntry)
    ensures
        insert_entry(s, w).len() == s.len() + 1,
    decreases s.len(),
{
    if s.len() > 0 && key_le(s[0], w) {
        lemma_insert_len(s.drop_first(), w);
    }
}

impl KeyboardNavigationManager {
    pub closed spec fn view(&self) -> NavView {
        NavView {
            widgets: infos(self.focusable_widgets@),
            order: self.focus_order@,
            current: self.current_focus,
            groups: self.focus_groups@.map_values(|g: FocusGroup| group_view(g)),
            trap: match self.focus_trap { Some(t) => Some(t@), None => None },
        }
    }

    /// An empty registry without focus or trap.
    pub fn new() -> (m: KeyboardNavigationManager)
        ensures
            nav_wf(m.view()),
            m.view() == (NavView {
                widgets: Seq::empty(),
                order: Seq::empty(),
                current: None,
                groups: Seq::empty(),
                trap: None,
            }),
    {
        let m = KeyboardNavigationManager {
            focusable_widgets: Vec::new(),
            focus_order: Vec::new(),
            current_focus: None,
            focus_groups: Vec::new(),
            focus_trap: None,
        };
        assert(m.view().widgets =~= Seq::<FocusInfo>::empty());
        assert(m.view().groups =~= Seq::<GroupView>::empty());
        m
    }

    fn find_widget_index(&self, id: WidgetId) -> (r: Option<usize>)
        ensures
            match r {
                Some(i) => i == find_widget(self.view().widgets, id, 0) && i < self.view().widgets.len(),
                None => find_widget(self.view().widgets, id, 0) == -1,
            },
    {
        let ghost ws = self.view().widgets;
        let mut i: usize = 0;
        while i < self.focusable_widgets.len()
            invariant
                ws == self.view().widgets,
                ws == infos(self.focusable_widgets@),
                i <= ws.len(),
                find_widget(ws, id, 0) == find_widget(ws, id, i as int),
            decreases ws.len() - i,
        {
            assert(ws[i as int] == info(self.focusable_widgets@[i as int]));
            if self.focusable_widgets[i].id == id {
                return Some(i);
            }
            i = i + 1;
        }
        None
    }

    fn find_group_index(&self, name: &str) -> (r: Option<usize>)
        ensures
            match r {
                Some(j) => j == find_group(self.view().groups, name@, 0) && j < self.view().groups.len(),
                None => find_group(self.view().groups, name@, 0) == -1,
            },
    {
        let ghost gs = self.view().groups;
        let mut j: usize = 0;
        while j < self.focus_groups.len()
            invariant
                gs == self.view().groups,
                gs == self.focus_groups@.map_values(|g: FocusGroup| group_view(g)),
                j <= gs.len(),
                find_group(gs, name@, 0) == find_group(gs, name@, j as int),
            decreases gs.len() - j,
        {
            assert(gs[j as int] == group_view(self.focus_groups@[j as int]));
            if same_text(self.focus_groups[j].name.as_str(), name) {
                return Some(j);
            }
            j = j + 1;
        }
        None
    }

    fn rebuild_focus_order(&mut self)
        requires
            old(self).view().widgets.len() < usize::MAX,
        ensures
            final(self).view() == (NavView { order: tab_order(old(self).view().widgets), ..old(self).view() }),
    {
        let ghost ws = self.view().widgets;
        let mut sorted: Vec<OrderEntry> = Vec::new();
        let mut i: usize = 0;
        while i < self.focusable_widgets.len()
            invariant
                ws == self.view().widgets,
                ws == infos(self.focusable_widgets@),
                ws.len() < usize::MAX,
                i <= ws.len(),
                sorted@ == sorted_entries(ws, i as int),
            decreases ws.len() - i,
        {
            let w = &self.focusable_widgets[i];
            assert(ws[i as int] == info(self.focusable_widgets@[i as int]));
            if w.focusable {
                proof {
                    lemma_sorted_len(ws, i as int);
                }
                let e = OrderEntry { id: w.id, tab_index: w.tab_index, x: w.bounds.x, y: w.bounds.y };
                insert_sorted(&mut sorted, e);
            }
            i = i + 1;
        }
        let mut order: Vec<WidgetId> = Vec::new();
        let mut k: usize = 0;
        while k < sorted.len()
            invariant
                k <= sorted@.len(),
                order@ == sorted@.take(k as int).map_values(|e: OrderEntry| e.id),
            decreases sorted@.len() - k,
        {
            order.push(sorted[k].id);
            assert(sorted@.take(k + 1) =~= sorted@.take(k as int).push(sorted@[k as int]));
            k = k + 1;
            assert(order@ =~= sorted@.take(k as int).map_values(|e: OrderEntry| e.id));
        }
        assert(sorted@.take(sorted@.len() as int) =~= sorted@);
        self.focus_order = order;
    }
}


proof fn lemma_find_widget_range(ws: Seq<FocusInfo>, id: WidgetId, k: int)
    requires
        0 <= k,
    ensures
        find_widget(ws, id, k) == -1 || (k <= find_widget(ws, id, k) < ws.len() && ws[find_widget(ws, id, k)].id == id),
    decreases ws.len() - k,
{
    if k < ws.len() && ws[k].id != id {
        lemma_find_widget_range(ws, id, k + 1);
    }
}

proof fn lemma_find_widget_absent(ws: Seq<FocusInfo>, id: WidgetId, k: int)
    requires
        0 <= k,
        find_widget(ws, id, k) == -1,
    ensures
        forall|j: int| k <= j < ws.len() ==> ws[j].id != id,
    decreases ws.len() - k,
{
    if k < ws.len() {
        lemma_find_widget_absent(ws, id, k + 1);
    }
}

proof fn lemma_find_group_range(gs: Seq<GroupView>, name: Seq<char>, k: int)
    requires
        0 <= k,
    ensures
        find_group(gs, name, k) == -1 || (k <= find_group(gs, name, k) < gs.len() && gs[find_group(gs, name, k)].name == name),
    decreases gs.len() - k,
{
    if k < gs.len() && gs[k].name != name {
        lemma_find_group_range(gs, name, k + 1);
    }
}

proof fn lemma_without_len(s: Seq<WidgetId>, id: WidgetId)
    ensures
        without(s, id).len() <= s.len(),
    decreases s.len(),
{
    if s.len() > 0 {
        lemma_without_len(s.drop_last(), id);
    }
}

fn without_exec(s: &Vec<WidgetId>, id: WidgetId) -> (r: Vec<WidgetId>)
    ensures
        r@ == without(s@, id),
{
    let mut r: Vec<WidgetId> = Vec::new();
    let mut i: usize = 0;
    while i < s.len()
        invariant
            i <= s@.len(),
            r@ == without(s@.take(i as int), id),
        decreases s@.len() - i,
    {
        let ghost t = s@.take(i as int + 1);
        assert(t.drop_last() =~= s@.take(i as int));
        assert(t.last() == s@[i as int]);
        proof {
            lemma_without_len(s@.take(i as int), id);
        }
        if s[i] != id {
            r.push(s[i]);
        }
        i = i + 1;
    }
    assert(s@.take(s@.len() as int) =~= s@);
    r
}

impl KeyboardNavigationManager {
    /// Registers `widget` (replacing one with the same id), adds it to its
    /// group and rebuilds the tab order.
    pub fn register_widget(&mut self, widget: FocusableWidget)
        requires
            nav_wf(old(self).view()),
            old(self).view().widgets.len() + 1 < usize::MAX,
            old(self).view().groups.len() + 1 < usize::MAX,
            forall|j: int| 0 <= j < old(self).view().groups.len() ==> #[trigger] old(self).view().groups[j].members.len() + 1 < usize::MAX,
        ensures
            nav_wf(final(self).view()),
            final(self).view() == register_spec(old(self).view(), info(widget)),
    {
        let ghost v = self.view();
        let id = widget.id;
        let group: Option<Vec<char>> = match &widget.group_id {
            Some(g) => Some(chars_of(g.as_str())),
            None => None,
        };
        proof {
            lemma_find_widget_range(v.widgets, id, 0);
        }
        match self.find_widget_index(id) {
            Some(i) => {
                self.focusable_widgets.set(i, widget);
            },
            None => {
                proof {
                    lemma_find_widget_absent(v.widgets, id, 0);
                }
                self.focusable_widgets.push(widget);
            },
        }
        assert(self.view().widgets =~= (if find_widget(v.widgets, id, 0) >= 0 {
            v.widgets.update(find_widget(v.widgets, id, 0), info(widget))
        } else {
            v.widgets.push(info(widget))
        }));
        match group {
            Some(cs) => {
                let name = string_of(&cs);
                proof {
                    lemma_find_group_range(v.groups, name@, 0);
                }
                match self.find_group_index(name.as_str()) {
                    Some(j) => {
                        let mut g = self.focus_groups.remove(j);
                        g.members.push(id);
                        self.focus_groups.insert(j, g);
                    },
                    None => {
                        let mut members: Vec<WidgetId> = Vec::new();
                        members.push(id);
                        self.focus_groups.push(FocusGroup { name, members });
                    },
                }
                assert(self.view().groups =~= add_member(v.groups, name@, id));
            },
            None => {},
        }
        self.rebuild_focus_order();
        proof {
            lemma_tab_order_distinct(self.view().widgets);
        }
    }

    /// Unregisters the widget `id`, if registered; see [`unregister_spec`].
    pub fn unregister_widget(&mut self, id: WidgetId)
        requires
            nav_wf(old(self).view()),
        ensures
            nav_wf(final(self).view()),
            final(self).view() == unregister_spec(old(self).view(), id),
    {
        let ghost v = self.view();
        proof {
            lemma_find_widget_range(v.widgets, id, 0);
        }
        let i = match self.find_widget_index(id) {
            Some(i) => i,
            None => {
                return;
            },
        };
        let widget = self.focusable_widgets.remove(i);
        assert(self.view().widgets =~= v.widgets.remove(i as int));
        assert(info(widget) == v.widgets[i as int]);
        match &widget.group_id {
            Some(g) => {
                proof {
                    lemma_find_group_range(v.groups, g@, 0);
                }
                match self.find_group_index(g.as_str()) {
                    Some(j) => {
                        let mut grp = self.focus_groups.remove(j);
                        proof {
                            lemma_without_len(grp.members@, id);
                        }
                        grp.members = without_exec(&grp.members, id);
                        self.focus_groups.insert(j, grp);
                        assert(self.view().groups =~= v.groups.update(
                            j as int,
                            GroupView { members: without(v.groups[j as int].members, id), ..v.groups[j as int] },
                        ));
                    },
                    None => {},
                }
            },
            None => {},
        }
        if self.current_focus == Some(id) {
            self.current_focus = None;
        }
        self.rebuild_focus_order();
        proof {
            lemma_tab_order_distinct(self.view().widgets);
        }
    }

    /// Moves the registered widget `id`; the tab order is not rebuilt.
    pub fn update_widget_bounds(&mut self, id: WidgetId, bounds: Rect)
        requires
            nav_wf(old(self).view()),
        ensures
            nav_wf(final(self).view()),
            final(self).view() == (match find_widget(old(self).view().widgets, id, 0) {
                i => if i >= 0 {
                    NavView {
                        widgets: old(self).view().widgets.update(i, FocusInfo { bounds, ..old(self).view().widgets[i] }),
                        ..old(self).view()
                    }
                } else {
                    old(self).view()
                },
            }),
    {
        let ghost v = self.view();
        proof {
            lemma_find_widget_range(v.widgets, id, 0);
        }
        match self.find_widget_index(id) {
            Some(i) => {
                let mut w = self.focusable_widgets.remove(i);
                w.bounds = bounds;
                self.focusable_widgets.insert(i, w);
                assert(self.view().widgets =~= v.widgets.update(i as int, FocusInfo { bounds, ..v.widgets[i as int] }));
            },
            None => {},
        }
    }

    /// Gives the focus to `id` (or to nobody).
    pub fn set_focus(&mut self, id: Option<WidgetId>)
        ensures
            final(self).view() == (NavView { current: id, ..old(self).view() }),
    {
        self.current_focus = id;
    }

    pub fn get_focused_widget(&self) -> (r: Option<WidgetId>)
        ensures
            r == self.view().current,
    {
        self.current_focus
    }

    /// Confines navigation to the group `group_id` (or lifts the trap).
    pub fn set_focus_trap(&mut self, group_id: Option<String>)
        ensures
            final(self).view() == (NavView {
                trap: match group_id { Some(t) => Some(t@), None => None },
                ..old(self).view()
            }),
    {
        self.focus_trap = group_id;
    }

    /// The tab order.
    pub fn focus_order(&self) -> (r: &Vec<WidgetId>)
        ensures
            r@ == self.view().order,
    {
        &self.focus_order
    }
}


fn vec_contains(v: &Vec<WidgetId>, id: WidgetId) -> (b: bool)
    ensures
        b == v@.contains(id),
{
    let mut i: usize = 0;
    while i < v.len()
        invariant
            i <= v@.len(),
            forall|j: int| 0 <= j < i ==> v@[j] != id,
        decreases v@.len() - i,
    {
        if v[i] == id {
            assert(v@[i as int] == id);
            return true;
        }
        i = i + 1;
    }
    false
}

fn position_exec(s: &Vec<WidgetId>, id: WidgetId) -> (r: Option<usize>)
    ensures
        match r {
            Some(p) => p == position(s@, id, 0) && p < s@.len(),
            None => position(s@, id, 0) == -1,
        },
{
    let mut i: usize = 0;
    while i < s.len()
        invariant
            i <= s@.len(),
            position(s@, id, 0) == position(s@, id, i as int),
        decreases s@.len() - i,
    {
        if s[i] == id {
            return Some(i);
        }
        i = i + 1;
    }
    None
}

fn copy_ids(s: &Vec<WidgetId>) -> (r: Vec<WidgetId>)
    ensures
        r@ == s@,
{
    let mut r: Vec<WidgetId> = Vec::new();
    let mut i: usize = 0;
    while i < s.len()
        invariant
            i <= s@.len(),
            r@ == s@.take(i as int),
        decreases s@.len() - i,
    {
        r.push(s[i]);
        i = i + 1;
        assert(r@ =~= s@.take(i as int));
    }
    assert(s@.take(s@.len() as int) =~= s@);
    r
}

fn center64(r: Rect) -> (c: (i64, i64))
    ensures
        c.0 == center_of(r).0,
        c.1 == center_of(r).1,
        -0x1_0000_0000 <= c.0 <= 0x1_0000_0000,
        -0x1_0000_0000 <= c.1 <= 0x1_0000_0000,
{
    (r.x as i64 + (r.width as i64) / 2, r.y as i64 + (r.height as i64) / 2)
}

fn dist2_exec(a: (i64, i64), b: (i64, i64)) -> (d: i128)
    requires
        -0x1_0000_0000 <= a.0 <= 0x1_0000_0000,
        -0x1_0000_0000 <= a.1 <= 0x1_0000_0000,
        -0x1_0000_0000 <= b.0 <= 0x1_0000_0000,
        -0x1_0000_0000 <= b.1 <= 0x1_0000_0000,
    ensures
        d == dist2((a.0 as int, a.1 as int), (b.0 as int, b.1 as int)),
{
    let dx = (b.0 - a.0) as i128;
    let dy = (b.1 - a.1) as i128;
    assert(0 <= dx * dx <= 0x4_0000_0000_0000_0000) by (nonlinear_arith)
        requires
            -0x2_0000_0000 <= dx <= 0x2_0000_0000,
    ;
    assert(0 <= dy * dy <= 0x4_0000_0000_0000_0000) by (nonlinear_arith)
        requires
            -0x2_0000_0000 <= dy <= 0x2_0000_0000,
    ;
    dx * dx + dy * dy
}

impl KeyboardNavigationManager {
    fn candidates_exec(&self) -> (c: Vec<WidgetId>)
        ensures
            c@ == candidates(self.view()),
    {
        let ghost v = self.view();
        match &self.focus_trap {
            Some(t) => {
                match self.find_group_index(t.as_str()) {
                    Some(j) => {
                        let members = &self.focus_groups[j].members;
                        assert(v.groups[j as int] == group_view(self.focus_groups@[j as int]));
                        let mut c: Vec<WidgetId> = Vec::new();
                        let mut k: usize = 0;
                        while k < self.focus_order.len()
                            invariant
                                v == self.view(),
                                members@ == v.groups[j as int].members,
                                k <= v.order.len(),
                                c@ == kept_in(v.order, members@, k as int),
                            decreases v.order.len() - k,
                        {
                            let id = self.focus_order[k];
                            if vec_contains(members, id) {
                                c.push(id);
                            }
                            k = k + 1;
                        }
                        c
                    },
                    None => copy_ids(&self.focus_order),
                }
            },
            None => copy_ids(&self.focus_order),
        }
    }

    fn navigate_tab(&mut self, forward: bool) -> (r: Option<WidgetId>)
        ensures
            r == tab_target(old(self).view(), forward),
            final(self).view() == moved(old(self).view(), r),
    {
        let ghost v = self.view();
        if self.focus_order.len() == 0 {
            return None;
        }
        let in_order = match self.current_focus {
            Some(id) => position_exec(&self.focus_order, id).is_some(),
            None => false,
        };
        let c = self.candidates_exec();
        let n = c.len();
        if n == 0 {
            return None;
        }
        let next = if !in_order {
            0
        } else {
            let cur = match self.current_focus {
                Some(id) => id,
                None => {
                    return None;
                },
            };
            match position_exec(&c, cur) {
                None => {
                    return None;
                },
                Some(p) => {
                    if forward {
                        if p + 1 == n {
                            0
                        } else {
                            p + 1
                        }
                    } else if p == 0 {
                        n - 1
                    } else {
                        p - 1
                    }
                },
            }
        };
        let t = c[next];
        self.current_focus = Some(t);
        Some(t)
    }

    fn navigate_directional(&mut self, direction: NavigationDirection) -> (r: Option<WidgetId>)
        ensures
            r == arrow_target(old(self).view(), direction),
            final(self).view() == moved(old(self).view(), r),
    {
        let ghost v = self.view();
        let cur = match self.current_focus {
            Some(id) => id,
            None => {
                return None;
            },
        };
        proof {
            lemma_find_widget_range(v.widgets, cur, 0);
        }
        let i = match self.find_widget_index(cur) {
            Some(i) => i,
            None => {
                return None;
            },
        };
        let ghost cw = v.widgets[i as int];
        assert(cw == info(self.focusable_widgets@[i as int]));
        let c = center64(self.focusable_widgets[i].bounds);
        let trap_group: Option<usize> = match &self.focus_trap {
            Some(t) => self.find_group_index(t.as_str()),
            None => None,
        };
        let mut best: Option<usize> = None;
        let mut best_d: i128 = 0;
        let mut k: usize = 0;
        while k < self.focusable_widgets.len()
            invariant
                v == self.view(),
                0 <= i < v.widgets.len(),
                cw == v.widgets[i as int],
                cw.id == cur,
                c.0 == center_of(cw.bounds).0,
                c.1 == center_of(cw.bounds).1,
                -0x1_0000_0000 <= c.0 <= 0x1_0000_0000,
                -0x1_0000_0000 <= c.1 <= 0x1_0000_0000,
                match trap_group {
                    Some(j) => v.trap is Some && j == find_group(v.groups, v.trap->0, 0) && j < v.groups.len(),
                    None => v.trap is None || find_group(v.groups, v.trap->0, 0) == -1,
                },
                k <= v.widgets.len(),
                match nearest(v, cw, direction, k as int) {
                    Some(j) => best == Some(j as usize) && 0 <= j < k
                        && best_d == dist2(center_of(cw.bounds), center_of(v.widgets[j].bounds)),
                    None => best is None,
                },
            decreases v.widgets.len() - k,
        {
            let w = &self.focusable_widgets[k];
            assert(v.widgets[k as int] == info(self.focusable_widgets@[k as int]));
            let wc = center64(w.bounds);
            let dir_ok = match direction {
                NavigationDirection::Up => wc.1 < c.1,
                NavigationDirection::Down => wc.1 > c.1,
                NavigationDirection::Left => wc.0 < c.0,
                NavigationDirection::Right => wc.0 > c.0,
                _ => false,
            };
            let member_ok = match trap_group {
                Some(j) => {
                    assert(v.groups[j as int] == group_view(self.focus_groups@[j as int]));
                    vec_contains(&self.focus_groups[j].members, w.id)
                },
                None => true,
            };
            if w.id != cur && w.focusable && dir_ok && member_ok {
                let d = dist2_exec(c, wc);
                let better = match best {
                    Some(_) => d < best_d,
                    None => true,
                };
                if better {
                    best = Some(k);
                    best_d = d;
                }
            }
            k = k + 1;
        }
        match best {
            Some(j) => {
                let t = self.focusable_widgets[j].id;
                assert(v.widgets[j as int] == info(self.focusable_widgets@[j as int]));
                self.current_focus = Some(t);
                Some(t)
            },
            None => None,
        }
    }

    /// Moves the focus in `direction`: Forward and Backward along the tab
    /// order, the others to the nearest widget that way.
    pub fn handle_navigation(&mut self, direction: NavigationDirection) -> (r: Option<WidgetId>)
        ensures
            r == (match direction {
                NavigationDirection::Forward => tab_target(old(self).view(), true),
                NavigationDirection::Backward => tab_target(old(self).view(), false),
                _ => arrow_target(old(self).view(), direction),
            }),
            final(self).view() == moved(old(self).view(), r),
    {
        match direction {
            NavigationDirection::Forward => self.navigate_tab(true),
            NavigationDirection::Backward => self.navigate_tab(false),
            _ => self.navigate_directional(direction),
        }
    }

    /// Tab moves the focus forward, the arrow keys to the nearest widget
    /// that way; other keys do nothing.
    pub fn handle_key(&mut self, key: Key) -> (r: Option<WidgetId>)
        ensures
            r == (match key {
                Key::Tab => tab_target(old(self).view(), true),
                Key::Up => arrow_target(old(self).view(), NavigationDirection::Up),
                Key::Down => arrow_target(old(self).view(), NavigationDirection::Down),
                Key::Left => arrow_target(old(self).view(), NavigationDirection::Left),
                Key::Right => arrow_target(old(self).view(), NavigationDirection::Right),
                _ => None,
            }),
            final(self).view() == moved(old(self).view(), r),
    {
        match key {
            Key::Tab => self.navigate_tab(true),
            Key::Up => self.navigate_directional(NavigationDirection::Up),
            Key::Down => self.navigate_directional(NavigationDirection::Down),
            Key::Left => self.navigate_directional(NavigationDirection::Left),
            Key::Right => self.navigate_directional(NavigationDirection::Right),
            _ => None,
        }
    }
}


impl Default for KeyboardNavigationManager {
    fn default() -> (m: KeyboardNavigationManager)
        ensures
            nav_wf(m.view()),
            m.view() == (NavView {
                widgets: Seq::empty(),
                order: Seq::empty(),
                current: None,
                groups: Seq::empty(),
                trap: None,
            }),
    {
        KeyboardNavigationManager::new()
    }
}

/// What a widget that takes part in keyboard navigation offers.
pub trait KeyboardNavigable {
    fn get_focusable_info(&self) -> Option<FocusableWidget>;

    fn on_focus_gained(&mut self);

    fn on_focus_lost(&mut self);

    /// Returns whether the key was handled.
    fn handle_keyboard_input(&mut self, key: Key) -> bool;
}

proof fn lemma_position_range(s: Seq<WidgetId>, id: WidgetId, k: int)
    requires
        0 <= k,
    ensures
        position(s, id, k) == -1 || (k <= position(s, id, k) < s.len() && s[position(s, id, k)] == id),
    decreases s.len() - k,
{
    if k < s.len() && s[k] != id {
        lemma_position_range(s, id, k + 1);
    }
}

proof fn lemma_kept_in_members(s: Seq<WidgetId>, members: Seq<WidgetId>, k: int)
    requires
        0 <= k <= s.len(),
    ensures
        forall|i: int| 0 <= i < kept_in(s, members, k).len() ==> members.contains(#[trigger] kept_in(s, members, k)[i]),
    decreases k,
{
    if k > 0 {
        lemma_kept_in_members(s, members, k - 1);
        let prev = kept_in(s, members, k - 1);
        if members.contains(s[k - 1]) {
            assert forall|i: int| 0 <= i < prev.len() + 1 implies members.contains(#[trigger] prev.push(s[k - 1])[i]) by {
                if i < prev.len() {
                    assert(prev.push(s[k - 1])[i] == prev[i]);
                }
            }
        }
    }
}

proof fn lemma_nearest(v: NavView, cur: FocusInfo, dir: NavigationDirection, k: int)
    requires
        0 <= k <= v.widgets.len(),
    ensures
        match nearest(v, cur, dir, k) {
            Some(j) => {
                &&& 0 <= j < k
                &&& eligible(v, cur, v.widgets[j], dir)
                &&& forall|m: int| 0 <= m < k && eligible(v, cur, #[trigger] v.widgets[m], dir)
                    ==> dist2(center_of(cur.bounds), center_of(v.widgets[j].bounds))
                        <= dist2(center_of(cur.bounds), center_of(v.widgets[m].bounds))
            },
            None => forall|m: int| 0 <= m < k ==> !eligible(v, cur, #[trigger] v.widgets[m], dir),
        },
    decreases k,
{
    if k > 0 {
        lemma_nearest(v, cur, dir, k - 1);
    }
}

/// While a trap is set on an existing group, Tab, Shift+Tab and the arrow
/// keys only move the focus to widgets that the group lists.
pub proof fn law_trap_confines_focus(v: NavView, dir: NavigationDirection)
    requires
        v.trap is Some,
        find_group(v.groups, v.trap->0, 0) >= 0,
    ensures
        ({
            let members = v.groups[find_group(v.groups, v.trap->0, 0)].members;
            &&& (tab_target(v, true) matches Some(t) ==> members.contains(t))
            &&& (tab_target(v, false) matches Some(t) ==> members.contains(t))
            &&& (arrow_target(v, dir) matches Some(t) ==> members.contains(t))
        }),
{
    let j = find_group(v.groups, v.trap->0, 0);
    lemma_find_group_range(v.groups, v.trap->0, 0);
    let members = v.groups[j].members;
    lemma_kept_in_members(v.order, members, v.order.len() as int);
    let c = candidates(v);
    assert(c == kept_in(v.order, members, v.order.len() as int));
    match v.current {
        Some(id) => {
            lemma_position_range(c, id, 0);
            let p = position(c, id, 0);
            if p >= 0 {
                let n = c.len() as int;
                let f = if p + 1 == n { 0 } else { p + 1 };
                let b = if p == 0 { n - 1 } else { p - 1 };
                assert(members.contains(c[f]));
                assert(members.contains(c[b]));
            }
        },
        None => {},
    }
    if c.len() > 0 {
        assert(members.contains(c[0]));
    }
    match v.current {
        Some(id) => {
            let i = find_widget(v.widgets, id, 0);
            lemma_find_widget_range(v.widgets, id, 0);
            if i >= 0 {
                lemma_nearest(v, v.widgets[i], dir, v.widgets.len() as int);
            }
        },
        None => {},
    }
}

/// An arrow key moves the focus to a focusable widget whose centre lies
/// that way, and no such widget is nearer.
pub proof fn law_arrow_moves_to_nearest(v: NavView, dir: NavigationDirection)
    requires
        v.current is Some,
        find_widget(v.widgets, v.current->0, 0) >= 0,
        arrow_target(v, dir) is Some,
    ensures
        ({
            let cur = v.widgets[find_widget(v.widgets, v.current->0, 0)];
            let t = arrow_target(v, dir)->0;
            exists|j: int| {
                &&& 0 <= j < v.widgets.len()
                &&& #[trigger] v.widgets[j].id == t
                &&& v.widgets[j].focusable
                &&& t != cur.id
                &&& in_direction(center_of(cur.bounds), center_of(v.widgets[j].bounds), dir)
                &&& forall|m: int| 0 <= m < v.widgets.len() && eligible(v, cur, #[trigger] v.widgets[m], dir)
                    ==> dist2(center_of(cur.bounds), center_of(v.widgets[j].bounds))
                        <= dist2(center_of(cur.bounds), center_of(v.widgets[m].bounds))
            }
        }),
{
    let i = find_widget(v.widgets, v.current->0, 0);
    lemma_find_widget_range(v.widgets, v.current->0, 0);
    let cur = v.widgets[i];
    lemma_nearest(v, cur, dir, v.widgets.len() as int);
    let j = nearest(v, cur, dir, v.widgets.len() as int)->0;
    assert(v.widgets[j].id == arrow_target(v, dir)->0);
}

/// An arrow key moves the focus the way it points: Left to a widget whose
/// centre lies further left (smaller x), Right further right, Up higher
/// (smaller y), Down lower; Tab and Shift+Tab are not arrows and never
/// move it this way.
pub proof fn law_arrow_goes_that_way(v: NavView, dir: NavigationDirection)
    requires
        v.current is Some,
        find_widget(v.widgets, v.current->0, 0) >= 0,
        arrow_target(v, dir) is Some,
    ensures
        ({
            let cur = v.widgets[find_widget(v.widgets, v.current->0, 0)].bounds;
            exists|j: int| {
                &&& 0 <= j < v.widgets.len()
                &&& #[trigger] v.widgets[j].id == arrow_target(v, dir)->0
                &&& match dir {
                    NavigationDirection::Left => v.widgets[j].bounds.center_x_spec() < cur.center_x_spec(),
                    NavigationDirection::Right => v.widgets[j].bounds.center_x_spec() > cur.center_x_spec(),
                    NavigationDirection::Up => v.widgets[j].bounds.center_y_spec() < cur.center_y_spec(),
                    NavigationDirection::Down => v.widgets[j].bounds.center_y_spec() > cur.center_y_spec(),
                    _ => false,
                }
            }
        }),
{
    let i = find_widget(v.widgets, v.current->0, 0);
    lemma_find_widget_range(v.widgets, v.current->0, 0);
    let cur = v.widgets[i];
    lemma_nearest(v, cur, dir, v.widgets.len() as int);
    let j = nearest(v, cur, dir, v.widgets.len() as int)->0;
    assert(v.widgets[j].id == arrow_target(v, dir)->0);
}

proof fn lemma_key_le_total(a: OrderEntry, b: OrderEntry)
    ensures
        key_le(a, b) || key_le(b, a),
{
}

proof fn lemma_key_le_trans(a: OrderEntry, b: OrderEntry, c: OrderEntry)
    requires
        key_le(a, b),
        key_le(b, c),
    ensures
        key_le(a, c),
{
}

pub open spec fn entries_sorted(s: Seq<OrderEntry>) -> bool {
    forall|i: int, j: int| 0 <= i < j < s.len() ==> key_le(#[trigger] s[i], #[trigger] s[j])
}

proof fn lemma_insert_sorted(s: Seq<OrderEntry>, w: OrderEntry)
    requires
        entries_sorted(s),
    ensures
        entries_sorted(insert_entry(s, w)),
        forall|i: int| 0 <= i < insert_entry(s, w).len() ==>
            (#[trigger] insert_entry(s, w)[i] == w || s.contains(insert_entry(s, w)[i])),
        insert_entry(s, w).len() == s.len() + 1,
    decreases s.len(),
{
    if s.len() == 0 {
    } else if key_le(s[0], w) {
        let t = s.drop_first();
        assert(entries_sorted(t)) by {
            assert forall|i: int, j: int| 0 <= i < j < t.len() implies key_le(#[trigger] t[i], #[trigger] t[j]) by {
                assert(t[i] == s[i + 1] && t[j] == s[j + 1]);
            }
        }
        lemma_insert_sorted(t, w);
        let r = insert_entry(s, w);
        let rt = insert_entry(t, w);
        assert(r == seq![s[0]] + rt);
        assert forall|i: int| 0 <= i < r.len() implies (#[trigger] r[i] == w || s.contains(r[i])) by {
            if i > 0 {
                assert(r[i] == rt[i - 1]);
                if rt[i - 1] != w {
                    let m = choose|m: int| 0 <= m < t.len() && t[m] == rt[i - 1];
                    assert(s[m + 1] == r[i]);
                }
            } else {
                assert(s[0] == r[0]);
            }
        }
        assert forall|i: int, j: int| 0 <= i < j < r.len() implies key_le(#[trigger] r[i], #[trigger] r[j]) by {
            if i == 0 {
                assert(r[j] == rt[j - 1]);
                if rt[j - 1] == w {
                } else {
                    let m = choose|m: int| 0 <= m < t.len() && t[m] == rt[j - 1];
                    assert(s[m + 1] == t[m]);
                    assert(key_le(s[0], s[m + 1]));
                }
            } else {
                assert(r[i] == rt[i - 1] && r[j] == rt[j - 1]);
            }
        }
    } else {
        let r = insert_entry(s, w);
        assert(r == seq![w] + s);
        lemma_key_le_total(s[0], w);
        assert forall|i: int, j: int| 0 <= i < j < r.len() implies key_le(#[trigger] r[i], #[trigger] r[j]) by {
            if i == 0 {
                assert(r[j] == s[j - 1]);
                if j - 1 > 0 {
                    lemma_key_le_trans(w, s[0], s[j - 1]);
                }
            } else {
                assert(r[i] == s[i - 1] && r[j] == s[j - 1]);
            }
        }
        assert forall|i: int| 0 <= i < r.len() implies (#[trigger] r[i] == w || s.contains(r[i])) by {
            if i > 0 {
                assert(r[i] == s[i - 1]);
            }
        }
    }
}

proof fn lemma_sorted_entries_sorted(ws: Seq<FocusInfo>, k: int)
    requires
        0 <= k <= ws.len(),
    ensures
        entries_sorted(sorted_entries(ws, k)),
    decreases k,
{
    if k > 0 {
        lemma_sorted_entries_sorted(ws, k - 1);
        if ws[k - 1].focusable {
            lemma_insert_sorted(sorted_entries(ws, k - 1), entry_of(ws[k - 1]));
        }
    }
}

/// The tab order runs by tab index first (widgets without one last), then
/// from top to bottom and left to right.
pub proof fn law_tab_order_sorted(ws: Seq<FocusInfo>)
    ensures
        entries_sorted(sorted_entries(ws, ws.len() as int)),
        tab_order(ws) == sorted_entries(ws, ws.len() as int).map_values(|e: OrderEntry| e.id),
{
    lemma_sorted_entries_sorted(ws, ws.len() as int);
}


pub open spec fn ids_distinct(s: Seq<WidgetId>) -> bool {
    forall|i: int, j: int| 0 <= i < j < s.len() ==> s[i] != s[j]
}

pub open spec fn entry_ids_distinct(s: Seq<OrderEntry>) -> bool {
    forall|i: int, j: int| 0 <= i < j < s.len() ==> s[i].id != s[j].id
}

/// Where [`insert_entry`] puts its entry.
spec fn insert_pos(s: Seq<OrderEntry>, w: OrderEntry, k: int) -> int
    decreases s.len() - k,
{
    if k < 0 || k >= s.len() {
        s.len() as int
    } else if key_le(s[k], w) {
        insert_pos(s, w, k + 1)
    } else {
        k
    }
}

proof fn lemma_insert_pos(s: Seq<OrderEntry>, w: OrderEntry, k: int)
    requires
        0 <= k <= s.len(),
        forall|j: int| 0 <= j < k ==> key_le(#[trigger] s[j], w),
    ensures
        k <= insert_pos(s, w, k) <= s.len(),
        forall|j: int| 0 <= j < insert_pos(s, w, k) ==> key_le(#[trigger] s[j], w),
        insert_pos(s, w, k) < s.len() ==> !key_le(s[insert_pos(s, w, k)], w),
    decreases s.len() - k,
{
    if k < s.len() && key_le(s[k], w) {
        lemma_insert_pos(s, w, k + 1);
    }
}

proof fn lemma_insert_distinct(s: Seq<OrderEntry>, w: OrderEntry)
    requires
        entry_ids_distinct(s),
        forall|i: int| 0 <= i < s.len() ==> (#[trigger] s[i]).id != w.id,
    ensures
        entry_ids_distinct(insert_entry(s, w)),
        forall|i: int| 0 <= i < insert_entry(s, w).len() ==> ((#[trigger] insert_entry(s, w)[i]).id == w.id
            || exists|j: int| 0 <= j < s.len() && s[j].id == insert_entry(s, w)[i].id),
{
    lemma_insert_pos(s, w, 0);
    let p = insert_pos(s, w, 0);
    lemma_insert_at(s, w, p);
    let r = insert_entry(s, w);
    assert forall|i: int| 0 <= i < r.len() implies (#[trigger] r[i] == w || (i < p && r[i] == s[i]) || (i > p && r[i] == s[i - 1])) by {
        if i < p {
            assert(r[i] == s[i]);
        } else if i == p {
            assert(r[i] == w);
        } else {
            assert(r[i] == s[i - 1]);
        }
    }
    assert forall|i: int, j: int| 0 <= i < j < r.len() implies r[i].id != r[j].id by {
        if i < p {
            assert(r[i] == s[i]);
        } else if i > p {
            assert(r[i] == s[i - 1]);
        }
        if j < p {
            assert(r[j] == s[j]);
        } else if j > p {
            assert(r[j] == s[j - 1]);
        }
    }
    assert forall|i: int| 0 <= i < r.len() implies ((#[trigger] r[i]).id == w.id
        || exists|j: int| 0 <= j < s.len() && s[j].id == r[i].id) by {
        if i < p {
            assert(s[i].id == r[i].id);
        } else if i > p {
            assert(s[i - 1].id == r[i].id);
        }
    }
}

proof fn lemma_sorted_distinct(ws: Seq<FocusInfo>, k: int)
    requires
        0 <= k <= ws.len(),
        forall|i: int, j: int| 0 <= i < j < ws.len() ==> ws[i].id != ws[j].id,
    ensures
        entry_ids_distinct(sorted_entries(ws, k)),
        forall|i: int| 0 <= i < sorted_entries(ws, k).len() ==>
            exists|j: int| 0 <= j < k && ws[j].id == (#[trigger] sorted_entries(ws, k)[i]).id,
    decreases k,
{
    if k > 0 {
        lemma_sorted_distinct(ws, k - 1);
        let s = sorted_entries(ws, k - 1);
        if ws[k - 1].focusable {
            assert forall|i: int| 0 <= i < s.len() implies (#[trigger] s[i]).id != entry_of(ws[k - 1]).id by {
                let j = choose|j: int| 0 <= j < k - 1 && ws[j].id == s[i].id;
            }
            lemma_insert_distinct(s, entry_of(ws[k - 1]));
            let r = sorted_entries(ws, k);
            assert forall|i: int| 0 <= i < r.len() implies
                exists|j: int| 0 <= j < k && ws[j].id == (#[trigger] r[i]).id by {
                if r[i].id == ws[k - 1].id {
                } else {
                    let m = choose|m: int| 0 <= m < s.len() && s[m].id == r[i].id;
                    let j = choose|j: int| 0 <= j < k - 1 && ws[j].id == (#[trigger] s[m]).id;
                    assert(ws[j].id == r[i].id);
                }
            }
        }
    }
}

proof fn lemma_kept_in_distinct(s: Seq<WidgetId>, members: Seq<WidgetId>, k: int)
    requires
        0 <= k <= s.len(),
        ids_distinct(s),
    ensures
        ids_distinct(kept_in(s, members, k)),
        forall|i: int| 0 <= i < kept_in(s, members, k).len() ==>
            exists|j: int| 0 <= j < k && s[j] == #[trigger] kept_in(s, members, k)[i],
    decreases k,
{
    if k > 0 {
        lemma_kept_in_distinct(s, members, k - 1);
        let prev = kept_in(s, members, k - 1);
        if members.contains(s[k - 1]) {
            let r = prev.push(s[k - 1]);
            assert forall|i: int| 0 <= i < r.len() implies exists|j: int| 0 <= j < k && s[j] == #[trigger] r[i] by {
                if i < prev.len() {
                    assert(r[i] == prev[i]);
                } else {
                    assert(r[i] == s[k - 1]);
                }
            }
            assert forall|i: int, j: int| 0 <= i < j < r.len() implies r[i] != r[j] by {
                if j == prev.len() {
                    assert(r[i] == prev[i]);
                    let m = choose|m: int| 0 <= m < k - 1 && s[m] == #[trigger] prev[i];
                } else {
                    assert(r[i] == prev[i] && r[j] == prev[j]);
                }
            }
        }
    }
}

proof fn lemma_position_of_distinct(s: Seq<WidgetId>, i: int, k: int)
    requires
        ids_distinct(s),
        0 <= k <= i < s.len(),
    ensures
        position(s, s[i], k) == i,
    decreases i - k,
{
    if k < i {
        lemma_position_of_distinct(s, i, k + 1);
    }
}

/// The tab order of widgets registered once lists each of them once.
proof fn lemma_tab_order_distinct(ws: Seq<FocusInfo>)
    requires
        forall|i: int, j: int| 0 <= i < j < ws.len() ==> ws[i].id != ws[j].id,
    ensures
        ids_distinct(tab_order(ws)),
{
    lemma_sorted_distinct(ws, ws.len() as int);
    let es = sorted_entries(ws, ws.len() as int);
    let o = tab_order(ws);
    assert forall|i: int, j: int| 0 <= i < j < o.len() implies o[i] != o[j] by {
        assert(o[i] == es[i].id && o[j] == es[j].id);
    }
}

/// Tab followed by Shift+Tab gives the focus back to the widget that had
/// it, whenever that widget is one of the candidates.
pub proof fn law_tab_round_trip(v: NavView, id: WidgetId)
    requires
        nav_wf(v),
        v.current == Some(id),
        position(candidates(v), id, 0) >= 0,
    ensures
        tab_target(v, true) is Some,
        tab_target(moved(v, tab_target(v, true)), false) == Some(id),
{
    let c = candidates(v);
    let members_case = match v.trap {
        Some(t) => find_group(v.groups, t, 0) >= 0,
        None => false,
    };
    if members_case {
        let j = find_group(v.groups, v.trap->0, 0);
        lemma_kept_in_distinct(v.order, v.groups[j].members, v.order.len() as int);
    }
    assert(ids_distinct(c));
    lemma_position_range(c, id, 0);
    let p = position(c, id, 0);
    // the focused widget is in the tab order
    if members_case {
        let j = find_group(v.groups, v.trap->0, 0);
        let m = choose|m: int| 0 <= m < v.order.len() && v.order[m] == #[trigger] kept_in(v.order, v.groups[j].members, v.order.len() as int)[p];
        lemma_position_of_distinct(v.order, m, 0);
    } else {
        lemma_position_of_distinct(v.order, p, 0);
    }
    let n = c.len() as int;
    let f = if p + 1 == n { 0 } else { p + 1 };
    let t = c[f];
    assert(tab_target(v, true) == Some(t));
    let v1 = moved(v, Some(t));
    assert(candidates(v1) == c);
    // the new focus is in the tab order
    if members_case {
        let j = find_group(v.groups, v.trap->0, 0);
        let m = choose|m: int| 0 <= m < v.order.len() && v.order[m] == #[trigger] kept_in(v.order, v.groups[j].members, v.order.len() as int)[f];
        lemma_position_of_distinct(v.order, m, 0);
    } else {
        lemma_position_of_distinct(v.order, f, 0);
    }
    lemma_position_of_distinct(c, f, 0);
    assert(position(c, t, 0) == f);
}

} // verus!
