//! A stack of collapsible panels: which panels are open, which header the
//! pointer or the keyboard is on, and where the headers lie.
//!
//! How far an opening panel has slid out is animated by its owner, which
//! also holds the panels' contents; the accordion is told the visible
//! height of each content area.

use vstd::prelude::*;
use crate::geometry::{Point, Rect, Size, WidgetId, fits_i32};
use crate::event::{Event, EventResult, Key, MouseButton};
use crate::widget::WidgetState;

verus! {

broadcast use vstd::string::group_string_axioms;

/// A panel: its title, whether it is open and whether it can be toggled,
/// and an optional icon name.
pub struct AccordionPanel {
    pub id: WidgetId,
    pub title: String,
    pub expanded: bool,
    pub enabled: bool,
    pub icon: Option<String>,
}

impl AccordionPanel {
    /// A closed, enabled panel without icon.
    pub fn new(title: &str) -> (p: AccordionPanel)
        ensures
            p.id == WidgetId(0),
            p.title@ == title@,
            !p.expanded,
            p.enabled,
            p.icon is None,
    {
        AccordionPanel { id: WidgetId(0), title: String::from_str(title), expanded: false, enabled: true, icon: None }
    }

    pub fn with_expanded(self, expanded: bool) -> (p: AccordionPanel)
        ensures
            p == (AccordionPanel { expanded, ..self }),
    {
        AccordionPanel { expanded, ..self }
    }

    pub fn with_icon(self, icon: &str) -> (p: AccordionPanel)
        ensures
            p.icon matches Some(i) && i@ == icon@,
            p.id == self.id && p.title == self.title && p.expanded == self.expanded && p.enabled == self.enabled,
    {
        AccordionPanel { icon: Some(String::from_str(icon)), ..self }
    }

    pub fn with_enabled(self, enabled: bool) -> (p: AccordionPanel)
        ensures
            p == (AccordionPanel { enabled, ..self }),
    {
        AccordionPanel { enabled, ..self }
    }
}

pub open spec fn with_open(p: AccordionPanel, expanded: bool) -> AccordionPanel {
    AccordionPanel { expanded, ..p }
}

/// The panels after toggling panel `i`: nothing happens for a missing or
/// disabled panel; opening a panel when only one may be open closes the
/// others.
pub open spec fn toggled(ps: Seq<AccordionPanel>, i: int, allow_multiple: bool) -> Seq<AccordionPanel> {
    if i < 0 || i >= ps.len() || !ps[i].enabled {
        ps
    } else {
        let open = !ps[i].expanded;
        let base = if !allow_multiple && open {
            Seq::new(ps.len(), |k: int| if k != i && ps[k].expanded { with_open(ps[k], false) } else { ps[k] })
        } else {
            ps
        };
        base.update(i, with_open(ps[i], open))
    }
}

/// How many panels are open.
pub open spec fn open_count(ps: Seq<AccordionPanel>) -> int
    decreases ps.len(),
{
    if ps.len() == 0 {
        0
    } else {
        open_count(ps.drop_last()) + if ps.last().expanded { 1int } else { 0int }
    }
}

/// Index of panel `step` places after (or before) `start` among `n`.
pub open spec fn step_index(start: int, n: int, step: int, forward: bool) -> int {
    if forward { (start + step) % n } else { (start + n - step) % n }
}

/// The first enabled panel other than `start` reached by stepping from
/// `step` to `n` places away from `start`.
pub open spec fn first_enabled_step(ps: Seq<AccordionPanel>, start: int, forward: bool, step: int) -> Option<int>
    decreases ps.len() + 1 - step,
{
    if step < 1 || step > ps.len() {
        None
    } else {
        let i = step_index(start, ps.len() as int, step, forward);
        if ps[i].enabled && i != start {
            Some(i)
        } else {
            first_enabled_step(ps, start, forward, step + 1)
        }
    }
}

/// The enabled panel nearest after (or before) `start`, going round and
/// leaving `start` itself out: `None` where no other panel is enabled.
pub open spec fn next_enabled(ps: Seq<AccordionPanel>, start: int, forward: bool) -> Option<int> {
    if ps.len() == 0 {
        None
    } else {
        first_enabled_step(ps, start, forward, 1)
    }
}

/// The first enabled panel from index `i` on.
pub open spec fn first_enabled_from(ps: Seq<AccordionPanel>, i: int) -> Option<int>
    decreases ps.len() - i,
{
    if i < 0 || i >= ps.len() {
        None
    } else if ps[i].enabled {
        Some(i)
    } else {
        first_enabled_from(ps, i + 1)
    }
}

/// Top of header `i` when the first header starts at `y0`: each panel
/// takes its header, the visible part of its content and, but for the
/// last, the spacing.
pub open spec fn header_top(y0: int, hh: int, sp: int, vis: Seq<i32>, n: int, i: int) -> int
    decreases i,
{
    if i <= 0 {
        y0
    } else {
        header_top(y0, hh, sp, vis, n, i - 1) + hh + vis[i - 1] + (if i - 1 < n - 1 { sp } else { 0 })
    }
}

/// The header of panel `i` in `bounds`.
pub open spec fn header_rect(bounds: Rect, hh: i32, sp: i32, vis: Seq<i32>, n: int, i: int) -> Rect {
    Rect { x: bounds.x, y: header_top(bounds.y as int, hh as int, sp as int, vis, n, i) as i32, width: bounds.width, height: hh }
}

/// Every header top from `y0`, and every partial sum toward the next, is
/// an `i32`.
pub open spec fn tops_fit(y0: int, hh: i32, sp: i32, vis: Seq<i32>, n: int) -> bool {
    forall|i: int|
        0 <= i < n ==> {
            let t = #[trigger] header_top(y0, hh as int, sp as int, vis, n, i);
            &&& fits_i32(t)
            &&& fits_i32(t + hh)
            &&& fits_i32(t + hh + vis[i])
            &&& fits_i32(header_top(y0, hh as int, sp as int, vis, n, i + 1))
        }
}

/// The first header from `i` on containing `p`, among enabled panels only
/// when `enabled_only`.
pub open spec fn header_hit(
    ps: Seq<AccordionPanel>,
    bounds: Rect,
    hh: i32,
    sp: i32,
    vis: Seq<i32>,
    p: Point,
    enabled_only: bool,
    i: int,
) -> Option<int>
    decreases ps.len() - i,
{
    if i < 0 || i >= ps.len() {
        None
    } else if header_rect(bounds, hh, sp, vis, ps.len() as int, i).contains_spec(p) && (!enabled_only || ps[i].enabled) {
        Some(i)
    } else {
        header_hit(ps, bounds, hh, sp, vis, p, enabled_only, i + 1)
    }
}

/// Whether only one panel may be open and at most one is.
pub open spec fn exclusive_ok(ps: Seq<AccordionPanel>, allow_multiple: bool) -> bool {
    !allow_multiple ==> open_count(ps) <= 1
}

proof fn lemma_open_count_update(ps: Seq<AccordionPanel>, i: int, q: AccordionPanel)
    requires
        0 <= i < ps.len(),
    ensures
        open_count(ps.update(i, q)) == open_count(ps) - (if ps[i].expanded { 1int } else { 0int }) + (if q.expanded { 1int } else { 0int }),
    decreases ps.len(),
{
    let u = ps.update(i, q);
    if i == ps.len() - 1 {
        assert(u.drop_last() =~= ps.drop_last());
    } else {
        lemma_open_count_update(ps.drop_last(), i, q);
        assert(u.drop_last() =~= ps.drop_last().update(i, q));
    }
}

proof fn lemma_open_count_none(ps: Seq<AccordionPanel>)
    requires
        forall|k: int| 0 <= k < ps.len() ==> !(#[trigger] ps[k]).expanded,
    ensures
        open_count(ps) == 0,
    decreases ps.len(),
{
    if ps.len() > 0 {
        lemma_open_count_none(ps.drop_last());
    }
}

proof fn lemma_open_count_nonneg(ps: Seq<AccordionPanel>)
    ensures
        open_count(ps) >= 0,
    decreases ps.len(),
{
    if ps.len() > 0 {
        lemma_open_count_nonneg(ps.drop_last());
    }
}

/// When only one panel may be open, toggling keeps at most one open.
pub proof fn law_exclusive_stays_exclusive(ps: Seq<AccordionPanel>, i: int)
    requires
        open_count(ps) <= 1,
    ensures
        open_count(toggled(ps, i, false)) <= 1,
{
    if 0 <= i < ps.len() && ps[i].enabled {
        let open = !ps[i].expanded;
        if open {
            let base = Seq::new(ps.len(), |k: int| if k != i && ps[k].expanded { with_open(ps[k], false) } else { ps[k] });
            assert forall|k: int| 0 <= k < base.len() implies !(#[trigger] base[k]).expanded by {}
            lemma_open_count_none(base);
            lemma_open_count_update(base, i, with_open(ps[i], true));
            assert(toggled(ps, i, false) =~= base.update(i, with_open(ps[i], true)));
        } else {
            lemma_open_count_update(ps, i, with_open(ps[i], false));
            lemma_open_count_nonneg(ps);
        }
    }
}

/// When several panels may be open, toggling a panel twice leaves every
/// panel as it was.
pub proof fn law_toggle_twice_restores(ps: Seq<AccordionPanel>, i: int)
    ensures
        toggled(toggled(ps, i, true), i, true) == ps,
{
    if 0 <= i < ps.len() && ps[i].enabled {
        assert(toggled(toggled(ps, i, true), i, true) =~= ps);
    }
}

proof fn lemma_first_enabled_step(ps: Seq<AccordionPanel>, start: int, forward: bool, step: int)
    requires
        ps.len() >= 1,
        start >= 0,
    ensures
        first_enabled_step(ps, start, forward, step) matches Some(k) ==> 0 <= k < ps.len() && ps[k].enabled && k != start,
    decreases ps.len() + 1 - step,
{
    if 1 <= step <= ps.len() {
        lemma_first_enabled_step(ps, start, forward, step + 1);
    }
}

/// How many places `j` lies after `start` (or before it, going
/// backward) round `n` panels: 0 for `start` itself, else 1 to `n - 1`.
pub open spec fn places_away(start: int, j: int, n: int, forward: bool) -> int {
    if forward { (j - start + n) % n } else { (start - j + n) % n }
}

/// `x % n` for `0 <= x < 2n`.
proof fn lemma_mod_once(x: int, n: int)
    requires
        n > 0,
        0 <= x < 2 * n,
    ensures
        x % n == if x < n { x } else { x - n },
{
    if x < n {
        vstd::arithmetic::div_mod::lemma_small_mod(x as nat, n as nat);
    } else {
        vstd::arithmetic::div_mod::lemma_mod_add_multiples_vanish(x - n, n);
        vstd::arithmetic::div_mod::lemma_small_mod((x - n) as nat, n as nat);
    }
}

/// Stepping `s` places from `start` reaches the panel `s` places away;
/// `n` places comes back to `start`.
proof fn lemma_step_places(start: int, n: int, s: int, forward: bool)
    requires
        0 <= start < n,
        1 <= s <= n,
    ensures
        0 <= step_index(start, n, s, forward) < n,
        s < n ==> places_away(start, step_index(start, n, s, forward), n, forward) == s,
        s == n ==> step_index(start, n, s, forward) == start,
{
    let i = step_index(start, n, s, forward);
    if forward {
        lemma_mod_once(start + s, n);
        lemma_mod_once(i - start + n, n);
    } else {
        lemma_mod_once(start + n - s, n);
        lemma_mod_once(start - i + n, n);
    }
}

/// Every other panel lies between 1 and `n - 1` places away, and stepping
/// that many places reaches it.
proof fn lemma_places_step(start: int, n: int, j: int, forward: bool)
    requires
        0 <= start < n,
        0 <= j < n,
        j != start,
    ensures
        1 <= places_away(start, j, n, forward) < n,
        step_index(start, n, places_away(start, j, n, forward), forward) == j,
{
    let d = places_away(start, j, n, forward);
    if forward {
        lemma_mod_once(j - start + n, n);
        lemma_mod_once(start + d, n);
    } else {
        lemma_mod_once(start - j + n, n);
        lemma_mod_once(start + n - d, n);
    }
}

proof fn lemma_first_enabled_nearest(ps: Seq<AccordionPanel>, start: int, forward: bool, s: int)
    requires
        0 <= start < ps.len(),
        1 <= s <= ps.len(),
    ensures
        ({
            let n = ps.len() as int;
            match first_enabled_step(ps, start, forward, s) {
                Some(k) => {
                    &&& 0 <= k < n && k != start && ps[k].enabled
                    &&& s <= places_away(start, k, n, forward) < n
                    &&& forall|t: int| s <= t < places_away(start, k, n, forward)
                        ==> !ps[#[trigger] step_index(start, n, t, forward)].enabled
                },
                None => forall|t: int| s <= t < n ==> !ps[#[trigger] step_index(start, n, t, forward)].enabled,
            }
        }),
    decreases ps.len() + 1 - s,
{
    let n = ps.len() as int;
    lemma_step_places(start, n, s, forward);
    let i = step_index(start, n, s, forward);
    if s < n {
        lemma_mod_once(n, n);
        assert(i != start);
        lemma_first_enabled_nearest(ps, start, forward, s + 1);
        if !ps[i].enabled {
            assert(first_enabled_step(ps, start, forward, s) == first_enabled_step(ps, start, forward, s + 1));
            match first_enabled_step(ps, start, forward, s + 1) {
                Some(k) => {
                    assert forall|t: int| s <= t < places_away(start, k, n, forward)
                        implies !ps[#[trigger] step_index(start, n, t, forward)].enabled by {
                        if t == s {
                            assert(step_index(start, n, t, forward) == i);
                        }
                    }
                },
                None => {
                    assert forall|t: int| s <= t < n implies !ps[#[trigger] step_index(start, n, t, forward)].enabled by {
                        if t == s {
                            assert(step_index(start, n, t, forward) == i);
                        }
                    }
                },
            }
        }
    } else {
        assert(first_enabled_step(ps, start, forward, s + 1) is None);
    }
}

/// Keyboard navigation lands on the nearest enabled panel after (Down) or
/// before (Up) the one it starts from, going round: every panel between
/// them that way is disabled, so the next panel that way is taken when it
/// is enabled; with no other enabled panel there is no move.
pub proof fn law_navigation_takes_nearest(ps: Seq<AccordionPanel>, start: int, forward: bool)
    requires
        0 <= start < ps.len(),
    ensures
        next_enabled(ps, start, forward) matches Some(k) ==> {
            &&& 0 <= k < ps.len() && k != start && ps[k].enabled
            &&& forall|j: int| 0 <= j < ps.len() && j != start
                && places_away(start, j, ps.len() as int, forward) < places_away(start, k, ps.len() as int, forward)
                ==> !(#[trigger] ps[j]).enabled
        },
        next_enabled(ps, start, forward) is None ==> forall|j: int| 0 <= j < ps.len() && j != start ==> !(#[trigger] ps[j]).enabled,
        ({
            let after = if start + 1 == ps.len() { 0 } else { start + 1 };
            ps.len() >= 2 && forward && ps[after].enabled ==> next_enabled(ps, start, forward) == Some(after)
        }),
        ({
            let before = if start == 0 { ps.len() - 1 } else { start - 1 };
            ps.len() >= 2 && !forward && ps[before].enabled ==> next_enabled(ps, start, forward) == Some(before)
        }),
{
    let n = ps.len() as int;
    lemma_first_enabled_nearest(ps, start, forward, 1);
    assert forall|j: int| 0 <= j < n && j != start implies
        (next_enabled(ps, start, forward) is None ==> !(#[trigger] ps[j]).enabled)
        && (next_enabled(ps, start, forward) matches Some(k)
            ==> (places_away(start, j, n, forward) < places_away(start, k, n, forward) ==> !ps[j].enabled)) by {
        lemma_places_step(start, n, j, forward);
        let t = places_away(start, j, n, forward);
        assert(step_index(start, n, t, forward) == j);
    }
    if n >= 2 {
        let after = if start + 1 == n { 0 } else { start + 1 };
        let before = if start == 0 { n - 1 } else { start - 1 };
        lemma_places_step(start, n, after, true);
        lemma_places_step(start, n, before, false);
        lemma_mod_once(after - start + n, n);
        lemma_mod_once(start - before + n, n);
        if forward && ps[after].enabled {
            let k = next_enabled(ps, start, forward)->0;
            lemma_places_step(start, n, k, true);
        }
        if !forward && ps[before].enabled {
            let k = next_enabled(ps, start, forward)->0;
            lemma_places_step(start, n, k, false);
        }
    }
}

/// With no enabled panel but the one it starts from, keyboard navigation
/// has nowhere to go.
pub proof fn law_navigation_needs_another_enabled(ps: Seq<AccordionPanel>, start: int, forward: bool)
    requires
        start >= 0,
        forall|i: int| 0 <= i < ps.len() && i != start ==> !(#[trigger] ps[i]).enabled,
    ensures
        next_enabled(ps, start, forward) is None,
{
    if ps.len() >= 1 {
        lemma_first_enabled_step(ps, start, forward, 1);
    }
}

/// Keyboard navigation only ever lands on an enabled panel other than the
/// one it starts from.
pub proof fn law_navigation_lands_on_enabled(ps: Seq<AccordionPanel>, start: int, forward: bool)
    requires
        start >= 0,
    ensures
        next_enabled(ps, start, forward) matches Some(k) ==> 0 <= k < ps.len() && ps[k].enabled && k != start,
{
    if ps.len() >= 1 {
        lemma_first_enabled_step(ps, start, forward, 1);
    }
}

proof fn lemma_first_enabled_from(ps: Seq<AccordionPanel>, i: int)
    ensures
        first_enabled_from(ps, i) matches Some(k) ==> i <= k < ps.len() && ps[k].enabled,
    decreases ps.len() - i,
{
    if 0 <= i < ps.len() {
        lemma_first_enabled_from(ps, i + 1);
    }
}

/// The mathematical state of an [`Accordion`].
pub struct AccordionView {
    pub state: WidgetState,
    pub panels: Seq<AccordionPanel>,
    pub header_height: i32,
    pub spacing: i32,
    pub allow_multiple: bool,
    pub animate: bool,
    pub hovered: Option<usize>,
    pub pressed: Option<usize>,
    pub focused: Option<usize>,
}

/// A panel that was toggled, and whether it is now open.
#[derive(Clone, Copy, Debug, PartialEq, Eq, Structural)]
pub struct PanelToggle {
    pub index: usize,
    pub expanded: bool,
}

/// What the accordion does with an event: it handled it, reporting a
/// panel that was toggled and whether it is now open; or the event is for
/// the contents of the open panels.
#[derive(Clone, Copy, Debug, PartialEq, Eq, Structural)]
pub enum AccordionOutcome {
    Done(EventResult, Option<PanelToggle>),
    ToContent,
}

/// A column of panels with clickable headers.
pub struct Accordion {
    state: WidgetState,
    panels: Vec<AccordionPanel>,
    header_height: i32,
    spacing: i32,
    allow_multiple: bool,
    animate_expansion: bool,
    hovered_panel: Option<usize>,
    pressed_panel: Option<usize>,
    focused_panel: Option<usize>,
}

fn set_open(v: &mut Vec<AccordionPanel>, k: usize, open: bool)
    requires
        k < old(v)@.len(),
    ensures
        final(v)@ == old(v)@.update(k as int, with_open(old(v)@[k as int], open)),
{
    let mut p = v.remove(k);
    p.expanded = open;
    v.insert(k, p);
    assert(v@ =~= old(v)@.update(k as int, with_open(old(v)@[k as int], open)));
}

/// The result a toggle of panel `i` reports, if it happens.
pub open spec fn toggle_report(ps: Seq<AccordionPanel>, i: int) -> Option<PanelToggle> {
    if 0 <= i < ps.len() && ps[i].enabled { Some(PanelToggle { index: i as usize, expanded: !ps[i].expanded }) } else { None }
}

impl Accordion {
    pub closed spec fn view(&self) -> AccordionView {
        AccordionView {
            state: self.state,
            panels: self.panels@,
            header_height: self.header_height,
            spacing: self.spacing,
            allow_multiple: self.allow_multiple,
            animate: self.animate_expansion,
            hovered: self.hovered_panel,
            pressed: self.pressed_panel,
            focused: self.focused_panel,
        }
    }

    /// An empty accordion: 40-pixel headers 1 pixel apart, several panels
    /// may be open, opening is animated.
    pub fn new(id: WidgetId) -> (a: Accordion)
        ensures
            a.view() == (AccordionView {
                state: WidgetState::new_spec(id),
                panels: Seq::empty(),
                header_height: 40,
                spacing: 1,
                allow_multiple: true,
                animate: true,
                hovered: None,
                pressed: None,
                focused: None,
            }),
    {
        let a = Accordion {
            state: WidgetState::new(id),
            panels: Vec::new(),
            header_height: 40,
            spacing: 1,
            allow_multiple: true,
            animate_expansion: true,
            hovered_panel: None,
            pressed_panel: None,
            focused_panel: None,
        };
        assert(a.view().panels =~= Seq::<AccordionPanel>::empty());
        a
    }

    pub fn with_panels(self, panels: Vec<AccordionPanel>) -> (a: Accordion)
        ensures
            a.view() == (AccordionView { panels: panels@, ..self.view() }),
    {
        Accordion { panels, ..self }
    }

    pub fn with_allow_multiple(self, allow: bool) -> (a: Accordion)
        ensures
            a.view() == (AccordionView { allow_multiple: allow, ..self.view() }),
    {
        Accordion { allow_multiple: allow, ..self }
    }

    pub fn with_header_height(self, height: i32) -> (a: Accordion)
        ensures
            a.view() == (AccordionView { header_height: height, ..self.view() }),
    {
        Accordion { header_height: height, ..self }
    }

    pub fn with_animation(self, enabled: bool) -> (a: Accordion)
        ensures
            a.view() == (AccordionView { animate: enabled, ..self.view() }),
    {
        Accordion { animate_expansion: enabled, ..self }
    }

    pub fn add_panel(&mut self, panel: AccordionPanel)
        ensures
            final(self).view() == (AccordionView { panels: old(self).view().panels.push(panel), ..old(self).view() }),
    {
        self.panels.push(panel);
    }

    /// Removes and returns panel `index`, if there is one.
    pub fn remove_panel(&mut self, index: usize) -> (r: Option<AccordionPanel>)
        ensures
            index < old(self).view().panels.len() ==> r == Some(old(self).view().panels[index as int])
                && final(self).view() == (AccordionView {
                    panels: old(self).view().panels.remove(index as int),
                    ..old(self).view()
                }),
            index >= old(self).view().panels.len() ==> r is None && final(self).view() == old(self).view(),
    {
        if index < self.panels.len() {
            Some(self.panels.remove(index))
        } else {
            None
        }
    }

    /// Opens panel `index` if closed, closes it if open (only one panel
    /// open at a time unless several are allowed); a missing or disabled
    /// panel is left alone. Reports the panel and its new state.
    pub fn toggle_panel(&mut self, index: usize) -> (r: Option<PanelToggle>)
        ensures
            final(self).view() == (AccordionView {
                panels: toggled(old(self).view().panels, index as int, old(self).view().allow_multiple),
                ..old(self).view()
            }),
            r == toggle_report(old(self).view().panels, index as int),
    {
        if index >= self.panels.len() || !self.panels[index].enabled {
            return None;
        }
        let ghost ps = self.panels@;
        let open = !self.panels[index].expanded;
        if !self.allow_multiple && open {
            let mut k: usize = 0;
            while k < self.panels.len()
                invariant
                    k <= self.panels@.len(),
                    self.panels@.len() == ps.len(),
                    index < ps.len(),
                    forall|j: int|
                        0 <= j < k ==> self.panels@[j] == (if j != index && ps[j].expanded { with_open(ps[j], false) } else { ps[j] }),
                    forall|j: int| k <= j < ps.len() ==> self.panels@[j] == ps[j],
                    self.state == old(self).state,
                    self.header_height == old(self).header_height,
                    self.spacing == old(self).spacing,
                    self.allow_multiple == old(self).allow_multiple,
                    self.animate_expansion == old(self).animate_expansion,
                    self.hovered_panel == old(self).hovered_panel,
                    self.pressed_panel == old(self).pressed_panel,
                    self.focused_panel == old(self).focused_panel,
                decreases ps.len() - k,
            {
                if k != index && self.panels[k].expanded {
                    set_open(&mut self.panels, k, false);
                }
                k = k + 1;
            }
        }
        set_open(&mut self.panels, index, open);
        assert(self.panels@ =~= toggled(ps, index as int, self.allow_multiple));
        Some(PanelToggle { index, expanded: open })
    }

    /// Opens panel `index` if it is enabled and closed.
    pub fn expand_panel(&mut self, index: usize) -> (r: Option<PanelToggle>)
        ensures
            (index < old(self).view().panels.len() && old(self).view().panels[index as int].enabled
                && !old(self).view().panels[index as int].expanded) ==> final(self).view() == (AccordionView {
                panels: toggled(old(self).view().panels, index as int, old(self).view().allow_multiple),
                ..old(self).view()
            }) && r == Some(PanelToggle { index, expanded: true }),
            !(index < old(self).view().panels.len() && old(self).view().panels[index as int].enabled
                && !old(self).view().panels[index as int].expanded) ==> final(self).view() == old(self).view() && r is None,
    {
        if index < self.panels.len() && self.panels[index].enabled && !self.panels[index].expanded {
            self.toggle_panel(index)
        } else {
            None
        }
    }

    /// Closes panel `index` if it is open (and enabled: a disabled panel
    /// cannot be toggled).
    pub fn collapse_panel(&mut self, index: usize) -> (r: Option<PanelToggle>)
        ensures
            (index < old(self).view().panels.len() && old(self).view().panels[index as int].expanded) ==> final(self).view()
                == (AccordionView {
                panels: toggled(old(self).view().panels, index as int, old(self).view().allow_multiple),
                ..old(self).view()
            }) && r == toggle_report(old(self).view().panels, index as int),
            !(index < old(self).view().panels.len() && old(self).view().panels[index as int].expanded) ==> final(self).view()
                == old(self).view() && r is None,
    {
        if index < self.panels.len() && self.panels[index].expanded {
            self.toggle_panel(index)
        } else {
            None
        }
    }

    /// Opens every enabled panel, when several may be open.
    pub fn expand_all(&mut self)
        ensures
            old(self).view().allow_multiple ==> final(self).view() == (AccordionView {
                panels: Seq::new(
                    old(self).view().panels.len(),
                    |k: int| if old(self).view().panels[k].enabled { with_open(old(self).view().panels[k], true) } else { old(self).view().panels[k] },
                ),
                ..old(self).view()
            }),
            !old(self).view().allow_multiple ==> final(self).view() == old(self).view(),
    {
        if self.allow_multiple {
            let ghost ps = self.panels@;
            let mut k: usize = 0;
            while k < self.panels.len()
                invariant
                    k <= self.panels@.len(),
                    self.panels@.len() == ps.len(),
                    forall|j: int| 0 <= j < k ==> self.panels@[j] == (if ps[j].enabled { with_open(ps[j], true) } else { ps[j] }),
                    forall|j: int| k <= j < ps.len() ==> self.panels@[j] == ps[j],
                    self.state == old(self).state,
                    self.header_height == old(self).header_height,
                    self.spacing == old(self).spacing,
                    self.allow_multiple == old(self).allow_multiple,
                    self.animate_expansion == old(self).animate_expansion,
                    self.hovered_panel == old(self).hovered_panel,
                    self.pressed_panel == old(self).pressed_panel,
                    self.focused_panel == old(self).focused_panel,
                decreases ps.len() - k,
            {
                if self.panels[k].enabled {
                    set_open(&mut self.panels, k, true);
                }
                k = k + 1;
            }
            assert(self.panels@ =~= Seq::new(ps.len(), |j: int| if ps[j].enabled { with_open(ps[j], true) } else { ps[j] }));
        }
    }

    /// Closes every panel.
    pub fn collapse_all(&mut self)
        ensures
            final(self).view() == (AccordionView {
                panels: Seq::new(old(self).view().panels.len(), |k: int| with_open(old(self).view().panels[k], false)),
                ..old(self).view()
            }),
            open_count(final(self).view().panels) == 0,
    {
        let ghost ps = self.panels@;
        let mut k: usize = 0;
        while k < self.panels.len()
            invariant
                k <= self.panels@.len(),
                self.panels@.len() == ps.len(),
                forall|j: int| 0 <= j < k ==> self.panels@[j] == with_open(ps[j], false),
                forall|j: int| k <= j < ps.len() ==> self.panels@[j] == ps[j],
                self.state == old(self).state,
                self.header_height == old(self).header_height,
                self.spacing == old(self).spacing,
                self.allow_multiple == old(self).allow_multiple,
                self.animate_expansion == old(self).animate_expansion,
                self.hovered_panel == old(self).hovered_panel,
                self.pressed_panel == old(self).pressed_panel,
                self.focused_panel == old(self).focused_panel,
            decreases ps.len() - k,
        {
            set_open(&mut self.panels, k, false);
            k = k + 1;
        }
        assert(self.panels@ =~= Seq::new(ps.len(), |j: int| with_open(ps[j], false)));
        proof {
            lemma_open_count_none(self.panels@);
        }
    }

    /// The panel the keyboard is on, if any.
    pub fn focused_panel(&self) -> (r: Option<usize>)
        ensures
            r == self.view().focused,
    {
        self.focused_panel
    }

    fn next_enabled_panel(&self, start: usize, forward: bool) -> (r: Option<usize>)
        requires
            start + self.view().panels.len() <= usize::MAX,
        ensures
            match r {
                Some(k) => next_enabled(self.view().panels, start as int, forward) == Some(k as int),
                None => next_enabled(self.view().panels, start as int, forward) is None,
            },
    {
        let n = self.panels.len();
        if n == 0 {
            return None;
        }
        let mut done: usize = 0;
        while done < n
            invariant
                n == self.panels@.len(),
                n >= 1,
                start + n <= usize::MAX,
                done <= n,
                first_enabled_step(self.panels@, start as int, forward, 1) == first_enabled_step(
                    self.panels@,
                    start as int,
                    forward,
                    done + 1,
                ),
            decreases n - done,
        {
            let step = done + 1;
            let i = if forward {
                (start + step) % n
            } else {
                (start + n - step) % n
            };
            if self.panels[i].enabled && i != start {
                return Some(i);
            }
            done = step;
        }
        None
    }

    fn first_enabled_panel(&self) -> (r: Option<usize>)
        ensures
            match r {
                Some(k) => first_enabled_from(self.view().panels, 0) == Some(k as int),
                None => first_enabled_from(self.view().panels, 0) is None,
            },
    {
        let mut i: usize = 0;
        while i < self.panels.len()
            invariant
                i <= self.panels@.len(),
                first_enabled_from(self.panels@, 0) == first_enabled_from(self.panels@, i as int),
            decreases self.panels@.len() - i,
        {
            if self.panels[i].enabled {
                return Some(i);
            }
            i = i + 1;
        }
        None
    }
}

/// A left press or release at a point of the accordion: a press on an
/// enabled panel's header marks it pressed, a release on the pressed
/// header toggles it; a release elsewhere forgets the press.
pub open spec fn button_event(v: AccordionView, p: Point, pressed: bool, vis: Seq<i32>) -> (AccordionView, AccordionOutcome) {
    if !v.state.bounds.contains_spec(p) {
        (v, AccordionOutcome::Done(EventResult::Ignored, None))
    } else {
        match header_hit(v.panels, v.state.bounds, v.header_height, v.spacing, vis, p, true, 0) {
            Some(i) => if pressed {
                (AccordionView { pressed: Some(i as usize), ..v }, AccordionOutcome::Done(EventResult::Consumed, None))
            } else if v.pressed == Some(i as usize) {
                (
                    AccordionView { panels: toggled(v.panels, i, v.allow_multiple), pressed: None, ..v },
                    AccordionOutcome::Done(EventResult::Consumed, toggle_report(v.panels, i)),
                )
            } else {
                (v, AccordionOutcome::Done(EventResult::Consumed, None))
            },
            None => (
                if !pressed { AccordionView { pressed: None, ..v } } else { v },
                AccordionOutcome::Done(EventResult::Ignored, None),
            ),
        }
    }
}

/// A pointer move marks the header under it.
pub open spec fn move_event(v: AccordionView, p: Point, vis: Seq<i32>) -> (AccordionView, AccordionOutcome) {
    if !v.state.bounds.contains_spec(p) {
        (AccordionView { hovered: None, ..v }, AccordionOutcome::Done(EventResult::Ignored, None))
    } else {
        let hit = header_hit(v.panels, v.state.bounds, v.header_height, v.spacing, vis, p, false, 0);
        (
            AccordionView { hovered: match hit { Some(i) => Some(i as usize), None => None }, ..v },
            AccordionOutcome::Done(EventResult::Consumed, None),
        )
    }
}

/// A key on the focused accordion: Down and Up move to the next or
/// previous enabled panel (the first enabled one when none is current),
/// Enter and Space toggle the current one.
pub open spec fn key_event(v: AccordionView, key: Key) -> (AccordionView, AccordionOutcome) {
    let ignored = (v, AccordionOutcome::Done(EventResult::Ignored, None));
    match key {
        Key::Down | Key::Up => {
            let next = match v.focused {
                Some(s) => next_enabled(v.panels, s as int, key == Key::Down),
                None => first_enabled_from(v.panels, 0),
            };
            match next {
                Some(k) => (AccordionView { focused: Some(k as usize), ..v }, AccordionOutcome::Done(EventResult::Consumed, None)),
                None => ignored,
            }
        },
        Key::Enter | Key::Space => match v.focused {
            Some(i) => if i < v.panels.len() && v.panels[i as int].enabled {
                (
                    AccordionView { panels: toggled(v.panels, i as int, v.allow_multiple), ..v },
                    AccordionOutcome::Done(EventResult::Consumed, toggle_report(v.panels, i as int)),
                )
            } else {
                ignored
            },
            None => ignored,
        },
        _ => ignored,
    }
}

/// The accordion's answer to an event when the contents show `vis` pixels
/// each; events it does not take are for the open panels' contents.
pub open spec fn accordion_event(v: AccordionView, e: Event, vis: Seq<i32>) -> (AccordionView, AccordionOutcome) {
    if !v.state.enabled || !v.state.visible {
        (v, AccordionOutcome::Done(EventResult::Ignored, None))
    } else {
        match e {
            Event::MouseButton(mb) => if mb.button == MouseButton::Left {
                button_event(v, mb.position, mb.pressed, vis)
            } else {
                (v, AccordionOutcome::ToContent)
            },
            Event::MouseMove(mm) => move_event(v, mm.position, vis),
            Event::KeyPress(k) => if v.state.focused && k.modifiers.is_empty_spec() {
                key_event(v, k.key)
            } else {
                (v, AccordionOutcome::ToContent)
            },
            _ => (v, AccordionOutcome::ToContent),
        }
    }
}

impl Accordion {
    fn find_header(&self, p: Point, vis: &Vec<i32>, enabled_only: bool) -> (r: Option<usize>)
        requires
            vis@.len() == self.view().panels.len(),
            tops_fit(self.view().state.bounds.y as int, self.view().header_height, self.view().spacing, vis@, vis@.len() as int),
        ensures
            match r {
                Some(i) => header_hit(
                    self.view().panels,
                    self.view().state.bounds,
                    self.view().header_height,
                    self.view().spacing,
                    vis@,
                    p,
                    enabled_only,
                    0,
                ) == Some(i as int),
                None => header_hit(
                    self.view().panels,
                    self.view().state.bounds,
                    self.view().header_height,
                    self.view().spacing,
                    vis@,
                    p,
                    enabled_only,
                    0,
                ) is None,
            },
    {
        let n = self.panels.len();
        let b = self.state.bounds;
        let hh = self.header_height;
        let sp = self.spacing;
        let ghost ps = self.panels@;
        let mut y: i32 = b.y;
        let mut i: usize = 0;
        while i < n
            invariant
                n == ps.len(),
                ps == self.panels@,
                vis@.len() == n,
                b == self.state.bounds,
                hh == self.header_height,
                sp == self.spacing,
                tops_fit(b.y as int, hh, sp, vis@, n as int),
                i <= n,
                y == header_top(b.y as int, hh as int, sp as int, vis@, n as int, i as int),
                header_hit(ps, b, hh, sp, vis@, p, enabled_only, 0) == header_hit(ps, b, hh, sp, vis@, p, enabled_only, i as int),
            decreases n - i,
        {
            let ghost t = header_top(b.y as int, hh as int, sp as int, vis@, n as int, i as int);
            assert(fits_i32(t) && fits_i32(t + hh) && fits_i32(t + hh + vis@[i as int]) && fits_i32(
                header_top(b.y as int, hh as int, sp as int, vis@, n as int, i + 1),
            ));
            let r = Rect::new(b.x, y, b.width, hh);
            if r.contains(p) && (!enabled_only || self.panels[i].enabled) {
                return Some(i);
            }
            y = y + hh;
            y = y + vis[i];
            if i + 1 < n {
                y = y + sp;
            }
            i = i + 1;
        }
        None
    }

    /// Handles an event, the open contents showing `visible_heights`
    /// pixels each; see [`accordion_event`].
    pub fn handle_event(&mut self, event: &Event, visible_heights: &Vec<i32>) -> (r: AccordionOutcome)
        requires
            visible_heights@.len() == old(self).view().panels.len(),
            tops_fit(
                old(self).view().state.bounds.y as int,
                old(self).view().header_height,
                old(self).view().spacing,
                visible_heights@,
                visible_heights@.len() as int,
            ),
            old(self).view().focused matches Some(f) ==> f + old(self).view().panels.len() <= usize::MAX,
        ensures
            (final(self).view(), r) == accordion_event(old(self).view(), *event, visible_heights@),
    {
        if !self.state.enabled || !self.state.visible {
            return AccordionOutcome::Done(EventResult::Ignored, None);
        }
        match event {
            Event::MouseButton(mb) => {
                match mb.button {
                    MouseButton::Left => {},
                    _ => {
                        return AccordionOutcome::ToContent;
                    },
                }
                let p = mb.position;
                if !self.state.bounds.contains(p) {
                    return AccordionOutcome::Done(EventResult::Ignored, None);
                }
                match self.find_header(p, visible_heights, true) {
                    Some(i) => {
                        if mb.pressed {
                            self.pressed_panel = Some(i);
                            AccordionOutcome::Done(EventResult::Consumed, None)
                        } else if self.pressed_panel == Some(i) {
                            let t = self.toggle_panel(i);
                            self.pressed_panel = None;
                            AccordionOutcome::Done(EventResult::Consumed, t)
                        } else {
                            AccordionOutcome::Done(EventResult::Consumed, None)
                        }
                    },
                    None => {
                        if !mb.pressed {
                            self.pressed_panel = None;
                        }
                        AccordionOutcome::Done(EventResult::Ignored, None)
                    },
                }
            },
            Event::MouseMove(mm) => {
                if !self.state.bounds.contains(mm.position) {
                    self.hovered_panel = None;
                    return AccordionOutcome::Done(EventResult::Ignored, None);
                }
                self.hovered_panel = self.find_header(mm.position, visible_heights, false);
                AccordionOutcome::Done(EventResult::Consumed, None)
            },
            Event::KeyPress(k) => {
                if !(self.state.focused && k.modifiers.is_empty()) {
                    return AccordionOutcome::ToContent;
                }
                match k.key {
                    Key::Down | Key::Up => {
                        let down = match k.key {
                            Key::Down => true,
                            _ => false,
                        };
                        let next = match self.focused_panel {
                            Some(start) => self.next_enabled_panel(start, down),
                            None => self.first_enabled_panel(),
                        };
                        match next {
                            Some(idx) => {
                                self.focused_panel = Some(idx);
                                AccordionOutcome::Done(EventResult::Consumed, None)
                            },
                            None => AccordionOutcome::Done(EventResult::Ignored, None),
                        }
                    },
                    Key::Enter | Key::Space => {
                        match self.focused_panel {
                            Some(idx) => {
                                if idx < self.panels.len() && self.panels[idx].enabled {
                                    let t = self.toggle_panel(idx);
                                    return AccordionOutcome::Done(EventResult::Consumed, t);
                                }
                                AccordionOutcome::Done(EventResult::Ignored, None)
                            },
                            None => AccordionOutcome::Done(EventResult::Ignored, None),
                        }
                    },
                    _ => AccordionOutcome::Done(EventResult::Ignored, None),
                }
            },
            _ => AccordionOutcome::ToContent,
        }
    }

    /// The size the accordion asks for: the allowed width (300 by default)
    /// and every header, the contents' visible heights and the spacing
    /// between panels.
    pub fn measure(&self, max_width: Option<i32>, visible_heights: &Vec<i32>) -> (s: Size)
        requires
            visible_heights@.len() == self.view().panels.len(),
            tops_fit(0, self.view().header_height, self.view().spacing, visible_heights@, visible_heights@.len() as int),
        ensures
            s.width == (match max_width { Some(w) => w, None => 300 }),
            s.height == header_top(
                0,
                self.view().header_height as int,
                self.view().spacing as int,
                visible_heights@,
                visible_heights@.len() as int,
                visible_heights@.len() as int,
            ),
    {
        let width = match max_width {
            Some(w) => w,
            None => 300,
        };
        let n = self.panels.len();
        let hh = self.header_height;
        let sp = self.spacing;
        let mut height: i32 = 0;
        let mut i: usize = 0;
        while i < n
            invariant
                n == visible_heights@.len(),
                hh == self.header_height,
                sp == self.spacing,
                tops_fit(0, hh, sp, visible_heights@, n as int),
                i <= n,
                height == header_top(0, hh as int, sp as int, visible_heights@, n as int, i as int),
            decreases n - i,
        {
            let ghost t = header_top(0, hh as int, sp as int, visible_heights@, n as int, i as int);
            assert(fits_i32(t) && fits_i32(t + hh) && fits_i32(t + hh + visible_heights@[i as int]) && fits_i32(
                header_top(0, hh as int, sp as int, visible_heights@, n as int, i + 1),
            ));
            height = height + hh;
            height = height + visible_heights[i];
            if i + 1 < n {
                height = height + sp;
            }
            i = i + 1;
        }
        Size::new(width, height)
    }

    /// Places the accordion; the open contents go below their headers.
    pub fn layout(&mut self, rect: Rect)
        ensures
            final(self).view() == (AccordionView { state: WidgetState { bounds: rect, ..old(self).view().state }, ..old(self).view() }),
    {
        self.state.bounds = rect;
    }

    /// The header of panel `index` when the contents show
    /// `visible_heights` pixels each.
    pub fn header_rect_at(&self, index: usize, visible_heights: &Vec<i32>) -> (r: Rect)
        requires
            index < self.view().panels.len(),
            visible_heights@.len() == self.view().panels.len(),
            tops_fit(
                self.view().state.bounds.y as int,
                self.view().header_height,
                self.view().spacing,
                visible_heights@,
                visible_heights@.len() as int,
            ),
        ensures
            r == header_rect(
                self.view().state.bounds,
                self.view().header_height,
                self.view().spacing,
                visible_heights@,
                visible_heights@.len() as int,
                index as int,
            ),
    {
        let n = self.panels.len();
        let b = self.state.bounds;
        let hh = self.header_height;
        let sp = self.spacing;
        let mut y: i32 = b.y;
        let mut i: usize = 0;
        while i < index
            invariant
                n == visible_heights@.len(),
                b == self.state.bounds,
                hh == self.header_height,
                sp == self.spacing,
                index < n,
                tops_fit(b.y as int, hh, sp, visible_heights@, n as int),
                i <= index,
                y == header_top(b.y as int, hh as int, sp as int, visible_heights@, n as int, i as int),
            decreases index - i,
        {
            let ghost t = header_top(b.y as int, hh as int, sp as int, visible_heights@, n as int, i as int);
            assert(fits_i32(t) && fits_i32(t + hh) && fits_i32(t + hh + visible_heights@[i as int]) && fits_i32(
                header_top(b.y as int, hh as int, sp as int, visible_heights@, n as int, i + 1),
            ));
            y = y + hh;
            y = y + visible_heights[i];
            if i + 1 < n {
                y = y + sp;
            }
            i = i + 1;
        }
        Rect::new(b.x, y, b.width, hh)
    }

    pub fn hovered_panel(&self) -> (r: Option<usize>)
        ensures
            r == self.view().hovered,
    {
        self.hovered_panel
    }

    pub fn pressed_panel(&self) -> (r: Option<usize>)
        ensures
            r == self.view().pressed,
    {
        self.pressed_panel
    }

    /// Whether the panels slide open rather than appear at once.
    pub fn animates(&self) -> (b: bool)
        ensures
            b == self.view().animate,
    {
        self.animate_expansion
    }

    /// The panels, in order.
    pub fn panels(&self) -> (r: &Vec<AccordionPanel>)
        ensures
            r@ == self.view().panels,
    {
        &self.panels
    }

    pub fn id(&self) -> (r: WidgetId)
        ensures
            r == self.view().state.id,
    {
        self.state.id
    }

    pub fn bounds(&self) -> (r: Rect)
        ensures
            r == self.view().state.bounds,
    {
        self.state.bounds
    }

    pub fn set_bounds(&mut self, bounds: Rect)
        ensures
            final(self).view() == (AccordionView { state: WidgetState { bounds, ..old(self).view().state }, ..old(self).view() }),
    {
        self.state.bounds = bounds;
    }

    pub fn is_visible(&self) -> (b: bool)
        ensures
            b == self.view().state.visible,
    {
        self.state.visible
    }

    pub fn set_visible(&mut self, visible: bool)
        ensures
            final(self).view() == (AccordionView { state: WidgetState { visible, ..old(self).view().state }, ..old(self).view() }),
    {
        self.state.visible = visible;
    }

    pub fn is_enabled(&self) -> (b: bool)
        ensures
            b == self.view().state.enabled,
    {
        self.state.enabled
    }

    pub fn set_enabled(&mut self, enabled: bool)
        ensures
            final(self).view() == (AccordionView { state: WidgetState { enabled, ..old(self).view().state }, ..old(self).view() }),
    {
        self.state.enabled = enabled;
    }

    pub fn is_focused(&self) -> (b: bool)
        ensures
            b == self.view().state.focused,
    {
        self.state.focused
    }

    pub fn set_focused(&mut self, focused: bool)
        ensures
            final(self).view() == (AccordionView { state: WidgetState { focused, ..old(self).view().state }, ..old(self).view() }),
    {
        self.state.focused = focused;
    }

    pub fn can_focus(&self) -> (b: bool)
        ensures
            b == (self.view().state.enabled && self.view().state.visible),
    {
        self.state.enabled && self.state.visible
    }
}

} // verus!
