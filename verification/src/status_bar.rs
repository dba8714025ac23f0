//! Status bar: a row of text panels along the bottom of a window.

use vstd::prelude::*;
use crate::event::{Event, EventResult};
use crate::geometry::{fits_i32, Rect, Size, WidgetId};
use crate::widget::WidgetState;

verus! {

broadcast use vstd::string::group_string_axioms;

/// Length in bytes of the UTF-8 encoding of `s`.
pub open spec fn utf8_len(s: Seq<char>) -> nat {
    vstd::utf8::encode_utf8(s).len()
}

/// Length of `s` in bytes, as `String::len` gives it.
pub fn byte_len(s: &String) -> (n: usize)
    ensures
        n == utf8_len(s@),
{
    s.as_str().as_bytes().len()
}

#[derive(Clone, Copy, Debug, PartialEq, Eq, Structural)]
pub enum StatusPanelWidth {
    Fixed(i32),
    Spring,
    Content,
}

#[derive(Clone, Copy, Debug, PartialEq, Eq, Structural)]
pub enum TextAlignment {
    Left,
    Center,
    Right,
}

#[derive(Clone, Copy, Debug, PartialEq, Eq, Structural)]
pub enum SeparatorStyle {
    /// No separator is drawn.
    NoSeparator,
    Line,
    Raised,
    Sunken,
}

#[derive(Clone, Debug)]
pub struct StatusPanel {
    pub text: String,
    pub width: StatusPanelWidth,
    pub alignment: TextAlignment,
}

impl StatusPanel {
    /// A left-aligned panel that takes a share of the spare width.
    pub fn new(text: &str) -> (p: StatusPanel)
        ensures
            p.text@ == text@,
            p.width == StatusPanelWidth::Spring,
            p.alignment == TextAlignment::Left,
    {
        StatusPanel { text: text.to_owned(), width: StatusPanelWidth::Spring, alignment: TextAlignment::Left }
    }

    pub fn with_fixed_width(self, width: i32) -> (p: StatusPanel)
        ensures
            p.text@ == self.text@,
            p.width == StatusPanelWidth::Fixed(width),
            p.alignment == self.alignment,
    {
        StatusPanel { width: StatusPanelWidth::Fixed(width), ..self }
    }

    pub fn with_spring_width(self) -> (p: StatusPanel)
        ensures
            p.text@ == self.text@,
            p.width == StatusPanelWidth::Spring,
            p.alignment == self.alignment,
    {
        StatusPanel { width: StatusPanelWidth::Spring, ..self }
    }

    pub fn with_content_width(self) -> (p: StatusPanel)
        ensures
            p.text@ == self.text@,
            p.width == StatusPanelWidth::Content,
            p.alignment == self.alignment,
    {
        StatusPanel { width: StatusPanelWidth::Content, ..self }
    }

    pub fn with_alignment(self, alignment: TextAlignment) -> (p: StatusPanel)
        ensures
            p.text@ == self.text@,
            p.width == self.width,
            p.alignment == alignment,
    {
        StatusPanel { alignment, ..self }
    }
}

/// Width a non-spring panel takes: its fixed width, or about seven pixels
/// per byte of text plus sixteen of padding.
pub open spec fn own_width(p: StatusPanel) -> int {
    match p.width {
        StatusPanelWidth::Fixed(w) => w as int,
        StatusPanelWidth::Content => (utf8_len(p.text@) * 7 + 16) as int,
        StatusPanelWidth::Spring => 0,
    }
}

/// Sum of the widths of the non-spring panels among the first `n`.
pub open spec fn fixed_sum(ps: Seq<StatusPanel>, n: int) -> int
    decreases n,
{
    if n <= 0 { 0 } else { fixed_sum(ps, n - 1) + own_width(ps[n - 1]) }
}

pub open spec fn springs_upto(ps: Seq<StatusPanel>, n: int) -> int
    decreases n,
{
    if n <= 0 {
        0
    } else {
        springs_upto(ps, n - 1) + if ps[n - 1].width == StatusPanelWidth::Spring { 1int } else { 0int }
    }
}

/// Width of each spring panel: the width left after the fixed panels and
/// the 2-pixel separators, shared equally.
pub open spec fn spring_share(ps: Seq<StatusPanel>, total: int) -> int {
    let n = ps.len() as int;
    let avail = total - fixed_sum(ps, n) - (n - 1) * 2;
    let avail = if avail < 0 { 0 } else { avail };
    if springs_upto(ps, n) > 0 { avail / springs_upto(ps, n) } else { 0 }
}

pub open spec fn panel_width(ps: Seq<StatusPanel>, i: int, total: int) -> int {
    if ps[i].width == StatusPanelWidth::Spring { spring_share(ps, total) } else { own_width(ps[i]) }
}

/// Left edge of panel `i` when the first starts at `x0`.
pub open spec fn panel_left(ps: Seq<StatusPanel>, i: int, x0: int, total: int) -> int
    decreases i,
{
    if i <= 0 { x0 } else { panel_left(ps, i - 1, x0, total) + panel_width(ps, i - 1, total) + 2 }
}

/// The rectangles of the panels, left to right, 2 pixels apart.
pub open spec fn panel_rects(ps: Seq<StatusPanel>, b: Rect, height: i32) -> Seq<Rect> {
    Seq::new(
        ps.len(),
        |i: int|
            Rect {
                x: panel_left(ps, i, b.x as int, b.width as int) as i32,
                y: b.y,
                width: panel_width(ps, i, b.width as int) as i32,
                height,
            },
    )
}

/// Computing the panel rectangles stays within `i32`.
pub open spec fn panel_arith_ok(ps: Seq<StatusPanel>, b: Rect) -> bool {
    let n = ps.len() as int;
    &&& n <= i32::MAX
    &&& fits_i32((n - 1) * 2)
    &&& forall|i: int| 0 <= i < n ==> utf8_len(#[trigger] ps[i].text@) <= i32::MAX
    &&& forall|i: int| 0 <= i < n ==> fits_i32(own_width(#[trigger] ps[i]))
    &&& forall|k: int| 0 <= k <= n ==> fits_i32(#[trigger] fixed_sum(ps, k))
    &&& fits_i32(b.width - fixed_sum(ps, n))
    &&& fits_i32(b.width - fixed_sum(ps, n) - (n - 1) * 2)
    &&& forall|k: int| 0 <= k <= n ==> fits_i32(#[trigger] panel_left(ps, k, b.x as int, b.width as int))
    &&& forall|k: int| 0 <= k < n ==> fits_i32(#[trigger] panel_left(ps, k, b.x as int, b.width as int) + panel_width(ps, k, b.width as int))
}

pub struct StatusBar {
    state: WidgetState,
    panels: Vec<StatusPanel>,
    height: i32,
    separator_style: SeparatorStyle,
}

impl StatusBar {
    pub closed spec fn panels(&self) -> Seq<StatusPanel> {
        self.panels@
    }

    pub closed spec fn state(&self) -> WidgetState {
        self.state
    }

    pub closed spec fn height(&self) -> i32 {
        self.height
    }

    pub closed spec fn separator_style(&self) -> SeparatorStyle {
        self.separator_style
    }

    /// An empty bar, 24 pixels high, with sunken separators.
    pub fn new(id: WidgetId) -> (b: StatusBar)
        ensures
            b.panels().len() == 0,
            b.state() == WidgetState::new_spec(id),
            b.height() == 24,
            b.separator_style() == SeparatorStyle::Sunken,
    {
        StatusBar { state: WidgetState::new(id), panels: Vec::new(), height: 24, separator_style: SeparatorStyle::Sunken }
    }

    pub fn with_separator_style(self, style: SeparatorStyle) -> (b: StatusBar)
        ensures
            b.panels() == self.panels(),
            b.state() == self.state(),
            b.height() == self.height(),
            b.separator_style() == style,
    {
        StatusBar { separator_style: style, ..self }
    }

    pub fn add_panel(&mut self, panel: StatusPanel)
        ensures
            final(self).panels() == old(self).panels().push(panel),
            final(self).state() == old(self).state(),
            final(self).height() == old(self).height(),
            final(self).separator_style() == old(self).separator_style(),
    {
        self.panels.push(panel);
    }

    /// Replaces the text of panel `index`; does nothing when there is no
    /// such panel.
    pub fn set_panel_text(&mut self, index: usize, text: &str)
        ensures
            final(self).panels().len() == old(self).panels().len(),
            forall|i: int|
                0 <= i < old(self).panels().len() && i != index ==> #[trigger] final(self).panels()[i] == old(self).panels()[i],
            index < old(self).panels().len() ==> {
                &&& final(self).panels()[index as int].text@ == text@
                &&& final(self).panels()[index as int].width == old(self).panels()[index as int].width
                &&& final(self).panels()[index as int].alignment == old(self).panels()[index as int].alignment
            },
            final(self).state() == old(self).state(),
            final(self).height() == old(self).height(),
            final(self).separator_style() == old(self).separator_style(),
    {
        if index < self.panels.len() {
            let old_panel = &self.panels[index];
            let p = StatusPanel { text: text.to_owned(), width: old_panel.width, alignment: old_panel.alignment };
            self.panels.set(index, p);
        }
    }

    pub fn clear_panels(&mut self)
        ensures
            final(self).panels().len() == 0,
            final(self).state() == old(self).state(),
            final(self).height() == old(self).height(),
            final(self).separator_style() == old(self).separator_style(),
    {
        self.panels.clear();
    }

    /// The rectangles the panels occupy within the bar's bounds.
    pub fn calculate_panel_rects(&self) -> (rects: Vec<Rect>)
        requires
            panel_arith_ok(self.panels(), self.state().bounds),
        ensures
            rects@ == panel_rects(self.panels(), self.state().bounds, self.height()),
    {
        let ghost ps = self.panels@;
        let ghost b = self.state.bounds;
        let mut rects: Vec<Rect> = Vec::new();
        let total_width = self.state.bounds.width;
        let panel_count = self.panels.len();
        if panel_count == 0 {
            assert(rects@ =~= panel_rects(ps, b, self.height));
            return rects;
        }
        let mut fixed_width: i32 = 0;
        let mut content_widths: Vec<i32> = Vec::new();
        let mut spring_count: i32 = 0;
        let mut i: usize = 0;
        while i < panel_count
            invariant
                ps == self.panels@,
                panel_count == ps.len(),
                panel_arith_ok(ps, b),
                i <= panel_count,
                fixed_width == fixed_sum(ps, i as int),
                spring_count == springs_upto(ps, i as int),
                spring_count <= i,
                content_widths.len() == i,
                forall|k: int| 0 <= k < i ==> #[trigger] content_widths@[k] == own_width(ps[k]),
            decreases panel_count - i,
        {
            let panel = &self.panels[i];
            assert(fixed_sum(ps, i + 1) == fixed_sum(ps, i as int) + own_width(ps[i as int]));
            assert(fits_i32(fixed_sum(ps, i + 1)));
            match panel.width {
                StatusPanelWidth::Fixed(w) => {
                    fixed_width = fixed_width + w;
                    content_widths.push(w);
                },
                StatusPanelWidth::Content => {
                    assert(fits_i32(own_width(ps[i as int])));
                    let width = byte_len(&panel.text) as i32 * 7 + 16;
                    fixed_width = fixed_width + width;
                    content_widths.push(width);
                },
                StatusPanelWidth::Spring => {
                    spring_count = spring_count + 1;
                    content_widths.push(0);
                },
            }
            i = i + 1;
        }
        let avail = total_width - fixed_width - (panel_count as i32 - 1) * 2;
        let available_for_springs = if avail < 0 {
            0
        } else {
            avail
        };
        let spring_width = if spring_count > 0 {
            available_for_springs / spring_count
        } else {
            0
        };
        assert(spring_width == spring_share(ps, total_width as int));
        let mut x = self.state.bounds.x;
        let mut j: usize = 0;
        while j < panel_count
            invariant
                ps == self.panels@,
                b == self.state.bounds,
                total_width == b.width,
                panel_count == ps.len(),
                panel_arith_ok(ps, b),
                content_widths.len() == panel_count,
                forall|k: int| 0 <= k < panel_count ==> #[trigger] content_widths@[k] == own_width(ps[k]),
                spring_width == spring_share(ps, total_width as int),
                j <= panel_count,
                x == panel_left(ps, j as int, b.x as int, b.width as int),
                rects.len() == j,
                forall|k: int| 0 <= k < j ==> #[trigger] rects@[k] == panel_rects(ps, b, self.height)[k],
            decreases panel_count - j,
        {
            let width = match self.panels[j].width {
                StatusPanelWidth::Spring => spring_width,
                _ => content_widths[j],
            };
            rects.push(Rect::new(x, self.state.bounds.y, width, self.height));
            assert(fits_i32(panel_left(ps, j + 1, b.x as int, b.width as int)));
            x = x + width + 2;
            j = j + 1;
        }
        assert(rects@ =~= panel_rects(ps, b, self.height));
        rects
    }

    pub fn measure(&self) -> (s: Size)
        ensures
            s.width == 100,
            s.height == self.height(),
    {
        Size::new(100, self.height)
    }

    pub fn layout(&mut self, rect: Rect)
        ensures
            final(self).state() == (WidgetState { bounds: rect, ..old(self).state() }),
            final(self).panels() == old(self).panels(),
            final(self).height() == old(self).height(),
            final(self).separator_style() == old(self).separator_style(),
    {
        self.state.bounds = rect;
    }

    /// The status bar takes no input.
    pub fn handle_event(&mut self, _event: &Event) -> (r: EventResult)
        ensures
            r == EventResult::Ignored,
            final(self).state() == old(self).state(),
            final(self).panels() == old(self).panels(),
    {
        EventResult::Ignored
    }

    pub fn bounds(&self) -> (r: Rect)
        ensures
            r == self.state().bounds,
    {
        self.state.bounds
    }

    pub fn is_focused(&self) -> (b: bool)
        ensures
            !b,
    {
        false
    }

    pub fn can_focus(&self) -> (b: bool)
        ensures
            !b,
    {
        false
    }
}

} // verus!
