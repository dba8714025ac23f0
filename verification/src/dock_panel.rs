//! Docking layout: panels arranged in a tree of splits and tab groups,
//! plus floating windows.
//!
//! A split's ratio is an exact fraction `num / den`; a tab group lists the
//! ids of its panels and which one is active.

use vstd::prelude::*;
use vstd::multiset::Multiset;
use crate::geometry::{Point, Rect, WidgetId, fits_i32, trunc_div};
use crate::event::{Event, EventResult, MouseButton};
use crate::widget::{ThemeMetrics, WidgetState};

verus! {

broadcast use vstd::string::group_string_axioms;

#[derive(Clone, Copy, Debug, PartialEq, Eq, Structural)]
pub enum DockPosition {
    Left,
    Right,
    Top,
    Bottom,
    Center,
    Floating,
}

#[derive(Clone, Copy, Debug, PartialEq, Eq, Structural)]
pub enum DockSplitDirection {
    Horizontal,
    Vertical,
}

/// Where along a split the divider sits: `num / den` of the split's extent.
#[derive(Clone, Copy, Debug, PartialEq, Eq, Structural)]
pub struct SplitRatio {
    pub num: i64,
    pub den: i64,
}

impl SplitRatio {
    /// A positive denominator and a fraction in `[0, 1]`.
    pub open spec fn wf(self) -> bool {
        &&& 0 < self.den <= 0x8000_0000
        &&& 0 <= self.num <= self.den
    }
}

/// Where the layout keeps a tree of splits and tab groups.
pub enum DockNode {
    Split { direction: DockSplitDirection, ratio: SplitRatio, first: Box<DockNode>, second: Box<DockNode> },
    Tabs { panels: Vec<String>, active_index: usize },
    Empty,
}

/// The mathematical form of a [`DockNode`]: panel ids as character sequences.
pub enum DockTree {
    Split { direction: DockSplitDirection, ratio: SplitRatio, first: Box<DockTree>, second: Box<DockTree> },
    Tabs { panels: Seq<Seq<char>>, active: int },
    Empty,
}

pub open spec fn ids_view(v: Seq<String>) -> Seq<Seq<char>> {
    v.map_values(|s: String| s@)
}

pub open spec fn tree_of(n: DockNode) -> DockTree
    decreases n,
{
    match n {
        DockNode::Split { direction, ratio, first, second } => DockTree::Split {
            direction,
            ratio,
            first: Box::new(tree_of(*first)),
            second: Box::new(tree_of(*second)),
        },
        DockNode::Tabs { panels, active_index } => DockTree::Tabs { panels: ids_view(panels@), active: active_index as int },
        DockNode::Empty => DockTree::Empty,
    }
}

impl View for DockNode {
    type V = DockTree;

    open spec fn view(&self) -> DockTree {
        tree_of(*self)
    }
}

/// The ids of all docked panels, tab group by tab group, first child first.
pub open spec fn tree_ids(t: DockTree) -> Seq<Seq<char>>
    decreases t,
{
    match t {
        DockTree::Split { first, second, .. } => tree_ids(*first) + tree_ids(*second),
        DockTree::Tabs { panels, .. } => panels,
        DockTree::Empty => Seq::empty(),
    }
}

/// Every tab group is non-empty with a valid active tab, every split has a
/// proper ratio and no empty side.
pub open spec fn tree_wf(t: DockTree) -> bool
    decreases t,
{
    match t {
        DockTree::Split { ratio, first, second, .. } => {
            &&& ratio.wf()
            &&& !(*first is Empty)
            &&& !(*second is Empty)
            &&& tree_wf(*first)
            &&& tree_wf(*second)
        },
        DockTree::Tabs { panels, active } => 0 <= active < panels.len(),
        DockTree::Empty => true,
    }
}

/// A tab group holding the one panel `id`.
pub open spec fn single_tab(id: Seq<char>) -> DockTree {
    DockTree::Tabs { panels: seq![id], active: 0 }
}

pub open spec fn ratio_of(num: i64, den: i64) -> SplitRatio {
    SplitRatio { num, den }
}

/// `id` appended to the first tab group reached through first children;
/// an empty place there becomes a group of its own.
pub open spec fn push_first_leaf(t: DockTree, id: Seq<char>) -> DockTree
    decreases t,
{
    match t {
        DockTree::Split { direction, ratio, first, second } => DockTree::Split {
            direction,
            ratio,
            first: Box::new(push_first_leaf(*first, id)),
            second,
        },
        DockTree::Tabs { panels, active } => DockTree::Tabs { panels: panels.push(id), active },
        DockTree::Empty => single_tab(id),
    }
}

/// The tree after docking panel `id` at `pos`: an empty tree becomes one
/// tab group; `Center` joins the first tab group; the sides split the whole
/// tree, the new panel taking 30% on the left or top, 30% on the right or
/// bottom (the old tree keeping 70%).
pub open spec fn add_tree(t: DockTree, id: Seq<char>, pos: DockPosition) -> DockTree {
    if t is Empty {
        single_tab(id)
    } else {
        match pos {
            DockPosition::Center => push_first_leaf(t, id),
            DockPosition::Left => DockTree::Split {
                direction: DockSplitDirection::Horizontal,
                ratio: ratio_of(3, 10),
                first: Box::new(single_tab(id)),
                second: Box::new(t),
            },
            DockPosition::Right => DockTree::Split {
                direction: DockSplitDirection::Horizontal,
                ratio: ratio_of(7, 10),
                first: Box::new(t),
                second: Box::new(single_tab(id)),
            },
            DockPosition::Top => DockTree::Split {
                direction: DockSplitDirection::Vertical,
                ratio: ratio_of(3, 10),
                first: Box::new(single_tab(id)),
                second: Box::new(t),
            },
            DockPosition::Bottom => DockTree::Split {
                direction: DockSplitDirection::Vertical,
                ratio: ratio_of(7, 10),
                first: Box::new(t),
                second: Box::new(single_tab(id)),
            },
            DockPosition::Floating => t,
        }
    }
}

/// Index of the first occurrence of `id` in `s`.
pub open spec fn first_index(s: Seq<Seq<char>>, id: Seq<char>) -> Option<int>
    decreases s.len(),
{
    if s.len() == 0 {
        None
    } else if s[0] == id {
        Some(0)
    } else {
        match first_index(s.drop_first(), id) {
            Some(i) => Some(i + 1),
            None => None,
        }
    }
}

/// Removing `id` from a node: each tab group drops its first `id`, keeping
/// the active index unless it fell off the end; a group left empty
/// disappears and its split is replaced by the other side. The flag says
/// whether the node itself was a tab group that became empty.
pub open spec fn remove_node(t: DockTree, id: Seq<char>) -> (DockTree, bool)
    decreases t,
{
    match t {
        DockTree::Tabs { panels, active } => match first_index(panels, id) {
            Some(i) => {
                let p = panels.remove(i);
                let a = if active >= p.len() && active > 0 { p.len() - 1 } else { active };
                (DockTree::Tabs { panels: p, active: a }, p.len() == 0)
            },
            None => (t, false),
        },
        DockTree::Split { direction, ratio, first, second } => {
            let (f, first_gone) = remove_node(*first, id);
            if first_gone {
                (*second, false)
            } else {
                let (s, second_gone) = remove_node(*second, id);
                if second_gone {
                    (f, false)
                } else {
                    (DockTree::Split { direction, ratio, first: Box::new(f), second: Box::new(s) }, false)
                }
            }
        },
        DockTree::Empty => (t, false),
    }
}

/// The whole tree without `id`; a tree left without panels is empty.
pub open spec fn remove_tree(t: DockTree, id: Seq<char>) -> DockTree {
    let (r, gone) = remove_node(t, id);
    if gone { DockTree::Empty } else { r }
}

/// The tree with the ratio of the split at `path` (0 = first child,
/// 1 = second) set to `r`; the flag says whether such a split exists.
pub open spec fn set_ratio(t: DockTree, path: Seq<usize>, r: SplitRatio) -> (DockTree, bool)
    decreases t,
{
    match t {
        DockTree::Split { direction, ratio, first, second } => {
            if path.len() == 0 {
                (DockTree::Split { direction, ratio: r, first, second }, true)
            } else if path[0] == 0 {
                let (f, ok) = set_ratio(*first, path.drop_first(), r);
                (DockTree::Split { direction, ratio, first: Box::new(f), second }, ok)
            } else if path[0] == 1 {
                let (s, ok) = set_ratio(*second, path.drop_first(), r);
                (DockTree::Split { direction, ratio, first, second: Box::new(s) }, ok)
            } else {
                (t, false)
            }
        },
        _ => (t, false),
    }
}

/// The ratio a drag to offset `rel` along an extent `len` asks for: their
/// quotient held to `[1/10, 9/10]`. On an empty extent a drag forward or
/// back picks the far or near limit, and a drag to its start puts the
/// divider at the start.
pub open spec fn drag_ratio(rel: int, len: int) -> SplitRatio {
    if len == 0 {
        if rel > 0 { ratio_of(9, 10) } else if rel < 0 { ratio_of(1, 10) } else { ratio_of(0, 1) }
    } else {
        let n = if len < 0 { -rel } else { rel };
        let d = if len < 0 { -len } else { len };
        if 10 * n < d {
            ratio_of(1, 10)
        } else if 10 * n > 9 * d {
            ratio_of(9, 10)
        } else {
            ratio_of(n as i64, d as i64)
        }
    }
}

fn single_tab_node(id: String) -> (n: DockNode)
    ensures
        n@ == single_tab(id@),
        n is Tabs,
{
    let mut panels: Vec<String> = Vec::new();
    panels.push(id);
    let n = DockNode::Tabs { panels, active_index: 0 };
    assert(ids_view(panels@) =~= seq![id@]);
    n
}

/// Appends `id` to the first tab group reached through first children.
fn push_tab_to_first_leaf(node: DockNode, id: String) -> (r: DockNode)
    ensures
        r@ == push_first_leaf(node@, id@),
    decreases node,
{
    match node {
        DockNode::Tabs { panels, active_index } => {
            let mut panels = panels;
            let ghost before = panels@;
            panels.push(id);
            assert(ids_view(panels@) =~= ids_view(before).push(id@));
            DockNode::Tabs { panels, active_index }
        },
        DockNode::Split { direction, ratio, first, second } => {
            let f = push_tab_to_first_leaf(*first, id);
            DockNode::Split { direction, ratio, first: Box::new(f), second }
        },
        DockNode::Empty => single_tab_node(id),
    }
}

/// Docks panel `id` at `pos` in the tree rooted at `root`.
fn add_to_dock_tree(root: DockNode, id: String, pos: DockPosition) -> (r: DockNode)
    ensures
        r@ == add_tree(root@, id@, pos),
{
    match root {
        DockNode::Empty => single_tab_node(id),
        _ => {
            assert(!(root@ is Empty));
            match pos {
                DockPosition::Center => push_tab_to_first_leaf(root, id),
                DockPosition::Left => DockNode::Split {
                    direction: DockSplitDirection::Horizontal,
                    ratio: SplitRatio { num: 3, den: 10 },
                    first: Box::new(single_tab_node(id)),
                    second: Box::new(root),
                },
                DockPosition::Right => DockNode::Split {
                    direction: DockSplitDirection::Horizontal,
                    ratio: SplitRatio { num: 7, den: 10 },
                    first: Box::new(root),
                    second: Box::new(single_tab_node(id)),
                },
                DockPosition::Top => DockNode::Split {
                    direction: DockSplitDirection::Vertical,
                    ratio: SplitRatio { num: 3, den: 10 },
                    first: Box::new(single_tab_node(id)),
                    second: Box::new(root),
                },
                DockPosition::Bottom => DockNode::Split {
                    direction: DockSplitDirection::Vertical,
                    ratio: SplitRatio { num: 7, den: 10 },
                    first: Box::new(root),
                    second: Box::new(single_tab_node(id)),
                },
                DockPosition::Floating => root,
            }
        },
    }
}

proof fn lemma_first_index(s: Seq<Seq<char>>, id: Seq<char>, i: int)
    requires
        0 <= i <= s.len(),
        forall|k: int| 0 <= k < i ==> s[k] != id,
    ensures
        i < s.len() && s[i] == id ==> first_index(s, id) == Some(i),
        i == s.len() ==> first_index(s, id) is None,
    decreases i,
{
    if i > 0 {
        lemma_first_index(s.drop_first(), id, i - 1);
    } else if s.len() > 0 && s[0] != id {
    }
}

proof fn lemma_first_index_bounds(s: Seq<Seq<char>>, id: Seq<char>)
    ensures
        first_index(s, id) matches Some(i) ==> 0 <= i < s.len() && s[i] == id,
        first_index(s, id) is None ==> !s.contains(id),
    decreases s.len(),
{
    if s.len() > 0 {
        lemma_first_index_bounds(s.drop_first(), id);
        if s[0] != id && first_index(s, id) is None {
            assert forall|k: int| 0 <= k < s.len() implies s[k] != id by {
                if k > 0 {
                    assert(s[k] == s.drop_first()[k - 1]);
                }
            }
        }
    }
}

/// Position of the first panel named `id` in `panels`.
fn find_panel(panels: &Vec<String>, id: &String) -> (r: Option<usize>)
    ensures
        match r {
            Some(i) => first_index(ids_view(panels@), id@) == Some(i as int),
            None => first_index(ids_view(panels@), id@) is None,
        },
{
    let ghost v = ids_view(panels@);
    let mut i: usize = 0;
    while i < panels.len()
        invariant
            0 <= i <= panels.len(),
            v == ids_view(panels@),
            forall|k: int| 0 <= k < i ==> v[k] != id@,
        decreases panels.len() - i,
    {
        if panels[i] == *id {
            proof {
                lemma_first_index(v, id@, i as int);
            }
            return Some(i);
        }
        i = i + 1;
    }
    proof {
        lemma_first_index(v, id@, i as int);
    }
    None
}

/// Removes panel `id` from the subtree `node`; see [`remove_node`].
fn remove_from_node(node: DockNode, id: &String) -> (r: (DockNode, bool))
    requires
        tree_wf(node@),
    ensures
        (r.0@, r.1) == remove_node(node@, id@),
    decreases node,
{
    match node {
        DockNode::Tabs { panels, active_index } => {
            let mut panels = panels;
            match find_panel(&panels, id) {
                Some(pos) => {
                    let ghost before = panels@;
                    proof {
                        lemma_first_index_bounds(ids_view(before), id@);
                    }
                    panels.remove(pos);
                    assert(ids_view(panels@) =~= ids_view(before).remove(pos as int));
                    let len = panels.len();
                    let active = if active_index >= len && active_index > 0 {
                        len - 1
                    } else {
                        active_index
                    };
                    (DockNode::Tabs { panels, active_index: active }, len == 0)
                },
                None => (DockNode::Tabs { panels, active_index }, false),
            }
        },
        DockNode::Split { direction, ratio, first, second } => {
            let (f, first_gone) = remove_from_node(*first, id);
            if first_gone {
                (*second, false)
            } else {
                let (s, second_gone) = remove_from_node(*second, id);
                if second_gone {
                    (f, false)
                } else {
                    (DockNode::Split { direction, ratio, first: Box::new(f), second: Box::new(s) }, false)
                }
            }
        },
        DockNode::Empty => (DockNode::Empty, false),
    }
}

/// Sets the ratio of the split at `path`; see [`set_ratio`].
fn update_ratio_in_node(node: DockNode, path: &[usize], start: usize, r: SplitRatio) -> (res: (DockNode, bool))
    requires
        start <= path@.len(),
    ensures
        (res.0@, res.1) == set_ratio(node@, path@.subrange(start as int, path@.len() as int), r),
    decreases node,
{
    let ghost rest = path@.subrange(start as int, path@.len() as int);
    match node {
        DockNode::Split { direction, ratio, first, second } => {
            if start == path.len() {
                (DockNode::Split { direction, ratio: r, first, second }, true)
            } else {
                assert(rest.drop_first() =~= path@.subrange(start + 1, path@.len() as int));
                let next = path[start];
                if next == 0 {
                    let (f, ok) = update_ratio_in_node(*first, path, start + 1, r);
                    (DockNode::Split { direction, ratio, first: Box::new(f), second }, ok)
                } else if next == 1 {
                    let (s, ok) = update_ratio_in_node(*second, path, start + 1, r);
                    (DockNode::Split { direction, ratio, first, second: Box::new(s) }, ok)
                } else {
                    (DockNode::Split { direction, ratio, first, second }, false)
                }
            }
        },
        DockNode::Tabs { panels, active_index } => (DockNode::Tabs { panels, active_index }, false),
        DockNode::Empty => (DockNode::Empty, false),
    }
}

/// The ratio asked for by dragging to offset `rel` along `len`; see
/// [`drag_ratio`].
fn ratio_from_drag(rel: i32, len: i32) -> (r: SplitRatio)
    ensures
        r == drag_ratio(rel as int, len as int),
{
    if len == 0 {
        if rel > 0 {
            SplitRatio { num: 9, den: 10 }
        } else if rel < 0 {
            SplitRatio { num: 1, den: 10 }
        } else {
            SplitRatio { num: 0, den: 1 }
        }
    } else {
        let n: i64 = if len < 0 { -(rel as i64) } else { rel as i64 };
        let d: i64 = if len < 0 { -(len as i64) } else { len as i64 };
        if 10 * n < d {
            SplitRatio { num: 1, den: 10 }
        } else if 10 * n > 9 * d {
            SplitRatio { num: 9, den: 10 }
        } else {
            SplitRatio { num: n, den: d }
        }
    }
}

proof fn lemma_single_tab(id: Seq<char>)
    ensures
        tree_wf(single_tab(id)),
        tree_ids(single_tab(id)).to_multiset() =~= Multiset::empty().insert(id),
{
    broadcast use vstd::seq_lib::group_to_multiset_ensures;
    assert(seq![id] =~= Seq::<Seq<char>>::empty().push(id));
    assert(Seq::<Seq<char>>::empty().to_multiset() =~= Multiset::empty());
}

proof fn lemma_push_first_leaf(t: DockTree, id: Seq<char>)
    requires
        tree_wf(t),
    ensures
        tree_wf(push_first_leaf(t, id)),
        !(push_first_leaf(t, id) is Empty),
        tree_ids(push_first_leaf(t, id)).to_multiset() =~= tree_ids(t).to_multiset().insert(id),
    decreases t,
{
    broadcast use vstd::seq_lib::group_to_multiset_ensures;
    broadcast use vstd::multiset::group_multiset_axioms;
    broadcast use vstd::seq_lib::lemma_multiset_commutative;
    match t {
        DockTree::Split { first, second, .. } => {
            lemma_push_first_leaf(*first, id);
        },
        DockTree::Tabs { .. } => {},
        DockTree::Empty => {
            lemma_single_tab(id);
        },
    }
}

/// Docking a panel anywhere but in a floating window keeps the layout well
/// formed and adds exactly that panel to the docked ones.
pub proof fn law_dock_adds_panel(t: DockTree, id: Seq<char>, pos: DockPosition)
    requires
        tree_wf(t),
        pos != DockPosition::Floating,
    ensures
        tree_wf(add_tree(t, id, pos)),
        tree_ids(add_tree(t, id, pos)).to_multiset() =~= tree_ids(t).to_multiset().insert(id),
{
    broadcast use vstd::seq_lib::group_to_multiset_ensures;
    broadcast use vstd::multiset::group_multiset_axioms;
    broadcast use vstd::seq_lib::lemma_multiset_commutative;
    lemma_single_tab(id);
    if t is Empty {
        assert(Seq::<Seq<char>>::empty().to_multiset() =~= Multiset::empty());
    } else if pos == DockPosition::Center {
        lemma_push_first_leaf(t, id);
    }
}

/// Docking at a side of a non-empty layout splits the whole layout: the
/// new panel's own tab group goes on the side named, the old layout on the
/// other, across the width for Left and Right and down the height for Top
/// and Bottom, and the new panel takes 3/10 of the length. Read in order,
/// the docked panels list it first on the left or top and last on the
/// right or bottom. Laid out in `rect`, its tab group starts at the left
/// (top) edge and ends a half divider before 3/10 of the width (height), or
/// starts a half divider after 7/10 of it and ends at the right (bottom)
/// edge.
pub proof fn law_dock_side_places_panel(t: DockTree, id: Seq<char>, pos: DockPosition, rect: Rect, path: Seq<usize>, tab_h: int)
    requires
        !(t is Empty),
        pos != DockPosition::Center,
        pos != DockPosition::Floating,
        layout_fits(add_tree(t, id, pos), rect, tab_h),
    ensures
        add_tree(t, id, pos) matches DockTree::Split { direction, ratio, first, second } && {
            &&& (direction == DockSplitDirection::Horizontal) == (pos == DockPosition::Left || pos == DockPosition::Right)
            &&& (pos == DockPosition::Left || pos == DockPosition::Top) ==> {
                &&& *first == single_tab(id) && *second == t
                &&& 10 * ratio.num == 3 * ratio.den
            }
            &&& (pos == DockPosition::Right || pos == DockPosition::Bottom) ==> {
                &&& *first == t && *second == single_tab(id)
                &&& 10 * (ratio.den - ratio.num) == 3 * ratio.den
            }
        },
        (pos == DockPosition::Left || pos == DockPosition::Top) ==> tree_ids(add_tree(t, id, pos)) == seq![id] + tree_ids(t),
        (pos == DockPosition::Right || pos == DockPosition::Bottom) ==> tree_ids(add_tree(t, id, pos)) == tree_ids(t) + seq![id],
        ({
            let leaves = layout_tree(add_tree(t, id, pos), rect, path, tab_h).1;
            let h = SPLITTER_SIZE / 2;
            &&& leaves.len() >= 1
            &&& match pos {
                DockPosition::Left => leaves[0].tab_rect.x == rect.x
                    && leaves[0].tab_rect.x + leaves[0].tab_rect.width == rect.x + trunc_div(rect.width * 3, 10) - h,
                DockPosition::Right => leaves.last().tab_rect.x == rect.x + trunc_div(rect.width * 7, 10) + h
                    && leaves.last().tab_rect.x + leaves.last().tab_rect.width == rect.x + rect.width,
                DockPosition::Top => leaves[0].tab_rect.y == rect.y
                    && leaves[0].content_rect.y + leaves[0].content_rect.height == rect.y + trunc_div(rect.height * 3, 10) - h,
                DockPosition::Bottom => leaves.last().tab_rect.y == rect.y + trunc_div(rect.height * 7, 10) + h
                    && leaves.last().content_rect.y + leaves.last().content_rect.height == rect.y + rect.height,
                _ => true,
            }
        }),
{
    let r = add_tree(t, id, pos);
    match r {
        DockTree::Split { direction, ratio, first, second } => {
            let (a, b, _) = split_rects(rect, direction, ratio);
            let (s1, l1) = layout_tree(*first, a, path.push(0), tab_h);
            let (s2, l2) = layout_tree(*second, b, path.push(1), tab_h);
            assert(layout_tree(r, rect, path, tab_h).1 == l1 + l2);
            assert(tree_ids(r) == tree_ids(*first) + tree_ids(*second));
            assert(tree_ids(single_tab(id)) == seq![id]);
            assert(split_fits(rect, direction, ratio));
            let hh = SPLITTER_SIZE / 2;
            if pos == DockPosition::Left || pos == DockPosition::Top {
                assert(layout_fits(*first, a, tab_h));
                assert(leaf_fits(a, tab_h));
                assert(l1.len() == 1);
                assert((l1 + l2)[0] == l1[0]);
                if pos == DockPosition::Left {
                    assert(a.x == rect.x);
                    assert(a.width == rect.x + trunc_div(rect.width * 3, 10) - rect.x - hh);
                } else {
                    assert(a.y == rect.y);
                    assert(a.height == rect.y + trunc_div(rect.height * 3, 10) - rect.y - hh);
                }
            } else {
                assert(layout_fits(*second, b, tab_h));
                assert(leaf_fits(b, tab_h));
                assert(l2.len() == 1);
                assert((l1 + l2).last() == l2[0]);
                if pos == DockPosition::Right {
                    assert(b.x == rect.x + trunc_div(rect.width * 7, 10) + hh);
                    assert(b.x + b.width == rect.x + rect.width);
                } else {
                    assert(b.y == rect.y + trunc_div(rect.height * 7, 10) + hh);
                    assert(b.y + b.height == rect.y + rect.height);
                }
            }
        },
        _ => {},
    }
}

proof fn lemma_push_first_leaf_ids(t: DockTree, id: Seq<char>)
    ensures
        !(t is Empty) ==> first_leaf_ids(push_first_leaf(t, id)) == first_leaf_ids(t).push(id),
    decreases t,
{
    match t {
        DockTree::Split { first, .. } => {
            lemma_push_first_leaf_ids(*first, id);
            if *first is Empty {
                assert(first_leaf_ids(single_tab(id)) =~= first_leaf_ids(*first).push(id));
            }
        },
        _ => {},
    }
}

/// Docking at the centre adds the panel as the last tab of the first tab
/// group (the one reached through first sides), leaving the other tabs of
/// that group in their order.
pub proof fn law_center_joins_first_group(t: DockTree, id: Seq<char>)
    requires
        !(t is Empty),
    ensures
        first_leaf_ids(add_tree(t, id, DockPosition::Center)) == first_leaf_ids(t).push(id),
{
    lemma_push_first_leaf_ids(t, id);
}

proof fn lemma_remove_absent(t: DockTree, id: Seq<char>)
    requires
        !tree_ids(t).contains(id),
    ensures
        remove_node(t, id) == (t, false),
    decreases t,
{
    match t {
        DockTree::Split { first, second, .. } => {
            assert forall|k: int| 0 <= k < tree_ids(*first).len() implies tree_ids(*first)[k] != id by {
                assert(tree_ids(t)[k] == tree_ids(*first)[k]);
            }
            assert forall|k: int| 0 <= k < tree_ids(*second).len() implies tree_ids(*second)[k] != id by {
                assert(tree_ids(t)[tree_ids(*first).len() + k] == tree_ids(*second)[k]);
            }
            lemma_remove_absent(*first, id);
            lemma_remove_absent(*second, id);
        },
        DockTree::Tabs { panels, .. } => {
            lemma_first_index(panels, id, panels.len() as int);
        },
        DockTree::Empty => {},
    }
}

proof fn lemma_remove_pushed(t: DockTree, id: Seq<char>)
    requires
        tree_wf(t),
        !(t is Empty),
        !tree_ids(t).contains(id),
    ensures
        remove_node(push_first_leaf(t, id), id) == (t, false),
    decreases t,
{
    match t {
        DockTree::Split { first, second, .. } => {
            assert forall|k: int| 0 <= k < tree_ids(*first).len() implies tree_ids(*first)[k] != id by {
                assert(tree_ids(t)[k] == tree_ids(*first)[k]);
            }
            assert forall|k: int| 0 <= k < tree_ids(*second).len() implies tree_ids(*second)[k] != id by {
                assert(tree_ids(t)[tree_ids(*first).len() + k] == tree_ids(*second)[k]);
            }
            lemma_remove_pushed(*first, id);
            lemma_remove_absent(*second, id);
        },
        DockTree::Tabs { panels, active } => {
            lemma_first_index(panels.push(id), id, panels.len() as int);
            assert(panels.push(id).remove(panels.len() as int) =~= panels);
        },
        DockTree::Empty => {},
    }
}

/// Undocking a panel that was just docked, and was not docked before,
/// gives back the layout as it was.
pub proof fn law_remove_undoes_add(t: DockTree, id: Seq<char>, pos: DockPosition)
    requires
        tree_wf(t),
        !tree_ids(t).contains(id),
        pos != DockPosition::Floating,
    ensures
        remove_tree(add_tree(t, id, pos), id) == t,
{
    lemma_first_index(seq![id], id, 0);
    assert(seq![id].remove(0) =~= Seq::<Seq<char>>::empty());
    assert(remove_node(single_tab(id), id).1);
    if !(t is Empty) {
        lemma_remove_absent(t, id);
        if pos == DockPosition::Center {
            lemma_remove_pushed(t, id);
        }
    }
}

proof fn lemma_remove_node(t: DockTree, id: Seq<char>)
    requires
        tree_wf(t),
        !(t is Empty),
    ensures
        remove_node(t, id).1 ==> tree_ids(t) =~= seq![id],
        !remove_node(t, id).1 ==> tree_wf(remove_node(t, id).0) && !(remove_node(t, id).0 is Empty),
        !remove_node(t, id).1 && tree_ids(t).to_multiset().count(id) <= 1 ==> tree_ids(remove_node(t, id).0).to_multiset()
            =~= tree_ids(t).to_multiset().remove(id),
    decreases t,
{
    broadcast use vstd::seq_lib::group_to_multiset_ensures;
    broadcast use vstd::multiset::group_multiset_axioms;
    broadcast use vstd::seq_lib::lemma_multiset_commutative;
    match t {
        DockTree::Tabs { panels, active } => {
            lemma_first_index_bounds(panels, id);
            match first_index(panels, id) {
                Some(i) => {
                    if panels.remove(i).len() == 0 {
                        assert(panels =~= seq![id]);
                    }
                },
                None => {},
            }
        },
        DockTree::Split { first, second, .. } => {
            lemma_remove_node(*first, id);
            let (f, g1) = remove_node(*first, id);
            if g1 {
                assert(seq![id] =~= Seq::<Seq<char>>::empty().push(id));
                assert(Seq::<Seq<char>>::empty().to_multiset() =~= Multiset::empty());
            } else {
                lemma_remove_node(*second, id);
                let (sec, g2) = remove_node(*second, id);
                if g2 {
                    assert(seq![id] =~= Seq::<Seq<char>>::empty().push(id));
                    assert(Seq::<Seq<char>>::empty().to_multiset() =~= Multiset::empty());
                    if tree_ids(t).to_multiset().count(id) <= 1 {
                        lemma_remove_absent(*first, id);
                    }
                }
            }
        },
        DockTree::Empty => {},
    }
}

/// Undocking a panel keeps the layout well formed; when the panel was
/// docked at most once, exactly that panel leaves the docked ones.
pub proof fn law_undock_removes_panel(t: DockTree, id: Seq<char>)
    requires
        tree_wf(t),
    ensures
        tree_wf(remove_tree(t, id)),
        tree_ids(t).to_multiset().count(id) <= 1 ==> tree_ids(remove_tree(t, id)).to_multiset()
            =~= tree_ids(t).to_multiset().remove(id),
{
    broadcast use vstd::seq_lib::group_to_multiset_ensures;
    broadcast use vstd::multiset::group_multiset_axioms;
    assert(Seq::<Seq<char>>::empty().to_multiset() =~= Multiset::empty());
    if !(t is Empty) {
        lemma_remove_node(t, id);
        assert(seq![id] =~= Seq::<Seq<char>>::empty().push(id));
    }
}

proof fn lemma_drag_ratio_wf(rel: int, len: int)
    requires
        fits_i32(rel),
        fits_i32(len),
    ensures
        drag_ratio(rel, len).wf(),
{
}

proof fn lemma_set_ratio_wf(t: DockTree, path: Seq<usize>, r: SplitRatio)
    requires
        tree_wf(t),
        r.wf(),
    ensures
        tree_wf(set_ratio(t, path, r).0),
        !(t is Empty) ==> !(set_ratio(t, path, r).0 is Empty),
        tree_ids(set_ratio(t, path, r).0) == tree_ids(t),
    decreases t,
{
    match t {
        DockTree::Split { first, second, .. } => {
            if path.len() > 0 {
                lemma_set_ratio_wf(*first, path.drop_first(), r);
                lemma_set_ratio_wf(*second, path.drop_first(), r);
            }
        },
        _ => {},
    }
}

/// Dragging a divider keeps the layout well formed and every panel where
/// it was.
pub proof fn law_drag_keeps_layout(t: DockTree, path: Seq<usize>, rel: i32, len: i32)
    requires
        tree_wf(t),
    ensures
        tree_wf(set_ratio(t, path, drag_ratio(rel as int, len as int)).0),
        tree_ids(set_ratio(t, path, drag_ratio(rel as int, len as int)).0) == tree_ids(t),
        drag_ratio(rel as int, len as int).wf(),
{
    lemma_drag_ratio_wf(rel as int, len as int);
    lemma_set_ratio_wf(t, path, drag_ratio(rel as int, len as int));
}

/// Width of the divider between the two sides of a split.
pub const SPLITTER_SIZE: i32 = 4;

/// Offset of the divider along an extent `len` under ratio `r`, truncated
/// toward zero.
pub open spec fn split_offset(len: int, r: SplitRatio) -> int {
    trunc_div(len * r.num, r.den as int)
}

/// Every coordinate the layout of a split computes is an `i32`.
pub open spec fn split_fits(rect: Rect, direction: DockSplitDirection, r: SplitRatio) -> bool {
    let (start, len) = match direction {
        DockSplitDirection::Horizontal => (rect.x as int, rect.width as int),
        DockSplitDirection::Vertical => (rect.y as int, rect.height as int),
    };
    let at = start + split_offset(len, r);
    &&& fits_i32(at)
    &&& fits_i32(start + len)
    &&& fits_i32(at - start - SPLITTER_SIZE / 2)
    &&& fits_i32(at + SPLITTER_SIZE / 2)
    &&& fits_i32(start + len - at)
    &&& fits_i32(start + len - at - SPLITTER_SIZE / 2)
    &&& fits_i32(at - SPLITTER_SIZE / 2)
}

/// The first side, second side and divider of a split of `rect`.
pub open spec fn split_rects(rect: Rect, direction: DockSplitDirection, r: SplitRatio) -> (Rect, Rect, Rect) {
    let h = SPLITTER_SIZE / 2;
    match direction {
        DockSplitDirection::Horizontal => {
            let at = rect.x + split_offset(rect.width as int, r);
            (
                Rect { x: rect.x, y: rect.y, width: (at - rect.x - h) as i32, height: rect.height },
                Rect { x: (at + h) as i32, y: rect.y, width: (rect.x + rect.width - at - h) as i32, height: rect.height },
                Rect { x: (at - h) as i32, y: rect.y, width: SPLITTER_SIZE, height: rect.height },
            )
        },
        DockSplitDirection::Vertical => {
            let at = rect.y + split_offset(rect.height as int, r);
            (
                Rect { x: rect.x, y: rect.y, width: rect.width, height: (at - rect.y - h) as i32 },
                Rect { x: rect.x, y: (at + h) as i32, width: rect.width, height: (rect.y + rect.height - at - h) as i32 },
                Rect { x: rect.x, y: (at - h) as i32, width: rect.width, height: SPLITTER_SIZE },
            )
        },
    }
}

/// A divider placed by the layout, with the path to its split.
pub struct SplitterView {
    pub rect: Rect,
    pub direction: DockSplitDirection,
    pub path: Seq<usize>,
}

/// A tab group placed by the layout: the path to it, its tab strip and the
/// area of its active panel.
pub struct LeafView {
    pub path: Seq<usize>,
    pub tab_rect: Rect,
    pub content_rect: Rect,
}

/// A tab group's tab strip is `tab_h` high at the top of its area.
pub open spec fn leaf_fits(rect: Rect, tab_h: int) -> bool {
    fits_i32(rect.y + tab_h) && fits_i32(rect.height - tab_h)
}

/// No coordinate of the layout of `t` in `rect` leaves `i32`.
pub open spec fn layout_fits(t: DockTree, rect: Rect, tab_h: int) -> bool
    decreases t,
{
    match t {
        DockTree::Split { direction, ratio, first, second } => {
            let (a, b, _) = split_rects(rect, direction, ratio);
            &&& split_fits(rect, direction, ratio)
            &&& layout_fits(*first, a, tab_h)
            &&& layout_fits(*second, b, tab_h)
        },
        DockTree::Tabs { panels, .. } => panels.len() > 0 ==> leaf_fits(rect, tab_h),
        DockTree::Empty => true,
    }
}

/// The dividers (each after those inside its sides) and the tab groups
/// (first side first) of `t` laid out in `rect`, `path` leading to `t`.
pub open spec fn layout_tree(t: DockTree, rect: Rect, path: Seq<usize>, tab_h: int) -> (Seq<SplitterView>, Seq<LeafView>)
    decreases t,
{
    match t {
        DockTree::Split { direction, ratio, first, second } => {
            let (a, b, d) = split_rects(rect, direction, ratio);
            let (s1, l1) = layout_tree(*first, a, path.push(0), tab_h);
            let (s2, l2) = layout_tree(*second, b, path.push(1), tab_h);
            (s1 + s2 + seq![SplitterView { rect: d, direction, path }], l1 + l2)
        },
        DockTree::Tabs { panels, .. } => {
            if panels.len() > 0 {
                (
                    Seq::empty(),
                    seq![
                        LeafView {
                            path,
                            tab_rect: Rect { x: rect.x, y: rect.y, width: rect.width, height: tab_h as i32 },
                            content_rect: Rect {
                                x: rect.x,
                                y: (rect.y + tab_h) as i32,
                                width: rect.width,
                                height: (rect.height - tab_h) as i32,
                            },
                        },
                    ],
                )
            } else {
                (Seq::empty(), Seq::empty())
            }
        },
        DockTree::Empty => (Seq::empty(), Seq::empty()),
    }
}

/// The path from the root of a dock tree to one of its splits: `0` steps
/// into a split's first side, `1` into its second.
pub struct SplitterPath {
    pub indices: Vec<usize>,
}

impl SplitterPath {
    pub fn new() -> (p: SplitterPath)
        ensures
            p.indices@ == Seq::<usize>::empty(),
    {
        SplitterPath { indices: Vec::new() }
    }

    pub fn push(&mut self, index: usize)
        ensures
            final(self).indices@ == old(self).indices@.push(index),
    {
        self.indices.push(index);
    }
}

/// A divider of the current layout.
pub struct DockSplitter {
    pub rect: Rect,
    pub direction: DockSplitDirection,
    pub path: SplitterPath,
}

impl View for DockSplitter {
    type V = SplitterView;

    open spec fn view(&self) -> SplitterView {
        SplitterView { rect: self.rect, direction: self.direction, path: self.path.indices@ }
    }
}

/// A tab group of the current layout.
pub struct DockLeaf {
    pub path: SplitterPath,
    pub tab_rect: Rect,
    pub content_rect: Rect,
}

impl View for DockLeaf {
    type V = LeafView;

    open spec fn view(&self) -> LeafView {
        LeafView { path: self.path.indices@, tab_rect: self.tab_rect, content_rect: self.content_rect }
    }
}

pub open spec fn splitter_views(v: Seq<DockSplitter>) -> Seq<SplitterView> {
    v.map_values(|s: DockSplitter| s@)
}

pub open spec fn leaf_views(v: Seq<DockLeaf>) -> Seq<LeafView> {
    v.map_values(|l: DockLeaf| l@)
}

fn copy_path(p: &Vec<usize>) -> (r: SplitterPath)
    ensures
        r.indices@ == p@,
{
    let mut v: Vec<usize> = Vec::new();
    let mut i: usize = 0;
    while i < p.len()
        invariant
            i <= p.len(),
            v@ == p@.subrange(0, i as int),
        decreases p.len() - i,
    {
        v.push(p[i]);
        i = i + 1;
        assert(v@ =~= p@.subrange(0, i as int));
    }
    assert(v@ =~= p@);
    SplitterPath { indices: v }
}

proof fn lemma_split_offset(len: int, r: SplitRatio)
    requires
        r.wf(),
    ensures
        len >= 0 ==> 0 <= split_offset(len, r) <= len,
        len < 0 ==> len <= split_offset(len, r) <= 0,
{
    if len >= 0 {
        assert(0 <= (len * r.num) / (r.den as int) <= len) by (nonlinear_arith)
            requires
                len >= 0,
                0 <= r.num <= r.den,
                r.den > 0,
        {
            assert(len * r.num <= len * r.den);
            vstd::arithmetic::div_mod::lemma_multiply_divide_le(len * r.num, r.den as int, len);
        }
    } else {
        assert(0 <= ((-len) * r.num) / (r.den as int) <= -len) by (nonlinear_arith)
            requires
                len < 0,
                0 <= r.num <= r.den,
                r.den > 0,
        {
            assert((-len) * r.num <= (-len) * r.den);
            vstd::arithmetic::div_mod::lemma_multiply_divide_le((-len) * r.num, r.den as int, -len);
        }
        assert(len * r.num == -((-len) * r.num)) by (nonlinear_arith);
    }
}

/// Where the divider of a split of `rect` falls, and the rectangles on
/// each side of it.
fn split_node_rects(rect: Rect, direction: DockSplitDirection, r: SplitRatio) -> (res: (Rect, Rect, Rect))
    requires
        r.wf(),
        split_fits(rect, direction, r),
    ensures
        res == split_rects(rect, direction, r),
{
    let h = SPLITTER_SIZE / 2;
    let (start, len) = match direction {
        DockSplitDirection::Horizontal => (rect.x, rect.width),
        DockSplitDirection::Vertical => (rect.y, rect.height),
    };
    assert(-0x8000_0000_0000_0000 <= (len as int) * (r.num as int) <= 0x7fff_ffff_ffff_ffff) by (nonlinear_arith)
        requires
            i32::MIN <= len <= i32::MAX,
            0 <= r.num <= 0x8000_0000,
    {}
    let prod: i64 = len as i64 * r.num;
    let off: i64 = prod / r.den;
    assert(off == trunc_div(len * r.num, r.den as int));
    proof {
        lemma_split_offset(len as int, r);
    }
    let at: i32 = start + off as i32;
    let end: i32 = start + len;
    match direction {
        DockSplitDirection::Horizontal => (
            Rect { x: rect.x, y: rect.y, width: at - rect.x - h, height: rect.height },
            Rect { x: at + h, y: rect.y, width: end - at - h, height: rect.height },
            Rect { x: at - h, y: rect.y, width: SPLITTER_SIZE, height: rect.height },
        ),
        DockSplitDirection::Vertical => (
            Rect { x: rect.x, y: rect.y, width: rect.width, height: at - rect.y - h },
            Rect { x: rect.x, y: at + h, width: rect.width, height: end - at - h },
            Rect { x: rect.x, y: at - h, width: rect.width, height: SPLITTER_SIZE },
        ),
    }
}

/// Lays out the subtree `node` in `rect`, `path` leading to it: appends its
/// dividers and tab groups as [`layout_tree`] lists them.
fn layout_node(
    node: &DockNode,
    rect: Rect,
    path: &mut Vec<usize>,
    tab_h: i32,
    splitters: &mut Vec<DockSplitter>,
    leaves: &mut Vec<DockLeaf>,
)
    requires
        tree_wf(node@),
        layout_fits(node@, rect, tab_h as int),
    ensures
        final(path)@ == old(path)@,
        splitter_views(final(splitters)@) == splitter_views(old(splitters)@) + layout_tree(node@, rect, old(path)@, tab_h as int).0,
        leaf_views(final(leaves)@) == leaf_views(old(leaves)@) + layout_tree(node@, rect, old(path)@, tab_h as int).1,
    decreases node,
{
    let ghost p0 = path@;
    let ghost s0 = splitter_views(splitters@);
    let ghost l0 = leaf_views(leaves@);
    match node {
        DockNode::Split { direction, ratio, first, second } => {
            let (a, b, d) = split_node_rects(rect, *direction, *ratio);
            path.push(0);
            layout_node(first, a, path, tab_h, splitters, leaves);
            let _ = path.pop();
            assert(path@ =~= p0);
            let ghost s1 = splitter_views(splitters@);
            let ghost l1 = leaf_views(leaves@);
            path.push(1);
            layout_node(second, b, path, tab_h, splitters, leaves);
            let _ = path.pop();
            assert(path@ =~= p0);
            let ghost s2 = splitter_views(splitters@);
            let sp = DockSplitter { rect: d, direction: *direction, path: copy_path(path) };
            splitters.push(sp);
            assert(splitter_views(splitters@) =~= s2.push(sp@));
            assert(splitter_views(splitters@) =~= s0 + layout_tree(node@, rect, p0, tab_h as int).0);
            assert(leaf_views(leaves@) =~= l0 + layout_tree(node@, rect, p0, tab_h as int).1);
        },
        DockNode::Tabs { panels, .. } => {
            if panels.len() > 0 {
                let leaf = DockLeaf {
                    path: copy_path(path),
                    tab_rect: Rect { x: rect.x, y: rect.y, width: rect.width, height: tab_h },
                    content_rect: Rect { x: rect.x, y: rect.y + tab_h, width: rect.width, height: rect.height - tab_h },
                };
                leaves.push(leaf);
                assert(leaf_views(leaves@) =~= l0.push(leaf@));
            }
            assert(splitter_views(splitters@) =~= s0 + layout_tree(node@, rect, p0, tab_h as int).0);
            assert(leaf_views(leaves@) =~= l0 + layout_tree(node@, rect, p0, tab_h as int).1);
        },
        DockNode::Empty => {
            assert(splitter_views(splitters@) =~= s0 + layout_tree(node@, rect, p0, tab_h as int).0);
            assert(leaf_views(leaves@) =~= l0 + layout_tree(node@, rect, p0, tab_h as int).1);
        },
    }
}

/// A panel that can be docked: its id, title, whether it may be closed or
/// floated, and an optional icon name. What it shows is kept by its owner
/// under the same id.
pub struct DockablePanel {
    pub id: String,
    pub title: String,
    pub can_close: bool,
    pub can_float: bool,
    pub icon: Option<String>,
}

impl DockablePanel {
    /// A closable, floatable panel without icon.
    pub fn new(id: &str, title: &str) -> (p: DockablePanel)
        ensures
            p.id@ == id@,
            p.title@ == title@,
            p.can_close,
            p.can_float,
            p.icon is None,
    {
        DockablePanel { id: String::from_str(id), title: String::from_str(title), can_close: true, can_float: true, icon: None }
    }

    pub fn with_icon(self, icon: &str) -> (p: DockablePanel)
        ensures
            p.icon matches Some(i) && i@ == icon@,
            p.id == self.id && p.title == self.title,
            p.can_close == self.can_close && p.can_float == self.can_float,
    {
        DockablePanel { icon: Some(String::from_str(icon)), ..self }
    }

    pub fn with_can_close(self, can_close: bool) -> (p: DockablePanel)
        ensures
            p == (DockablePanel { can_close, ..self }),
    {
        DockablePanel { can_close, ..self }
    }

    pub fn with_can_float(self, can_float: bool) -> (p: DockablePanel)
        ensures
            p == (DockablePanel { can_float, ..self }),
    {
        DockablePanel { can_float, ..self }
    }
}

/// A panel shown in a window of its own, which its title bar drags.
pub struct FloatingWindow {
    pub panel_id: String,
    pub bounds: Rect,
    pub dragging: bool,
    pub drag_offset: Point,
    pub resizing: bool,
}

/// What the dock does with an event: it handled it itself, or it is for
/// the tab strips and panels of the docked groups.
#[derive(Clone, Copy, Debug, PartialEq, Eq, Structural)]
pub enum DockEventOutcome {
    Done(EventResult),
    ToPanels,
}

pub open spec fn panel_ids(ps: Seq<DockablePanel>) -> Seq<Seq<char>> {
    ps.map_values(|p: DockablePanel| p.id@)
}

pub open spec fn distinct_ids(s: Seq<Seq<char>>) -> bool {
    forall|i: int, j: int| 0 <= i < j < s.len() ==> s[i] != s[j]
}

/// The panels after storing `p`: it replaces the panel with its id, or is
/// appended when there is none.
pub open spec fn store_panel(ps: Seq<DockablePanel>, p: DockablePanel) -> Seq<DockablePanel> {
    match first_index(panel_ids(ps), p.id@) {
        Some(i) => ps.update(i, p),
        None => ps.push(p),
    }
}

/// The windows without those of panel `id`, in order.
pub open spec fn windows_without(ws: Seq<FloatingWindow>, id: Seq<char>) -> Seq<FloatingWindow>
    decreases ws.len(),
{
    if ws.len() == 0 {
        ws
    } else {
        let rest = windows_without(ws.drop_last(), id);
        if ws.last().panel_id@ == id { rest } else { rest.push(ws.last()) }
    }
}

/// The window a floated panel opens in.
pub open spec fn new_window(id: String) -> FloatingWindow {
    FloatingWindow {
        panel_id: id,
        bounds: Rect { x: 100, y: 100, width: 400, height: 300 },
        dragging: false,
        drag_offset: Point { x: 0, y: 0 },
        resizing: false,
    }
}

/// The ids along the first children down to the first tab group.
pub open spec fn first_leaf_ids(t: DockTree) -> Seq<Seq<char>>
    decreases t,
{
    match t {
        DockTree::Split { first, .. } => first_leaf_ids(*first),
        DockTree::Tabs { panels, .. } => panels,
        DockTree::Empty => Seq::empty(),
    }
}

pub open spec fn first_leaf_active(t: DockTree) -> Option<int>
    decreases t,
{
    match t {
        DockTree::Split { first, .. } => first_leaf_active(*first),
        DockTree::Tabs { active, .. } => Some(active),
        DockTree::Empty => None,
    }
}

/// The title bar of window `w` when title bars are `th` high.
pub open spec fn title_bar(w: FloatingWindow, th: i32) -> Rect {
    Rect { x: w.bounds.x, y: w.bounds.y, width: w.bounds.width, height: th }
}

/// The first window from index `i` whose title bar contains `p`.
pub open spec fn first_title_hit(ws: Seq<FloatingWindow>, p: Point, th: i32, i: int) -> Option<int>
    decreases ws.len() - i,
{
    if i < 0 || i >= ws.len() {
        None
    } else if title_bar(ws[i], th).contains_spec(p) {
        Some(i)
    } else {
        first_title_hit(ws, p, th, i + 1)
    }
}

/// The first window from index `i` being dragged.
pub open spec fn first_dragging(ws: Seq<FloatingWindow>, i: int) -> Option<int>
    decreases ws.len() - i,
{
    if i < 0 || i >= ws.len() {
        None
    } else if ws[i].dragging {
        Some(i)
    } else {
        first_dragging(ws, i + 1)
    }
}

/// The first divider from index `i` containing `p`.
pub open spec fn first_splitter_hit(ss: Seq<SplitterView>, p: Point, i: int) -> Option<int>
    decreases ss.len() - i,
{
    if i < 0 || i >= ss.len() {
        None
    } else if ss[i].rect.contains_spec(p) {
        Some(i)
    } else {
        first_splitter_hit(ss, p, i + 1)
    }
}

/// Window `w` grabbed by its title bar at `p`.
pub open spec fn grabbed(w: FloatingWindow, p: Point) -> FloatingWindow {
    FloatingWindow {
        dragging: true,
        drag_offset: Point { x: (p.x - w.bounds.x) as i32, y: (p.y - w.bounds.y) as i32 },
        ..w
    }
}

/// Window `w` dragged so that its grab point is at `p`.
pub open spec fn dragged(w: FloatingWindow, p: Point) -> FloatingWindow {
    FloatingWindow {
        bounds: Rect { x: (p.x - w.drag_offset.x) as i32, y: (p.y - w.drag_offset.y) as i32, ..w.bounds },
        ..w
    }
}

pub open spec fn let_go(w: FloatingWindow) -> FloatingWindow {
    FloatingWindow { dragging: false, resizing: false, ..w }
}

pub open spec fn all_let_go(ws: Seq<FloatingWindow>) -> Seq<FloatingWindow> {
    ws.map_values(|w: FloatingWindow| let_go(w))
}

/// A dock of panels: a tree of splits and tab groups, and floating windows.
pub struct DockPanel {
    state: WidgetState,
    panels: Vec<DockablePanel>,
    root_node: DockNode,
    floating_windows: Vec<FloatingWindow>,
    drag_preview_rect: Option<Rect>,
    active_splitter: Option<usize>,
    splitter_rects: Vec<DockSplitter>,
    leaf_rects: Vec<DockLeaf>,
    tab_height: i32,
    title_height: i32,
}

impl DockPanel {
    pub closed spec fn state(&self) -> WidgetState {
        self.state
    }

    /// The panels, in the order they were first added.
    pub closed spec fn panel_list(&self) -> Seq<DockablePanel> {
        self.panels@
    }

    pub closed spec fn tree(&self) -> DockTree {
        self.root_node@
    }

    pub closed spec fn windows(&self) -> Seq<FloatingWindow> {
        self.floating_windows@
    }

    /// The divider being dragged, by index into `splitters()`.
    pub closed spec fn grabbed_splitter(&self) -> Option<usize> {
        self.active_splitter
    }

    pub closed spec fn splitters(&self) -> Seq<SplitterView> {
        splitter_views(self.splitter_rects@)
    }

    pub closed spec fn leaves(&self) -> Seq<LeafView> {
        leaf_views(self.leaf_rects@)
    }

    pub closed spec fn tab_height(&self) -> i32 {
        self.tab_height
    }

    pub closed spec fn title_height(&self) -> i32 {
        self.title_height
    }

    pub closed spec fn drop_preview(&self) -> Option<Rect> {
        self.drag_preview_rect
    }

    /// The docked layout is well formed and no two panels share an id.
    pub open spec fn wf(&self) -> bool {
        &&& tree_wf(self.tree())
        &&& distinct_ids(panel_ids(self.panel_list()))
    }

    /// Everything but the widget state is as in `o`.
    pub open spec fn same_except_state(&self, o: &DockPanel) -> bool {
        &&& self.panel_list() == o.panel_list()
        &&& self.tree() == o.tree()
        &&& self.windows() == o.windows()
        &&& self.grabbed_splitter() == o.grabbed_splitter()
        &&& self.splitters() == o.splitters()
        &&& self.leaves() == o.leaves()
        &&& self.tab_height() == o.tab_height()
        &&& self.title_height() == o.title_height()
        &&& self.drop_preview() == o.drop_preview()
    }

    /// An empty dock: no panels, no windows, 30-pixel tab strips and
    /// 25-pixel title bars until the first layout.
    pub fn new(id: WidgetId) -> (d: DockPanel)
        ensures
            d.wf(),
            d.state() == WidgetState::new_spec(id),
            d.panel_list() == Seq::<DockablePanel>::empty(),
            d.tree() == DockTree::Empty,
            d.windows() == Seq::<FloatingWindow>::empty(),
            d.grabbed_splitter() is None,
            d.splitters() == Seq::<SplitterView>::empty(),
            d.leaves() == Seq::<LeafView>::empty(),
            d.tab_height() == 30,
            d.title_height() == 25,
            d.drop_preview() is None,
    {
        let d = DockPanel {
            state: WidgetState::new(id),
            panels: Vec::new(),
            root_node: DockNode::Empty,
            floating_windows: Vec::new(),
            drag_preview_rect: None,
            active_splitter: None,
            splitter_rects: Vec::new(),
            leaf_rects: Vec::new(),
            tab_height: 30,
            title_height: 25,
        };
        assert(panel_ids(d.panels@) =~= Seq::<Seq<char>>::empty());
        assert(splitter_views(d.splitter_rects@) =~= Seq::<SplitterView>::empty());
        assert(leaf_views(d.leaf_rects@) =~= Seq::<LeafView>::empty());
        d
    }
}

/// Position of the panel with id `id`.
fn find_panel_index(ps: &Vec<DockablePanel>, id: &String) -> (r: Option<usize>)
    ensures
        match r {
            Some(i) => first_index(panel_ids(ps@), id@) == Some(i as int),
            None => first_index(panel_ids(ps@), id@) is None,
        },
{
    let ghost v = panel_ids(ps@);
    let mut i: usize = 0;
    while i < ps.len()
        invariant
            0 <= i <= ps.len(),
            v == panel_ids(ps@),
            forall|k: int| 0 <= k < i ==> v[k] != id@,
        decreases ps.len() - i,
    {
        if ps[i].id == *id {
            proof {
                lemma_first_index(v, id@, i as int);
            }
            return Some(i);
        }
        i = i + 1;
    }
    proof {
        lemma_first_index(v, id@, i as int);
    }
    None
}

/// The windows of `ws` whose panel is not `id`.
fn keep_windows_without(ws: &Vec<FloatingWindow>, id: &String) -> (r: Vec<FloatingWindow>)
    ensures
        r@ == windows_without(ws@, id@),
{
    let mut out: Vec<FloatingWindow> = Vec::new();
    let mut i: usize = 0;
    while i < ws.len()
        invariant
            i <= ws.len(),
            out@ == windows_without(ws@.subrange(0, i as int), id@),
        decreases ws.len() - i,
    {
        let ghost pre = ws@.subrange(0, i as int);
        assert(ws@.subrange(0, i + 1).drop_last() =~= pre);
        let w = &ws[i];
        if w.panel_id != *id {
            out.push(
                FloatingWindow {
                    panel_id: w.panel_id.clone(),
                    bounds: w.bounds,
                    dragging: w.dragging,
                    drag_offset: w.drag_offset,
                    resizing: w.resizing,
                },
            );
        }
        i = i + 1;
    }
    assert(ws@.subrange(0, ws@.len() as int) =~= ws@);
    out
}

fn copy_ids(v: &Vec<String>) -> (r: Vec<String>)
    ensures
        r@ == v@,
{
    let mut out: Vec<String> = Vec::new();
    let mut i: usize = 0;
    while i < v.len()
        invariant
            i <= v.len(),
            out@ == v@.subrange(0, i as int),
        decreases v.len() - i,
    {
        out.push(v[i].clone());
        i = i + 1;
        assert(out@ =~= v@.subrange(0, i as int));
    }
    assert(out@ =~= v@);
    out
}

fn first_leaf_of(node: &DockNode) -> (r: Vec<String>)
    ensures
        ids_view(r@) == first_leaf_ids(node@),
    decreases node,
{
    match node {
        DockNode::Split { first, .. } => first_leaf_of(first),
        DockNode::Tabs { panels, .. } => copy_ids(panels),
        DockNode::Empty => {
            let r: Vec<String> = Vec::new();
            assert(ids_view(r@) =~= Seq::<Seq<char>>::empty());
            r
        },
    }
}

fn first_leaf_active_of(node: &DockNode) -> (r: Option<usize>)
    ensures
        match r {
            Some(a) => first_leaf_active(node@) == Some(a as int),
            None => first_leaf_active(node@) is None,
        },
    decreases node,
{
    match node {
        DockNode::Split { first, .. } => first_leaf_active_of(first),
        DockNode::Tabs { active_index, .. } => Some(*active_index),
        DockNode::Empty => None,
    }
}

/// The height of tab strips under `theme`: a line of base text with at
/// least 8 pixels of padding above and below.
pub open spec fn dock_tab_height(theme: ThemeMetrics) -> int {
    theme.font_size_base + 2 * (if theme.padding_top < 8 { 8 } else { theme.padding_top as int })
}

/// The height of floating title bars under `theme`.
pub open spec fn dock_title_height(theme: ThemeMetrics) -> int {
    theme.font_size_base + (if theme.padding_top < 8 { 8 } else { theme.padding_top as int })
}

impl DockPanel {
    /// Keeps `panel`, replacing the one with the same id.
    fn store(&mut self, panel: DockablePanel)
        requires
            distinct_ids(panel_ids(old(self).panels@)),
        ensures
            final(self).panels@ == store_panel(old(self).panels@, panel),
            distinct_ids(panel_ids(final(self).panels@)),
            final(self).state == old(self).state,
            final(self).root_node == old(self).root_node,
            final(self).floating_windows == old(self).floating_windows,
            final(self).drag_preview_rect == old(self).drag_preview_rect,
            final(self).active_splitter == old(self).active_splitter,
            final(self).splitter_rects == old(self).splitter_rects,
            final(self).leaf_rects == old(self).leaf_rects,
            final(self).tab_height == old(self).tab_height,
            final(self).title_height == old(self).title_height,
    {
        let ghost before = panel_ids(self.panels@);
        proof {
            lemma_first_index_bounds(before, panel.id@);
        }
        match find_panel_index(&self.panels, &panel.id) {
            Some(i) => {
                self.panels.set(i, panel);
                assert(panel_ids(self.panels@) =~= before);
            },
            None => {
                self.panels.push(panel);
                assert(panel_ids(self.panels@) =~= before.push(panel.id@));
            },
        }
    }

    /// Adds `panel` at `position`: in a floating window at (100, 100), 400
    /// by 300, or docked into the layout as [`add_tree`] says. A panel with
    /// the same id is replaced.
    pub fn add_panel(&mut self, panel: DockablePanel, position: DockPosition)
        requires
            old(self).wf(),
        ensures
            final(self).wf(),
            final(self).panel_list() == store_panel(old(self).panel_list(), panel),
            position == DockPosition::Floating ==> final(self).tree() == old(self).tree()
                && final(self).windows() == old(self).windows().push(new_window(panel.id)),
            position != DockPosition::Floating ==> final(self).tree() == add_tree(old(self).tree(), panel.id@, position)
                && final(self).windows() == old(self).windows(),
            final(self).state() == old(self).state(),
            final(self).grabbed_splitter() == old(self).grabbed_splitter(),
            final(self).splitters() == old(self).splitters(),
            final(self).leaves() == old(self).leaves(),
            final(self).tab_height() == old(self).tab_height(),
            final(self).title_height() == old(self).title_height(),
            final(self).drop_preview() == old(self).drop_preview(),
    {
        let panel_id = panel.id.clone();
        let ghost the_id = panel.id;
        self.store(panel);
        match position {
            DockPosition::Floating => {
                self.floating_windows.push(
                    FloatingWindow {
                        panel_id,
                        bounds: Rect::new(100, 100, 400, 300),
                        dragging: false,
                        drag_offset: Point::zero(),
                        resizing: false,
                    },
                );
            },
            _ => {
                let mut root = DockNode::Empty;
                std::mem::swap(&mut root, &mut self.root_node);
                proof {
                    law_dock_adds_panel(root@, panel_id@, position);
                }
                self.root_node = add_to_dock_tree(root, panel_id, position);
            },
        }
    }

    /// Removes the panel with id `panel_id` from the panels, the floating
    /// windows and the docked layout, and hands it back; `None` (and no
    /// change) when there is no such panel.
    pub fn remove_panel(&mut self, panel_id: &str) -> (r: Option<DockablePanel>)
        requires
            old(self).wf(),
        ensures
            final(self).wf(),
            match first_index(panel_ids(old(self).panel_list()), panel_id@) {
                None => r is None && final(self).panel_list() == old(self).panel_list()
                    && final(self).tree() == old(self).tree() && final(self).windows() == old(self).windows(),
                Some(i) => r == Some(old(self).panel_list()[i])
                    && final(self).panel_list() == old(self).panel_list().remove(i)
                    && final(self).windows() == windows_without(old(self).windows(), panel_id@)
                    && final(self).tree() == remove_tree(old(self).tree(), panel_id@),
            },
            final(self).state() == old(self).state(),
            final(self).grabbed_splitter() == old(self).grabbed_splitter(),
            final(self).splitters() == old(self).splitters(),
            final(self).leaves() == old(self).leaves(),
            final(self).tab_height() == old(self).tab_height(),
            final(self).title_height() == old(self).title_height(),
            final(self).drop_preview() == old(self).drop_preview(),
    {
        let key = String::from_str(panel_id);
        let ghost ids = panel_ids(self.panels@);
        proof {
            lemma_first_index_bounds(ids, key@);
        }
        match find_panel_index(&self.panels, &key) {
            None => None,
            Some(i) => {
                let p = self.panels.remove(i);
                assert(panel_ids(self.panels@) =~= ids.remove(i as int));
                assert forall|a: int, b: int| 0 <= a < b < panel_ids(self.panels@).len() implies panel_ids(self.panels@)[a]
                    != panel_ids(self.panels@)[b] by {
                    if a >= i {
                        assert(panel_ids(self.panels@)[a] == ids[a + 1]);
                    }
                    if b >= i {
                        assert(panel_ids(self.panels@)[b] == ids[b + 1]);
                    }
                }
                let kept = keep_windows_without(&self.floating_windows, &key);
                self.floating_windows = kept;
                let mut root = DockNode::Empty;
                std::mem::swap(&mut root, &mut self.root_node);
                proof {
                    law_undock_removes_panel(root@, key@);
                }
                let (new_root, gone) = remove_from_node(root, &key);
                self.root_node = if gone {
                    DockNode::Empty
                } else {
                    new_root
                };
                Some(p)
            },
        }
    }

    /// The ids of the first tab group reached through first children.
    pub fn first_leaf_panels_for_test(&self) -> (r: Vec<String>)
        ensures
            ids_view(r@) == first_leaf_ids(self.tree()),
    {
        first_leaf_of(&self.root_node)
    }

    /// The active index of the first tab group reached through first
    /// children, if any.
    pub fn first_leaf_active_index_for_test(&self) -> (r: Option<usize>)
        ensures
            match r {
                Some(a) => first_leaf_active(self.tree()) == Some(a as int),
                None => first_leaf_active(self.tree()) is None,
            },
    {
        first_leaf_active_of(&self.root_node)
    }
}

/// The offset of `p` into `bounds` and the extent of `bounds` along the
/// direction in which a divider moves.
pub open spec fn drag_along(bounds: Rect, direction: DockSplitDirection, p: Point) -> (int, int) {
    match direction {
        DockSplitDirection::Horizontal => (p.x - bounds.x, bounds.width as int),
        DockSplitDirection::Vertical => (p.y - bounds.y, bounds.height as int),
    }
}

/// The tab group at `path` with tab `index` made active; the flag says
/// whether that changed anything.
pub open spec fn select_tab(t: DockTree, path: Seq<usize>, index: int) -> (DockTree, bool)
    decreases t,
{
    match t {
        DockTree::Tabs { panels, active } => {
            if path.len() == 0 && 0 <= index < panels.len() && index != active {
                (DockTree::Tabs { panels, active: index }, true)
            } else {
                (t, false)
            }
        },
        DockTree::Split { direction, ratio, first, second } => {
            if path.len() == 0 {
                (t, false)
            } else if path[0] == 0 {
                let (f, ok) = select_tab(*first, path.drop_first(), index);
                (DockTree::Split { direction, ratio, first: Box::new(f), second }, ok)
            } else if path[0] == 1 {
                let (s, ok) = select_tab(*second, path.drop_first(), index);
                (DockTree::Split { direction, ratio, first, second: Box::new(s) }, ok)
            } else {
                (t, false)
            }
        },
        DockTree::Empty => (t, false),
    }
}

fn select_tab_in_node(node: DockNode, path: &Vec<usize>, start: usize, index: usize) -> (res: (DockNode, bool))
    requires
        start <= path@.len(),
    ensures
        (res.0@, res.1) == select_tab(node@, path@.subrange(start as int, path@.len() as int), index as int),
    decreases node,
{
    let ghost rest = path@.subrange(start as int, path@.len() as int);
    match node {
        DockNode::Tabs { panels, active_index } => {
            if start == path.len() && index < panels.len() && index != active_index {
                (DockNode::Tabs { panels, active_index: index }, true)
            } else {
                (DockNode::Tabs { panels, active_index }, false)
            }
        },
        DockNode::Split { direction, ratio, first, second } => {
            if start == path.len() {
                (DockNode::Split { direction, ratio, first, second }, false)
            } else {
                assert(rest.drop_first() =~= path@.subrange(start + 1, path@.len() as int));
                let next = path[start];
                if next == 0 {
                    let (f, ok) = select_tab_in_node(*first, path, start + 1, index);
                    (DockNode::Split { direction, ratio, first: Box::new(f), second }, ok)
                } else if next == 1 {
                    let (s, ok) = select_tab_in_node(*second, path, start + 1, index);
                    (DockNode::Split { direction, ratio, first, second: Box::new(s) }, ok)
                } else {
                    (DockNode::Split { direction, ratio, first, second }, false)
                }
            }
        },
        DockNode::Empty => (DockNode::Empty, false),
    }
}

proof fn lemma_select_tab_wf(t: DockTree, path: Seq<usize>, index: int)
    requires
        tree_wf(t),
    ensures
        tree_wf(select_tab(t, path, index).0),
        !(t is Empty) ==> !(select_tab(t, path, index).0 is Empty),
        tree_ids(select_tab(t, path, index).0) == tree_ids(t),
    decreases t,
{
    match t {
        DockTree::Split { first, second, .. } => {
            if path.len() > 0 {
                lemma_select_tab_wf(*first, path.drop_first(), index);
                lemma_select_tab_wf(*second, path.drop_first(), index);
            }
        },
        _ => {},
    }
}

impl DockPanel {
    /// Tree, windows and the grabbed divider are as in `o`.
    pub open spec fn keeps_layout(&self, o: &DockPanel) -> bool {
        &&& self.tree() == o.tree()
        &&& self.windows() == o.windows()
        &&& self.grabbed_splitter() == o.grabbed_splitter()
    }

    /// Panels, widget state, computed layout and sizes are as in `o`.
    pub open spec fn keeps_setup(&self, o: &DockPanel) -> bool {
        &&& self.state() == o.state()
        &&& self.panel_list() == o.panel_list()
        &&& self.splitters() == o.splitters()
        &&& self.leaves() == o.leaves()
        &&& self.tab_height() == o.tab_height()
        &&& self.title_height() == o.title_height()
        &&& self.drop_preview() == o.drop_preview()
    }

    /// Moving the pointer to `p` keeps every coordinate the dock then
    /// computes within `i32`.
    pub open spec fn move_fits(&self, p: Point) -> bool {
        match first_dragging(self.windows(), 0) {
            Some(k) => fits_i32(p.x - self.windows()[k].drag_offset.x) && fits_i32(p.y - self.windows()[k].drag_offset.y),
            None => match self.grabbed_splitter() {
                Some(i) => i < self.splitters().len() ==> fits_i32(
                    drag_along(self.state().bounds, self.splitters()[i as int].direction, p).0,
                ),
                None => true,
            },
        }
    }

    proof fn lemma_title_hit_step(ws: Seq<FloatingWindow>, p: Point, th: i32, i: int)
        requires
            0 <= i < ws.len(),
            !title_bar(ws[i], th).contains_spec(p),
        ensures
            first_title_hit(ws, p, th, i) == first_title_hit(ws, p, th, i + 1),
    {
    }

    fn find_title_hit(&self, p: Point) -> (r: Option<usize>)
        ensures
            match r {
                Some(k) => first_title_hit(self.windows(), p, self.title_height(), 0) == Some(k as int)
                    && k < self.windows().len() && title_bar(self.windows()[k as int], self.title_height()).contains_spec(p),
                None => first_title_hit(self.windows(), p, self.title_height(), 0) is None,
            },
    {
        let ghost ws = self.floating_windows@;
        let th = self.title_height;
        let mut i: usize = 0;
        while i < self.floating_windows.len()
            invariant
                i <= self.floating_windows.len(),
                ws == self.floating_windows@,
                th == self.title_height,
                first_title_hit(ws, p, th, 0) == first_title_hit(ws, p, th, i as int),
            decreases self.floating_windows.len() - i,
        {
            let b = self.floating_windows[i].bounds;
            let bar = Rect::new(b.x, b.y, b.width, th);
            if bar.contains(p) {
                return Some(i);
            }
            proof {
                Self::lemma_title_hit_step(ws, p, th, i as int);
            }
            i = i + 1;
        }
        None
    }

    fn find_dragging(&self) -> (r: Option<usize>)
        ensures
            match r {
                Some(k) => first_dragging(self.windows(), 0) == Some(k as int) && k < self.windows().len(),
                None => first_dragging(self.windows(), 0) is None,
            },
    {
        let ghost ws = self.floating_windows@;
        let mut i: usize = 0;
        while i < self.floating_windows.len()
            invariant
                i <= self.floating_windows.len(),
                ws == self.floating_windows@,
                first_dragging(ws, 0) == first_dragging(ws, i as int),
            decreases self.floating_windows.len() - i,
        {
            if self.floating_windows[i].dragging {
                return Some(i);
            }
            i = i + 1;
        }
        None
    }

    fn find_splitter_hit(&self, p: Point) -> (r: Option<usize>)
        ensures
            match r {
                Some(k) => first_splitter_hit(self.splitters(), p, 0) == Some(k as int),
                None => first_splitter_hit(self.splitters(), p, 0) is None,
            },
    {
        let ghost ss = splitter_views(self.splitter_rects@);
        let mut i: usize = 0;
        while i < self.splitter_rects.len()
            invariant
                i <= self.splitter_rects.len(),
                ss == splitter_views(self.splitter_rects@),
                first_splitter_hit(ss, p, 0) == first_splitter_hit(ss, p, i as int),
            decreases self.splitter_rects.len() - i,
        {
            if self.splitter_rects[i].rect.contains(p) {
                return Some(i);
            }
            i = i + 1;
        }
        None
    }

    fn grab_window(&mut self, k: usize, p: Point)
        requires
            k < old(self).floating_windows@.len(),
            title_bar(old(self).floating_windows@[k as int], old(self).title_height).contains_spec(p),
        ensures
            final(self).floating_windows@ == old(self).floating_windows@.update(k as int, grabbed(old(self).floating_windows@[k as int], p)),
            final(self).state == old(self).state,
            final(self).panels == old(self).panels,
            final(self).root_node == old(self).root_node,
            final(self).active_splitter == old(self).active_splitter,
            final(self).splitter_rects == old(self).splitter_rects,
            final(self).leaf_rects == old(self).leaf_rects,
            final(self).tab_height == old(self).tab_height,
            final(self).title_height == old(self).title_height,
            final(self).drag_preview_rect == old(self).drag_preview_rect,
    {
        let w = &self.floating_windows[k];
        let nw = FloatingWindow {
            panel_id: w.panel_id.clone(),
            bounds: w.bounds,
            dragging: true,
            drag_offset: Point::new(p.x - w.bounds.x, p.y - w.bounds.y),
            resizing: w.resizing,
        };
        self.floating_windows.set(k, nw);
    }

    fn drag_window(&mut self, k: usize, p: Point)
        requires
            k < old(self).floating_windows@.len(),
            fits_i32(p.x - old(self).floating_windows@[k as int].drag_offset.x),
            fits_i32(p.y - old(self).floating_windows@[k as int].drag_offset.y),
        ensures
            final(self).floating_windows@ == old(self).floating_windows@.update(k as int, dragged(old(self).floating_windows@[k as int], p)),
            final(self).state == old(self).state,
            final(self).panels == old(self).panels,
            final(self).root_node == old(self).root_node,
            final(self).active_splitter == old(self).active_splitter,
            final(self).splitter_rects == old(self).splitter_rects,
            final(self).leaf_rects == old(self).leaf_rects,
            final(self).tab_height == old(self).tab_height,
            final(self).title_height == old(self).title_height,
            final(self).drag_preview_rect == old(self).drag_preview_rect,
    {
        let w = &self.floating_windows[k];
        let nw = FloatingWindow {
            panel_id: w.panel_id.clone(),
            bounds: Rect::new(p.x - w.drag_offset.x, p.y - w.drag_offset.y, w.bounds.width, w.bounds.height),
            dragging: w.dragging,
            drag_offset: w.drag_offset,
            resizing: w.resizing,
        };
        self.floating_windows.set(k, nw);
    }

    fn release_windows(&mut self)
        ensures
            final(self).floating_windows@ == all_let_go(old(self).floating_windows@),
            final(self).state == old(self).state,
            final(self).panels == old(self).panels,
            final(self).root_node == old(self).root_node,
            final(self).active_splitter == old(self).active_splitter,
            final(self).splitter_rects == old(self).splitter_rects,
            final(self).leaf_rects == old(self).leaf_rects,
            final(self).tab_height == old(self).tab_height,
            final(self).title_height == old(self).title_height,
            final(self).drag_preview_rect == old(self).drag_preview_rect,
    {
        let ghost ws = self.floating_windows@;
        let mut i: usize = 0;
        while i < self.floating_windows.len()
            invariant
                i <= self.floating_windows.len(),
                self.floating_windows@.len() == ws.len(),
                forall|j: int| 0 <= j < i ==> self.floating_windows@[j] == let_go(ws[j]),
                forall|j: int| i <= j < ws.len() ==> self.floating_windows@[j] == ws[j],
                self.state == old(self).state,
                self.panels == old(self).panels,
                self.root_node == old(self).root_node,
                self.active_splitter == old(self).active_splitter,
                self.splitter_rects == old(self).splitter_rects,
                self.leaf_rects == old(self).leaf_rects,
                self.tab_height == old(self).tab_height,
                self.title_height == old(self).title_height,
                self.drag_preview_rect == old(self).drag_preview_rect,
            decreases ws.len() - i,
        {
            let w = &self.floating_windows[i];
            let nw = FloatingWindow {
                panel_id: w.panel_id.clone(),
                bounds: w.bounds,
                dragging: false,
                drag_offset: w.drag_offset,
                resizing: false,
            };
            self.floating_windows.set(i, nw);
            i = i + 1;
        }
        assert(self.floating_windows@ =~= all_let_go(ws));
    }

    fn drag_splitter(&mut self, i: usize, p: Point)
        requires
            i < old(self).splitter_rects@.len(),
            tree_wf(old(self).root_node@),
            fits_i32(drag_along(old(self).state.bounds, old(self).splitter_rects@[i as int].direction, p).0),
        ensures
            final(self).root_node@ == set_ratio(
                old(self).root_node@,
                old(self).splitter_rects@[i as int].path.indices@,
                drag_ratio(
                    drag_along(old(self).state.bounds, old(self).splitter_rects@[i as int].direction, p).0,
                    drag_along(old(self).state.bounds, old(self).splitter_rects@[i as int].direction, p).1,
                ),
            ).0,
            tree_wf(final(self).root_node@),
            final(self).state == old(self).state,
            final(self).panels == old(self).panels,
            final(self).floating_windows == old(self).floating_windows,
            final(self).active_splitter == old(self).active_splitter,
            final(self).splitter_rects == old(self).splitter_rects,
            final(self).leaf_rects == old(self).leaf_rects,
            final(self).tab_height == old(self).tab_height,
            final(self).title_height == old(self).title_height,
            final(self).drag_preview_rect == old(self).drag_preview_rect,
    {
        let b = self.state.bounds;
        let ratio = match self.splitter_rects[i].direction {
            DockSplitDirection::Horizontal => ratio_from_drag(p.x - b.x, b.width),
            DockSplitDirection::Vertical => ratio_from_drag(p.y - b.y, b.height),
        };
        let mut root = DockNode::Empty;
        std::mem::swap(&mut root, &mut self.root_node);
        let path = self.splitter_rects[i].path.indices.as_slice();
        assert(path@.subrange(0, path@.len() as int) =~= path@);
        proof {
            lemma_drag_ratio_wf(
                drag_along(b, self.splitter_rects@[i as int].direction, p).0,
                drag_along(b, self.splitter_rects@[i as int].direction, p).1,
            );
            lemma_set_ratio_wf(root@, path@, ratio);
        }
        let (new_root, _) = update_ratio_in_node(root, path, 0, ratio);
        self.root_node = new_root;
    }

    /// Handles an event: dragging floating windows by their title bars,
    /// then dragging dividers; whatever neither takes is for the docked
    /// tab groups. A left press on a title bar grabs its window (the first
    /// one hit); otherwise a press on a divider grabs it; a release lets
    /// go of all. A move drags the first grabbed window, else the grabbed
    /// divider to the ratio [`drag_ratio`] gives.
    pub fn handle_event(&mut self, event: &Event) -> (r: DockEventOutcome)
        requires
            old(self).wf(),
            event matches Event::MouseMove(mm) ==> old(self).move_fits(mm.position),
        ensures
            final(self).wf(),
            final(self).keeps_setup(old(self)),
            !old(self).state().enabled || !old(self).state().visible ==> r == DockEventOutcome::Done(EventResult::Ignored)
                && final(self).keeps_layout(old(self)),
            old(self).state().enabled && old(self).state().visible ==> match *event {
                Event::MouseButton(mb) => {
                    if mb.button != MouseButton::Left {
                        r == DockEventOutcome::ToPanels && final(self).keeps_layout(old(self))
                    } else if mb.pressed {
                        match first_title_hit(old(self).windows(), mb.position, old(self).title_height(), 0) {
                            Some(k) => r == DockEventOutcome::Done(EventResult::Consumed)
                                && final(self).windows() == old(self).windows().update(k, grabbed(old(self).windows()[k], mb.position))
                                && final(self).tree() == old(self).tree()
                                && final(self).grabbed_splitter() == old(self).grabbed_splitter(),
                            None => match first_splitter_hit(old(self).splitters(), mb.position, 0) {
                                Some(i) => r == DockEventOutcome::Done(EventResult::Consumed)
                                    && final(self).grabbed_splitter() == Some(i as usize)
                                    && final(self).tree() == old(self).tree()
                                    && final(self).windows() == old(self).windows(),
                                None => r == DockEventOutcome::ToPanels && final(self).keeps_layout(old(self)),
                            },
                        }
                    } else {
                        r == DockEventOutcome::ToPanels && final(self).windows() == all_let_go(old(self).windows())
                            && final(self).grabbed_splitter() is None && final(self).tree() == old(self).tree()
                    }
                },
                Event::MouseMove(mm) => match first_dragging(old(self).windows(), 0) {
                    Some(k) => r == DockEventOutcome::Done(EventResult::Consumed)
                        && final(self).windows() == old(self).windows().update(k, dragged(old(self).windows()[k], mm.position))
                        && final(self).tree() == old(self).tree()
                        && final(self).grabbed_splitter() == old(self).grabbed_splitter(),
                    None => match old(self).grabbed_splitter() {
                        Some(i) => if i < old(self).splitters().len() {
                            let sp = old(self).splitters()[i as int];
                            let (rel, len) = drag_along(old(self).state().bounds, sp.direction, mm.position);
                            r == DockEventOutcome::Done(EventResult::Consumed)
                                && final(self).tree() == set_ratio(old(self).tree(), sp.path, drag_ratio(rel, len)).0
                                && final(self).windows() == old(self).windows()
                                && final(self).grabbed_splitter() == old(self).grabbed_splitter()
                        } else {
                            r == DockEventOutcome::ToPanels && final(self).keeps_layout(old(self))
                        },
                        None => r == DockEventOutcome::ToPanels && final(self).keeps_layout(old(self)),
                    },
                },
                _ => r == DockEventOutcome::ToPanels && final(self).keeps_layout(old(self)),
            },
    {
        if !self.state.enabled || !self.state.visible {
            return DockEventOutcome::Done(EventResult::Ignored);
        }
        match event {
            Event::MouseButton(mb) => {
                match mb.button {
                    MouseButton::Left => {
                        if mb.pressed {
                            match self.find_title_hit(mb.position) {
                                Some(k) => {
                                    self.grab_window(k, mb.position);
                                    return DockEventOutcome::Done(EventResult::Consumed);
                                },
                                None => {},
                            }
                            match self.find_splitter_hit(mb.position) {
                                Some(i) => {
                                    self.active_splitter = Some(i);
                                    return DockEventOutcome::Done(EventResult::Consumed);
                                },
                                None => {},
                            }
                        } else {
                            self.release_windows();
                            self.active_splitter = None;
                        }
                    },
                    _ => {},
                }
                DockEventOutcome::ToPanels
            },
            Event::MouseMove(mm) => {
                match self.find_dragging() {
                    Some(k) => {
                        self.drag_window(k, mm.position);
                        return DockEventOutcome::Done(EventResult::Consumed);
                    },
                    None => {},
                }
                match self.active_splitter {
                    Some(i) => {
                        if i < self.splitter_rects.len() {
                            self.drag_splitter(i, mm.position);
                            return DockEventOutcome::Done(EventResult::Consumed);
                        }
                    },
                    None => {},
                }
                DockEventOutcome::ToPanels
            },
            _ => DockEventOutcome::ToPanels,
        }
    }
}

/// The padding of tab strips and title bars: the theme's, at least 8.
pub open spec fn dock_padding(theme: ThemeMetrics) -> int {
    if theme.padding_top < 8 { 8 } else { theme.padding_top as int }
}

impl DockPanel {
    /// Lays the dock out in `rect`: tab strips become a line of base text
    /// plus twice the padding high, title bars a line plus the padding, and
    /// the docked tree is divided as [`layout_tree`] says.
    pub fn layout(&mut self, rect: Rect, theme: &ThemeMetrics)
        requires
            old(self).wf(),
            fits_i32(2 * dock_padding(*theme)),
            fits_i32(dock_tab_height(*theme)),
            fits_i32(dock_title_height(*theme)),
            layout_fits(old(self).tree(), rect, dock_tab_height(*theme)),
        ensures
            final(self).wf(),
            final(self).state() == (WidgetState { bounds: rect, ..old(self).state() }),
            final(self).tab_height() == dock_tab_height(*theme),
            final(self).title_height() == dock_title_height(*theme),
            final(self).splitters() == layout_tree(old(self).tree(), rect, Seq::empty(), dock_tab_height(*theme)).0,
            final(self).leaves() == layout_tree(old(self).tree(), rect, Seq::empty(), dock_tab_height(*theme)).1,
            final(self).keeps_layout(old(self)),
            final(self).panel_list() == old(self).panel_list(),
            final(self).drop_preview() == old(self).drop_preview(),
    {
        self.state.bounds = rect;
        let font = theme.font_size_base;
        let pad = if theme.padding_top < 8 {
            8
        } else {
            theme.padding_top
        };
        self.tab_height = font + pad * 2;
        self.title_height = font + pad;
        let mut splitters: Vec<DockSplitter> = Vec::new();
        let mut leaves: Vec<DockLeaf> = Vec::new();
        let mut path: Vec<usize> = Vec::new();
        assert(splitter_views(splitters@) =~= Seq::<SplitterView>::empty());
        assert(leaf_views(leaves@) =~= Seq::<LeafView>::empty());
        layout_node(&self.root_node, rect, &mut path, self.tab_height, &mut splitters, &mut leaves);
        assert(splitter_views(splitters@) =~= layout_tree(self.root_node@, rect, Seq::empty(), self.tab_height as int).0);
        assert(leaf_views(leaves@) =~= layout_tree(self.root_node@, rect, Seq::empty(), self.tab_height as int).1);
        self.splitter_rects = splitters;
        self.leaf_rects = leaves;
    }

    /// Makes tab `index` of the tab group at `path` active; says whether
    /// anything changed (an index past the group's tabs changes nothing).
    pub fn set_active_tab(&mut self, path: &Vec<usize>, index: usize) -> (changed: bool)
        requires
            old(self).wf(),
        ensures
            final(self).wf(),
            (final(self).tree(), changed) == select_tab(old(self).tree(), path@, index as int),
            final(self).keeps_setup(old(self)),
            final(self).windows() == old(self).windows(),
            final(self).grabbed_splitter() == old(self).grabbed_splitter(),
    {
        let mut root = DockNode::Empty;
        std::mem::swap(&mut root, &mut self.root_node);
        assert(path@.subrange(0, path@.len() as int) =~= path@);
        proof {
            lemma_select_tab_wf(root@, path@, index as int);
        }
        let (new_root, changed) = select_tab_in_node(root, path, 0, index);
        self.root_node = new_root;
        changed
    }

    /// The size the dock asks for: the largest allowed, or 800 by 600.
    pub fn measure(&self, max_width: Option<i32>, max_height: Option<i32>) -> (s: crate::geometry::Size)
        ensures
            s.width == (match max_width { Some(w) => w, None => 800 }),
            s.height == (match max_height { Some(h) => h, None => 600 }),
    {
        let w = match max_width {
            Some(w) => w,
            None => 800,
        };
        let h = match max_height {
            Some(h) => h,
            None => 600,
        };
        crate::geometry::Size::new(w, h)
    }

    /// The floating windows, in order.
    pub fn floating_windows(&self) -> (r: &Vec<FloatingWindow>)
        ensures
            r@ == self.windows(),
    {
        &self.floating_windows
    }

    /// The dividers of the last layout.
    pub fn splitter_layout(&self) -> (r: &Vec<DockSplitter>)
        ensures
            splitter_views(r@) == self.splitters(),
    {
        &self.splitter_rects
    }

    /// The tab groups of the last layout.
    pub fn leaf_layout(&self) -> (r: &Vec<DockLeaf>)
        ensures
            leaf_views(r@) == self.leaves(),
    {
        &self.leaf_rects
    }

    /// The area of floating window `index` below its title bar.
    pub fn floating_content_rect(&self, index: usize) -> (r: Rect)
        requires
            index < self.windows().len(),
            fits_i32(self.windows()[index as int].bounds.y + self.title_height()),
            fits_i32(self.windows()[index as int].bounds.height - self.title_height()),
        ensures
            r == (Rect {
                x: self.windows()[index as int].bounds.x,
                y: (self.windows()[index as int].bounds.y + self.title_height()) as i32,
                width: self.windows()[index as int].bounds.width,
                height: (self.windows()[index as int].bounds.height - self.title_height()) as i32,
            }),
    {
        let b = self.floating_windows[index].bounds;
        Rect::new(b.x, b.y + self.title_height, b.width, b.height - self.title_height)
    }

    pub fn id(&self) -> (r: WidgetId)
        ensures
            r == self.state().id,
    {
        self.state.id
    }

    pub fn bounds(&self) -> (r: Rect)
        ensures
            r == self.state().bounds,
    {
        self.state.bounds
    }

    pub fn set_bounds(&mut self, bounds: Rect)
        ensures
            final(self).state() == (WidgetState { bounds, ..old(self).state() }),
            final(self).same_except_state(old(self)),
    {
        self.state.bounds = bounds;
    }

    pub fn is_visible(&self) -> (b: bool)
        ensures
            b == self.state().visible,
    {
        self.state.visible
    }

    pub fn set_visible(&mut self, visible: bool)
        ensures
            final(self).state() == (WidgetState { visible, ..old(self).state() }),
            final(self).same_except_state(old(self)),
    {
        self.state.visible = visible;
    }

    pub fn is_enabled(&self) -> (b: bool)
        ensures
            b == self.state().enabled,
    {
        self.state.enabled
    }

    pub fn set_enabled(&mut self, enabled: bool)
        ensures
            final(self).state() == (WidgetState { enabled, ..old(self).state() }),
            final(self).same_except_state(old(self)),
    {
        self.state.enabled = enabled;
    }

    pub fn is_focused(&self) -> (b: bool)
        ensures
            b == self.state().focused,
    {
        self.state.focused
    }

    pub fn set_focused(&mut self, focused: bool)
        ensures
            final(self).state() == (WidgetState { focused, ..old(self).state() }),
            final(self).same_except_state(old(self)),
    {
        self.state.focused = focused;
    }

    /// A dock takes focus while it is enabled and visible.
    pub fn can_focus(&self) -> (b: bool)
        ensures
            b == (self.state().enabled && self.state().visible),
    {
        self.state.enabled && self.state.visible
    }
}

proof fn lemma_windows_without(ws: Seq<FloatingWindow>, id: Seq<char>)
    ensures
        forall|k: int| 0 <= k < windows_without(ws, id).len() ==> (#[trigger] windows_without(ws, id)[k]).panel_id@ != id,
    decreases ws.len(),
{
    if ws.len() > 0 {
        lemma_windows_without(ws.drop_last(), id);
        let rest = windows_without(ws.drop_last(), id);
        if ws.last().panel_id@ != id {
            assert forall|k: int| 0 <= k < rest.push(ws.last()).len() implies (#[trigger] rest.push(ws.last())[k]).panel_id@ != id by {
                if k < rest.len() {
                    assert(rest.push(ws.last())[k] == rest[k]);
                }
            }
        }
    }
}

/// Removing a panel that is registered, and docked at most once, takes it
/// out of every tab group and every floating window, and leaves no panel
/// of that id behind, so that removing it again finds nothing.
pub proof fn law_removed_panel_is_gone(ps: Seq<DockablePanel>, t: DockTree, ws: Seq<FloatingWindow>, id: Seq<char>)
    requires
        distinct_ids(panel_ids(ps)),
        tree_wf(t),
        tree_ids(t).to_multiset().count(id) <= 1,
        first_index(panel_ids(ps), id) is Some,
    ensures
        !tree_ids(remove_tree(t, id)).contains(id),
        forall|k: int| 0 <= k < windows_without(ws, id).len() ==> (#[trigger] windows_without(ws, id)[k]).panel_id@ != id,
        first_index(panel_ids(ps.remove(first_index(panel_ids(ps), id)->0)), id) is None,
{
    broadcast use vstd::seq_lib::group_to_multiset_ensures;
    broadcast use vstd::multiset::group_multiset_axioms;
    law_undock_removes_panel(t, id);
    let after = tree_ids(remove_tree(t, id));
    assert(after.to_multiset().count(id) == 0);
    after.to_multiset_ensures();
    lemma_windows_without(ws, id);
    let ids = panel_ids(ps);
    lemma_first_index_bounds(ids, id);
    let i = first_index(ids, id)->0;
    let rest = panel_ids(ps.remove(i));
    assert(rest =~= ids.remove(i));
    assert forall|k: int| 0 <= k < rest.len() implies rest[k] != id by {
        if k < i {
            assert(rest[k] == ids[k]);
        } else {
            assert(rest[k] == ids[k + 1]);
        }
    }
    lemma_first_index(rest, id, rest.len() as int);
}

} // verus!
