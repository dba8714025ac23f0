//! Containers: a widget that only lists its children's ids, in order.
//! Hosts lay the children out and draw them.

use vstd::prelude::*;
use smallvec::SmallVec;
use crate::geometry::{Rect, Size, WidgetId};
use crate::event::EventResult;
use crate::widget::WidgetState;

verus! {

/// A list of child ids, kept inline up to eight: a `SmallVec`, which Verus
/// sees only through the functions below.
#[verifier::external_body]
pub struct ChildIds {
    ids: SmallVec<[WidgetId; 8]>,
}

/// What a list of child ids holds, in order.
pub uninterp spec fn child_ids(v: ChildIds) -> Seq<WidgetId>;

/// A list can grow by one without its allocation size overflowing, on 32-
/// and 64-bit machines alike.
pub open spec fn room_for_one(n: nat) -> bool {
    n < 0x800_0000
}

/// `SmallVec::new`. Claimed: the list is empty.
#[verifier::external_body]
fn new_list() -> (v: ChildIds)
    ensures
        child_ids(v) == Seq::<WidgetId>::empty(),
{
    ChildIds { ids: SmallVec::new() }
}

/// `SmallVec::push`. Claimed: `id` is appended. It panics only when the
/// grown allocation's size would overflow, which the bound rules out.
#[verifier::external_body]
fn push_id(v: &mut ChildIds, id: WidgetId)
    requires
        room_for_one(child_ids(*old(v)).len()),
    ensures
        child_ids(*final(v)) == child_ids(*old(v)).push(id),
{
    v.ids.push(id)
}

/// `SmallVec::remove`. Claimed: the id at `index` is taken out and
/// returned, the later ones moving down. The index must exist.
#[verifier::external_body]
fn remove_id(v: &mut ChildIds, index: usize) -> (r: WidgetId)
    requires
        index < child_ids(*old(v)).len(),
    ensures
        r == child_ids(*old(v))[index as int],
        child_ids(*final(v)) == child_ids(*old(v)).remove(index as int),
{
    v.ids.remove(index)
}

/// `SmallVec::clear`. Claimed: the list is empty.
#[verifier::external_body]
fn clear_ids(v: &mut ChildIds)
    ensures
        child_ids(*final(v)) == Seq::<WidgetId>::empty(),
{
    v.ids.clear()
}

/// `SmallVec::as_slice`. Claimed: the slice holds the list, in order.
#[verifier::external_body]
fn ids_slice(v: &ChildIds) -> (r: &[WidgetId])
    ensures
        r@ == child_ids(*v),
{
    v.ids.as_slice()
}

/// The first index of `id` in `s` from `k` on, `-1` if none.
pub open spec fn index_of(s: Seq<WidgetId>, id: WidgetId, k: int) -> int
    decreases s.len() - k,
{
    if k < 0 || k >= s.len() {
        -1
    } else if s[k] == id {
        k
    } else {
        index_of(s, id, k + 1)
    }
}

proof fn lemma_index_of(s: Seq<WidgetId>, id: WidgetId, k: int)
    requires
        0 <= k,
    ensures
        index_of(s, id, k) == -1 || (k <= index_of(s, id, k) < s.len() && s[index_of(s, id, k)] == id),
        index_of(s, id, k) == -1 ==> forall|j: int| k <= j < s.len() ==> s[j] != id,
    decreases s.len() - k,
{
    if k < s.len() && s[k] != id {
        lemma_index_of(s, id, k + 1);
    }
}

/// A widget holding the ids of its children.
pub struct Container {
    state: WidgetState,
    children: ChildIds,
}

impl Container {
    pub closed spec fn state(&self) -> WidgetState {
        self.state
    }

    /// The children's ids, in order.
    pub closed spec fn child_list(&self) -> Seq<WidgetId> {
        child_ids(self.children)
    }

    /// A container without children.
    pub fn new(id: WidgetId) -> (c: Container)
        ensures
            c.state() == WidgetState::new_spec(id),
            c.child_list() == Seq::<WidgetId>::empty(),
    {
        Container { state: WidgetState::new(id), children: new_list() }
    }

    /// Appends `child_id`.
    pub fn add_child(&mut self, child_id: WidgetId)
        requires
            room_for_one(old(self).child_list().len()),
        ensures
            final(self).child_list() == old(self).child_list().push(child_id),
            final(self).state() == old(self).state(),
    {
        push_id(&mut self.children, child_id);
    }

    /// Takes out the first `child_id`; returns whether there was one.
    pub fn remove_child(&mut self, child_id: WidgetId) -> (removed: bool)
        ensures
            removed == (index_of(old(self).child_list(), child_id, 0) >= 0),
            final(self).child_list() == (if removed {
                old(self).child_list().remove(index_of(old(self).child_list(), child_id, 0))
            } else {
                old(self).child_list()
            }),
            final(self).state() == old(self).state(),
    {
        let ghost s = self.child_list();
        proof {
            lemma_index_of(s, child_id, 0);
        }
        let ids = ids_slice(&self.children);
        let mut i: usize = 0;
        let mut found = false;
        while i < ids.len() && !found
            invariant
                ids@ == s,
                i <= s.len(),
                !found ==> index_of(s, child_id, 0) == index_of(s, child_id, i as int),
                found ==> i < s.len() && index_of(s, child_id, 0) == i,
            decreases s.len() - i + (if found { 0int } else { 1int }),
        {
            if ids[i] == child_id {
                found = true;
            } else {
                i = i + 1;
            }
        }
        if found {
            remove_id(&mut self.children, i);
            true
        } else {
            false
        }
    }

    /// Drops every child.
    pub fn clear_children(&mut self)
        ensures
            final(self).child_list() == Seq::<WidgetId>::empty(),
            final(self).state() == old(self).state(),
    {
        clear_ids(&mut self.children);
    }

    /// The children's ids, in order.
    pub fn children(&self) -> (r: &[WidgetId])
        ensures
            r@ == self.child_list(),
    {
        ids_slice(&self.children)
    }

    pub fn id(&self) -> (r: WidgetId)
        ensures
            r == self.state().id,
    {
        self.state.id
    }

    /// A container has no size of its own: it reflects the largest size
    /// allowed, 0 where there is no limit.
    pub fn measure(&self, max_width: Option<i32>, max_height: Option<i32>) -> (s: Size)
        ensures
            s == (Size {
                width: match max_width { Some(w) => w, None => 0 },
                height: match max_height { Some(h) => h, None => 0 },
            }),
    {
        let w = match max_width {
            Some(w) => w,
            None => 0,
        };
        let h = match max_height {
            Some(h) => h,
            None => 0,
        };
        Size::new(w, h)
    }

    /// Takes the bounds `rect`; the children are not laid out.
    pub fn layout(&mut self, rect: Rect)
        ensures
            final(self).state() == (WidgetState { bounds: rect, ..old(self).state() }),
            final(self).child_list() == old(self).child_list(),
    {
        self.state.bounds = rect;
    }

    /// Events go to the children, not to the container.
    pub fn handle_event(&self) -> (r: EventResult)
        ensures
            r == EventResult::Ignored,
    {
        EventResult::Ignored
    }

    pub fn bounds(&self) -> (r: Rect)
        ensures
            r == self.state().bounds,
    {
        self.state.bounds
    }

    pub fn set_bounds(&mut self, bounds: Rect)
        ensures
            final(self).state() == (WidgetState { bounds, ..old(self).state() }),
            final(self).child_list() == old(self).child_list(),
    {
        self.state.bounds = bounds;
    }

    pub fn is_visible(&self) -> (b: bool)
        ensures
            b == self.state().visible,
    {
        self.state.visible
    }

    pub fn set_visible(&mut self, visible: bool)
        ensures
            final(self).state() == (WidgetState { visible, ..old(self).state() }),
            final(self).child_list() == old(self).child_list(),
    {
        self.state.visible = visible;
    }

    pub fn is_enabled(&self) -> (b: bool)
        ensures
            b == self.state().enabled,
    {
        self.state.enabled
    }

    pub fn set_enabled(&mut self, enabled: bool)
        ensures
            final(self).state() == (WidgetState { enabled, ..old(self).state() }),
            final(self).child_list() == old(self).child_list(),
    {
        self.state.enabled = enabled;
    }

    /// A container never takes the focus.
    pub fn can_focus(&self) -> (b: bool)
        ensures
            !b,
    {
        false
    }
}

} // verus!
