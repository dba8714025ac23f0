//! Drag and drop between widgets: the item being dragged, the drop targets
//! and the data types each accepts, and the target under the pointer.
//!
//! The dragged payload is of any type `T`.

use vstd::prelude::*;
use crate::geometry::{Point, Rect, WidgetId, fits_i32};

verus! {

/// What a drop does with the dragged item.
#[derive(Clone, Copy, Debug, PartialEq, Eq, Structural)]
pub enum DragDropEffect {
    NoEffect,
    Copy,
    Move,
    Link,
}

/// The item being dragged: where it comes from, its data type and payload.
pub struct DragData<T> {
    pub source_widget: WidgetId,
    pub data_type: String,
    pub data: T,
    pub visual_rect: Option<Rect>,
}

/// A widget that accepts drops of some data types.
pub struct DropTarget {
    pub widget: WidgetId,
    pub accepted_types: Vec<String>,
}

/// The mathematical content of a drop target.
pub struct TargetView {
    pub widget: WidgetId,
    pub accepted: Seq<Seq<char>>,
}

pub open spec fn target_view(t: DropTarget) -> TargetView {
    TargetView { widget: t.widget, accepted: t.accepted_types@.map_values(|s: String| s@) }
}

/// The mathematical state of a [`DragDropManager`]: the dragged item's
/// source and data type, if one is dragged.
pub struct DragView {
    pub dragging: Option<(WidgetId, Seq<char>)>,
    pub position: Point,
    pub offset: Point,
    pub targets: Seq<TargetView>,
    pub current_target: Option<WidgetId>,
    pub effect: DragDropEffect,
}

/// The first index from `k` on of a target for `w`, `-1` if none.
pub open spec fn find_target(ts: Seq<TargetView>, w: WidgetId, k: int) -> int
    decreases ts.len() - k,
{
    if k < 0 || k >= ts.len() {
        -1
    } else if ts[k].widget == w {
        k
    } else {
        find_target(ts, w, k + 1)
    }
}

/// Whether a drop on `widget` within `bounds` is possible now: something is
/// dragged, the pointer is inside `bounds`, and `widget` accepts the
/// dragged data type.
pub open spec fn accepts_drop(v: DragView, widget: WidgetId, bounds: Rect) -> bool {
    &&& v.dragging matches Some(d)
    &&& bounds.contains_spec(v.position)
    &&& find_target(v.targets, widget, 0) >= 0
    &&& v.targets[find_target(v.targets, widget, 0)].accepted.contains(d.1)
}

/// The manager after checking `widget` as a drop target: it becomes the
/// current target when it accepts the drop; it stops being the current
/// target when the pointer has left `bounds`.
pub open spec fn checked(v: DragView, widget: WidgetId, bounds: Rect) -> DragView {
    if v.dragging is None {
        v
    } else if !bounds.contains_spec(v.position) {
        if v.current_target == Some(widget) { DragView { current_target: None, ..v } } else { v }
    } else if accepts_drop(v, widget, bounds) {
        DragView { current_target: Some(widget), ..v }
    } else {
        v
    }
}

/// Targets are registered once each.
pub open spec fn drag_wf(v: DragView) -> bool {
    &&& forall|i: int, j: int| 0 <= i < j < v.targets.len() ==> v.targets[i].widget != v.targets[j].widget
    &&& v.targets.len() < usize::MAX
}

pub struct DragDropManager<T> {
    active_drag: Option<DragData<T>>,
    drag_position: Point,
    drag_offset: Point,
    drop_targets: Vec<DropTarget>,
    current_drop_target: Option<WidgetId>,
    drag_effect: DragDropEffect,
}

proof fn lemma_find_target(ts: Seq<TargetView>, w: WidgetId, k: int)
    requires
        0 <= k,
    ensures
        find_target(ts, w, k) == -1 ==> forall|j: int| k <= j < ts.len() ==> ts[j].widget != w,
        find_target(ts, w, k) != -1 ==> k <= find_target(ts, w, k) < ts.len() && ts[find_target(ts, w, k)].widget == w,
    decreases ts.len() - k,
{
    if k < ts.len() && ts[k].widget != w {
        lemma_find_target(ts, w, k + 1);
    }
}

impl<T> DragDropManager<T> {
    pub closed spec fn view(&self) -> DragView {
        DragView {
            dragging: match &self.active_drag {
                Some(d) => Some((d.source_widget, d.data_type@)),
                None => None,
            },
            position: self.drag_position,
            offset: self.drag_offset,
            targets: self.drop_targets@.map_values(|t: DropTarget| target_view(t)),
            current_target: self.current_drop_target,
            effect: self.drag_effect,
        }
    }

    /// Nothing dragged, no targets.
    pub fn new() -> (m: DragDropManager<T>)
        ensures
            drag_wf(m.view()),
            m.view() == (DragView {
                dragging: None,
                position: Point { x: 0, y: 0 },
                offset: Point { x: 0, y: 0 },
                targets: Seq::empty(),
                current_target: None,
                effect: DragDropEffect::NoEffect,
            }),
    {
        let m = DragDropManager {
            active_drag: None,
            drag_position: Point::zero(),
            drag_offset: Point::zero(),
            drop_targets: Vec::new(),
            current_drop_target: None,
            drag_effect: DragDropEffect::NoEffect,
        };
        assert(m.view().targets =~= Seq::<TargetView>::empty());
        m
    }

    /// Starts dragging `data` of type `data_type` from `source`, held at
    /// `offset` from its corner; the effect becomes a move.
    pub fn start_drag(&mut self, source: WidgetId, data_type: String, data: T, offset: Point)
        ensures
            final(self).view() == (DragView {
                dragging: Some((source, data_type@)),
                offset,
                effect: DragDropEffect::Move,
                ..old(self).view()
            }),
    {
        self.active_drag = Some(DragData { source_widget: source, data_type, data, visual_rect: None });
        self.drag_offset = offset;
        self.drag_effect = DragDropEffect::Move;
    }

    pub fn update_drag_position(&mut self, position: Point)
        ensures
            final(self).view() == (DragView { position, ..old(self).view() }),
    {
        self.drag_position = position;
    }

    fn find_target_index(&self, widget: WidgetId) -> (r: Option<usize>)
        ensures
            match r {
                Some(i) => i == find_target(self.view().targets, widget, 0) && i < self.view().targets.len(),
                None => find_target(self.view().targets, widget, 0) == -1,
            },
    {
        let ghost ts = self.view().targets;
        let mut i: usize = 0;
        while i < self.drop_targets.len()
            invariant
                ts == self.view().targets,
                ts == self.drop_targets@.map_values(|t: DropTarget| target_view(t)),
                i <= ts.len(),
                find_target(ts, widget, 0) == find_target(ts, widget, i as int),
            decreases ts.len() - i,
        {
            assert(ts[i as int] == target_view(self.drop_targets@[i as int]));
            if self.drop_targets[i].widget == widget {
                return Some(i);
            }
            i = i + 1;
        }
        None
    }

    /// Makes `widget` a drop target for `accepted_types`, replacing what it
    /// accepted before.
    pub fn register_drop_target(&mut self, widget: WidgetId, accepted_types: Vec<String>)
        requires
            drag_wf(old(self).view()),
            old(self).view().targets.len() + 1 < usize::MAX,
        ensures
            drag_wf(final(self).view()),
            ({
                let v = old(self).view();
                let i = find_target(v.targets, widget, 0);
                let t = TargetView { widget, accepted: accepted_types@.map_values(|s: String| s@) };
                final(self).view() == (DragView {
                    targets: if i >= 0 { v.targets.update(i, t) } else { v.targets.push(t) },
                    ..v
                })
            }),
    {
        let ghost v = self.view();
        proof {
            lemma_find_target(v.targets, widget, 0);
        }
        let target = DropTarget { widget, accepted_types };
        match self.find_target_index(widget) {
            Some(i) => {
                self.drop_targets.set(i, target);
                assert(self.view().targets =~= v.targets.update(i as int, target_view(target)));
            },
            None => {
                self.drop_targets.push(target);
                assert(self.view().targets =~= v.targets.push(target_view(target)));
            },
        }
    }

    /// Stops `widget` being a drop target.
    pub fn unregister_drop_target(&mut self, widget: WidgetId)
        requires
            drag_wf(old(self).view()),
        ensures
            drag_wf(final(self).view()),
            ({
                let v = old(self).view();
                let i = find_target(v.targets, widget, 0);
                final(self).view() == (DragView { targets: if i >= 0 { v.targets.remove(i) } else { v.targets }, ..v })
            }),
    {
        let ghost v = self.view();
        proof {
            lemma_find_target(v.targets, widget, 0);
        }
        match self.find_target_index(widget) {
            Some(i) => {
                self.drop_targets.remove(i);
                assert(self.view().targets =~= v.targets.remove(i as int));
            },
            None => {},
        }
    }

    pub fn is_dragging(&self) -> (b: bool)
        ensures
            b == self.view().dragging is Some,
    {
        self.active_drag.is_some()
    }

    /// The item being dragged, if any.
    pub fn get_drag_data(&self) -> (r: Option<&DragData<T>>)
        ensures
            match r {
                Some(d) => self.view().dragging == Some((d.source_widget, d.data_type@)),
                None => self.view().dragging is None,
            },
    {
        match &self.active_drag {
            Some(d) => Some(d),
            None => None,
        }
    }

    pub fn get_drag_position(&self) -> (p: Point)
        ensures
            p == self.view().position,
    {
        self.drag_position
    }

    /// Where the dragged item's corner is drawn: the pointer less the
    /// offset it was picked up at.
    pub fn get_drag_visual_position(&self) -> (p: Point)
        requires
            fits_i32(self.view().position.x - self.view().offset.x),
            fits_i32(self.view().position.y - self.view().offset.y),
        ensures
            p.x == self.view().position.x - self.view().offset.x,
            p.y == self.view().position.y - self.view().offset.y,
    {
        Point::new(self.drag_position.x - self.drag_offset.x, self.drag_position.y - self.drag_offset.y)
    }

    /// Checks `widget`, laid out in `bounds`, as a drop target; see
    /// [`checked`]. Returns whether it accepts the drop.
    pub fn check_drop_target(&mut self, widget: WidgetId, bounds: Rect) -> (b: bool)
        requires
            drag_wf(old(self).view()),
        ensures
            b == accepts_drop(old(self).view(), widget, bounds),
            final(self).view() == checked(old(self).view(), widget, bounds),
    {
        let ghost v = self.view();
        let data_type = match &self.active_drag {
            Some(d) => &d.data_type,
            None => {
                return false;
            },
        };
        if !bounds.contains(self.drag_position) {
            if self.current_drop_target == Some(widget) {
                self.current_drop_target = None;
            }
            return false;
        }
        proof {
            lemma_find_target(v.targets, widget, 0);
        }
        match self.find_target_index(widget) {
            Some(i) => {
                let accepted = &self.drop_targets[i].accepted_types;
                assert(v.targets[i as int] == target_view(self.drop_targets@[i as int]));
                let ghost acc = v.targets[i as int].accepted;
                let mut k: usize = 0;
                while k < accepted.len()
                    invariant
                        v == old(self).view(),
                        v == self.view(),
                        v.dragging matches Some(d) && d.1 == data_type@,
                        bounds.contains_spec(v.position),
                        i == find_target(v.targets, widget, 0),
                        0 <= i < v.targets.len(),
                        acc == v.targets[i as int].accepted,
                        acc == accepted@.map_values(|s: String| s@),
                        k <= acc.len(),
                        forall|j: int| 0 <= j < k ==> acc[j] != data_type@,
                    decreases acc.len() - k,
                {
                    if accepted[k] == *data_type {
                        assert(acc[k as int] == data_type@);
                        self.current_drop_target = Some(widget);
                        return true;
                    }
                    k = k + 1;
                }
                false
            },
            None => false,
        }
    }

    pub fn get_current_drop_target(&self) -> (r: Option<WidgetId>)
        ensures
            r == self.view().current_target,
    {
        self.current_drop_target
    }

    pub fn get_drag_effect(&self) -> (e: DragDropEffect)
        ensures
            e == self.view().effect,
    {
        self.drag_effect
    }

    pub fn set_drag_effect(&mut self, effect: DragDropEffect)
        ensures
            final(self).view() == (DragView { effect, ..old(self).view() }),
    {
        self.drag_effect = effect;
    }

    /// Ends the drag with a drop: hands out the dragged item and clears the
    /// current target.
    pub fn complete_drop(&mut self) -> (r: Option<DragData<T>>)
        ensures
            final(self).view() == (DragView { dragging: None, current_target: None, ..old(self).view() }),
            match r {
                Some(d) => old(self).view().dragging == Some((d.source_widget, d.data_type@)),
                None => old(self).view().dragging is None,
            },
    {
        self.current_drop_target = None;
        self.active_drag.take()
    }

    /// Ends the drag without a drop.
    pub fn cancel_drag(&mut self)
        ensures
            final(self).view() == (DragView {
                dragging: None,
                current_target: None,
                effect: DragDropEffect::NoEffect,
                ..old(self).view()
            }),
    {
        self.active_drag = None;
        self.current_drop_target = None;
        self.drag_effect = DragDropEffect::NoEffect;
    }
}

/// What a widget that items can be dragged from offers.
pub trait Draggable<T> {
    fn can_drag(&self) -> bool;

    fn get_drag_data(&self) -> Option<(String, T)>;

    fn on_drag_start(&mut self);

    fn on_drag_end(&mut self, completed: bool);
}

/// What a widget that items can be dropped on offers.
pub trait Droppable<T> {
    fn get_accepted_types(&self) -> Vec<String>;

    fn on_drag_enter(&mut self, data_type: &str);

    fn on_drag_over(&mut self, data_type: &str, position: Point) -> DragDropEffect;

    fn on_drag_leave(&mut self);

    fn on_drop(&mut self, data: DragData<T>) -> bool;
}

/// A drop target only becomes current while something of a type it accepts
/// is dragged over it, and leaving its bounds clears it.
pub proof fn law_current_target_accepts(v: DragView, widget: WidgetId, bounds: Rect)
    ensures
        checked(v, widget, bounds).current_target == Some(widget) && v.current_target != Some(widget)
            ==> accepts_drop(v, widget, bounds),
        v.dragging is Some && !bounds.contains_spec(v.position) ==> checked(v, widget, bounds).current_target != Some(widget),
{
}

} // verus!
