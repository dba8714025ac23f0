//! Toast notifications: a queue of at most `max_visible` notifications
//! stacked in a corner (or centred at the top or bottom) of the area, with
//! close and action buttons, expiring after their duration.
//!
//! Times are in milliseconds, as the host's clock gives them. The slide-in
//! animation's offsets are computed by the host and set per notification.

use vstd::prelude::*;
use crate::geometry::{Point, Rect, Size, WidgetId, fits_i32, trunc_div};
use crate::event::{Event, EventResult, MouseButton};
use crate::widget::WidgetState;

verus! {

broadcast use vstd::string::group_string_axioms;

#[derive(Clone, Copy, Debug, PartialEq, Eq, Structural)]
pub enum NotificationType {
    Info,
    Success,
    Warning,
    Error,
}

#[derive(Clone, Copy, Debug, PartialEq, Eq, Structural)]
pub enum NotificationPosition {
    TopLeft,
    TopCenter,
    TopRight,
    BottomLeft,
    BottomCenter,
    BottomRight,
}

/// One notification. `created_at` and `duration` are in milliseconds.
pub struct Notification {
    pub id: String,
    pub title: String,
    pub message: String,
    pub notification_type: NotificationType,
    pub icon: Option<String>,
    pub duration: u64,
    pub can_close: bool,
    pub action_text: Option<String>,
    pub created_at: u64,
}

/// Whether a notification made at `created` and shown for `duration` has
/// expired at `now`.
pub open spec fn expired_at(created: u64, duration: u64, now: u64) -> bool {
    (if now >= created { now - created } else { 0 }) >= duration
}

impl Notification {
    /// An informational notification made at `now`, shown for 5 seconds,
    /// closable, without icon or action.
    pub fn new(id: &str, title: &str, message: &str, now: u64) -> (n: Notification)
        ensures
            n.id@ == id@,
            n.title@ == title@,
            n.message@ == message@,
            n.notification_type == NotificationType::Info,
            n.icon is None,
            n.duration == 5000,
            n.can_close,
            n.action_text is None,
            n.created_at == now,
    {
        Notification {
            id: id.to_string(),
            title: title.to_string(),
            message: message.to_string(),
            notification_type: NotificationType::Info,
            icon: None,
            duration: 5000,
            can_close: true,
            action_text: None,
            created_at: now,
        }
    }

    pub fn with_type(self, notification_type: NotificationType) -> (n: Notification)
        ensures
            n == (Notification { notification_type, ..self }),
    {
        Notification { notification_type, ..self }
    }

    pub fn with_icon(self, icon: &str) -> (n: Notification)
        ensures
            n == (Notification { icon: n.icon, ..self }),
            n.icon matches Some(i) && i@ == icon@,
    {
        Notification { icon: Some(icon.to_string()), ..self }
    }

    /// Shown for `duration` milliseconds.
    pub fn with_duration(self, duration: u64) -> (n: Notification)
        ensures
            n == (Notification { duration, ..self }),
    {
        Notification { duration, ..self }
    }

    pub fn with_can_close(self, can_close: bool) -> (n: Notification)
        ensures
            n == (Notification { can_close, ..self }),
    {
        Notification { can_close, ..self }
    }

    pub fn with_action(self, action_text: &str) -> (n: Notification)
        ensures
            n == (Notification { action_text: n.action_text, ..self }),
            n.action_text matches Some(a) && a@ == action_text@,
    {
        Notification { action_text: Some(action_text.to_string()), ..self }
    }

    /// Whether the notification has expired at `now`.
    pub fn is_expired(&self, now: u64) -> (b: bool)
        ensures
            b == expired_at(self.created_at, self.duration, now),
    {
        now.saturating_sub(self.created_at) >= self.duration
    }
}

/// A notification as the manager holds it.
pub struct ItemView {
    pub id: Seq<char>,
    pub title: Seq<char>,
    pub message: Seq<char>,
    pub kind: NotificationType,
    pub icon: Option<Seq<char>>,
    pub action: Option<Seq<char>>,
    pub can_close: bool,
    pub created_at: u64,
    pub duration: u64,
    pub bounds: Rect,
    pub close_rect: Option<Rect>,
    pub action_rect: Option<Rect>,
    pub hover_close: bool,
    pub hover_action: bool,
    pub offset: i32,
}

/// The mathematical state of a [`NotificationManager`].
pub struct NotifyView {
    pub state: WidgetState,
    pub items: Seq<ItemView>,
    pub position: NotificationPosition,
    pub max_visible: usize,
    pub width: i32,
    pub height: i32,
}

pub const SPACING: i32 = 10;

pub const MARGIN: i32 = 20;

/// How many notifications are laid out.
pub open spec fn shown(v: NotifyView) -> int {
    if v.items.len() < v.max_visible { v.items.len() as int } else { v.max_visible as int }
}

/// Left edge of notification `k`, slid in by `offset`.
pub open spec fn item_x(v: NotifyView, offset: int) -> int {
    let vw = v.state.bounds.width as int;
    match v.position {
        NotificationPosition::TopLeft | NotificationPosition::BottomLeft => MARGIN + offset,
        NotificationPosition::TopCenter | NotificationPosition::BottomCenter => trunc_div(vw - v.width, 2) + offset,
        _ => vw - v.width - MARGIN - offset,
    }
}

/// Top edge of notification `k`: stacked down from the top margin, or up
/// from the bottom margin.
pub open spec fn item_y(v: NotifyView, k: int) -> int {
    let vh = v.state.bounds.height as int;
    match v.position {
        NotificationPosition::TopLeft | NotificationPosition::TopCenter | NotificationPosition::TopRight =>
            MARGIN + k * (v.height + SPACING),
        _ => vh - MARGIN - (v.height + SPACING) * (k + 1) + SPACING,
    }
}

/// Notification `k` placed: its bounds, a 20-pixel close button 8 pixels
/// into its top right corner if it can be closed, an 80 by 24 action
/// button 8 pixels into its bottom right corner if it has an action.
pub open spec fn placed(v: NotifyView, k: int) -> ItemView {
    let it = v.items[k];
    let x = item_x(v, it.offset as int);
    let y = item_y(v, k);
    let b = Rect { x: x as i32, y: y as i32, width: v.width, height: v.height };
    ItemView {
        bounds: b,
        close_rect: if it.can_close {
            Some(Rect { x: (x + v.width - 28) as i32, y: (y + 8) as i32, width: 20, height: 20 })
        } else {
            it.close_rect
        },
        action_rect: if it.action is Some {
            Some(Rect { x: (x + v.width - 88) as i32, y: (y + v.height - 32) as i32, width: 80, height: 24 })
        } else {
            it.action_rect
        },
        ..it
    }
}

/// The manager with its first [`shown`] notifications laid out.
pub open spec fn laid_out(v: NotifyView) -> NotifyView {
    NotifyView { items: Seq::new(v.items.len(), |k: int| if k < shown(v) { placed(v, k) } else { v.items[k] }), ..v }
}

/// Every coordinate the layout computes is an `i32`.
pub open spec fn layout_fits(v: NotifyView) -> bool {
    &&& shown(v) < i32::MAX
    &&& forall|k: int|
        0 <= k <= shown(v) ==> {
            &&& fits_i32(#[trigger] item_y(v, k))
            &&& fits_i32(k * (v.height + SPACING))
            &&& (k < shown(v) ==> {
                let x = item_x(v, v.items[k].offset as int);
                let y = item_y(v, k);
                &&& fits_i32(x)
                &&& fits_i32(x + v.width)
                &&& fits_i32(y + v.height)
                &&& fits_i32(x + v.width - 88)
                &&& fits_i32(y + 8)
                &&& fits_i32(y + v.height - 32)
            })
        }
}

/// The items of `s` that `keep` keeps, in order.
pub open spec fn kept(s: Seq<ItemView>, keep: spec_fn(ItemView) -> bool) -> Seq<ItemView>
    decreases s.len(),
{
    if s.len() == 0 {
        s
    } else if keep(s.last()) {
        kept(s.drop_last(), keep).push(s.last())
    } else {
        kept(s.drop_last(), keep)
    }
}

/// The ids of the items of `s` that `keep` drops, last first.
pub open spec fn dropped_ids_rev(s: Seq<ItemView>, keep: spec_fn(ItemView) -> bool) -> Seq<Seq<char>>
    decreases s.len(),
{
    if s.len() == 0 {
        seq![]
    } else if keep(s.last()) {
        dropped_ids_rev(s.drop_last(), keep)
    } else {
        seq![s.last().id] + dropped_ids_rev(s.drop_last(), keep)
    }
}

/// The first item from `k` on whose close button is under `p`, `-1` if none.
pub open spec fn close_hit(s: Seq<ItemView>, p: Point, k: int) -> int
    decreases s.len() - k,
{
    if k < 0 || k >= s.len() {
        -1
    } else if s[k].close_rect matches Some(r) && r.contains_spec(p) {
        k
    } else {
        close_hit(s, p, k + 1)
    }
}

/// The first item from `k` on whose action button is under `p`, `-1` if none.
pub open spec fn action_hit(s: Seq<ItemView>, p: Point, k: int) -> int
    decreases s.len() - k,
{
    if k < 0 || k >= s.len() {
        -1
    } else if s[k].action_rect matches Some(r) && r.contains_spec(p) {
        k
    } else {
        action_hit(s, p, k + 1)
    }
}

/// An item with its buttons' hover set for a pointer at `p`.
pub open spec fn hovered(it: ItemView, p: Point) -> ItemView {
    ItemView {
        hover_close: match it.close_rect { Some(r) => r.contains_spec(p), None => it.hover_close },
        hover_action: match it.action_rect { Some(r) => r.contains_spec(p), None => it.hover_action },
        ..it
    }
}

/// What an event does: the new state, the result, the id of a notification
/// closed by its button and of one whose action was clicked. A move tracks
/// the buttons' hover (consumed when it changed); a left release on a close
/// button closes that notification, else one on an action button reports
/// the action.
pub open spec fn notify_event(v: NotifyView, e: Event) -> (NotifyView, EventResult, Option<Seq<char>>, Option<Seq<char>>) {
    if !v.state.enabled || !v.state.visible {
        (v, EventResult::Ignored, None, None)
    } else {
        match e {
            Event::MouseMove(mm) => {
                let items = Seq::new(v.items.len(), |k: int| hovered(v.items[k], mm.position));
                let changed = exists|k: int| 0 <= k < v.items.len() && #[trigger] items[k] != v.items[k];
                (NotifyView { items, ..v }, if changed { EventResult::Consumed } else { EventResult::Ignored }, None, None)
            },
            Event::MouseButton(mb) => if mb.button == MouseButton::Left && !mb.pressed {
                let c = close_hit(v.items, mb.position, 0);
                let a = action_hit(v.items, mb.position, 0);
                if c >= 0 {
                    (NotifyView { items: v.items.remove(c), ..v }, EventResult::Consumed, Some(v.items[c].id), None)
                } else if a >= 0 {
                    (v, EventResult::Consumed, None, Some(v.items[a].id))
                } else {
                    (v, EventResult::Ignored, None, None)
                }
            } else {
                (v, EventResult::Ignored, None, None)
            },
            _ => (v, EventResult::Ignored, None, None),
        }
    }
}

/// A new notification as the queue takes it: not laid out, slid out by the
/// notification width.
pub open spec fn fresh_item(n: Notification, width: i32) -> ItemView {
    ItemView {
        id: n.id@,
        title: n.title@,
        message: n.message@,
        kind: n.notification_type,
        icon: match n.icon { Some(i) => Some(i@), None => None },
        action: match n.action_text { Some(a) => Some(a@), None => None },
        can_close: n.can_close,
        created_at: n.created_at,
        duration: n.duration,
        bounds: Rect { x: 0, y: 0, width: 0, height: 0 },
        close_rect: None,
        action_rect: None,
        hover_close: false,
        hover_action: false,
        offset: width,
    }
}

/// Keeps the notifications whose id is not `id`.
pub open spec fn other_id(id: Seq<char>) -> spec_fn(ItemView) -> bool {
    |it: ItemView| it.id != id
}

/// Keeps the notifications not expired at `now`.
pub open spec fn unexpired(now: u64) -> spec_fn(ItemView) -> bool {
    |it: ItemView| !expired_at(it.created_at, it.duration, now)
}

/// How many of the oldest notifications `show` drops.
pub open spec fn overflow(len: int, max: int) -> int {
    if len > max { len - max } else { 0 }
}


struct NotificationItem {
    notification: Notification,
    bounds: Rect,
    close_button_rect: Option<Rect>,
    action_button_rect: Option<Rect>,
    hover_close: bool,
    hover_action: bool,
    animation_offset: i32,
}

spec fn item_view(it: NotificationItem) -> ItemView {
    ItemView {
        bounds: it.bounds,
        close_rect: it.close_button_rect,
        action_rect: it.action_button_rect,
        hover_close: it.hover_close,
        hover_action: it.hover_action,
        offset: it.animation_offset,
        ..fresh_item(it.notification, 0)
    }
}

spec fn item_views(s: Seq<NotificationItem>) -> Seq<ItemView> {
    s.map_values(|it: NotificationItem| item_view(it))
}

pub open spec fn ids(s: Seq<ItemView>) -> Seq<Seq<char>> {
    s.map_values(|it: ItemView| it.id)
}

pub open spec fn texts(s: Seq<String>) -> Seq<Seq<char>> {
    s.map_values(|t: String| t@)
}

/// The notifications, stacked by position.
pub struct NotificationManager {
    state: WidgetState,
    notifications: Vec<NotificationItem>,
    position: NotificationPosition,
    max_visible: usize,
    notification_width: i32,
    notification_height: i32,
}

proof fn lemma_item_views_take(s: Seq<NotificationItem>, k: int)
    requires
        0 <= k < s.len(),
    ensures
        item_views(s.take(k + 1)) == item_views(s.take(k)).push(item_view(s[k])),
{
    assert(item_views(s.take(k + 1)) =~= item_views(s.take(k)).push(item_view(s[k])));
}

impl NotificationManager {
    pub closed spec fn view(&self) -> NotifyView {
        NotifyView {
            state: self.state,
            items: item_views(self.notifications@),
            position: self.position,
            max_visible: self.max_visible,
            width: self.notification_width,
            height: self.notification_height,
        }
    }

    /// An empty queue: top right, at most 5 shown, 350 by 80 pixels each.
    pub fn new(id: WidgetId) -> (m: NotificationManager)
        ensures
            m.view() == (NotifyView {
                state: WidgetState::new_spec(id),
                items: Seq::empty(),
                position: NotificationPosition::TopRight,
                max_visible: 5,
                width: 350,
                height: 80,
            }),
    {
        let m = NotificationManager {
            state: WidgetState::new(id),
            notifications: Vec::new(),
            position: NotificationPosition::TopRight,
            max_visible: 5,
            notification_width: 350,
            notification_height: 80,
        };
        assert(m.view().items =~= Seq::<ItemView>::empty());
        m
    }

    pub fn with_position(self, position: NotificationPosition) -> (m: NotificationManager)
        ensures
            m.view() == (NotifyView { position, ..self.view() }),
    {
        NotificationManager { position, ..self }
    }

    pub fn with_max_visible(self, max_visible: usize) -> (m: NotificationManager)
        ensures
            m.view() == (NotifyView { max_visible, ..self.view() }),
    {
        NotificationManager { max_visible, ..self }
    }

    pub fn with_size(self, width: i32, height: i32) -> (m: NotificationManager)
        ensures
            m.view() == (NotifyView { width, height, ..self.view() }),
    {
        NotificationManager { notification_width: width, notification_height: height, ..self }
    }

    /// Queues `notification` last; while more than `max_visible` are queued
    /// the oldest are dropped. Returns the ids of those dropped, oldest
    /// first (the close notifications).
    pub fn show(&mut self, notification: Notification) -> (closed: Vec<String>)
        ensures
            ({
                let pushed = old(self).view().items.push(fresh_item(notification, old(self).view().width));
                let d = overflow(pushed.len() as int, old(self).view().max_visible as int);
                &&& final(self).view() == (NotifyView { items: pushed.skip(d), ..old(self).view() })
                &&& texts(closed@) == ids(pushed.take(d))
            }),
    {
        let ghost v = self.view();
        let width = self.notification_width;
        let item = NotificationItem {
            notification,
            bounds: Rect::empty(),
            close_button_rect: None,
            action_button_rect: None,
            hover_close: false,
            hover_action: false,
            animation_offset: width,
        };
        self.notifications.push(item);
        let ghost pushed = v.items.push(fresh_item(notification, v.width));
        assert(self.view().items =~= pushed);
        let mut closed: Vec<String> = Vec::new();
        let ghost d = overflow(pushed.len() as int, v.max_visible as int);
        while self.notifications.len() > self.max_visible
            invariant
                self.max_visible == v.max_visible,
                self.view() == (NotifyView { items: self.view().items, ..v }),
                d == overflow(pushed.len() as int, v.max_visible as int),
                0 <= closed@.len() <= d,
                self.view().items == pushed.skip(closed@.len() as int),
                texts(closed@) == ids(pushed.take(closed@.len() as int)),
            decreases self.notifications.len(),
        {
            let ghost k = closed@.len() as int;
            let ghost before = self.notifications@;
            let ghost cb = closed@;
            assert(self.view().items.len() > 0);
            assert(self.view().items[0] == pushed[k]);
            assert(self.view().items[0] == item_view(self.notifications@[0]));
            let removed = self.notifications.remove(0);
            assert(item_view(removed) == pushed[k]);
            let ghost rid = removed.notification.id@;
            closed.push(removed.notification.id);
            assert(self.notifications@ =~= before.subrange(1, before.len() as int));
            assert(item_views(self.notifications@) =~= item_views(before).subrange(1, before.len() as int));
            assert(pushed.skip(k + 1) =~= pushed.skip(k).subrange(1, pushed.skip(k).len() as int));
            assert(self.view().items =~= pushed.skip(k + 1));
            assert(texts(closed@) =~= texts(cb).push(rid));
            assert(ids(pushed.take(k + 1)) =~= ids(pushed.take(k)).push(pushed[k].id));
            assert(texts(closed@) =~= ids(pushed.take(k + 1)));
        }
        closed
    }

    /// Drops every notification; no close notification fires.
    pub fn clear(&mut self)
        ensures
            final(self).view() == (NotifyView { items: Seq::empty(), ..old(self).view() }),
    {
        self.notifications.clear();
        assert(self.view().items =~= Seq::<ItemView>::empty());
    }

    fn keep_where(&mut self, id: &str, now: u64, by_id: bool) -> (closed: Vec<String>)
        ensures
            ({
                let keep: spec_fn(ItemView) -> bool = if by_id {
                    other_id(id@)
                } else {
                    unexpired(now)
                };
                &&& final(self).view() == (NotifyView { items: kept(old(self).view().items, keep), ..old(self).view() })
                &&& texts(closed@) == dropped_ids_rev(old(self).view().items, keep)
            }),
    {
        let ghost v = self.view();
        let ghost keep: spec_fn(ItemView) -> bool = if by_id {
            other_id(id@)
        } else {
            unexpired(now)
        };
        let ghost before = self.notifications@;
        assert(item_views(before) == v.items);
        let mut rest: Vec<NotificationItem> = Vec::new();
        std::mem::swap(&mut rest, &mut self.notifications);
        let ghost all = rest@;
        assert(all == before);
        assert(self.view().items =~= kept(v.items.take(0), keep));
        let total = rest.len();
        assert(all.len() == total);
        let mut closed: Vec<String> = Vec::new();
        assert(texts(closed@) =~= dropped_ids_rev(v.items.take(0), keep));
        let mut k: usize = 0;
        while rest.len() > 0
            invariant
                self.view() == (NotifyView { items: self.view().items, ..v }),
                item_views(all) == v.items,
                all.len() <= usize::MAX,
                k + rest@.len() == all.len(),
                rest@ == all.skip(k as int),
                self.view().items == kept(v.items.take(k as int), keep),
                texts(closed@) == dropped_ids_rev(v.items.take(k as int), keep),
                keep == (if by_id {
                    other_id(id@)
                } else {
                    unexpired(now)
                }),
            decreases rest@.len(),
        {
            let item = rest.remove(0);
            assert(item == all[k as int]);
            assert(v.items[k as int] == item_view(item));
            assert(v.items.take(k + 1).drop_last() =~= v.items.take(k as int));
            assert(v.items.take(k + 1).last() == item_view(item));
            let stays = if by_id {
                !crate::text::same_text(item.notification.id.as_str(), id)
            } else {
                !item.notification.is_expired(now)
            };
            if stays {
                self.notifications.push(item);
                assert(self.view().items =~= kept(v.items.take(k as int), keep).push(item_view(item)));
            } else {
                let ghost before = closed@;
                closed.insert(0, item.notification.id);
                assert(texts(closed@) =~= seq![item_view(item).id] + texts(before));
            }
            k = k + 1;
            assert(rest@ =~= all.skip(k as int));
        }
        assert(v.items.take(k as int) =~= v.items);
        closed
    }

    /// Drops the notifications with id `id`; returns one close notification
    /// (the id) for each.
    pub fn remove(&mut self, id: &str) -> (closed: Vec<String>)
        ensures
            final(self).view() == (NotifyView {
                items: kept(old(self).view().items, other_id(id@)),
                ..old(self).view()
            }),
            texts(closed@) == dropped_ids_rev(old(self).view().items, other_id(id@)),
    {
        self.keep_where(id, 0, true)
    }

    /// Drops the notifications expired at `now`; returns their ids, the
    /// last queued first (the close notifications, in the order they fire).
    pub fn remove_expired(&mut self, now: u64) -> (closed: Vec<String>)
        ensures
            final(self).view() == (NotifyView {
                items: kept(old(self).view().items, unexpired(now)),
                ..old(self).view()
            }),
            texts(closed@) == dropped_ids_rev(
                old(self).view().items,
                unexpired(now),
            ),
    {
        self.keep_where("", now, false)
    }
}


impl NotificationManager {
    fn update_layout(&mut self)
        requires
            layout_fits(old(self).view()),
        ensures
            final(self).view() == laid_out(old(self).view()),
    {
        let ghost v = self.view();
        let n = if self.notifications.len() < self.max_visible { self.notifications.len() } else { self.max_visible };
        assert(n == shown(v));
        let vw = self.state.bounds.width as i64;
        let vh = self.state.bounds.height as i64;
        let w = self.notification_width as i64;
        let h = self.notification_height as i64;
        let mut k: usize = 0;
        while k < n
            invariant
                self.view() == (NotifyView { items: self.view().items, ..v }),
                layout_fits(v),
                n == shown(v),
                n <= v.items.len(),
                k <= n,
                vw == v.state.bounds.width,
                vh == v.state.bounds.height,
                w == v.width,
                h == v.height,
                self.view().items.len() == v.items.len(),
                forall|j: int| 0 <= j < k ==> #[trigger] self.view().items[j] == placed(v, j),
                forall|j: int| k <= j < v.items.len() ==> #[trigger] self.view().items[j] == v.items[j],
            decreases n - k,
        {
            let ghost before = self.notifications@;
            let ghost cur = self.view().items;
            assert(cur[k as int] == item_view(before[k as int]));
            let mut it = self.notifications.remove(k);
            assert(item_view(it) == v.items[k as int]);
            assert(fits_i32(item_y(v, k as int)));
            assert(fits_i32(k * (v.height + SPACING)));
            let off = it.animation_offset as i64;
            let x: i64 = match self.position {
                NotificationPosition::TopLeft | NotificationPosition::BottomLeft => 20 + off,
                NotificationPosition::TopCenter | NotificationPosition::BottomCenter => (vw - w) / 2 + off,
                _ => vw - w - 20 - off,
            };
            let ki = k as i64;
            let y: i64 = match self.position {
                NotificationPosition::TopLeft | NotificationPosition::TopCenter | NotificationPosition::TopRight => 20 + ki * (h + 10),
                _ => {
                    assert(fits_i32(item_y(v, k + 1)));
                    assert(fits_i32((k + 1) * (v.height + SPACING)));
                    vh - 20 - (h + 10) * (ki + 1) + 10
                },
            };
            assert(x == item_x(v, v.items[k as int].offset as int));
            assert(y == item_y(v, k as int));
            it.bounds = Rect::new(x as i32, y as i32, self.notification_width, self.notification_height);
            if it.notification.can_close {
                it.close_button_rect = Some(Rect::new((x + w - 28) as i32, (y + 8) as i32, 20, 20));
            }
            if it.notification.action_text.is_some() {
                it.action_button_rect = Some(Rect::new((x + w - 88) as i32, (y + h - 32) as i32, 80, 24));
            }
            assert(item_view(it) == placed(v, k as int));
            let ghost iv = item_view(it);
            self.notifications.insert(k, it);
            assert(self.notifications@ =~= before.update(k as int, it));
            assert(self.view().items =~= cur.update(k as int, iv));
            k = k + 1;
        }
        assert(self.view().items =~= laid_out(v).items);
    }

    /// Places the area and lays out the shown notifications; see
    /// [`laid_out`].
    pub fn layout(&mut self, rect: Rect)
        requires
            layout_fits(NotifyView { state: WidgetState { bounds: rect, ..old(self).view().state }, ..old(self).view() }),
        ensures
            final(self).view() == laid_out(
                NotifyView { state: WidgetState { bounds: rect, ..old(self).view().state }, ..old(self).view() },
            ),
    {
        self.state.bounds = rect;
        self.update_layout();
    }

    /// Takes the whole width and height offered, none without a limit.
    pub fn measure(&self, max_width: Option<i32>, max_height: Option<i32>) -> (s: Size)
        ensures
            s.width == (match max_width { Some(w) => w, None => 0 }),
            s.height == (match max_height { Some(h) => h, None => 0 }),
    {
        let width = match max_width {
            Some(w) => w,
            None => 0,
        };
        let height = match max_height {
            Some(h) => h,
            None => 0,
        };
        Size::new(width, height)
    }

    fn handle_move(&mut self, p: Point) -> (r: EventResult)
        ensures
            ({
                let items = Seq::new(old(self).view().items.len(), |k: int| hovered(old(self).view().items[k], p));
                let changed = exists|k: int| 0 <= k < old(self).view().items.len() && #[trigger] items[k] != old(self).view().items[k];
                &&& final(self).view() == (NotifyView { items, ..old(self).view() })
                &&& r == (if changed { EventResult::Consumed } else { EventResult::Ignored })
            }),
    {
        let ghost v = self.view();
        let ghost target = Seq::new(v.items.len(), |k: int| hovered(v.items[k], p));
        let mut changed = false;
        let mut k: usize = 0;
        while k < self.notifications.len()
            invariant
                self.view() == (NotifyView { items: self.view().items, ..v }),
                self.view().items.len() == v.items.len(),
                k <= v.items.len(),
                forall|j: int| 0 <= j < k ==> #[trigger] self.view().items[j] == target[j],
                forall|j: int| k <= j < v.items.len() ==> #[trigger] self.view().items[j] == v.items[j],
                changed == exists|j: int| 0 <= j < k && #[trigger] target[j] != v.items[j],
                target == Seq::new(v.items.len(), |k: int| hovered(v.items[k], p)),
                v == old(self).view(),
            decreases v.items.len() - k,
        {
            let ghost before = self.notifications@;
            let ghost cur = self.view().items;
            assert(cur[k as int] == item_view(before[k as int]));
            let mut it = self.notifications.remove(k);
            assert(item_view(it) == v.items[k as int]);
            let old_hc = it.hover_close;
            let old_ha = it.hover_action;
            match it.close_button_rect {
                Some(r) => {
                    it.hover_close = r.contains(p);
                },
                None => {},
            }
            match it.action_button_rect {
                Some(r) => {
                    it.hover_action = r.contains(p);
                },
                None => {},
            }
            let differs = it.hover_close != old_hc || it.hover_action != old_ha;
            assert(item_view(it) == target[k as int]);
            assert(differs == (target[k as int] != v.items[k as int]));
            if differs {
                changed = true;
            }
            let ghost iv = item_view(it);
            self.notifications.insert(k, it);
            assert(self.notifications@ =~= before.update(k as int, it));
            assert(self.view().items =~= cur.update(k as int, iv));
            k = k + 1;
        }
        assert(self.view().items =~= target);
        if changed {
            EventResult::Consumed
        } else {
            EventResult::Ignored
        }
    }

    fn handle_release(&mut self, p: Point) -> (r: (EventResult, Option<String>, Option<String>))
        ensures
            ({
                let v = old(self).view();
                let c = close_hit(v.items, p, 0);
                let a = action_hit(v.items, p, 0);
                if c >= 0 {
                    &&& final(self).view() == (NotifyView { items: v.items.remove(c), ..v })
                    &&& r.0 == EventResult::Consumed
                    &&& r.1 matches Some(t) && t@ == v.items[c].id
                    &&& r.2 is None
                } else if a >= 0 {
                    &&& final(self).view() == v
                    &&& r.0 == EventResult::Consumed
                    &&& r.1 is None
                    &&& r.2 matches Some(t) && t@ == v.items[a].id
                } else {
                    final(self).view() == v && r.0 == EventResult::Ignored && r.1 is None && r.2 is None
                }
            }),
    {
        let ghost v = self.view();
        let mut k: usize = 0;
        while k < self.notifications.len()
            invariant
                self.view() == v,
                v == old(self).view(),
                k <= v.items.len(),
                close_hit(v.items, p, 0) == close_hit(v.items, p, k as int),
            decreases v.items.len() - k,
        {
            assert(v.items[k as int] == item_view(self.notifications@[k as int]));
            match self.notifications[k].close_button_rect {
                Some(r) => {
                    if r.contains(p) {
                        let ghost before = self.notifications@;
                        let removed = self.notifications.remove(k);
                        assert(self.notifications@ =~= before.remove(k as int));
                        assert(item_view(removed) == v.items[k as int]);
                        assert(self.view().items =~= v.items.remove(k as int));
                        return (EventResult::Consumed, Some(removed.notification.id), None);
                    }
                },
                None => {},
            }
            k = k + 1;
        }
        let mut k: usize = 0;
        while k < self.notifications.len()
            invariant
                self.view() == v,
                v == old(self).view(),
                k <= v.items.len(),
                close_hit(v.items, p, 0) == -1,
                action_hit(v.items, p, 0) == action_hit(v.items, p, k as int),
            decreases v.items.len() - k,
        {
            assert(v.items[k as int] == item_view(self.notifications@[k as int]));
            match self.notifications[k].action_button_rect {
                Some(r) => {
                    if r.contains(p) {
                        return (EventResult::Consumed, None, Some(self.notifications[k].notification.id.clone()));
                    }
                },
                None => {},
            }
            k = k + 1;
        }
        (EventResult::Ignored, None, None)
    }

    /// Answers an event; see [`notify_event`]. Returns the result, the id
    /// of a notification closed by its button and that of one whose action
    /// was clicked.
    pub fn handle_event(&mut self, event: &Event) -> (r: (EventResult, Option<String>, Option<String>))
        ensures
            ({
                let (v2, res, closed, action) = notify_event(old(self).view(), *event);
                &&& final(self).view() == v2
                &&& r.0 == res
                &&& match closed { Some(c) => r.1 matches Some(t) && t@ == c, None => r.1 is None }
                &&& match action { Some(a) => r.2 matches Some(t) && t@ == a, None => r.2 is None }
            }),
    {
        if !self.state.enabled || !self.state.visible {
            return (EventResult::Ignored, None, None);
        }
        match event {
            Event::MouseMove(mm) => {
                let r = self.handle_move(mm.position);
                (r, None, None)
            },
            Event::MouseButton(mb) => {
                if mb.button == MouseButton::Left && !mb.pressed {
                    self.handle_release(mb.position)
                } else {
                    (EventResult::Ignored, None, None)
                }
            },
            _ => (EventResult::Ignored, None, None),
        }
    }

    /// The number of notifications queued.
    pub fn notification_count(&self) -> (n: usize)
        ensures
            n == self.view().items.len(),
    {
        self.notifications.len()
    }

    /// Notification `index`, oldest first.
    pub fn notification_at(&self, index: usize) -> (n: &Notification)
        requires
            index < self.view().items.len(),
        ensures
            fresh_item(*n, 0).id == self.view().items[index as int].id,
            fresh_item(*n, 0).title == self.view().items[index as int].title,
            fresh_item(*n, 0).message == self.view().items[index as int].message,
            fresh_item(*n, 0).action == self.view().items[index as int].action,
    {
        assert(self.view().items[index as int] == item_view(self.notifications@[index as int]));
        &self.notifications[index].notification
    }

    /// Where notification `index` is drawn, with its close and action
    /// buttons, and whether they are hovered.
    pub fn item_layout(&self, index: usize) -> (r: (Rect, Option<Rect>, Option<Rect>, bool, bool))
        requires
            index < self.view().items.len(),
        ensures
            r == ({
                let it = self.view().items[index as int];
                (it.bounds, it.close_rect, it.action_rect, it.hover_close, it.hover_action)
            }),
    {
        assert(self.view().items[index as int] == item_view(self.notifications@[index as int]));
        let it = &self.notifications[index];
        (it.bounds, it.close_button_rect, it.action_button_rect, it.hover_close, it.hover_action)
    }

    /// The slide-in offset of notification `index`.
    pub fn animation_offset(&self, index: usize) -> (o: i32)
        requires
            index < self.view().items.len(),
        ensures
            o == self.view().items[index as int].offset,
    {
        assert(self.view().items[index as int] == item_view(self.notifications@[index as int]));
        self.notifications[index].animation_offset
    }

    /// Sets the slide-in offset of notification `index`, as the host's
    /// animation computes it.
    pub fn set_animation_offset(&mut self, index: usize, offset: i32)
        requires
            index < old(self).view().items.len(),
        ensures
            final(self).view() == (NotifyView {
                items: old(self).view().items.update(
                    index as int,
                    ItemView { offset, ..old(self).view().items[index as int] },
                ),
                ..old(self).view()
            }),
    {
        let ghost v = self.view();
        assert(v.items[index as int] == item_view(self.notifications@[index as int]));
        let mut it = self.notifications.remove(index);
        it.animation_offset = offset;
        self.notifications.insert(index, it);
        assert(self.view().items =~= v.items.update(index as int, ItemView { offset, ..v.items[index as int] }));
    }

    pub fn id(&self) -> (id: WidgetId)
        ensures
            id == self.view().state.id,
    {
        self.state.id
    }

    pub fn bounds(&self) -> (r: Rect)
        ensures
            r == self.view().state.bounds,
    {
        self.state.bounds
    }

    pub fn set_bounds(&mut self, bounds: Rect)
        ensures
            final(self).view() == (NotifyView { state: WidgetState { bounds, ..old(self).view().state }, ..old(self).view() }),
    {
        self.state.bounds = bounds;
    }

    pub fn is_visible(&self) -> (b: bool)
        ensures
            b == self.view().state.visible,
    {
        self.state.visible
    }

    pub fn set_visible(&mut self, visible: bool)
        ensures
            final(self).view() == (NotifyView { state: WidgetState { visible, ..old(self).view().state }, ..old(self).view() }),
    {
        self.state.visible = visible;
    }

    pub fn is_enabled(&self) -> (b: bool)
        ensures
            b == self.view().state.enabled,
    {
        self.state.enabled
    }

    pub fn set_enabled(&mut self, enabled: bool)
        ensures
            final(self).view() == (NotifyView { state: WidgetState { enabled, ..old(self).view().state }, ..old(self).view() }),
    {
        self.state.enabled = enabled;
    }

    /// The notification area never takes the focus.
    pub fn is_focused(&self) -> (b: bool)
        ensures
            !b,
    {
        false
    }

    pub fn set_focused(&mut self, _focused: bool)
        ensures
            final(self).view() == old(self).view(),
    {
    }

    pub fn can_focus(&self) -> (b: bool)
        ensures
            !b,
    {
        false
    }
}


/// Where the layout puts a shown notification, in the area's width `vw`
/// and height `vh`: it has the manager's size; on the left it stands the
/// margin plus its slide-in offset from the left edge, on the right as far
/// from the right edge, in the centre its gaps to both edges (less its
/// offset) differ by at most a pixel; at the top the `k`-th stands `k`
/// slots of height plus spacing below the top margin, at the bottom as
/// far above the bottom margin.
pub proof fn law_layout_places_notifications(v: NotifyView, k: int)
    requires
        layout_fits(v),
        0 <= k < shown(v),
    ensures
        ({
            let b = laid_out(v).items[k].bounds;
            let off = v.items[k].offset as int;
            let vw = v.state.bounds.width as int;
            let vh = v.state.bounds.height as int;
            let slot = k * (v.height + SPACING);
            &&& b.width == v.width && b.height == v.height
            &&& match v.position {
                NotificationPosition::TopLeft | NotificationPosition::BottomLeft => b.x == MARGIN + off,
                NotificationPosition::TopRight | NotificationPosition::BottomRight => vw - (b.x + b.width) == MARGIN + off,
                NotificationPosition::TopCenter | NotificationPosition::BottomCenter => {
                    let left_gap = b.x - off;
                    let right_gap = vw - (b.x - off + b.width);
                    -1 <= right_gap - left_gap <= 1
                },
            }
            &&& match v.position {
                NotificationPosition::TopLeft | NotificationPosition::TopCenter | NotificationPosition::TopRight =>
                    b.y == MARGIN + slot,
                _ => vh - (b.y + b.height) == MARGIN + slot,
            }
        }),
{
    let h = v.height as int;
    assert(fits_i32(item_y(v, k)));
    assert((h + SPACING) * (k + 1) == k * (h + SPACING) + h + SPACING) by (nonlinear_arith);
    let d = v.state.bounds.width as int - v.width as int;
    assert(-1 <= d - 2 * trunc_div(d, 2) <= 1) by (nonlinear_arith)
        requires
            trunc_div(d, 2) == if d >= 0 { d / 2 } else { -((-d) / 2) },
    {
    }
}

/// Showing a notification keeps at most `max_visible` queued, the new one
/// last when any are kept.
pub proof fn law_show_keeps_queue_bounded(v: NotifyView, n: Notification)
    ensures
        ({
            let pushed = v.items.push(fresh_item(n, v.width));
            let d = overflow(pushed.len() as int, v.max_visible as int);
            let items = pushed.skip(d);
            &&& items.len() <= v.max_visible || items.len() == 0
            &&& items.len() <= v.items.len() + 1
            &&& items.len() > 0 ==> items.last() == fresh_item(n, v.width)
        }),
{
}

proof fn lemma_kept_filters(s: Seq<ItemView>, keep: spec_fn(ItemView) -> bool)
    ensures
        forall|i: int| 0 <= i < kept(s, keep).len() ==> keep(#[trigger] kept(s, keep)[i]),
        kept(s, keep).len() <= s.len(),
    decreases s.len(),
{
    if s.len() > 0 {
        lemma_kept_filters(s.drop_last(), keep);
        let k0 = kept(s.drop_last(), keep);
        if keep(s.last()) {
            assert forall|i: int| 0 <= i < k0.push(s.last()).len() implies keep(#[trigger] k0.push(s.last())[i]) by {
                if i < k0.len() {
                    assert(k0.push(s.last())[i] == k0[i]);
                }
            }
        }
    }
}

/// After removing a notification by id none with that id is left, and
/// after removing the expired ones none left has expired.
pub proof fn law_removal_leaves_none(items: Seq<ItemView>, id: Seq<char>, now: u64)
    ensures
        forall|i: int| 0 <= i < kept(items, other_id(id)).len()
            ==> (#[trigger] kept(items, other_id(id))[i]).id != id,
        forall|i: int| 0 <= i < kept(items, unexpired(now)).len()
            ==> !expired_at(
                (#[trigger] kept(items, unexpired(now))[i]).created_at,
                kept(items, unexpired(now))[i].duration,
                now,
            ),
{
    lemma_kept_filters(items, other_id(id));
    lemma_kept_filters(items, unexpired(now));
}

} // verus!
