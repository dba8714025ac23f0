//! Input events delivered to widgets and the answer a widget gives.

use vstd::prelude::*;
use crate::geometry::Point;

verus! {

#[derive(Clone, Copy, Debug, PartialEq, Eq, Structural)]
pub enum MouseButton {
    Left,
    Right,
    Middle,
}

#[derive(Clone, Copy, Debug, PartialEq, Eq, Structural)]
pub enum Key {
    Up,
    Down,
    Left,
    Right,
    Enter,
    Space,
    Escape,
    Tab,
    Backspace,
    Delete,
    Home,
    End,
    PageUp,
    PageDown,
    /// A key that types the character.
    Character(char),
    /// The letter keys.
    A,
    B,
    C,
    D,
    E,
    F,
    G,
    H,
    I,
    J,
    K,
    L,
    M,
    N,
    O,
    P,
    Q,
    R,
    S,
    T,
    U,
    V,
    W,
    X,
    Y,
    Z,
    Other,
}

#[derive(Clone, Copy, Debug, PartialEq, Eq, Structural)]
pub struct Modifiers {
    pub shift: bool,
    pub ctrl: bool,
    pub alt: bool,
    pub meta: bool,
}

impl Modifiers {
    pub fn empty() -> (m: Modifiers)
        ensures
            m.is_empty_spec(),
    {
        Modifiers { shift: false, ctrl: false, alt: false, meta: false }
    }

    pub open spec fn is_empty_spec(self) -> bool {
        !self.shift && !self.ctrl && !self.alt && !self.meta
    }

    pub fn is_empty(&self) -> (b: bool)
        ensures
            b == self.is_empty_spec(),
    {
        !self.shift && !self.ctrl && !self.alt && !self.meta
    }
}

#[derive(Clone, Copy, Debug, PartialEq, Eq, Structural)]
pub struct MouseButtonEvent {
    pub button: MouseButton,
    pub position: Point,
    pub pressed: bool,
    pub modifiers: Modifiers,
}

#[derive(Clone, Copy, Debug, PartialEq, Eq, Structural)]
pub struct MouseMoveEvent {
    pub position: Point,
    pub delta: Point,
    pub modifiers: Modifiers,
}

/// A wheel turn over `position`; `delta.y` is negative when turned towards
/// the user.
#[derive(Clone, Copy, Debug, PartialEq, Eq, Structural)]
pub struct MouseWheelEvent {
    pub position: Point,
    pub delta: Point,
    pub modifiers: Modifiers,
}

#[derive(Clone, Copy, Debug, PartialEq, Eq, Structural)]
pub struct KeyPressEvent {
    pub key: Key,
    pub modifiers: Modifiers,
}

#[derive(Clone, Copy, Debug, PartialEq, Eq, Structural)]
pub enum Event {
    MouseButton(MouseButtonEvent),
    MouseMove(MouseMoveEvent),
    KeyPress(KeyPressEvent),
    MouseWheel(MouseWheelEvent),
    /// Per-frame tick.
    Update,
    /// Any other event (text input, focus, resize, ...).
    Other,
}

#[derive(Clone, Copy, Debug, PartialEq, Eq, Structural)]
pub enum EventResult {
    Consumed,
    Ignored,
}

impl EventResult {
    pub fn is_consumed(&self) -> (b: bool)
        ensures
            b == (*self == EventResult::Consumed),
    {
        match self {
            EventResult::Consumed => true,
            EventResult::Ignored => false,
        }
    }
}

impl Event {
    /// A left-button press or release at `position`.
    pub fn left_button(position: Point, pressed: bool) -> (e: Event)
        ensures
            e == Event::MouseButton(
                MouseButtonEvent {
                    button: MouseButton::Left,
                    position,
                    pressed,
                    modifiers: Modifiers { shift: false, ctrl: false, alt: false, meta: false },
                },
            ),
    {
        Event::MouseButton(
            MouseButtonEvent { button: MouseButton::Left, position, pressed, modifiers: Modifiers::empty() },
        )
    }

    /// A pointer move to `position`.
    pub fn mouse_move(position: Point) -> (e: Event)
        ensures
            e == Event::MouseMove(
                MouseMoveEvent {
                    position,
                    delta: Point { x: 0, y: 0 },
                    modifiers: Modifiers { shift: false, ctrl: false, alt: false, meta: false },
                },
            ),
    {
        Event::MouseMove(
            MouseMoveEvent { position, delta: Point::zero(), modifiers: Modifiers::empty() },
        )
    }

    /// A key press without modifiers.
    pub fn key(key: Key) -> (e: Event)
        ensures
            e == Event::KeyPress(
                KeyPressEvent {
                    key,
                    modifiers: Modifiers { shift: false, ctrl: false, alt: false, meta: false },
                },
            ),
    {
        Event::KeyPress(KeyPressEvent { key, modifiers: Modifiers::empty() })
    }
}

} // verus!
