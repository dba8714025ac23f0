//! State shared by every widget, and the theme metrics layout reads.

use vstd::prelude::*;
use crate::geometry::{Rect, WidgetId};

verus! {

/// Identity, placement and the visible / enabled / focused flags of a widget.
#[derive(Clone, Copy, Debug, PartialEq, Eq, Structural)]
pub struct WidgetState {
    pub id: WidgetId,
    pub bounds: Rect,
    pub visible: bool,
    pub enabled: bool,
    pub focused: bool,
}

impl WidgetState {
    pub open spec fn new_spec(id: WidgetId) -> WidgetState {
        WidgetState {
            id,
            bounds: Rect { x: 0, y: 0, width: 0, height: 0 },
            visible: true,
            enabled: true,
            focused: false,
        }
    }

    /// A visible, enabled, unfocused widget with empty bounds.
    pub fn new(id: WidgetId) -> (s: WidgetState)
        ensures
            s == WidgetState::new_spec(id),
    {
        WidgetState { id, bounds: Rect::empty(), visible: true, enabled: true, focused: false }
    }
}

/// The sizes from the theme that measuring and layout depend on.
#[derive(Clone, Copy, Debug, PartialEq, Eq, Structural)]
pub struct ThemeMetrics {
    pub font_size_base: i32,
    pub font_size_small: i32,
    pub font_size_large: i32,
    pub gap_small: i32,
    pub padding_top: i32,
    pub padding_right: i32,
    pub padding_bottom: i32,
    pub padding_left: i32,
}

} // verus!
