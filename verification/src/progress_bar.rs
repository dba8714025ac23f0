//! Progress bars: orientation, style, which texts show, and the stripes'
//! animation. The value and its range are floating-point numbers the host
//! keeps.

use vstd::prelude::*;
use crate::geometry::WidgetId;
use crate::widget::WidgetState;

verus! {

#[derive(Clone, Copy, Debug, PartialEq, Eq, Structural)]
pub enum ProgressBarStyle {
    Solid,
    Striped,
}

#[derive(Clone, Copy, Debug, PartialEq, Eq, Structural)]
pub enum ProgressBarOrientation {
    Horizontal,
    Vertical,
}

/// Width of one stripe, and the period of the stripes' animation.
pub const STRIPE_WIDTH: i32 = 20;

/// `n % 20` as Rust computes it: the remainder takes the sign of `n`.
pub open spec fn rem20(n: int) -> int {
    if n >= 0 { n % 20 } else { -((-n) % 20) }
}

/// Everything of a progress bar but its value and colour.
#[derive(Clone, Copy, Debug, PartialEq, Eq, Structural)]
pub struct ProgressControl {
    pub state: WidgetState,
    pub orientation: ProgressBarOrientation,
    pub style: ProgressBarStyle,
    pub show_text: bool,
    pub show_percentage: bool,
    /// How far the stripes have moved, below [`STRIPE_WIDTH`].
    pub animation_offset: i32,
}

impl ProgressControl {
    /// A solid horizontal bar showing its text as a percentage.
    pub fn new(id: WidgetId) -> (c: ProgressControl)
        ensures
            c == (ProgressControl {
                state: WidgetState::new_spec(id),
                orientation: ProgressBarOrientation::Horizontal,
                style: ProgressBarStyle::Solid,
                show_text: true,
                show_percentage: true,
                animation_offset: 0,
            }),
    {
        ProgressControl {
            state: WidgetState::new(id),
            orientation: ProgressBarOrientation::Horizontal,
            style: ProgressBarStyle::Solid,
            show_text: true,
            show_percentage: true,
            animation_offset: 0,
        }
    }

    pub fn with_style(self, style: ProgressBarStyle) -> (c: ProgressControl)
        ensures
            c == (ProgressControl { style, ..self }),
    {
        ProgressControl { style, ..self }
    }

    pub fn with_orientation(self, orientation: ProgressBarOrientation) -> (c: ProgressControl)
        ensures
            c == (ProgressControl { orientation, ..self }),
    {
        ProgressControl { orientation, ..self }
    }

    pub fn with_text_visible(self, show: bool) -> (c: ProgressControl)
        ensures
            c == (ProgressControl { show_text: show, ..self }),
    {
        ProgressControl { show_text: show, ..self }
    }

    /// Moves a striped bar's stripes on by a pixel, round the period;
    /// a solid bar stays as it is.
    pub fn animate(&mut self)
        requires
            old(self).animation_offset < i32::MAX,
        ensures
            *final(self) == (if old(self).style == ProgressBarStyle::Striped {
                ProgressControl { animation_offset: rem20(old(self).animation_offset + 1) as i32, ..*old(self) }
            } else {
                *old(self)
            }),
    {
        if self.style == ProgressBarStyle::Striped {
            let next = self.animation_offset + 1;
            self.animation_offset = if next >= 0 { next % STRIPE_WIDTH } else { -((-next) % STRIPE_WIDTH) };
        }
    }
}

} // verus!
