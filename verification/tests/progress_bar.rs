use erigui_widgets::geometry::WidgetId;
use erigui_widgets::progress_bar::{ProgressBarOrientation, ProgressBarStyle, ProgressControl};

#[test]
fn striped_bars_animate_round_the_stripe_period() {
    let mut c = ProgressControl::new(WidgetId(1)).with_style(ProgressBarStyle::Striped);
    for _ in 0..19 {
        c.animate();
    }
    assert_eq!(c.animation_offset, 19);
    c.animate();
    assert_eq!(c.animation_offset, 0);
    let mut s = ProgressControl::new(WidgetId(1));
    s.animate();
    assert_eq!(s.animation_offset, 0);
}

#[test]
fn builders_set_the_looks() {
    let c = ProgressControl::new(WidgetId(1)).with_orientation(ProgressBarOrientation::Vertical).with_text_visible(false);
    assert_eq!(c.orientation, ProgressBarOrientation::Vertical);
    assert!(!c.show_text);
    assert!(c.show_percentage);
    assert_eq!(c.style, ProgressBarStyle::Solid);
}
