use erigui_widgets::preview::{downsample_rgb, prepare_image_preview, PreviewError};

#[test]
fn downsample_passes_through_when_under_cap() {
    let src = vec![123u8; 32 * 32 * 3];
    let (w, h, out) = downsample_rgb(&src, 32, 32, 256);
    assert_eq!((w, h), (32, 32));
    assert_eq!(out.len(), 32 * 32 * 3);
    assert_eq!(out[0], 123);
}

#[test]
fn downsample_caps_long_edge() {
    let src = vec![200u8; (1024 * 512 * 3) as usize];
    let (w, h, out) = downsample_rgb(&src, 1024, 512, 256);
    assert!(w <= 256 && h <= 256);
    assert_eq!(w, 256);
    assert_eq!(h, 128);
    assert_eq!(out.len() as u32, w * h * 3);
    assert_eq!(out[0], 200);
}

#[test]
fn downsample_averages_each_box() {
    // 2x1 image, halved on the long edge: one pixel, the mean of both.
    let src = vec![10u8, 20, 30, 30, 40, 50];
    let (w, h, out) = downsample_rgb(&src, 2, 1, 1);
    assert_eq!((w, h), (1, 1));
    assert_eq!(out, vec![20u8, 30, 40]);
}

#[test]
fn preview_rejects_zero_size() {
    let r = prepare_image_preview(&[], 0, 4);
    assert!(matches!(r, Err(PreviewError::BadSize { .. })));
}

#[test]
fn preview_rejects_wrong_byte_count() {
    let r = prepare_image_preview(&[1u8, 2, 3], 2, 2);
    assert!(matches!(r, Err(PreviewError::BadByteLen { .. })));
}

#[test]
fn a_one_colour_image_keeps_its_colour_when_shrunk() {
    let src: Vec<u8> = [12u8, 200, 77].iter().copied().cycle().take(301 * 97 * 3).collect();
    let (w, h, out) = downsample_rgb(&src, 301, 97, 64);
    assert_eq!((w, h), (64, 21));
    assert_eq!(out.len(), 64 * 21 * 3);
    assert!(out.chunks(3).all(|p| p == [12u8, 200, 77]));
}
