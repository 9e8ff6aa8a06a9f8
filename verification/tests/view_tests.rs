use lime::view::{get_unscaled_canvas_size, zoom_factor, CanvasRect, ViewState};

#[test]
fn zoom_table_endpoints_and_baseline() {
    assert_eq!(zoom_factor(0), 25_600_000);
    assert_eq!(zoom_factor(16), 100_000);
    assert_eq!(zoom_factor(32), 391);
    // Adjacent entries descend strictly.
    for i in 0..32u8 {
        assert!(zoom_factor(i) > zoom_factor(i + 1));
    }
}

#[test]
fn new_view_starts_at_baseline_level() {
    let v = ViewState::new(512, 512, 256, 256);
    assert_eq!(v.zoom_level, 17);
    assert_eq!((v.viewport_w, v.viewport_h), (512, 512));
    assert_eq!((v.canvas_w, v.canvas_h), (256, 256));
}

#[test]
fn zoom_level_saturates_at_both_ends() {
    // However many zoom events arrive, the index stays inside the table.
    let mut v = ViewState::new(512, 512, 256, 256);
    for _ in 0..100 {
        v.apply_zoom(true, 1000, 1000);
        assert!(v.zoom_level <= 32);
    }
    assert_eq!(v.zoom_level, 0);
    for _ in 0..100 {
        v.apply_zoom(false, 1000, 1000);
        assert!(v.zoom_level <= 32);
    }
    assert_eq!(v.zoom_level, 32);
}

#[test]
fn unscaled_size_fits_the_narrow_axis() {
    // A wide canvas fills the viewport width and shrinks the height.
    let (uw, uh) = get_unscaled_canvas_size(1000, 1000, 400, 200);
    assert_eq!(uw, 1000 * 1024);
    assert_eq!(uh, 1000 * 1024 / 2);
    // A tall (or square) canvas fills the height and shrinks the width.
    let (uw, uh) = get_unscaled_canvas_size(1000, 1000, 200, 400);
    assert_eq!(uw, 1000 * 1024 / 2);
    assert_eq!(uh, 1000 * 1024);
    let (uw, uh) = get_unscaled_canvas_size(512, 512, 256, 256);
    assert_eq!((uw, uh), (512 * 1024, 512 * 1024));
}

#[test]
fn resize_recenters_and_resets_zoom() {
    let mut v = ViewState::new(512, 512, 256, 256);
    v.apply_zoom(true, 0, 0);
    assert_eq!(v.zoom_level, 16);
    v.handle_resize(1024, 768);
    assert_eq!(v.zoom_level, 17);
    assert_eq!((v.viewport_w, v.viewport_h), (1024, 768));
    // Square canvas in a 1024x768 viewport: fit height, center horizontally.
    assert_eq!(v.canvas_rect.w, 768 * 1024);
    assert_eq!(v.canvas_rect.h, 768 * 1024);
    assert_eq!(v.canvas_rect.min_x, (1024 * 1024 - 768 * 1024) / 2);
    assert_eq!(v.canvas_rect.min_y, 0);
}

#[test]
fn zoom_in_then_out_restores_the_rect() {
    // A rectangle exactly at scale 1 (level 16) of the fit size 524288:
    // zooming in and back out at the same pointer restores it exactly here.
    let mut v = ViewState::new(512, 512, 256, 256);
    v.zoom_level = 16;
    v.canvas_rect = CanvasRect { min_x: 10240, min_y: 20480, w: 524288, h: 524288 };
    v.apply_zoom(true, 0, 0);
    assert_eq!(v.zoom_level, 15);
    assert_eq!(v.canvas_rect, CanvasRect { min_x: 15360, min_y: 30720, w: 786432, h: 786432 });
    v.apply_zoom(false, 0, 0);
    assert_eq!(v.zoom_level, 16);
    assert_eq!(v.canvas_rect, CanvasRect { min_x: 10240, min_y: 20480, w: 524288, h: 524288 });

    // The same round trip anchored away from the origin.
    v.apply_zoom(true, 100000, 50000);
    assert_eq!(v.canvas_rect, CanvasRect { min_x: -34640, min_y: 5720, w: 786432, h: 786432 });
    v.apply_zoom(false, 100000, 50000);
    assert_eq!(v.canvas_rect, CanvasRect { min_x: 10240, min_y: 20480, w: 524288, h: 524288 });
}

#[test]
fn zoom_keeps_the_anchored_point_fixed() {
    // The canvas point under the pointer stays put: anchoring at the rect's
    // own minimum corner leaves that corner in place while the size grows.
    let mut v = ViewState::new(512, 512, 256, 256);
    v.zoom_level = 16;
    v.canvas_rect = CanvasRect { min_x: 4096, min_y: 8192, w: 524288, h: 524288 };
    v.apply_zoom(true, 4096, 8192);
    assert_eq!(v.canvas_rect.min_x, 4096);
    assert_eq!(v.canvas_rect.min_y, 8192);
    assert_eq!(v.canvas_rect.w, 786432);
}

#[test]
fn pan_translates_without_clamping_to_the_viewport() {
    let mut v = ViewState::new(512, 512, 256, 256);
    let before = v.canvas_rect;
    v.translate_target_view(-2_000_000, 300);
    assert_eq!(v.canvas_rect.min_x, before.min_x - 2_000_000);
    assert_eq!(v.canvas_rect.min_y, before.min_y + 300);
    assert_eq!(v.canvas_rect.w, before.w);
    assert_eq!(v.canvas_rect.h, before.h);
    assert_eq!(v.zoom_level, 17);
}
