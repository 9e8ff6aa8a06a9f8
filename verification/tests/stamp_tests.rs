use lime::canvas::{blend_pixel_exec, Canvas, Pixel, Rgb};
use lime::stamp::Brush;

fn green() -> Rgb {
    Rgb { r: 0, g: 255, b: 0 }
}

fn black() -> Pixel {
    Pixel { r: 0, g: 0, b: 0, a: 255 }
}

#[test]
fn brush_new_clamps_parameters() {
    let b = Brush::new(100, 150, green());
    assert_eq!(b.hardness, 100);
    let b = Brush::new(u32::MAX, 50, green());
    assert_eq!(b.radius, 0x7FFF);
    let b = Brush::new(20, 50, green());
    assert_eq!((b.radius, b.hardness, b.color), (20, 50, green()));
}

#[test]
fn blob_of_zero_radius_is_empty() {
    let s = Brush::build_brush_blob(0, 50, green());
    assert_eq!(s.side, 0);
    assert_eq!(s.alpha.len(), 0);
}

#[test]
fn blob_center_is_solid_and_corners_transparent() {
    let s = Brush::build_brush_blob(20, 50, green());
    assert_eq!(s.side, 40);
    assert_eq!(s.alpha.len(), 40 * 40);
    // The center pixel (20, 20) sits at distance 0.
    assert_eq!(s.alpha[20 * 40 + 20], 255);
    // The corner pixel (0, 0) sits at distance sqrt(2) > 1.
    assert_eq!(s.alpha[0], 0);
    // The pixel at (0, 20) sits exactly at distance 1.
    assert_eq!(s.alpha[20 * 40 + 0], 0);
}

#[test]
fn blend_full_coverage_replaces_and_zero_keeps() {
    let dst = Pixel { r: 10, g: 20, b: 30, a: 200 };
    let full = blend_pixel_exec(green(), 255, dst);
    assert_eq!(full, Pixel { r: 0, g: 255, b: 0, a: 255 });
    let none = blend_pixel_exec(green(), 0, dst);
    assert_eq!(none, dst);
}

#[test]
fn blend_half_coverage_rounds_to_nearest() {
    let dst = Pixel { r: 0, g: 0, b: 0, a: 255 };
    let half = blend_pixel_exec(Rgb { r: 255, g: 255, b: 255 }, 128, dst);
    // (255*128 + 0*127 + 127) / 255 == 128
    assert_eq!(half, Pixel { r: 128, g: 128, b: 128, a: 255 });
}

#[test]
fn apply_paints_clipped_dab() {
    // The end-to-end dab: a 200x200 canvas, radius 20, hardness 50, green,
    // dabbed at (10, 10) near the top-left corner.
    let mut canvas = Canvas::new(200, 200, black());
    let brush = Brush::new(20, 50, green());
    let patch = brush.apply(&mut canvas, (10, 10)).unwrap();
    assert_eq!(patch.x, 0);
    assert_eq!(patch.y, 0);
    assert!(patch.width <= 40 && patch.height <= 40);
    assert_eq!((patch.width, patch.height), (30, 30));
    // The dabbed point itself is fully opaque brush color.
    assert_eq!(canvas.get_pixel(10, 10), Pixel { r: 0, g: 255, b: 0, a: 255 });
    // Pixels beyond 0.75 * radius == 15 pixels from the center are untouched.
    assert_eq!(canvas.get_pixel(10, 26), black());
    assert_eq!(canvas.get_pixel(26, 10), black());
    assert_eq!(canvas.get_pixel(40, 40), black());
    assert_eq!(canvas.get_pixel(199, 199), black());
}

#[test]
fn apply_off_canvas_changes_nothing() {
    let mut canvas = Canvas::new(50, 50, black());
    let brush = Brush::new(10, 50, green());
    assert!(brush.apply(&mut canvas, (-100, -100)).is_none());
    for x in 0..50 {
        for y in 0..50 {
            assert_eq!(canvas.get_pixel(x, y), black());
        }
    }
}

#[test]
fn apply_leaves_pixels_outside_patch_untouched() {
    let mut canvas = Canvas::new(100, 100, black());
    let brush = Brush::new(5, 0, green());
    let patch = brush.apply(&mut canvas, (50, 50)).unwrap();
    assert_eq!((patch.x, patch.y, patch.width, patch.height), (45, 45, 10, 10));
    for x in 0..100u32 {
        for y in 0..100u32 {
            let inside = x >= 45 && x < 55 && y >= 45 && y < 55;
            if !inside {
                assert_eq!(canvas.get_pixel(x, y), black(), "pixel ({x},{y}) changed");
            }
        }
    }
}
