use lime::patch::{get_patch_from_blob_bounds, Patch};

#[test]
fn patch_fully_inside() {
    let p = get_patch_from_blob_bounds(10, 20, 30, 40, 200, 200).unwrap();
    assert_eq!(p, Patch { x: 10, y: 20, width: 30, height: 40 });
}

#[test]
fn patch_clipped_top_left() {
    // A 40x40 placement at (-10, -10) overlaps the canvas in a 30x30 corner.
    let p = get_patch_from_blob_bounds(-10, -10, 40, 40, 200, 200).unwrap();
    assert_eq!(p, Patch { x: 0, y: 0, width: 30, height: 30 });
}

#[test]
fn patch_clipped_bottom_right() {
    let p = get_patch_from_blob_bounds(190, 195, 40, 40, 200, 200).unwrap();
    assert_eq!(p, Patch { x: 190, y: 195, width: 10, height: 5 });
}

#[test]
fn patch_fully_outside_left_is_rejected() {
    // Entirely to the left: must not clamp into a patch at the origin.
    assert!(get_patch_from_blob_bounds(-40, 10, 40, 40, 200, 200).is_none());
    assert!(get_patch_from_blob_bounds(-100, 10, 40, 40, 200, 200).is_none());
}

#[test]
fn patch_fully_outside_above_is_rejected() {
    assert!(get_patch_from_blob_bounds(10, -40, 40, 40, 200, 200).is_none());
}

#[test]
fn patch_fully_outside_right_and_below_is_rejected() {
    assert!(get_patch_from_blob_bounds(200, 10, 40, 40, 200, 200).is_none());
    assert!(get_patch_from_blob_bounds(10, 200, 40, 40, 200, 200).is_none());
}

#[test]
fn patch_single_pixel_overlaps() {
    // Touching the canvas in exactly one pixel still yields a patch.
    let p = get_patch_from_blob_bounds(-39, -39, 40, 40, 200, 200).unwrap();
    assert_eq!(p, Patch { x: 0, y: 0, width: 1, height: 1 });
    let p = get_patch_from_blob_bounds(199, 199, 40, 40, 200, 200).unwrap();
    assert_eq!(p, Patch { x: 199, y: 199, width: 1, height: 1 });
}

#[test]
fn patch_zero_size_placement_is_rejected() {
    assert!(get_patch_from_blob_bounds(10, 10, 0, 40, 200, 200).is_none());
    assert!(get_patch_from_blob_bounds(10, 10, 40, 0, 200, 200).is_none());
}

#[test]
fn patch_empty_canvas_is_rejected() {
    assert!(get_patch_from_blob_bounds(-10, -10, 40, 40, 0, 0).is_none());
}

#[test]
fn patch_always_within_bounds() {
    // Whatever the placement, a returned patch stays inside the canvas.
    for x in (-80..280).step_by(7) {
        for y in (-80..280).step_by(11) {
            if let Some(p) = get_patch_from_blob_bounds(x, y, 40, 40, 200, 150) {
                assert!(p.width > 0 && p.height > 0);
                assert!(p.x + p.width <= 200);
                assert!(p.y + p.height <= 150);
            }
        }
    }
}
