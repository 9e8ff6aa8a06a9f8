use lime::canvas::{Canvas, Pixel, Rgb};
use lime::stamp::Brush;
use lime::stroke::{dist, BrushState, CanvasPos, InputSample, Manager};
use lime::view::CanvasRect;

fn green() -> Rgb {
    Rgb { r: 0, g: 255, b: 0 }
}

fn black() -> Pixel {
    Pixel { r: 0, g: 0, b: 0, a: 255 }
}

/// A canvas rectangle under which one viewport subpixel unit times 1024 maps
/// to one canvas pixel: pointer `k * 1024` lands on canvas pixel `k`.
fn identity_rect(cw: i64, ch: i64) -> CanvasRect {
    CanvasRect { min_x: 0, min_y: 0, w: cw * 1024, h: ch * 1024 }
}

fn drag_sample(x_px: i64, y_px: i64) -> InputSample {
    InputSample { dabbing: false, stroking: true, pointer_x: x_px * 1024, pointer_y: y_px * 1024 }
}

#[test]
fn manager_new_defaults() {
    let m = Manager::new();
    assert_eq!(m.brush.radius, 100);
    assert_eq!(m.brush.hardness, 50);
    assert_eq!(m.brush.color, green());
    assert_eq!(m.stroke_splotch_spacing, 20);
    assert!(matches!(m.brush_state, BrushState::NonTouching));
}

#[test]
fn dist_is_floored_euclidean() {
    let o = CanvasPos { x: 0, y: 0 };
    assert_eq!(dist(o, CanvasPos { x: 3, y: 4 }), 5);
    assert_eq!(dist(o, CanvasPos { x: 1, y: 1 }), 1);
    assert_eq!(dist(o, CanvasPos { x: -3, y: -4 }), 5);
    assert_eq!(dist(o, CanvasPos { x: 0, y: 0 }), 0);
    assert_eq!(dist(CanvasPos { x: 10, y: 10 }, CanvasPos { x: 10, y: 17 }), 7);
}

#[test]
fn no_contact_goes_non_touching() {
    let rect = identity_rect(200, 200);
    let idle = InputSample { dabbing: false, stroking: false, pointer_x: 0, pointer_y: 0 };
    let from_stroke = BrushState::Stroking {
        pos: CanvasPos { x: 5, y: 5 },
        stroked_distance: 3,
        splotch_ready: false,
    };
    let r = Manager::update_brush_state(from_stroke, &idle, 100, 20, &rect, (200, 200));
    assert!(matches!(r, BrushState::NonTouching));
}

#[test]
fn click_goes_dabbing_at_mapped_position() {
    let rect = identity_rect(200, 200);
    let click = InputSample {
        dabbing: true,
        stroking: false,
        pointer_x: 10 * 1024,
        pointer_y: 12 * 1024,
    };
    let r = Manager::update_brush_state(BrushState::NonTouching, &click, 100, 20, &rect, (200, 200));
    match r {
        BrushState::Dabbing { pos } => assert_eq!((pos.x, pos.y), (10, 12)),
        other => panic!("expected Dabbing, got {:?}", other),
    }
}

#[test]
fn first_drag_sample_is_always_ready() {
    let rect = identity_rect(200, 200);
    let r = Manager::update_brush_state(
        BrushState::NonTouching,
        &drag_sample(7, 9),
        100,
        20,
        &rect,
        (200, 200),
    );
    match r {
        BrushState::Stroking { pos, stroked_distance, splotch_ready } => {
            assert_eq!((pos.x, pos.y), (7, 9));
            assert_eq!(stroked_distance, 0);
            assert!(splotch_ready);
        },
        other => panic!("expected Stroking, got {:?}", other),
    }
}

#[test]
fn slow_drag_places_nothing_below_threshold() {
    // Radius 100, spacing 20: the threshold is 20 pixels. A drag of 5
    // samples spaced 1 pixel apart accumulates only 5 pixels, so no sample
    // places a stamp and no patch is produced.
    let mut canvas = Canvas::new(200, 200, black());
    let rect = identity_rect(200, 200);
    let mut m = Manager {
        brush: Brush::new(100, 50, green()),
        brush_state: BrushState::Stroking {
            pos: CanvasPos { x: 0, y: 0 },
            stroked_distance: 0,
            splotch_ready: false,
        },
        stroke_splotch_spacing: 20,
    };
    for k in 1..=5i64 {
        let patch = m.apply_input(&drag_sample(k, 0), &rect, &mut canvas);
        assert!(patch.is_none(), "sample {k} unexpectedly placed a stamp");
    }
    match m.brush_state {
        BrushState::Stroking { stroked_distance, splotch_ready, .. } => {
            assert_eq!(stroked_distance, 5);
            assert!(!splotch_ready);
        },
        other => panic!("expected Stroking, got {:?}", other),
    }
    assert_eq!(canvas.get_pixel(0, 0), black());
}

#[test]
fn drag_places_exactly_when_threshold_is_reached() {
    // Samples spaced 4 pixels apart: the cumulative distance reaches the
    // 20-pixel threshold exactly at the 5th sample, which places the one
    // and only stamp.
    let mut canvas = Canvas::new(200, 200, black());
    let rect = identity_rect(200, 200);
    let mut m = Manager {
        brush: Brush::new(100, 50, green()),
        brush_state: BrushState::Stroking {
            pos: CanvasPos { x: 0, y: 0 },
            stroked_distance: 0,
            splotch_ready: false,
        },
        stroke_splotch_spacing: 20,
    };
    for k in 1..=4i64 {
        let patch = m.apply_input(&drag_sample(4 * k, 0), &rect, &mut canvas);
        assert!(patch.is_none(), "sample {k} placed early");
    }
    let patch = m.apply_input(&drag_sample(20, 0), &rect, &mut canvas);
    let p = patch.expect("the 5th sample must place a stamp");
    assert_eq!((p.x, p.y), (0, 0));
    match m.brush_state {
        BrushState::Stroking { pos, stroked_distance, splotch_ready } => {
            assert_eq!((pos.x, pos.y), (20, 0));
            assert_eq!(stroked_distance, 0);
            assert!(splotch_ready);
        },
        other => panic!("expected Stroking, got {:?}", other),
    }
}

#[test]
fn drag_placement_count_follows_the_threshold() {
    // 100 samples spaced 3 pixels apart with a 20-pixel threshold: the
    // accumulator reaches 21 at every 7th sample, so stamps land at samples
    // 7, 14, ..., 98 - exactly 14 placements over a 300-pixel drag.
    let mut canvas = Canvas::new(200, 200, black());
    let rect = identity_rect(200, 200);
    let mut m = Manager {
        brush: Brush::new(100, 50, green()),
        brush_state: BrushState::Stroking {
            pos: CanvasPos { x: 0, y: 0 },
            stroked_distance: 0,
            splotch_ready: false,
        },
        stroke_splotch_spacing: 20,
    };
    let mut placements = 0u64;
    for k in 1..=100i64 {
        if m.apply_input(&drag_sample(3 * k, 0), &rect, &mut canvas).is_some() {
            placements += 1;
        }
    }
    assert_eq!(placements, 14);
    // Each placement costs at least the 20-pixel threshold of drag.
    assert!(20 * placements <= 300);
}

#[test]
fn accumulator_carries_across_samples() {
    let rect = identity_rect(200, 200);
    let st = Manager::update_brush_state(
        BrushState::Stroking {
            pos: CanvasPos { x: 0, y: 0 },
            stroked_distance: 7,
            splotch_ready: false,
        },
        &drag_sample(3, 4),
        100,
        20,
        &rect,
        (200, 200),
    );
    match st {
        BrushState::Stroking { stroked_distance, splotch_ready, .. } => {
            assert_eq!(stroked_distance, 12);
            assert!(!splotch_ready);
        },
        other => panic!("expected Stroking, got {:?}", other),
    }
}

#[test]
fn pos_on_target_is_exact_at_rect_corners() {
    let rect = CanvasRect { min_x: 1000, min_y: 2000, w: 204800, h: 204800 };
    let p = Manager::pos_on_target(1000, 2000, &rect, (200, 200));
    assert_eq!((p.x, p.y), (0, 0));
    let p = Manager::pos_on_target(1000 + 204800, 2000 + 204800, &rect, (200, 200));
    assert_eq!((p.x, p.y), (200, 200));
    // Halfway across the rectangle lands halfway across the canvas.
    let p = Manager::pos_on_target(1000 + 102400, 2000 + 102400, &rect, (200, 200));
    assert_eq!((p.x, p.y), (100, 100));
}
