use lime::canvas::{Canvas, Pixel};
use lime::session::{FrameInput, Session, ZoomEvent};
use lime::stroke::InputSample;

fn black() -> Pixel {
    Pixel { r: 0, g: 0, b: 0, a: 255 }
}

fn idle_sample() -> InputSample {
    InputSample { dabbing: false, stroking: false, pointer_x: 0, pointer_y: 0 }
}

#[test]
fn idle_frame_changes_nothing() {
    let mut canvas = Canvas::new(200, 200, black());
    let mut s = Session::new(512, 512, 200, 200);
    let input = FrameInput { zoom: None, sample: idle_sample() };
    let patch = s.handle_frame(512, 512, &input, &mut canvas);
    assert!(patch.is_none());
    assert_eq!(canvas.get_pixel(100, 100), black());
    assert_eq!(s.view.zoom_level, 17);
}

#[test]
fn dab_frame_paints_through_the_view() {
    // A 200x200 canvas fit into a square viewport: the rectangle spans the
    // whole viewport, so its center maps to canvas (100, 100). The default
    // radius-100 brush then covers the entire canvas.
    let mut canvas = Canvas::new(200, 200, black());
    let mut s = Session::new(512, 512, 200, 200);
    let input = FrameInput {
        zoom: None,
        sample: InputSample {
            dabbing: true,
            stroking: false,
            pointer_x: 262144,
            pointer_y: 262144,
        },
    };
    let patch = s.handle_frame(512, 512, &input, &mut canvas).expect("a dab paints");
    assert_eq!((patch.x, patch.y, patch.width, patch.height), (0, 0, 200, 200));
    // The dabbed center is fully opaque brush green.
    assert_eq!(canvas.get_pixel(100, 100), Pixel { r: 0, g: 255, b: 0, a: 255 });
}

#[test]
fn zoom_event_moves_the_level() {
    let mut canvas = Canvas::new(200, 200, black());
    let mut s = Session::new(512, 512, 200, 200);
    let input = FrameInput {
        zoom: Some(ZoomEvent { zoom_in: false, pointer_x: 1000, pointer_y: 1000 }),
        sample: idle_sample(),
    };
    let r = s.handle_frame(512, 512, &input, &mut canvas);
    assert!(r.is_none());
    assert_eq!(s.view.zoom_level, 18);
}

#[test]
fn viewport_change_resets_the_view() {
    let mut canvas = Canvas::new(200, 200, black());
    let mut s = Session::new(512, 512, 200, 200);
    let zoom_out = FrameInput {
        zoom: Some(ZoomEvent { zoom_in: false, pointer_x: 1000, pointer_y: 1000 }),
        sample: idle_sample(),
    };
    s.handle_frame(512, 512, &zoom_out, &mut canvas);
    assert_eq!(s.view.zoom_level, 18);
    let idle = FrameInput { zoom: None, sample: idle_sample() };
    s.handle_frame(800, 600, &idle, &mut canvas);
    assert_eq!(s.view.zoom_level, 17);
    assert_eq!((s.view.viewport_w, s.view.viewport_h), (800, 600));
}
