use life::viewport::Viewport;
use life::viewport::MAX_OFFSET;
use life::viewport::MAX_WIN;
use life::viewport::MAX_ZOOM;
use life::viewport::MIN_ZOOM;

fn camera(offset_x: i64, offset_y: i64, zoom: i64) -> Viewport {
    Viewport { offset_x, offset_y, zoom, win_w: 640, win_h: 480 }
}

#[test]
fn new_viewport_is_identity_transform() {
    let v = Viewport::new(640, 480);
    assert_eq!(v.offset_x, 0);
    assert_eq!(v.offset_y, 0);
    assert_eq!(v.zoom, 1);
    assert_eq!(v.screen_to_cell(10, 7), (10, 7));
}

#[test]
fn set_window_size_clamps() {
    let mut v = Viewport::new(640, 480);
    v.set_window_size(-5, 1_000_000);
    assert_eq!(v.win_w, 0);
    assert_eq!(v.win_h, MAX_WIN);
    v.set_window_size(800, 600);
    assert_eq!((v.win_w, v.win_h), (800, 600));
}

#[test]
fn screen_to_cell_floors_toward_negative_infinity() {
    let v = camera(0, 0, 10);
    assert_eq!(v.screen_to_cell(0, 9), (0, 0));
    assert_eq!(v.screen_to_cell(10, 19), (1, 1));
    assert_eq!(v.screen_to_cell(-1, -10), (-1, -1));
    assert_eq!(v.screen_to_cell(-11, -20), (-2, -2));
}

#[test]
fn screen_to_cell_honors_offset() {
    let v = camera(13, -5, 7);
    assert_eq!(v.screen_to_cell(13, -5), (0, 0));
    assert_eq!(v.screen_to_cell(12, -6), (-1, -1));
    assert_eq!(v.screen_to_cell(27, 9), (2, 2));
}

#[test]
fn transform_round_trips_at_cell_corners() {
    let v = camera(13, -5, 7);
    for cx in -3..4_i64 {
        for cy in -3..4_i64 {
            let p = v.cell_to_screen(cx, cy);
            assert_eq!(v.screen_to_cell(p.0 as i32, p.1 as i32), (cx, cy));
        }
    }
}

#[test]
fn pan_accumulates_and_clamps() {
    let mut v = Viewport::new(640, 480);
    v.pan(5, -3);
    assert_eq!((v.offset_x, v.offset_y), (5, -3));
    v.pan(-10, 4);
    assert_eq!((v.offset_x, v.offset_y), (-5, 1));
    v.offset_x = MAX_OFFSET - 1;
    v.pan(100, 0);
    assert_eq!(v.offset_x, MAX_OFFSET);
}

#[test]
fn zoom_clamps_at_both_ends() {
    let mut v = Viewport::new(640, 480);
    v.zoom_by(-100, 0, 0);
    assert_eq!(v.zoom, MIN_ZOOM);
    v.zoom_by(1_000_000, 0, 0);
    assert_eq!(v.zoom, MAX_ZOOM);
}

#[test]
fn zoom_is_anchored_at_the_cursor() {
    let mut v = camera(0, 0, 2);
    // The cell under the cursor before the zoom...
    let before = v.screen_to_cell(10, 10);
    v.zoom_by(2, 10, 10);
    assert_eq!(v.zoom, 4);
    // Offset compensates: 10 - (10 - 0) * 4 / 2 = -10.
    assert_eq!((v.offset_x, v.offset_y), (-10, -10));
    // ...is still the cell under the cursor afterwards.
    assert_eq!(v.screen_to_cell(10, 10), before);
}

#[test]
fn zoom_out_is_anchored_too() {
    let mut v = camera(-10, -10, 4);
    let before = v.screen_to_cell(10, 10);
    v.zoom_by(-2, 10, 10);
    assert_eq!(v.zoom, 2);
    assert_eq!(v.screen_to_cell(10, 10), before);
}

#[test]
fn fit_to_window_letterboxes() {
    let mut v = Viewport::new(100, 80);
    v.fit_to_window(10, 10);
    // zoom = min(100/10, 80/10) = 8; the spare 20 px split evenly.
    assert_eq!(v.zoom, 8);
    assert_eq!((v.offset_x, v.offset_y), (10, 0));
}

#[test]
fn fit_to_window_never_drops_below_min_zoom() {
    let mut v = Viewport::new(100, 80);
    v.fit_to_window(1000, 1000);
    assert_eq!(v.zoom, MIN_ZOOM);
    // Grid larger than the window: centered, offset goes negative.
    assert_eq!((v.offset_x, v.offset_y), (-450, -460));
}
