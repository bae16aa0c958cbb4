use life::controller::Gesture;
use life::engine::run;
use life::engine::App;
use life::event::Event;
use life::event::Key;
use life::event::MouseButton;

fn press(button: MouseButton, x: i32, y: i32) -> Event {
    Event::MousePress { button, x, y }
}

fn release(button: MouseButton, x: i32, y: i32) -> Event {
    Event::MouseRelease { button, x, y }
}

fn mv(x: i32, y: i32) -> Event {
    Event::MouseMove { x, y }
}

fn key(key: Key) -> Event {
    Event::KeyPress { key }
}

fn live_count(app: &App) -> usize {
    let mut n = 0;
    for y in 0..app.grid.height as i64 {
        for x in 0..app.grid.width as i64 {
            if app.grid.get(x, y) {
                n += 1;
            }
        }
    }
    n
}

fn blinker(app: &mut App) {
    app.grid.set(1, 2, true);
    app.grid.set(2, 2, true);
    app.grid.set(3, 2, true);
}

#[test]
fn new_app_starts_idle_paused_and_dead() {
    let app = App::new(100, 100);
    assert_eq!(app.grid.width, 100);
    assert_eq!(app.grid.height, 100);
    assert_eq!(app.controller.gesture, Gesture::Idle);
    assert!(!app.clock.running);
    assert_eq!(live_count(&app), 0);
}

#[test]
fn draw_gesture_paints_both_cells() {
    // Press-drag-release with the left button: the cells under both points
    // are alive and the controller is idle again.
    let mut app = App::new(100, 100);
    app.dispatch(press(MouseButton::Left, 10, 10));
    assert_eq!(app.controller.gesture, Gesture::Drawing);
    app.dispatch(mv(20, 10));
    app.dispatch(release(MouseButton::Left, 20, 10));
    assert!(app.grid.get(10, 10));
    assert!(app.grid.get(20, 10));
    assert_eq!(app.controller.gesture, Gesture::Idle);
}

#[test]
fn erase_gesture_clears_cells() {
    let mut app = App::new(100, 100);
    app.grid.set(10, 10, true);
    app.grid.set(20, 10, true);
    app.dispatch(press(MouseButton::Right, 10, 10));
    app.dispatch(mv(20, 10));
    app.dispatch(release(MouseButton::Right, 20, 10));
    assert_eq!(live_count(&app), 0);
    assert_eq!(app.controller.gesture, Gesture::Idle);
}

#[test]
fn middle_drag_pans_against_the_pointer() {
    let mut app = App::new(100, 100);
    app.dispatch(press(MouseButton::Middle, 10, 10));
    assert_eq!(app.controller.gesture, Gesture::Moving);
    app.dispatch(mv(4, 7));
    // The camera follows the drag: pan by (10 - 4, 10 - 7).
    assert_eq!((app.viewport.offset_x, app.viewport.offset_y), (6, 3));
    app.dispatch(release(MouseButton::Middle, 4, 7));
    assert_eq!(app.controller.gesture, Gesture::Idle);
    assert_eq!(live_count(&app), 0);
}

#[test]
fn second_button_while_drawing_is_ignored() {
    let mut app = App::new(100, 100);
    app.dispatch(press(MouseButton::Left, 10, 10));
    app.dispatch(press(MouseButton::Middle, 30, 30));
    assert_eq!(app.controller.gesture, Gesture::Drawing);
    assert_eq!((app.viewport.offset_x, app.viewport.offset_y), (0, 0));
}

#[test]
fn mismatched_release_is_ignored() {
    let mut app = App::new(100, 100);
    app.dispatch(press(MouseButton::Left, 10, 10));
    app.dispatch(release(MouseButton::Right, 10, 10));
    assert_eq!(app.controller.gesture, Gesture::Drawing);
    app.dispatch(release(MouseButton::Left, 10, 10));
    assert_eq!(app.controller.gesture, Gesture::Idle);
}

#[test]
fn scroll_zooms_mid_gesture() {
    let mut app = App::new(100, 100);
    app.dispatch(press(MouseButton::Left, 0, 0));
    app.dispatch(Event::MouseScroll { delta: 2 });
    assert_eq!(app.viewport.zoom, 3);
    assert_eq!(app.controller.gesture, Gesture::Drawing);
}

#[test]
fn edits_go_through_the_camera() {
    let mut app = App::new(100, 100);
    app.dispatch(Event::MouseScroll { delta: 9 });
    assert_eq!(app.viewport.zoom, 10);
    app.dispatch(press(MouseButton::Left, 35, 27));
    assert!(app.grid.get(3, 2));
    assert!(!app.grid.get(35, 27));
}

#[test]
fn drawing_off_grid_is_harmless() {
    let mut app = App::new(100, 100);
    app.dispatch(press(MouseButton::Middle, 0, 0));
    app.dispatch(mv(50, 50));
    app.dispatch(release(MouseButton::Middle, 50, 50));
    // The camera moved by (-50, -50); the far corner of the window now looks
    // past the edge of the grid.
    assert_eq!((app.viewport.offset_x, app.viewport.offset_y), (-50, -50));
    app.dispatch(press(MouseButton::Left, 60, 60));
    assert_eq!(live_count(&app), 0);
    assert_eq!(app.controller.gesture, Gesture::Drawing);
}

#[test]
fn running_clock_advances_one_generation_per_tick() {
    let mut app = App::new(100, 100);
    blinker(&mut app);
    app.toggle_running();
    assert!(app.clock.running);
    app.dispatch(Event::Update);
    app.dispatch(Event::Update);
    app.dispatch(Event::Update);
    // Three generations: the blinker is vertical again.
    assert!(app.grid.get(2, 1));
    assert!(app.grid.get(2, 2));
    assert!(app.grid.get(2, 3));
    assert!(!app.grid.get(1, 2));
    assert_eq!(live_count(&app), 3);
}

#[test]
fn paused_clock_ignores_ticks_but_steps_once_on_request() {
    let mut app = App::new(100, 100);
    blinker(&mut app);
    assert!(!app.clock.running);
    app.dispatch(Event::Update);
    app.dispatch(Event::Update);
    app.dispatch(Event::Update);
    // Paused: nothing moved.
    assert!(app.grid.get(1, 2));
    assert!(app.grid.get(3, 2));
    app.step_once();
    // Exactly one generation: the blinker is vertical.
    assert!(app.grid.get(2, 1));
    assert!(!app.grid.get(1, 2));
}

#[test]
fn space_steps_while_paused_and_s_toggles() {
    let mut app = App::new(100, 100);
    blinker(&mut app);
    app.dispatch(key(Key::Space));
    assert!(app.grid.get(2, 1));
    app.dispatch(key(Key::S));
    assert!(app.clock.running);
    app.dispatch(key(Key::S));
    assert!(!app.clock.running);
}

#[test]
fn c_clears_and_r_randomizes_in_place() {
    let mut app = App::new(50, 40);
    blinker(&mut app);
    app.dispatch(key(Key::C));
    assert_eq!(live_count(&app), 0);
    app.dispatch(key(Key::R));
    assert_eq!(app.grid.width, 50);
    assert_eq!(app.grid.height, 40);
}

#[test]
fn unrecognized_keys_do_nothing() {
    let mut app = App::new(100, 100);
    blinker(&mut app);
    let before = (app.viewport, app.clock, app.controller);
    app.dispatch(key(Key::Other));
    assert_eq!((app.viewport, app.clock, app.controller), before);
    assert_eq!(live_count(&app), 3);
}

#[test]
fn f_fits_the_grid_to_the_window() {
    let mut app = App::new(100, 100);
    app.dispatch(Event::Resize { w: 1000, h: 800 });
    assert_eq!((app.viewport.win_w, app.viewport.win_h), (1000, 800));
    app.dispatch(key(Key::F));
    // zoom = min(1000/100, 800/100) = 8, letterboxed horizontally.
    assert_eq!(app.viewport.zoom, 8);
    assert_eq!((app.viewport.offset_x, app.viewport.offset_y), (100, 0));
}

#[test]
fn run_drives_a_whole_session() {
    let mut app = App::new(100, 100);
    let events = vec![
        press(MouseButton::Left, 10, 10),
        mv(20, 10),
        release(MouseButton::Left, 20, 10),
        key(Key::S),
        Event::Update,
        Event::Render,
    ];
    run(&mut app, &events);
    // Two lone cells far apart die after the one running tick.
    assert_eq!(live_count(&app), 0);
    assert!(app.clock.running);
    assert_eq!(app.controller.gesture, Gesture::Idle);
}

#[test]
fn render_maps_pixels_through_the_camera() {
    let mut app = App::new(4, 3);
    assert_eq!(app.grid.width, 4);
    assert_eq!(app.grid.height, 3);
    app.grid.set(1, 1, true);
    let buf = app.render();
    assert_eq!(buf.len(), 12);
    for i in 0..12 {
        assert_eq!(buf[i], i == 1 * 4 + 1);
    }
    // Zoomed in, the live cell covers a 2x2 pixel block.
    app.dispatch(Event::MouseScroll { delta: 1 });
    let buf2 = app.render();
    assert_eq!(buf2.len(), 12);
    for (i, &px) in buf2.iter().enumerate() {
        let (x, y) = (i % 4, i / 4);
        assert_eq!(px, (2..4).contains(&x) && (2..3).contains(&y));
    }
}
