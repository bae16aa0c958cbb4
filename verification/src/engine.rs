//! The simulator itself: grid, camera, gesture machine and clock, driven by
//! events.
//!
//! [`App::dispatch`] consumes one [`Event`] and routes it: update ticks to
//! the clock-gated step, key presses to their fixed bindings, mouse gestures
//! to grid edits or camera pans, scrolls to the zoom. Every transition except
//! the re-randomizing `R` key is a function of the state, written out in
//! [`AppView::dispatched`]; [`dispatch_rel`] also covers `R`, and
//! [`reaches`] chains it over an event sequence for [`run`].

use crate::clock::Clock;
use crate::controller::Controller;
use crate::controller::Gesture;
use crate::event::Event;
use crate::event::Key;
use crate::event::MouseButton;
use crate::grid::dead_grid;
use crate::grid::Grid;
use crate::grid::GridView;
use crate::viewport::Viewport;
use crate::viewport::clamp_win;
use crate::viewport::MAX_WIN;
use vstd::prelude::*;

verus! {

/// The whole simulator state.
pub struct App {
    pub grid: Grid,
    pub viewport: Viewport,
    pub controller: Controller,
    pub clock: Clock,
}

/// Mathematical model of the simulator: the grid by its view, the other
/// three components by their plain values.
#[verifier::ext_equal]
pub ghost struct AppView {
    pub grid: GridView,
    pub viewport: Viewport,
    pub controller: Controller,
    pub clock: Clock,
}

impl View for App {
    type V = AppView;

    open spec fn view(&self) -> AppView {
        AppView {
            grid: self.grid@,
            viewport: self.viewport,
            controller: self.controller,
            clock: self.clock,
        }
    }
}

/// The grid dimension derived from a window edge: one cell per pixel,
/// at least one.
pub open spec fn grid_dim(w: i32) -> int {
    if clamp_win(w) < 1 {
        1
    } else {
        clamp_win(w) as int
    }
}

impl AppView {
    /// Both stateful components are well-formed.
    pub open spec fn wf(self) -> bool {
        self.grid.wf() && self.viewport.wf()
    }

    /// The state after the cell under screen point `(x, y)` is written.
    pub open spec fn edited(self, x: i32, y: i32, alive: bool) -> AppView {
        AppView {
            grid: self.grid.with_cell(
                self.viewport.cell_x(x as int),
                self.viewport.cell_y(y as int),
                alive,
            ),
            ..self
        }
    }

    /// The state with a new controller.
    pub open spec fn with_controller(self, c: Controller) -> AppView {
        AppView { controller: c, ..self }
    }

    /// The state after a mouse press: position noted; from `Idle`, the left
    /// button draws the cell under the pointer, the right erases it, the
    /// middle anchors a pan.
    pub open spec fn after_press(self, b: MouseButton, x: i32, y: i32) -> AppView {
        let c = Controller { gesture: self.controller.pressed(b), last_x: x, last_y: y };
        if self.controller.gesture == Gesture::Idle && b == MouseButton::Left {
            self.edited(x, y, true).with_controller(c)
        } else if self.controller.gesture == Gesture::Idle && b == MouseButton::Right {
            self.edited(x, y, false).with_controller(c)
        } else {
            self.with_controller(c)
        }
    }

    /// The state after a mouse release: position noted; the matching button
    /// returns to `Idle`.
    pub open spec fn after_release(self, b: MouseButton, x: i32, y: i32) -> AppView {
        self.with_controller(
            (Controller { gesture: self.controller.released(b), last_x: x, last_y: y }),
        )
    }

    /// The state after a pointer move: drawing and erasing write the cell now
    /// under the pointer; moving pans the camera against the pointer delta;
    /// idle only notes the position.
    pub open spec fn after_move(self, x: i32, y: i32) -> AppView {
        let c = Controller { gesture: self.controller.gesture, last_x: x, last_y: y };
        match self.controller.gesture {
            Gesture::Idle => self.with_controller(c),
            Gesture::Drawing => self.edited(x, y, true).with_controller(c),
            Gesture::Erasing => self.edited(x, y, false).with_controller(c),
            Gesture::Moving => AppView {
                viewport: self.viewport.panned(
                    (self.controller.last_x as int - x as int) as i64,
                    (self.controller.last_y as int - y as int) as i64,
                ),
                controller: c,
                ..self
            },
        }
    }

    /// The state after a scroll: zoom anchored at the last known pointer
    /// position, in every gesture state.
    pub open spec fn after_scroll(self, delta: i32) -> AppView {
        AppView {
            viewport: self.viewport.zoomed(delta, self.controller.last_x, self.controller.last_y),
            ..self
        }
    }

    /// The state after a window resize.
    pub open spec fn after_resize(self, w: i32, h: i32) -> AppView {
        AppView { viewport: self.viewport.with_window(w, h), ..self }
    }

    /// The state after a recognized key. `R` re-randomizes and is not a
    /// function of the state; here it leaves the state unchanged, and
    /// [`dispatch_rel`] states what really holds of it.
    pub open spec fn after_key(self, k: Key) -> AppView {
        match k {
            Key::R => self,
            Key::C => AppView { grid: self.grid.cleared(), ..self },
            Key::S => AppView { clock: (Clock { running: !self.clock.running }), ..self },
            Key::F => AppView {
                viewport: self.viewport.fitted(self.grid.width, self.grid.height),
                ..self
            },
            Key::Space => AppView { grid: self.grid.stepped(), ..self },
            Key::Other => self,
        }
    }

    /// The state after an update tick: one generation if running, else
    /// nothing.
    pub open spec fn after_update(self) -> AppView {
        if self.clock.running {
            AppView { grid: self.grid.stepped(), ..self }
        } else {
            self
        }
    }

    /// The transition for one event. Exact for every event except the
    /// re-randomizing `R` key; see [`dispatch_rel`].
    pub open spec fn dispatched(self, e: Event) -> AppView {
        match e {
            Event::Update => self.after_update(),
            Event::Render => self,
            Event::Resize { w, h } => self.after_resize(w, h),
            Event::KeyPress { key } => self.after_key(key),
            Event::MousePress { button, x, y } => self.after_press(button, x, y),
            Event::MouseRelease { button, x, y } => self.after_release(button, x, y),
            Event::MouseMove { x, y } => self.after_move(x, y),
            Event::MouseScroll { delta } => self.after_scroll(delta),
        }
    }

    /// The alive/dead value of pixel `i` (row-major in the window) of a
    /// rendered frame.
    pub open spec fn pixel(self, i: int) -> bool {
        let w = self.viewport.win_w as int;
        self.grid.at(self.viewport.cell_x(i % w), self.viewport.cell_y(i / w))
    }
}

/// Whether `e` is the one event with a non-deterministic effect: the `R` key,
/// which rerolls every cell.
pub open spec fn is_randomize(e: Event) -> bool {
    e == (Event::KeyPress { key: Key::R })
}

/// How one dispatched event relates the state before to the state after:
/// every event but `R` steps by [`AppView::dispatched`]; `R` keeps the grid
/// dimensions and every other component, with the cells arbitrary.
pub open spec fn dispatch_rel(pre: AppView, e: Event, post: AppView) -> bool {
    if is_randomize(e) {
        &&& post.grid.width == pre.grid.width
        &&& post.grid.height == pre.grid.height
        &&& post.grid.cells.len() == pre.grid.cells.len()
        &&& post.viewport == pre.viewport
        &&& post.controller == pre.controller
        &&& post.clock == pre.clock
    } else {
        post == pre.dispatched(e)
    }
}

/// `post` is reachable from `pre` through the events of `es`, in order.
pub open spec fn reaches(pre: AppView, es: Seq<Event>, post: AppView) -> bool
    decreases es.len(),
{
    if es.len() == 0 {
        post == pre
    } else {
        exists|m: AppView| #[trigger] dispatch_rel(pre, es[0], m) && reaches(m, es.skip(1), post)
    }
}

/// Appending one event to a reachable chain keeps it reachable.
proof fn lemma_reaches_snoc(pre: AppView, es: Seq<Event>, mid: AppView, e: Event, post: AppView)
    requires
        reaches(pre, es, mid),
        dispatch_rel(mid, e, post),
    ensures
        reaches(pre, es.push(e), post),
    decreases es.len(),
{
    if es.len() == 0 {
        assert(es.push(e)[0] == e);
        assert(es.push(e).skip(1) =~= Seq::<Event>::empty());
        assert(dispatch_rel(pre, e, post));
        assert(reaches(post, es.push(e).skip(1), post));
    } else {
        let m = choose|m: AppView| #[trigger] dispatch_rel(pre, es[0], m) && reaches(
            m,
            es.skip(1),
            mid,
        );
        lemma_reaches_snoc(m, es.skip(1), mid, e, post);
        assert(es.push(e)[0] == es[0]);
        assert(es.push(e).skip(1) =~= es.skip(1).push(e));
        assert(dispatch_rel(pre, es.push(e)[0], m) && reaches(m, es.push(e).skip(1), post));
    }
}

impl App {
    /// The structural invariant, stated over the view.
    pub open spec fn wf(self) -> bool {
        self@.wf()
    }

    /// A new simulator for a `win_w x win_h` window: an all-dead grid with
    /// one cell per pixel at unit zoom (at least `1 x 1`), zero pan, idle
    /// controller, paused clock.
    pub fn new(win_w: i32, win_h: i32) -> (a: App)
        ensures
            a.wf(),
            a@.grid == dead_grid(grid_dim(win_w), grid_dim(win_h)),
            a@.viewport.offset_x == 0,
            a@.viewport.offset_y == 0,
            a@.viewport.zoom == 1,
            a@.viewport.win_w == clamp_win(win_w),
            a@.viewport.win_h == clamp_win(win_h),
            a@.controller.gesture == Gesture::Idle,
            a@.controller.last_x == 0,
            a@.controller.last_y == 0,
            !a@.clock.running,
    {
        let viewport = Viewport::new(win_w, win_h);
        let gw: i32 = if viewport.win_w < 1 {
            1
        } else {
            viewport.win_w
        };
        let gh: i32 = if viewport.win_h < 1 {
            1
        } else {
            viewport.win_h
        };
        proof {
            assert(gw as int * gh as int <= MAX_WIN as int * MAX_WIN as int) by (nonlinear_arith)
                requires
                    1 <= gw as int <= MAX_WIN as int,
                    1 <= gh as int <= MAX_WIN as int,
            ;
        }
        let grid = match Grid::new(gw, gh) {
            Ok(g) => g,
            Err(_) => vstd::pervasive::unreached(),
        };
        App { grid, viewport, controller: Controller::new(), clock: Clock::new() }
    }

    /// Note a new window size.
    pub fn on_resize(&mut self, w: i32, h: i32)
        requires
            old(self).wf(),
        ensures
            final(self).wf(),
            final(self)@ == old(self)@.after_resize(w, h),
    {
        self.viewport.set_window_size(w, h);
    }

    /// Apply a mouse press.
    pub fn mouse_press(&mut self, b: MouseButton, x: i32, y: i32)
        requires
            old(self).wf(),
        ensures
            final(self).wf(),
            final(self)@ == old(self)@.after_press(b, x, y),
    {
        if matches!(self.controller.gesture, Gesture::Idle) {
            match b {
                MouseButton::Left => {
                    let c = self.viewport.screen_to_cell(x, y);
                    self.grid.set(c.0, c.1, true);
                    self.controller.gesture = Gesture::Drawing;
                },
                MouseButton::Right => {
                    let c = self.viewport.screen_to_cell(x, y);
                    self.grid.set(c.0, c.1, false);
                    self.controller.gesture = Gesture::Erasing;
                },
                MouseButton::Middle => {
                    self.controller.gesture = Gesture::Moving;
                },
            }
        }
        self.controller.last_x = x;
        self.controller.last_y = y;
        proof {
            assert(self@ =~= old(self)@.after_press(b, x, y));
        }
    }

    /// Apply a mouse release.
    pub fn mouse_release(&mut self, b: MouseButton, x: i32, y: i32)
        requires
            old(self).wf(),
        ensures
            final(self).wf(),
            final(self)@ == old(self)@.after_release(b, x, y),
    {
        let ends = match (self.controller.gesture, b) {
            (Gesture::Drawing, MouseButton::Left) => true,
            (Gesture::Erasing, MouseButton::Right) => true,
            (Gesture::Moving, MouseButton::Middle) => true,
            _ => false,
        };
        if ends {
            self.controller.gesture = Gesture::Idle;
        }
        self.controller.last_x = x;
        self.controller.last_y = y;
        proof {
            assert(self@ =~= old(self)@.after_release(b, x, y));
        }
    }

    /// Apply a pointer move.
    pub fn mouse_move(&mut self, x: i32, y: i32)
        requires
            old(self).wf(),
        ensures
            final(self).wf(),
            final(self)@ == old(self)@.after_move(x, y),
    {
        match self.controller.gesture {
            Gesture::Idle => {},
            Gesture::Drawing => {
                let c = self.viewport.screen_to_cell(x, y);
                self.grid.set(c.0, c.1, true);
            },
            Gesture::Erasing => {
                let c = self.viewport.screen_to_cell(x, y);
                self.grid.set(c.0, c.1, false);
            },
            Gesture::Moving => {
                let dx = self.controller.last_x as i64 - x as i64;
                let dy = self.controller.last_y as i64 - y as i64;
                self.viewport.pan(dx, dy);
            },
        }
        self.controller.last_x = x;
        self.controller.last_y = y;
        proof {
            assert(self@ =~= old(self)@.after_move(x, y));
        }
    }

    /// Apply a scroll: zoom anchored at the last known pointer position,
    /// whatever gesture is active.
    pub fn mouse_scroll(&mut self, delta: i32)
        requires
            old(self).wf(),
        ensures
            final(self).wf(),
            final(self)@ == old(self)@.after_scroll(delta),
    {
        let mx = self.controller.last_x;
        let my = self.controller.last_y;
        self.viewport.zoom_by(delta, mx, my);
        proof {
            assert(self@ =~= old(self)@.after_scroll(delta));
        }
    }

    /// Flip running/paused.
    pub fn toggle_running(&mut self)
        requires
            old(self).wf(),
        ensures
            final(self).wf(),
            final(self)@ == old(self)@.after_key(Key::S),
    {
        self.clock.toggle_running();
        proof {
            assert(self@ =~= old(self)@.after_key(Key::S));
        }
    }

    /// Advance exactly one generation, running or paused.
    pub fn step_once(&mut self)
        requires
            old(self).wf(),
        ensures
            final(self).wf(),
            final(self)@ == old(self)@.after_key(Key::Space),
    {
        self.grid.step();
        proof {
            assert(self@ =~= old(self)@.after_key(Key::Space));
        }
    }

    /// One update tick: advance one generation if running, else nothing.
    /// Ticks are never batched.
    pub fn on_update_tick(&mut self)
        requires
            old(self).wf(),
        ensures
            final(self).wf(),
            final(self)@ == old(self)@.after_update(),
    {
        if self.clock.running {
            self.grid.step();
        }
        proof {
            assert(self@ =~= old(self)@.after_update());
        }
    }

    /// Apply a recognized key binding; unrecognized keys do nothing.
    pub fn key_press(&mut self, k: Key)
        requires
            old(self).wf(),
        ensures
            final(self).wf(),
            dispatch_rel(old(self)@, (Event::KeyPress { key: k }), final(self)@),
    {
        match k {
            Key::R => {
                self.grid.randomize();
            },
            Key::C => {
                self.grid.clear();
            },
            Key::S => {
                self.clock.toggle_running();
            },
            Key::F => {
                proof {
                    crate::grid::lemma_dims_bounded(self.grid@);
                }
                let gw = self.grid.width as i64;
                let gh = self.grid.height as i64;
                self.viewport.fit_to_window(gw, gh);
            },
            Key::Space => {
                self.grid.step();
            },
            Key::Other => {},
        }
        proof {
            if !is_randomize(Event::KeyPress { key: k }) {
                assert(self@ =~= old(self)@.after_key(k));
            }
        }
    }

    /// Consume one event.
    pub fn dispatch(&mut self, e: Event)
        requires
            old(self).wf(),
        ensures
            final(self).wf(),
            dispatch_rel(old(self)@, e, final(self)@),
            !is_randomize(e) ==> final(self)@ == old(self)@.dispatched(e),
    {
        match e {
            Event::Update => self.on_update_tick(),
            Event::Render => {},
            Event::Resize { w, h } => self.on_resize(w, h),
            Event::KeyPress { key } => self.key_press(key),
            Event::MousePress { button, x, y } => self.mouse_press(button, x, y),
            Event::MouseRelease { button, x, y } => self.mouse_release(button, x, y),
            Event::MouseMove { x, y } => self.mouse_move(x, y),
            Event::MouseScroll { delta } => self.mouse_scroll(delta),
        }
    }

    /// The rendered frame: one alive/dead value per window pixel, row-major,
    /// each pixel showing the cell under it.
    pub fn render(&self) -> (buf: Vec<bool>)
        requires
            self.wf(),
        ensures
            buf@.len() == self@.viewport.win_w as int * self@.viewport.win_h as int,
            forall|i: int| 0 <= i < buf@.len() ==> buf@[i] == self@.pixel(i),
    {
        let w = self.viewport.win_w;
        let h = self.viewport.win_h;
        let mut buf: Vec<bool> = Vec::new();
        if w == 0 {
            proof {
                assert(w as int * h as int == 0) by (nonlinear_arith)
                    requires
                        w as int == 0,
                ;
            }
            return buf;
        }
        let mut py: i32 = 0;
        while py < h
            invariant
                self.wf(),
                w == self@.viewport.win_w,
                h == self@.viewport.win_h,
                1 <= w <= MAX_WIN,
                0 <= h <= MAX_WIN,
                0 <= py <= h,
                buf@.len() == py as int * w as int,
                forall|i: int| 0 <= i < buf@.len() ==> buf@[i] == self@.pixel(i),
            decreases h - py,
        {
            let mut px: i32 = 0;
            proof {
                crate::grid::lemma_index_bound(0, py as int, w as int, h as int);
            }
            while px < w
                invariant
                    self.wf(),
                    w == self@.viewport.win_w,
                    h == self@.viewport.win_h,
                    1 <= w <= MAX_WIN,
                    0 <= h <= MAX_WIN,
                    0 <= py < h,
                    0 <= px <= w,
                    buf@.len() == py as int * w as int + px as int,
                    forall|i: int| 0 <= i < buf@.len() ==> buf@[i] == self@.pixel(i),
                decreases w - px,
            {
                proof {
                    crate::grid::lemma_index_bound(px as int, py as int, w as int, h as int);
                    crate::grid::lemma_row_major(
                        py as int * w as int + px as int,
                        px as int,
                        py as int,
                        w as int,
                    );
                }
                let c = self.viewport.screen_to_cell(px, py);
                let v = self.grid.get(c.0, c.1);
                buf.push(v);
                px = px + 1;
            }
            py = py + 1;
            proof {
                assert(py as int * w as int == (py as int - 1) * w as int + w as int)
                    by (nonlinear_arith);
            }
        }
        proof {
            assert(h as int * w as int == w as int * h as int) by (nonlinear_arith);
        }
        buf
    }
}

/// Drive the simulator through a whole sequence of events, in order.
pub fn run(app: &mut App, events: &Vec<Event>)
    requires
        old(app).wf(),
    ensures
        final(app).wf(),
        reaches(old(app)@, events@, final(app)@),
{
    let n = events.len();
    let mut k: usize = 0;
    while k < n
        invariant
            app.wf(),
            n == events@.len(),
            k <= n,
            reaches(old(app)@, events@.take(k as int), app@),
        decreases n - k,
    {
        let ghost pre = app@;
        let e = events[k];
        app.dispatch(e);
        k = k + 1;
        proof {
            lemma_reaches_snoc(old(app)@, events@.take(k as int - 1), pre, e, app@);
            assert(events@.take(k as int) =~= events@.take(k as int - 1).push(events@[k as int
                - 1]));
        }
    }
    proof {
        assert(events@.take(n as int) =~= events@);
    }
}

} // verus!
