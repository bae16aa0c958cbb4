//! The camera: pan offset, zoom factor and window size.
//!
//! A [`Viewport`] maps screen pixels to grid cells by
//! `cell = floor((screen - offset) / zoom)`, where `zoom` is the edge of one
//! cell in pixels, clamped into `[MIN_ZOOM, MAX_ZOOM]`. Panning is clamped
//! into `[-MAX_OFFSET, MAX_OFFSET]` and the window size into `[0, MAX_WIN]`;
//! camera values are always normalized this way, never rejected.

use vstd::arithmetic::div_mod::lemma_div_multiples_vanish;
use vstd::arithmetic::div_mod::lemma_fundamental_div_mod;
use vstd::arithmetic::div_mod::lemma_fundamental_div_mod_converse;
use vstd::arithmetic::div_mod::lemma_mod_bound;
use vstd::prelude::*;

verus! {

/// Smallest cell edge, in pixels.
pub const MIN_ZOOM: i64 = 1;

/// Largest cell edge, in pixels.
pub const MAX_ZOOM: i64 = 256;

/// Pan offsets are clamped into `[-MAX_OFFSET, MAX_OFFSET]`, which keeps all
/// transform arithmetic inside `i64`.
pub const MAX_OFFSET: i64 = 0x1000_0000_0000;

/// Largest accepted window edge, in pixels.
pub const MAX_WIN: i32 = 0x8000;

/// Largest pan delta accepted in one call; two screen points are never
/// further apart.
pub const PAN_LIMIT: i64 = 0x1_0000_0000;

/// Largest cell coordinate accepted by `cell_to_screen`; every grid
/// coordinate lies well inside.
pub const COORD_LIMIT: i64 = 0x8000_0000;

/// `v` forced into `[lo, hi]`.
pub open spec fn clamp(v: int, lo: int, hi: int) -> int {
    if v < lo {
        lo
    } else if v > hi {
        hi
    } else {
        v
    }
}

/// A pan offset forced into its range.
pub open spec fn clamp_off(v: int) -> i64 {
    clamp(v, -(MAX_OFFSET as int), MAX_OFFSET as int) as i64
}

/// The offset that keeps the screen point `m` over the same grid position
/// when the zoom changes from `z` to `nz`: the old offset's distance to `m`
/// is rescaled by `nz / z`.
pub open spec fn anchor_offset(m: int, off: int, nz: int, z: int) -> int {
    m - ((m - off) * nz) / z
}

/// A window edge forced into its range.
pub open spec fn clamp_win(v: i32) -> i32 {
    if v < 0 {
        0
    } else if v > MAX_WIN {
        MAX_WIN
    } else {
        v
    }
}

/// Floor division: the quotient rounded toward negative infinity, as `/`
/// rounds on `int`.
pub fn floor_div(a: i64, b: i64) -> (q: i64)
    requires
        1 <= b,
        i64::MIN < a,
    ensures
        q as int == a as int / b as int,
        a >= 0 ==> 0 <= q <= a,
        a < 0 ==> a <= q <= 0,
{
    let t = a / b;
    let r = a % b;
    proof {
        if a >= 0 {
            lemma_fundamental_div_mod(a as int, b as int);
            lemma_mod_bound(a as int, b as int);
            assert(0 <= (a as int) / (b as int) <= (a as int)) by (nonlinear_arith)
                requires
                    1 <= (b as int),
                    0 <= (a as int),
                    a as int == (b as int) * ((a as int) / (b as int)) + ((a as int) % (b as int)),
                    0 <= ((a as int) % (b as int)) && ((a as int) % (b as int)) < (b as int),
            ;
        } else {
            let na = -(a as int);
            let m = na / (b as int);
            let s = na % (b as int);
            lemma_fundamental_div_mod(na, b as int);
            lemma_mod_bound(na, b as int);
            assert(0 <= m <= na) by (nonlinear_arith)
                requires
                    1 <= (b as int),
                    0 < na,
                    na == (b as int) * m + s,
                    0 <= s && s < (b as int),
            ;
            if s == 0 {
                assert(a as int == (-m) * (b as int) + 0) by (nonlinear_arith)
                    requires
                        na == b as int * m + s,
                        s == 0,
                        na == -(a as int),
                ;
                lemma_fundamental_div_mod_converse(a as int, b as int, -m, 0);
            } else {
                assert(a as int == (-m - 1) * (b as int) + (b as int - s)) by (nonlinear_arith)
                    requires
                        na == b as int * m + s,
                        na == -(a as int),
                ;
                lemma_fundamental_div_mod_converse(a as int, b as int, -m - 1, b as int - s);
                assert(m < na) by (nonlinear_arith)
                    requires
                        1 <= (b as int),
                        0 <= m,
                        0 < s,
                        na == (b as int) * m + s,
                ;
            }
        }
    }
    if r != 0 && a < 0 {
        t - 1
    } else {
        t
    }
}

/// `v` forced into the pan range.
fn clamp_offset(v: i64) -> (r: i64)
    ensures
        r == clamp_off(v as int),
{
    if v < -MAX_OFFSET {
        -MAX_OFFSET
    } else if v > MAX_OFFSET {
        MAX_OFFSET
    } else {
        v
    }
}

/// `v` forced into the window range.
fn clamp_window(v: i32) -> (r: i32)
    ensures
        r == clamp_win(v),
{
    if v < 0 {
        0
    } else if v > MAX_WIN {
        MAX_WIN
    } else {
        v
    }
}

/// The camera transform.
#[derive(Clone, Copy, PartialEq, Eq, Structural, Debug)]
pub struct Viewport {
    pub offset_x: i64,
    pub offset_y: i64,
    pub zoom: i64,
    pub win_w: i32,
    pub win_h: i32,
}

impl Viewport {
    /// Zoom, offsets and window size each lie in their range.
    pub open spec fn wf(self) -> bool {
        &&& MIN_ZOOM <= self.zoom <= MAX_ZOOM
        &&& -MAX_OFFSET <= self.offset_x <= MAX_OFFSET
        &&& -MAX_OFFSET <= self.offset_y <= MAX_OFFSET
        &&& 0 <= self.win_w <= MAX_WIN
        &&& 0 <= self.win_h <= MAX_WIN
    }

    /// Column of the cell under screen column `sx`.
    pub open spec fn cell_x(self, sx: int) -> int {
        (sx - self.offset_x) / (self.zoom as int)
    }

    /// Row of the cell under screen row `sy`.
    pub open spec fn cell_y(self, sy: int) -> int {
        (sy - self.offset_y) / (self.zoom as int)
    }

    /// Screen column of the left edge of cell column `cx`.
    pub open spec fn screen_x(self, cx: int) -> int {
        cx * self.zoom + self.offset_x
    }

    /// Screen row of the top edge of cell row `cy`.
    pub open spec fn screen_y(self, cy: int) -> int {
        cy * self.zoom + self.offset_y
    }

    /// The camera after a window resize.
    pub open spec fn with_window(self, w: i32, h: i32) -> Viewport {
        Viewport { win_w: clamp_win(w), win_h: clamp_win(h), ..self }
    }

    /// The camera after a pan by a screen-pixel delta.
    pub open spec fn panned(self, dx: i64, dy: i64) -> Viewport {
        Viewport {
            offset_x: clamp_off(self.offset_x as int + dx as int),
            offset_y: clamp_off(self.offset_y as int + dy as int),
            ..self
        }
    }

    /// The zoom after `delta` scroll ticks, clamped into its range.
    pub open spec fn zoom_stepped(self, delta: i32) -> int {
        clamp(self.zoom as int + delta as int, MIN_ZOOM as int, MAX_ZOOM as int)
    }

    /// The camera after a zoom by `delta` scroll ticks, anchored at the
    /// screen point `(mx, my)`: the offset moves so that the point keeps its
    /// position relative to the grid (see [`lemma_zoom_anchor`]).
    pub open spec fn zoomed(self, delta: i32, mx: i32, my: i32) -> Viewport {
        let nz = self.zoom_stepped(delta);
        Viewport {
            zoom: nz as i64,
            offset_x: clamp_off(anchor_offset(mx as int, self.offset_x as int, nz, self.zoom as int)),
            offset_y: clamp_off(anchor_offset(my as int, self.offset_y as int, nz, self.zoom as int)),
            ..self
        }
    }

    /// The camera framing the whole `gw x gh` grid inside the window:
    /// the largest fitting zoom, the rest of the window split evenly
    /// (letterboxed) on each side.
    pub open spec fn fitted(self, gw: int, gh: int) -> Viewport {
        let zw = (self.win_w as int) / gw;
        let zh = (self.win_h as int) / gh;
        let zmin = if zw < zh {
            zw
        } else {
            zh
        };
        let z = clamp(zmin, MIN_ZOOM as int, MAX_ZOOM as int);
        Viewport {
            zoom: z as i64,
            offset_x: clamp_off((self.win_w as int - gw * z) / 2),
            offset_y: clamp_off((self.win_h as int - gh * z) / 2),
            ..self
        }
    }

    /// The camera at startup: zero pan, unit zoom, the given window.
    pub fn new(w: i32, h: i32) -> (v: Viewport)
        ensures
            v.wf(),
            v.offset_x == 0,
            v.offset_y == 0,
            v.zoom == 1,
            v.win_w == clamp_win(w),
            v.win_h == clamp_win(h),
    {
        Viewport { offset_x: 0, offset_y: 0, zoom: 1, win_w: clamp_window(w), win_h: clamp_window(h) }
    }

    /// Record a new window size; the camera itself does not move.
    pub fn set_window_size(&mut self, w: i32, h: i32)
        ensures
            *final(self) == old(self).with_window(w, h),
    {
        self.win_w = clamp_window(w);
        self.win_h = clamp_window(h);
    }

    /// Add a screen-pixel delta to the pan offset.
    pub fn pan(&mut self, dx: i64, dy: i64)
        requires
            old(self).wf(),
            -PAN_LIMIT <= dx <= PAN_LIMIT,
            -PAN_LIMIT <= dy <= PAN_LIMIT,
        ensures
            final(self).wf(),
            *final(self) == old(self).panned(dx, dy),
    {
        self.offset_x = clamp_offset(self.offset_x + dx);
        self.offset_y = clamp_offset(self.offset_y + dy);
    }

    /// Adjust the zoom by `delta` scroll ticks, anchored at `(mx, my)`.
    pub fn zoom_by(&mut self, delta: i32, mx: i32, my: i32)
        requires
            old(self).wf(),
        ensures
            final(self).wf(),
            *final(self) == old(self).zoomed(delta, mx, my),
    {
        let zi = self.zoom + delta as i64;
        let nz = if zi < MIN_ZOOM {
            MIN_ZOOM
        } else if zi > MAX_ZOOM {
            MAX_ZOOM
        } else {
            zi
        };
        let dx = mx as i64 - self.offset_x;
        let dy = my as i64 - self.offset_y;
        proof {
            lemma_abs_mul_le(dx as int, nz as int, (MAX_OFFSET + COORD_LIMIT) as int, MAX_ZOOM as int);
            lemma_abs_mul_le(dy as int, nz as int, (MAX_OFFSET + COORD_LIMIT) as int, MAX_ZOOM as int);
        }
        let ox = clamp_offset(mx as i64 - floor_div(dx * nz, self.zoom));
        let oy = clamp_offset(my as i64 - floor_div(dy * nz, self.zoom));
        self.zoom = nz;
        self.offset_x = ox;
        self.offset_y = oy;
    }

    /// Recompute zoom and offset so the `gw x gh` grid fills the window.
    pub fn fit_to_window(&mut self, gw: i64, gh: i64)
        requires
            old(self).wf(),
            1 <= gw <= COORD_LIMIT,
            1 <= gh <= COORD_LIMIT,
        ensures
            final(self).wf(),
            *final(self) == old(self).fitted(gw as int, gh as int),
    {
        let zw = (self.win_w as i64) / gw;
        let zh = (self.win_h as i64) / gh;
        let zmin = if zw < zh {
            zw
        } else {
            zh
        };
        let z = if zmin < MIN_ZOOM {
            MIN_ZOOM
        } else if zmin > MAX_ZOOM {
            MAX_ZOOM
        } else {
            zmin
        };
        proof {
            lemma_abs_mul_le(gw as int, z as int, COORD_LIMIT as int, MAX_ZOOM as int);
            lemma_abs_mul_le(gh as int, z as int, COORD_LIMIT as int, MAX_ZOOM as int);
        }
        let ox = clamp_offset(floor_div(self.win_w as i64 - gw * z, 2));
        let oy = clamp_offset(floor_div(self.win_h as i64 - gh * z, 2));
        self.zoom = z;
        self.offset_x = ox;
        self.offset_y = oy;
    }

    /// The cell under a screen point. The result may lie outside any grid;
    /// callers bounds-check through the grid's tolerant accessors.
    pub fn screen_to_cell(&self, sx: i32, sy: i32) -> (c: (i64, i64))
        requires
            self.wf(),
        ensures
            c.0 as int == self.cell_x(sx as int),
            c.1 as int == self.cell_y(sy as int),
    {
        let cx = floor_div(sx as i64 - self.offset_x, self.zoom);
        let cy = floor_div(sy as i64 - self.offset_y, self.zoom);
        (cx, cy)
    }

    /// The screen point at the top-left corner of a cell.
    pub fn cell_to_screen(&self, cx: i64, cy: i64) -> (p: (i64, i64))
        requires
            self.wf(),
            -COORD_LIMIT <= cx <= COORD_LIMIT,
            -COORD_LIMIT <= cy <= COORD_LIMIT,
        ensures
            p.0 as int == self.screen_x(cx as int),
            p.1 as int == self.screen_y(cy as int),
    {
        proof {
            lemma_abs_mul_le(cx as int, self.zoom as int, COORD_LIMIT as int, MAX_ZOOM as int);
            lemma_abs_mul_le(cy as int, self.zoom as int, COORD_LIMIT as int, MAX_ZOOM as int);
        }
        (cx * self.zoom + self.offset_x, cy * self.zoom + self.offset_y)
    }
}

/// A product of bounded factors is bounded.
proof fn lemma_abs_mul_le(a: int, b: int, ma: int, mb: int)
    requires
        -ma <= a <= ma,
        0 <= b <= mb,
        0 <= ma,
    ensures
        -(ma * mb) <= a * b <= ma * mb,
{
    assert(-(ma * mb) <= a * b <= ma * mb) by (nonlinear_arith)
        requires
            -ma <= a <= ma,
            0 <= b <= mb,
            0 <= ma,
    ;
}

/// Scaling a numerator by `nz` and then dividing by `nz` leaves a floor
/// division by `z` unchanged: `((d * nz) / z) / nz == d / z`.
proof fn lemma_div_mul_compose(d: int, z: int, nz: int)
    requires
        1 <= z,
        1 <= nz,
    ensures
        ((d * nz) / z) / nz == d / z,
{
    let c = d / z;
    let r = d % z;
    lemma_fundamental_div_mod(d, z);
    lemma_mod_bound(d, z);
    let s = (r * nz) / z;
    let t = (r * nz) % z;
    lemma_fundamental_div_mod(r * nz, z);
    lemma_mod_bound(r * nz, z);
    assert(0 <= s && s < nz) by (nonlinear_arith)
        requires
            0 <= r && r < z,
            1 <= nz,
            r * nz == z * s + t,
            0 <= t && t < z,
    ;
    assert(d * nz == z * (c * nz + s) + t) by (nonlinear_arith)
        requires
            d == z * c + r,
            r * nz == z * s + t,
    ;
    lemma_fundamental_div_mod_converse(d * nz, z, c * nz + s, t);
    assert(c * nz + s == nz * c + s) by (nonlinear_arith);
    lemma_fundamental_div_mod_converse(c * nz + s, nz, c, s);
}

/// Law: zooming is anchored at the pointer — whenever the compensated
/// offsets stay inside the pan range (so no clamping interferes), the cell
/// under the anchor point is the same cell before and after the zoom.
pub proof fn lemma_zoom_anchor(v: Viewport, delta: i32, mx: i32, my: i32)
    requires
        v.wf(),
        -(MAX_OFFSET as int) <= anchor_offset(
            mx as int,
            v.offset_x as int,
            v.zoom_stepped(delta),
            v.zoom as int,
        ) <= MAX_OFFSET as int,
        -(MAX_OFFSET as int) <= anchor_offset(
            my as int,
            v.offset_y as int,
            v.zoom_stepped(delta),
            v.zoom as int,
        ) <= MAX_OFFSET as int,
    ensures
        v.zoomed(delta, mx, my).cell_x(mx as int) == v.cell_x(mx as int),
        v.zoomed(delta, mx, my).cell_y(my as int) == v.cell_y(my as int),
{
    let z = v.zoom as int;
    let nz = v.zoom_stepped(delta);
    let dx = mx as int - v.offset_x as int;
    let dy = my as int - v.offset_y as int;
    lemma_div_mul_compose(dx, z, nz);
    lemma_div_mul_compose(dy, z, nz);
    assert(v.zoomed(delta, mx, my).offset_x as int == mx as int - (dx * nz) / z);
    assert(v.zoomed(delta, mx, my).offset_y as int == my as int - (dy * nz) / z);
}

/// Law: the coordinate transform round-trips — the cell under the screen
/// point at a cell's top-left corner is that cell again, for every valid
/// camera and every cell coordinate.
pub proof fn lemma_screen_cell_round_trip(v: Viewport, cx: int, cy: int)
    requires
        v.wf(),
    ensures
        v.cell_x(v.screen_x(cx)) == cx,
        v.cell_y(v.screen_y(cy)) == cy,
{
    let z = v.zoom as int;
    assert(cx * z == z * cx) by (nonlinear_arith);
    assert(cy * z == z * cy) by (nonlinear_arith);
    lemma_div_multiples_vanish(cx, z);
    lemma_div_multiples_vanish(cy, z);
    assert(v.screen_x(cx) - v.offset_x == z * cx);
    assert(v.screen_y(cy) - v.offset_y == z * cy);
}

} // verus!
