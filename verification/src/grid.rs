//! The cell matrix and the Life rule.
//!
//! A [`Grid`] is a fixed `width x height` matrix of live/dead cells stored in
//! row-major order. Coordinates outside the matrix read as permanently dead
//! (bounded border, no wraparound). [`Grid::step`] computes the next
//! generation under the standard rule: a live cell with 2 or 3 live Moore
//! neighbors survives, a dead cell with exactly 3 live neighbors is born,
//! every other cell is dead.

use vstd::prelude::*;

verus! {

/// Upper bound on `width * height`, so index arithmetic stays within
/// `usize` on every target.
pub const MAX_CELLS: usize = 0x7fff_ffff;

/// The one failure the grid can report: `resize` with a non-positive dimension.
#[derive(Clone, Copy, PartialEq, Eq, Structural, Debug)]
pub enum GridError {
    InvalidSize,
}

/// Mathematical model of a grid: dimensions and the row-major cell sequence.
#[verifier::ext_equal]
pub ghost struct GridView {
    pub width: int,
    pub height: int,
    pub cells: Seq<bool>,
}

/// 1 for a live cell, 0 for a dead one; used to sum neighbor counts.
pub open spec fn b2i(b: bool) -> int {
    if b {
        1
    } else {
        0
    }
}

/// The all-dead grid of the given dimensions.
pub open spec fn dead_grid(w: int, h: int) -> GridView {
    GridView { width: w, height: h, cells: Seq::new((w * h) as nat, |i: int| false) }
}

impl GridView {
    /// Dimensions are positive, bounded, and match the cell sequence.
    pub open spec fn wf(self) -> bool {
        &&& 1 <= self.width
        &&& 1 <= self.height
        &&& self.width * self.height <= MAX_CELLS
        &&& self.cells.len() == self.width * self.height
    }

    /// The cell at `(x, y)`; dead for every out-of-bounds coordinate.
    pub open spec fn at(self, x: int, y: int) -> bool {
        if 0 <= x < self.width && 0 <= y < self.height {
            self.cells[y * self.width + x]
        } else {
            false
        }
    }

    /// Number of live cells among the 8 Moore neighbors of `(x, y)`.
    pub open spec fn neighbor_count(self, x: int, y: int) -> int {
        b2i(self.at(x - 1, y - 1)) + b2i(self.at(x, y - 1)) + b2i(self.at(x + 1, y - 1))
            + b2i(self.at(x - 1, y)) + b2i(self.at(x + 1, y)) + b2i(self.at(x - 1, y + 1)) + b2i(
            self.at(x, y + 1),
        ) + b2i(self.at(x + 1, y + 1))
    }

    /// The Life rule for one cell.
    pub open spec fn next_cell(self, x: int, y: int) -> bool {
        if self.at(x, y) {
            self.neighbor_count(x, y) == 2 || self.neighbor_count(x, y) == 3
        } else {
            self.neighbor_count(x, y) == 3
        }
    }

    /// The whole next generation.
    pub open spec fn stepped(self) -> GridView {
        GridView {
            width: self.width,
            height: self.height,
            cells: Seq::new(
                (self.width * self.height) as nat,
                |i: int| self.next_cell(i % self.width, i / self.width),
            ),
        }
    }

    /// The grid after every cell is set dead.
    pub open spec fn cleared(self) -> GridView {
        dead_grid(self.width, self.height)
    }

    /// The grid after a resize: values kept where old and new bounds overlap,
    /// dead everywhere else.
    pub open spec fn resized(self, w: int, h: int) -> GridView {
        GridView { width: w, height: h, cells: Seq::new((w * h) as nat, |i: int| self.at(i % w, i / w)) }
    }

    /// The grid after a single cell write; unchanged when `(x, y)` is out of
    /// bounds.
    pub open spec fn with_cell(self, x: int, y: int, alive: bool) -> GridView {
        if 0 <= x < self.width && 0 <= y < self.height {
            GridView { cells: self.cells.update(y * self.width + x, alive), ..self }
        } else {
            self
        }
    }

    /// No live cell anywhere.
    pub open spec fn all_dead(self) -> bool {
        forall|x: int, y: int| !self.at(x, y)
    }
}

/// Row-major index arithmetic: the index `y * w + x` decomposes back into
/// `(x, y)`.
pub proof fn lemma_row_major(i: int, x: int, y: int, w: int)
    requires
        0 < w,
        0 <= x < w,
        0 <= y,
        i == y * w + x,
    ensures
        i % w == x,
        i / w == y,
{
    vstd::arithmetic::div_mod::lemma_fundamental_div_mod_converse(i, w, y, x);
}

/// Every in-bounds row-major index lies below `w * h`.
pub proof fn lemma_index_bound(x: int, y: int, w: int, h: int)
    requires
        0 <= x < w,
        0 <= y < h,
    ensures
        0 <= y * w,
        y * w + x < w * h,
{
    assert(0 <= y * w && y * w + x < w * h) by (nonlinear_arith)
        requires
            0 <= x < w,
            0 <= y < h,
    ;
}

/// A well-formed grid has each dimension at most `MAX_CELLS`.
pub proof fn lemma_dims_bounded(g: GridView)
    requires
        g.wf(),
    ensures
        g.width <= MAX_CELLS,
        g.height <= MAX_CELLS,
{
    assert(g.width <= g.width * g.height && g.height <= g.width * g.height) by (nonlinear_arith)
        requires
            1 <= g.width,
            1 <= g.height,
    ;
}

/// The live/dead cell matrix.
#[derive(Debug)]
pub struct Grid {
    pub width: usize,
    pub height: usize,
    pub cells: Vec<bool>,
}

impl View for Grid {
    type V = GridView;

    open spec fn view(&self) -> GridView {
        GridView { width: self.width as int, height: self.height as int, cells: self.cells@ }
    }
}

/// A vector of `n` dead cells.
fn dead_cells(n: usize) -> (v: Vec<bool>)
    ensures
        v@ == Seq::new(n as nat, |i: int| false),
{
    let mut v: Vec<bool> = Vec::new();
    let mut k: usize = 0;
    while k < n
        invariant
            k <= n,
            v@.len() == k,
            forall|i: int| 0 <= i < k ==> !v@[i],
        decreases n - k,
    {
        v.push(false);
        k = k + 1;
    }
    proof {
        assert(v@ =~= Seq::new(n as nat, |i: int| false));
    }
    v
}

impl Grid {
    /// The structural invariant, stated over the view.
    pub open spec fn wf(self) -> bool {
        self@.wf()
    }

    /// A new all-dead grid; `InvalidSize` exactly when a dimension is not
    /// positive.
    pub fn new(width: i32, height: i32) -> (r: Result<Grid, GridError>)
        requires
            width as int * height as int <= MAX_CELLS as int,
        ensures
            r is Err <==> (width <= 0 || height <= 0),
            r is Err ==> r == Result::<Grid, GridError>::Err(GridError::InvalidSize),
            r is Ok ==> r->Ok_0.wf() && r->Ok_0@ == dead_grid(width as int, height as int),
    {
        if width <= 0 || height <= 0 {
            return Err(GridError::InvalidSize);
        }
        let w = width as usize;
        let h = height as usize;
        let cells = dead_cells(w * h);
        let g = Grid { width: w, height: h, cells };
        proof {
            assert(g@ =~= dead_grid(width as int, height as int));
        }
        Ok(g)
    }

    /// Read one cell; false for any out-of-bounds coordinate.
    pub fn get(&self, x: i64, y: i64) -> (r: bool)
        requires
            self.wf(),
        ensures
            r == self@.at(x as int, y as int),
    {
        proof {
            lemma_dims_bounded(self@);
        }
        if x < 0 || y < 0 || x >= self.width as i64 || y >= self.height as i64 {
            return false;
        }
        proof {
            lemma_index_bound(x as int, y as int, self@.width, self@.height);
        }
        let idx = (y as usize) * self.width + (x as usize);
        self.cells[idx]
    }

    /// Write one cell; a no-op (not an error) out of bounds.
    pub fn set(&mut self, x: i64, y: i64, alive: bool)
        requires
            old(self).wf(),
        ensures
            final(self).wf(),
            final(self)@ == old(self)@.with_cell(x as int, y as int, alive),
    {
        proof {
            lemma_dims_bounded(old(self)@);
        }
        if x < 0 || y < 0 || x >= self.width as i64 || y >= self.height as i64 {
            return ;
        }
        proof {
            lemma_index_bound(x as int, y as int, old(self)@.width, old(self)@.height);
        }
        let idx = (y as usize) * self.width + (x as usize);
        self.cells.set(idx, alive);
    }

    /// Set every cell dead.
    pub fn clear(&mut self)
        requires
            old(self).wf(),
        ensures
            final(self).wf(),
            final(self)@ == old(self)@.cleared(),
    {
        let n = self.cells.len();
        self.cells = dead_cells(n);
        proof {
            assert(self@ =~= old(self)@.cleared());
        }
    }

    /// Reallocate to `width x height`, keeping the value of every cell inside
    /// both the old and the new bounds and leaving all other cells dead.
    /// `InvalidSize` exactly when a dimension is not positive; the grid is
    /// then unchanged.
    pub fn resize(&mut self, width: i32, height: i32) -> (r: Result<(), GridError>)
        requires
            old(self).wf(),
            width as int * height as int <= MAX_CELLS as int,
        ensures
            final(self).wf(),
            r is Err <==> (width <= 0 || height <= 0),
            r is Err ==> r == Result::<(), GridError>::Err(GridError::InvalidSize) && final(self)@
                == old(self)@,
            r is Ok ==> final(self)@ == old(self)@.resized(width as int, height as int),
    {
        if width <= 0 || height <= 0 {
            return Err(GridError::InvalidSize);
        }
        let w = width as usize;
        let h = height as usize;
        let mut next: Vec<bool> = Vec::new();
        let mut y: usize = 0;
        while y < h
            invariant
                old(self).wf(),
                self@ == old(self)@,
                1 <= w <= MAX_CELLS,
                1 <= h <= MAX_CELLS,
                w * h <= MAX_CELLS,
                y <= h,
                next@.len() == y * w,
                forall|i: int|
                    0 <= i < y * w ==> next@[i] == old(self)@.at(i % (w as int), i / (w as int)),
            decreases h - y,
        {
            let mut x: usize = 0;
            proof {
                lemma_index_bound(0, y as int, w as int, h as int);
            }
            while x < w
                invariant
                    old(self).wf(),
                    self@ == old(self)@,
                    1 <= w <= MAX_CELLS,
                    1 <= h <= MAX_CELLS,
                    w * h <= MAX_CELLS,
                    y < h,
                    x <= w,
                    next@.len() == y * w + x,
                    forall|i: int|
                        0 <= i < y * w + x ==> next@[i] == old(self)@.at(
                            i % (w as int),
                            i / (w as int),
                        ),
                decreases w - x,
            {
                proof {
                    lemma_index_bound(x as int, y as int, w as int, h as int);
                    lemma_row_major((y * w + x) as int, x as int, y as int, w as int);
                }
                let v = self.get(x as i64, y as i64);
                next.push(v);
                x = x + 1;
            }
            y = y + 1;
            proof {
                assert(y * w == (y - 1) * w + w) by (nonlinear_arith);
            }
        }
        self.width = w;
        self.height = h;
        self.cells = next;
        proof {
            let target = old(self)@.resized(width as int, height as int);
            assert(self@.cells.len() == (h * w) as int);
            assert(w as int == width as int);
            assert(h as int == height as int);
            assert(target.cells.len() == (width as int * height as int) as nat);
            assert(self@.cells.len() == target.cells.len());
            assert forall|i: int| 0 <= i < self@.cells.len() implies self@.cells[i]
                == target.cells[i] by {
                assert(self@.cells[i] == old(self)@.at(i % (w as int), i / (w as int)));
            }
            assert(self@.cells =~= target.cells);
            assert(self@ =~= target);
        }
        Ok(())
    }

    /// Number of live cells among the 8 Moore neighbors of `(x, y)`.
    fn live_neighbors(&self, x: i64, y: i64) -> (n: u8)
        requires
            self.wf(),
            0 <= x <= MAX_CELLS as i64,
            0 <= y <= MAX_CELLS as i64,
        ensures
            n as int == self@.neighbor_count(x as int, y as int),
    {
        let mut n: u8 = 0;
        if self.get(x - 1, y - 1) {
            n = n + 1;
        }
        if self.get(x, y - 1) {
            n = n + 1;
        }
        if self.get(x + 1, y - 1) {
            n = n + 1;
        }
        if self.get(x - 1, y) {
            n = n + 1;
        }
        if self.get(x + 1, y) {
            n = n + 1;
        }
        if self.get(x - 1, y + 1) {
            n = n + 1;
        }
        if self.get(x, y + 1) {
            n = n + 1;
        }
        if self.get(x + 1, y + 1) {
            n = n + 1;
        }
        n
    }

    /// Compute the next generation in place, reading only the old matrix and
    /// swapping in the new one once the full pass is complete.
    pub fn step(&mut self)
        requires
            old(self).wf(),
        ensures
            final(self).wf(),
            final(self)@ == old(self)@.stepped(),
    {
        let w = self.width;
        let h = self.height;
        proof {
            lemma_dims_bounded(self@);
        }
        let mut next: Vec<bool> = Vec::new();
        let mut y: usize = 0;
        while y < h
            invariant
                old(self).wf(),
                self@ == old(self)@,
                w == old(self)@.width,
                h == old(self)@.height,
                y <= h,
                next@.len() == y * w,
                forall|i: int|
                    0 <= i < y * w ==> next@[i] == old(self)@.next_cell(
                        i % (w as int),
                        i / (w as int),
                    ),
            decreases h - y,
        {
            let mut x: usize = 0;
            proof {
                lemma_index_bound(0, y as int, w as int, h as int);
            }
            while x < w
                invariant
                    old(self).wf(),
                    self@ == old(self)@,
                    w == old(self)@.width,
                    h == old(self)@.height,
                    y < h,
                    x <= w,
                    next@.len() == y * w + x,
                    forall|i: int|
                        0 <= i < y * w + x ==> next@[i] == old(self)@.next_cell(
                            i % (w as int),
                            i / (w as int),
                        ),
                decreases w - x,
            {
                proof {
                    lemma_index_bound(x as int, y as int, w as int, h as int);
                    lemma_row_major((y * w + x) as int, x as int, y as int, w as int);
                }
                let cnt = self.live_neighbors(x as i64, y as i64);
                let cur = self.get(x as i64, y as i64);
                let alive = if cur {
                    cnt == 2 || cnt == 3
                } else {
                    cnt == 3
                };
                next.push(alive);
                x = x + 1;
            }
            y = y + 1;
            proof {
                assert(y * w == (y - 1) * w + w) by (nonlinear_arith);
            }
        }
        self.cells = next;
        proof {
            let target = old(self)@.stepped();
            assert(self@.cells.len() == (h * w) as int);
            assert(w as int == old(self)@.width);
            assert(h as int == old(self)@.height);
            assert(target.cells.len() == (old(self)@.width * old(self)@.height) as nat);
            assert((h * w) as int == (w as int) * (h as int)) by (nonlinear_arith);
            assert(self@.cells.len() == target.cells.len());
            assert forall|i: int| 0 <= i < self@.cells.len() implies self@.cells[i]
                == target.cells[i] by {
                assert(self@.cells[i] == old(self)@.next_cell(i % (w as int), i / (w as int)));
            }
            assert(self@.cells =~= target.cells);
            assert(self@ =~= target);
        }
    }

    /// Set each cell alive or dead independently, with probability one half
    /// each way. Dimensions are unchanged; nothing can be stated of the
    /// resulting pattern.
    pub fn randomize(&mut self)
        requires
            old(self).wf(),
        ensures
            final(self).wf(),
            final(self)@.width == old(self)@.width,
            final(self)@.height == old(self)@.height,
    {
        let n = self.cells.len();
        let mut k: usize = 0;
        while k < n
            invariant
                old(self).wf(),
                n == old(self)@.cells.len(),
                self@.width == old(self)@.width,
                self@.height == old(self)@.height,
                self@.cells.len() == n,
                k <= n,
            decreases n - k,
        {
            let b = random_cell();
            self.cells.set(k, b);
            k = k + 1;
        }
    }
}

/// Relies on `rand::random::<bool>()`: one independent coin flip, alive or
/// dead with probability one half each. Nothing is promised of the value
/// drawn.
#[verifier::external_body]
fn random_cell() -> bool {
    rand::random::<bool>()
}

/// Law: the empty pattern is stable — stepping an all-dead grid yields an
/// all-dead grid.
pub proof fn lemma_dead_grid_stable(g: GridView)
    requires
        g.wf(),
        g.all_dead(),
    ensures
        g.stepped().all_dead(),
{
    assert forall|x: int, y: int| !g.stepped().at(x, y) by {
        lemma_stepped_at(g, x, y);
        if 0 <= x < g.width && 0 <= y < g.height {
            assert(!g.at(x, y));
            assert(g.neighbor_count(x, y) == 0);
        }
    }
}

/// `stepped` reads back cell-wise as the Life rule: in bounds the rule's
/// verdict, out of bounds dead.
pub proof fn lemma_stepped_at(g: GridView, x: int, y: int)
    requires
        g.wf(),
    ensures
        g.stepped().at(x, y) == (0 <= x < g.width && 0 <= y < g.height && g.next_cell(x, y)),
{
    if 0 <= x < g.width && 0 <= y < g.height {
        lemma_index_bound(x, y, g.width, g.height);
        lemma_row_major(y * g.width + x, x, y, g.width);
    }
}

/// Law: after a resize, a coordinate inside both the old and the new bounds
/// reads its pre-resize value, and a coordinate valid only in the new size
/// reads dead.
pub proof fn lemma_resize_preserves(g: GridView, w: int, h: int, x: int, y: int)
    requires
        g.wf(),
        1 <= w,
        1 <= h,
    ensures
        g.resized(w, h).at(x, y) == (0 <= x < w && 0 <= y < h && g.at(x, y)),
{
    if 0 <= x < w && 0 <= y < h {
        lemma_index_bound(x, y, w, h);
        lemma_row_major(y * w + x, x, y, w);
    }
}

} // verus!
