//! The character grid that wireframes are rasterised onto, and the steps of
//! the frame loop.
use vstd::prelude::*;
use crate::fixed::{div_round, round_div, ONE};
use crate::line::{sample, Line, STEPS};
use crate::point::{screen_xy, Point};
use crate::shape::Shape;

verus! {

/// Width of the small canvas, in cells.
pub const SMALL_WIDTH: usize = 78;

/// Height of the small canvas, in cells.
pub const SMALL_HEIGHT: usize = 42;

/// Width of the large canvas, in cells.
pub const LARGE_WIDTH: usize = 257;

/// Height of the large canvas, in cells.
pub const LARGE_HEIGHT: usize = 171;

/// Largest width or height of a canvas.
pub const MAX_SIDE: usize = 4096;

/// Horizontal spread of the image, `2.16666666666666`, over `SPREAD_DEN`.
pub const SPREAD_X: i128 = 216666666666666;

/// Vertical spread of the image, `1.16666666666666`, over `SPREAD_DEN`.
pub const SPREAD_Y: i128 = 116666666666666;

/// Common denominator of the two spreads.
pub const SPREAD_DEN: i128 = 100000000000000;

/// Screen coordinates beyond this magnitude (256.0) fall off any canvas.
pub const SCREEN_LIMIT: i128 = 72057594037927936;

/// Column of screen x coordinate `sx` on a canvas `width` cells wide:
/// `round(sx · c / a · 5/3 + c)` with `c = width / 2`, `a` the horizontal
/// spread; the `5/3` makes up for cells being taller than wide.
pub open spec fn cell_col(sx: int, width: int) -> int {
    let c = width / 2;
    round_div(sx * c * 5 * SPREAD_DEN + c * ONE * 3 * SPREAD_X, ONE * 3 * SPREAD_X)
}

/// Row of screen y coordinate `sy` on a canvas `height` cells high:
/// `round(sy · c / b + c)` with `c = height / 2`, `b` the vertical spread.
pub open spec fn cell_row(sy: int, height: int) -> int {
    let c = height / 2;
    round_div(sy * c * SPREAD_DEN + c * ONE * SPREAD_Y, ONE * SPREAD_Y)
}

/// The cell `(row, column)` that point `p` lands on, if it lies in front of
/// the eye and inside the canvas.
pub open spec fn cell_of(p: Seq<int>, width: int, height: int) -> Option<(int, int)> {
    if 4 * ONE + p[1] <= 0 {
        None
    } else {
        let row = cell_row(screen_xy(p).1, height);
        let col = cell_col(screen_xy(p).0, width);
        if 0 <= row < height && 0 <= col < width {
            Some((row, col))
        } else {
            None
        }
    }
}

/// The grid after drawing point `p` with `ch`.
pub open spec fn paint_point(cells: Seq<char>, p: Seq<int>, ch: char, width: int, height: int) -> Seq<char> {
    match cell_of(p, width, height) {
        Some(rc) => cells.update(rc.0 * width + rc.1, ch),
        None => cells,
    }
}

/// The grid after drawing the first `k` samples of the segment from `a` to `b`.
pub open spec fn paint_samples(
    cells: Seq<char>,
    a: Seq<int>,
    b: Seq<int>,
    ch: char,
    width: int,
    height: int,
    k: nat,
) -> Seq<char>
    decreases k,
{
    if k == 0 {
        cells
    } else {
        paint_point(paint_samples(cells, a, b, ch, width, height, (k - 1) as nat), sample(a, b, k - 1), ch, width, height)
    }
}

/// The grid after drawing line `l` with `ch`: all of its samples, in order.
pub open spec fn paint_line(cells: Seq<char>, l: Seq<Seq<int>>, ch: char, width: int, height: int) -> Seq<char> {
    paint_samples(cells, l[0], l[1], ch, width, height, (STEPS + 1) as nat)
}

/// The grid after drawing the first `n` lines of `ls` with `ch`, in order.
pub open spec fn paint_lines(
    cells: Seq<char>,
    ls: Seq<Seq<Seq<int>>>,
    ch: char,
    width: int,
    height: int,
    n: nat,
) -> Seq<char>
    decreases n,
{
    if n == 0 {
        cells
    } else {
        paint_line(paint_lines(cells, ls, ch, width, height, (n - 1) as nat), ls[n - 1], ch, width, height)
    }
}

/// The grid as text: each row followed by a newline.
pub open spec fn grid_text(cells: Seq<char>, width: int, height: int) -> Seq<char> {
    Seq::new((height * (width + 1)) as nat, |i: int|
        if i % (width + 1) == width { '\n' } else { cells[(i / (width + 1)) * width + i % (width + 1)] })
}

/// A grid of characters, row by row.
#[derive(Debug, Clone)]
pub struct MyScreenBuffer {
    pub width: usize,
    pub height: usize,
    pub cells: Vec<char>,
}

impl MyScreenBuffer {
    /// The grid has `width × height` cells and sensible sides.
    pub open spec fn wf(&self) -> bool {
        &&& 2 <= self.width <= MAX_SIDE
        &&& 2 <= self.height <= MAX_SIDE
        &&& self.cells@.len() == self.width * self.height
    }

    /// A grid of spaces.
    pub fn new(width: usize, height: usize) -> (r: MyScreenBuffer)
        requires
            2 <= width <= MAX_SIDE,
            2 <= height <= MAX_SIDE,
        ensures
            r.wf(),
            r.width == width,
            r.height == height,
            r.cells@ == Seq::new((width * height) as nat, |i: int| ' '),
    {
        assert(width * height <= MAX_SIDE * MAX_SIDE) by (nonlinear_arith)
            requires width <= MAX_SIDE, height <= MAX_SIDE;
        let n = width * height;
        let mut cells: Vec<char> = Vec::new();
        let mut i: usize = 0;
        while i < n
            invariant
                i <= n,
                cells@ == Seq::new(i as nat, |j: int| ' '),
            decreases n - i,
        {
            cells.push(' ');
            i += 1;
            assert(cells@ =~= Seq::new(i as nat, |j: int| ' '));
        }
        MyScreenBuffer { width, height, cells }
    }

    /// The grid as text: each row followed by a newline.
    pub fn to_text(&self) -> (r: Vec<char>)
        requires
            self.wf(),
        ensures
            r@ == grid_text(self.cells@, self.width as int, self.height as int),
    {
        let (w, h) = (self.width, self.height);
        let mut out: Vec<char> = Vec::new();
        let mut row: usize = 0;
        while row < h
            invariant
                self.wf(),
                w == self.width,
                h == self.height,
                row <= h,
                out@ == grid_text(self.cells@, w as int, h as int).take(row * (w + 1)),
            decreases h - row,
        {
            let mut col: usize = 0;
            while col < w
                invariant
                    self.wf(),
                    w == self.width,
                    h == self.height,
                    row < h,
                    col <= w,
                    out@ == grid_text(self.cells@, w as int, h as int).take(row * (w + 1) + col),
                decreases w - col,
            {
                proof {
                    lemma_cell_index(row as int, col as int, w as int, h as int);
                    lemma_text_index(row as int, col as int, w as int, h as int);
                }
                out.push(self.cells[row * w + col]);
                col += 1;
                assert(out@ =~= grid_text(self.cells@, w as int, h as int).take(row * (w + 1) + col));
            }
            proof {
                lemma_text_index(row as int, w as int, w as int, h as int);
            }
            out.push('\n');
            assert((row + 1) * (w + 1) == row * (w + 1) + w + 1) by (nonlinear_arith);
            row += 1;
            assert(out@ =~= grid_text(self.cells@, w as int, h as int).take(row * (w + 1)));
        }
        assert(out@ =~= grid_text(self.cells@, w as int, h as int));
        out
    }
}

/// Cell `(row, col)` lies in a `width × height` grid.
proof fn lemma_cell_index(row: int, col: int, width: int, height: int)
    requires
        0 <= row < height,
        0 <= col < width,
        height <= MAX_SIDE,
        width <= MAX_SIDE,
    ensures
        0 <= row * width <= row * width + col < width * height <= MAX_SIDE * MAX_SIDE,
{
    assert(0 <= row * width <= row * width + col < width * height) by (nonlinear_arith)
        requires 0 <= row < height, 0 <= col < width;
    assert(width * height <= MAX_SIDE * MAX_SIDE) by (nonlinear_arith)
        requires 0 <= width <= MAX_SIDE, 0 <= height <= MAX_SIDE;
}

/// Position `row * (width + 1) + col` of the text is cell `(row, col)`, or
/// the row's newline where `col == width`.
proof fn lemma_text_index(row: int, col: int, width: int, height: int)
    requires
        0 <= row < height,
        0 <= col <= width,
    ensures
        0 <= row * (width + 1) + col < height * (width + 1),
        (row * (width + 1) + col) / (width + 1) == row,
        (row * (width + 1) + col) % (width + 1) == col,
{
    assert(0 <= row * (width + 1) + col < height * (width + 1)) by (nonlinear_arith)
        requires 0 <= row < height, 0 <= col <= width;
    vstd::arithmetic::div_mod::lemma_fundamental_div_mod_converse(
        row * (width + 1) + col, width + 1, row, col);
}

/// `round_div(n, d) >= m` once `n >= m * d`.
proof fn lemma_round_at_least(n: int, d: int, m: int)
    requires
        d > 0,
        m >= 0,
        n >= m * d,
    ensures
        round_div(n, d) >= m,
{
    assert(n >= 0) by (nonlinear_arith)
        requires m >= 0, d > 0, n >= m * d;
    assert(2 * n + d >= m * (2 * d)) by (nonlinear_arith)
        requires n >= m * d, d > 0;
    vstd::arithmetic::div_mod::lemma_div_is_ordered(m * (2 * d), 2 * n + d, 2 * d);
    vstd::arithmetic::div_mod::lemma_div_multiples_vanish(m, 2 * d);
}

/// `round_div(n, d) < 0` once `n <= -d`.
proof fn lemma_round_negative(n: int, d: int)
    requires
        d > 0,
        n <= -d,
    ensures
        round_div(n, d) < 0,
{
    vstd::arithmetic::div_mod::lemma_div_is_ordered(2 * d, d - 2 * n, 2 * d);
    vstd::arithmetic::div_mod::lemma_div_by_self(2 * d);
}

/// A screen x coordinate beyond `SCREEN_LIMIT` lands outside any canvas.
proof fn lemma_col_off_canvas(sx: int, width: int)
    requires
        2 <= width <= MAX_SIDE,
        sx > SCREEN_LIMIT || sx < -SCREEN_LIMIT,
    ensures
        !(0 <= cell_col(sx, width) < width),
{
    let c = width / 2;
    let d = ONE * 3 * SPREAD_X;
    let n = sx * c * 5 * SPREAD_DEN + c * ONE * 3 * SPREAD_X;
    assert(1 <= c && width <= 2 * c + 1);
    assert(d == 182958734861925837050046578688int);
    if sx > SCREEN_LIMIT {
        assert(n >= (2 * c + 1) * d) by (nonlinear_arith)
            requires
                sx > 72057594037927936int,
                c >= 1,
                d == 182958734861925837050046578688int,
                n == sx * c * 500000000000000int + c * d,
        ;
        lemma_round_at_least(n, d, 2 * c + 1);
    } else {
        assert(n <= -d) by (nonlinear_arith)
            requires
                sx < -72057594037927936int,
                c >= 1,
                d == 182958734861925837050046578688int,
                n == sx * c * 500000000000000int + c * d,
        ;
        lemma_round_negative(n, d);
    }
}

/// A screen y coordinate beyond `SCREEN_LIMIT` lands outside any canvas.
proof fn lemma_row_off_canvas(sy: int, height: int)
    requires
        2 <= height <= MAX_SIDE,
        sy > SCREEN_LIMIT || sy < -SCREEN_LIMIT,
    ensures
        !(0 <= cell_row(sy, height) < height),
{
    let c = height / 2;
    let d = ONE * SPREAD_Y;
    let n = sy * c * SPREAD_DEN + c * ONE * SPREAD_Y;
    assert(1 <= c && height <= 2 * c + 1);
    assert(d == 32838747282909679016682192896int);
    if sy > SCREEN_LIMIT {
        assert(n >= (2 * c + 1) * d) by (nonlinear_arith)
            requires
                sy > 72057594037927936int,
                c >= 1,
                d == 32838747282909679016682192896int,
                n == sy * c * 100000000000000int + c * d,
        ;
        lemma_round_at_least(n, d, 2 * c + 1);
    } else {
        assert(n <= -d) by (nonlinear_arith)
            requires
                sy < -72057594037927936int,
                c >= 1,
                d == 32838747282909679016682192896int,
                n == sy * c * 100000000000000int + c * d,
        ;
        lemma_round_negative(n, d);
    }
}

/// The column that screen x coordinate `sx` lands on.
fn column_of(sx: i128, width: usize) -> (r: i128)
    requires
        -SCREEN_LIMIT <= sx <= SCREEN_LIMIT,
        2 <= width <= MAX_SIDE,
    ensures
        r == cell_col(sx as int, width as int),
{
    let c = (width / 2) as i128;
    assert(-295147905179352825856 <= sx * c <= 295147905179352825856) by (nonlinear_arith)
        requires -72057594037927936 <= sx <= 72057594037927936, 0 <= c <= 4096;
    assert(0 <= c <= 2048);
    let t = sx * c;
    let d = ONE as i128 * 3 * SPREAD_X;
    assert(0 <= c * d <= 2048 * 182958734861925837050046578688int) by (nonlinear_arith)
        requires 0 <= c <= 2048, d == 182958734861925837050046578688int;
    div_round(t * 5 * SPREAD_DEN + c * d, d)
}

/// The row that screen y coordinate `sy` lands on.
fn row_of(sy: i128, height: usize) -> (r: i128)
    requires
        -SCREEN_LIMIT <= sy <= SCREEN_LIMIT,
        2 <= height <= MAX_SIDE,
    ensures
        r == cell_row(sy as int, height as int),
{
    let c = (height / 2) as i128;
    assert(-295147905179352825856 <= sy * c <= 295147905179352825856) by (nonlinear_arith)
        requires -72057594037927936 <= sy <= 72057594037927936, 0 <= c <= 4096;
    assert(0 <= c <= 2048);
    let t = sy * c;
    let d = ONE as i128 * SPREAD_Y;
    assert(0 <= c * d <= 2048 * 32838747282909679016682192896int) by (nonlinear_arith)
        requires 0 <= c <= 2048, d == 32838747282909679016682192896int;
    div_round(t * SPREAD_DEN + c * d, d)
}

/// A canvas that wireframes are drawn on, one frame at a time.
#[derive(Debug, Clone)]
pub struct Screen {
    pub screen: MyScreenBuffer,
}

impl Screen {
    /// The canvas is well formed.
    pub open spec fn wf(&self) -> bool {
        self.screen.wf()
    }

    /// The canvas's cells, row by row.
    pub open spec fn cells(&self) -> Seq<char> {
        self.screen.cells@
    }

    /// A blank canvas of the given size.
    pub fn new(width: usize, height: usize) -> (r: Screen)
        requires
            2 <= width <= MAX_SIDE,
            2 <= height <= MAX_SIDE,
        ensures
            r.wf(),
            r.screen.width == width,
            r.screen.height == height,
            r.cells() == Seq::new((width * height) as nat, |i: int| ' '),
    {
        Screen { screen: MyScreenBuffer::new(width, height) }
    }

    /// A blank small canvas, 78 × 42.
    pub fn small() -> (r: Screen)
        ensures
            r.wf(),
            r.screen.width == SMALL_WIDTH,
            r.screen.height == SMALL_HEIGHT,
            r.cells() == Seq::new((SMALL_WIDTH * SMALL_HEIGHT) as nat, |i: int| ' '),
    {
        Screen::new(SMALL_WIDTH, SMALL_HEIGHT)
    }

    /// A blank large canvas, 257 × 171.
    pub fn large() -> (r: Screen)
        ensures
            r.wf(),
            r.screen.width == LARGE_WIDTH,
            r.screen.height == LARGE_HEIGHT,
            r.cells() == Seq::new((LARGE_WIDTH * LARGE_HEIGHT) as nat, |i: int| ' '),
    {
        Screen::new(LARGE_WIDTH, LARGE_HEIGHT)
    }

    /// The character at `(row, col)`.
    pub fn cell(&self, row: usize, col: usize) -> (r: char)
        requires
            self.wf(),
            row < self.screen.height,
            col < self.screen.width,
        ensures
            r == self.cells()[row * self.screen.width + col],
    {
        proof {
            lemma_cell_index(row as int, col as int, self.screen.width as int, self.screen.height as int);
        }
        self.screen.cells[row * self.screen.width + col]
    }

    /// Draws point `coords` with `ch` on the cell it lands on; a point behind
    /// the eye or off the canvas is dropped.
    pub fn set_point(&mut self, coords: Point, ch: char)
        requires
            old(self).wf(),
        ensures
            final(self).wf(),
            final(self).screen.width == old(self).screen.width,
            final(self).screen.height == old(self).screen.height,
            final(self).cells() == paint_point(
                old(self).cells(),
                coords@,
                ch,
                old(self).screen.width as int,
                old(self).screen.height as int,
            ),
    {
        let (w, h) = (self.screen.width, self.screen.height);
        if 4 * ONE as i128 + coords.0[1] as i128 <= 0 {
            return;
        }
        let (sx, sy) = coords.to_screen_xy();
        if sx > SCREEN_LIMIT || sx < -SCREEN_LIMIT {
            proof {
                lemma_col_off_canvas(sx as int, w as int);
            }
            return;
        }
        if sy > SCREEN_LIMIT || sy < -SCREEN_LIMIT {
            proof {
                lemma_row_off_canvas(sy as int, h as int);
            }
            return;
        }
        let col = column_of(sx, w);
        let row = row_of(sy, h);
        if 0 <= row && row < h as i128 && 0 <= col && col < w as i128 {
            let (r, c) = (row as usize, col as usize);
            proof {
                lemma_cell_index(r as int, c as int, w as int, h as int);
            }
            self.screen.cells.set(r * w + c, ch);
        }
    }

    /// Draws the `STEPS + 1` samples of `line` with `ch`, first end first.
    pub fn render_line(&mut self, line: Line, ch: char)
        requires
            old(self).wf(),
        ensures
            final(self).wf(),
            final(self).screen.width == old(self).screen.width,
            final(self).screen.height == old(self).screen.height,
            final(self).cells() == paint_line(
                old(self).cells(),
                line@,
                ch,
                old(self).screen.width as int,
                old(self).screen.height as int,
            ),
    {
        let points = line.find_78_points_in_between();
        let ghost start = self.cells();
        let mut k: usize = 0;
        while k < points.len()
            invariant
                self.wf(),
                self.screen.width == old(self).screen.width,
                self.screen.height == old(self).screen.height,
                start == old(self).cells(),
                k <= points@.len(),
                points@.len() == STEPS + 1,
                forall|j: int| 0 <= j <= STEPS ==> #[trigger] points@[j]@ == sample(line@[0], line@[1], j),
                self.cells() == paint_samples(
                    start,
                    line@[0],
                    line@[1],
                    ch,
                    self.screen.width as int,
                    self.screen.height as int,
                    k as nat,
                ),
            decreases points@.len() - k,
        {
            self.set_point(points[k], ch);
            k += 1;
        }
    }

    /// Draws every line of `shape` with the shape's character, in order.
    pub fn render_shape(&mut self, shape: Shape)
        requires
            old(self).wf(),
        ensures
            final(self).wf(),
            final(self).screen.width == old(self).screen.width,
            final(self).screen.height == old(self).screen.height,
            final(self).cells() == paint_lines(
                old(self).cells(),
                shape@,
                shape.1,
                old(self).screen.width as int,
                old(self).screen.height as int,
                shape@.len(),
            ),
    {
        let ghost start = self.cells();
        let mut i: usize = 0;
        while i < shape.0.len()
            invariant
                self.wf(),
                self.screen.width == old(self).screen.width,
                self.screen.height == old(self).screen.height,
                start == old(self).cells(),
                i <= shape.0@.len(),
                self.cells() == paint_lines(
                    start,
                    shape@,
                    shape.1,
                    self.screen.width as int,
                    self.screen.height as int,
                    i as nat,
                ),
            decreases shape.0@.len() - i,
        {
            self.render_line(shape.0[i], shape.1);
            i += 1;
        }
    }

    /// Turns every cell back into a space.
    pub fn clear_screen(&mut self)
        requires
            old(self).wf(),
        ensures
            final(self).wf(),
            final(self).screen.width == old(self).screen.width,
            final(self).screen.height == old(self).screen.height,
            final(self).cells() == Seq::new(old(self).cells().len(), |i: int| ' '),
    {
        self.screen = MyScreenBuffer::new(self.screen.width, self.screen.height);
    }

    /// The canvas as text: each row followed by a newline.
    pub fn frame_text(&self) -> (r: Vec<char>)
        requires
            self.wf(),
        ensures
            r@ == grid_text(self.cells(), self.screen.width as int, self.screen.height as int),
    {
        self.screen.to_text()
    }

    /// One frame: draws `shape`, takes the canvas as text, and clears it again.
    pub fn draw_frame(&mut self, shape: Shape) -> (r: Vec<char>)
        requires
            old(self).wf(),
        ensures
            final(self).wf(),
            final(self).screen.width == old(self).screen.width,
            final(self).screen.height == old(self).screen.height,
            final(self).cells() == Seq::new(old(self).cells().len(), |i: int| ' '),
            r@ == grid_text(
                paint_lines(
                    old(self).cells(),
                    shape@,
                    shape.1,
                    old(self).screen.width as int,
                    old(self).screen.height as int,
                    shape@.len(),
                ),
                old(self).screen.width as int,
                old(self).screen.height as int,
            ),
    {
        self.render_shape(shape);
        let text = self.frame_text();
        self.clear_screen();
        text
    }
}

impl Default for Screen {
    /// A blank small canvas.
    fn default() -> (r: Screen)
        ensures
            r.wf(),
            r.screen.width == SMALL_WIDTH,
            r.screen.height == SMALL_HEIGHT,
            r.cells() == Seq::new((SMALL_WIDTH * SMALL_HEIGHT) as nat, |i: int| ' '),
    {
        Screen::small()
    }
}

} // verus!
