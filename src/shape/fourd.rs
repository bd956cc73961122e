//! Wireframes in four dimensions.
use vstd::prelude::*;
use itertools::Itertools;
use crate::fixed::{floor_div, near, abs, isqrt, Angle, ONE, MAX_COORD, MAX_ENTRY};
use crate::line::fourd::Line;
use crate::matrix::fourd::{apply4, rot_zw, rot_yw, rot_yz, rot_xw, rot_xz, rot_xy};
use crate::point::fourd::{cube_xyz, scale4, Point};
use crate::shape::{degree, is_sign, lemma_scale_back, map_points, Shape as Shape3d};

verus! {

/// The pairs `(i, j)` with `start <= i < j < n`, in lexicographic order.
pub open spec fn pairs_from(start: nat, n: nat) -> Seq<(usize, usize)>
    decreases n - start,
{
    if start >= n {
        seq![]
    } else {
        Seq::new((n - start - 1) as nat, |k: int| (start as usize, (start + 1 + k) as usize))
            + pairs_from(start + 1, n)
    }
}

/// The pairs `(i, j)` with `i < j < n`, in lexicographic order.
pub open spec fn index_pairs(n: nat) -> Seq<(usize, usize)> {
    pairs_from(0, n)
}

/// Every pair of `pairs_from(start, n)` is `(i, j)` with `start <= i < j < n`.
pub proof fn lemma_pairs_from_bounds(start: nat, n: nat)
    requires
        n <= usize::MAX,
    ensures
        forall|k: int| 0 <= k < pairs_from(start, n).len() ==>
            start <= (#[trigger] pairs_from(start, n)[k]).0 < pairs_from(start, n)[k].1 < n,
    decreases n - start,
{
    if start < n {
        lemma_pairs_from_bounds(start + 1, n);
        let head = Seq::new((n - start - 1) as nat, |k: int| (start as usize, (start + 1 + k) as usize));
        assert(pairs_from(start, n) == head + pairs_from(start + 1, n));
        assert forall|k: int| 0 <= k < pairs_from(start, n).len() implies
            start <= (#[trigger] pairs_from(start, n)[k]).0 < pairs_from(start, n)[k].1 < n by {
            if k >= head.len() {
                assert(pairs_from(start, n)[k] == pairs_from(start + 1, n)[k - head.len()]);
            } else {
                assert(pairs_from(start, n)[k] == head[k]);
            }
        }
    }
}

/// Relies on itertools' `array_combinations`: on `0..n` it yields each pair
/// `[i, j]` with `i < j < n` once, in lexicographic order.
#[verifier::external_body]
fn combinations_of_two(n: usize) -> (r: Vec<(usize, usize)>)
    ensures
        r@ == index_pairs(n as nat),
{
    (0..n).array_combinations::<2>().map(|[i, j]| (i, j)).collect()
}

/// The corner `(x, y, z, w)` of the tesseract, each of `x, y, z, w` being `1` or `-1`.
pub open spec fn corner4(x: int, y: int, z: int, w: int) -> Seq<int> {
    seq![x * ONE, y * ONE, z * ONE, w * ONE]
}

/// The 32 edges of the tesseract with corners `(±1, ±1, ±1, ±1)`: the cube
/// at `w = -1`, the cube at `w = 1`, and the eight edges joining them.
pub open spec fn hypercube_edges() -> Seq<Seq<Seq<int>>> {
    seq![
        seq![corner4(1, 1, 1, -1), corner4(-1, 1, 1, -1)],
        seq![corner4(-1, 1, 1, -1), corner4(-1, -1, 1, -1)],
        seq![corner4(-1, -1, 1, -1), corner4(1, -1, 1, -1)],
        seq![corner4(1, -1, 1, -1), corner4(1, 1, 1, -1)],
        seq![corner4(1, 1, 1, -1), corner4(1, 1, -1, -1)],
        seq![corner4(-1, 1, 1, -1), corner4(-1, 1, -1, -1)],
        seq![corner4(-1, -1, 1, -1), corner4(-1, -1, -1, -1)],
        seq![corner4(1, -1, 1, -1), corner4(1, -1, -1, -1)],
        seq![corner4(1, 1, -1, -1), corner4(-1, 1, -1, -1)],
        seq![corner4(-1, 1, -1, -1), corner4(-1, -1, -1, -1)],
        seq![corner4(-1, -1, -1, -1), corner4(1, -1, -1, -1)],
        seq![corner4(1, -1, -1, -1), corner4(1, 1, -1, -1)],
        seq![corner4(1, 1, 1, 1), corner4(-1, 1, 1, 1)],
        seq![corner4(-1, 1, 1, 1), corner4(-1, -1, 1, 1)],
        seq![corner4(-1, -1, 1, 1), corner4(1, -1, 1, 1)],
        seq![corner4(1, -1, 1, 1), corner4(1, 1, 1, 1)],
        seq![corner4(1, 1, 1, 1), corner4(1, 1, -1, 1)],
        seq![corner4(-1, 1, 1, 1), corner4(-1, 1, -1, 1)],
        seq![corner4(-1, -1, 1, 1), corner4(-1, -1, -1, 1)],
        seq![corner4(1, -1, 1, 1), corner4(1, -1, -1, 1)],
        seq![corner4(1, 1, -1, 1), corner4(-1, 1, -1, 1)],
        seq![corner4(-1, 1, -1, 1), corner4(-1, -1, -1, 1)],
        seq![corner4(-1, -1, -1, 1), corner4(1, -1, -1, 1)],
        seq![corner4(1, -1, -1, 1), corner4(1, 1, -1, 1)],
        seq![corner4(1, 1, 1, 1), corner4(1, 1, 1, -1)],
        seq![corner4(1, 1, -1, 1), corner4(1, 1, -1, -1)],
        seq![corner4(1, -1, 1, 1), corner4(1, -1, 1, -1)],
        seq![corner4(1, -1, -1, 1), corner4(1, -1, -1, -1)],
        seq![corner4(-1, 1, 1, 1), corner4(-1, 1, 1, -1)],
        seq![corner4(-1, 1, -1, 1), corner4(-1, 1, -1, -1)],
        seq![corner4(-1, -1, 1, 1), corner4(-1, -1, 1, -1)],
        seq![corner4(-1, -1, -1, 1), corner4(-1, -1, -1, -1)],
    ]
}

/// `q` is `√5 / 4` in fixed point, rounded down.
pub open spec fn is_quarter_sqrt5(q: int) -> bool {
    &&& q >= 0
    &&& q * q <= 5 * ONE * ONE / 16 < (q + 1) * (q + 1)
}

/// The five vertices of the 5-cell, with `q` standing for `√5 / 4`:
/// `(q, q, q, -1/4)` and its three sign flips of two of x, y, z, then `(0, 0, 0, 1)`.
pub open spec fn fivecell_vertices(q: int) -> Seq<Seq<int>> {
    seq![
        seq![q, q, q, -(ONE / 4)],
        seq![q, -q, -q, -(ONE / 4)],
        seq![-q, q, -q, -(ONE / 4)],
        seq![-q, -q, q, -(ONE / 4)],
        seq![0, 0, 0, ONE as int],
    ]
}

/// The ten edges of the 5-cell, one for each pair of vertices, pairs in
/// lexicographic order.
pub open spec fn fivecell_edges(q: int) -> Seq<Seq<Seq<int>>> {
    index_pairs(5).map_values(|e: (usize, usize)|
        seq![fivecell_vertices(q)[e.0 as int], fivecell_vertices(q)[e.1 as int]])
}

/// Every point of every line of `s` times the fixed-point scalar `k`.
pub open spec fn scaled4(s: Seq<Seq<Seq<int>>>, k: int) -> Seq<Seq<Seq<int>>> {
    map_points(s, |p: Seq<int>| scale4(p, k))
}

/// A wireframe in four dimensions: its lines, and the character it is drawn with.
#[derive(Debug, Default, Clone)]
pub struct Shape(pub Vec<Line>, pub char);

impl View for Shape {
    type V = Seq<Seq<Seq<int>>>;

    open spec fn view(&self) -> Seq<Seq<Seq<int>>> {
        self.0@.map_values(|l: Line| l@)
    }
}

impl Shape {
    /// Every line has coordinates of magnitude at most `b`.
    pub open spec fn within(self, b: int) -> bool {
        forall|i: int| 0 <= i < self.0@.len() ==> (#[trigger] self.0@[i]).within(b)
    }

    /// Every line can be projected to three dimensions.
    pub open spec fn projectable(self) -> bool {
        forall|i: int| 0 <= i < self.0@.len() ==> (#[trigger] self.0@[i]).projectable()
    }

    /// Whether every line can be projected to three dimensions.
    pub fn is_projectable(&self) -> (r: bool)
        ensures
            r == self.projectable(),
    {
        let mut i: usize = 0;
        while i < self.0.len()
            invariant
                i <= self.0@.len(),
                forall|j: int| 0 <= j < i ==> (#[trigger] self.0@[j]).projectable(),
            decreases self.0@.len() - i,
        {
            if !self.0[i].0[0].is_projectable() || !self.0[i].0[1].is_projectable() {
                return false;
            }
            i += 1;
        }
        true
    }

    /// Projects the shape to three dimensions, line by line, keeping its character.
    pub fn to_shape_3d(&self) -> (r: Shape3d)
        requires
            self.projectable(),
        ensures
            r.1 == self.1,
            r@ == map_points(self@, |p: Seq<int>| cube_xyz(p)),
    {
        let mut out: Vec<crate::line::Line> = Vec::new();
        let mut i: usize = 0;
        while i < self.0.len()
            invariant
                i <= self.0@.len(),
                out@.len() == i,
                self.projectable(),
                forall|j: int| 0 <= j < i ==> #[trigger] out@[j]@
                    == self.0@[j]@.map_values(|p: Seq<int>| cube_xyz(p)),
            decreases self.0@.len() - i,
        {
            out.push(self.0[i].to_line_3d());
            i += 1;
        }
        let r = Shape3d(out, self.1);
        assert(r@ =~= map_points(self@, |p: Seq<int>| cube_xyz(p)));
        r
    }

    /// Every line times the fixed-point scalar `k`.
    pub fn scale(self, k: i64) -> (r: Shape)
        requires
            self.within(MAX_COORD as int),
            abs(k as int) <= MAX_ENTRY,
        ensures
            r.1 == self.1,
            r@ == scaled4(self@, k as int),
    {
        let mut out: Vec<Line> = Vec::new();
        let mut i: usize = 0;
        while i < self.0.len()
            invariant
                i <= self.0@.len(),
                out@.len() == i,
                self.within(MAX_COORD as int),
                abs(k as int) <= MAX_ENTRY,
                forall|j: int| 0 <= j < i ==> #[trigger] out@[j]@
                    == self.0@[j]@.map_values(|p: Seq<int>| scale4(p, k as int)),
            decreases self.0@.len() - i,
        {
            out.push(self.0[i].scale(k));
            i += 1;
        }
        let r = Shape(out, self.1);
        assert(r@ =~= scaled4(self@, k as int));
        r
    }

    /// Rotates the shape about the zw plane by `theta` (x and y turn), line by line.
    pub fn rotate_zw_theta(self, theta: Angle) -> (r: Shape)
        requires
            theta.wf(),
            self.within(MAX_COORD as int),
        ensures
            r.1 == self.1,
            r@ == map_points(self@, |p: Seq<int>| apply4(rot_zw(theta), p)),
    {
        let mut out: Vec<Line> = Vec::new();
        let mut i: usize = 0;
        while i < self.0.len()
            invariant
                i <= self.0@.len(),
                out@.len() == i,
                theta.wf(),
                self.within(MAX_COORD as int),
                forall|j: int| 0 <= j < i ==> #[trigger] out@[j]@
                    == self.0@[j]@.map_values(|p: Seq<int>| apply4(rot_zw(theta), p)),
            decreases self.0@.len() - i,
        {
            out.push(self.0[i].rotate_zw_theta(theta));
            i += 1;
        }
        let r = Shape(out, self.1);
        assert(r@ =~= map_points(self@, |p: Seq<int>| apply4(rot_zw(theta), p)));
        r
    }

    /// Rotates the shape about the yw plane by `theta` (x and z turn), line by line.
    pub fn rotate_yw_theta(self, theta: Angle) -> (r: Shape)
        requires
            theta.wf(),
            self.within(MAX_COORD as int),
        ensures
            r.1 == self.1,
            r@ == map_points(self@, |p: Seq<int>| apply4(rot_yw(theta), p)),
    {
        let mut out: Vec<Line> = Vec::new();
        let mut i: usize = 0;
        while i < self.0.len()
            invariant
                i <= self.0@.len(),
                out@.len() == i,
                theta.wf(),
                self.within(MAX_COORD as int),
                forall|j: int| 0 <= j < i ==> #[trigger] out@[j]@
                    == self.0@[j]@.map_values(|p: Seq<int>| apply4(rot_yw(theta), p)),
            decreases self.0@.len() - i,
        {
            out.push(self.0[i].rotate_yw_theta(theta));
            i += 1;
        }
        let r = Shape(out, self.1);
        assert(r@ =~= map_points(self@, |p: Seq<int>| apply4(rot_yw(theta), p)));
        r
    }

    /// Rotates the shape about the yz plane by `theta` (x and w turn), line by line.
    pub fn rotate_yz_theta(self, theta: Angle) -> (r: Shape)
        requires
            theta.wf(),
            self.within(MAX_COORD as int),
        ensures
            r.1 == self.1,
            r@ == map_points(self@, |p: Seq<int>| apply4(rot_yz(theta), p)),
    {
        let mut out: Vec<Line> = Vec::new();
        let mut i: usize = 0;
        while i < self.0.len()
            invariant
                i <= self.0@.len(),
                out@.len() == i,
                theta.wf(),
                self.within(MAX_COORD as int),
                forall|j: int| 0 <= j < i ==> #[trigger] out@[j]@
                    == self.0@[j]@.map_values(|p: Seq<int>| apply4(rot_yz(theta), p)),
            decreases self.0@.len() - i,
        {
            out.push(self.0[i].rotate_yz_theta(theta));
            i += 1;
        }
        let r = Shape(out, self.1);
        assert(r@ =~= map_points(self@, |p: Seq<int>| apply4(rot_yz(theta), p)));
        r
    }

    /// Rotates the shape about the xw plane by `theta` (y and z turn), line by line.
    pub fn rotate_xw_theta(self, theta: Angle) -> (r: Shape)
        requires
            theta.wf(),
            self.within(MAX_COORD as int),
        ensures
            r.1 == self.1,
            r@ == map_points(self@, |p: Seq<int>| apply4(rot_xw(theta), p)),
    {
        let mut out: Vec<Line> = Vec::new();
        let mut i: usize = 0;
        while i < self.0.len()
            invariant
                i <= self.0@.len(),
                out@.len() == i,
                theta.wf(),
                self.within(MAX_COORD as int),
                forall|j: int| 0 <= j < i ==> #[trigger] out@[j]@
                    == self.0@[j]@.map_values(|p: Seq<int>| apply4(rot_xw(theta), p)),
            decreases self.0@.len() - i,
        {
            out.push(self.0[i].rotate_xw_theta(theta));
            i += 1;
        }
        let r = Shape(out, self.1);
        assert(r@ =~= map_points(self@, |p: Seq<int>| apply4(rot_xw(theta), p)));
        r
    }

    /// Rotates the shape about the xz plane by `theta` (y and w turn), line by line.
    pub fn rotate_xz_theta(self, theta: Angle) -> (r: Shape)
        requires
            theta.wf(),
            self.within(MAX_COORD as int),
        ensures
            r.1 == self.1,
            r@ == map_points(self@, |p: Seq<int>| apply4(rot_xz(theta), p)),
    {
        let mut out: Vec<Line> = Vec::new();
        let mut i: usize = 0;
        while i < self.0.len()
            invariant
                i <= self.0@.len(),
                out@.len() == i,
                theta.wf(),
                self.within(MAX_COORD as int),
                forall|j: int| 0 <= j < i ==> #[trigger] out@[j]@
                    == self.0@[j]@.map_values(|p: Seq<int>| apply4(rot_xz(theta), p)),
            decreases self.0@.len() - i,
        {
            out.push(self.0[i].rotate_xz_theta(theta));
            i += 1;
        }
        let r = Shape(out, self.1);
        assert(r@ =~= map_points(self@, |p: Seq<int>| apply4(rot_xz(theta), p)));
        r
    }

    /// Rotates the shape about the xy plane by `theta` (z and w turn), line by line.
    pub fn rotate_xy_theta(self, theta: Angle) -> (r: Shape)
        requires
            theta.wf(),
            self.within(MAX_COORD as int),
        ensures
            r.1 == self.1,
            r@ == map_points(self@, |p: Seq<int>| apply4(rot_xy(theta), p)),
    {
        let mut out: Vec<Line> = Vec::new();
        let mut i: usize = 0;
        while i < self.0.len()
            invariant
                i <= self.0@.len(),
                out@.len() == i,
                theta.wf(),
                self.within(MAX_COORD as int),
                forall|j: int| 0 <= j < i ==> #[trigger] out@[j]@
                    == self.0@[j]@.map_values(|p: Seq<int>| apply4(rot_xy(theta), p)),
            decreases self.0@.len() - i,
        {
            out.push(self.0[i].rotate_xy_theta(theta));
            i += 1;
        }
        let r = Shape(out, self.1);
        assert(r@ =~= map_points(self@, |p: Seq<int>| apply4(rot_xy(theta), p)));
        r
    }

    /// The 5-cell: four vertices `(±√5, ±√5, ±√5, -1) / 4` with an even
    /// number of minus signs among x, y, z, and `(0, 0, 0, 1)`; every pair of
    /// vertices is joined. Drawn with `*`.
    pub fn fivecell() -> (r: Shape)
        ensures
            r.1 == '*',
            is_quarter_sqrt5(r@[0][0][0]),
            r@ == fivecell_edges(r@[0][0][0]),
            r.within(ONE as int),
    {
        let n: u128 = 5 * (ONE as u128) * (ONE as u128) / 16;
        let root = isqrt(n);
        assert(root < 281474976710656) by (nonlinear_arith)
            requires root as int * root as int <= n, n == 5 * 79228162514264337593543950336int / 16;
        let q = root as i64;
        let (nq, w) = (-q, -(ONE / 4));
        let coords = vec![
            Point([q, q, q, w]),
            Point([q, nq, nq, w]),
            Point([nq, q, nq, w]),
            Point([nq, nq, q, w]),
            Point([0, 0, 0, ONE]),
        ];
        assert(coords@.map_values(|p: Point| p@) =~~= fivecell_vertices(q as int));
        assert(q <= ONE) by (nonlinear_arith)
            requires q * q <= 5 * ONE * ONE / 16, q >= 0;
        assert(forall|j: int| 0 <= j < 5 ==> (#[trigger] coords@[j]).within(ONE as int));
        let pairs = combinations_of_two(coords.len());
        proof {
            lemma_pairs_from_bounds(0, 5);
        }
        let mut lines: Vec<Line> = Vec::new();
        let mut k: usize = 0;
        while k < pairs.len()
            invariant
                k <= pairs@.len(),
                lines@.len() == k,
                pairs@ == index_pairs(5),
                coords@.len() == 5,
                coords@.map_values(|p: Point| p@) == fivecell_vertices(q as int),
                forall|j: int| 0 <= j < 5 ==> (#[trigger] coords@[j]).within(ONE as int),
                forall|j: int| 0 <= j < k ==> (#[trigger] lines@[j]).within(ONE as int),
                forall|j: int| 0 <= j < pairs@.len() ==> (#[trigger] pairs@[j]).0 < pairs@[j].1 < 5,
                forall|j: int| 0 <= j < k ==> #[trigger] lines@[j]@
                    == seq![fivecell_vertices(q as int)[pairs@[j].0 as int], fivecell_vertices(q as int)[pairs@[j].1 as int]],
            decreases pairs@.len() - k,
        {
            let (i, j) = pairs[k];
            let line = Line([coords[i], coords[j]]);
            assert(coords@.map_values(|p: Point| p@)[i as int] == coords@[i as int]@);
            assert(coords@.map_values(|p: Point| p@)[j as int] == coords@[j as int]@);
            lines.push(line);
            k += 1;
        }
        let r = Shape(lines, '*');
        proof {
            assert(q * q <= 5 * ONE * ONE / 16 < (q + 1) * (q + 1));
            assert(r@ =~= fivecell_edges(q as int));
            assert(pairs@[0] == (0usize, 1usize));
            assert(r@[0][0] == fivecell_vertices(q as int)[0]);
        }
        r
    }

    /// The tesseract with corners `(±1, ±1, ±1, ±1)`, drawn with `*`.
    pub fn hypercube() -> (r: Shape)
        ensures
            r.1 == '*',
            r@ == hypercube_edges(),
            r.within(ONE as int),
    {
        let (p, m) = (ONE, -ONE);
        let lines = vec![
            Line([Point([p, p, p, m]), Point([m, p, p, m])]),
            Line([Point([m, p, p, m]), Point([m, m, p, m])]),
            Line([Point([m, m, p, m]), Point([p, m, p, m])]),
            Line([Point([p, m, p, m]), Point([p, p, p, m])]),
            Line([Point([p, p, p, m]), Point([p, p, m, m])]),
            Line([Point([m, p, p, m]), Point([m, p, m, m])]),
            Line([Point([m, m, p, m]), Point([m, m, m, m])]),
            Line([Point([p, m, p, m]), Point([p, m, m, m])]),
            Line([Point([p, p, m, m]), Point([m, p, m, m])]),
            Line([Point([m, p, m, m]), Point([m, m, m, m])]),
            Line([Point([m, m, m, m]), Point([p, m, m, m])]),
            Line([Point([p, m, m, m]), Point([p, p, m, m])]),
            Line([Point([p, p, p, p]), Point([m, p, p, p])]),
            Line([Point([m, p, p, p]), Point([m, m, p, p])]),
            Line([Point([m, m, p, p]), Point([p, m, p, p])]),
            Line([Point([p, m, p, p]), Point([p, p, p, p])]),
            Line([Point([p, p, p, p]), Point([p, p, m, p])]),
            Line([Point([m, p, p, p]), Point([m, p, m, p])]),
            Line([Point([m, m, p, p]), Point([m, m, m, p])]),
            Line([Point([p, m, p, p]), Point([p, m, m, p])]),
            Line([Point([p, p, m, p]), Point([m, p, m, p])]),
            Line([Point([m, p, m, p]), Point([m, m, m, p])]),
            Line([Point([m, m, m, p]), Point([p, m, m, p])]),
            Line([Point([p, m, m, p]), Point([p, p, m, p])]),
            Line([Point([p, p, p, p]), Point([p, p, p, m])]),
            Line([Point([p, p, m, p]), Point([p, p, m, m])]),
            Line([Point([p, m, p, p]), Point([p, m, p, m])]),
            Line([Point([p, m, m, p]), Point([p, m, m, m])]),
            Line([Point([m, p, p, p]), Point([m, p, p, m])]),
            Line([Point([m, p, m, p]), Point([m, p, m, m])]),
            Line([Point([m, m, p, p]), Point([m, m, p, m])]),
            Line([Point([m, m, m, p]), Point([m, m, m, m])]),
        ];
        let r = Shape(lines, '*');
        assert(r@ =~~= hypercube_edges());
        r
    }
}

/// Corner `(x, y, z, w)` of the tesseract ends exactly four edges.
#[verifier::rlimit(100)]
proof fn lemma_hypercube_corner(x: int, y: int, z: int, w: int)
    requires
        is_sign(x),
        is_sign(y),
        is_sign(z),
        is_sign(w),
    ensures
        degree(hypercube_edges(), corner4(x, y, z, w), 32) == 4,
{
    reveal_with_fuel(degree, 33);
}

/// The tesseract has 32 edges, and each of its sixteen corners
/// `(±1, ±1, ±1, ±1)` ends exactly four of them.
pub proof fn lemma_hypercube_edges()
    ensures
        hypercube_edges().len() == 32,
        forall|x: int, y: int, z: int, w: int|
            is_sign(x) && is_sign(y) && is_sign(z) && is_sign(w) ==>
            #[trigger] degree(hypercube_edges(), corner4(x, y, z, w), 32) == 4,
{
    assert forall|x: int, y: int, z: int, w: int|
        is_sign(x) && is_sign(y) && is_sign(z) && is_sign(w) implies
        #[trigger] degree(hypercube_edges(), corner4(x, y, z, w), 32) == 4 by {
        lemma_hypercube_corner(x, y, z, w);
    }
}

/// Squared distance between two points of four dimensions.
pub open spec fn sq_dist4(a: Seq<int>, b: Seq<int>) -> int {
    (a[0] - b[0]) * (a[0] - b[0]) + (a[1] - b[1]) * (a[1] - b[1])
        + (a[2] - b[2]) * (a[2] - b[2]) + (a[3] - b[3]) * (a[3] - b[3])
}

/// The pairs of `index_pairs(5)`, written out.
proof fn lemma_pairs_of_five()
    ensures
        index_pairs(5) == seq![
            (0usize, 1usize), (0usize, 2usize), (0usize, 3usize), (0usize, 4usize), (1usize, 2usize),
            (1usize, 3usize), (1usize, 4usize), (2usize, 3usize), (2usize, 4usize), (3usize, 4usize),
        ],
{
    reveal_with_fuel(pairs_from, 6);
    assert(pairs_from(5, 5) =~= seq![]);
    assert(pairs_from(4, 5) =~= seq![]);
    let s3 = Seq::new(1, |k: int| (3usize, (4 + k) as usize));
    assert(s3[0] == (3usize, 4usize));
    assert(pairs_from(3, 5) =~= seq![(3usize, 4usize)]);
    let s2 = Seq::new(2, |k: int| (2usize, (3 + k) as usize));
    assert(s2[0] == (2usize, 3usize) && s2[1] == (2usize, 4usize));
    assert(pairs_from(2, 5) == s2 + pairs_from(3, 5));
    assert(pairs_from(2, 5) =~= seq![(2usize, 3usize), (2usize, 4usize), (3usize, 4usize)]);
    let s1 = Seq::new(3, |k: int| (1usize, (2 + k) as usize));
    assert(s1[0] == (1usize, 2usize) && s1[1] == (1usize, 3usize) && s1[2] == (1usize, 4usize));
    assert(pairs_from(1, 5) == s1 + pairs_from(2, 5));
    assert(pairs_from(1, 5) =~= seq![
        (1usize, 2usize), (1usize, 3usize), (1usize, 4usize), (2usize, 3usize), (2usize, 4usize), (3usize, 4usize),
    ]);
    let s0 = Seq::new(4, |k: int| (0usize, (1 + k) as usize));
    assert(s0[0] == (0usize, 1usize) && s0[1] == (0usize, 2usize) && s0[2] == (0usize, 3usize)
        && s0[3] == (0usize, 4usize));
    assert(pairs_from(0, 5) == s0 + pairs_from(1, 5));
    assert(index_pairs(5) =~= seq![
        (0usize, 1usize), (0usize, 2usize), (0usize, 3usize), (0usize, 4usize), (1usize, 2usize),
        (1usize, 3usize), (1usize, 4usize), (2usize, 3usize), (2usize, 4usize), (3usize, 4usize),
    ]);
}

/// The five vertices of the 5-cell are distinct.
proof fn lemma_fivecell_distinct(q: int)
    requires
        is_quarter_sqrt5(q),
    ensures
        forall|i: int, j: int| 0 <= i < j < 5 ==> #[trigger] fivecell_vertices(q)[i] != #[trigger] fivecell_vertices(q)[j],
{
    let v = fivecell_vertices(q);
    let o = ONE as int;
    assert(q > 0) by (nonlinear_arith)
        requires 5 * o * o / 16 < (q + 1) * (q + 1), q >= 0, o == 281474976710656int;
    assert forall|i: int, j: int| 0 <= i < j < 5 implies #[trigger] v[i] != #[trigger] v[j] by {
        if i < 4 && j < 4 {
            assert(v[i][0] != v[j][0] || v[i][1] != v[j][1]);
        } else {
            assert(v[i][3] != v[j][3]);
        }
    }
}

/// The ten edges of the 5-cell join every pair of its vertices.
proof fn lemma_fivecell_complete(q: int)
    ensures
        fivecell_edges(q).len() == 10,
        forall|i: int, j: int| #![trigger fivecell_vertices(q)[i], fivecell_vertices(q)[j]]
            0 <= i < j < 5 ==> exists|k: int| 0 <= k < 10
            && #[trigger] fivecell_edges(q)[k] == seq![fivecell_vertices(q)[i], fivecell_vertices(q)[j]],
{
    lemma_pairs_of_five();
    let v = fivecell_vertices(q);
    let es = fivecell_edges(q);
    assert forall|i: int, j: int| #![trigger v[i], v[j]]
        0 <= i < j < 5 implies exists|k: int| 0 <= k < 10 && #[trigger] es[k] == seq![v[i], v[j]] by {
        let k = if i == 0 { j - 1 } else if i == 1 { j + 2 } else if i == 2 { j + 4 } else { 9 };
        assert(es[k] == seq![v[i], v[j]]);
    }
}

/// Each edge of the 5-cell has squared length `8q²` (between two of the
/// first four vertices) or `3q² + 25/16` (to the fifth), and the two agree
/// within `11 ONE` raw units.
proof fn lemma_fivecell_lengths(q: int)
    requires
        is_quarter_sqrt5(q),
    ensures
        near(8 * (q * q), 3 * (q * q) + 25 * ONE * ONE / 16, 11 * ONE),
        forall|k: int| 0 <= k < 10 ==> {
            let d = sq_dist4(#[trigger] fivecell_edges(q)[k][0], fivecell_edges(q)[k][1]);
            d == 8 * (q * q) || d == 3 * (q * q) + 25 * ONE * ONE / 16
        },
{
    lemma_pairs_of_five();
    let es = fivecell_edges(q);
    let o = ONE as int;
    let quarter = ONE / 4;
    assert(quarter * 4 == o);
    assert(q <= o) by (nonlinear_arith)
        requires q * q <= 5 * o * o / 16, q >= 0, o > 0;
    let near_len = 8 * (q * q);
    let far_len = 3 * (q * q) + 25 * o * o / 16;
    assert((2 * q) * (2 * q) == 4 * (q * q) && (-2 * q) * (-2 * q) == 4 * (q * q)) by (nonlinear_arith);
    assert((-q) * (-q) == q * q) by (nonlinear_arith);
    assert((q - (-q)) * (q - (-q)) == 4 * (q * q) && ((-q) - q) * ((-q) - q) == 4 * (q * q)) by (nonlinear_arith);
    assert((q - q) * (q - q) == 0 && ((-q) - (-q)) * ((-q) - (-q)) == 0) by (nonlinear_arith);
    assert((-quarter - (-quarter)) * (-quarter - (-quarter)) == 0) by (nonlinear_arith);
    assert((-quarter - o) * (-quarter - o) == 25 * o * o / 16) by (nonlinear_arith)
        requires quarter * 4 == o, o == 281474976710656int;
    assert(near(near_len, far_len, 11 * o)) by (nonlinear_arith)
        requires
            q * q <= 5 * o * o / 16 < (q + 1) * (q + 1),
            0 <= q <= o,
            o == 281474976710656int,
            near_len == 8 * (q * q),
            far_len == 3 * (q * q) + 25 * o * o / 16,
    ;
    assert forall|k: int| 0 <= k < 10 implies {
        let d = sq_dist4(#[trigger] es[k][0], es[k][1]);
        d == near_len || d == far_len
    } by {
        if k == 3 || k == 6 || k == 8 || k == 9 {
            assert(sq_dist4(es[k][0], es[k][1]) == far_len);
        } else {
            assert(sq_dist4(es[k][0], es[k][1]) == near_len);
        }
    }
}

/// The 5-cell is the complete graph on its five distinct vertices: ten
/// edges, one joining each pair; and its edges have equal length, their
/// squares agreeing within `11 ONE` raw units (the rounding of `√5 / 4`).
pub proof fn lemma_fivecell_edges(q: int)
    requires
        is_quarter_sqrt5(q),
    ensures
        fivecell_edges(q).len() == 10,
        forall|i: int, j: int| 0 <= i < j < 5 ==> #[trigger] fivecell_vertices(q)[i] != #[trigger] fivecell_vertices(q)[j],
        forall|i: int, j: int| #![trigger fivecell_vertices(q)[i], fivecell_vertices(q)[j]]
            0 <= i < j < 5 ==> exists|k: int| 0 <= k < 10
            && #[trigger] fivecell_edges(q)[k] == seq![fivecell_vertices(q)[i], fivecell_vertices(q)[j]],
        forall|k: int, m: int| 0 <= k < 10 && 0 <= m < 10 ==> near(
            sq_dist4(#[trigger] fivecell_edges(q)[k][0], fivecell_edges(q)[k][1]),
            sq_dist4(#[trigger] fivecell_edges(q)[m][0], fivecell_edges(q)[m][1]),
            11 * ONE,
        ),
{
    lemma_fivecell_distinct(q);
    lemma_fivecell_complete(q);
    lemma_fivecell_lengths(q);
}

/// Scaling a shape by `s` and then by `t`, the fixed-point reciprocal of
/// `s`, gives the shape back up to rounding: each coordinate `x` moves by at
/// most `(|x| |s| + ONE |t| + ONE²) / ONE²` raw units.
pub proof fn lemma_scale_round_trip4(shape: Shape, s: i64, t: i64)
    requires
        s != 0,
        s * t <= ONE * ONE < s * t + abs(s as int),
    ensures
        forall|i: int, k: int, j: int| 0 <= i < shape@.len() && 0 <= k < 2 && 0 <= j < 4 ==> abs(
            #[trigger] scaled4(scaled4(shape@, s as int), t as int)[i][k][j] - shape@[i][k][j],
        ) * (ONE * ONE) <= abs(shape@[i][k][j]) * abs(s as int) + ONE * abs(t as int) + ONE * ONE,
{
    assert forall|i: int, k: int, j: int| 0 <= i < shape@.len() && 0 <= k < 2 && 0 <= j < 4 implies abs(
        #[trigger] scaled4(scaled4(shape@, s as int), t as int)[i][k][j] - shape@[i][k][j],
    ) * (ONE * ONE) <= abs(shape@[i][k][j]) * abs(s as int) + ONE * abs(t as int) + ONE * ONE by {
        let x = shape@[i][k][j];
        lemma_scale_back(x, s as int, t as int);
        assert(shape@[i].len() == 2);
        assert(shape@[i][k].len() == 4);
        let once = scaled4(shape@, s as int);
        assert(once[i][k] == scale4(shape@[i][k], s as int));
        assert(once[i][k][j] == floor_div(x * s, ONE as int));
    }
}

} // verus!
