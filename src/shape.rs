//! Wireframes in three dimensions.
use vstd::prelude::*;
use crate::fixed::{floor_div, lemma_floor_div, lemma_mul_bound, abs, Angle, ONE, MAX_COORD, MAX_ENTRY};
use crate::line::Line;
use crate::matrix::{apply3, rot_x, rot_y, rot_z};
use crate::point::{scale3, Point};

pub mod fourd;

verus! {

/// The corner `(x, y, z)` of the cube, each of `x, y, z` being `1` or `-1`.
pub open spec fn corner3(x: int, y: int, z: int) -> Seq<int> {
    seq![x * ONE, y * ONE, z * ONE]
}

/// The twelve edges of the cube with corners `(±1, ±1, ±1)`: the square at
/// `z = 1`, the four edges down to `z = -1`, and the square at `z = -1`.
pub open spec fn cube_edges() -> Seq<Seq<Seq<int>>> {
    seq![
        seq![corner3(1, 1, 1), corner3(-1, 1, 1)],
        seq![corner3(-1, 1, 1), corner3(-1, -1, 1)],
        seq![corner3(-1, -1, 1), corner3(1, -1, 1)],
        seq![corner3(1, -1, 1), corner3(1, 1, 1)],
        seq![corner3(1, 1, 1), corner3(1, 1, -1)],
        seq![corner3(-1, 1, 1), corner3(-1, 1, -1)],
        seq![corner3(-1, -1, 1), corner3(-1, -1, -1)],
        seq![corner3(1, -1, 1), corner3(1, -1, -1)],
        seq![corner3(1, 1, -1), corner3(-1, 1, -1)],
        seq![corner3(-1, 1, -1), corner3(-1, -1, -1)],
        seq![corner3(-1, -1, -1), corner3(1, -1, -1)],
        seq![corner3(1, -1, -1), corner3(1, 1, -1)],
    ]
}

/// Every point of every line of `s` mapped by `f`.
pub open spec fn map_points(s: Seq<Seq<Seq<int>>>, f: spec_fn(Seq<int>) -> Seq<int>) -> Seq<Seq<Seq<int>>> {
    s.map_values(|l: Seq<Seq<int>>| l.map_values(f))
}

/// Every point of every line of `s` times the fixed-point scalar `k`.
pub open spec fn scaled3(s: Seq<Seq<Seq<int>>>, k: int) -> Seq<Seq<Seq<int>>> {
    map_points(s, |p: Seq<int>| scale3(p, k))
}

/// A wireframe: its lines, and the character it is drawn with.
#[derive(Debug, Default, Clone)]
pub struct Shape(pub Vec<Line>, pub char);

impl View for Shape {
    type V = Seq<Seq<Seq<int>>>;

    open spec fn view(&self) -> Seq<Seq<Seq<int>>> {
        self.0@.map_values(|l: Line| l@)
    }
}

impl Shape {
    /// Every line has coordinates of magnitude at most `b`.
    pub open spec fn within(self, b: int) -> bool {
        forall|i: int| 0 <= i < self.0@.len() ==> (#[trigger] self.0@[i]).within(b)
    }

    /// Every line times the fixed-point scalar `k`.
    pub fn scale(self, k: i64) -> (r: Shape)
        requires
            self.within(MAX_COORD as int),
            abs(k as int) <= MAX_ENTRY,
        ensures
            r.1 == self.1,
            r@ == scaled3(self@, k as int),
    {
        let mut out: Vec<Line> = Vec::new();
        let mut i: usize = 0;
        while i < self.0.len()
            invariant
                i <= self.0@.len(),
                out@.len() == i,
                self.within(MAX_COORD as int),
                abs(k as int) <= MAX_ENTRY,
                forall|j: int| 0 <= j < i ==> #[trigger] out@[j]@
                    == self.0@[j]@.map_values(|p: Seq<int>| scale3(p, k as int)),
            decreases self.0@.len() - i,
        {
            out.push(self.0[i].scale(k));
            i += 1;
        }
        let r = Shape(out, self.1);
        assert(r@ =~= scaled3(self@, k as int));
        r
    }

    /// Rotates the shape about the x axis by `theta`, line by line.
    pub fn rotate_x_theta(self, theta: Angle) -> (r: Shape)
        requires
            theta.wf(),
            self.within(MAX_COORD as int),
        ensures
            r.1 == self.1,
            r@ == map_points(self@, |p: Seq<int>| apply3(rot_x(theta), p)),
    {
        let mut out: Vec<Line> = Vec::new();
        let mut i: usize = 0;
        while i < self.0.len()
            invariant
                i <= self.0@.len(),
                out@.len() == i,
                theta.wf(),
                self.within(MAX_COORD as int),
                forall|j: int| 0 <= j < i ==> #[trigger] out@[j]@
                    == self.0@[j]@.map_values(|p: Seq<int>| apply3(rot_x(theta), p)),
            decreases self.0@.len() - i,
        {
            out.push(self.0[i].rotate_x_theta(theta));
            i += 1;
        }
        let r = Shape(out, self.1);
        assert(r@ =~= map_points(self@, |p: Seq<int>| apply3(rot_x(theta), p)));
        r
    }

    /// Rotates the shape about the y axis by `theta`, line by line.
    pub fn rotate_y_theta(self, theta: Angle) -> (r: Shape)
        requires
            theta.wf(),
            self.within(MAX_COORD as int),
        ensures
            r.1 == self.1,
            r@ == map_points(self@, |p: Seq<int>| apply3(rot_y(theta), p)),
    {
        let mut out: Vec<Line> = Vec::new();
        let mut i: usize = 0;
        while i < self.0.len()
            invariant
                i <= self.0@.len(),
                out@.len() == i,
                theta.wf(),
                self.within(MAX_COORD as int),
                forall|j: int| 0 <= j < i ==> #[trigger] out@[j]@
                    == self.0@[j]@.map_values(|p: Seq<int>| apply3(rot_y(theta), p)),
            decreases self.0@.len() - i,
        {
            out.push(self.0[i].rotate_y_theta(theta));
            i += 1;
        }
        let r = Shape(out, self.1);
        assert(r@ =~= map_points(self@, |p: Seq<int>| apply3(rot_y(theta), p)));
        r
    }

    /// Rotates the shape about the z axis by `theta`, line by line.
    pub fn rotate_z_theta(self, theta: Angle) -> (r: Shape)
        requires
            theta.wf(),
            self.within(MAX_COORD as int),
        ensures
            r.1 == self.1,
            r@ == map_points(self@, |p: Seq<int>| apply3(rot_z(theta), p)),
    {
        let mut out: Vec<Line> = Vec::new();
        let mut i: usize = 0;
        while i < self.0.len()
            invariant
                i <= self.0@.len(),
                out@.len() == i,
                theta.wf(),
                self.within(MAX_COORD as int),
                forall|j: int| 0 <= j < i ==> #[trigger] out@[j]@
                    == self.0@[j]@.map_values(|p: Seq<int>| apply3(rot_z(theta), p)),
            decreases self.0@.len() - i,
        {
            out.push(self.0[i].rotate_z_theta(theta));
            i += 1;
        }
        let r = Shape(out, self.1);
        assert(r@ =~= map_points(self@, |p: Seq<int>| apply3(rot_z(theta), p)));
        r
    }

    /// The cube with corners `(±1, ±1, ±1)`, drawn with `*`.
    pub fn cube() -> (r: Shape)
        ensures
            r.1 == '*',
            r@ == cube_edges(),
            r.within(ONE as int),
    {
        let (p, m) = (ONE, -ONE);
        let lines = vec![
            Line([Point([p, p, p]), Point([m, p, p])]),
            Line([Point([m, p, p]), Point([m, m, p])]),
            Line([Point([m, m, p]), Point([p, m, p])]),
            Line([Point([p, m, p]), Point([p, p, p])]),
            Line([Point([p, p, p]), Point([p, p, m])]),
            Line([Point([m, p, p]), Point([m, p, m])]),
            Line([Point([m, m, p]), Point([m, m, m])]),
            Line([Point([p, m, p]), Point([p, m, m])]),
            Line([Point([p, p, m]), Point([m, p, m])]),
            Line([Point([m, p, m]), Point([m, m, m])]),
            Line([Point([m, m, m]), Point([p, m, m])]),
            Line([Point([p, m, m]), Point([p, p, m])]),
        ];
        let r = Shape(lines, '*');
        assert(r@ =~~= cube_edges());
        r
    }
}

/// Squared distance between two points of three dimensions.
pub open spec fn sq_dist3(a: Seq<int>, b: Seq<int>) -> int {
    (a[0] - b[0]) * (a[0] - b[0]) + (a[1] - b[1]) * (a[1] - b[1]) + (a[2] - b[2]) * (a[2] - b[2])
}

/// How many of the first `n` edges of `es` have `v` as an end.
pub open spec fn degree(es: Seq<Seq<Seq<int>>>, v: Seq<int>, n: nat) -> nat
    decreases n,
{
    if n == 0 {
        0
    } else {
        degree(es, v, (n - 1) as nat) + if es[n - 1][0] == v || es[n - 1][1] == v { 1nat } else { 0nat }
    }
}

/// `x` is `1` or `-1`.
pub open spec fn is_sign(x: int) -> bool {
    x == 1 || x == -1
}

/// Edges `a` and `b` join the same two points, in either order.
pub open spec fn same_edge(a: Seq<Seq<int>>, b: Seq<Seq<int>>) -> bool {
    (a[0] == b[0] && a[1] == b[1]) || (a[0] == b[1] && a[1] == b[0])
}

/// Two different edges of the cube join different pairs of corners.
#[verifier::rlimit(100)]
proof fn lemma_cube_edges_distinct(i: int, j: int)
    requires
        0 <= i < j < 12,
    ensures
        !same_edge(cube_edges()[i], cube_edges()[j]),
{
    let es = cube_edges();
    assert(es[i][0] != es[i][1]);
    if es[i][0] == es[j][0] || es[i][0] == es[j][1] {
        assert(es[i][1] != es[j][1] && es[i][1] != es[j][0]);
    }
}

/// The cube has twelve edges, each of length two, between corners
/// `(±1, ±1, ±1)`; each of the eight corners ends exactly three edges, and
/// no two edges join the same pair of corners.
pub proof fn lemma_cube_edges()
    ensures
        cube_edges().len() == 12,
        forall|i: int, k: int, j: int| 0 <= i < 12 && 0 <= k < 2 && 0 <= j < 3 ==>
            abs(#[trigger] cube_edges()[i][k][j]) == ONE,
        forall|i: int| 0 <= i < 12 ==>
            sq_dist3(#[trigger] cube_edges()[i][0], cube_edges()[i][1]) == 4 * ONE * ONE,
        forall|x: int, y: int, z: int| is_sign(x) && is_sign(y) && is_sign(z) ==>
            #[trigger] degree(cube_edges(), corner3(x, y, z), 12) == 3,
        forall|i: int, j: int| 0 <= i < j < 12 ==> !same_edge(#[trigger] cube_edges()[i], #[trigger] cube_edges()[j]),
{
    assert forall|i: int, j: int| 0 <= i < j < 12 implies
        !same_edge(#[trigger] cube_edges()[i], #[trigger] cube_edges()[j]) by {
        lemma_cube_edges_distinct(i, j);
    }
    let es = cube_edges();
    assert forall|i: int, k: int, j: int| 0 <= i < 12 && 0 <= k < 2 && 0 <= j < 3 implies
        abs(#[trigger] cube_edges()[i][k][j]) == ONE by {
            if i == 0 {
            } else if i == 1 {
            } else if i == 2 {
            } else if i == 3 {
            } else if i == 4 {
            } else if i == 5 {
            } else if i == 6 {
            } else if i == 7 {
            } else if i == 8 {
            } else if i == 9 {
            } else if i == 10 {
            } else if i == 11 {
            }
    }
    let o = ONE as int;
    assert(1 * o - (-1) * o == 2 * o && (-1) * o - 1 * o == -2 * o && 1 * o - 1 * o == 0 && (-1) * o - (-1) * o == 0);
    assert((2 * o) * (2 * o) == 4 * o * o && (-2 * o) * (-2 * o) == 4 * o * o) by (nonlinear_arith);
    assert forall|i: int| 0 <= i < 12 implies
        sq_dist3(#[trigger] cube_edges()[i][0], cube_edges()[i][1]) == 4 * ONE * ONE by {
            if i == 0 {
            } else if i == 1 {
            } else if i == 2 {
            } else if i == 3 {
            } else if i == 4 {
            } else if i == 5 {
            } else if i == 6 {
            } else if i == 7 {
            } else if i == 8 {
            } else if i == 9 {
            } else if i == 10 {
            } else if i == 11 {
            }
    }
    reveal_with_fuel(degree, 13);
    assert forall|x: int, y: int, z: int| is_sign(x) && is_sign(y) && is_sign(z) implies
        #[trigger] degree(cube_edges(), corner3(x, y, z), 12) == 3 by {
        if x == 1 && y == 1 && z == 1 {
        } else if x == 1 && y == 1 && z == -1 {
        } else if x == 1 && y == -1 && z == 1 {
        } else if x == 1 && y == -1 && z == -1 {
        } else if x == -1 && y == 1 && z == 1 {
        } else if x == -1 && y == 1 && z == -1 {
        } else if x == -1 && y == -1 && z == 1 {
        } else {
        }
    }
}

/// Scaling by `s` and then by `t`, its fixed-point reciprocal, moves `x` by
/// at most `(|x| |s| + ONE |t| + ONE²) / ONE²` raw units.
pub proof fn lemma_scale_back(x: int, s: int, t: int)
    requires
        s != 0,
        s * t <= ONE * ONE < s * t + abs(s),
    ensures
        abs(floor_div(floor_div(x * s, ONE as int) * t, ONE as int) - x) * (ONE * ONE)
            <= abs(x) * abs(s) + ONE * abs(t) + ONE * ONE,
{
    let o = ONE as int;
    let x1 = floor_div(x * s, o);
    let q = floor_div(x1 * t, o);
    lemma_floor_div(x * s, o);
    lemma_floor_div(x1 * t, o);
    let r1 = x * s - o * x1;
    let r2 = x1 * t - o * q;
    let e = o * o - s * t;
    assert(o * (o * q) == (x * s - r1) * t - o * r2) by (nonlinear_arith)
        requires r1 == x * s - o * x1, r2 == x1 * t - o * q;
    assert((x * s - r1) * t == x * (o * o - e) - r1 * t) by (nonlinear_arith)
        requires e == o * o - s * t;
    assert(o * o * (q - x) == -(x * e) - r1 * t - o * r2) by (nonlinear_arith)
        requires o * (o * q) == x * (o * o - e) - r1 * t - o * r2;
    lemma_mul_bound(x, e, abs(x), abs(s));
    lemma_mul_bound(r1, t, o, abs(t));
    lemma_mul_bound(o, r2, o, o);
    assert(abs(q - x) * (o * o) <= abs(x) * abs(s) + o * abs(t) + o * o) by (nonlinear_arith)
        requires
            o * o * (q - x) == -(x * e) - r1 * t - o * r2,
            abs(x * e) <= abs(x) * abs(s),
            abs(r1 * t) <= o * abs(t),
            abs(o * r2) <= o * o,
            o > 0,
    ;
}

/// Scaling a shape by `s` and then by `t`, the fixed-point reciprocal of
/// `s`, gives the shape back up to rounding: each coordinate `x` moves by at
/// most `(|x| |s| + ONE |t| + ONE²) / ONE²` raw units.
pub proof fn lemma_scale_round_trip(shape: Shape, s: i64, t: i64)
    requires
        s != 0,
        s * t <= ONE * ONE < s * t + abs(s as int),
    ensures
        forall|i: int, k: int, j: int| 0 <= i < shape@.len() && 0 <= k < 2 && 0 <= j < 3 ==> abs(
            #[trigger] scaled3(scaled3(shape@, s as int), t as int)[i][k][j] - shape@[i][k][j],
        ) * (ONE * ONE) <= abs(shape@[i][k][j]) * abs(s as int) + ONE * abs(t as int) + ONE * ONE,
{
    assert forall|i: int, k: int, j: int| 0 <= i < shape@.len() && 0 <= k < 2 && 0 <= j < 3 implies abs(
        #[trigger] scaled3(scaled3(shape@, s as int), t as int)[i][k][j] - shape@[i][k][j],
    ) * (ONE * ONE) <= abs(shape@[i][k][j]) * abs(s as int) + ONE * abs(t as int) + ONE * ONE by {
        let x = shape@[i][k][j];
        lemma_scale_back(x, s as int, t as int);
        assert(shape@[i].len() == 2);
        assert(shape@[i][k].len() == 3);
        let once = scaled3(shape@, s as int);
        assert(once[i][k] == scale3(shape@[i][k], s as int));
        assert(once[i][k][j] == floor_div(x * s, ONE as int));
    }
}

} // verus!
