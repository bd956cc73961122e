//! Line segments in three dimensions.
use vstd::prelude::*;
use crate::fixed::{abs, floor_div, div_floor, lemma_floor_div, Angle, MAX_COORD, MAX_ENTRY};
use crate::matrix::{apply3, rot_x, rot_y, rot_z};
use crate::point::{scale3, Point};

pub mod fourd;

verus! {

/// A line is sampled at `STEPS + 1` evenly spaced points, both ends included.
pub const STEPS: i64 = 78;

/// Coordinate `k` steps of `STEPS` along from `a` to `b`, rounded towards `b`
/// by flooring the offset: `a - ⌊k (a - b) / STEPS⌋`.
pub open spec fn sample_coord(a: int, b: int, k: int) -> int {
    a - floor_div(k * (a - b), STEPS as int)
}

/// Sample `k` of the segment from `a` to `b`, in any dimension.
pub open spec fn sample(a: Seq<int>, b: Seq<int>, k: int) -> Seq<int> {
    Seq::new(a.len(), |i: int| sample_coord(a[i], b[i], k))
}

/// A sample lies between the two ends.
pub proof fn lemma_sample_between(a: int, b: int, k: int)
    requires
        0 <= k <= STEPS,
    ensures
        a <= b ==> a <= sample_coord(a, b, k) <= b,
        b <= a ==> b <= sample_coord(a, b, k) <= a,
{
    let d = a - b;
    let q = floor_div(k * d, STEPS as int);
    lemma_floor_div(k * d, STEPS as int);
    if d >= 0 {
        assert(0 <= k * d <= STEPS * d) by (nonlinear_arith)
            requires 0 <= k <= STEPS, d >= 0;
        assert(0 <= q <= d) by (nonlinear_arith)
            requires 0 <= k * d <= STEPS * d, STEPS * q <= k * d < STEPS * q + STEPS;
    } else {
        assert(STEPS * d <= k * d <= 0) by (nonlinear_arith)
            requires 0 <= k <= STEPS, d < 0;
        assert(d <= q <= 0) by (nonlinear_arith)
            requires STEPS * d <= k * d <= 0, STEPS * q <= k * d < STEPS * q + STEPS;
    }
}

/// `a - ⌊k (a - b) / STEPS⌋`, computed exactly.
pub fn sample_between(a: i64, b: i64, k: i64) -> (r: i64)
    requires
        0 <= k <= STEPS,
    ensures
        r == sample_coord(a as int, b as int, k as int),
{
    proof {
        lemma_sample_between(a as int, b as int, k as int);
    }
    assert(abs(k * (a - b)) <= STEPS * 0x1_0000_0000_0000_0000) by (nonlinear_arith)
        requires 0 <= k <= STEPS, -0x1_0000_0000_0000_0000 <= a - b <= 0x1_0000_0000_0000_0000;
    let off = div_floor(k as i128 * (a as i128 - b as i128), STEPS as i128);
    (a as i128 - off) as i64
}

/// A segment from `self.0[0]` to `self.0[1]`.
#[derive(Debug, Default, Clone, Copy, PartialEq, Eq)]
pub struct Line(pub [Point; 2]);

impl View for Line {
    type V = Seq<Seq<int>>;

    open spec fn view(&self) -> Seq<Seq<int>> {
        seq![self.0[0]@, self.0[1]@]
    }
}

impl Line {
    /// Both ends have coordinates of magnitude at most `b`.
    pub open spec fn within(self, b: int) -> bool {
        self.0[0].within(b) && self.0[1].within(b)
    }

    /// Both ends times the fixed-point scalar `k`.
    pub fn scale(self, k: i64) -> (r: Line)
        requires
            self.within(MAX_COORD as int),
            abs(k as int) <= MAX_ENTRY,
        ensures
            r@ == self@.map_values(|p: Seq<int>| scale3(p, k as int)),
    {
        let r = Line([self.0[0].scale(k), self.0[1].scale(k)]);
        assert(r@ =~= self@.map_values(|p: Seq<int>| scale3(p, k as int)));
        r
    }

    /// Rotates the line about the x axis by `theta`, end by end.
    pub fn rotate_x_theta(self, theta: Angle) -> (r: Line)
        requires
            theta.wf(),
            self.within(MAX_COORD as int),
        ensures
            r@ == self@.map_values(|p: Seq<int>| apply3(rot_x(theta), p)),
    {
        let r = Line([self.0[0].rotate_x_theta(theta), self.0[1].rotate_x_theta(theta)]);
        assert(r@ =~= self@.map_values(|p: Seq<int>| apply3(rot_x(theta), p)));
        r
    }

    /// Rotates the line about the y axis by `theta`, end by end.
    pub fn rotate_y_theta(self, theta: Angle) -> (r: Line)
        requires
            theta.wf(),
            self.within(MAX_COORD as int),
        ensures
            r@ == self@.map_values(|p: Seq<int>| apply3(rot_y(theta), p)),
    {
        let r = Line([self.0[0].rotate_y_theta(theta), self.0[1].rotate_y_theta(theta)]);
        assert(r@ =~= self@.map_values(|p: Seq<int>| apply3(rot_y(theta), p)));
        r
    }

    /// Rotates the line about the z axis by `theta`, end by end.
    pub fn rotate_z_theta(self, theta: Angle) -> (r: Line)
        requires
            theta.wf(),
            self.within(MAX_COORD as int),
        ensures
            r@ == self@.map_values(|p: Seq<int>| apply3(rot_z(theta), p)),
    {
        let r = Line([self.0[0].rotate_z_theta(theta), self.0[1].rotate_z_theta(theta)]);
        assert(r@ =~= self@.map_values(|p: Seq<int>| apply3(rot_z(theta), p)));
        r
    }

    /// The `STEPS + 1` evenly spaced samples from the first end to the second.
    pub fn find_78_points_in_between(&self) -> (r: Vec<Point>)
        ensures
            r@.len() == STEPS + 1,
            forall|k: int| 0 <= k <= STEPS ==> #[trigger] r@[k]@ == sample(self@[0], self@[1], k),
    {
        let (a, b) = (self.0[0], self.0[1]);
        let mut out: Vec<Point> = Vec::new();
        let mut k: i64 = 0;
        while k <= STEPS
            invariant
                0 <= k <= STEPS + 1,
                out@.len() == k,
                a == self.0[0],
                b == self.0[1],
                forall|j: int| 0 <= j < k ==> #[trigger] out@[j]@ == sample(self@[0], self@[1], j),
            decreases STEPS + 1 - k,
        {
            let p = Point([
                sample_between(a.0[0], b.0[0], k),
                sample_between(a.0[1], b.0[1], k),
                sample_between(a.0[2], b.0[2], k),
            ]);
            assert(p@ =~= sample(self@[0], self@[1], k as int));
            out.push(p);
            k += 1;
        }
        out
    }
}

} // verus!
