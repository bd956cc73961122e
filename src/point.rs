//! Points in three dimensions.
use vstd::prelude::*;
use crate::fixed::{abs, floor_div, div_floor, isqrt, lemma_mul_bound, Angle, ONE, MAX_COORD, MAX_ENTRY};
use crate::matrix::{apply3, rot_x, rot_y, rot_z, scale_entry, Matrix3x3};

pub mod fourd;

verus! {

/// Entrywise sum of two vectors of length three.
pub open spec fn add3(a: Seq<int>, b: Seq<int>) -> Seq<int> {
    seq![a[0] + b[0], a[1] + b[1], a[2] + b[2]]
}

/// Each entry of `v` times the fixed-point scalar `k`, rounded down.
pub open spec fn scale3(v: Seq<int>, k: int) -> Seq<int> {
    seq![
        floor_div(v[0] * k, ONE as int),
        floor_div(v[1] * k, ONE as int),
        floor_div(v[2] * k, ONE as int),
    ]
}

/// `x² + y² + z²` of raw coordinates: the squared length times `ONE²`.
pub open spec fn sq_len3(v: Seq<int>) -> int {
    v[0] * v[0] + v[1] * v[1] + v[2] * v[2]
}

/// Perspective onto the x–z plane with y as depth: `(2x / (4 + y), 2z / (4 + y))`.
pub open spec fn screen_xy(v: Seq<int>) -> (int, int) {
    (
        floor_div(2 * v[0] * ONE, 4 * ONE + v[1]),
        floor_div(2 * v[2] * ONE, 4 * ONE + v[1]),
    )
}

/// A coordinate's square fits comfortably in an `i128`.
pub(crate) proof fn lemma_square_bound(x: int)
    requires
        abs(x) <= MAX_COORD,
    ensures
        0 <= x * x <= 5192296858534827628530496329220096int,
{
    lemma_mul_bound(x, x, MAX_COORD as int, MAX_COORD as int);
    assert(x * x >= 0) by (nonlinear_arith);
    assert(MAX_COORD as int * MAX_COORD as int == 5192296858534827628530496329220096int);
}

/// A point `(x, y, z)` in fixed point.
#[derive(Debug, Default, Clone, Copy, PartialEq, Eq)]
pub struct Point(pub [i64; 3]);

impl View for Point {
    type V = Seq<int>;

    open spec fn view(&self) -> Seq<int> {
        seq![self.0[0] as int, self.0[1] as int, self.0[2] as int]
    }
}

impl Point {
    /// Every coordinate has magnitude at most `b`.
    pub open spec fn within(self, b: int) -> bool {
        &&& abs(self.0[0] as int) <= b
        &&& abs(self.0[1] as int) <= b
        &&& abs(self.0[2] as int) <= b
    }

    /// Whether every coordinate has magnitude at most `b`.
    pub fn is_within(&self, b: i64) -> (r: bool)
        requires
            b >= 0,
        ensures
            r == self.within(b as int),
    {
        -b <= self.0[0] && self.0[0] <= b && -b <= self.0[1] && self.0[1] <= b && -b <= self.0[2] && self.0[2] <= b
    }

    /// The entrywise sum `self + rhs`.
    pub fn add(self, rhs: Point) -> (r: Point)
        requires
            forall|i: int| 0 <= i < 3 ==> i64::MIN <= #[trigger] self@[i] + rhs@[i] <= i64::MAX,
        ensures
            r@ == add3(self@, rhs@),
    {
        proof {
            assert(i64::MIN <= self@[0] + rhs@[0] <= i64::MAX);
            assert(i64::MIN <= self@[1] + rhs@[1] <= i64::MAX);
            assert(i64::MIN <= self@[2] + rhs@[2] <= i64::MAX);
        }
        let r = Point([self.0[0] + rhs.0[0], self.0[1] + rhs.0[1], self.0[2] + rhs.0[2]]);
        assert(r@ =~= add3(self@, rhs@));
        r
    }

    /// The entrywise fixed-point product, each entry rounded down.
    pub fn mul(self, rhs: Point) -> (r: Point)
        requires
            self.within(MAX_COORD as int),
            rhs.within(MAX_ENTRY as int),
        ensures
            r@ == seq![
                floor_div(self@[0] * rhs@[0], ONE as int),
                floor_div(self@[1] * rhs@[1], ONE as int),
                floor_div(self@[2] * rhs@[2], ONE as int),
            ],
    {
        let r = Point([
            scale_entry(self.0[0], rhs.0[0]),
            scale_entry(self.0[1], rhs.0[1]),
            scale_entry(self.0[2], rhs.0[2]),
        ]);
        assert(r@ =~= seq![
            floor_div(self@[0] * rhs@[0], ONE as int),
            floor_div(self@[1] * rhs@[1], ONE as int),
            floor_div(self@[2] * rhs@[2], ONE as int),
        ]);
        r
    }

    /// The point times the fixed-point scalar `k`.
    pub fn scale(self, k: i64) -> (r: Point)
        requires
            self.within(MAX_COORD as int),
            abs(k as int) <= MAX_ENTRY,
        ensures
            r@ == scale3(self@, k as int),
    {
        let r = Point([scale_entry(self.0[0], k), scale_entry(self.0[1], k), scale_entry(self.0[2], k)]);
        assert(r@ =~= scale3(self@, k as int));
        r
    }

    /// `|x| + |y| + |z|`.
    pub fn l1_norm(&self) -> (r: i64)
        requires
            self.within(MAX_COORD as int),
        ensures
            r == abs(self@[0]) + abs(self@[1]) + abs(self@[2]),
    {
        let a = if self.0[0] < 0 { -self.0[0] } else { self.0[0] };
        let b = if self.0[1] < 0 { -self.0[1] } else { self.0[1] };
        let c = if self.0[2] < 0 { -self.0[2] } else { self.0[2] };
        a + b + c
    }

    /// The Euclidean length, rounded down.
    pub fn l2_norm(&self) -> (r: i64)
        requires
            self.within(MAX_COORD as int),
        ensures
            r >= 0,
            r * r <= sq_len3(self@) < (r + 1) * (r + 1),
    {
        let (x, y, z) = (self.0[0], self.0[1], self.0[2]);
        proof {
            lemma_square_bound(x as int);
            lemma_square_bound(y as int);
            lemma_square_bound(z as int);
        }
        let sq = x as i128 * x as i128 + y as i128 * y as i128 + z as i128 * z as i128;
        assert(0 <= sq <= 3 * 5192296858534827628530496329220096int);
        let sum = sq as u128;
        assert(sum as int == sq as int);
        let r = isqrt(sum);
        proof {
            assert(r < 144115188075855872) by (nonlinear_arith)
                requires r as int * r as int <= 3 * 5192296858534827628530496329220096int, r >= 0;
        }
        r as i64
    }

    /// Rotates the point about the x axis by `theta`.
    pub fn rotate_x_theta(self, theta: Angle) -> (r: Point)
        requires
            theta.wf(),
            self.within(MAX_COORD as int),
        ensures
            r@ == apply3(rot_x(theta), self@),
    {
        Matrix3x3::rotate_x_theta(theta).mul_point(&self)
    }

    /// Rotates the point about the y axis by `theta`.
    pub fn rotate_y_theta(self, theta: Angle) -> (r: Point)
        requires
            theta.wf(),
            self.within(MAX_COORD as int),
        ensures
            r@ == apply3(rot_y(theta), self@),
    {
        Matrix3x3::rotate_y_theta(theta).mul_point(&self)
    }

    /// Rotates the point about the z axis by `theta`.
    pub fn rotate_z_theta(self, theta: Angle) -> (r: Point)
        requires
            theta.wf(),
            self.within(MAX_COORD as int),
        ensures
            r@ == apply3(rot_z(theta), self@),
    {
        Matrix3x3::rotate_z_theta(theta).mul_point(&self)
    }

    /// Perspective projection onto the screen plane, `(2x / (4 + y), 2z / (4 + y))`;
    /// the point must lie in front of the eye, `y > -4`.
    pub fn to_screen_xy(&self) -> (r: (i128, i128))
        requires
            4 * ONE + self@[1] > 0,
        ensures
            r.0 == screen_xy(self@).0,
            r.1 == screen_xy(self@).1,
    {
        let depth = 4 * ONE as i128 + self.0[1] as i128;
        (
            div_floor(2 * self.0[0] as i128 * ONE as i128, depth),
            div_floor(2 * self.0[2] as i128 * ONE as i128, depth),
        )
    }
}

} // verus!
