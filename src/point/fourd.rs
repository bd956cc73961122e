//! Points in four dimensions.
use vstd::prelude::*;
use crate::fixed::{abs, floor_div, div_floor, isqrt, lemma_mul_bound, Angle, ONE, MAX_COORD, MAX_ENTRY};
use crate::matrix::scale_entry;
use crate::matrix::fourd::{apply4, Matrix4x4, rot_zw, rot_yw, rot_yz, rot_xw, rot_xz, rot_xy};
use crate::point::lemma_square_bound;

verus! {

/// Each entry of `v` times the fixed-point scalar `k`, rounded down.
pub open spec fn scale4(v: Seq<int>, k: int) -> Seq<int> {
    Seq::new(4, |i: int| floor_div(v[i] * k, ONE as int))
}

/// Perspective from four dimensions to three with w as depth:
/// `(2x / (4 + w), 2y / (4 + w), 2z / (4 + w))`.
pub open spec fn cube_xyz(v: Seq<int>) -> Seq<int> {
    seq![
        floor_div(2 * v[0] * ONE, 4 * ONE + v[3]),
        floor_div(2 * v[1] * ONE, 4 * ONE + v[3]),
        floor_div(2 * v[2] * ONE, 4 * ONE + v[3]),
    ]
}

/// The point lies in front of the eye (`w > -4`) and its image has
/// coordinates that fit an `i64`.
pub open spec fn projectable4(v: Seq<int>) -> bool {
    &&& 4 * ONE + v[3] > 0
    &&& forall|i: int| 0 <= i < 3 ==> i64::MIN <= #[trigger] cube_xyz(v)[i] <= i64::MAX
}

/// A point `(x, y, z, w)` in fixed point.
#[derive(Debug, Default, Clone, Copy, PartialEq, Eq)]
pub struct Point(pub [i64; 4]);

impl View for Point {
    type V = Seq<int>;

    open spec fn view(&self) -> Seq<int> {
        seq![self.0[0] as int, self.0[1] as int, self.0[2] as int, self.0[3] as int]
    }
}

impl Point {
    /// Every coordinate has magnitude at most `b`.
    pub open spec fn within(self, b: int) -> bool {
        &&& abs(self.0[0] as int) <= b
        &&& abs(self.0[1] as int) <= b
        &&& abs(self.0[2] as int) <= b
        &&& abs(self.0[3] as int) <= b
    }

    /// Whether every coordinate has magnitude at most `b`.
    pub fn is_within(&self, b: i64) -> (r: bool)
        requires
            b >= 0,
        ensures
            r == self.within(b as int),
    {
        -b <= self.0[0] && self.0[0] <= b && -b <= self.0[1] && self.0[1] <= b && -b <= self.0[2] && self.0[2] <= b && -b <= self.0[3] && self.0[3] <= b
    }

    /// The entrywise sum `self + rhs`.
    pub fn add(self, rhs: Point) -> (r: Point)
        requires
            forall|i: int| 0 <= i < 4 ==> i64::MIN <= #[trigger] self@[i] + rhs@[i] <= i64::MAX,
        ensures
            r@ == Seq::new(4, |i: int| self@[i] + rhs@[i]),
    {
        proof {
            assert(i64::MIN <= self@[0] + rhs@[0] <= i64::MAX);
            assert(i64::MIN <= self@[1] + rhs@[1] <= i64::MAX);
            assert(i64::MIN <= self@[2] + rhs@[2] <= i64::MAX);
            assert(i64::MIN <= self@[3] + rhs@[3] <= i64::MAX);
        }
        let r = Point([
            self.0[0] + rhs.0[0],
            self.0[1] + rhs.0[1],
            self.0[2] + rhs.0[2],
            self.0[3] + rhs.0[3],
        ]);
        assert(r@ =~= Seq::new(4, |i: int| self@[i] + rhs@[i]));
        r
    }

    /// The entrywise fixed-point product, each entry rounded down.
    pub fn mul(self, rhs: Point) -> (r: Point)
        requires
            self.within(MAX_COORD as int),
            rhs.within(MAX_ENTRY as int),
        ensures
            r@ == Seq::new(4, |i: int| floor_div(self@[i] * rhs@[i], ONE as int)),
    {
        let r = Point([
            scale_entry(self.0[0], rhs.0[0]),
            scale_entry(self.0[1], rhs.0[1]),
            scale_entry(self.0[2], rhs.0[2]),
            scale_entry(self.0[3], rhs.0[3]),
        ]);
        assert(r@ =~= Seq::new(4, |i: int| floor_div(self@[i] * rhs@[i], ONE as int)));
        r
    }

    /// The point times the fixed-point scalar `k`.
    pub fn scale(self, k: i64) -> (r: Point)
        requires
            self.within(MAX_COORD as int),
            abs(k as int) <= MAX_ENTRY,
        ensures
            r@ == scale4(self@, k as int),
    {
        let r = Point([
            scale_entry(self.0[0], k),
            scale_entry(self.0[1], k),
            scale_entry(self.0[2], k),
            scale_entry(self.0[3], k),
        ]);
        assert(r@ =~= scale4(self@, k as int));
        r
    }

    /// `|x| + |y| + |z|`: like the Euclidean length below, this measures the
    /// x, y, z part alone and leaves w out.
    pub fn l1_norm(&self) -> (r: i64)
        requires
            self.within(MAX_COORD as int),
        ensures
            r == abs(self@[0]) + abs(self@[1]) + abs(self@[2]),
    {
        let a = if self.0[0] < 0 { -self.0[0] } else { self.0[0] };
        let b = if self.0[1] < 0 { -self.0[1] } else { self.0[1] };
        let c = if self.0[2] < 0 { -self.0[2] } else { self.0[2] };
        a + b + c
    }

    /// The Euclidean length of the x, y, z part, rounded down; w is left out.
    pub fn l2_norm(&self) -> (r: i64)
        requires
            self.within(MAX_COORD as int),
        ensures
            r >= 0,
            r * r <= self@[0] * self@[0] + self@[1] * self@[1] + self@[2] * self@[2] < (r + 1) * (r + 1),
    {
        let (x, y, z) = (self.0[0], self.0[1], self.0[2]);
        proof {
            lemma_square_bound(x as int);
            lemma_square_bound(y as int);
            lemma_square_bound(z as int);
        }
        let sq = x as i128 * x as i128 + y as i128 * y as i128 + z as i128 * z as i128;
        let r = isqrt(sq as u128);
        proof {
            assert(r < 144115188075855872) by (nonlinear_arith)
                requires r as int * r as int <= 3 * 5192296858534827628530496329220096int, r >= 0;
        }
        r as i64
    }

    /// Rotates the point about the zw plane by `theta`: x and y turn, x towards y.
    pub fn rotate_zw_theta(self, theta: Angle) -> (r: Point)
        requires
            theta.wf(),
            self.within(MAX_COORD as int),
        ensures
            r@ == apply4(rot_zw(theta), self@),
    {
        Matrix4x4::rotate_zw_theta(theta).mul_point(&self)
    }

    /// Rotates the point about the yw plane by `theta`: x and z turn, x towards z.
    pub fn rotate_yw_theta(self, theta: Angle) -> (r: Point)
        requires
            theta.wf(),
            self.within(MAX_COORD as int),
        ensures
            r@ == apply4(rot_yw(theta), self@),
    {
        Matrix4x4::rotate_yw_theta(theta).mul_point(&self)
    }

    /// Rotates the point about the yz plane by `theta`: x and w turn, x towards w.
    pub fn rotate_yz_theta(self, theta: Angle) -> (r: Point)
        requires
            theta.wf(),
            self.within(MAX_COORD as int),
        ensures
            r@ == apply4(rot_yz(theta), self@),
    {
        Matrix4x4::rotate_yz_theta(theta).mul_point(&self)
    }

    /// Rotates the point about the xw plane by `theta`: y and z turn, y towards z.
    pub fn rotate_xw_theta(self, theta: Angle) -> (r: Point)
        requires
            theta.wf(),
            self.within(MAX_COORD as int),
        ensures
            r@ == apply4(rot_xw(theta), self@),
    {
        Matrix4x4::rotate_xw_theta(theta).mul_point(&self)
    }

    /// Rotates the point about the xz plane by `theta`: y and w turn, y towards w.
    pub fn rotate_xz_theta(self, theta: Angle) -> (r: Point)
        requires
            theta.wf(),
            self.within(MAX_COORD as int),
        ensures
            r@ == apply4(rot_xz(theta), self@),
    {
        Matrix4x4::rotate_xz_theta(theta).mul_point(&self)
    }

    /// Rotates the point about the xy plane by `theta`: z and w turn, z towards w.
    pub fn rotate_xy_theta(self, theta: Angle) -> (r: Point)
        requires
            theta.wf(),
            self.within(MAX_COORD as int),
        ensures
            r@ == apply4(rot_xy(theta), self@),
    {
        Matrix4x4::rotate_xy_theta(theta).mul_point(&self)
    }

    /// Perspective projection to three dimensions,
    /// `(2x / (4 + w), 2y / (4 + w), 2z / (4 + w))`.
    pub fn to_cube_xyz(&self) -> (r: (i64, i64, i64))
        requires
            projectable4(self@),
        ensures
            r.0 == cube_xyz(self@)[0],
            r.1 == cube_xyz(self@)[1],
            r.2 == cube_xyz(self@)[2],
    {
        let depth = 4 * ONE as i128 + self.0[3] as i128;
        let x = div_floor(2 * self.0[0] as i128 * ONE as i128, depth);
        let y = div_floor(2 * self.0[1] as i128 * ONE as i128, depth);
        let z = div_floor(2 * self.0[2] as i128 * ONE as i128, depth);
        assert(i64::MIN <= cube_xyz(self@)[0] <= i64::MAX);
        assert(i64::MIN <= cube_xyz(self@)[1] <= i64::MAX);
        assert(i64::MIN <= cube_xyz(self@)[2] <= i64::MAX);
        (x as i64, y as i64, z as i64)
    }

    /// Whether the point can be projected to three dimensions.
    pub fn is_projectable(&self) -> (r: bool)
        ensures
            r == projectable4(self@),
    {
        let depth = 4 * ONE as i128 + self.0[3] as i128;
        if depth <= 0 {
            return false;
        }
        let x = div_floor(2 * self.0[0] as i128 * ONE as i128, depth);
        let y = div_floor(2 * self.0[1] as i128 * ONE as i128, depth);
        let z = div_floor(2 * self.0[2] as i128 * ONE as i128, depth);
        let lo = i64::MIN as i128;
        let hi = i64::MAX as i128;
        let r = lo <= x && x <= hi && lo <= y && y <= hi && lo <= z && z <= hi;
        proof {
            if r {
                assert forall|i: int| 0 <= i < 3 implies i64::MIN <= #[trigger] cube_xyz(self@)[i] <= i64::MAX by {
                    assert(cube_xyz(self@)[0] == x && cube_xyz(self@)[1] == y && cube_xyz(self@)[2] == z);
                }
            } else {
                assert(cube_xyz(self@)[0] == x && cube_xyz(self@)[1] == y && cube_xyz(self@)[2] == z);
            }
        }
        r
    }
}

} // verus!
