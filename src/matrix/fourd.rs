//! 4×4 matrices and the rotations about the coordinate planes.
use vstd::prelude::*;
use crate::fixed::{near, abs, floor_div, div_floor, lemma_mul_bound, lemma_floor_div, Angle, ONE, MAX_COORD, MAX_ENTRY};
use crate::matrix::{lemma_rescale_one, lemma_turn_back, turned_back};
use crate::point::fourd::Point;

verus! {

/// `a · b` for vectors of length four.
pub open spec fn dot4(a: Seq<int>, b: Seq<int>) -> int {
    a[0] * b[0] + a[1] * b[1] + a[2] * b[2] + a[3] * b[3]
}

/// Column `j` of a 4×4 matrix.
pub open spec fn col4(m: Seq<Seq<int>>, j: int) -> Seq<int> {
    seq![m[0][j], m[1][j], m[2][j], m[3][j]]
}

/// The fixed-point product `m · v`: each entry is rounded down once.
pub open spec fn apply4(m: Seq<Seq<int>>, v: Seq<int>) -> Seq<int> {
    Seq::new(4, |i: int| floor_div(dot4(m[i], v), ONE as int))
}

/// The fixed-point product `a · b`: each entry is rounded down once.
pub open spec fn mul4(a: Seq<Seq<int>>, b: Seq<Seq<int>>) -> Seq<Seq<int>> {
    Seq::new(4, |i: int| Seq::new(4, |j: int| floor_div(dot4(a[i], col4(b, j)), ONE as int)))
}

/// The transpose of a 4×4 matrix.
pub open spec fn transpose4(m: Seq<Seq<int>>) -> Seq<Seq<int>> {
    Seq::new(4, |i: int| col4(m, i))
}

/// The identity, `ONE` on the diagonal.
pub open spec fn identity4() -> Seq<Seq<int>> {
    Seq::new(4, |i: int| Seq::new(4, |j: int| if i == j { ONE as int } else { 0 }))
}

/// The rotation that turns axis `i` towards axis `j` (`i < j`) by `a` and
/// holds the other two axes, that is the plane they span, fixed.
pub open spec fn plane_rot4(i: int, j: int, a: Angle) -> Seq<Seq<int>> {
    Seq::new(4, |r: int| Seq::new(4, |k: int|
        if r == k {
            if r == i || r == j { a.cos as int } else { ONE as int }
        } else if r == i && k == j {
            -a.sin
        } else if r == j && k == i {
            a.sin as int
        } else {
            0
        }
    ))
}

/// Rotation about the zw plane: x and y turn, x towards y.
pub open spec fn rot_zw(a: Angle) -> Seq<Seq<int>> {
    plane_rot4(0, 1, a)
}

/// Rotation about the yw plane: x and z turn, x towards z.
pub open spec fn rot_yw(a: Angle) -> Seq<Seq<int>> {
    plane_rot4(0, 2, a)
}

/// Rotation about the yz plane: x and w turn, x towards w.
pub open spec fn rot_yz(a: Angle) -> Seq<Seq<int>> {
    plane_rot4(0, 3, a)
}

/// Rotation about the xw plane: y and z turn, y towards z.
pub open spec fn rot_xw(a: Angle) -> Seq<Seq<int>> {
    plane_rot4(1, 2, a)
}

/// Rotation about the xz plane: y and w turn, y towards w.
pub open spec fn rot_xz(a: Angle) -> Seq<Seq<int>> {
    plane_rot4(1, 3, a)
}

/// Rotation about the xy plane: z and w turn, z towards w.
pub open spec fn rot_xy(a: Angle) -> Seq<Seq<int>> {
    plane_rot4(2, 3, a)
}

/// A 4×4 matrix of fixed-point entries, row by row.
#[derive(Debug, Clone, Copy, Default, PartialEq, Eq)]
pub struct Matrix4x4(pub [[i64; 4]; 4]);

impl View for Matrix4x4 {
    type V = Seq<Seq<int>>;

    open spec fn view(&self) -> Seq<Seq<int>> {
        Seq::new(4, |i: int| Seq::new(4, |j: int| self.0[i][j] as int))
    }
}

impl Matrix4x4 {
    /// Every entry has magnitude at most `b`.
    pub open spec fn within(self, b: int) -> bool {
        forall|i: int, j: int| 0 <= i < 4 && 0 <= j < 4 ==> abs(#[trigger] self.0[i][j] as int) <= b
    }

    /// Rotation matrix about the zw plane by `theta`: x and y turn, x towards y.
    pub fn rotate_zw_theta(theta: Angle) -> (r: Matrix4x4)
        requires
            theta.wf(),
        ensures
            r@ == rot_zw(theta),
            r.within(ONE as int),
    {
        let (c, s) = (theta.cos, theta.sin);
        let r = Matrix4x4([
            [c, -s, 0, 0],
            [s, c, 0, 0],
            [0, 0, ONE, 0],
            [0, 0, 0, ONE],
        ]);
        assert(r@ =~~= rot_zw(theta));
        r
    }

    /// Rotation matrix about the yw plane by `theta`: x and z turn, x towards z.
    pub fn rotate_yw_theta(theta: Angle) -> (r: Matrix4x4)
        requires
            theta.wf(),
        ensures
            r@ == rot_yw(theta),
            r.within(ONE as int),
    {
        let (c, s) = (theta.cos, theta.sin);
        let r = Matrix4x4([
            [c, 0, -s, 0],
            [0, ONE, 0, 0],
            [s, 0, c, 0],
            [0, 0, 0, ONE],
        ]);
        assert(r@ =~~= rot_yw(theta));
        r
    }

    /// Rotation matrix about the yz plane by `theta`: x and w turn, x towards w.
    pub fn rotate_yz_theta(theta: Angle) -> (r: Matrix4x4)
        requires
            theta.wf(),
        ensures
            r@ == rot_yz(theta),
            r.within(ONE as int),
    {
        let (c, s) = (theta.cos, theta.sin);
        let r = Matrix4x4([
            [c, 0, 0, -s],
            [0, ONE, 0, 0],
            [0, 0, ONE, 0],
            [s, 0, 0, c],
        ]);
        assert(r@ =~~= rot_yz(theta));
        r
    }

    /// Rotation matrix about the xw plane by `theta`: y and z turn, y towards z.
    pub fn rotate_xw_theta(theta: Angle) -> (r: Matrix4x4)
        requires
            theta.wf(),
        ensures
            r@ == rot_xw(theta),
            r.within(ONE as int),
    {
        let (c, s) = (theta.cos, theta.sin);
        let r = Matrix4x4([
            [ONE, 0, 0, 0],
            [0, c, -s, 0],
            [0, s, c, 0],
            [0, 0, 0, ONE],
        ]);
        assert(r@ =~~= rot_xw(theta));
        r
    }

    /// Rotation matrix about the xz plane by `theta`: y and w turn, y towards w.
    pub fn rotate_xz_theta(theta: Angle) -> (r: Matrix4x4)
        requires
            theta.wf(),
        ensures
            r@ == rot_xz(theta),
            r.within(ONE as int),
    {
        let (c, s) = (theta.cos, theta.sin);
        let r = Matrix4x4([
            [ONE, 0, 0, 0],
            [0, c, 0, -s],
            [0, 0, ONE, 0],
            [0, s, 0, c],
        ]);
        assert(r@ =~~= rot_xz(theta));
        r
    }

    /// Rotation matrix about the xy plane by `theta`: z and w turn, z towards w.
    pub fn rotate_xy_theta(theta: Angle) -> (r: Matrix4x4)
        requires
            theta.wf(),
        ensures
            r@ == rot_xy(theta),
            r.within(ONE as int),
    {
        let (c, s) = (theta.cos, theta.sin);
        let r = Matrix4x4([
            [ONE, 0, 0, 0],
            [0, ONE, 0, 0],
            [0, 0, c, -s],
            [0, 0, s, c],
        ]);
        assert(r@ =~~= rot_xy(theta));
        r
    }

    /// The identity matrix.
    pub fn identity() -> (r: Matrix4x4)
        ensures
            r@ == identity4(),
    {
        let r = Matrix4x4([[ONE, 0, 0, 0], [0, ONE, 0, 0], [0, 0, ONE, 0], [0, 0, 0, ONE]]);
        assert(r@ =~~= identity4());
        r
    }

    /// Entry `(i, j)` of `self · rhs`.
    fn product_entry(&self, rhs: &Matrix4x4, i: usize, j: usize) -> (r: i64)
        requires
            i < 4,
            j < 4,
            self.within(MAX_ENTRY as int),
            rhs.within(MAX_ENTRY as int),
        ensures
            r == floor_div(dot4(self@[i as int], col4(rhs@, j as int)), ONE as int),
    {
        let a = self.0[i];
        proof {
            let e = MAX_ENTRY as int;
            lemma_mul_bound(a[0] as int, rhs.0[0][j as int] as int, e, e);
            lemma_mul_bound(a[1] as int, rhs.0[1][j as int] as int, e, e);
            lemma_mul_bound(a[2] as int, rhs.0[2][j as int] as int, e, e);
            lemma_mul_bound(a[3] as int, rhs.0[3][j as int] as int, e, e);
        }
        let sum = a[0] as i128 * rhs.0[0][j] as i128 + a[1] as i128 * rhs.0[1][j] as i128
            + a[2] as i128 * rhs.0[2][j] as i128 + a[3] as i128 * rhs.0[3][j] as i128;
        let q = div_floor(sum, ONE as i128);
        proof {
            lemma_floor_div(sum as int, ONE as int);
        }
        q as i64
    }

    /// Row `i` of `self · rhs`.
    fn product_row(&self, rhs: &Matrix4x4, i: usize) -> (r: [i64; 4])
        requires
            i < 4,
            self.within(MAX_ENTRY as int),
            rhs.within(MAX_ENTRY as int),
        ensures
            forall|j: int| 0 <= j < 4 ==> #[trigger] r[j] as int
                == floor_div(dot4(self@[i as int], col4(rhs@, j)), ONE as int),
    {
        [
            self.product_entry(rhs, i, 0),
            self.product_entry(rhs, i, 1),
            self.product_entry(rhs, i, 2),
            self.product_entry(rhs, i, 3),
        ]
    }

    /// The matrix product `self · rhs`.
    pub fn mul(&self, rhs: &Matrix4x4) -> (r: Matrix4x4)
        requires
            self.within(MAX_ENTRY as int),
            rhs.within(MAX_ENTRY as int),
        ensures
            r@ == mul4(self@, rhs@),
    {
        let r = Matrix4x4([
            self.product_row(rhs, 0),
            self.product_row(rhs, 1),
            self.product_row(rhs, 2),
            self.product_row(rhs, 3),
        ]);
        assert(r@ =~~= mul4(self@, rhs@));
        r
    }

    /// Row `i` of `self` times `p`, rounded down.
    fn row_times(&self, i: usize, p: &Point) -> (r: i64)
        requires
            i < 4,
            self.within(MAX_ENTRY as int),
            p.within(MAX_COORD as int),
        ensures
            r == floor_div(dot4(self@[i as int], p@), ONE as int),
    {
        let a = self.0[i];
        proof {
            let (e, c) = (MAX_ENTRY as int, MAX_COORD as int);
            lemma_mul_bound(a[0] as int, p.0[0] as int, e, c);
            lemma_mul_bound(a[1] as int, p.0[1] as int, e, c);
            lemma_mul_bound(a[2] as int, p.0[2] as int, e, c);
            lemma_mul_bound(a[3] as int, p.0[3] as int, e, c);
        }
        let sum = a[0] as i128 * p.0[0] as i128 + a[1] as i128 * p.0[1] as i128
            + a[2] as i128 * p.0[2] as i128 + a[3] as i128 * p.0[3] as i128;
        let q = div_floor(sum, ONE as i128);
        proof {
            lemma_floor_div(sum as int, ONE as int);
        }
        q as i64
    }

    /// The product `self · p`.
    pub fn mul_point(&self, p: &Point) -> (r: Point)
        requires
            self.within(MAX_ENTRY as int),
            p.within(MAX_COORD as int),
        ensures
            r@ == apply4(self@, p@),
    {
        let r = Point([self.row_times(0, p), self.row_times(1, p), self.row_times(2, p), self.row_times(3, p)]);
        assert(r@ =~= apply4(self@, p@));
        r
    }

    /// The entrywise sum `self + rhs`.
    pub fn add(&self, rhs: &Matrix4x4) -> (r: Matrix4x4)
        requires
            forall|i: int, j: int| 0 <= i < 4 && 0 <= j < 4 ==> i64::MIN <= #[trigger] self@[i][j] + rhs@[i][j] <= i64::MAX,
        ensures
            forall|i: int, j: int| 0 <= i < 4 && 0 <= j < 4 ==> #[trigger] r@[i][j] == self@[i][j] + rhs@[i][j],
    {
        proof {
            assert(i64::MIN <= self@[0][0] + rhs@[0][0] <= i64::MAX);
            assert(i64::MIN <= self@[0][1] + rhs@[0][1] <= i64::MAX);
            assert(i64::MIN <= self@[0][2] + rhs@[0][2] <= i64::MAX);
            assert(i64::MIN <= self@[0][3] + rhs@[0][3] <= i64::MAX);
            assert(i64::MIN <= self@[1][0] + rhs@[1][0] <= i64::MAX);
            assert(i64::MIN <= self@[1][1] + rhs@[1][1] <= i64::MAX);
            assert(i64::MIN <= self@[1][2] + rhs@[1][2] <= i64::MAX);
            assert(i64::MIN <= self@[1][3] + rhs@[1][3] <= i64::MAX);
            assert(i64::MIN <= self@[2][0] + rhs@[2][0] <= i64::MAX);
            assert(i64::MIN <= self@[2][1] + rhs@[2][1] <= i64::MAX);
            assert(i64::MIN <= self@[2][2] + rhs@[2][2] <= i64::MAX);
            assert(i64::MIN <= self@[2][3] + rhs@[2][3] <= i64::MAX);
            assert(i64::MIN <= self@[3][0] + rhs@[3][0] <= i64::MAX);
            assert(i64::MIN <= self@[3][1] + rhs@[3][1] <= i64::MAX);
            assert(i64::MIN <= self@[3][2] + rhs@[3][2] <= i64::MAX);
            assert(i64::MIN <= self@[3][3] + rhs@[3][3] <= i64::MAX);
        }
        let (a, b) = (self.0, rhs.0);
        Matrix4x4([
            [a[0][0] + b[0][0], a[0][1] + b[0][1], a[0][2] + b[0][2], a[0][3] + b[0][3]],
            [a[1][0] + b[1][0], a[1][1] + b[1][1], a[1][2] + b[1][2], a[1][3] + b[1][3]],
            [a[2][0] + b[2][0], a[2][1] + b[2][1], a[2][2] + b[2][2], a[2][3] + b[2][3]],
            [a[3][0] + b[3][0], a[3][1] + b[3][1], a[3][2] + b[3][2], a[3][3] + b[3][3]],
        ])
    }
}

/// Entry `(i, j)` of `m · mᵀ` is row `i` dotted with row `j`, rescaled.
proof fn lemma_gram4(m: Seq<Seq<int>>, i: int, j: int)
    requires
        0 <= i < 4,
        0 <= j < 4,
    ensures
        mul4(m, transpose4(m))[i][j] == floor_div(dot4(m[i], m[j]), ONE as int),
{
    assert(col4(transpose4(m), j) =~= seq![m[j][0], m[j][1], m[j][2], m[j][3]]);
}

/// The rotations about the planes are orthonormal up to rounding: each
/// entry of `R · Rᵀ` is within two raw units of the identity's.
pub proof fn lemma_rotation_orthonormal4(theta: Angle)
    requires
        theta.wf(),
    ensures
        forall|i: int, j: int| 0 <= i < 4 && 0 <= j < 4 ==> {
            &&& near(#[trigger] mul4(rot_zw(theta), transpose4(rot_zw(theta)))[i][j], identity4()[i][j], 2)
            &&& near(mul4(rot_yw(theta), transpose4(rot_yw(theta)))[i][j], identity4()[i][j], 2)
            &&& near(mul4(rot_yz(theta), transpose4(rot_yz(theta)))[i][j], identity4()[i][j], 2)
            &&& near(mul4(rot_xw(theta), transpose4(rot_xw(theta)))[i][j], identity4()[i][j], 2)
            &&& near(mul4(rot_xz(theta), transpose4(rot_xz(theta)))[i][j], identity4()[i][j], 2)
            &&& near(mul4(rot_xy(theta), transpose4(rot_xy(theta)))[i][j], identity4()[i][j], 2)
        },
{
    let (c, s) = (theta.cos as int, theta.sin as int);
    crate::fixed::lemma_unit_circle(theta);
    vstd::arithmetic::div_mod::lemma_div_multiples_vanish(ONE as int, ONE as int);
    assert(c * (-s) + s * c == 0 && (-s) * c + c * s == 0) by (nonlinear_arith);
    assert(s * (-s) == -(s * s) && (-s) * (-s) == s * s) by (nonlinear_arith);
    assert forall|i: int, j: int| 0 <= i < 4 && 0 <= j < 4 implies {
        &&& near(#[trigger] mul4(rot_zw(theta), transpose4(rot_zw(theta)))[i][j], identity4()[i][j], 2)
        &&& near(mul4(rot_yw(theta), transpose4(rot_yw(theta)))[i][j], identity4()[i][j], 2)
        &&& near(mul4(rot_yz(theta), transpose4(rot_yz(theta)))[i][j], identity4()[i][j], 2)
        &&& near(mul4(rot_xw(theta), transpose4(rot_xw(theta)))[i][j], identity4()[i][j], 2)
        &&& near(mul4(rot_xz(theta), transpose4(rot_xz(theta)))[i][j], identity4()[i][j], 2)
        &&& near(mul4(rot_xy(theta), transpose4(rot_xy(theta)))[i][j], identity4()[i][j], 2)
    } by {
        assert(0 * c == 0 && c * 0 == 0 && 0 * s == 0 && s * 0 == 0);
        assert(0 * (-s) == 0 && (-s) * 0 == 0 && 0 * ONE == 0 && ONE * 0 == 0);
        lemma_gram4(rot_zw(theta), i, j);
        lemma_gram4(rot_yw(theta), i, j);
        lemma_gram4(rot_yz(theta), i, j);
        lemma_gram4(rot_xw(theta), i, j);
        lemma_gram4(rot_xz(theta), i, j);
        lemma_gram4(rot_xy(theta), i, j);
        if i == 0 && j == 0 {
            assert(dot4(rot_zw(theta)[0], rot_zw(theta)[0]) == c * c + s * s);
            assert(dot4(rot_yw(theta)[0], rot_yw(theta)[0]) == c * c + s * s);
            assert(dot4(rot_yz(theta)[0], rot_yz(theta)[0]) == c * c + s * s);
            assert(dot4(rot_xw(theta)[0], rot_xw(theta)[0]) == ONE * ONE);
            assert(dot4(rot_xz(theta)[0], rot_xz(theta)[0]) == ONE * ONE);
            assert(dot4(rot_xy(theta)[0], rot_xy(theta)[0]) == ONE * ONE);
        } else if i == 0 && j == 1 {
            assert(dot4(rot_zw(theta)[0], rot_zw(theta)[1]) == 0);
            assert(dot4(rot_yw(theta)[0], rot_yw(theta)[1]) == 0);
            assert(dot4(rot_yz(theta)[0], rot_yz(theta)[1]) == 0);
            assert(dot4(rot_xw(theta)[0], rot_xw(theta)[1]) == 0);
            assert(dot4(rot_xz(theta)[0], rot_xz(theta)[1]) == 0);
            assert(dot4(rot_xy(theta)[0], rot_xy(theta)[1]) == 0);
        } else if i == 0 && j == 2 {
            assert(dot4(rot_zw(theta)[0], rot_zw(theta)[2]) == 0);
            assert(dot4(rot_yw(theta)[0], rot_yw(theta)[2]) == 0);
            assert(dot4(rot_yz(theta)[0], rot_yz(theta)[2]) == 0);
            assert(dot4(rot_xw(theta)[0], rot_xw(theta)[2]) == 0);
            assert(dot4(rot_xz(theta)[0], rot_xz(theta)[2]) == 0);
            assert(dot4(rot_xy(theta)[0], rot_xy(theta)[2]) == 0);
        } else if i == 0 && j == 3 {
            assert(dot4(rot_zw(theta)[0], rot_zw(theta)[3]) == 0);
            assert(dot4(rot_yw(theta)[0], rot_yw(theta)[3]) == 0);
            assert(dot4(rot_yz(theta)[0], rot_yz(theta)[3]) == 0);
            assert(dot4(rot_xw(theta)[0], rot_xw(theta)[3]) == 0);
            assert(dot4(rot_xz(theta)[0], rot_xz(theta)[3]) == 0);
            assert(dot4(rot_xy(theta)[0], rot_xy(theta)[3]) == 0);
        } else if i == 1 && j == 0 {
            assert(dot4(rot_zw(theta)[1], rot_zw(theta)[0]) == 0);
            assert(dot4(rot_yw(theta)[1], rot_yw(theta)[0]) == 0);
            assert(dot4(rot_yz(theta)[1], rot_yz(theta)[0]) == 0);
            assert(dot4(rot_xw(theta)[1], rot_xw(theta)[0]) == 0);
            assert(dot4(rot_xz(theta)[1], rot_xz(theta)[0]) == 0);
            assert(dot4(rot_xy(theta)[1], rot_xy(theta)[0]) == 0);
        } else if i == 1 && j == 1 {
            assert(dot4(rot_zw(theta)[1], rot_zw(theta)[1]) == c * c + s * s);
            assert(dot4(rot_yw(theta)[1], rot_yw(theta)[1]) == ONE * ONE);
            assert(dot4(rot_yz(theta)[1], rot_yz(theta)[1]) == ONE * ONE);
            assert(dot4(rot_xw(theta)[1], rot_xw(theta)[1]) == c * c + s * s);
            assert(dot4(rot_xz(theta)[1], rot_xz(theta)[1]) == c * c + s * s);
            assert(dot4(rot_xy(theta)[1], rot_xy(theta)[1]) == ONE * ONE);
        } else if i == 1 && j == 2 {
            assert(dot4(rot_zw(theta)[1], rot_zw(theta)[2]) == 0);
            assert(dot4(rot_yw(theta)[1], rot_yw(theta)[2]) == 0);
            assert(dot4(rot_yz(theta)[1], rot_yz(theta)[2]) == 0);
            assert(dot4(rot_xw(theta)[1], rot_xw(theta)[2]) == 0);
            assert(dot4(rot_xz(theta)[1], rot_xz(theta)[2]) == 0);
            assert(dot4(rot_xy(theta)[1], rot_xy(theta)[2]) == 0);
        } else if i == 1 && j == 3 {
            assert(dot4(rot_zw(theta)[1], rot_zw(theta)[3]) == 0);
            assert(dot4(rot_yw(theta)[1], rot_yw(theta)[3]) == 0);
            assert(dot4(rot_yz(theta)[1], rot_yz(theta)[3]) == 0);
            assert(dot4(rot_xw(theta)[1], rot_xw(theta)[3]) == 0);
            assert(dot4(rot_xz(theta)[1], rot_xz(theta)[3]) == 0);
            assert(dot4(rot_xy(theta)[1], rot_xy(theta)[3]) == 0);
        } else if i == 2 && j == 0 {
            assert(dot4(rot_zw(theta)[2], rot_zw(theta)[0]) == 0);
            assert(dot4(rot_yw(theta)[2], rot_yw(theta)[0]) == 0);
            assert(dot4(rot_yz(theta)[2], rot_yz(theta)[0]) == 0);
            assert(dot4(rot_xw(theta)[2], rot_xw(theta)[0]) == 0);
            assert(dot4(rot_xz(theta)[2], rot_xz(theta)[0]) == 0);
            assert(dot4(rot_xy(theta)[2], rot_xy(theta)[0]) == 0);
        } else if i == 2 && j == 1 {
            assert(dot4(rot_zw(theta)[2], rot_zw(theta)[1]) == 0);
            assert(dot4(rot_yw(theta)[2], rot_yw(theta)[1]) == 0);
            assert(dot4(rot_yz(theta)[2], rot_yz(theta)[1]) == 0);
            assert(dot4(rot_xw(theta)[2], rot_xw(theta)[1]) == 0);
            assert(dot4(rot_xz(theta)[2], rot_xz(theta)[1]) == 0);
            assert(dot4(rot_xy(theta)[2], rot_xy(theta)[1]) == 0);
        } else if i == 2 && j == 2 {
            assert(dot4(rot_zw(theta)[2], rot_zw(theta)[2]) == ONE * ONE);
            assert(dot4(rot_yw(theta)[2], rot_yw(theta)[2]) == c * c + s * s);
            assert(dot4(rot_yz(theta)[2], rot_yz(theta)[2]) == ONE * ONE);
            assert(dot4(rot_xw(theta)[2], rot_xw(theta)[2]) == c * c + s * s);
            assert(dot4(rot_xz(theta)[2], rot_xz(theta)[2]) == ONE * ONE);
            assert(dot4(rot_xy(theta)[2], rot_xy(theta)[2]) == c * c + s * s);
        } else if i == 2 && j == 3 {
            assert(dot4(rot_zw(theta)[2], rot_zw(theta)[3]) == 0);
            assert(dot4(rot_yw(theta)[2], rot_yw(theta)[3]) == 0);
            assert(dot4(rot_yz(theta)[2], rot_yz(theta)[3]) == 0);
            assert(dot4(rot_xw(theta)[2], rot_xw(theta)[3]) == 0);
            assert(dot4(rot_xz(theta)[2], rot_xz(theta)[3]) == 0);
            assert(dot4(rot_xy(theta)[2], rot_xy(theta)[3]) == 0);
        } else if i == 3 && j == 0 {
            assert(dot4(rot_zw(theta)[3], rot_zw(theta)[0]) == 0);
            assert(dot4(rot_yw(theta)[3], rot_yw(theta)[0]) == 0);
            assert(dot4(rot_yz(theta)[3], rot_yz(theta)[0]) == 0);
            assert(dot4(rot_xw(theta)[3], rot_xw(theta)[0]) == 0);
            assert(dot4(rot_xz(theta)[3], rot_xz(theta)[0]) == 0);
            assert(dot4(rot_xy(theta)[3], rot_xy(theta)[0]) == 0);
        } else if i == 3 && j == 1 {
            assert(dot4(rot_zw(theta)[3], rot_zw(theta)[1]) == 0);
            assert(dot4(rot_yw(theta)[3], rot_yw(theta)[1]) == 0);
            assert(dot4(rot_yz(theta)[3], rot_yz(theta)[1]) == 0);
            assert(dot4(rot_xw(theta)[3], rot_xw(theta)[1]) == 0);
            assert(dot4(rot_xz(theta)[3], rot_xz(theta)[1]) == 0);
            assert(dot4(rot_xy(theta)[3], rot_xy(theta)[1]) == 0);
        } else if i == 3 && j == 2 {
            assert(dot4(rot_zw(theta)[3], rot_zw(theta)[2]) == 0);
            assert(dot4(rot_yw(theta)[3], rot_yw(theta)[2]) == 0);
            assert(dot4(rot_yz(theta)[3], rot_yz(theta)[2]) == 0);
            assert(dot4(rot_xw(theta)[3], rot_xw(theta)[2]) == 0);
            assert(dot4(rot_xz(theta)[3], rot_xz(theta)[2]) == 0);
            assert(dot4(rot_xy(theta)[3], rot_xy(theta)[2]) == 0);
        } else if i == 3 && j == 3 {
            assert(dot4(rot_zw(theta)[3], rot_zw(theta)[3]) == ONE * ONE);
            assert(dot4(rot_yw(theta)[3], rot_yw(theta)[3]) == ONE * ONE);
            assert(dot4(rot_yz(theta)[3], rot_yz(theta)[3]) == c * c + s * s);
            assert(dot4(rot_xw(theta)[3], rot_xw(theta)[3]) == ONE * ONE);
            assert(dot4(rot_xz(theta)[3], rot_xz(theta)[3]) == c * c + s * s);
            assert(dot4(rot_xy(theta)[3], rot_xy(theta)[3]) == c * c + s * s);
        }
    }
}

/// Multiplication distributes over a sum of four.
proof fn lemma_distrib4(x: int, y: int, z: int, v: int, w: int)
    ensures
        w * (x + y + z + v) == w * x + w * y + w * z + w * v,
        (x + y + z + v) * w == x * w + y * w + z * w + v * w,
{
    assert(w * (x + y + z + v) == w * x + w * y + w * z + w * v) by (nonlinear_arith);
    assert((x + y + z + v) * w == x * w + y * w + z * w + v * w) by (nonlinear_arith);
}

/// The triple sum `Σ_l (Σ_k a_k b_kl) c_l` summed either way round.
proof fn lemma_triple_sum4(a0: int, a1: int, a2: int, a3: int, b: Seq<Seq<int>>, c0: int, c1: int, c2: int, c3: int)
    ensures
        (a0 * b[0][0] + a1 * b[1][0] + a2 * b[2][0] + a3 * b[3][0]) * c0 + (a0 * b[0][1] + a1 * b[1][1] + a2 * b[2][1] + a3 * b[3][1]) * c1 + (a0 * b[0][2] + a1 * b[1][2] + a2 * b[2][2] + a3 * b[3][2]) * c2 + (a0 * b[0][3] + a1 * b[1][3] + a2 * b[2][3] + a3 * b[3][3]) * c3
        == a0 * (b[0][0] * c0 + b[0][1] * c1 + b[0][2] * c2 + b[0][3] * c3) + a1 * (b[1][0] * c0 + b[1][1] * c1 + b[1][2] * c2 + b[1][3] * c3) + a2 * (b[2][0] * c0 + b[2][1] * c1 + b[2][2] * c2 + b[2][3] * c3) + a3 * (b[3][0] * c0 + b[3][1] * c1 + b[3][2] * c2 + b[3][3] * c3),
{
    lemma_distrib4(a0 * b[0][0], a1 * b[1][0], a2 * b[2][0], a3 * b[3][0], c0);
    lemma_distrib4(a0 * b[0][1], a1 * b[1][1], a2 * b[2][1], a3 * b[3][1], c1);
    lemma_distrib4(a0 * b[0][2], a1 * b[1][2], a2 * b[2][2], a3 * b[3][2], c2);
    lemma_distrib4(a0 * b[0][3], a1 * b[1][3], a2 * b[2][3], a3 * b[3][3], c3);
    lemma_distrib4(b[0][0] * c0, b[0][1] * c1, b[0][2] * c2, b[0][3] * c3, a0);
    lemma_distrib4(b[1][0] * c0, b[1][1] * c1, b[1][2] * c2, b[1][3] * c3, a1);
    lemma_distrib4(b[2][0] * c0, b[2][1] * c1, b[2][2] * c2, b[2][3] * c3, a2);
    lemma_distrib4(b[3][0] * c0, b[3][1] * c1, b[3][2] * c2, b[3][3] * c3, a3);
    vstd::arithmetic::mul::lemma_mul_is_associative(a0, b[0][0], c0);
    vstd::arithmetic::mul::lemma_mul_is_associative(a0, b[0][1], c1);
    vstd::arithmetic::mul::lemma_mul_is_associative(a0, b[0][2], c2);
    vstd::arithmetic::mul::lemma_mul_is_associative(a0, b[0][3], c3);
    vstd::arithmetic::mul::lemma_mul_is_associative(a1, b[1][0], c0);
    vstd::arithmetic::mul::lemma_mul_is_associative(a1, b[1][1], c1);
    vstd::arithmetic::mul::lemma_mul_is_associative(a1, b[1][2], c2);
    vstd::arithmetic::mul::lemma_mul_is_associative(a1, b[1][3], c3);
    vstd::arithmetic::mul::lemma_mul_is_associative(a2, b[2][0], c0);
    vstd::arithmetic::mul::lemma_mul_is_associative(a2, b[2][1], c1);
    vstd::arithmetic::mul::lemma_mul_is_associative(a2, b[2][2], c2);
    vstd::arithmetic::mul::lemma_mul_is_associative(a2, b[2][3], c3);
    vstd::arithmetic::mul::lemma_mul_is_associative(a3, b[3][0], c0);
    vstd::arithmetic::mul::lemma_mul_is_associative(a3, b[3][1], c1);
    vstd::arithmetic::mul::lemma_mul_is_associative(a3, b[3][2], c2);
    vstd::arithmetic::mul::lemma_mul_is_associative(a3, b[3][3], c3);
}

/// `(a · b) · c` and `a · (b · c)` differ by at most `(8e + ONE) / ONE`
/// raw units in entry `(i, j)` when every entry has magnitude at most `e`.
proof fn lemma_assoc_entry4(a: Seq<Seq<int>>, b: Seq<Seq<int>>, c: Seq<Seq<int>>, e: int, i: int, j: int)
    requires
        0 <= i < 4,
        0 <= j < 4,
        e >= 0,
        forall|r: int, k: int| 0 <= r < 4 && 0 <= k < 4 ==> abs(#[trigger] a[r][k]) <= e,
        forall|r: int, k: int| 0 <= r < 4 && 0 <= k < 4 ==> abs(#[trigger] c[r][k]) <= e,
    ensures
        abs(mul4(mul4(a, b), c)[i][j] - mul4(a, mul4(b, c))[i][j]) * ONE <= 8 * e + ONE,
{
    let o = ONE as int;
    let ab = mul4(a, b);
    let bc = mul4(b, c);
    let (a0, a1, a2, a3) = (a[i][0], a[i][1], a[i][2], a[i][3]);
    let (c0, c1, c2, c3) = (c[0][j], c[1][j], c[2][j], c[3][j]);
    // row i of a · b, and column j of b · c
    let (m0, m1, m2, m3) = (ab[i][0], ab[i][1], ab[i][2], ab[i][3]);
    let (q0, q1, q2, q3) = (bc[0][j], bc[1][j], bc[2][j], bc[3][j]);
    let t0 = a0 * b[0][0] + a1 * b[1][0] + a2 * b[2][0] + a3 * b[3][0];
    let t1 = a0 * b[0][1] + a1 * b[1][1] + a2 * b[2][1] + a3 * b[3][1];
    let t2 = a0 * b[0][2] + a1 * b[1][2] + a2 * b[2][2] + a3 * b[3][2];
    let t3 = a0 * b[0][3] + a1 * b[1][3] + a2 * b[2][3] + a3 * b[3][3];
    let u0 = b[0][0] * c0 + b[0][1] * c1 + b[0][2] * c2 + b[0][3] * c3;
    let u1 = b[1][0] * c0 + b[1][1] * c1 + b[1][2] * c2 + b[1][3] * c3;
    let u2 = b[2][0] * c0 + b[2][1] * c1 + b[2][2] * c2 + b[2][3] * c3;
    let u3 = b[3][0] * c0 + b[3][1] * c1 + b[3][2] * c2 + b[3][3] * c3;
    assert(m0 == floor_div(t0, o) && m1 == floor_div(t1, o) && m2 == floor_div(t2, o) && m3 == floor_div(t3, o));
    assert(q0 == floor_div(u0, o) && q1 == floor_div(u1, o) && q2 == floor_div(u2, o) && q3 == floor_div(u3, o));
    lemma_floor_div(t0, o);
    lemma_floor_div(t1, o);
    lemma_floor_div(t2, o);
    lemma_floor_div(t3, o);
    lemma_floor_div(u0, o);
    lemma_floor_div(u1, o);
    lemma_floor_div(u2, o);
    lemma_floor_div(u3, o);
    let x = mul4(ab, c)[i][j];
    let y = mul4(a, bc)[i][j];
    let sx = m0 * c0 + m1 * c1 + m2 * c2 + m3 * c3;
    let sy = a0 * q0 + a1 * q1 + a2 * q2 + a3 * q3;
    assert(x == floor_div(sx, o));
    assert(y == floor_div(sy, o));
    lemma_floor_div(sx, o);
    lemma_floor_div(sy, o);
    let (r0, r1, r2, r3) = (t0 - o * m0, t1 - o * m1, t2 - o * m2, t3 - o * m3);
    let (w0, w1, w2, w3) = (u0 - o * q0, u1 - o * q1, u2 - o * q2, u3 - o * q3);
    crate::matrix::lemma_times_rem(o, m0, c0, t0);
    crate::matrix::lemma_times_rem(o, m1, c1, t1);
    crate::matrix::lemma_times_rem(o, m2, c2, t2);
    crate::matrix::lemma_times_rem(o, m3, c3, t3);
    lemma_distrib4(m0 * c0, m1 * c1, m2 * c2, m3 * c3, o);
    assert(o * sx == t0 * c0 + t1 * c1 + t2 * c2 + t3 * c3 - (r0 * c0 + r1 * c1 + r2 * c2 + r3 * c3));
    crate::matrix::lemma_times_rem(o, q0, a0, u0);
    crate::matrix::lemma_times_rem(o, q1, a1, u1);
    crate::matrix::lemma_times_rem(o, q2, a2, u2);
    crate::matrix::lemma_times_rem(o, q3, a3, u3);
    lemma_distrib4(a0 * q0, a1 * q1, a2 * q2, a3 * q3, o);
    assert(a0 * q0 == q0 * a0 && a0 * u0 == u0 * a0 && a0 * w0 == w0 * a0) by (nonlinear_arith);
    assert(a1 * q1 == q1 * a1 && a1 * u1 == u1 * a1 && a1 * w1 == w1 * a1) by (nonlinear_arith);
    assert(a2 * q2 == q2 * a2 && a2 * u2 == u2 * a2 && a2 * w2 == w2 * a2) by (nonlinear_arith);
    assert(a3 * q3 == q3 * a3 && a3 * u3 == u3 * a3 && a3 * w3 == w3 * a3) by (nonlinear_arith);
    assert(o * sy == a0 * u0 + a1 * u1 + a2 * u2 + a3 * u3 - (a0 * w0 + a1 * w1 + a2 * w2 + a3 * w3));
    lemma_triple_sum4(a0, a1, a2, a3, b, c0, c1, c2, c3);
    assert(abs(c0) <= e && abs(c1) <= e && abs(c2) <= e && abs(c3) <= e);
    assert(abs(a0) <= e && abs(a1) <= e && abs(a2) <= e && abs(a3) <= e);
    lemma_mul_bound(r0, c0, o, e);
    lemma_mul_bound(r1, c1, o, e);
    lemma_mul_bound(r2, c2, o, e);
    lemma_mul_bound(r3, c3, o, e);
    lemma_mul_bound(a0, w0, e, o);
    lemma_mul_bound(a1, w1, e, o);
    lemma_mul_bound(a2, w2, e, o);
    lemma_mul_bound(a3, w3, e, o);
    let rx = sx - o * x;
    let ry = sy - o * y;
    assert(o * (o * (x - y)) == o * sx - o * sy - o * rx + o * ry) by (nonlinear_arith)
        requires rx == sx - o * x, ry == sy - o * y;
    assert(abs(x - y) * o <= 8 * e + o) by (nonlinear_arith)
        requires
            o * (o * (x - y)) == o * sx - o * sy - o * rx + o * ry,
            o * sx - o * sy == (a0 * w0 + a1 * w1 + a2 * w2 + a3 * w3) - (r0 * c0 + r1 * c1 + r2 * c2 + r3 * c3),
            abs(r0 * c0) <= o * e, abs(r1 * c1) <= o * e, abs(r2 * c2) <= o * e, abs(r3 * c3) <= o * e,
            abs(a0 * w0) <= e * o, abs(a1 * w1) <= e * o, abs(a2 * w2) <= e * o, abs(a3 * w3) <= e * o,
            0 <= rx < o,
            0 <= ry < o,
            o > 0,
    ;
}

/// Multiplying 4×4 matrices is associative up to rounding: when every entry
/// of `a`, `b`, `c` has magnitude at most `e`, each entry of `(a · b) · c`
/// lies within `(8e + ONE) / ONE` raw units of `a · (b · c)`'s.
pub proof fn lemma_mul_assoc4(a: Matrix4x4, b: Matrix4x4, c: Matrix4x4, e: int)
    requires
        e >= 0,
        a.within(e),
        b.within(e),
        c.within(e),
    ensures
        forall|i: int, j: int| 0 <= i < 4 && 0 <= j < 4 ==>
            abs(#[trigger] mul4(mul4(a@, b@), c@)[i][j] - mul4(a@, mul4(b@, c@))[i][j]) * ONE <= 8 * e + ONE,
{
    assert forall|i: int, j: int| 0 <= i < 4 && 0 <= j < 4 implies
        abs(#[trigger] mul4(mul4(a@, b@), c@)[i][j] - mul4(a@, mul4(b@, c@))[i][j]) * ONE <= 8 * e + ONE by {
        lemma_assoc_entry4(a@, b@, c@, e, i, j);
    }
}

/// Turning about the zw plane and back again moves each coordinate by
/// at most `(2|coordinate| + 3 ONE) / ONE` raw units.
proof fn lemma_rotate_back_zw(v: Seq<int>, theta: Angle)
    requires
        theta.wf(),
        v.len() == 4,
    ensures
        forall|k: int| 0 <= k < 4 ==>
            turned_back(#[trigger] apply4(rot_zw(theta.opposite()), apply4(rot_zw(theta), v))[k], v[k]),
{
    let (c, s) = (theta.cos as int, theta.sin as int);
    let o = ONE as int;
    let back = theta.opposite();
    assert(back.cos as int == c && back.sin as int == -s);
    assert(forall|t: int| #[trigger] (0 * t) == 0 && t * 0 == 0);
    assert(forall|t: int| #![trigger (-s) * t] (-s) * t == -(s * t) && (-(-s)) * t == s * t) by {
        assert forall|t: int| #![trigger (-s) * t] (-s) * t == -(s * t) && (-(-s)) * t == s * t by {
            assert((-s) * t == -(s * t)) by (nonlinear_arith);
        }
    }
    lemma_rescale_one(v[0]);
    lemma_rescale_one(v[1]);
    lemma_rescale_one(v[2]);
    lemma_rescale_one(v[3]);
    lemma_turn_back(c, s, v[0], v[1]);
    let w = seq![floor_div(c * v[0] - s * v[1], o), floor_div(s * v[0] + c * v[1], o), v[2], v[3]];
    assert(apply4(rot_zw(theta), v) =~= w);
    lemma_rescale_one(w[2]);
    lemma_rescale_one(w[3]);
    assert(apply4(rot_zw(back), w) =~= seq![floor_div(c * w[0] + s * w[1], o), floor_div(c * w[1] - s * w[0], o), w[2], w[3]]);
}

/// Turning about the yw plane and back again moves each coordinate by
/// at most `(2|coordinate| + 3 ONE) / ONE` raw units.
proof fn lemma_rotate_back_yw(v: Seq<int>, theta: Angle)
    requires
        theta.wf(),
        v.len() == 4,
    ensures
        forall|k: int| 0 <= k < 4 ==>
            turned_back(#[trigger] apply4(rot_yw(theta.opposite()), apply4(rot_yw(theta), v))[k], v[k]),
{
    let (c, s) = (theta.cos as int, theta.sin as int);
    let o = ONE as int;
    let back = theta.opposite();
    assert(back.cos as int == c && back.sin as int == -s);
    assert(forall|t: int| #[trigger] (0 * t) == 0 && t * 0 == 0);
    assert(forall|t: int| #![trigger (-s) * t] (-s) * t == -(s * t) && (-(-s)) * t == s * t) by {
        assert forall|t: int| #![trigger (-s) * t] (-s) * t == -(s * t) && (-(-s)) * t == s * t by {
            assert((-s) * t == -(s * t)) by (nonlinear_arith);
        }
    }
    lemma_rescale_one(v[0]);
    lemma_rescale_one(v[1]);
    lemma_rescale_one(v[2]);
    lemma_rescale_one(v[3]);
    lemma_turn_back(c, s, v[0], v[2]);
    let w = seq![floor_div(c * v[0] - s * v[2], o), v[1], floor_div(s * v[0] + c * v[2], o), v[3]];
    assert(apply4(rot_yw(theta), v) =~= w);
    lemma_rescale_one(w[1]);
    lemma_rescale_one(w[3]);
    assert(apply4(rot_yw(back), w) =~= seq![floor_div(c * w[0] + s * w[2], o), w[1], floor_div(c * w[2] - s * w[0], o), w[3]]);
}

/// Turning about the yz plane and back again moves each coordinate by
/// at most `(2|coordinate| + 3 ONE) / ONE` raw units.
proof fn lemma_rotate_back_yz(v: Seq<int>, theta: Angle)
    requires
        theta.wf(),
        v.len() == 4,
    ensures
        forall|k: int| 0 <= k < 4 ==>
            turned_back(#[trigger] apply4(rot_yz(theta.opposite()), apply4(rot_yz(theta), v))[k], v[k]),
{
    let (c, s) = (theta.cos as int, theta.sin as int);
    let o = ONE as int;
    let back = theta.opposite();
    assert(back.cos as int == c && back.sin as int == -s);
    assert(forall|t: int| #[trigger] (0 * t) == 0 && t * 0 == 0);
    assert(forall|t: int| #![trigger (-s) * t] (-s) * t == -(s * t) && (-(-s)) * t == s * t) by {
        assert forall|t: int| #![trigger (-s) * t] (-s) * t == -(s * t) && (-(-s)) * t == s * t by {
            assert((-s) * t == -(s * t)) by (nonlinear_arith);
        }
    }
    lemma_rescale_one(v[0]);
    lemma_rescale_one(v[1]);
    lemma_rescale_one(v[2]);
    lemma_rescale_one(v[3]);
    lemma_turn_back(c, s, v[0], v[3]);
    let w = seq![floor_div(c * v[0] - s * v[3], o), v[1], v[2], floor_div(s * v[0] + c * v[3], o)];
    assert(apply4(rot_yz(theta), v) =~= w);
    lemma_rescale_one(w[1]);
    lemma_rescale_one(w[2]);
    assert(apply4(rot_yz(back), w) =~= seq![floor_div(c * w[0] + s * w[3], o), w[1], w[2], floor_div(c * w[3] - s * w[0], o)]);
}

/// Turning about the xw plane and back again moves each coordinate by
/// at most `(2|coordinate| + 3 ONE) / ONE` raw units.
proof fn lemma_rotate_back_xw(v: Seq<int>, theta: Angle)
    requires
        theta.wf(),
        v.len() == 4,
    ensures
        forall|k: int| 0 <= k < 4 ==>
            turned_back(#[trigger] apply4(rot_xw(theta.opposite()), apply4(rot_xw(theta), v))[k], v[k]),
{
    let (c, s) = (theta.cos as int, theta.sin as int);
    let o = ONE as int;
    let back = theta.opposite();
    assert(back.cos as int == c && back.sin as int == -s);
    assert(forall|t: int| #[trigger] (0 * t) == 0 && t * 0 == 0);
    assert(forall|t: int| #![trigger (-s) * t] (-s) * t == -(s * t) && (-(-s)) * t == s * t) by {
        assert forall|t: int| #![trigger (-s) * t] (-s) * t == -(s * t) && (-(-s)) * t == s * t by {
            assert((-s) * t == -(s * t)) by (nonlinear_arith);
        }
    }
    lemma_rescale_one(v[0]);
    lemma_rescale_one(v[1]);
    lemma_rescale_one(v[2]);
    lemma_rescale_one(v[3]);
    lemma_turn_back(c, s, v[1], v[2]);
    let w = seq![v[0], floor_div(c * v[1] - s * v[2], o), floor_div(s * v[1] + c * v[2], o), v[3]];
    assert(apply4(rot_xw(theta), v) =~= w);
    lemma_rescale_one(w[0]);
    lemma_rescale_one(w[3]);
    assert(apply4(rot_xw(back), w) =~= seq![w[0], floor_div(c * w[1] + s * w[2], o), floor_div(c * w[2] - s * w[1], o), w[3]]);
}

/// Turning about the xz plane and back again moves each coordinate by
/// at most `(2|coordinate| + 3 ONE) / ONE` raw units.
proof fn lemma_rotate_back_xz(v: Seq<int>, theta: Angle)
    requires
        theta.wf(),
        v.len() == 4,
    ensures
        forall|k: int| 0 <= k < 4 ==>
            turned_back(#[trigger] apply4(rot_xz(theta.opposite()), apply4(rot_xz(theta), v))[k], v[k]),
{
    let (c, s) = (theta.cos as int, theta.sin as int);
    let o = ONE as int;
    let back = theta.opposite();
    assert(back.cos as int == c && back.sin as int == -s);
    assert(forall|t: int| #[trigger] (0 * t) == 0 && t * 0 == 0);
    assert(forall|t: int| #![trigger (-s) * t] (-s) * t == -(s * t) && (-(-s)) * t == s * t) by {
        assert forall|t: int| #![trigger (-s) * t] (-s) * t == -(s * t) && (-(-s)) * t == s * t by {
            assert((-s) * t == -(s * t)) by (nonlinear_arith);
        }
    }
    lemma_rescale_one(v[0]);
    lemma_rescale_one(v[1]);
    lemma_rescale_one(v[2]);
    lemma_rescale_one(v[3]);
    lemma_turn_back(c, s, v[1], v[3]);
    let w = seq![v[0], floor_div(c * v[1] - s * v[3], o), v[2], floor_div(s * v[1] + c * v[3], o)];
    assert(apply4(rot_xz(theta), v) =~= w);
    lemma_rescale_one(w[0]);
    lemma_rescale_one(w[2]);
    assert(apply4(rot_xz(back), w) =~= seq![w[0], floor_div(c * w[1] + s * w[3], o), w[2], floor_div(c * w[3] - s * w[1], o)]);
}

/// Turning about the xy plane and back again moves each coordinate by
/// at most `(2|coordinate| + 3 ONE) / ONE` raw units.
proof fn lemma_rotate_back_xy(v: Seq<int>, theta: Angle)
    requires
        theta.wf(),
        v.len() == 4,
    ensures
        forall|k: int| 0 <= k < 4 ==>
            turned_back(#[trigger] apply4(rot_xy(theta.opposite()), apply4(rot_xy(theta), v))[k], v[k]),
{
    let (c, s) = (theta.cos as int, theta.sin as int);
    let o = ONE as int;
    let back = theta.opposite();
    assert(back.cos as int == c && back.sin as int == -s);
    assert(forall|t: int| #[trigger] (0 * t) == 0 && t * 0 == 0);
    assert(forall|t: int| #![trigger (-s) * t] (-s) * t == -(s * t) && (-(-s)) * t == s * t) by {
        assert forall|t: int| #![trigger (-s) * t] (-s) * t == -(s * t) && (-(-s)) * t == s * t by {
            assert((-s) * t == -(s * t)) by (nonlinear_arith);
        }
    }
    lemma_rescale_one(v[0]);
    lemma_rescale_one(v[1]);
    lemma_rescale_one(v[2]);
    lemma_rescale_one(v[3]);
    lemma_turn_back(c, s, v[2], v[3]);
    let w = seq![v[0], v[1], floor_div(c * v[2] - s * v[3], o), floor_div(s * v[2] + c * v[3], o)];
    assert(apply4(rot_xy(theta), v) =~= w);
    lemma_rescale_one(w[0]);
    lemma_rescale_one(w[1]);
    assert(apply4(rot_xy(back), w) =~= seq![w[0], w[1], floor_div(c * w[2] + s * w[3], o), floor_div(c * w[3] - s * w[2], o)]);
}

/// Turning a point about any plane by `theta` and then by `-theta` gives
/// the point back, up to rounding: each coordinate lands within
/// `(2|coordinate| + 3 ONE) / ONE` raw units of where it started.
pub proof fn lemma_rotate_back4(p: Point, theta: Angle)
    requires
        theta.wf(),
    ensures
        forall|i: int| 0 <= i < 4 ==> {
            &&& turned_back(#[trigger] apply4(rot_zw(theta.opposite()), apply4(rot_zw(theta), p@))[i], p@[i])
            &&& turned_back(apply4(rot_yw(theta.opposite()), apply4(rot_yw(theta), p@))[i], p@[i])
            &&& turned_back(apply4(rot_yz(theta.opposite()), apply4(rot_yz(theta), p@))[i], p@[i])
            &&& turned_back(apply4(rot_xw(theta.opposite()), apply4(rot_xw(theta), p@))[i], p@[i])
            &&& turned_back(apply4(rot_xz(theta.opposite()), apply4(rot_xz(theta), p@))[i], p@[i])
            &&& turned_back(apply4(rot_xy(theta.opposite()), apply4(rot_xy(theta), p@))[i], p@[i])
        },
{
    lemma_rotate_back_zw(p@, theta);
    lemma_rotate_back_yw(p@, theta);
    lemma_rotate_back_yz(p@, theta);
    lemma_rotate_back_xw(p@, theta);
    lemma_rotate_back_xz(p@, theta);
    lemma_rotate_back_xy(p@, theta);
}

} // verus!
