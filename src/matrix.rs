//! 3×3 matrices and the rotations about the coordinate axes.
use vstd::prelude::*;
use crate::fixed::{near, abs, floor_div, div_floor, lemma_mul_bound, lemma_floor_div, Angle, ONE, MAX_COORD, MAX_ENTRY};
use crate::point::Point;

pub mod fourd;

verus! {

/// `a · b` for vectors of length three.
pub open spec fn dot3(a: Seq<int>, b: Seq<int>) -> int {
    a[0] * b[0] + a[1] * b[1] + a[2] * b[2]
}

/// Column `j` of a 3×3 matrix.
pub open spec fn col3(m: Seq<Seq<int>>, j: int) -> Seq<int> {
    seq![m[0][j], m[1][j], m[2][j]]
}

/// The fixed-point product `m · v`: each entry is rounded down once.
pub open spec fn apply3(m: Seq<Seq<int>>, v: Seq<int>) -> Seq<int> {
    seq![
        floor_div(dot3(m[0], v), ONE as int),
        floor_div(dot3(m[1], v), ONE as int),
        floor_div(dot3(m[2], v), ONE as int),
    ]
}

/// The fixed-point product `a · b`: each entry is rounded down once.
pub open spec fn mul3(a: Seq<Seq<int>>, b: Seq<Seq<int>>) -> Seq<Seq<int>> {
    Seq::new(3, |i: int| Seq::new(3, |j: int| floor_div(dot3(a[i], col3(b, j)), ONE as int)))
}

/// The transpose of a 3×3 matrix.
pub open spec fn transpose3(m: Seq<Seq<int>>) -> Seq<Seq<int>> {
    Seq::new(3, |i: int| col3(m, i))
}

/// The identity, `ONE` on the diagonal.
pub open spec fn identity3() -> Seq<Seq<int>> {
    Seq::new(3, |i: int| Seq::new(3, |j: int| if i == j { ONE as int } else { 0 }))
}

/// Rotation about the x axis: y and z turn, y towards z.
pub open spec fn rot_x(a: Angle) -> Seq<Seq<int>> {
    seq![
        seq![ONE as int, 0, 0],
        seq![0, a.cos as int, -a.sin],
        seq![0, a.sin as int, a.cos as int],
    ]
}

/// Rotation about the y axis: z and x turn, z towards x.
pub open spec fn rot_y(a: Angle) -> Seq<Seq<int>> {
    seq![
        seq![a.cos as int, 0, a.sin as int],
        seq![0, ONE as int, 0],
        seq![-a.sin, 0, a.cos as int],
    ]
}

/// Rotation about the z axis: x and y turn, x towards y.
pub open spec fn rot_z(a: Angle) -> Seq<Seq<int>> {
    seq![
        seq![a.cos as int, -a.sin, 0],
        seq![a.sin as int, a.cos as int, 0],
        seq![0, 0, ONE as int],
    ]
}

/// A 3×3 matrix of fixed-point entries, row by row.
#[derive(Debug, Clone, Copy, Default, PartialEq, Eq)]
pub struct Matrix3x3(pub [[i64; 3]; 3]);

impl View for Matrix3x3 {
    type V = Seq<Seq<int>>;

    open spec fn view(&self) -> Seq<Seq<int>> {
        Seq::new(3, |i: int| Seq::new(3, |j: int| self.0[i][j] as int))
    }
}

impl Matrix3x3 {
    /// Every entry has magnitude at most `b`.
    pub open spec fn within(self, b: int) -> bool {
        forall|i: int, j: int| 0 <= i < 3 && 0 <= j < 3 ==> abs(#[trigger] self.0[i][j] as int) <= b
    }

    /// Rotation matrix about the x axis by `theta`.
    pub fn rotate_x_theta(theta: Angle) -> (r: Matrix3x3)
        requires
            theta.wf(),
        ensures
            r@ == rot_x(theta),
            r.within(ONE as int),
    {
        let (c, s) = (theta.cos, theta.sin);
        let r = Matrix3x3([[ONE, 0, 0], [0, c, -s], [0, s, c]]);
        assert(r@ =~~= rot_x(theta));
        r
    }

    /// Rotation matrix about the y axis by `theta`.
    pub fn rotate_y_theta(theta: Angle) -> (r: Matrix3x3)
        requires
            theta.wf(),
        ensures
            r@ == rot_y(theta),
            r.within(ONE as int),
    {
        let (c, s) = (theta.cos, theta.sin);
        let r = Matrix3x3([[c, 0, s], [0, ONE, 0], [-s, 0, c]]);
        assert(r@ =~~= rot_y(theta));
        r
    }

    /// Rotation matrix about the z axis by `theta`.
    pub fn rotate_z_theta(theta: Angle) -> (r: Matrix3x3)
        requires
            theta.wf(),
        ensures
            r@ == rot_z(theta),
            r.within(ONE as int),
    {
        let (c, s) = (theta.cos, theta.sin);
        let r = Matrix3x3([[c, -s, 0], [s, c, 0], [0, 0, ONE]]);
        assert(r@ =~~= rot_z(theta));
        r
    }

    /// The identity matrix.
    pub fn identity() -> (r: Matrix3x3)
        ensures
            r@ == identity3(),
    {
        let r = Matrix3x3([[ONE, 0, 0], [0, ONE, 0], [0, 0, ONE]]);
        assert(r@ =~~= identity3());
        r
    }

    /// Entry `(i, j)` of `self · rhs`.
    fn product_entry(&self, rhs: &Matrix3x3, i: usize, j: usize) -> (r: i64)
        requires
            i < 3,
            j < 3,
            self.within(MAX_ENTRY as int),
            rhs.within(MAX_ENTRY as int),
        ensures
            r == floor_div(dot3(self@[i as int], col3(rhs@, j as int)), ONE as int),
    {
        let a = self.0[i];
        proof {
            let e = MAX_ENTRY as int;
            lemma_mul_bound(a[0] as int, rhs.0[0][j as int] as int, e, e);
            lemma_mul_bound(a[1] as int, rhs.0[1][j as int] as int, e, e);
            lemma_mul_bound(a[2] as int, rhs.0[2][j as int] as int, e, e);
        }
        let sum = a[0] as i128 * rhs.0[0][j] as i128 + a[1] as i128 * rhs.0[1][j] as i128
            + a[2] as i128 * rhs.0[2][j] as i128;
        let q = div_floor(sum, ONE as i128);
        proof {
            lemma_floor_div(sum as int, ONE as int);
        }
        q as i64
    }

    /// The matrix product `self · rhs`.
    pub fn mul(&self, rhs: &Matrix3x3) -> (r: Matrix3x3)
        requires
            self.within(MAX_ENTRY as int),
            rhs.within(MAX_ENTRY as int),
        ensures
            r@ == mul3(self@, rhs@),
    {
        let r = Matrix3x3([
            [self.product_entry(rhs, 0, 0), self.product_entry(rhs, 0, 1), self.product_entry(rhs, 0, 2)],
            [self.product_entry(rhs, 1, 0), self.product_entry(rhs, 1, 1), self.product_entry(rhs, 1, 2)],
            [self.product_entry(rhs, 2, 0), self.product_entry(rhs, 2, 1), self.product_entry(rhs, 2, 2)],
        ]);
        assert(r@ =~~= mul3(self@, rhs@));
        r
    }

    /// Row `i` of `self` times `p`, rounded down.
    fn row_times(&self, i: usize, p: &Point) -> (r: i64)
        requires
            i < 3,
            self.within(MAX_ENTRY as int),
            p.within(MAX_COORD as int),
        ensures
            r == floor_div(dot3(self@[i as int], p@), ONE as int),
    {
        let a = self.0[i];
        proof {
            let (e, c) = (MAX_ENTRY as int, MAX_COORD as int);
            lemma_mul_bound(a[0] as int, p.0[0] as int, e, c);
            lemma_mul_bound(a[1] as int, p.0[1] as int, e, c);
            lemma_mul_bound(a[2] as int, p.0[2] as int, e, c);
        }
        let sum = a[0] as i128 * p.0[0] as i128 + a[1] as i128 * p.0[1] as i128
            + a[2] as i128 * p.0[2] as i128;
        let q = div_floor(sum, ONE as i128);
        proof {
            lemma_floor_div(sum as int, ONE as int);
        }
        q as i64
    }

    /// The product `self · p`.
    pub fn mul_point(&self, p: &Point) -> (r: Point)
        requires
            self.within(MAX_ENTRY as int),
            p.within(MAX_COORD as int),
        ensures
            r@ == apply3(self@, p@),
    {
        let r = Point([self.row_times(0, p), self.row_times(1, p), self.row_times(2, p)]);
        assert(r@ =~= apply3(self@, p@));
        r
    }

    /// The entrywise sum `self + rhs`.
    pub fn add(&self, rhs: &Matrix3x3) -> (r: Matrix3x3)
        requires
            forall|i: int, j: int| 0 <= i < 3 && 0 <= j < 3 ==> i64::MIN <= #[trigger] self@[i][j] + rhs@[i][j] <= i64::MAX,
        ensures
            forall|i: int, j: int| 0 <= i < 3 && 0 <= j < 3 ==> #[trigger] r@[i][j] == self@[i][j] + rhs@[i][j],
    {
        proof {
            assert(i64::MIN <= self@[0][0] + rhs@[0][0] <= i64::MAX);
            assert(i64::MIN <= self@[0][1] + rhs@[0][1] <= i64::MAX);
            assert(i64::MIN <= self@[0][2] + rhs@[0][2] <= i64::MAX);
            assert(i64::MIN <= self@[1][0] + rhs@[1][0] <= i64::MAX);
            assert(i64::MIN <= self@[1][1] + rhs@[1][1] <= i64::MAX);
            assert(i64::MIN <= self@[1][2] + rhs@[1][2] <= i64::MAX);
            assert(i64::MIN <= self@[2][0] + rhs@[2][0] <= i64::MAX);
            assert(i64::MIN <= self@[2][1] + rhs@[2][1] <= i64::MAX);
            assert(i64::MIN <= self@[2][2] + rhs@[2][2] <= i64::MAX);
        }
        let (a, b) = (self.0, rhs.0);
        Matrix3x3([
            [a[0][0] + b[0][0], a[0][1] + b[0][1], a[0][2] + b[0][2]],
            [a[1][0] + b[1][0], a[1][1] + b[1][1], a[1][2] + b[1][2]],
            [a[2][0] + b[2][0], a[2][1] + b[2][1], a[2][2] + b[2][2]],
        ])
    }

    /// Every entry times the fixed-point scalar `k`, rounded down.
    pub fn scale(&self, k: i64) -> (r: Matrix3x3)
        requires
            self.within(MAX_COORD as int),
            abs(k as int) <= MAX_ENTRY,
        ensures
            forall|i: int, j: int| 0 <= i < 3 && 0 <= j < 3 ==>
                #[trigger] r@[i][j] == floor_div(self@[i][j] * k, ONE as int),
    {
        let a = self.0;
        let r = Matrix3x3([
            [scale_entry(a[0][0], k), scale_entry(a[0][1], k), scale_entry(a[0][2], k)],
            [scale_entry(a[1][0], k), scale_entry(a[1][1], k), scale_entry(a[1][2], k)],
            [scale_entry(a[2][0], k), scale_entry(a[2][1], k), scale_entry(a[2][2], k)],
        ]);
        r
    }

    /// Every entry plus the scalar `k`.
    pub fn add_scalar(&self, k: i64) -> (r: Matrix3x3)
        requires
            forall|i: int, j: int| 0 <= i < 3 && 0 <= j < 3 ==> i64::MIN <= #[trigger] self@[i][j] + k <= i64::MAX,
        ensures
            forall|i: int, j: int| 0 <= i < 3 && 0 <= j < 3 ==> #[trigger] r@[i][j] == self@[i][j] + k,
    {
        proof {
            assert(i64::MIN <= self@[0][0] + k <= i64::MAX);
            assert(i64::MIN <= self@[0][1] + k <= i64::MAX);
            assert(i64::MIN <= self@[0][2] + k <= i64::MAX);
            assert(i64::MIN <= self@[1][0] + k <= i64::MAX);
            assert(i64::MIN <= self@[1][1] + k <= i64::MAX);
            assert(i64::MIN <= self@[1][2] + k <= i64::MAX);
            assert(i64::MIN <= self@[2][0] + k <= i64::MAX);
            assert(i64::MIN <= self@[2][1] + k <= i64::MAX);
            assert(i64::MIN <= self@[2][2] + k <= i64::MAX);
        }
        let a = self.0;
        Matrix3x3([
            [a[0][0] + k, a[0][1] + k, a[0][2] + k],
            [a[1][0] + k, a[1][1] + k, a[1][2] + k],
            [a[2][0] + k, a[2][1] + k, a[2][2] + k],
        ])
    }
}

/// The fixed-point product `x * k`, rounded down.
pub fn scale_entry(x: i64, k: i64) -> (r: i64)
    requires
        abs(x as int) <= MAX_COORD,
        abs(k as int) <= MAX_ENTRY,
    ensures
        r == floor_div(x * k, ONE as int),
        abs(r as int) <= abs(x as int) * abs(k as int) / (ONE as int) + 1,
{
    proof {
        lemma_mul_bound(x as int, k as int, MAX_COORD as int, MAX_ENTRY as int);
    }
    let q = div_floor(x as i128 * k as i128, ONE as i128);
    proof {
        lemma_floor_div(x * k, ONE as int);
        lemma_floor_div(abs(x as int) * abs(k as int), ONE as int);
        assert(abs(x * k) == abs(x as int) * abs(k as int)) by (nonlinear_arith);
    }
    q as i64
}

/// Entry `(i, j)` of `m · mᵀ` is row `i` dotted with row `j`, rescaled.
proof fn lemma_gram3(m: Seq<Seq<int>>, i: int, j: int)
    requires
        0 <= i < 3,
        0 <= j < 3,
    ensures
        mul3(m, transpose3(m))[i][j] == floor_div(dot3(m[i], m[j]), ONE as int),
{
    assert(col3(transpose3(m), j) =~= seq![m[j][0], m[j][1], m[j][2]]);
}

/// Rescaling `ONE * ONE` and `0`.
proof fn lemma_rescale_exact()
    ensures
        floor_div(ONE * ONE, ONE as int) == ONE,
        floor_div(0, ONE as int) == 0,
{
    vstd::arithmetic::div_mod::lemma_div_multiples_vanish(ONE as int, ONE as int);
}

/// The rotations about the axes are orthonormal up to rounding: each entry
/// of `R · Rᵀ` is within two raw units of the identity's.
pub proof fn lemma_rotation_orthonormal3(theta: Angle)
    requires
        theta.wf(),
    ensures
        forall|i: int, j: int| 0 <= i < 3 && 0 <= j < 3 ==> {
            &&& near(#[trigger] mul3(rot_x(theta), transpose3(rot_x(theta)))[i][j], identity3()[i][j], 2)
            &&& near(mul3(rot_y(theta), transpose3(rot_y(theta)))[i][j], identity3()[i][j], 2)
            &&& near(mul3(rot_z(theta), transpose3(rot_z(theta)))[i][j], identity3()[i][j], 2)
        },
{
    let (c, s) = (theta.cos as int, theta.sin as int);
    crate::fixed::lemma_unit_circle(theta);
    lemma_rescale_exact();
    assert(c * s == s * c && c * c + s * s == s * s + c * c) by (nonlinear_arith);
    assert(c * (-s) + s * c == 0 && (-s) * c + c * s == 0) by (nonlinear_arith);
    assert(s * (-s) == -(s * s) && (-s) * (-s) == s * s) by (nonlinear_arith);
    assert forall|i: int, j: int| 0 <= i < 3 && 0 <= j < 3 implies {
        &&& near(#[trigger] mul3(rot_x(theta), transpose3(rot_x(theta)))[i][j], identity3()[i][j], 2)
        &&& near(mul3(rot_y(theta), transpose3(rot_y(theta)))[i][j], identity3()[i][j], 2)
        &&& near(mul3(rot_z(theta), transpose3(rot_z(theta)))[i][j], identity3()[i][j], 2)
    } by {
        lemma_gram3(rot_x(theta), i, j);
        lemma_gram3(rot_y(theta), i, j);
        lemma_gram3(rot_z(theta), i, j);
        assert(0 * c == 0 && c * 0 == 0 && 0 * s == 0 && s * 0 == 0);
        assert(0 * (-s) == 0 && (-s) * 0 == 0 && 0 * ONE == 0 && ONE * 0 == 0);
        if i == 0 && j == 0 {
            assert(dot3(rot_x(theta)[0], rot_x(theta)[0]) == ONE * ONE);
            assert(dot3(rot_y(theta)[0], rot_y(theta)[0]) == c * c + s * s);
            assert(dot3(rot_z(theta)[0], rot_z(theta)[0]) == c * c + s * s);
        } else if i == 0 && j == 1 {
            assert(dot3(rot_x(theta)[0], rot_x(theta)[1]) == 0);
            assert(dot3(rot_y(theta)[0], rot_y(theta)[1]) == 0);
            assert(dot3(rot_z(theta)[0], rot_z(theta)[1]) == 0);
        } else if i == 0 && j == 2 {
            assert(dot3(rot_x(theta)[0], rot_x(theta)[2]) == 0);
            assert(dot3(rot_y(theta)[0], rot_y(theta)[2]) == 0);
            assert(dot3(rot_z(theta)[0], rot_z(theta)[2]) == 0);
        } else if i == 1 && j == 0 {
            assert(dot3(rot_x(theta)[1], rot_x(theta)[0]) == 0);
            assert(dot3(rot_y(theta)[1], rot_y(theta)[0]) == 0);
            assert(dot3(rot_z(theta)[1], rot_z(theta)[0]) == 0);
        } else if i == 1 && j == 1 {
            assert(dot3(rot_x(theta)[1], rot_x(theta)[1]) == c * c + s * s);
            assert(dot3(rot_y(theta)[1], rot_y(theta)[1]) == ONE * ONE);
            assert(dot3(rot_z(theta)[1], rot_z(theta)[1]) == c * c + s * s);
        } else if i == 1 && j == 2 {
            assert(dot3(rot_x(theta)[1], rot_x(theta)[2]) == 0);
            assert(dot3(rot_y(theta)[1], rot_y(theta)[2]) == 0);
            assert(dot3(rot_z(theta)[1], rot_z(theta)[2]) == 0);
        } else if i == 2 && j == 0 {
            assert(dot3(rot_x(theta)[2], rot_x(theta)[0]) == 0);
            assert(dot3(rot_y(theta)[2], rot_y(theta)[0]) == 0);
            assert(dot3(rot_z(theta)[2], rot_z(theta)[0]) == 0);
        } else if i == 2 && j == 1 {
            assert(dot3(rot_x(theta)[2], rot_x(theta)[1]) == 0);
            assert(dot3(rot_y(theta)[2], rot_y(theta)[1]) == 0);
            assert(dot3(rot_z(theta)[2], rot_z(theta)[1]) == 0);
        } else if i == 2 && j == 2 {
            assert(dot3(rot_x(theta)[2], rot_x(theta)[2]) == c * c + s * s);
            assert(dot3(rot_y(theta)[2], rot_y(theta)[2]) == c * c + s * s);
            assert(dot3(rot_z(theta)[2], rot_z(theta)[2]) == ONE * ONE);
        }
    }
}

/// Rescaling `ONE * x` gives `x` back.
pub proof fn lemma_rescale_one(x: int)
    ensures
        floor_div(ONE * x, ONE as int) == x,
        floor_div(x * ONE, ONE as int) == x,
{
    vstd::arithmetic::div_mod::lemma_div_multiples_vanish(x, ONE as int);
    assert(ONE * x == x * ONE) by (nonlinear_arith);
}

/// `o * (x + y - r) == o * x + o * y - o * r`.
proof fn lemma_scale_sum(o: int, x: int, y: int, r: int)
    ensures
        o * (x + y - r) == o * x + o * y - o * r,
        o * (x - y - r) == o * x - o * y - o * r,
{
    assert(o * (x + y - r) == o * x + o * y - o * r) by (nonlinear_arith);
    assert(o * (x - y - r) == o * x - o * y - o * r) by (nonlinear_arith);
}

/// `o * (c * v) == c * (o * v)`.
proof fn lemma_swap(o: int, c: int, v: int)
    ensures
        o * (c * v) == c * (o * v),
{
    assert(o * (c * v) == c * (o * v)) by (nonlinear_arith);
}

/// Turning the pair `(u, v)` by a valid angle and back again moves each
/// entry by at most `(2|entry| + 3 ONE) / ONE` raw units.
pub proof fn lemma_turn_back(c: int, s: int, u: int, v: int)
    requires
        (Angle { cos: c as i64, sin: s as i64 }).wf(),
        c == c as i64,
        s == s as i64,
    ensures
        ({
            let u1 = floor_div(c * u - s * v, ONE as int);
            let v1 = floor_div(s * u + c * v, ONE as int);
            let u2 = floor_div(c * u1 + s * v1, ONE as int);
            let v2 = floor_div(c * v1 - s * u1, ONE as int);
            &&& abs(u2 - u) * ONE <= 2 * abs(u) + 3 * ONE
            &&& abs(v2 - v) * ONE <= 2 * abs(v) + 3 * ONE
        }),
{
    let o = ONE as int;
    let u1 = floor_div(c * u - s * v, o);
    let v1 = floor_div(s * u + c * v, o);
    let u2 = floor_div(c * u1 + s * v1, o);
    let v2 = floor_div(c * v1 - s * u1, o);
    lemma_floor_div(c * u - s * v, o);
    lemma_floor_div(s * u + c * v, o);
    lemma_floor_div(c * u1 + s * v1, o);
    lemma_floor_div(c * v1 - s * u1, o);
    let r1 = c * u - s * v - o * u1;
    let r2 = s * u + c * v - o * v1;
    let r3 = c * u1 + s * v1 - o * u2;
    let r4 = c * v1 - s * u1 - o * v2;
    let d = c * c + s * s - o * o;
    lemma_scale_sum(o, c * u1, s * v1, r3);
    lemma_scale_sum(o, c * v1, -(s * u1), r4);
    lemma_swap(o, c, u1);
    lemma_swap(o, s, v1);
    lemma_swap(o, c, v1);
    lemma_swap(o, s, u1);
    assert(o * (o * u2) == c * (o * u1) + s * (o * v1) - o * r3);
    assert(o * (o * v2) == c * (o * v1) - s * (o * u1) - o * r4);
    assert(c * (c * u - s * v - r1) + s * (s * u + c * v - r2) == (c * c + s * s) * u - c * r1 - s * r2)
        by (nonlinear_arith);
    assert(c * (s * u + c * v - r2) - s * (c * u - s * v - r1) == (c * c + s * s) * v + s * r1 - c * r2)
        by (nonlinear_arith);
    assert(o * o * u2 == o * (o * u2) && o * o * v2 == o * (o * v2)) by (nonlinear_arith);
    assert((o * o + d) * u == (c * c + s * s) * u && (o * o + d) * v == (c * c + s * s) * v);
    assert(o * o * u2 == (o * o + d) * u - c * r1 - s * r2 - o * r3);
    assert(o * o * v2 == (o * o + d) * v + s * r1 - c * r2 - o * r4);
    lemma_mul_bound(d, u, 2 * o, abs(u));
    lemma_mul_bound(d, v, 2 * o, abs(v));
    lemma_mul_bound(c, r1, o, o);
    lemma_mul_bound(s, r2, o, o);
    lemma_mul_bound(s, r1, o, o);
    lemma_mul_bound(c, r2, o, o);
    lemma_mul_bound(o, r3, o, o);
    lemma_mul_bound(o, r4, o, o);
    assert(abs(u2 - u) * o <= 2 * abs(u) + 3 * o) by (nonlinear_arith)
        requires
            o * o * u2 == (o * o + d) * u - c * r1 - s * r2 - o * r3,
            abs(d * u) <= 2 * o * abs(u),
            abs(c * r1) <= o * o,
            abs(s * r2) <= o * o,
            abs(o * r3) <= o * o,
            o > 0,
    ;
    assert(abs(v2 - v) * o <= 2 * abs(v) + 3 * o) by (nonlinear_arith)
        requires
            o * o * v2 == (o * o + d) * v + s * r1 - c * r2 - o * r4,
            abs(d * v) <= 2 * o * abs(v),
            abs(s * r1) <= o * o,
            abs(c * r2) <= o * o,
            abs(o * r4) <= o * o,
            o > 0,
    ;
}

/// How far a coordinate `b` may land from where it started, `a`, after a
/// turn and the opposite turn: `(2|a| + 3 ONE) / ONE` raw units.
pub open spec fn turned_back(b: int, a: int) -> bool {
    abs(b - a) * ONE <= 2 * abs(a) + 3 * ONE
}

/// Turning a point about any axis by `theta` and then by `-theta` gives the
/// point back, up to rounding: each coordinate lands within
/// `(2|coordinate| + 3 ONE) / ONE` raw units of where it started.
pub proof fn lemma_rotate_back3(p: Point, theta: Angle)
    requires
        theta.wf(),
    ensures
        forall|i: int| 0 <= i < 3 ==> {
            &&& turned_back(#[trigger] apply3(rot_x(theta.opposite()), apply3(rot_x(theta), p@))[i], p@[i])
            &&& turned_back(apply3(rot_y(theta.opposite()), apply3(rot_y(theta), p@))[i], p@[i])
            &&& turned_back(apply3(rot_z(theta.opposite()), apply3(rot_z(theta), p@))[i], p@[i])
        },
{
    let (c, s) = (theta.cos as int, theta.sin as int);
    let (x, y, z) = (p@[0], p@[1], p@[2]);
    let o = ONE as int;
    let back = theta.opposite();
    assert(back.cos as int == c && back.sin as int == -s);
    assert(0 * c == 0 && c * 0 == 0 && 0 * s == 0 && s * 0 == 0 && 0 * (-s) == 0 && (-s) * 0 == 0);
    assert(forall|t: int| #[trigger] (0 * t) == 0 && t * 0 == 0);
    assert(forall|t: int| #![trigger (-s) * t] (-s) * t == -(s * t) && (-(-s)) * t == s * t) by {
        assert forall|t: int| #![trigger (-s) * t] (-s) * t == -(s * t) && (-(-s)) * t == s * t by {
            assert((-s) * t == -(s * t)) by (nonlinear_arith);
        }
    }
    assert(forall|t: int| #[trigger] turned_back(t, x) <==> abs(t - x) * o <= 2 * abs(x) + 3 * o);
    lemma_rescale_one(x);
    lemma_rescale_one(y);
    lemma_rescale_one(z);
    // about x: y and z turn
    lemma_turn_back(c, s, y, z);
    let y1 = floor_div(c * y - s * z, o);
    let z1 = floor_div(s * y + c * z, o);
    assert(apply3(rot_x(theta), p@) == seq![x, y1, z1]);
    lemma_rescale_one(y1);
    lemma_rescale_one(z1);
    assert(apply3(rot_x(back), seq![x, y1, z1]) == seq![
        x,
        floor_div(c * y1 + s * z1, o),
        floor_div(c * z1 - s * y1, o),
    ]);
    // about y: z and x turn
    lemma_turn_back(c, s, z, x);
    let z2 = floor_div(c * z - s * x, o);
    let x2 = floor_div(s * z + c * x, o);
    assert(apply3(rot_y(theta), p@) == seq![x2, y, z2]);
    assert(apply3(rot_y(back), seq![x2, y, z2]) == seq![
        floor_div(c * x2 - s * z2, o),
        y,
        floor_div(c * z2 + s * x2, o),
    ]);
    // about z: x and y turn
    lemma_turn_back(c, s, x, y);
    let x3 = floor_div(c * x - s * y, o);
    let y3 = floor_div(s * x + c * y, o);
    assert(apply3(rot_z(theta), p@) == seq![x3, y3, z]);
    assert(apply3(rot_z(back), seq![x3, y3, z]) == seq![
        floor_div(c * x3 + s * y3, o),
        floor_div(c * y3 - s * x3, o),
        z,
    ]);
}

/// `ONE * (p * c)` is `t * c` less the rounding, where `p` is `t / ONE` rounded down.
pub(crate) proof fn lemma_times_rem(o: int, p: int, c: int, t: int)
    ensures
        o * (p * c) == t * c - (t - o * p) * c,
{
    assert(o * (p * c) == t * c - (t - o * p) * c) by (nonlinear_arith);
}

/// Multiplication distributes over a sum of three.
proof fn lemma_distrib3(x: int, y: int, z: int, w: int)
    ensures
        w * (x + y + z) == w * x + w * y + w * z,
        (x + y + z) * w == x * w + y * w + z * w,
{
    assert(w * (x + y + z) == w * x + w * y + w * z) by (nonlinear_arith);
    assert((x + y + z) * w == x * w + y * w + z * w) by (nonlinear_arith);
}

/// The triple sum `Σ_l (Σ_k a_k b_kl) c_l` summed either way round.
proof fn lemma_triple_sum(a0: int, a1: int, a2: int, b: Seq<Seq<int>>, c0: int, c1: int, c2: int)
    ensures
        (a0 * b[0][0] + a1 * b[1][0] + a2 * b[2][0]) * c0 + (a0 * b[0][1] + a1 * b[1][1] + a2 * b[2][1]) * c1
            + (a0 * b[0][2] + a1 * b[1][2] + a2 * b[2][2]) * c2
        == a0 * (b[0][0] * c0 + b[0][1] * c1 + b[0][2] * c2) + a1 * (b[1][0] * c0 + b[1][1] * c1 + b[1][2] * c2)
            + a2 * (b[2][0] * c0 + b[2][1] * c1 + b[2][2] * c2),
{
    lemma_distrib3(a0 * b[0][0], a1 * b[1][0], a2 * b[2][0], c0);
    lemma_distrib3(a0 * b[0][1], a1 * b[1][1], a2 * b[2][1], c1);
    lemma_distrib3(a0 * b[0][2], a1 * b[1][2], a2 * b[2][2], c2);
    lemma_distrib3(b[0][0] * c0, b[0][1] * c1, b[0][2] * c2, a0);
    lemma_distrib3(b[1][0] * c0, b[1][1] * c1, b[1][2] * c2, a1);
    lemma_distrib3(b[2][0] * c0, b[2][1] * c1, b[2][2] * c2, a2);
    vstd::arithmetic::mul::lemma_mul_is_associative(a0, b[0][0], c0);
    vstd::arithmetic::mul::lemma_mul_is_associative(a0, b[0][1], c1);
    vstd::arithmetic::mul::lemma_mul_is_associative(a0, b[0][2], c2);
    vstd::arithmetic::mul::lemma_mul_is_associative(a1, b[1][0], c0);
    vstd::arithmetic::mul::lemma_mul_is_associative(a1, b[1][1], c1);
    vstd::arithmetic::mul::lemma_mul_is_associative(a1, b[1][2], c2);
    vstd::arithmetic::mul::lemma_mul_is_associative(a2, b[2][0], c0);
    vstd::arithmetic::mul::lemma_mul_is_associative(a2, b[2][1], c1);
    vstd::arithmetic::mul::lemma_mul_is_associative(a2, b[2][2], c2);
}

/// `(a · b) · c` and `a · (b · c)` differ by at most `(6e + ONE) / ONE`
/// raw units in entry `(i, j)` when every entry has magnitude at most `e`.
proof fn lemma_assoc_entry(a: Seq<Seq<int>>, b: Seq<Seq<int>>, c: Seq<Seq<int>>, e: int, i: int, j: int)
    requires
        0 <= i < 3,
        0 <= j < 3,
        e >= 0,
        forall|r: int, k: int| 0 <= r < 3 && 0 <= k < 3 ==> abs(#[trigger] a[r][k]) <= e,
        forall|r: int, k: int| 0 <= r < 3 && 0 <= k < 3 ==> abs(#[trigger] c[r][k]) <= e,
    ensures
        abs(mul3(mul3(a, b), c)[i][j] - mul3(a, mul3(b, c))[i][j]) * ONE <= 6 * e + ONE,
{
    let o = ONE as int;
    let ab = mul3(a, b);
    let bc = mul3(b, c);
    let (a0, a1, a2) = (a[i][0], a[i][1], a[i][2]);
    let (c0, c1, c2) = (c[0][j], c[1][j], c[2][j]);
    // row i of a · b, and column j of b · c
    let (m0, m1, m2) = (ab[i][0], ab[i][1], ab[i][2]);
    let (q0, q1, q2) = (bc[0][j], bc[1][j], bc[2][j]);
    let t0 = a0 * b[0][0] + a1 * b[1][0] + a2 * b[2][0];
    let t1 = a0 * b[0][1] + a1 * b[1][1] + a2 * b[2][1];
    let t2 = a0 * b[0][2] + a1 * b[1][2] + a2 * b[2][2];
    let u0 = b[0][0] * c0 + b[0][1] * c1 + b[0][2] * c2;
    let u1 = b[1][0] * c0 + b[1][1] * c1 + b[1][2] * c2;
    let u2 = b[2][0] * c0 + b[2][1] * c1 + b[2][2] * c2;
    assert(m0 == floor_div(t0, o) && m1 == floor_div(t1, o) && m2 == floor_div(t2, o));
    assert(q0 == floor_div(u0, o) && q1 == floor_div(u1, o) && q2 == floor_div(u2, o));
    lemma_floor_div(t0, o);
    lemma_floor_div(t1, o);
    lemma_floor_div(t2, o);
    lemma_floor_div(u0, o);
    lemma_floor_div(u1, o);
    lemma_floor_div(u2, o);
    let x = mul3(ab, c)[i][j];
    let y = mul3(a, bc)[i][j];
    let sx = m0 * c0 + m1 * c1 + m2 * c2;
    let sy = a0 * q0 + a1 * q1 + a2 * q2;
    assert(x == floor_div(sx, o));
    assert(y == floor_div(sy, o));
    lemma_floor_div(sx, o);
    lemma_floor_div(sy, o);
    let (r0, r1, r2) = (t0 - o * m0, t1 - o * m1, t2 - o * m2);
    let (w0, w1, w2) = (u0 - o * q0, u1 - o * q1, u2 - o * q2);
    // both sums, times ONE, are the full triple sum less the rounding
    lemma_times_rem(o, m0, c0, t0);
    lemma_times_rem(o, m1, c1, t1);
    lemma_times_rem(o, m2, c2, t2);
    lemma_distrib3(m0 * c0, m1 * c1, m2 * c2, o);
    assert(o * sx == t0 * c0 + t1 * c1 + t2 * c2 - (r0 * c0 + r1 * c1 + r2 * c2));
    lemma_times_rem(o, q0, a0, u0);
    lemma_times_rem(o, q1, a1, u1);
    lemma_times_rem(o, q2, a2, u2);
    lemma_distrib3(a0 * q0, a1 * q1, a2 * q2, o);
    assert(a0 * q0 == q0 * a0 && a1 * q1 == q1 * a1 && a2 * q2 == q2 * a2) by (nonlinear_arith);
    assert(a0 * u0 == u0 * a0 && a1 * u1 == u1 * a1 && a2 * u2 == u2 * a2) by (nonlinear_arith);
    assert(a0 * w0 == w0 * a0 && a1 * w1 == w1 * a1 && a2 * w2 == w2 * a2) by (nonlinear_arith);
    assert(o * sy == a0 * u0 + a1 * u1 + a2 * u2 - (a0 * w0 + a1 * w1 + a2 * w2));
    lemma_triple_sum(a0, a1, a2, b, c0, c1, c2);
    assert(abs(c0) <= e && abs(c1) <= e && abs(c2) <= e);
    assert(abs(a0) <= e && abs(a1) <= e && abs(a2) <= e);
    lemma_mul_bound(r0, c0, o, e);
    lemma_mul_bound(r1, c1, o, e);
    lemma_mul_bound(r2, c2, o, e);
    lemma_mul_bound(a0, w0, e, o);
    lemma_mul_bound(a1, w1, e, o);
    lemma_mul_bound(a2, w2, e, o);
    let rx = sx - o * x;
    let ry = sy - o * y;
    assert(o * (o * (x - y)) == o * sx - o * sy - o * rx + o * ry) by (nonlinear_arith)
        requires rx == sx - o * x, ry == sy - o * y;
    assert(abs(x - y) * o <= 6 * e + o) by (nonlinear_arith)
        requires
            o * (o * (x - y)) == o * sx - o * sy - o * rx + o * ry,
            o * sx - o * sy == (a0 * w0 + a1 * w1 + a2 * w2) - (r0 * c0 + r1 * c1 + r2 * c2),
            abs(r0 * c0) <= o * e, abs(r1 * c1) <= o * e, abs(r2 * c2) <= o * e,
            abs(a0 * w0) <= e * o, abs(a1 * w1) <= e * o, abs(a2 * w2) <= e * o,
            0 <= rx < o,
            0 <= ry < o,
            o > 0,
    ;
}

/// Multiplying 3×3 matrices is associative up to rounding: when every entry
/// of `a`, `b`, `c` has magnitude at most `e`, each entry of `(a · b) · c`
/// lies within `(6e + ONE) / ONE` raw units of `a · (b · c)`'s.
pub proof fn lemma_mul_assoc3(a: Matrix3x3, b: Matrix3x3, c: Matrix3x3, e: int)
    requires
        e >= 0,
        a.within(e),
        b.within(e),
        c.within(e),
    ensures
        forall|i: int, j: int| 0 <= i < 3 && 0 <= j < 3 ==>
            abs(#[trigger] mul3(mul3(a@, b@), c@)[i][j] - mul3(a@, mul3(b@, c@))[i][j]) * ONE <= 6 * e + ONE,
{
    assert forall|i: int, j: int| 0 <= i < 3 && 0 <= j < 3 implies
        abs(#[trigger] mul3(mul3(a@, b@), c@)[i][j] - mul3(a@, mul3(b@, c@))[i][j]) * ONE <= 6 * e + ONE by {
        lemma_assoc_entry(a@, b@, c@, e, i, j);
    }
}

} // verus!
