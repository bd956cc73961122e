//! The decisions of the frame loop: what each mode starts from, how far it
//! turns per frame, and what each key does. Running the loop, reading keys
//! and printing frames is left to the caller.
use vstd::prelude::*;
use crate::fixed::{abs, floor_div, lemma_floor_div, lemma_mul_bound, pi_over_12_angle, pi_over_180_angle, pi_over_70_angle, pi_over_90_angle, Angle, ONE, MAX_COORD};
use crate::matrix::{apply3, dot3, rot_x, rot_y, rot_z};
use crate::matrix::fourd::{apply4, dot4, rot_xw, rot_xy, rot_xz, rot_yw, rot_yz, rot_zw};
use crate::point::scale3;
use crate::point::fourd::scale4;
use crate::shape::{cube_edges, map_points, Shape};
use crate::shape::fourd::{fivecell_edges, hypercube_edges, is_quarter_sqrt5, Shape as Shape4d};

verus! {

/// The six planes a tesseract can be turned about.
#[derive(Debug, Clone, Copy, PartialEq, Eq)]
pub enum Plane {
    ZW,
    YW,
    YZ,
    XW,
    XZ,
    XY,
}

/// What a keystroke asks of the interactive mode.
#[derive(Debug, Clone, Copy, PartialEq, Eq)]
pub enum Command {
    /// Turn the tesseract one step about a plane.
    Turn(Plane),
    /// Leave.
    Quit,
}

/// The command bound to `key`, if any: `h` xy, `j` xz, `k` yz, `l` zw,
/// `i` yw, `n` xw, and `q` quits.
pub open spec fn key_command(key: char) -> Option<Command> {
    if key == 'h' {
        Some(Command::Turn(Plane::XY))
    } else if key == 'j' {
        Some(Command::Turn(Plane::XZ))
    } else if key == 'k' {
        Some(Command::Turn(Plane::YZ))
    } else if key == 'l' {
        Some(Command::Turn(Plane::ZW))
    } else if key == 'i' {
        Some(Command::Turn(Plane::YW))
    } else if key == 'n' {
        Some(Command::Turn(Plane::XW))
    } else if key == 'q' {
        Some(Command::Quit)
    } else {
        None
    }
}

/// The command bound to `key`; other keys are ignored.
pub fn command_for_key(key: char) -> (r: Option<Command>)
    ensures
        r == key_command(key),
{
    match key {
        'h' => Some(Command::Turn(Plane::XY)),
        'j' => Some(Command::Turn(Plane::XZ)),
        'k' => Some(Command::Turn(Plane::YZ)),
        'l' => Some(Command::Turn(Plane::ZW)),
        'i' => Some(Command::Turn(Plane::YW)),
        'n' => Some(Command::Turn(Plane::XW)),
        'q' => Some(Command::Quit),
        _ => None,
    }
}

/// The rotation about `plane` by `a`.
pub open spec fn plane_rotation(plane: Plane, a: Angle) -> Seq<Seq<int>> {
    match plane {
        Plane::ZW => rot_zw(a),
        Plane::YW => rot_yw(a),
        Plane::YZ => rot_yz(a),
        Plane::XW => rot_xw(a),
        Plane::XZ => rot_xz(a),
        Plane::XY => rot_xy(a),
    }
}

impl Shape4d {
    /// Rotates the shape about `plane` by `theta`.
    pub fn rotate_in_plane(self, plane: Plane, theta: Angle) -> (r: Shape4d)
        requires
            theta.wf(),
            self.within(MAX_COORD as int),
        ensures
            r.1 == self.1,
            r@ == map_points(self@, |p: Seq<int>| apply4(plane_rotation(plane, theta), p)),
    {
        let r = match plane {
            Plane::ZW => self.rotate_zw_theta(theta),
            Plane::YW => self.rotate_yw_theta(theta),
            Plane::YZ => self.rotate_yz_theta(theta),
            Plane::XW => self.rotate_xw_theta(theta),
            Plane::XZ => self.rotate_xz_theta(theta),
            Plane::XY => self.rotate_xy_theta(theta),
        };
        assert(r@ =~= map_points(self@, |p: Seq<int>| apply4(plane_rotation(plane, theta), p)));
        r
    }
}

/// Every entry of the `n × n` matrix `m` lies in `[-1, 1]`.
pub open spec fn unit_entries(m: Seq<Seq<int>>, n: int) -> bool {
    &&& m.len() == n
    &&& forall|i: int| 0 <= i < n ==> (#[trigger] m[i]).len() == n
    &&& forall|i: int, j: int| 0 <= i < n && 0 <= j < n ==> abs(#[trigger] m[i][j]) <= ONE
}

/// Every entry of `v` has magnitude at most `b`.
pub open spec fn entries_within(v: Seq<int>, b: int) -> bool {
    forall|i: int| 0 <= i < v.len() ==> abs(#[trigger] v[i]) <= b
}

/// `⌊n / ONE⌋` stays within `k * b` when `n` stays within `k * ONE * b`.
proof fn lemma_rescale_bound(n: int, k: int, b: int)
    requires
        k >= 0,
        b >= 0,
        abs(n) <= k * (ONE * b),
    ensures
        abs(floor_div(n, ONE as int)) <= k * b,
{
    lemma_floor_div(n, ONE as int);
    let q = floor_div(n, ONE as int);
    assert(abs(q) <= k * b) by (nonlinear_arith)
        requires
            ONE * q <= n < ONE * q + ONE,
            abs(n) <= k * (ONE * b),
            ONE > 0,
            k >= 0,
            b >= 0,
    ;
}

/// A matrix with entries in `[-1, 1]` grows a vector's entries at most threefold.
pub proof fn lemma_apply3_bound(m: Seq<Seq<int>>, v: Seq<int>, b: int)
    requires
        unit_entries(m, 3),
        v.len() == 3,
        entries_within(v, b),
        b >= 0,
    ensures
        entries_within(apply3(m, v), 3 * b),
{
    assert forall|i: int| 0 <= i < 3 implies abs(#[trigger] apply3(m, v)[i]) <= 3 * b by {
        let row = m[i];
        lemma_mul_bound(row[0], v[0], ONE as int, b);
        lemma_mul_bound(row[1], v[1], ONE as int, b);
        lemma_mul_bound(row[2], v[2], ONE as int, b);
        lemma_rescale_bound(dot3(row, v), 3, b);
    }
}

/// A matrix with entries in `[-1, 1]` grows a vector's entries at most fourfold.
pub proof fn lemma_apply4_bound(m: Seq<Seq<int>>, v: Seq<int>, b: int)
    requires
        unit_entries(m, 4),
        v.len() == 4,
        entries_within(v, b),
        b >= 0,
    ensures
        entries_within(apply4(m, v), 4 * b),
{
    assert forall|i: int| 0 <= i < 4 implies abs(#[trigger] apply4(m, v)[i]) <= 4 * b by {
        let row = m[i];
        lemma_mul_bound(row[0], v[0], ONE as int, b);
        lemma_mul_bound(row[1], v[1], ONE as int, b);
        lemma_mul_bound(row[2], v[2], ONE as int, b);
        lemma_mul_bound(row[3], v[3], ONE as int, b);
        lemma_rescale_bound(dot4(row, v), 4, b);
    }
}

/// Mapping every point of a 3D shape by a matrix with entries in `[-1, 1]`
/// keeps its coordinates within three times the old bound.
pub proof fn lemma_shape3_bound(s: Shape, r: Shape, m: Seq<Seq<int>>, b: int)
    requires
        unit_entries(m, 3),
        s.within(b),
        b >= 0,
        r@ == map_points(s@, |p: Seq<int>| apply3(m, p)),
    ensures
        r.within(3 * b),
{
    assert(r@.len() == r.0@.len() && s@.len() == s.0@.len());
    assert forall|i: int| 0 <= i < r.0@.len() implies (#[trigger] r.0@[i]).within(3 * b) by {
        assert(r@[i] == r.0@[i]@);
        assert(s@[i] == s.0@[i]@);
        let l = s.0@[i];
        assert(l.within(b));
        assert forall|k: int| 0 <= k < 2 implies (#[trigger] r.0@[i].0[k]).within(3 * b) by {
            assert(r.0@[i]@[k] == apply3(m, l@[k]));
            assert(entries_within(l.0[k]@, b));
            lemma_apply3_bound(m, l.0[k]@, b);
            assert(r.0@[i].0[k]@ == apply3(m, l@[k]));
        }
        assert(r.0@[i].0[0].within(3 * b));
        assert(r.0@[i].0[1].within(3 * b));
    }
}

/// Mapping every point of a 4D shape by a matrix with entries in `[-1, 1]`
/// keeps its coordinates within four times the old bound.
pub proof fn lemma_shape4_bound(s: Shape4d, r: Shape4d, m: Seq<Seq<int>>, b: int)
    requires
        unit_entries(m, 4),
        s.within(b),
        b >= 0,
        r@ == map_points(s@, |p: Seq<int>| apply4(m, p)),
    ensures
        r.within(4 * b),
{
    assert(r@.len() == r.0@.len() && s@.len() == s.0@.len());
    assert forall|i: int| 0 <= i < r.0@.len() implies (#[trigger] r.0@[i]).within(4 * b) by {
        assert(r@[i] == r.0@[i]@);
        assert(s@[i] == s.0@[i]@);
        let l = s.0@[i];
        assert(l.within(b));
        assert forall|k: int| 0 <= k < 2 implies (#[trigger] r.0@[i].0[k]).within(4 * b) by {
            assert(r.0@[i]@[k] == apply4(m, l@[k]));
            assert(entries_within(l.0[k]@, b));
            lemma_apply4_bound(m, l.0[k]@, b);
            assert(r.0@[i].0[k]@ == apply4(m, l@[k]));
        }
        assert(r.0@[i].0[0].within(4 * b));
        assert(r.0@[i].0[1].within(4 * b));
    }
}

/// Scale of the spinning cube, `1.1`.
pub const CUBE_SCALE: i64 = 309622474381722;

/// Scale of the spinning tesseract, `1.5`.
pub const HYPERCUBE_SCALE: i64 = 422212465065984;

/// Scale of the spinning 5-cell, `3.5`.
pub const FIVECELL_SCALE: i64 = 985162418487296;

/// Largest coordinate (8.0) of a shape that one frame's turns accept.
pub const SPIN_BOUND: i64 = 2251799813685248;

/// The rotations about the axes have entries in `[-1, 1]`.
pub proof fn lemma_rotations3_unit(a: Angle)
    requires
        a.wf(),
    ensures
        unit_entries(rot_x(a), 3),
        unit_entries(rot_y(a), 3),
        unit_entries(rot_z(a), 3),
{
}

/// The rotations about the planes have entries in `[-1, 1]`.
pub proof fn lemma_rotations4_unit(a: Angle)
    requires
        a.wf(),
    ensures
        forall|p: Plane| unit_entries(#[trigger] plane_rotation(p, a), 4),
{
}

impl Shape {
    /// Whether every coordinate has magnitude at most `b`.
    pub fn is_within(&self, b: i64) -> (r: bool)
        requires
            b >= 0,
        ensures
            r == self.within(b as int),
    {
        let mut i: usize = 0;
        while i < self.0.len()
            invariant
                b >= 0,
                i <= self.0@.len(),
                forall|j: int| 0 <= j < i ==> (#[trigger] self.0@[j]).within(b as int),
            decreases self.0@.len() - i,
        {
            if !self.0[i].0[0].is_within(b) || !self.0[i].0[1].is_within(b) {
                return false;
            }
            i += 1;
        }
        true
    }
}

impl Shape4d {
    /// Whether every coordinate has magnitude at most `b`.
    pub fn is_within(&self, b: i64) -> (r: bool)
        requires
            b >= 0,
        ensures
            r == self.within(b as int),
    {
        let mut i: usize = 0;
        while i < self.0.len()
            invariant
                b >= 0,
                i <= self.0@.len(),
                forall|j: int| 0 <= j < i ==> (#[trigger] self.0@[j]).within(b as int),
            decreases self.0@.len() - i,
        {
            if !self.0[i].0[0].is_within(b) || !self.0[i].0[1].is_within(b) {
                return false;
            }
            i += 1;
        }
        true
    }
}

/// The cube that the automatic mode spins: scaled by `1.1`, drawn with `.`.
pub fn spinning_cube() -> (r: Shape)
    ensures
        r.1 == '.',
        r@ == map_points(cube_edges(), |p: Seq<int>| scale3(p, CUBE_SCALE as int)),
{
    let s = Shape::cube().scale(CUBE_SCALE);
    assert(s@ =~= map_points(cube_edges(), |p: Seq<int>| scale3(p, CUBE_SCALE as int)));
    Shape(s.0, '.')
}

/// The tesseract that the automatic and interactive modes turn: scaled by
/// `1.5`, drawn with `.`.
pub fn spinning_hypercube() -> (r: Shape4d)
    ensures
        r.1 == '.',
        r@ == map_points(hypercube_edges(), |p: Seq<int>| scale4(p, HYPERCUBE_SCALE as int)),
{
    let s = Shape4d::hypercube().scale(HYPERCUBE_SCALE);
    assert(s@ =~= map_points(hypercube_edges(), |p: Seq<int>| scale4(p, HYPERCUBE_SCALE as int)));
    Shape4d(s.0, '.')
}

/// The 5-cell that the automatic mode spins: scaled by `3.5`, drawn with `.`.
pub fn spinning_fivecell() -> (r: Shape4d)
    ensures
        r.1 == '.',
        exists|q: int| is_quarter_sqrt5(q)
            && r@ == map_points(fivecell_edges(q), |p: Seq<int>| scale4(p, FIVECELL_SCALE as int)),
{
    let f = Shape4d::fivecell();
    let ghost q = f@[0][0][0];
    let s = f.scale(FIVECELL_SCALE);
    assert(s@ =~= map_points(fivecell_edges(q), |p: Seq<int>| scale4(p, FIVECELL_SCALE as int)));
    Shape4d(s.0, '.')
}

/// One frame's turn of the spinning cube: `π/90` about y, then `π/70` about
/// x, then `π/180` about z.
pub fn spin_cube(shape: Shape) -> (r: Shape)
    requires
        shape.within(SPIN_BOUND as int),
    ensures
        r.1 == shape.1,
        r@ == map_points(
            map_points(
                map_points(shape@, |p: Seq<int>| apply3(rot_y(pi_over_90_angle()), p)),
                |p: Seq<int>| apply3(rot_x(pi_over_70_angle()), p),
            ),
            |p: Seq<int>| apply3(rot_z(pi_over_180_angle()), p),
        ),
{
    let (a, b, c) = (Angle::pi_over_90(), Angle::pi_over_70(), Angle::pi_over_180());
    proof {
        lemma_rotations3_unit(a);
        lemma_rotations3_unit(b);
    }
    let s1 = shape.rotate_y_theta(a);
    proof {
        assert(s1@ =~= map_points(shape@, |p: Seq<int>| apply3(rot_y(a), p)));
        lemma_shape3_bound(shape, s1, rot_y(a), SPIN_BOUND as int);
    }
    let s2 = s1.rotate_x_theta(b);
    proof {
        assert(s2@ =~= map_points(s1@, |p: Seq<int>| apply3(rot_x(b), p)));
        lemma_shape3_bound(s1, s2, rot_x(b), 3 * SPIN_BOUND);
    }
    let s3 = s2.rotate_z_theta(c);
    assert(s3@ =~= map_points(s2@, |p: Seq<int>| apply3(rot_z(c), p)));
    s3
}

/// One frame's turn of a spinning four-dimensional shape: `π/90` about the
/// zw plane, then `π/90` about the xy plane.
pub fn spin_4d(shape: Shape4d) -> (r: Shape4d)
    requires
        shape.within(SPIN_BOUND as int),
    ensures
        r.1 == shape.1,
        r@ == map_points(
            map_points(shape@, |p: Seq<int>| apply4(rot_zw(pi_over_90_angle()), p)),
            |p: Seq<int>| apply4(rot_xy(pi_over_90_angle()), p),
        ),
{
    let a = Angle::pi_over_90();
    proof {
        lemma_rotations4_unit(a);
        assert(unit_entries(plane_rotation(Plane::ZW, a), 4));
    }
    let s1 = shape.rotate_zw_theta(a);
    proof {
        assert(s1@ =~= map_points(shape@, |p: Seq<int>| apply4(rot_zw(a), p)));
        lemma_shape4_bound(shape, s1, rot_zw(a), SPIN_BOUND as int);
    }
    let s2 = s1.rotate_xy_theta(a);
    assert(s2@ =~= map_points(s1@, |p: Seq<int>| apply4(rot_xy(a), p)));
    s2
}

/// One keystroke's turn of the tesseract: `π/12` about `plane`.
pub fn turn(shape: Shape4d, plane: Plane) -> (r: Shape4d)
    requires
        shape.within(MAX_COORD as int),
    ensures
        r.1 == shape.1,
        r@ == map_points(shape@, |p: Seq<int>| apply4(plane_rotation(plane, pi_over_12_angle()), p)),
{
    shape.rotate_in_plane(plane, Angle::pi_over_12())
}

/// A shape's lines with every point mapped by the 3×3 matrix `m`.
pub open spec fn turn_shape3(m: Seq<Seq<int>>, s: Seq<Seq<Seq<int>>>) -> Seq<Seq<Seq<int>>> {
    map_points(s, |p: Seq<int>| apply3(m, p))
}

/// A line's ends mapped by the 3×3 matrix `m`.
pub open spec fn turn_line3(m: Seq<Seq<int>>, l: Seq<Seq<int>>) -> Seq<Seq<int>> {
    l.map_values(|p: Seq<int>| apply3(m, p))
}

/// A shape's lines with every point mapped by the 4×4 matrix `m`.
pub open spec fn turn_shape4(m: Seq<Seq<int>>, s: Seq<Seq<Seq<int>>>) -> Seq<Seq<Seq<int>>> {
    map_points(s, |p: Seq<int>| apply4(m, p))
}

/// A line's ends mapped by the 4×4 matrix `m`.
pub open spec fn turn_line4(m: Seq<Seq<int>>, l: Seq<Seq<int>>) -> Seq<Seq<int>> {
    l.map_values(|p: Seq<int>| apply4(m, p))
}

/// Turning a shape about an axis (what `Shape::rotate_x_theta` and its
/// siblings return) turns each of its lines as a line is turned
/// (`Line::rotate_x_theta`), and that turns each end as a point is turned
/// (`Point::rotate_x_theta`).
pub proof fn lemma_rotation_pointwise3(shape: Shape, theta: Angle)
    ensures
        forall|m: Seq<Seq<int>>, i: int|
            (m == rot_x(theta) || m == rot_y(theta) || m == rot_z(theta)) && 0 <= i < shape@.len() ==> {
                &&& #[trigger] turn_shape3(m, shape@)[i] == turn_line3(m, shape.0@[i]@)
                &&& turn_line3(m, shape.0@[i]@)[0] == apply3(m, shape.0@[i].0[0]@)
                &&& turn_line3(m, shape.0@[i]@)[1] == apply3(m, shape.0@[i].0[1]@)
            },
{
}

/// Turning a shape about a plane turns each of its lines as a line is
/// turned, and that turns each end as a point is turned.
pub proof fn lemma_rotation_pointwise4(shape: Shape4d, plane: Plane, theta: Angle)
    ensures
        forall|i: int| 0 <= i < shape@.len() ==> {
            &&& #[trigger] turn_shape4(plane_rotation(plane, theta), shape@)[i]
                == turn_line4(plane_rotation(plane, theta), shape.0@[i]@)
            &&& turn_line4(plane_rotation(plane, theta), shape.0@[i]@)[0]
                == apply4(plane_rotation(plane, theta), shape.0@[i].0[0]@)
            &&& turn_line4(plane_rotation(plane, theta), shape.0@[i]@)[1]
                == apply4(plane_rotation(plane, theta), shape.0@[i].0[1]@)
        },
{
}

} // verus!
