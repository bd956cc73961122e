//! Line segments in four dimensions.
use vstd::prelude::*;
use crate::fixed::{abs, Angle, MAX_COORD, MAX_ENTRY};
use crate::line::Line as Line3d;
use crate::matrix::fourd::{apply4, rot_zw, rot_yw, rot_yz, rot_xw, rot_xz, rot_xy};
use crate::point::Point as Point3d;
use crate::point::fourd::{cube_xyz, projectable4, scale4, Point};

verus! {

/// A segment from `self.0[0]` to `self.0[1]` in four dimensions.
#[derive(Debug, Default, Clone, Copy, PartialEq, Eq)]
pub struct Line(pub [Point; 2]);

impl View for Line {
    type V = Seq<Seq<int>>;

    open spec fn view(&self) -> Seq<Seq<int>> {
        seq![self.0[0]@, self.0[1]@]
    }
}

impl Line {
    /// Both ends have coordinates of magnitude at most `b`.
    pub open spec fn within(self, b: int) -> bool {
        self.0[0].within(b) && self.0[1].within(b)
    }

    /// Both ends can be projected to three dimensions.
    pub open spec fn projectable(self) -> bool {
        projectable4(self.0[0]@) && projectable4(self.0[1]@)
    }

    /// Both ends times the fixed-point scalar `k`.
    pub fn scale(self, k: i64) -> (r: Line)
        requires
            self.within(MAX_COORD as int),
            abs(k as int) <= MAX_ENTRY,
        ensures
            r@ == self@.map_values(|p: Seq<int>| scale4(p, k as int)),
    {
        let r = Line([self.0[0].scale(k), self.0[1].scale(k)]);
        assert(r@ =~= self@.map_values(|p: Seq<int>| scale4(p, k as int)));
        r
    }

    /// Projects the line to three dimensions, end by end.
    pub fn to_line_3d(&self) -> (r: Line3d)
        requires
            self.projectable(),
        ensures
            r@ == self@.map_values(|p: Seq<int>| cube_xyz(p)),
    {
        let (x0, y0, z0) = self.0[0].to_cube_xyz();
        let (x1, y1, z1) = self.0[1].to_cube_xyz();
        let r = Line3d([Point3d([x0, y0, z0]), Point3d([x1, y1, z1])]);
        assert(r@[0] =~= cube_xyz(self@[0]));
        assert(r@[1] =~= cube_xyz(self@[1]));
        assert(r@ =~= self@.map_values(|p: Seq<int>| cube_xyz(p)));
        r
    }

    /// Rotates the line about the zw plane by `theta` (x and y turn), end by end.
    pub fn rotate_zw_theta(self, theta: Angle) -> (r: Line)
        requires
            theta.wf(),
            self.within(MAX_COORD as int),
        ensures
            r@ == self@.map_values(|p: Seq<int>| apply4(rot_zw(theta), p)),
    {
        let r = Line([self.0[0].rotate_zw_theta(theta), self.0[1].rotate_zw_theta(theta)]);
        assert(r@ =~= self@.map_values(|p: Seq<int>| apply4(rot_zw(theta), p)));
        r
    }

    /// Rotates the line about the yw plane by `theta` (x and z turn), end by end.
    pub fn rotate_yw_theta(self, theta: Angle) -> (r: Line)
        requires
            theta.wf(),
            self.within(MAX_COORD as int),
        ensures
            r@ == self@.map_values(|p: Seq<int>| apply4(rot_yw(theta), p)),
    {
        let r = Line([self.0[0].rotate_yw_theta(theta), self.0[1].rotate_yw_theta(theta)]);
        assert(r@ =~= self@.map_values(|p: Seq<int>| apply4(rot_yw(theta), p)));
        r
    }

    /// Rotates the line about the yz plane by `theta` (x and w turn), end by end.
    pub fn rotate_yz_theta(self, theta: Angle) -> (r: Line)
        requires
            theta.wf(),
            self.within(MAX_COORD as int),
        ensures
            r@ == self@.map_values(|p: Seq<int>| apply4(rot_yz(theta), p)),
    {
        let r = Line([self.0[0].rotate_yz_theta(theta), self.0[1].rotate_yz_theta(theta)]);
        assert(r@ =~= self@.map_values(|p: Seq<int>| apply4(rot_yz(theta), p)));
        r
    }

    /// Rotates the line about the xw plane by `theta` (y and z turn), end by end.
    pub fn rotate_xw_theta(self, theta: Angle) -> (r: Line)
        requires
            theta.wf(),
            self.within(MAX_COORD as int),
        ensures
            r@ == self@.map_values(|p: Seq<int>| apply4(rot_xw(theta), p)),
    {
        let r = Line([self.0[0].rotate_xw_theta(theta), self.0[1].rotate_xw_theta(theta)]);
        assert(r@ =~= self@.map_values(|p: Seq<int>| apply4(rot_xw(theta), p)));
        r
    }

    /// Rotates the line about the xz plane by `theta` (y and w turn), end by end.
    pub fn rotate_xz_theta(self, theta: Angle) -> (r: Line)
        requires
            theta.wf(),
            self.within(MAX_COORD as int),
        ensures
            r@ == self@.map_values(|p: Seq<int>| apply4(rot_xz(theta), p)),
    {
        let r = Line([self.0[0].rotate_xz_theta(theta), self.0[1].rotate_xz_theta(theta)]);
        assert(r@ =~= self@.map_values(|p: Seq<int>| apply4(rot_xz(theta), p)));
        r
    }

    /// Rotates the line about the xy plane by `theta` (z and w turn), end by end.
    pub fn rotate_xy_theta(self, theta: Angle) -> (r: Line)
        requires
            theta.wf(),
            self.within(MAX_COORD as int),
        ensures
            r@ == self@.map_values(|p: Seq<int>| apply4(rot_xy(theta), p)),
    {
        let r = Line([self.0[0].rotate_xy_theta(theta), self.0[1].rotate_xy_theta(theta)]);
        assert(r@ =~= self@.map_values(|p: Seq<int>| apply4(rot_xy(theta), p)));
        r
    }
}

} // verus!
