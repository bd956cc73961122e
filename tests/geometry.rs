use wireframe::fixed::{Angle, ONE};
use wireframe::line::fourd::Line as Line4d;
use wireframe::line::Line;
use wireframe::matrix::fourd::Matrix4x4;
use wireframe::matrix::Matrix3x3;
use wireframe::point::fourd::Point as Point4d;
use wireframe::point::Point;
use wireframe::shape::fourd::Shape as Shape4d;
use wireframe::shape::Shape;

fn fx(x: f64) -> i64 {
    (x * ONE as f64).round() as i64
}

fn angle(theta: f64) -> Angle {
    Angle::new(fx(theta.cos()), fx(theta.sin())).unwrap()
}

fn transpose3(m: &Matrix3x3) -> Matrix3x3 {
    let a = m.0;
    Matrix3x3([[a[0][0], a[1][0], a[2][0]], [a[0][1], a[1][1], a[2][1]], [a[0][2], a[1][2], a[2][2]]])
}

fn transpose4(m: &Matrix4x4) -> Matrix4x4 {
    let mut t = [[0i64; 4]; 4];
    for i in 0..4 {
        for j in 0..4 {
            t[i][j] = m.0[j][i];
        }
    }
    Matrix4x4(t)
}

#[test]
fn l2_norm_of_three_four_zero_is_five() {
    assert_eq!(Point([3 * ONE, 4 * ONE, 0]).l2_norm(), 5 * ONE);
}

#[test]
fn l2_norm_of_one_two_two_is_three() {
    assert_eq!(Point([ONE, 2 * ONE, 2 * ONE]).l2_norm(), 3 * ONE);
}

#[test]
fn l2_norm_rounds_down() {
    // sqrt(2) * ONE, rounded down
    assert_eq!(Point([ONE, ONE, 0]).l2_norm(), 398065729532860);
}

#[test]
fn l2_norm_of_four_d_point_ignores_w() {
    assert_eq!(Point4d([3 * ONE, 4 * ONE, 0, 100 * ONE]).l2_norm(), 5 * ONE);
}

#[test]
fn l1_norms() {
    assert_eq!(Point([-3 * ONE, 4 * ONE, -ONE]).l1_norm(), 8 * ONE);
    assert_eq!(Point4d([-3 * ONE, 4 * ONE, -ONE, 9 * ONE]).l1_norm(), 8 * ONE);
}

#[test]
fn point_arithmetic() {
    let p = Point([ONE, -2 * ONE, 3 * ONE]);
    let q = Point([ONE / 2, ONE, -ONE]);
    assert_eq!(p.add(q), Point([3 * ONE / 2, -ONE, 2 * ONE]));
    assert_eq!(p.scale(ONE / 2), Point([ONE / 2, -ONE, 3 * ONE / 2]));
    assert_eq!(p.mul(q), Point([ONE / 2, -2 * ONE, -3 * ONE]));
    let r = Point4d([ONE, 2 * ONE, 3 * ONE, 4 * ONE]);
    assert_eq!(r.add(r), Point4d([2 * ONE, 4 * ONE, 6 * ONE, 8 * ONE]));
    assert_eq!(r.scale(2 * ONE), Point4d([2 * ONE, 4 * ONE, 6 * ONE, 8 * ONE]));
    assert_eq!(r.mul(r), Point4d([ONE, 4 * ONE, 9 * ONE, 16 * ONE]));
}

#[test]
fn scaling_rounds_down() {
    // -1 raw unit times one half is -0.5 raw units, rounded down to -1
    assert_eq!(Point([-1, 1, 3]).scale(ONE / 2), Point([-1, 0, 1]));
}

#[test]
fn identity_times_any_matrix() {
    let m = Matrix3x3([[7, -3 * ONE, ONE / 3], [5 * ONE, 0, -11], [ONE, 2 * ONE, -ONE]]);
    let id = Matrix3x3::identity();
    assert_eq!(id.mul(&m), m);
    assert_eq!(m.mul(&id), m);
    let m4 = Matrix4x4([[1, 2, 3, 4], [ONE, -ONE, 0, 5], [6, 7, 8, 9], [-ONE, 0, ONE, 2 * ONE]]);
    assert_eq!(Matrix4x4::identity().mul(&m4), m4);
}

#[test]
fn matrix_times_point() {
    let m = Matrix3x3([[ONE, 2 * ONE, 0], [0, ONE, 0], [0, 0, 2 * ONE]]);
    assert_eq!(m.mul_point(&Point([ONE, ONE, ONE])), Point([3 * ONE, ONE, 2 * ONE]));
    let id = Matrix4x4::identity();
    let p = Point4d([1, -2, 3, -4]);
    assert_eq!(id.mul_point(&p), p);
}

#[test]
fn matrix_entrywise_operations() {
    let m = Matrix3x3([[ONE, 2 * ONE, 0], [0, ONE, 0], [0, 0, 2 * ONE]]);
    assert_eq!(m.add(&m), Matrix3x3([[2 * ONE, 4 * ONE, 0], [0, 2 * ONE, 0], [0, 0, 4 * ONE]]));
    assert_eq!(m.scale(3 * ONE), Matrix3x3([[3 * ONE, 6 * ONE, 0], [0, 3 * ONE, 0], [0, 0, 6 * ONE]]));
    assert_eq!(m.add_scalar(ONE), Matrix3x3([[2 * ONE, 3 * ONE, ONE], [ONE, 2 * ONE, ONE], [ONE, ONE, 3 * ONE]]));
    let n = Matrix4x4::identity();
    assert_eq!(n.add(&n).0[3][3], 2 * ONE);
}

#[test]
fn rotation_matrices_have_the_documented_layout() {
    let a = Angle::new(3 * ONE / 5, 4 * ONE / 5).unwrap_or(Angle::zero());
    let (c, s) = (a.cos, a.sin);
    assert_eq!(Matrix3x3::rotate_x_theta(a).0, [[ONE, 0, 0], [0, c, -s], [0, s, c]]);
    assert_eq!(Matrix3x3::rotate_y_theta(a).0, [[c, 0, s], [0, ONE, 0], [-s, 0, c]]);
    assert_eq!(Matrix3x3::rotate_z_theta(a).0, [[c, -s, 0], [s, c, 0], [0, 0, ONE]]);
    assert_eq!(Matrix4x4::rotate_zw_theta(a).0, [[c, -s, 0, 0], [s, c, 0, 0], [0, 0, ONE, 0], [0, 0, 0, ONE]]);
    assert_eq!(Matrix4x4::rotate_yw_theta(a).0, [[c, 0, -s, 0], [0, ONE, 0, 0], [s, 0, c, 0], [0, 0, 0, ONE]]);
    assert_eq!(Matrix4x4::rotate_yz_theta(a).0, [[c, 0, 0, -s], [0, ONE, 0, 0], [0, 0, ONE, 0], [s, 0, 0, c]]);
    assert_eq!(Matrix4x4::rotate_xw_theta(a).0, [[ONE, 0, 0, 0], [0, c, -s, 0], [0, s, c, 0], [0, 0, 0, ONE]]);
    assert_eq!(Matrix4x4::rotate_xz_theta(a).0, [[ONE, 0, 0, 0], [0, c, 0, -s], [0, 0, ONE, 0], [0, s, 0, c]]);
    assert_eq!(Matrix4x4::rotate_xy_theta(a).0, [[ONE, 0, 0, 0], [0, ONE, 0, 0], [0, 0, c, -s], [0, 0, s, c]]);
}

#[test]
fn angle_rejects_values_off_the_unit_circle() {
    assert!(Angle::new(ONE, ONE).is_none());
    assert!(Angle::new(2 * ONE, 0).is_none());
    assert!(Angle::new(ONE / 2, ONE / 2).is_none());
    assert!(Angle::new(0, -ONE).is_some());
    assert_eq!(Angle::quarter_turn().neg(), Angle::new(0, -ONE).unwrap());
}

#[test]
fn rotating_about_x_by_a_quarter_turn() {
    let p = Point([ONE, ONE, 0]).rotate_x_theta(angle(std::f64::consts::FRAC_PI_2));
    let expected = [1.0, 0.0, 1.0];
    for i in 0..3 {
        assert!((p.0[i] as f64 / ONE as f64 - expected[i]).abs() < 1e-9, "{p:?}");
    }
}

#[test]
fn rotating_and_rotating_back_returns_the_point() {
    let p = Point([fx(1.25), fx(-0.75), fx(2.5)]);
    for theta in [0.1, 1.0, 2.5, -3.0] {
        let a = angle(theta);
        let back = [
            p.rotate_x_theta(a).rotate_x_theta(a.neg()),
            p.rotate_y_theta(a).rotate_y_theta(a.neg()),
            p.rotate_z_theta(a).rotate_z_theta(a.neg()),
        ];
        for q in back {
            for i in 0..3 {
                let tol = (2 * p.0[i].abs() + 3 * ONE) / ONE;
                assert!((q.0[i] - p.0[i]).abs() <= tol, "{q:?} {p:?}");
            }
        }
    }
}

#[test]
fn rotation_matrices_are_orthonormal() {
    for theta in [0.3, 1.7, -2.2] {
        let a = angle(theta);
        for m in [Matrix3x3::rotate_x_theta(a), Matrix3x3::rotate_y_theta(a), Matrix3x3::rotate_z_theta(a)] {
            let g = m.mul(&transpose3(&m));
            let id = Matrix3x3::identity();
            for i in 0..3 {
                for j in 0..3 {
                    assert!((g.0[i][j] - id.0[i][j]).abs() <= 2, "{g:?}");
                }
            }
        }
        let planes = [
            Matrix4x4::rotate_zw_theta(a),
            Matrix4x4::rotate_yw_theta(a),
            Matrix4x4::rotate_yz_theta(a),
            Matrix4x4::rotate_xw_theta(a),
            Matrix4x4::rotate_xz_theta(a),
            Matrix4x4::rotate_xy_theta(a),
        ];
        for m in planes {
            let g = m.mul(&transpose4(&m));
            let id = Matrix4x4::identity();
            for i in 0..4 {
                for j in 0..4 {
                    assert!((g.0[i][j] - id.0[i][j]).abs() <= 2, "{g:?}");
                }
            }
        }
    }
}

#[test]
fn matrix_product_is_associative_within_rounding() {
    let a = Matrix3x3([[fx(0.3), fx(-1.7), fx(2.2)], [fx(1.1), fx(0.4), fx(-0.9)], [fx(-2.5), fx(0.6), fx(1.3)]]);
    let b = Matrix3x3([[fx(1.9), fx(0.2), fx(-0.8)], [fx(-1.4), fx(2.7), fx(0.5)], [fx(0.1), fx(-0.3), fx(1.6)]]);
    let c = Matrix3x3([[fx(-0.6), fx(1.2), fx(0.7)], [fx(2.9), fx(-1.1), fx(0.05)], [fx(0.8), fx(1.5), fx(-2.4)]]);
    let left = a.mul(&b).mul(&c);
    let right = a.mul(&b.mul(&c));
    let e = 3 * ONE;
    for i in 0..3 {
        for j in 0..3 {
            assert!((left.0[i][j] - right.0[i][j]).abs() * ONE <= 6 * e + ONE, "{left:?} {right:?}");
        }
    }
}

#[test]
fn swapping_rows_two_and_three() {
    let m = |r: [[i64; 3]; 3]| Matrix3x3(r.map(|row| row.map(|v| v * ONE)));
    let swap23 = m([[1, 0, 0], [0, 0, 1], [0, 1, 0]]);
    assert_eq!(swap23.mul(&m([[1, 2, 3], [3, 1, 2], [2, 3, 1]])), m([[1, 2, 3], [2, 3, 1], [3, 1, 2]]));
}

#[test]
fn line_rotation_is_endpoint_rotation() {
    let a = angle(0.7);
    let l = Line([Point([ONE, fx(-0.5), fx(2.0)]), Point([fx(-1.5), ONE, 0])]);
    let r = l.rotate_x_theta(a);
    assert_eq!(r.0, [l.0[0].rotate_x_theta(a), l.0[1].rotate_x_theta(a)]);
    let r = l.rotate_y_theta(a);
    assert_eq!(r.0, [l.0[0].rotate_y_theta(a), l.0[1].rotate_y_theta(a)]);
    let r = l.rotate_z_theta(a);
    assert_eq!(r.0, [l.0[0].rotate_z_theta(a), l.0[1].rotate_z_theta(a)]);
    let l4 = Line4d([Point4d([ONE, 2, 3, fx(0.5)]), Point4d([-ONE, ONE, 0, fx(-0.5)])]);
    assert_eq!(l4.rotate_zw_theta(a).0, [l4.0[0].rotate_zw_theta(a), l4.0[1].rotate_zw_theta(a)]);
    assert_eq!(l4.rotate_yw_theta(a).0, [l4.0[0].rotate_yw_theta(a), l4.0[1].rotate_yw_theta(a)]);
    assert_eq!(l4.rotate_yz_theta(a).0, [l4.0[0].rotate_yz_theta(a), l4.0[1].rotate_yz_theta(a)]);
    assert_eq!(l4.rotate_xw_theta(a).0, [l4.0[0].rotate_xw_theta(a), l4.0[1].rotate_xw_theta(a)]);
    assert_eq!(l4.rotate_xz_theta(a).0, [l4.0[0].rotate_xz_theta(a), l4.0[1].rotate_xz_theta(a)]);
    assert_eq!(l4.rotate_xy_theta(a).0, [l4.0[0].rotate_xy_theta(a), l4.0[1].rotate_xy_theta(a)]);
}

#[test]
fn shape_rotation_is_line_rotation() {
    let a = angle(-1.2);
    let cube = Shape::cube();
    let turned = cube.clone().rotate_z_theta(a);
    assert_eq!(turned.1, '*');
    assert_eq!(turned.0.len(), 12);
    for (l, t) in cube.0.iter().zip(turned.0.iter()) {
        assert_eq!(l.rotate_z_theta(a), *t);
    }
    let hyper = Shape4d::hypercube();
    let turned = hyper.clone().rotate_yz_theta(a);
    for (l, t) in hyper.0.iter().zip(turned.0.iter()) {
        assert_eq!(l.rotate_yz_theta(a), *t);
    }
}

#[test]
fn scaling_there_and_back_recovers_the_shape() {
    let s = fx(1.5);
    let t = ((ONE as i128 * ONE as i128) / s as i128) as i64; // 1 / 1.5 in fixed point, rounded down
    let cube = Shape::cube().rotate_y_theta(angle(0.4));
    let back = cube.clone().scale(s).scale(t);
    for (l, b) in cube.0.iter().zip(back.0.iter()) {
        for k in 0..2 {
            for j in 0..3 {
                let x = l.0[k].0[j] as i128;
                let tol = (x.abs() * s as i128 + ONE as i128 * t as i128 + (ONE as i128) * (ONE as i128))
                    / ((ONE as i128) * (ONE as i128));
                assert!(((b.0[k].0[j] as i128) - x).abs() <= tol);
            }
        }
    }
}

fn degree3(shape: &Shape, corner: [i64; 3]) -> usize {
    shape.0.iter().filter(|l| l.0[0].0 == corner || l.0[1].0 == corner).count()
}

fn degree4(shape: &Shape4d, corner: [i64; 4]) -> usize {
    shape.0.iter().filter(|l| l.0[0].0 == corner || l.0[1].0 == corner).count()
}

#[test]
fn cube_has_twelve_unit_edges_three_at_each_corner() {
    let cube = Shape::cube();
    assert_eq!(cube.0.len(), 12);
    assert_eq!(cube.1, '*');
    for l in &cube.0 {
        let d = Point([l.0[0].0[0] - l.0[1].0[0], l.0[0].0[1] - l.0[1].0[1], l.0[0].0[2] - l.0[1].0[2]]);
        assert_eq!(d.l2_norm(), 2 * ONE);
        for p in l.0 {
            assert!(p.0.iter().all(|c| c.abs() == ONE));
        }
    }
    for x in [ONE, -ONE] {
        for y in [ONE, -ONE] {
            for z in [ONE, -ONE] {
                assert_eq!(degree3(&cube, [x, y, z]), 3);
            }
        }
    }
}

#[test]
fn hypercube_has_thirty_two_edges_four_at_each_corner() {
    let h = Shape4d::hypercube();
    assert_eq!(h.0.len(), 32);
    for x in [ONE, -ONE] {
        for y in [ONE, -ONE] {
            for z in [ONE, -ONE] {
                for w in [ONE, -ONE] {
                    assert_eq!(degree4(&h, [x, y, z, w]), 4);
                }
            }
        }
    }
}

#[test]
fn fivecell_is_the_complete_graph_with_equal_edges() {
    let f = Shape4d::fivecell();
    assert_eq!(f.0.len(), 10);
    assert_eq!(f.1, '*');
    // sqrt(5) / 4 in fixed point, rounded down
    let q = 157349295472549;
    let w = -ONE / 4;
    let v = [[q, q, q, w], [q, -q, -q, w], [-q, q, -q, w], [-q, -q, q, w], [0, 0, 0, ONE]];
    let mut k = 0;
    for i in 0..5 {
        for j in i + 1..5 {
            assert_eq!(f.0[k].0[0].0, v[i]);
            assert_eq!(f.0[k].0[1].0, v[j]);
            k += 1;
        }
    }
    let sq = |l: &Line4d| -> i128 {
        (0..4).map(|i| {
            let d = (l.0[0].0[i] - l.0[1].0[i]) as i128;
            d * d
        }).sum()
    };
    let lengths: Vec<i128> = f.0.iter().map(sq).collect();
    for a in &lengths {
        for b in &lengths {
            assert!((a - b).abs() <= 11 * ONE as i128);
        }
    }
}

#[test]
fn sampling_a_line() {
    let line = Line([Point([ONE, ONE, ONE]), Point([ONE, ONE, -ONE])]);
    let pts = line.find_78_points_in_between();
    assert_eq!(pts.len(), 79);
    for (k, p) in pts.iter().enumerate() {
        assert_eq!(p.0[0], ONE);
        assert_eq!(p.0[1], ONE);
        assert_eq!(p.0[2] as i128, ONE as i128 - (k as i128 * 2 * ONE as i128).div_euclid(78));
        let ideal = 1.0 - 2.0 * k as f64 / 78.0;
        assert!((p.0[2] as f64 / ONE as f64 - ideal).abs() <= 1e-12);
    }
    for k in 1..79 {
        let step = pts[k - 1].0[2] - pts[k].0[2];
        assert!((step - 2 * ONE / 78).abs() <= 1);
    }
}

#[test]
fn projections() {
    // y = 0: (2x / 4, 2z / 4)
    assert_eq!(Point([ONE, 0, -2 * ONE]).to_screen_xy(), (ONE as i128 / 2, -(ONE as i128)));
    // w = 4: halved again
    assert_eq!(Point4d([ONE, 2 * ONE, 4 * ONE, 4 * ONE]).to_cube_xyz(), (ONE / 4, ONE / 2, ONE));
    assert!(Point4d([ONE, ONE, ONE, -4 * ONE]).is_projectable() == false);
    assert!(Point4d([ONE, ONE, ONE, -3 * ONE]).is_projectable());
    let l = Line4d([Point4d([ONE, 0, 0, 0]), Point4d([0, 0, 2 * ONE, 4 * ONE])]).to_line_3d();
    assert_eq!(l, Line([Point([ONE / 2, 0, 0]), Point([0, 0, ONE / 2])]));
    let s = Shape4d::hypercube();
    assert!(s.is_projectable());
    let s3 = s.to_shape_3d();
    assert_eq!(s3.0.len(), 32);
    assert_eq!(s3.1, '*');
    // corner (1, 1, 1, -1) lands on (2/3, 2/3, 2/3)
    assert_eq!(s3.0[0].0[0], Point([2 * ONE / 3, 2 * ONE / 3, 2 * ONE / 3]));
}

#[test]
fn rotating_about_a_plane_and_back_returns_the_point() {
    let p = Point4d([fx(1.5), fx(-1.5), fx(0.25), fx(1.5)]);
    let a = angle(0.9);
    let b = a.neg();
    let back = [
        p.rotate_zw_theta(a).rotate_zw_theta(b),
        p.rotate_yw_theta(a).rotate_yw_theta(b),
        p.rotate_yz_theta(a).rotate_yz_theta(b),
        p.rotate_xw_theta(a).rotate_xw_theta(b),
        p.rotate_xz_theta(a).rotate_xz_theta(b),
        p.rotate_xy_theta(a).rotate_xy_theta(b),
    ];
    for q in back {
        for i in 0..4 {
            let tol = (2 * p.0[i].abs() + 3 * ONE) / ONE;
            assert!((q.0[i] - p.0[i]).abs() <= tol, "{q:?} {p:?}");
        }
    }
}

fn as_f64(x: i64) -> f64 {
    x as f64 / ONE as f64
}

#[test]
fn rotation_rows_are_unit_within_a_trillionth() {
    for a in [Angle::pi_over_90(), Angle::pi_over_70(), Angle::pi_over_180(), Angle::pi_over_12(), angle(0.3)] {
        for m in [Matrix3x3::rotate_x_theta(a), Matrix3x3::rotate_y_theta(a), Matrix3x3::rotate_z_theta(a)] {
            for i in 0..3 {
                for j in 0..3 {
                    let dot: f64 = (0..3).map(|k| as_f64(m.0[i][k]) * as_f64(m.0[j][k])).sum();
                    let id = if i == j { 1.0 } else { 0.0 };
                    assert!((dot - id).abs() <= 1e-12, "{dot}");
                }
            }
        }
        let m = Matrix4x4::rotate_xy_theta(a);
        for i in 0..4 {
            for j in 0..4 {
                let dot: f64 = (0..4).map(|k| as_f64(m.0[i][k]) * as_f64(m.0[j][k])).sum();
                let id = if i == j { 1.0 } else { 0.0 };
                assert!((dot - id).abs() <= 1e-12, "{dot}");
            }
        }
    }
}

#[test]
fn fivecell_within_a_trillionth() {
    let f = Shape4d::fivecell();
    let r = 5f64.sqrt() / 4.0;
    assert!((as_f64(f.0[0].0[0].0[0]) - r).abs() <= 1e-12);
    for l in &f.0 {
        let d: f64 = (0..4).map(|i| (as_f64(l.0[0].0[i]) - as_f64(l.0[1].0[i])).powi(2)).sum::<f64>().sqrt();
        assert!((d - 10f64.sqrt() / 2.0).abs() <= 1e-12, "{d}");
    }
}

#[test]
fn scaling_by_three_and_back_within_a_trillionth() {
    let s = 3 * ONE;
    let t = ((ONE as i128 * ONE as i128) / s as i128) as i64;
    let p = Point([ONE, -ONE, fx(0.7)]);
    let back = p.scale(s).scale(t);
    for i in 0..3 {
        assert!((as_f64(back.0[i]) - as_f64(p.0[i])).abs() <= 1e-12 * (1.0 + as_f64(p.0[i]).abs()));
    }
}
