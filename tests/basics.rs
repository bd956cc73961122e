use wireframe::fixed::{Angle, ONE};
use wireframe::line::Line;
use wireframe::matrix::Matrix3x3;
use wireframe::point::Point;
use wireframe::screen::Screen;
use wireframe::shape::Shape;

fn fx(x: f64) -> i64 {
    (x * ONE as f64).round() as i64
}

fn angle(theta: f64) -> Angle {
    Angle::new(fx(theta.cos()), fx(theta.sin())).unwrap()
}

fn matrix(rows: [[i64; 3]; 3]) -> Matrix3x3 {
    Matrix3x3(rows.map(|row| row.map(|v| v * ONE)))
}

#[test]
fn point() {
    let point = Point([3 * ONE, 4 * ONE, 0]);
    assert_eq!(point.l2_norm(), 5 * ONE);
    let point = Point([ONE, 2 * ONE, 2 * ONE]);
    assert_eq!(point.l2_norm(), 3 * ONE);
}

#[test]
fn matmul() {
    let matrix0 = matrix([[1, 0, 0], [0, 1, 0], [0, 0, 1]]);
    let matrix1 = matrix([[1, 2, 3], [3, 1, 2], [2, 3, 1]]);

    let swap23 = matrix([[1, 0, 0], [0, 0, 1], [0, 1, 0]]);

    let matrix2 = matrix([[1, 2, 3], [2, 3, 1], [3, 1, 2]]);
    let matrix3 = matrix([[1, 3, 2], [2, 1, 3], [3, 2, 1]]);
    let matrix4 = matrix([[1, 3, 2], [3, 2, 1], [2, 1, 3]]);

    assert_eq!(matrix1.mul(&matrix0), matrix1);
    assert_eq!(matrix0.mul(&matrix1), matrix1);
    assert_eq!(swap23.mul(&matrix1), matrix2);

    assert_eq!(matrix1.mul(&swap23), matrix4);

    assert_eq!(matrix2.mul(&swap23), matrix3);
}

#[test]
fn point_matmul() {
    let pi = std::f64::consts::PI;
    let point = Point([ONE, ONE, 0]);
    let xrotate = Matrix3x3::rotate_x_theta(angle(pi / 2.));
    let rotated = xrotate.mul_point(&point);
    let expected = [1.0, 0.0, 1.0];
    for i in 0..3 {
        let got = rotated.0[i] as f64 / ONE as f64;
        assert!((got - expected[i]).abs() < 1e-9, "{:?}", rotated);
    }
}

#[test]
fn print_screen() {
    let mut scr = Screen::default();
    let cube: Shape = Shape::cube();

    scr.render_shape(cube.clone());
    scr.clear_screen();

    let cube = cube.rotate_y_theta(angle(std::f64::consts::PI / 5.));

    scr.render_shape(cube.clone());
    scr.clear_screen();
    assert!(scr.frame_text().iter().all(|c| *c == ' ' || *c == '\n'));
}

#[test]
fn line_in_between() {
    let line: Line = Line([Point([ONE, ONE, ONE]), Point([ONE, ONE, -ONE])]);
    let points = line.find_78_points_in_between();
    assert_eq!(points.len(), 79);
    for (k, pt) in points.iter().enumerate() {
        assert_eq!(pt.0[0], ONE);
        assert_eq!(pt.0[1], ONE);
        let ideal = 1.0 - 2.0 * k as f64 / 78.0;
        assert!((pt.0[2] as f64 / ONE as f64 - ideal).abs() < 1e-9, "{pt:?}");
    }
    assert_eq!(points[0].0[2], ONE);
    assert_eq!(points[78].0[2], -ONE);
}
