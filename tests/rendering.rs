use std::collections::HashSet;

use wireframe::fixed::{Angle, ONE};
use wireframe::frame::{
    command_for_key, spin_4d, spin_cube, spinning_cube, spinning_fivecell, spinning_hypercube, turn, Command,
    Plane,
};
use wireframe::line::Line;
use wireframe::point::Point;
use wireframe::screen::{MyScreenBuffer, Screen, LARGE_HEIGHT, LARGE_WIDTH, SMALL_HEIGHT, SMALL_WIDTH};
use wireframe::shape::fourd::Shape as Shape4d;
use wireframe::shape::Shape;

fn fx(x: f64) -> i64 {
    (x * ONE as f64).round() as i64
}

fn angle(theta: f64) -> Angle {
    Angle::new(fx(theta.cos()), fx(theta.sin())).unwrap()
}

fn rows(text: &[char]) -> Vec<String> {
    text.iter().collect::<String>().lines().map(|l| l.to_string()).collect()
}

fn cells_with(text: &[char], ch: char) -> HashSet<(usize, usize)> {
    let mut out = HashSet::new();
    for (r, row) in rows(text).iter().enumerate() {
        for (c, x) in row.chars().enumerate() {
            if x == ch {
                out.insert((r, c));
            }
        }
    }
    out
}

#[test]
fn cube_frame_on_the_small_canvas() {
    let mut scr = Screen::small();
    let text = scr.draw_frame(Shape(Shape::cube().0, '.'));
    assert_eq!(text.len(), SMALL_HEIGHT * (SMALL_WIDTH + 1));
    let lines = rows(&text);
    assert_eq!(lines.len(), SMALL_HEIGHT);
    assert!(lines.iter().all(|l| l.chars().count() == SMALL_WIDTH));
    let dots = cells_with(&text, '.');
    assert!(dots.len() >= 10, "{}", dots.len());
    assert!(text.iter().filter(|c| **c == ' ').count() > 3000);
    // the canvas is blank again after the frame
    assert!(scr.frame_text().iter().all(|c| *c == ' ' || *c == '\n'));
}

#[test]
fn cube_frame_after_a_full_turn_is_the_same() {
    let full = angle(2.0 * std::f64::consts::PI);
    let mut scr = Screen::small();
    let before = scr.draw_frame(spinning_cube());
    for turned in [
        spinning_cube().rotate_x_theta(full),
        spinning_cube().rotate_y_theta(full),
        spinning_cube().rotate_z_theta(full),
    ] {
        assert_eq!(scr.draw_frame(turned), before);
    }
}

#[test]
fn hypercube_frame_changes_after_a_zw_turn() {
    let mut scr = Screen::small();
    let h = spinning_hypercube();
    let before = cells_with(&scr.draw_frame(h.to_shape_3d()), '.');
    assert!(before.len() > 20, "{}", before.len());
    let turned = h.rotate_zw_theta(angle(std::f64::consts::PI / 12.0));
    let after = cells_with(&scr.draw_frame(turned.to_shape_3d()), '.');
    assert_ne!(before, after);
}

#[test]
fn fivecell_frame_draws_something() {
    let mut scr = Screen::large();
    let f = spinning_fivecell();
    assert_eq!(f.1, '.');
    assert_eq!(f.0.len(), 10);
    assert!(f.is_projectable());
    let text = scr.draw_frame(f.to_shape_3d());
    assert_eq!(text.len(), LARGE_HEIGHT * (LARGE_WIDTH + 1));
    assert!(cells_with(&text, '.').len() > 20);
}

#[test]
fn origin_lands_in_the_middle_cell() {
    let mut scr = Screen::small();
    scr.set_point(Point([0, 0, 0]), '#');
    assert_eq!(scr.cell(21, 39), '#');
    assert_eq!(cells_with(&scr.frame_text(), '#').len(), 1);
}

#[test]
fn cell_formula_with_an_exact_value() {
    // x = 1, y = 0: sx = 0.5, col = round(0.5 * 39 / 2.16666666666666 * 5/3 + 39) = round(54.0000000000004) = 54
    // z = 1: sy = 0.5, row = round(0.5 * 21 / 1.16666666666666 + 21) = round(30.0000000000003) = 30
    let mut scr = Screen::small();
    scr.set_point(Point([ONE, 0, ONE]), 'x');
    assert_eq!(scr.cell(30, 54), 'x');
}

#[test]
fn points_behind_the_eye_or_off_the_canvas_are_dropped() {
    let mut scr = Screen::small();
    scr.set_point(Point([0, -4 * ONE, 0]), '#');
    scr.set_point(Point([0, -5 * ONE, 0]), '#');
    scr.set_point(Point([100 * ONE, 0, 0]), '#');
    scr.set_point(Point([-100 * ONE, 0, 0]), '#');
    scr.set_point(Point([0, 0, 100 * ONE]), '#');
    scr.set_point(Point([i64::MAX, -4 * ONE + 1, i64::MIN]), '#');
    assert!(scr.frame_text().iter().all(|c| *c == ' ' || *c == '\n'));
}

#[test]
fn later_lines_overwrite_earlier_ones() {
    let mut scr = Screen::small();
    let l = Line([Point([-ONE, 0, 0]), Point([ONE, 0, 0])]);
    scr.render_line(l, 'a');
    scr.render_line(l, 'b');
    let text = scr.frame_text();
    assert!(cells_with(&text, 'a').is_empty());
    assert!(!cells_with(&text, 'b').is_empty());
}

#[test]
fn an_empty_shape_draws_nothing() {
    let mut scr = Screen::default();
    scr.render_shape(Shape(Vec::new(), '*'));
    assert!(scr.frame_text().iter().all(|c| *c == ' ' || *c == '\n'));
}

#[test]
fn screen_buffer_text_layout() {
    let buf = MyScreenBuffer { width: 3, height: 2, cells: vec!['a', 'b', 'c', 'd', 'e', 'f'] };
    assert_eq!(buf.to_text().iter().collect::<String>(), "abc\ndef\n");
    let blank = MyScreenBuffer::new(2, 2);
    assert_eq!(blank.to_text().iter().collect::<String>(), "  \n  \n");
}

#[test]
fn keys_map_to_commands() {
    assert_eq!(command_for_key('h'), Some(Command::Turn(Plane::XY)));
    assert_eq!(command_for_key('j'), Some(Command::Turn(Plane::XZ)));
    assert_eq!(command_for_key('k'), Some(Command::Turn(Plane::YZ)));
    assert_eq!(command_for_key('l'), Some(Command::Turn(Plane::ZW)));
    assert_eq!(command_for_key('i'), Some(Command::Turn(Plane::YW)));
    assert_eq!(command_for_key('n'), Some(Command::Turn(Plane::XW)));
    assert_eq!(command_for_key('q'), Some(Command::Quit));
    assert_eq!(command_for_key('x'), None);
}

#[test]
fn frame_steps_turn_by_the_documented_angles() {
    let cube = spinning_cube();
    let expected = cube
        .clone()
        .rotate_y_theta(Angle::pi_over_90())
        .rotate_x_theta(Angle::pi_over_70())
        .rotate_z_theta(Angle::pi_over_180());
    assert_eq!(spin_cube(cube).0, expected.0);
    let h = spinning_hypercube();
    let expected = h.clone().rotate_zw_theta(Angle::pi_over_90()).rotate_xy_theta(Angle::pi_over_90());
    assert_eq!(spin_4d(h.clone()).0, expected.0);
    assert_eq!(turn(h.clone(), Plane::XW).0, h.rotate_xw_theta(Angle::pi_over_12()).0);
}

#[test]
fn step_angles_match_their_fractions_of_pi() {
    for (a, n) in [
        (Angle::pi_over_90(), 90.0),
        (Angle::pi_over_70(), 70.0),
        (Angle::pi_over_180(), 180.0),
        (Angle::pi_over_12(), 12.0),
    ] {
        assert_eq!(a, angle(std::f64::consts::PI / n));
    }
}

#[test]
fn spinning_shapes_are_scaled_and_dotted() {
    let c = spinning_cube();
    assert_eq!(c.1, '.');
    assert_eq!(c.0[0].0[0], Point([fx(1.1), fx(1.1), fx(1.1)]));
    let h = spinning_hypercube();
    assert_eq!(h.1, '.');
    assert_eq!(h.0[0].0[0].0, [fx(1.5), fx(1.5), fx(1.5), fx(-1.5)]);
    assert!(h.is_within(2 * ONE));
    assert!(!h.is_within(ONE));
    assert!(Shape::cube().is_within(ONE));
    assert!(Shape4d::fivecell().is_within(ONE));
}

#[test]
fn many_frames_stay_in_range() {
    let mut scr = Screen::small();
    let mut h = spinning_hypercube();
    let mut c = spinning_cube();
    for _ in 0..200 {
        assert!(h.is_projectable());
        scr.draw_frame(h.to_shape_3d());
        h = spin_4d(h);
        scr.draw_frame(c.clone());
        c = spin_cube(c);
    }
    assert!(h.is_within(3 * ONE));
    assert!(c.is_within(3 * ONE));
}
