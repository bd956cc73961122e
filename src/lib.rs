//! Wireframe rendering of rotating cubes, tesseracts and 5-cells on a
//! character grid, in fixed-point arithmetic.
pub mod fixed;
pub mod frame;
pub mod line;
pub mod matrix;
pub mod point;
pub mod screen;
pub mod shape;
