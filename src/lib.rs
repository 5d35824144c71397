//! Core of a small ray tracer: the entry-moving part of the 4x4 transform
//! algebra (transpose, submatrices, cofactor signs), the shape variants, and
//! the pixel grid with its plain PPM text layout.
//!
//! The matrices are generic over their scalar type; the arithmetic on
//! floating-point scalars is left to the program that uses the library.

pub mod canvas;
pub mod matrix;
pub mod ppm;
pub mod shape;

pub use canvas::Canvas;
pub use matrix::{Matrix2x2, Matrix3x3, Matrix4x4};
pub use shape::{Shape, Sphere};
