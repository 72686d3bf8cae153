//! A free-look camera in exact fixed-point arithmetic.
//!
//! Every quantity (angles in degrees, positions, direction vectors, tuning
//! parameters) is a [`fixed::Fixed`]: a signed 64-bit count of billionths.
//! All operations are total; results that leave the representable range
//! saturate at its ends.
//!
//! [`camera::Camera`] is the camera itself; [`input`] turns key states and
//! cursor positions into calls on it; [`matrix`] builds its view matrix.
//! [`basis`] proves that the camera's three direction vectors are
//! orthonormal.

pub mod arith;
pub mod basis;
pub mod camera;
pub mod fixed;
pub mod geometry;
pub mod input;
pub mod matrix;
pub mod root;
pub mod trig;
pub mod vector;
