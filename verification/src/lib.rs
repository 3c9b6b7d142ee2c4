//! A small ray-marching renderer over fixed-point arithmetic.
//!
//! A scene of spheres is rendered by casting one ray per output pixel from a
//! pinhole camera, marching the ray through space in fixed steps, detecting
//! sphere containment, and reflecting off surfaces up to a bounded number of
//! bounces while accumulating colour multiplicatively.
//!
//! All scalar quantities are fixed-point numbers: an `i64` raw value that
//! stands for `raw / 65536`. Every arithmetic operation saturates at a fixed
//! symmetric range bound, and every operation's result is pinned down exactly
//! by its contract over that model.

pub mod fixed;
pub mod math;
pub mod objects;
