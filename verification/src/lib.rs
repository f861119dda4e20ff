//! Decision core of an offline Monte Carlo path tracer.
//!
//! Every real number is held as the bit pattern of an IEEE-754 binary64
//! value (see [`scalar::Scalar`]). The library compares, negates, clamps and
//! quantises such patterns exactly, takes their square root, and decides
//! what a light path does next; the other arithmetic that produces new
//! numbers is the caller's.

pub mod scalar;
pub mod root;
pub mod interval;
pub mod vec3;
pub mod ray;
pub mod color;
pub mod material;
pub mod hittable;
pub mod sphere;
pub mod hittable_list;
pub mod text;
pub mod camera;
