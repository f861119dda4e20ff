//! Parametric rays.

use vstd::prelude::*;
use crate::vec3::Vec3;

verus! {

/// A point in space.
pub type Point3 = Vec3;

/// The half-line `orig + t * dir`.
#[derive(Clone, Copy, Debug, PartialEq, Eq, Structural)]
pub struct Ray {
    pub orig: Point3,
    pub dir: Vec3,
}

} // verus!
