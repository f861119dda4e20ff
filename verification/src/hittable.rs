//! The record of one contact between a ray and a surface.

use vstd::prelude::*;
use crate::material::Material;
use crate::ray::Point3;
use crate::scalar::Scalar;
use crate::vec3::Vec3;

verus! {

/// Where a ray met a surface, and how.
#[derive(Clone, Copy, Debug, PartialEq, Eq, Structural)]
pub struct HitRecord {
    pub p: Point3,
    /// Unit normal, turned against the incoming ray.
    pub normal: Vec3,
    pub t: Scalar,
    /// Whether the ray came from outside the surface.
    pub front_face: bool,
    pub mat: Material,
}

impl HitRecord {
    /// A record at the origin, for the material given.
    pub fn new(mat: Material) -> (rec: HitRecord)
        ensures
            rec == (HitRecord {
                p: Vec3 { x: Scalar { bits: 0 }, y: Scalar { bits: 0 }, z: Scalar { bits: 0 } },
                normal: Vec3 {
                    x: Scalar { bits: 0 },
                    y: Scalar { bits: 0 },
                    z: Scalar { bits: 0 },
                },
                t: Scalar { bits: 0 },
                front_face: true,
                mat,
            }),
    {
        HitRecord { p: Vec3::zeros(), normal: Vec3::zeros(), t: Scalar::zero(), front_face: true, mat }
    }

    /// Stores the normal so that it opposes the ray. `dot` is the dot
    /// product of the ray's direction and `outward_normal`: the ray comes
    /// from outside exactly when it is negative, and the normal is flipped
    /// when it does not.
    pub fn set_face_normal(&mut self, dot: Scalar, outward_normal: Vec3)
        ensures
            final(self).front_face == dot.spec_lt(Scalar { bits: 0 }),
            final(self).normal == if dot.spec_lt(Scalar { bits: 0 }) {
                outward_normal
            } else {
                outward_normal.spec_neg()
            },
            final(self).p == old(self).p,
            final(self).t == old(self).t,
            final(self).mat == old(self).mat,
    {
        self.front_face = dot.lt(Scalar::zero());
        self.normal = if self.front_face {
            outward_normal
        } else {
            outward_normal.neg()
        };
    }
}

} // verus!
