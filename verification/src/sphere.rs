//! Spheres, and the choice between the two points where a ray meets one.

use vstd::prelude::*;
use crate::hittable::HitRecord;
use crate::interval::Interval;
use crate::material::Material;
use crate::ray::Point3;
use crate::scalar::Scalar;
use crate::vec3::Vec3;

verus! {

/// The solved equation `|orig + t * dir - center|^2 = radius^2` of one ray
/// and one sphere: with `a = |dir|^2`, `h = dir . (center - orig)` and
/// `c = |center - orig|^2 - radius^2`, the discriminant `h^2 - a * c` and
/// the roots `(h - sqrt(discriminant)) / a` and `(h + sqrt(discriminant)) / a`.
#[derive(Clone, Copy, Debug, PartialEq, Eq, Structural)]
pub struct Quadratic {
    pub discriminant: Scalar,
    pub near: Scalar,
    pub far: Scalar,
}

impl Quadratic {
    /// The far root does not lie before the near one.
    pub open spec fn well_formed(self) -> bool {
        !self.far.spec_lt(self.near)
    }

    /// The parameter at which the ray meets the sphere within `ray_t`: none
    /// where the discriminant is negative; else the near root if `ray_t`
    /// surrounds it; else the far root if `ray_t` surrounds that; else none.
    pub open spec fn root(self, ray_t: Interval) -> Option<Scalar> {
        if self.discriminant.spec_lt(Scalar { bits: 0 }) {
            None
        } else if ray_t.spec_surrounds(self.near) {
            Some(self.near)
        } else if ray_t.spec_surrounds(self.far) {
            Some(self.far)
        } else {
            None
        }
    }

    /// Whether the roots are in order, as `well_formed` asks.
    pub fn is_well_formed(&self) -> (r: bool)
        ensures
            r == self.well_formed(),
    {
        !self.far.lt(self.near)
    }
}

/// A sphere and what it is made of.
#[derive(Clone, Copy, Debug, PartialEq, Eq, Structural)]
pub struct Sphere {
    pub center: Point3,
    pub radius: Scalar,
    pub mat: Material,
}

impl Sphere {
    /// Where along the ray the sphere is hit, if it is hit within `ray_t`.
    /// A negative discriminant is a miss, and a parameter that is returned
    /// lies strictly inside `ray_t`.
    pub fn hit(equation: &Quadratic, ray_t: &Interval) -> (t: Option<Scalar>)
        ensures
            t == equation.root(*ray_t),
            equation.discriminant.spec_lt(Scalar { bits: 0 }) ==> t.is_none(),
            t.is_some() ==> ray_t.spec_surrounds(t.unwrap()),
            t.is_some() ==> t.unwrap() == equation.near || t.unwrap() == equation.far,
    {
        if equation.discriminant.lt(Scalar::zero()) {
            return None;
        }
        let mut root = equation.near;
        if !ray_t.surrounds(root) {
            root = equation.far;
            if !ray_t.surrounds(root) {
                return None;
            }
        }
        Some(root)
    }

    /// The record of a hit at parameter `t`: `p` is the point of the ray
    /// there, `outward_normal` the vector from the centre to `p` divided by
    /// the radius, and `dot` the dot product of the ray's direction with it.
    pub fn record(&self, t: Scalar, p: Point3, outward_normal: Vec3, dot: Scalar) -> (rec:
        HitRecord)
        ensures
            rec.t == t,
            rec.p == p,
            rec.mat == self.mat,
            rec.front_face == dot.spec_lt(Scalar { bits: 0 }),
            rec.normal == if rec.front_face {
                outward_normal
            } else {
                outward_normal.spec_neg()
            },
    {
        let mut rec = HitRecord::new(self.mat);
        rec.t = t;
        rec.p = p;
        rec.set_face_normal(dot, outward_normal);
        rec
    }
}

} // verus!
