//! How a surface scatters the light that reaches it.

use vstd::prelude::*;
use crate::color::Color;
use crate::hittable::HitRecord;
use crate::ray::Ray;
use crate::scalar::{Scalar, ONE_BITS};
use crate::vec3::Vec3;

verus! {

/// What a material makes of an incoming ray: the colour it lets through
/// and the ray that leaves the surface.
#[derive(Clone, Copy, Debug, PartialEq, Eq, Structural)]
pub struct ScatterResult {
    pub attenuation: Color,
    pub scattered: Ray,
}

/// A diffuse surface.
#[derive(Clone, Copy, Debug, PartialEq, Eq, Structural)]
pub struct Lambertian {
    pub albedo: Color,
}

/// A mirror, blurred by `fuzz`.
#[derive(Clone, Copy, Debug, PartialEq, Eq, Structural)]
pub struct Metal {
    pub albedo: Color,
    pub fuzz: Scalar,
}

/// A clear, refracting body such as glass.
#[derive(Clone, Copy, Debug, PartialEq, Eq, Structural)]
pub struct Dielectric {
    pub refraction_index: Scalar,
}

/// The materials a surface can be made of.
#[derive(Clone, Copy, Debug, PartialEq, Eq, Structural)]
pub enum Material {
    Lambertian(Lambertian),
    Metal(Metal),
    Dielectric(Dielectric),
}

/// What a clear body does with a ray.
#[derive(Clone, Copy, Debug, PartialEq, Eq, Structural)]
pub enum Bend {
    Reflect,
    Refract,
}

impl Lambertian {
    /// Scatters into `candidate`, the surface normal plus a random unit
    /// vector, or along the normal where the two have cancelled. The ray is
    /// never absorbed, and the albedo is what it keeps.
    pub fn scatter(&self, rec: &HitRecord, candidate: Vec3) -> (r: Option<ScatterResult>)
        ensures
            r == Some(
                (ScatterResult {
                    attenuation: self.albedo,
                    scattered: Ray {
                        orig: rec.p,
                        dir: if candidate.spec_near_zero() {
                            rec.normal
                        } else {
                            candidate
                        },
                    },
                }),
            ),
    {
        let dir = if candidate.near_zero() {
            rec.normal
        } else {
            candidate
        };
        Some(ScatterResult { attenuation: self.albedo, scattered: Ray { orig: rec.p, dir } })
    }
}

impl Metal {
    /// The fuzz that is applied: `fuzz`, but no more than one.
    pub open spec fn spec_effective_fuzz(self) -> Scalar {
        if self.fuzz.spec_lt(Scalar { bits: ONE_BITS }) {
            self.fuzz
        } else {
            Scalar { bits: ONE_BITS }
        }
    }

    /// The factor by which the random unit vector is scaled before it is
    /// added to the mirrored direction.
    pub fn effective_fuzz(&self) -> (f: Scalar)
        ensures
            f == self.spec_effective_fuzz(),
            !f.nan() ==> f.spec_le(Scalar { bits: ONE_BITS }),
    {
        if self.fuzz.lt(Scalar::one()) {
            self.fuzz
        } else {
            Scalar::one()
        }
    }

    /// Scatters along `reflected`, the mirrored and perturbed direction,
    /// where it leaves the surface: `dot` is its dot product with the
    /// normal. A direction that points into the surface is absorbed.
    pub fn scatter(&self, rec: &HitRecord, reflected: Vec3, dot: Scalar) -> (r: Option<
        ScatterResult,
    >)
        ensures
            r == if dot.spec_gt(Scalar { bits: 0 }) {
                Some(
                    (ScatterResult {
                        attenuation: self.albedo,
                        scattered: Ray { orig: rec.p, dir: reflected },
                    }),
                )
            } else {
                None
            },
            !dot.nan() ==> (r.is_none() <==> dot.spec_le(Scalar { bits: 0 })),
    {
        if dot.gt(Scalar::zero()) {
            Some(
                ScatterResult {
                    attenuation: self.albedo,
                    scattered: Ray { orig: rec.p, dir: reflected },
                },
            )
        } else {
            None
        }
    }
}

impl Dielectric {
    /// Whether the ray is mirrored rather than bent: when no bent ray
    /// exists (`ratio_sin`, the ratio of the indices times the sine of the
    /// angle of incidence, exceeds one) or when the reflectance exceeds the
    /// number drawn.
    pub open spec fn spec_reflects(ratio_sin: Scalar, reflectance: Scalar, draw: Scalar) -> bool {
        ratio_sin.spec_gt(Scalar { bits: ONE_BITS }) || reflectance.spec_gt(draw)
    }

    /// The ratio of the refraction indices on the ray's way: `inverse`,
    /// one divided by the body's index, for a ray that enters the body, and
    /// the index itself for one that leaves it.
    pub fn refraction_ratio(&self, front_face: bool, inverse: Scalar) -> (ratio: Scalar)
        ensures
            ratio == if front_face {
                inverse
            } else {
                self.refraction_index
            },
    {
        if front_face {
            inverse
        } else {
            self.refraction_index
        }
    }

    /// Decides between reflection and refraction.
    pub fn bend(ratio_sin: Scalar, reflectance: Scalar, draw: Scalar) -> (b: Bend)
        ensures
            b == if Self::spec_reflects(ratio_sin, reflectance, draw) {
                Bend::Reflect
            } else {
                Bend::Refract
            },
    {
        if ratio_sin.gt(Scalar::one()) || reflectance.gt(draw) {
            Bend::Reflect
        } else {
            Bend::Refract
        }
    }

    /// Sends the ray on along `direction`. Nothing is absorbed: the
    /// attenuation is white.
    pub fn scatter(&self, rec: &HitRecord, direction: Vec3) -> (r: Option<ScatterResult>)
        ensures
            r == Some(
                (ScatterResult {
                    attenuation: Vec3 {
                        x: Scalar { bits: ONE_BITS },
                        y: Scalar { bits: ONE_BITS },
                        z: Scalar { bits: ONE_BITS },
                    },
                    scattered: Ray { orig: rec.p, dir: direction },
                }),
            ),
    {
        let white = Vec3 { x: Scalar::one(), y: Scalar::one(), z: Scalar::one() };
        Some(ScatterResult { attenuation: white, scattered: Ray { orig: rec.p, dir: direction } })
    }
}

} // verus!
