//! Three-component vectors, used as points, directions and colours.

use vstd::prelude::*;
use crate::scalar::Scalar;

verus! {

/// Pattern of `1e-8`, below which a component counts as vanished.
pub const NEAR_ZERO_BITS: u64 = 0x3E45_798E_E230_8C3A;

/// Pattern of `1e-160`, the least squared length a direction sample may have.
pub const TINY_BITS: u64 = 0x1EB6_7E9C_127B_6E74;

/// A vector of three numbers.
#[derive(Clone, Copy, Debug, PartialEq, Eq, Structural)]
pub struct Vec3 {
    pub x: Scalar,
    pub y: Scalar,
    pub z: Scalar,
}

impl Vec3 {
    /// The vector with every component's sign flipped.
    pub open spec fn spec_neg(self) -> Vec3 {
        Vec3 { x: self.x.spec_neg(), y: self.y.spec_neg(), z: self.z.spec_neg() }
    }

    /// Every component is smaller than `1e-8` in magnitude.
    pub open spec fn spec_near_zero(self) -> bool {
        let s = Scalar { bits: NEAR_ZERO_BITS };
        self.x.spec_abs().spec_lt(s) && self.y.spec_abs().spec_lt(s) && self.z.spec_abs().spec_lt(s)
    }

    /// A squared length that a sampled direction may have: in `(1e-160, 1]`.
    pub open spec fn unit_sample_ok(length_squared: Scalar) -> bool {
        Scalar { bits: TINY_BITS }.spec_lt(length_squared) && length_squared.spec_le(
            Scalar { bits: crate::scalar::ONE_BITS },
        )
    }

    /// A squared length that a sampled disc point may have: below 1.
    pub open spec fn disc_sample_ok(length_squared: Scalar) -> bool {
        length_squared.spec_lt(Scalar { bits: crate::scalar::ONE_BITS })
    }

    /// The vector whose components are all positive zero.
    pub fn zeros() -> (v: Vec3)
        ensures
            v.x.bits == 0,
            v.y.bits == 0,
            v.z.bits == 0,
    {
        Vec3 { x: Scalar::zero(), y: Scalar::zero(), z: Scalar::zero() }
    }

    /// The opposite vector.
    pub fn neg(self) -> (v: Vec3)
        ensures
            v == self.spec_neg(),
            v.spec_neg() == self,
    {
        Vec3 { x: self.x.neg(), y: self.y.neg(), z: self.z.neg() }
    }

    /// Whether the vector has all but vanished, so that it gives no direction.
    pub fn near_zero(self) -> (r: bool)
        ensures
            r == self.spec_near_zero(),
    {
        let s = Scalar::from_bits(NEAR_ZERO_BITS);
        self.x.abs().lt(s) && self.y.abs().lt(s) && self.z.abs().lt(s)
    }

    /// Whether a vector drawn from the cube `[-1, 1)^3`, of the squared
    /// length given, is kept as a direction: the draw is repeated until this
    /// holds, and the kept vector is then divided by its length.
    pub fn accepts_unit_sample(length_squared: Scalar) -> (r: bool)
        ensures
            r == Self::unit_sample_ok(length_squared),
    {
        Scalar::from_bits(TINY_BITS).lt(length_squared) && length_squared.le(Scalar::one())
    }

    /// Whether a point drawn from the square `[-1, 1)^2`, of the squared
    /// length given, lies in the unit disc: the draw is repeated until it does.
    pub fn accepts_disc_sample(length_squared: Scalar) -> (r: bool)
        ensures
            r == Self::disc_sample_ok(length_squared),
    {
        length_squared.lt(Scalar::one())
    }

    /// The direction of a ray that enters a clear body. `parallel` is one
    /// minus the squared length of the bent ray's part across the normal:
    /// where it is negative no bent ray exists, and the ray goes on along
    /// `mirrored`; else it goes on along `bent`.
    pub fn refract(parallel: Scalar, bent: Vec3, mirrored: Vec3) -> (v: Vec3)
        ensures
            v == if parallel.spec_lt(Scalar { bits: 0 }) {
                mirrored
            } else {
                bent
            },
    {
        if parallel.lt(Scalar::zero()) {
            mirrored
        } else {
            bent
        }
    }

    /// Turns a unit vector into the hemisphere of `normal`: `dot` is the dot
    /// product of the two, and the vector is flipped unless it is positive.
    pub fn random_on_hemisphere(unit_on_sphere: Vec3, dot: Scalar) -> (v: Vec3)
        ensures
            v == if dot.spec_gt(Scalar { bits: 0 }) {
                unit_on_sphere
            } else {
                unit_on_sphere.spec_neg()
            },
    {
        if dot.gt(Scalar::zero()) {
            unit_on_sphere
        } else {
            unit_on_sphere.neg()
        }
    }
}

} // verus!
