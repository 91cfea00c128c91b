//! Points, directions and colours.

use vstd::prelude::*;
use crate::scalar::Scalar;
use crate::scalar::ONE_BITS;

verus! {

/// Three numbers: a point, a direction, or the red, green and blue of a
/// colour.
#[derive(Clone, Copy, Debug, PartialEq, Eq, Structural)]
pub struct Vec3 {
    pub x: Scalar,
    pub y: Scalar,
    pub z: Scalar,
}

/// Linear radiance, one number per channel.
pub type Color = Vec3;

impl Vec3 {
    /// Positive zero in every component.
    pub open spec fn zeros() -> Vec3 {
        Vec3 { x: Scalar { bits: 0 }, y: Scalar { bits: 0 }, z: Scalar { bits: 0 } }
    }

    /// One in every component.
    pub open spec fn ones() -> Vec3 {
        Vec3 { x: Scalar { bits: ONE_BITS }, y: Scalar { bits: ONE_BITS }, z: Scalar { bits: ONE_BITS } }
    }

    /// Every component negated.
    pub open spec fn negated(self) -> Vec3 {
        Vec3 { x: self.x.negated(), y: self.y.negated(), z: self.z.negated() }
    }

    /// Whether every component is a number and none is infinite.
    pub open spec fn finite(self) -> bool {
        self.x.finite() && self.y.finite() && self.z.finite()
    }

    /// Whether every component lies within `tolerance` of zero. A NaN
    /// component, or a NaN tolerance, makes this false.
    pub open spec fn near_zero(self, tolerance: Scalar) -> bool {
        &&& self.x.absolute().at_most(tolerance)
        &&& self.y.absolute().at_most(tolerance)
        &&& self.z.absolute().at_most(tolerance)
    }

    pub fn new(x: Scalar, y: Scalar, z: Scalar) -> (r: Vec3)
        ensures
            r == (Vec3 { x, y, z }),
    {
        Vec3 { x, y, z }
    }

    /// The same number in every component.
    pub fn splat(value: Scalar) -> (r: Vec3)
        ensures
            r == (Vec3 { x: value, y: value, z: value }),
    {
        Vec3 { x: value, y: value, z: value }
    }

    /// The origin, and the colour black.
    pub fn zero() -> (r: Vec3)
        ensures
            r == Vec3::zeros(),
    {
        Vec3::splat(Scalar::zero())
    }

    /// One in every component: the colour white.
    pub fn one() -> (r: Vec3)
        ensures
            r == Vec3::ones(),
    {
        Vec3::splat(Scalar::one())
    }

    /// `-self`, exact in every component.
    pub fn neg(self) -> (r: Vec3)
        ensures
            r == self.negated(),
    {
        Vec3 { x: self.x.neg(), y: self.y.neg(), z: self.z.neg() }
    }

    pub fn is_finite(self) -> (r: bool)
        ensures
            r == self.finite(),
    {
        self.x.is_finite() && self.y.is_finite() && self.z.is_finite()
    }

    /// Whether the vector is too short to give a direction: every component
    /// within `tolerance` of zero.
    pub fn is_near_zero(self, tolerance: Scalar) -> (r: bool)
        ensures
            r == self.near_zero(tolerance),
    {
        self.x.abs().le(tolerance) && self.y.abs().le(tolerance) && self.z.abs().le(tolerance)
    }
}

/// The direction where `facing` is above zero, else its opposite.
pub open spec fn on_side_of_normal(direction: Vec3, facing: Scalar) -> Vec3 {
    if facing.above_zero() {
        direction
    } else {
        direction.negated()
    }
}

/// Of a direction and its opposite, the one on the side of a surface normal.
///
/// `facing` is the dot product of `direction` with the normal. The direction
/// is kept where that is positive and turned round otherwise, so also where it
/// is zero or a NaN.
pub fn random_unit_hemisphere(direction: Vec3, facing: Scalar) -> (r: Vec3)
    ensures
        r == on_side_of_normal(direction, facing),
{
    if facing.is_above_zero() {
        direction
    } else {
        direction.neg()
    }
}

} // verus!
