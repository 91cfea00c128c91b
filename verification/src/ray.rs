//! Rays.

use vstd::prelude::*;
use crate::vectors::Vec3;
pub use crate::hit_record::FaceSide;
pub use crate::hit_record::HitRecord;
pub use crate::hit_record::Hittable;
pub use crate::shapes::sphere::Sphere;
pub use crate::shapes::Shape;

verus! {

/// A half-line: the points `origin + t * direction`. The direction need not
/// have length one.
#[derive(Clone, Copy, Debug, PartialEq, Eq, Structural)]
pub struct Ray {
    pub origin: Vec3,
    pub direction: Vec3,
}

impl Ray {
    pub fn new(origin: Vec3, direction: Vec3) -> (r: Ray)
        ensures
            r == (Ray { origin, direction }),
    {
        Ray { origin, direction }
    }
}

} // verus!
