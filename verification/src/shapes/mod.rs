//! The surfaces a scene is made of.

pub mod sphere;

use vstd::prelude::*;
use crate::hit_record::HitRecord;
use crate::hit_record::Interval;
use crate::shapes::sphere::Crossings;
use crate::shapes::sphere::Sphere;

verus! {

/// A surface of one of the kinds the tracer knows.
#[non_exhaustive]
#[derive(Clone, Copy, Debug, PartialEq, Eq, Structural)]
pub enum Shape {
    Sphere(Sphere),
}

impl Shape {
    /// The hit that the shape reports for a ray with these crossings.
    pub open spec fn struck(self, crossings: Crossings, interval: Interval) -> Option<HitRecord> {
        match self {
            Shape::Sphere(sphere) => sphere.struck(crossings, interval),
        }
    }

    /// The nearest hit inside `interval` of the ray whose crossings with the
    /// shape's surface are `crossings`.
    pub fn hit(&self, crossings: &Crossings, interval: Interval) -> (r: Option<HitRecord>)
        ensures
            r == self.struck(*crossings, interval),
    {
        match self {
            Shape::Sphere(sphere) => sphere.hit(crossings, interval),
        }
    }
}

} // verus!
