//! Spheres.
//!
//! A ray `origin + t * direction` meets the sphere of centre `c` and radius
//! `r` where `a * t^2 - 2 * h * t + k = 0`, with `a` the squared length of
//! the direction, `h` the dot product of `c - origin` with the direction and
//! `k` the squared length of `c - origin` less `r^2`. The caller rounds the
//! discriminant `h^2 - a * k` and the two roots; which root counts as the
//! hit, if any, is decided here.

use vstd::prelude::*;
use crate::hit_record::bound;
use crate::hit_record::lemma_nearest;
use crate::hit_record::nearer;
use crate::hit_record::nearest;
use crate::hit_record::normal_against;
use crate::hit_record::side_struck;
use crate::hit_record::FaceSide;
use crate::hit_record::HitRecord;
use crate::hit_record::Interval;
use crate::material::Material;
use crate::scalar::Scalar;
use crate::vectors::Vec3;

verus! {

#[derive(Clone, Copy, Debug, PartialEq, Eq, Structural)]
pub struct Sphere {
    pub center: Vec3,
    pub radius: Scalar,
    pub material: Material,
}

/// One of the two roots of the quadratic.
#[derive(Clone, Copy, Debug, PartialEq, Eq, Structural)]
pub enum Root {
    /// `(h - sqrt(discriminant)) / a`, where the ray enters the sphere.
    Near,
    /// `(h + sqrt(discriminant)) / a`, where it leaves.
    Far,
}

/// A point where a ray crosses the surface of a sphere, with what the caller
/// rounded there.
#[derive(Clone, Copy, Debug, PartialEq, Eq, Structural)]
pub struct Crossing {
    /// The ray parameter of the point: a root of the quadratic.
    pub t: Scalar,
    /// The point itself.
    pub point: Vec3,
    /// The unit normal that points out of the sphere at the point.
    pub outward_normal: Vec3,
    /// The dot product of the ray's direction with `outward_normal`.
    pub facing: Scalar,
}

/// The quadratic of one ray and one sphere, solved.
#[derive(Clone, Copy, Debug, PartialEq, Eq, Structural)]
pub struct Crossings {
    /// The squared length of the ray's direction.
    pub a: Scalar,
    pub discriminant: Scalar,
    /// The crossing at the near root.
    pub near: Crossing,
    /// The crossing at the far root.
    pub far: Crossing,
}

/// The root at which a ray hits: none where the direction has no length
/// (`a` is not above zero) or the ray passes the sphere by (the discriminant
/// is below zero); else the near root where it lies inside the interval; else
/// the far root where that does; else none.
pub open spec fn root_hit(a: Scalar, discriminant: Scalar, near: Scalar, far: Scalar, interval: Interval) -> Option<
    Root,
> {
    if !a.above_zero() || discriminant.below_zero() {
        None
    } else if interval.surrounds(near) {
        Some(Root::Near)
    } else if interval.surrounds(far) {
        Some(Root::Far)
    } else {
        None
    }
}

/// Decides at which root, if at any, a ray hits a sphere inside `interval`.
pub fn nearest_root(a: Scalar, discriminant: Scalar, near: Scalar, far: Scalar, interval: Interval) -> (r:
    Option<Root>)
    ensures
        r == root_hit(a, discriminant, near, far, interval),
{
    if !a.is_above_zero() || discriminant.is_below_zero() {
        None
    } else if interval.contains(near) {
        Some(Root::Near)
    } else if interval.contains(far) {
        Some(Root::Far)
    } else {
        None
    }
}

impl Crossings {
    /// The crossing at the given root.
    pub open spec fn at(self, root: Root) -> Crossing {
        match root {
            Root::Near => self.near,
            Root::Far => self.far,
        }
    }
}

impl Sphere {
    /// Whether the radius is above zero and the material's parameters are in
    /// range.
    pub open spec fn valid(self) -> bool {
        self.radius.above_zero() && self.material.valid()
    }

    /// The record of a hit at `crossing`: the point and parameter as given,
    /// the side that the ray struck, the normal turned against the ray, and
    /// the sphere's material.
    pub open spec fn recorded(self, crossing: Crossing) -> HitRecord {
        HitRecord {
            point: crossing.point,
            normal: normal_against(side_struck(crossing.facing), crossing.outward_normal),
            t: crossing.t,
            face_side: side_struck(crossing.facing),
            material: self.material,
        }
    }

    /// The hit that the sphere reports for a ray with these crossings.
    pub open spec fn struck(self, crossings: Crossings, interval: Interval) -> Option<HitRecord> {
        match root_hit(crossings.a, crossings.discriminant, crossings.near.t, crossings.far.t, interval) {
            Some(root) => Some(self.recorded(crossings.at(root))),
            None => None,
        }
    }

    pub fn new(center: Vec3, radius: Scalar, material: Material) -> (r: Sphere)
        ensures
            r == (Sphere { center, radius, material }),
    {
        Sphere { center, radius, material }
    }

    pub fn is_valid(&self) -> (r: bool)
        ensures
            r == self.valid(),
    {
        self.radius.is_above_zero() && self.material.is_valid()
    }

    /// The record of a hit on this sphere at `crossing`.
    pub fn record(&self, crossing: &Crossing) -> (r: HitRecord)
        ensures
            r == self.recorded(*crossing),
    {
        let mut hit = HitRecord::new(
            crossing.point,
            crossing.outward_normal,
            crossing.t,
            FaceSide::Front,
            self.material,
        );
        hit.set_face_normal(crossing.facing, crossing.outward_normal);
        hit
    }

    /// The nearest hit inside `interval` of the ray whose crossings with this
    /// sphere are `crossings`, or `None` where the ray has no length, misses
    /// the sphere, or crosses it only outside the interval.
    pub fn hit(&self, crossings: &Crossings, interval: Interval) -> (r: Option<HitRecord>)
        ensures
            r == self.struck(*crossings, interval),
    {
        match nearest_root(crossings.a, crossings.discriminant, crossings.near.t, crossings.far.t, interval) {
            Some(Root::Near) => Some(self.record(&crossings.near)),
            Some(Root::Far) => Some(self.record(&crossings.far)),
            None => None,
        }
    }
}

/// A ray that misses a sphere hits nothing: neither one that passes it by,
/// whatever the interval, nor one that crosses it only outside the interval.
pub proof fn lemma_miss(sphere: Sphere, crossings: Crossings, interval: Interval)
    requires
        crossings.discriminant.below_zero() || (!interval.surrounds(crossings.near.t)
            && !interval.surrounds(crossings.far.t)),
    ensures
        sphere.struck(crossings, interval) is None,
{
}

/// A ray with a direction that crosses a sphere inside the interval hits it.
pub proof fn lemma_hit(sphere: Sphere, crossings: Crossings, interval: Interval)
    requires
        crossings.a.above_zero(),
        !crossings.discriminant.below_zero(),
        interval.surrounds(crossings.near.t) || interval.surrounds(crossings.far.t),
    ensures
        sphere.struck(crossings, interval) is Some,
{
}

/// A ray whose direction has no length hits nothing.
pub proof fn lemma_no_direction(sphere: Sphere, crossings: Crossings, interval: Interval)
    requires
        !crossings.a.above_zero(),
    ensures
        sphere.struck(crossings, interval) is None,
{
}

/// A reported hit lies inside the interval, at one of the two crossings, and
/// at the far one only where the near one lies outside the interval.
pub proof fn lemma_hit_inside(sphere: Sphere, crossings: Crossings, interval: Interval)
    ensures
        sphere.struck(crossings, interval) matches Some(hit) ==> {
            &&& interval.surrounds(hit.t)
            &&& hit.t == crossings.near.t || hit.t == crossings.far.t
            &&& hit.t != crossings.near.t ==> !interval.surrounds(crossings.near.t)
        },
{
}

/// From whichever side the ray comes, the recorded normal is the outward
/// normal or its exact opposite, and it is the outward normal exactly where
/// the ray runs against it, which is what the front side means.
pub proof fn lemma_normal_against_ray(sphere: Sphere, crossing: Crossing)
    ensures
        sphere.recorded(crossing).face_side == FaceSide::Front <==> crossing.facing.below_zero(),
        crossing.facing.below_zero() ==> sphere.recorded(crossing).normal == crossing.outward_normal,
        !crossing.facing.below_zero() ==> sphere.recorded(crossing).normal
            == crossing.outward_normal.negated(),
{
}

/// Asking a sphere only for hits nearer than the best so far loses nothing:
/// the nearer of the best so far and the sphere's answer is the same whether
/// the sphere was asked for the whole interval or for the part before the
/// best so far. This holds where the roots are in order, the far one not
/// below the near one, and the best so far lies inside the interval.
pub proof fn lemma_pruning_loses_nothing(
    sphere: Sphere,
    crossings: Crossings,
    best: Option<HitRecord>,
    interval: Interval,
)
    requires
        !crossings.far.t.less(crossings.near.t),
        best matches Some(hit) ==> interval.surrounds(hit.t),
    ensures
        nearer(best, sphere.struck(crossings, interval.up_to(bound(best, interval))), interval)
            == nearer(best, sphere.struck(crossings, interval), interval),
{
}

/// The answers of a run of spheres, each asked for the whole interval.
pub open spec fn answers_in_full(spheres: Seq<Sphere>, crossings: Seq<Crossings>, interval: Interval) -> Seq<
    Option<HitRecord>,
> {
    Seq::new(spheres.len(), |i: int| spheres[i].struck(crossings[i], interval))
}

/// Whether `answers` are those of a run of spheres asked in turn, each only
/// for hits nearer than the nearest of the answers before.
pub open spec fn answers_in_turn(
    spheres: Seq<Sphere>,
    crossings: Seq<Crossings>,
    answers: Seq<Option<HitRecord>>,
    interval: Interval,
) -> bool {
    &&& answers.len() == spheres.len()
    &&& forall|i: int|
        0 <= i < spheres.len() ==> #[trigger] answers[i] == spheres[i].struck(
            crossings[i],
            interval.up_to(bound(nearest(answers.take(i), interval), interval)),
        )
}

/// A scene of spheres that asks each sphere only for hits nearer than the
/// best so far finds the same hit as one that asks each for the whole
/// interval: the nearest hit of any sphere inside the interval.
pub proof fn lemma_scan_finds_nearest(
    spheres: Seq<Sphere>,
    crossings: Seq<Crossings>,
    answers: Seq<Option<HitRecord>>,
    interval: Interval,
)
    requires
        crossings.len() == spheres.len(),
        forall|i: int| 0 <= i < crossings.len() ==> !(#[trigger] crossings[i]).far.t.less(crossings[i].near.t),
        answers_in_turn(spheres, crossings, answers, interval),
    ensures
        nearest(answers, interval) == nearest(answers_in_full(spheres, crossings, interval), interval),
    decreases spheres.len(),
{
    let full = answers_in_full(spheres, crossings, interval);
    if spheres.len() > 0 {
        let n = spheres.len() - 1;
        let front = answers.drop_last();
        assert(front =~= answers.take(n));
        assert forall|i: int| 0 <= i < n implies #[trigger] front[i] == spheres.drop_last()[i].struck(
            crossings.drop_last()[i],
            interval.up_to(bound(nearest(front.take(i), interval), interval)),
        ) by {
            assert(front.take(i) =~= answers.take(i));
            assert(front[i] == answers[i]);
        }
        lemma_scan_finds_nearest(spheres.drop_last(), crossings.drop_last(), front, interval);
        assert(answers_in_full(spheres.drop_last(), crossings.drop_last(), interval) =~= full.drop_last());
        let best = nearest(front, interval);
        lemma_nearest(front, interval);
        assert(answers.last() == answers[n]);
        lemma_pruning_loses_nothing(spheres[n], crossings[n], best, interval);
        assert(full.last() == spheres[n].struck(crossings[n], interval));
    }
}

} // verus!
