//! Hits of a ray on a surface, and the nearest of several.

use vstd::prelude::*;
use crate::material::Material;
use crate::ray::Ray;
use crate::scalar::Scalar;
use crate::vectors::Vec3;

verus! {

/// The side of a surface that a ray struck: the front where it came from
/// outside, against the outward normal.
#[derive(Clone, Copy, Debug, PartialEq, Eq, Structural)]
pub enum FaceSide {
    Front,
    Back,
}

impl Default for FaceSide {
    fn default() -> (r: FaceSide)
        ensures
            r == FaceSide::Front,
    {
        FaceSide::Front
    }
}

/// The open range of ray parameters between `min` and `max`.
#[derive(Clone, Copy, Debug, PartialEq, Eq, Structural)]
pub struct Interval {
    pub min: Scalar,
    pub max: Scalar,
}

impl Interval {
    /// `min < t < max`. No interval surrounds a NaN, and one with a NaN for an
    /// end surrounds nothing.
    pub open spec fn surrounds(self, t: Scalar) -> bool {
        self.min.less(t) && t.less(self.max)
    }

    /// The part of the interval below `max`, where `max` lies inside it.
    pub open spec fn up_to(self, max: Scalar) -> Interval {
        Interval { min: self.min, max }
    }

    pub fn new(min: Scalar, max: Scalar) -> (r: Interval)
        ensures
            r == (Interval { min, max }),
    {
        Interval { min, max }
    }

    /// Whether `t` lies strictly inside the interval.
    pub fn contains(&self, t: Scalar) -> (r: bool)
        ensures
            r == self.surrounds(t),
    {
        self.min.lt(t) && t.lt(self.max)
    }
}

/// One hit: where, how far along the ray, on which side, on what material.
/// The normal has length one and is turned against the ray.
#[derive(Clone, Copy, Debug, PartialEq, Eq, Structural)]
pub struct HitRecord {
    pub point: Vec3,
    pub normal: Vec3,
    pub t: Scalar,
    pub face_side: FaceSide,
    pub material: Material,
}

/// The side struck by a ray whose direction has the dot product `facing` with
/// the outward normal: the front where that is below zero, else the back.
pub open spec fn side_struck(facing: Scalar) -> FaceSide {
    if facing.below_zero() {
        FaceSide::Front
    } else {
        FaceSide::Back
    }
}

/// The outward normal turned against the ray: itself at the front, negated at
/// the back.
pub open spec fn normal_against(side: FaceSide, outward_normal: Vec3) -> Vec3 {
    match side {
        FaceSide::Front => outward_normal,
        FaceSide::Back => outward_normal.negated(),
    }
}

/// The dot product of the ray's direction with the normal turned against
/// it, given the one with the outward normal: that one at the front, and at
/// the back its opposite, since the dot product with an exactly negated
/// vector is the exactly negated dot product.
pub open spec fn facing_against(facing: Scalar) -> Scalar {
    match side_struck(facing) {
        FaceSide::Front => facing,
        FaceSide::Back => facing.negated(),
    }
}

/// Whichever side a ray strikes, it runs against the recorded normal: their
/// dot product is below zero. The one exception is a ray that runs along the
/// surface or has no direction, whose dot product with the outward normal is
/// zero or no number.
pub proof fn lemma_normal_faces_ray(facing: Scalar)
    requires
        !facing.nan(),
        facing.scaled() != 0,
    ensures
        facing_against(facing).below_zero(),
{
    crate::scalar::lemma_negated(facing);
}

impl Default for HitRecord {
    /// A hit at the origin at parameter zero, on white matte.
    fn default() -> (r: HitRecord)
        ensures
            r.point == Vec3::zeros(),
            r.normal == Vec3::zeros(),
            r.t.bits == 0,
            r.face_side == FaceSide::Front,
            r.material == (Material::Lambertian { albedo: crate::material::white() }),
    {
        HitRecord {
            point: Vec3::zero(),
            normal: Vec3::zero(),
            t: Scalar::zero(),
            face_side: FaceSide::Front,
            material: Material::Lambertian { albedo: Vec3::one() },
        }
    }
}

impl HitRecord {
    pub fn new(point: Vec3, normal: Vec3, t: Scalar, face_side: FaceSide, material: Material) -> (r:
        HitRecord)
        ensures
            r == (HitRecord { point, normal, t, face_side, material }),
    {
        HitRecord { point, normal, t, face_side, material }
    }

    /// Records which side was struck and turns the normal against the ray.
    ///
    /// `facing` is the dot product of the ray's direction with
    /// `outward_normal`, which has length one.
    pub fn set_face_normal(&mut self, facing: Scalar, outward_normal: Vec3)
        ensures
            final(self).face_side == side_struck(facing),
            final(self).normal == normal_against(side_struck(facing), outward_normal),
            final(self).point == old(self).point,
            final(self).t == old(self).t,
            final(self).material == old(self).material,
    {
        self.face_side = if facing.is_below_zero() {
            FaceSide::Front
        } else {
            FaceSide::Back
        };
        self.normal = match self.face_side {
            FaceSide::Front => outward_normal,
            FaceSide::Back => outward_normal.neg(),
        };
    }
}

/// The end below which a further hit is still nearer than `best`: the
/// parameter of `best`, or the end of the interval where there is none yet.
pub open spec fn bound(best: Option<HitRecord>, interval: Interval) -> Scalar {
    match best {
        Some(hit) => hit.t,
        None => interval.max,
    }
}

/// The nearer of the best hit so far and a further candidate: the candidate
/// where it lies inside the interval and strictly before the best so far.
pub open spec fn nearer(best: Option<HitRecord>, candidate: Option<HitRecord>, interval: Interval) -> Option<
    HitRecord,
> {
    match candidate {
        Some(hit) => if interval.up_to(bound(best, interval)).surrounds(hit.t) {
            candidate
        } else {
            best
        },
        None => best,
    }
}

/// The nearest of the candidates that lie inside the interval; of several at
/// the same distance, the first.
pub open spec fn nearest(candidates: Seq<Option<HitRecord>>, interval: Interval) -> Option<HitRecord>
    decreases candidates.len(),
{
    if candidates.len() == 0 {
        None
    } else {
        nearer(nearest(candidates.drop_last(), interval), candidates.last(), interval)
    }
}

/// Whether a candidate is a hit inside the interval.
pub open spec fn counts(candidate: Option<HitRecord>, interval: Interval) -> bool {
    candidate matches Some(hit) && interval.surrounds(hit.t)
}

/// Keeps the nearer of the best hit so far and a further candidate.
pub fn closer(best: Option<HitRecord>, candidate: Option<HitRecord>, interval: Interval) -> (r: Option<
    HitRecord,
>)
    ensures
        r == nearer(best, candidate, interval),
{
    match candidate {
        Some(hit) => {
            let max = match best {
                Some(found) => found.t,
                None => interval.max,
            };
            if interval.min.lt(hit.t) && hit.t.lt(max) {
                candidate
            } else {
                best
            }
        },
        None => best,
    }
}

/// The nearest hit among `candidates` inside `interval`, or `None` where
/// none of them lies inside it.
pub fn closest(candidates: &Vec<Option<HitRecord>>, interval: Interval) -> (r: Option<HitRecord>)
    ensures
        r == nearest(candidates@, interval),
{
    let mut best: Option<HitRecord> = None;
    let mut i: usize = 0;
    while i < candidates.len()
        invariant
            i <= candidates.len(),
            best == nearest(candidates@.take(i as int), interval),
        decreases candidates.len() - i,
    {
        proof {
            assert(candidates@.take(i + 1).drop_last() =~= candidates@.take(i as int));
        }
        best = closer(best, candidates[i], interval);
        i += 1;
    }
    proof {
        assert(candidates@.take(i as int) =~= candidates@);
    }
    best
}

/// What `nearest` returns is one of the candidates, lies inside the interval,
/// and is no farther than any candidate inside the interval; and it returns
/// nothing exactly where no candidate lies inside the interval.
pub proof fn lemma_nearest(candidates: Seq<Option<HitRecord>>, interval: Interval)
    ensures
        nearest(candidates, interval) is None <==> forall|k: int|
            0 <= k < candidates.len() ==> !counts(#[trigger] candidates[k], interval),
        nearest(candidates, interval) matches Some(hit) ==> {
            &&& interval.surrounds(hit.t)
            &&& candidates.contains(Some(hit))
            &&& forall|k: int|
                0 <= k < candidates.len() && counts(#[trigger] candidates[k], interval)
                    ==> hit.t.at_most(candidates[k]->0.t)
        },
    decreases candidates.len(),
{
    if candidates.len() > 0 {
        let front = candidates.drop_last();
        let best = nearest(front, interval);
        lemma_nearest(front, interval);
        assert forall|k: int| 0 <= k < front.len() implies front[k] == candidates[k] by {}
        match nearest(candidates, interval) {
            Some(hit) => {
                if nearest(candidates, interval) == best {
                    let k = choose|k: int| 0 <= k < front.len() && front[k] == Some(hit);
                    assert(candidates[k] == Some(hit));
                } else {
                    assert(candidates[candidates.len() - 1] == Some(hit));
                }
                assert forall|k: int|
                    0 <= k < candidates.len() && counts(
                        #[trigger] candidates[k],
                        interval,
                    ) implies hit.t.at_most(candidates[k]->0.t) by {
                    if k < front.len() {
                        assert(counts(front[k], interval));
                    }
                }
            },
            None => {
                assert forall|k: int| 0 <= k < candidates.len() implies !counts(
                    #[trigger] candidates[k],
                    interval,
                ) by {
                    if k < front.len() {
                        assert(!counts(front[k], interval));
                    }
                }
            },
        }
        if nearest(candidates, interval) is Some {
            if best is None {
                assert(counts(candidates[candidates.len() - 1], interval));
            } else {
                let k = choose|k: int| 0 <= k < front.len() && counts(#[trigger] front[k], interval);
                assert(counts(candidates[k], interval));
            }
        }
    }
}

/// The distance of the nearest hit does not depend on the order of the
/// candidates: two sequences that hold the same candidates, each as often,
/// give hits at the same distance, or both give none.
pub proof fn lemma_nearest_ignores_order(
    first: Seq<Option<HitRecord>>,
    second: Seq<Option<HitRecord>>,
    interval: Interval,
)
    requires
        first.to_multiset() == second.to_multiset(),
    ensures
        nearest(first, interval) is None <==> nearest(second, interval) is None,
        nearest(first, interval) matches Some(a) ==> nearest(second, interval) matches Some(b)
            && a.t.same(b.t),
{
    lemma_nearest(first, interval);
    lemma_nearest(second, interval);
    first.to_multiset_ensures();
    second.to_multiset_ensures();
    assert forall|k: int| 0 <= k < first.len() implies second.contains(#[trigger] first[k]) by {
        assert(first.contains(first[k]));
        assert(first.to_multiset().count(first[k]) > 0);
    }
    assert forall|k: int| 0 <= k < second.len() implies first.contains(#[trigger] second[k]) by {
        assert(second.contains(second[k]));
        assert(second.to_multiset().count(second[k]) > 0);
    }
    if nearest(first, interval) is Some {
        let a = nearest(first, interval)->0;
        let i = choose|i: int| 0 <= i < first.len() && first[i] == Some(a);
        assert(second.contains(first[i]));
        let j = choose|j: int| 0 <= j < second.len() && second[j] == Some(a);
        assert(counts(second[j], interval));
        let b = nearest(second, interval)->0;
        assert(b.t.at_most(a.t));
        let m = choose|m: int| 0 <= m < second.len() && second[m] == Some(b);
        assert(first.contains(second[m]));
        let n = choose|n: int| 0 <= n < first.len() && first[n] == Some(b);
        assert(counts(first[n], interval));
        assert(a.t.at_most(b.t));
    }
    if nearest(second, interval) is Some {
        let b = nearest(second, interval)->0;
        let m = choose|m: int| 0 <= m < second.len() && second[m] == Some(b);
        assert(first.contains(second[m]));
        let n = choose|n: int| 0 <= n < first.len() && first[n] == Some(b);
        assert(counts(first[n], interval));
    }
}

/// What a ray can be tested against: a surface, or several of them.
pub trait Hittable {
    /// The nearest hit of `ray` on `self` with its parameter inside
    /// `interval`, or `None` where there is none.
    fn hit(&self, ray: &Ray, interval: Interval) -> Option<HitRecord>;
}

impl<T: Hittable> Hittable for Option<T> {
    /// An empty slot is never hit; a filled one answers for itself.
    fn hit(&self, ray: &Ray, interval: Interval) -> (r: Option<HitRecord>)
        ensures
            self is None ==> r is None,
            self matches Some(shape) ==> answered(shape, ray, interval, r),
    {
        match self {
            Some(shape) => shape.hit(ray, interval),
            None => None,
        }
    }
}

impl<T: Hittable, const N: usize> Hittable for [T; N] {
    /// As for a `Vec`: the nearest of what the members answer.
    fn hit(&self, ray: &Ray, interval: Interval) -> (r: Option<HitRecord>)
        ensures
            exists|answers: Seq<Option<HitRecord>>|
                scanned(self@, ray, interval, answers) && r == nearest(answers, interval),
            r matches Some(hit) ==> interval.surrounds(hit.t),
            N == 0 ==> r is None,
    {
        let mut best: Option<HitRecord> = None;
        let ghost mut answers: Seq<Option<HitRecord>> = Seq::empty();
        let mut i: usize = 0;
        while i < N
            invariant
                i <= N,
                self@.len() == N,
                answers.len() == i,
                best == nearest(answers, interval),
                scanned(self@.take(i as int), ray, interval, answers),
            decreases N - i,
        {
            let max = match best {
                Some(found) => found.t,
                None => interval.max,
            };
            let candidate = self[i].hit(ray, Interval::new(interval.min, max));
            proof {
                lemma_scan_goes_on(self@, i as int, ray, interval, answers, candidate);
                answers = answers.push(candidate);
            }
            best = closer(best, candidate, interval);
            i += 1;
        }
        proof {
            assert(self@.take(i as int) =~= self@);
            lemma_nearest(answers, interval);
        }
        best
    }
}

impl<T: Hittable> Hittable for Vec<T> {
    /// Asks every member in turn, each only for hits nearer than the nearest
    /// of the answers before, and returns the nearest of all answers.
    /// Whatever the members answer, a hit that is returned lies inside
    /// `interval`, and nothing is hit where there is no member.
    fn hit(&self, ray: &Ray, interval: Interval) -> (r: Option<HitRecord>)
        ensures
            exists|answers: Seq<Option<HitRecord>>|
                scanned(self@, ray, interval, answers) && r == nearest(answers, interval),
            r matches Some(hit) ==> interval.surrounds(hit.t),
            self@.len() == 0 ==> r is None,
    {
        let mut best: Option<HitRecord> = None;
        let ghost mut answers: Seq<Option<HitRecord>> = Seq::empty();
        let mut i: usize = 0;
        while i < self.len()
            invariant
                i <= self.len(),
                answers.len() == i,
                best == nearest(answers, interval),
                scanned(self@.take(i as int), ray, interval, answers),
            decreases self.len() - i,
        {
            let max = match best {
                Some(found) => found.t,
                None => interval.max,
            };
            let candidate = self[i].hit(ray, Interval::new(interval.min, max));
            proof {
                lemma_scan_goes_on(self@, i as int, ray, interval, answers, candidate);
                answers = answers.push(candidate);
            }
            best = closer(best, candidate, interval);
            i += 1;
        }
        proof {
            assert(self@.take(i as int) =~= self@);
            lemma_nearest(answers, interval);
        }
        best
    }
}

/// Whether `answer` is what `shape` may return when it is asked for the hit
/// of `ray` inside `interval`: whatever the shape's own `hit` promises of its
/// result holds of `answer`.
pub open spec fn answered<T: Hittable>(
    shape: &T,
    ray: &Ray,
    interval: Interval,
    answer: Option<HitRecord>,
) -> bool {
    call_ensures(T::hit, (shape, ray, interval), answer)
}

/// Whether `answers` are what the members of a scene may return when they
/// are asked in turn for the hit of `ray`, each only inside the part of
/// `interval` before the nearest of the answers before its own.
pub open spec fn scanned<T: Hittable>(
    members: Seq<T>,
    ray: &Ray,
    interval: Interval,
    answers: Seq<Option<HitRecord>>,
) -> bool {
    &&& answers.len() == members.len()
    &&& forall|i: int|
        0 <= i < members.len() ==> answered(
            &members[i],
            ray,
            interval.up_to(bound(nearest(answers.take(i), interval), interval)),
            #[trigger] answers[i],
        )
}

/// A scan of the first `i` members goes on to the next: with that member's
/// answer, asked inside the part of the interval before the nearest so far,
/// the answers are those of a scan of the first `i + 1` members, and the
/// nearest of them is the nearer of the nearest so far and the new answer.
proof fn lemma_scan_goes_on<T: Hittable>(
    members: Seq<T>,
    i: int,
    ray: &Ray,
    interval: Interval,
    answers: Seq<Option<HitRecord>>,
    answer: Option<HitRecord>,
)
    requires
        0 <= i < members.len(),
        scanned(members.take(i), ray, interval, answers),
        answered(
            &members[i],
            ray,
            interval.up_to(bound(nearest(answers, interval), interval)),
            answer,
        ),
    ensures
        scanned(members.take(i + 1), ray, interval, answers.push(answer)),
        nearest(answers.push(answer), interval) == nearer(
            nearest(answers, interval),
            answer,
            interval,
        ),
{
    let longer = answers.push(answer);
    assert(longer.drop_last() =~= answers);
    assert forall|k: int| 0 <= k < i + 1 implies answered(
        &members.take(i + 1)[k],
        ray,
        interval.up_to(bound(nearest(longer.take(k), interval), interval)),
        #[trigger] longer[k],
    ) by {
        if k < i {
            assert(longer.take(k) =~= answers.take(k));
            assert(members.take(i)[k] == members[k]);
            assert(longer[k] == answers[k]);
        } else {
            assert(longer.take(k) =~= answers);
        }
    }
}

} // verus!
