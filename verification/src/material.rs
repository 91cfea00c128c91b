//! What a surface does to the light that reaches it.

use vstd::prelude::*;
use crate::hit_record::FaceSide;
use crate::hit_record::HitRecord;
use crate::ray::Ray;
use crate::scalar::Scalar;
use crate::scalar::ONE_BITS;
use crate::vectors::Color;
use crate::vectors::Vec3;

verus! {

/// A scatter direction with every component this close to zero is taken to
/// have no direction at all: ten to the power of minus eight.
pub const DEGENERATE_TOLERANCE_BITS: u64 = 0x3e45_798e_e230_8c3a;

/// The three kinds of surface.
#[derive(Clone, Copy, Debug, PartialEq, Eq, Structural)]
pub enum Material {
    /// Matte: scatters in every direction, tinted by `albedo`.
    Lambertian { albedo: Color },
    /// Mirror-like, tinted by `albedo`; `fuzz` between zero and one blurs the
    /// reflection.
    Metal { albedo: Color, fuzz: Scalar },
    /// Clear: reflects or refracts, and never tints.
    Dielectric { index_of_refraction: Scalar },
}

/// The rounded numbers a material needs to decide on a scattered ray. The
/// caller works them out for the hit in question and draws what is random in
/// them afresh for every hit.
#[derive(Clone, Copy, Debug, PartialEq, Eq, Structural)]
pub enum ScatterSample {
    /// For a matte surface: the hit normal plus a random unit vector.
    Diffuse { direction: Vec3 },
    /// For a metal: the mirrored unit direction plus `fuzz` times a random
    /// unit vector, and the dot product of that sum with the hit normal.
    Glossy { direction: Vec3, facing: Scalar },
    /// For a clear surface: the refraction ratio times the sine of the angle
    /// of incidence, the Schlick reflectance at that angle, a uniform draw
    /// from the unit interval, and the unit direction both mirrored about
    /// the hit normal and bent through the surface.
    Refractive {
        ratio_sine: Scalar,
        reflectance: Scalar,
        draw: Scalar,
        reflected: Vec3,
        refracted: Vec3,
    },
}

/// The tolerance below which a scatter direction counts as degenerate.
pub open spec fn degenerate_tolerance() -> Scalar {
    Scalar { bits: DEGENERATE_TOLERANCE_BITS }
}

/// White: one in every channel.
pub open spec fn white() -> Color {
    Vec3::ones()
}

/// Whether light at a clear surface is mirrored rather than bent: always
/// where Snell's law has no solution (`ratio_sine` above one), else where the
/// draw falls below the reflectance.
pub open spec fn reflects(ratio_sine: Scalar, reflectance: Scalar, draw: Scalar) -> bool {
    (Scalar { bits: ONE_BITS }).less(ratio_sine) || draw.less(reflectance)
}

/// The direction in which a matte surface sends the ray on: the sampled one,
/// or the normal where the sampled one is degenerate.
pub open spec fn diffuse_direction(normal: Vec3, sampled: Vec3) -> Vec3 {
    if sampled.near_zero(degenerate_tolerance()) {
        normal
    } else {
        sampled
    }
}

/// The ratio of the refractive indices, from the side the ray comes from to
/// the side it goes to, for a surface of index `index` in a medium of index
/// one: `reciprocal` on entering through the front, `index` on leaving
/// through the back.
pub open spec fn ratio_for_side(face_side: FaceSide, index: Scalar, reciprocal: Scalar) -> Scalar {
    match face_side {
        FaceSide::Front => reciprocal,
        FaceSide::Back => index,
    }
}

impl Material {
    /// Whether the parameters are in range: a fuzz from zero to one, an index
    /// of refraction above zero.
    pub open spec fn valid(self) -> bool {
        match self {
            Material::Lambertian { .. } => true,
            Material::Metal { fuzz, .. } => {
                (Scalar { bits: 0 }).at_most(fuzz) && fuzz.at_most(Scalar { bits: ONE_BITS })
            },
            Material::Dielectric { index_of_refraction } => index_of_refraction.above_zero(),
        }
    }

    /// Whether `sample` is of the kind that this material reads.
    pub open spec fn reads(self, sample: ScatterSample) -> bool {
        match self {
            Material::Lambertian { .. } => sample is Diffuse,
            Material::Metal { .. } => sample is Glossy,
            Material::Dielectric { .. } => sample is Refractive,
        }
    }

    /// The scattered ray and its attenuation, or `None` where the ray is
    /// absorbed.
    pub open spec fn scattered(self, hit: HitRecord, sample: ScatterSample) -> Option<(Ray, Color)> {
        match (self, sample) {
            (Material::Lambertian { albedo }, ScatterSample::Diffuse { direction }) => Some(
                (Ray { origin: hit.point, direction: diffuse_direction(hit.normal, direction) }, albedo),
            ),
            (Material::Metal { albedo, .. }, ScatterSample::Glossy { direction, facing }) => {
                if facing.above_zero() {
                    Some((Ray { origin: hit.point, direction }, albedo))
                } else {
                    None
                }
            },
            (
                Material::Dielectric { .. },
                ScatterSample::Refractive { ratio_sine, reflectance, draw, reflected, refracted },
            ) => Some(
                (
                    Ray {
                        origin: hit.point,
                        direction: if reflects(ratio_sine, reflectance, draw) {
                            reflected
                        } else {
                            refracted
                        },
                    },
                    white(),
                ),
            ),
            _ => None,
        }
    }

    pub fn is_valid(&self) -> (r: bool)
        ensures
            r == self.valid(),
    {
        match self {
            Material::Lambertian { .. } => true,
            Material::Metal { fuzz, .. } => Scalar::zero().le(*fuzz) && fuzz.le(Scalar::one()),
            Material::Dielectric { index_of_refraction } => index_of_refraction.is_above_zero(),
        }
    }

    /// Decides what becomes of a ray that struck this material at `hit`.
    ///
    /// A matte surface always scatters, along the sampled direction unless
    /// that is degenerate. A metal scatters along the sampled direction where
    /// that leaves the surface, and absorbs the ray where it points into it.
    /// A clear surface always scatters, mirrored or bent, in white. A sample
    /// of a kind that the material does not read gives `None`.
    pub fn scatter(&self, hit: &HitRecord, sample: &ScatterSample) -> (r: Option<(Ray, Color)>)
        ensures
            r == self.scattered(*hit, *sample),
    {
        match (self, sample) {
            (Material::Lambertian { albedo }, ScatterSample::Diffuse { direction }) => {
                let tolerance = Scalar::from_bits(DEGENERATE_TOLERANCE_BITS);
                let chosen = if direction.is_near_zero(tolerance) {
                    hit.normal
                } else {
                    *direction
                };
                Some((Ray::new(hit.point, chosen), *albedo))
            },
            (Material::Metal { albedo, .. }, ScatterSample::Glossy { direction, facing }) => {
                if facing.is_above_zero() {
                    Some((Ray::new(hit.point, *direction), *albedo))
                } else {
                    None
                }
            },
            (
                Material::Dielectric { .. },
                ScatterSample::Refractive { ratio_sine, reflectance, draw, reflected, refracted },
            ) => {
                let chosen = if Scalar::one().lt(*ratio_sine) || draw.lt(*reflectance) {
                    *reflected
                } else {
                    *refracted
                };
                Some((Ray::new(hit.point, chosen), Vec3::one()))
            },
            _ => None,
        }
    }
}

/// The refraction ratio to use at a hit on a clear surface of index `index`,
/// whose reciprocal the caller has rounded to `reciprocal`.
pub fn refraction_ratio(face_side: FaceSide, index: Scalar, reciprocal: Scalar) -> (r: Scalar)
    ensures
        r == ratio_for_side(face_side, index, reciprocal),
{
    match face_side {
        FaceSide::Front => reciprocal,
        FaceSide::Back => index,
    }
}

/// A matte surface never absorbs: it sends the ray on from the hit point and
/// attenuates it by exactly its albedo, whatever direction was sampled.
pub proof fn lemma_lambertian_scatters(albedo: Color, hit: HitRecord, direction: Vec3)
    ensures
        (Material::Lambertian { albedo }).scattered(hit, ScatterSample::Diffuse { direction })
            matches Some((ray, attenuation)) && attenuation == albedo && ray.origin == hit.point,
{
}

/// What a metal scatters leaves from the hit point along exactly the sampled
/// direction, attenuated by exactly the albedo; and it scatters if and only if
/// that direction leaves the surface.
pub proof fn lemma_metal_scatters(albedo: Color, fuzz: Scalar, hit: HitRecord, direction: Vec3, facing: Scalar)
    ensures
        (Material::Metal { albedo, fuzz }).scattered(hit, ScatterSample::Glossy { direction, facing })
            is Some <==> facing.above_zero(),
        facing.above_zero() ==> (Material::Metal { albedo, fuzz }).scattered(
            hit,
            ScatterSample::Glossy { direction, facing },
        ) == Some((Ray { origin: hit.point, direction }, albedo)),
{
}

/// Of the three kinds only a metal absorbs, and only what would leave it
/// into the surface: with a sample of the kind it reads, every other material
/// scatters.
pub proof fn lemma_only_metal_absorbs(material: Material, hit: HitRecord, sample: ScatterSample)
    requires
        material.reads(sample),
    ensures
        material.scattered(hit, sample) is None <==> material is Metal
            && !sample->Glossy_facing.above_zero(),
        material.scattered(hit, sample) matches Some((ray, _)) ==> ray.origin == hit.point,
{
}

/// A clear surface never absorbs and never tints, and the ray it sends on
/// from the hit point is one of the two it was offered: the mirrored one
/// whenever Snell's law has no solution.
pub proof fn lemma_dielectric_scatters(
    index_of_refraction: Scalar,
    hit: HitRecord,
    ratio_sine: Scalar,
    reflectance: Scalar,
    draw: Scalar,
    reflected: Vec3,
    refracted: Vec3,
)
    ensures
        (Material::Dielectric { index_of_refraction }).scattered(
            hit,
            ScatterSample::Refractive { ratio_sine, reflectance, draw, reflected, refracted },
        ) matches Some((ray, attenuation)) && attenuation == white() && ray.origin == hit.point && (
        ray.direction == reflected || ray.direction == refracted) && ((Scalar {
            bits: ONE_BITS,
        }).less(ratio_sine) ==> ray.direction == reflected),
{
}

} // verus!
