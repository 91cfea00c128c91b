//! The light that one ray carries back, as a walk from bounce to bounce.
//!
//! A ray that may still bounce `depth` times is traced into the scene. It
//! escapes to the sky, or is absorbed, or is scattered and goes on as a ray
//! that may bounce once less. A ray that may bounce no more carries no light.
//! The caller traces and multiplies the attenuations; the library keeps the
//! count and says when the walk is over and on what it ends.

use vstd::prelude::*;
use crate::hit_record::Interval;
use crate::scalar::Scalar;
use crate::scalar::INFINITY_BITS;
use crate::scalar::ONE_BITS;
use crate::vectors::Color;
use crate::vectors::Vec3;

verus! {

/// A hit nearer than this along a ray is taken for the surface that the ray
/// has just left: one thousandth.
pub const NEAREST_HIT_BITS: u64 = 0x3f50_624d_d2f1_a9fc;

/// One half, the red of the sky's blue.
pub const SKY_RED_BITS: u64 = 0x3fe0_0000_0000_0000;

/// Seven tenths, the green of the sky's blue.
pub const SKY_GREEN_BITS: u64 = 0x3fe6_6666_6666_6666;

/// What the scene did to a traced ray.
#[derive(Clone, Copy, Debug, PartialEq, Eq, Structural)]
pub enum Bounce {
    /// The ray hit nothing.
    Missed,
    /// The ray hit a surface that absorbed it.
    Absorbed,
    /// The ray hit a surface that sent it on.
    Scattered,
}

/// How far the walk of one ray has come.
#[derive(Clone, Copy, Debug, PartialEq, Eq, Structural)]
pub enum RayColor {
    /// The ray is to be traced, and may bounce `depth` times, this one
    /// included; `depth` is at least one.
    Trace { depth: u32 },
    /// The walk is over and the ray carries no light.
    Black,
    /// The walk is over and the ray carries the light of the sky, attenuated
    /// by every surface that scattered it.
    Sky,
}

impl RayColor {
    /// The walk of a ray that may bounce `depth` times, before it is traced.
    pub open spec fn begun(depth: u32) -> RayColor {
        if depth == 0 {
            RayColor::Black
        } else {
            RayColor::Trace { depth }
        }
    }

    /// The walk after one more trace. A walk that is over stays as it is.
    pub open spec fn next(self, bounce: Bounce) -> RayColor {
        match self {
            RayColor::Trace { depth } => match bounce {
                Bounce::Missed => RayColor::Sky,
                Bounce::Absorbed => RayColor::Black,
                Bounce::Scattered => if depth <= 1 {
                    RayColor::Black
                } else {
                    RayColor::Trace { depth: (depth - 1) as u32 }
                },
            },
            _ => self,
        }
    }

    /// The walk after a sequence of traces.
    pub open spec fn after(self, bounces: Seq<Bounce>) -> RayColor
        decreases bounces.len(),
    {
        if bounces.len() == 0 {
            self
        } else {
            self.next(bounces.first()).after(bounces.drop_first())
        }
    }

    /// Whether the walk is in a state that `start` and `bounce` can reach.
    pub open spec fn valid(self) -> bool {
        self matches RayColor::Trace { depth } ==> depth >= 1
    }

    /// How many more traces the walk can take at most.
    pub open spec fn traces_left(self) -> nat {
        match self {
            RayColor::Trace { depth } => depth as nat,
            _ => 0,
        }
    }

    pub open spec fn over(self) -> bool {
        !(self is Trace)
    }

    /// Begins the walk of a ray that may bounce `depth` times.
    pub fn start(depth: u32) -> (r: RayColor)
        ensures
            r == RayColor::begun(depth),
    {
        if depth == 0 {
            RayColor::Black
        } else {
            RayColor::Trace { depth }
        }
    }

    /// Takes the walk one trace further.
    pub fn bounce(self, bounce: Bounce) -> (r: RayColor)
        ensures
            r == self.next(bounce),
    {
        match self {
            RayColor::Trace { depth } => match bounce {
                Bounce::Missed => RayColor::Sky,
                Bounce::Absorbed => RayColor::Black,
                Bounce::Scattered => if depth <= 1 {
                    RayColor::Black
                } else {
                    RayColor::Trace { depth: depth - 1 }
                },
            },
            _ => self,
        }
    }

    pub fn is_over(&self) -> (r: bool)
        ensures
            r == self.over(),
    {
        match self {
            RayColor::Trace { .. } => false,
            _ => true,
        }
    }
}

/// The ray parameters at which a hit counts: above a thousandth, below
/// infinity.
pub open spec fn traced_interval() -> Interval {
    Interval { min: Scalar { bits: NEAREST_HIT_BITS }, max: Scalar { bits: INFINITY_BITS } }
}

/// The colour of the sky straight up; straight down it is white.
pub open spec fn zenith() -> Color {
    Vec3 {
        x: Scalar { bits: SKY_RED_BITS },
        y: Scalar { bits: SKY_GREEN_BITS },
        z: Scalar { bits: ONE_BITS },
    }
}

/// The interval in which every ray is traced.
pub fn trace_interval() -> (r: Interval)
    ensures
        r == traced_interval(),
{
    Interval::new(Scalar::from_bits(NEAREST_HIT_BITS), Scalar::infinity())
}

/// The blue end of the sky's gradient.
pub fn sky_blue() -> (r: Color)
    ensures
        r == zenith(),
{
    Vec3::new(Scalar::from_bits(SKY_RED_BITS), Scalar::from_bits(SKY_GREEN_BITS), Scalar::one())
}

/// A ray that may not bounce at all is black at once, whatever the scene
/// would have done to it.
pub proof fn lemma_no_depth_is_black(bounces: Seq<Bounce>)
    ensures
        RayColor::begun(0) == RayColor::Black,
        RayColor::begun(0).after(bounces) == RayColor::Black,
    decreases bounces.len(),
{
    if bounces.len() > 0 {
        lemma_over_stays(RayColor::Black, bounces);
    }
}

/// A walk that is over is not changed by further bounces.
pub proof fn lemma_over_stays(walk: RayColor, bounces: Seq<Bounce>)
    requires
        walk.over(),
    ensures
        walk.after(bounces) == walk,
    decreases bounces.len(),
{
    if bounces.len() > 0 {
        lemma_over_stays(walk, bounces.drop_first());
    }
}

/// Every trace brings the end nearer: a walk that is not over has fewer
/// traces left after each bounce, and stays valid.
pub proof fn lemma_bounce_descends(walk: RayColor, bounce: Bounce)
    requires
        walk.valid(),
    ensures
        walk.next(bounce).valid(),
        !walk.over() ==> walk.next(bounce).traces_left() < walk.traces_left(),
        walk.over() ==> walk.next(bounce) == walk,
{
}

/// The depth bounds the walk: after as many traces as the ray may bounce,
/// the walk is over, whatever the scene did.
pub proof fn lemma_depth_bounds_walk(depth: u32, bounces: Seq<Bounce>)
    requires
        bounces.len() >= depth,
    ensures
        RayColor::begun(depth).after(bounces).over(),
{
    lemma_walk_ends(RayColor::begun(depth), bounces);
}

proof fn lemma_walk_ends(walk: RayColor, bounces: Seq<Bounce>)
    requires
        walk.valid(),
        bounces.len() >= walk.traces_left(),
    ensures
        walk.after(bounces).over(),
    decreases bounces.len(),
{
    if bounces.len() > 0 {
        lemma_bounce_descends(walk, bounces.first());
        if walk.over() {
            lemma_over_stays(walk, bounces);
        } else {
            lemma_walk_ends(walk.next(bounces.first()), bounces.drop_first());
        }
    }
}

/// A walk ends on the sky only by a ray that missed everything, and only
/// scattering came before: light reaches the eye from the sky alone.
pub proof fn lemma_sky_after_scatters(depth: u32, bounces: Seq<Bounce>)
    requires
        RayColor::begun(depth).after(bounces) == RayColor::Sky,
    ensures
        exists|n: int|
            0 <= n < bounces.len() && n < depth && bounces[n] == Bounce::Missed && forall|k: int|
                0 <= k < n ==> bounces[k] == Bounce::Scattered,
    decreases bounces.len(),
{
    let walk = RayColor::begun(depth);
    if depth == 0 {
        lemma_over_stays(walk, bounces);
    } else if bounces.len() > 0 {
        let rest = bounces.drop_first();
        match bounces.first() {
            Bounce::Missed => {
                assert(bounces[0] == Bounce::Missed);
            },
            Bounce::Absorbed => {
                lemma_over_stays(RayColor::Black, rest);
            },
            Bounce::Scattered => {
                lemma_sky_after_scatters((depth - 1) as u32, rest);
                let n = choose|n: int|
                    0 <= n < rest.len() && n < depth - 1 && rest[n] == Bounce::Missed && forall|k: int|
                        0 <= k < n ==> rest[k] == Bounce::Scattered;
                assert(bounces[n + 1] == rest[n]);
                assert forall|k: int| 0 <= k < n + 1 implies bounces[k] == Bounce::Scattered by {
                    if k > 0 {
                        assert(bounces[k] == rest[k - 1]);
                    }
                }
            },
        }
    }
}

} // verus!
