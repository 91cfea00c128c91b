//! The decisions of a Monte-Carlo path tracer, verified.
//!
//! The numbers of a scene are IEEE 754 binary64 values, which this library
//! holds by their bits ([`scalar::Scalar`]) and only orders, negates and
//! truncates. Whatever has to round (sums, products, roots, random draws) is
//! worked out by the caller and handed in; what the library then decides with
//! those values is stated and proved here.

pub use crate::vectors::Color;
pub use crate::vectors::Vec3;

pub mod scalar;
pub mod vectors;
pub mod ray;
pub mod hit_record;
pub mod material;
pub mod shapes;
pub mod integrator;
pub mod raw_image_buffer;
pub mod utils;
pub mod camera;
