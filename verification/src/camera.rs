//! The camera: what the caller configures, what is checked of it, and the
//! order in which its pixels are rendered.

use vstd::prelude::*;
use vstd::arithmetic::div_mod::lemma_add_mod_noop_right;
use vstd::arithmetic::div_mod::lemma_fundamental_div_mod;
use vstd::arithmetic::div_mod::lemma_mod_equivalence;
use vstd::arithmetic::div_mod::lemma_mul_mod_noop_general;
use crate::raw_image_buffer::bytes_of_all;
use crate::raw_image_buffer::RawImageBuffer;
use crate::scalar::Scalar;
use crate::scalar::ONE_BITS;
use crate::vectors::Color;
use crate::vectors::Vec3;

verus! {

/// Sixteen ninths, the aspect ratio of a camera that was given no sensor.
pub const DEFAULT_ASPECT_RATIO_BITS: u64 = 0x3ffc_71c7_1c71_c71c;

/// Thirty-six thousandths: the width in metres of the default sensor.
pub const DEFAULT_SENSOR_WIDTH_BITS: u64 = 0x3fa2_6e97_8d4f_df3b;

/// Twenty-four thousandths: the height in metres of the default sensor.
pub const DEFAULT_SENSOR_HEIGHT_BITS: u64 = 0x3f98_9374_bc6a_7efa;

/// The step from the seed of one pixel to that of the next. It is odd, so
/// that no two pixels of a rendering meet on one seed.
pub const SEED_STRIDE: u64 = 0x9e37_79b9_7f4a_7c15;

/// Minus one.
pub const MINUS_ONE_BITS: u64 = 0xbff0_0000_0000_0000;

/// Why a configuration gives no camera.
#[derive(Clone, Copy, Debug, PartialEq, Eq, Structural)]
pub enum CameraError {
    /// The image is no pixel wide.
    ZeroImageWidth,
    /// No sample is taken per pixel.
    ZeroSamples,
    /// The sensor's width, height or aspect ratio is not above zero.
    NonPositiveSensor,
    /// The focal length is not above zero.
    NonPositiveFocalLength,
    /// An f-stop is set and is not above zero.
    NonPositiveFStop,
    /// Position, target and up direction span no view: the geometry derived
    /// from them holds a NaN or an infinity.
    DegenerateBasis,
}

impl CameraError {
    /// The error in words.
    pub fn message(&self) -> (r: &'static str)
        ensures
            r@ == self.text(),
    {
        match self {
            CameraError::ZeroImageWidth => "the image width is zero",
            CameraError::ZeroSamples => "the number of samples per pixel is zero",
            CameraError::NonPositiveSensor => "the sensor's width, height or aspect ratio is not above zero",
            CameraError::NonPositiveFocalLength => "the focal length is not above zero",
            CameraError::NonPositiveFStop => "the f-stop is not above zero",
            CameraError::DegenerateBasis => "position, target and up direction span no view",
        }
    }

    pub open spec fn text(self) -> Seq<char> {
        match self {
            CameraError::ZeroImageWidth => "the image width is zero"@,
            CameraError::ZeroSamples => "the number of samples per pixel is zero"@,
            CameraError::NonPositiveSensor => "the sensor's width, height or aspect ratio is not above zero"@,
            CameraError::NonPositiveFocalLength => "the focal length is not above zero"@,
            CameraError::NonPositiveFStop => "the f-stop is not above zero"@,
            CameraError::DegenerateBasis => "position, target and up direction span no view"@,
        }
    }
}

/// What the caller derives from a configuration by arithmetic: where the
/// centre of the top left pixel lies, the steps from one pixel to the next
/// along a row and down a column, and the two vectors that span the lens.
#[derive(Clone, Copy, Debug, PartialEq, Eq, Structural)]
pub struct Geometry {
    pub pixel00_loc: Vec3,
    pub pixel_delta_u: Vec3,
    pub pixel_delta_v: Vec3,
    pub defocus_disk_u: Vec3,
    pub defocus_disk_v: Vec3,
}

impl Geometry {
    /// Whether every component of every vector is a number and not infinite.
    pub open spec fn finite(self) -> bool {
        &&& self.pixel00_loc.finite()
        &&& self.pixel_delta_u.finite()
        &&& self.pixel_delta_v.finite()
        &&& self.defocus_disk_u.finite()
        &&& self.defocus_disk_v.finite()
    }

    pub fn is_finite(&self) -> (r: bool)
        ensures
            r == self.finite(),
    {
        self.pixel00_loc.is_finite() && self.pixel_delta_u.is_finite()
            && self.pixel_delta_v.is_finite() && self.defocus_disk_u.is_finite()
            && self.defocus_disk_v.is_finite()
    }
}

/// A camera, ready to render.
#[derive(Clone, Copy, Debug, PartialEq, Eq, Structural)]
pub struct Camera {
    pub position: Vec3,
    pub aspect_ratio: Scalar,
    pub image_width: u32,
    pub image_height: u32,
    pub samples_per_pixel: u32,
    pub max_depth: u32,
    pub pixel00_loc: Vec3,
    pub pixel_delta_u: Vec3,
    pub pixel_delta_v: Vec3,
    pub defocus_disk_u: Vec3,
    pub defocus_disk_v: Vec3,
    pub f_stop: Option<Scalar>,
}

/// The configuration of a camera, set field by field.
#[derive(Clone, Copy, Debug, PartialEq, Eq, Structural)]
pub struct CameraBuilder {
    pub image_width: u32,
    pub aspect_ratio: Scalar,
    pub position: Vec3,
    pub look_at: Vec3,
    pub up: Vec3,
    pub samples_per_pixel: u32,
    pub max_depth: u32,
    /// Focal length of the lens, in metres.
    pub focal_length: Scalar,
    /// F-stop of the lens; without one the camera is a pinhole.
    pub f_stop: Option<Scalar>,
    /// Width of the sensor, in metres.
    pub sensor_width: Scalar,
    /// Height of the sensor, in metres.
    pub sensor_height: Scalar,
}

/// A vector that spans the lens: the derived one where the camera has an
/// f-stop, and zero where it is a pinhole.
pub open spec fn lens_vector(f_stop: Option<Scalar>, derived: Vec3) -> Vec3 {
    match f_stop {
        Some(_) => derived,
        None => Vec3::zeros(),
    }
}

/// The number of pixel rows of an image for which the caller rounded the
/// quotient of width and aspect ratio to `rows`: its integer part, and one
/// where that is zero.
pub open spec fn rows_of(rows: Scalar) -> u32 {
    if rows.truncated(u32::MAX) < 1 {
        1
    } else {
        rows.truncated(u32::MAX) as u32
    }
}

/// The number of pixel rows of an image, from the rounded quotient of its
/// width and its aspect ratio.
pub fn image_rows(rows: Scalar) -> (r: u32)
    ensures
        r == rows_of(rows),
        r >= 1,
{
    let whole: u32 = rows.truncate(u32::MAX);
    if whole < 1 {
        1
    } else {
        whole
    }
}

impl Default for CameraBuilder {
    /// A pinhole at the origin that looks down the negative z axis, y up,
    /// 400 pixels wide, one sample per pixel, ten bounces.
    fn default() -> (r: CameraBuilder)
        ensures
            r == CameraBuilder::initial(),
    {
        CameraBuilder {
            image_width: 400,
            aspect_ratio: Scalar::from_bits(DEFAULT_ASPECT_RATIO_BITS),
            position: Vec3::zero(),
            look_at: Vec3::new(Scalar::zero(), Scalar::zero(), Scalar::from_bits(MINUS_ONE_BITS)),
            up: Vec3::new(Scalar::zero(), Scalar::one(), Scalar::zero()),
            samples_per_pixel: 1,
            max_depth: 10,
            focal_length: Scalar::one(),
            f_stop: None,
            sensor_width: Scalar::from_bits(DEFAULT_SENSOR_WIDTH_BITS),
            sensor_height: Scalar::from_bits(DEFAULT_SENSOR_HEIGHT_BITS),
        }
    }
}

impl CameraBuilder {
    /// The configuration that `default` gives.
    pub open spec fn initial() -> CameraBuilder {
        CameraBuilder {
            image_width: 400,
            aspect_ratio: Scalar { bits: DEFAULT_ASPECT_RATIO_BITS },
            position: Vec3::zeros(),
            look_at: Vec3 { x: Scalar { bits: 0 }, y: Scalar { bits: 0 }, z: Scalar { bits: MINUS_ONE_BITS } },
            up: Vec3 { x: Scalar { bits: 0 }, y: Scalar { bits: ONE_BITS }, z: Scalar { bits: 0 } },
            samples_per_pixel: 1,
            max_depth: 10,
            focal_length: Scalar { bits: ONE_BITS },
            f_stop: None,
            sensor_width: Scalar { bits: DEFAULT_SENSOR_WIDTH_BITS },
            sensor_height: Scalar { bits: DEFAULT_SENSOR_HEIGHT_BITS },
        }
    }

    /// The first thing wrong with the configuration itself, if anything is.
    pub open spec fn flaw(self) -> Option<CameraError> {
        if self.image_width == 0 {
            Some(CameraError::ZeroImageWidth)
        } else if self.samples_per_pixel == 0 {
            Some(CameraError::ZeroSamples)
        } else if !self.sensor_width.above_zero() || !self.sensor_height.above_zero()
            || !self.aspect_ratio.above_zero() {
            Some(CameraError::NonPositiveSensor)
        } else if !self.focal_length.above_zero() {
            Some(CameraError::NonPositiveFocalLength)
        } else if self.f_stop matches Some(f_stop) && !f_stop.above_zero() {
            Some(CameraError::NonPositiveFStop)
        } else {
            None
        }
    }

    /// The camera that the configuration gives with the derived `geometry`
    /// and the rounded number of `rows`, or why it gives none.
    pub open spec fn built(self, rows: Scalar, geometry: Geometry) -> Result<Camera, CameraError> {
        if self.flaw() is Some {
            Err(self.flaw()->0)
        } else if !geometry.finite() {
            Err(CameraError::DegenerateBasis)
        } else {
            Ok(
                Camera {
                    position: self.position,
                    aspect_ratio: self.aspect_ratio,
                    image_width: self.image_width,
                    image_height: rows_of(rows),
                    samples_per_pixel: self.samples_per_pixel,
                    max_depth: self.max_depth,
                    pixel00_loc: geometry.pixel00_loc,
                    pixel_delta_u: geometry.pixel_delta_u,
                    pixel_delta_v: geometry.pixel_delta_v,
                    defocus_disk_u: lens_vector(self.f_stop, geometry.defocus_disk_u),
                    defocus_disk_v: lens_vector(self.f_stop, geometry.defocus_disk_v),
                    f_stop: self.f_stop,
                },
            )
        }
    }

    pub fn image_width(self, image_width: u32) -> (r: CameraBuilder)
        ensures
            r == (CameraBuilder { image_width, ..self }),
    {
        let mut builder = self;
        builder.image_width = image_width;
        builder
    }

    pub fn position(self, position: Vec3) -> (r: CameraBuilder)
        ensures
            r == (CameraBuilder { position, ..self }),
    {
        let mut builder = self;
        builder.position = position;
        builder
    }

    pub fn look_at(self, look_at: Vec3) -> (r: CameraBuilder)
        ensures
            r == (CameraBuilder { look_at, ..self }),
    {
        let mut builder = self;
        builder.look_at = look_at;
        builder
    }

    pub fn up(self, up: Vec3) -> (r: CameraBuilder)
        ensures
            r == (CameraBuilder { up, ..self }),
    {
        let mut builder = self;
        builder.up = up;
        builder
    }

    pub fn focal_length(self, focal_length: Scalar) -> (r: CameraBuilder)
        ensures
            r == (CameraBuilder { focal_length, ..self }),
    {
        let mut builder = self;
        builder.focal_length = focal_length;
        builder
    }

    pub fn samples_per_pixel(self, samples_per_pixel: u32) -> (r: CameraBuilder)
        ensures
            r == (CameraBuilder { samples_per_pixel, ..self }),
    {
        let mut builder = self;
        builder.samples_per_pixel = samples_per_pixel;
        builder
    }

    pub fn max_depth(self, max_depth: u32) -> (r: CameraBuilder)
        ensures
            r == (CameraBuilder { max_depth, ..self }),
    {
        let mut builder = self;
        builder.max_depth = max_depth;
        builder
    }

    /// Gives the camera a lens of the given f-stop.
    pub fn f_stop(self, f_stop: Scalar) -> (r: CameraBuilder)
        ensures
            r == (CameraBuilder { f_stop: Some(f_stop), ..self }),
    {
        let mut builder = self;
        builder.f_stop = Some(f_stop);
        builder
    }

    /// Sets the sensor's width and height, and the aspect ratio to
    /// `aspect_ratio`, which is their quotient as the caller rounded it.
    pub fn sensor_dimensions(self, width: Scalar, height: Scalar, aspect_ratio: Scalar) -> (r: CameraBuilder)
        ensures
            r == (CameraBuilder { aspect_ratio, sensor_width: width, sensor_height: height, ..self }),
    {
        let mut builder = self;
        builder.aspect_ratio = aspect_ratio;
        builder.sensor_width = width;
        builder.sensor_height = height;
        builder
    }

    /// Checks the configuration before anything is derived from it.
    pub fn check(&self) -> (r: Result<(), CameraError>)
        ensures
            r is Ok <==> self.flaw() is None,
            r matches Err(error) ==> self.flaw() == Some(error),
    {
        if self.image_width == 0 {
            return Err(CameraError::ZeroImageWidth);
        }
        if self.samples_per_pixel == 0 {
            return Err(CameraError::ZeroSamples);
        }
        if !self.sensor_width.is_above_zero() || !self.sensor_height.is_above_zero()
            || !self.aspect_ratio.is_above_zero() {
            return Err(CameraError::NonPositiveSensor);
        }
        if !self.focal_length.is_above_zero() {
            return Err(CameraError::NonPositiveFocalLength);
        }
        match self.f_stop {
            Some(f_stop) => {
                if !f_stop.is_above_zero() {
                    return Err(CameraError::NonPositiveFStop);
                }
            },
            None => {},
        }
        Ok(())
    }

    /// Builds the camera, or says what is wrong: with the configuration
    /// first, then with the geometry derived from it.
    ///
    /// `rows` is the quotient of the image width and the aspect ratio, and
    /// `geometry` what follows from the configuration for an image of
    /// `image_rows(rows)` rows.
    pub fn build(self, rows: Scalar, geometry: Geometry) -> (r: Result<Camera, CameraError>)
        ensures
            r == self.built(rows, geometry),
            r matches Ok(camera) ==> camera.valid(),
    {
        match self.check() {
            Err(error) => {
                return Err(error);
            },
            Ok(_) => {},
        }
        if !geometry.is_finite() {
            return Err(CameraError::DegenerateBasis);
        }
        let (defocus_disk_u, defocus_disk_v) = match self.f_stop {
            Some(_) => (geometry.defocus_disk_u, geometry.defocus_disk_v),
            None => (Vec3::zero(), Vec3::zero()),
        };
        Ok(
            Camera {
                position: self.position,
                aspect_ratio: self.aspect_ratio,
                image_width: self.image_width,
                image_height: image_rows(rows),
                samples_per_pixel: self.samples_per_pixel,
                max_depth: self.max_depth,
                pixel00_loc: geometry.pixel00_loc,
                pixel_delta_u: geometry.pixel_delta_u,
                pixel_delta_v: geometry.pixel_delta_v,
                defocus_disk_u,
                defocus_disk_v,
                f_stop: self.f_stop,
            },
        )
    }
}

impl Camera {
    /// What `build` establishes: at least one pixel each way, at least one
    /// sample per pixel, a finite geometry, an f-stop above zero if any, and
    /// a lens of no extent if none.
    pub open spec fn valid(self) -> bool {
        &&& self.image_width >= 1
        &&& self.image_height >= 1
        &&& self.samples_per_pixel >= 1
        &&& self.pixel00_loc.finite()
        &&& self.pixel_delta_u.finite()
        &&& self.pixel_delta_v.finite()
        &&& self.defocus_disk_u.finite()
        &&& self.defocus_disk_v.finite()
        &&& self.f_stop matches Some(f_stop) ==> f_stop.above_zero()
        &&& self.f_stop is None ==> self.defocus_disk_u == Vec3::zeros() && self.defocus_disk_v
            == Vec3::zeros()
    }

    /// The number of pixels of the image.
    pub open spec fn pixels(self) -> int {
        self.image_width * self.image_height
    }

    /// The column and row of the pixel that is rendered as number `index`:
    /// row after row from the top, each from the left.
    pub open spec fn pixel_of(self, index: u64) -> Option<(u32, u32)> {
        if index < self.pixels() {
            Some(((index % (self.image_width as u64)) as u32, (index / (self.image_width as u64)) as u32))
        } else {
            None
        }
    }

    /// The two vectors that span the lens, where the camera has one.
    pub open spec fn lens(self) -> Option<(Vec3, Vec3)> {
        match self.f_stop {
            Some(_) => Some((self.defocus_disk_u, self.defocus_disk_v)),
            None => None,
        }
    }

    /// A configuration to start from.
    pub fn init() -> (r: CameraBuilder)
        ensures
            r == CameraBuilder::initial(),
    {
        CameraBuilder::default()
    }

    /// The number of pixels of the image.
    pub fn pixel_count(&self) -> (r: u64)
        ensures
            r == self.pixels(),
    {
        assert(self.image_width * self.image_height <= u64::MAX) by (nonlinear_arith)
            requires
                self.image_width <= u32::MAX,
                self.image_height <= u32::MAX,
        ;
        (self.image_width as u64) * (self.image_height as u64)
    }

    /// The column and row of the pixel with the given number in rendering
    /// order, or `None` where the image has no such pixel.
    pub fn pixel_at(&self, index: u64) -> (r: Option<(u32, u32)>)
        ensures
            r == self.pixel_of(index),
            r matches Some((x, y)) ==> x < self.image_width && y < self.image_height && index == y
                * self.image_width + x,
    {
        if index < self.pixel_count() {
            let width: u64 = self.image_width as u64;
            assert(width > 0) by {
                if width == 0 {
                    assert(self.image_width * self.image_height == 0) by (nonlinear_arith)
                        requires
                            self.image_width == 0,
                    ;
                }
            }
            let x: u64 = index % width;
            let y: u64 = index / width;
            proof {
                lemma_row_major(index as int, self.image_width as int, self.image_height as int);
            }
            Some((x as u32, y as u32))
        } else {
            None
        }
    }

    /// The picture made of `pixels`, which are the display values of the
    /// image's pixels in rendering order: `None` unless they are exactly as
    /// many as the image has pixels, else the image's size and three bytes
    /// for each pixel, in the same order.
    pub fn render(&self, pixels: &Vec<Color>) -> (r: Option<RawImageBuffer>)
        ensures
            r is Some <==> pixels@.len() == self.pixels(),
            r matches Some(image) ==> image.width == self.image_width && image.height
                == self.image_height && image.buf@ == bytes_of_all(pixels@),
    {
        if pixels.len() as u64 != self.pixel_count() {
            return None;
        }
        let mut image = RawImageBuffer::new(self.image_width, self.image_height);
        let mut i: usize = 0;
        while i < pixels.len()
            invariant
                i <= pixels.len(),
                image.width == self.image_width,
                image.height == self.image_height,
                image.buf@ == bytes_of_all(pixels@.take(i as int)),
            decreases pixels.len() - i,
        {
            proof {
                assert(pixels@.take(i + 1).drop_last() =~= pixels@.take(i as int));
            }
            image.push_color(pixels[i]);
            i += 1;
        }
        proof {
            assert(pixels@.take(i as int) =~= pixels@);
        }
        Some(image)
    }

    /// Where the rays of a sample start: anywhere on the lens spanned by the
    /// two vectors returned, or at the camera's position where `None` is
    /// returned, the camera being a pinhole.
    pub fn defocus_disk(&self) -> (r: Option<(Vec3, Vec3)>)
        ensures
            r == self.lens(),
    {
        match self.f_stop {
            Some(_) => Some((self.defocus_disk_u, self.defocus_disk_v)),
            None => None,
        }
    }
}

impl Camera {
    /// The seed of the random generator of pixel number `index`, in a
    /// rendering seeded with `seed`.
    pub open spec fn seed_of(seed: u64, index: u64) -> u64 {
        ((seed + index * SEED_STRIDE) % 0x1_0000_0000_0000_0000) as u64
    }

    /// The seed for the random generator of one pixel. Each pixel draws from
    /// a generator of its own, so that no two pixels share random state and
    /// the same `seed` gives the same picture again.
    pub fn pixel_seed(seed: u64, index: u64) -> (r: u64)
        ensures
            r == Camera::seed_of(seed, index),
    {
        proof {
            lemma_mul_mod_noop_general(index as int, SEED_STRIDE as int, 0x1_0000_0000_0000_0000);
            lemma_add_mod_noop_right(
                seed as int,
                index * SEED_STRIDE,
                0x1_0000_0000_0000_0000,
            );
            assert(index * SEED_STRIDE >= 0) by (nonlinear_arith)
                requires
                    index >= 0,
            ;
        }
        seed.wrapping_add(index.wrapping_mul(SEED_STRIDE))
    }
}

/// No two pixels of a rendering get the same seed.
pub proof fn lemma_seeds_differ(seed: u64, first: u64, second: u64)
    requires
        first != second,
    ensures
        Camera::seed_of(seed, first) != Camera::seed_of(seed, second),
{
    let m: int = 0x1_0000_0000_0000_0000;
    let k: int = SEED_STRIDE as int;
    let inverse: int = 0xf1de_83e1_9937_733d;
    let carry: int = 0x957b_bf35_006e_d677;
    let d: int = first - second;
    if Camera::seed_of(seed, first) == Camera::seed_of(seed, second) {
        assert((seed + first * k) - (seed + second * k) == d * k) by (nonlinear_arith)
            requires
                d == first - second,
        ;
        lemma_mod_equivalence(seed + first * k, seed + second * k, m);
        lemma_fundamental_div_mod(d * k, m);
        let q = (d * k) / m;
        assert(k * inverse == 1 + m * carry);
        assert(d == m * (q * inverse - carry * d)) by (nonlinear_arith)
            requires
                d * k == m * q,
                k * inverse == 1 + m * carry,
        ;
        let w = q * inverse - carry * d;
        assert(w == 0) by (nonlinear_arith)
            requires
                d == m * w,
                -m < d < m,
                m > 0,
        ;
    }
}

/// Every pixel of the image is rendered exactly once, and the pixel in
/// column `x` of row `y` as number `y * width + x`.
pub proof fn lemma_pixel_order(camera: Camera, x: u32, y: u32)
    requires
        x < camera.image_width,
        y < camera.image_height,
    ensures
        0 <= y * camera.image_width + x < camera.pixels(),
        camera.pixels() <= u64::MAX,
        camera.pixel_of((y * camera.image_width + x) as u64) == Some((x, y)),
{
    let width = camera.image_width as int;
    let height = camera.image_height as int;
    let index = y * width + x;
    assert(0 <= y * width) by (nonlinear_arith)
        requires
            0 <= y,
            0 <= width,
    ;
    assert(y * width + width <= height * width) by (nonlinear_arith)
        requires
            y + 1 <= height,
            0 <= width,
    ;
    assert(height * width == width * height) by (nonlinear_arith);
    assert(width * height <= u64::MAX) by (nonlinear_arith)
        requires
            0 <= width <= u32::MAX,
            0 <= height <= u32::MAX,
    ;
    vstd::arithmetic::div_mod::lemma_fundamental_div_mod_converse(index, width, y as int, x as int);
}

/// Number `index` in row-major order is column `index % width` of row
/// `index / width`, and both lie within the image.
pub proof fn lemma_row_major(index: int, width: int, height: int)
    requires
        0 <= index < width * height,
        0 < width,
        0 <= height,
    ensures
        0 <= index % width < width,
        0 <= index / width < height,
        index == (index / width) * width + index % width,
{
    vstd::arithmetic::div_mod::lemma_fundamental_div_mod(index, width);
    vstd::arithmetic::div_mod::lemma_mod_bound(index, width);
    vstd::arithmetic::div_mod::lemma_div_pos_is_pos(index, width);
    let q = index / width;
    assert(width * q == q * width) by (nonlinear_arith);
    if q >= height {
        assert(q * width >= height * width) by (nonlinear_arith)
            requires
                q >= height,
                width > 0,
        ;
        assert(height * width == width * height) by (nonlinear_arith);
    }
}

} // verus!
