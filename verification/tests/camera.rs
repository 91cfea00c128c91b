use glam::DVec3;
use ray_tow::camera::image_rows;
use ray_tow::camera::Camera;
use ray_tow::camera::CameraBuilder;
use ray_tow::camera::CameraError;
use ray_tow::camera::Geometry;
use ray_tow::scalar::Scalar;
use ray_tow::vectors::Vec3;

fn s(x: f64) -> Scalar {
    Scalar::from_bits(x.to_bits())
}

fn f(x: Scalar) -> f64 {
    f64::from_bits(x.to_bits())
}

fn v(d: DVec3) -> Vec3 {
    Vec3::new(s(d.x), s(d.y), s(d.z))
}

fn d(v: Vec3) -> DVec3 {
    DVec3::new(f(v.x), f(v.y), f(v.z))
}

fn rows(builder: &CameraBuilder) -> Scalar {
    s(builder.image_width as f64 / f(builder.aspect_ratio))
}

/// What a renderer derives from a configuration before it asks for a camera.
fn geometry(builder: &CameraBuilder) -> Geometry {
    let image_height = image_rows(rows(builder));
    let position = d(builder.position);
    let look_at = d(builder.look_at);
    let focal_length = f(builder.focal_length);
    let focal_dist = position.distance(look_at);
    let viewport_height = f(builder.sensor_height) * focal_dist / focal_length;
    let viewport_width = f(builder.sensor_width) * focal_dist / focal_length;
    let w = (position - look_at).normalize();
    let u = d(builder.up).cross(w).normalize();
    let v_axis = w.cross(u);
    let viewport_u = viewport_width * u;
    let viewport_v = -viewport_height * v_axis;
    let pixel_delta_u = viewport_u / builder.image_width as f64;
    let pixel_delta_v = viewport_v / image_height as f64;
    let upper_left = position - focal_dist * w - viewport_u / 2.0 - viewport_v / 2.0;
    let aperture_radius = match builder.f_stop {
        Some(f_stop) => focal_length / (2.0 * f(f_stop)),
        None => 0.0,
    };
    Geometry {
        pixel00_loc: v(upper_left + 0.5 * (pixel_delta_u + pixel_delta_v)),
        pixel_delta_u: v(pixel_delta_u),
        pixel_delta_v: v(pixel_delta_v),
        defocus_disk_u: v(aperture_radius * u),
        defocus_disk_v: v(aperture_radius * v_axis),
    }
}

fn build(builder: CameraBuilder) -> Result<Camera, CameraError> {
    builder.build(rows(&builder), geometry(&builder))
}

fn scene_camera() -> CameraBuilder {
    Camera::init()
        .position(v(DVec3::new(13.0, 2.0, 3.0)))
        .look_at(v(DVec3::ZERO))
        .up(v(DVec3::Y))
        .sensor_dimensions(s(36e-3), s(24e-3), s(36e-3 / 24e-3))
        .image_width(400)
        .samples_per_pixel(50)
        .max_depth(10)
        .f_stop(s(0.6))
        .focal_length(s(60e-3))
}

#[test]
fn default_configuration() {
    let builder = CameraBuilder::default();
    assert_eq!(builder.image_width, 400);
    assert_eq!(f(builder.aspect_ratio), 16.0 / 9.0);
    assert_eq!(d(builder.position), DVec3::ZERO);
    assert_eq!(builder.position, Vec3::zero());
    assert_eq!(d(builder.look_at), DVec3::new(0.0, 0.0, -1.0));
    assert_eq!(d(builder.up), DVec3::new(0.0, 1.0, 0.0));
    assert_eq!(builder.samples_per_pixel, 1);
    assert_eq!(builder.max_depth, 10);
    assert_eq!(f(builder.focal_length), 1.0);
    assert_eq!(builder.f_stop, None);
    assert_eq!(f(builder.sensor_width), 36e-3);
    assert_eq!(f(builder.sensor_height), 24e-3);
    assert_eq!(Camera::init(), CameraBuilder::default());
}

#[test]
fn setters_set_one_field_each() {
    let base = CameraBuilder::default();
    assert_eq!(base.image_width(7), CameraBuilder { image_width: 7, ..base });
    assert_eq!(base.position(v(DVec3::X)), CameraBuilder { position: v(DVec3::X), ..base });
    assert_eq!(base.look_at(v(DVec3::Y)), CameraBuilder { look_at: v(DVec3::Y), ..base });
    assert_eq!(base.up(v(DVec3::Z)), CameraBuilder { up: v(DVec3::Z), ..base });
    assert_eq!(base.focal_length(s(0.05)), CameraBuilder { focal_length: s(0.05), ..base });
    assert_eq!(base.samples_per_pixel(9), CameraBuilder { samples_per_pixel: 9, ..base });
    assert_eq!(base.max_depth(0), CameraBuilder { max_depth: 0, ..base });
    assert_eq!(base.f_stop(s(2.8)), CameraBuilder { f_stop: Some(s(2.8)), ..base });
    assert_eq!(
        base.sensor_dimensions(s(0.02), s(0.01), s(2.0)),
        CameraBuilder { sensor_width: s(0.02), sensor_height: s(0.01), aspect_ratio: s(2.0), ..base }
    );
}

#[test]
fn image_rows_is_the_integer_part_and_at_least_one() {
    assert_eq!(image_rows(s(400.0 / 1.5)), 266);
    assert_eq!(image_rows(s(400.0 / (16.0 / 9.0))), 225);
    assert_eq!(image_rows(s(0.3)), 1);
    assert_eq!(image_rows(s(0.0)), 1);
    assert_eq!(image_rows(s(-5.0)), 1);
    assert_eq!(image_rows(s(f64::NAN)), 1);
    assert_eq!(image_rows(s(1.999)), 1);
    assert_eq!(image_rows(s(2.0)), 2);
    assert_eq!(image_rows(s(1e12)), u32::MAX);
    assert_eq!(image_rows(s(f64::INFINITY)), u32::MAX);
    for width in [1u32, 2, 3, 100, 400, 1200, 65535] {
        for ratio in [0.5, 1.0, 1.5, 16.0 / 9.0, 1000.0] {
            let quotient = width as f64 / ratio;
            let expected = (quotient as u32).max(1);
            assert_eq!(image_rows(s(quotient)), expected);
        }
    }
}

#[test]
fn builds_the_camera_of_the_final_scene() {
    let builder = scene_camera();
    let derived = geometry(&builder);
    let camera = builder.build(rows(&builder), derived).unwrap();
    assert_eq!(camera.image_width, 400);
    assert_eq!(camera.image_height, 266);
    assert_eq!(camera.samples_per_pixel, 50);
    assert_eq!(camera.max_depth, 10);
    assert_eq!(d(camera.position), DVec3::new(13.0, 2.0, 3.0));
    assert_eq!(f(camera.aspect_ratio), 36e-3 / 24e-3);
    assert_eq!(camera.f_stop, Some(s(0.6)));
    assert_eq!(camera.pixel00_loc, derived.pixel00_loc);
    assert_eq!(camera.pixel_delta_u, derived.pixel_delta_u);
    assert_eq!(camera.pixel_delta_v, derived.pixel_delta_v);
    assert_eq!(camera.defocus_disk_u, derived.defocus_disk_u);
    assert_eq!(camera.defocus_disk_v, derived.defocus_disk_v);
    assert_eq!(camera.defocus_disk(), Some((derived.defocus_disk_u, derived.defocus_disk_v)));
}

#[test]
fn default_camera_is_a_pinhole_of_400_by_225() {
    let camera = build(CameraBuilder::default()).unwrap();
    assert_eq!(camera.image_width, 400);
    assert_eq!(camera.image_height, 225);
    assert_eq!(camera.defocus_disk(), None);
    assert_eq!(camera.pixel_count(), 90000);
}

#[test]
fn pinhole_has_a_lens_of_no_extent() {
    let builder = CameraBuilder::default();
    let mut derived = geometry(&builder);
    derived.defocus_disk_u = v(DVec3::new(1.0, 2.0, 3.0));
    derived.defocus_disk_v = v(DVec3::new(4.0, 5.0, 6.0));
    let camera = builder.build(rows(&builder), derived).unwrap();
    assert_eq!(camera.defocus_disk_u, Vec3::zero());
    assert_eq!(camera.defocus_disk_v, Vec3::zero());
    assert_eq!(camera.defocus_disk(), None);
    let lens = builder.f_stop(s(2.0)).build(rows(&builder), derived).unwrap();
    assert_eq!(lens.defocus_disk(), Some((derived.defocus_disk_u, derived.defocus_disk_v)));
}

#[test]
fn pixel_seeds_are_spread_by_an_odd_stride() {
    assert_eq!(Camera::pixel_seed(42, 0), 42);
    assert_eq!(Camera::pixel_seed(42, 1), 42 + 0x9e37_79b9_7f4a_7c15);
    assert_eq!(Camera::pixel_seed(0, 2), 0x3c6e_f372_fe94_f82a);
    assert_eq!(Camera::pixel_seed(u64::MAX, 1), 0x9e37_79b9_7f4a_7c14);
    assert_eq!(Camera::pixel_seed(7, u64::MAX), 7u64.wrapping_sub(0x9e37_79b9_7f4a_7c15));
    let mut seeds: Vec<u64> = (0..10_000).map(|index| Camera::pixel_seed(42, index)).collect();
    seeds.sort();
    seeds.dedup();
    assert_eq!(seeds.len(), 10_000);
    assert_eq!(ray_tow::camera::SEED_STRIDE % 2, 1);
}

#[test]
fn zero_image_width_is_rejected() {
    let builder = CameraBuilder::default().image_width(0);
    assert_eq!(builder.check(), Err(CameraError::ZeroImageWidth));
    assert_eq!(build(builder), Err(CameraError::ZeroImageWidth));
}

#[test]
fn zero_samples_are_rejected() {
    let builder = CameraBuilder::default().samples_per_pixel(0);
    assert_eq!(builder.check(), Err(CameraError::ZeroSamples));
    assert_eq!(build(builder), Err(CameraError::ZeroSamples));
}

#[test]
fn non_positive_sensor_is_rejected() {
    for (width, height, ratio) in [(0.0, 0.024, 1.5), (0.036, 0.0, 1.5), (0.036, 0.024, 0.0), (-0.036, 0.024, 1.5), (0.036, f64::NAN, 1.5), (0.036, 0.024, -1.5)] {
        let builder = CameraBuilder::default().sensor_dimensions(s(width), s(height), s(ratio));
        assert_eq!(builder.check(), Err(CameraError::NonPositiveSensor));
        assert_eq!(build(builder), Err(CameraError::NonPositiveSensor));
    }
}

#[test]
fn non_positive_focal_length_is_rejected() {
    for focal_length in [0.0, -0.0, -0.05, f64::NAN] {
        let builder = CameraBuilder::default().focal_length(s(focal_length));
        assert_eq!(builder.check(), Err(CameraError::NonPositiveFocalLength));
        assert_eq!(build(builder), Err(CameraError::NonPositiveFocalLength));
    }
}

#[test]
fn non_positive_f_stop_is_rejected() {
    for f_stop in [0.0, -2.8, f64::NAN] {
        let builder = CameraBuilder::default().f_stop(s(f_stop));
        assert_eq!(builder.check(), Err(CameraError::NonPositiveFStop));
        assert_eq!(build(builder), Err(CameraError::NonPositiveFStop));
    }
}

#[test]
fn degenerate_basis_is_rejected() {
    let on_target = CameraBuilder::default().position(v(DVec3::new(0.0, 0.0, -1.0)));
    assert_eq!(on_target.check(), Ok(()));
    assert_eq!(build(on_target), Err(CameraError::DegenerateBasis));
    let up_along_view = CameraBuilder::default().up(v(DVec3::new(0.0, 0.0, 2.0)));
    assert_eq!(up_along_view.check(), Ok(()));
    assert_eq!(build(up_along_view), Err(CameraError::DegenerateBasis));
    let no_up = CameraBuilder::default().up(v(DVec3::ZERO));
    assert_eq!(build(no_up), Err(CameraError::DegenerateBasis));
    let far = CameraBuilder::default().position(v(DVec3::new(f64::INFINITY, 0.0, 0.0)));
    assert_eq!(build(far), Err(CameraError::DegenerateBasis));
}

#[test]
fn first_flaw_is_reported() {
    let builder = CameraBuilder::default()
        .image_width(0)
        .samples_per_pixel(0)
        .focal_length(s(0.0))
        .f_stop(s(0.0))
        .up(v(DVec3::ZERO));
    assert_eq!(build(builder), Err(CameraError::ZeroImageWidth));
    assert_eq!(build(builder.image_width(1)), Err(CameraError::ZeroSamples));
    assert_eq!(build(builder.image_width(1).samples_per_pixel(1)), Err(CameraError::NonPositiveFocalLength));
    let lens = builder.image_width(1).samples_per_pixel(1).focal_length(s(1.0));
    assert_eq!(build(lens), Err(CameraError::NonPositiveFStop));
    assert_eq!(build(lens.f_stop(s(1.0))), Err(CameraError::DegenerateBasis));
    assert!(build(lens.f_stop(s(1.0)).up(v(DVec3::Y))).is_ok());
}

#[test]
fn errors_have_words() {
    let all = [
        CameraError::ZeroImageWidth,
        CameraError::ZeroSamples,
        CameraError::NonPositiveSensor,
        CameraError::NonPositiveFocalLength,
        CameraError::NonPositiveFStop,
        CameraError::DegenerateBasis,
    ];
    for (i, a) in all.iter().enumerate() {
        assert!(!a.message().is_empty());
        for b in &all[i + 1..] {
            assert_ne!(a.message(), b.message());
        }
    }
    assert_eq!(CameraError::ZeroImageWidth.message(), "the image width is zero");
}

#[test]
fn pixels_come_row_by_row() {
    let camera = build(CameraBuilder::default().image_width(4).sensor_dimensions(s(0.04), s(0.03), s(4.0 / 3.0))).unwrap();
    assert_eq!(camera.image_height, 3);
    assert_eq!(camera.pixel_count(), 12);
    let mut seen = Vec::new();
    for index in 0..12 {
        seen.push(camera.pixel_at(index).unwrap());
    }
    let mut expected = Vec::new();
    for y in 0..3u32 {
        for x in 0..4u32 {
            expected.push((x, y));
        }
    }
    assert_eq!(seen, expected);
    assert_eq!(camera.pixel_at(0), Some((0, 0)));
    assert_eq!(camera.pixel_at(3), Some((3, 0)));
    assert_eq!(camera.pixel_at(4), Some((0, 1)));
    assert_eq!(camera.pixel_at(11), Some((3, 2)));
    assert_eq!(camera.pixel_at(12), None);
    assert_eq!(camera.pixel_at(u64::MAX), None);
}

#[test]
fn render_wants_every_pixel_once() {
    let camera = build(CameraBuilder::default().image_width(2).sensor_dimensions(s(0.02), s(0.01), s(2.0))).unwrap();
    assert_eq!((camera.image_width, camera.image_height), (2, 1));
    let red = v(DVec3::new(256.0, 0.0, 0.0));
    let grey = v(DVec3::new(128.0, 128.5, 127.999));
    assert!(camera.render(&vec![]).is_none());
    assert!(camera.render(&vec![red]).is_none());
    assert!(camera.render(&vec![red, grey, red]).is_none());
    let image = camera.render(&vec![red, grey]).unwrap();
    assert_eq!(image.width, 2);
    assert_eq!(image.height, 1);
    assert_eq!(image.buf, vec![255, 0, 0, 128, 128, 127]);
}

#[test]
fn render_of_a_whole_image_has_three_bytes_per_pixel_in_order() {
    let camera = build(CameraBuilder::default().image_width(16)).unwrap();
    assert_eq!(camera.image_height, 9);
    let pixels: Vec<Vec3> = (0..camera.pixel_count())
        .map(|k| {
            let (x, y) = camera.pixel_at(k).unwrap();
            v(DVec3::new(x as f64 + 0.5, y as f64 + 0.25, 200.0))
        })
        .collect();
    let image = camera.render(&pixels).unwrap();
    assert_eq!(image.buf.len(), 16 * 9 * 3);
    for y in 0..9usize {
        for x in 0..16usize {
            let at = 3 * (y * 16 + x);
            assert_eq!(&image.buf[at..at + 3], &[x as u8, y as u8, 200]);
        }
    }
}
