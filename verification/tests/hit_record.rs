use glam::DVec3;
use ray_tow::hit_record::closer;
use ray_tow::hit_record::closest;
use ray_tow::hit_record::FaceSide;
use ray_tow::hit_record::HitRecord;
use ray_tow::hit_record::Hittable;
use ray_tow::hit_record::Interval;
use ray_tow::material::Material;
use ray_tow::ray::Ray;
use ray_tow::scalar::Scalar;
use ray_tow::shapes::sphere::Crossing;
use ray_tow::shapes::sphere::Crossings;
use ray_tow::shapes::sphere::Sphere;
use ray_tow::vectors::Vec3;

fn s(x: f64) -> Scalar {
    Scalar::from_bits(x.to_bits())
}

fn f(x: Scalar) -> f64 {
    f64::from_bits(x.to_bits())
}

fn v(d: DVec3) -> Vec3 {
    Vec3::new(s(d.x), s(d.y), s(d.z))
}

fn d(v: Vec3) -> DVec3 {
    DVec3::new(f(v.x), f(v.y), f(v.z))
}

fn tinted(shade: f64) -> Material {
    Material::Lambertian { albedo: v(DVec3::splat(shade)) }
}

fn at(t: f64) -> Option<HitRecord> {
    Some(HitRecord::new(v(DVec3::new(0.0, 0.0, -t)), v(DVec3::Z), s(t), FaceSide::Front, tinted(t / 100.0)))
}

fn interval(min: f64, max: f64) -> Interval {
    Interval::new(s(min), s(max))
}

/// A sphere that works out its own crossings, as a renderer would.
struct Ball(Sphere);

impl Hittable for Ball {
    fn hit(&self, ray: &Ray, interval: Interval) -> Option<HitRecord> {
        let direction = d(ray.direction);
        let oc = d(self.0.center) - d(ray.origin);
        let a = direction.length_squared();
        let half_b = oc.dot(direction);
        let c = oc.length_squared() - f(self.0.radius) * f(self.0.radius);
        let discriminant = half_b * half_b - a * c;
        let root = discriminant.sqrt();
        let crossing = |t: f64| {
            let point = d(ray.origin) + direction * t;
            let outward_normal = (point - d(self.0.center)) / f(self.0.radius);
            Crossing { t: s(t), point: v(point), outward_normal: v(outward_normal), facing: s(direction.dot(outward_normal)) }
        };
        let solved = Crossings {
            a: s(a),
            discriminant: s(discriminant),
            near: crossing((half_b - root) / a),
            far: crossing((half_b + root) / a),
        };
        self.0.hit(&solved, interval)
    }
}

/// A surface that answers with one fixed hit, whatever it is asked.
struct Stubborn(Option<HitRecord>);

impl Hittable for Stubborn {
    fn hit(&self, _ray: &Ray, _interval: Interval) -> Option<HitRecord> {
        self.0
    }
}

fn ball(z: f64, shade: f64) -> Ball {
    Ball(Sphere::new(v(DVec3::new(0.0, 0.0, z)), s(1.0), tinted(shade)))
}

fn down_the_axis() -> Ray {
    Ray::new(v(DVec3::ZERO), v(DVec3::new(0.0, 0.0, -1.0)))
}

#[test]
fn face_side_default_is_front() {
    assert_eq!(FaceSide::default(), FaceSide::Front);
}

#[test]
fn hit_record_default_is_a_white_matte_hit_at_the_origin() {
    let record = HitRecord::default();
    assert_eq!(d(record.point), DVec3::ZERO);
    assert_eq!(record.point, Vec3::zero());
    assert_eq!(record.normal, Vec3::zero());
    assert_eq!(record.t, s(0.0));
    assert_eq!(record.face_side, FaceSide::Front);
    assert_eq!(record.material, Material::Lambertian { albedo: v(DVec3::ONE) });
}

#[test]
fn hit_record_new_keeps_the_fields() {
    let record = HitRecord::new(v(DVec3::X), v(DVec3::Y), s(3.0), FaceSide::Back, tinted(0.25));
    assert_eq!(record.point, v(DVec3::X));
    assert_eq!(record.normal, v(DVec3::Y));
    assert_eq!(record.t, s(3.0));
    assert_eq!(record.face_side, FaceSide::Back);
    assert_eq!(record.material, tinted(0.25));
}

#[test]
fn set_face_normal_front_and_back() {
    let outward = DVec3::new(0.0, 0.6, 0.8);
    let mut record = HitRecord::new(v(DVec3::X), v(DVec3::ZERO), s(3.0), FaceSide::Back, tinted(0.25));
    record.set_face_normal(s(-0.3), v(outward));
    assert_eq!(record.face_side, FaceSide::Front);
    assert_eq!(record.normal, v(outward));
    record.set_face_normal(s(0.3), v(outward));
    assert_eq!(record.face_side, FaceSide::Back);
    assert_eq!(record.normal, v(-outward));
    record.set_face_normal(s(0.0), v(outward));
    assert_eq!(record.face_side, FaceSide::Back);
    record.set_face_normal(s(-0.0), v(outward));
    assert_eq!(record.face_side, FaceSide::Back);
    record.set_face_normal(s(f64::NAN), v(outward));
    assert_eq!(record.face_side, FaceSide::Back);
    assert_eq!(record.normal, v(-outward));
    assert_eq!(record.point, v(DVec3::X));
    assert_eq!(record.t, s(3.0));
    assert_eq!(record.material, tinted(0.25));
}

#[test]
fn set_face_normal_agrees_with_the_dot_product() {
    let outward = DVec3::new(0.0, 0.6, 0.8);
    for k in 0..60 {
        let angle = k as f64 * 0.11;
        let direction = DVec3::new(angle.sin(), angle.cos(), 0.3 - 0.01 * k as f64);
        let mut record = HitRecord::default();
        record.set_face_normal(s(direction.dot(outward)), v(outward));
        let expected = if direction.dot(outward) < 0.0 { FaceSide::Front } else { FaceSide::Back };
        assert_eq!(record.face_side, expected);
        assert!(direction.dot(d(record.normal)) <= 0.0);
    }
}

#[test]
fn interval_is_open() {
    let unit = interval(0.0, 1.0);
    assert!(unit.contains(s(0.5)));
    assert!(!unit.contains(s(0.0)));
    assert!(!unit.contains(s(-0.0)));
    assert!(!unit.contains(s(1.0)));
    assert!(!unit.contains(s(2.0)));
    assert!(!unit.contains(s(-1.0)));
    assert!(!unit.contains(s(f64::NAN)));
    assert!(!interval(f64::NAN, 1.0).contains(s(0.5)));
    assert!(!interval(0.0, f64::NAN).contains(s(0.5)));
    assert!(!interval(1.0, 0.0).contains(s(0.5)));
    assert!(interval(0.001, f64::INFINITY).contains(s(1e300)));
    assert!(!interval(0.001, f64::INFINITY).contains(s(f64::INFINITY)));
    assert_eq!(unit.min, s(0.0));
    assert_eq!(unit.max, s(1.0));
}

#[test]
fn closer_keeps_the_nearer() {
    let whole = interval(0.0, 100.0);
    assert_eq!(closer(None, None, whole), None);
    assert_eq!(closer(None, at(5.0), whole), at(5.0));
    assert_eq!(closer(at(5.0), None, whole), at(5.0));
    assert_eq!(closer(at(5.0), at(3.0), whole), at(3.0));
    assert_eq!(closer(at(3.0), at(5.0), whole), at(3.0));
    assert_eq!(closer(None, at(200.0), whole), None);
    assert_eq!(closer(None, at(-1.0), whole), None);
    assert_eq!(closer(at(5.0), at(-1.0), whole), at(5.0));
    assert_eq!(closer(None, at(f64::NAN), whole), None);
    assert_eq!(closer(None, at(100.0), whole), None);
    assert_eq!(closer(None, at(0.0), whole), None);
}

#[test]
fn closer_keeps_the_first_of_two_equally_near() {
    let whole = interval(0.0, 100.0);
    let first = Some(HitRecord::new(v(DVec3::X), v(DVec3::Z), s(5.0), FaceSide::Front, tinted(0.1)));
    let second = Some(HitRecord::new(v(DVec3::Y), v(DVec3::Z), s(5.0), FaceSide::Front, tinted(0.2)));
    assert_eq!(closer(first, second, whole), first);
    assert_eq!(closer(second, first, whole), second);
}

#[test]
fn closest_of_none_is_none() {
    assert_eq!(closest(&vec![], interval(0.0, 100.0)), None);
    assert_eq!(closest(&vec![None, None], interval(0.0, 100.0)), None);
    assert_eq!(closest(&vec![at(200.0), at(-3.0), None], interval(0.0, 100.0)), None);
}

#[test]
fn closest_is_the_nearest_in_every_order() {
    let whole = interval(0.0, f64::INFINITY);
    let hits = [at(4.0), at(9.0), at(14.0)];
    let orders = [[0, 1, 2], [0, 2, 1], [1, 0, 2], [1, 2, 0], [2, 0, 1], [2, 1, 0]];
    for order in orders {
        let candidates = vec![hits[order[0]], hits[order[1]], hits[order[2]]];
        assert_eq!(closest(&candidates, whole), at(4.0));
        assert_eq!(closest(&candidates, interval(5.0, f64::INFINITY)), at(9.0));
        assert_eq!(closest(&candidates, interval(5.0, 9.0)), None);
        assert_eq!(closest(&candidates, interval(9.5, 20.0)), at(14.0));
    }
}

#[test]
fn scene_of_three_spheres_gives_the_nearest_in_every_order() {
    let orders = [[0, 1, 2], [0, 2, 1], [1, 0, 2], [1, 2, 0], [2, 0, 1], [2, 1, 0]];
    let centers = [-5.0, -10.0, -15.0];
    let ray = down_the_axis();
    for order in orders {
        let scene: Vec<Ball> = order.iter().map(|&k| ball(centers[k], 0.1 * (k + 1) as f64)).collect();
        let found = scene.hit(&ray, interval(0.0, f64::INFINITY)).unwrap();
        assert_eq!(f(found.t), 4.0);
        assert_eq!(d(found.point), DVec3::new(0.0, 0.0, -4.0));
        assert_eq!(found.material, tinted(0.1));
        assert_eq!(found.face_side, FaceSide::Front);
    }
}

#[test]
fn empty_scene_is_never_hit() {
    let scene: Vec<Ball> = Vec::new();
    assert_eq!(scene.hit(&down_the_axis(), interval(0.0, f64::INFINITY)), None);
    let no_slots: [Ball; 0] = [];
    assert_eq!(no_slots.hit(&down_the_axis(), interval(0.0, f64::INFINITY)), None);
}

#[test]
fn scene_respects_the_interval() {
    let scene = vec![ball(-15.0, 0.3), ball(-5.0, 0.1), ball(-10.0, 0.2)];
    let ray = down_the_axis();
    assert_eq!(f(scene.hit(&ray, interval(7.0, f64::INFINITY)).unwrap().t), 9.0);
    assert_eq!(f(scene.hit(&ray, interval(4.5, 8.0)).unwrap().t), 6.0);
    assert_eq!(scene.hit(&ray, interval(16.5, f64::INFINITY)), None);
    assert_eq!(scene.hit(&ray, interval(0.0, 3.0)), None);
}

#[test]
fn scene_drops_answers_outside_the_interval() {
    let scene = vec![Stubborn(at(50.0)), Stubborn(at(2.0)), Stubborn(at(-1.0)), Stubborn(None)];
    assert_eq!(scene.hit(&down_the_axis(), interval(1.0, 10.0)), at(2.0));
    assert_eq!(scene.hit(&down_the_axis(), interval(3.0, 10.0)), None);
    assert_eq!(scene.hit(&down_the_axis(), interval(3.0, 100.0)), at(50.0));
}

#[test]
fn empty_slot_is_never_hit() {
    let slot: Option<Ball> = None;
    assert_eq!(slot.hit(&down_the_axis(), interval(0.0, f64::INFINITY)), None);
    let filled = Some(ball(-5.0, 0.1));
    assert_eq!(f(filled.hit(&down_the_axis(), interval(0.0, f64::INFINITY)).unwrap().t), 4.0);
}

#[test]
fn slots_give_the_same_hit_as_a_list() {
    let slots: [Option<Ball>; 5] = [None, Some(ball(-10.0, 0.2)), None, Some(ball(-5.0, 0.1)), Some(ball(-15.0, 0.3))];
    let list = vec![ball(-10.0, 0.2), ball(-5.0, 0.1), ball(-15.0, 0.3)];
    let ray = down_the_axis();
    for (min, max) in [(0.0, f64::INFINITY), (4.5, f64::INFINITY), (7.0, 20.0), (20.0, 30.0)] {
        assert_eq!(slots.hit(&ray, interval(min, max)), list.hit(&ray, interval(min, max)));
    }
    assert_eq!(f(slots.hit(&ray, interval(0.0, f64::INFINITY)).unwrap().t), 4.0);
}

#[test]
fn scenes_nest() {
    let nested = vec![vec![ball(-15.0, 0.3)], vec![], vec![ball(-10.0, 0.2), ball(-5.0, 0.1)]];
    assert_eq!(f(nested.hit(&down_the_axis(), interval(0.0, f64::INFINITY)).unwrap().t), 4.0);
}

#[test]
fn asking_only_for_nearer_hits_loses_nothing() {
    let centers = [-12.0, -3.0, -7.5, -20.0, -3.5, 4.0];
    let rays = [
        down_the_axis(),
        Ray::new(v(DVec3::new(0.0, 0.0, -7.5)), v(DVec3::new(0.0, 0.0, -1.0))),
        Ray::new(v(DVec3::new(0.3, 0.0, 0.0)), v(DVec3::new(0.0, 0.05, -2.0))),
        Ray::new(v(DVec3::new(0.0, 0.0, -30.0)), v(DVec3::new(0.0, 0.0, 1.0))),
    ];
    for ray in rays {
        for (min, max) in [(0.001, f64::INFINITY), (0.0, 5.0), (3.0, 9.0), (10.0, 11.0), (-50.0, 50.0)] {
            let scene: Vec<Ball> = centers.iter().enumerate().map(|(k, &z)| ball(z, 0.1 * k as f64)).collect();
            let window = interval(min, max);
            let in_full: Vec<Option<HitRecord>> = scene.iter().map(|member| member.hit(&ray, window)).collect();
            assert_eq!(scene.hit(&ray, window), closest(&in_full, window));
        }
    }
}

#[test]
fn filled_slot_hands_on_the_answer_of_its_shape() {
    let ray = down_the_axis();
    for answer in [at(2.0), at(50.0), at(-1.0), None] {
        let slot = Some(Stubborn(answer));
        assert_eq!(slot.hit(&ray, interval(1.0, 10.0)), answer);
    }
    let filled = Some(ball(-5.0, 0.1));
    for (min, max) in [(0.0, f64::INFINITY), (4.5, 10.0), (7.0, 9.0)] {
        assert_eq!(filled.hit(&ray, interval(min, max)), ball(-5.0, 0.1).hit(&ray, interval(min, max)));
    }
}
