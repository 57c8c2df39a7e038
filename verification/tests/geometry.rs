use ray_tracing::fx::{Fx, SCALE};
use ray_tracing::hittable::Hittable;
use ray_tracing::hittable_list::HittableList;
use ray_tracing::interval::Interval;
use ray_tracing::material::{reflect, Light, Material};
use ray_tracing::ray::Ray;
use ray_tracing::sphere::Sphere;
use ray_tracing::vector::{dot, Vector};

fn fx(raw: i64) -> Fx {
    Fx::new(raw)
}

fn vec3(x: i64, y: i64, z: i64) -> Vector {
    Vector::new(fx(x), fx(y), fx(z))
}

fn units(n: i64) -> Fx {
    Fx::new(n * SCALE)
}

#[test]
fn interval_clamp_stays_inside() {
    let iv = Interval::new(units(1), units(3));
    assert_eq!(iv.clamp(units(0)).raw, SCALE);
    assert_eq!(iv.clamp(units(2)).raw, 2 * SCALE);
    assert_eq!(iv.clamp(units(5)).raw, 3 * SCALE);
    assert_eq!(iv.size().raw, 2 * SCALE);
}

#[test]
fn interval_boundaries_closed_vs_open() {
    let iv = Interval::new(units(1), units(3));
    assert!(iv.contains(units(1)));
    assert!(iv.contains(units(3)));
    assert!(!iv.surounds(units(1)));
    assert!(!iv.surounds(units(3)));
    assert!(iv.surounds(units(2)));
    assert!(!iv.contains(units(0)));
    assert!(!iv.surounds(units(4)));
}

#[test]
fn vector_arithmetic_exact() {
    let a = vec3(SCALE, 2 * SCALE, 3 * SCALE);
    let b = vec3(4 * SCALE, 5 * SCALE, 6 * SCALE);
    let s = a.add(b);
    assert_eq!((s.x.raw, s.y.raw, s.z.raw), (5 * SCALE, 7 * SCALE, 9 * SCALE));
    let d = b.sub(a);
    assert_eq!((d.x.raw, d.y.raw, d.z.raw), (3 * SCALE, 3 * SCALE, 3 * SCALE));
    let p = dot(a, b);
    assert_eq!(p.raw, 32 * SCALE);
    let c = Vector::new(units(1), units(0), units(0)).cross(Vector::new(
        units(0),
        units(1),
        units(0),
    ));
    assert_eq!((c.x.raw, c.y.raw, c.z.raw), (0, 0, SCALE));
    let e = a.mul_element_wise(b);
    assert_eq!((e.x.raw, e.y.raw, e.z.raw), (4 * SCALE, 10 * SCALE, 18 * SCALE));
}

#[test]
fn magnitude_of_three_four_zero_is_five() {
    let v = vec3(3 * SCALE, 4 * SCALE, 0);
    assert_eq!(v.magnitude2().raw, 25 * SCALE);
    assert_eq!(v.magnitude().raw, 5 * SCALE);
    let u = v.normalize();
    // 3/5 and 4/5 exactly at this scale
    assert_eq!((u.x.raw, u.y.raw, u.z.raw), (39321, 52428, 0));
}

#[test]
fn reflect_about_vertical_normal() {
    let n = vec3(0, SCALE, 0);
    let v = vec3(SCALE, -SCALE, 0);
    let r = reflect(v, n);
    assert_eq!((r.x.raw, r.y.raw, r.z.raw), (SCALE, SCALE, 0));
    // elastic: same squared magnitude
    let m_in = v.magnitude2().raw;
    let m_out = r.magnitude2().raw;
    assert_eq!(m_in, m_out);
}

fn light_grey() -> Material {
    Material::Light(Light::new(vec3(SCALE / 2, SCALE / 2, SCALE / 2)))
}

#[test]
fn axis_ray_hits_sphere_head_on() {
    // unit radius sphere at the origin, ray from (0, 0, -2) toward it
    let s = Sphere::new(vec3(0, 0, 0), units(1), light_grey());
    let ray = Ray::new(vec3(0, 0, -2 * SCALE), vec3(0, 0, SCALE));
    let rec = s.hit(&ray, Interval::new(fx(66), units(1000))).expect("must hit");
    assert_eq!(rec.t.raw, SCALE);
    assert_eq!((rec.point.x.raw, rec.point.y.raw, rec.point.z.raw), (0, 0, -SCALE));
    assert_eq!((rec.normal.x.raw, rec.normal.y.raw, rec.normal.z.raw), (0, 0, -SCALE));
    assert!(rec.front_face);
}

#[test]
fn ray_pointing_away_misses_sphere() {
    // sphere behind the origin; the ray moves away from it
    let s = Sphere::new(vec3(0, 0, -2 * SCALE), units(1), light_grey());
    let ray = Ray::new(vec3(0, 0, 0), vec3(0, 0, SCALE));
    assert!(s.hit(&ray, Interval::new(fx(66), units(1000))).is_none());
}

#[test]
fn closer_root_wins_and_interval_narrows() {
    // entering hit at t = 1 must be chosen over the exit at t = 3
    let s = Sphere::new(vec3(0, 0, -2 * SCALE), units(1), light_grey());
    let ray = Ray::new(vec3(0, 0, 0), vec3(0, 0, -SCALE));
    let rec = s.hit(&ray, Interval::new(fx(66), units(1000))).expect("must hit");
    assert_eq!(rec.t.raw, SCALE);
    assert!(rec.front_face);
    // narrow the interval past the first root: the far root is returned
    let rec2 = s.hit(&ray, Interval::new(units(2), units(1000))).expect("must hit far side");
    assert_eq!(rec2.t.raw, 3 * SCALE);
    assert!(!rec2.front_face);
}

#[test]
fn hittable_list_returns_nearest() {
    let far = Sphere::new(vec3(0, 0, -10 * SCALE), units(1), light_grey());
    let near = Sphere::new(vec3(0, 0, -4 * SCALE), units(1), light_grey());
    let mut list = HittableList::new();
    list.add(far);
    list.add(near);
    let world = Hittable::List(list);
    let ray = Ray::new(vec3(0, 0, 0), vec3(0, 0, -SCALE));
    let rec = world.hit(&ray, Interval::new(fx(66), units(1000))).expect("must hit");
    assert_eq!(rec.t.raw, 3 * SCALE);
}
