use ray_tracing::fx::{Fx, SCALE};
use ray_tracing::hittable::HitRecord;
use ray_tracing::material::{Dielectric, Lambertian, Light, Material, Metal};
use ray_tracing::ray::Ray;
use ray_tracing::rng::Sampler;
use ray_tracing::vector::Vector;

fn fx(raw: i64) -> Fx {
    Fx::new(raw)
}

fn vec3(x: i64, y: i64, z: i64) -> Vector {
    Vector::new(fx(x), fx(y), fx(z))
}

fn hit_at_origin(normal: Vector, front_face: bool) -> HitRecord {
    HitRecord {
        point: vec3(0, 0, 0),
        normal,
        t: fx(SCALE),
        front_face,
        material: Material::Light(Light::new(vec3(0, 0, 0))),
    }
}

#[test]
fn emissive_scatter_has_no_outgoing_ray() {
    let colour = vec3(SCALE, 58982, 26214);
    let light = Light::new(colour);
    let incoming = Ray::new(vec3(0, 0, 5 * SCALE), vec3(0, 0, -SCALE));
    for front in [true, false] {
        let rec = hit_at_origin(vec3(0, SCALE, 0), front);
        let out = light.scatter(&incoming, &rec);
        assert!(out.ray.is_none());
        assert_eq!(
            (out.colour.x.raw, out.colour.y.raw, out.colour.z.raw),
            (colour.x.raw, colour.y.raw, colour.z.raw)
        );
    }
}

#[test]
fn emissive_scatter_ignores_incoming_direction() {
    let colour = vec3(100, 200, 300);
    let m = Material::Light(Light::new(colour));
    let mut sampler = Sampler::new(7);
    for d in [vec3(SCALE, 0, 0), vec3(0, -SCALE, 0), vec3(3 * SCALE, SCALE, -SCALE)] {
        let incoming = Ray::new(vec3(SCALE, SCALE, SCALE), d);
        let rec = hit_at_origin(vec3(0, SCALE, 0), true);
        let out = m.scatter(&incoming, &rec, &mut sampler);
        assert!(out.ray.is_none());
        assert_eq!(out.colour.x.raw, 100);
    }
}

#[test]
fn lambertian_never_degenerate_and_mostly_up() {
    let albedo = vec3(SCALE / 2, SCALE / 2, SCALE / 2);
    let lam = Lambertian::new(albedo);
    let incoming = Ray::new(vec3(0, 5 * SCALE, 0), vec3(0, -SCALE, 0));
    let rec = hit_at_origin(vec3(0, SCALE, 0), true);
    let mut sampler = Sampler::new(42);
    let trials = 1000;
    let mut non_negative = 0;
    for _ in 0..trials {
        let out = lam.scatter(&incoming, &rec, &mut sampler);
        let scattered = out.ray.expect("diffuse scatter always continues");
        let d = scattered.direction;
        assert!(d.x.raw != 0 || d.y.raw != 0 || d.z.raw != 0);
        assert_eq!(scattered.origin.x.raw, 0);
        // projection onto the normal (0, 1, 0) is just the y component
        if d.y.raw >= 0 {
            non_negative += 1;
        }
        assert_eq!(out.colour.x.raw, SCALE / 2);
    }
    assert!(non_negative * 10 >= trials * 9, "only {non_negative} of {trials} upward");
}

#[test]
fn metal_with_zero_fuzz_reflects_exactly() {
    let metal = Metal::new(vec3(SCALE, SCALE, SCALE), fx(0));
    let incoming = Ray::new(vec3(-SCALE, SCALE, 0), vec3(SCALE, -SCALE, 0));
    let rec = hit_at_origin(vec3(0, SCALE, 0), true);
    let mut sampler = Sampler::new(3);
    let out = metal.scatter(&incoming, &rec, &mut sampler);
    let scattered = out.ray.expect("metal scatters here");
    // reflect((1,-1,0)) about (0,1,0) is (1,1,0); normalized both components
    // come out as 1/sqrt(2) at this scale
    assert_eq!(scattered.direction.x.raw, 46341);
    assert_eq!(scattered.direction.y.raw, 46341);
    assert_eq!(scattered.direction.z.raw, 0);
    assert_eq!(scattered.origin.y.raw, 0);
}

#[test]
fn dielectric_total_internal_reflection_reflects() {
    // grazing ray inside the medium: eta sin(theta) = 1.5 > 1
    let glass = Dielectric::new(fx(98304));
    let incoming = Ray::new(vec3(-SCALE, 0, 0), vec3(SCALE, 0, 0));
    let rec = hit_at_origin(vec3(0, SCALE, 0), false);
    let mut sampler = Sampler::new(11);
    let out = glass.scatter(&incoming, &rec, &mut sampler);
    let scattered = out.ray.expect("dielectric always scatters");
    assert_eq!(
        (out.colour.x.raw, out.colour.y.raw, out.colour.z.raw),
        (SCALE, SCALE, SCALE)
    );
    // cos = 0, so the mirror direction is the incoming direction unchanged
    assert_eq!(scattered.direction.x.raw, SCALE);
    assert_eq!(scattered.direction.y.raw, 0);
    assert_eq!(scattered.direction.z.raw, 0);
}

#[test]
fn sampler_is_deterministic_for_a_seed() {
    let mut a = Sampler::new(12345);
    let mut b = Sampler::new(12345);
    for _ in 0..100 {
        assert_eq!(a.next_u64(), b.next_u64());
    }
    let mut c = Sampler::new(1);
    for _ in 0..1000 {
        let j = c.next_jitter();
        assert!(-SCALE / 2 <= j.raw && j.raw < SCALE / 2);
        let u = c.next_unit();
        assert!(0 <= u.raw && u.raw < SCALE);
        let s = c.next_symmetric_unit();
        assert!(-SCALE <= s.raw && s.raw <= SCALE);
    }
}
