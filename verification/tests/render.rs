use ray_tracing::camera::Camera;
use ray_tracing::fx::{Fx, SCALE};
use ray_tracing::get_colour_from_pixel;
use ray_tracing::hittable::Hittable;
use ray_tracing::hittable_list::HittableList;
use ray_tracing::material::{Light, Material};
use ray_tracing::rng::Sampler;
use ray_tracing::sphere::Sphere;
use ray_tracing::vector::Vector;

fn fx(raw: i64) -> Fx {
    Fx::new(raw)
}

fn vec3(x: i64, y: i64, z: i64) -> Vector {
    Vector::new(fx(x), fx(y), fx(z))
}

#[test]
fn pixel_quantization_exact_values() {
    // channels 0.25, 0.5 and 1.0: gamma gives 0.5, ~0.7071 and 1.0
    let (r, g, b) = get_colour_from_pixel(vec3(SCALE / 4, SCALE / 2, SCALE));
    assert_eq!(r, 127);
    assert_eq!(g, 181);
    assert_eq!(b, 255);
    // negative input clamps to black
    let (r2, g2, b2) = get_colour_from_pixel(vec3(-SCALE, 0, -5));
    assert_eq!((r2, g2, b2), (0, 0, 0));
    // a channel where the 255.99 scale matters: ~0.6104 gamma-corrects to
    // ~0.78127, and 0.78127 * 255.99 lands just below 200
    let (r3, g3, b3) = get_colour_from_pixel(vec3(40002, 40002, 40002));
    assert_eq!((r3, g3, b3), (199, 199, 199));
}

#[test]
fn pixel_quantization_is_deterministic() {
    let p = vec3(12345, 54321, 999);
    assert_eq!(get_colour_from_pixel(p), get_colour_from_pixel(p));
}

fn camera_inside_light() -> (Camera, Hittable) {
    let camera = Camera::new(
        fx(SCALE),       // square aspect ratio
        8,               // image width
        4,               // samples per pixel
        3,               // max depth
        fx(SCALE),       // tan of half the field of view: 90 degrees
        vec3(0, 0, 0),   // eye
        vec3(0, 0, -4 * SCALE),
        fx(0),           // no depth of field
        fx(2 * SCALE),   // focus distance
    );
    let mut world = HittableList::new();
    let grey = Material::Light(Light::new(vec3(SCALE / 2, SCALE / 2, SCALE / 2)));
    world.add(Sphere::new(vec3(0, 0, 0), fx(100 * SCALE), grey));
    (camera, Hittable::List(world))
}

#[test]
fn enclosing_emissive_sphere_fills_every_pixel() {
    let (camera, world) = camera_inside_light();
    let mut sampler = Sampler::new(2024);
    let image = camera.render(&world, &mut sampler);
    assert_eq!(image.len(), 8);
    for row in &image {
        assert_eq!(row.len(), 8);
        for &pixel in row {
            // 0.5 emitted, gamma corrected to sqrt(0.5), quantized
            assert_eq!(pixel, (181, 181, 181));
        }
    }
}

#[test]
fn render_is_deterministic_for_a_seed() {
    let (camera, world) = camera_inside_light();
    let mut s1 = Sampler::new(99);
    let mut s2 = Sampler::new(99);
    let a = camera.render(&world, &mut s1);
    let b = camera.render(&world, &mut s2);
    assert_eq!(a, b);
}

#[test]
fn render_rows_partitions_like_full_render() {
    let (camera, world) = camera_inside_light();
    let mut sampler = Sampler::new(5);
    let top = camera.render_rows(&world, 0, 4, &mut sampler);
    let mut sampler2 = Sampler::new(5);
    let bottom = camera.render_rows(&world, 4, 8, &mut sampler2);
    assert_eq!(top.len(), 4);
    assert_eq!(bottom.len(), 4);
    for row in top.iter().chain(bottom.iter()) {
        assert_eq!(row.len(), 8);
        for sum in row {
            // four samples of the same emitted 0.5 grey accumulate exactly
            assert_eq!(sum.x.raw, 4 * (SCALE / 2));
            assert_eq!(sum.y.raw, 4 * (SCALE / 2));
            assert_eq!(sum.z.raw, 4 * (SCALE / 2));
        }
    }
}

#[test]
fn camera_derives_height_from_aspect_ratio() {
    let camera = Camera::new(
        fx(2 * SCALE),   // aspect ratio 2:1
        16,
        1,
        1,
        fx(SCALE),
        vec3(0, 0, 0),
        vec3(0, 0, -4 * SCALE),
        fx(0),
        fx(2 * SCALE),
    );
    let world = Hittable::List(HittableList::new());
    let mut sampler = Sampler::new(0);
    let image = camera.render(&world, &mut sampler);
    assert_eq!(image.len(), 8);
    assert_eq!(image[0].len(), 16);
}

#[test]
fn defocus_camera_renders_full_frame() {
    // a positive aperture: ray origins are sampled from the defocus disk
    let camera = Camera::new(
        fx(SCALE),
        4,
        2,
        2,
        fx(SCALE),
        vec3(0, 0, 0),
        vec3(0, 0, -4 * SCALE),
        fx(SCALE / 16),
        fx(2 * SCALE),
    );
    let mut world = HittableList::new();
    let grey = Material::Light(Light::new(vec3(SCALE / 2, SCALE / 2, SCALE / 2)));
    world.add(Sphere::new(vec3(0, 0, 0), fx(100 * SCALE), grey));
    let world = Hittable::List(world);
    let mut sampler = Sampler::new(31);
    let image = camera.render(&world, &mut sampler);
    assert_eq!(image.len(), 4);
    for row in &image {
        assert_eq!(row.len(), 4);
        for &pixel in row {
            // still enclosed by the emitter: colour unchanged by the aperture
            assert_eq!(pixel, (181, 181, 181));
        }
    }
}

#[test]
fn sky_gradient_renders_blue_above_white_toward_horizon() {
    // empty world: every ray returns the sky gradient
    let camera = Camera::new(
        fx(SCALE),
        4,
        1,
        2,
        fx(SCALE),
        vec3(0, 0, 0),
        vec3(0, 0, -4 * SCALE),
        fx(0),
        fx(2 * SCALE),
    );
    let world = Hittable::List(HittableList::new());
    let mut sampler = Sampler::new(7);
    let image = camera.render(&world, &mut sampler);
    // the top row looks up more than the bottom row: more blue, so a smaller
    // red channel
    let top = image[0][1];
    let bottom = image[3][1];
    assert!(top.0 < bottom.0, "top {:?} bottom {:?}", top, bottom);
    // blue stays at full intensity everywhere in this gradient
    assert_eq!(top.2, 255);
    assert_eq!(bottom.2, 255);
}
