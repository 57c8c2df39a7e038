use vstd::prelude::*;

use crate::fx::{
    abs_i, fx_div_v, fx_mul_v, tdiv, Fx, COORD_LIMIT, SCALE, T_LIMIT,
};
use crate::hittable::Hittable;
use crate::interval::Interval;
use crate::material::Material;
use crate::ray::Ray;
use crate::rng::Sampler;
use crate::vector::{
    cross_v, in_range, lemma_fx_mul_bound, mag2_v, unit_of, vadd_v, vdiv_v, vneg_v, vscale_v,
    vsub_v, Point, Vector,
};
use crate::Colour;

verus! {

/// Everything a render needs, computed once from the construction
/// parameters.
pub struct Camera {
    pub image_width: i32,
    pub samples_per_pixel: i32,
    pub max_depth: i32,
    pub defocus_tan_half: Fx,
    pub image_height: i32,
    pub pixel_samples_scale: Fx,
    pub centre: Point,
    pub pixel00_loc: Point,
    pub pixel_delta_u: Vector,
    pub pixel_delta_v: Vector,
    pub defocus_disk_u: Vector,
    pub defocus_disk_v: Vector,
}

/// Every primary ray of pixel `(i, j)` comes back with the same colour `c`
/// from this world: what an emissive surface filling the camera's view
/// guarantees, since an emitter's contribution involves no randomness.
pub open spec fn uniform_view(cam: Camera, world: Hittable, i: int, j: int, c: Vector) -> bool {
    forall|ray: Ray, col: Vector|
        #[trigger] camera_ray_rel(cam, i, j, ray) && #[trigger] ray_colour_rel(
            world,
            ray,
            cam.max_depth as int,
            col,
        ) ==> col == c
}

/// The world up direction used to build the camera basis.
pub open spec fn vup_v() -> Vector {
    Vector { x: Fx { raw: 0 }, y: Fx { raw: 65536 }, z: Fx { raw: 0 } }
}

/// Every component of a vector is bounded by `b` in magnitude.
pub open spec fn vbound(v: Vector, b: int) -> bool {
    abs_i(v.x@) <= b && abs_i(v.y@) <= b && abs_i(v.z@) <= b
}

/// Construction parameters a camera can be derived from without any scaled
/// intermediate leaving 64 bits, and without degenerate basis vectors.
pub open spec fn camera_params_ok(
    aspect_ratio: Fx,
    image_width: i32,
    samples_per_pixel: i32,
    max_depth: i32,
    half_fov_tan: Fx,
    lookfrom: Point,
    lookat: Point,
    defocus_tan_half: Fx,
    focus_dist: Fx,
) -> bool {
    &&& in_range(lookfrom)
    &&& in_range(lookat)
    &&& 1 <= image_width <= 16384
    &&& 1 <= samples_per_pixel <= 65536
    &&& 0 <= max_depth <= 1024
    &&& 4096 <= aspect_ratio@ <= 0x40000000
    &&& 0 <= half_fov_tan@ <= 1048576
    &&& abs_i(defocus_tan_half@) <= 65536
    &&& 0 < focus_dist@ <= COORD_LIMIT
    &&& tdiv(fx_div_v(image_width as int * 65536, aspect_ratio@), 65536) <= 32768
    &&& mag2_v(vsub_v(lookfrom, lookat)) >= 1
    &&& mag2_v(cross_v(vup_v(), unit_of(vsub_v(lookfrom, lookat)))) >= 1
}

/// The camera a given parameter list derives: image height from width and
/// aspect ratio, an orthonormal-ish basis from the view direction, viewport
/// and per-pixel deltas from the field of view and focus distance, and a
/// defocus disk from the aperture.
pub open spec fn camera_mirror(
    aspect_ratio: Fx,
    image_width: i32,
    samples_per_pixel: i32,
    max_depth: i32,
    half_fov_tan: Fx,
    lookfrom: Point,
    lookat: Point,
    defocus_tan_half: Fx,
    focus_dist: Fx,
) -> Camera {
    let ihv = tdiv(fx_div_v(image_width as int * 65536, aspect_ratio@), 65536);
    let ih = if ihv < 1 {
        1
    } else {
        ihv
    };
    let pss = fx_div_v(65536, samples_per_pixel as int * 65536);
    let vh = fx_mul_v(fx_mul_v(131072, half_fov_tan@), focus_dist@);
    let ratio = fx_div_v(image_width as int * 65536, ih * 65536);
    let vw = fx_mul_v(vh, ratio);
    let wv = unit_of(vsub_v(lookfrom, lookat));
    let uv = unit_of(cross_v(vup_v(), wv));
    let vv = cross_v(wv, uv);
    let viewport_u = vscale_v(uv, vw);
    let viewport_v = vscale_v(vneg_v(vv), vh);
    let pdu = vdiv_v(viewport_u, image_width as int * 65536);
    let pdv = vdiv_v(viewport_v, ih * 65536);
    let vul = vsub_v(
        vsub_v(lookfrom, vscale_v(wv, focus_dist@)),
        vscale_v(vadd_v(viewport_u, viewport_v), 32768),
    );
    let p00 = vadd_v(vul, vscale_v(vadd_v(pdu, pdv), 32768));
    let dr = fx_mul_v(focus_dist@, defocus_tan_half@);
    Camera {
        image_width,
        samples_per_pixel,
        max_depth,
        defocus_tan_half,
        image_height: ih as i32,
        pixel_samples_scale: Fx { raw: pss as i64 },
        centre: lookfrom,
        pixel00_loc: p00,
        pixel_delta_u: pdu,
        pixel_delta_v: pdv,
        defocus_disk_u: vscale_v(uv, dr),
        defocus_disk_v: vscale_v(vv, dr),
    }
}

/// The world location of the jittered pixel `(i, j)` for jitter offsets
/// `(ox, oy)` in raw units.
pub open spec fn pixel_spec(cam: Camera, i: int, j: int, ox: int, oy: int) -> Vector {
    vadd_v(
        vadd_v(cam.pixel00_loc, vscale_v(cam.pixel_delta_u, i * 65536 + ox)),
        vscale_v(cam.pixel_delta_v, j * 65536 + oy),
    )
}

/// A ray whose origin and direction are within the bounds the intersection
/// arithmetic needs, and whose direction is not degenerate.
pub open spec fn ray_ok(r: Ray) -> bool {
    &&& in_range(r.origin)
    &&& in_range(r.direction)
    &&& mag2_v(r.direction) >= 1
}

/// Full intensity on all channels.
pub open spec fn white_v() -> Vector {
    Vector { x: Fx { raw: 65536 }, y: Fx { raw: 65536 }, z: Fx { raw: 65536 } }
}

/// The sky's horizon-to-zenith blue.
pub open spec fn sky_blue_v() -> Vector {
    Vector { x: Fx { raw: 32768 }, y: Fx { raw: 45875 }, z: Fx { raw: 65536 } }
}

/// The background gradient a missed ray contributes: white blended toward
/// blue by the normalized direction's vertical component.
pub open spec fn sky_v(direction: Vector) -> Vector {
    let u = unit_of(direction);
    let a = fx_mul_v(32768, u.y@ + 65536);
    vadd_v(vscale_v(white_v(), 65536 - a), vscale_v(sky_blue_v(), a))
}

/// A point of the open unit disk in the x-y plane, as the aperture sampler
/// draws it.
pub open spec fn disk_sample(p: Vector) -> bool {
    &&& abs_i(p.x@) <= 65536
    &&& abs_i(p.y@) <= 65536
    &&& p.z@ == 0
    &&& mag2_v(p) < 65536
}

/// An origin on the camera's defocus disk: the centre offset along the disk
/// basis by some point strictly inside the unit disk.
pub open spec fn defocus_origin_rel(cam: Camera, o: Point) -> bool {
    exists|p: Vector|
        #[trigger] disk_sample(p) && o == vadd_v(
            vadd_v(cam.centre, vscale_v(cam.defocus_disk_u, p.x@)),
            vscale_v(cam.defocus_disk_v, p.y@),
        )
}

/// What a primary ray for pixel `(i, j)` looks like: the origin is the eye
/// (no aperture) or a defocus-disk point (positive aperture), and the
/// direction runs from the origin to the pixel's location jittered by up to
/// half a pixel on each axis.
pub open spec fn camera_ray_rel(cam: Camera, i: int, j: int, ray: Ray) -> bool {
    &&& vbound(ray.origin, 0x22000000)
    &&& if cam.defocus_tan_half@ <= 0 {
        ray.origin == cam.centre
    } else {
        defocus_origin_rel(cam, ray.origin)
    }
    &&& exists|ox: int, oy: int|
        -32768 <= ox < 32768 && -32768 <= oy < 32768 && ray.direction == vsub_v(
            #[trigger] pixel_spec(cam, i, j, ox, oy),
            ray.origin,
        )
}

/// Marks a colour as an existential witness, so that quantifiers over
/// possible sample colours have a stable trigger.
pub open spec fn colour_witness(c: Vector) -> bool {
    true
}

/// Marks one sample of a pixel — the accumulation before it, its primary ray
/// and its colour — as an existential witness.
pub open spec fn sample_witness(prev: Vector, ray: Ray, c: Vector) -> bool {
    true
}

/// Whether `rr` is an outcome the given material's scatter can produce for
/// this incoming ray and hit record.
pub open spec fn scatter_rel(
    m: Material,
    r_in: Ray,
    rec: crate::hittable::HitRecord,
    rr: crate::material::RayRecord,
) -> bool {
    match m {
        Material::Lambertian(l) => crate::material::lambertian_post(l, rec, rr),
        Material::Metal(mm) => crate::material::metal_post(mm, r_in, rec, rr),
        Material::Dielectric(d) => crate::material::dielectric_post(d, r_in, rec, rr),
        Material::Light(l) => crate::material::light_post(l, rr),
    }
}

/// Whether `r` is a colour the integrator can return for this ray, depth and
/// world: black at an exhausted budget or for a degenerate ray, the sky
/// gradient on a miss, and on a hit some scatter outcome's attenuation —
/// returned outright when the path ends there, or multiplied channel-wise
/// into some colour the integrator can return for the scattered ray one
/// level deeper.
pub open spec fn ray_colour_rel(world: Hittable, ray: Ray, depth: int, r: Vector) -> bool
    decreases depth,
{
    if depth <= 0 {
        r.x@ == 0 && r.y@ == 0 && r.z@ == 0
    } else if !ray_ok(ray) {
        r.x@ == 0 && r.y@ == 0 && r.z@ == 0
    } else {
        match world.hit_spec(ray, 66, T_LIMIT as int) {
            None => r == sky_v(ray.direction),
            Some(rec) => exists|rr: crate::material::RayRecord|
                #[trigger] scatter_rel(rec.material, ray, rec, rr) && match rr.ray {
                    Some(scattered) => exists|rest: Vector|
                        #[trigger] colour_witness(rest) && ray_colour_rel(
                            world,
                            scattered,
                            depth - 1,
                            rest,
                        ) && r.x@ == fx_mul_v(rr.colour.x@, rest.x@) && r.y@ == fx_mul_v(
                            rr.colour.y@,
                            rest.y@,
                        ) && r.z@ == fx_mul_v(rr.colour.z@, rest.z@),
                    None => r == rr.colour,
                },
        }
    }
}

/// Whether `sum` is a possible accumulation of `n` independent samples of
/// pixel `(i, j)`: zero for no samples, otherwise a smaller accumulation
/// plus the integrator's colour for one more primary ray of that pixel.
pub open spec fn pixel_sum_rel(
    cam: Camera,
    world: Hittable,
    i: int,
    j: int,
    n: int,
    sum: Vector,
) -> bool
    decreases n,
{
    if n <= 0 {
        sum.x@ == 0 && sum.y@ == 0 && sum.z@ == 0
    } else {
        exists|prev: Vector, ray: Ray, c: Vector|
            {
                &&& #[trigger] sample_witness(prev, ray, c)
                &&& pixel_sum_rel(cam, world, i, j, n - 1, prev)
                &&& camera_ray_rel(cam, i, j, ray)
                &&& ray_colour_rel(world, ray, cam.max_depth as int, c)
                &&& sum.x@ == prev.x@ + c.x@
                &&& sum.y@ == prev.y@ + c.y@
                &&& sum.z@ == prev.z@ + c.z@
            }
    }
}

/// The 8-bit cell a sample accumulation quantizes to: the mean (the sum
/// scaled by the per-sample weight), gamma corrected, clamped and scaled to
/// a byte per channel.
pub open spec fn quantized_cell(cam: Camera, sum: Vector, cell: (u8, u8, u8)) -> bool {
    &&& cell.0 as int == crate::pixel_byte_v(vscale_v(sum, cam.pixel_samples_scale@).x@)
    &&& cell.1 as int == crate::pixel_byte_v(vscale_v(sum, cam.pixel_samples_scale@).y@)
    &&& cell.2 as int == crate::pixel_byte_v(vscale_v(sum, cam.pixel_samples_scale@).z@)
}

/// Adding one more sample's colour extends a sample accumulation: the step
/// case of the accumulation relation.
proof fn lemma_pixel_sum_rel_step(
    cam: Camera,
    world: Hittable,
    i: int,
    j: int,
    n: int,
    prev: Vector,
    ray: Ray,
    c: Vector,
    sum: Vector,
)
    requires
        n >= 0,
        pixel_sum_rel(cam, world, i, j, n, prev),
        camera_ray_rel(cam, i, j, ray),
        ray_colour_rel(world, ray, cam.max_depth as int, c),
        sum.x@ == prev.x@ + c.x@,
        sum.y@ == prev.y@ + c.y@,
        sum.z@ == prev.z@ + c.z@,
    ensures
        pixel_sum_rel(cam, world, i, j, n + 1, sum),
{
    reveal_with_fuel(pixel_sum_rel, 2);
    assert(sample_witness(prev, ray, c));
    assert(pixel_sum_rel(cam, world, i, j, (n + 1) - 1, prev));
}

/// When every primary ray of a pixel returns the same colour, the pixel's
/// accumulation is exactly that colour times the sample count.
pub proof fn lemma_uniform_pixel_sum(
    cam: Camera,
    world: Hittable,
    i: int,
    j: int,
    n: int,
    sum: Vector,
    c: Vector,
)
    requires
        n >= 0,
        pixel_sum_rel(cam, world, i, j, n, sum),
        uniform_view(cam, world, i, j, c),
    ensures
        sum.x@ == n * c.x@,
        sum.y@ == n * c.y@,
        sum.z@ == n * c.z@,
    decreases n,
{
    if n <= 0 {
        assert(n * c.x@ == 0 && n * c.y@ == 0 && n * c.z@ == 0) by (nonlinear_arith)
            requires
                n == 0,
        ;
    } else {
        let (prev, ray, col): (Vector, Ray, Vector) = choose|prev: Vector, ray: Ray, col: Vector|
            {
                &&& #[trigger] sample_witness(prev, ray, col)
                &&& pixel_sum_rel(cam, world, i, j, n - 1, prev)
                &&& camera_ray_rel(cam, i, j, ray)
                &&& ray_colour_rel(world, ray, cam.max_depth as int, col)
                &&& sum.x@ == prev.x@ + col.x@
                &&& sum.y@ == prev.y@ + col.y@
                &&& sum.z@ == prev.z@ + col.z@
            };
        lemma_uniform_pixel_sum(cam, world, i, j, n - 1, prev, c);
        assert(col == c);
        assert((n - 1) * c.x@ + c.x@ == n * c.x@) by (nonlinear_arith);
        assert((n - 1) * c.y@ + c.y@ == n * c.y@) by (nonlinear_arith);
        assert((n - 1) * c.z@ + c.z@ == n * c.z@) by (nonlinear_arith);
    }
}

/// End to end: when every primary ray of a pixel returns the emitter's
/// colour, and averaging the accumulated sum recovers that colour exactly
/// (the per-sample weight times the sample count times a channel gives the
/// channel back), the rendered cell is exactly the emitter's colour after
/// gamma correction and quantization — for every sample count and every
/// generator state.
pub proof fn lemma_uniform_view_pixel(
    cam: Camera,
    world: Hittable,
    i: int,
    j: int,
    cell: (u8, u8, u8),
    c: Vector,
)
    requires
        cam.samples_per_pixel >= 1,
        quantized_pixel_rel(cam, world, i, j, cell),
        uniform_view(cam, world, i, j, c),
        fx_mul_v(cam.samples_per_pixel as int * c.x@, cam.pixel_samples_scale@) == c.x@,
        fx_mul_v(cam.samples_per_pixel as int * c.y@, cam.pixel_samples_scale@) == c.y@,
        fx_mul_v(cam.samples_per_pixel as int * c.z@, cam.pixel_samples_scale@) == c.z@,
    ensures
        cell.0 as int == crate::pixel_byte_v(c.x@),
        cell.1 as int == crate::pixel_byte_v(c.y@),
        cell.2 as int == crate::pixel_byte_v(c.z@),
{
    let sum = choose|sum: Vector|
        #[trigger] colour_witness(sum) && pixel_sum_rel(
            cam,
            world,
            i,
            j,
            cam.samples_per_pixel as int,
            sum,
        ) && quantized_cell(cam, sum, cell);
    lemma_uniform_pixel_sum(cam, world, i, j, cam.samples_per_pixel as int, sum, c);
}

/// Whether `cell` is an output pixel the renderer can produce at `(i, j)`:
/// the quantization of some accumulation of the configured number of
/// samples of that pixel.
pub open spec fn quantized_pixel_rel(
    cam: Camera,
    world: Hittable,
    i: int,
    j: int,
    cell: (u8, u8, u8),
) -> bool {
    exists|sum: Vector|
        #[trigger] colour_witness(sum) && pixel_sum_rel(
            cam,
            world,
            i,
            j,
            cam.samples_per_pixel as int,
            sum,
        ) && quantized_cell(cam, sum, cell)
}

/// A scattering hit extends a colour of the continued path into a colour of
/// the whole path: the step case of the integrator's relation.
proof fn lemma_ray_colour_rel_scatter(
    world: Hittable,
    ray: Ray,
    depth: int,
    rec: crate::hittable::HitRecord,
    rr: crate::material::RayRecord,
    scattered: Ray,
    rest: Vector,
    out: Vector,
)
    requires
        depth > 0,
        ray_ok(ray),
        world.hit_spec(ray, 66, T_LIMIT as int) == Some(rec),
        scatter_rel(rec.material, ray, rec, rr),
        rr.ray == Some(scattered),
        ray_colour_rel(world, scattered, depth - 1, rest),
        out.x@ == fx_mul_v(rr.colour.x@, rest.x@),
        out.y@ == fx_mul_v(rr.colour.y@, rest.y@),
        out.z@ == fx_mul_v(rr.colour.z@, rest.z@),
    ensures
        ray_colour_rel(world, ray, depth, out),
{
    reveal_with_fuel(ray_colour_rel, 2);
    assert(colour_witness(rest));
}

/// A path-ending hit returns the scatter attenuation outright: the terminal
/// case of the integrator's relation.
proof fn lemma_ray_colour_rel_absorb(
    world: Hittable,
    ray: Ray,
    depth: int,
    rec: crate::hittable::HitRecord,
    rr: crate::material::RayRecord,
)
    requires
        depth > 0,
        ray_ok(ray),
        world.hit_spec(ray, 66, T_LIMIT as int) == Some(rec),
        scatter_rel(rec.material, ray, rec, rr),
        rr.ray is None,
    ensures
        ray_colour_rel(world, ray, depth, rr.colour),
{
    reveal_with_fuel(ray_colour_rel, 2);
}

impl Camera {
    /// Derived state within the bounds the per-ray arithmetic needs.
    pub open spec fn wf(self) -> bool {
        &&& 1 <= self.image_width <= 16384
        &&& 1 <= self.image_height <= 32768
        &&& 1 <= self.samples_per_pixel <= 65536
        &&& 0 <= self.max_depth <= 1024
        &&& in_range(self.centre)
        &&& vbound(self.pixel00_loc, 0x400000000000)
        &&& vbound(self.pixel_delta_u, 0x200000000000)
        &&& vbound(self.pixel_delta_v, 0x200000000000)
        &&& vbound(self.defocus_disk_u, 0x10000000)
        &&& vbound(self.defocus_disk_v, 0x10000000)
        &&& 0 <= self.pixel_samples_scale@ <= 65536
    }

    #[verifier::rlimit(100)]
    #[verifier::spinoff_prover]
    pub fn new(
        aspect_ratio: Fx,
        image_width: i32,
        samples_per_pixel: i32,
        max_depth: i32,
        half_fov_tan: Fx,
        lookfrom: Point,
        lookat: Point,
        defocus_tan_half: Fx,
        focus_dist: Fx,
    ) -> (r: Camera)
        requires
            camera_params_ok(
                aspect_ratio,
                image_width,
                samples_per_pixel,
                max_depth,
                half_fov_tan,
                lookfrom,
                lookat,
                defocus_tan_half,
                focus_dist,
            ),
        ensures
            r == camera_mirror(
                aspect_ratio,
                image_width,
                samples_per_pixel,
                max_depth,
                half_fov_tan,
                lookfrom,
                lookat,
                defocus_tan_half,
                focus_dist,
            ),
            r.wf(),
            r.defocus_tan_half == defocus_tan_half,
            r.centre == lookfrom,
    {
        let wf_fx = Fx::from_int(image_width as i64);
        proof {
            crate::fx::lemma_mul_bound(wf_fx@, 65536, 0x40000000, 65536);
            crate::fx::lemma_tdiv_shrinks(wf_fx@ * 65536, aspect_ratio@);
            vstd::arithmetic::div_mod::lemma_multiply_divide_le(
                abs_i(wf_fx@ * 65536),
                aspect_ratio@,
                0x400000000,
            );
        }
        let height_fx = wf_fx.div(aspect_ratio);
        let ht = height_fx.trunc();
        let image_height: i32 = if ht < 1 {
            1
        } else {
            ht as i32
        };
        let ih_fx = Fx::from_int(image_height as i64);
        let samples_fx = Fx::from_int(samples_per_pixel as i64);
        proof {
            crate::fx::lemma_tdiv_shrinks(0x100000000, samples_fx@);
            vstd::arithmetic::div_mod::lemma_div_is_ordered_by_denominator(
                0x100000000,
                65536,
                samples_fx@,
            );
        }
        let pixel_samples_scale = Fx::one().div(samples_fx);
        proof {
            lemma_fx_mul_bound(131072, half_fov_tan@, 131072, 1048576);
            lemma_fx_mul_bound(
                fx_mul_v(131072, half_fov_tan@),
                focus_dist@,
                2097152,
                0x2000000,
            );
        }
        let viewport_height = Fx::new(2 * SCALE).mul(half_fov_tan).mul(focus_dist);
        proof {
            crate::fx::lemma_tdiv_shrinks(wf_fx@ * 65536, ih_fx@);
            vstd::arithmetic::div_mod::lemma_div_is_ordered_by_denominator(
                abs_i(wf_fx@ * 65536),
                65536,
                ih_fx@,
            );
            vstd::arithmetic::div_mod::lemma_div_is_ordered(
                abs_i(wf_fx@ * 65536),
                0x400000000000,
                65536,
            );
        }
        let wh_ratio = wf_fx.div(ih_fx);
        proof {
            lemma_fx_mul_bound(viewport_height@, wh_ratio@, 0x40000000, 0x40000000);
        }
        let viewport_width = viewport_height.mul(wh_ratio);
        let vup = Vector::new(Fx::zero(), Fx::one(), Fx::zero());
        let w = lookfrom.sub(lookat).normalize();
        proof {
            assert(vup == vup_v());
            lemma_fx_mul_bound(vup.y@, w.z@, 65536, 131072);
            lemma_fx_mul_bound(vup.z@, w.y@, 65536, 131072);
            lemma_fx_mul_bound(vup.z@, w.x@, 65536, 131072);
            lemma_fx_mul_bound(vup.x@, w.z@, 65536, 131072);
            lemma_fx_mul_bound(vup.x@, w.y@, 65536, 131072);
            lemma_fx_mul_bound(vup.y@, w.x@, 65536, 131072);
        }
        let u_raw = vup.cross(w);
        let u = u_raw.normalize();
        proof {
            lemma_fx_mul_bound(w.y@, u.z@, 131072, 131072);
            lemma_fx_mul_bound(w.z@, u.y@, 131072, 131072);
            lemma_fx_mul_bound(w.z@, u.x@, 131072, 131072);
            lemma_fx_mul_bound(w.x@, u.z@, 131072, 131072);
            lemma_fx_mul_bound(w.x@, u.y@, 131072, 131072);
            lemma_fx_mul_bound(w.y@, u.x@, 131072, 131072);
        }
        let v = w.cross(u);
        proof {
            lemma_fx_mul_bound(u.x@, viewport_width@, 131072, 0x100000000000);
            lemma_fx_mul_bound(u.y@, viewport_width@, 131072, 0x100000000000);
            lemma_fx_mul_bound(u.z@, viewport_width@, 131072, 0x100000000000);
            lemma_fx_mul_bound(-v.x@, viewport_height@, 524288, 0x40000000);
            lemma_fx_mul_bound(-v.y@, viewport_height@, 524288, 0x40000000);
            lemma_fx_mul_bound(-v.z@, viewport_height@, 524288, 0x40000000);
        }
        let viewport_u = u.scale(viewport_width);
        let viewport_v = v.neg().scale(viewport_height);
        proof {
            lemma_pdu_bound(viewport_u.x@, wf_fx@);
            lemma_pdu_bound(viewport_u.y@, wf_fx@);
            lemma_pdu_bound(viewport_u.z@, wf_fx@);
            lemma_pdu_bound(viewport_v.x@, ih_fx@);
            lemma_pdu_bound(viewport_v.y@, ih_fx@);
            lemma_pdu_bound(viewport_v.z@, ih_fx@);
        }
        let pixel_delta_u = viewport_u.div_scalar(wf_fx);
        let pixel_delta_v = viewport_v.div_scalar(ih_fx);
        proof {
            lemma_fx_mul_bound(w.x@, focus_dist@, 131072, 0x2000000);
            lemma_fx_mul_bound(w.y@, focus_dist@, 131072, 0x2000000);
            lemma_fx_mul_bound(w.z@, focus_dist@, 131072, 0x2000000);
        }
        let fw = w.scale(focus_dist);
        let vsum = viewport_u.add(viewport_v);
        let half = Fx::new(32768);
        proof {
            lemma_fx_mul_bound(vsum.x@, half@, 0x200200000000, 32768);
            lemma_fx_mul_bound(vsum.y@, half@, 0x200200000000, 32768);
            lemma_fx_mul_bound(vsum.z@, half@, 0x200200000000, 32768);
        }
        let viewport_upper_left = lookfrom.sub(fw).sub(vsum.scale(half));
        let dsum = pixel_delta_u.add(pixel_delta_v);
        proof {
            lemma_fx_mul_bound(dsum.x@, half@, 0x400000000000, 32768);
            lemma_fx_mul_bound(dsum.y@, half@, 0x400000000000, 32768);
            lemma_fx_mul_bound(dsum.z@, half@, 0x400000000000, 32768);
        }
        let pixel00_loc = viewport_upper_left.add(dsum.scale(half));
        proof {
            lemma_fx_mul_bound(focus_dist@, defocus_tan_half@, 0x2000000, 65536);
        }
        let defocus_radius = focus_dist.mul(defocus_tan_half);
        proof {
            lemma_fx_mul_bound(u.x@, defocus_radius@, 131072, 0x2000000);
            lemma_fx_mul_bound(u.y@, defocus_radius@, 131072, 0x2000000);
            lemma_fx_mul_bound(u.z@, defocus_radius@, 131072, 0x2000000);
            lemma_fx_mul_bound(v.x@, defocus_radius@, 524288, 0x2000000);
            lemma_fx_mul_bound(v.y@, defocus_radius@, 524288, 0x2000000);
            lemma_fx_mul_bound(v.z@, defocus_radius@, 524288, 0x2000000);
        }
        let defocus_disk_u = u.scale(defocus_radius);
        let defocus_disk_v = v.scale(defocus_radius);
        Camera {
            image_width,
            samples_per_pixel,
            max_depth,
            defocus_tan_half,
            image_height,
            pixel_samples_scale,
            centre: lookfrom,
            pixel00_loc,
            pixel_delta_u,
            pixel_delta_v,
            defocus_disk_u,
            defocus_disk_v,
        }
    }

    /// One random point of the defocus disk, in world space.
    fn defocus_disk_sample(&self, sampler: &mut Sampler) -> (r: Point)
        requires
            self.wf(),
        ensures
            vbound(r, 0x22000000),
            defocus_origin_rel(*self, r),
    {
        let p = random_in_unit_disk(sampler);
        proof {
            assert(disk_sample(p));
        }
        proof {
            lemma_fx_mul_bound(self.defocus_disk_u.x@, p.x@, 0x10000000, 65536);
            lemma_fx_mul_bound(self.defocus_disk_u.y@, p.x@, 0x10000000, 65536);
            lemma_fx_mul_bound(self.defocus_disk_u.z@, p.x@, 0x10000000, 65536);
            lemma_fx_mul_bound(self.defocus_disk_v.x@, p.y@, 0x10000000, 65536);
            lemma_fx_mul_bound(self.defocus_disk_v.y@, p.y@, 0x10000000, 65536);
            lemma_fx_mul_bound(self.defocus_disk_v.z@, p.y@, 0x10000000, 65536);
        }
        self.centre.add(self.defocus_disk_u.scale(p.x)).add(self.defocus_disk_v.scale(p.y))
    }

    /// The primary ray for pixel `(i, j)`: jittered inside the pixel and,
    /// with a positive aperture, starting from a random defocus-disk point.
    pub fn get_ray(&self, i: i32, j: i32, sampler: &mut Sampler) -> (r: Ray)
        requires
            self.wf(),
            0 <= i < self.image_width,
            0 <= j < self.image_height,
        ensures
            self.defocus_tan_half@ <= 0 ==> r.origin == self.centre,
            camera_ray_rel(*self, i as int, j as int, r),
    {
        let ox = sampler.next_jitter();
        let oy = sampler.next_jitter();
        let i_fx = Fx::from_int(i as i64);
        let j_fx = Fx::from_int(j as i64);
        let si = i_fx.add(ox);
        let sj = j_fx.add(oy);
        proof {
            lemma_fx_mul_bound(self.pixel_delta_u.x@, si@, 0x200000000000, 0x40010000);
            lemma_fx_mul_bound(self.pixel_delta_u.y@, si@, 0x200000000000, 0x40010000);
            lemma_fx_mul_bound(self.pixel_delta_u.z@, si@, 0x200000000000, 0x40010000);
            lemma_fx_mul_bound(self.pixel_delta_v.x@, sj@, 0x200000000000, 0x200010000);
            lemma_fx_mul_bound(self.pixel_delta_v.y@, sj@, 0x200000000000, 0x200010000);
            lemma_fx_mul_bound(self.pixel_delta_v.z@, sj@, 0x200000000000, 0x200010000);
        }
        let du = self.pixel_delta_u.scale(si);
        let dv = self.pixel_delta_v.scale(sj);
        let pixel = self.pixel00_loc.add(du).add(dv);
        let origin = if self.defocus_tan_half.raw <= 0 {
            self.centre
        } else {
            self.defocus_disk_sample(sampler)
        };
        let direction = pixel.sub(origin);
        proof {
            assert(pixel == pixel_spec(*self, i as int, j as int, ox@, oy@));
            assert(-32768 <= ox@ < 32768 && -32768 <= oy@ < 32768 && direction == vsub_v(
                pixel_spec(*self, i as int, j as int, ox@, oy@),
                origin,
            ));
        }
        Ray::new(origin, direction)
    }

    /// Colour carried back along a ray: black once the recursion budget is
    /// spent or the ray is degenerate, the scatter of the nearest hit
    /// attenuating the colour of the continued path, an emitter's colour as
    /// a terminal contribution, and the sky gradient on a miss.
    pub fn ray_colour(
        &self,
        ray: &Ray,
        world: &Hittable,
        depth: i32,
        sampler: &mut Sampler,
    ) -> (r: Colour)
        requires
            world.wf(),
        ensures
            vbound(r, 262144),
            ray_colour_rel(*world, *ray, depth as int, r),
            depth <= 0 ==> r.x@ == 0 && r.y@ == 0 && r.z@ == 0,
            depth > 0 && !ray_ok(*ray) ==> r.x@ == 0 && r.y@ == 0 && r.z@ == 0,
            depth > 0 && ray_ok(*ray) ==> match world.hit_spec(*ray, 66, T_LIMIT as int) {
                Some(rec) => match rec.material {
                    Material::Light(l) => r == l.albedo,
                    Material::Lambertian(m) => true,
                    Material::Metal(m) => true,
                    Material::Dielectric(m) => true,
                },
                None => r == sky_v(ray.direction),
            },
        decreases depth,
    {
        if depth <= 0 {
            return Vector::new(Fx::zero(), Fx::zero(), Fx::zero());
        }
        if !(crate::vector::check_in_range(ray.origin) && crate::vector::check_in_range(
            ray.direction,
        )) {
            return Vector::new(Fx::zero(), Fx::zero(), Fx::zero());
        }
        let m2 = ray.direction.magnitude2();
        if m2.raw < 1 {
            return Vector::new(Fx::zero(), Fx::zero(), Fx::zero());
        }
        match world.hit(ray, Interval::new(Fx::new(66), Fx::new(T_LIMIT))) {
            Some(rec) => {
                proof {
                    match world {
                        Hittable::Sphere(s) => {},
                        Hittable::List(l) => {
                            crate::hittable_list::lemma_list_hit_wf(
                                l.objects@,
                                *ray,
                                66,
                                T_LIMIT as int,
                            );
                        },
                    }
                }
                let ray_record = rec.material.scatter(ray, &rec, sampler);
                proof {
                    assert(0 <= ray_record.colour.x@ <= 65536 && 0 <= ray_record.colour.y@
                        <= 65536 && 0 <= ray_record.colour.z@ <= 65536);
                }
                match ray_record.ray {
                    Some(scattered) => {
                        let rest = self.ray_colour(&scattered, world, depth - 1, sampler);
                        proof {
                            lemma_fx_mul_bound(ray_record.colour.x@, rest.x@, 65536, 262144);
                            lemma_fx_mul_bound(ray_record.colour.y@, rest.y@, 65536, 262144);
                            lemma_fx_mul_bound(ray_record.colour.z@, rest.z@, 65536, 262144);
                        }
                        let out = ray_record.colour.mul_element_wise(rest);
                        proof {
                            assert(scatter_rel(rec.material, *ray, rec, ray_record));
                            lemma_ray_colour_rel_scatter(
                                *world,
                                *ray,
                                depth as int,
                                rec,
                                ray_record,
                                scattered,
                                rest,
                                out,
                            );
                        }
                        out
                    },
                    None => {
                        proof {
                            assert(scatter_rel(rec.material, *ray, rec, ray_record));
                            lemma_ray_colour_rel_absorb(
                                *world,
                                *ray,
                                depth as int,
                                rec,
                                ray_record,
                            );
                        }
                        ray_record.colour
                    },
                }
            },
            None => {
                let unit_direction = ray.direction.normalize();
                let a = Fx::new(32768).mul(unit_direction.y.add(Fx::one()));
                proof {
                    lemma_fx_mul_bound(32768, unit_direction.y@ + 65536, 32768, 196608);
                    lemma_fx_mul_bound(65536, 65536 - a@, 65536, 163840);
                    lemma_fx_mul_bound(32768, a@, 65536, 98304);
                    lemma_fx_mul_bound(45875, a@, 65536, 98304);
                    lemma_fx_mul_bound(65536, a@, 65536, 98304);
                }
                let white = Vector::new(Fx::one(), Fx::one(), Fx::one());
                let blue = Vector::new(Fx::new(32768), Fx::new(45875), Fx::new(65536));
                let out = white.scale(Fx::one().sub(a)).add(blue.scale(a));
                proof {
                    assert(white == white_v());
                    assert(blue == sky_blue_v());
                    assert(out == sky_v(ray.direction));
                }
                out
            },
        }
    }

    /// Accumulated (un-averaged) sample sums for the rows `row_start` up to
    /// `row_end`: the row-chunk a worker renders.
    pub fn render_rows(
        &self,
        world: &Hittable,
        row_start: i32,
        row_end: i32,
        sampler: &mut Sampler,
    ) -> (r: Vec<Vec<Colour>>)
        requires
            self.wf(),
            world.wf(),
            0 <= row_start <= row_end <= self.image_height,
        ensures
            r@.len() == row_end - row_start,
            forall|k: int| 0 <= k < r@.len() ==> (#[trigger] r@[k])@.len() == self.image_width,
            forall|k: int, l: int|
                0 <= k < r@.len() && 0 <= l < self.image_width ==> vbound(
                    #[trigger] r@[k]@[l],
                    0x400000000,
                ),
            forall|k: int, l: int|
                0 <= k < r@.len() && 0 <= l < self.image_width ==> pixel_sum_rel(
                    *self,
                    *world,
                    l,
                    row_start + k,
                    self.samples_per_pixel as int,
                    #[trigger] r@[k]@[l],
                ),
    {
        let mut rows: Vec<Vec<Colour>> = Vec::new();
        let mut j = row_start;
        while j < row_end
            invariant
                self.wf(),
                world.wf(),
                0 <= row_start <= j <= row_end <= self.image_height,
                rows@.len() == j - row_start,
                forall|k: int|
                    0 <= k < rows@.len() ==> (#[trigger] rows@[k])@.len() == self.image_width,
                forall|k: int, l: int|
                    0 <= k < rows@.len() && 0 <= l < self.image_width ==> vbound(
                        #[trigger] rows@[k]@[l],
                        0x400000000,
                    ),
                forall|k: int, l: int|
                    0 <= k < rows@.len() && 0 <= l < self.image_width ==> pixel_sum_rel(
                        *self,
                        *world,
                        l,
                        row_start + k,
                        self.samples_per_pixel as int,
                        #[trigger] rows@[k]@[l],
                    ),
            decreases row_end - j,
        {
            let mut row: Vec<Colour> = Vec::new();
            let mut i: i32 = 0;
            while i < self.image_width
                invariant
                    self.wf(),
                    world.wf(),
                    0 <= row_start <= j < self.image_height,
                    0 <= i <= self.image_width,
                    row@.len() == i,
                    forall|l: int| 0 <= l < row@.len() ==> vbound(#[trigger] row@[l], 0x400000000),
                    forall|l: int|
                        0 <= l < row@.len() ==> pixel_sum_rel(
                            *self,
                            *world,
                            l,
                            j as int,
                            self.samples_per_pixel as int,
                            #[trigger] row@[l],
                        ),
                decreases self.image_width - i,
            {
                let mut sum = Vector::new(Fx::zero(), Fx::zero(), Fx::zero());
                let mut s: i32 = 0;
                while s < self.samples_per_pixel
                    invariant
                        self.wf(),
                        world.wf(),
                        0 <= row_start <= j < self.image_height,
                        0 <= i < self.image_width,
                        0 <= s <= self.samples_per_pixel,
                        vbound(sum, s * 262144),
                        pixel_sum_rel(*self, *world, i as int, j as int, s as int, sum),
                    decreases self.samples_per_pixel - s,
                {
                    let cur_ray = self.get_ray(i, j, sampler);
                    let cur_colour = self.ray_colour(&cur_ray, world, self.max_depth, sampler);
                    let ghost prev_sum = sum;
                    sum = sum.add(cur_colour);
                    proof {
                        lemma_pixel_sum_rel_step(
                            *self,
                            *world,
                            i as int,
                            j as int,
                            s as int,
                            prev_sum,
                            cur_ray,
                            cur_colour,
                            sum,
                        );
                    }
                    s = s + 1;
                }
                row.push(sum);
                i = i + 1;
            }
            rows.push(row);
            j = j + 1;
        }
        rows
    }

    /// The full image, rendered one row at a time: each cell is the average
    /// of the pixel's samples, gamma corrected, clamped and quantized to
    /// 8-bit channels.
    pub fn render(&self, world: &Hittable, sampler: &mut Sampler) -> (r: Vec<Vec<(u8, u8, u8)>>)
        requires
            self.wf(),
            world.wf(),
        ensures
            r@.len() == self.image_height,
            forall|k: int| 0 <= k < r@.len() ==> (#[trigger] r@[k])@.len() == self.image_width,
            forall|k: int, l: int|
                0 <= k < r@.len() && 0 <= l < self.image_width ==> quantized_pixel_rel(
                    *self,
                    *world,
                    l,
                    k,
                    #[trigger] r@[k]@[l],
                ),
    {
        let rows = self.render_rows(world, 0, self.image_height, sampler);
        let mut out: Vec<Vec<(u8, u8, u8)>> = Vec::new();
        let mut j: usize = 0;
        while j < rows.len()
            invariant
                self.wf(),
                rows@.len() == self.image_height,
                forall|k: int|
                    0 <= k < rows@.len() ==> (#[trigger] rows@[k])@.len() == self.image_width,
                forall|k: int, l: int|
                    0 <= k < rows@.len() && 0 <= l < self.image_width ==> vbound(
                        #[trigger] rows@[k]@[l],
                        0x400000000,
                    ),
                forall|k: int, l: int|
                    0 <= k < rows@.len() && 0 <= l < self.image_width ==> pixel_sum_rel(
                        *self,
                        *world,
                        l,
                        k,
                        self.samples_per_pixel as int,
                        #[trigger] rows@[k]@[l],
                    ),
                0 <= j <= rows@.len(),
                out@.len() == j,
                forall|k: int| 0 <= k < out@.len() ==> (#[trigger] out@[k])@.len() == self.image_width,
                forall|k: int, l: int|
                    0 <= k < out@.len() && 0 <= l < self.image_width ==> quantized_pixel_rel(
                        *self,
                        *world,
                        l,
                        k,
                        #[trigger] out@[k]@[l],
                    ),
            decreases rows@.len() - j,
        {
            let row = &rows[j];
            let mut out_row: Vec<(u8, u8, u8)> = Vec::new();
            let mut i: usize = 0;
            while i < row.len()
                invariant
                    self.wf(),
                    row@.len() == self.image_width,
                    forall|l: int| 0 <= l < row@.len() ==> vbound(#[trigger] row@[l], 0x400000000),
                    forall|l: int|
                        0 <= l < row@.len() ==> pixel_sum_rel(
                            *self,
                            *world,
                            l,
                            j as int,
                            self.samples_per_pixel as int,
                            #[trigger] row@[l],
                        ),
                    0 <= i <= row@.len(),
                    out_row@.len() == i,
                    forall|l: int|
                        0 <= l < out_row@.len() ==> quantized_pixel_rel(
                            *self,
                            *world,
                            l,
                            j as int,
                            #[trigger] out_row@[l],
                        ),
                decreases row@.len() - i,
            {
                let sum = row[i];
                proof {
                    lemma_fx_mul_bound(sum.x@, self.pixel_samples_scale@, 0x400000000, 65536);
                    lemma_fx_mul_bound(sum.y@, self.pixel_samples_scale@, 0x400000000, 65536);
                    lemma_fx_mul_bound(sum.z@, self.pixel_samples_scale@, 0x400000000, 65536);
                }
                let mean = sum.scale(self.pixel_samples_scale);
                let cell = crate::get_colour_from_pixel(mean);
                proof {
                    assert(quantized_cell(*self, sum, cell));
                    assert(pixel_sum_rel(
                        *self,
                        *world,
                        i as int,
                        j as int,
                        self.samples_per_pixel as int,
                        sum,
                    ));
                    assert(colour_witness(sum));
                    assert(quantized_pixel_rel(*self, *world, i as int, j as int, cell));
                }
                out_row.push(cell);
                i = i + 1;
            }
            out.push(out_row);
            j = j + 1;
        }
        out
    }
}

/// A random point strictly inside the unit disk of the `x`-`y` plane, by
/// rejection sampling with a bounded number of draws; the centre stands in
/// when every draw lands outside (the draws land inside about three times
/// out of four each).
pub fn random_in_unit_disk(sampler: &mut Sampler) -> (r: Vector)
    ensures
        abs_i(r.x@) <= 65536,
        abs_i(r.y@) <= 65536,
        r.z@ == 0,
        mag2_v(r) < 65536,
{
    let mut k: u32 = 0;
    while k < 64
        invariant
            true,
        decreases 64 - k,
    {
        let p = Vector::new(
            sampler.next_symmetric_unit(),
            sampler.next_symmetric_unit(),
            Fx::zero(),
        );
        let m2 = p.magnitude2();
        if m2.raw < SCALE {
            return p;
        }
        k = k + 1;
    }
    let centre = Vector::new(Fx::zero(), Fx::zero(), Fx::zero());
    proof {
        crate::fx::lemma_tdiv_shrinks(0, 65536);
    }
    centre
}

/// Dividing a viewport edge by the pixel count of its axis never grows a
/// component: the divisor is at least one unit.
proof fn lemma_pdu_bound(comp: int, q: int)
    requires
        abs_i(comp) <= 0x200000000000,
        65536 <= q,
    ensures
        crate::fx::fits_i64(fx_div_v(comp, q)),
        abs_i(fx_div_v(comp, q)) <= 0x200000000000,
{
    crate::fx::lemma_mul_bound(comp, 65536, 0x200000000000, 65536);
    crate::fx::lemma_tdiv_shrinks(comp * 65536, q);
    vstd::arithmetic::div_mod::lemma_div_is_ordered_by_denominator(
        abs_i(comp * 65536),
        65536,
        q,
    );
    vstd::arithmetic::div_mod::lemma_div_multiples_vanish(abs_i(comp), 65536);
    assert(abs_i(comp * 65536) == 65536 * abs_i(comp));
}

} // verus!
