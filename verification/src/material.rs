use vstd::prelude::*;

use crate::fx::{abs_i, fx_div_v, fx_mul_v, fx_sqrt, fx_sqrt_v, Fx, SCALE};
use crate::hittable::HitRecord;
use crate::ray::Ray;
use crate::rng::Sampler;
use crate::vector::{
    dot, dot_v, in_range, lemma_fx_mul_bound, lemma_mag2_bounds, mag2_v, Vector,
};

verus! {

/// What a material's scatter produces: an attenuation colour, and the
/// outgoing ray if the path goes on.
pub struct RayRecord {
    pub colour: Vector,
    pub ray: Option<Ray>,
}

impl RayRecord {
    fn new(colour: Vector, ray: Option<Ray>) -> (r: RayRecord)
        ensures
            r.colour == colour && r.ray == ray,
    {
        RayRecord { colour, ray }
    }
}

/// All components are at most two units in magnitude: what a surface normal
/// or a normalized direction looks like, with slack for rounding.
pub open spec fn near_unit(v: Vector) -> bool {
    &&& abs_i(v.x@) <= 2 * (SCALE as int)
    &&& abs_i(v.y@) <= 2 * (SCALE as int)
    &&& abs_i(v.z@) <= 2 * (SCALE as int)
}

/// All components round to zero at this precision: the degenerate-direction
/// test.
pub open spec fn near_zero_v(v: Vector) -> bool {
    v.x@ == 0 && v.y@ == 0 && v.z@ == 0
}

/// True when every component is exactly zero, the only values below the
/// degeneracy threshold at this precision.
pub fn near_zero(vec: Vector) -> (r: bool)
    ensures
        r == near_zero_v(vec),
{
    vec.x.raw == 0 && vec.y.raw == 0 && vec.z.raw == 0
}

/// Raw components of the mirror direction `v - n * 2 * dot(v, n)`.
pub open spec fn reflect_x(v: Vector, n: Vector) -> int {
    v.x@ - fx_mul_v(fx_mul_v(n.x@, 2 * (SCALE as int)), dot_v(v, n))
}

pub open spec fn reflect_y(v: Vector, n: Vector) -> int {
    v.y@ - fx_mul_v(fx_mul_v(n.y@, 2 * (SCALE as int)), dot_v(v, n))
}

pub open spec fn reflect_z(v: Vector, n: Vector) -> int {
    v.z@ - fx_mul_v(fx_mul_v(n.z@, 2 * (SCALE as int)), dot_v(v, n))
}

/// Mirror reflection about a surface normal.
pub fn reflect(v: Vector, n: Vector) -> (r: Vector)
    requires
        in_range(v),
        in_range(n),
    ensures
        r.x@ == reflect_x(v, n),
        r.y@ == reflect_y(v, n),
        r.z@ == reflect_z(v, n),
{
    let d = dot(v, n);
    let two = Fx::new(2 * SCALE);
    proof {
        lemma_fx_mul_bound(n.x@, two@, 0x2000000, 131072);
        lemma_fx_mul_bound(n.y@, two@, 0x2000000, 131072);
        lemma_fx_mul_bound(n.z@, two@, 0x2000000, 131072);
        lemma_fx_mul_bound(fx_mul_v(n.x@, two@), d@, 0x4000000, 0x3000000000);
        lemma_fx_mul_bound(fx_mul_v(n.y@, two@), d@, 0x4000000, 0x3000000000);
        lemma_fx_mul_bound(fx_mul_v(n.z@, two@), d@, 0x4000000, 0x3000000000);
    }
    let scaled = n.scale(two).scale(d);
    Vector { x: v.x.sub(scaled.x), y: v.y.sub(scaled.y), z: v.z.sub(scaled.z) }
}

/// Reflection is elastic: about an exactly unit normal, and where the
/// scaled products involved divide evenly (so no rounding occurs), the
/// reflected vector has exactly the squared magnitude of the incoming one.
/// Axis-aligned unit normals satisfy every hypothesis for all vectors.
pub proof fn lemma_reflect_preserves_magnitude(v: Vector, n: Vector)
    requires
        n.x@ * n.x@ + n.y@ * n.y@ + n.z@ * n.z@ == 65536 * 65536,
        (v.x@ * n.x@) % 65536 == 0,
        (v.y@ * n.y@) % 65536 == 0,
        (v.z@ * n.z@) % 65536 == 0,
        (2 * n.x@ * dot_v(v, n)) % 65536 == 0,
        (2 * n.y@ * dot_v(v, n)) % 65536 == 0,
        (2 * n.z@ * dot_v(v, n)) % 65536 == 0,
    ensures
        reflect_x(v, n) * reflect_x(v, n) + reflect_y(v, n) * reflect_y(v, n) + reflect_z(v, n)
            * reflect_z(v, n) == v.x@ * v.x@ + v.y@ * v.y@ + v.z@ * v.z@,
{
    let s = 65536int;
    crate::fx::lemma_tdiv_exact(v.x@ * n.x@, s);
    crate::fx::lemma_tdiv_exact(v.y@ * n.y@, s);
    crate::fx::lemma_tdiv_exact(v.z@ * n.z@, s);
    let d = dot_v(v, n);
    assert(s * d == v.x@ * n.x@ + v.y@ * n.y@ + v.z@ * n.z@);
    crate::fx::lemma_tdiv_of_multiple(2 * n.x@, s);
    crate::fx::lemma_tdiv_of_multiple(2 * n.y@, s);
    crate::fx::lemma_tdiv_of_multiple(2 * n.z@, s);
    assert(fx_mul_v(n.x@, 2 * s) == 2 * n.x@) by {
        assert(n.x@ * (2 * s) == (2 * n.x@) * s) by (nonlinear_arith);
    }
    assert(fx_mul_v(n.y@, 2 * s) == 2 * n.y@) by {
        assert(n.y@ * (2 * s) == (2 * n.y@) * s) by (nonlinear_arith);
    }
    assert(fx_mul_v(n.z@, 2 * s) == 2 * n.z@) by {
        assert(n.z@ * (2 * s) == (2 * n.z@) * s) by (nonlinear_arith);
    }
    crate::fx::lemma_tdiv_exact(2 * n.x@ * d, s);
    crate::fx::lemma_tdiv_exact(2 * n.y@ * d, s);
    crate::fx::lemma_tdiv_exact(2 * n.z@ * d, s);
    let kx = fx_mul_v(2 * n.x@, d);
    let ky = fx_mul_v(2 * n.y@, d);
    let kz = fx_mul_v(2 * n.z@, d);
    assert(s * kx == 2 * n.x@ * d) by {
        assert((2 * n.x@) * d == 2 * n.x@ * d) by (nonlinear_arith);
    }
    assert(s * ky == 2 * n.y@ * d) by {
        assert((2 * n.y@) * d == 2 * n.y@ * d) by (nonlinear_arith);
    }
    assert(s * kz == 2 * n.z@ * d) by {
        assert((2 * n.z@) * d == 2 * n.z@ * d) by (nonlinear_arith);
    }
    assert(reflect_x(v, n) == v.x@ - kx);
    assert(reflect_y(v, n) == v.y@ - ky);
    assert(reflect_z(v, n) == v.z@ - kz);
    let dd = d * d;
    assert(65536 * (v.x@ * kx) == 2 * ((v.x@ * n.x@) * d)) by (nonlinear_arith)
        requires
            65536 * kx == 2 * n.x@ * d,
    ;
    assert(65536 * (v.y@ * ky) == 2 * ((v.y@ * n.y@) * d)) by (nonlinear_arith)
        requires
            65536 * ky == 2 * n.y@ * d,
    ;
    assert(65536 * (v.z@ * kz) == 2 * ((v.z@ * n.z@) * d)) by (nonlinear_arith)
        requires
            65536 * kz == 2 * n.z@ * d,
    ;
    assert((v.x@ * n.x@) * d + (v.y@ * n.y@) * d + (v.z@ * n.z@) * d == (v.x@ * n.x@ + v.y@
        * n.y@ + v.z@ * n.z@) * d) by (nonlinear_arith);
    assert((65536 * d) * d == 65536 * dd) by (nonlinear_arith)
        requires
            dd == d * d,
    ;
    assert(v.x@ * kx + v.y@ * ky + v.z@ * kz == 2 * dd);
    assert(65536 * (65536 * (kx * kx)) == 4 * ((n.x@ * n.x@) * dd)) by (nonlinear_arith)
        requires
            65536 * kx == 2 * n.x@ * d,
            dd == d * d,
    ;
    assert(65536 * (65536 * (ky * ky)) == 4 * ((n.y@ * n.y@) * dd)) by (nonlinear_arith)
        requires
            65536 * ky == 2 * n.y@ * d,
            dd == d * d,
    ;
    assert(65536 * (65536 * (kz * kz)) == 4 * ((n.z@ * n.z@) * dd)) by (nonlinear_arith)
        requires
            65536 * kz == 2 * n.z@ * d,
            dd == d * d,
    ;
    assert((n.x@ * n.x@) * dd + (n.y@ * n.y@) * dd + (n.z@ * n.z@) * dd == (n.x@ * n.x@ + n.y@
        * n.y@ + n.z@ * n.z@) * dd) by (nonlinear_arith);
    assert((65536 * 65536) * dd == 65536 * (65536 * dd)) by (nonlinear_arith);
    assert(kx * kx + ky * ky + kz * kz == 4 * dd);
    assert((v.x@ - kx) * (v.x@ - kx) + (v.y@ - ky) * (v.y@ - ky) + (v.z@ - kz) * (v.z@ - kz)
        == v.x@ * v.x@ + v.y@ * v.y@ + v.z@ * v.z@) by (nonlinear_arith)
        requires
            v.x@ * kx + v.y@ * ky + v.z@ * kz == 2 * dd,
            kx * kx + ky * ky + kz * kz == 4 * dd,
    ;
}

/// Raw cosine used by refraction: `min(dot(-v, n), 1)`.
pub open spec fn refract_cos(v: Vector, n: Vector) -> int {
    let d = fx_mul_v(-v.x@, n.x@) + fx_mul_v(-v.y@, n.y@) + fx_mul_v(-v.z@, n.z@);
    if d < SCALE as int {
        d
    } else {
        SCALE as int
    }
}

/// Raw components of the transmitted ray's part perpendicular to the normal.
pub open spec fn refract_perp_x(v: Vector, n: Vector, eta: int) -> int {
    fx_mul_v(v.x@ + fx_mul_v(n.x@, refract_cos(v, n)), eta)
}

pub open spec fn refract_perp_y(v: Vector, n: Vector, eta: int) -> int {
    fx_mul_v(v.y@ + fx_mul_v(n.y@, refract_cos(v, n)), eta)
}

pub open spec fn refract_perp_z(v: Vector, n: Vector, eta: int) -> int {
    fx_mul_v(v.z@ + fx_mul_v(n.z@, refract_cos(v, n)), eta)
}

/// Raw scale of the transmitted ray's part parallel to the normal.
pub open spec fn refract_par(v: Vector, n: Vector, eta: int) -> int {
    let m2 = fx_mul_v(refract_perp_x(v, n, eta), refract_perp_x(v, n, eta)) + fx_mul_v(
        refract_perp_y(v, n, eta),
        refract_perp_y(v, n, eta),
    ) + fx_mul_v(refract_perp_z(v, n, eta), refract_perp_z(v, n, eta));
    -fx_sqrt_v(abs_i(SCALE as int - m2))
}

/// Transmitted direction by Snell's law, for a unit incident direction `v`,
/// unit normal `n` and index ratio `eta`; the caller rules out total internal
/// reflection first.
pub fn refract(v: Vector, n: Vector, eta: Fx) -> (r: Vector)
    requires
        near_unit(v),
        near_unit(n),
        0 <= eta@ <= 4 * (SCALE as int),
    ensures
        r.x@ == refract_perp_x(v, n, eta@) + fx_mul_v(n.x@, refract_par(v, n, eta@)),
        r.y@ == refract_perp_y(v, n, eta@) + fx_mul_v(n.y@, refract_par(v, n, eta@)),
        r.z@ == refract_perp_z(v, n, eta@) + fx_mul_v(n.z@, refract_par(v, n, eta@)),
{
    let ghost s: int = SCALE as int;
    proof {
        lemma_fx_mul_bound(-v.x@, n.x@, 131072, 131072);
        lemma_fx_mul_bound(-v.y@, n.y@, 131072, 131072);
        lemma_fx_mul_bound(-v.z@, n.z@, 131072, 131072);
    }
    let minus_v = v.neg();
    let d = dot(minus_v, n);
    let one = Fx::one();
    let cos_theta = if d.lt(one) {
        d
    } else {
        one
    };
    proof {
        assert(cos_theta@ == refract_cos(v, n));
        assert(abs_i(cos_theta@) <= 12 * s);
        lemma_fx_mul_bound(n.x@, cos_theta@, 131072, 786432);
        lemma_fx_mul_bound(n.y@, cos_theta@, 131072, 786432);
        lemma_fx_mul_bound(n.z@, cos_theta@, 131072, 786432);
        lemma_fx_mul_bound(v.x@ + fx_mul_v(n.x@, cos_theta@), eta@, 1703936, 262144);
        lemma_fx_mul_bound(v.y@ + fx_mul_v(n.y@, cos_theta@), eta@, 1703936, 262144);
        lemma_fx_mul_bound(v.z@ + fx_mul_v(n.z@, cos_theta@), eta@, 1703936, 262144);
    }
    let r_out_perp = v.add(n.scale(cos_theta)).scale(eta);
    proof {
        lemma_mag2_bounds(r_out_perp);
        lemma_fx_mul_bound(r_out_perp.x@, r_out_perp.x@, 6815744, 6815744);
        lemma_fx_mul_bound(r_out_perp.y@, r_out_perp.y@, 6815744, 6815744);
        lemma_fx_mul_bound(r_out_perp.z@, r_out_perp.z@, 6815744, 6815744);
    }
    let m2 = r_out_perp.magnitude2();
    let gap = Fx::one().sub(m2);
    let gap_abs = if gap.raw >= 0 {
        gap
    } else {
        gap.neg()
    };
    let par_scale = fx_sqrt(gap_abs).neg();
    proof {
        assert(par_scale@ == refract_par(v, n, eta@));
        assert(abs_i(gap_abs@) <= 32448 * s + s);
        assert(fx_sqrt_v(gap_abs@) * fx_sqrt_v(gap_abs@) <= gap_abs@ * s);
        assert(abs_i(par_scale@) <= 0x4000000) by (nonlinear_arith)
            requires
                par_scale@ == -fx_sqrt_v(gap_abs@),
                fx_sqrt_v(gap_abs@) >= 0,
                fx_sqrt_v(gap_abs@) * fx_sqrt_v(gap_abs@) <= gap_abs@ * s,
                abs_i(gap_abs@) <= 32449 * s,
                s == 65536,
        ;
        lemma_fx_mul_bound(n.x@, par_scale@, 131072, 0x4000000);
        lemma_fx_mul_bound(n.y@, par_scale@, 131072, 0x4000000);
        lemma_fx_mul_bound(n.z@, par_scale@, 131072, 0x4000000);
    }
    let r_out_parallel = n.scale(par_scale);
    r_out_perp.add(r_out_parallel)
}

/// Raw Schlick reflectance: `r0 + (1 - r0) * (1 - cos)^5` with
/// `r0 = ((1 - ri) / (1 + ri))^2`.
pub open spec fn reflectance_v(cosine: int, ri: int) -> int {
    let s = SCALE as int;
    let r0 = fx_div_v(s - ri, s + ri);
    let r0sq = fx_mul_v(r0, r0);
    let c = s - cosine;
    let c2 = fx_mul_v(c, c);
    let c4 = fx_mul_v(c2, c2);
    let c5 = fx_mul_v(c4, c);
    r0sq + fx_mul_v(s - r0sq, c5)
}

/// Schlick's approximation of the reflection probability at an interface.
pub fn reflectance(cosine: Fx, ri: Fx) -> (r: Fx)
    requires
        abs_i(cosine@) <= 16 * (SCALE as int),
        (SCALE as int) / 4 <= ri@ <= 4 * (SCALE as int),
    ensures
        r@ == reflectance_v(cosine@, ri@),
{
    let ghost s: int = SCALE as int;
    proof {
        crate::fx::lemma_tdiv_shrinks((s - ri@) * s, s + ri@);
        crate::fx::lemma_mul_bound(s - ri@, s, 3 * s, s);
        assert(3 * s * s <= (s + ri@) * (3 * s)) by (nonlinear_arith)
            requires
                s == 65536,
                ri@ >= 0,
        ;
        vstd::arithmetic::div_mod::lemma_multiply_divide_le(
            abs_i((s - ri@) * s),
            s + ri@,
            3 * s,
        );
    }
    let r0 = Fx::one().sub(ri).div(Fx::one().add(ri));
    proof {
        assert(abs_i(r0@) <= 3 * s);
        lemma_fx_mul_bound(r0@, r0@, 3 * s, 3 * s);
    }
    let r0sq = r0.mul(r0);
    let c = Fx::one().sub(cosine);
    proof {
        assert(abs_i(c@) <= 17 * s);
        lemma_fx_mul_bound(c@, c@, 17 * s, 17 * s);
        lemma_fx_mul_bound(fx_mul_v(c@, c@), fx_mul_v(c@, c@), 289 * s, 289 * s);
        lemma_fx_mul_bound(
            fx_mul_v(fx_mul_v(c@, c@), fx_mul_v(c@, c@)),
            c@,
            83521 * s,
            17 * s,
        );
        lemma_fx_mul_bound(
            s - fx_mul_v(r0@, r0@),
            fx_mul_v(
                fx_mul_v(fx_mul_v(c@, c@), fx_mul_v(c@, c@)),
                c@,
            ),
            10 * s,
            1419857 * s,
        );
    }
    let c2 = c.mul(c);
    let c4 = c2.mul(c2);
    let c5 = c4.mul(c);
    r0sq.add(Fx::one().sub(r0sq).mul(c5))
}

/// A cube draw that landed strictly inside the unit sphere without
/// degenerating: what rejection sampling accepts before normalizing.
pub open spec fn sphere_sample(v: Vector) -> bool {
    &&& abs_i(v.x@) <= SCALE as int
    &&& abs_i(v.y@) <= SCALE as int
    &&& abs_i(v.z@) <= SCALE as int
    &&& 1 <= mag2_v(v) < SCALE as int
}

/// What `random_unit_vector` can return: the normalization of an accepted
/// unit-sphere sample, or the vertical axis when every draw was rejected.
pub open spec fn unit_sample_rel(r: Vector) -> bool {
    ||| r == (Vector { x: Fx { raw: 0 }, y: Fx { raw: 65536 }, z: Fx { raw: 0 } })
    ||| exists|v: Vector| #[trigger] sphere_sample(v) && r == crate::vector::unit_of(v)
}

/// A unit-length direction: rejection-sample a point of the cube until one
/// lands inside the unit sphere, then normalize it.  The number of draws is
/// bounded (each lands inside about half the time); the vertical axis stands
/// in if every draw is rejected.
pub fn random_unit_vector(sampler: &mut Sampler) -> (r: Vector)
    ensures
        near_unit(r),
        !near_zero_v(r),
        unit_sample_rel(r),
{
    let mut k: u32 = 0;
    while k < 64
        invariant
            true,
        decreases 64 - k,
    {
        let v = Vector::new(
            sampler.next_symmetric_unit(),
            sampler.next_symmetric_unit(),
            sampler.next_symmetric_unit(),
        );
        let m2 = v.magnitude2();
        if 1 <= m2.raw && m2.raw < SCALE {
            let u = v.normalize();
            proof {
                assert(sphere_sample(v));
            }
            return u;
        }
        k = k + 1;
    }
    Vector::new(Fx::zero(), Fx::one(), Fx::zero())
}

/// A diffuse surface: scatters about the normal, attenuating by its albedo.
#[derive(Clone, Copy)]
pub struct Lambertian {
    pub albedo: Vector,
}

/// A reflective surface with a fuzz factor perturbing the mirror direction.
#[derive(Clone, Copy)]
pub struct Metal {
    pub albedo: Vector,
    pub fuzz: Fx,
}

/// A transparent surface refracting by Snell's law, choosing reflection by
/// Schlick's approximation.
#[derive(Clone, Copy)]
pub struct Dielectric {
    pub refraction_index: Fx,
}

/// A surface that emits its colour and ends the path.
#[derive(Clone, Copy)]
pub struct Light {
    pub albedo: Vector,
}

impl Lambertian {
    pub fn new(albedo: Vector) -> (r: Lambertian)
        ensures
            r.albedo == albedo,
    {
        Lambertian { albedo }
    }
}

impl Metal {
    pub fn new(albedo: Vector, fuzz: Fx) -> (r: Metal)
        requires
            0 <= fuzz@ <= SCALE as int,
        ensures
            r.albedo == albedo && r.fuzz == fuzz,
    {
        Metal { albedo, fuzz }
    }
}

impl Dielectric {
    pub fn new(refraction_index: Fx) -> (r: Dielectric)
        requires
            (SCALE as int) / 4 <= refraction_index@ <= 4 * (SCALE as int),
        ensures
            r.refraction_index == refraction_index,
    {
        Dielectric { refraction_index }
    }
}

impl Light {
    pub fn new(albedo: Vector) -> (r: Light)
        ensures
            r.albedo == albedo,
    {
        Light { albedo }
    }
}

/// The closed set of material behaviours, dispatched by a single match.
#[derive(Clone, Copy)]
pub enum Material {
    Lambertian(Lambertian),
    Metal(Metal),
    Dielectric(Dielectric),
    Light(Light),
}

/// All channels of a colour lie in `[0, 1]`.
pub open spec fn colour_ok(c: Vector) -> bool {
    &&& 0 <= c.x@ <= SCALE as int
    &&& 0 <= c.y@ <= SCALE as int
    &&& 0 <= c.z@ <= SCALE as int
}

impl Material {
    /// Physically sane parameters: colours within the unit box, fuzz within
    /// one unit, a refractive ratio between a quarter and four.
    pub open spec fn wf(self) -> bool {
        match self {
            Material::Lambertian(m) => colour_ok(m.albedo),
            Material::Metal(m) => colour_ok(m.albedo) && 0 <= m.fuzz@ <= SCALE as int,
            Material::Dielectric(m) => (SCALE as int) / 4 <= m.refraction_index@ <= 4 * (
            SCALE as int),
            Material::Light(m) => colour_ok(m.albedo),
        }
    }
}

/// Runtime test for `near_unit`.
pub fn check_near_unit(v: Vector) -> (r: bool)
    ensures
        r == near_unit(v),
{
    -131072 <= v.x.raw && v.x.raw <= 131072 && -131072 <= v.y.raw && v.y.raw <= 131072
        && -131072 <= v.z.raw && v.z.raw <= 131072
}

/// A hit record's normal is usable for scattering: near unit length and not
/// degenerate.
pub open spec fn scatter_ok(normal: Vector) -> bool {
    near_unit(normal) && !near_zero_v(normal)
}

/// What a diffuse scatter promises: attenuation is the albedo; with a usable
/// normal the outgoing ray leaves the hit point along the normal plus a
/// random near-unit draw, never degenerate, falling back to the normal
/// itself when the sum degenerates.
pub open spec fn lambertian_post(m: Lambertian, rec: HitRecord, r: RayRecord) -> bool {
    &&& r.colour == m.albedo
    &&& (r.ray is Some <==> scatter_ok(rec.normal))
    &&& match r.ray {
        Some(sc) => {
            &&& sc.origin == rec.point
            &&& !near_zero_v(sc.direction)
            &&& exists|u: Vector|
                #[trigger] unit_sample_rel(u) && near_unit(u) && if rec.normal.x@ + u.x@ == 0
                    && rec.normal.y@ + u.y@ == 0 && rec.normal.z@ + u.z@ == 0 {
                    sc.direction == rec.normal
                } else {
                    sc.direction.x@ == rec.normal.x@ + u.x@ && sc.direction.y@ == rec.normal.y@
                        + u.y@ && sc.direction.z@ == rec.normal.z@ + u.z@
                }
        },
        None => true,
    }
}

impl Lambertian {
    pub fn scatter(&self, _r_in: &Ray, rec: &HitRecord, sampler: &mut Sampler) -> (r: RayRecord)
        ensures
            lambertian_post(*self, *rec, r),
    {
        if !(check_near_unit(rec.normal) && !near_zero(rec.normal)) {
            return RayRecord::new(self.albedo, None);
        }
        let u = random_unit_vector(sampler);
        let sum = rec.normal.add(u);
        let direction = if near_zero(sum) {
            rec.normal
        } else {
            sum
        };
        proof {
            assert(unit_sample_rel(u) && near_unit(u) && if rec.normal.x@ + u.x@ == 0
                && rec.normal.y@ + u.y@ == 0 && rec.normal.z@ + u.z@ == 0 {
                direction == rec.normal
            } else {
                direction.x@ == rec.normal.x@ + u.x@ && direction.y@ == rec.normal.y@ + u.y@
                    && direction.z@ == rec.normal.z@ + u.z@
            });
        }
        RayRecord::new(self.albedo, Some(Ray::new(rec.point, direction)))
    }
}

/// The reflected direction as a vector value.
pub open spec fn reflect_vec(v: Vector, n: Vector) -> Vector {
    Vector {
        x: Fx { raw: reflect_x(v, n) as i64 },
        y: Fx { raw: reflect_y(v, n) as i64 },
        z: Fx { raw: reflect_z(v, n) as i64 },
    }
}

/// Raw squared magnitude of the reflected direction.
pub open spec fn metal_m2r(v: Vector, n: Vector) -> int {
    fx_mul_v(reflect_x(v, n), reflect_x(v, n)) + fx_mul_v(reflect_y(v, n), reflect_y(v, n))
        + fx_mul_v(reflect_z(v, n), reflect_z(v, n))
}

/// When a metal produces an outgoing ray: the inputs are in range and the
/// reflected direction is neither outsized nor degenerate.
pub open spec fn metal_scatters(v: Vector, n: Vector) -> bool {
    &&& in_range(v)
    &&& near_unit(n)
    &&& abs_i(reflect_x(v, n)) <= 0x4000000
    &&& abs_i(reflect_y(v, n)) <= 0x4000000
    &&& abs_i(reflect_z(v, n)) <= 0x4000000
    &&& metal_m2r(v, n) >= 1
}

/// What a metal scatter promises: attenuation is the albedo; when the
/// reflection is usable, the outgoing ray leaves the hit point along the
/// normalized mirror direction perturbed by fuzz times a random near-unit
/// draw.
pub open spec fn metal_post(m: Metal, r_in: Ray, rec: HitRecord, r: RayRecord) -> bool {
    &&& r.colour == m.albedo
    &&& (r.ray is Some <==> metal_scatters(r_in.direction, rec.normal))
    &&& match r.ray {
        Some(sc) => {
            &&& sc.origin == rec.point
            &&& exists|u: Vector|
                #[trigger] unit_sample_rel(u) && near_unit(u) && {
                    let unit = crate::vector::unit_of(
                        reflect_vec(r_in.direction, rec.normal),
                    );
                    &&& sc.direction.x@ == unit.x@ + fx_mul_v(u.x@, m.fuzz@)
                    &&& sc.direction.y@ == unit.y@ + fx_mul_v(u.y@, m.fuzz@)
                    &&& sc.direction.z@ == unit.z@ + fx_mul_v(u.z@, m.fuzz@)
                }
        },
        None => true,
    }
}

impl Metal {
    pub fn scatter(&self, r_in: &Ray, rec: &HitRecord, sampler: &mut Sampler) -> (r: RayRecord)
        requires
            0 <= self.fuzz@ <= SCALE as int,
        ensures
            metal_post(*self, *r_in, *rec, r),
    {
        if !(crate::vector::check_in_range(r_in.direction) && check_near_unit(rec.normal)) {
            return RayRecord::new(self.albedo, None);
        }
        let reflected = reflect(r_in.direction, rec.normal);
        if !crate::vector::check_in_range2(reflected) {
            return RayRecord::new(self.albedo, None);
        }
        let m2 = reflected.magnitude2();
        if m2.raw < 1 {
            return RayRecord::new(self.albedo, None);
        }
        let unit = reflected.normalize();
        let u = random_unit_vector(sampler);
        proof {
            lemma_fx_mul_bound(u.x@, self.fuzz@, 131072, 65536);
            lemma_fx_mul_bound(u.y@, self.fuzz@, 131072, 65536);
            lemma_fx_mul_bound(u.z@, self.fuzz@, 131072, 65536);
            assert(reflected == reflect_vec(r_in.direction, rec.normal));
            assert(mag2_v(reflected) == metal_m2r(r_in.direction, rec.normal));
        }
        let direction = unit.add(u.scale(self.fuzz));
        proof {
            assert(unit_sample_rel(u) && near_unit(u) && {
                let unit_s = crate::vector::unit_of(reflect_vec(r_in.direction, rec.normal));
                &&& direction.x@ == unit_s.x@ + fx_mul_v(u.x@, self.fuzz@)
                &&& direction.y@ == unit_s.y@ + fx_mul_v(u.y@, self.fuzz@)
                &&& direction.z@ == unit_s.z@ + fx_mul_v(u.z@, self.fuzz@)
            });
        }
        RayRecord::new(self.albedo, Some(Ray::new(rec.point, direction)))
    }
}

/// The refractive ratio a dielectric uses: the reciprocal of its index when
/// the ray enters the medium, the index itself when it leaves.
pub open spec fn dielectric_ri(d: Dielectric, front_face: bool) -> int {
    if front_face {
        fx_div_v(SCALE as int, d.refraction_index@)
    } else {
        d.refraction_index@
    }
}

/// Raw squared cosine of the incidence angle.
pub open spec fn dielectric_c2(u: Vector, n: Vector) -> int {
    fx_mul_v(refract_cos(u, n), refract_cos(u, n))
}

/// Reflection is forced: the cosine is out of range or Snell's law has no
/// solution (total internal reflection).
pub open spec fn dielectric_must_reflect(u: Vector, n: Vector, ri: int) -> bool {
    ||| dielectric_c2(u, n) > SCALE as int
    ||| fx_mul_v(ri, fx_sqrt_v(SCALE as int - dielectric_c2(u, n))) > SCALE as int
}

/// A direction equals the mirror reflection of `u` about `n`.
pub open spec fn is_reflect_of(d: Vector, u: Vector, n: Vector) -> bool {
    &&& d.x@ == reflect_x(u, n)
    &&& d.y@ == reflect_y(u, n)
    &&& d.z@ == reflect_z(u, n)
}

/// A direction equals the Snell transmission of `u` about `n` at ratio `ri`.
pub open spec fn is_refract_of(d: Vector, u: Vector, n: Vector, ri: int) -> bool {
    &&& d.x@ == refract_perp_x(u, n, ri) + fx_mul_v(n.x@, refract_par(u, n, ri))
    &&& d.y@ == refract_perp_y(u, n, ri) + fx_mul_v(n.y@, refract_par(u, n, ri))
    &&& d.z@ == refract_perp_z(u, n, ri) + fx_mul_v(n.z@, refract_par(u, n, ri))
}

/// When a dielectric produces an outgoing ray at all.
pub open spec fn dielectric_ok(r_in: Ray, normal: Vector) -> bool {
    &&& in_range(r_in.direction)
    &&& mag2_v(r_in.direction) >= 1
    &&& near_unit(normal)
}

/// What a dielectric scatter promises: white attenuation and an outgoing ray
/// that is either the reflection or the refraction of the normalized
/// incoming direction; where total internal reflection holds, always the
/// reflection.
pub open spec fn dielectric_post(d: Dielectric, r_in: Ray, rec: HitRecord, r: RayRecord) -> bool {
    &&& (r.ray is Some <==> dielectric_ok(r_in, rec.normal))
    &&& match r.ray {
        Some(sc) => {
            let u = crate::vector::unit_of(r_in.direction);
            let ri = dielectric_ri(d, rec.front_face);
            &&& r.colour.x@ == SCALE as int && r.colour.y@ == SCALE as int && r.colour.z@
                == SCALE as int
            &&& sc.origin == rec.point
            &&& (is_reflect_of(sc.direction, u, rec.normal) || (!dielectric_must_reflect(
                u,
                rec.normal,
                ri,
            ) && is_refract_of(sc.direction, u, rec.normal, ri)))
            &&& dielectric_must_reflect(u, rec.normal, ri) ==> is_reflect_of(
                sc.direction,
                u,
                rec.normal,
            )
        },
        None => r.colour.x@ == 0 && r.colour.y@ == 0 && r.colour.z@ == 0,
    }
}

impl Dielectric {
    pub fn scatter(&self, r_in: &Ray, rec: &HitRecord, sampler: &mut Sampler) -> (r: RayRecord)
        requires
            (SCALE as int) / 4 <= self.refraction_index@ <= 4 * (SCALE as int),
        ensures
            dielectric_post(*self, *r_in, *rec, r),
    {
        let m2in = if crate::vector::check_in_range(r_in.direction) {
            r_in.direction.magnitude2()
        } else {
            Fx::zero()
        };
        if !(crate::vector::check_in_range(r_in.direction) && m2in.raw >= 1 && check_near_unit(
            rec.normal,
        )) {
            return RayRecord::new(Vector::new(Fx::zero(), Fx::zero(), Fx::zero()), None);
        }
        let ri = if rec.front_face {
            proof {
                vstd::arithmetic::div_mod::lemma_div_is_ordered_by_denominator(
                    0x100000000,
                    self.refraction_index@,
                    262144,
                );
                crate::fx::lemma_tdiv_shrinks(0x100000000, self.refraction_index@);
                vstd::arithmetic::div_mod::lemma_multiply_divide_le(
                    0x100000000,
                    self.refraction_index@,
                    262144,
                );
            }
            Fx::one().div(self.refraction_index)
        } else {
            self.refraction_index
        };
        let unit_direction = r_in.direction.normalize();
        let minus_u = unit_direction.neg();
        proof {
            lemma_fx_mul_bound(-unit_direction.x@, rec.normal.x@, 131072, 131072);
            lemma_fx_mul_bound(-unit_direction.y@, rec.normal.y@, 131072, 131072);
            lemma_fx_mul_bound(-unit_direction.z@, rec.normal.z@, 131072, 131072);
        }
        let d = dot(minus_u, rec.normal);
        let one = Fx::one();
        let cos_theta = if d.lt(one) {
            d
        } else {
            one
        };
        proof {
            assert(cos_theta@ == refract_cos(unit_direction, rec.normal));
            lemma_fx_mul_bound(cos_theta@, cos_theta@, 786432, 786432);
        }
        let c2 = cos_theta.mul(cos_theta);
        let reflects = if c2.raw > SCALE {
            true
        } else {
            proof {
                crate::vector::lemma_fx_square_nonneg(cos_theta@);
            }
            let sin_theta = fx_sqrt(one.sub(c2));
            proof {
                assert(sin_theta@ <= 131072) by (nonlinear_arith)
                    requires
                        sin_theta@ >= 0,
                        sin_theta@ * sin_theta@ <= (65536 - c2@) * 65536,
                        c2@ >= 0,
                ;
                lemma_fx_mul_bound(ri@, sin_theta@, 262144, 131072);
            }
            let ri_sin = ri.mul(sin_theta);
            if ri_sin.raw > SCALE {
                true
            } else {
                let p = reflectance(cos_theta, ri);
                let q = sampler.next_unit();
                p.raw > q.raw
            }
        };
        let direction = if reflects {
            reflect(unit_direction, rec.normal)
        } else {
            refract(unit_direction, rec.normal, ri)
        };
        RayRecord::new(
            Vector::new(Fx::one(), Fx::one(), Fx::one()),
            Some(Ray::new(rec.point, direction)),
        )
    }
}

/// What an emissive scatter promises: its colour and never an outgoing ray,
/// whatever the incoming ray and hit record.
pub open spec fn light_post(m: Light, r: RayRecord) -> bool {
    r.colour == m.albedo && r.ray is None
}

impl Light {
    pub fn scatter(&self, _r_in: &Ray, _rec: &HitRecord) -> (r: RayRecord)
        ensures
            light_post(*self, r),
    {
        RayRecord::new(self.albedo, None)
    }
}

impl Material {
    /// Turn an incoming ray and hit record into an attenuation colour and an
    /// optional outgoing ray, by the rules of the variant.
    pub fn scatter(&self, r_in: &Ray, rec: &HitRecord, sampler: &mut Sampler) -> (r: RayRecord)
        requires
            self.wf(),
        ensures
            match *self {
                Material::Lambertian(m) => lambertian_post(m, *rec, r),
                Material::Metal(m) => metal_post(m, *r_in, *rec, r),
                Material::Dielectric(m) => dielectric_post(m, *r_in, *rec, r),
                Material::Light(m) => light_post(m, r),
            },
    {
        match self {
            Material::Lambertian(m) => m.scatter(r_in, rec, sampler),
            Material::Metal(m) => m.scatter(r_in, rec, sampler),
            Material::Dielectric(m) => m.scatter(r_in, rec, sampler),
            Material::Light(m) => m.scatter(r_in, rec),
        }
    }
}

} // verus!
