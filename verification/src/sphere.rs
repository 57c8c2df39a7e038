use vstd::prelude::*;

use crate::fx::{
    abs_i, fx_div_v, fx_mul_v, fx_sqrt, fx_sqrt_v, lemma_mul_bound, lemma_tdiv_shrinks, Fx,
    COORD_LIMIT, SCALE, T_LIMIT,
};
use crate::hittable::HitRecord;
use crate::interval::Interval;
use crate::material::Material;
use crate::ray::{at_x, at_y, at_z, Ray};
use crate::vector::{dot, in_range, lemma_fx_mul_bound, mag2_v, Point, Vector};

verus! {

/// A primitive sphere: centre, radius and the material of its surface.
pub struct Sphere {
    pub centre: Point,
    pub radius: Fx,
    pub material: Material,
}

/// Raw value of the quadratic's linear coefficient `h = dot(direction, centre - origin)`.
pub open spec fn sph_h(s: Sphere, ray: Ray) -> int {
    fx_mul_v(ray.direction.x@, s.centre.x@ - ray.origin.x@) + fx_mul_v(
        ray.direction.y@,
        s.centre.y@ - ray.origin.y@,
    ) + fx_mul_v(ray.direction.z@, s.centre.z@ - ray.origin.z@)
}

/// Raw squared distance from the ray origin to the centre.
pub open spec fn sph_oc2(s: Sphere, ray: Ray) -> int {
    fx_mul_v(s.centre.x@ - ray.origin.x@, s.centre.x@ - ray.origin.x@) + fx_mul_v(
        s.centre.y@ - ray.origin.y@,
        s.centre.y@ - ray.origin.y@,
    ) + fx_mul_v(s.centre.z@ - ray.origin.z@, s.centre.z@ - ray.origin.z@)
}

/// Raw constant coefficient `c = |centre - origin|^2 - radius^2`.
pub open spec fn sph_c(s: Sphere, ray: Ray) -> int {
    sph_oc2(s, ray) - fx_mul_v(s.radius@, s.radius@)
}

/// Raw discriminant `h^2 - a c` of the hit quadratic.
pub open spec fn sph_disc(s: Sphere, ray: Ray) -> int {
    fx_mul_v(sph_h(s, ray), sph_h(s, ray)) - fx_mul_v(mag2_v(ray.direction), sph_c(s, ray))
}

/// Raw rounded square root of the discriminant.
pub open spec fn sph_sqrtd(s: Sphere, ray: Ray) -> int {
    fx_sqrt_v(sph_disc(s, ray))
}

/// The smaller root of the quadratic, as computed.
pub open spec fn sph_root1(s: Sphere, ray: Ray) -> int {
    fx_div_v(sph_h(s, ray) - sph_sqrtd(s, ray), mag2_v(ray.direction))
}

/// The larger root of the quadratic, as computed.
pub open spec fn sph_root2(s: Sphere, ray: Ray) -> int {
    fx_div_v(sph_h(s, ray) + sph_sqrtd(s, ray), mag2_v(ray.direction))
}

/// Whether the ray strikes the sphere at a parameter strictly inside the
/// interval: the discriminant is nonnegative and a root is surrounded.
pub open spec fn sphere_hits(s: Sphere, ray: Ray, tmin: int, tmax: int) -> bool {
    &&& sph_disc(s, ray) >= 0
    &&& {
        ||| tmin < sph_root1(s, ray) < tmax
        ||| tmin < sph_root2(s, ray) < tmax
    }
}

/// The accepted root: the smaller one where valid, else the larger.
pub open spec fn sph_root(s: Sphere, ray: Ray, tmin: int, tmax: int) -> int {
    if tmin < sph_root1(s, ray) < tmax {
        sph_root1(s, ray)
    } else {
        sph_root2(s, ray)
    }
}

/// Unscaled dot product, used only for its sign.
pub open spec fn wide_dot(a: Vector, b: Vector) -> int {
    a.x@ * b.x@ + a.y@ * b.y@ + a.z@ * b.z@
}

/// Raw components of the outward normal `(point - centre) / radius`.
pub open spec fn sph_out_x(s: Sphere, ray: Ray, t: int) -> int {
    fx_div_v(at_x(ray, t) - s.centre.x@, s.radius@)
}

pub open spec fn sph_out_y(s: Sphere, ray: Ray, t: int) -> int {
    fx_div_v(at_y(ray, t) - s.centre.y@, s.radius@)
}

pub open spec fn sph_out_z(s: Sphere, ray: Ray, t: int) -> int {
    fx_div_v(at_z(ray, t) - s.centre.z@, s.radius@)
}

/// Whether the hit point is struck from the side the normal points out of:
/// the direction and the centre-to-point offset point opposite ways.
pub open spec fn sph_front(s: Sphere, ray: Ray, t: int) -> bool {
    (ray.direction.x@ * (at_x(ray, t) - s.centre.x@) + ray.direction.y@ * (at_y(ray, t)
        - s.centre.y@) + ray.direction.z@ * (at_z(ray, t) - s.centre.z@)) < 0
}

/// The record a successful sphere hit reports.
pub open spec fn sphere_hit_rec(s: Sphere, ray: Ray, tmin: int, tmax: int) -> HitRecord {
    let t = sph_root(s, ray, tmin, tmax);
    let ff = sph_front(s, ray, t);
    HitRecord {
        point: Vector {
            x: Fx { raw: at_x(ray, t) as i64 },
            y: Fx { raw: at_y(ray, t) as i64 },
            z: Fx { raw: at_z(ray, t) as i64 },
        },
        normal: Vector {
            x: Fx {
                raw: (if ff {
                    sph_out_x(s, ray, t)
                } else {
                    -sph_out_x(s, ray, t)
                }) as i64,
            },
            y: Fx {
                raw: (if ff {
                    sph_out_y(s, ray, t)
                } else {
                    -sph_out_y(s, ray, t)
                }) as i64,
            },
            z: Fx {
                raw: (if ff {
                    sph_out_z(s, ray, t)
                } else {
                    -sph_out_z(s, ray, t)
                }) as i64,
            },
        },
        t: Fx { raw: t as i64 },
        front_face: ff,
        material: s.material,
    }
}

/// A ray fired from `(0, 0, -2r)` straight at a sphere of radius `r` centred
/// at the origin, with a unit direction, hits at parameter exactly `r`, with
/// normal `(0, 0, -1)` and the front face struck.  The radius's square must
/// divide evenly by the scale so that no step rounds.
pub proof fn lemma_axis_ray_hits_sphere(rr: int, m: Material, tmin: int, tmax: int)
    requires
        0 < rr <= 0x1000000,
        (rr * rr) % 65536 == 0,
        0 < tmin < rr,
        rr < tmax,
    ensures
        ({
            let s = Sphere {
                centre: Vector { x: Fx { raw: 0 }, y: Fx { raw: 0 }, z: Fx { raw: 0 } },
                radius: Fx { raw: rr as i64 },
                material: m,
            };
            let ray = Ray {
                origin: Vector { x: Fx { raw: 0 }, y: Fx { raw: 0 }, z: Fx { raw: (-2 * rr) as i64 } },
                direction: Vector { x: Fx { raw: 0 }, y: Fx { raw: 0 }, z: Fx { raw: 65536 } },
            };
            &&& sphere_hits(s, ray, tmin, tmax)
            &&& sphere_hit_rec(s, ray, tmin, tmax).t@ == rr
            &&& sphere_hit_rec(s, ray, tmin, tmax).front_face
            &&& sphere_hit_rec(s, ray, tmin, tmax).normal == (Vector {
                x: Fx { raw: 0 },
                y: Fx { raw: 0 },
                z: Fx { raw: (-65536int) as i64 },
            })
        }),
{
    let s = Sphere {
        centre: Vector { x: Fx { raw: 0 }, y: Fx { raw: 0 }, z: Fx { raw: 0 } },
        radius: Fx { raw: rr as i64 },
        material: m,
    };
    let ray = Ray {
        origin: Vector { x: Fx { raw: 0 }, y: Fx { raw: 0 }, z: Fx { raw: (-2 * rr) as i64 } },
        direction: Vector { x: Fx { raw: 0 }, y: Fx { raw: 0 }, z: Fx { raw: 65536 } },
    };
    let sc = 65536int;
    let q = (rr * rr) / sc;
    crate::fx::lemma_tdiv_exact(rr * rr, sc);
    lemma_tdiv_zero();
    crate::fx::lemma_tdiv_of_multiple(1, sc);
    assert(mag2_v(ray.direction) == sc) by {
        assert(sc * sc == 1 * sc * sc);
        crate::fx::lemma_tdiv_of_multiple(sc, sc);
    }
    crate::fx::lemma_tdiv_of_multiple(2 * rr, sc);
    assert(sph_h(s, ray) == 2 * rr) by {
        assert(sc * (2 * rr) == (2 * rr) * sc) by (nonlinear_arith);
    }
    assert(sph_oc2(s, ray) == 4 * q) by {
        assert((2 * rr) * (2 * rr) == (4 * q) * sc) by (nonlinear_arith)
            requires
                sc * q == rr * rr,
        ;
        crate::fx::lemma_tdiv_of_multiple(4 * q, sc);
    }
    assert(fx_mul_v(s.radius@, s.radius@) == q) by {
        assert(sc * q == rr * rr);
        assert(rr * rr == q * sc) by (nonlinear_arith)
            requires
                sc * q == rr * rr,
        ;
        crate::fx::lemma_tdiv_of_multiple(q, sc);
    }
    assert(sph_c(s, ray) == 3 * q);
    assert(sph_disc(s, ray) == q) by {
        assert(fx_mul_v(2 * rr, 2 * rr) == 4 * q) by {
            assert((2 * rr) * (2 * rr) == (4 * q) * sc) by (nonlinear_arith)
                requires
                    sc * q == rr * rr,
            ;
            crate::fx::lemma_tdiv_of_multiple(4 * q, sc);
        }
        assert(fx_mul_v(sc, 3 * q) == 3 * q) by {
            assert(sc * (3 * q) == (3 * q) * sc) by (nonlinear_arith);
            crate::fx::lemma_tdiv_of_multiple(3 * q, sc);
        }
    }
    assert(sph_sqrtd(s, ray) == rr) by {
        assert(q * sc == rr * rr) by (nonlinear_arith)
            requires
                sc * q == rr * rr,
        ;
        assert(rr * rr < (rr + 1) * (rr + 1)) by (nonlinear_arith)
            requires
                rr >= 0,
        ;
        assert(rr * rr >= 0) by (nonlinear_arith);
        crate::fx::lemma_sqrt_floor_unique(rr * rr, rr);
    }
    assert(sph_root1(s, ray) == rr) by {
        crate::fx::lemma_tdiv_of_multiple(rr, sc);
        assert(rr * sc == (2 * rr - rr) * sc);
    }
    assert(sphere_hits(s, ray, tmin, tmax)) by {
        assert(q >= 0) by (nonlinear_arith)
            requires
                sc * q == rr * rr,
                sc > 0,
        ;
    }
    let t = sph_root(s, ray, tmin, tmax);
    assert(t == rr);
    assert(at_x(ray, t) == 0 && at_y(ray, t) == 0) by {
        lemma_tdiv_zero();
    }
    assert(at_z(ray, t) == -rr) by {
        crate::fx::lemma_tdiv_of_multiple(rr, sc);
        assert(sc * rr == rr * sc) by (nonlinear_arith);
    }
    assert(sph_front(s, ray, t)) by {
        assert(sc * (-rr) < 0) by (nonlinear_arith)
            requires
                rr > 0,
                sc > 0,
        ;
    }
    assert(sph_out_z(s, ray, t) == -sc) by {
        crate::fx::lemma_tdiv_of_multiple(-sc, rr);
        assert((-rr) * sc == (-sc) * rr) by (nonlinear_arith);
    }
    assert(sph_out_x(s, ray, t) == 0 && sph_out_y(s, ray, t) == 0) by {
        lemma_tdiv_zero_any(rr);
    }
}

/// Zero divided by the scale is zero.
proof fn lemma_tdiv_zero()
    ensures
        crate::fx::tdiv(0, 65536) == 0,
        fx_mul_v(0, 0) == 0,
        fx_mul_v(0, 65536) == 0,
{
    assert(0int / 65536 == 0);
}

/// Zero divided by any positive number is zero.
proof fn lemma_tdiv_zero_any(q: int)
    requires
        q >= 1,
    ensures
        fx_div_v(0, q) == 0,
{
    crate::fx::lemma_tdiv_of_multiple(0, q);
    assert(0 * q == 0int * 65536) by (nonlinear_arith);
}

/// A ray that starts on or outside a sphere and does not move toward its
/// centre never hits it: both quadratic roots are nonpositive, and only
/// strictly positive parameters count.
pub proof fn lemma_ray_outside_moving_away_misses(s: Sphere, ray: Ray, tmin: int, tmax: int)
    requires
        mag2_v(ray.direction) >= 1,
        sph_h(s, ray) <= 0,
        sph_c(s, ray) >= 0,
        tmin > 0,
    ensures
        !sphere_hits(s, ray, tmin, tmax),
{
    if sph_disc(s, ray) >= 0 {
        let sc = 65536int;
        let a = mag2_v(ray.direction);
        let h = sph_h(s, ray);
        let c = sph_c(s, ray);
        assert(a * c >= 0) by (nonlinear_arith)
            requires
                a >= 1,
                c >= 0,
        ;
        crate::fx::lemma_tdiv_shrinks(a * c, sc);
        crate::fx::lemma_tdiv_shrinks(h * h, sc);
        assert(h * h >= 0) by (nonlinear_arith);
        let disc = sph_disc(s, ray);
        vstd::arithmetic::div_mod::lemma_fundamental_div_mod(h * h, sc);
        vstd::arithmetic::div_mod::lemma_mod_division_less_than_divisor(h * h, sc);
        assert(disc * sc <= h * h) by (nonlinear_arith)
            requires
                disc <= (h * h) / sc,
                h * h == sc * ((h * h) / sc) + (h * h) % sc,
                (h * h) % sc >= 0,
                sc == 65536,
        ;
        crate::fx::lemma_sqrt_floor_bounds(disc * sc);
        let sd = sph_sqrtd(s, ray);
        assert(sd <= -h) by (nonlinear_arith)
            requires
                sd >= 0,
                sd * sd <= disc * sc,
                disc * sc <= h * h,
                h <= 0,
        ;
        crate::fx::lemma_mul_bound(h - sd, sc, 0 - 2 * h + 1, sc);
        crate::fx::lemma_tdiv_shrinks((h - sd) * sc, a);
        crate::fx::lemma_tdiv_shrinks((h + sd) * sc, a);
        assert((h - sd) * sc <= 0) by (nonlinear_arith)
            requires
                h - sd <= 0,
                sc > 0,
        ;
        assert((h + sd) * sc <= 0) by (nonlinear_arith)
            requires
                h + sd <= 0,
                sc > 0,
        ;
        assert(sph_root1(s, ray) <= 0);
        assert(sph_root2(s, ray) <= 0);
    }
}

/// Sign of the unscaled dot product of a direction and an offset from the
/// centre; decides which face of the surface was struck.
fn facing_front(d: Vector, rel: Vector) -> (r: bool)
    requires
        in_range(d),
        abs_i(rel.x@) <= 0x200000000000,
        abs_i(rel.y@) <= 0x200000000000,
        abs_i(rel.z@) <= 0x200000000000,
    ensures
        r == (wide_dot(d, rel) < 0),
{
    proof {
        lemma_mul_bound(d.x@, rel.x@, COORD_LIMIT as int, 0x200000000000);
        lemma_mul_bound(d.y@, rel.y@, COORD_LIMIT as int, 0x200000000000);
        lemma_mul_bound(d.z@, rel.z@, COORD_LIMIT as int, 0x200000000000);
    }
    let s: i128 = (d.x.raw as i128) * (rel.x.raw as i128) + (d.y.raw as i128) * (rel.y.raw
        as i128) + (d.z.raw as i128) * (rel.z.raw as i128);
    s < 0
}

impl Sphere {
    /// In-range geometry with a strictly positive radius and a physically
    /// sane material.
    pub open spec fn wf(self) -> bool {
        &&& in_range(self.centre)
        &&& 0 < self.radius@ <= COORD_LIMIT
        &&& self.material.wf()
    }

    pub fn new(centre: Point, radius: Fx, material: Material) -> (r: Sphere)
        requires
            in_range(centre),
            0 < radius@ <= COORD_LIMIT as int,
            material.wf(),
        ensures
            r.centre == centre && r.radius == radius && r.material == material,
            r.wf(),
    {
        Sphere { centre, radius, material }
    }

    /// Solve `a t^2 - 2 h t + c = 0` and report the nearest root strictly
    /// inside the interval, with the oriented normal at the hit point.
    pub fn hit(&self, ray: &Ray, ray_t: Interval) -> (r: Option<HitRecord>)
        requires
            self.wf(),
            in_range(ray.origin),
            in_range(ray.direction),
            mag2_v(ray.direction) >= 1,
            abs_i(ray_t.min@) <= T_LIMIT,
            abs_i(ray_t.max@) <= T_LIMIT,
        ensures
            r == if sphere_hits(*self, *ray, ray_t.min@, ray_t.max@) {
                Some(sphere_hit_rec(*self, *ray, ray_t.min@, ray_t.max@))
            } else {
                None::<HitRecord>
            },
    {
        let oc = self.centre.sub(ray.origin);
        let a = ray.direction.magnitude2();
        let h = dot(ray.direction, oc);
        let oc2 = oc.magnitude2();
        proof {
            lemma_fx_mul_bound(self.radius@, self.radius@, COORD_LIMIT as int, COORD_LIMIT as int);
            assert(h@ == sph_h(*self, *ray));
            assert(oc2@ == sph_oc2(*self, *ray));
        }
        let c = oc2.sub(self.radius.mul(self.radius));
        proof {
            lemma_fx_mul_bound(h@, h@, 0x3000000000, 0x3000000000);
            lemma_fx_mul_bound(a@, c@, 0x3000000000, 0x3400000000);
        }
        let discriminant = h.mul(h).sub(a.mul(c));
        if discriminant.raw < 0 {
            return None;
        }
        let sqrt_discriminant = fx_sqrt(discriminant);
        proof {
            assert(sqrt_discriminant@ <= 0x8000000000) by (nonlinear_arith)
                requires
                    sqrt_discriminant@ >= 0,
                    sqrt_discriminant@ * sqrt_discriminant@ <= discriminant@ * 65536,
                    discriminant@ <= 0x1400000000000000,
            ;
            lemma_mul_bound(h@ - sqrt_discriminant@, SCALE as int, 0xb000000000, SCALE as int);
            lemma_tdiv_shrinks((h@ - sqrt_discriminant@) * (SCALE as int), a@);
            lemma_mul_bound(h@ + sqrt_discriminant@, SCALE as int, 0xb000000000, SCALE as int);
            lemma_tdiv_shrinks((h@ + sqrt_discriminant@) * (SCALE as int), a@);
        }
        let mut root = h.sub(sqrt_discriminant).div(a);
        if !ray_t.surounds(root) {
            root = h.add(sqrt_discriminant).div(a);
            if !ray_t.surounds(root) {
                return None;
            }
        }
        let point = ray.at(root);
        let rel = point.sub(self.centre);
        proof {
            lemma_mul_bound(rel.x@, SCALE as int, 0x104002000000, SCALE as int);
            lemma_mul_bound(rel.y@, SCALE as int, 0x104002000000, SCALE as int);
            lemma_mul_bound(rel.z@, SCALE as int, 0x104002000000, SCALE as int);
            lemma_tdiv_shrinks(rel.x@ * (SCALE as int), self.radius@);
            lemma_tdiv_shrinks(rel.y@ * (SCALE as int), self.radius@);
            lemma_tdiv_shrinks(rel.z@ * (SCALE as int), self.radius@);
        }
        let outward = rel.div_scalar(self.radius);
        let front_face = facing_front(ray.direction, rel);
        let normal = if front_face {
            outward
        } else {
            outward.neg()
        };
        proof {
            let ghost t = root@;
            assert(t == sph_root(*self, *ray, ray_t.min@, ray_t.max@));
            assert(front_face == sph_front(*self, *ray, t));
            assert(normal.x@ == (if front_face {
                sph_out_x(*self, *ray, t)
            } else {
                -sph_out_x(*self, *ray, t)
            }));
        }
        Some(
            HitRecord {
                point,
                normal,
                t: root,
                front_face,
                material: self.material,
            },
        )
    }
}

} // verus!
