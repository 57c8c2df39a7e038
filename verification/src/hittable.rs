use vstd::prelude::*;

use crate::fx::Fx;
use crate::hittable_list::HittableList;
use crate::interval::Interval;
use crate::material::Material;
use crate::ray::Ray;
use crate::sphere::{sphere_hit_rec, sphere_hits, Sphere};
use crate::vector::{in_range, mag2_v, Point, Vector};

verus! {

/// What a successful intersection reports: the point hit, the unit-ish
/// normal oriented against the incoming ray, the ray parameter, which side
/// was struck, and the surface's material.
pub struct HitRecord {
    pub point: Point,
    pub normal: Vector,
    pub t: Fx,
    pub front_face: bool,
    pub material: Material,
}

/// The closed set of geometry that a ray can be tested against: a primitive
/// sphere or an aggregate list.
pub enum Hittable {
    Sphere(Sphere),
    List(HittableList),
}

impl Hittable {
    /// Every contained primitive has in-range geometry.
    pub open spec fn wf(self) -> bool {
        match self {
            Hittable::Sphere(s) => s.wf(),
            Hittable::List(l) => l.wf(),
        }
    }

    /// What this geometry answers for a ray over an open parameter interval.
    pub open spec fn hit_spec(self, ray: Ray, tmin: int, tmax: int) -> Option<HitRecord> {
        match self {
            Hittable::Sphere(s) => if sphere_hits(s, ray, tmin, tmax) {
                Some(sphere_hit_rec(s, ray, tmin, tmax))
            } else {
                None
            },
            Hittable::List(l) => crate::hittable_list::list_hit_spec(
                l.objects@,
                ray,
                tmin,
                tmax,
            ),
        }
    }

    /// Closest intersection of the ray with this geometry inside the open
    /// interval, or nothing.
    pub fn hit(&self, ray: &Ray, ray_t: Interval) -> (r: Option<HitRecord>)
        requires
            self.wf(),
            in_range(ray.origin),
            in_range(ray.direction),
            mag2_v(ray.direction) >= 1,
            crate::fx::abs_i(ray_t.min@) <= crate::fx::T_LIMIT,
            crate::fx::abs_i(ray_t.max@) <= crate::fx::T_LIMIT,
        ensures
            r == self.hit_spec(*ray, ray_t.min@, ray_t.max@),
    {
        match self {
            Hittable::Sphere(s) => s.hit(ray, ray_t),
            Hittable::List(l) => l.hit(ray, ray_t),
        }
    }
}

} // verus!
