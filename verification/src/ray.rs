use vstd::prelude::*;

use crate::fx::{abs_i, fx_mul_v, Fx, COORD_LIMIT, T_LIMIT};
use crate::vector::{in_range, lemma_fx_mul_bound, Point, Vector};

verus! {

/// A ray: origin plus direction, neither normalized by construction.
#[derive(Clone, Copy, PartialEq, Eq, Structural, Debug)]
pub struct Ray {
    pub origin: Point,
    pub direction: Vector,
}

/// Raw coordinates of the point a parameter `t` along a ray.
pub open spec fn at_x(ray: Ray, t: int) -> int {
    ray.origin.x@ + fx_mul_v(ray.direction.x@, t)
}

pub open spec fn at_y(ray: Ray, t: int) -> int {
    ray.origin.y@ + fx_mul_v(ray.direction.y@, t)
}

pub open spec fn at_z(ray: Ray, t: int) -> int {
    ray.origin.z@ + fx_mul_v(ray.direction.z@, t)
}

impl Ray {
    pub fn new(origin: Point, direction: Vector) -> (r: Ray)
        ensures
            r.origin == origin && r.direction == direction,
    {
        Ray { origin, direction }
    }

    pub fn at(&self, t: Fx) -> (r: Point)
        requires
            in_range(self.origin),
            in_range(self.direction),
            abs_i(t@) <= T_LIMIT,
        ensures
            r.x@ == at_x(*self, t@),
            r.y@ == at_y(*self, t@),
            r.z@ == at_z(*self, t@),
            abs_i(r.x@) <= 0x102000000000,
            abs_i(r.y@) <= 0x102000000000,
            abs_i(r.z@) <= 0x102000000000,
    {
        proof {
            lemma_at_fits(*self, t@);
        }
        self.origin.add(self.direction.scale(t))
    }
}

/// The point along an in-range ray at a bounded parameter stays within
/// `COORD_LIMIT * T_LIMIT / SCALE + COORD_LIMIT`.
pub proof fn lemma_at_fits(ray: Ray, t: int)
    requires
        in_range(ray.origin),
        in_range(ray.direction),
        abs_i(t) <= T_LIMIT,
    ensures
        abs_i(fx_mul_v(ray.direction.x@, t)) <= 0x100000000000,
        abs_i(fx_mul_v(ray.direction.y@, t)) <= 0x100000000000,
        abs_i(fx_mul_v(ray.direction.z@, t)) <= 0x100000000000,
        abs_i(at_x(ray, t)) <= 0x102000000000,
        abs_i(at_y(ray, t)) <= 0x102000000000,
        abs_i(at_z(ray, t)) <= 0x102000000000,
{
    lemma_fx_mul_bound(ray.direction.x@, t, COORD_LIMIT as int, T_LIMIT as int);
    lemma_fx_mul_bound(ray.direction.y@, t, COORD_LIMIT as int, T_LIMIT as int);
    lemma_fx_mul_bound(ray.direction.z@, t, COORD_LIMIT as int, T_LIMIT as int);
}

} // verus!
