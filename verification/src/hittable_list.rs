use vstd::prelude::*;

use crate::fx::{abs_i, T_LIMIT};
use crate::hittable::HitRecord;
use crate::interval::Interval;
use crate::ray::Ray;
use crate::sphere::{sphere_hit_rec, sphere_hits, Sphere};
use crate::vector::{in_range, mag2_v};

verus! {

/// An aggregate of primitives, tested linearly for the closest hit.
pub struct HittableList {
    pub objects: Vec<Sphere>,
}

/// The nearest valid hit over a sequence of spheres: each one is tested
/// against the interval narrowed to the closest parameter found so far, in
/// order, so the final record is the closest hit of the whole sequence.
pub open spec fn list_hit_spec(
    objects: Seq<Sphere>,
    ray: Ray,
    tmin: int,
    tmax: int,
) -> Option<HitRecord>
    decreases objects.len(),
{
    if objects.len() == 0 {
        None::<HitRecord>
    } else {
        let prefix = list_hit_spec(objects.drop_last(), ray, tmin, tmax);
        let closest = match prefix {
            Some(rec) => rec.t@,
            None => tmax,
        };
        if sphere_hits(objects.last(), ray, tmin, closest) {
            Some(sphere_hit_rec(objects.last(), ray, tmin, closest))
        } else {
            prefix
        }
    }
}

/// Whatever record the closest-hit fold returns carries the material of one
/// of the spheres, so a well-formed list hands back a well-formed material,
/// and a parameter strictly inside the queried interval.
pub proof fn lemma_list_hit_wf(objects: Seq<Sphere>, ray: Ray, tmin: int, tmax: int)
    requires
        forall|i: int| 0 <= i < objects.len() ==> (#[trigger] objects[i]).wf(),
        -0x8000000000000000 <= tmin,
        tmax <= 0x7fffffffffffffff,
    ensures
        match list_hit_spec(objects, ray, tmin, tmax) {
            Some(rec) => rec.material.wf() && tmin < rec.t@ < tmax,
            None => true,
        },
    decreases objects.len(),
{
    if objects.len() > 0 {
        assert(forall|i: int|
            0 <= i < objects.drop_last().len() ==> (#[trigger] objects.drop_last()[i]).wf());
        lemma_list_hit_wf(objects.drop_last(), ray, tmin, tmax);
        assert(objects.last().wf());
    }
}

impl HittableList {
    /// Every contained sphere has in-range geometry.
    pub open spec fn wf(self) -> bool {
        forall|i: int| 0 <= i < self.objects@.len() ==> (#[trigger] self.objects@[i]).wf()
    }

    pub fn new() -> (r: HittableList)
        ensures
            r.objects@.len() == 0,
            r.wf(),
    {
        HittableList { objects: Vec::<Sphere>::new() }
    }

    pub fn add(&mut self, object: Sphere)
        requires
            object.wf(),
            old(self).wf(),
        ensures
            final(self).objects@ == old(self).objects@.push(object),
            final(self).wf(),
    {
        self.objects.push(object);
    }

    /// Nearest hit of the ray against every sphere of the list within the
    /// open interval, or nothing.
    pub fn hit(&self, ray: &Ray, ray_t: Interval) -> (r: Option<HitRecord>)
        requires
            self.wf(),
            in_range(ray.origin),
            in_range(ray.direction),
            mag2_v(ray.direction) >= 1,
            abs_i(ray_t.min@) <= T_LIMIT,
            abs_i(ray_t.max@) <= T_LIMIT,
        ensures
            r == list_hit_spec(self.objects@, *ray, ray_t.min@, ray_t.max@),
    {
        let mut rec: Option<HitRecord> = None;
        let mut closest_so_far = ray_t.max;
        let ghost all = self.objects@;
        let n = self.objects.len();
        let mut i: usize = 0;
        while i < n
            invariant
                n == all.len(),
                0 <= i <= n,
                all == self.objects@,
                self.wf(),
                in_range(ray.origin),
                in_range(ray.direction),
                mag2_v(ray.direction) >= 1,
                abs_i(ray_t.min@) <= T_LIMIT,
                abs_i(ray_t.max@) <= T_LIMIT,
                abs_i(closest_so_far@) <= T_LIMIT,
                rec == list_hit_spec(all.subrange(0, i as int), *ray, ray_t.min@, ray_t.max@),
                closest_so_far@ == match rec {
                    Some(record) => record.t@,
                    None => ray_t.max@,
                },
            decreases n - i,
        {
            let temp = self.objects[i].hit(ray, Interval::new(ray_t.min, closest_so_far));
            proof {
                let ghost pre = all.subrange(0, i as int);
                let ghost ext = all.subrange(0, i as int + 1);
                assert(ext.drop_last() =~= pre);
                assert(ext.last() == all[i as int]);
                assert(all.subrange(0, i as int + 1) == ext);
            }
            if let Some(temp_rec) = temp {
                closest_so_far = temp_rec.t;
                rec = Some(temp_rec);
            }
            i = i + 1;
        }
        proof {
            assert(all.subrange(0, n as int) =~= all);
        }
        rec
    }
}

} // verus!
