use vstd::prelude::*;

use crate::fx::{fits_i64, Fx};

verus! {

/// A scalar range: closed for containment and clamping, open for hit
/// parameter validity.
#[derive(Clone, Copy, PartialEq, Eq, Structural, Debug)]
pub struct Interval {
    pub min: Fx,
    pub max: Fx,
}

/// What clamping saturates a value to.
pub open spec fn clamp_v(min: int, max: int, x: int) -> int {
    if x < min {
        min
    } else if x > max {
        max
    } else {
        x
    }
}

impl Interval {
    pub fn new(min: Fx, max: Fx) -> (r: Interval)
        ensures
            r.min == min && r.max == max,
    {
        Interval { min, max }
    }

    pub fn size(&self) -> (r: Fx)
        requires
            fits_i64(self.max@ - self.min@),
        ensures
            r@ == self.max@ - self.min@,
    {
        self.max.sub(self.min)
    }

    /// Closed-interval membership.
    pub fn contains(&self, x: Fx) -> (r: bool)
        ensures
            r == (self.min@ <= x@ <= self.max@),
    {
        self.min.le(x) && x.le(self.max)
    }

    /// Open-interval membership, used for hit parameters so that a ray does
    /// not re-hit the surface it starts on.
    pub fn surounds(&self, x: Fx) -> (r: bool)
        ensures
            r == (self.min@ < x@ < self.max@),
    {
        self.min.lt(x) && x.lt(self.max)
    }

    /// Saturate a value into the closed interval.
    pub fn clamp(&self, x: Fx) -> (r: Fx)
        ensures
            r@ == clamp_v(self.min@, self.max@, x@),
            self.min@ <= self.max@ ==> self.min@ <= r@ <= self.max@,
    {
        if x.lt(self.min) {
            self.min
        } else if self.max.lt(x) {
            self.max
        } else {
            x
        }
    }
}

/// In every interval whose ends are ordered, a clamped value lies inside the
/// closed interval, both ends are contained in the closed sense, and neither
/// end is surrounded in the open sense: the two membership tests agree
/// everywhere except exactly at the ends.
pub proof fn lemma_interval_consistency(min: int, max: int, x: int)
    requires
        min <= max,
    ensures
        min <= clamp_v(min, max, x) <= max,
        min <= x <= max ==> clamp_v(min, max, x) == x,
        (min <= min <= max) && (min <= max <= max),
        !(min < min < max) && !(min < max < max),
        (min < x < max) ==> (min <= x <= max),
        (min <= x <= max) && x != min && x != max ==> (min < x < max),
{
}

} // verus!
