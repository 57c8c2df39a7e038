use vstd::prelude::*;

use crate::fx::{Fx, SCALE};

verus! {

/// Deterministic pseudo-random generator (a SplitMix-style sequence).  Every
/// sampling routine in the crate draws from an explicit generator, so a
/// render is reproducible from its seed.
pub struct Sampler {
    pub state: u64,
}

/// Relies on rand::random::<u64>: draws one machine word from the thread's
/// entropy source; nothing can be promised of a random value.
#[verifier::external_body]
fn random_u64() -> u64 {
    rand::random::<u64>()
}

impl Sampler {
    pub fn new(seed: u64) -> (r: Sampler)
        ensures
            r.state == seed,
    {
        Sampler { state: seed }
    }

    /// Fresh generator seeded from the process's entropy source.
    pub fn from_entropy() -> Sampler {
        Sampler { state: random_u64() }
    }

    /// Next word of the sequence: a golden-ratio increment followed by two
    /// xor-shift-multiply mixing rounds.
    pub fn next_u64(&mut self) -> u64 {
        self.state = self.state.wrapping_add(0x9e3779b97f4a7c15u64);
        let mut z = self.state;
        z = (z ^ (z >> 30)).wrapping_mul(0xbf58476d1ce4e5b9u64);
        z = (z ^ (z >> 27)).wrapping_mul(0x94d049bb133111ebu64);
        z ^ (z >> 31)
    }

    /// A fixed-point value drawn from `[-1, 1]`.
    pub fn next_symmetric_unit(&mut self) -> (r: Fx)
        ensures
            -(SCALE as int) <= r@ <= SCALE as int,
    {
        let w = self.next_u64();
        let m: u64 = w % (2 * (SCALE as u64) + 1);
        Fx::new((m as i64) - SCALE)
    }

    /// A fixed-point value drawn from `[-0.5, 0.5)`, the box-filter jitter
    /// around a pixel centre.
    pub fn next_jitter(&mut self) -> (r: Fx)
        ensures
            -(SCALE as int) / 2 <= r@ < (SCALE as int) / 2,
    {
        let w = self.next_u64();
        let m: u64 = w % (SCALE as u64);
        Fx::new((m as i64) - SCALE / 2)
    }

    /// A fixed-point value drawn from `[0, 1)`, a uniform probability draw.
    pub fn next_unit(&mut self) -> (r: Fx)
        ensures
            0 <= r@ < SCALE as int,
    {
        let w = self.next_u64();
        let m: u64 = w % (SCALE as u64);
        Fx::new(m as i64)
    }
}

} // verus!
