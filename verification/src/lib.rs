use vstd::prelude::*;

pub mod camera;
pub mod fx;
pub mod hittable;
pub mod hittable_list;
pub mod interval;
pub mod material;
pub mod ray;
pub mod rng;
pub mod sphere;
pub mod vector;

use crate::fx::{fx_mul_v, fx_sqrt_v, tdiv, Fx};
use crate::interval::{clamp_v, Interval};

verus! {

/// A colour is a vector of three channel values, one unit being full
/// intensity before tone mapping.
pub type Colour = crate::vector::Vector;

/// Raw value of the square-root tone curve: zero for non-positive input.
pub open spec fn gamma_v(x: int) -> int {
    if x > 0 {
        fx_sqrt_v(x)
    } else {
        0
    }
}

/// The square-root tone curve applied to one linear channel.
fn linear_to_gamma(x: Fx) -> (r: Fx)
    ensures
        r@ == gamma_v(x@),
        r@ >= 0,
{
    if x.raw > 0 {
        crate::fx::fx_sqrt(x)
    } else {
        Fx::zero()
    }
}

/// The 8-bit channel value one linear channel quantizes to: gamma corrected,
/// clamped to just below one, and scaled by slightly less than 256.
pub open spec fn pixel_byte_v(x: int) -> int {
    tdiv(fx_mul_v(16776561, clamp_v(0, 65470, gamma_v(x))), 65536)
}

/// Quantize an averaged pixel colour to an 8-bit RGB triple: each channel is
/// gamma corrected, clamped to `[0, 0.999]` and scaled by `255.99`.
pub fn get_colour_from_pixel(pixel: Colour) -> (r: (u8, u8, u8))
    ensures
        r.0 as int == pixel_byte_v(pixel.x@),
        r.1 as int == pixel_byte_v(pixel.y@),
        r.2 as int == pixel_byte_v(pixel.z@),
{
    let interval = Interval::new(Fx::zero(), Fx::new(65470));
    let r_byte = quantize_channel(interval.clamp(linear_to_gamma(pixel.x)));
    let g_byte = quantize_channel(interval.clamp(linear_to_gamma(pixel.y)));
    let b_byte = quantize_channel(interval.clamp(linear_to_gamma(pixel.z)));
    (r_byte, g_byte, b_byte)
}

/// Scale a clamped channel by `255.99` and truncate to a byte.
fn quantize_channel(c: Fx) -> (r: u8)
    requires
        0 <= c@ <= 65470,
    ensures
        r as int == tdiv(fx_mul_v(16776561, c@), 65536),
{
    proof {
        crate::fx::lemma_mul_bound(16776561, c@, 16776561, 65470);
        crate::fx::lemma_tdiv_shrinks(16776561 * c@, 65536);
        crate::fx::lemma_tdiv_shrinks(fx_mul_v(16776561, c@), 65536);
        assert(16776561 * c@ >= 0) by (nonlinear_arith)
            requires
                c@ >= 0,
        ;
        vstd::arithmetic::div_mod::lemma_div_is_ordered(16776561 * c@, 1098361448670int, 65536);
        vstd::arithmetic::div_mod::lemma_div_is_ordered(fx_mul_v(16776561, c@), 16759665, 65536);
    }
    let scaled = Fx::new(16776561).mul(c);
    let b = scaled.trunc();
    b as u8
}

/// Re-encoding the same averaged cell always yields the same bytes: the
/// quantized triple is a function of the accumulated colour alone, with no
/// hidden state in the encoding.
pub proof fn lemma_pixel_encoding_deterministic(p: Colour, q: Colour)
    requires
        p == q,
    ensures
        pixel_byte_v(p.x@) == pixel_byte_v(q.x@),
        pixel_byte_v(p.y@) == pixel_byte_v(q.y@),
        pixel_byte_v(p.z@) == pixel_byte_v(q.z@),
{
}

} // verus!
