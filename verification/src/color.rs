//! Tone mapping: gamma-2 encoding and quantization of linear radiance to
//! 8-bit channels.

use vstd::prelude::*;
use crate::fixed::{SCALE, fx_sqrt, spec_sqrt, spec_clamp, tdiv, lemma_tdiv_bounds};
use crate::interval::Interval;
use crate::vec3::{Vec3, V3};

verus! {

/// The largest channel intensity that quantizes below one: just under
/// `0.999` in fixed point.
pub const MAX_INTENSITY: i64 = 65470;

/// Gamma-2 encoding: the square root of a positive linear component, zero
/// otherwise.
pub open spec fn spec_linear_to_gamma(c: int) -> int {
    if c > 0 {
        spec_sqrt(c)
    } else {
        0
    }
}

/// One channel of the output pixel: gamma-encode, clamp to
/// `[0, MAX_INTENSITY]`, and quantize to 8 bits.
pub open spec fn spec_channel(c: int) -> int {
    tdiv(spec_clamp(spec_linear_to_gamma(c), 0, MAX_INTENSITY as int) * 256, SCALE as int)
}

/// Gamma-2 encoding of one linear component.
pub fn linear_to_gamma(linear_component: i64) -> (r: i64)
    ensures
        r == spec_linear_to_gamma(linear_component as int),
{
    if linear_component > 0 {
        fx_sqrt(linear_component)
    } else {
        0
    }
}

/// A colour of linear radiance turned into one 8-bit RGB pixel: each
/// channel gamma-encoded, clamped and quantized. Zero radiance gives
/// channel 0; radiance one, or anything above the clamp, gives 255.
pub fn to_rgb8(color: &Vec3) -> (r: (u8, u8, u8))
    ensures
        r.0 == spec_channel(color@.x),
        r.1 == spec_channel(color@.y),
        r.2 == spec_channel(color@.z),
{
    let intensity = Interval::new(0, MAX_INTENSITY);
    (
        quantize(intensity.clamp(linear_to_gamma(color.x()))),
        quantize(intensity.clamp(linear_to_gamma(color.y()))),
        quantize(intensity.clamp(linear_to_gamma(color.z()))),
    )
}

fn quantize(c: i64) -> (r: u8)
    requires
        0 <= c <= MAX_INTENSITY,
    ensures
        r == tdiv(c as int * 256, SCALE as int),
{
    proof {
        lemma_tdiv_bounds(c as int * 256, SCALE as int);
        vstd::arithmetic::div_mod::lemma_multiply_divide_lt(c as int * 256, SCALE as int, 256);
    }
    ((c * 256) / SCALE) as u8
}

} // verus!
