//! Linear-space colors with three fixed-point channels, and their conversion
//! to display-ready bytes.

use vstd::prelude::*;

use crate::algebra::{spec_v_add, spec_v_mul, V3i};
use crate::fixed::{
    clamp64, div_trunc, fx_sqrt, lemma_isqrt_le, lemma_isqrt_square, lemma_tdiv_sign,
    lemma_unit_mul_range, spec_clamp, spec_sqrt, tdiv, SCALE,
};
use crate::sampler::Rng;

verus! {

/// All three channels lie in the unit interval.
pub open spec fn rgb_wf(c: V3i) -> bool {
    &&& 0 <= c.x <= SCALE
    &&& 0 <= c.y <= SCALE
    &&& 0 <= c.z <= SCALE
}

/// A linear-space color; channels are fixed-point scalars, with 0 black and
/// `SCALE` full intensity.
#[derive(Clone, Copy, Debug, PartialEq, Eq, Structural)]
pub struct Rgb {
    pub r: i64,
    pub g: i64,
    pub b: i64,
}

impl View for Rgb {
    type V = V3i;

    open spec fn view(&self) -> V3i {
        V3i { x: self.r as int, y: self.g as int, z: self.b as int }
    }
}

/// A quantized color: one byte per channel, as handed to the image sink.
#[derive(Clone, Copy, Debug, PartialEq, Eq, Structural)]
pub struct Rgb8 {
    pub r: u8,
    pub g: u8,
    pub b: u8,
}

/// The byte a unit-interval channel quantizes to.
pub open spec fn spec_quantize(ch: int) -> int {
    tdiv(spec_clamp(ch, 0, 65535), 256)
}

impl Rgb {
    /// A color from its three channels.
    pub fn new(r: i64, g: i64, b: i64) -> (c: Rgb)
        ensures
            c@ == (V3i { x: r as int, y: g as int, z: b as int }),
    {
        Rgb { r, g, b }
    }

    /// The gray with all three channels equal.
    pub fn gray(value: i64) -> (c: Rgb)
        ensures
            c@ == (V3i { x: value as int, y: value as int, z: value as int }),
    {
        Rgb { r: value, g: value, b: value }
    }

    /// Black: all channels zero.
    pub fn black() -> (c: Rgb)
        ensures
            c@ == (V3i { x: 0, y: 0, z: 0 }),
            rgb_wf(c@),
    {
        Rgb { r: 0, g: 0, b: 0 }
    }

    /// White: all channels at full intensity.
    pub fn white() -> (c: Rgb)
        ensures
            c@ == (V3i { x: SCALE as int, y: SCALE as int, z: SCALE as int }),
            rgb_wf(c@),
    {
        Rgb { r: SCALE, g: SCALE, b: SCALE }
    }

    /// A color with three independent uniform draws from [0, 1) as channels.
    pub fn random(rng: &mut Rng) -> (c: Rgb)
        ensures
            rgb_wf(c@),
    {
        let v = rng.random_vec3();
        Rgb { r: v.x, g: v.y, b: v.z }
    }

    /// A color with three independent uniform draws from [min, max) as
    /// channels; the bounds are forced into the unit interval first.
    pub fn random_in_range(rng: &mut Rng, min: i64, max: i64) -> (c: Rgb)
        ensures
            rgb_wf(c@),
            0 <= min <= max <= SCALE ==> min <= c@.x <= max && min <= c@.y <= max && min <= c@.z
                <= max,
    {
        let lo: i64 = clamp64(min, 0, SCALE);
        let hi: i64 = clamp64(max, 0, SCALE);
        let hi2: i64 = if hi < lo {
            lo
        } else {
            hi
        };
        let v = rng.random_vec3_in_range(lo, hi2);
        Rgb { r: v.x, g: v.y, b: v.z }
    }

    /// Red channel.
    pub fn r(&self) -> (ch: i64)
        ensures
            ch == self@.x,
    {
        self.r
    }

    /// Green channel.
    pub fn g(&self) -> (ch: i64)
        ensures
            ch == self@.y,
    {
        self.g
    }

    /// Blue channel.
    pub fn b(&self) -> (ch: i64)
        ensures
            ch == self@.z,
    {
        self.b
    }

    /// Componentwise product: `self` filtered by the attenuation `rhs`.
    pub fn attenuate(&self, rhs: &Rgb) -> (c: Rgb)
        requires
            rgb_wf(self@),
            rgb_wf(rhs@),
        ensures
            c@ == spec_v_mul(self@, rhs@),
            rgb_wf(c@),
    {
        proof {
            lemma_unit_mul_range(self@.x, rhs@.x);
            lemma_unit_mul_range(self@.y, rhs@.y);
            lemma_unit_mul_range(self@.z, rhs@.z);
        }
        let r: i128 = div_trunc((self.r as i128) * (rhs.r as i128), 65536);
        let g: i128 = div_trunc((self.g as i128) * (rhs.g as i128), 65536);
        let b: i128 = div_trunc((self.b as i128) * (rhs.b as i128), 65536);
        Rgb { r: r as i64, g: g as i64, b: b as i64 }
    }

    /// Componentwise sum, for accumulating per-pixel samples.
    pub fn add(&self, rhs: &Rgb) -> (c: Rgb)
        requires
            0 <= self@.x <= 0x3fffffffffffffff,
            0 <= self@.y <= 0x3fffffffffffffff,
            0 <= self@.z <= 0x3fffffffffffffff,
            0 <= rhs@.x <= 0x3fffffffffffffff,
            0 <= rhs@.y <= 0x3fffffffffffffff,
            0 <= rhs@.z <= 0x3fffffffffffffff,
        ensures
            c@ == spec_v_add(self@, rhs@),
    {
        Rgb { r: self.r + rhs.r, g: self.g + rhs.g, b: self.b + rhs.b }
    }

    /// Each channel divided by a positive sample count.
    pub fn divided_by(&self, n: u32) -> (c: Rgb)
        requires
            n >= 1,
            0 <= self@.x,
            0 <= self@.y,
            0 <= self@.z,
        ensures
            c@.x == tdiv(self@.x, n as int),
            c@.y == tdiv(self@.y, n as int),
            c@.z == tdiv(self@.z, n as int),
            0 <= c@.x <= self@.x,
            0 <= c@.y <= self@.y,
            0 <= c@.z <= self@.z,
    {
        proof {
            lemma_tdiv_sign(self@.x, n as int);
            lemma_tdiv_sign(self@.y, n as int);
            lemma_tdiv_sign(self@.z, n as int);
        }
        let r: i128 = div_trunc(self.r as i128, n as i128);
        let g: i128 = div_trunc(self.g as i128, n as i128);
        let b: i128 = div_trunc(self.b as i128, n as i128);
        Rgb { r: r as i64, g: g as i64, b: b as i64 }
    }

    /// Gamma correction for gamma = 2: the square root of each channel.
    pub fn gamma_corrected(&self) -> (c: Rgb)
        requires
            rgb_wf(self@),
        ensures
            c@.x == spec_sqrt(self@.x),
            c@.y == spec_sqrt(self@.y),
            c@.z == spec_sqrt(self@.z),
            rgb_wf(c@),
    {
        proof {
            lemma_gamma_unit(self@.x);
            lemma_gamma_unit(self@.y);
            lemma_gamma_unit(self@.z);
        }
        Rgb { r: fx_sqrt(self.r), g: fx_sqrt(self.g), b: fx_sqrt(self.b) }
    }

    /// The color quantized to one byte per channel: channels are forced just
    /// below full intensity and scaled to [0, 255].
    pub fn quantized(&self) -> (q: Rgb8)
        ensures
            q.r == spec_quantize(self@.x),
            q.g == spec_quantize(self@.y),
            q.b == spec_quantize(self@.z),
    {
        Rgb8 {
            r: Self::quantize_channel(self.r),
            g: Self::quantize_channel(self.g),
            b: Self::quantize_channel(self.b),
        }
    }

    /// One channel quantized to a byte.
    fn quantize_channel(ch: i64) -> (q: u8)
        ensures
            q == spec_quantize(ch as int),
    {
        let c: i64 = clamp64(ch, 0, 65535);
        proof {
            lemma_tdiv_sign(c as int, 256);
            vstd::arithmetic::div_mod::lemma_div_is_ordered(c as int, 65535, 256);
            assert(65535int / 256 == 255);
        }
        let q: i128 = div_trunc(c as i128, 256);
        q as u8
    }
}

/// The square root keeps the unit interval.
proof fn lemma_gamma_unit(ch: int)
    requires
        0 <= ch <= SCALE,
    ensures
        0 <= spec_sqrt(ch) <= SCALE,
{
    crate::fixed::lemma_isqrt_bounds(ch * 65536);
    lemma_isqrt_le(ch * 65536, (65536 * 65536) as int);
    lemma_isqrt_square(65536);
}

} // verus!
