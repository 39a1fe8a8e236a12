//! Four-channel colors generic over a channel kind.
//!
//! A channel kind gives the representable range of one color component:
//! `u8` spans 0..=255, `u16` spans 0..=65535, and `i64` is the normalized
//! fixed-point kind whose value `v` stands for `v / UNIT` on the unit
//! interval. Conversions between kinds, packing to integers, alpha
//! premultiplication and the fast gamma pair live here.

use crate::arith::{
    lemma_rdiv_le, lemma_rdiv_nonneg, lemma_sqrt_floor, rdiv, rdiv64, rmul, rmul64, sqrt_floor,
    isqrt64, UNIT,
};
use vstd::arithmetic::div_mod::{lemma_div_is_ordered, lemma_div_multiples_vanish_fancy};
use vstd::prelude::*;

verus! {

/// A channel kind: one color component with a fixed representable range.
pub trait ColorChannel: Copy + Sized {
    /// The smallest representable channel value.
    spec fn spec_min() -> Self;

    /// The largest representable channel value, standing for full intensity.
    spec fn spec_max() -> Self;

    /// Returns the smallest representable channel value.
    fn min_value() -> (v: Self)
        ensures
            v == Self::spec_min(),
    ;

    /// Returns the largest representable channel value.
    fn max_value() -> (v: Self)
        ensures
            v == Self::spec_max(),
    ;
}

impl ColorChannel for u8 {
    open spec fn spec_min() -> u8 {
        0
    }

    open spec fn spec_max() -> u8 {
        255
    }

    fn min_value() -> (v: u8) {
        0
    }

    fn max_value() -> (v: u8) {
        255
    }
}

impl ColorChannel for u16 {
    open spec fn spec_min() -> u16 {
        0
    }

    open spec fn spec_max() -> u16 {
        65535
    }

    fn min_value() -> (v: u16) {
        0
    }

    fn max_value() -> (v: u16) {
        65535
    }
}

/// The normalized fixed-point kind: `v` stands for `v / UNIT` in [0, 1].
impl ColorChannel for i64 {
    open spec fn spec_min() -> i64 {
        0
    }

    open spec fn spec_max() -> i64 {
        UNIT
    }

    fn min_value() -> (v: i64) {
        0
    }

    fn max_value() -> (v: i64) {
        UNIT
    }
}

/// A color: red, green, blue and alpha channels of one channel kind.
///
/// Packing to an integer is explicit (`packed`/`unpacked`), with the most
/// significant byte holding alpha, then red, green and blue, so a packed
/// hexadecimal literal reads alpha-red-green-blue.
#[derive(Clone, Copy, Debug, PartialEq)]
pub struct RGBA<T: ColorChannel> {
    pub r: T,
    pub g: T,
    pub b: T,
    pub a: T,
}

/// The default 8-bit color.
pub type Color = RGBA<u8>;

impl<T: ColorChannel> RGBA<T> {
    /// Builds a color from its four channels.
    pub fn new(r: T, g: T, b: T, a: T) -> (c: Self)
        ensures
            c.r == r,
            c.g == g,
            c.b == b,
            c.a == a,
    {
        Self { r, g, b, a }
    }

    /// The three color channels, without alpha.
    pub fn to_arra3(self) -> (v: [T; 3])
        ensures
            v@ == seq![self.r, self.g, self.b],
    {
        [self.r, self.g, self.b]
    }

    /// All four channels, alpha last.
    pub fn to_array(self) -> (v: [T; 4])
        ensures
            v@ == seq![self.r, self.g, self.b, self.a],
    {
        [self.r, self.g, self.b, self.a]
    }

    /// Fully transparent black: every channel at the minimum.
    pub fn zeroed() -> (c: Self)
        ensures
            c.r == T::spec_min(),
            c.g == T::spec_min(),
            c.b == T::spec_min(),
            c.a == T::spec_min(),
    {
        Self { r: T::min_value(), g: T::min_value(), b: T::min_value(), a: T::min_value() }
    }

    /// Opaque white.
    pub fn white() -> (c: Self)
        ensures
            c.r == T::spec_max(),
            c.g == T::spec_max(),
            c.b == T::spec_max(),
            c.a == T::spec_max(),
    {
        Self { r: T::max_value(), g: T::max_value(), b: T::max_value(), a: T::max_value() }
    }

    /// Opaque black.
    pub fn black() -> (c: Self)
        ensures
            c.r == T::spec_min(),
            c.g == T::spec_min(),
            c.b == T::spec_min(),
            c.a == T::spec_max(),
    {
        Self { r: T::min_value(), g: T::min_value(), b: T::min_value(), a: T::max_value() }
    }

    /// Opaque green.
    pub fn green() -> (c: Self)
        ensures
            c.r == T::spec_min(),
            c.g == T::spec_max(),
            c.b == T::spec_min(),
            c.a == T::spec_max(),
    {
        Self { r: T::min_value(), g: T::max_value(), b: T::min_value(), a: T::max_value() }
    }

    /// Opaque blue.
    pub fn blue() -> (c: Self)
        ensures
            c.r == T::spec_min(),
            c.g == T::spec_min(),
            c.b == T::spec_max(),
            c.a == T::spec_max(),
    {
        Self { r: T::min_value(), g: T::min_value(), b: T::max_value(), a: T::max_value() }
    }

    /// Opaque red.
    pub fn red() -> (c: Self)
        ensures
            c.r == T::spec_max(),
            c.g == T::spec_min(),
            c.b == T::spec_min(),
            c.a == T::spec_max(),
    {
        Self { r: T::max_value(), g: T::min_value(), b: T::min_value(), a: T::max_value() }
    }

    /// Opaque cyan.
    pub fn cyan() -> (c: Self)
        ensures
            c.r == T::spec_min(),
            c.g == T::spec_max(),
            c.b == T::spec_max(),
            c.a == T::spec_max(),
    {
        Self { r: T::min_value(), g: T::max_value(), b: T::max_value(), a: T::max_value() }
    }

    /// Opaque yellow.
    pub fn yellow() -> (c: Self)
        ensures
            c.r == T::spec_max(),
            c.g == T::spec_max(),
            c.b == T::spec_min(),
            c.a == T::spec_max(),
    {
        Self { r: T::max_value(), g: T::max_value(), b: T::min_value(), a: T::max_value() }
    }

    /// Opaque purple.
    pub fn purple() -> (c: Self)
        ensures
            c.r == T::spec_max(),
            c.g == T::spec_min(),
            c.b == T::spec_max(),
            c.a == T::spec_max(),
    {
        Self { r: T::max_value(), g: T::min_value(), b: T::max_value(), a: T::max_value() }
    }
}

/// The default color is opaque black.
impl<T: ColorChannel> Default for RGBA<T> {
    fn default() -> (c: Self)
        ensures
            c.r == T::spec_min(),
            c.g == T::spec_min(),
            c.b == T::spec_min(),
            c.a == T::spec_max(),
    {
        Self::black()
    }
}

/// The packed 8-bit layout: `0xAARRGGBB` from most to least significant byte.
pub open spec fn pack32(c: RGBA<u8>) -> u32 {
    ((c.a as u32) << 24) | ((c.r as u32) << 16) | ((c.g as u32) << 8) | (c.b as u32)
}

/// The packed 16-bit layout: `0xAAAARRRRGGGGBBBB`.
pub open spec fn pack64(c: RGBA<u16>) -> u64 {
    ((c.a as u64) << 48) | ((c.r as u64) << 32) | ((c.g as u64) << 16) | (c.b as u64)
}

/// The rounded premultiplication of one 8-bit channel by alpha.
pub open spec fn mula8(c: u8, a: u8) -> int {
    (c * a + 127) / 256
}

/// The rounded premultiplication of one 16-bit channel by alpha.
pub open spec fn mula16(c: u16, a: u16) -> int {
    (c * a + 32767) / 65536
}

/// The 8-bit channel `v` normalized to the fixed-point scale: `v / 255`.
pub open spec fn normalize8(v: u8) -> int {
    rdiv(v * UNIT, 255)
}

/// The 16-bit channel `v` normalized to the fixed-point scale: `v / 65535`.
pub open spec fn normalize16(v: u16) -> int {
    rdiv(v * UNIT, 65535)
}

/// A fixed-point channel quantized to 8 bits: `v * 255` rounded to nearest.
pub open spec fn quantize8(v: i64) -> int {
    rdiv(v * 255, UNIT as int)
}

/// A fixed-point channel quantized to 16 bits: `v * 65535` rounded to nearest.
pub open spec fn quantize16(v: i64) -> int {
    rdiv(v * 65535, UNIT as int)
}

/// Normalizing an 8-bit channel is exact: the scale is a multiple of 255.
proof fn lemma_normalize8_exact(v: u8)
    ensures
        normalize8(v) == v * 514,
{
    assert(v * UNIT + 127 == 255 * (v * 514) + 127);
    lemma_div_multiples_vanish_fancy(v * 514, 127, 255);
}

/// Normalizing a 16-bit channel is exact: the scale is a multiple of 65535.
proof fn lemma_normalize16_exact(v: u16)
    ensures
        normalize16(v) == v * 2,
{
    assert(v * UNIT + 32767 == 65535 * (v * 2) + 32767);
    lemma_div_multiples_vanish_fancy(v * 2, 32767, 65535);
}

/// Quantizing an exactly normalized 8-bit channel returns the channel.
pub proof fn lemma_quantize_normalize8(v: u8)
    ensures
        quantize8((normalize8(v)) as i64) == v,
{
    lemma_normalize8_exact(v);
    assert((v * 514) * 255 == (v as int) * (UNIT as int));
    crate::arith::lemma_rdiv_exact(v as int, UNIT as int);
}

/// Quantizing an exactly normalized 16-bit channel returns the channel.
pub proof fn lemma_quantize_normalize16(v: u16)
    ensures
        quantize16((normalize16(v)) as i64) == v,
{
    lemma_normalize16_exact(v);
    assert((v * 2) * 65535 == (v as int) * (UNIT as int));
    crate::arith::lemma_rdiv_exact(v as int, UNIT as int);
}

/// Unpacking a packed 8-bit color recovers every channel.
proof fn lemma_pack32_unpack(r: u8, g: u8, b: u8, a: u8)
    by (bit_vector)
    ensures
        ((((a as u32) << 24) | ((r as u32) << 16) | ((g as u32) << 8) | (b as u32)) >> 24) & 0xFF
            == a,
        ((((a as u32) << 24) | ((r as u32) << 16) | ((g as u32) << 8) | (b as u32)) >> 16) & 0xFF
            == r,
        ((((a as u32) << 24) | ((r as u32) << 16) | ((g as u32) << 8) | (b as u32)) >> 8) & 0xFF
            == g,
        ((((a as u32) << 24) | ((r as u32) << 16) | ((g as u32) << 8) | (b as u32))) & 0xFF == b,
{
}

/// Unpacking a packed 16-bit color recovers every channel.
proof fn lemma_pack64_unpack(r: u16, g: u16, b: u16, a: u16)
    by (bit_vector)
    ensures
        ((((a as u64) << 48) | ((r as u64) << 32) | ((g as u64) << 16) | (b as u64)) >> 48)
            & 0xFFFF == a,
        ((((a as u64) << 48) | ((r as u64) << 32) | ((g as u64) << 16) | (b as u64)) >> 32)
            & 0xFFFF == r,
        ((((a as u64) << 48) | ((r as u64) << 32) | ((g as u64) << 16) | (b as u64)) >> 16)
            & 0xFFFF == g,
        ((((a as u64) << 48) | ((r as u64) << 32) | ((g as u64) << 16) | (b as u64))) & 0xFFFF
            == b,
{
}

/// Packing and unpacking an 8-bit color are exact inverses.
pub proof fn lemma_packed_roundtrip_u8(c: RGBA<u8>)
    ensures
        (pack32(c) >> 24) & 0xFF == c.a,
        (pack32(c) >> 16) & 0xFF == c.r,
        (pack32(c) >> 8) & 0xFF == c.g,
        pack32(c) & 0xFF == c.b,
{
    lemma_pack32_unpack(c.r, c.g, c.b, c.a);
}

/// Packing and unpacking a 16-bit color are exact inverses.
pub proof fn lemma_packed_roundtrip_u16(c: RGBA<u16>)
    ensures
        (pack64(c) >> 48) & 0xFFFF == c.a,
        (pack64(c) >> 32) & 0xFFFF == c.r,
        (pack64(c) >> 16) & 0xFFFF == c.g,
        pack64(c) & 0xFFFF == c.b,
{
    lemma_pack64_unpack(c.r, c.g, c.b, c.a);
}

impl RGBA<u8> {
    /// The color as a packed `0xAARRGGBB` integer.
    pub fn packed(&self) -> (p: u32)
        ensures
            p == pack32(*self),
    {
        ((self.a as u32) << 24) | ((self.r as u32) << 16) | ((self.g as u32) << 8) | (
        self.b as u32)
    }

    /// The inverse of `packed`: each byte of `p` becomes one channel.
    pub fn unpacked(p: u32) -> (c: Self)
        ensures
            c.a == (p >> 24) & 0xFF,
            c.r == (p >> 16) & 0xFF,
            c.g == (p >> 8) & 0xFF,
            c.b == p & 0xFF,
    {
        proof {
            assert((p >> 24) & 0xFF < 256 && (p >> 16) & 0xFF < 256 && (p >> 8) & 0xFF < 256 && p
                & 0xFF < 256) by (bit_vector);
        }
        Self {
            r: ((p >> 16) & 0xFF) as u8,
            g: ((p >> 8) & 0xFF) as u8,
            b: (p & 0xFF) as u8,
            a: ((p >> 24) & 0xFF) as u8,
        }
    }

    /// Premultiplies the color channels by alpha, rounding with a half bias;
    /// alpha itself is unchanged.
    pub fn mula(&self) -> (c: Self)
        ensures
            c.r == mula8(self.r, self.a),
            c.g == mula8(self.g, self.a),
            c.b == mula8(self.b, self.a),
            c.a == self.a,
    {
        proof {
            lemma_mula8_bound(self.r, self.a);
            lemma_mula8_bound(self.g, self.a);
            lemma_mula8_bound(self.b, self.a);
        }
        let alpha: u32 = self.a as u32;
        Self {
            r: (((self.r as u32) * alpha + 127) / 256) as u8,
            g: (((self.g as u32) * alpha + 127) / 256) as u8,
            b: (((self.b as u32) * alpha + 127) / 256) as u8,
            a: self.a,
        }
    }

    /// Widens to 16 bits by shifting each channel up one byte; the low byte
    /// of each widened channel is zero.
    pub fn widened(&self) -> (c: RGBA<u16>)
        ensures
            c.r == self.r * 256,
            c.g == self.g * 256,
            c.b == self.b * 256,
            c.a == self.a * 256,
    {
        RGBA::<u16> {
            r: (self.r as u16) * 256,
            g: (self.g as u16) * 256,
            b: (self.b as u16) * 256,
            a: (self.a as u16) * 256,
        }
    }

    /// Normalizes each channel to the fixed-point scale: `v / 255`, exactly.
    pub fn normalized(&self) -> (c: RGBA<i64>)
        ensures
            c.r == normalize8(self.r),
            c.g == normalize8(self.g),
            c.b == normalize8(self.b),
            c.a == normalize8(self.a),
            c.in_range(),
    {
        proof {
            lemma_normalize8_exact(self.r);
            lemma_normalize8_exact(self.g);
            lemma_normalize8_exact(self.b);
            lemma_normalize8_exact(self.a);
        }
        RGBA::<i64> {
            r: (self.r as i64) * 514,
            g: (self.g as i64) * 514,
            b: (self.b as i64) * 514,
            a: (self.a as i64) * 514,
        }
    }
}

/// The rounded 8-bit premultiplication stays inside the 8-bit range.
proof fn lemma_mula8_bound(c: u8, a: u8)
    ensures
        0 <= mula8(c, a) < 256,
{
    assert(c * a <= 65025) by (nonlinear_arith)
        requires
            c <= 255,
            a <= 255,
    ;
    assert(0 <= c * a) by (nonlinear_arith);
    lemma_div_is_ordered(c * a + 127, 65152, 256);
}

/// The rounded 16-bit premultiplication stays inside the 16-bit range.
proof fn lemma_mula16_bound(c: u16, a: u16)
    ensures
        0 <= mula16(c, a) < 65536,
{
    assert(c * a <= 4294836225) by (nonlinear_arith)
        requires
            c <= 65535,
            a <= 65535,
    ;
    assert(0 <= c * a) by (nonlinear_arith);
    lemma_div_is_ordered(c * a + 32767, 4294868992, 65536);
}

impl RGBA<u16> {
    /// The color as a packed `0xAAAARRRRGGGGBBBB` integer.
    pub fn packed(&self) -> (p: u64)
        ensures
            p == pack64(*self),
    {
        ((self.a as u64) << 48) | ((self.r as u64) << 32) | ((self.g as u64) << 16) | (
        self.b as u64)
    }

    /// The inverse of `packed`: each 16-bit lane of `p` becomes one channel.
    pub fn unpacked(p: u64) -> (c: Self)
        ensures
            c.a == (p >> 48) & 0xFFFF,
            c.r == (p >> 32) & 0xFFFF,
            c.g == (p >> 16) & 0xFFFF,
            c.b == p & 0xFFFF,
    {
        proof {
            assert((p >> 48) & 0xFFFF < 65536 && (p >> 32) & 0xFFFF < 65536 && (p >> 16) & 0xFFFF
                < 65536 && p & 0xFFFF < 65536) by (bit_vector);
        }
        Self {
            r: ((p >> 32) & 0xFFFF) as u16,
            g: ((p >> 16) & 0xFFFF) as u16,
            b: (p & 0xFFFF) as u16,
            a: ((p >> 48) & 0xFFFF) as u16,
        }
    }

    /// Premultiplies the color channels by alpha, rounding with a half bias;
    /// alpha itself is unchanged.
    pub fn mula(&self) -> (c: Self)
        ensures
            c.r == mula16(self.r, self.a),
            c.g == mula16(self.g, self.a),
            c.b == mula16(self.b, self.a),
            c.a == self.a,
    {
        proof {
            lemma_mula16_bound(self.r, self.a);
            lemma_mula16_bound(self.g, self.a);
            lemma_mula16_bound(self.b, self.a);
        }
        let alpha: u64 = self.a as u64;
        Self {
            r: (((self.r as u64) * alpha + 32767) / 65536) as u16,
            g: (((self.g as u64) * alpha + 32767) / 65536) as u16,
            b: (((self.b as u64) * alpha + 32767) / 65536) as u16,
            a: self.a,
        }
    }

    /// Narrows to 8 bits by dropping the low byte of each channel, without
    /// rounding.
    pub fn narrowed(&self) -> (c: RGBA<u8>)
        ensures
            c.r == self.r / 256,
            c.g == self.g / 256,
            c.b == self.b / 256,
            c.a == self.a / 256,
    {
        RGBA::<u8> {
            r: (self.r / 256) as u8,
            g: (self.g / 256) as u8,
            b: (self.b / 256) as u8,
            a: (self.a / 256) as u8,
        }
    }

    /// Normalizes each channel to the fixed-point scale: `v / 65535`, exactly.
    pub fn normalized(&self) -> (c: RGBA<i64>)
        ensures
            c.r == normalize16(self.r),
            c.g == normalize16(self.g),
            c.b == normalize16(self.b),
            c.a == normalize16(self.a),
            c.in_range(),
    {
        proof {
            lemma_normalize16_exact(self.r);
            lemma_normalize16_exact(self.g);
            lemma_normalize16_exact(self.b);
            lemma_normalize16_exact(self.a);
        }
        RGBA::<i64> {
            r: (self.r as i64) * 2,
            g: (self.g as i64) * 2,
            b: (self.b as i64) * 2,
            a: (self.a as i64) * 2,
        }
    }
}

impl RGBA<i64> {
    /// Every channel lies on the fixed-point unit interval.
    pub open spec fn in_range(self) -> bool {
        0 <= self.r <= UNIT && 0 <= self.g <= UNIT && 0 <= self.b <= UNIT && 0 <= self.a <= UNIT
    }

    /// Premultiplies the color channels by alpha in fixed point; alpha itself
    /// is unchanged.
    pub fn mula(&self) -> (c: Self)
        requires
            self.in_range(),
        ensures
            c.r == rmul(self.r as int, self.a as int),
            c.g == rmul(self.g as int, self.a as int),
            c.b == rmul(self.b as int, self.a as int),
            c.a == self.a,
            c.in_range(),
    {
        Self {
            r: rmul64(self.r, self.a),
            g: rmul64(self.g, self.a),
            b: rmul64(self.b, self.a),
            a: self.a,
        }
    }

    /// Quantizes each channel to 8 bits: `v * 255` rounded to nearest.
    pub fn quantize(&self) -> (c: RGBA<u8>)
        requires
            self.in_range(),
        ensures
            c.r == quantize8(self.r),
            c.g == quantize8(self.g),
            c.b == quantize8(self.b),
            c.a == quantize8(self.a),
    {
        proof {
            lemma_quantize8_bound(self.r);
            lemma_quantize8_bound(self.g);
            lemma_quantize8_bound(self.b);
            lemma_quantize8_bound(self.a);
        }
        RGBA::<u8> {
            r: rdiv64(self.r * 255, UNIT) as u8,
            g: rdiv64(self.g * 255, UNIT) as u8,
            b: rdiv64(self.b * 255, UNIT) as u8,
            a: rdiv64(self.a * 255, UNIT) as u8,
        }
    }

    /// Quantizes each channel to 16 bits: `v * 65535` rounded to nearest.
    pub fn quantize16(&self) -> (c: RGBA<u16>)
        requires
            self.in_range(),
        ensures
            c.r == quantize16(self.r),
            c.g == quantize16(self.g),
            c.b == quantize16(self.b),
            c.a == quantize16(self.a),
    {
        proof {
            lemma_quantize16_bound(self.r);
            lemma_quantize16_bound(self.g);
            lemma_quantize16_bound(self.b);
            lemma_quantize16_bound(self.a);
        }
        RGBA::<u16> {
            r: rdiv64(self.r * 65535, UNIT) as u16,
            g: rdiv64(self.g * 65535, UNIT) as u16,
            b: rdiv64(self.b * 65535, UNIT) as u16,
            a: rdiv64(self.a * 65535, UNIT) as u16,
        }
    }

    /// Maps a gamma-encoded color to linear light with the fast approximate
    /// curve: each color channel is squared; alpha is unchanged.
    pub fn map2linear(&self) -> (c: Self)
        requires
            self.in_range(),
        ensures
            c.r == rmul(self.r as int, self.r as int),
            c.g == rmul(self.g as int, self.g as int),
            c.b == rmul(self.b as int, self.b as int),
            c.a == self.a,
            c.in_range(),
    {
        Self {
            r: rmul64(self.r, self.r),
            g: rmul64(self.g, self.g),
            b: rmul64(self.b, self.b),
            a: self.a,
        }
    }

    /// Maps a linear-light color to the fast approximate gamma encoding:
    /// each color channel becomes the floor square root in fixed scale;
    /// alpha is unchanged.
    pub fn map2gamma(&self) -> (c: Self)
        requires
            self.in_range(),
        ensures
            c.r == sqrt_floor((self.r * UNIT) as nat),
            c.g == sqrt_floor((self.g * UNIT) as nat),
            c.b == sqrt_floor((self.b * UNIT) as nat),
            c.a == self.a,
            c.in_range(),
    {
        Self {
            r: gamma_encode_channel(self.r),
            g: gamma_encode_channel(self.g),
            b: gamma_encode_channel(self.b),
            a: self.a,
        }
    }
}

/// A quantized 8-bit channel stays inside the 8-bit range.
proof fn lemma_quantize8_bound(v: i64)
    requires
        0 <= v <= UNIT,
    ensures
        0 <= quantize8(v) <= 255,
{
    lemma_rdiv_nonneg(v * 255, UNIT as int);
    lemma_rdiv_le(v * 255, UNIT as int, 255);
}

/// A quantized 16-bit channel stays inside the 16-bit range.
proof fn lemma_quantize16_bound(v: i64)
    requires
        0 <= v <= UNIT,
    ensures
        0 <= quantize16(v) <= 65535,
{
    lemma_rdiv_nonneg(v * 65535, UNIT as int);
    lemma_rdiv_le(v * 65535, UNIT as int, 65535);
}

/// The fast gamma encoding of one fixed-point channel: the floor square root
/// of `v * UNIT`, which stays on the unit interval.
fn gamma_encode_channel(v: i64) -> (s: i64)
    requires
        0 <= v <= UNIT,
    ensures
        s == sqrt_floor((v * UNIT) as nat),
        0 <= s <= UNIT,
{
    let n: u64 = (v as u64) * 131070;
    proof {
        assert(n == v * UNIT && n < 0x4_0000_0000);
    }
    let s = isqrt64(n);
    proof {
        lemma_sqrt_floor((v * UNIT) as nat);
        assert(s <= UNIT) by (nonlinear_arith)
            requires
                s * s <= v * UNIT,
                v <= UNIT,
                0 <= s,
                0 <= v,
        ;
    }
    s as i64
}

} // verus!
