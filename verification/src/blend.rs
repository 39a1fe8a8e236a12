//! Porter-Duff compositing operators and color blending modes.
//!
//! Compositing (`composite`-based operators) takes non-premultiplied source
//! and backdrop colors and produces an alpha-weighted (premultiplied) result:
//! the result channels are `Fa*as*Cs + Fb*ab*Cb` and the result alpha is
//! `min(1, Fa*as + Fb*ab)`, each operator supplying its `(Fa, Fb)` pair. The
//! output is deliberately left premultiplied; callers un-premultiply before
//! further blending.
//!
//! Blending (`blend_channel`-based modes) mixes each color channel through a
//! per-mode function `B(cb, cs)` as `(1 - ab)*Cs + ab*B(Cb, Cs)` and keeps
//! the source alpha; the non-separable HSL modes adjust saturation and
//! luminosity of the whole color instead.

pub use crate::color::RGBA;

use crate::arith::{
    imax, imax3, imin, imin3, lemma_mul_bound_abs, lemma_rdiv_bound, lemma_rdiv_exact,
    lemma_rdiv_le, lemma_rdiv_nonneg, lemma_rdiv_zero, lemma_rmul_unit, lemma_rmul_zero,
    lemma_unit_product, rdiv, rdiv64, rmul, rmul64, sqrt_floor, isqrt64, HALF, UNIT,
};
use vstd::arithmetic::div_mod::lemma_hoist_over_denominator;
use vstd::prelude::*;

verus! {

/// The closed set of compositing operators and blending modes.
#[derive(Clone, Copy, Debug, PartialEq)]
pub enum BlendMode {
    // (Alpha) Porter-Duff compositing operators:
    /// No regions are enabled.
    Clear,
    /// Only the source will be present.
    Copy,
    /// Only the destination will be present.
    Dest,
    /// Source is placed over the destination.
    SrcOver,
    /// The source that overlaps the destination, replaces the destination.
    SrcIn,
    /// Source is placed, where it falls outside of the destination.
    SrcOut,
    /// Source which overlaps the destination, replaces the destination.
    /// Destination is placed elsewhere.
    SrcAtop,
    /// Destination is placed over the source.
    DstOver,
    /// Destination which overlaps the source, replaces the source.
    DstIn,
    /// Destination is placed, where it falls outside of the source.
    DstOut,
    /// Destination which overlaps the source replaces the source.
    /// Source is placed elsewhere.
    DstAtop,
    /// The non-overlapping regions of source and destination are combined.
    XOR,
    /// Display the sum of the source image and destination image.
    /// It is defined in the Porter-Duff paper as the 'plus' operator.
    Lighter,
    // (Color) blending modes:
    /// This is the default attribute which specifies no blending.
    Normal,
    /// The source color is multiplied by the destination color and
    /// replaces the destination.
    Multiply,
    /// Multiplies the complements of the backdrop and source color values,
    /// then complements the result.
    Screen,
    /// Multiplies or screens the colors, depending on the backdrop color value.
    Overlay,
    /// Selects the darker of the backdrop and source colors.
    Darken,
    /// Selects the lighter of the backdrop and source colors.
    Lighten,
    /// Brightens the backdrop color to reflect the source color.
    /// Painting with black produces no change.
    ColorDodge,
    /// Darkens the backdrop color to reflect the source color.
    /// Painting with white produces no change.
    ColorBurn,
    /// Multiplies or screens the colors, depending on the source color value.
    /// The effect is similar to shining a harsh spotlight on the backdrop.
    HardLight,
    /// Darkens or lightens the colors, depending on the source color value.
    /// The effect is similar to shining a diffused spotlight on the backdrop.
    SoftLight,
    /// Subtracts the darker of the two constituent colors from the lighter color.
    Difference,
    /// Produces an effect similar to that of the Difference mode but
    /// lower in contrast.
    Exclusion,
    /// Creates a color with the hue of the source color and
    /// the saturation and luminosity of the backdrop color.
    Hue,
    /// Creates a color with the saturation of the source color and
    /// the hue and luminosity of the backdrop color.
    Saturation,
    /// Creates a color with the hue and saturation of the source color and
    /// the luminosity of the backdrop color.
    Color,
    /// Creates a color with the luminosity of the source color and
    /// the hue and saturation of the backdrop color.
    Luminosity,
    // Extended blending modes:
    /// Divides the backdrop channel by the source channel, saturating at white.
    Divide,
    /// Subtracts the source channel from the backdrop channel, flooring at black.
    Subtract,
    /// Sums the two channels and subtracts one, flooring at black.
    LinearBurn,
    /// Sums the two channels, saturating at white.
    LinearDodge,
    /// Combines Linear Dodge and Linear Burn, keyed on the backdrop channel.
    LinearLight,
    /// Combines Color Dodge and Color Burn, keyed on the source channel.
    VividLight,
    /// Snaps each channel to black or white by comparing source and backdrop.
    HardMix,
    /// Replaces the backdrop channel only where it flattens the picture.
    PinLight,
    /// Keeps the backdrop channel, ignoring the source.
    Overwrite,
}

/// A compositing operator is a blend mode of the Porter-Duff family.
pub type CompOp = BlendMode;

/// One composited color channel: the alpha-weighted sum
/// `Fa*as*Cs + Fb*ab*Cb`, each product rounded at the fixed-point scale.
pub open spec fn comp_channel(fa: int, fb: int, sa: int, da: int, cs: int, cb: int) -> int {
    rdiv(rmul(fa, sa) * cs + rmul(fb, da) * cb, UNIT as int)
}

/// The composited alpha: `min(1, Fa*as + Fb*ab)`.
pub open spec fn comp_alpha(fa: int, fb: int, sa: int, da: int) -> int {
    imin(UNIT as int, rmul(fa, sa) + rmul(fb, da))
}

/// One blended color channel: `(1 - ab)*Cs + ab*B`, rounded once at the
/// fixed-point scale, where `B` is the value of the per-mode mixing function.
pub open spec fn blend_channel(ab: int, cs: int, bv: int) -> int {
    rdiv((UNIT - ab) * cs + ab * bv, UNIT as int)
}

impl RGBA<i64> {
    /// Composite: every channel is `Fa*as*Cs + Fb*ab*Cb` and the alpha is
    /// `min(1, Fa*as + Fb*ab)`. Outputs a premultiplied color with alpha from
    /// the non-premultiplied source (`self`) and destination/backdrop colors.
    fn composite(self, dest: Self, fa: i64, fb: i64) -> (out: Self)
        requires
            self.in_range(),
            dest.in_range(),
            0 <= fa <= UNIT,
            0 <= fb <= UNIT,
        ensures
            out.r == comp_channel(fa as int, fb as int, self.a as int, dest.a as int,
                self.r as int, dest.r as int),
            out.g == comp_channel(fa as int, fb as int, self.a as int, dest.a as int,
                self.g as int, dest.g as int),
            out.b == comp_channel(fa as int, fb as int, self.a as int, dest.a as int,
                self.b as int, dest.b as int),
            out.a == comp_alpha(fa as int, fb as int, self.a as int, dest.a as int),
    {
        let wa = rmul64(fa, self.a);
        let wb = rmul64(fb, dest.a);
        proof {
            lemma_unit_product(wa as int, self.r as int);
            lemma_unit_product(wa as int, self.g as int);
            lemma_unit_product(wa as int, self.b as int);
            lemma_unit_product(wb as int, dest.r as int);
            lemma_unit_product(wb as int, dest.g as int);
            lemma_unit_product(wb as int, dest.b as int);
        }
        let r = rdiv64(wa * self.r + wb * dest.r, UNIT);
        let g = rdiv64(wa * self.g + wb * dest.g, UNIT);
        let b = rdiv64(wa * self.b + wb * dest.b, UNIT);
        let sum: i64 = wa + wb;
        let a: i64 = if sum < UNIT {
            sum
        } else {
            UNIT
        };
        Self { r, g, b, a }
    }

    /// No regions are enabled: the result is fully transparent black.
    pub fn clear(self) -> (out: Self)
        ensures
            out.r == 0,
            out.g == 0,
            out.b == 0,
            out.a == 0,
    {
        Self::zeroed()
    }

    /// Only the source will be present.
    pub fn copy(self, dest: Self) -> (out: Self)
        requires
            self.in_range(),
            dest.in_range(),
        ensures
            out.r == comp_channel(UNIT as int, 0, self.a as int, dest.a as int, self.r as int,
                dest.r as int),
            out.g == comp_channel(UNIT as int, 0, self.a as int, dest.a as int, self.g as int,
                dest.g as int),
            out.b == comp_channel(UNIT as int, 0, self.a as int, dest.a as int, self.b as int,
                dest.b as int),
            out.a == comp_alpha(UNIT as int, 0, self.a as int, dest.a as int),
    {
        self.composite(dest, UNIT, 0)
    }

    /// Only the destination will be present.
    pub fn drop(self, dest: Self) -> (out: Self)
        requires
            self.in_range(),
            dest.in_range(),
        ensures
            out.r == comp_channel(0, UNIT as int, self.a as int, dest.a as int, self.r as int,
                dest.r as int),
            out.g == comp_channel(0, UNIT as int, self.a as int, dest.a as int, self.g as int,
                dest.g as int),
            out.b == comp_channel(0, UNIT as int, self.a as int, dest.a as int, self.b as int,
                dest.b as int),
            out.a == comp_alpha(0, UNIT as int, self.a as int, dest.a as int),
    {
        self.composite(dest, 0, UNIT)
    }

    /// Display the sum of the source image and destination image; the alpha
    /// is the clamped sum of the two alphas.
    pub fn plus(self, dest: Self) -> (out: Self)
        requires
            self.in_range(),
            dest.in_range(),
        ensures
            out.r == comp_channel(UNIT as int, UNIT as int, self.a as int, dest.a as int,
                self.r as int, dest.r as int),
            out.g == comp_channel(UNIT as int, UNIT as int, self.a as int, dest.a as int,
                self.g as int, dest.g as int),
            out.b == comp_channel(UNIT as int, UNIT as int, self.a as int, dest.a as int,
                self.b as int, dest.b as int),
            out.a == imin(UNIT as int, self.a + dest.a),
    {
        proof {
            lemma_rmul_unit(self.a as int);
            lemma_rmul_unit(dest.a as int);
        }
        self.composite(dest, UNIT, UNIT)
    }

    /// Source is placed over the destination.
    pub fn src_over(self, dest: Self) -> (out: Self)
        requires
            self.in_range(),
            dest.in_range(),
        ensures
            out.r == comp_channel(UNIT as int, UNIT - self.a, self.a as int, dest.a as int,
                self.r as int, dest.r as int),
            out.g == comp_channel(UNIT as int, UNIT - self.a, self.a as int, dest.a as int,
                self.g as int, dest.g as int),
            out.b == comp_channel(UNIT as int, UNIT - self.a, self.a as int, dest.a as int,
                self.b as int, dest.b as int),
            out.a == comp_alpha(UNIT as int, UNIT - self.a, self.a as int, dest.a as int),
    {
        let fb: i64 = UNIT - self.a;
        self.composite(dest, UNIT, fb)
    }

    /// Destination is placed over the source.
    pub fn dst_over(self, dest: Self) -> (out: Self)
        requires
            self.in_range(),
            dest.in_range(),
        ensures
            out.r == comp_channel(UNIT - dest.a, UNIT as int, self.a as int, dest.a as int,
                self.r as int, dest.r as int),
            out.g == comp_channel(UNIT - dest.a, UNIT as int, self.a as int, dest.a as int,
                self.g as int, dest.g as int),
            out.b == comp_channel(UNIT - dest.a, UNIT as int, self.a as int, dest.a as int,
                self.b as int, dest.b as int),
            out.a == comp_alpha(UNIT - dest.a, UNIT as int, self.a as int, dest.a as int),
    {
        let fa: i64 = UNIT - dest.a;
        self.composite(dest, fa, UNIT)
    }

    /// Source is placed, where it falls outside of the destination.
    pub fn src_out(self, dest: Self) -> (out: Self)
        requires
            self.in_range(),
            dest.in_range(),
        ensures
            out.r == comp_channel(UNIT - dest.a, 0, self.a as int, dest.a as int, self.r as int,
                dest.r as int),
            out.g == comp_channel(UNIT - dest.a, 0, self.a as int, dest.a as int, self.g as int,
                dest.g as int),
            out.b == comp_channel(UNIT - dest.a, 0, self.a as int, dest.a as int, self.b as int,
                dest.b as int),
            out.a == comp_alpha(UNIT - dest.a, 0, self.a as int, dest.a as int),
    {
        let fa: i64 = UNIT - dest.a;
        self.composite(dest, fa, 0)
    }

    /// Destination is placed, where it falls outside of the source.
    pub fn dst_out(self, dest: Self) -> (out: Self)
        requires
            self.in_range(),
            dest.in_range(),
        ensures
            out.r == comp_channel(0, UNIT - self.a, self.a as int, dest.a as int, self.r as int,
                dest.r as int),
            out.g == comp_channel(0, UNIT - self.a, self.a as int, dest.a as int, self.g as int,
                dest.g as int),
            out.b == comp_channel(0, UNIT - self.a, self.a as int, dest.a as int, self.b as int,
                dest.b as int),
            out.a == comp_alpha(0, UNIT - self.a, self.a as int, dest.a as int),
    {
        let fb: i64 = UNIT - self.a;
        self.composite(dest, 0, fb)
    }

    /// The source that overlaps the destination, replaces the destination.
    pub fn src_in(self, dest: Self) -> (out: Self)
        requires
            self.in_range(),
            dest.in_range(),
        ensures
            out.r == comp_channel(dest.a as int, 0, self.a as int, dest.a as int, self.r as int,
                dest.r as int),
            out.g == comp_channel(dest.a as int, 0, self.a as int, dest.a as int, self.g as int,
                dest.g as int),
            out.b == comp_channel(dest.a as int, 0, self.a as int, dest.a as int, self.b as int,
                dest.b as int),
            out.a == comp_alpha(dest.a as int, 0, self.a as int, dest.a as int),
    {
        self.composite(dest, dest.a, 0)
    }

    /// Destination which overlaps the source, replaces the source.
    pub fn dst_in(self, dest: Self) -> (out: Self)
        requires
            self.in_range(),
            dest.in_range(),
        ensures
            out.r == comp_channel(0, self.a as int, self.a as int, dest.a as int, self.r as int,
                dest.r as int),
            out.g == comp_channel(0, self.a as int, self.a as int, dest.a as int, self.g as int,
                dest.g as int),
            out.b == comp_channel(0, self.a as int, self.a as int, dest.a as int, self.b as int,
                dest.b as int),
            out.a == comp_alpha(0, self.a as int, self.a as int, dest.a as int),
    {
        self.composite(dest, 0, self.a)
    }

    /// Display the sum of the source image and destination image.
    pub fn lighter(self, dest: Self) -> (out: Self)
        requires
            self.in_range(),
            dest.in_range(),
        ensures
            out.r == comp_channel(UNIT as int, UNIT as int, self.a as int, dest.a as int,
                self.r as int, dest.r as int),
            out.g == comp_channel(UNIT as int, UNIT as int, self.a as int, dest.a as int,
                self.g as int, dest.g as int),
            out.b == comp_channel(UNIT as int, UNIT as int, self.a as int, dest.a as int,
                self.b as int, dest.b as int),
            out.a == imin(UNIT as int, self.a + dest.a),
    {
        self.plus(dest)
    }

    /// Source which overlaps the destination, replaces the destination.
    /// Destination is placed elsewhere.
    pub fn src_atop(self, dest: Self) -> (out: Self)
        requires
            self.in_range(),
            dest.in_range(),
        ensures
            out.r == comp_channel(dest.a as int, UNIT - self.a, self.a as int, dest.a as int,
                self.r as int, dest.r as int),
            out.g == comp_channel(dest.a as int, UNIT - self.a, self.a as int, dest.a as int,
                self.g as int, dest.g as int),
            out.b == comp_channel(dest.a as int, UNIT - self.a, self.a as int, dest.a as int,
                self.b as int, dest.b as int),
            out.a == comp_alpha(dest.a as int, UNIT - self.a, self.a as int, dest.a as int),
    {
        let fb: i64 = UNIT - self.a;
        self.composite(dest, dest.a, fb)
    }

    /// Destination which overlaps the source replaces the source. Source is
    /// placed elsewhere.
    pub fn dst_atop(self, dest: Self) -> (out: Self)
        requires
            self.in_range(),
            dest.in_range(),
        ensures
            out.r == comp_channel(UNIT - dest.a, self.a as int, self.a as int, dest.a as int,
                self.r as int, dest.r as int),
            out.g == comp_channel(UNIT - dest.a, self.a as int, self.a as int, dest.a as int,
                self.g as int, dest.g as int),
            out.b == comp_channel(UNIT - dest.a, self.a as int, self.a as int, dest.a as int,
                self.b as int, dest.b as int),
            out.a == comp_alpha(UNIT - dest.a, self.a as int, self.a as int, dest.a as int),
    {
        let fa: i64 = UNIT - dest.a;
        self.composite(dest, fa, self.a)
    }

    /// The non-overlapping regions of source and destination are combined.
    pub fn xor(self, dest: Self) -> (out: Self)
        requires
            self.in_range(),
            dest.in_range(),
        ensures
            out.r == comp_channel(UNIT - dest.a, UNIT - self.a, self.a as int, dest.a as int,
                self.r as int, dest.r as int),
            out.g == comp_channel(UNIT - dest.a, UNIT - self.a, self.a as int, dest.a as int,
                self.g as int, dest.g as int),
            out.b == comp_channel(UNIT - dest.a, UNIT - self.a, self.a as int, dest.a as int,
                self.b as int, dest.b as int),
            out.a == comp_alpha(UNIT - dest.a, UNIT - self.a, self.a as int, dest.a as int),
    {
        let fa: i64 = UNIT - dest.a;
        let fb: i64 = UNIT - self.a;
        self.composite(dest, fa, fb)
    }
}

/// The Copy operator returns the source premultiplied by its own alpha; an
/// opaque source comes back exactly.
pub proof fn lemma_copy_law(s: RGBA<i64>, d: RGBA<i64>)
    requires
        s.in_range(),
        d.in_range(),
    ensures
        comp_channel(UNIT as int, 0, s.a as int, d.a as int, s.r as int, d.r as int) == rmul(
            s.r as int, s.a as int),
        comp_channel(UNIT as int, 0, s.a as int, d.a as int, s.g as int, d.g as int) == rmul(
            s.g as int, s.a as int),
        comp_channel(UNIT as int, 0, s.a as int, d.a as int, s.b as int, d.b as int) == rmul(
            s.b as int, s.a as int),
        comp_alpha(UNIT as int, 0, s.a as int, d.a as int) == s.a,
        s.a == UNIT ==> comp_channel(UNIT as int, 0, s.a as int, d.a as int, s.r as int,
            d.r as int) == s.r,
        s.a == UNIT ==> comp_channel(UNIT as int, 0, s.a as int, d.a as int, s.g as int,
            d.g as int) == s.g,
        s.a == UNIT ==> comp_channel(UNIT as int, 0, s.a as int, d.a as int, s.b as int,
            d.b as int) == s.b,
{
    lemma_rmul_unit(s.a as int);
    lemma_rmul_zero(d.a as int);
    lemma_copy_channel(s.a as int, s.r as int, d.r as int);
    lemma_copy_channel(s.a as int, s.g as int, d.g as int);
    lemma_copy_channel(s.a as int, s.b as int, d.b as int);
    if s.a == UNIT {
        lemma_rmul_unit(s.r as int);
        lemma_rmul_unit(s.g as int);
        lemma_rmul_unit(s.b as int);
    }
}

/// A channel weighted fully toward the source is the premultiplied source.
proof fn lemma_copy_channel(sa: int, cs: int, cb: int)
    ensures
        rdiv(sa * cs + 0 * cb, UNIT as int) == rmul(cs, sa),
{
    assert(sa * cs == cs * sa) by (nonlinear_arith);
    assert(0 * cb == 0) by (nonlinear_arith);
}

/// The Dest operator returns the backdrop premultiplied by its own alpha; an
/// opaque backdrop comes back exactly.
pub proof fn lemma_dest_law(s: RGBA<i64>, d: RGBA<i64>)
    requires
        s.in_range(),
        d.in_range(),
    ensures
        comp_channel(0, UNIT as int, s.a as int, d.a as int, s.r as int, d.r as int) == rmul(
            d.r as int, d.a as int),
        comp_channel(0, UNIT as int, s.a as int, d.a as int, s.g as int, d.g as int) == rmul(
            d.g as int, d.a as int),
        comp_channel(0, UNIT as int, s.a as int, d.a as int, s.b as int, d.b as int) == rmul(
            d.b as int, d.a as int),
        comp_alpha(0, UNIT as int, s.a as int, d.a as int) == d.a,
        d.a == UNIT ==> comp_channel(0, UNIT as int, s.a as int, d.a as int, s.r as int,
            d.r as int) == d.r,
        d.a == UNIT ==> comp_channel(0, UNIT as int, s.a as int, d.a as int, s.g as int,
            d.g as int) == d.g,
        d.a == UNIT ==> comp_channel(0, UNIT as int, s.a as int, d.a as int, s.b as int,
            d.b as int) == d.b,
{
    lemma_rmul_unit(d.a as int);
    lemma_rmul_zero(s.a as int);
    lemma_dest_channel(d.a as int, s.r as int, d.r as int);
    lemma_dest_channel(d.a as int, s.g as int, d.g as int);
    lemma_dest_channel(d.a as int, s.b as int, d.b as int);
    if d.a == UNIT {
        lemma_rmul_unit(d.r as int);
        lemma_rmul_unit(d.g as int);
        lemma_rmul_unit(d.b as int);
    }
}

/// A channel weighted fully toward the backdrop is the premultiplied backdrop.
proof fn lemma_dest_channel(da: int, cs: int, cb: int)
    ensures
        rdiv(0 * cs + da * cb, UNIT as int) == rmul(cb, da),
{
    assert(da * cb == cb * da) by (nonlinear_arith);
    assert(0 * cs == 0) by (nonlinear_arith);
}

/// The Multiply mixing function: `cb * cs`.
pub open spec fn multiply_mix(cb: int, cs: int) -> int {
    rmul(cb, cs)
}

/// The Screen mixing function: `cb + cs - cb*cs`.
pub open spec fn screen_mix(cb: int, cs: int) -> int {
    cb + cs - rmul(cb, cs)
}

/// The Darken mixing function: `min(cb, cs)`.
pub open spec fn darken_mix(cb: int, cs: int) -> int {
    imin(cb, cs)
}

/// The Lighten mixing function: `max(cb, cs)`.
pub open spec fn lighten_mix(cb: int, cs: int) -> int {
    imax(cb, cs)
}

/// The ColorDodge mixing function: `1` at `cs = 1`, else `min(1, cb/(1-cs))`.
pub open spec fn dodge_mix(cb: int, cs: int) -> int {
    if cs == UNIT {
        UNIT as int
    } else {
        imin(UNIT as int, rdiv(cb * UNIT, UNIT - cs))
    }
}

/// The ColorBurn mixing function: `0` at `cs = 0`, else
/// `1 - min(1, (1-cb)/cs)`.
pub open spec fn burn_mix(cb: int, cs: int) -> int {
    if cs == 0 {
        0
    } else {
        UNIT - imin(UNIT as int, rdiv((UNIT - cb) * UNIT, cs))
    }
}

/// The HardLight mixing function: `2*cb*cs` on the dark half of the source,
/// else the doubled screen `1 - 2*(1-cb)*(1-cs)`.
pub open spec fn hard_light_mix(cb: int, cs: int) -> int {
    if 2 * cs <= UNIT {
        rdiv(cb * cs * 2, UNIT as int)
    } else {
        UNIT - rdiv((UNIT - cb) * (UNIT - cs) * 2, UNIT as int)
    }
}

/// The SoftLight darkening/lightening term for a bright source: the cubic
/// polynomial `((16*cb - 12)*cb + 4)*cb` below a quarter, else the square
/// root of `cb`, minus `cb` in both cases.
pub open spec fn soft_light_d(cb: int) -> int {
    if 4 * cb <= UNIT {
        rdiv((rdiv((16 * cb - 12 * UNIT) * cb, UNIT as int) + 4 * UNIT) * cb, UNIT as int) - cb
    } else {
        sqrt_floor((cb * UNIT) as nat) - cb
    }
}

/// The SoftLight mixing function: `D * (2*cs - 1) + cb`, where `D` is
/// `cb*(1-cb)` on the dark half of the source and `soft_light_d(cb)` above.
pub open spec fn soft_light_mix(cb: int, cs: int) -> int {
    if 2 * cs <= UNIT {
        rdiv(rmul(cb, UNIT - cb) * (2 * cs - UNIT), UNIT as int) + cb
    } else {
        rdiv(soft_light_d(cb) * (2 * cs - UNIT), UNIT as int) + cb
    }
}

/// The Difference mixing function: `|cb - cs|`.
pub open spec fn difference_mix(cb: int, cs: int) -> int {
    if cs <= cb {
        cb - cs
    } else {
        cs - cb
    }
}

/// The Exclusion mixing function: `cb + cs - 2*cb*cs`.
pub open spec fn enclusion_mix(cb: int, cs: int) -> int {
    cb + cs - rdiv(cb * cs * 2, UNIT as int)
}

/// The Divide mixing function: `1` at `cs = 0`, else `min(1, cb/cs)`.
pub open spec fn divide_mix(cb: int, cs: int) -> int {
    if cs == 0 {
        UNIT as int
    } else {
        imin(UNIT as int, rdiv(cb * UNIT, cs))
    }
}

/// The Subtract mixing function: `max(0, cb - cs)`.
pub open spec fn subtract_mix(cb: int, cs: int) -> int {
    imax(0, cb - cs)
}

/// The LinearBurn mixing function: `max(0, cb + cs - 1)`.
pub open spec fn linear_burn_mix(cb: int, cs: int) -> int {
    imax(0, cb + cs - UNIT)
}

/// The LinearDodge mixing function: `min(1, cb + cs)`.
pub open spec fn linear_dodge_mix(cb: int, cs: int) -> int {
    imin(UNIT as int, cb + cs)
}

/// The LinearLight mixing function: `cs + 2*cb - 1`, saturated at white on
/// the bright half of the backdrop and floored at black on the dark half.
pub open spec fn linear_light_mix(cb: int, cs: int) -> int {
    if HALF <= cb {
        imin(UNIT as int, cs + 2 * cb - UNIT)
    } else {
        imax(0, cs + 2 * cb - UNIT)
    }
}

/// The VividLight mixing function: a half-slope ColorDodge on the bright
/// half of the source, a half-slope ColorBurn on the dark half.
pub open spec fn vivid_light_mix(cb: int, cs: int) -> int {
    if HALF <= cs {
        if cs == UNIT {
            UNIT as int
        } else {
            imin(UNIT as int, rdiv(cb * UNIT, 2 * (UNIT - cs)))
        }
    } else {
        if cs == 0 {
            0
        } else {
            UNIT - imin(UNIT as int, rdiv((UNIT - cb) * UNIT, 2 * cs))
        }
    }
}

/// The HardMix mixing function: white where `1 - cs < cb`, else black.
pub open spec fn hard_mix_mix(cb: int, cs: int) -> int {
    if UNIT - cs < cb {
        UNIT as int
    } else {
        0
    }
}

/// The PinLight mixing function: `max(cb, 2*cs - 1)` on the bright half of
/// the source, `min(cb, 2*cs)` on the dark half.
pub open spec fn pin_light_mix(cb: int, cs: int) -> int {
    if HALF <= cs {
        imax(cb, 2 * cs - UNIT)
    } else {
        imin(cb, 2 * cs)
    }
}

/// The Overwrite mixing function: the backdrop channel, ignoring the source.
pub open spec fn overwrite_mix(cb: int, cs: int) -> int {
    cb
}

/// Compositing SrcOver onto a fully transparent backdrop gives the source,
/// re-expressed in the premultiplied output convention.
pub proof fn lemma_src_over_transparent(s: RGBA<i64>, d: RGBA<i64>)
    requires
        s.in_range(),
        d.in_range(),
        d.a == 0,
    ensures
        comp_channel(UNIT as int, UNIT - s.a, s.a as int, d.a as int, s.r as int, d.r as int)
            == rmul(s.r as int, s.a as int),
        comp_channel(UNIT as int, UNIT - s.a, s.a as int, d.a as int, s.g as int, d.g as int)
            == rmul(s.g as int, s.a as int),
        comp_channel(UNIT as int, UNIT - s.a, s.a as int, d.a as int, s.b as int, d.b as int)
            == rmul(s.b as int, s.a as int),
        comp_alpha(UNIT as int, UNIT - s.a, s.a as int, d.a as int) == s.a,
{
    lemma_rmul_unit(s.a as int);
    lemma_rmul_zero(UNIT - s.a);
    lemma_copy_channel(s.a as int, s.r as int, d.r as int);
    lemma_copy_channel(s.a as int, s.g as int, d.g as int);
    lemma_copy_channel(s.a as int, s.b as int, d.b as int);
}

impl RGBA<i64> {
    /// Applies the blend in place: each channel becomes
    /// `(1 - ab)*Cs + ab*B(Cb, Cs)` with the mix values `br`, `bg`, `bb`
    /// already computed; the source alpha is kept.
    fn blended(self, drop: Self, br: i64, bg: i64, bb: i64) -> (out: Self)
        requires
            self.in_range(),
            drop.in_range(),
            -(32 * UNIT) <= br <= 32 * UNIT,
            -(32 * UNIT) <= bg <= 32 * UNIT,
            -(32 * UNIT) <= bb <= 32 * UNIT,
        ensures
            out.r == blend_channel(drop.a as int, self.r as int, br as int),
            out.g == blend_channel(drop.a as int, self.g as int, bg as int),
            out.b == blend_channel(drop.a as int, self.b as int, bb as int),
            out.a == self.a,
    {
        let inv: i64 = UNIT - drop.a;
        proof {
            lemma_unit_product(inv as int, self.r as int);
            lemma_unit_product(inv as int, self.g as int);
            lemma_unit_product(inv as int, self.b as int);
            lemma_mul_bound_abs(drop.a as int, br as int, UNIT as int, 32 * UNIT);
            lemma_mul_bound_abs(drop.a as int, bg as int, UNIT as int, 32 * UNIT);
            lemma_mul_bound_abs(drop.a as int, bb as int, UNIT as int, 32 * UNIT);
        }
        let r = rdiv64(inv * self.r + drop.a * br, UNIT);
        let g = rdiv64(inv * self.g + drop.a * bg, UNIT);
        let b = rdiv64(inv * self.b + drop.a * bb, UNIT);
        Self { r, g, b, a: self.a }
    }

    /// This is the default attribute which specifies no blending.
    /// The blending formula simply selects the source color.
    pub fn normal(self, _drop: Self) -> (out: Self)
        ensures
            out == self,
    {
        self
    }

    /// The source color is multiplied by the destination color and replaces
    /// the destination. Multiplying any color with white preserves the
    /// original color; multiplying any color with black results in black.
    pub fn multiply(self, drop: Self) -> (out: Self)
        requires
            self.in_range(),
            drop.in_range(),
        ensures
            out.r == blend_channel(drop.a as int, self.r as int, multiply_mix(drop.r as int,
                self.r as int)),
            out.g == blend_channel(drop.a as int, self.g as int, multiply_mix(drop.g as int,
                self.g as int)),
            out.b == blend_channel(drop.a as int, self.b as int, multiply_mix(drop.b as int,
                self.b as int)),
            out.a == self.a,
    {
        let br = mix_multiply(drop.r, self.r);
        let bg = mix_multiply(drop.g, self.g);
        let bb = mix_multiply(drop.b, self.b);
        self.blended(drop, br, bg, bb)
    }

    /// Multiplies the complements of the backdrop and source color values,
    /// then complements the result. Screening any color with white produces
    /// white; screening with black leaves the original color unchanged.
    pub fn screen(self, drop: Self) -> (out: Self)
        requires
            self.in_range(),
            drop.in_range(),
        ensures
            out.r == blend_channel(drop.a as int, self.r as int, screen_mix(drop.r as int,
                self.r as int)),
            out.g == blend_channel(drop.a as int, self.g as int, screen_mix(drop.g as int,
                self.g as int)),
            out.b == blend_channel(drop.a as int, self.b as int, screen_mix(drop.b as int,
                self.b as int)),
            out.a == self.a,
    {
        let br = mix_screen(drop.r, self.r);
        let bg = mix_screen(drop.g, self.g);
        let bb = mix_screen(drop.b, self.b);
        self.blended(drop, br, bg, bb)
    }

    /// Selects the darker of the backdrop and source colors.
    pub fn darken(self, drop: Self) -> (out: Self)
        requires
            self.in_range(),
            drop.in_range(),
        ensures
            out.r == blend_channel(drop.a as int, self.r as int, darken_mix(drop.r as int,
                self.r as int)),
            out.g == blend_channel(drop.a as int, self.g as int, darken_mix(drop.g as int,
                self.g as int)),
            out.b == blend_channel(drop.a as int, self.b as int, darken_mix(drop.b as int,
                self.b as int)),
            out.a == self.a,
    {
        let br = mix_darken(drop.r, self.r);
        let bg = mix_darken(drop.g, self.g);
        let bb = mix_darken(drop.b, self.b);
        self.blended(drop, br, bg, bb)
    }

    /// Selects the lighter of the backdrop and source colors.
    pub fn lighten(self, drop: Self) -> (out: Self)
        requires
            self.in_range(),
            drop.in_range(),
        ensures
            out.r == blend_channel(drop.a as int, self.r as int, lighten_mix(drop.r as int,
                self.r as int)),
            out.g == blend_channel(drop.a as int, self.g as int, lighten_mix(drop.g as int,
                self.g as int)),
            out.b == blend_channel(drop.a as int, self.b as int, lighten_mix(drop.b as int,
                self.b as int)),
            out.a == self.a,
    {
        let br = mix_lighten(drop.r, self.r);
        let bg = mix_lighten(drop.g, self.g);
        let bb = mix_lighten(drop.b, self.b);
        self.blended(drop, br, bg, bb)
    }

    /// Brightens the backdrop color to reflect the source color.
    /// Painting with black produces no changes.
    pub fn dodge(self, drop: Self) -> (out: Self)
        requires
            self.in_range(),
            drop.in_range(),
        ensures
            out.r == blend_channel(drop.a as int, self.r as int, dodge_mix(drop.r as int,
                self.r as int)),
            out.g == blend_channel(drop.a as int, self.g as int, dodge_mix(drop.g as int,
                self.g as int)),
            out.b == blend_channel(drop.a as int, self.b as int, dodge_mix(drop.b as int,
                self.b as int)),
            out.a == self.a,
    {
        let br = mix_dodge(drop.r, self.r);
        let bg = mix_dodge(drop.g, self.g);
        let bb = mix_dodge(drop.b, self.b);
        self.blended(drop, br, bg, bb)
    }

    /// Darkens the backdrop color to reflect the source color.
    /// Painting with white produces no change.
    pub fn burn(self, drop: Self) -> (out: Self)
        requires
            self.in_range(),
            drop.in_range(),
        ensures
            out.r == blend_channel(drop.a as int, self.r as int, burn_mix(drop.r as int,
                self.r as int)),
            out.g == blend_channel(drop.a as int, self.g as int, burn_mix(drop.g as int,
                self.g as int)),
            out.b == blend_channel(drop.a as int, self.b as int, burn_mix(drop.b as int,
                self.b as int)),
            out.a == self.a,
    {
        let br = mix_burn(drop.r, self.r);
        let bg = mix_burn(drop.g, self.g);
        let bb = mix_burn(drop.b, self.b);
        self.blended(drop, br, bg, bb)
    }

    /// Overlay is the inverse of the hard-light blend mode: hard light with
    /// source and backdrop swapped.
    pub fn overlay(self, drop: Self) -> (out: Self)
        requires
            self.in_range(),
            drop.in_range(),
        ensures
            out.r == blend_channel(self.a as int, drop.r as int, hard_light_mix(self.r as int,
                drop.r as int)),
            out.g == blend_channel(self.a as int, drop.g as int, hard_light_mix(self.g as int,
                drop.g as int)),
            out.b == blend_channel(self.a as int, drop.b as int, hard_light_mix(self.b as int,
                drop.b as int)),
            out.a == drop.a,
    {
        drop.hard_light(self)
    }

    /// Multiplies or screens the colors, depending on the source color value.
    /// The effect is similar to shining a harsh spotlight on the backdrop.
    pub fn hard_light(self, drop: Self) -> (out: Self)
        requires
            self.in_range(),
            drop.in_range(),
        ensures
            out.r == blend_channel(drop.a as int, self.r as int, hard_light_mix(drop.r as int,
                self.r as int)),
            out.g == blend_channel(drop.a as int, self.g as int, hard_light_mix(drop.g as int,
                self.g as int)),
            out.b == blend_channel(drop.a as int, self.b as int, hard_light_mix(drop.b as int,
                self.b as int)),
            out.a == self.a,
    {
        let br = mix_hard_light(drop.r, self.r);
        let bg = mix_hard_light(drop.g, self.g);
        let bb = mix_hard_light(drop.b, self.b);
        self.blended(drop, br, bg, bb)
    }

    /// Darkens or lightens the colors, depending on the source color value.
    /// The effect is similar to shining a diffused spotlight on the backdrop.
    pub fn soft_light(self, drop: Self) -> (out: Self)
        requires
            self.in_range(),
            drop.in_range(),
        ensures
            out.r == blend_channel(drop.a as int, self.r as int, soft_light_mix(drop.r as int,
                self.r as int)),
            out.g == blend_channel(drop.a as int, self.g as int, soft_light_mix(drop.g as int,
                self.g as int)),
            out.b == blend_channel(drop.a as int, self.b as int, soft_light_mix(drop.b as int,
                self.b as int)),
            out.a == self.a,
    {
        let br = mix_soft_light(drop.r, self.r);
        let bg = mix_soft_light(drop.g, self.g);
        let bb = mix_soft_light(drop.b, self.b);
        self.blended(drop, br, bg, bb)
    }

    /// Subtracts the darker of the two constituent colors from the lighter
    /// color. Painting with white inverts the backdrop color; painting with
    /// black produces no change.
    pub fn difference(self, drop: Self) -> (out: Self)
        requires
            self.in_range(),
            drop.in_range(),
        ensures
            out.r == blend_channel(drop.a as int, self.r as int, difference_mix(drop.r as int,
                self.r as int)),
            out.g == blend_channel(drop.a as int, self.g as int, difference_mix(drop.g as int,
                self.g as int)),
            out.b == blend_channel(drop.a as int, self.b as int, difference_mix(drop.b as int,
                self.b as int)),
            out.a == self.a,
    {
        let br = mix_difference(drop.r, self.r);
        let bg = mix_difference(drop.g, self.g);
        let bb = mix_difference(drop.b, self.b);
        self.blended(drop, br, bg, bb)
    }

    /// Produces an effect similar to that of the Difference mode but lower
    /// in contrast.
    pub fn enclusion(self, drop: Self) -> (out: Self)
        requires
            self.in_range(),
            drop.in_range(),
        ensures
            out.r == blend_channel(drop.a as int, self.r as int, enclusion_mix(drop.r as int,
                self.r as int)),
            out.g == blend_channel(drop.a as int, self.g as int, enclusion_mix(drop.g as int,
                self.g as int)),
            out.b == blend_channel(drop.a as int, self.b as int, enclusion_mix(drop.b as int,
                self.b as int)),
            out.a == self.a,
    {
        let br = mix_enclusion(drop.r, self.r);
        let bg = mix_enclusion(drop.g, self.g);
        let bb = mix_enclusion(drop.b, self.b);
        self.blended(drop, br, bg, bb)
    }

    /// Divides pixel values of one layer with the other: useful for
    /// brightening photos and for removing a color tint.
    pub fn divide(self, drop: Self) -> (out: Self)
        requires
            self.in_range(),
            drop.in_range(),
        ensures
            out.r == blend_channel(drop.a as int, self.r as int, divide_mix(drop.r as int,
                self.r as int)),
            out.g == blend_channel(drop.a as int, self.g as int, divide_mix(drop.g as int,
                self.g as int)),
            out.b == blend_channel(drop.a as int, self.b as int, divide_mix(drop.b as int,
                self.b as int)),
            out.a == self.a,
    {
        let br = mix_divide(drop.r, self.r);
        let bg = mix_divide(drop.g, self.g);
        let bb = mix_divide(drop.b, self.b);
        self.blended(drop, br, bg, bb)
    }

    /// Subtracts pixel values of one layer from the other; negative values
    /// display as black.
    pub fn subtract(self, drop: Self) -> (out: Self)
        requires
            self.in_range(),
            drop.in_range(),
        ensures
            out.r == blend_channel(drop.a as int, self.r as int, subtract_mix(drop.r as int,
                self.r as int)),
            out.g == blend_channel(drop.a as int, self.g as int, subtract_mix(drop.g as int,
                self.g as int)),
            out.b == blend_channel(drop.a as int, self.b as int, subtract_mix(drop.b as int,
                self.b as int)),
            out.a == self.a,
    {
        let br = mix_subtract(drop.r, self.r);
        let bg = mix_subtract(drop.g, self.g);
        let bb = mix_subtract(drop.b, self.b);
        self.blended(drop, br, bg, bb)
    }

    /// Sums the values in the two layers and subtracts one.
    /// Blending with white leaves the image unchanged.
    pub fn linear_burn(self, drop: Self) -> (out: Self)
        requires
            self.in_range(),
            drop.in_range(),
        ensures
            out.r == blend_channel(drop.a as int, self.r as int, linear_burn_mix(drop.r as int,
                self.r as int)),
            out.g == blend_channel(drop.a as int, self.g as int, linear_burn_mix(drop.g as int,
                self.g as int)),
            out.b == blend_channel(drop.a as int, self.b as int, linear_burn_mix(drop.b as int,
                self.b as int)),
            out.a == self.a,
    {
        let br = mix_linear_burn(drop.r, self.r);
        let bg = mix_linear_burn(drop.g, self.g);
        let bb = mix_linear_burn(drop.b, self.b);
        self.blended(drop, br, bg, bb)
    }

    /// Adds pixel values of one layer to the other; values above one display
    /// as white.
    pub fn linear_dodge(self, drop: Self) -> (out: Self)
        requires
            self.in_range(),
            drop.in_range(),
        ensures
            out.r == blend_channel(drop.a as int, self.r as int, linear_dodge_mix(drop.r as int,
                self.r as int)),
            out.g == blend_channel(drop.a as int, self.g as int, linear_dodge_mix(drop.g as int,
                self.g as int)),
            out.b == blend_channel(drop.a as int, self.b as int, linear_dodge_mix(drop.b as int,
                self.b as int)),
            out.a == self.a,
    {
        let br = mix_linear_dodge(drop.r, self.r);
        let bg = mix_linear_dodge(drop.g, self.g);
        let bb = mix_linear_dodge(drop.b, self.b);
        self.blended(drop, br, bg, bb)
    }

    /// Combines Linear Dodge and Linear Burn, rescaled so that neutral
    /// colors become middle gray.
    pub fn linear_light(self, drop: Self) -> (out: Self)
        requires
            self.in_range(),
            drop.in_range(),
        ensures
            out.r == blend_channel(drop.a as int, self.r as int, linear_light_mix(drop.r as int,
                self.r as int)),
            out.g == blend_channel(drop.a as int, self.g as int, linear_light_mix(drop.g as int,
                self.g as int)),
            out.b == blend_channel(drop.a as int, self.b as int, linear_light_mix(drop.b as int,
                self.b as int)),
            out.a == self.a,
    {
        let br = mix_linear_light(drop.r, self.r);
        let bg = mix_linear_light(drop.g, self.g);
        let bb = mix_linear_light(drop.b, self.b);
        self.blended(drop, br, bg, bb)
    }

    /// Combines Color Dodge and Color Burn, rescaled so that neutral colors
    /// become middle gray.
    pub fn vivid_light(self, drop: Self) -> (out: Self)
        requires
            self.in_range(),
            drop.in_range(),
        ensures
            out.r == blend_channel(drop.a as int, self.r as int, vivid_light_mix(drop.r as int,
                self.r as int)),
            out.g == blend_channel(drop.a as int, self.g as int, vivid_light_mix(drop.g as int,
                self.g as int)),
            out.b == blend_channel(drop.a as int, self.b as int, vivid_light_mix(drop.b as int,
                self.b as int)),
            out.a == self.a,
    {
        let br = mix_vivid_light(drop.r, self.r);
        let bg = mix_vivid_light(drop.g, self.g);
        let bb = mix_vivid_light(drop.b, self.b);
        self.blended(drop, br, bg, bb)
    }

    /// Snaps each channel to black or white: white where the summed
    /// channels pass one, black elsewhere.
    pub fn hard_mix(self, drop: Self) -> (out: Self)
        requires
            self.in_range(),
            drop.in_range(),
        ensures
            out.r == blend_channel(drop.a as int, self.r as int, hard_mix_mix(drop.r as int,
                self.r as int)),
            out.g == blend_channel(drop.a as int, self.g as int, hard_mix_mix(drop.g as int,
                self.g as int)),
            out.b == blend_channel(drop.a as int, self.b as int, hard_mix_mix(drop.b as int,
                self.b as int)),
            out.a == self.a,
    {
        let br = mix_hard_mix(drop.r, self.r);
        let bg = mix_hard_mix(drop.g, self.g);
        let bb = mix_hard_mix(drop.b, self.b);
        self.blended(drop, br, bg, bb)
    }

    /// Replaces the backdrop channel by a doubled source term only where
    /// that flattens the picture.
    pub fn pin_light(self, drop: Self) -> (out: Self)
        requires
            self.in_range(),
            drop.in_range(),
        ensures
            out.r == blend_channel(drop.a as int, self.r as int, pin_light_mix(drop.r as int,
                self.r as int)),
            out.g == blend_channel(drop.a as int, self.g as int, pin_light_mix(drop.g as int,
                self.g as int)),
            out.b == blend_channel(drop.a as int, self.b as int, pin_light_mix(drop.b as int,
                self.b as int)),
            out.a == self.a,
    {
        let br = mix_pin_light(drop.r, self.r);
        let bg = mix_pin_light(drop.g, self.g);
        let bb = mix_pin_light(drop.b, self.b);
        self.blended(drop, br, bg, bb)
    }

    /// Keeps the backdrop channels, ignoring the source color.
    pub fn overwrite(self, drop: Self) -> (out: Self)
        requires
            self.in_range(),
            drop.in_range(),
        ensures
            out.r == blend_channel(drop.a as int, self.r as int, drop.r as int),
            out.g == blend_channel(drop.a as int, self.g as int, drop.g as int),
            out.b == blend_channel(drop.a as int, self.b as int, drop.b as int),
            out.a == self.a,
    {
        self.blended(drop, drop.r, drop.g, drop.b)
    }
}

/// The Multiply mix of two unit-interval channels.
fn mix_multiply(cb: i64, cs: i64) -> (v: i64)
    requires
        0 <= cb <= UNIT,
        0 <= cs <= UNIT,
    ensures
        v == multiply_mix(cb as int, cs as int),
        0 <= v <= UNIT,
{
    rmul64(cb, cs)
}

/// The Screen mix of two unit-interval channels.
fn mix_screen(cb: i64, cs: i64) -> (v: i64)
    requires
        0 <= cb <= UNIT,
        0 <= cs <= UNIT,
    ensures
        v == screen_mix(cb as int, cs as int),
        -UNIT <= v <= 2 * UNIT,
{
    cb + cs - rmul64(cb, cs)
}

/// The Darken mix of two unit-interval channels.
fn mix_darken(cb: i64, cs: i64) -> (v: i64)
    requires
        0 <= cb <= UNIT,
        0 <= cs <= UNIT,
    ensures
        v == darken_mix(cb as int, cs as int),
        0 <= v <= UNIT,
{
    if cb < cs {
        cb
    } else {
        cs
    }
}

/// The Lighten mix of two unit-interval channels.
fn mix_lighten(cb: i64, cs: i64) -> (v: i64)
    requires
        0 <= cb <= UNIT,
        0 <= cs <= UNIT,
    ensures
        v == lighten_mix(cb as int, cs as int),
        0 <= v <= UNIT,
{
    if cb < cs {
        cs
    } else {
        cb
    }
}

/// The ColorDodge mix, guarding the division at a full source channel.
fn mix_dodge(cb: i64, cs: i64) -> (v: i64)
    requires
        0 <= cb <= UNIT,
        0 <= cs <= UNIT,
    ensures
        v == dodge_mix(cb as int, cs as int),
        0 <= v <= UNIT,
{
    if cs == UNIT {
        UNIT
    } else {
        proof {
            lemma_rdiv_nonneg(cb * UNIT, (UNIT - cs) as int);
        }
        let q = rdiv64(cb * UNIT, UNIT - cs);
        if q < UNIT {
            q
        } else {
            UNIT
        }
    }
}

/// The ColorBurn mix, guarding the division at an empty source channel.
fn mix_burn(cb: i64, cs: i64) -> (v: i64)
    requires
        0 <= cb <= UNIT,
        0 <= cs <= UNIT,
    ensures
        v == burn_mix(cb as int, cs as int),
        0 <= v <= UNIT,
{
    if cs == 0 {
        0
    } else {
        proof {
            lemma_rdiv_nonneg((UNIT - cb) * UNIT, cs as int);
        }
        let q = rdiv64((UNIT - cb) * UNIT, cs);
        if q < UNIT {
            UNIT - q
        } else {
            0
        }
    }
}

/// The HardLight mix of two unit-interval channels.
fn mix_hard_light(cb: i64, cs: i64) -> (v: i64)
    requires
        0 <= cb <= UNIT,
        0 <= cs <= UNIT,
    ensures
        v == hard_light_mix(cb as int, cs as int),
        -UNIT <= v <= 2 * UNIT,
{
    if 2 * cs <= UNIT {
        proof {
            lemma_unit_product(cb as int, cs as int);
            lemma_rdiv_nonneg(cb * cs * 2, UNIT as int);
            lemma_rdiv_le(cb * cs * 2, UNIT as int, 2 * UNIT);
        }
        rdiv64(cb * cs * 2, UNIT)
    } else {
        proof {
            lemma_unit_product((UNIT - cb) as int, (UNIT - cs) as int);
            lemma_rdiv_nonneg((UNIT - cb) * (UNIT - cs) * 2, UNIT as int);
            lemma_rdiv_le((UNIT - cb) * (UNIT - cs) * 2, UNIT as int, 2 * UNIT);
        }
        UNIT - rdiv64((UNIT - cb) * (UNIT - cs) * 2, UNIT)
    }
}

/// The SoftLight mix of two unit-interval channels.
fn mix_soft_light(cb: i64, cs: i64) -> (v: i64)
    requires
        0 <= cb <= UNIT,
        0 <= cs <= UNIT,
    ensures
        v == soft_light_mix(cb as int, cs as int),
        -(32 * UNIT) <= v <= 32 * UNIT,
{
    let t: i64 = 2 * cs - UNIT;
    if 2 * cs <= UNIT {
        let d = rmul64(cb, UNIT - cb);
        proof {
            lemma_mul_bound_abs(d as int, t as int, UNIT as int, UNIT as int);
            lemma_rdiv_bound(d * t, UNIT as int, UNIT as int);
        }
        rdiv64(d * t, UNIT) + cb
    } else {
        let d: i64 = if 4 * cb <= UNIT {
            proof {
                lemma_mul_bound_abs(16 * cb - 12 * UNIT, cb as int, 12 * UNIT, UNIT as int);
                lemma_rdiv_bound((16 * cb - 12 * UNIT) * cb, UNIT as int, 12 * UNIT);
            }
            let t2 = rdiv64((16 * cb - 12 * UNIT) * cb, UNIT) + 4 * UNIT;
            proof {
                lemma_mul_bound_abs(t2 as int, cb as int, 16 * UNIT, UNIT as int);
                lemma_rdiv_bound(t2 * cb, UNIT as int, 16 * UNIT);
            }
            rdiv64(t2 * cb, UNIT) - cb
        } else {
            let n: u64 = (cb as u64) * 131070;
            proof {
                assert(n == cb * UNIT && n < 0x4_0000_0000);
            }
            let s = isqrt64(n);
            proof {
                crate::arith::lemma_sqrt_floor(n as nat);
                assert(s <= UNIT) by (nonlinear_arith)
                    requires
                        s * s <= cb * UNIT,
                        cb <= UNIT,
                        0 <= s,
                        0 <= cb,
                ;
            }
            (s as i64) - cb
        };
        proof {
            lemma_mul_bound_abs(d as int, t as int, 17 * UNIT, UNIT as int);
            lemma_rdiv_bound(d * t, UNIT as int, 17 * UNIT);
        }
        rdiv64(d * t, UNIT) + cb
    }
}

/// The Difference mix of two unit-interval channels.
fn mix_difference(cb: i64, cs: i64) -> (v: i64)
    requires
        0 <= cb <= UNIT,
        0 <= cs <= UNIT,
    ensures
        v == difference_mix(cb as int, cs as int),
        0 <= v <= UNIT,
{
    if cs <= cb {
        cb - cs
    } else {
        cs - cb
    }
}

/// The Exclusion mix of two unit-interval channels.
fn mix_enclusion(cb: i64, cs: i64) -> (v: i64)
    requires
        0 <= cb <= UNIT,
        0 <= cs <= UNIT,
    ensures
        v == enclusion_mix(cb as int, cs as int),
        -(2 * UNIT) <= v <= 2 * UNIT,
{
    proof {
        lemma_unit_product(cb as int, cs as int);
        lemma_rdiv_nonneg(cb * cs * 2, UNIT as int);
        lemma_rdiv_le(cb * cs * 2, UNIT as int, 2 * UNIT);
    }
    cb + cs - rdiv64(cb * cs * 2, UNIT)
}

/// The Divide mix, guarding the division at an empty source channel.
fn mix_divide(cb: i64, cs: i64) -> (v: i64)
    requires
        0 <= cb <= UNIT,
        0 <= cs <= UNIT,
    ensures
        v == divide_mix(cb as int, cs as int),
        0 <= v <= UNIT,
{
    if cs == 0 {
        UNIT
    } else {
        proof {
            lemma_rdiv_nonneg(cb * UNIT, cs as int);
        }
        let q = rdiv64(cb * UNIT, cs);
        if q < UNIT {
            q
        } else {
            UNIT
        }
    }
}

/// The Subtract mix of two unit-interval channels.
fn mix_subtract(cb: i64, cs: i64) -> (v: i64)
    requires
        0 <= cb <= UNIT,
        0 <= cs <= UNIT,
    ensures
        v == subtract_mix(cb as int, cs as int),
        0 <= v <= UNIT,
{
    if cb - cs > 0 {
        cb - cs
    } else {
        0
    }
}

/// The LinearBurn mix of two unit-interval channels.
fn mix_linear_burn(cb: i64, cs: i64) -> (v: i64)
    requires
        0 <= cb <= UNIT,
        0 <= cs <= UNIT,
    ensures
        v == linear_burn_mix(cb as int, cs as int),
        0 <= v <= UNIT,
{
    let s: i64 = cb + cs - UNIT;
    if s > 0 {
        s
    } else {
        0
    }
}

/// The LinearDodge mix of two unit-interval channels.
fn mix_linear_dodge(cb: i64, cs: i64) -> (v: i64)
    requires
        0 <= cb <= UNIT,
        0 <= cs <= UNIT,
    ensures
        v == linear_dodge_mix(cb as int, cs as int),
        0 <= v <= UNIT,
{
    let s: i64 = cb + cs;
    if s < UNIT {
        s
    } else {
        UNIT
    }
}

/// The LinearLight mix of two unit-interval channels.
fn mix_linear_light(cb: i64, cs: i64) -> (v: i64)
    requires
        0 <= cb <= UNIT,
        0 <= cs <= UNIT,
    ensures
        v == linear_light_mix(cb as int, cs as int),
        0 <= v <= UNIT,
{
    let s: i64 = cs + 2 * cb - UNIT;
    if HALF <= cb {
        if s < UNIT {
            s
        } else {
            UNIT
        }
    } else {
        if s > 0 {
            s
        } else {
            0
        }
    }
}

/// The VividLight mix, guarding the divisions at the extreme source values.
fn mix_vivid_light(cb: i64, cs: i64) -> (v: i64)
    requires
        0 <= cb <= UNIT,
        0 <= cs <= UNIT,
    ensures
        v == vivid_light_mix(cb as int, cs as int),
        0 <= v <= UNIT,
{
    if HALF <= cs {
        if cs == UNIT {
            UNIT
        } else {
            proof {
                lemma_rdiv_nonneg(cb * UNIT, 2 * (UNIT - cs));
            }
            let q = rdiv64(cb * UNIT, 2 * (UNIT - cs));
            if q < UNIT {
                q
            } else {
                UNIT
            }
        }
    } else {
        if cs == 0 {
            0
        } else {
            proof {
                lemma_rdiv_nonneg((UNIT - cb) * UNIT, 2 * cs);
            }
            let q = rdiv64((UNIT - cb) * UNIT, 2 * cs);
            if q < UNIT {
                UNIT - q
            } else {
                0
            }
        }
    }
}

/// The HardMix mix of two unit-interval channels.
fn mix_hard_mix(cb: i64, cs: i64) -> (v: i64)
    requires
        0 <= cb <= UNIT,
        0 <= cs <= UNIT,
    ensures
        v == hard_mix_mix(cb as int, cs as int),
        0 <= v <= UNIT,
{
    if UNIT - cs < cb {
        UNIT
    } else {
        0
    }
}

/// The PinLight mix of two unit-interval channels.
fn mix_pin_light(cb: i64, cs: i64) -> (v: i64)
    requires
        0 <= cb <= UNIT,
        0 <= cs <= UNIT,
    ensures
        v == pin_light_mix(cb as int, cs as int),
        0 <= v <= UNIT,
{
    if HALF <= cs {
        let w: i64 = 2 * cs - UNIT;
        if cb < w {
            w
        } else {
            cb
        }
    } else {
        let w: i64 = 2 * cs;
        if cb < w {
            cb
        } else {
            w
        }
    }
}

/// The perceptual luma of a color: `0.299*r + 0.587*g + 0.114*b`, rounded
/// at the thousandths the weights are written in.
pub open spec fn lum_spec(r: int, g: int, b: int) -> int {
    rdiv(299 * r + 587 * g + 114 * b, 1000)
}

/// The saturation of a color as its channel spread: `max(r,g,b) - min(r,g,b)`.
pub open spec fn sat_spec(r: int, g: int, b: int) -> int {
    imax3(r, g, b) - imin3(r, g, b)
}

/// The rescaled middle and top channel for a target saturation: the middle
/// becomes `(mid - min) * sat / (max - min)` and the top becomes `sat`; with
/// no distinct middle both are zeroed.
pub open spec fn sat_vals(lo: int, mi: int, hi: int, sat: int) -> (int, int) {
    if mi < hi {
        (rdiv((mi - lo) * sat, hi - lo), sat)
    } else {
        (0, 0)
    }
}

/// The color with its channel spread forced to `sat`: the minimum channel is
/// zeroed, the middle and maximum are rescaled by `sat_vals`. Ties are
/// broken by seeding min/max from red and green, then placing blue.
pub open spec fn set_sat_spec(r: int, g: int, b: int, sat: int) -> (int, int, int) {
    if r < g {
        if b < r {
            let mx = sat_vals(b, r, g, sat);
            (mx.0, mx.1, 0)
        } else if g < b {
            let mx = sat_vals(r, g, b, sat);
            (0, mx.0, mx.1)
        } else {
            let mx = sat_vals(r, b, g, sat);
            (0, mx.1, mx.0)
        }
    } else {
        if b < g {
            let mx = sat_vals(b, g, r, sat);
            (mx.1, mx.0, 0)
        } else if r < b {
            let mx = sat_vals(g, r, b, sat);
            (mx.0, 0, mx.1)
        } else {
            let mx = sat_vals(g, b, r, sat);
            (mx.1, 0, mx.0)
        }
    }
}

/// One channel renormalized toward `lum` when the minimum channel `n` went
/// negative: `lum + (c - lum)*c / (lum - n)`.
pub open spec fn clip_lo(c: int, lum: int, n: int) -> int {
    lum + rdiv((c - lum) * c, lum - n)
}

/// One channel renormalized toward `lum` when the maximum channel `x` went
/// past one: `lum + (c - lum)*(1 - lum) / (x - lum)`.
pub open spec fn clip_hi(c: int, lum: int, x: int) -> int {
    lum + rdiv((c - lum) * (UNIT - lum), x - lum)
}

/// The color shifted to the target luminosity `lum`: the luma difference is
/// added to every channel; a negative minimum or an overshot maximum then
/// renormalizes all channels toward `lum`, both in sequence if need be,
/// against the pre-renormalization extremes.
pub open spec fn set_lum_spec(r: int, g: int, b: int, lum: int) -> (int, int, int) {
    let d = lum - lum_spec(r, g, b);
    let r0 = r + d;
    let g0 = g + d;
    let b0 = b + d;
    let n = imin3(r0, g0, b0);
    let x = imax3(r0, g0, b0);
    let r1 = if n < 0 {
        clip_lo(r0, lum, n)
    } else {
        r0
    };
    let g1 = if n < 0 {
        clip_lo(g0, lum, n)
    } else {
        g0
    };
    let b1 = if n < 0 {
        clip_lo(b0, lum, n)
    } else {
        b0
    };
    if x > UNIT {
        (clip_hi(r1, lum, x), clip_hi(g1, lum, x), clip_hi(b1, lum, x))
    } else {
        (r1, g1, b1)
    }
}

/// The smallest of three values.
fn min3(a: i64, b: i64, c: i64) -> (m: i64)
    ensures
        m == imin3(a as int, b as int, c as int),
{
    let ab: i64 = if a < b {
        a
    } else {
        b
    };
    if c < ab {
        c
    } else {
        ab
    }
}

/// The largest of three values.
fn max3(a: i64, b: i64, c: i64) -> (m: i64)
    ensures
        m == imax3(a as int, b as int, c as int),
{
    let ab: i64 = if a < b {
        b
    } else {
        a
    };
    if ab < c {
        c
    } else {
        ab
    }
}

/// The middle and top channel values for a target saturation.
fn sat_channel_vals(lo: i64, mi: i64, hi: i64, sat: i64) -> (mx: (i64, i64))
    requires
        0 <= lo <= mi,
        mi <= hi <= UNIT,
        0 <= sat <= UNIT,
    ensures
        mx.0 == sat_vals(lo as int, mi as int, hi as int, sat as int).0,
        mx.1 == sat_vals(lo as int, mi as int, hi as int, sat as int).1,
        0 <= mx.0 <= sat,
        0 <= mx.1 <= sat,
{
    if mi < hi {
        proof {
            assert(0 <= (mi - lo) * sat && (mi - lo) * sat <= sat * ((hi - lo) as int))
                by (nonlinear_arith)
                requires
                    0 <= lo <= mi,
                    mi < hi,
                    0 <= sat,
            ;
            lemma_unit_product((mi - lo) as int, sat as int);
            lemma_rdiv_nonneg((mi - lo) * sat, (hi - lo) as int);
            lemma_rdiv_le((mi - lo) * sat, (hi - lo) as int, sat as int);
        }
        (rdiv64((mi - lo) * sat, hi - lo), sat)
    } else {
        (0, 0)
    }
}

/// One channel renormalized toward `lum` against a negative minimum `n`.
fn clip_lo_channel(c: i64, lum: i64, n: i64) -> (v: i64)
    requires
        -300000 <= c <= 300000,
        0 <= lum <= UNIT,
        -300000 <= n < 0,
    ensures
        v == clip_lo(c as int, lum as int, n as int),
        -200000000000 <= v <= 200000000000,
{
    proof {
        lemma_mul_bound_abs((c - lum) as int, c as int, 450000, 300000);
        assert(135000000000int <= 135000000000 * ((lum - n) as int)) by (nonlinear_arith)
            requires
                1 <= lum - n,
        ;
        lemma_rdiv_bound((c - lum) * c, (lum - n) as int, 135000000000);
    }
    lum + rdiv64((c - lum) * c, lum - n)
}

/// One channel renormalized toward `lum` against an overshot maximum `x`.
fn clip_hi_channel(c: i64, lum: i64, x: i64) -> (v: i64)
    requires
        -200000000000 <= c <= 200000000000,
        0 <= lum <= UNIT,
        UNIT < x <= 300000,
    ensures
        v == clip_hi(c as int, lum as int, x as int),
{
    proof {
        lemma_mul_bound_abs((c - lum) as int, (UNIT - lum) as int, 200000131070, 131070);
    }
    lum + rdiv64((c - lum) * (UNIT - lum), x - lum)
}

impl RGBA<i64> {
    /// Luma is the weighted average of the color channels, based on their
    /// contribution to perceived lightness.
    pub fn to_lum(self) -> (l: i64)
        requires
            self.in_range(),
        ensures
            l == lum_spec(self.r as int, self.g as int, self.b as int),
            0 <= l <= UNIT,
    {
        proof {
            lemma_rdiv_nonneg(299 * self.r + 587 * self.g + 114 * self.b, 1000);
            lemma_rdiv_le(299 * self.r + 587 * self.g + 114 * self.b, 1000, UNIT as int);
        }
        rdiv64(299 * self.r + 587 * self.g + 114 * self.b, 1000)
    }

    /// The saturation of the color: the spread between its largest and
    /// smallest channel.
    pub fn to_sat(self) -> (s: i64)
        requires
            self.in_range(),
        ensures
            s == sat_spec(self.r as int, self.g as int, self.b as int),
            0 <= s <= UNIT,
    {
        max3(self.r, self.g, self.b) - min3(self.r, self.g, self.b)
    }

    /// Forces the channel spread of the color to `sat`, preserving hue:
    /// the minimum channel drops to zero, the maximum becomes `sat` and the
    /// middle is rescaled proportionally; alpha is unchanged.
    pub fn set_sat(self, sat: i64) -> (out: Self)
        requires
            self.in_range(),
            0 <= sat <= UNIT,
        ensures
            out.r == set_sat_spec(self.r as int, self.g as int, self.b as int, sat as int).0,
            out.g == set_sat_spec(self.r as int, self.g as int, self.b as int, sat as int).1,
            out.b == set_sat_spec(self.r as int, self.g as int, self.b as int, sat as int).2,
            out.a == self.a,
            out.in_range(),
    {
        if self.r < self.g {
            if self.b < self.r {
                let mx = sat_channel_vals(self.b, self.r, self.g, sat);
                Self { r: mx.0, g: mx.1, b: 0, a: self.a }
            } else if self.g < self.b {
                let mx = sat_channel_vals(self.r, self.g, self.b, sat);
                Self { r: 0, g: mx.0, b: mx.1, a: self.a }
            } else {
                let mx = sat_channel_vals(self.r, self.b, self.g, sat);
                Self { r: 0, g: mx.1, b: mx.0, a: self.a }
            }
        } else {
            if self.b < self.g {
                let mx = sat_channel_vals(self.b, self.g, self.r, sat);
                Self { r: mx.1, g: mx.0, b: 0, a: self.a }
            } else if self.r < self.b {
                let mx = sat_channel_vals(self.g, self.r, self.b, sat);
                Self { r: mx.0, g: 0, b: mx.1, a: self.a }
            } else {
                let mx = sat_channel_vals(self.g, self.b, self.r, sat);
                Self { r: mx.1, g: 0, b: mx.0, a: self.a }
            }
        }
    }

    /// Shifts the color to the target luminosity `lum`: the luma difference
    /// is added to every channel, renormalizing toward `lum` where a channel
    /// leaves the unit interval; alpha is unchanged.
    pub fn set_lum(self, lum: i64) -> (out: Self)
        requires
            self.in_range(),
            0 <= lum <= UNIT,
        ensures
            out.r == set_lum_spec(self.r as int, self.g as int, self.b as int, lum as int).0,
            out.g == set_lum_spec(self.r as int, self.g as int, self.b as int, lum as int).1,
            out.b == set_lum_spec(self.r as int, self.g as int, self.b as int, lum as int).2,
            out.a == self.a,
    {
        let l = self.to_lum();
        let d: i64 = lum - l;
        let r0: i64 = self.r + d;
        let g0: i64 = self.g + d;
        let b0: i64 = self.b + d;
        let n = min3(r0, g0, b0);
        let x = max3(r0, g0, b0);
        let (r1, g1, b1): (i64, i64, i64) = if n < 0 {
            (
                clip_lo_channel(r0, lum, n),
                clip_lo_channel(g0, lum, n),
                clip_lo_channel(b0, lum, n),
            )
        } else {
            (r0, g0, b0)
        };
        if x > UNIT {
            Self {
                r: clip_hi_channel(r1, lum, x),
                g: clip_hi_channel(g1, lum, x),
                b: clip_hi_channel(b1, lum, x),
                a: self.a,
            }
        } else {
            Self { r: r1, g: g1, b: b1, a: self.a }
        }
    }

    /// Creates a color with the hue of the source color and the saturation
    /// and luminosity of the backdrop color.
    pub fn hue(self, drop: Self) -> (out: Self)
        requires
            self.in_range(),
            drop.in_range(),
        ensures
            ({
                let ss = set_sat_spec(self.r as int, self.g as int, self.b as int, sat_spec(
                    drop.r as int, drop.g as int, drop.b as int));
                let sl = set_lum_spec(ss.0, ss.1, ss.2, lum_spec(drop.r as int, drop.g as int,
                    drop.b as int));
                out.r == sl.0 && out.g == sl.1 && out.b == sl.2 && out.a == self.a
            }),
    {
        let s = drop.to_sat();
        let l = drop.to_lum();
        self.set_sat(s).set_lum(l)
    }

    /// Creates a color with the saturation of the source color and the hue
    /// and luminosity of the backdrop color.
    pub fn saturation(self, drop: Self) -> (out: Self)
        requires
            self.in_range(),
            drop.in_range(),
        ensures
            ({
                let ss = set_sat_spec(drop.r as int, drop.g as int, drop.b as int, sat_spec(
                    self.r as int, self.g as int, self.b as int));
                let sl = set_lum_spec(ss.0, ss.1, ss.2, lum_spec(drop.r as int, drop.g as int,
                    drop.b as int));
                out.r == sl.0 && out.g == sl.1 && out.b == sl.2 && out.a == drop.a
            }),
    {
        let lum = drop.to_lum();
        let s = self.to_sat();
        drop.set_sat(s).set_lum(lum)
    }

    /// Creates a color with the hue and saturation of the source color and
    /// the luminosity of the backdrop color.
    pub fn coloring(self, drop: Self) -> (out: Self)
        requires
            self.in_range(),
            drop.in_range(),
        ensures
            ({
                let sl = set_lum_spec(self.r as int, self.g as int, self.b as int, lum_spec(
                    drop.r as int, drop.g as int, drop.b as int));
                out.r == sl.0 && out.g == sl.1 && out.b == sl.2 && out.a == self.a
            }),
    {
        let l = drop.to_lum();
        self.set_lum(l)
    }

    /// Creates a color with the luminosity of the source color and the hue
    /// and saturation of the backdrop color.
    pub fn luminosity(self, drop: Self) -> (out: Self)
        requires
            self.in_range(),
            drop.in_range(),
        ensures
            ({
                let sl = set_lum_spec(drop.r as int, drop.g as int, drop.b as int, lum_spec(
                    self.r as int, self.g as int, self.b as int));
                out.r == sl.0 && out.g == sl.1 && out.b == sl.2 && out.a == drop.a
            }),
    {
        let l = self.to_lum();
        drop.set_lum(l)
    }
}

/// Rescaling to a zero saturation zeroes both the middle and top channel.
proof fn lemma_sat_vals_zero(lo: int, mi: int, hi: int)
    requires
        lo <= mi,
    ensures
        sat_vals(lo, mi, hi, 0).0 == 0,
        sat_vals(lo, mi, hi, 0).1 == 0,
{
    if mi < hi {
        assert((mi - lo) * 0 == 0) by (nonlinear_arith);
        lemma_rdiv_zero(hi - lo);
    }
}

/// Forcing the saturation to zero yields a gray: all three channels become
/// equal (and zero), whatever the input color.
pub proof fn lemma_set_sat_zero(c: RGBA<i64>)
    requires
        c.in_range(),
    ensures
        set_sat_spec(c.r as int, c.g as int, c.b as int, 0).0 == 0,
        set_sat_spec(c.r as int, c.g as int, c.b as int, 0).1 == 0,
        set_sat_spec(c.r as int, c.g as int, c.b as int, 0).2 == 0,
{
    let r = c.r as int;
    let g = c.g as int;
    let b = c.b as int;
    if r < g {
        if b < r {
            lemma_sat_vals_zero(b, r, g);
        } else if g < b {
            lemma_sat_vals_zero(r, g, b);
        } else {
            lemma_sat_vals_zero(r, b, g);
        }
    } else {
        if b < g {
            lemma_sat_vals_zero(b, g, r);
        } else if r < b {
            lemma_sat_vals_zero(g, r, b);
        } else {
            lemma_sat_vals_zero(g, b, r);
        }
    }
}

/// Shifting every channel by `d` shifts the rounded luma by exactly `d`:
/// the weights sum to the rounding scale.
proof fn lemma_lum_shift(r: int, g: int, b: int, d: int)
    requires
        0 <= 299 * r + 587 * g + 114 * b,
        0 <= 299 * (r + d) + 587 * (g + d) + 114 * (b + d),
    ensures
        lum_spec(r + d, g + d, b + d) == lum_spec(r, g, b) + d,
{
    let nn = 299 * r + 587 * g + 114 * b;
    assert(299 * (r + d) + 587 * (g + d) + 114 * (b + d) == nn + 1000 * d);
    lemma_hoist_over_denominator(nn + 500, d, 1000nat);
}

/// Setting the luminosity twice with the same target equals setting it
/// once, provided the first shift keeps every channel on the unit interval
/// (no renormalization occurs).
pub proof fn lemma_set_lum_idempotent(c: RGBA<i64>, lum: int)
    requires
        c.in_range(),
        0 <= lum <= UNIT,
        0 <= imin3(c.r + (lum - lum_spec(c.r as int, c.g as int, c.b as int)), c.g + (lum
            - lum_spec(c.r as int, c.g as int, c.b as int)), c.b + (lum - lum_spec(c.r as int,
            c.g as int, c.b as int))),
        imax3(c.r + (lum - lum_spec(c.r as int, c.g as int, c.b as int)), c.g + (lum - lum_spec(
            c.r as int, c.g as int, c.b as int)), c.b + (lum - lum_spec(c.r as int, c.g as int,
            c.b as int))) <= UNIT,
    ensures
        ({
            let once = set_lum_spec(c.r as int, c.g as int, c.b as int, lum);
            set_lum_spec(once.0, once.1, once.2, lum) == once
        }),
{
    let r = c.r as int;
    let g = c.g as int;
    let b = c.b as int;
    let d = lum - lum_spec(r, g, b);
    let once = set_lum_spec(r, g, b, lum);
    assert(once == (r + d, g + d, b + d));
    lemma_rdiv_nonneg(299 * r + 587 * g + 114 * b, 1000);
    lemma_lum_shift(r, g, b, d);
    assert(lum_spec(r + d, g + d, b + d) == lum);
    assert(set_lum_spec(r + d, g + d, b + d, lum) == (r + d, g + d, b + d));
}

/// Blending over a fully opaque backdrop returns the mix value unchanged.
proof fn lemma_blend_channel_opaque(cs: int, m: int)
    ensures
        blend_channel(UNIT as int, cs, m) == m,
{
    assert((UNIT - UNIT) * cs == 0) by (nonlinear_arith);
    assert((UNIT as int) * m == m * (UNIT as int)) by (nonlinear_arith);
    lemma_rdiv_exact(m, UNIT as int);
}

/// Multiplying any color with an opaque white backdrop preserves the color:
/// each blended channel equals the source channel, and the alpha kept by
/// the blend is the source alpha.
pub proof fn lemma_multiply_white(s: RGBA<i64>, w: RGBA<i64>)
    requires
        s.in_range(),
        w.r == UNIT,
        w.g == UNIT,
        w.b == UNIT,
        w.a == UNIT,
    ensures
        blend_channel(w.a as int, s.r as int, multiply_mix(w.r as int, s.r as int)) == s.r,
        blend_channel(w.a as int, s.g as int, multiply_mix(w.g as int, s.g as int)) == s.g,
        blend_channel(w.a as int, s.b as int, multiply_mix(w.b as int, s.b as int)) == s.b,
{
    lemma_rmul_unit(s.r as int);
    lemma_rmul_unit(s.g as int);
    lemma_rmul_unit(s.b as int);
    lemma_blend_channel_opaque(s.r as int, s.r as int);
    lemma_blend_channel_opaque(s.g as int, s.g as int);
    lemma_blend_channel_opaque(s.b as int, s.b as int);
}

/// Multiplying any color with an opaque black backdrop yields black
/// channels.
pub proof fn lemma_multiply_black(s: RGBA<i64>, k: RGBA<i64>)
    requires
        s.in_range(),
        k.r == 0,
        k.g == 0,
        k.b == 0,
        k.a == UNIT,
    ensures
        blend_channel(k.a as int, s.r as int, multiply_mix(k.r as int, s.r as int)) == 0,
        blend_channel(k.a as int, s.g as int, multiply_mix(k.g as int, s.g as int)) == 0,
        blend_channel(k.a as int, s.b as int, multiply_mix(k.b as int, s.b as int)) == 0,
{
    lemma_rmul_zero(s.r as int);
    lemma_rmul_zero(s.g as int);
    lemma_rmul_zero(s.b as int);
    lemma_blend_channel_opaque(s.r as int, 0);
    lemma_blend_channel_opaque(s.g as int, 0);
    lemma_blend_channel_opaque(s.b as int, 0);
}

/// Screening any color with an opaque white backdrop produces white
/// channels.
pub proof fn lemma_screen_white(s: RGBA<i64>, w: RGBA<i64>)
    requires
        s.in_range(),
        w.r == UNIT,
        w.g == UNIT,
        w.b == UNIT,
        w.a == UNIT,
    ensures
        blend_channel(w.a as int, s.r as int, screen_mix(w.r as int, s.r as int)) == UNIT,
        blend_channel(w.a as int, s.g as int, screen_mix(w.g as int, s.g as int)) == UNIT,
        blend_channel(w.a as int, s.b as int, screen_mix(w.b as int, s.b as int)) == UNIT,
{
    lemma_rmul_unit(s.r as int);
    lemma_rmul_unit(s.g as int);
    lemma_rmul_unit(s.b as int);
    lemma_blend_channel_opaque(s.r as int, UNIT as int);
    lemma_blend_channel_opaque(s.g as int, UNIT as int);
    lemma_blend_channel_opaque(s.b as int, UNIT as int);
}

/// Screening any color with an opaque black backdrop leaves the color
/// unchanged.
pub proof fn lemma_screen_black(s: RGBA<i64>, k: RGBA<i64>)
    requires
        s.in_range(),
        k.r == 0,
        k.g == 0,
        k.b == 0,
        k.a == UNIT,
    ensures
        blend_channel(k.a as int, s.r as int, screen_mix(k.r as int, s.r as int)) == s.r,
        blend_channel(k.a as int, s.g as int, screen_mix(k.g as int, s.g as int)) == s.g,
        blend_channel(k.a as int, s.b as int, screen_mix(k.b as int, s.b as int)) == s.b,
{
    lemma_rmul_zero(s.r as int);
    lemma_rmul_zero(s.g as int);
    lemma_rmul_zero(s.b as int);
    lemma_blend_channel_opaque(s.r as int, s.r as int);
    lemma_blend_channel_opaque(s.g as int, s.g as int);
    lemma_blend_channel_opaque(s.b as int, s.b as int);
}

/// Over a fully opaque backdrop, Darken selects the smaller of the source
/// and backdrop values on every channel.
pub proof fn lemma_darken_opaque(s: RGBA<i64>, d: RGBA<i64>)
    requires
        s.in_range(),
        d.in_range(),
        d.a == UNIT,
    ensures
        blend_channel(d.a as int, s.r as int, darken_mix(d.r as int, s.r as int)) == imin(
            s.r as int, d.r as int),
        blend_channel(d.a as int, s.g as int, darken_mix(d.g as int, s.g as int)) == imin(
            s.g as int, d.g as int),
        blend_channel(d.a as int, s.b as int, darken_mix(d.b as int, s.b as int)) == imin(
            s.b as int, d.b as int),
{
    lemma_blend_channel_opaque(s.r as int, darken_mix(d.r as int, s.r as int));
    lemma_blend_channel_opaque(s.g as int, darken_mix(d.g as int, s.g as int));
    lemma_blend_channel_opaque(s.b as int, darken_mix(d.b as int, s.b as int));
}

} // verus!
