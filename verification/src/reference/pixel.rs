//! Premultiplied RGBA8 pixels and their composition.

use vstd::prelude::*;

use crate::error::{Error, InvalidValue};

verus! {

/// The channels of a pixel as numbers.
pub struct Channels {
    pub red: int,
    pub green: int,
    pub blue: int,
    pub alpha: int,
}

impl Channels {
    /// Bytes, with no color above alpha.
    pub open spec fn premultiplied(self) -> bool {
        &&& 0 <= self.red <= self.alpha
        &&& 0 <= self.green <= self.alpha
        &&& 0 <= self.blue <= self.alpha
        &&& self.alpha <= 255
    }

    /// The same function of each channel.
    pub open spec fn map(self, f: spec_fn(int) -> int) -> Channels {
        Channels {
            red: f(self.red),
            green: f(self.green),
            blue: f(self.blue),
            alpha: f(self.alpha),
        }
    }

    /// The same function of each channel of two pixels.
    pub open spec fn zip(self, other: Channels, f: spec_fn(int, int) -> int) -> Channels {
        Channels {
            red: f(self.red, other.red),
            green: f(self.green, other.green),
            blue: f(self.blue, other.blue),
            alpha: f(self.alpha, other.alpha),
        }
    }
}

/// Transparent black.
pub open spec fn transparent() -> Channels {
    Channels { red: 0, green: 0, blue: 0, alpha: 0 }
}

/// `value / 255`, rounded to the nearest integer. `value` is no odd multiple of half of 255, so
/// there are no ties.
pub open spec fn over_255(value: int) -> int {
    (value + 127) / 255
}

/// A channel weighted by an alpha byte.
pub open spec fn scaled(channel: int, alpha: int) -> int {
    over_255(channel * alpha)
}

/// Source-over: the source, plus the destination weighted by what the source lets through.
pub open spec fn over(source: Channels, destination: Channels) -> Channels {
    source.zip(destination, |s: int, d: int| s + scaled(d, 255 - source.alpha))
}

/// Every channel weighted by an alpha byte.
pub open spec fn scaled_by(pixel: Channels, alpha: int) -> Channels {
    pixel.map(|channel: int| scaled(channel, alpha))
}

/// Channelwise sum, up to the largest byte.
pub open spec fn plus(source: Channels, destination: Channels) -> Channels {
    source.zip(
        destination,
        |s: int, d: int|
            if s + d > 255 {
                255
            } else {
                s + d
            },
    )
}

/// How a source blends with a destination.
#[derive(Clone, Copy, Debug, PartialEq, Eq, Structural)]
pub enum BlendMode {
    Normal,
    Plus,
    Multiply,
    Screen,
    Overlay,
    Darken,
    Lighten,
}

/// The blend of a straight source channel `s / sa` with a straight destination channel `d / da`,
/// times `sa * da`.
pub open spec fn blended(mode: BlendMode, s: int, sa: int, d: int, da: int) -> int {
    match mode {
        BlendMode::Multiply => s * d,
        BlendMode::Screen => s * da + d * sa - s * d,
        BlendMode::Overlay => if 2 * d <= da {
            2 * (s * d)
        } else {
            sa * da - 2 * ((sa - s) * (da - d))
        },
        BlendMode::Darken => if s * da <= d * sa {
            s * da
        } else {
            d * sa
        },
        BlendMode::Lighten => if s * da >= d * sa {
            s * da
        } else {
            d * sa
        },
        BlendMode::Normal | BlendMode::Plus => s * da,
    }
}

/// A blended channel: destination where only it covers, source where only it covers, their blend
/// where both do; never more than the resulting alpha.
pub open spec fn mixed_channel(
    mode: BlendMode,
    s: int,
    sa: int,
    d: int,
    da: int,
    output_alpha: int,
) -> int {
    let channel = over_255((255 - sa) * d + (255 - da) * s + blended(mode, s, sa, d, da));
    if channel > output_alpha {
        output_alpha
    } else {
        channel
    }
}

/// Composition with a separable blend mode.
pub open spec fn mixed(mode: BlendMode, source: Channels, destination: Channels) -> Channels {
    let alpha = over(source, destination).alpha;
    let channel = |s: int, d: int|
        mixed_channel(mode, s, source.alpha, d, destination.alpha, alpha);
    Channels {
        red: channel(source.red, destination.red),
        green: channel(source.green, destination.green),
        blue: channel(source.blue, destination.blue),
        alpha,
    }
}

/// Composition of a source onto a destination.
pub open spec fn blended_over(mode: BlendMode, source: Channels, destination: Channels) -> Channels {
    match mode {
        BlendMode::Normal => over(source, destination),
        BlendMode::Plus => plus(source, destination),
        _ => mixed(mode, source, destination),
    }
}

pub proof fn lemma_scaled_bounds(channel: int, limit: int, alpha: int)
    requires
        0 <= channel <= limit <= 255,
        0 <= alpha <= 255,
    ensures
        0 <= scaled(channel, alpha) <= scaled(limit, alpha) <= alpha,
        scaled(channel, alpha) <= channel,
        0 <= channel * alpha <= 65025,
{
    assert(0 <= channel * alpha <= limit * alpha) by (nonlinear_arith)
        requires
            0 <= channel <= limit,
            0 <= alpha,
    ;
    assert(limit * alpha <= 255 * alpha) by (nonlinear_arith)
        requires
            limit <= 255,
            0 <= alpha,
    ;
    assert(channel * alpha <= channel * 255) by (nonlinear_arith)
        requires
            0 <= channel,
            alpha <= 255,
    ;
}

/// Weighting by the largest alpha changes nothing, by the smallest leaves nothing.
pub proof fn law_scaling_endpoints(channel: int)
    requires
        0 <= channel <= 255,
    ensures
        scaled(channel, 255) == channel,
        scaled(channel, 0) == 0,
        scaled(0, channel) == 0,
{
}

/// Source-over keeps pixels premultiplied.
pub proof fn law_over_is_premultiplied(source: Channels, destination: Channels)
    requires
        source.premultiplied(),
        destination.premultiplied(),
    ensures
        over(source, destination).premultiplied(),
{
    let through = 255 - source.alpha;
    lemma_scaled_bounds(destination.red, destination.alpha, through);
    lemma_scaled_bounds(destination.green, destination.alpha, through);
    lemma_scaled_bounds(destination.blue, destination.alpha, through);
}

/// A transparent source leaves the destination, an opaque source replaces it, and a transparent
/// destination leaves the source.
pub proof fn law_over_identities(source: Channels, destination: Channels)
    requires
        source.premultiplied(),
        destination.premultiplied(),
    ensures
        source.alpha == 0 ==> over(source, destination) == destination,
        source.alpha == 255 ==> over(source, destination) == source,
        destination.alpha == 0 ==> over(source, destination) == source,
{
    let through = 255 - source.alpha;
    if source.alpha == 0 {
        law_scaling_endpoints(destination.red);
        law_scaling_endpoints(destination.green);
        law_scaling_endpoints(destination.blue);
        law_scaling_endpoints(destination.alpha);
    }
    if destination.alpha == 0 {
        law_scaling_endpoints(through);
    }
}

/// Weighting by alpha keeps pixels premultiplied; full alpha keeps them, none clears them.
pub proof fn law_scaled_by(pixel: Channels, alpha: int)
    requires
        pixel.premultiplied(),
        0 <= alpha <= 255,
    ensures
        scaled_by(pixel, alpha).premultiplied(),
        scaled_by(pixel, alpha).alpha <= pixel.alpha,
        alpha == 255 ==> scaled_by(pixel, alpha) == pixel,
        alpha == 0 ==> scaled_by(pixel, alpha) == transparent(),
        pixel.alpha == 0 ==> scaled_by(pixel, alpha) == transparent(),
{
    lemma_scaled_bounds(pixel.red, pixel.alpha, alpha);
    lemma_scaled_bounds(pixel.green, pixel.alpha, alpha);
    lemma_scaled_bounds(pixel.blue, pixel.alpha, alpha);
    lemma_scaled_bounds(pixel.alpha, pixel.alpha, alpha);
    law_scaling_endpoints(pixel.red);
    law_scaling_endpoints(pixel.green);
    law_scaling_endpoints(pixel.blue);
    law_scaling_endpoints(pixel.alpha);
    law_scaling_endpoints(alpha);
}

/// The alpha of source-over does not depend on which pixel lies on top.
pub proof fn law_over_alpha_is_symmetric(source: Channels, destination: Channels)
    requires
        source.premultiplied(),
        destination.premultiplied(),
    ensures
        over(source, destination).alpha == over(destination, source).alpha,
{
    let s = source.alpha;
    let d = destination.alpha;
    assert(d * (255 - s) == 255 * d - s * d) by (nonlinear_arith);
    assert(s * (255 - d) == 255 * s - s * d) by (nonlinear_arith);
}

proof fn lemma_blended_bounds(mode: BlendMode, s: int, sa: int, d: int, da: int)
    requires
        0 <= s <= sa <= 255,
        0 <= d <= da <= 255,
    ensures
        0 <= blended(mode, s, sa, d, da) <= sa * da <= 65025,
        0 <= s * d <= 65025,
        0 <= s * da <= 65025,
        0 <= d * sa <= 65025,
        0 <= (sa - s) * (da - d) <= 65025,
        0 <= (255 - sa) * d <= 65025,
        0 <= (255 - da) * s <= 65025,
{
    assert(0 <= s * d <= s * da <= sa * da <= 65025) by (nonlinear_arith)
        requires
            0 <= s <= sa <= 255,
            0 <= d <= da <= 255,
    ;
    assert(0 <= d * sa <= sa * da) by (nonlinear_arith)
        requires
            0 <= sa,
            0 <= d <= da,
    ;
    assert(0 <= (sa - s) * (da - d) <= 65025) by (nonlinear_arith)
        requires
            0 <= s <= sa <= 255,
            0 <= d <= da <= 255,
    ;
    assert(0 <= (255 - sa) * d <= 65025) by (nonlinear_arith)
        requires
            0 <= sa <= 255,
            0 <= d <= 255,
    ;
    assert(0 <= (255 - da) * s <= 65025) by (nonlinear_arith)
        requires
            0 <= da <= 255,
            0 <= s <= 255,
    ;
    assert(s * da + d * sa - s * d == sa * da - (sa - s) * (da - d)) by (nonlinear_arith);
    if 2 * d <= da {
        assert(2 * (s * d) <= sa * da) by (nonlinear_arith)
            requires
                0 <= s <= sa,
                0 <= 2 * d <= da,
        ;
    } else {
        assert(2 * ((sa - s) * (da - d)) <= sa * da) by (nonlinear_arith)
            requires
                0 <= s <= sa,
                0 <= 2 * (da - d) <= da,
        ;
    }
}

/// Every blend mode keeps pixels premultiplied.
pub proof fn law_blending_is_premultiplied(mode: BlendMode, source: Channels, destination: Channels)
    requires
        source.premultiplied(),
        destination.premultiplied(),
    ensures
        blended_over(mode, source, destination).premultiplied(),
{
    law_over_is_premultiplied(source, destination);
    lemma_blended_bounds(mode, source.red, source.alpha, destination.red, destination.alpha);
    lemma_blended_bounds(mode, source.green, source.alpha, destination.green, destination.alpha);
    lemma_blended_bounds(mode, source.blue, source.alpha, destination.blue, destination.alpha);
}

/// Under every blend mode a transparent source leaves the destination and a transparent
/// destination leaves the source.
pub proof fn law_blending_with_transparent(
    mode: BlendMode,
    source: Channels,
    destination: Channels,
)
    requires
        source.premultiplied(),
        destination.premultiplied(),
    ensures
        source.alpha == 0 ==> blended_over(mode, source, destination) == destination,
        destination.alpha == 0 ==> blended_over(mode, source, destination) == source,
{
    law_over_identities(source, destination);
    if source.alpha == 0 || destination.alpha == 0 {
        lemma_mix_with_transparent(
            mode,
            source.red,
            source.alpha,
            destination.red,
            destination.alpha,
        );
        lemma_mix_with_transparent(
            mode,
            source.green,
            source.alpha,
            destination.green,
            destination.alpha,
        );
        lemma_mix_with_transparent(
            mode,
            source.blue,
            source.alpha,
            destination.blue,
            destination.alpha,
        );
    }
}

proof fn lemma_mix_with_transparent(mode: BlendMode, s: int, sa: int, d: int, da: int)
    requires
        0 <= s <= sa <= 255,
        0 <= d <= da <= 255,
    ensures
        sa == 0 ==> mixed_channel(mode, s, sa, d, da, da) == d,
        da == 0 ==> mixed_channel(mode, s, sa, d, da, sa) == s,
{
    lemma_blended_bounds(mode, s, sa, d, da);
    assert(sa == 0 ==> sa * da == 0 && (255 - sa) * d == 255 * d) by (nonlinear_arith);
    assert(da == 0 ==> sa * da == 0 && (255 - da) * s == 255 * s) by (nonlinear_arith);
    assert(s == 0 ==> (255 - da) * s == 0) by (nonlinear_arith);
    assert(d == 0 ==> (255 - sa) * d == 0) by (nonlinear_arith);
}

/// Multiply, screen, darken, lighten and plus do not depend on which pixel lies on top.
pub proof fn law_symmetric_blends_commute(mode: BlendMode, a: Channels, b: Channels)
    requires
        a.premultiplied(),
        b.premultiplied(),
        mode is Multiply || mode is Screen || mode is Darken || mode is Lighten || mode is Plus,
    ensures
        blended_over(mode, a, b) == blended_over(mode, b, a),
{
    law_over_alpha_is_symmetric(a, b);
    assert(a.red * b.red == b.red * a.red) by (nonlinear_arith);
    assert(a.green * b.green == b.green * a.green) by (nonlinear_arith);
    assert(a.blue * b.blue == b.blue * a.blue) by (nonlinear_arith);
}

/// A reference pixel: premultiplied RGBA8 bytes.
#[derive(Clone, Copy, Debug, PartialEq, Eq, Structural)]
pub struct PremultipliedRgba8 {
    red: u8,
    green: u8,
    blue: u8,
    alpha: u8,
}

impl View for PremultipliedRgba8 {
    type V = Channels;

    closed spec fn view(&self) -> Channels {
        Channels {
            red: self.red as int,
            green: self.green as int,
            blue: self.blue as int,
            alpha: self.alpha as int,
        }
    }
}

impl Default for PremultipliedRgba8 {
    fn default() -> (pixel: Self)
        ensures
            pixel@ == transparent(),
    {
        Self::transparent()
    }
}

impl PremultipliedRgba8 {
    #[verifier::type_invariant]
    spec fn type_inv(self) -> bool {
        self@.premultiplied()
    }

    pub fn transparent() -> (pixel: Self)
        ensures
            pixel@ == transparent(),
    {
        Self { red: 0, green: 0, blue: 0, alpha: 0 }
    }

    /// Builds a pixel, or rejects the first color channel that exceeds alpha.
    pub fn try_new(red: u8, green: u8, blue: u8, alpha: u8) -> (result: Result<Self, Error>)
        ensures
            match result {
                Ok(pixel) => {
                    &&& red <= alpha && green <= alpha && blue <= alpha
                    &&& pixel@ == (Channels {
                        red: red as int,
                        green: green as int,
                        blue: blue as int,
                        alpha: alpha as int,
                    })
                },
                Err(error) => if red > alpha {
                    error == Error::Invalid(InvalidValue::PremultipliedRed(red))
                } else if green > alpha {
                    error == Error::Invalid(InvalidValue::PremultipliedGreen(green))
                } else {
                    blue > alpha && error == Error::Invalid(InvalidValue::PremultipliedBlue(blue))
                },
            },
    {
        if red > alpha {
            return Err(Error::Invalid(InvalidValue::PremultipliedRed(red)));
        }
        if green > alpha {
            return Err(Error::Invalid(InvalidValue::PremultipliedGreen(green)));
        }
        if blue > alpha {
            return Err(Error::Invalid(InvalidValue::PremultipliedBlue(blue)));
        }
        Ok(Self { red, green, blue, alpha })
    }

    pub fn red(self) -> (red: u8)
        ensures
            red == self@.red,
    {
        self.red
    }

    pub fn green(self) -> (green: u8)
        ensures
            green == self@.green,
    {
        self.green
    }

    pub fn blue(self) -> (blue: u8)
        ensures
            blue == self@.blue,
    {
        self.blue
    }

    pub fn alpha(self) -> (alpha: u8)
        ensures
            alpha == self@.alpha,
    {
        self.alpha
    }

    /// This pixel, with what holds of every pixel.
    pub fn validated(self) -> (pixel: Self)
        ensures
            pixel == self,
            self@.premultiplied(),
    {
        proof {
            use_type_invariant(&self);
        }
        self
    }

    /// Composes this pixel over `destination`.
    pub fn source_over(self, destination: Self) -> (result: Self)
        ensures
            result@ == over(self@, destination@),
            result@.premultiplied(),
    {
        proof {
            use_type_invariant(&self);
            use_type_invariant(&destination);
            law_over_identities(self@, destination@);
            law_over_is_premultiplied(self@, destination@);
        }
        if self.alpha == 0 {
            return destination;
        }
        if self.alpha == u8::MAX {
            return self;
        }
        if destination.alpha == 0 {
            return self;
        }
        let inverse_source_alpha: u8 = u8::MAX - self.alpha;
        Self {
            red: self.red + scale_channel_by_alpha(destination.red, inverse_source_alpha),
            green: self.green + scale_channel_by_alpha(destination.green, inverse_source_alpha),
            blue: self.blue + scale_channel_by_alpha(destination.blue, inverse_source_alpha),
            alpha: self.alpha + scale_channel_by_alpha(destination.alpha, inverse_source_alpha),
        }
    }

    /// Composes this pixel over `destination` with a blend mode.
    pub fn blend_over(self, destination: Self, mode: BlendMode) -> (result: Self)
        ensures
            result@ == blended_over(mode, self@, destination@),
            result@.premultiplied(),
    {
        match mode {
            BlendMode::Normal => self.source_over(destination),
            BlendMode::Plus => self.plus_lighter(destination),
            BlendMode::Multiply
            | BlendMode::Screen
            | BlendMode::Overlay
            | BlendMode::Darken
            | BlendMode::Lighten => self.mix_blend_over(destination, mode),
        }
    }

    fn plus_lighter(self, destination: Self) -> (result: Self)
        ensures
            result@ == plus(self@, destination@),
            result@.premultiplied(),
    {
        proof {
            use_type_invariant(&self);
            use_type_invariant(&destination);
        }
        Self {
            red: self.red.saturating_add(destination.red),
            green: self.green.saturating_add(destination.green),
            blue: self.blue.saturating_add(destination.blue),
            alpha: self.alpha.saturating_add(destination.alpha),
        }
    }

    fn mix_blend_over(self, destination: Self, mode: BlendMode) -> (result: Self)
        requires
            mode !is Normal,
            mode !is Plus,
        ensures
            result@ == mixed(mode, self@, destination@),
            result@.premultiplied(),
    {
        proof {
            use_type_invariant(&self);
            use_type_invariant(&destination);
            law_blending_with_transparent(mode, self@, destination@);
            law_blending_is_premultiplied(mode, self@, destination@);
        }
        if self.alpha == 0 {
            return destination;
        }
        if destination.alpha == 0 {
            return self;
        }
        let output_alpha: u8 = self.source_over(destination).alpha;
        let sa: u8 = self.alpha;
        let da: u8 = destination.alpha;
        Self {
            red: mix_blend_channel(mode, self.red, sa, destination.red, da, output_alpha),
            green: mix_blend_channel(mode, self.green, sa, destination.green, da, output_alpha),
            blue: mix_blend_channel(mode, self.blue, sa, destination.blue, da, output_alpha),
            alpha: output_alpha,
        }
    }

    /// This pixel where `destination` covers.
    pub fn source_in_alpha_of(self, destination: Self) -> (result: Self)
        ensures
            result@ == scaled_by(self@, destination@.alpha),
            result@.premultiplied(),
    {
        self.scale_by_alpha(destination.alpha)
    }

    /// This pixel where `source` covers.
    pub fn destination_in_alpha_of(self, source: Self) -> (result: Self)
        ensures
            result@ == scaled_by(self@, source@.alpha),
            result@.premultiplied(),
    {
        self.scale_by_alpha(source.alpha)
    }

    /// This pixel weighted by an alpha byte.
    pub fn scale_by_alpha(self, alpha: u8) -> (result: Self)
        ensures
            result@ == scaled_by(self@, alpha as int),
            result@.premultiplied(),
    {
        proof {
            use_type_invariant(&self);
            law_scaled_by(self@, alpha as int);
        }
        if alpha == 0 || self.alpha == 0 {
            return Self::transparent();
        }
        if alpha == u8::MAX {
            return self;
        }
        Self {
            red: scale_channel_by_alpha(self.red, alpha),
            green: scale_channel_by_alpha(self.green, alpha),
            blue: scale_channel_by_alpha(self.blue, alpha),
            alpha: scale_channel_by_alpha(self.alpha, alpha),
        }
    }
}

/// Blends one channel of two pixels that both cover something.
fn mix_blend_channel(
    mode: BlendMode,
    source: u8,
    source_alpha: u8,
    destination: u8,
    destination_alpha: u8,
    output_alpha: u8,
) -> (channel: u8)
    requires
        source <= source_alpha,
        destination <= destination_alpha,
    ensures
        channel == mixed_channel(
            mode,
            source as int,
            source_alpha as int,
            destination as int,
            destination_alpha as int,
            output_alpha as int,
        ),
{
    proof {
        lemma_blended_bounds(
            mode,
            source as int,
            source_alpha as int,
            destination as int,
            destination_alpha as int,
        );
    }
    let s: u32 = source as u32;
    let sa: u32 = source_alpha as u32;
    let d: u32 = destination as u32;
    let da: u32 = destination_alpha as u32;
    let both: u32 = blend_covered_channel(mode, s, sa, d, da);
    let channel: u32 = ((255 - sa) * d + (255 - da) * s + both + 127) / 255;
    if channel > output_alpha as u32 {
        output_alpha
    } else {
        channel as u8
    }
}

/// Blends one channel where both pixels cover.
fn blend_covered_channel(mode: BlendMode, s: u32, sa: u32, d: u32, da: u32) -> (both: u32)
    requires
        s <= sa <= 255,
        d <= da <= 255,
    ensures
        both == blended(mode, s as int, sa as int, d as int, da as int),
{
    proof {
        lemma_blended_bounds(mode, s as int, sa as int, d as int, da as int);
    }
    match mode {
        BlendMode::Multiply => s * d,
        BlendMode::Screen => s * da + d * sa - s * d,
        BlendMode::Overlay => if 2 * d <= da {
            2 * (s * d)
        } else {
            sa * da - 2 * ((sa - s) * (da - d))
        },
        BlendMode::Darken => if s * da <= d * sa {
            s * da
        } else {
            d * sa
        },
        BlendMode::Lighten => if s * da >= d * sa {
            s * da
        } else {
            d * sa
        },
        BlendMode::Normal | BlendMode::Plus => s * da,
    }
}

/// A channel weighted by an alpha byte.
pub fn scale_channel_by_alpha(channel: u8, alpha: u8) -> (result: u8)
    ensures
        result == scaled(channel as int, alpha as int),
{
    proof {
        lemma_scaled_bounds(channel as int, 255, alpha as int);
    }
    ((channel as u16 * alpha as u16 + 127) / 255) as u8
}

/// Whether `quotient` is the integer nearest to `value / 255`.
pub open spec fn rounds(value: int, quotient: int) -> bool {
    -127 <= 255 * quotient - value <= 127
}

/// Weighting a channel by an alpha byte gives the integer nearest to their product over 255.
pub proof fn law_weights_round_to_nearest(channel: u8, alpha: u8, result: u8)
    requires
        call_ensures(scale_channel_by_alpha, (channel, alpha), result),
    ensures
        rounds(channel * alpha, result as int),
{
}

/// Source-over adds to each channel of the source that channel of the destination, weighted by what
/// the source lets through and rounded to the nearest integer.
pub proof fn law_source_over_adds_what_shows_through(
    source: PremultipliedRgba8,
    destination: PremultipliedRgba8,
    result: PremultipliedRgba8,
)
    requires
        call_ensures(PremultipliedRgba8::source_over, (source, destination), result),
    ensures
        rounds(destination@.red * (255 - source@.alpha), result@.red - source@.red),
        rounds(destination@.green * (255 - source@.alpha), result@.green - source@.green),
        rounds(destination@.blue * (255 - source@.alpha), result@.blue - source@.blue),
        rounds(destination@.alpha * (255 - source@.alpha), result@.alpha - source@.alpha),
{
}

/// A pixel weighted by an alpha byte, or by the alpha of another pixel, has each of its channels
/// weighted by that alpha.
pub proof fn law_weights_apply_to_each_channel(
    pixel: PremultipliedRgba8,
    other: PremultipliedRgba8,
    alpha: u8,
    scaled: PremultipliedRgba8,
    inside: PremultipliedRgba8,
    kept: PremultipliedRgba8,
)
    requires
        call_ensures(PremultipliedRgba8::scale_by_alpha, (pixel, alpha), scaled),
        call_ensures(PremultipliedRgba8::source_in_alpha_of, (pixel, other), inside),
        call_ensures(PremultipliedRgba8::destination_in_alpha_of, (pixel, other), kept),
    ensures
        rounds(pixel@.red * alpha, scaled@.red),
        rounds(pixel@.green * alpha, scaled@.green),
        rounds(pixel@.blue * alpha, scaled@.blue),
        rounds(pixel@.alpha * alpha, scaled@.alpha),
        rounds(pixel@.red * other@.alpha, inside@.red),
        rounds(pixel@.green * other@.alpha, inside@.green),
        rounds(pixel@.blue * other@.alpha, inside@.blue),
        rounds(pixel@.alpha * other@.alpha, inside@.alpha),
        kept@ == inside@,
{
}

/// Whether a blended channel is the integer nearest to `exact / 255`, or the alpha of its pixel
/// where that is less.
pub open spec fn rounds_under(exact: int, channel: int, alpha: int) -> bool {
    &&& channel <= alpha
    &&& rounds(exact, channel) || (channel == alpha && exact > 255 * alpha)
}

/// What the blend modes are for, channel by channel: normal is source-over, plus adds up to the
/// largest byte, multiply and screen are the products of the colors and of their complements, and
/// darken and lighten take the lesser and the greater of composing either pixel over the other.
pub proof fn law_blend_modes(
    mode: BlendMode,
    source: PremultipliedRgba8,
    destination: PremultipliedRgba8,
    result: PremultipliedRgba8,
)
    requires
        source@.premultiplied(),
        destination@.premultiplied(),
        call_ensures(PremultipliedRgba8::blend_over, (source, destination, mode), result),
    ensures
        mode is Plus || rounds(
            destination@.alpha * (255 - source@.alpha),
            result@.alpha - source@.alpha,
        ),
        mode is Plus ==> result@.alpha == (if source@.alpha + destination@.alpha > 255 {
            255
        } else {
            source@.alpha + destination@.alpha
        }),
        blends_channel(
            mode,
            source@.red,
            source@.alpha,
            destination@.red,
            destination@.alpha,
            result@.red,
            result@.alpha,
        ),
        blends_channel(
            mode,
            source@.green,
            source@.alpha,
            destination@.green,
            destination@.alpha,
            result@.green,
            result@.alpha,
        ),
        blends_channel(
            mode,
            source@.blue,
            source@.alpha,
            destination@.blue,
            destination@.alpha,
            result@.blue,
            result@.alpha,
        ),
{
    let (sa, da) = (source@.alpha, destination@.alpha);
    lemma_blends_channel(mode, source@.red, sa, destination@.red, da, result@.alpha);
    lemma_blends_channel(mode, source@.green, sa, destination@.green, da, result@.alpha);
    lemma_blends_channel(mode, source@.blue, sa, destination@.blue, da, result@.alpha);
    law_blending_is_premultiplied(mode, source@, destination@);
}

/// Whether a channel is what a blend mode makes of a source channel `s` under alpha `sa` and a
/// destination channel `d` under alpha `da`.
pub open spec fn blends_channel(
    mode: BlendMode,
    s: int,
    sa: int,
    d: int,
    da: int,
    channel: int,
    alpha: int,
) -> bool {
    let source_on_top = 255 * s + (255 - sa) * d;
    let destination_on_top = 255 * d + (255 - da) * s;
    match mode {
        BlendMode::Normal => rounds((255 - sa) * d, channel - s),
        BlendMode::Plus => channel == s + d || (channel == 255 && s + d > 255),
        BlendMode::Multiply => rounds_under((255 - sa) * d + (255 - da) * s + s * d, channel, alpha),
        BlendMode::Screen => rounds_under(65025 - (255 - s) * (255 - d), channel, alpha),
        BlendMode::Overlay => {
            let between = (255 - sa) * d + (255 - da) * s;
            if d + d <= da {
                rounds_under(between + s * (d + d), channel, alpha)
            } else {
                rounds_under(
                    between + sa * da - (sa - s) * ((da - d) + (da - d)),
                    channel,
                    alpha,
                )
            }
        },
        BlendMode::Darken => {
            ||| source_on_top <= destination_on_top && rounds_under(source_on_top, channel, alpha)
            ||| destination_on_top <= source_on_top && rounds_under(
                destination_on_top,
                channel,
                alpha,
            )
        },
        BlendMode::Lighten => {
            ||| source_on_top >= destination_on_top && rounds_under(source_on_top, channel, alpha)
            ||| destination_on_top >= source_on_top && rounds_under(
                destination_on_top,
                channel,
                alpha,
            )
        },
    }
}

proof fn lemma_blends_channel(mode: BlendMode, s: int, sa: int, d: int, da: int, alpha: int)
    requires
        0 <= s <= sa <= 255,
        0 <= d <= da <= 255,
    ensures
        mode !is Normal && mode !is Plus ==> blends_channel(
            mode,
            s,
            sa,
            d,
            da,
            mixed_channel(mode, s, sa, d, da, alpha),
            alpha,
        ),
        mode is Normal ==> blends_channel(mode, s, sa, d, da, s + scaled(d, 255 - sa), alpha),
{
    assert((255 - sa) * d == 255 * d - d * sa) by (nonlinear_arith);
    assert((255 - da) * s == 255 * s - s * da) by (nonlinear_arith);
    assert(d * (255 - sa) == 255 * d - d * sa) by (nonlinear_arith);
    assert((255 - s) * (255 - d) == 65025 - 255 * s - 255 * d + s * d) by (nonlinear_arith);
    assert(s * (d + d) == 2 * (s * d)) by (nonlinear_arith);
    assert((sa - s) * ((da - d) + (da - d)) == 2 * ((sa - s) * (da - d))) by (nonlinear_arith);
}

/// Opaque pixels blend as their colors do: normal gives the source, plus the sum up to the largest
/// byte, multiply the product over 255, screen the complement of multiplying the complements,
/// darken the lesser color and lighten the greater.
pub proof fn law_opaque_pixels_blend_as_colors(
    mode: BlendMode,
    source: PremultipliedRgba8,
    destination: PremultipliedRgba8,
    result: PremultipliedRgba8,
)
    requires
        source@.premultiplied(),
        destination@.premultiplied(),
        source@.alpha == 255,
        destination@.alpha == 255,
        call_ensures(PremultipliedRgba8::blend_over, (source, destination, mode), result),
    ensures
        result@.alpha == 255,
        mode is Normal ==> result@ == source@,
        mode is Multiply ==> rounds(source@.red * destination@.red, result@.red),
        mode is Multiply ==> rounds(source@.green * destination@.green, result@.green),
        mode is Multiply ==> rounds(source@.blue * destination@.blue, result@.blue),
        mode is Screen ==> rounds(
            (255 - source@.red) * (255 - destination@.red),
            255 - result@.red,
        ),
        mode is Screen ==> rounds(
            (255 - source@.green) * (255 - destination@.green),
            255 - result@.green,
        ),
        mode is Screen ==> rounds(
            (255 - source@.blue) * (255 - destination@.blue),
            255 - result@.blue,
        ),
        mode is Darken ==> result@.red <= source@.red && result@.red <= destination@.red && (
        result@.red == source@.red || result@.red == destination@.red),
        mode is Darken ==> result@.green <= source@.green && result@.green <= destination@.green
            && (result@.green == source@.green || result@.green == destination@.green),
        mode is Darken ==> result@.blue <= source@.blue && result@.blue <= destination@.blue && (
        result@.blue == source@.blue || result@.blue == destination@.blue),
        mode is Lighten ==> result@.red >= source@.red && result@.red >= destination@.red && (
        result@.red == source@.red || result@.red == destination@.red),
        mode is Lighten ==> result@.green >= source@.green && result@.green >= destination@.green
            && (result@.green == source@.green || result@.green == destination@.green),
        mode is Lighten ==> result@.blue >= source@.blue && result@.blue >= destination@.blue && (
        result@.blue == source@.blue || result@.blue == destination@.blue),
{
    law_blend_modes(mode, source, destination, result);
    law_over_identities(source@, destination@);
    lemma_opaque_products(source@.red, destination@.red);
    lemma_opaque_products(source@.green, destination@.green);
    lemma_opaque_products(source@.blue, destination@.blue);
}

proof fn lemma_opaque_products(s: int, d: int)
    requires
        0 <= s <= 255,
        0 <= d <= 255,
    ensures
        0 <= s * d <= 65025,
        0 <= (255 - s) * (255 - d) <= 65025,
{
    assert(0 <= s * d <= 65025) by (nonlinear_arith)
        requires
            0 <= s <= 255,
            0 <= d <= 255,
    ;
    let (a, b) = (255 - s, 255 - d);
    assert(0 <= a * b <= 65025) by (nonlinear_arith)
        requires
            0 <= a <= 255,
            0 <= b <= 255,
    ;
}

/// A pixel that was built gives back each of the bytes that it was built from.
pub proof fn law_pixels_keep_their_channels(
    red: u8,
    green: u8,
    blue: u8,
    alpha: u8,
    pixel: PremultipliedRgba8,
)
    requires
        call_ensures(
            PremultipliedRgba8::try_new,
            (red, green, blue, alpha),
            Ok::<PremultipliedRgba8, Error>(pixel),
        ),
    ensures
        forall|read: u8| #[trigger] call_ensures(PremultipliedRgba8::red, (pixel,), read) ==> read
            == red,
        forall|read: u8| #[trigger]
            call_ensures(PremultipliedRgba8::green, (pixel,), read) ==> read == green,
        forall|read: u8| #[trigger] call_ensures(PremultipliedRgba8::blue, (pixel,), read) ==> read
            == blue,
        forall|read: u8| #[trigger]
            call_ensures(PremultipliedRgba8::alpha, (pixel,), read) ==> read == alpha,
        red <= alpha && green <= alpha && blue <= alpha,
{
}

} // verus!
