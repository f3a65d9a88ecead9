//! Conversion between straight and premultiplied bytes.

use vstd::prelude::*;

use crate::error::{Error, InvalidValue};
use crate::geometry::PhysicalSize;
use crate::image::{rgba_len, validate_image_buffer_rgba_len, ImageBuffer};
use crate::reference::buffer::{
    channels_of, size_failure, ReferencePremultipliedRgba8Buffer,
};
use crate::reference::pixel::{
    law_scaling_endpoints, lemma_scaled_bounds, rounds, scale_channel_by_alpha, scaled,
    transparent, Channels, PremultipliedRgba8,
};

verus! {

/// The premultiplied pixel of straight bytes.
pub open spec fn premultiplied(red: u8, green: u8, blue: u8, alpha: u8) -> Channels {
    Channels {
        red: scaled(red as int, alpha as int),
        green: scaled(green as int, alpha as int),
        blue: scaled(blue as int, alpha as int),
        alpha: alpha as int,
    }
}

/// `channel * 255 / alpha`, rounded to the nearest integer with halves rounded up.
pub open spec fn unpremultiplied(channel: int, alpha: int) -> int {
    if alpha == 0 {
        0
    } else {
        (510 * channel + alpha) / (2 * alpha)
    }
}

/// Byte `index` of the straight RGBA bytes of a pixel.
pub open spec fn straight_byte(pixel: Channels, index: int) -> u8 {
    if index == 0 {
        unpremultiplied(pixel.red, pixel.alpha) as u8
    } else if index == 1 {
        unpremultiplied(pixel.green, pixel.alpha) as u8
    } else if index == 2 {
        unpremultiplied(pixel.blue, pixel.alpha) as u8
    } else {
        pixel.alpha as u8
    }
}

/// The straight RGBA bytes of a sequence of pixels.
pub open spec fn straight_bytes(pixels: Seq<Channels>) -> Seq<u8> {
    Seq::new(4 * pixels.len(), |i: int| straight_byte(pixels[i / 4], i % 4))
}

/// The pixels of straight RGBA bytes.
pub open spec fn premultiplied_pixels(rgba: Seq<u8>) -> Seq<Channels> {
    Seq::new(
        rgba.len() / 4,
        |i: int| premultiplied(rgba[4 * i], rgba[4 * i + 1], rgba[4 * i + 2], rgba[4 * i + 3]),
    )
}

proof fn lemma_unpremultiplied_bounds(channel: int, alpha: int)
    requires
        0 <= channel <= alpha <= 255,
    ensures
        0 <= unpremultiplied(channel, alpha) <= 255,
{
    if alpha > 0 {
        let straight = unpremultiplied(channel, alpha);
        vstd::arithmetic::div_mod::lemma_fundamental_div_mod(510 * channel + alpha, 2 * alpha);
        vstd::arithmetic::div_mod::lemma_mod_bound(510 * channel + alpha, 2 * alpha);
        assert(0 <= straight <= 255) by (nonlinear_arith)
            requires
                0 <= channel <= alpha,
                0 < alpha,
                2 * alpha * straight <= 510 * channel + alpha < 2 * alpha * straight + 2 * alpha,
        ;
    }
}

/// A premultiplied channel survives the way to straight bytes and back.
pub proof fn law_channel_round_trip(channel: int, alpha: int)
    requires
        0 <= channel <= alpha <= 255,
    ensures
        scaled(unpremultiplied(channel, alpha), alpha) == channel,
{
    if alpha > 0 {
        let straight = unpremultiplied(channel, alpha);
        vstd::arithmetic::div_mod::lemma_fundamental_div_mod(510 * channel + alpha, 2 * alpha);
        vstd::arithmetic::div_mod::lemma_mod_bound(510 * channel + alpha, 2 * alpha);
        assert(2 * (straight * alpha) == 2 * alpha * straight) by (nonlinear_arith);
    }
}

/// Opaque straight bytes survive the way to premultiplied pixels and back.
pub proof fn law_opaque_channel_round_trip(channel: int)
    requires
        0 <= channel <= 255,
    ensures
        unpremultiplied(scaled(channel, 255), 255) == channel,
{
    law_scaling_endpoints(channel);
    vstd::arithmetic::div_mod::lemma_fundamental_div_mod_converse(
        510 * channel + 255,
        510,
        channel,
        255,
    );
}

/// Premultiplied pixels survive the way to straight bytes and back.
pub proof fn law_pixels_round_trip(pixels: Seq<Channels>)
    requires
        forall|i: int| 0 <= i < pixels.len() ==> (#[trigger] pixels[i]).premultiplied(),
    ensures
        premultiplied_pixels(straight_bytes(pixels)) == pixels,
{
    let bytes = straight_bytes(pixels);
    assert forall|i: int| 0 <= i < pixels.len() implies premultiplied_pixels(bytes)[i]
        == pixels[i] by {
        let pixel = pixels[i];
        law_channel_round_trip(pixel.red, pixel.alpha);
        law_channel_round_trip(pixel.green, pixel.alpha);
        law_channel_round_trip(pixel.blue, pixel.alpha);
        lemma_unpremultiplied_bounds(pixel.red, pixel.alpha);
        lemma_unpremultiplied_bounds(pixel.green, pixel.alpha);
        lemma_unpremultiplied_bounds(pixel.blue, pixel.alpha);
    }
    assert(premultiplied_pixels(bytes) =~= pixels);
}

/// The premultiplied pixel of straight bytes.
pub fn straight_rgba8_pixel_to_premultiplied_rgba8(red: u8, green: u8, blue: u8, alpha: u8) -> (pixel:
    PremultipliedRgba8)
    ensures
        pixel@ == premultiplied(red, green, blue, alpha),
{
    proof {
        lemma_scaled_bounds(red as int, 255, alpha as int);
        lemma_scaled_bounds(green as int, 255, alpha as int);
        lemma_scaled_bounds(blue as int, 255, alpha as int);
    }
    if alpha == 0 {
        return PremultipliedRgba8::transparent();
    }
    match PremultipliedRgba8::try_new(
        scale_channel_by_alpha(red, alpha),
        scale_channel_by_alpha(green, alpha),
        scale_channel_by_alpha(blue, alpha),
        alpha,
    ) {
        Ok(pixel) => pixel,
        Err(_) => PremultipliedRgba8::transparent(),
    }
}

/// A straight channel of a premultiplied one.
pub fn unpremultiply_rgba8_channel(channel: u8, alpha: u8) -> (straight: u8)
    requires
        channel <= alpha,
    ensures
        straight == unpremultiplied(channel as int, alpha as int),
{
    proof {
        lemma_unpremultiplied_bounds(channel as int, alpha as int);
    }
    if alpha == 0 {
        return 0;
    }
    ((510 * channel as u32 + alpha as u32) / (2 * alpha as u32)) as u8
}

/// The straight RGBA bytes of a pixel.
pub fn premultiplied_rgba8_pixel_to_straight_rgba8(pixel: PremultipliedRgba8) -> (bytes: [u8; 4])
    ensures
        forall|i: int| 0 <= i < 4 ==> bytes@[i] == straight_byte(pixel@, i),
{
    let pixel = pixel.validated();
    if pixel.alpha() == 0 {
        return [0, 0, 0, 0];
    }
    [
        unpremultiply_rgba8_channel(pixel.red(), pixel.alpha()),
        unpremultiply_rgba8_channel(pixel.green(), pixel.alpha()),
        unpremultiply_rgba8_channel(pixel.blue(), pixel.alpha()),
        pixel.alpha(),
    ]
}

/// Why straight bytes do not make a reference buffer of `size`, if they do not.
pub open spec fn conversion_failure(size: PhysicalSize, length: usize) -> Option<InvalidValue> {
    if length != rgba_len(size) {
        Some(InvalidValue::ImageByteLength { size, length })
    } else {
        size_failure(size)
    }
}

/// The reference buffer of straight RGBA bytes.
pub fn straight_rgba8_bytes_to_premultiplied_rgba8_reference(size: PhysicalSize, rgba: &[u8]) -> (result:
    Result<ReferencePremultipliedRgba8Buffer, Error>)
    ensures
        match conversion_failure(size, rgba@.len() as usize) {
            None => result matches Ok(buffer) && buffer.size() == size && buffer.channels()
                == premultiplied_pixels(rgba@),
            Some(failure) => result == Err::<ReferencePremultipliedRgba8Buffer, Error>(
                Error::Invalid(failure),
            ),
        },
{
    match validate_image_buffer_rgba_len(size, rgba.len()) {
        Ok(()) => {},
        Err(error) => {
            return Err(error);
        },
    }
    let length: usize = rgba.len();
    let count: usize = length / 4;
    let mut pixels: Vec<PremultipliedRgba8> = Vec::with_capacity(count);
    let mut i: usize = 0;
    while i < count
        invariant
            length == rgba@.len(),
            count == length / 4,
            i <= count,
            pixels@.len() == i,
            forall|j: int|
                0 <= j < i ==> (#[trigger] pixels@[j])@ == premultiplied_pixels(rgba@)[j],
        decreases count - i,
    {
        let pixel = straight_rgba8_pixel_to_premultiplied_rgba8(
            rgba[4 * i],
            rgba[4 * i + 1],
            rgba[4 * i + 2],
            rgba[4 * i + 3],
        );
        pixels.push(pixel);
        i = i + 1;
    }
    assert(channels_of(pixels@) =~= premultiplied_pixels(rgba@));
    ReferencePremultipliedRgba8Buffer::from_pixels(size, pixels)
}

/// The reference buffer of a straight-alpha image.
pub fn straight_rgba8_image_buffer_to_premultiplied_rgba8_reference(image: &ImageBuffer) -> (result:
    Result<ReferencePremultipliedRgba8Buffer, Error>)
    ensures
        match size_failure(image.spec_size()) {
            None => result matches Ok(buffer) && buffer.size() == image.spec_size()
                && buffer.channels() == premultiplied_pixels(image.spec_rgba()),
            Some(failure) => result == Err::<ReferencePremultipliedRgba8Buffer, Error>(
                Error::Invalid(failure),
            ),
        },
{
    let rgba = image.rgba();
    let length: usize = rgba.len();
    assert(length == rgba_len(image.spec_size()));
    straight_rgba8_bytes_to_premultiplied_rgba8_reference(image.size(), rgba)
}

/// The straight-alpha image of a reference buffer.
pub fn premultiplied_rgba8_reference_to_straight_rgba8_image_buffer(
    buffer: &ReferencePremultipliedRgba8Buffer,
) -> (result: Result<ImageBuffer, Error>)
    ensures
        if buffer.size().area() * 4 > usize::MAX {
            result == Err::<ImageBuffer, Error>(
                Error::Invalid(
                    InvalidValue::ReferenceByteLength((buffer.size().area() * 4) as u64),
                ),
            )
        } else {
            result matches Ok(image) && image.spec_size() == buffer.size() && image.spec_rgba()
                == straight_bytes(buffer.channels())
        },
{
    let byte_len: u64 = buffer.byte_len();
    if byte_len > usize::MAX as u64 {
        return Err(Error::Invalid(InvalidValue::ReferenceByteLength(byte_len)));
    }
    let mut rgba: Vec<u8> = Vec::with_capacity(byte_len as usize);
    let pixels = buffer.pixels();
    let mut i: usize = 0;
    while i < pixels.len()
        invariant
            pixels@ == buffer.spec_pixels(),
            i <= pixels@.len(),
            rgba@.len() == 4 * i,
            forall|j: int|
                0 <= j < 4 * i ==> rgba@[j] == straight_byte(buffer.channels()[j / 4], j % 4),
        decreases pixels@.len() - i,
    {
        let bytes = premultiplied_rgba8_pixel_to_straight_rgba8(pixels[i]);
        rgba.push(bytes[0]);
        rgba.push(bytes[1]);
        rgba.push(bytes[2]);
        rgba.push(bytes[3]);
        i = i + 1;
    }
    assert(rgba@ =~= straight_bytes(buffer.channels()));
    ImageBuffer::try_new(buffer.physical_size(), rgba)
}

/// Straight bytes become a pixel with the same alpha, whose channels are the integers nearest to their
/// products with that alpha over 255, each from its own byte.
pub proof fn law_premultiplying_weights_each_channel(
    red: u8,
    green: u8,
    blue: u8,
    alpha: u8,
    pixel: PremultipliedRgba8,
)
    requires
        call_ensures(
            straight_rgba8_pixel_to_premultiplied_rgba8,
            (red, green, blue, alpha),
            pixel,
        ),
    ensures
        rounds(red * alpha, pixel@.red),
        rounds(green * alpha, pixel@.green),
        rounds(blue * alpha, pixel@.blue),
        pixel@.alpha == alpha,
{
}

/// A straight channel is the integer nearest to the premultiplied one times 255 over alpha, the greater
/// of two that are as near; without alpha there is no color.
pub proof fn law_straight_channels_are_nearest(channel: u8, alpha: u8, straight: u8)
    requires
        channel <= alpha,
        call_ensures(unpremultiply_rgba8_channel, (channel, alpha), straight),
    ensures
        alpha > 0 ==> -(alpha as int) < 2 * (straight * alpha) - 510 * channel <= alpha,
        alpha == 0 ==> straight == 0,
{
    if alpha > 0 {
        let value = 510 * channel + alpha;
        let divisor = 2 * alpha as int;
        vstd::arithmetic::div_mod::lemma_fundamental_div_mod(value, divisor);
        vstd::arithmetic::div_mod::lemma_mod_bound(value, divisor);
        let s = straight as int;
        let a = alpha as int;
        assert((2 * a) * s == 2 * (s * a)) by (nonlinear_arith);
    }
}

/// The straight bytes of a pixel are its red, green, blue and alpha, in this order; opaque pixels keep
/// their bytes.
pub proof fn law_straight_bytes_are_red_green_blue_alpha(pixel: PremultipliedRgba8, bytes: [u8; 4])
    requires
        pixel@.premultiplied(),
        call_ensures(premultiplied_rgba8_pixel_to_straight_rgba8, (pixel,), bytes),
    ensures
        bytes@[3] == pixel@.alpha,
        scaled(bytes@[0] as int, pixel@.alpha) == pixel@.red,
        scaled(bytes@[1] as int, pixel@.alpha) == pixel@.green,
        scaled(bytes@[2] as int, pixel@.alpha) == pixel@.blue,
        pixel@.alpha == 0 ==> bytes@[0] == 0 && bytes@[1] == 0 && bytes@[2] == 0,
        pixel@.alpha == 255 ==> bytes@[0] == pixel@.red && bytes@[1] == pixel@.green && bytes@[2]
            == pixel@.blue,
{
    law_channel_round_trip(pixel@.red, pixel@.alpha);
    law_channel_round_trip(pixel@.green, pixel@.alpha);
    law_channel_round_trip(pixel@.blue, pixel@.alpha);
    lemma_unpremultiplied_bounds(pixel@.red, pixel@.alpha);
    lemma_unpremultiplied_bounds(pixel@.green, pixel@.alpha);
    lemma_unpremultiplied_bounds(pixel@.blue, pixel@.alpha);
    if pixel@.alpha == 255 {
        law_scaling_endpoints(bytes@[0] as int);
        law_scaling_endpoints(bytes@[1] as int);
        law_scaling_endpoints(bytes@[2] as int);
    }
}

/// Straight bytes become a buffer of their size, four bytes to a pixel and in the order of the bytes.
pub proof fn law_bytes_become_pixels_in_order(
    size: PhysicalSize,
    rgba: &[u8],
    buffer: ReferencePremultipliedRgba8Buffer,
    i: int,
)
    requires
        call_ensures(
            straight_rgba8_bytes_to_premultiplied_rgba8_reference,
            (size, rgba),
            Ok::<ReferencePremultipliedRgba8Buffer, Error>(buffer),
        ),
        0 <= 4 * i < rgba@.len() <= usize::MAX,
    ensures
        rgba@.len() == 4 * (size.width * size.height),
        buffer.size().width == size.width,
        buffer.size().height == size.height,
        rounds(rgba@[4 * i] * rgba@[4 * i + 3], buffer.spec_pixels()[i]@.red),
        rounds(rgba@[4 * i + 1] * rgba@[4 * i + 3], buffer.spec_pixels()[i]@.green),
        rounds(rgba@[4 * i + 2] * rgba@[4 * i + 3], buffer.spec_pixels()[i]@.blue),
        buffer.spec_pixels()[i]@.alpha == rgba@[4 * i + 3],
{
    size.lemma_area_bounds();
    assert(conversion_failure(size, rgba@.len() as usize) is None);
    assert(i < rgba@.len() / 4);
    assert(buffer.channels().len() == rgba@.len() / 4);
    assert(buffer.channels().len() == buffer.spec_pixels().len());
    assert(buffer.channels()[i] == buffer.spec_pixels()[i]@);
    assert(buffer.channels()[i] == premultiplied_pixels(rgba@)[i]);
}

/// A buffer becomes an image of its size with four bytes to a pixel, in the order of the pixels; taken
/// back, the bytes give the pixels that they came from.
pub proof fn law_pixels_become_bytes_in_order(
    buffer: &ReferencePremultipliedRgba8Buffer,
    image: ImageBuffer,
    i: int,
)
    requires
        buffer.wf(),
        call_ensures(
            premultiplied_rgba8_reference_to_straight_rgba8_image_buffer,
            (buffer,),
            Ok::<ImageBuffer, Error>(image),
        ),
        0 <= i < buffer.spec_pixels().len(),
        buffer.spec_pixels()[i]@.premultiplied(),
    ensures
        image.spec_size().width == buffer.size().width,
        image.spec_size().height == buffer.size().height,
        image.spec_rgba().len() == 4 * buffer.spec_pixels().len(),
        ({
            let pixel = buffer.spec_pixels()[i]@;
            let alpha = image.spec_rgba()[4 * i + 3] as int;
            &&& alpha == pixel.alpha
            &&& scaled(image.spec_rgba()[4 * i] as int, alpha) == pixel.red
            &&& scaled(image.spec_rgba()[4 * i + 1] as int, alpha) == pixel.green
            &&& scaled(image.spec_rgba()[4 * i + 2] as int, alpha) == pixel.blue
        }),
{
    let pixel = buffer.spec_pixels()[i]@;
    let bytes = straight_bytes(buffer.channels());
    assert(buffer.channels()[i] == pixel);
    law_channel_round_trip(pixel.red, pixel.alpha);
    law_channel_round_trip(pixel.green, pixel.alpha);
    law_channel_round_trip(pixel.blue, pixel.alpha);
    lemma_unpremultiplied_bounds(pixel.red, pixel.alpha);
    lemma_unpremultiplied_bounds(pixel.green, pixel.alpha);
    lemma_unpremultiplied_bounds(pixel.blue, pixel.alpha);
    assert(bytes[4 * i] == straight_byte(pixel, 0));
    assert(bytes[4 * i + 1] == straight_byte(pixel, 1));
    assert(bytes[4 * i + 2] == straight_byte(pixel, 2));
    assert(bytes[4 * i + 3] == straight_byte(pixel, 3));
}

/// An image becomes a buffer of its size, pixel by pixel: the alpha of each is kept, and its colors
/// are weighted by it.
pub proof fn law_images_become_pixels_in_order(
    image: &ImageBuffer,
    buffer: ReferencePremultipliedRgba8Buffer,
    i: int,
)
    requires
        call_ensures(
            straight_rgba8_image_buffer_to_premultiplied_rgba8_reference,
            (image,),
            Ok::<ReferencePremultipliedRgba8Buffer, Error>(buffer),
        ),
        0 <= 4 * i <= image.spec_rgba().len() - 4,
    ensures
        buffer.size().width == image.spec_size().width,
        buffer.size().height == image.spec_size().height,
        rounds(image.spec_rgba()[4 * i] * image.spec_rgba()[4 * i + 3], buffer.spec_pixels()[i]@.red),
        rounds(
            image.spec_rgba()[4 * i + 1] * image.spec_rgba()[4 * i + 3],
            buffer.spec_pixels()[i]@.green,
        ),
        rounds(
            image.spec_rgba()[4 * i + 2] * image.spec_rgba()[4 * i + 3],
            buffer.spec_pixels()[i]@.blue,
        ),
        buffer.spec_pixels()[i]@.alpha == image.spec_rgba()[4 * i + 3],
{
    let rgba = image.spec_rgba();
    assert(i < rgba.len() / 4);
    assert(buffer.channels().len() == rgba.len() / 4);
    assert(buffer.channels().len() == buffer.spec_pixels().len());
    assert(buffer.channels()[i] == buffer.spec_pixels()[i]@);
    assert(buffer.channels()[i] == premultiplied_pixels(rgba)[i]);
}

} // verus!
