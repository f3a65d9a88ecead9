use surgeist_render::error::{Axis, Error, ErrorCode, InvalidValue};
use surgeist_render::geometry::PhysicalSize;
use surgeist_render::image::ImageBuffer;
use surgeist_render::reference::buffer::{validate_size, ReferencePremultipliedRgba8Buffer};
use surgeist_render::reference::convert::{
    premultiplied_rgba8_pixel_to_straight_rgba8,
    premultiplied_rgba8_reference_to_straight_rgba8_image_buffer,
    straight_rgba8_bytes_to_premultiplied_rgba8_reference,
    straight_rgba8_image_buffer_to_premultiplied_rgba8_reference,
    straight_rgba8_pixel_to_premultiplied_rgba8, unpremultiply_rgba8_channel,
};
use surgeist_render::reference::index::{
    extend_mask_index, mask_alpha_tap, mirrored_offset_index, offset_index, Extend, MaskImage,
};
use surgeist_render::reference::pixel::{scale_channel_by_alpha, BlendMode, PremultipliedRgba8};
use surgeist_render::reference::shadow::{
    offset_alpha_mask, MaterializedDropShadowOffsetQuantizationPolicy,
};
use surgeist_render::scalar::Scalar;

fn pixel(red: u8, green: u8, blue: u8, alpha: u8) -> PremultipliedRgba8 {
    PremultipliedRgba8::try_new(red, green, blue, alpha).unwrap()
}

fn bytes(pixel: PremultipliedRgba8) -> [u8; 4] {
    [pixel.red(), pixel.green(), pixel.blue(), pixel.alpha()]
}

fn scalar(value: f64) -> Scalar {
    Scalar::from_bits(value.to_bits())
}

fn blended_channel(source: (u8, u8), destination: (u8, u8), mode: BlendMode, out_alpha: u8) -> u8 {
    let (cs, ca) = (f64::from(source.0) / f64::from(source.1), f64::from(source.1) / 255.0);
    let (cb, ba) = (
        f64::from(destination.0) / f64::from(destination.1),
        f64::from(destination.1) / 255.0,
    );
    let mixed = match mode {
        BlendMode::Multiply => cs * cb,
        BlendMode::Screen => cs + cb - cs * cb,
        BlendMode::Overlay => {
            if cb <= 0.5 {
                2.0 * cs * cb
            } else {
                1.0 - 2.0 * (1.0 - cs) * (1.0 - cb)
            }
        }
        BlendMode::Darken => cs.min(cb),
        BlendMode::Lighten => cs.max(cb),
        _ => unreachable!(),
    };
    let value = (1.0 - ca) * ba * cb + (1.0 - ba) * ca * cs + ca * ba * mixed;
    ((value * 255.0).round().clamp(0.0, 255.0) as u8).min(out_alpha)
}

#[test]
fn premultiplied_channels_never_exceed_alpha() {
    assert_eq!(bytes(pixel(10, 20, 30, 30)), [10, 20, 30, 30]);
    assert_eq!(
        PremultipliedRgba8::try_new(11, 99, 99, 10).err(),
        Some(Error::Invalid(InvalidValue::PremultipliedRed(11)))
    );
    assert_eq!(
        PremultipliedRgba8::try_new(10, 11, 99, 10).err(),
        Some(Error::Invalid(InvalidValue::PremultipliedGreen(11)))
    );
    assert_eq!(
        PremultipliedRgba8::try_new(10, 10, 11, 10).err(),
        Some(Error::Invalid(InvalidValue::PremultipliedBlue(11)))
    );
    assert_eq!(bytes(PremultipliedRgba8::transparent()), [0, 0, 0, 0]);
    assert_eq!(bytes(PremultipliedRgba8::default()), [0, 0, 0, 0]);
}

#[test]
fn source_over_keeps_and_covers() {
    let clear = PremultipliedRgba8::transparent();
    let half = pixel(100, 50, 0, 128);
    let opaque = pixel(10, 20, 30, 255);
    assert_eq!(bytes(clear.source_over(opaque)), bytes(opaque));
    assert_eq!(bytes(opaque.source_over(half)), bytes(opaque));
    assert_eq!(bytes(half.source_over(clear)), bytes(half));
    // 10 * 127 + 127 is 1397, and a 255th of it is 5.
    assert_eq!(bytes(half.source_over(opaque)), [105, 60, 15, 255]);
}

#[test]
fn scaling_rounds_to_the_nearest_byte() {
    assert_eq!(scale_channel_by_alpha(255, 128), 128);
    assert_eq!(scale_channel_by_alpha(1, 128), 1);
    assert_eq!(scale_channel_by_alpha(1, 127), 0);
    assert_eq!(bytes(pixel(200, 100, 50, 200).scale_by_alpha(128)), [100, 50, 25, 100]);
    assert_eq!(bytes(pixel(200, 100, 50, 200).scale_by_alpha(0)), [0, 0, 0, 0]);
    assert_eq!(bytes(pixel(200, 100, 50, 200).scale_by_alpha(255)), [200, 100, 50, 200]);
}

#[test]
fn membership_scales_by_the_other_alpha() {
    let source = pixel(200, 100, 50, 200);
    let mask = pixel(0, 0, 0, 128);
    assert_eq!(bytes(source.source_in_alpha_of(mask)), [100, 50, 25, 100]);
    assert_eq!(bytes(source.destination_in_alpha_of(mask)), [100, 50, 25, 100]);
    assert_eq!(bytes(mask.source_in_alpha_of(source)), [0, 0, 0, 100]);
}

#[test]
fn plus_saturates_every_channel() {
    let sum = pixel(200, 10, 0, 200).blend_over(pixel(100, 20, 0, 100), BlendMode::Plus);
    assert_eq!(bytes(sum), [255, 30, 0, 255]);
}

#[test]
fn normal_blending_is_source_over() {
    let source = pixel(90, 45, 0, 128);
    let destination = pixel(10, 20, 30, 40);
    assert_eq!(
        bytes(source.blend_over(destination, BlendMode::Normal)),
        bytes(source.source_over(destination))
    );
}

#[test]
fn mixed_blending_has_exact_values() {
    let source = pixel(128, 64, 32, 255);
    let destination = pixel(64, 128, 200, 255);
    assert_eq!(
        bytes(source.blend_over(destination, BlendMode::Multiply)),
        [32, 32, 25, 255]
    );
    assert_eq!(
        bytes(source.blend_over(destination, BlendMode::Screen)),
        [160, 160, 207, 255]
    );
    assert_eq!(
        bytes(source.blend_over(destination, BlendMode::Darken)),
        [64, 64, 32, 255]
    );
    assert_eq!(
        bytes(source.blend_over(destination, BlendMode::Lighten)),
        [128, 128, 200, 255]
    );
}

#[test]
fn mixed_blending_agrees_with_the_real_formula() {
    let modes = [
        BlendMode::Multiply,
        BlendMode::Screen,
        BlendMode::Overlay,
        BlendMode::Darken,
        BlendMode::Lighten,
    ];
    for source_alpha in [1u8, 17, 128, 200, 255] {
        for destination_alpha in [1u8, 60, 127, 254, 255] {
            for step in 0..=8u16 {
                let source_channel = (u16::from(source_alpha) * step / 8) as u8;
                let destination_channel = (u16::from(destination_alpha) * (8 - step) / 8) as u8;
                let source = pixel(source_channel, 0, source_alpha, source_alpha);
                let destination = pixel(destination_channel, destination_alpha, 0, destination_alpha);
                for mode in modes {
                    let out = source.blend_over(destination, mode);
                    assert_eq!(out.alpha(), source.source_over(destination).alpha());
                    assert_eq!(
                        out.red(),
                        blended_channel(
                            (source_channel, source_alpha),
                            (destination_channel, destination_alpha),
                            mode,
                            out.alpha(),
                        )
                    );
                    assert!(out.red() <= out.alpha());
                    assert!(out.green() <= out.alpha());
                    assert!(out.blue() <= out.alpha());
                }
            }
        }
    }
}

#[test]
fn blending_with_transparency_keeps_the_other() {
    let opaque = pixel(1, 2, 3, 255);
    let clear = PremultipliedRgba8::transparent();
    for mode in [BlendMode::Multiply, BlendMode::Screen, BlendMode::Overlay] {
        assert_eq!(bytes(clear.blend_over(opaque, mode)), bytes(opaque));
        assert_eq!(bytes(opaque.blend_over(clear, mode)), bytes(opaque));
    }
}

#[test]
fn channels_convert_as_the_real_quotients_round() {
    for alpha in 1..=255u8 {
        for channel in 0..=255u8 {
            let expected = (f64::from(channel) * f64::from(alpha) / 255.0).round() as u8;
            let converted = straight_rgba8_pixel_to_premultiplied_rgba8(channel, 0, 0, alpha);
            assert_eq!(converted.red(), expected);
            if channel <= alpha {
                let straight = (f64::from(channel) * 255.0 / f64::from(alpha)).round() as u8;
                assert_eq!(unpremultiply_rgba8_channel(channel, alpha), straight);
            }
        }
    }
}

#[test]
fn premultiplied_pixels_survive_the_straight_form() {
    for alpha in [0u8, 1, 2, 85, 128, 254, 255] {
        for channel in 0..=alpha {
            let original = pixel(channel, alpha - channel, alpha, alpha);
            let straight = premultiplied_rgba8_pixel_to_straight_rgba8(original);
            let back = straight_rgba8_pixel_to_premultiplied_rgba8(
                straight[0],
                straight[1],
                straight[2],
                straight[3],
            );
            assert_eq!(bytes(back), bytes(original));
        }
    }
    assert_eq!(
        bytes(straight_rgba8_pixel_to_premultiplied_rgba8(9, 8, 7, 0)),
        [0, 0, 0, 0]
    );
}

#[test]
fn images_convert_pixel_by_pixel() {
    let size = PhysicalSize::new(2, 1);
    let image = ImageBuffer::try_new(size, vec![255, 128, 0, 128, 9, 9, 9, 0]).unwrap();
    let buffer = straight_rgba8_image_buffer_to_premultiplied_rgba8_reference(&image).unwrap();
    assert_eq!(bytes(buffer.pixel(0, 0).unwrap()), [128, 64, 0, 128]);
    assert_eq!(bytes(buffer.pixel(1, 0).unwrap()), [0, 0, 0, 0]);
    let straight = premultiplied_rgba8_reference_to_straight_rgba8_image_buffer(&buffer).unwrap();
    assert_eq!(straight.size(), size);
    assert_eq!(straight.rgba(), &[255, 128, 0, 128, 0, 0, 0, 0]);
    let error = straight_rgba8_bytes_to_premultiplied_rgba8_reference(size, &[0; 7]).err().unwrap();
    assert_eq!(error.code(), ErrorCode::InvalidInput);
}

#[test]
fn buffers_need_pixels_in_both_directions() {
    assert_eq!(
        ReferencePremultipliedRgba8Buffer::try_new(PhysicalSize::new(0, 0)).err(),
        Some(Error::Invalid(InvalidValue::BufferWidth(0)))
    );
    assert_eq!(
        ReferencePremultipliedRgba8Buffer::try_new(PhysicalSize::new(3, 0)).err(),
        Some(Error::Invalid(InvalidValue::BufferHeight(0)))
    );
    assert_eq!(validate_size(PhysicalSize::new(3, 5)), Ok(15));
    assert!(matches!(
        validate_size(PhysicalSize::new(u32::MAX, u32::MAX)).err(),
        Some(Error::Invalid(InvalidValue::BufferByteLength { .. }))
    ));
    let buffer = ReferencePremultipliedRgba8Buffer::try_new(PhysicalSize::new(3, 5)).unwrap();
    assert_eq!((buffer.byte_len(), buffer.pixels().len()), (60, 15));
    assert_eq!(
        ReferencePremultipliedRgba8Buffer::from_pixels(
            PhysicalSize::new(2, 2),
            vec![PremultipliedRgba8::transparent(); 3]
        )
        .err(),
        Some(Error::Invalid(InvalidValue::PixelDataLength(3)))
    );
}

#[test]
fn buffers_check_their_coordinates() {
    let mut buffer = ReferencePremultipliedRgba8Buffer::try_new(PhysicalSize::new(2, 3)).unwrap();
    buffer.set_pixel(1, 2, pixel(1, 2, 3, 4)).unwrap();
    assert_eq!(bytes(buffer.pixel(1, 2).unwrap()), [1, 2, 3, 4]);
    assert_eq!(bytes(buffer.pixels()[5]), [1, 2, 3, 4]);
    assert_eq!(
        buffer.pixel(2, 9).err(),
        Some(Error::Invalid(InvalidValue::BufferX(2)))
    );
    assert_eq!(
        buffer.set_pixel(1, 3, pixel(0, 0, 0, 0)).err(),
        Some(Error::Invalid(InvalidValue::BufferY(3)))
    );
    assert_eq!(bytes(buffer.duplicate().pixel(1, 2).unwrap()), [1, 2, 3, 4]);
}

#[test]
fn buffers_combine_only_with_their_own_size() {
    let small = ReferencePremultipliedRgba8Buffer::try_new(PhysicalSize::new(1, 1)).unwrap();
    let size = PhysicalSize::new(1, 2);
    let large = ReferencePremultipliedRgba8Buffer::from_pixels(
        size,
        vec![pixel(100, 0, 0, 100), pixel(0, 0, 0, 255)],
    )
    .unwrap();
    assert_eq!(
        small.apply_alpha_mask(&large).err(),
        Some(Error::Invalid(InvalidValue::AlphaMaskSize(size)))
    );
    assert_eq!(
        small.source_over(&large).err(),
        Some(Error::Invalid(InvalidValue::SourceOverDestinationSize(size)))
    );
    assert_eq!(
        small.blend_over(&large, BlendMode::Screen).err(),
        Some(Error::Invalid(InvalidValue::BlendDestinationSize(size)))
    );
    assert_eq!(
        small.source_in_alpha_of(&large).err(),
        Some(Error::Invalid(InvalidValue::SourceInDestinationSize(size)))
    );
    assert_eq!(
        small.destination_in_alpha_of(&large).err(),
        Some(Error::Invalid(InvalidValue::DestinationInSourceSize(size)))
    );
    let masked = large.apply_alpha_mask(&large).unwrap();
    assert_eq!(bytes(masked.pixels()[0]), [39, 0, 0, 39]);
    assert_eq!(bytes(masked.pixels()[1]), [0, 0, 0, 255]);
    let blended = large.blend_over(&large, BlendMode::Plus).unwrap();
    assert_eq!(bytes(blended.pixels()[0]), [200, 0, 0, 200]);
}

#[test]
fn mapping_pixels_stops_at_the_first_failure() {
    let buffer = ReferencePremultipliedRgba8Buffer::from_pixels(
        PhysicalSize::new(2, 1),
        vec![pixel(1, 1, 1, 1), pixel(2, 2, 2, 2)],
    )
    .unwrap();
    let doubled = buffer
        .map_pixels(|p| PremultipliedRgba8::try_new(p.red() * 2, 0, 0, p.alpha() * 2))
        .unwrap();
    assert_eq!(bytes(doubled.pixels()[1]), [4, 0, 0, 4]);
    let failed = buffer.map_pixels(|p| PremultipliedRgba8::try_new(p.red(), 0, 0, 1));
    assert_eq!(
        failed.err(),
        Some(Error::Invalid(InvalidValue::PremultipliedRed(2)))
    );
    // Both pixels fail here, each with its own error: the first is reported.
    let first = buffer.map_pixels(|p| PremultipliedRgba8::try_new(p.red() + 7, 0, 0, 0));
    assert_eq!(
        first.err(),
        Some(Error::Invalid(InvalidValue::PremultipliedRed(8)))
    );
}

#[test]
fn extended_indices_follow_their_mode() {
    for length in [1u32, 2, 5] {
        let span = i64::from(length);
        for index in -12i64..=12 {
            let pad = index.clamp(0, span - 1);
            let repeat = index.rem_euclid(span);
            let folded = index.rem_euclid(2 * span);
            let reflect = if folded < span { folded } else { 2 * span - folded - 1 };
            assert_eq!(extend_mask_index(index, length, Extend::Pad), Some(pad as u32));
            assert_eq!(extend_mask_index(index, length, Extend::Repeat), Some(repeat as u32));
            assert_eq!(extend_mask_index(index, length, Extend::Reflect), Some(reflect as u32));
        }
    }
    assert_eq!(extend_mask_index(3, 0, Extend::Pad), None);
    assert_eq!(extend_mask_index(i64::MIN, 7, Extend::Repeat), Some(i64::MIN.rem_euclid(7) as u32));
}

#[test]
fn shifted_indices_stay_inside_or_mirror() {
    assert_eq!(offset_index(3, -3, 5), Some(0));
    assert_eq!(offset_index(3, -4, 5), None);
    assert_eq!(offset_index(3, 1, 5), Some(4));
    assert_eq!(offset_index(3, 2, 5), None);
    for index in 0..4usize {
        for offset in -11i32..=11 {
            let folded = (index as i64 + i64::from(offset)).rem_euclid(8);
            let expected = if folded < 4 { folded } else { 7 - folded };
            assert_eq!(mirrored_offset_index(index, offset, 4), expected as usize);
        }
    }
}

#[test]
fn mask_taps_read_the_alpha_byte() {
    let mask = MaskImage {
        width: 2,
        height: 1,
        extend: Extend::Reflect,
        bytes: vec![1, 2, 3, 40, 5, 6, 7, 80],
    };
    assert_eq!(mask_alpha_tap(&mask, 0, 0), 40);
    assert_eq!(mask_alpha_tap(&mask, 2, -5), 80);
    assert_eq!(mask_alpha_tap(&mask, -1, 0), 40);
    let short = MaskImage { width: 2, height: 1, extend: Extend::Pad, bytes: vec![1, 2, 3, 40, 5] };
    assert_eq!(mask_alpha_tap(&short, 1, 0), 0);
}

#[test]
fn offsets_quantize_to_the_nearest_pixel() {
    let policy = MaterializedDropShadowOffsetQuantizationPolicy::materialized_cpu_reference();
    for value in [
        0.0, -0.0, 0.49, 0.5, -0.5, 1.5, 2.5, -2.5, 0.499_999_999_999_999_94, 1e9, -1e9, 12_345.678,
        2_147_483_647.0, -2_147_483_648.0, 2_147_483_647.4, -2_147_483_648.4, 4_503_599.5,
    ] {
        assert_eq!(policy.quantize(scalar(value), Axis::X), Ok(value.round() as i32));
    }
    for value in [2_147_483_647.5, -2_147_483_648.5, 1e300, f64::INFINITY, f64::NEG_INFINITY] {
        let value = scalar(value);
        assert_eq!(
            policy.quantize(value, Axis::Y),
            Err(Error::Invalid(InvalidValue::ShadowOffset { axis: Axis::Y, value }))
        );
    }
    assert!(policy.quantize(scalar(f64::NAN), Axis::X).is_err());
    assert_eq!(
        InvalidValue::ShadowOffset { axis: Axis::Y, value: scalar(0.0) }.field(),
        "filter drop-shadow offset y"
    );
}

#[test]
fn scalars_classify_as_their_numbers_do() {
    for value in [0.0, -0.0, 1.0, -1.0, 0.25, f64::MIN_POSITIVE, f64::MAX, f64::INFINITY, f64::NAN] {
        let bits = scalar(value);
        assert_eq!(bits.is_finite(), value.is_finite());
        assert_eq!(bits.is_nan(), value.is_nan());
        assert_eq!(bits.is_zero(), value == 0.0);
        assert_eq!(bits.is_one(), value == 1.0);
        assert_eq!(bits.is_positive(), value > 0.0);
        for other in [0.0, -0.0, 1.0, f64::NAN] {
            assert_eq!(bits.equals(scalar(other)), value == other);
        }
    }
}

#[test]
fn shadow_masks_shift_alpha_only() {
    let buffer = ReferencePremultipliedRgba8Buffer::from_pixels(
        PhysicalSize::new(3, 1),
        vec![pixel(9, 9, 9, 90), pixel(0, 0, 0, 0), pixel(7, 7, 7, 70)],
    )
    .unwrap();
    let shifted = offset_alpha_mask(&buffer, scalar(0.5), scalar(0.0)).unwrap();
    let alphas: Vec<[u8; 4]> = shifted.pixels().iter().map(|p| bytes(*p)).collect();
    assert_eq!(alphas, vec![[0, 0, 0, 0], [0, 0, 0, 90], [0, 0, 0, 0]]);
    let away = offset_alpha_mask(&buffer, scalar(0.0), scalar(-1.0)).unwrap();
    assert!(away.pixels().iter().all(|p| p.alpha() == 0));
    assert_eq!(
        offset_alpha_mask(&buffer, scalar(f64::NAN), scalar(0.0)).err().map(|error| error.code()),
        Some(ErrorCode::InvalidInput)
    );
}
