//! Device-pixel placement of drop-shadow masks.

use vstd::prelude::*;

use crate::error::{Axis, Error, InvalidValue};
use crate::reference::buffer::{
    law_positions_cover_the_buffer, lemma_position_inside, ReferencePremultipliedRgba8Buffer,
};
use crate::reference::pixel::{transparent, Channels, PremultipliedRgba8};
use crate::scalar::Scalar;

verus! {

/// The device-pixel offset of an authored offset: the nearest integer, with halves rounded away
/// from zero, if it fits.
pub open spec fn quantized(value: Scalar) -> Option<int> {
    if value.spec_is_finite() && i32::MIN <= value.rounded() <= i32::MAX {
        Some(value.rounded())
    } else {
        None
    }
}

/// Snaps authored drop-shadow offsets to device pixels before a mask is shifted.
#[derive(Clone, Copy, Debug, PartialEq, Eq, Structural)]
pub struct MaterializedDropShadowOffsetQuantizationPolicy {}

impl MaterializedDropShadowOffsetQuantizationPolicy {
    pub fn materialized_cpu_reference() -> (policy: Self)
        ensures
            policy == (Self {  }),
    {
        Self {  }
    }

    /// The device-pixel offset of an authored offset, or a rejection of the value.
    pub fn quantize(self, value: Scalar, axis: Axis) -> (result: Result<i32, Error>)
        ensures
            match quantized(value) {
                Some(offset) => result matches Ok(quantized) && quantized == offset,
                None => result == Err::<i32, Error>(
                    Error::Invalid((InvalidValue::ShadowOffset { axis, value })),
                ),
            },
    {
        match value.round_to_i32() {
            Some(offset) => Ok(offset),
            None => Err(Error::Invalid(InvalidValue::ShadowOffset { axis, value })),
        }
    }
}

/// The alpha of the pixel in column `x` of row `y`, as a pixel without color; transparent outside.
pub open spec fn alpha_mask_at(buffer: &ReferencePremultipliedRgba8Buffer, x: int, y: int) -> Channels {
    if 0 <= x < buffer.size().width && 0 <= y < buffer.size().height {
        Channels { red: 0, green: 0, blue: 0, alpha: buffer.at(x, y).alpha }
    } else {
        transparent()
    }
}

/// The alpha mask of a buffer, shifted by an authored drop-shadow offset.
pub fn offset_alpha_mask(
    buffer: &ReferencePremultipliedRgba8Buffer,
    offset_x: Scalar,
    offset_y: Scalar,
) -> (result: Result<ReferencePremultipliedRgba8Buffer, Error>)
    ensures
        match (quantized(offset_x), quantized(offset_y)) {
            (None, _) => result == Err::<ReferencePremultipliedRgba8Buffer, Error>(
                Error::Invalid((InvalidValue::ShadowOffset { axis: Axis::X, value: offset_x })),
            ),
            (Some(_), None) => result == Err::<ReferencePremultipliedRgba8Buffer, Error>(
                Error::Invalid((InvalidValue::ShadowOffset { axis: Axis::Y, value: offset_y })),
            ),
            (Some(dx), Some(dy)) => result matches Ok(mask) && mask.size() == buffer.size() && (
            forall|x: int, y: int|
                0 <= x < buffer.size().width && 0 <= y < buffer.size().height ==> #[trigger]
                mask.at(x, y) == alpha_mask_at(buffer, x - dx, y - dy)),
        },
        result matches Ok(mask) ==> {
            &&& mask.wf()
            &&& mask.size() == buffer.size()
            &&& forall|x: int, y: int|
                #![trigger mask.at(x, y)]
                0 <= x < buffer.size().width && 0 <= y < buffer.size().height && 0 <= x
                    - offset_x.rounded() < buffer.size().width && 0 <= y - offset_y.rounded()
                    < buffer.size().height ==> mask.at(x, y).alpha == buffer.at(
                    x - offset_x.rounded(),
                    y - offset_y.rounded(),
                ).alpha
        },
{
    let policy = MaterializedDropShadowOffsetQuantizationPolicy::materialized_cpu_reference();
    let dx: i32 = match policy.quantize(offset_x, Axis::X) {
        Ok(dx) => dx,
        Err(error) => {
            return Err(error);
        },
    };
    let dy: i32 = match policy.quantize(offset_y, Axis::Y) {
        Ok(dy) => dy,
        Err(error) => {
            return Err(error);
        },
    };
    let size = buffer.physical_size();
    let width: u32 = size.width();
    let height: u32 = size.height();
    let ghost w = width as int;
    let mut pixels: Vec<PremultipliedRgba8> = Vec::with_capacity(buffer.pixels().len());
    let mut y: u32 = 0;
    while y < height
        invariant
            size == buffer.size(),
            width == size.width,
            height == size.height,
            w == width,
            y <= height,
            pixels@.len() == y * w,
            forall|i: int|
                0 <= i < pixels@.len() ==> (#[trigger] pixels@[i])@ == alpha_mask_at(
                    buffer,
                    i % w - dx,
                    i / w - dy,
                ),
        decreases height - y,
    {
        let mut x: u32 = 0;
        while x < width
            invariant
                size == buffer.size(),
                width == size.width,
                height == size.height,
                w == width,
                y < height,
                x <= width,
                pixels@.len() == y * w + x,
                forall|i: int|
                    0 <= i < pixels@.len() ==> (#[trigger] pixels@[i])@ == alpha_mask_at(
                        buffer,
                        i % w - dx,
                        i / w - dy,
                    ),
            decreases width - x,
        {
            let pixel = masked_pixel(buffer, x as i64 - dx as i64, y as i64 - dy as i64);
            proof {
                vstd::arithmetic::div_mod::lemma_fundamental_div_mod_converse(
                    pixels@.len() as int,
                    w,
                    y as int,
                    x as int,
                );
            }
            pixels.push(pixel);
            x = x + 1;
        }
        proof {
            assert((y + 1) * w == y * w + w) by (nonlinear_arith);
        }
        y = y + 1;
    }
    proof {
        assert(height * w == w * height) by (nonlinear_arith);
    }
    let mask = ReferencePremultipliedRgba8Buffer::from_pixels(size, pixels);
    proof {
        let shifted = mask->Ok_0;
        assert forall|x: int, y: int| 0 <= x < w && 0 <= y < height implies #[trigger] shifted.at(
            x,
            y,
        ) == alpha_mask_at(buffer, x - dx, y - dy) by {
            lemma_position_inside(size, x, y);
            vstd::arithmetic::div_mod::lemma_fundamental_div_mod_converse(y * w + x, w, y, x);
        }
    }
    mask
}

/// A shadow mask is the coverage of its source, moved: the alpha at a position is the alpha of the
/// source pixel one offset before it, column by column and row by row; where that pixel lies outside
/// the source there is no coverage; and no position has color.
pub proof fn law_masks_are_moved_coverage(
    buffer: &ReferencePremultipliedRgba8Buffer,
    offset_x: Scalar,
    offset_y: Scalar,
    mask: ReferencePremultipliedRgba8Buffer,
    x: int,
    y: int,
)
    requires
        buffer.wf(),
        call_ensures(
            offset_alpha_mask,
            (buffer, offset_x, offset_y),
            Ok::<ReferencePremultipliedRgba8Buffer, Error>(mask),
        ),
        0 <= x < buffer.size().width,
        0 <= y < buffer.size().height,
    ensures
        mask.spec_pixels().len() == buffer.spec_pixels().len(),
        ({
            let width = buffer.size().width as int;
            let column = x - offset_x.rounded();
            let row = y - offset_y.rounded();
            let inside = 0 <= column < width && 0 <= row < buffer.size().height;
            let pixel = mask.spec_pixels()[y * width + x]@;
            &&& inside ==> pixel.alpha == buffer.spec_pixels()[row * width + column]@.alpha
            &&& !inside ==> pixel.alpha == 0
            &&& pixel.red == 0
            &&& pixel.green == 0
            &&& pixel.blue == 0
        }),
{
    lemma_position_inside(buffer.size(), x, y);
    assert(mask.at(x, y) == mask.spec_pixels()[y * buffer.size().width + x]@);
    let column = x - offset_x.rounded();
    let row = y - offset_y.rounded();
    if 0 <= column < buffer.size().width && 0 <= row < buffer.size().height {
        lemma_position_inside(buffer.size(), column, row);
        assert(buffer.at(column, row) == buffer.spec_pixels()[row * buffer.size().width + column]@);
    }
}

/// A mask that is not moved keeps the alpha of every pixel.
pub proof fn law_unmoved_masks_keep_every_alpha(
    buffer: &ReferencePremultipliedRgba8Buffer,
    offset_x: Scalar,
    offset_y: Scalar,
    mask: ReferencePremultipliedRgba8Buffer,
    i: int,
)
    requires
        buffer.wf(),
        offset_x.bits == 0 || offset_x.bits == 0x8000_0000_0000_0000,
        offset_y.bits == 0 || offset_y.bits == 0x8000_0000_0000_0000,
        call_ensures(
            offset_alpha_mask,
            (buffer, offset_x, offset_y),
            Ok::<ReferencePremultipliedRgba8Buffer, Error>(mask),
        ),
        0 <= i < buffer.spec_pixels().len(),
    ensures
        mask.spec_pixels()[i]@.alpha == buffer.spec_pixels()[i]@.alpha,
{
    let width = buffer.size().width as int;
    law_positions_cover_the_buffer(buffer, i);
    vstd::arithmetic::div_mod::lemma_fundamental_div_mod(i, width);
    assert(i / width * width == width * (i / width)) by (nonlinear_arith);
    law_masks_are_moved_coverage(buffer, offset_x, offset_y, mask, i % width, i / width);
}

/// Two masks of one source differ by the difference of their offsets: what one has at a position,
/// the other has as far away, wherever both positions and the source pixel lie inside.
pub proof fn law_offsets_move_masks(
    buffer: &ReferencePremultipliedRgba8Buffer,
    first_x: Scalar,
    first_y: Scalar,
    first: ReferencePremultipliedRgba8Buffer,
    second_x: Scalar,
    second_y: Scalar,
    second: ReferencePremultipliedRgba8Buffer,
    column: int,
    row: int,
)
    requires
        buffer.wf(),
        call_ensures(
            offset_alpha_mask,
            (buffer, first_x, first_y),
            Ok::<ReferencePremultipliedRgba8Buffer, Error>(first),
        ),
        call_ensures(
            offset_alpha_mask,
            (buffer, second_x, second_y),
            Ok::<ReferencePremultipliedRgba8Buffer, Error>(second),
        ),
        0 <= column < buffer.size().width,
        0 <= row < buffer.size().height,
        0 <= column + first_x.rounded() < buffer.size().width,
        0 <= row + first_y.rounded() < buffer.size().height,
        0 <= column + second_x.rounded() < buffer.size().width,
        0 <= row + second_y.rounded() < buffer.size().height,
    ensures
        first.at(column + first_x.rounded(), row + first_y.rounded()).alpha == buffer.at(
            column,
            row,
        ).alpha,
        first.at(column + first_x.rounded(), row + first_y.rounded()) == second.at(
            column + second_x.rounded(),
            row + second_y.rounded(),
        ),
{
    let a = first.at(column + first_x.rounded(), row + first_y.rounded());
    let b = second.at(column + second_x.rounded(), row + second_y.rounded());
    assert(a == alpha_mask_at(buffer, column, row));
    assert(b == alpha_mask_at(buffer, column, row));
}

/// Offsets that are finite and fit are taken, at the integer nearest to them; any other is refused,
/// by its own axis and the horizontal one first.
pub proof fn law_offsets_are_taken_or_refused(
    buffer: &ReferencePremultipliedRgba8Buffer,
    offset_x: Scalar,
    offset_y: Scalar,
    result: Result<ReferencePremultipliedRgba8Buffer, Error>,
)
    requires
        call_ensures(offset_alpha_mask, (buffer, offset_x, offset_y), result),
    ensures
        result is Ok <==> offset_x.spec_is_finite() && offset_y.spec_is_finite() && -0x8000_0000
            <= offset_x.rounded() <= 0x7fff_ffff && -0x8000_0000 <= offset_y.rounded()
            <= 0x7fff_ffff,
        !offset_x.spec_is_finite() ==> result == Err::<ReferencePremultipliedRgba8Buffer, Error>(
            Error::Invalid((InvalidValue::ShadowOffset { axis: Axis::X, value: offset_x })),
        ),
        offset_x.bits == 0 && !offset_y.spec_is_finite() ==> result == Err::<
            ReferencePremultipliedRgba8Buffer,
            Error,
        >(Error::Invalid((InvalidValue::ShadowOffset { axis: Axis::Y, value: offset_y }))),
{
}

/// The alpha-only pixel of a buffer at a position that may lie outside it.
fn masked_pixel(buffer: &ReferencePremultipliedRgba8Buffer, x: i64, y: i64) -> (pixel:
    PremultipliedRgba8)
    ensures
        pixel@ == alpha_mask_at(buffer, x as int, y as int),
{
    let size = buffer.physical_size();
    if x < 0 || y < 0 || x >= size.width() as i64 || y >= size.height() as i64 {
        return PremultipliedRgba8::transparent();
    }
    match buffer.pixel(x as u32, y as u32) {
        Ok(pixel) => match PremultipliedRgba8::try_new(0, 0, 0, pixel.alpha()) {
            Ok(mask) => mask,
            Err(_) => PremultipliedRgba8::transparent(),
        },
        Err(_) => PremultipliedRgba8::transparent(),
    }
}

/// An authored offset is quantized to the integer nearest to it where that fits, and otherwise refused
/// by its axis and value.
pub proof fn law_offsets_are_quantized_to_the_nearest(
    policy: MaterializedDropShadowOffsetQuantizationPolicy,
    value: Scalar,
    axis: Axis,
    result: Result<i32, Error>,
)
    requires
        call_ensures(
            MaterializedDropShadowOffsetQuantizationPolicy::quantize,
            (policy, value, axis),
            result,
        ),
    ensures
        result is Ok <==> value.spec_is_finite() && -0x8000_0000 <= value.rounded() <= 0x7fff_ffff,
        result matches Ok(offset) ==> offset == value.rounded(),
        result matches Err(error) ==> error == Error::Invalid(
            (InvalidValue::ShadowOffset { axis, value }),
        ),
{
}

} // verus!
