//! Sample positions at and beyond the edge of an extent.

use vstd::prelude::*;

verus! {

/// How an image is sampled beyond its edge.
#[derive(Clone, Copy, Debug, PartialEq, Eq, Structural)]
pub enum Extend {
    Pad,
    Repeat,
    Reflect,
}

/// The sample that a mirror at each edge shows at `index`.
pub open spec fn reflected(index: int, length: int) -> int {
    let position = index % (2 * length);
    if position < length {
        position
    } else {
        2 * length - 1 - position
    }
}

/// The sample of an image of `length` samples that `index` stands for.
pub open spec fn extended(index: int, length: int, extend: Extend) -> int {
    match extend {
        Extend::Pad => if index < 0 {
            0
        } else if index >= length {
            length - 1
        } else {
            index
        },
        Extend::Repeat => index % length,
        Extend::Reflect => reflected(index, length),
    }
}

proof fn lemma_mod_in_range(index: int, modulus: int)
    requires
        modulus > 0,
    ensures
        0 <= index % modulus < modulus,
        0 <= index < modulus ==> index % modulus == index,
{
    vstd::arithmetic::div_mod::lemma_mod_bound(index, modulus);
    if 0 <= index < modulus {
        vstd::arithmetic::div_mod::lemma_small_mod(index as nat, modulus as nat);
    }
}

/// Every extension lands inside the image and leaves positions inside it where they are.
pub proof fn law_extension_is_inside(index: int, length: int, extend: Extend)
    requires
        length > 0,
    ensures
        0 <= extended(index, length, extend) < length,
        0 <= index < length ==> extended(index, length, extend) == index,
{
    lemma_mod_in_range(index, length);
    lemma_mod_in_range(index, 2 * length);
}

/// Padding shows the first sample before the image and the last one behind it.
pub proof fn law_padding_shows_the_nearest_edge(index: int, length: int)
    requires
        length > 0,
    ensures
        index < 0 ==> extended(index, length, Extend::Pad) == 0,
        index >= length ==> extended(index, length, Extend::Pad) == length - 1,
{
}

/// Behind the image reflection goes back: the sample `distance` behind the last one is the sample
/// `distance - 1` before it.
pub proof fn law_reflection_goes_back(distance: int, length: int)
    requires
        1 <= distance <= length,
    ensures
        reflected(length - 1 + distance, length) == length - distance,
        extended(length - 1 + distance, length, Extend::Reflect) == length - distance,
{
    lemma_mod_in_range(length - 1 + distance, 2 * length);
}

/// The extensions that are computed are those of the index: inside the image the index itself.
pub proof fn law_computed_samples_keep_positions(index: i64, length: u32, extend: Extend)
    requires
        0 <= index < length,
    ensures
        forall|sample: Option<u32>| #[trigger]
            call_ensures(extend_mask_index, (index, length, extend), sample) ==> sample == Some(
                index as u32,
            ),
{
    law_extension_is_inside(index as int, length as int, extend);
}

/// A sample beside another one is where its offset says, or there is none because it lies outside;
/// mirrored, it is that same sample wherever it lies inside.
pub proof fn law_offsets_move_the_sample(index: usize, offset: i32, len: usize)
    requires
        index <= 0x7fff_ffff,
        0 < len <= 0x7fff_ffff,
    ensures
        forall|sample: Option<usize>| #[trigger]
            call_ensures(offset_index, (index, offset, len), sample) ==> match sample {
                Some(sample) => sample == index + offset && sample < len,
                None => index + offset < 0 || index + offset >= len,
            },
        forall|sample: usize| #[trigger]
            call_ensures(mirrored_offset_index, (index, offset, len), sample) && 0 <= index + offset
                < len ==> sample == index + offset,
{
    law_extension_is_inside(index + offset, len as int, Extend::Reflect);
}

/// Repetition has the image's length as its period, reflection twice that.
pub proof fn law_extension_is_periodic(index: int, length: int)
    requires
        length > 0,
    ensures
        extended(index + length, length, Extend::Repeat) == extended(index, length, Extend::Repeat),
        extended(index + 2 * length, length, Extend::Reflect) == extended(
            index,
            length,
            Extend::Reflect,
        ),
{
    vstd::arithmetic::div_mod::lemma_mod_add_multiples_vanish(index, length);
    vstd::arithmetic::div_mod::lemma_mod_add_multiples_vanish(index, 2 * length);
}

/// Reflection shows the same sample on both sides of the first edge.
pub proof fn law_reflection_is_symmetric(index: int, length: int)
    requires
        length > 0,
    ensures
        reflected(-1 - index, length) == reflected(index, length),
{
    let period = 2 * length;
    let position = index % period;
    let quotient = index / period;
    vstd::arithmetic::div_mod::lemma_fundamental_div_mod(index, period);
    lemma_mod_in_range(index, period);
    assert(-1 - index == (-1 - quotient) * period + (period - 1 - position)) by (nonlinear_arith)
        requires
            index == period * quotient + position,
    ;
    vstd::arithmetic::div_mod::lemma_fundamental_div_mod_converse(
        -1 - index,
        period,
        -1 - quotient,
        period - 1 - position,
    );
}

/// The sample `offset` away from `index`, if it lies inside the extent.
pub fn offset_index(index: usize, offset: i32, len: usize) -> (sample: Option<usize>)
    requires
        index <= i64::MAX ==> index + offset <= i64::MAX,
    ensures
        sample == (if index <= i64::MAX && len <= i64::MAX && 0 <= index + offset < len {
            Some((index + offset) as usize)
        } else {
            None
        }),
{
    if index as u64 > i64::MAX as u64 {
        return None;
    }
    let sample: i64 = index as i64 + offset as i64;
    if sample < 0 || len as u64 > i64::MAX as u64 || sample >= len as i64 {
        return None;
    }
    Some(sample as usize)
}

/// The sample `offset` away from `index` in an extent that is mirrored at its edges.
pub fn mirrored_offset_index(index: usize, offset: i32, len: usize) -> (sample: usize)
    requires
        0 < len,
        2 * len <= i64::MAX,
        index <= i64::MAX,
        index + offset <= i64::MAX,
    ensures
        sample == reflected(index + offset, len as int),
        sample < len,
{
    let length: i64 = len as i64;
    let period: i64 = length * 2;
    proof {
        law_extension_is_inside(index + offset, len as int, Extend::Reflect);
    }
    let sample: i64 = rem_euclid(index as i64 + offset as i64, period);
    let mirrored: i64 = if sample < length {
        sample
    } else {
        period - sample - 1
    };
    mirrored as usize
}

/// The non-negative remainder of a division.
fn rem_euclid(value: i64, modulus: i64) -> (remainder: i64)
    requires
        modulus > 0,
    ensures
        remainder == value as int % modulus as int,
{
    proof {
        lemma_mod_in_range(value as int, modulus as int);
    }
    match value.checked_rem_euclid(modulus) {
        Some(remainder) => remainder,
        None => 0,
    }
}

/// The sample of an image of `length` samples that `index` stands for; an empty image has none.
pub fn extend_mask_index(index: i64, length: u32, extend: Extend) -> (sample: Option<u32>)
    ensures
        sample == (if length == 0 {
            None
        } else {
            Some(extended(index as int, length as int, extend) as u32)
        }),
{
    if length == 0 {
        return None;
    }
    proof {
        law_extension_is_inside(index as int, length as int, extend);
    }
    let length: i64 = length as i64;
    let sample: i64 = match extend {
        Extend::Pad => if index < 0 {
            0
        } else if index >= length {
            length - 1
        } else {
            index
        },
        Extend::Repeat => rem_euclid(index, length),
        Extend::Reflect => {
            let period: i64 = length * 2;
            let reflected: i64 = rem_euclid(index, period);
            if reflected < length {
                reflected
            } else {
                period - reflected - 1
            }
        },
    };
    Some(sample as u32)
}

/// The bytes of an RGBA8 mask image and how it extends beyond its edge.
pub struct MaskImage {
    pub width: u32,
    pub height: u32,
    pub extend: Extend,
    pub bytes: Vec<u8>,
}

impl MaskImage {
    /// The alpha byte that the mask has at a sample position, or zero where it has none.
    pub open spec fn tap(&self, x: int, y: int) -> u8 {
        if self.width == 0 || self.height == 0 {
            0
        } else {
            let column = extended(x, self.width as int, self.extend);
            let row = extended(y, self.height as int, self.extend);
            let at = (row * self.width + column) * 4 + 3;
            if at < self.bytes@.len() {
                self.bytes@[at]
            } else {
                0
            }
        }
    }
}

/// A position inside a mask lies in row order: the tap there is the last of the four bytes of its
/// pixel, and a mask whose bytes end before that pixel has no coverage there.
pub proof fn law_taps_are_row_major(mask: &MaskImage, x: int, y: int)
    requires
        0 <= x < mask.width,
        0 <= y < mask.height,
    ensures
        4 * (y * mask.width + x) + 3 < mask.bytes@.len() ==> mask.tap(x, y) == mask.bytes@[4 * (y
            * mask.width + x) + 3],
        4 * (y * mask.width + x) + 3 >= mask.bytes@.len() ==> mask.tap(x, y) == 0,
        mask.bytes@.len() == mask.width * mask.height * 4 ==> 0 <= 4 * (y * mask.width + x) + 3
            < mask.bytes@.len(),
{
    let width = mask.width as int;
    let height = mask.height as int;
    law_extension_is_inside(x, width, mask.extend);
    law_extension_is_inside(y, height, mask.extend);
    assert(0 <= y * width && y * width + x < width * height) by (nonlinear_arith)
        requires
            0 <= x < width,
            0 <= y < height,
    ;
}

/// The taps of a complete mask, taken row by row, are the alpha bytes of its pixels, each once and
/// in order: pixel `i` is read in column `i % width` of row `i / width`.
pub proof fn law_taps_cover_the_mask_in_order(mask: &MaskImage, i: int)
    requires
        mask.bytes@.len() == mask.width * mask.height * 4,
        0 <= 4 * i < mask.bytes@.len(),
    ensures
        mask.tap(i % mask.width as int, i / mask.width as int) == mask.bytes@[4 * i + 3],
{
    let width = mask.width as int;
    let height = mask.height as int;
    if width == 0 {
        assert(width * height == 0) by (nonlinear_arith)
            requires
                width == 0,
        ;
    }
    vstd::arithmetic::div_mod::lemma_fundamental_div_mod(i, width);
    lemma_mod_in_range(i, width);
    let row = i / width;
    assert(0 <= row < height) by (nonlinear_arith)
        requires
            i == width * row + i % width,
            0 <= i % width < width,
            0 <= i < width * height,
    ;
    assert(row * width == width * row) by (nonlinear_arith);
    law_taps_are_row_major(mask, i % width, row);
}

/// Reading a tap gives the alpha byte of the pixel at the position, for every position inside a
/// complete mask; two positions inside it that differ are read from different bytes.
pub proof fn law_reads_follow_the_position(
    mask: &MaskImage,
    x: i64,
    y: i64,
    alpha: u8,
    u: int,
    v: int,
)
    requires
        mask.bytes@.len() == mask.width * mask.height * 4,
        0 <= x < mask.width,
        0 <= y < mask.height,
        0 <= u < mask.width,
        0 <= v < mask.height,
        call_ensures(mask_alpha_tap, (mask, x, y), alpha),
    ensures
        alpha == mask.bytes@[4 * (y * mask.width + x) + 3],
        (u, v) != (x as int, y as int) ==> 4 * (v * mask.width + u) + 3 != 4 * (y * mask.width + x)
            + 3,
{
    let width = mask.width as int;
    law_taps_are_row_major(mask, x as int, y as int);
    if (u, v) != (x as int, y as int) {
        let row = y as int;
        let column = x as int;
        assert(v * width + u != row * width + column) by (nonlinear_arith)
            requires
                0 <= u < width,
                0 <= column < width,
                u != column || v != row,
        ;
    }
}

/// Beyond the edge a mask shows what its extension says: padding the nearest sample, repetition the
/// sample one length away, and reflection the sample as far inside the edge.
pub proof fn law_taps_beyond_the_edge(mask: &MaskImage, x: int, y: int)
    requires
        mask.width > 0,
        mask.height > 0,
    ensures
        mask.extend is Pad && x < 0 ==> mask.tap(x, y) == mask.tap(0, y),
        mask.extend is Pad && x >= mask.width ==> mask.tap(x, y) == mask.tap(mask.width - 1, y),
        mask.extend is Pad && y < 0 ==> mask.tap(x, y) == mask.tap(x, 0),
        mask.extend is Pad && y >= mask.height ==> mask.tap(x, y) == mask.tap(x, mask.height - 1),
        mask.extend is Repeat ==> mask.tap(x + mask.width, y) == mask.tap(x, y),
        mask.extend is Repeat ==> mask.tap(x, y + mask.height) == mask.tap(x, y),
        mask.extend is Reflect ==> mask.tap(-1 - x, y) == mask.tap(x, y),
        mask.extend is Reflect ==> mask.tap(x, -1 - y) == mask.tap(x, y),
        mask.extend is Reflect ==> mask.tap(2 * mask.width - 1 - x, y) == mask.tap(x, y),
        mask.extend is Reflect ==> mask.tap(x, 2 * mask.height - 1 - y) == mask.tap(x, y),
{
    let width = mask.width as int;
    let height = mask.height as int;
    law_extension_is_periodic(x, width);
    law_extension_is_periodic(y, height);
    law_extension_is_periodic(-1 - x, width);
    law_extension_is_periodic(-1 - y, height);
    law_reflection_is_symmetric(x, width);
    law_reflection_is_symmetric(y, height);
}

/// A mask without pixels has no coverage anywhere.
pub proof fn law_empty_masks_cover_nothing(mask: &MaskImage, x: int, y: int)
    requires
        mask.width == 0 || mask.height == 0,
    ensures
        mask.tap(x, y) == 0,
{
}

/// Reads the alpha byte of one mask sample.
pub fn mask_alpha_tap(mask: &MaskImage, x: i64, y: i64) -> (alpha: u8)
    ensures
        alpha == mask.tap(x as int, y as int),
        0 <= x < mask.width && 0 <= y < mask.height && mask.bytes@.len() == mask.width * mask.height
            * 4 ==> alpha == mask.bytes@[4 * (y * mask.width + x) + 3],
{
    proof {
        if 0 <= x < mask.width && 0 <= y < mask.height {
            law_taps_are_row_major(mask, x as int, y as int);
        }
    }
    let column: u32 = match extend_mask_index(x, mask.width, mask.extend) {
        Some(column) => column,
        None => {
            return 0;
        },
    };
    let row: u32 = match extend_mask_index(y, mask.height, mask.extend) {
        Some(row) => row,
        None => {
            return 0;
        },
    };
    proof {
        law_extension_is_inside(x as int, mask.width as int, mask.extend);
        law_extension_is_inside(y as int, mask.height as int, mask.extend);
        let r = row as int;
        let w = mask.width as int;
        assert(0 <= r * w <= 0xffff_ffff * 0xffff_ffff) by (nonlinear_arith)
            requires
                0 <= r <= 0xffff_ffff,
                0 <= w <= 0xffff_ffff,
        ;
    }
    let pixel: u64 = row as u64 * mask.width as u64 + column as u64;
    let at: u128 = pixel as u128 * 4 + 3;
    if at < mask.bytes.len() as u128 {
        mask.bytes[at as usize]
    } else {
        0
    }
}

} // verus!
