//! Row layout of a texture copied into a staging buffer.

use vstd::prelude::*;

use std::ops::Range;

use crate::error::{Error, ReadbackFailure};
use crate::geometry::PhysicalSize;
use crate::image::rgba_len;

verus! {

/// Bytes that one RGBA8 pixel takes.
pub const RGBA8_BYTES_PER_PIXEL: u64 = 4;

/// Byte alignment of each row in a texture-to-buffer copy.
pub const COPY_BYTES_PER_ROW_ALIGNMENT: u64 = 256;

/// Reads `wgpu::MAP_ALIGNMENT`, the alignment that a mapped range's offset needs: eight bytes.
#[verifier::external_body]
fn map_alignment() -> (alignment: u64)
    ensures
        alignment == 8,
{
    wgpu::MAP_ALIGNMENT
}

/// Reads `wgpu::COPY_BUFFER_ALIGNMENT`, the alignment that a mapped range's length needs: four
/// bytes.
#[verifier::external_body]
fn copy_buffer_alignment() -> (alignment: u64)
    ensures
        alignment == 4,
{
    wgpu::COPY_BUFFER_ALIGNMENT
}

/// Bytes of one row of pixels.
pub open spec fn row_bytes(size: PhysicalSize) -> int {
    size.width * 4
}

/// Bytes from the start of one row to the start of the next in the staging buffer: the least
/// multiple of the copy alignment that holds a row.
pub open spec fn padded_row_bytes(size: PhysicalSize) -> int {
    (row_bytes(size) + 255) / 256 * 256
}

/// Bytes of the staging buffer.
pub open spec fn staging_bytes(size: PhysicalSize) -> int {
    padded_row_bytes(size) * size.height
}

/// Why no readback layout exists for `size`, if none does.
///
/// The row and buffer arithmetic cannot overflow 64 bits, a row that fits the copy limit fits
/// memory, and every staging buffer starts and ends aligned, so nothing else can be refused.
pub open spec fn layout_failure(size: PhysicalSize) -> Option<ReadbackFailure> {
    if padded_row_bytes(size) > u32::MAX {
        Some(ReadbackFailure::AlignedRowByteCountExceedsLimits)
    } else if rgba_len(size) > usize::MAX {
        Some(ReadbackFailure::DecodedByteCountOverflowed)
    } else if size.area() == 0 {
        Some(ReadbackFailure::MappedRangeEmpty)
    } else {
        None
    }
}

proof fn lemma_layout_bounds(size: PhysicalSize)
    ensures
        row_bytes(size) <= padded_row_bytes(size) < row_bytes(size) + 256,
        padded_row_bytes(size) % 256 == 0,
        padded_row_bytes(size) <= u32::MAX ==> 0 <= staging_bytes(size) <= u64::MAX,
        staging_bytes(size) % 4 == 0,
        (staging_bytes(size) == 0) == (size.area() == 0),
        row_bytes(size) * size.height == rgba_len(size),
{
    let width = size.width as int;
    let height = size.height as int;
    let quarter = (row_bytes(size) + 255) / 256 * 64;
    let padded = padded_row_bytes(size);
    size.lemma_area_bounds();
    assert(width * 4 * height == width * height * 4) by (nonlinear_arith);
    assert(padded == 4 * quarter);
    assert((4 * quarter) * height == 4 * (quarter * height)) by (nonlinear_arith);
    assert((padded * height == 0) == (padded == 0 || height == 0)) by (nonlinear_arith);
    if padded <= u32::MAX {
        assert(0 <= padded * height <= 0xffff_ffff * 0xffff_ffff) by (nonlinear_arith)
            requires
                0 <= padded <= 0xffff_ffff,
                0 <= height <= 0xffff_ffff,
        ;
    }
}

/// A nonempty, aligned byte range that starts at the beginning of its buffer.
pub struct ValidatedMappedRange {
    bytes: Range<u64>,
}

impl ValidatedMappedRange {
    pub closed spec fn spec_bytes(&self) -> Range<u64> {
        self.bytes
    }

    /// Accepts the whole of a buffer of `buffer_size` bytes, if it is not empty and its length is
    /// aligned.
    fn try_new(buffer_size: u64) -> (result: Result<Self, Error>)
        ensures
            match result {
                Ok(range) => {
                    &&& buffer_size > 0
                    &&& buffer_size % 4 == 0
                    &&& range.spec_bytes() == (Range { start: 0u64, end: buffer_size })
                },
                Err(error) => if buffer_size == 0 {
                    error == Error::Readback(ReadbackFailure::MappedRangeEmpty)
                } else {
                    &&& buffer_size % 4 != 0
                    &&& error == Error::Readback(ReadbackFailure::MappedRangeLengthUnaligned)
                },
            },
    {
        let bytes: Range<u64> = 0..buffer_size;
        let length: u64 = bytes.end - bytes.start;
        if length == 0 {
            return Err(Error::Readback(ReadbackFailure::MappedRangeEmpty));
        }
        if bytes.start % map_alignment() != 0 {
            return Err(Error::Readback(ReadbackFailure::MappedRangeOffsetUnaligned));
        }
        if length % copy_buffer_alignment() != 0 {
            return Err(Error::Readback(ReadbackFailure::MappedRangeLengthUnaligned));
        }
        Ok(Self { bytes })
    }

    fn bytes(&self) -> (bytes: Range<u64>)
        ensures
            bytes == self.spec_bytes(),
    {
        self.bytes.start..self.bytes.end
    }
}

/// Where each row of a texture lies in its staging buffer.
pub struct ReadbackLayout {
    width: u32,
    height: u32,
    row_bytes: usize,
    padded_bytes_per_row: u32,
    buffer_size: u64,
    decoded_len: usize,
    mapped_range: ValidatedMappedRange,
}

impl ReadbackLayout {
    /// The size of the texture that the layout is for.
    pub closed spec fn size(&self) -> PhysicalSize {
        PhysicalSize { width: self.width, height: self.height }
    }

    #[verifier::type_invariant]
    spec fn type_inv(&self) -> bool {
        &&& layout_failure(self.size()) is None
        &&& self.row_bytes == row_bytes(self.size())
        &&& self.padded_bytes_per_row == padded_row_bytes(self.size())
        &&& self.buffer_size == staging_bytes(self.size())
        &&& self.decoded_len == rgba_len(self.size())
        &&& self.mapped_range.spec_bytes() == (Range { start: 0u64, end: self.buffer_size })
    }

    /// Lays out a texture of `size`, or says why it cannot be read back.
    pub fn try_new(size: PhysicalSize) -> (result: Result<Self, Error>)
        ensures
            match result {
                Ok(layout) => layout_failure(size) is None && layout.size() == size,
                Err(error) => layout_failure(size) matches Some(failure)
                    && error == Error::Readback(failure),
            },
    {
        proof {
            lemma_layout_bounds(size);
            size.lemma_area_bounds();
        }
        let width: u32 = size.width();
        let height: u32 = size.height();
        let row_bytes_u64: u64 = width as u64 * RGBA8_BYTES_PER_PIXEL;
        let padded: u64 = (row_bytes_u64 + (COPY_BYTES_PER_ROW_ALIGNMENT - 1))
            / COPY_BYTES_PER_ROW_ALIGNMENT * COPY_BYTES_PER_ROW_ALIGNMENT;
        if padded > u32::MAX as u64 {
            return Err(Error::Readback(ReadbackFailure::AlignedRowByteCountExceedsLimits));
        }
        let padded_bytes_per_row: u32 = padded as u32;
        let buffer_size: u64 = padded * height as u64;
        let row_bytes: usize = row_bytes_u64 as usize;
        let decoded_len: usize = match row_bytes.checked_mul(height as usize) {
            Some(decoded_len) => decoded_len,
            None => {
                return Err(Error::Readback(ReadbackFailure::DecodedByteCountOverflowed));
            },
        };
        let mapped_range = match ValidatedMappedRange::try_new(buffer_size) {
            Ok(mapped_range) => mapped_range,
            Err(error) => {
                return Err(error);
            },
        };
        Ok(
            Self {
                width,
                height,
                row_bytes,
                padded_bytes_per_row,
                buffer_size,
                decoded_len,
                mapped_range,
            },
        )
    }

    pub fn width(&self) -> (width: u32)
        ensures
            width == self.size().width,
    {
        self.width
    }

    pub fn height(&self) -> (height: u32)
        ensures
            height == self.size().height,
    {
        self.height
    }

    pub fn padded_bytes_per_row(&self) -> (bytes: u32)
        ensures
            bytes == padded_row_bytes(self.size()),
    {
        proof {
            use_type_invariant(self);
        }
        self.padded_bytes_per_row
    }

    pub fn buffer_size(&self) -> (bytes: u64)
        ensures
            bytes == staging_bytes(self.size()),
    {
        proof {
            use_type_invariant(self);
        }
        self.buffer_size
    }

    /// The bytes to map: the whole staging buffer.
    pub fn mapped_range(&self) -> (range: Range<u64>)
        ensures
            range.start == 0,
            range.end == staging_bytes(self.size()),
    {
        proof {
            use_type_invariant(self);
        }
        self.mapped_range.bytes()
    }
}

/// Why row `row` cannot be read out of `available` mapped bytes, if it cannot.
pub open spec fn row_failure(size: PhysicalSize, row: int, available: int) -> Option<ReadbackFailure> {
    let start = row * padded_row_bytes(size);
    let end = start + row_bytes(size);
    if start > usize::MAX {
        Some(ReadbackFailure::RowOffsetOverflowed)
    } else if end > usize::MAX {
        Some(ReadbackFailure::RowEndOverflowed)
    } else if end > available {
        Some(ReadbackFailure::RowIncomplete)
    } else {
        None
    }
}

/// The first row that cannot be read decides the failure.
pub open spec fn first_row_failure(
    size: PhysicalSize,
    row: int,
    available: int,
) -> Option<ReadbackFailure>
    decreases size.height - row,
{
    if row >= size.height {
        None
    } else if row_failure(size, row, available) is Some {
        row_failure(size, row, available)
    } else {
        first_row_failure(size, row + 1, available)
    }
}

/// The rows of a mapped staging buffer without their padding: byte `i` of the image is byte
/// `i % row_bytes` of padded row `i / row_bytes`.
pub open spec fn decoded_rows(size: PhysicalSize, mapped: Seq<u8>) -> Seq<u8> {
    Seq::new(
        rgba_len(size) as nat,
        |i: int| mapped[i / row_bytes(size) * padded_row_bytes(size) + i % row_bytes(size)],
    )
}

/// Removes the row padding from mapped staging bytes.
pub fn decode_padded_rows(layout: &ReadbackLayout, mapped: &[u8]) -> (result: Result<Vec<u8>, Error>)
    ensures
        match result {
            Ok(rgba) => {
                &&& first_row_failure(layout.size(), 0, mapped@.len() as int) is None
                &&& rgba@ == decoded_rows(layout.size(), mapped@)
            },
            Err(error) => first_row_failure(layout.size(), 0, mapped@.len() as int) matches Some(
                failure,
            ) && error == Error::Readback(failure),
        },
{
    proof {
        use_type_invariant(layout);
        lemma_layout_bounds(layout.size());
        layout.size().lemma_area_bounds();
    }
    let ghost size = layout.size();
    let ghost bytes = row_bytes(size);
    let ghost padded = padded_row_bytes(size);
    let mut rgba: Vec<u8> = Vec::with_capacity(layout.decoded_len);
    let mut row: u32 = 0;
    while row < layout.height
        invariant
            size == layout.size(),
            size.height == layout.height,
            bytes == row_bytes(size),
            bytes == layout.row_bytes,
            padded == padded_row_bytes(size),
            padded == layout.padded_bytes_per_row,
            bytes > 0,
            bytes * size.height == rgba_len(size),
            row <= layout.height,
            first_row_failure(size, 0, mapped@.len() as int) == first_row_failure(
                size,
                row as int,
                mapped@.len() as int,
            ),
            rgba@.len() == row * bytes,
            forall|i: int|
                0 <= i < row * bytes ==> rgba@[i] == mapped@[i / bytes * padded + i % bytes],
        decreases layout.height - row,
    {
        proof {
            let r = row as int;
            assert(0 <= r * padded <= 0xffff_ffff * 0xffff_ffff) by (nonlinear_arith)
                requires
                    0 <= r <= 0xffff_ffff,
                    0 <= padded <= 0xffff_ffff,
            ;
            assert((r + 1) * bytes == r * bytes + bytes) by (nonlinear_arith);
        }
        let offset: u64 = row as u64 * layout.padded_bytes_per_row as u64;
        if offset > usize::MAX as u64 {
            return Err(Error::Readback(ReadbackFailure::RowOffsetOverflowed));
        }
        let start: usize = offset as usize;
        let end: usize = match start.checked_add(layout.row_bytes) {
            Some(end) => end,
            None => {
                return Err(Error::Readback(ReadbackFailure::RowEndOverflowed));
            },
        };
        if end > mapped.len() {
            return Err(Error::Readback(ReadbackFailure::RowIncomplete));
        }
        let ghost before = rgba@;
        rgba.extend_from_slice(vstd::slice::slice_subrange(mapped, start, end));
        proof {
            let r = row as int;
            assert forall|i: int| 0 <= i < (r + 1) * bytes implies rgba@[i] == mapped@[i / bytes
                * padded + i % bytes] by {
                if i < r * bytes {
                    assert(rgba@[i] == before[i]);
                } else {
                    vstd::arithmetic::div_mod::lemma_fundamental_div_mod_converse(
                        i,
                        bytes,
                        r,
                        i - r * bytes,
                    );
                    assert(rgba@[i] == mapped@.subrange(start as int, end as int)[i - r * bytes]);
                }
            }
        }
        row = row + 1;
    }
    proof {
        assert(size.height * bytes == bytes * size.height) by (nonlinear_arith);
        assert(rgba@ =~= decoded_rows(size, mapped@));
    }
    Ok(rgba)
}

/// The staging bytes of an image: each row, followed by `fill` up to the row alignment.
pub open spec fn padded_rows(size: PhysicalSize, rgba: Seq<u8>, fill: spec_fn(int) -> u8) -> Seq<u8> {
    let bytes = row_bytes(size);
    let padded = padded_row_bytes(size);
    Seq::new(
        staging_bytes(size) as nat,
        |i: int|
            if i % padded < bytes {
                rgba[i / padded * bytes + i % padded]
            } else {
                fill(i)
            },
    )
}

/// Decoding gives back exactly the pixels that a copy laid out in padded rows, whatever the
/// padding holds, for every size that has a layout and a staging buffer that memory can hold.
pub proof fn law_decoding_undoes_row_padding(
    size: PhysicalSize,
    rgba: Seq<u8>,
    fill: spec_fn(int) -> u8,
)
    requires
        layout_failure(size) is None,
        staging_bytes(size) <= usize::MAX,
        rgba.len() == rgba_len(size),
    ensures
        first_row_failure(size, 0, padded_rows(size, rgba, fill).len() as int) is None,
        decoded_rows(size, padded_rows(size, rgba, fill)) == rgba,
{
    let bytes = row_bytes(size);
    let padded = padded_row_bytes(size);
    let height = size.height as int;
    let staged = padded_rows(size, rgba, fill);
    lemma_layout_bounds(size);
    size.lemma_area_bounds();
    lemma_complete_rows(size, 0, staged.len() as int);
    assert forall|i: int| 0 <= i < rgba.len() implies decoded_rows(size, staged)[i] == rgba[i] by {
        let row = i / bytes;
        let column = i % bytes;
        vstd::arithmetic::div_mod::lemma_fundamental_div_mod(i, bytes);
        assert(0 <= row) by (nonlinear_arith)
            requires
                row == i / bytes,
                i >= 0,
                bytes > 0,
        ;
        assert(row < height) by (nonlinear_arith)
            requires
                i == bytes * row + column,
                0 <= column,
                i < bytes * height,
                bytes > 0,
        ;
        let at = row * padded + column;
        vstd::arithmetic::div_mod::lemma_fundamental_div_mod_converse(at, padded, row, column);
        assert(0 <= at < padded * height) by (nonlinear_arith)
            requires
                at == row * padded + column,
                0 <= row < height,
                0 <= column < padded,
        ;
        assert(row * bytes == bytes * row) by (nonlinear_arith);
    }
    assert(decoded_rows(size, staged) =~= rgba);
}

proof fn lemma_complete_rows(size: PhysicalSize, row: int, available: int)
    requires
        0 <= row <= size.height,
        staging_bytes(size) <= available <= usize::MAX,
    ensures
        first_row_failure(size, row, available) is None,
    decreases size.height - row,
{
    if row < size.height {
        let padded = padded_row_bytes(size);
        let height = size.height as int;
        lemma_layout_bounds(size);
        assert(row * padded + padded <= padded * height) by (nonlinear_arith)
            requires
                0 <= row < height,
                0 <= padded,
        ;
        lemma_complete_rows(size, row + 1, available);
    }
}

/// A layout pads each row of four bytes per pixel to the least multiple of 256 that holds it, and its
/// staging buffer, all of which is mapped, holds one padded row for each row of the texture.
pub proof fn law_layouts_pad_rows_to_the_alignment(
    size: PhysicalSize,
    layout: ReadbackLayout,
    padded: u32,
    buffer: u64,
    range: Range<u64>,
)
    requires
        call_ensures(ReadbackLayout::try_new, (size,), Ok::<ReadbackLayout, Error>(layout)),
        call_ensures(ReadbackLayout::padded_bytes_per_row, (&layout,), padded),
        call_ensures(ReadbackLayout::buffer_size, (&layout,), buffer),
        call_ensures(ReadbackLayout::mapped_range, (&layout,), range),
    ensures
        padded % 256 == 0,
        4 * size.width <= padded < 4 * size.width + 256,
        buffer == padded * size.height,
        range.start == 0,
        range.end == buffer,
        forall|width: u32| #[trigger] call_ensures(ReadbackLayout::width, (&layout,), width)
            ==> width == size.width,
        forall|height: u32| #[trigger] call_ensures(ReadbackLayout::height, (&layout,), height)
            ==> height == size.height,
{
    lemma_layout_bounds(size);
}

/// A texture can be read back exactly if it covers a pixel, its padded row fits 32 bits and its image
/// fits memory; a row that is too long is reported first, and an empty texture last.
pub proof fn law_readable_sizes(size: PhysicalSize, result: Result<ReadbackLayout, Error>)
    requires
        call_ensures(ReadbackLayout::try_new, (size,), result),
    ensures
        result is Ok <==> size.width > 0 && size.height > 0 && 4 * size.width <= 0xffff_ff00
            && 4 * (size.width * size.height) <= usize::MAX,
        4 * size.width > 0xffff_ff00 ==> result == Err::<ReadbackLayout, Error>(
            Error::Readback(ReadbackFailure::AlignedRowByteCountExceedsLimits),
        ),
        4 * size.width <= 0xffff_ff00 && 4 * (size.width * size.height) > usize::MAX ==> result
            == Err::<ReadbackLayout, Error>(
            Error::Readback(ReadbackFailure::DecodedByteCountOverflowed),
        ),
        size.width == 0 ==> result == Err::<ReadbackLayout, Error>(
            Error::Readback(ReadbackFailure::MappedRangeEmpty),
        ),
{
    lemma_layout_bounds(size);
    size.lemma_area_bounds();
}

/// The bytes of decoded rows: channel `channel` of the pixel in column `x` of row `y` is that many
/// bytes into the pixel, four bytes to a pixel into the padded row, and one padded row of the least
/// multiple of 256 bytes for each row before it.
pub proof fn law_decoded_rows_are_the_pixels(
    size: PhysicalSize,
    mapped: Seq<u8>,
    x: int,
    y: int,
    channel: int,
)
    requires
        0 <= x < size.width,
        0 <= y < size.height,
        0 <= channel < 4,
    ensures
        0 <= 4 * (y * size.width + x) + channel < 4 * (size.width * size.height),
        decoded_rows(size, mapped).len() == 4 * (size.width * size.height),
        decoded_rows(size, mapped)[4 * (y * size.width + x) + channel] == mapped[y * (256 * ((4
            * size.width + 255) / 256)) + 4 * x + channel],
{
    let width = size.width as int;
    let height = size.height as int;
    let bytes = row_bytes(size);
    let column = 4 * x + channel;
    let at = 4 * (y * width + x) + channel;
    size.lemma_area_bounds();
    assert(at == y * bytes + column) by (nonlinear_arith)
        requires
            at == 4 * (y * width + x) + channel,
            bytes == width * 4,
            column == 4 * x + channel,
    ;
    assert(0 <= at < 4 * (width * height)) by (nonlinear_arith)
        requires
            at == 4 * (y * width + x) + channel,
            0 <= x < width,
            0 <= y < height,
            0 <= channel < 4,
    ;
    vstd::arithmetic::div_mod::lemma_fundamental_div_mod_converse(at, bytes, y, column);
    assert(padded_row_bytes(size) == 256 * ((4 * width + 255) / 256));
}

/// Decoding reads each channel of each pixel from its place: channel `channel` of the pixel in column
/// `x` of row `y` is that many bytes into the pixel, four bytes to a pixel into the padded row, and one
/// padded row for each row before it. Nothing of the padding is read.
pub proof fn law_decoding_reads_pixels_from_their_rows(
    layout: &ReadbackLayout,
    mapped: &[u8],
    rgba: Vec<u8>,
    x: int,
    y: int,
    channel: int,
    padded: u32,
)
    requires
        call_ensures(decode_padded_rows, (layout, mapped), Ok::<Vec<u8>, Error>(rgba)),
        call_ensures(ReadbackLayout::padded_bytes_per_row, (layout,), padded),
        0 <= x < layout.size().width,
        0 <= y < layout.size().height,
        0 <= channel < 4,
    ensures
        rgba@.len() == 4 * (layout.size().width * layout.size().height),
        0 <= 4 * (y * layout.size().width + x) + channel < rgba@.len(),
        rgba@[4 * (y * layout.size().width + x) + channel] == mapped@[y * padded + 4 * x + channel],
{
    law_decoded_rows_are_the_pixels(layout.size(), mapped@, x, y, channel);
}

/// Rows are decoded only from bytes that hold the last of them whole.
pub proof fn law_decoding_needs_every_row(layout: &ReadbackLayout, mapped: &[u8], padded: u32)
    requires
        layout.size().height > 0,
        mapped@.len() <= usize::MAX,
        call_ensures(ReadbackLayout::padded_bytes_per_row, (layout,), padded),
    ensures
        forall|result: Result<Vec<u8>, Error>| #[trigger]
            call_ensures(decode_padded_rows, (layout, mapped), result) ==> (result is Ok
                <==> padded * (layout.size().height - 1) + 4 * layout.size().width
                <= mapped@.len()),
        forall|result: Result<Vec<u8>, Error>| #[trigger]
            call_ensures(decode_padded_rows, (layout, mapped), result) && mapped@.len() < 4
                * layout.size().width ==> result == Err::<Vec<u8>, Error>(
                Error::Readback(ReadbackFailure::RowIncomplete),
            ),
{
    lemma_layout_bounds(layout.size());
    lemma_last_row_decides(layout.size(), 0, mapped@.len() as int);
    let p = padded as int;
    let h = layout.size().height - 1;
    assert(p * h == h * p) by (nonlinear_arith);
}

proof fn lemma_last_row_decides(size: PhysicalSize, row: int, available: int)
    requires
        0 <= row < size.height,
        available <= usize::MAX,
    ensures
        first_row_failure(size, row, available) is None <==> (size.height - 1) * padded_row_bytes(
            size,
        ) + row_bytes(size) <= available,
    decreases size.height - row,
{
    let padded = padded_row_bytes(size);
    let last = size.height - 1;
    lemma_layout_bounds(size);
    assert(0 <= row * padded <= last * padded) by (nonlinear_arith)
        requires
            0 <= row <= last,
            0 <= padded,
    ;
    if row < last {
        lemma_last_row_decides(size, row + 1, available);
    } else {
        assert(first_row_failure(size, row + 1, available) is None);
    }
}

} // verus!
