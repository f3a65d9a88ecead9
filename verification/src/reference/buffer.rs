//! Reference image buffers of premultiplied pixels.

use vstd::prelude::*;

use crate::error::{Error, InvalidValue};
use crate::geometry::PhysicalSize;
use crate::reference::pixel::{
    blended_over, over, rounds, scaled_by, transparent, BlendMode, Channels, PremultipliedRgba8,
};

verus! {

/// Why no buffer has `size`, if none can have it.
pub open spec fn size_failure(size: PhysicalSize) -> Option<InvalidValue> {
    if size.width == 0 {
        Some(InvalidValue::BufferWidth(size.width))
    } else if size.height == 0 {
        Some(InvalidValue::BufferHeight(size.height))
    } else if size.area() * 4 > u64::MAX {
        Some(InvalidValue::BufferByteLength { pixels: size.area() as u64 })
    } else if size.area() > usize::MAX {
        Some(InvalidValue::BufferPixelCount(size.area() as u64))
    } else {
        None
    }
}

/// The number of pixels of a buffer of `size`, or why none can have it.
pub fn validate_size(size: PhysicalSize) -> (result: Result<u64, Error>)
    ensures
        match size_failure(size) {
            None => result == Ok::<u64, Error>(size.area() as u64) && 0 < size.area() <= usize::MAX
                && size.area() * 4 <= u64::MAX,
            Some(failure) => result == Err::<u64, Error>(Error::Invalid(failure)),
        },
{
    proof {
        size.lemma_area_bounds();
    }
    if size.width() == 0 {
        return Err(Error::Invalid(InvalidValue::BufferWidth(size.width())));
    }
    if size.height() == 0 {
        return Err(Error::Invalid(InvalidValue::BufferHeight(size.height())));
    }
    let pixels: u64 = size.width() as u64 * size.height() as u64;
    if pixels.checked_mul(4).is_none() {
        return Err(Error::Invalid(InvalidValue::BufferByteLength { pixels }));
    }
    if pixels > usize::MAX as u64 {
        return Err(Error::Invalid(InvalidValue::BufferPixelCount(pixels)));
    }
    Ok(pixels)
}

/// The channels of a sequence of pixels.
pub open spec fn channels_of(pixels: Seq<PremultipliedRgba8>) -> Seq<Channels> {
    pixels.map_values(|pixel: PremultipliedRgba8| pixel@)
}

/// A reference image in row order.
#[derive(Debug)]
pub struct ReferencePremultipliedRgba8Buffer {
    physical_size: PhysicalSize,
    byte_len: u64,
    pixels: Vec<PremultipliedRgba8>,
}

/// Whether a pixel can be mapped to one.
pub open spec fn is_mapped<F: Fn(PremultipliedRgba8) -> Result<PremultipliedRgba8, Error>>(
    map_pixel: F,
    pixel: PremultipliedRgba8,
) -> bool {
    exists|mapped: PremultipliedRgba8|
        #[trigger] call_ensures(map_pixel, (pixel,), Ok::<PremultipliedRgba8, Error>(mapped))
}

impl ReferencePremultipliedRgba8Buffer {
    pub closed spec fn size(&self) -> PhysicalSize {
        self.physical_size
    }

    pub closed spec fn spec_pixels(&self) -> Seq<PremultipliedRgba8> {
        self.pixels@
    }

    /// The channels of each pixel, row by row.
    pub open spec fn channels(&self) -> Seq<Channels> {
        channels_of(self.spec_pixels())
    }

    /// The channels of the pixel in column `x` of row `y`.
    pub open spec fn at(&self, x: int, y: int) -> Channels {
        self.channels()[y * self.size().width + x]
    }

    /// A buffer holds one pixel for each position of a valid size.
    pub open spec fn wf(&self) -> bool {
        &&& size_failure(self.size()) is None
        &&& self.spec_pixels().len() == self.size().area()
    }

    #[verifier::type_invariant]
    spec fn type_inv(&self) -> bool {
        &&& self.wf()
        &&& self.byte_len == self.size().area() * 4
    }

    /// A transparent buffer.
    pub fn try_new(physical_size: PhysicalSize) -> (result: Result<Self, Error>)
        ensures
            match result {
                Ok(buffer) => {
                    &&& buffer.wf()
                    &&& buffer.size() == physical_size
                    &&& buffer.channels() == Seq::new(
                        physical_size.area() as nat,
                        |i: int| transparent(),
                    )
                },
                Err(error) => size_failure(physical_size) matches Some(failure) && error
                    == Error::Invalid(failure),
            },
    {
        let count: u64 = match validate_size(physical_size) {
            Ok(count) => count,
            Err(error) => {
                return Err(error);
            },
        };
        let mut pixels: Vec<PremultipliedRgba8> = Vec::with_capacity(count as usize);
        while pixels.len() < count as usize
            invariant
                pixels@.len() <= count,
                count <= usize::MAX,
                forall|i: int| 0 <= i < pixels@.len() ==> (#[trigger] pixels@[i])@ == transparent(),
            decreases count - pixels@.len(),
        {
            pixels.push(PremultipliedRgba8::transparent());
        }
        proof {
            physical_size.lemma_area_bounds();
            assert(channels_of(pixels@) =~= Seq::new(
                physical_size.area() as nat,
                |i: int| transparent(),
            ));
        }
        Ok(Self { physical_size, byte_len: count * 4, pixels })
    }

    /// A buffer of the given pixels, row by row.
    pub fn from_pixels(physical_size: PhysicalSize, pixels: Vec<PremultipliedRgba8>) -> (result: Result<
        Self,
        Error,
    >)
        ensures
            match result {
                Ok(buffer) => {
                    &&& buffer.wf()
                    &&& buffer.size() == physical_size
                    &&& buffer.spec_pixels() == pixels@
                },
                Err(error) => match size_failure(physical_size) {
                    Some(failure) => error == Error::Invalid(failure),
                    None => pixels@.len() != physical_size.area() && error == Error::Invalid(
                        InvalidValue::PixelDataLength(pixels@.len() as usize),
                    ),
                },
            },
    {
        let count: u64 = match validate_size(physical_size) {
            Ok(count) => count,
            Err(error) => {
                return Err(error);
            },
        };
        if pixels.len() != count as usize {
            return Err(Error::Invalid(InvalidValue::PixelDataLength(pixels.len())));
        }
        Ok(Self { physical_size, byte_len: count * 4, pixels })
    }

    pub fn physical_size(&self) -> (size: PhysicalSize)
        ensures
            size == self.size(),
            self.wf(),
    {
        proof {
            use_type_invariant(self);
        }
        self.physical_size
    }

    pub fn byte_len(&self) -> (bytes: u64)
        ensures
            bytes == self.size().area() * 4,
    {
        proof {
            use_type_invariant(self);
        }
        self.byte_len
    }

    /// The pixels, row by row.
    pub fn pixels(&self) -> (pixels: &[PremultipliedRgba8])
        ensures
            pixels@ == self.spec_pixels(),
            pixels@.len() == self.size().area(),
    {
        proof {
            use_type_invariant(self);
        }
        self.pixels.as_slice()
    }

    /// A copy of this buffer.
    pub fn duplicate(&self) -> (copy: Self)
        ensures
            copy.wf(),
            copy.size() == self.size(),
            copy.spec_pixels() == self.spec_pixels(),
    {
        proof {
            use_type_invariant(self);
        }
        let mut pixels: Vec<PremultipliedRgba8> = Vec::with_capacity(self.pixels.len());
        let mut i: usize = 0;
        while i < self.pixels.len()
            invariant
                i <= self.pixels@.len(),
                pixels@ == self.pixels@.take(i as int),
            decreases self.pixels@.len() - i,
        {
            pixels.push(self.pixels[i]);
            i = i + 1;
            assert(self.pixels@.take(i as int) =~= self.pixels@.take(i as int - 1).push(
                self.pixels@[i as int - 1],
            ));
        }
        assert(self.pixels@.take(i as int) =~= self.pixels@);
        Self { physical_size: self.physical_size, byte_len: self.byte_len, pixels }
    }

    /// The pixel in column `x` of row `y`.
    pub fn pixel(&self, x: u32, y: u32) -> (result: Result<PremultipliedRgba8, Error>)
        ensures
            match result {
                Ok(pixel) => {
                    &&& x < self.size().width && y < self.size().height
                    &&& pixel@ == self.at(x as int, y as int)
                    &&& pixel == self.spec_pixels()[y * self.size().width + x]
                },
                Err(error) => position_failure(self.size(), x, y) matches Some(failure) && error
                    == Error::Invalid(failure),
            },
    {
        match self.pixel_index(x, y) {
            Ok(index) => Ok(self.pixels[index]),
            Err(error) => Err(error),
        }
    }

    /// Replaces the pixel in column `x` of row `y`, or changes nothing where there is none.
    pub fn set_pixel(&mut self, x: u32, y: u32, pixel: PremultipliedRgba8) -> (result: Result<
        (),
        Error,
    >)
        ensures
            final(self).size() == old(self).size(),
            match result {
                Ok(()) => {
                    &&& x < old(self).size().width && y < old(self).size().height
                    &&& final(self).spec_pixels() == old(self).spec_pixels().update(
                        y * old(self).size().width + x,
                        pixel,
                    )
                },
                Err(error) => {
                    &&& position_failure(old(self).size(), x, y) matches Some(failure) && error
                        == Error::Invalid(failure)
                    &&& final(self).spec_pixels() == old(self).spec_pixels()
                },
            },
    {
        proof {
            use_type_invariant(&*self);
        }
        match self.pixel_index(x, y) {
            Ok(index) => {
                self.pixels[index] = pixel;
                Ok(())
            },
            Err(error) => Err(error),
        }
    }

    /// This buffer where `mask` covers.
    pub fn apply_alpha_mask(&self, mask: &Self) -> (result: Result<Self, Error>)
        ensures
            match result {
                Ok(masked) => {
                    &&& self.size() == mask.size()
                    &&& masked.size() == self.size()
                    &&& masked.channels() == Seq::new(
                        self.channels().len(),
                        |i: int| scaled_by(self.channels()[i], mask.channels()[i].alpha),
                    )
                },
                Err(error) => self.size() != mask.size() && error == Error::Invalid(
                    InvalidValue::AlphaMaskSize(mask.size()),
                ),
            },
    {
        if self.physical_size != mask.physical_size {
            return Err(Error::Invalid(InvalidValue::AlphaMaskSize(mask.physical_size)));
        }
        let masked = self.zip_pixels(mask, PremultipliedRgba8::destination_in_alpha_of);
        assert(masked.channels() =~= Seq::new(
            self.channels().len(),
            |i: int| scaled_by(self.channels()[i], mask.channels()[i].alpha),
        ));
        Ok(masked)
    }

    /// This buffer composed over `destination`.
    pub fn source_over(&self, destination: &Self) -> (result: Result<Self, Error>)
        ensures
            match result {
                Ok(composed) => {
                    &&& self.size() == destination.size()
                    &&& composed.size() == self.size()
                    &&& composed.channels() == Seq::new(
                        self.channels().len(),
                        |i: int| over(self.channels()[i], destination.channels()[i]),
                    )
                },
                Err(error) => self.size() != destination.size() && error == Error::Invalid(
                    InvalidValue::SourceOverDestinationSize(destination.size()),
                ),
            },
    {
        if self.physical_size != destination.physical_size {
            return Err(
                Error::Invalid(InvalidValue::SourceOverDestinationSize(destination.physical_size)),
            );
        }
        let composed = self.zip_pixels(destination, PremultipliedRgba8::source_over);
        assert(composed.channels() =~= Seq::new(
            self.channels().len(),
            |i: int| over(self.channels()[i], destination.channels()[i]),
        ));
        Ok(composed)
    }

    /// This buffer composed over `destination` with a blend mode.
    pub fn blend_over(&self, destination: &Self, mode: BlendMode) -> (result: Result<Self, Error>)
        ensures
            match result {
                Ok(composed) => {
                    &&& self.size() == destination.size()
                    &&& composed.size() == self.size()
                    &&& composed.channels() == Seq::new(
                        self.channels().len(),
                        |i: int| blended_over(mode, self.channels()[i], destination.channels()[i]),
                    )
                },
                Err(error) => self.size() != destination.size() && error == Error::Invalid(
                    InvalidValue::BlendDestinationSize(destination.size()),
                ),
            },
    {
        if self.physical_size != destination.physical_size {
            return Err(
                Error::Invalid(InvalidValue::BlendDestinationSize(destination.physical_size)),
            );
        }
        proof {
            use_type_invariant(self);
            use_type_invariant(destination);
        }
        let mut pixels: Vec<PremultipliedRgba8> = Vec::with_capacity(self.pixels.len());
        let mut i: usize = 0;
        while i < self.pixels.len()
            invariant
                self.pixels@.len() == destination.pixels@.len(),
                i <= self.pixels@.len(),
                pixels@.len() == i,
                forall|j: int|
                    0 <= j < i ==> (#[trigger] pixels@[j])@ == blended_over(
                        mode,
                        self.pixels@[j]@,
                        destination.pixels@[j]@,
                    ),
            decreases self.pixels@.len() - i,
        {
            pixels.push(self.pixels[i].blend_over(destination.pixels[i], mode));
            i = i + 1;
        }
        let composed = Self { physical_size: self.physical_size, byte_len: self.byte_len, pixels };
        assert(composed.channels() =~= Seq::new(
            self.channels().len(),
            |i: int| blended_over(mode, self.channels()[i], destination.channels()[i]),
        ));
        Ok(composed)
    }

    /// This buffer where `destination` covers.
    pub fn source_in_alpha_of(&self, destination: &Self) -> (result: Result<Self, Error>)
        ensures
            match result {
                Ok(composed) => {
                    &&& self.size() == destination.size()
                    &&& composed.size() == self.size()
                    &&& composed.channels() == Seq::new(
                        self.channels().len(),
                        |i: int| scaled_by(self.channels()[i], destination.channels()[i].alpha),
                    )
                },
                Err(error) => self.size() != destination.size() && error == Error::Invalid(
                    InvalidValue::SourceInDestinationSize(destination.size()),
                ),
            },
    {
        if self.physical_size != destination.physical_size {
            return Err(
                Error::Invalid(InvalidValue::SourceInDestinationSize(destination.physical_size)),
            );
        }
        let composed = self.zip_pixels(destination, PremultipliedRgba8::source_in_alpha_of);
        assert(composed.channels() =~= Seq::new(
            self.channels().len(),
            |i: int| scaled_by(self.channels()[i], destination.channels()[i].alpha),
        ));
        Ok(composed)
    }

    /// This buffer where `source` covers.
    pub fn destination_in_alpha_of(&self, source: &Self) -> (result: Result<Self, Error>)
        ensures
            match result {
                Ok(composed) => {
                    &&& self.size() == source.size()
                    &&& composed.size() == self.size()
                    &&& composed.channels() == Seq::new(
                        self.channels().len(),
                        |i: int| scaled_by(self.channels()[i], source.channels()[i].alpha),
                    )
                },
                Err(error) => self.size() != source.size() && error == Error::Invalid(
                    InvalidValue::DestinationInSourceSize(source.size()),
                ),
            },
    {
        if self.physical_size != source.physical_size {
            return Err(Error::Invalid(InvalidValue::DestinationInSourceSize(source.physical_size)));
        }
        let composed = self.zip_pixels(source, PremultipliedRgba8::destination_in_alpha_of);
        assert(composed.channels() =~= Seq::new(
            self.channels().len(),
            |i: int| scaled_by(self.channels()[i], source.channels()[i].alpha),
        ));
        Ok(composed)
    }

    /// Whether a pixel was rejected with an error after every pixel before it was mapped.
    pub open spec fn is_first_rejection<
        F: Fn(PremultipliedRgba8) -> Result<PremultipliedRgba8, Error>,
    >(&self, map_pixel: F, position: int, error: Error) -> bool {
        &&& 0 <= position < self.spec_pixels().len()
        &&& call_ensures(
            map_pixel,
            (self.spec_pixels()[position],),
            Err::<PremultipliedRgba8, Error>(error),
        )
        &&& forall|j: int|
            0 <= j < position ==> is_mapped(map_pixel, #[trigger] self.spec_pixels()[j])
    }

    /// Applies `map_pixel` to each pixel in order, up to the first that it rejects.
    pub fn map_pixels<F: Fn(PremultipliedRgba8) -> Result<PremultipliedRgba8, Error>>(
        &self,
        map_pixel: F,
    ) -> (result: Result<Self, Error>)
        requires
            forall|pixel: PremultipliedRgba8| #[trigger] call_requires(map_pixel, (pixel,)),
        ensures
            match result {
                Ok(mapped) => {
                    &&& mapped.wf()
                    &&& mapped.size() == self.size()
                    &&& forall|i: int|
                        0 <= i < self.spec_pixels().len() ==> call_ensures(
                            map_pixel,
                            (self.spec_pixels()[i],),
                            Ok::<PremultipliedRgba8, Error>(#[trigger] mapped.spec_pixels()[i]),
                        )
                },
                Err(error) => exists|i: int| #[trigger]
                    self.is_first_rejection(map_pixel, i, error),
            },
    {
        proof {
            use_type_invariant(self);
        }
        let mut pixels: Vec<PremultipliedRgba8> = Vec::with_capacity(self.pixels.len());
        let mut i: usize = 0;
        while i < self.pixels.len()
            invariant
                forall|pixel: PremultipliedRgba8| #[trigger] call_requires(map_pixel, (pixel,)),
                i <= self.pixels@.len(),
                pixels@.len() == i,
                forall|j: int|
                    0 <= j < i ==> call_ensures(
                        map_pixel,
                        (self.spec_pixels()[j],),
                        Ok::<PremultipliedRgba8, Error>(#[trigger] pixels@[j]),
                    ),
            decreases self.pixels@.len() - i,
        {
            match map_pixel(self.pixels[i]) {
                Ok(pixel) => {
                    pixels.push(pixel);
                },
                Err(error) => {
                    proof {
                        assert forall|j: int| 0 <= j < i implies is_mapped(
                            map_pixel,
                            #[trigger] self.spec_pixels()[j],
                        ) by {
                            let pixel = pixels@[j];
                            assert(call_ensures(
                                map_pixel,
                                (self.spec_pixels()[j],),
                                Ok::<PremultipliedRgba8, Error>(pixel),
                            ));
                        }
                        assert(self.is_first_rejection(map_pixel, i as int, error));
                    }
                    return Err(error);
                },
            }
            i = i + 1;
        }
        Ok(Self { physical_size: self.physical_size, byte_len: self.byte_len, pixels })
    }

    /// Combines the pixels of two buffers of one size.
    fn zip_pixels<F: Fn(PremultipliedRgba8, PremultipliedRgba8) -> PremultipliedRgba8>(
        &self,
        other: &Self,
        combine: F,
    ) -> (combined: Self)
        requires
            self.size() == other.size(),
            forall|a: PremultipliedRgba8, b: PremultipliedRgba8| #[trigger]
                call_requires(combine, (a, b)),
        ensures
            combined.size() == self.size(),
            combined.spec_pixels().len() == self.spec_pixels().len(),
            other.spec_pixels().len() == self.spec_pixels().len(),
            forall|i: int|
                0 <= i < self.spec_pixels().len() ==> call_ensures(
                    combine,
                    (self.spec_pixels()[i], other.spec_pixels()[i]),
                    #[trigger] combined.spec_pixels()[i],
                ),
    {
        proof {
            use_type_invariant(self);
            use_type_invariant(other);
        }
        let mut pixels: Vec<PremultipliedRgba8> = Vec::with_capacity(self.pixels.len());
        let mut i: usize = 0;
        while i < self.pixels.len()
            invariant
                forall|a: PremultipliedRgba8, b: PremultipliedRgba8| #[trigger]
                    call_requires(combine, (a, b)),
                self.pixels@.len() == other.pixels@.len(),
                i <= self.pixels@.len(),
                pixels@.len() == i,
                forall|j: int|
                    0 <= j < i ==> call_ensures(
                        combine,
                        (self.spec_pixels()[j], other.spec_pixels()[j]),
                        #[trigger] pixels@[j],
                    ),
            decreases self.pixels@.len() - i,
        {
            let pixel = combine(self.pixels[i], other.pixels[i]);
            pixels.push(pixel);
            i = i + 1;
        }
        Self { physical_size: self.physical_size, byte_len: self.byte_len, pixels }
    }

    fn pixel_index(&self, x: u32, y: u32) -> (result: Result<usize, Error>)
        ensures
            match result {
                Ok(index) => {
                    &&& x < self.size().width && y < self.size().height
                    &&& index == y * self.size().width + x
                    &&& index < self.spec_pixels().len()
                },
                Err(error) => position_failure(self.size(), x, y) matches Some(failure) && error
                    == Error::Invalid(failure),
            },
    {
        proof {
            use_type_invariant(self);
        }
        if x >= self.physical_size.width() {
            return Err(Error::Invalid(InvalidValue::BufferX(x)));
        }
        if y >= self.physical_size.height() {
            return Err(Error::Invalid(InvalidValue::BufferY(y)));
        }
        proof {
            lemma_position_inside(self.size(), x as int, y as int);
        }
        let index: u64 = y as u64 * self.physical_size.width() as u64 + x as u64;
        Ok(index as usize)
    }
}

/// Why a buffer of `size` has no pixel in column `x` of row `y`, if it has none.
pub open spec fn position_failure(size: PhysicalSize, x: u32, y: u32) -> Option<InvalidValue> {
    if x >= size.width {
        Some(InvalidValue::BufferX(x))
    } else if y >= size.height {
        Some(InvalidValue::BufferY(y))
    } else {
        None
    }
}

pub proof fn lemma_position_inside(size: PhysicalSize, x: int, y: int)
    requires
        0 <= x < size.width,
        0 <= y < size.height,
    ensures
        0 <= y * size.width + x < size.area(),
        0 <= y * size.width <= 0xffff_ffff * 0xffff_ffff,
{
    let width = size.width as int;
    let height = size.height as int;
    assert(0 <= y * width && y * width + x < width * height && y * width <= 0xffff_ffff
        * 0xffff_ffff) by (nonlinear_arith)
        requires
            0 <= x < width,
            0 <= y < height,
            width <= 0xffff_ffff,
            height <= 0xffff_ffff,
    ;
}

/// A buffer holds its pixels row by row: the pixel in column `x` of row `y` is the `x`-th after the
/// `y` rows before it, whichever way it is read.
pub proof fn law_pixels_lie_in_row_order(
    buffer: &ReferencePremultipliedRgba8Buffer,
    x: u32,
    y: u32,
    result: Result<PremultipliedRgba8, Error>,
)
    requires
        buffer.wf(),
        call_ensures(ReferencePremultipliedRgba8Buffer::pixel, (buffer, x, y), result),
    ensures
        x < buffer.size().width && y < buffer.size().height ==> {
            let i = y * buffer.size().width + x;
            &&& 0 <= i < buffer.spec_pixels().len()
            &&& result matches Ok(pixel) && pixel@ == buffer.spec_pixels()[i]@
            &&& buffer.at(x as int, y as int) == buffer.spec_pixels()[i]@
        },
        x >= buffer.size().width ==> result == Err::<PremultipliedRgba8, Error>(
            Error::Invalid(InvalidValue::BufferX(x)),
        ),
        x < buffer.size().width && y >= buffer.size().height ==> result == Err::<
            PremultipliedRgba8,
            Error,
        >(Error::Invalid(InvalidValue::BufferY(y))),
{
    if x < buffer.size().width && y < buffer.size().height {
        lemma_position_inside(buffer.size(), x as int, y as int);
    }
}

/// Every pixel of a buffer is at exactly one position: pixel `i` in column `i % width` of row
/// `i / width`.
pub proof fn law_positions_cover_the_buffer(buffer: &ReferencePremultipliedRgba8Buffer, i: int)
    requires
        buffer.wf(),
        0 <= i < buffer.spec_pixels().len(),
    ensures
        ({
            let width = buffer.size().width as int;
            &&& 0 <= i % width < width
            &&& 0 <= i / width < buffer.size().height
            &&& buffer.at(i % width, i / width) == buffer.spec_pixels()[i]@
        }),
{
    let width = buffer.size().width as int;
    let height = buffer.size().height as int;
    let row = i / width;
    buffer.size().lemma_area_bounds();
    vstd::arithmetic::div_mod::lemma_fundamental_div_mod(i, width);
    vstd::arithmetic::div_mod::lemma_mod_bound(i, width);
    assert(0 <= row < height) by (nonlinear_arith)
        requires
            i == width * row + i % width,
            0 <= i % width < width,
            0 <= i < width * height,
    ;
    assert(row * width == width * row) by (nonlinear_arith);
}

/// A pixel that was set is read back from its position, and every other position keeps its pixel.
pub proof fn law_set_pixels_are_read_back(
    before: &ReferencePremultipliedRgba8Buffer,
    after: &ReferencePremultipliedRgba8Buffer,
    x: u32,
    y: u32,
    pixel: PremultipliedRgba8,
    u: int,
    v: int,
)
    requires
        before.wf(),
        after.size() == before.size(),
        after.spec_pixels() == before.spec_pixels().update(y * before.size().width + x, pixel),
        x < before.size().width,
        y < before.size().height,
        0 <= u < before.size().width,
        0 <= v < before.size().height,
    ensures
        after.at(u, v) == (if u == x && v == y {
            pixel@
        } else {
            before.at(u, v)
        }),
{
    let width = before.size().width as int;
    let (column, row) = (x as int, y as int);
    lemma_position_inside(before.size(), column, row);
    lemma_position_inside(before.size(), u, v);
    if u != column || v != row {
        assert(v * width + u != row * width + column) by (nonlinear_arith)
            requires
                0 <= u < width,
                0 <= column < width,
                u != column || v != row,
        ;
    }
}

/// A new buffer is transparent at every position.
pub proof fn law_new_buffers_are_transparent(
    size: PhysicalSize,
    buffer: ReferencePremultipliedRgba8Buffer,
    x: int,
    y: int,
)
    requires
        call_ensures(
            ReferencePremultipliedRgba8Buffer::try_new,
            (size,),
            Ok::<ReferencePremultipliedRgba8Buffer, Error>(buffer),
        ),
        0 <= x < size.width,
        0 <= y < size.height,
    ensures
        buffer.at(x, y).red == 0,
        buffer.at(x, y).green == 0,
        buffer.at(x, y).blue == 0,
        buffer.at(x, y).alpha == 0,
{
    lemma_position_inside(size, x, y);
}

/// A size has a buffer exactly if it covers a pixel, its bytes can be counted and its pixels can be
/// indexed; the width is refused before the height.
pub proof fn law_buffer_sizes(size: PhysicalSize, result: Result<u64, Error>)
    requires
        call_ensures(validate_size, (size,), result),
    ensures
        result is Ok <==> size.width > 0 && size.height > 0 && size.width * size.height * 4
            <= u64::MAX && size.width * size.height <= usize::MAX,
        result matches Ok(pixels) ==> pixels == size.width * size.height,
        size.width == 0 ==> result == Err::<u64, Error>(
            Error::Invalid(InvalidValue::BufferWidth(0)),
        ),
        size.width > 0 && size.height == 0 ==> result == Err::<u64, Error>(
            Error::Invalid(InvalidValue::BufferHeight(0)),
        ),
{
    size.lemma_area_bounds();
}

/// Composing, blending and masking buffers works position by position: what is at a position of the
/// result comes from that position of both buffers, with the receiver as the source.
pub proof fn law_buffers_combine_by_position(
    a: &ReferencePremultipliedRgba8Buffer,
    b: &ReferencePremultipliedRgba8Buffer,
    mode: BlendMode,
    over_b: ReferencePremultipliedRgba8Buffer,
    blended: ReferencePremultipliedRgba8Buffer,
    inside: ReferencePremultipliedRgba8Buffer,
    kept: ReferencePremultipliedRgba8Buffer,
    masked: ReferencePremultipliedRgba8Buffer,
    x: int,
    y: int,
)
    requires
        a.wf(),
        b.wf(),
        call_ensures(
            ReferencePremultipliedRgba8Buffer::source_over,
            (a, b),
            Ok::<ReferencePremultipliedRgba8Buffer, Error>(over_b),
        ),
        call_ensures(
            ReferencePremultipliedRgba8Buffer::blend_over,
            (a, b, mode),
            Ok::<ReferencePremultipliedRgba8Buffer, Error>(blended),
        ),
        call_ensures(
            ReferencePremultipliedRgba8Buffer::source_in_alpha_of,
            (a, b),
            Ok::<ReferencePremultipliedRgba8Buffer, Error>(inside),
        ),
        call_ensures(
            ReferencePremultipliedRgba8Buffer::destination_in_alpha_of,
            (a, b),
            Ok::<ReferencePremultipliedRgba8Buffer, Error>(kept),
        ),
        call_ensures(
            ReferencePremultipliedRgba8Buffer::apply_alpha_mask,
            (a, b),
            Ok::<ReferencePremultipliedRgba8Buffer, Error>(masked),
        ),
        0 <= x < a.size().width,
        0 <= y < a.size().height,
    ensures
        over_b.at(x, y) == over(a.at(x, y), b.at(x, y)),
        blended.at(x, y) == blended_over(mode, a.at(x, y), b.at(x, y)),
        rounds(a.at(x, y).red * b.at(x, y).alpha, inside.at(x, y).red),
        rounds(a.at(x, y).green * b.at(x, y).alpha, inside.at(x, y).green),
        rounds(a.at(x, y).blue * b.at(x, y).alpha, inside.at(x, y).blue),
        rounds(a.at(x, y).alpha * b.at(x, y).alpha, inside.at(x, y).alpha),
        rounds(b.at(x, y).alpha * (255 - a.at(x, y).alpha), over_b.at(x, y).alpha - a.at(x, y).alpha),
        rounds(b.at(x, y).red * (255 - a.at(x, y).alpha), over_b.at(x, y).red - a.at(x, y).red),
        kept.at(x, y) == inside.at(x, y),
        masked.at(x, y) == inside.at(x, y),
{
    lemma_position_inside(a.size(), x, y);
}

/// Setting a pixel where there is one puts it there and nowhere else; elsewhere nothing changes.
pub proof fn law_setting_changes_one_position(x: u32, y: u32, pixel: PremultipliedRgba8)
    ensures
        forall|buffer: &mut ReferencePremultipliedRgba8Buffer, result: Result<(), Error>|
            {
                &&& (*buffer).wf()
                &&& #[trigger] call_ensures(
                    ReferencePremultipliedRgba8Buffer::set_pixel,
                    (buffer, x, y, pixel),
                    result,
                )
            } ==> {
                let size = (*buffer).size();
                &&& (*final(buffer)).size() == size
                &&& result is Ok <==> x < size.width && y < size.height
                &&& result is Err ==> (*final(buffer)).spec_pixels() == (*buffer).spec_pixels()
                &&& result is Ok ==> forall|u: int, v: int|
                    0 <= u < size.width && 0 <= v < size.height ==> #[trigger] (*final(buffer)).at(
                        u,
                        v,
                    ) == (if u == x && v == y {
                        pixel@
                    } else {
                        (*buffer).at(u, v)
                    })
            },
{
    assert forall|buffer: &mut ReferencePremultipliedRgba8Buffer, result: Result<(), Error>|
        {
            &&& (*buffer).wf()
            &&& result is Ok
            &&& #[trigger] call_ensures(
                ReferencePremultipliedRgba8Buffer::set_pixel,
                (buffer, x, y, pixel),
                result,
            )
        } implies forall|u: int, v: int|
        0 <= u < (*buffer).size().width && 0 <= v < (*buffer).size().height ==> #[trigger] (*final(buffer)).at(u, v) == (if u == x && v == y {
            pixel@
        } else {
            (*buffer).at(u, v)
        }) by {
        assert forall|u: int, v: int|
            0 <= u < (*buffer).size().width && 0 <= v < (*buffer).size().height implies
            #[trigger] (*final(buffer)).at(u, v) == (if u == x && v == y {
            pixel@
        } else {
            (*buffer).at(u, v)
        }) by {
            law_set_pixels_are_read_back(&*buffer, &*final(buffer), x, y, pixel, u, v);
        }
    }
}

/// A copy of a buffer has its size and the same pixel at every position.
pub proof fn law_copies_are_equal(
    buffer: &ReferencePremultipliedRgba8Buffer,
    copy: ReferencePremultipliedRgba8Buffer,
    pixels: &[PremultipliedRgba8],
    bytes: u64,
)
    requires
        call_ensures(ReferencePremultipliedRgba8Buffer::duplicate, (buffer,), copy),
        call_ensures(ReferencePremultipliedRgba8Buffer::pixels, (&copy,), pixels),
        call_ensures(ReferencePremultipliedRgba8Buffer::byte_len, (&copy,), bytes),
    ensures
        copy.size().width == buffer.size().width,
        copy.size().height == buffer.size().height,
        pixels@ == buffer.spec_pixels(),
        bytes == 4 * pixels@.len(),
{
}

/// A buffer made of pixels shows them row by row, and is made exactly of as many as its size has
/// positions.
pub proof fn law_given_pixels_are_read_back(
    size: PhysicalSize,
    pixels: Vec<PremultipliedRgba8>,
    buffer: ReferencePremultipliedRgba8Buffer,
    x: u32,
    y: u32,
    read: Result<PremultipliedRgba8, Error>,
)
    requires
        call_ensures(
            ReferencePremultipliedRgba8Buffer::from_pixels,
            (size, pixels),
            Ok::<ReferencePremultipliedRgba8Buffer, Error>(buffer),
        ),
        call_ensures(ReferencePremultipliedRgba8Buffer::pixel, (&buffer, x, y), read),
        x < size.width,
        y < size.height,
    ensures
        pixels@.len() == size.width * size.height,
        buffer.size().width == size.width,
        buffer.size().height == size.height,
        read == Ok::<PremultipliedRgba8, Error>(pixels@[y * size.width + x]),
{
}

/// Mapping keeps positions: what is at a position of the result is what the map made of that position,
/// and a map that is refused was refused by some pixel of the buffer.
pub proof fn law_mapped_pixels_stay_in_place<
    F: Fn(PremultipliedRgba8) -> Result<PremultipliedRgba8, Error>,
>(
    buffer: &ReferencePremultipliedRgba8Buffer,
    map_pixel: F,
    result: Result<ReferencePremultipliedRgba8Buffer, Error>,
    i: int,
)
    requires
        call_ensures(
            ReferencePremultipliedRgba8Buffer::map_pixels::<F>,
            (buffer, map_pixel),
            result,
        ),
    ensures
        result matches Ok(mapped) ==> {
            &&& mapped.size().width == buffer.size().width
            &&& mapped.size().height == buffer.size().height
            &&& 0 <= i < buffer.spec_pixels().len() ==> call_ensures(
                map_pixel,
                (buffer.spec_pixels()[i],),
                Ok::<PremultipliedRgba8, Error>(mapped.spec_pixels()[i]),
            )
        },
        result matches Err(error) ==> exists|at: int|
            0 <= at < buffer.spec_pixels().len() && #[trigger] call_ensures(
                map_pixel,
                (buffer.spec_pixels()[at],),
                Err::<PremultipliedRgba8, Error>(error),
            ),
{
    if let Err(error) = result {
        let at = choose|at: int| #[trigger] buffer.is_first_rejection(map_pixel, at, error);
        assert(call_ensures(
            map_pixel,
            (buffer.spec_pixels()[at],),
            Err::<PremultipliedRgba8, Error>(error),
        ));
    }
}

} // verus!
