//! Tightly packed straight-alpha RGBA8 images.

use vstd::prelude::*;

use crate::error::{Error, InvalidValue};
use crate::geometry::PhysicalSize;

verus! {

/// The number of bytes of a tightly packed RGBA8 image of `size`.
pub open spec fn rgba_len(size: PhysicalSize) -> int {
    size.area() * 4
}

/// Accepts `length` if and only if it is the length of a tightly packed image of `size`.
pub fn validate_image_buffer_rgba_len(size: PhysicalSize, length: usize) -> (result: Result<(), Error>)
    ensures
        result == (if length == rgba_len(size) {
            Ok(())
        } else {
            Err(Error::Invalid(InvalidValue::ImageByteLength { size, length }))
        }),
{
    proof {
        size.lemma_area_bounds();
    }
    let pixels: u64 = size.width as u64 * size.height as u64;
    if pixels as u128 * 4 == length as u128 {
        Ok(())
    } else {
        Err(Error::Invalid(InvalidValue::ImageByteLength { size, length }))
    }
}

/// A straight-alpha RGBA8 image without row padding.
#[derive(Debug)]
pub struct ImageBuffer {
    size: PhysicalSize,
    rgba: Vec<u8>,
}

impl ImageBuffer {
    pub closed spec fn spec_size(&self) -> PhysicalSize {
        self.size
    }

    pub closed spec fn spec_rgba(&self) -> Seq<u8> {
        self.rgba@
    }

    /// An image holds exactly the bytes of its size.
    pub open spec fn wf(&self) -> bool {
        self.spec_rgba().len() == rgba_len(self.spec_size())
    }

    #[verifier::type_invariant]
    spec fn type_inv(&self) -> bool {
        self.wf()
    }

    /// Builds an image, or rejects bytes that do not fill `size` exactly.
    pub fn try_new(size: PhysicalSize, rgba: Vec<u8>) -> (result: Result<Self, Error>)
        ensures
            match result {
                Ok(image) => {
                    &&& rgba@.len() == rgba_len(size)
                    &&& image.wf()
                    &&& image.spec_size() == size
                    &&& image.spec_rgba() == rgba@
                },
                Err(error) => {
                    &&& rgba@.len() != rgba_len(size)
                    &&& error == Error::Invalid(
                        InvalidValue::ImageByteLength { size, length: rgba@.len() as usize },
                    )
                },
            },
    {
        match validate_image_buffer_rgba_len(size, rgba.len()) {
            Ok(()) => Ok(Self { size, rgba }),
            Err(error) => Err(error),
        }
    }

    pub fn size(&self) -> (size: PhysicalSize)
        ensures
            size == self.spec_size(),
    {
        self.size
    }

    /// The bytes of this image.
    pub fn into_rgba(self) -> (rgba: Vec<u8>)
        ensures
            rgba@ == self.spec_rgba(),
    {
        self.rgba
    }

    pub fn rgba(&self) -> (rgba: &[u8])
        ensures
            rgba@ == self.spec_rgba(),
            rgba@.len() == rgba_len(self.spec_size()),
    {
        proof {
            use_type_invariant(self);
        }
        self.rgba.as_slice()
    }
}

/// Bytes make an image exactly if there are four for each of its pixels; the image has the size and
/// the bytes that it was made of.
pub proof fn law_images_hold_four_bytes_per_pixel(
    size: PhysicalSize,
    rgba: Vec<u8>,
    result: Result<ImageBuffer, Error>,
)
    requires
        call_ensures(ImageBuffer::try_new, (size, rgba), result),
    ensures
        result is Ok <==> rgba@.len() == 4 * (size.width * size.height),
        result matches Ok(image) ==> {
            &&& forall|read: PhysicalSize| #[trigger]
                call_ensures(ImageBuffer::size, (&image,), read) ==> read.width == size.width
                    && read.height == size.height
            &&& forall|read: &[u8]| #[trigger] call_ensures(ImageBuffer::rgba, (&image,), read)
                ==> read@ == rgba@
            &&& forall|read: Vec<u8>| #[trigger]
                call_ensures(ImageBuffer::into_rgba, (image,), read) ==> read@ == rgba@
        },
        result matches Err(error) ==> error == Error::Invalid(
            InvalidValue::ImageByteLength { size, length: rgba@.len() as usize },
        ),
{
}

/// A byte length fits an image exactly when it is four times its width times its height; any other is
/// refused with that size and length.
pub proof fn law_byte_lengths_fit_their_size(
    size: PhysicalSize,
    length: usize,
    result: Result<(), Error>,
)
    requires
        call_ensures(validate_image_buffer_rgba_len, (size, length), result),
    ensures
        result is Ok <==> length == 4 * (size.width * size.height),
        result is Err ==> result == Err::<(), Error>(
            Error::Invalid((InvalidValue::ImageByteLength { size, length })),
        ),
{
}

} // verus!
