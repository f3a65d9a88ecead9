//! Sizes in device pixels.

use vstd::prelude::*;

verus! {

/// A width and a height in device pixels.
#[derive(Clone, Copy, Debug, PartialEq, Eq, Structural)]
pub struct PhysicalSize {
    pub width: u32,
    pub height: u32,
}

impl PhysicalSize {
    pub fn new(width: u32, height: u32) -> (size: Self)
        ensures
            size.width == width,
            size.height == height,
    {
        Self { width, height }
    }

    pub fn width(self) -> (width: u32)
        ensures
            width == self.width,
    {
        self.width
    }

    pub fn height(self) -> (height: u32)
        ensures
            height == self.height,
    {
        self.height
    }

    /// The number of pixels that the size covers.
    pub open spec fn area(self) -> int {
        self.width * self.height
    }

    pub proof fn lemma_area_bounds(self)
        ensures
            0 <= self.area() <= 0xffff_ffff * 0xffff_ffff,
            (self.area() == 0) == (self.width == 0 || self.height == 0),
    {
        let width = self.width as int;
        let height = self.height as int;
        assert(0 <= width * height <= 0xffff_ffff * 0xffff_ffff) by (nonlinear_arith)
            requires
                0 <= width <= 0xffff_ffff,
                0 <= height <= 0xffff_ffff,
        ;
        assert((width * height == 0) == (width == 0 || height == 0)) by (nonlinear_arith);
    }

    /// Whether the size covers no pixel.
    pub fn is_empty(self) -> (empty: bool)
        ensures
            empty == (self.area() == 0),
    {
        proof {
            self.lemma_area_bounds();
        }
        self.width == 0 || self.height == 0
    }
}

/// A size has the width and the height that it was made of, and is empty exactly if one of them is
/// zero.
pub proof fn law_sizes_keep_width_and_height(width: u32, height: u32, size: PhysicalSize)
    requires
        call_ensures(PhysicalSize::new, (width, height), size),
    ensures
        forall|read: u32| #[trigger] call_ensures(PhysicalSize::width, (size,), read) ==> read
            == width,
        forall|read: u32| #[trigger] call_ensures(PhysicalSize::height, (size,), read) ==> read
            == height,
        forall|empty: bool| #[trigger] call_ensures(PhysicalSize::is_empty, (size,), empty)
            ==> empty == (width == 0 || height == 0),
{
    size.lemma_area_bounds();
}

} // verus!
