//! CPU reference pixels: the byte-exact oracle for composition, masks and filters.

pub mod pixel;
pub mod index;
pub mod buffer;
pub mod convert;
pub mod shadow;
