//! Explicit texture readback.

pub mod layout;
pub mod lifecycle;
pub mod completion;
pub mod native;
pub mod texture;
pub mod observation;
