//! GPU rendering contracts: readback, reference pixels, filter pipelines, surface
//! dispatch and executable pass graphs.

pub mod error;
pub mod message;
pub mod geometry;
pub mod image;
pub mod readback;
pub mod reference;
pub mod scalar;
pub mod filter;
pub mod options;
pub mod runtime;
pub mod surface;
pub mod dispatch;
pub mod renderer;
pub mod frame;
pub mod fixture;
pub mod pass;
