//! Authored filter lists and their executable pipelines.

pub mod color;
pub mod materialized;
pub mod execute;
