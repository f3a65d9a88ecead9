//! Lowered pass graphs: their exact subsets, their cache requests and their preparation.
//!
//! The executable subsets are numbered in the order in which they grow. C08 is the base spine:
//! one root clear, captures composited one after another, one present. C09 adds layer
//! composition, C10 color filters, C11 blurs and drop shadows, C12 one bounded backdrop.

pub mod model;
pub mod search;
pub mod edit;
pub mod c08;
pub mod c08_laws;
pub mod requests;
pub mod mirrored;
pub mod planned;
pub mod realization;
pub mod bound;
pub mod layout;
pub mod composite_layout;
pub mod closed;
pub mod color_operation;
pub mod c10;
pub mod c11;
pub mod c12;
pub mod composition;
pub mod capture_transform;
pub mod coverage;
pub mod lowering;
pub mod key_facts;
pub mod malformed;
pub mod executable;
pub mod prepared;
pub mod leases;
pub mod exercise;
pub mod preparation;
pub mod c08_malformed;
pub mod c08_spines;
pub mod c08_lowered;
pub mod c08_observation;
