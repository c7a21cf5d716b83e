//! The vision domain: image operations, their planning rules, property
//! inference, stage compilation and the ordered batch delivery of the
//! worker runtime.

pub mod errors;
pub mod transforms;
pub mod image_op;
pub mod transform;
pub mod cache;
pub mod index_op;
pub mod runtime;
pub mod logical;
pub mod inference;
pub mod compile;
pub mod stages;
pub mod planner;
pub mod pipeline;
pub mod passes;
pub mod lowering;
