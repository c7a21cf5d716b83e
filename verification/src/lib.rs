//! Logical planning for image data pipelines: a backend-neutral plan IR,
//! value-property annotations, an ordered optimizer, kernel placement
//! matching, and the vision domain's operations and planning rules.

pub mod text;
pub mod plan;
pub mod properties;
pub mod optimizer;
pub mod placement;
pub mod vision;
