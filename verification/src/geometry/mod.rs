//! Functions over columns of native geometries.
//!
//! Geometries are opaque here: a column holds them as values, and what is computed of two of them
//! is passed in by the caller.

pub mod execute;
pub mod intersection;
