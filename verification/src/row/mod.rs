//! Row functions: one computation per row, lifted over columns with nulls and constants.

pub mod agreement;
pub mod conformance;
pub mod element;
pub mod execute;
pub mod laws;
pub mod lift;
mod private;
pub mod result;
pub mod row_fn;
pub mod sink;
pub mod tuple;
