//! Functions over columns, written as a computation on one row.

pub mod array;
pub mod dtype;
pub mod error;
pub mod geometry;
pub mod interleave;
pub mod mask;
pub mod row;
pub mod tensor;
pub mod text;
pub mod varbinview;
